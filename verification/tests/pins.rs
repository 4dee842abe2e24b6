use werust_core::pins::{
    civil_from_days, format_utc_date, may_replace_store, now_unix_secs, pin_key, unix_secs_or_zero,
    MutableNameTrust,
    PinEntry, PinStoreRead, TrustedNamePin, TrustedNamePins, UndeterminableTrust,
};
use werust_core::TrustPosture;

#[test]
fn the_blessed_date_is_a_legible_calendar_day() {
    assert_eq!(format_utc_date(0), "1970-01-01");
    assert_eq!(format_utc_date(1_800_000_000), "2027-01-15");
    assert_eq!(format_utc_date(1_709_164_800), "2024-02-29");
    assert_eq!(format_utc_date(1_709_251_200), "2024-03-01");
    assert_eq!(format_utc_date(951_782_400), "2000-02-29");
}

#[test]
fn the_calendar_conversion_walks_every_day_for_four_centuries_without_a_gap() {
    let (mut y, mut m, mut d) = (1970i64, 1u32, 1u32);
    for day in 0..146_097i64 {
        let (year, month, dom) = civil_from_days(day);
        assert_eq!((year, month, dom), (y, m, d), "day {day} broke the sequence");
        let leap = (y % 4 == 0 && y % 100 != 0) || y % 400 == 0;
        let last = match m {
            1 | 3 | 5 | 7 | 8 | 10 | 12 => 31,
            4 | 6 | 9 | 11 => 30,
            _ if leap => 29,
            _ => 28,
        };
        if d == last {
            d = 1;
            if m == 12 {
                m = 1;
                y += 1;
            } else {
                m += 1;
            }
        } else {
            d += 1;
        }
    }
}

#[test]
fn now_is_a_plausible_present_day_timestamp() {
    let now = now_unix_secs();
    assert!(now > 1_700_000_000, "not before 2023: {now}");
    assert!(now < 4_000_000_000, "not a millisecond value: {now}");
}

#[test]
fn days_before_the_epoch_and_far_ahead_convert_too() {
    assert_eq!(civil_from_days(-1), (1969, 12, 31));
    assert_eq!(civil_from_days(-719_468), (0, 3, 1));
    assert_eq!(civil_from_days(11_016), (2000, 2, 29));
    assert_eq!(format_utc_date(253_402_300_799), "9999-12-31");
    assert_eq!(format_utc_date(253_402_300_800), "10000-01-01");
    assert_eq!(format_utc_date(86_399), "1970-01-01");
    assert_eq!(format_utc_date(86_400), "1970-01-02");
}

fn pin(name: &str, cid: &str) -> TrustedNamePin {
    TrustedNamePin {
        name: name.into(),
        cid: cid.into(),
        blessed_at: 1_800_000_000,
        posture: TrustPosture::NameViaTrustedRpc,
    }
}

#[test]
fn a_later_resolution_to_a_different_cid_is_a_change_not_a_silent_accept() {
    let changed = MutableNameTrust {
        name: "ronan.eth".into(),
        cid: "bafynew".into(),
        blessed: Some(pin("ronan.eth", "bafyold")),
    };
    assert!(changed.is_changed());
    assert!(changed.is_blessed());
    assert!(!changed.is_unchanged());
    assert!(changed.is_blessable());
    assert_eq!(changed.blessed_on().as_deref(), Some("2027-01-15"));
    let same = MutableNameTrust { cid: "bafyold".into(), ..changed.clone() };
    assert!(!same.is_changed());
    assert!(same.is_unchanged());
    assert!(!same.is_blessable());
    let unblessed = MutableNameTrust { blessed: None, ..changed.clone() };
    assert!(!unblessed.is_changed());
    assert!(!unblessed.is_blessed());
    assert!(unblessed.is_blessable());
    assert_eq!(unblessed.blessed_on(), None);
}

#[test]
fn re_blessing_replaces_the_pin_rather_than_growing_a_second_one() {
    let mut pins = TrustedNamePins::new();
    pins.bless("ronan.eth", "bafyold", TrustPosture::MutableName, 10);
    pins.bless("ronan.eth", "bafynew", TrustPosture::NameViaTrustedRpc, 20);
    assert_eq!(pins.len(), 1);
    let pin = pins.get("ronan.eth").expect("still one pin");
    assert_eq!(pin.cid, "bafynew");
    assert_eq!(pin.blessed_at, 20);
    assert_eq!(pin.posture, TrustPosture::NameViaTrustedRpc);
}

#[test]
fn a_names_casing_cannot_split_it_across_two_pins() {
    let mut pins = TrustedNamePins::new();
    pins.bless("Ronan.ETH", "bafyone", TrustPosture::MutableName, 1);
    assert_eq!(pins.len(), 1);
    assert_eq!(pins.get(" ronan.eth ").map(|p| p.cid.as_str()), Some("bafyone"));
    assert!(pins.check("RONAN.eth", "bafyother").is_changed());
    assert_eq!(pin_key("  MiXeD.Eth\t"), "mixed.eth");
}

#[test]
fn both_ens_and_ipns_style_names_are_blessable_and_checked_the_same_way() {
    let mut pins = TrustedNamePins::new();
    pins.bless("ronan.eth", "bafyens", TrustPosture::NameViaTrustedRpc, 1);
    pins.bless("k51qzifixture", "bafyipns", TrustPosture::MutableName, 2);
    assert!(pins.check("ronan.eth", "bafyens").is_unchanged());
    assert!(pins.check("ronan.eth", "bafyelse").is_changed());
    assert!(pins.check("k51qzifixture", "bafyipns").is_unchanged());
    assert!(pins.check("k51qzifixture", "bafyelse").is_changed());
    assert!(!pins.check("stranger.eth", "bafyany").is_blessed());
}

#[test]
fn the_store_keeps_its_pins_in_name_order() {
    let mut pins = TrustedNamePins::new();
    assert!(pins.is_empty());
    for name in ["c.eth", "a.eth", "b.eth", "a.eth"] {
        pins.bless(name, "bafy", TrustPosture::MutableName, 1);
    }
    let names: Vec<&str> = pins.pins().iter().map(|p| p.name.as_str()).collect();
    assert_eq!(names, vec!["a.eth", "b.eth", "c.eth"]);
    let checked = pins.check("B.ETH", "bafy");
    assert_eq!(checked.name, "B.ETH");
    assert_eq!(checked.blessed.map(|p| p.name), Some("b.eth".to_string()));
}

fn entry(name: Option<&str>, cid: Option<&str>, at: Option<u64>, posture: Option<&str>) -> PinEntry {
    PinEntry {
        name: name.map(str::to_string),
        cid: cid.map(str::to_string),
        blessed_at: at,
        posture: posture.map(str::to_string),
    }
}

#[test]
fn every_posture_reads_back_from_its_wire_spelling() {
    let mut pins = TrustedNamePins::new();
    let mut entries = Vec::new();
    for (i, posture) in TrustPosture::all().into_iter().enumerate() {
        let name = format!("name{i}.eth");
        let cid = format!("bafy{i}");
        pins.bless(&name, &cid, posture, i as u64);
        entries.push(entry(
            Some(&name),
            Some(&cid),
            Some(i as u64),
            Some(werust_core::trust_posture_wire_name(posture)),
        ));
    }
    let read = TrustedNamePins::from_entries(&entries).expect("a readable store");
    assert_eq!(read, pins);
    assert_eq!(read.len(), TrustPosture::all().len());
}

#[test]
fn an_entry_werust_cannot_read_honestly_is_reported_not_dropped() {
    let cases = [
        (entry(None, Some("bafy"), Some(1), Some("mutable-name")), "entry 1 records no name"),
        (entry(Some("  "), Some("bafy"), Some(1), Some("mutable-name")), "entry 1 records an empty name"),
        (entry(Some("a.eth"), None, Some(1), Some("mutable-name")), "entry 1 (`a.eth`) records no cid"),
        (entry(Some("a.eth"), Some(""), Some(1), Some("mutable-name")), "entry 1 (`a.eth`) records no cid"),
        (
            entry(Some("A.eth"), Some("bafy"), None, Some("mutable-name")),
            "entry 1 (`a.eth`) records no bless timestamp",
        ),
        (entry(Some("a.eth"), Some("bafy"), Some(1), None), "entry 1 (`a.eth`) records no trust posture"),
        (
            entry(Some("a.eth"), Some("bafy"), Some(1), Some("totally-trusted")),
            "entry 1 (`a.eth`) records a trust posture this build does not know: `totally-trusted`",
        ),
    ];
    for (bad, reason) in cases {
        let why = TrustedNamePins::from_entries(&vec![bad]).expect_err("unreadable");
        assert_eq!(why, UndeterminableTrust::UnreadableEntry(reason.to_string()));
        assert!(!why.message().is_empty());
    }
    let second_bad = vec![
        entry(Some("a.eth"), Some("bafy"), Some(1), Some("mutable-name")),
        entry(Some("b.eth"), Some("bafy"), Some(1), Some("from-the-future")),
    ];
    assert_eq!(
        TrustedNamePins::from_entries(&second_bad),
        Err(UndeterminableTrust::UnreadableEntry(
            "entry 2 (`b.eth`) records a trust posture this build does not know: `from-the-future`"
                .to_string()
        ))
    );
}

#[test]
fn two_entries_for_one_name_are_reported_by_the_first_name_in_order() {
    let dup = vec![
        entry(Some("z.eth"), Some("bafy1"), Some(1), Some("mutable-name")),
        entry(Some("a.eth"), Some("bafyone"), Some(1), Some("mutable-name")),
        entry(Some("Z.ETH"), Some("bafy2"), Some(2), Some("mutable-name")),
        entry(Some("A.eth"), Some("bafytwo"), Some(2), Some("mutable-name")),
    ];
    let why = TrustedNamePins::from_entries(&dup).expect_err("two entries, one name");
    assert_eq!(why, UndeterminableTrust::DuplicateName("a.eth".to_string()));
    assert_eq!(why.message(), "pins.json records two trusted-name pins for `a.eth`");
    assert_eq!(TrustedNamePins::from_entries(&Vec::new()), Ok(TrustedNamePins::new()));
}

#[test]
fn a_store_that_cannot_be_read_is_never_replaced() {
    let unreadable: Result<TrustedNamePins, UndeterminableTrust> =
        Err(UndeterminableTrust::Unparseable("not json".to_string()));
    assert!(!may_replace_store(&unreadable));
    assert!(may_replace_store(&Ok(TrustedNamePins::new())));
    assert_eq!(
        PinStoreRead::from_read(unreadable.clone()),
        PinStoreRead::Undeterminable(UndeterminableTrust::Unparseable("not json".to_string()))
    );
    assert_eq!(
        UndeterminableTrust::Unparseable("eof".to_string()).message(),
        "pins.json is not a trusted-name store werust can read: eof"
    );
    assert_eq!(
        UndeterminableTrust::Unreadable("denied".to_string()).message(),
        "pins.json could not be read: denied"
    );
}

#[test]
fn the_json_wire_form_round_trips_every_posture_in_the_shared_vocabulary() {
    let mut pins = TrustedNamePins::default();
    let all = TrustPosture::all();
    for (i, posture) in all.iter().copied().enumerate() {
        pins.bless(&format!("name{i}.eth"), &format!("bafy{i}"), posture, i as u64);
    }
    let round_tripped = TrustedNamePins::from_json(&pins.to_json()).expect("a readable store");
    assert_eq!(round_tripped, pins);
    assert_eq!(round_tripped.len(), all.len());
    assert_eq!(round_tripped.to_json(), pins.to_json());
}

#[test]
fn the_wire_form_is_the_compact_sorted_document() {
    let mut pins = TrustedNamePins::default();
    assert_eq!(pins.to_json(), r#"{"pins":[]}"#);
    pins.bless("b.eth", "bafyb", TrustPosture::MutableName, 7);
    pins.bless("A.eth", "bafya", TrustPosture::NameViaTrustedRpc, 3);
    assert_eq!(
        pins.to_json(),
        r#"{"pins":[{"blessedAt":3,"cid":"bafya","name":"a.eth","posture":"name-via-trusted-rpc"},{"blessedAt":7,"cid":"bafyb","name":"b.eth","posture":"mutable-name"}]}"#
    );
    let quoted = {
        let mut p = TrustedNamePins::default();
        p.bless("q\"uote.eth", "ba\\fy", TrustPosture::MutableName, 1);
        p.to_json()
    };
    assert_eq!(
        quoted,
        r#"{"pins":[{"blessedAt":1,"cid":"ba\\fy","name":"q\"uote.eth","posture":"mutable-name"}]}"#
    );
    assert_eq!(
        TrustedNamePins::from_json(&quoted).unwrap().get("q\"uote.eth").unwrap().cid,
        "ba\\fy"
    );
}

#[test]
fn a_document_werust_cannot_read_is_reported_never_emptied() {
    for bad in [
        "not json {",
        "",
        "[]",
        "{}",
        r#"{"pins":"nope"}"#,
        r#"{"pins":{}}"#,
        r#"{"pins":[{"name":"a.eth","cid":"baf"#,
    ] {
        let why = TrustedNamePins::from_json(bad).expect_err("not a store werust can read");
        assert!(
            matches!(why, UndeterminableTrust::Unparseable(_)),
            "`{bad}` is unparseable, got {why:?}"
        );
        assert!(!why.message().is_empty());
    }
    assert_eq!(
        TrustedNamePins::from_json("{}"),
        Err(UndeterminableTrust::Unparseable("no `pins` array".to_string()))
    );
    for bad in [
        r#"{"pins":[{"name":"a.eth","blessedAt":1,"posture":"mutable-name"}]}"#,
        r#"{"pins":[{"name":"a.eth","cid":"bafy","posture":"mutable-name"}]}"#,
        r#"{"pins":[{"name":"a.eth","cid":"bafy","blessedAt":1}]}"#,
        r#"{"pins":[{"name":"a.eth","cid":"bafy","blessedAt":1,"posture":"totally-trusted"}]}"#,
        r#"{"pins":[{"name":"  ","cid":"bafy","blessedAt":1,"posture":"mutable-name"}]}"#,
    ] {
        let why = TrustedNamePins::from_json(bad).expect_err("an entry werust cannot read honestly");
        assert!(
            matches!(why, UndeterminableTrust::UnreadableEntry(_)),
            "`{bad}` is an unreadable entry, got {why:?}"
        );
    }
    assert_eq!(
        TrustedNamePins::from_json(
            r#"{"pins":[{"name":"a.eth","cid":"bafy","blessedAt":1,"posture":"from-the-future"}]}"#
        ),
        Err(UndeterminableTrust::UnreadableEntry(
            "entry 1 (`a.eth`) records a trust posture this build does not know: `from-the-future`"
                .to_string()
        ))
    );
    let why = TrustedNamePins::from_json(
        r#"{"pins":[
            {"name":"a.eth","cid":"bafyone","blessedAt":1,"posture":"mutable-name"},
            {"name":"A.eth","cid":"bafytwo","blessedAt":2,"posture":"mutable-name"}
        ]}"#,
    )
    .expect_err("two entries, one name");
    assert!(
        matches!(&why, UndeterminableTrust::DuplicateName(name) if name == "a.eth"),
        "a duplicate key is reported, got {why:?}"
    );
}

#[test]
fn a_clock_before_the_epoch_stamps_zero() {
    assert_eq!(unix_secs_or_zero(Some(1_700_000_000)), 1_700_000_000);
    assert_eq!(unix_secs_or_zero(None), 0);
}

#[test]
fn a_store_whose_text_needs_escapes_reads_back_unchanged() {
    let mut pins = TrustedNamePins::default();
    pins.bless("tab\tname.eth", "cid\nwith\u{7}controls", TrustPosture::ContentVerified, u64::MAX);
    pins.bless("ünïcode.eth", "bafy\"q", TrustPosture::UnverifiedOrigin, 0);
    let text = pins.to_json();
    assert!(text.contains(r#""cid":"cid\nwith\u0007controls""#), "{text}");
    assert!(text.contains(r#""blessedAt":18446744073709551615"#), "{text}");
    let back = TrustedNamePins::from_json(&text).expect("a readable store");
    assert_eq!(back, pins);
    assert_eq!(back.to_json(), text);
}
