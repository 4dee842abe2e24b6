use std::collections::BTreeSet;

use werust_core::pins::{MutableNameTrust, TrustedNamePin};
use werust_core::{
    chrome_css_class_sets, error_banner_css_class, error_banner_css_classes, error_banner_text,
    error_banner_visible, invalid_entry_badge_text, invalid_entry_badge_visible,
    load_progress_hint, load_progress_tooltip, load_progress_visible, status_line,
    trust_indicator, trust_indicator_css_class, trust_indicator_css_classes,
    trust_indicator_detail, trust_pin_action_label, trust_pin_action_visible, trust_pin_detail,
    trust_posture_from_wire_name, trust_posture_wire_name, ChromeState, CssClassFamily,
    FailureKind, LoadState, LoadStep, TrustPosture, STOP_AFFORDANCE_LABEL,
};

#[test]
fn failure_kind_classifies_a_timeout_as_transient_and_a_protocol_reason_as_hard() {
    for transient in [
        "transport error: timeout: global",
        "rpc transport error: connection refused",
        "content source error: transport error: timeout",
        "IPNS record fetch failed: connection refused",
        "io error: read timed out",
    ] {
        assert_eq!(
            FailureKind::classify(transient),
            FailureKind::Transient,
            "a timeout/transport reason is retryable: {transient}"
        );
        assert!(FailureKind::classify(transient).is_retryable());
    }
    for hard in [
        "points to Swarm, not supported",
        "IPNS record did not verify: dag-cbor data does not match the protobuf fields",
        "block hash mismatch: bytes do not match cid bafy",
        "this name has no ENS resolver set",
        "this name has no contenthash set",
        "invalid content identifier: bafybad",
    ] {
        assert_eq!(
            FailureKind::classify(hard),
            FailureKind::Hard,
            "an unsupported/verification/malformed reason is hard: {hard}"
        );
        assert!(!FailureKind::classify(hard).is_retryable());
    }
    assert_eq!(
        FailureKind::classify("IPNS record did not verify: the record expired"),
        FailureKind::Hard
    );
}

#[test]
fn a_marker_in_any_ascii_casing_still_classifies() {
    assert_eq!(FailureKind::classify("Read TIMED OUT"), FailureKind::Transient);
    assert_eq!(FailureKind::classify("Hash Mismatch after timeout"), FailureKind::Hard);
    assert_eq!(FailureKind::classify(""), FailureKind::Hard);
    assert_eq!(FailureKind::Transient.wire_name(), "transient");
    assert_eq!(FailureKind::Hard.wire_name(), "hard");
}

#[test]
fn load_step_hint_and_wire_names_are_stable_and_idle_has_no_hint() {
    assert_eq!(LoadStep::Idle.hint(), "");
    assert_eq!(LoadStep::default(), LoadStep::Idle);
    for step in [
        LoadStep::ResolvingName,
        LoadStep::FetchingRecord,
        LoadStep::FetchingContent,
        LoadStep::Rendering,
    ] {
        assert!(!step.hint().is_empty(), "{step:?} has a hint");
    }
    assert_eq!(LoadStep::ResolvingName.wire_name(), "resolving-name");
    assert_eq!(LoadStep::FetchingRecord.wire_name(), "fetching-record");
    assert_eq!(LoadStep::FetchingContent.wire_name(), "fetching-content");
    assert_eq!(LoadStep::Rendering.wire_name(), "rendering");
    assert_eq!(LoadStep::Idle.wire_name(), "idle");
}

#[test]
fn status_line_names_the_live_pipeline_step_while_loading() {
    let fetching = ChromeState {
        load_state: LoadState::Started,
        load_step: LoadStep::FetchingContent,
        ..ChromeState::default()
    };
    assert_eq!(status_line(&fetching), "loading… — fetching content");
    let resolving = ChromeState {
        load_state: LoadState::Started,
        load_step: LoadStep::ResolvingName,
        ..ChromeState::default()
    };
    assert_eq!(status_line(&resolving), "loading… — resolving name");
    let rendering = ChromeState {
        load_state: LoadState::Committed,
        load_step: LoadStep::Rendering,
        ..ChromeState::default()
    };
    assert_eq!(status_line(&rendering), "loading… — rendering");
    let loading_no_step = ChromeState {
        load_state: LoadState::Started,
        load_step: LoadStep::Idle,
        ..ChromeState::default()
    };
    assert_eq!(status_line(&loading_no_step), "loading…");
    assert_eq!(status_line(&ChromeState::default()), "idle");
    let failed = ChromeState {
        load_state: LoadState::Failed,
        last_error: Some("points to Swarm, not supported".into()),
        ..ChromeState::default()
    };
    assert_eq!(status_line(&failed), "failed: points to Swarm, not supported");
}

#[test]
fn the_progress_hint_names_each_phase_and_is_empty_when_settled() {
    for settled in [
        ChromeState::default(),
        ChromeState { load_state: LoadState::Finished, ..ChromeState::default() },
        ChromeState {
            load_state: LoadState::Failed,
            last_error: Some("name not resolved".into()),
            ..ChromeState::default()
        },
    ] {
        assert!(!load_progress_visible(&settled));
        assert_eq!(load_progress_hint(&settled), "");
    }
    for (load_state, load_step, hint) in [
        (LoadState::Started, LoadStep::Idle, "loading"),
        (LoadState::Started, LoadStep::ResolvingName, "resolving name"),
        (LoadState::Started, LoadStep::FetchingRecord, "fetching record"),
        (LoadState::Started, LoadStep::FetchingContent, "fetching content"),
        (LoadState::Committed, LoadStep::Rendering, "rendering"),
    ] {
        let state = ChromeState { load_state, load_step, ..ChromeState::default() };
        assert!(load_progress_visible(&state));
        assert_eq!(load_progress_hint(&state), hint);
    }
    let resolving_before_handoff = ChromeState {
        load_state: LoadState::Idle,
        load_step: LoadStep::ResolvingName,
        ..ChromeState::default()
    };
    assert!(!resolving_before_handoff.is_loading());
    assert!(load_progress_visible(&resolving_before_handoff));
    assert_eq!(load_progress_hint(&resolving_before_handoff), "resolving name");
}

#[test]
fn the_url_bar_progress_tooltip_is_composed_once_here_for_every_painter() {
    for settled in [
        ChromeState::default(),
        ChromeState { load_state: LoadState::Finished, ..ChromeState::default() },
    ] {
        assert_eq!(load_progress_tooltip(&settled, STOP_AFFORDANCE_LABEL), None);
    }
    let loading = ChromeState {
        load_state: LoadState::Started,
        load_step: LoadStep::FetchingContent,
        ..ChromeState::default()
    };
    assert_eq!(
        load_progress_tooltip(&loading, STOP_AFFORDANCE_LABEL).as_deref(),
        Some("fetching content… — press Stop (✕) to cancel")
    );
    let resolving = ChromeState {
        load_state: LoadState::Idle,
        load_step: LoadStep::ResolvingName,
        ..ChromeState::default()
    };
    assert!(!resolving.is_loading());
    assert_eq!(
        load_progress_tooltip(&resolving, STOP_AFFORDANCE_LABEL).as_deref(),
        Some("resolving name…")
    );
    for step in LoadStep::all() {
        let state = ChromeState {
            load_state: LoadState::Started,
            load_step: step,
            ..ChromeState::default()
        };
        let tooltip = load_progress_tooltip(&state, STOP_AFFORDANCE_LABEL)
            .expect("a load in flight names its phase");
        assert!(tooltip.starts_with(load_progress_hint(&state)));
    }
    assert_eq!(
        load_progress_tooltip(&loading, "Esc").as_deref(),
        Some("fetching content… — press Stop (Esc) to cancel")
    );
    assert_eq!(STOP_AFFORDANCE_LABEL, "✕");
}

fn every_failure_reason() -> Vec<Option<&'static str>> {
    let mut reasons: Vec<Option<&'static str>> = vec![None];
    for kind in FailureKind::all() {
        let reason = match kind {
            FailureKind::Transient => "transport error: timeout: global",
            FailureKind::Hard => "points to Swarm, not supported",
        };
        assert_eq!(FailureKind::classify(reason), kind);
        reasons.push(Some(reason));
    }
    reasons
}

fn every_mutable_name_shape() -> Vec<Option<MutableNameTrust>> {
    let pin = TrustedNamePin {
        name: "ronan.eth".to_string(),
        cid: "bafyblessed".to_string(),
        blessed_at: 1_800_000_000,
        posture: TrustPosture::NameViaTrustedRpc,
    };
    vec![
        None,
        Some(MutableNameTrust {
            name: "ronan.eth".to_string(),
            cid: "bafyblessed".to_string(),
            blessed: None,
        }),
        Some(MutableNameTrust {
            name: "ronan.eth".to_string(),
            cid: "bafyblessed".to_string(),
            blessed: Some(pin.clone()),
        }),
        Some(MutableNameTrust {
            name: "ronan.eth".to_string(),
            cid: "bafychanged".to_string(),
            blessed: Some(pin),
        }),
    ]
}

fn every_chrome_state_shape() -> Vec<ChromeState> {
    let mut shapes = Vec::new();
    let load_states = [
        LoadState::Idle,
        LoadState::Started,
        LoadState::Committed,
        LoadState::Finished,
        LoadState::Failed,
    ];
    for load_state in load_states {
        for load_step in LoadStep::all() {
            for posture in TrustPosture::all() {
                for last_error in every_failure_reason() {
                    for invalid_entry in [None, Some("not a url")] {
                        for mutable_name in every_mutable_name_shape() {
                            for can_go_back in [false, true] {
                                for can_go_forward in [false, true] {
                                    for url_text in ["", "ipfs://bafy/index.html"] {
                                        shapes.push(ChromeState {
                                            url_text: url_text.to_string(),
                                            load_state,
                                            load_step,
                                            trust_posture: posture,
                                            last_error: last_error.map(str::to_string),
                                            invalid_entry: invalid_entry.map(str::to_string),
                                            mutable_name: mutable_name.clone(),
                                            can_go_back,
                                            can_go_forward,
                                        });
                                    }
                                }
                            }
                        }
                    }
                }
            }
        }
    }
    shapes
}

#[test]
fn every_chrome_css_class_the_derivation_can_return_is_in_the_exported_set() {
    let trust_set = trust_indicator_css_classes();
    let banner_set = error_banner_css_classes();
    let mut produced_trust = BTreeSet::new();
    let mut produced_banner = BTreeSet::new();
    for state in every_chrome_state_shape() {
        let trust = trust_indicator_css_class(&state);
        assert!(trust_set.contains(&trust), "`{trust}` is not in the exported set");
        produced_trust.insert(trust);
        if error_banner_visible(&state) {
            let banner = error_banner_css_class(&state);
            assert!(banner_set.contains(&banner), "`{banner}` is not in the exported set");
            produced_banner.insert(banner);
        }
    }
    assert_eq!(produced_trust, trust_set.iter().copied().collect::<BTreeSet<_>>());
    assert_eq!(produced_banner, banner_set.iter().copied().collect::<BTreeSet<_>>());
    let complete: Vec<&str> =
        chrome_css_class_sets().iter().flat_map(|family| family.iter().copied()).collect();
    let unique: BTreeSet<&str> = complete.iter().copied().collect();
    assert_eq!(unique.len(), complete.len());
    assert_eq!(
        unique,
        produced_trust.union(&produced_banner).copied().collect::<BTreeSet<_>>()
    );
    for class in complete {
        assert!(
            !class.is_empty() && !class.contains('.') && !class.chars().any(char::is_whitespace)
        );
    }
}

#[test]
fn the_family_aggregate_holds_every_exported_class_family() {
    let aggregate: Vec<Vec<&str>> =
        CssClassFamily::all().iter().map(|family| family.classes()).collect();
    for exported in [trust_indicator_css_classes(), error_banner_css_classes()] {
        assert!(aggregate.contains(&exported));
    }
    assert_eq!(aggregate.len(), 2, "every family is named here, so a new one is a deliberate edit");
    for toggled in chrome_css_class_sets() {
        assert!(aggregate.contains(&toggled));
    }
    assert_eq!(chrome_css_class_sets().len(), aggregate.len());
    let all: Vec<&str> = aggregate.iter().flat_map(|f| f.iter().copied()).collect();
    let unique: BTreeSet<&str> = all.iter().copied().collect();
    assert_eq!(unique.len(), all.len());
    for family in &aggregate {
        assert!(!family.is_empty());
    }
}

#[test]
fn a_transient_timeout_banner_is_distinct_and_retryable_while_a_hard_fail_keeps_its_reason() {
    let transient = ChromeState {
        load_state: LoadState::Failed,
        last_error: Some("transport error: timeout: global".into()),
        ..ChromeState::default()
    };
    assert!(error_banner_visible(&transient));
    let text = error_banner_text(&transient);
    assert!(text.to_lowercase().contains("retry"));
    assert!(text.contains("transport error: timeout: global"));
    assert_eq!(error_banner_css_class(&transient), "error-banner-transient");
    let hard = ChromeState {
        load_state: LoadState::Failed,
        last_error: Some("points to Swarm, not supported".into()),
        ..ChromeState::default()
    };
    let hard_text = error_banner_text(&hard);
    assert!(hard_text.contains("failed to load"));
    assert!(hard_text.contains("points to Swarm, not supported"));
    assert!(!hard_text.to_lowercase().contains("retry"));
    assert_eq!(error_banner_css_class(&hard), "error-banner");
    let verify_fail = ChromeState {
        load_state: LoadState::Failed,
        last_error: Some("IPNS record did not verify: bad signature".into()),
        ..ChromeState::default()
    };
    assert_eq!(error_banner_css_class(&verify_fail), "error-banner");
    assert!(!error_banner_text(&verify_fail).to_lowercase().contains("retry"));
}

#[test]
fn status_line_prefers_a_failure_then_loading_then_idle() {
    let idle = ChromeState::default();
    assert_eq!(status_line(&idle), "idle");
    let loading = ChromeState { load_state: LoadState::Started, ..ChromeState::default() };
    assert_eq!(status_line(&loading), "loading…");
    let failed = ChromeState {
        load_state: LoadState::Failed,
        last_error: Some("name not resolved".into()),
        ..ChromeState::default()
    };
    assert_eq!(status_line(&failed), "failed: name not resolved");
}

#[test]
fn an_invalid_entry_shows_the_badge_distinct_from_a_load_error() {
    let idle = ChromeState::default();
    assert!(!invalid_entry_badge_visible(&idle));
    assert_eq!(invalid_entry_badge_text(&idle), "");
    let load_failure = ChromeState {
        load_state: LoadState::Failed,
        last_error: Some("name not resolved".into()),
        ..ChromeState::default()
    };
    assert!(!invalid_entry_badge_visible(&load_failure));
    let invalid = ChromeState {
        url_text: "not a url".into(),
        invalid_entry: Some("not a url".into()),
        ..ChromeState::default()
    };
    assert!(invalid_entry_badge_visible(&invalid));
    assert!(invalid_entry_badge_text(&invalid).contains("invalid URL"));
    assert!(!error_banner_visible(&invalid));
}

#[test]
fn a_failed_load_raises_a_prominent_error_banner_with_the_accurate_protocol_named_reason() {
    let idle = ChromeState::default();
    assert!(!error_banner_visible(&idle));
    assert_eq!(error_banner_text(&idle), "");
    let loading = ChromeState { load_state: LoadState::Started, ..ChromeState::default() };
    assert!(!error_banner_visible(&loading));
    let ipns_failed = ChromeState {
        load_state: LoadState::Failed,
        last_error: Some(
            "IPNS record did not verify: dag-cbor data does not match the protobuf fields".into(),
        ),
        ..ChromeState::default()
    };
    assert!(error_banner_visible(&ipns_failed));
    let text = error_banner_text(&ipns_failed);
    assert!(text.contains("IPNS record did not verify"));
    assert!(text.contains("failed to load"));
    let unsupported = ChromeState {
        load_state: LoadState::Failed,
        last_error: Some("points to Swarm, not supported".into()),
        ..ChromeState::default()
    };
    assert!(error_banner_visible(&unsupported));
    assert!(error_banner_text(&unsupported).contains("points to Swarm"));
}

#[test]
fn trust_indicator_shows_a_neutral_loading_state_that_hides_the_posture_while_loading() {
    for posture in [
        TrustPosture::UnverifiedOrigin,
        TrustPosture::ContentVerified,
        TrustPosture::NameViaTrustedRpc,
        TrustPosture::MutableName,
    ] {
        let loading = ChromeState {
            load_state: LoadState::Started,
            trust_posture: posture,
            ..ChromeState::default()
        };
        assert_eq!(trust_indicator(&loading), "⋯ loading…");
        assert!(!trust_indicator(&loading).to_lowercase().contains("verified"));
        assert_eq!(trust_indicator_css_class(&loading), "trust-loading");
        assert!(trust_indicator_detail(&loading).to_lowercase().contains("loading"));
        assert!(!trust_indicator_detail(&loading).to_lowercase().contains("verified"));
    }
    let committed = ChromeState {
        load_state: LoadState::Committed,
        trust_posture: TrustPosture::ContentVerified,
        ..ChromeState::default()
    };
    assert_eq!(trust_indicator(&committed), "⋯ loading…");
    let settled = ChromeState {
        load_state: LoadState::Finished,
        trust_posture: TrustPosture::ContentVerified,
        ..ChromeState::default()
    };
    assert_eq!(trust_indicator(&settled), "✓ verified");
    let failed = ChromeState {
        load_state: LoadState::Failed,
        trust_posture: TrustPosture::UnverifiedOrigin,
        last_error: Some("name not resolved".into()),
        ..ChromeState::default()
    };
    assert_eq!(trust_indicator(&failed), "⚠ unverified origin");
}

#[test]
fn trust_indicator_distinguishes_verified_from_unverified_and_is_a_pure_fn_of_posture() {
    let served = ChromeState {
        trust_posture: TrustPosture::UnverifiedOrigin,
        ..ChromeState::default()
    };
    let verified = ChromeState {
        trust_posture: TrustPosture::ContentVerified,
        ..ChromeState::default()
    };
    assert_eq!(trust_indicator(&served), "⚠ unverified origin");
    assert_eq!(trust_indicator(&verified), "✓ verified");
    assert_ne!(trust_indicator(&served), trust_indicator(&verified));
    assert!(trust_indicator_detail(&verified).contains("content-verified"));
    assert!(trust_indicator_detail(&served).contains("not"));
    assert_eq!(trust_indicator(&ChromeState::default()), "⚠ unverified origin");
}

#[test]
fn trust_indicator_shows_a_distinct_name_via_trusted_rpc_badge_never_labelled_verified() {
    let served = ChromeState {
        trust_posture: TrustPosture::UnverifiedOrigin,
        ..ChromeState::default()
    };
    let verified = ChromeState {
        trust_posture: TrustPosture::ContentVerified,
        ..ChromeState::default()
    };
    let name_via_rpc = ChromeState {
        trust_posture: TrustPosture::NameViaTrustedRpc,
        ..ChromeState::default()
    };
    let label = trust_indicator(&name_via_rpc);
    assert_eq!(label, "◈ name via trusted RPC");
    assert_ne!(label, trust_indicator(&verified));
    assert_ne!(label, trust_indicator(&served));
    assert!(!label.to_lowercase().contains("verified"));
    assert!(!trust_indicator_detail(&name_via_rpc).to_lowercase().contains("name-verified"));
    assert!(trust_indicator_detail(&name_via_rpc).contains("TRUSTED RPC"));
    assert_eq!(trust_indicator_css_class(&name_via_rpc), "trust-name-trusted-rpc");
    assert_eq!(trust_indicator_css_class(&verified), "trust-verified");
    assert_eq!(trust_indicator_css_class(&served), "trust-unverified");
}

#[test]
fn trust_indicator_shows_a_distinct_mutable_name_badge_never_labelled_verified() {
    let verified = ChromeState {
        trust_posture: TrustPosture::ContentVerified,
        ..ChromeState::default()
    };
    let name_via_rpc = ChromeState {
        trust_posture: TrustPosture::NameViaTrustedRpc,
        ..ChromeState::default()
    };
    let served = ChromeState {
        trust_posture: TrustPosture::UnverifiedOrigin,
        ..ChromeState::default()
    };
    let mutable = ChromeState {
        trust_posture: TrustPosture::MutableName,
        ..ChromeState::default()
    };
    let label = trust_indicator(&mutable);
    assert_eq!(label, "◇ content verified, mutable name");
    assert_ne!(label, trust_indicator(&verified));
    assert_ne!(label, trust_indicator(&name_via_rpc));
    assert_ne!(label, trust_indicator(&served));
    assert!(label.contains("mutable name"));
    let detail = trust_indicator_detail(&mutable);
    assert!(detail.contains("MUTABLE"));
    assert!(detail.contains("can repoint"));
    assert_eq!(trust_indicator_css_class(&mutable), "trust-mutable-name");
    assert_ne!(
        trust_indicator_css_class(&mutable),
        trust_indicator_css_class(&name_via_rpc)
    );
}

fn blessed_pin(cid: &str) -> TrustedNamePin {
    TrustedNamePin {
        name: "ronan.eth".to_string(),
        cid: cid.to_string(),
        blessed_at: 1_800_000_000,
        posture: TrustPosture::NameViaTrustedRpc,
    }
}

#[test]
fn a_changed_trusted_name_is_the_loudest_settled_state_and_raises_the_banner() {
    let changed = ChromeState {
        load_state: LoadState::Finished,
        trust_posture: TrustPosture::NameViaTrustedRpc,
        mutable_name: Some(MutableNameTrust {
            name: "ronan.eth".to_string(),
            cid: "bafynew".to_string(),
            blessed: Some(blessed_pin("bafyold")),
        }),
        ..ChromeState::default()
    };
    assert!(changed.mutable_name_changed());
    assert_eq!(trust_indicator(&changed), "⚠ name points to NEW content");
    assert_eq!(trust_indicator_css_class(&changed), "trust-name-changed");
    assert!(error_banner_visible(&changed));
    assert_eq!(error_banner_css_class(&changed), "error-banner");
    assert_eq!(
        error_banner_text(&changed),
        "⚠ ronan.eth now points to different content than the version you trusted on 2027-01-15: \
         it resolves to bafynew now, not bafyold. Nothing is blocked; look, then re-trust it or leave."
    );
    assert!(trust_pin_action_visible(&changed));
    assert_eq!(trust_pin_action_label(&changed), "🔒 Trust the NEW content of this name");
    assert_eq!(
        trust_pin_detail(&changed),
        "ronan.eth is a MUTABLE name: its controller can repoint it at any time.\nIt resolves to \
         bafynew right now.\nOn 2027-01-15 you trusted bafyold instead, when werust reported it \
         as “name-via-trusted-rpc”."
    );
    let loading = ChromeState { load_state: LoadState::Started, ..changed.clone() };
    assert_eq!(trust_indicator(&loading), "⋯ loading…");
    assert!(!trust_pin_action_visible(&loading));
    assert_eq!(trust_pin_action_label(&loading), "");
    let failed = ChromeState {
        load_state: LoadState::Failed,
        last_error: Some("points to Swarm, not supported".into()),
        ..changed
    };
    assert_eq!(
        error_banner_text(&failed),
        "⚠ This page failed to load: points to Swarm, not supported"
    );
}

#[test]
fn an_unblessed_or_unchanged_name_offers_or_withholds_the_bless() {
    let unblessed = ChromeState {
        load_state: LoadState::Finished,
        trust_posture: TrustPosture::MutableName,
        mutable_name: Some(MutableNameTrust {
            name: "k51name".to_string(),
            cid: "bafyone".to_string(),
            blessed: None,
        }),
        ..ChromeState::default()
    };
    assert!(!unblessed.mutable_name_changed());
    assert!(!error_banner_visible(&unblessed));
    assert_eq!(trust_indicator(&unblessed), "◇ content verified, mutable name");
    assert_eq!(trust_pin_action_label(&unblessed), "🔒 Trust this content");
    assert_eq!(
        trust_pin_detail(&unblessed),
        "k51name is a MUTABLE name: its controller can repoint it at any time.\nIt resolves to \
         bafyone right now.\nYou have not trusted a version of this name yet."
    );
    let unchanged = ChromeState {
        mutable_name: Some(MutableNameTrust {
            name: "ronan.eth".to_string(),
            cid: "bafyold".to_string(),
            blessed: Some(blessed_pin("bafyold")),
        }),
        ..unblessed.clone()
    };
    assert!(!trust_pin_action_visible(&unchanged));
    assert_eq!(trust_pin_action_label(&unchanged), "");
    assert_eq!(
        trust_pin_detail(&unchanged),
        "ronan.eth is a MUTABLE name: its controller can repoint it at any time.\nIt resolves to \
         bafyold right now.\nYou trusted exactly this content on 2027-01-15."
    );
    assert_eq!(trust_pin_detail(&ChromeState::default()), "");
}

#[test]
fn posture_wire_names_round_trip() {
    for posture in TrustPosture::all() {
        assert_eq!(trust_posture_from_wire_name(trust_posture_wire_name(posture)), Some(posture));
    }
    assert_eq!(trust_posture_wire_name(TrustPosture::UnverifiedOrigin), "unverified-origin");
    assert_eq!(trust_posture_wire_name(TrustPosture::ContentVerified), "content-verified");
    assert_eq!(trust_posture_wire_name(TrustPosture::MutableName), "mutable-name");
    assert_eq!(trust_posture_from_wire_name("totally-trusted"), None);
    assert_eq!(TrustPosture::default(), TrustPosture::UnverifiedOrigin);
}

#[test]
fn classification_ignores_ascii_case() {
    for reason in [
        "gateway timeout",
        "Connection refused",
        "IPNS record did not verify",
        "hash mismatch after connection reset",
        "something else entirely",
    ] {
        assert_eq!(
            FailureKind::classify(reason),
            FailureKind::classify(&reason.to_ascii_uppercase()),
            "{reason}"
        );
    }
    assert_eq!(FailureKind::classify("GATEWAY TIMED OUT"), FailureKind::Transient);
    assert_eq!(FailureKind::classify("HASH MISMATCH; TIMEOUT"), FailureKind::Hard);
}
