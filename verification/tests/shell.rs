use werust_core::name_resolution::{NameResolutionError, ResolutionError, ResolvedName};
use werust_core::pins::TrustedNamePins;
use werust_core::shell::{BackendFacts, EventOutcome, IpfsRoot, LoadEvent, SeenUrl, ShellCore};
use werust_core::{FrontDoor, LoadState, LoadStep, TrustPosture};

const MARKER: &str = "[redirect: navigating]";

/// A reported URL with the keys an edge would derive for it: an `ipfs://`
/// URL is keyed without its trailing slash, and carries its root CID and
/// in-site path.
fn seen(url: &str) -> SeenUrl {
    let root = url.strip_prefix("ipfs://").map(|rest| {
        let rest = rest.trim_start_matches('/');
        match rest.find('/') {
            Some(i) => IpfsRoot { cid: rest[..i].to_string(), path: rest[i..].to_string() },
            None => IpfsRoot { cid: rest.to_string(), path: String::new() },
        }
    });
    SeenUrl {
        url: url.to_string(),
        page_key: url.trim_end_matches('/').to_string(),
        frame_key: url.to_string(),
        root,
    }
}

fn facts(state: LoadState, posture: TrustPosture, current: Option<&str>) -> BackendFacts {
    BackendFacts {
        load_state: state,
        can_go_back: true,
        can_go_forward: false,
        trust_posture: posture,
        current: current.map(seen),
    }
}

fn shell() -> ShellCore {
    ShellCore::new(TrustedNamePins::new(), MARKER)
}

/// A shell on a page with an entry behind it in session history.
fn shell_with_history() -> ShellCore {
    let mut core = shell();
    core.refresh(&facts(LoadState::Finished, TrustPosture::UnverifiedOrigin, Some("ipfs://bafysite/new")));
    core
}

/// Drive the front door through a resolved `.eth` entry to its settled load.
fn load_eth(core: &mut ShellCore, entry: &str, cid: &str) -> String {
    let (name, path) = match core.navigate(entry) {
        FrontDoor::Ens { name, path } => (name, path),
        other => panic!("`{entry}` is an ENS entry, not {other:?}"),
    };
    let resolved = ResolvedName::Immutable { uri: format!("ipfs://{cid}"), cid: cid.to_string() };
    let target = core.name_resolved(&name, &path, &Ok(resolved)).expect("a resolved name loads");
    let current = Some(seen(&target));
    core.ens_content_loading(&name, &path, false, cid, &current);
    core.refresh(&facts(LoadState::Started, TrustPosture::UnverifiedOrigin, Some(&target)));
    assert_eq!(core.on_load_event(&LoadEvent::Finished { url: seen(&target) }, true), EventOutcome::Folded);
    core.refresh(&facts(LoadState::Finished, TrustPosture::NameViaTrustedRpc, Some(&target)));
    target
}

#[test]
fn navigate_refuses_an_invalid_entry_without_navigating_and_keeps_the_typed_text() {
    let mut core = shell();
    assert_eq!(core.navigate("not a url"), FrontDoor::Invalid);
    core.refresh(&facts(LoadState::Idle, TrustPosture::UnverifiedOrigin, None));
    assert_eq!(core.chrome().url_text, "not a url");
    assert_eq!(core.chrome().invalid_entry.as_deref(), Some("not a url"));
    assert_eq!(core.chrome().last_error, None, "an invalid entry is not a load failure");
}

#[test]
fn a_proceeding_navigation_clears_a_prior_invalid_entry_badge() {
    let mut core = shell();
    core.navigate("garbage entry");
    core.refresh(&facts(LoadState::Idle, TrustPosture::UnverifiedOrigin, None));
    assert!(core.chrome().invalid_entry.is_some());
    assert_eq!(
        core.navigate("github.com"),
        FrontDoor::Navigate("https://github.com".to_string())
    );
    core.load_proceeded();
    core.refresh(&facts(LoadState::Started, TrustPosture::UnverifiedOrigin, Some("https://github.com")));
    assert_eq!(core.chrome().invalid_entry, None);
    assert_eq!(core.chrome().url_text, "https://github.com");
    assert_eq!(core.chrome().load_step, LoadStep::FetchingContent);
}

#[test]
fn a_failed_load_surfaces_the_failure_in_the_chrome() {
    let mut core = shell();
    core.navigate("https://unreachable.example");
    core.load_proceeded();
    let url = seen("https://unreachable.example");
    core.on_load_event(&LoadEvent::Started { url: url.clone() }, false);
    core.on_load_event(
        &LoadEvent::Failed { url, reason: "could not resolve host".to_string() },
        false,
    );
    core.refresh(&facts(LoadState::Failed, TrustPosture::UnverifiedOrigin, Some("https://unreachable.example")));
    assert_eq!(core.chrome().last_error.as_deref(), Some("could not resolve host"));
    assert_eq!(core.chrome().url_text, "https://unreachable.example");
    assert_eq!(core.chrome().load_step, LoadStep::Idle);
}

#[test]
fn the_redirected_from_requests_own_failure_is_not_shown_but_a_refusal_is() {
    let mut core = shell();
    let url = seen("ipfs://bafyroot/old");
    core.on_load_event(
        &LoadEvent::Failed { url: url.clone(), reason: format!("redirecting {MARKER}") },
        false,
    );
    assert_eq!(core.chrome().last_error, None);
    core.on_load_event(
        &LoadEvent::Failed { url, reason: "redirect refused: off root".to_string() },
        false,
    );
    assert_eq!(core.chrome().last_error.as_deref(), Some("redirect refused: off root"));
}

#[test]
fn a_dot_eth_with_a_path_routes_to_ens_and_loads_the_subpath_keeping_the_name_path_in_the_bar() {
    let mut core = shell();
    let target = load_eth(&mut core, "ronan.eth/blog/", "bafysite");
    assert_eq!(target, "ipfs://bafysite/blog/");
    assert_eq!(core.chrome().url_text, "ronan.eth/blog/");
    assert_eq!(core.chrome().trust_posture, TrustPosture::NameViaTrustedRpc);
    assert_eq!(core.chrome().last_error, None);
}

#[test]
fn a_resolution_failure_fails_closed_keeping_the_name_and_its_reason() {
    let mut core = shell();
    let (name, path) = match core.navigate("ronan.eth") {
        FrontDoor::Ens { name, path } => (name, path),
        other => panic!("an ENS entry, not {other:?}"),
    };
    let failure: Result<ResolvedName, NameResolutionError> = Err(NameResolutionError::Ens(
        ResolutionError::Failed("ENS resolution timed out".to_string()),
    ));
    assert_eq!(core.name_resolved(&name, &path, &failure), None);
    core.refresh(&facts(LoadState::Idle, TrustPosture::UnverifiedOrigin, None));
    assert_eq!(core.chrome().url_text, "ronan.eth");
    assert_eq!(core.chrome().last_error.as_deref(), Some("ENS resolution timed out"));
    assert_eq!(
        core.reload(&None),
        Some(("ronan.eth".to_string(), String::new())),
        "a failed name is retried by re-resolving it"
    );
}

#[test]
fn in_page_navigation_on_an_ens_page_updates_the_bar_and_back_re_derives_the_name() {
    let mut core = shell();
    load_eth(&mut core, "ronan.eth", "bafysite");
    assert_eq!(core.chrome().url_text, "ronan.eth");
    // A link click inside the site: a fresh load off the pinned root.
    let inner = seen("ipfs://bafysite/about/");
    assert_eq!(core.on_load_event(&LoadEvent::Started { url: inner.clone() }, true), EventOutcome::Folded);
    assert_eq!(core.chrome().url_text, "ipfs://bafysite/about/");
    core.refresh(&facts(LoadState::Committed, TrustPosture::ContentVerified, Some("ipfs://bafysite/about/")));
    assert_eq!(core.chrome().url_text, "ronan.eth/about/", "the site's name, never the CID");
    // Back onto the root entry.
    assert!(core.go_back(Vec::new()));
    core.on_load_event(&LoadEvent::Committed { url: seen("ipfs://bafysite") }, true);
    core.refresh(&facts(LoadState::Committed, TrustPosture::NameViaTrustedRpc, Some("ipfs://bafysite")));
    assert_eq!(core.chrome().url_text, "ronan.eth");
    assert_eq!(core.remarks(&Some(seen("ipfs://bafysite"))), Some(false));
}

#[test]
fn reloading_an_ens_page_re_resolves_and_keeps_the_name_and_posture_in_the_bar() {
    let mut core = shell();
    let target = load_eth(&mut core, "ronan.eth/blog/", "bafysite");
    assert_eq!(
        core.reload(&Some(seen(&target))),
        Some(("ronan.eth".to_string(), "/blog/".to_string()))
    );
    assert_eq!(core.chrome().url_text, "ronan.eth/blog/");
}

#[test]
fn reloading_a_plain_page_is_unaffected_and_never_grows_the_eth_name() {
    let mut core = shell();
    core.navigate("https://example.com/");
    core.load_proceeded();
    core.refresh(&facts(LoadState::Finished, TrustPosture::UnverifiedOrigin, Some("https://example.com/")));
    assert_eq!(core.reload(&Some(seen("https://example.com/"))), None);
    core.reload_proceeded();
    core.refresh(&facts(LoadState::Started, TrustPosture::UnverifiedOrigin, Some("https://example.com/")));
    assert_eq!(core.chrome().url_text, "https://example.com/");
    assert_eq!(core.remarks(&Some(seen("https://example.com/"))), None);
    assert_eq!(core.chrome().mutable_name, None);
}

#[test]
fn back_after_a_redirect_skips_the_redirecting_entry_instead_of_bouncing_forward() {
    let mut core = shell_with_history();
    assert!(core.go_back(vec!["ipfs://bafysite/old".to_string()]));
    assert_eq!(
        core.on_load_event(&LoadEvent::Started { url: seen("ipfs://bafysite/old") }, true),
        EventOutcome::SkippedBack
    );
    assert_eq!(
        core.on_load_event(&LoadEvent::Committed { url: seen("ipfs://bafysite/old") }, true),
        EventOutcome::Dropped,
        "the trailing events of the skipped entry are dropped"
    );
    assert_eq!(
        core.on_load_event(&LoadEvent::Committed { url: seen("ipfs://bafysite/home") }, true),
        EventOutcome::Folded
    );
    assert_eq!(core.chrome().url_text, "ipfs://bafysite/home");
    // The skip is over: the once-skipped entry is an ordinary page again.
    assert_eq!(
        core.on_load_event(&LoadEvent::Started { url: seen("ipfs://bafysite/old") }, true),
        EventOutcome::Folded
    );
}

#[test]
fn a_redirect_source_that_is_the_first_entry_is_where_back_stops() {
    let mut core = shell_with_history();
    assert!(core.go_back(vec!["ipfs://bafysite/old".to_string()]));
    assert_eq!(
        core.on_load_event(&LoadEvent::Started { url: seen("ipfs://bafysite/old") }, false),
        EventOutcome::Folded
    );
    assert_eq!(core.chrome().url_text, "ipfs://bafysite/old");
}

#[test]
fn back_skips_every_hop_of_a_multi_hop_redirect_chain() {
    let mut core = shell_with_history();
    assert!(core.go_back(vec!["ipfs://c/a".to_string(), "ipfs://c/b".to_string()]));
    assert_eq!(core.on_load_event(&LoadEvent::Started { url: seen("ipfs://c/b") }, true), EventOutcome::SkippedBack);
    assert_eq!(core.on_load_event(&LoadEvent::Started { url: seen("ipfs://c/a") }, true), EventOutcome::SkippedBack);
    assert_eq!(core.on_load_event(&LoadEvent::Started { url: seen("ipfs://c/start") }, true), EventOutcome::Folded);
    assert_eq!(core.chrome().url_text, "ipfs://c/start");
}

#[test]
fn a_followed_redirect_moves_the_bar_and_spends_the_bookkeeping_failure() {
    let mut core = shell();
    load_eth(&mut core, "ronan.eth", "bafysite");
    core.on_load_event(
        &LoadEvent::Failed { url: seen("ipfs://bafysite"), reason: "boom".to_string() },
        true,
    );
    core.redirect_followed();
    core.refresh(&facts(LoadState::Started, TrustPosture::UnverifiedOrigin, Some("ipfs://bafysite/new/")));
    assert_eq!(core.chrome().last_error, None);
    assert_eq!(core.chrome().url_text, "ronan.eth/new/", "the site identity survives the redirect");
}

#[test]
fn blessing_a_name_records_it_and_a_later_change_warns() {
    let mut core = shell();
    load_eth(&mut core, "ronan.eth", "bafyone");
    let axis = core.chrome().mutable_name.clone().expect("a name-resolved page has the axis");
    assert_eq!(axis.name, "ronan.eth");
    assert_eq!(axis.cid, "bafyone");
    assert!(!axis.is_blessed());
    assert!(core.bless_current_name(None, 1_700_000_000));
    assert_eq!(core.pins().len(), 1);
    core.refresh(&facts(LoadState::Finished, TrustPosture::NameViaTrustedRpc, Some("ipfs://bafyone")));
    let axis = core.chrome().mutable_name.clone().unwrap();
    assert!(axis.is_unchanged());
    assert!(!core.bless_current_name(None, 1_700_000_001), "nothing new to bless");

    // A later resolution of the same name to a different CID.
    let pins = core.pins().clone();
    let mut later = ShellCore::new(pins, MARKER);
    load_eth(&mut later, "ronan.eth", "bafytwo");
    let axis = later.chrome().mutable_name.clone().unwrap();
    assert!(axis.is_changed(), "a blessed name now resolving elsewhere is a change");
}

#[test]
fn a_bless_keeps_the_pins_another_window_wrote() {
    let mut core = shell();
    load_eth(&mut core, "ronan.eth", "bafyone");
    let mut on_disk = TrustedNamePins::new();
    on_disk.bless("other.eth", "bafyother", TrustPosture::MutableName, 5);
    assert!(core.bless_current_name(Some(on_disk), 10));
    assert_eq!(core.pins().len(), 2);
    assert!(core.pins().get("other.eth").is_some());
    assert_eq!(core.pins().get("ronan.eth").unwrap().cid, "bafyone");
}

#[test]
fn a_page_that_is_not_a_name_resolved_load_carries_no_tofu_axis_at_all() {
    let mut core = shell();
    core.navigate("ipfs://bafyplain");
    core.load_proceeded();
    core.refresh(&facts(LoadState::Finished, TrustPosture::ContentVerified, Some("ipfs://bafyplain")));
    assert_eq!(core.chrome().mutable_name, None);
    assert_eq!(core.chrome().trust_posture, TrustPosture::ContentVerified);
    assert!(!core.bless_current_name(None, 1));
}

#[test]
fn a_fresh_navigation_from_an_ens_page_drops_the_name() {
    let mut core = shell();
    load_eth(&mut core, "ronan.eth", "bafysite");
    core.navigate("https://example.org");
    core.load_proceeded();
    core.refresh(&facts(LoadState::Started, TrustPosture::UnverifiedOrigin, Some("https://example.org")));
    assert_eq!(core.chrome().url_text, "https://example.org");
    assert_eq!(core.chrome().mutable_name, None);
}

#[test]
fn the_pipeline_step_follows_the_backend_lifecycle() {
    let mut core = shell();
    core.navigate("https://example.org");
    core.load_proceeded();
    for (state, step) in [
        (LoadState::Started, LoadStep::FetchingContent),
        (LoadState::Committed, LoadStep::Rendering),
        (LoadState::Finished, LoadStep::Idle),
        (LoadState::Failed, LoadStep::Idle),
        (LoadState::Idle, LoadStep::Idle),
    ] {
        core.refresh(&facts(state, TrustPosture::UnverifiedOrigin, Some("https://example.org")));
        assert_eq!(core.chrome().load_step, step);
        assert_eq!(core.chrome().load_state, state);
    }
}

#[test]
fn back_is_a_no_op_while_there_is_no_entry_behind() {
    let mut core = shell();
    assert_eq!(core.navigate("not-a-url"), FrontDoor::Invalid);
    core.refresh(&facts_without_history());
    assert!(!core.chrome().can_go_back);
    assert!(!core.go_back(vec!["ipfs://x/y".to_string()]), "the edge does not move back");
    assert_eq!(core.chrome().invalid_entry.as_deref(), Some("not-a-url"));
    assert_eq!(core.chrome().url_text, "not-a-url");
    assert_eq!(
        core.on_load_event(&LoadEvent::Started { url: seen("ipfs://x/y") }, true),
        EventOutcome::Folded,
        "no Back skip was started"
    );
}

fn facts_without_history() -> BackendFacts {
    BackendFacts {
        load_state: LoadState::Idle,
        can_go_back: false,
        can_go_forward: false,
        trust_posture: TrustPosture::UnverifiedOrigin,
        current: None,
    }
}
