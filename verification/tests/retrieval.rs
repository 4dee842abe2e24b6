use werust_core::retrieval::{
    backend_options, begin_settings_request, endpoint_of, escape_html, persisted_status,
    settings_page_html, BackendAvailability, ChoiceError, RetrievalBackendChoice,
    RetrievalSettings, SettingsStep, DEFAULT_TRUSTLESS_GATEWAY,
};

const KIND_DEFAULT: &str = "default-gateway";
const KIND_CUSTOM: &str = "custom";
const KIND_DELEGATED: &str = "delegated-routing";
const KIND_EMBEDDED: &str = "embedded-p2p";

/// The settings a request leaves in effect, and the page status it shows,
/// with persistence simulated as always succeeding.
fn settle(uri: &str, loaded: RetrievalSettings) -> (RetrievalSettings, Option<String>) {
    match begin_settings_request(uri, loaded).expect("a settings request") {
        SettingsStep::Render { settings, status } => (settings, status),
        SettingsStep::Persist { settings } => {
            let status = persisted_status(&settings, true);
            (settings, Some(status))
        }
    }
}

#[test]
fn the_default_choice_is_the_labelled_public_gateway() {
    let choice = RetrievalBackendChoice::default();
    assert_eq!(choice, RetrievalBackendChoice::DefaultGateway);
    assert_eq!(choice.gateway_endpoint().unwrap(), DEFAULT_TRUSTLESS_GATEWAY);
}

#[test]
fn a_valid_custom_url_is_accepted_normalised_and_used_as_the_endpoint() {
    let choice = RetrievalBackendChoice::parse(KIND_CUSTOM, Some("http://127.0.0.1:8080/"))
        .expect("a valid http url is accepted");
    assert_eq!(
        choice,
        RetrievalBackendChoice::Custom { url: "http://127.0.0.1:8080".to_string() },
        "the trailing slash is normalised off"
    );
    assert_eq!(choice.gateway_endpoint().unwrap(), "http://127.0.0.1:8080");
}

#[test]
fn an_invalid_or_missing_custom_url_is_a_typed_refusal_never_silent() {
    assert_eq!(
        RetrievalBackendChoice::parse(KIND_CUSTOM, None),
        Err(ChoiceError::MissingCustomUrl)
    );
    assert_eq!(
        RetrievalBackendChoice::parse(KIND_CUSTOM, Some("   ")),
        Err(ChoiceError::MissingCustomUrl)
    );
    for bad in ["ftp://host/", "not-a-url", "http://", "ipfs://bafycid"] {
        assert!(
            matches!(
                RetrievalBackendChoice::parse(KIND_CUSTOM, Some(bad)),
                Err(ChoiceError::InvalidCustomUrl(_))
            ),
            "`{bad}` must be refused as an invalid custom url"
        );
    }
}

#[test]
fn a_coming_soon_backend_is_refused_not_silently_broken() {
    for kind in [KIND_DELEGATED, KIND_EMBEDDED] {
        assert!(
            matches!(RetrievalBackendChoice::parse(kind, None), Err(ChoiceError::NotYetAvailable(_))),
            "`{kind}` must be a typed not-yet-available refusal"
        );
    }
    assert!(RetrievalBackendChoice::DelegatedRouting.gateway_endpoint().is_err());
    assert!(RetrievalBackendChoice::EmbeddedP2p.gateway_endpoint().is_err());
}

#[test]
fn an_unknown_backend_kind_is_a_typed_refusal() {
    assert_eq!(
        RetrievalBackendChoice::parse("nonsense", None),
        Err(ChoiceError::UnknownKind("nonsense".to_string()))
    );
}

#[test]
fn the_settings_page_lists_every_option_with_its_privacy_framing() {
    let html = settings_page_html(&RetrievalSettings::default(), None);
    assert!(html.to_lowercase().contains("egress"));
    assert!(html.contains("public gateway"));
    assert!(html.to_lowercase().contains("private"));
    assert!(html.to_lowercase().contains("hash-verified"));
    assert!(html.contains(KIND_DEFAULT));
    assert!(html.contains(KIND_CUSTOM));
    assert!(html.contains("coming soon"));
    assert!(html.contains("(active)"));
}

#[test]
fn a_bare_settings_request_renders_the_current_settings() {
    let (settings, status) = settle("werust://settings", RetrievalSettings::default());
    assert_eq!(settings, RetrievalSettings::default());
    assert_eq!(status, None);
    let html = settings_page_html(&settings, status.as_deref());
    assert!(html.contains("IPFS retrieval backend"));
}

#[test]
fn selecting_a_custom_backend_persists_and_confirms_reloads_and_switches_the_load_path() {
    let uri = "werust://settings?backend=custom&url=http%3A%2F%2F127.0.0.1%3A8080";
    let step = begin_settings_request(uri, RetrievalSettings::default()).unwrap();
    let settings = match step {
        SettingsStep::Persist { settings } => settings,
        other => panic!("a valid selection is persisted, not {other:?}"),
    };
    assert_eq!(
        settings.backend,
        RetrievalBackendChoice::Custom { url: "http://127.0.0.1:8080".to_string() }
    );
    let status = persisted_status(&settings, true);
    let html = settings_page_html(&settings, Some(&status));
    assert!(html.contains("Saved:"), "the selection is confirmed: {html}");
    assert_eq!(endpoint_of(&settings), "http://127.0.0.1:8080");
    assert_ne!(endpoint_of(&settings), DEFAULT_TRUSTLESS_GATEWAY);
}

#[test]
fn selecting_an_invalid_custom_url_keeps_the_old_choice_and_shows_the_reason() {
    let (first, _) = settle(
        "werust://settings?backend=custom&url=http%3A%2F%2Flocalhost%3A5001",
        RetrievalSettings::default(),
    );
    let (kept, status) = settle("werust://settings?backend=custom&url=ftp%3A%2F%2Fnope", first);
    let html = settings_page_html(&kept, status.as_deref());
    assert!(html.contains("Not changed:"), "a bad selection is refused with a reason: {html}");
    assert_eq!(
        kept.backend,
        RetrievalBackendChoice::Custom { url: "http://localhost:5001".to_string() },
        "the old choice is unchanged by a refused selection"
    );
}

#[test]
fn selecting_a_coming_soon_backend_is_refused_with_a_reason() {
    let uri = format!("werust://settings?backend={KIND_EMBEDDED}");
    let (kept, status) = settle(&uri, RetrievalSettings::default());
    let html = settings_page_html(&kept, status.as_deref());
    assert!(html.contains("Not changed:"), "coming-soon is refused: {html}");
    assert_eq!(kept, RetrievalSettings::default(), "the choice is unchanged (still the default)");
}

#[test]
fn a_non_settings_werust_host_is_rejected() {
    assert_eq!(
        begin_settings_request("werust://other", RetrievalSettings::default()),
        Err("werust://other".to_string())
    );
    assert_eq!(
        begin_settings_request("https://example.com/", RetrievalSettings::default()),
        Err("https://example.com/".to_string())
    );
}

#[test]
fn a_custom_url_is_html_escaped_on_the_page() {
    let settings = RetrievalSettings {
        backend: RetrievalBackendChoice::Custom { url: "http://x/\"><script>".to_string() },
    };
    let html = settings_page_html(&settings, None);
    assert!(!html.contains("\"><script>"), "the custom url must be escaped, not injected raw");
}

#[test]
fn the_refusal_reasons_read_as_sentences() {
    assert_eq!(
        ChoiceError::UnknownKind("x".to_string()).message(),
        "unknown retrieval backend `x`"
    );
    assert!(ChoiceError::MissingCustomUrl.message().contains("URL"));
    assert!(ChoiceError::NotYetAvailable("embedded-p2p".to_string())
        .message()
        .contains("embedded-p2p"));
}

#[test]
fn html_escaping_replaces_every_markup_character() {
    assert_eq!(escape_html("<a href=\"x\">&'</a>"), "&lt;a href=&quot;x&quot;&gt;&amp;&#39;&lt;/a&gt;");
    assert_eq!(escape_html("plain"), "plain");
    assert_eq!(escape_html(""), "");
}

#[test]
fn the_option_list_is_two_selectable_then_two_coming_soon() {
    let opts = backend_options();
    let kinds: Vec<&str> = opts.iter().map(|o| o.kind).collect();
    assert_eq!(kinds, vec![KIND_DEFAULT, KIND_CUSTOM, KIND_DELEGATED, KIND_EMBEDDED]);
    assert_eq!(opts[0].availability, BackendAvailability::Available);
    assert_eq!(opts[1].availability, BackendAvailability::Available);
    assert_eq!(opts[2].availability, BackendAvailability::ComingSoon);
    assert_eq!(opts[3].availability, BackendAvailability::ComingSoon);
    assert!(opts[1].needs_url);
    assert!(!opts[0].needs_url);
}

#[test]
fn a_persisted_document_re_defaults_when_its_choice_no_longer_parses() {
    assert_eq!(RetrievalSettings::from_parts(None, None), None);
    assert_eq!(
        RetrievalSettings::from_parts(Some(KIND_EMBEDDED), None),
        Some(RetrievalSettings::default())
    );
    assert_eq!(
        RetrievalSettings::from_parts(Some(KIND_CUSTOM), Some("https://gw.example")),
        Some(RetrievalSettings {
            backend: RetrievalBackendChoice::Custom { url: "https://gw.example".to_string() }
        })
    );
    assert_eq!(
        RetrievalSettings::from_parts(Some(KIND_CUSTOM), Some("ftp://x")),
        Some(RetrievalSettings::default())
    );
}

#[test]
fn an_unpersisted_selection_says_so() {
    let settings = RetrievalSettings {
        backend: RetrievalBackendChoice::Custom { url: "http://a".to_string() },
    };
    assert_eq!(
        persisted_status(&settings, false),
        "Selected `custom` for this session (could not persist: no settings directory)."
    );
    assert_eq!(persisted_status(&settings, true), "Saved: retrieval backend is now `custom`.");
}

#[test]
fn a_coming_soon_choice_points_the_load_path_at_the_default_gateway() {
    let settings = RetrievalSettings { backend: RetrievalBackendChoice::EmbeddedP2p };
    assert_eq!(endpoint_of(&settings), DEFAULT_TRUSTLESS_GATEWAY);
}

#[test]
fn the_query_values_are_form_decoded_before_validation() {
    let (settings, _) = settle(
        "werust://settings?backend=custom&url=https%3A%2F%2Fgw.example%2F",
        RetrievalSettings::default(),
    );
    assert_eq!(
        settings.backend,
        RetrievalBackendChoice::Custom { url: "https://gw.example".to_string() }
    );
    let (refused, status) = settle("werust://settings?backend=no+such", RetrievalSettings::default());
    assert_eq!(refused, RetrievalSettings::default());
    assert!(status.unwrap().contains("no such"));
}

#[test]
fn the_json_wire_form_round_trips() {
    let default = RetrievalSettings::default();
    assert_eq!(RetrievalSettings::from_json(&default.to_json()).unwrap(), default);
    let custom = RetrievalSettings {
        backend: RetrievalBackendChoice::Custom { url: "https://gw.example".to_string() },
    };
    assert_eq!(RetrievalSettings::from_json(&custom.to_json()).unwrap(), custom);
}

#[test]
fn the_wire_form_is_the_compact_document() {
    assert_eq!(RetrievalSettings::default().to_json(), r#"{"backend":"default-gateway"}"#);
    let custom = RetrievalSettings {
        backend: RetrievalBackendChoice::Custom { url: "https://gw.example".to_string() },
    };
    assert_eq!(custom.to_json(), r#"{"backend":"custom","url":"https://gw.example"}"#);
}

#[test]
fn a_corrupt_or_coming_soon_document_does_not_take_effect() {
    assert_eq!(RetrievalSettings::from_json("not json {"), None);
    assert_eq!(RetrievalSettings::from_json("{}"), None);
    assert_eq!(RetrievalSettings::from_json(r#"{"backend":7}"#), None);
    assert_eq!(
        RetrievalSettings::from_json(&format!("{{\"backend\":\"{KIND_EMBEDDED}\"}}")),
        Some(RetrievalSettings::default())
    );
    assert_eq!(
        RetrievalSettings::from_json(r#"{"backend":"custom","url":"ftp://x"}"#),
        Some(RetrievalSettings::default())
    );
}

#[test]
fn a_persisted_selection_reads_back_as_selected() {
    let uri = "werust://settings?backend=custom&url=https%3A%2F%2Fgw.example%2F";
    let settings = match begin_settings_request(uri, RetrievalSettings::default()).unwrap() {
        SettingsStep::Persist { settings } => settings,
        other => panic!("a valid selection is persisted, not {other:?}"),
    };
    assert_eq!(
        settings.backend,
        RetrievalBackendChoice::Custom { url: "https://gw.example".to_string() }
    );
    let text = settings.to_json();
    assert_eq!(text, r#"{"backend":"custom","url":"https://gw.example"}"#);
    assert_eq!(RetrievalSettings::from_json(&text), Some(settings));
}

#[test]
fn a_custom_url_with_json_escapes_is_written_escaped_and_read_back() {
    let settings = RetrievalSettings {
        backend: RetrievalBackendChoice::Custom { url: "http://h/\"q\\\u{1}".to_string() },
    };
    let text = settings.to_json();
    assert_eq!(text, "{\"backend\":\"custom\",\"url\":\"http://h/\\\"q\\\\\\u0001\"}");
    let back = RetrievalSettings::from_json(&text).expect("a JSON document");
    assert_eq!(
        back.backend,
        RetrievalBackendChoice::Custom { url: "http://h/\"q\\\u{1}".to_string() }
    );
}
