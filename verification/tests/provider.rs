use serde_json::Value;
use werust_core::provider::{
    provider_shim, reject_script, resolve_script, route_provider_message, ProviderBridge,
    ProviderError, ProviderRequest, StubAnswer, PROVIDER_BRIDGE, STUB_CHAIN_ID,
};

#[test]
fn shim_exposes_a_detectable_eip1193_provider_surface() {
    let shim = provider_shim();
    assert!(shim.contains(r#""ethereum""#));
    assert!(shim.contains("isWerust: true"));
    assert!(shim.contains("request: function"));
    assert!(shim.contains("on: function"));
    assert!(shim.contains("removeListener: function"));
    assert!(shim.contains(PROVIDER_BRIDGE));
    assert!(shim.contains("postMessage"));
    assert!(shim.contains("__resolve"));
    assert!(shim.contains("__reject"));
}

#[test]
fn parses_a_page_request_envelope() {
    let req = ProviderBridge::parse(r#"{"id":7,"method":"eth_chainId","params":[]}"#)
        .expect("a well-formed envelope parses");
    assert_eq!(
        req,
        ProviderRequest { id: 7, method: "eth_chainId".into(), params: Value::Array(Vec::new()) }
    );
}

#[test]
fn parse_defaults_missing_params_to_empty_array() {
    let req = ProviderBridge::parse(r#"{"id":1,"method":"eth_accounts"}"#)
        .expect("params may be omitted");
    assert_eq!(req.params, Value::Array(Vec::new()));
}

#[test]
fn parse_rejects_a_malformed_envelope() {
    assert!(ProviderBridge::parse("not json").is_err());
    assert!(ProviderBridge::parse(r#"{"method":"eth_chainId"}"#).is_err());
    assert!(ProviderBridge::parse(r#"{"id":1}"#).is_err());
}

#[test]
fn a_malformed_envelope_is_a_parse_error_naming_what_is_missing() {
    let no_id = ProviderBridge::parse(r#"{"method":"eth_chainId"}"#).unwrap_err();
    assert_eq!(no_id.code, -32700);
    assert_eq!(no_id.message, "could not parse provider request: missing numeric id");
    let no_method = ProviderBridge::parse(r#"{"id":1}"#).unwrap_err();
    assert_eq!(no_method.message, "could not parse provider request: missing string method");
    let not_json = ProviderBridge::parse("not json").unwrap_err();
    assert!(not_json.message.starts_with("could not parse provider request: "));
    assert!(not_json.message.len() > "could not parse provider request: ".len());
}

#[test]
fn chain_id_stub_answers_without_keys() {
    let req = ProviderRequest { id: 42, method: "eth_chainId".into(), params: Value::Array(Vec::new()) };
    let result = ProviderBridge::answer(&req).expect("chain id is answered");
    assert_eq!(result, StubAnswer::ChainId);
    assert_eq!(result.to_value(), Value::String(STUB_CHAIN_ID.to_string()));
}

#[test]
fn accounts_stub_reports_no_keys() {
    for method in ["eth_accounts", "eth_requestAccounts"] {
        let req = ProviderRequest { id: 1, method: method.into(), params: Value::Array(Vec::new()) };
        let answer = ProviderBridge::answer(&req).unwrap();
        assert_eq!(answer.to_value(), Value::Array(Vec::new()));
    }
}

#[test]
fn unsupported_method_is_refused_with_an_eip1193_error() {
    let req = ProviderRequest {
        id: 3,
        method: "eth_sendTransaction".into(),
        params: Value::Array(Vec::new()),
    };
    let err = ProviderBridge::answer(&req).expect_err("signing is not answered here");
    assert_eq!(err.code, 4200);
    assert!(err.message.contains("eth_sendTransaction"));
}

#[test]
fn handle_round_trips_a_request_to_a_resolve_push() {
    let bridge = ProviderBridge::new();
    let script = bridge
        .handle(r#"{"id":9,"method":"eth_chainId","params":[]}"#)
        .expect("a well-formed request yields a response push");
    assert_eq!(script, format!(r#"window.{PROVIDER_BRIDGE}.__resolve(9, "{STUB_CHAIN_ID}");"#));
}

#[test]
fn handle_round_trips_an_error_to_a_reject_push() {
    let bridge = ProviderBridge::new();
    let script = bridge
        .handle(r#"{"id":4,"method":"personal_sign","params":["0x00"]}"#)
        .expect("even a refused method settles the pending Promise");
    assert!(script.starts_with(&format!("window.{PROVIDER_BRIDGE}.__reject(4, ")));
    assert!(script.contains("4200"));
}

#[test]
fn handle_drops_an_unrecoverable_envelope() {
    let bridge = ProviderBridge::new();
    assert_eq!(bridge.handle("}not json{"), None);
}

#[test]
fn route_only_answers_the_provider_bridge_channel() {
    let bridge = ProviderBridge::new();
    let pushed = route_provider_message(
        &bridge,
        PROVIDER_BRIDGE,
        r#"{"id":2,"method":"eth_chainId","params":[]}"#,
    );
    assert!(pushed.expect("answered").contains("__resolve(2"));
    let ignored = route_provider_message(
        &bridge,
        "someOtherChannel",
        r#"{"id":3,"method":"eth_chainId","params":[]}"#,
    );
    assert_eq!(ignored, None);
}

#[test]
fn the_reject_payload_is_a_json_error_object_with_an_escaped_message() {
    let err = ProviderError { code: -32700, message: "bad \"quote\"".to_string() };
    assert_eq!(
        reject_script(12, &err),
        r#"window.werustProvider.__reject(12, {"code":-32700,"message":"bad \"quote\""});"#
    );
    assert_eq!(resolve_script(0, "[]"), "window.werustProvider.__resolve(0, []);");
    assert_eq!(ProviderError::unsupported("x").message, "unsupported method: x");
    assert_eq!(ProviderError::parse_error("y").code, -32700);
}

#[test]
fn an_unreadable_envelope_that_carries_its_id_is_rejected_as_a_parse_error() {
    let bridge = ProviderBridge::new();
    let script = bridge.handle(r#"{"id":1}"#).expect("the id is recoverable");
    assert_eq!(
        script,
        r#"window.werustProvider.__reject(1, {"code":-32700,"message":"could not parse provider request: missing string method"});"#
    );
    assert_eq!(bridge.handle(r#"{"method":"eth_chainId"}"#), None, "no id, nothing to settle");
    assert_eq!(bridge.handle(r#"{"id":"7","method":"eth_chainId"}"#), None, "a non-numeric id");
}

#[test]
fn the_page_params_are_kept_as_posted() {
    let req = ProviderBridge::parse(r#"{"id":1,"method":"eth_call","params":[{"to":"0x0"}, 2]}"#)
        .expect("a readable envelope");
    assert_eq!(req.params.to_string(), r#"[{"to":"0x0"},2]"#);
}

#[test]
fn a_reject_message_is_escaped_exactly_as_json_writes_it() {
    let err = ProviderError { code: 1, message: "a\nb\t\u{1}\\\"\u{7f}é".to_string() };
    let script = reject_script(9, &err);
    let expected_literal = serde_json::to_string(&err.message).unwrap();
    assert_eq!(expected_literal, "\"a\\nb\\t\\u0001\\\\\\\"\u{7f}é\"");
    assert_eq!(
        script,
        format!("window.werustProvider.__reject(9, {{\"code\":1,\"message\":{expected_literal}}});")
    );
}

#[test]
fn the_stub_answers_are_the_json_values_they_name() {
    assert_eq!(StubAnswer::ChainId.to_value().to_string(), "\"0x1\"");
    assert_eq!(StubAnswer::NoAccounts.to_value().to_string(), "[]");
}
