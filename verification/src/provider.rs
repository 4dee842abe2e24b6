//! The native EIP-1193 provider surface and its message transport: the
//! page-side shim, the keyless read-only answers, and the scripts that settle
//! a page's pending `request(...)` promise.
//!
//! No key custody here: the stub answers only benign, read-only methods and
//! holds no private keys.

use vstd::prelude::*;

use crate::json::{
    json_empty_array, json_error, json_object, json_parse_error, json_str_at, json_str_field,
    json_member_text, json_string, json_string_literal, json_u64_at, json_u64_field,
    json_value_field, json_value_text, members_view, object_text, JsonScalar, ScalarView,
};
use crate::text::{chars_eq, chars_of, contains_sub, dec, owned, push_dec, push_str, seq_lt, string_of};

verus! {

/// The script-message bridge name the provider posts to and reads back from.
pub const PROVIDER_BRIDGE: &'static str = "werustProvider";

/// The chain id the read-only stub reports (Ethereum mainnet).
pub const STUB_CHAIN_ID: &'static str = "0x1";

// ---------------------------------------------------------------------------
// Requests, answers, errors.
// ---------------------------------------------------------------------------

/// A parsed page-side `request(...)` envelope.
#[derive(Debug, PartialEq, Eq)]
pub struct ProviderRequest {
    /// The page-assigned correlation id.
    pub id: u64,
    /// The EIP-1193 method name.
    pub method: String,
    /// The method params, as a JSON value.
    pub params: serde_json::Value,
}

/// An EIP-1193 `ProviderRpcError`-shaped failure.
#[derive(Debug, Clone, PartialEq, Eq)]
pub struct ProviderError {
    /// The EIP-1193 / JSON-RPC error code.
    pub code: i64,
    /// A human-readable message.
    pub message: String,
}

impl ProviderError {
    /// The `4200` "Unsupported Method" error.
    pub fn unsupported(method: &str) -> (r: Self)
        ensures
            r.code == 4200,
            r.message@ == "unsupported method: "@ + method@,
    {
        let mut out: Vec<char> = Vec::new();
        push_str(&mut out, "unsupported method: ");
        push_str(&mut out, method);
        ProviderError { code: 4200, message: string_of(out.as_slice()) }
    }

    /// A `-32700` parse error for an envelope that could not be read.
    pub fn parse_error(detail: &str) -> (r: Self)
        ensures
            r.code == -32700,
            r.message@ == "could not parse provider request: "@ + detail@,
    {
        let mut out: Vec<char> = Vec::new();
        push_str(&mut out, "could not parse provider request: ");
        push_str(&mut out, detail);
        ProviderError { code: -32700, message: string_of(out.as_slice()) }
    }
}

/// What the read-only stub answers.
#[derive(Debug, Clone, Copy, PartialEq, Eq, Structural)]
pub enum StubAnswer {
    /// The configured chain id.
    ChainId,
    /// No accounts: no keys are held here.
    NoAccounts,
}

/// The JSON text of a stub answer.
pub open spec fn answer_json(a: StubAnswer) -> Seq<char> {
    match a {
        StubAnswer::ChainId => "\"0x1\""@,
        StubAnswer::NoAccounts => "[]"@,
    }
}

impl StubAnswer {
    /// The answer's JSON text.
    pub fn json_text(self) -> (r: &'static str)
        ensures
            r@ == answer_json(self),
    {
        match self {
            StubAnswer::ChainId => "\"0x1\"",
            StubAnswer::NoAccounts => "[]",
        }
    }

    /// The answer as a JSON value: the chain id's JSON string, or an empty
    /// array.
    pub fn to_value(self) -> (r: serde_json::Value)
        ensures
            json_value_text(r) == match self {
                StubAnswer::ChainId => json_string_literal(STUB_CHAIN_ID@),
                StubAnswer::NoAccounts => "[]"@,
            },
    {
        match self {
            StubAnswer::ChainId => json_string(STUB_CHAIN_ID),
            StubAnswer::NoAccounts => json_empty_array(),
        }
    }
}

/// What the stub answers a method: the chain id, no accounts, or the
/// unsupported-method refusal.
pub open spec fn spec_answer(method: Seq<char>) -> Result<StubAnswer, (i64, Seq<char>)> {
    if method == "eth_chainId"@ {
        Ok(StubAnswer::ChainId)
    } else if method == "eth_accounts"@ || method == "eth_requestAccounts"@ {
        Ok(StubAnswer::NoAccounts)
    } else {
        Err((4200, "unsupported method: "@ + method))
    }
}

/// The result of a parse, as plain values.
pub open spec fn spec_parse(body: Seq<char>) -> Result<(u64, Seq<char>), Seq<char>> {
    match json_parse_error(body) {
        Some(e) => Err("could not parse provider request: "@ + e),
        None => match json_u64_at(body, "id"@) {
            None => Err("could not parse provider request: "@ + "missing numeric id"@),
            Some(id) => match json_str_at(body, "method"@) {
                None => Err("could not parse provider request: "@ + "missing string method"@),
                Some(m) => Ok((id, m)),
            },
        },
    }
}

/// The handler behind the provider bridge: it answers page envelopes with a
/// read-only stub and holds no keys.
#[derive(Debug, Default, Clone, Copy)]
pub struct ProviderBridge;

impl ProviderBridge {
    /// A fresh provider bridge.
    pub fn new() -> (r: Self) {
        ProviderBridge
    }

    /// Parse a page-posted envelope `{ "id": <number>, "method": <string>,
    /// "params": <array> }`; a missing `params` defaults to an empty array.
    pub fn parse(body: &str) -> (r: Result<ProviderRequest, ProviderError>)
        ensures
            match spec_parse(body@) {
                Ok((id, m)) => r matches Ok(req) && req.id == id && req.method@ == m
                    && json_value_text(req.params) == match json_member_text(body@, "params"@) {
                    Some(t) => t,
                    None => "[]"@,
                },
                Err(msg) => r matches Err(e) && e.code == -32700 && e.message@ == msg,
            },
    {
        proof {
            reveal_strlit("id");
            reveal_strlit("method");
            reveal_strlit("params");
        }
        match json_error(body) {
            Some(e) => {
                return Err(ProviderError::parse_error(e.as_str()));
            },
            None => {},
        }
        let id = match json_u64_field(body, "id") {
            Some(id) => id,
            None => {
                return Err(ProviderError::parse_error("missing numeric id"));
            },
        };
        let method = match json_str_field(body, "method") {
            Some(m) => m,
            None => {
                return Err(ProviderError::parse_error("missing string method"));
            },
        };
        let params = match json_value_field(body, "params") {
            Some(p) => p,
            None => json_empty_array(),
        };
        Ok(ProviderRequest { id, method, params })
    }

    /// Answer a request with the read-only stub: `eth_chainId` is the chain
    /// id, `eth_accounts` / `eth_requestAccounts` no accounts, anything else
    /// the `4200` refusal. Nothing here signs or touches a key.
    pub fn answer(request: &ProviderRequest) -> (r: Result<StubAnswer, ProviderError>)
        ensures
            match spec_answer(request.method@) {
                Ok(a) => r == Ok::<StubAnswer, ProviderError>(a),
                Err((code, msg)) => r matches Err(e) && e.code == code && e.message@ == msg,
            },
    {
        let m = chars_of(request.method.as_str());
        let chain = chars_of("eth_chainId");
        let accounts = chars_of("eth_accounts");
        let request_accounts = chars_of("eth_requestAccounts");
        if chars_eq(m.as_slice(), chain.as_slice()) {
            Ok(StubAnswer::ChainId)
        } else if chars_eq(m.as_slice(), accounts.as_slice()) || chars_eq(
            m.as_slice(),
            request_accounts.as_slice(),
        ) {
            Ok(StubAnswer::NoAccounts)
        } else {
            Err(ProviderError::unsupported(request.method.as_str()))
        }
    }

    /// Handle a raw page-posted body end to end: the script that settles the
    /// matching pending promise with the stub's answer, or rejects it with the
    /// `-32700` parse error when the envelope is unreadable but still carries
    /// its id; `None` only when no id can be recovered (there is no pending
    /// promise to settle).
    pub fn handle(&self, body: &str) -> (r: Option<String>)
        ensures
            match spec_handle(body@) {
                Some(t) => r matches Some(s) && s@ == t,
                None => r is None,
            },
    {
        proof {
            reveal_strlit("id");
        }
        match Self::parse(body) {
            Ok(request) => Some(
                match Self::answer(&request) {
                    Ok(a) => resolve_script(request.id, a.json_text()),
                    Err(err) => reject_script(request.id, &err),
                },
            ),
            Err(err) => {
                if json_error(body).is_some() {
                    return None;
                }
                match json_u64_field(body, "id") {
                    Some(id) => Some(reject_script(id, &err)),
                    None => None,
                }
            },
        }
    }
}

/// What the handler pushes back for a posted body: the settling script of
/// a readable envelope; the `-32700` rejection of an unreadable one that
/// still carries a numeric id; nothing when no id can be recovered.
pub open spec fn spec_handle(body: Seq<char>) -> Option<Seq<char>> {
    match spec_parse(body) {
        Ok((id, m)) => Some(
            match spec_answer(m) {
                Ok(a) => spec_resolve_script(id, answer_json(a)),
                Err((code, msg)) => spec_reject_script(id, code, msg),
            },
        ),
        Err(msg) => if json_parse_error(body) is None && json_u64_at(body, "id"@) is Some {
            Some(spec_reject_script(json_u64_at(body, "id"@)->0, -32700i64, msg))
        } else {
            None
        },
    }
}

/// The script that resolves the page's pending promise `id` with the JSON
/// `result`.
pub open spec fn spec_resolve_script(id: u64, result: Seq<char>) -> Seq<char> {
    "window."@ + PROVIDER_BRIDGE@ + ".__resolve("@ + dec(id as nat) + ", "@ + result + ");"@
}

/// The script that rejects the page's pending promise `id` with an EIP-1193
/// `{code, message}` error.
pub open spec fn spec_reject_script(id: u64, code: i64, message: Seq<char>) -> Seq<char> {
    "window."@ + PROVIDER_BRIDGE@ + ".__reject("@ + dec(id as nat) + ", "@ + object_text(
        error_members(code, message),
    ) + ");"@
}

/// The members of an EIP-1193 error object, keys in order: `code`, then
/// `message`.
pub open spec fn error_members(code: i64, message: Seq<char>) -> Seq<(Seq<char>, ScalarView)> {
    seq![("code"@, ScalarView::Int(code)), ("message"@, ScalarView::Str(message))]
}

/// The script that settles a page's pending `request(...)` promise with a
/// result, given as JSON text.
pub fn resolve_script(id: u64, result_json: &str) -> (r: String)
    ensures
        r@ == spec_resolve_script(id, result_json@),
{
    let mut out: Vec<char> = Vec::new();
    push_str(&mut out, "window.");
    push_str(&mut out, PROVIDER_BRIDGE);
    push_str(&mut out, ".__resolve(");
    push_dec(&mut out, id);
    push_str(&mut out, ", ");
    push_str(&mut out, result_json);
    push_str(&mut out, ");");
    assert(out@ =~= spec_resolve_script(id, result_json@));
    string_of(out.as_slice())
}

/// The script that rejects a page's pending `request(...)` promise with an
/// EIP-1193 `{code, message}` error.
pub fn reject_script(id: u64, error: &ProviderError) -> (r: String)
    ensures
        r@ == spec_reject_script(id, error.code, error.message@),
{
    let mut members: Vec<(String, JsonScalar)> = Vec::new();
    members.push((owned("code"), JsonScalar::Int(error.code)));
    members.push((owned("message"), JsonScalar::Str(error.message.clone())));
    proof {
        reveal_strlit("code");
        reveal_strlit("message");
        assert(members_view(members@) =~= error_members(error.code, error.message@));
        assert("code"@[0] != "message"@[0]);
        assert(seq_lt("code"@, "message"@));
    }
    let payload = json_object(&members);
    let mut out: Vec<char> = Vec::new();
    push_str(&mut out, "window.");
    push_str(&mut out, PROVIDER_BRIDGE);
    push_str(&mut out, ".__reject(");
    push_dec(&mut out, id);
    push_str(&mut out, ", ");
    push_str(&mut out, payload.as_str());
    push_str(&mut out, ");");
    assert(out@ =~= spec_reject_script(id, error.code, error.message@));
    string_of(out.as_slice())
}

/// The page-side shim text.
pub open spec fn spec_provider_shim() -> Seq<char> {
    "(function () {\n  \"use strict\";\n  var BRIDGE = \""@ + PROVIDER_BRIDGE@ + "\";\n  var pending = new Map();\n  var nextId = 1;\n  var listeners = new Map();\n\n  function post(envelope) {\n    // The script-message bridge: page -> native. WebKitGTK exposes it at\n    // window.webkit.messageHandlers.<name>; guard so the shim degrades cleanly\n    // if it is somehow absent rather than throwing into the page.\n    var mh = window.webkit\n      && window.webkit.messageHandlers\n      && window.webkit.messageHandlers[BRIDGE];\n    if (mh && typeof mh.postMessage === \"function\") {\n      mh.postMessage(JSON.stringify(envelope));\n    } else {\n      throw new Error(\"werust provider bridge unavailable\");\n    }\n  }\n\n  var provider = {\n    isWerust: true,\n    request: function (args) {\n      var method = args && args.method;\n      var params = (args && args.params) || [];\n      var id = nextId++;\n      return new Promise(function (resolve, reject) {\n        pending.set(id, { resolve: resolve, reject: reject });\n        try {\n          post({ id: id, method: method, params: params });\n        } catch (e) {\n          pending.delete(id);\n          reject(e);\n        }\n      });\n    },\n    on: function (event, handler) {\n      if (!listeners.has(event)) listeners.set(event, []);\n      listeners.get(event).push(handler);\n      return provider;\n    },\n    removeListener: function (event, handler) {\n      var hs = listeners.get(event);\n      if (!hs) return provider;\n      var i = hs.indexOf(handler);\n      if (i !== -1) hs.splice(i, 1);\n      return provider;\n    },\n    emit: function (event, payload) {\n      var hs = listeners.get(event);\n      if (!hs) return false;\n      hs.slice().forEach(function (h) { h(payload); });\n      return hs.length > 0;\n    }\n  };\n\n  // The native response push channel: the backend evaluates\n  // window.<BRIDGE>.__resolve(id, result) / __reject(id, error) to settle the\n  // pending Promise the correlation id belongs to.\n  var channel = {\n    __resolve: function (id, result) {\n      var p = pending.get(id);\n      if (!p) return;\n      pending.delete(id);\n      p.resolve(result);\n    },\n    __reject: function (id, error) {\n      var p = pending.get(id);\n      if (!p) return;\n      pending.delete(id);\n      var err = new Error((error && error.message) || \"provider error\");\n      if (error && typeof error.code !== \"undefined\") err.code = error.code;\n      p.reject(err);\n    }\n  };\n\n  Object.defineProperty(window, BRIDGE, { value: channel });\n  Object.defineProperty(window, \"ethereum\", { value: provider, configurable: true });\n})();\n"@
}

/// The page-side EIP-1193 provider shim, injected at document start: it
/// installs a detectable `window.ethereum` with `request`, `on`,
/// `removeListener` and `emit`, posts each request up the bridge, and settles
/// it when the native side pushes `__resolve` / `__reject` back.
pub fn provider_shim() -> (r: String)
    ensures
        r@ == spec_provider_shim(),
{
    let mut out: Vec<char> = Vec::new();
    push_str(&mut out, "(function () {\n  \"use strict\";\n  var BRIDGE = \"");
    push_str(&mut out, PROVIDER_BRIDGE);
    push_str(&mut out, "\";\n  var pending = new Map();\n  var nextId = 1;\n  var listeners = new Map();\n\n  function post(envelope) {\n    // The script-message bridge: page -> native. WebKitGTK exposes it at\n    // window.webkit.messageHandlers.<name>; guard so the shim degrades cleanly\n    // if it is somehow absent rather than throwing into the page.\n    var mh = window.webkit\n      && window.webkit.messageHandlers\n      && window.webkit.messageHandlers[BRIDGE];\n    if (mh && typeof mh.postMessage === \"function\") {\n      mh.postMessage(JSON.stringify(envelope));\n    } else {\n      throw new Error(\"werust provider bridge unavailable\");\n    }\n  }\n\n  var provider = {\n    isWerust: true,\n    request: function (args) {\n      var method = args && args.method;\n      var params = (args && args.params) || [];\n      var id = nextId++;\n      return new Promise(function (resolve, reject) {\n        pending.set(id, { resolve: resolve, reject: reject });\n        try {\n          post({ id: id, method: method, params: params });\n        } catch (e) {\n          pending.delete(id);\n          reject(e);\n        }\n      });\n    },\n    on: function (event, handler) {\n      if (!listeners.has(event)) listeners.set(event, []);\n      listeners.get(event).push(handler);\n      return provider;\n    },\n    removeListener: function (event, handler) {\n      var hs = listeners.get(event);\n      if (!hs) return provider;\n      var i = hs.indexOf(handler);\n      if (i !== -1) hs.splice(i, 1);\n      return provider;\n    },\n    emit: function (event, payload) {\n      var hs = listeners.get(event);\n      if (!hs) return false;\n      hs.slice().forEach(function (h) { h(payload); });\n      return hs.length > 0;\n    }\n  };\n\n  // The native response push channel: the backend evaluates\n  // window.<BRIDGE>.__resolve(id, result) / __reject(id, error) to settle the\n  // pending Promise the correlation id belongs to.\n  var channel = {\n    __resolve: function (id, result) {\n      var p = pending.get(id);\n      if (!p) return;\n      pending.delete(id);\n      p.resolve(result);\n    },\n    __reject: function (id, error) {\n      var p = pending.get(id);\n      if (!p) return;\n      pending.delete(id);\n      var err = new Error((error && error.message) || \"provider error\");\n      if (error && typeof error.code !== \"undefined\") err.code = error.code;\n      p.reject(err);\n    }\n  };\n\n  Object.defineProperty(window, BRIDGE, { value: channel });\n  Object.defineProperty(window, \"ethereum\", { value: provider, configurable: true });\n})();\n");
    assert(out@ =~= spec_provider_shim());
    string_of(out.as_slice())
}

/// Route one script-message-bridge message: the settling script to push back
/// for a message on the provider channel, nothing for any other channel or
/// for an envelope with no recoverable id.
pub fn route_provider_message(bridge: &ProviderBridge, handler: &str, body: &str) -> (r: Option<
    String,
>)
    ensures
        handler@ != PROVIDER_BRIDGE@ ==> r is None,
        handler@ == PROVIDER_BRIDGE@ ==> match spec_handle(body@) {
            Some(t) => r matches Some(s) && s@ == t,
            None => r is None,
        },
{
    let h = chars_of(handler);
    let b = chars_of(PROVIDER_BRIDGE);
    if !chars_eq(h.as_slice(), b.as_slice()) {
        return None;
    }
    bridge.handle(body)
}

/// A request a page makes for anything but the benign read-only methods is
/// refused with the `4200` code, never answered.
pub proof fn law_only_read_only_methods_are_answered(m: Seq<char>)
    requires
        m != "eth_chainId"@,
        m != "eth_accounts"@,
        m != "eth_requestAccounts"@,
    ensures
        spec_answer(m) matches Err((code, _)) && code == 4200,
{
}


/// The shim settles an answered request: the native side's `__resolve(id,
/// result)` takes the pending promise of `id` off the table and resolves it
/// with `result`; it rejects nothing, and `__reject` is the next member of
/// the channel.
pub proof fn law_shim_resolves_answered_requests()
    ensures
        contains_sub(
            spec_provider_shim(),
            "__resolve: function (id, result) {\n      var p = pending.get(id);\n      if (!p) return;\n      pending.delete(id);\n      p.resolve(result);\n    },\n    __reject: function (id, error) {"@,
        ),
{
    reveal_strlit("(function () {\n  \"use strict\";\n  var BRIDGE = \"");
    reveal_strlit("\";\n  var pending = new Map();\n  var nextId = 1;\n  var listeners = new Map();\n\n  function post(envelope) {\n    // The script-message bridge: page -> native. WebKitGTK exposes it at\n    // window.webkit.messageHandlers.<name>; guard so the shim degrades cleanly\n    // if it is somehow absent rather than throwing into the page.\n    var mh = window.webkit\n      && window.webkit.messageHandlers\n      && window.webkit.messageHandlers[BRIDGE];\n    if (mh && typeof mh.postMessage === \"function\") {\n      mh.postMessage(JSON.stringify(envelope));\n    } else {\n      throw new Error(\"werust provider bridge unavailable\");\n    }\n  }\n\n  var provider = {\n    isWerust: true,\n    request: function (args) {\n      var method = args && args.method;\n      var params = (args && args.params) || [];\n      var id = nextId++;\n      return new Promise(function (resolve, reject) {\n        pending.set(id, { resolve: resolve, reject: reject });\n        try {\n          post({ id: id, method: method, params: params });\n        } catch (e) {\n          pending.delete(id);\n          reject(e);\n        }\n      });\n    },\n    on: function (event, handler) {\n      if (!listeners.has(event)) listeners.set(event, []);\n      listeners.get(event).push(handler);\n      return provider;\n    },\n    removeListener: function (event, handler) {\n      var hs = listeners.get(event);\n      if (!hs) return provider;\n      var i = hs.indexOf(handler);\n      if (i !== -1) hs.splice(i, 1);\n      return provider;\n    },\n    emit: function (event, payload) {\n      var hs = listeners.get(event);\n      if (!hs) return false;\n      hs.slice().forEach(function (h) { h(payload); });\n      return hs.length > 0;\n    }\n  };\n\n  // The native response push channel: the backend evaluates\n  // window.<BRIDGE>.__resolve(id, result) / __reject(id, error) to settle the\n  // pending Promise the correlation id belongs to.\n  var channel = {\n    __resolve: function (id, result) {\n      var p = pending.get(id);\n      if (!p) return;\n      pending.delete(id);\n      p.resolve(result);\n    },\n    __reject: function (id, error) {\n      var p = pending.get(id);\n      if (!p) return;\n      pending.delete(id);\n      var err = new Error((error && error.message) || \"provider error\");\n      if (error && typeof error.code !== \"undefined\") err.code = error.code;\n      p.reject(err);\n    }\n  };\n\n  Object.defineProperty(window, BRIDGE, { value: channel });\n  Object.defineProperty(window, \"ethereum\", { value: provider, configurable: true });\n})();\n");
    reveal_strlit("__resolve: function (id, result) {\n      var p = pending.get(id);\n      if (!p) return;\n      pending.delete(id);\n      p.resolve(result);\n    },\n    __reject: function (id, error) {");
    reveal_strlit("werustProvider");
    let body = "\";\n  var pending = new Map();\n  var nextId = 1;\n  var listeners = new Map();\n\n  function post(envelope) {\n    // The script-message bridge: page -> native. WebKitGTK exposes it at\n    // window.webkit.messageHandlers.<name>; guard so the shim degrades cleanly\n    // if it is somehow absent rather than throwing into the page.\n    var mh = window.webkit\n      && window.webkit.messageHandlers\n      && window.webkit.messageHandlers[BRIDGE];\n    if (mh && typeof mh.postMessage === \"function\") {\n      mh.postMessage(JSON.stringify(envelope));\n    } else {\n      throw new Error(\"werust provider bridge unavailable\");\n    }\n  }\n\n  var provider = {\n    isWerust: true,\n    request: function (args) {\n      var method = args && args.method;\n      var params = (args && args.params) || [];\n      var id = nextId++;\n      return new Promise(function (resolve, reject) {\n        pending.set(id, { resolve: resolve, reject: reject });\n        try {\n          post({ id: id, method: method, params: params });\n        } catch (e) {\n          pending.delete(id);\n          reject(e);\n        }\n      });\n    },\n    on: function (event, handler) {\n      if (!listeners.has(event)) listeners.set(event, []);\n      listeners.get(event).push(handler);\n      return provider;\n    },\n    removeListener: function (event, handler) {\n      var hs = listeners.get(event);\n      if (!hs) return provider;\n      var i = hs.indexOf(handler);\n      if (i !== -1) hs.splice(i, 1);\n      return provider;\n    },\n    emit: function (event, payload) {\n      var hs = listeners.get(event);\n      if (!hs) return false;\n      hs.slice().forEach(function (h) { h(payload); });\n      return hs.length > 0;\n    }\n  };\n\n  // The native response push channel: the backend evaluates\n  // window.<BRIDGE>.__resolve(id, result) / __reject(id, error) to settle the\n  // pending Promise the correlation id belongs to.\n  var channel = {\n    __resolve: function (id, result) {\n      var p = pending.get(id);\n      if (!p) return;\n      pending.delete(id);\n      p.resolve(result);\n    },\n    __reject: function (id, error) {\n      var p = pending.get(id);\n      if (!p) return;\n      pending.delete(id);\n      var err = new Error((error && error.message) || \"provider error\");\n      if (error && typeof error.code !== \"undefined\") err.code = error.code;\n      p.reject(err);\n    }\n  };\n\n  Object.defineProperty(window, BRIDGE, { value: channel });\n  Object.defineProperty(window, \"ethereum\", { value: provider, configurable: true });\n})();\n"@;
    let res = "__resolve: function (id, result) {\n      var p = pending.get(id);\n      if (!p) return;\n      pending.delete(id);\n      p.resolve(result);\n    },\n    __reject: function (id, error) {"@;
    assert(body.subrange(1902, 1902 + res.len() as int) =~= res);
    let pre = "(function () {\n  \"use strict\";\n  var BRIDGE = \""@ + PROVIDER_BRIDGE@;
    let shim = spec_provider_shim();
    assert(shim =~= pre + body);
    let k: int = pre.len() as int + 1902;
    assert(shim.subrange(k, k + res.len() as int) =~= body.subrange(1902, 1902 + res.len() as int));
}

} // verus!
