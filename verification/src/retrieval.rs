//! The user-choosable IPFS retrieval backend: the selection value, its
//! validation, the persisted wire form's decisions, and the internal
//! `werust://settings` page that surfaces it with its privacy framing.
//!
//! Reading and writing the settings file is the caller's: this module decides
//! what a selection means, what the page says, and what a settings request
//! asks to be persisted.

use vstd::prelude::*;

use crate::json::{
    json_error, json_object, json_parse_error, json_str_at, json_str_field, member_value, members_view,
    object_text, str_member, JsonScalar, ScalarView,
};
use crate::text::{
    contains_sub, nonempty_pieces, split_on, split_chars, drop_empty, views, find_any, find_any_from,
    lemma_find_any_from, starts_with,
    before_any, chars_eq, chars_of, eq_ignore_ascii_case, find_sub, find_sub_from,
    lemma_find_sub_from, lower_ascii_seq, owned, prefix_before_any, push_all, push_str,
    seq_lt, slice_to_vec, string_of, trim, trim_vec,
};

verus! {

/// The internal scheme the settings page is served under.
pub const WERUST_SCHEME: &'static str = "werust";

/// The settings page host: `werust://settings`.
pub const SETTINGS_HOST: &'static str = "settings";

/// The environment variable that overrides the settings directory.
pub const SETTINGS_DIR_ENV: &'static str = "WERUST_SETTINGS_DIR";

/// The settings file name under the settings directory.
pub const SETTINGS_FILE: &'static str = "retrieval.json";

/// The default public trustless gateway the `ipfs://` load path uses when the
/// user has chosen nothing else.
pub const DEFAULT_TRUSTLESS_GATEWAY: &'static str = "https://trustless-gateway.link";

/// The user's chosen IPFS retrieval backend.
#[derive(Debug, Clone, PartialEq, Eq)]
pub enum RetrievalBackendChoice {
    /// The default public trustless gateway.
    DefaultGateway,
    /// A user-supplied gateway / local-node base URL (validated `http(s)://`).
    Custom {
        /// The validated base URL.
        url: String,
    },
    /// Delegated routing: not available yet.
    DelegatedRouting,
    /// An embedded peer-to-peer client: not available yet.
    EmbeddedP2p,
}

impl Default for RetrievalBackendChoice {
    fn default() -> (r: Self)
        ensures
            r == RetrievalBackendChoice::DefaultGateway,
    {
        RetrievalBackendChoice::DefaultGateway
    }
}

/// Whether a backend option is selectable now.
#[derive(Debug, Clone, Copy, PartialEq, Eq, Structural)]
pub enum BackendAvailability {
    /// Selectable now.
    Available,
    /// Shown as "coming soon"; selecting it is a typed refusal.
    ComingSoon,
}

/// Why a backend selection was refused.
#[derive(Debug, Clone, PartialEq, Eq)]
pub enum ChoiceError {
    /// The kind was not one of the known kinds.
    UnknownKind(String),
    /// A custom selection carried no URL (or a blank one).
    MissingCustomUrl,
    /// A custom URL was not a usable `http(s)://` endpoint.
    InvalidCustomUrl(String),
    /// The backend is shown but not yet available.
    NotYetAvailable(String),
}

/// A choice as plain values.
pub enum ChoiceView {
    DefaultGateway,
    Custom { url: Seq<char> },
    DelegatedRouting,
    EmbeddedP2p,
}

impl View for RetrievalBackendChoice {
    type V = ChoiceView;

    open spec fn view(&self) -> ChoiceView {
        match self {
            RetrievalBackendChoice::DefaultGateway => ChoiceView::DefaultGateway,
            RetrievalBackendChoice::Custom { url } => ChoiceView::Custom { url: url@ },
            RetrievalBackendChoice::DelegatedRouting => ChoiceView::DelegatedRouting,
            RetrievalBackendChoice::EmbeddedP2p => ChoiceView::EmbeddedP2p,
        }
    }
}

/// A refusal as plain values.
pub enum ChoiceErrorView {
    UnknownKind(Seq<char>),
    MissingCustomUrl,
    InvalidCustomUrl(Seq<char>),
    NotYetAvailable(Seq<char>),
}

impl View for ChoiceError {
    type V = ChoiceErrorView;

    open spec fn view(&self) -> ChoiceErrorView {
        match self {
            ChoiceError::UnknownKind(k) => ChoiceErrorView::UnknownKind(k@),
            ChoiceError::MissingCustomUrl => ChoiceErrorView::MissingCustomUrl,
            ChoiceError::InvalidCustomUrl(u) => ChoiceErrorView::InvalidCustomUrl(u@),
            ChoiceError::NotYetAvailable(k) => ChoiceErrorView::NotYetAvailable(k@),
        }
    }
}

/// The sentence a refusal reads as.
pub open spec fn choice_error_text(e: ChoiceErrorView) -> Seq<char> {
    match e {
        ChoiceErrorView::UnknownKind(k) => "unknown retrieval backend `"@ + k + "`"@,
        ChoiceErrorView::MissingCustomUrl => "a custom retrieval backend needs a gateway/node URL"@,
        ChoiceErrorView::InvalidCustomUrl(u) => "invalid custom gateway/node URL (need http(s)://): "@
            + u,
        ChoiceErrorView::NotYetAvailable(k) => "the `"@ + k + "` retrieval backend is not available yet"@,
    }
}

impl ChoiceError {
    /// The legible sentence the settings page shows.
    pub fn message(&self) -> (r: String)
        ensures
            r@ == choice_error_text(self@),
    {
        let mut out: Vec<char> = Vec::new();
        match self {
            ChoiceError::UnknownKind(k) => {
                push_str(&mut out, "unknown retrieval backend `");
                push_str(&mut out, k.as_str());
                push_str(&mut out, "`");
            },
            ChoiceError::MissingCustomUrl => {
                push_str(&mut out, "a custom retrieval backend needs a gateway/node URL");
            },
            ChoiceError::InvalidCustomUrl(u) => {
                push_str(&mut out, "invalid custom gateway/node URL (need http(s)://): ");
                push_str(&mut out, u.as_str());
            },
            ChoiceError::NotYetAvailable(k) => {
                push_str(&mut out, "the `");
                push_str(&mut out, k.as_str());
                push_str(&mut out, "` retrieval backend is not available yet");
            },
        }
        assert(out@ =~= choice_error_text(self@));
        string_of(out.as_slice())
    }
}

/// The stable kind string of a choice.
pub open spec fn kind_of(c: ChoiceView) -> Seq<char> {
    match c {
        ChoiceView::DefaultGateway => "default-gateway"@,
        ChoiceView::Custom { .. } => "custom"@,
        ChoiceView::DelegatedRouting => "delegated-routing"@,
        ChoiceView::EmbeddedP2p => "embedded-p2p"@,
    }
}

/// The gateway endpoint of a choice, or the refusal for a coming-soon one.
pub open spec fn spec_endpoint(c: ChoiceView) -> Result<Seq<char>, ChoiceErrorView> {
    match c {
        ChoiceView::DefaultGateway => Ok(DEFAULT_TRUSTLESS_GATEWAY@),
        ChoiceView::Custom { url } => Ok(url),
        ChoiceView::DelegatedRouting => Err(ChoiceErrorView::NotYetAvailable("delegated-routing"@)),
        ChoiceView::EmbeddedP2p => Err(ChoiceErrorView::NotYetAvailable("embedded-p2p"@)),
    }
}

/// `s` without any trailing `/`.
pub open spec fn strip_trailing_slashes(s: Seq<char>) -> Seq<char>
    decreases s.len(),
{
    if s.len() > 0 && s.last() == '/' {
        strip_trailing_slashes(s.drop_last())
    } else {
        s
    }
}

/// A custom endpoint checked: an `http(s)://` origin with a non-empty host,
/// trimmed, with trailing `/` removed; a refusal names the URL as given.
pub open spec fn spec_validate_custom_url(raw: Seq<char>) -> Result<Seq<char>, ChoiceErrorView> {
    let t = trim(raw);
    let k = find_sub_from(t, "://"@, 0);
    if k == -1 {
        Err(ChoiceErrorView::InvalidCustomUrl(raw))
    } else {
        let scheme = t.take(k);
        let rest = t.skip(k + 3);
        let scheme_ok = lower_ascii_seq(scheme) == "http"@ || lower_ascii_seq(scheme) == "https"@;
        let host = before_any(rest, seq!['/', '?', '#']);
        if !scheme_ok || host.len() == 0 {
            Err(ChoiceErrorView::InvalidCustomUrl(raw))
        } else {
            Ok(strip_trailing_slashes(t))
        }
    }
}

/// What a `backend` kind plus an optional `url` select.
pub open spec fn spec_parse_choice(kind: Seq<char>, url: Option<Seq<char>>) -> Result<
    ChoiceView,
    ChoiceErrorView,
> {
    if kind == "default-gateway"@ {
        Ok(ChoiceView::DefaultGateway)
    } else if kind == "custom"@ {
        let raw = match url {
            Some(u) => trim(u),
            None => Seq::empty(),
        };
        if raw.len() == 0 {
            Err(ChoiceErrorView::MissingCustomUrl)
        } else {
            match spec_validate_custom_url(raw) {
                Ok(v) => Ok(ChoiceView::Custom { url: v }),
                Err(e) => Err(e),
            }
        }
    } else if kind == "delegated-routing"@ {
        Err(ChoiceErrorView::NotYetAvailable("delegated-routing"@))
    } else if kind == "embedded-p2p"@ {
        Err(ChoiceErrorView::NotYetAvailable("embedded-p2p"@))
    } else {
        Err(ChoiceErrorView::UnknownKind(kind))
    }
}

/// The choice a result gives, as plain values.
pub open spec fn choice_result_view(r: Result<RetrievalBackendChoice, ChoiceError>) -> Result<
    ChoiceView,
    ChoiceErrorView,
> {
    match r {
        Ok(c) => Ok(c@),
        Err(e) => Err(e@),
    }
}

/// The endpoint a result gives, as plain values.
pub open spec fn endpoint_result_view(r: Result<String, ChoiceError>) -> Result<
    Seq<char>,
    ChoiceErrorView,
> {
    match r {
        Ok(s) => Ok(s@),
        Err(e) => Err(e@),
    }
}

fn strip_trailing_slashes_vec(v: &[char]) -> (r: Vec<char>)
    ensures
        r@ == strip_trailing_slashes(v@),
{
    let mut k: usize = v.len();
    assert(v@.take(k as int) =~= v@);
    while k > 0 && v[k - 1] == '/'
        invariant
            k <= v@.len(),
            strip_trailing_slashes(v@) == strip_trailing_slashes(v@.take(k as int)),
        decreases k,
    {
        assert(v@.take(k as int).drop_last() =~= v@.take(k - 1));
        k -= 1;
    }
    let r = slice_to_vec(v, 0, k);
    assert(r@ =~= v@.take(k as int));
    r
}

/// Validate a custom gateway/local-node URL: an `http(s)://` origin with a
/// non-empty host, returned trimmed with any trailing `/` removed.
fn validate_custom_url(raw: &str) -> (r: Result<String, ChoiceError>)
    ensures
        endpoint_result_view(r) == spec_validate_custom_url(raw@),
{
    let rc = chars_of(raw);
    let t = trim_vec(rc.as_slice());
    let sep = vec![':', '/', '/'];
    assert(sep@ =~= "://"@) by {
        reveal_strlit("://");
    }
    let k = match find_sub(t.as_slice(), sep.as_slice(), 0) {
        None => {
            return Err(ChoiceError::InvalidCustomUrl(owned(raw)));
        },
        Some(k) => k,
    };
    proof {
        lemma_find_sub_from(t@, sep@, 0);
    }
    let n = t.len();
    assert(k + 3 <= n);
    let scheme = slice_to_vec(t.as_slice(), 0, k);
    let rest = slice_to_vec(t.as_slice(), k + 3, t.len());
    assert(scheme@ =~= t@.take(k as int));
    assert(rest@ =~= t@.skip(k + 3));
    let http = vec!['h', 't', 't', 'p'];
    let https = vec!['h', 't', 't', 'p', 's'];
    proof {
        reveal_strlit("http");
        reveal_strlit("https");
        assert(lower_ascii_seq(http@) =~= "http"@);
        assert(lower_ascii_seq(https@) =~= "https"@);
    }
    let scheme_ok = eq_ignore_ascii_case(scheme.as_slice(), http.as_slice())
        || eq_ignore_ascii_case(scheme.as_slice(), https.as_slice());
    let seps = vec!['/', '?', '#'];
    assert(seps@ =~= seq!['/', '?', '#']);
    let host = prefix_before_any(rest.as_slice(), seps.as_slice());
    if !scheme_ok || host.len() == 0 {
        return Err(ChoiceError::InvalidCustomUrl(owned(raw)));
    }
    let out = strip_trailing_slashes_vec(t.as_slice());
    Ok(string_of(out.as_slice()))
}

fn is_kind(v: &[char], k: &str) -> (r: bool)
    ensures
        r == (v@ == k@),
{
    let kc = chars_of(k);
    chars_eq(v, kc.as_slice())
}

impl RetrievalBackendChoice {
    /// The stable kind string (the persisted and query form).
    pub fn kind(&self) -> (r: &'static str)
        ensures
            r@ == kind_of(self@),
    {
        match self {
            RetrievalBackendChoice::DefaultGateway => "default-gateway",
            RetrievalBackendChoice::Custom { .. } => "custom",
            RetrievalBackendChoice::DelegatedRouting => "delegated-routing",
            RetrievalBackendChoice::EmbeddedP2p => "embedded-p2p",
        }
    }

    /// Whether this choice is selectable now.
    pub fn availability(&self) -> (r: BackendAvailability)
        ensures
            r == match self@ {
                ChoiceView::DefaultGateway | ChoiceView::Custom { .. } => BackendAvailability::Available,
                _ => BackendAvailability::ComingSoon,
            },
    {
        match self {
            RetrievalBackendChoice::DefaultGateway | RetrievalBackendChoice::Custom { .. } => {
                BackendAvailability::Available
            },
            RetrievalBackendChoice::DelegatedRouting | RetrievalBackendChoice::EmbeddedP2p => {
                BackendAvailability::ComingSoon
            },
        }
    }

    /// The gateway base URL the retriever is pointed at for this choice, or
    /// the refusal for a not-yet-available backend.
    pub fn gateway_endpoint(&self) -> (r: Result<String, ChoiceError>)
        ensures
            endpoint_result_view(r) == spec_endpoint(self@),
    {
        match self {
            RetrievalBackendChoice::DefaultGateway => Ok(owned(DEFAULT_TRUSTLESS_GATEWAY)),
            RetrievalBackendChoice::Custom { url } => Ok(url.clone()),
            RetrievalBackendChoice::DelegatedRouting => Err(
                ChoiceError::NotYetAvailable(owned("delegated-routing")),
            ),
            RetrievalBackendChoice::EmbeddedP2p => Err(
                ChoiceError::NotYetAvailable(owned("embedded-p2p")),
            ),
        }
    }

    /// Build a choice from a `backend` kind and an optional `url`, validating
    /// a custom URL and refusing a not-yet-available backend.
    pub fn parse(kind: &str, url: Option<&str>) -> (r: Result<Self, ChoiceError>)
        ensures
            choice_result_view(r) == spec_parse_choice(
                kind@,
                match url {
                    Some(u) => Some(u@),
                    None => None,
                },
            ),
    {
        let kc = chars_of(kind);
        if is_kind(kc.as_slice(), "default-gateway") {
            return Ok(RetrievalBackendChoice::DefaultGateway);
        }
        if is_kind(kc.as_slice(), "custom") {
            let raw = match url {
                Some(u) => {
                    let uc = chars_of(u);
                    trim_vec(uc.as_slice())
                },
                None => Vec::new(),
            };
            if raw.len() == 0 {
                return Err(ChoiceError::MissingCustomUrl);
            }
            let raw_s = string_of(raw.as_slice());
            return match validate_custom_url(raw_s.as_str()) {
                Ok(v) => Ok(RetrievalBackendChoice::Custom { url: v }),
                Err(e) => Err(e),
            };
        }
        if is_kind(kc.as_slice(), "delegated-routing") {
            return Err(ChoiceError::NotYetAvailable(owned("delegated-routing")));
        }
        if is_kind(kc.as_slice(), "embedded-p2p") {
            return Err(ChoiceError::NotYetAvailable(owned("embedded-p2p")));
        }
        Err(ChoiceError::UnknownKind(owned(kind)))
    }
}

/// The persisted retrieval settings: the chosen backend.
#[derive(Debug, Clone, PartialEq, Eq)]
pub struct RetrievalSettings {
    /// The user's chosen retrieval backend.
    pub backend: RetrievalBackendChoice,
}

impl Default for RetrievalSettings {
    fn default() -> (r: Self)
        ensures
            r.backend == RetrievalBackendChoice::DefaultGateway,
    {
        RetrievalSettings { backend: RetrievalBackendChoice::DefaultGateway }
    }
}

impl RetrievalSettings {
    /// The settings a persisted document records, given its `backend` and
    /// `url` strings: `None` without a `backend`; a stored choice that does
    /// not parse (unknown, coming soon, an invalid custom URL) re-defaults to
    /// the default gateway rather than taking effect.
    pub fn from_parts(backend: Option<&str>, url: Option<&str>) -> (r: Option<Self>)
        ensures
            match backend {
                None => r is None,
                Some(k) => r matches Some(s) && s.backend@ == match spec_parse_choice(
                    k@,
                    match url {
                        Some(u) => Some(u@),
                        None => None,
                    },
                ) {
                    Ok(c) => c,
                    Err(_) => ChoiceView::DefaultGateway,
                },
            },
    {
        let kind = match backend {
            None => {
                return None;
            },
            Some(k) => k,
        };
        let backend = match RetrievalBackendChoice::parse(kind, url) {
            Ok(c) => c,
            Err(_) => RetrievalBackendChoice::DefaultGateway,
        };
        Some(RetrievalSettings { backend })
    }
}

/// The members of a choice's persisted document: its `backend` kind, and a
/// `url` for a custom choice only.
pub open spec fn settings_members(c: ChoiceView) -> Seq<(Seq<char>, ScalarView)> {
    match c {
        ChoiceView::Custom { url } => seq![
            ("backend"@, ScalarView::Str(kind_of(c))),
            ("url"@, ScalarView::Str(url)),
        ],
        _ => seq![("backend"@, ScalarView::Str(kind_of(c)))],
    }
}

/// The persisted JSON document of a choice: `{"backend":"<kind>"}`, with a
/// `"url"` member for a custom choice only (compact, keys in order).
pub open spec fn settings_json(c: ChoiceView) -> Seq<char> {
    object_text(settings_members(c))
}

/// The `url` a choice persists: a custom choice's endpoint, nothing else.
pub open spec fn persisted_url(c: ChoiceView) -> Option<Seq<char>> {
    match c {
        ChoiceView::Custom { url } => Some(url),
        _ => None,
    }
}

/// The choice its persisted `(backend, url)` pair selects when read back:
/// re-validated, a choice that does not parse re-defaulting.
pub open spec fn reread_choice(c: ChoiceView) -> ChoiceView {
    match spec_parse_choice(kind_of(c), persisted_url(c)) {
        Ok(d) => d,
        Err(_) => ChoiceView::DefaultGateway,
    }
}

/// A selectable choice in the form a selection leaves it: the default
/// gateway, or a custom endpoint already trimmed and validated.
pub open spec fn is_canonical_choice(c: ChoiceView) -> bool {
    match c {
        ChoiceView::DefaultGateway => true,
        ChoiceView::Custom { url } => trim(url) == url && spec_validate_custom_url(url)
            == Ok::<Seq<char>, ChoiceErrorView>(url),
        _ => false,
    }
}

/// The choice a persisted JSON document records: `None` when it is not JSON
/// or has no string `backend`; a stored choice that does not parse
/// re-defaults to the default gateway.
pub open spec fn settings_from_json(text: Seq<char>) -> Option<ChoiceView> {
    match json_parse_error(text) {
        Some(_) => None,
        None => match json_str_at(text, "backend"@) {
            None => None,
            Some(k) => Some(
                match spec_parse_choice(k, json_str_at(text, "url"@)) {
                    Ok(c) => c,
                    Err(_) => ChoiceView::DefaultGateway,
                },
            ),
        },
    }
}

impl RetrievalSettings {
    /// The persisted JSON wire form: `{ "backend": "<kind>", "url": … }`,
    /// where `url` is present only for a custom choice. Reading it back
    /// gives the choice its `(backend, url)` pair selects: the choice itself
    /// when it is selectable and in its validated form, the default gateway
    /// for a coming-soon one.
    pub fn to_json(&self) -> (r: String)
        ensures
            r@ == settings_json(self.backend@),
            settings_from_json(r@) == Some(reread_choice(self.backend@)),
            is_canonical_choice(self.backend@) ==> settings_from_json(r@) == Some(self.backend@),
            (self.backend@ is DelegatedRouting || self.backend@ is EmbeddedP2p) ==> settings_from_json(
                r@,
            ) == Some(ChoiceView::DefaultGateway),
    {
        let mut members: Vec<(String, JsonScalar)> = Vec::new();
        members.push((owned("backend"), JsonScalar::Str(owned(self.backend.kind()))));
        if let RetrievalBackendChoice::Custom { url } = &self.backend {
            members.push((owned("url"), JsonScalar::Str(url.clone())));
        }
        let ghost c = self.backend@;
        let ghost ms = settings_members(c);
        proof {
            reveal_strlit("backend");
            reveal_strlit("url");
            assert(members_view(members@) =~= ms);
            assert(seq_lt("backend"@, "url"@));
        }
        let r = json_object(&members);
        proof {
            lemma_settings_members_read(c);
            lemma_kinds_distinct();
            if is_canonical_choice(c) {
                law_persisted_choice_round_trips(c);
            }
        }
        r
    }

    /// Read the persisted JSON wire form back, re-validating the stored
    /// choice: `None` when the text is not JSON or records no `backend`; a
    /// stored choice that no longer parses (unknown, coming soon, an invalid
    /// custom URL) re-defaults rather than taking effect.
    pub fn from_json(text: &str) -> (r: Option<Self>)
        ensures
            match settings_from_json(text@) {
                None => r is None,
                Some(c) => r matches Some(s) && s.backend@ == c,
            },
    {
        if json_error(text).is_some() {
            return None;
        }
        let kind = match json_str_field(text, "backend") {
            Some(k) => k,
            None => {
                return None;
            },
        };
        let url = json_str_field(text, "url");
        let url_ref: Option<&str> = match &url {
            Some(u) => Some(u.as_str()),
            None => None,
        };
        RetrievalSettings::from_parts(Some(kind.as_str()), url_ref)
    }
}

/// The gateway endpoint a settings value points the load path at, falling
/// back to the default gateway for a coming-soon choice.
pub fn endpoint_of(settings: &RetrievalSettings) -> (r: String)
    ensures
        r@ == match spec_endpoint(settings.backend@) {
            Ok(e) => e,
            Err(_) => DEFAULT_TRUSTLESS_GATEWAY@,
        },
{
    match settings.backend.gateway_endpoint() {
        Ok(e) => e,
        Err(_) => owned(DEFAULT_TRUSTLESS_GATEWAY),
    }
}

// ---------------------------------------------------------------------------
// The `werust://settings` page.
// ---------------------------------------------------------------------------

/// `c` made safe inside HTML text or an attribute.
pub open spec fn escape_char(c: char) -> Seq<char> {
    if c == '&' {
        "&amp;"@
    } else if c == '<' {
        "&lt;"@
    } else if c == '>' {
        "&gt;"@
    } else if c == '"' {
        "&quot;"@
    } else if c == '\'' {
        "&#39;"@
    } else {
        seq![c]
    }
}

/// `s` HTML-escaped, character by character.
pub open spec fn escape_html_spec(s: Seq<char>) -> Seq<char>
    decreases s.len(),
{
    if s.len() == 0 {
        Seq::empty()
    } else {
        escape_html_spec(s.drop_last()) + escape_char(s.last())
    }
}

/// HTML-escape a string for safe inclusion in the settings page: `&`, `<`,
/// `>`, `"` and `'` become entities.
pub fn escape_html(s: &str) -> (r: String)
    ensures
        r@ == escape_html_spec(s@),
{
    let v = chars_of(s);
    let mut out: Vec<char> = Vec::new();
    let mut i: usize = 0;
    while i < v.len()
        invariant
            i <= v@.len(),
            v@ == s@,
            out@ == escape_html_spec(v@.take(i as int)),
        decreases v@.len() - i,
    {
        let c = v[i];
        let ghost before = out@;
        if c == '&' {
            push_str(&mut out, "&amp;");
        } else if c == '<' {
            push_str(&mut out, "&lt;");
        } else if c == '>' {
            push_str(&mut out, "&gt;");
        } else if c == '"' {
            push_str(&mut out, "&quot;");
        } else if c == '\'' {
            push_str(&mut out, "&#39;");
        } else {
            out.push(c);
            assert(out@ =~= before + seq![c]);
        }
        assert(v@.take(i as int + 1).drop_last() =~= v@.take(i as int));
        i += 1;
    }
    assert(v@.take(v@.len() as int) =~= v@);
    string_of(out.as_slice())
}

/// One backend option the settings page lists.
pub struct BackendOption {
    /// The stable kind string.
    pub kind: &'static str,
    /// The human label.
    pub label: &'static str,
    /// The privacy/trust one-liner.
    pub framing: &'static str,
    /// Whether it is selectable now.
    pub availability: BackendAvailability,
    /// Whether it needs a custom URL field.
    pub needs_url: bool,
}

/// The kind of option `i`.
pub open spec fn opt_kind(i: int) -> Seq<char> {
    if i == 0 {
        "default-gateway"@
    } else     if i == 1 {
        "custom"@
    } else     if i == 2 {
        "delegated-routing"@
    } else {
        "embedded-p2p"@
    }
}

/// The label of option `i`.
pub open spec fn opt_label(i: int) -> Seq<char> {
    if i == 0 {
        "Default public trustless gateway"@
    } else     if i == 1 {
        "Custom gateway or local node URL"@
    } else     if i == 2 {
        "Delegated routing (coming soon)"@
    } else {
        "Embedded peer-to-peer client (coming soon)"@
    }
}

/// The framing of option `i`.
pub open spec fn opt_framing(i: int) -> Seq<char> {
    if i == 0 {
        "Needs no node, but a public gateway is a third party that SEES which sites you visit. Content is still hash-verified, so it cannot serve you fake bytes, but it observes what you ask for."@
    } else     if i == 1 {
        "Point werust at your own gateway or a local IPFS node (http(s)://...). A local node is the private, self-trusted choice: no third party sees your browsing."@
    } else     if i == 2 {
        "A future backend that discovers providers via delegated routing. Not available yet."@
    } else {
        "A future built-in p2p client that retrieves content with no third-party gateway at all: the private default werust is working toward. Not available yet."@
    }
}

/// The availability of option `i`.
pub open spec fn opt_avail(i: int) -> BackendAvailability {
    if i == 0 {
        BackendAvailability::Available
    } else     if i == 1 {
        BackendAvailability::Available
    } else     if i == 2 {
        BackendAvailability::ComingSoon
    } else {
        BackendAvailability::ComingSoon
    }
}

/// Whether option `i` needs a URL field.
pub open spec fn opt_needs_url(i: int) -> bool {
    i == 1
}

/// The backend options, in display order.
pub fn backend_options() -> (r: Vec<BackendOption>)
    ensures
        r@.len() == 4,
        forall|i: int|
            0 <= i < 4 ==> (#[trigger] r@[i]).kind@ == opt_kind(i) && r@[i].label@ == opt_label(i)
                && r@[i].framing@ == opt_framing(i) && r@[i].availability == opt_avail(i)
                && r@[i].needs_url == opt_needs_url(i),
{
    let mut r: Vec<BackendOption> = Vec::new();
    r.push(
        BackendOption {
            kind: "default-gateway",
            label: "Default public trustless gateway",
            framing: "Needs no node, but a public gateway is a third party that SEES which sites you visit. Content is still hash-verified, so it cannot serve you fake bytes, but it observes what you ask for.",
            availability: BackendAvailability::Available,
            needs_url: false,
        },
    );
    r.push(
        BackendOption {
            kind: "custom",
            label: "Custom gateway or local node URL",
            framing: "Point werust at your own gateway or a local IPFS node (http(s)://...). A local node is the private, self-trusted choice: no third party sees your browsing.",
            availability: BackendAvailability::Available,
            needs_url: true,
        },
    );
    r.push(
        BackendOption {
            kind: "delegated-routing",
            label: "Delegated routing (coming soon)",
            framing: "A future backend that discovers providers via delegated routing. Not available yet.",
            availability: BackendAvailability::ComingSoon,
            needs_url: false,
        },
    );
    r.push(
        BackendOption {
            kind: "embedded-p2p",
            label: "Embedded peer-to-peer client (coming soon)",
            framing: "A future built-in p2p client that retrieves content with no third-party gateway at all: the private default werust is working toward. Not available yet.",
            availability: BackendAvailability::ComingSoon,
            needs_url: false,
        },
    );
    r
}

/// The control an option offers.
pub open spec fn control_html(i: int, active_url: Seq<char>) -> Seq<char> {
    if opt_avail(i) == BackendAvailability::ComingSoon {
        "<em>coming soon</em>"@
    } else if !opt_needs_url(i) {
        "<a href=\"werust://settings?backend="@ + opt_kind(i) + "\">use this</a>"@
    } else {
        "<form action=\"werust://settings\" method=\"get\"><input type=\"hidden\" name=\"backend\" value=\""@ + opt_kind(i) + "\"><input type=\"url\" name=\"url\" placeholder=\"http://127.0.0.1:8080\" value=\""@
            + escape_html_spec(active_url) + "\"><button type=\"submit\">use this</button></form>"@
    }
}

/// The list item for option `i`.
pub open spec fn option_html(i: int, active_kind: Seq<char>, active_url: Seq<char>) -> Seq<char> {
    "<li><h3>"@ + escape_html_spec(opt_label(i)) + (if opt_kind(i) == active_kind {
        " <strong>(active)</strong>"@
    } else {
        ""@
    }) + "</h3><p>"@ + escape_html_spec(opt_framing(i)) + "</p><p>"@ + control_html(i, active_url)
        + "</p></li>"@
}

/// The list items for the first `n` options.
pub open spec fn options_html(n: int, active_kind: Seq<char>, active_url: Seq<char>) -> Seq<char>
    decreases n,
{
    if n <= 0 {
        Seq::empty()
    } else {
        options_html(n - 1, active_kind, active_url) + option_html(n - 1, active_kind, active_url)
    }
}

/// The settings page's heading and its privacy framing, which come first.
pub open spec fn page_head() -> Seq<char> {
    "<!doctype html><html><head><meta charset=\"utf-8\"><title>werust settings — IPFS retrieval backend</title></head><body><h1>IPFS retrieval backend</h1><p>Choose how werust retrieves content-addressed (<code>ipfs://</code>) content. This is an <strong>egress and trust choice</strong>: a public gateway is convenient but sees your browsing; a local node keeps it private. Whatever you pick, every byte is still hash-verified before it renders.</p>"@
}

/// The status paragraph for a status line.
pub open spec fn status_paragraph(s: Seq<char>) -> Seq<char> {
    "<p class=\"status\">"@ + escape_html_spec(s) + "</p>"@
}

/// The settings page for a choice and an optional status line.
pub open spec fn spec_settings_page(c: ChoiceView, status: Option<Seq<char>>) -> Seq<char> {
    let active_url = match c {
        ChoiceView::Custom { url } => url,
        _ => Seq::empty(),
    };
    let endpoint = match spec_endpoint(c) {
        Ok(e) => e,
        Err(_) => "(none: coming-soon backend)"@,
    };
    let status_html = match status {
        Some(s) => status_paragraph(s),
        None => Seq::empty(),
    };
    page_head() + status_html + "<p>Active backend: <code>"@ + escape_html_spec(
        kind_of(c),
    ) + "</code> — endpoint: <code>"@ + escape_html_spec(endpoint) + "</code></p><ul>"@
        + options_html(4, kind_of(c), active_url) + "</ul><p><small>The shipped default is still being decided (a public gateway is not an acceptable silent default for a privacy browser); see the release-gate follow-on.</small></p></body></html>"@
}

/// Render the `werust://settings` page for the active settings and an
/// optional status line: every backend option with its privacy framing, the
/// active one marked, the coming-soon ones disabled, and the custom-URL field.
pub fn settings_page_html(settings: &RetrievalSettings, status: Option<&str>) -> (r: String)
    ensures
        r@ == spec_settings_page(
            settings.backend@,
            match status {
                Some(s) => Some(s@),
                None => None,
            },
        ),
{
    proof {
        reveal_strlit("");
    }
    let active_kind = settings.backend.kind();
    let active_url: String = match &settings.backend {
        RetrievalBackendChoice::Custom { url } => url.clone(),
        _ => String::new(),
    };
    let active_endpoint = match settings.backend.gateway_endpoint() {
        Ok(e) => e,
        Err(_) => owned("(none: coming-soon backend)"),
    };
    let opts = backend_options();
    let mut options: Vec<char> = Vec::new();
    let mut i: usize = 0;
    while i < opts.len()
        invariant
            i <= 4,
            opts@.len() == 4,
            forall|j: int|
                0 <= j < 4 ==> (#[trigger] opts@[j]).kind@ == opt_kind(j) && opts@[j].label@
                    == opt_label(j) && opts@[j].framing@ == opt_framing(j) && opts@[j].availability
                    == opt_avail(j) && opts@[j].needs_url == opt_needs_url(j),
            options@ == options_html(i as int, active_kind@, active_url@),
        decreases 4 - i,
    {
        let opt = &opts[i];
        proof {
            reveal_strlit("");
        }
        let ghost before = options@;
        push_str(&mut options, "<li><h3>");
        let label = escape_html(opt.label);
        push_str(&mut options, label.as_str());
        let kc = chars_of(opt.kind);
        let ac = chars_of(active_kind);
        if chars_eq(kc.as_slice(), ac.as_slice()) {
            push_str(&mut options, " <strong>(active)</strong>");
        }
        push_str(&mut options, "</h3><p>");
        let framing = escape_html(opt.framing);
        push_str(&mut options, framing.as_str());
        push_str(&mut options, "</p><p>");
        let ghost mid = options@;
        match opt.availability {
            BackendAvailability::ComingSoon => {
                push_str(&mut options, "<em>coming soon</em>");
            },
            BackendAvailability::Available => {
                if !opt.needs_url {
                    push_str(&mut options, "<a href=\"werust://settings?backend=");
                    push_str(&mut options, opt.kind);
                    push_str(&mut options, "\">use this</a>");
                } else {
                    push_str(&mut options, "<form action=\"werust://settings\" method=\"get\"><input type=\"hidden\" name=\"backend\" value=\"");
                    push_str(&mut options, opt.kind);
                    push_str(&mut options, "\"><input type=\"url\" name=\"url\" placeholder=\"http://127.0.0.1:8080\" value=\"");
                    let val = escape_html(active_url.as_str());
                    push_str(&mut options, val.as_str());
                    push_str(&mut options, "\"><button type=\"submit\">use this</button></form>");
                }
            },
        }
        assert(options@ =~= mid + control_html(i as int, active_url@));
        push_str(&mut options, "</p></li>");
        assert(options@ =~= before + option_html(i as int, active_kind@, active_url@));
        i += 1;
    }
    let mut out: Vec<char> = Vec::new();
    push_str(&mut out, "<!doctype html><html><head><meta charset=\"utf-8\"><title>werust settings — IPFS retrieval backend</title></head><body><h1>IPFS retrieval backend</h1><p>Choose how werust retrieves content-addressed (<code>ipfs://</code>) content. This is an <strong>egress and trust choice</strong>: a public gateway is convenient but sees your browsing; a local node keeps it private. Whatever you pick, every byte is still hash-verified before it renders.</p>");
    match status {
        Some(s) => {
            push_str(&mut out, "<p class=\"status\">");
            let e = escape_html(s);
            push_str(&mut out, e.as_str());
            push_str(&mut out, "</p>");
        },
        None => {},
    }
    push_str(&mut out, "<p>Active backend: <code>");
    let ek = escape_html(active_kind);
    push_str(&mut out, ek.as_str());
    push_str(&mut out, "</code> — endpoint: <code>");
    let ee = escape_html(active_endpoint.as_str());
    push_str(&mut out, ee.as_str());
    push_str(&mut out, "</code></p><ul>");
    push_all(&mut out, options.as_slice());
    push_str(&mut out, "</ul><p><small>The shipped default is still being decided (a public gateway is not an acceptable silent default for a privacy browser); see the release-gate follow-on.</small></p></body></html>");
    assert(out@ =~= spec_settings_page(
        settings.backend@,
        match status {
            Some(s) => Some(s@),
            None => None,
        },
    ));
    string_of(out.as_slice())
}

// ---------------------------------------------------------------------------
// The settings request.
// ---------------------------------------------------------------------------

/// The value of an ASCII hex digit byte.
pub open spec fn hex_val(b: u8) -> Option<u8> {
    if 48 <= b <= 57 {
        Some((b - 48) as u8)
    } else if 97 <= b <= 102 {
        Some((b - 87) as u8)
    } else if 65 <= b <= 70 {
        Some((b - 55) as u8)
    } else {
        None
    }
}

/// The form-urlencoded bytes from `i` on, decoded: `+` is a space and `%XX`
/// is the byte `XX`; anything else (a `%` without two hex digits after it
/// included) is kept as it is.
pub open spec fn decode_from(b: Seq<u8>, i: int) -> Seq<u8>
    decreases b.len() - i,
{
    if i < 0 || i >= b.len() {
        Seq::empty()
    } else if b[i] == 43 {
        seq![32u8] + decode_from(b, i + 1)
    } else if b[i] == 37 && i + 2 < b.len() && hex_val(b[i + 1]) is Some && hex_val(
        b[i + 2],
    ) is Some {
        seq![(hex_val(b[i + 1])->0 * 16 + hex_val(b[i + 2])->0) as u8] + decode_from(b, i + 3)
    } else {
        seq![b[i]] + decode_from(b, i + 1)
    }
}

/// What std's `String::from_utf8_lossy` makes of a run of bytes.
pub uninterp spec fn utf8_lossy(bytes: Seq<u8>) -> Seq<char>;

/// std's `String::from_utf8_lossy`: the text of `bytes` with each invalid
/// sequence replaced by U+FFFD, a function of the bytes alone; valid UTF-8 is
/// decoded unchanged (as std documents).
#[verifier::external_body]
fn from_utf8_lossy(bytes: &[u8]) -> (r: String)
    ensures
        r@ == utf8_lossy(bytes@),
        vstd::utf8::valid_utf8(bytes@) ==> r@ == vstd::utf8::decode_utf8(bytes@),
{
    String::from_utf8_lossy(bytes).into_owned()
}

/// A form-urlencoded value, decoded: the bytes' text when they are valid
/// UTF-8, else their lossy decoding.
pub open spec fn spec_url_decode(s: Seq<char>) -> Seq<char> {
    let b = decode_from(vstd::utf8::encode_utf8(s), 0);
    if vstd::utf8::valid_utf8(b) {
        vstd::utf8::decode_utf8(b)
    } else {
        utf8_lossy(b)
    }
}

fn hex_digit(b: u8) -> (r: Option<u8>)
    ensures
        r == hex_val(b),
{
    if 48 <= b && b <= 57 {
        Some(b - 48)
    } else if 97 <= b && b <= 102 {
        Some(b - 87)
    } else if 65 <= b && b <= 70 {
        Some(b - 55)
    } else {
        None
    }
}

/// A minimal form-urlencoded value decode (`+` is a space, `%XX` a byte).
fn url_decode(s: &str) -> (r: String)
    ensures
        r@ == spec_url_decode(s@),
{
    let bytes = s.as_bytes();
    let ghost b = bytes@;
    let mut out: Vec<u8> = Vec::new();
    let mut i: usize = 0;
    while i < bytes.len()
        invariant
            i <= b.len(),
            b == bytes@,
            out@ + decode_from(b, i as int) == decode_from(b, 0),
        decreases b.len() - i,
    {
        let ghost before = out@;
        if bytes[i] == 43 {
            out.push(32);
            assert(out@ + decode_from(b, i + 1) =~= before + decode_from(b, i as int));
            i += 1;
        } else if bytes[i] == 37 && bytes.len() - i > 2 && hex_digit(bytes[i + 1]).is_some()
            && hex_digit(bytes[i + 2]).is_some() {
            let hi = hex_digit(bytes[i + 1]).unwrap();
            let lo = hex_digit(bytes[i + 2]).unwrap();
            out.push(hi * 16 + lo);
            assert(out@ + decode_from(b, i + 3) =~= before + decode_from(b, i as int));
            i += 3;
        } else {
            out.push(bytes[i]);
            assert(out@ + decode_from(b, i + 1) =~= before + decode_from(b, i as int));
            i += 1;
        }
    }
    assert(out@ =~= decode_from(b, 0));
    from_utf8_lossy(out.as_slice())
}

/// The query part of a URI: everything after the first `?`, or nothing.
pub open spec fn query_of(uri: Seq<char>) -> Seq<char> {
    let k = find_any_from(uri, seq!['?'], 0);
    if k == -1 {
        Seq::empty()
    } else {
        uri.skip(k + 1)
    }
}

/// A `key=value` pair's key (the whole pair when there is no `=`).
pub open spec fn pair_key(p: Seq<char>) -> Seq<char> {
    before_any(p, seq!['='])
}

/// A `key=value` pair's raw value (empty when there is no `=`).
pub open spec fn pair_value(p: Seq<char>) -> Seq<char> {
    let k = find_any_from(p, seq!['='], 0);
    if k == -1 {
        Seq::empty()
    } else {
        p.skip(k + 1)
    }
}

/// The decoded value of the last pair named `name`, if any.
pub open spec fn last_param(pairs: Seq<Seq<char>>, name: Seq<char>) -> Option<Seq<char>>
    decreases pairs.len(),
{
    if pairs.len() == 0 {
        None
    } else if pair_key(pairs.last()) == name {
        Some(spec_url_decode(pair_value(pairs.last())))
    } else {
        last_param(pairs.drop_last(), name)
    }
}

/// The non-empty `&`-separated pairs of a URI's query.
pub open spec fn query_pairs(uri: Seq<char>) -> Seq<Seq<char>> {
    nonempty_pieces(split_on(query_of(uri), seq!['&']))
}

/// The `backend` and `url` parameters of a settings URI.
pub open spec fn spec_query_params(uri: Seq<char>) -> (Option<Seq<char>>, Option<Seq<char>>) {
    (last_param(query_pairs(uri), "backend"@), last_param(query_pairs(uri), "url"@))
}

fn after_char(v: &[char], c: char) -> (r: Vec<char>)
    ensures
        r@ == (if find_any_from(v@, seq![c], 0) == -1 {
            Seq::empty()
        } else {
            v@.skip(find_any_from(v@, seq![c], 0) + 1)
        }),
{
    let set = vec![c];
    assert(set@ =~= seq![c]);
    match find_any(v, set.as_slice(), 0) {
        None => Vec::new(),
        Some(k) => {
            proof {
                lemma_find_any_from(v@, seq![c], 0);
            }
            let n = v.len();
            assert(k < n);
            let r = slice_to_vec(v, k + 1, v.len());
            assert(r@ =~= v@.skip(k + 1));
            r
        },
    }
}

/// Parse the query of a `werust://settings?...` URI into its `backend` and
/// `url` parameters (the last of each wins), form-urlencoded values decoded.
fn parse_settings_query(uri: &str) -> (r: (Option<String>, Option<String>))
    ensures
        (match r.0 {
            Some(s) => Some(s@),
            None => None,
        }) == spec_query_params(uri@).0,
        (match r.1 {
            Some(s) => Some(s@),
            None => None,
        }) == spec_query_params(uri@).1,
{
    let uc = chars_of(uri);
    let query = after_char(uc.as_slice(), '?');
    assert(query@ == query_of(uri@));
    let amp = vec!['&'];
    assert(amp@ =~= seq!['&']);
    let parts = split_chars(query.as_slice(), amp.as_slice());
    let pairs = drop_empty(&parts);
    let ghost pv = views(pairs@);
    assert(pv == query_pairs(uri@));
    let mut backend: Option<String> = None;
    let mut url: Option<String> = None;
    let mut i: usize = 0;
    proof {
        reveal_strlit("backend");
        reveal_strlit("url");
    }
    assert(pv.take(0) =~= Seq::<Seq<char>>::empty());
    while i < pairs.len()
        invariant
            i <= pv.len(),
            pv == views(pairs@),
            "backend"@ == seq!['b', 'a', 'c', 'k', 'e', 'n', 'd'],
            "url"@ == seq!['u', 'r', 'l'],
            (match backend {
                Some(s) => Some(s@),
                None => None,
            }) == last_param(pv.take(i as int), "backend"@),
            (match url {
                Some(s) => Some(s@),
                None => None,
            }) == last_param(pv.take(i as int), "url"@),
        decreases pv.len() - i,
    {
        let pair = &pairs[i];
        assert(pv.take(i as int + 1).drop_last() =~= pv.take(i as int));
        assert(pv.take(i as int + 1).last() == pair@);
        let eq = vec!['='];
        assert(eq@ =~= seq!['=']);
        let key = prefix_before_any(pair.as_slice(), eq.as_slice());
        let raw = after_char(pair.as_slice(), '=');
        let raw_s = string_of(raw.as_slice());
        let decoded = url_decode(raw_s.as_str());
        let kb = vec!['b', 'a', 'c', 'k', 'e', 'n', 'd'];
        let ku = vec!['u', 'r', 'l'];
        if chars_eq(key.as_slice(), kb.as_slice()) {
            backend = Some(decoded);
        } else if chars_eq(key.as_slice(), ku.as_slice()) {
            url = Some(decoded);
        }
        i += 1;
    }
    assert(pv.take(pv.len() as int) =~= pv);
    (backend, url)
}

/// What a settings request asks for.
#[derive(Debug, Clone, PartialEq, Eq)]
pub enum SettingsStep {
    /// Render the page for `settings`, with an optional status line.
    Render {
        /// The settings the page shows.
        settings: RetrievalSettings,
        /// The status line (a refusal's reason).
        status: Option<String>,
    },
    /// Persist `settings`, then render the page with the status
    /// [`persisted_status`] gives.
    Persist {
        /// The newly selected settings.
        settings: RetrievalSettings,
    },
}

/// Whether a URI names the `werust://settings` page.
pub open spec fn is_settings_uri(uri: Seq<char>) -> bool {
    uri.len() >= 9 && uri.take(9) == "werust://"@ && before_any(uri.skip(9), seq!['/', '?', '#'])
        == "settings"@
}

/// The step a settings request asks for, given the settings currently on
/// file.
pub open spec fn spec_settings_step(uri: Seq<char>, loaded: ChoiceView) -> Option<
    (ChoiceView, Option<Seq<char>>, bool),
> {
    if !is_settings_uri(uri) {
        None
    } else {
        match spec_query_params(uri).0 {
            None => Some((loaded, None, false)),
            Some(kind) => match spec_parse_choice(kind, spec_query_params(uri).1) {
                Ok(c) => Some((c, None, true)),
                Err(e) => Some((loaded, Some("Not changed: "@ + choice_error_text(e)), false)),
            },
        }
    }
}

/// A step as plain values: the settings, the status, and whether to persist.
pub open spec fn step_view(s: SettingsStep) -> (ChoiceView, Option<Seq<char>>, bool) {
    match s {
        SettingsStep::Render { settings, status } => (
            settings.backend@,
            match status {
                Some(t) => Some(t@),
                None => None,
            },
            false,
        ),
        SettingsStep::Persist { settings } => (settings.backend@, None, true),
    }
}

/// Decide a `werust://settings[?backend=…&url=…]` request against the
/// settings on file: a bare request renders them; a valid selection is to be
/// persisted; a refused one keeps the old settings and shows the reason. A
/// URI that is not the settings page is refused with itself as the reason.
pub fn begin_settings_request(uri: &str, loaded: RetrievalSettings) -> (r: Result<
    SettingsStep,
    String,
>)
    ensures
        match spec_settings_step(uri@, loaded.backend@) {
            None => r matches Err(u) && u@ == uri@,
            Some(v) => r matches Ok(step) && step_view(step) == v,
        },
{
    let uc = chars_of(uri);
    let prefix = vec!['w', 'e', 'r', 'u', 's', 't', ':', '/', '/'];
    proof {
        reveal_strlit("werust://");
        reveal_strlit("settings");
    }
    assert(prefix@ =~= "werust://"@);
    if !starts_with(uc.as_slice(), prefix.as_slice()) {
        return Err(owned(uri));
    }
    let rest = slice_to_vec(uc.as_slice(), 9, uc.len());
    assert(rest@ =~= uri@.skip(9));
    let seps = vec!['/', '?', '#'];
    assert(seps@ =~= seq!['/', '?', '#']);
    let host = prefix_before_any(rest.as_slice(), seps.as_slice());
    let settings_chars = vec!['s', 'e', 't', 't', 'i', 'n', 'g', 's'];
    assert(settings_chars@ =~= "settings"@);
    if !chars_eq(host.as_slice(), settings_chars.as_slice()) {
        return Err(owned(uri));
    }
    let (backend, url) = parse_settings_query(uri);
    match backend {
        None => Ok(SettingsStep::Render { settings: loaded, status: None }),
        Some(kind) => {
            let url_ref: Option<&str> = match &url {
                Some(u) => Some(u.as_str()),
                None => None,
            };
            match RetrievalBackendChoice::parse(kind.as_str(), url_ref) {
                Ok(choice) => Ok(SettingsStep::Persist { settings: RetrievalSettings { backend: choice } }),
                Err(e) => {
                    let mut out: Vec<char> = Vec::new();
                    push_str(&mut out, "Not changed: ");
                    let m = e.message();
                    push_str(&mut out, m.as_str());
                    assert(out@ =~= "Not changed: "@ + choice_error_text(e@));
                    Ok(SettingsStep::Render { settings: loaded, status: Some(string_of(out.as_slice())) })
                },
            }
        },
    }
}

/// The status line after a selection: saved, or selected for this session
/// only when it could not be persisted.
pub open spec fn spec_persisted_status(c: ChoiceView, persisted: bool) -> Seq<char> {
    if persisted {
        "Saved: retrieval backend is now `"@ + kind_of(c) + "`."@
    } else {
        "Selected `"@ + kind_of(c)
            + "` for this session (could not persist: no settings directory)."@
    }
}

/// The status line after a selection was (or could not be) persisted.
pub fn persisted_status(settings: &RetrievalSettings, persisted: bool) -> (r: String)
    ensures
        r@ == spec_persisted_status(settings.backend@, persisted),
{
    let mut out: Vec<char> = Vec::new();
    if persisted {
        push_str(&mut out, "Saved: retrieval backend is now `");
        push_str(&mut out, settings.backend.kind());
        push_str(&mut out, "`.");
    } else {
        push_str(&mut out, "Selected `");
        push_str(&mut out, settings.backend.kind());
        push_str(&mut out, "` for this session (could not persist: no settings directory).");
    }
    assert(out@ =~= spec_persisted_status(settings.backend@, persisted));
    string_of(out.as_slice())
}

// ---------------------------------------------------------------------------
// Laws.
// ---------------------------------------------------------------------------

/// Each member of a persisted choice's document reads back as written.
proof fn lemma_settings_members_read(c: ChoiceView)
    ensures
        str_member(settings_members(c), "backend"@) == Some(kind_of(c)),
        str_member(settings_members(c), "url"@) == persisted_url(c),
{
    reveal_strlit("backend");
    reveal_strlit("url");
    let ms = settings_members(c);
    assert("backend"@ != "url"@) by {
        assert("backend"@[0] != "url"@[0]);
    }
    let b = seq![("backend"@, ScalarView::Str(kind_of(c)))];
    assert(member_value(b, "backend"@) == Some(ScalarView::Str(kind_of(c))));
    assert(b.drop_last() =~= Seq::<(Seq<char>, ScalarView)>::empty());
    assert(member_value(b, "url"@) == member_value(b.drop_last(), "url"@));
    if let ChoiceView::Custom { url } = c {
        assert(ms.drop_last() =~= b);
        assert(member_value(ms, "url"@) == Some(ScalarView::Str(url)));
        assert(member_value(ms, "backend"@) == member_value(b, "backend"@));
    } else {
        assert(ms =~= b);
    }
}

proof fn lemma_strip_trailing_slashes(s: Seq<char>)
    ensures
        !(strip_trailing_slashes(s).len() > 0 && strip_trailing_slashes(s).last() == '/'),
    decreases s.len(),
{
    if s.len() > 0 && s.last() == '/' {
        lemma_strip_trailing_slashes(s.drop_last());
    }
}

proof fn lemma_kinds_distinct()
    ensures
        "default-gateway"@ != "custom"@,
        "default-gateway"@ != "delegated-routing"@,
        "default-gateway"@ != "embedded-p2p"@,
        "custom"@ != "delegated-routing"@,
        "custom"@ != "embedded-p2p"@,
        "delegated-routing"@ != "embedded-p2p"@,
{
    reveal_strlit("default-gateway");
    reveal_strlit("custom");
    reveal_strlit("delegated-routing");
    reveal_strlit("embedded-p2p");
    assert("default-gateway"@[0] != "custom"@[0]);
    assert("default-gateway"@.len() != "delegated-routing"@.len());
    assert("default-gateway"@[0] != "embedded-p2p"@[0]);
    assert("custom"@[0] != "delegated-routing"@[0]);
    assert("custom"@[0] != "embedded-p2p"@[0]);
    assert("delegated-routing"@[0] != "embedded-p2p"@[0]);
}

/// A selection never takes effect as a coming-soon backend, and an accepted
/// custom endpoint never ends in `/`.
pub proof fn law_selections_are_usable(kind: Seq<char>, url: Option<Seq<char>>)
    ensures
        spec_parse_choice(kind, url) matches Ok(c) ==> (c matches ChoiceView::DefaultGateway || c
            matches ChoiceView::Custom { .. }),
        spec_parse_choice(kind, url) matches Ok(ChoiceView::Custom { url: v }) ==> !(v.len() > 0
            && v.last() == '/'),
{
    let raw = match url {
        Some(u) => trim(u),
        None => Seq::empty(),
    };
    lemma_strip_trailing_slashes(trim(raw));
}

/// Every selectable choice survives the persisted `(backend, url)` form: the
/// default gateway always, and a custom endpoint that is already in its
/// validated form.
pub proof fn law_persisted_choice_round_trips(c: ChoiceView)
    requires
        c matches ChoiceView::Custom { url } ==> trim(url) == url && spec_validate_custom_url(url)
            == Ok::<Seq<char>, ChoiceErrorView>(url),
        c matches ChoiceView::DefaultGateway || c matches ChoiceView::Custom { .. },
    ensures
        spec_parse_choice(
            kind_of(c),
            match c {
                ChoiceView::Custom { url } => Some(url),
                _ => None,
            },
        ) == Ok::<ChoiceView, ChoiceErrorView>(c),
{
    lemma_kinds_distinct();
    if let ChoiceView::Custom { url } = c {
        assert(url.len() > 0) by {
            if url.len() == 0 {
                reveal_strlit("://");
                assert(find_sub_from(trim(url), "://"@, 0) == -1);
            }
        }
    }
}

/// A refused or bare settings request keeps the settings on file; only an
/// accepted selection asks to be persisted.
pub proof fn law_refused_selection_keeps_settings(uri: Seq<char>, loaded: ChoiceView)
    ensures
        spec_settings_step(uri, loaded) matches Some((c, _, persist)) ==> (!persist ==> c
            == loaded),
        spec_settings_step(uri, loaded) matches Some((c, _, true)) ==> spec_query_params(uri).0
            matches Some(k) && spec_parse_choice(k, spec_query_params(uri).1)
            == Ok::<ChoiceView, ChoiceErrorView>(c),
{
}

/// Form decoding keeps every byte that is neither `+` nor `%`.
proof fn lemma_decode_plain(b: Seq<u8>, i: int)
    requires
        0 <= i <= b.len(),
        forall|j: int| i <= j < b.len() ==> #[trigger] b[j] != 37 && b[j] != 43,
    ensures
        decode_from(b, i) == b.skip(i),
    decreases b.len() - i,
{
    if i < b.len() {
        lemma_decode_plain(b, i + 1);
        assert(b.skip(i) =~= seq![b[i]] + b.skip(i + 1));
    } else {
        assert(b.skip(i) =~= Seq::<u8>::empty());
    }
}

/// A query value that is plain ASCII, with no `+` and no `%`, decodes to
/// itself.
pub proof fn law_plain_ascii_values_decode_to_themselves(s: Seq<char>)
    requires
        vstd::utf8::is_ascii_chars(s),
        forall|i: int| 0 <= i < s.len() ==> #[trigger] s[i] != '+' && s[i] != '%',
    ensures
        spec_url_decode(s) == s,
{
    let b = vstd::utf8::encode_utf8(s);
    vstd::utf8::is_ascii_chars_encode_utf8(s);
    vstd::utf8::is_ascii_chars_nat_bound(s);
    assert forall|j: int| 0 <= j < b.len() implies #[trigger] b[j] != 37 && b[j] != 43 by {
        assert(s[j] as u8 == b[j]);
        assert((s[j] as nat) < 128);
    }
    lemma_decode_plain(b, 0);
    assert(b.skip(0) =~= b);
    vstd::utf8::encode_utf8_valid_utf8(s);
    vstd::utf8::encode_utf8_decode_utf8(s);
}

/// `pre + mid + post` holds `mid`.
proof fn lemma_contains_middle(pre: Seq<char>, mid: Seq<char>, post: Seq<char>)
    ensures
        contains_sub(pre + mid + post, mid),
{
    let s = pre + mid + post;
    let i = pre.len() as int;
    assert(s.subrange(i, i + mid.len()) =~= mid);
}

/// The settings page names the egress point in use: its "Active backend"
/// line shows the active choice's kind and the gateway that choice points
/// the load path at, escaped: a custom choice's own URL, the public gateway
/// for the default, and no gateway at all for a coming-soon backend.
pub proof fn law_page_names_the_active_endpoint(c: ChoiceView, status: Option<Seq<char>>)
    ensures
        contains_sub(
            spec_settings_page(c, status),
            "Active backend: <code>"@ + escape_html_spec(kind_of(c)) + "</code> — endpoint: <code>"@
                + escape_html_spec(
                match c {
                    ChoiceView::Custom { url } => url,
                    ChoiceView::DefaultGateway => DEFAULT_TRUSTLESS_GATEWAY@,
                    _ => "(none: coming-soon backend)"@,
                },
            ) + "</code>"@,
        ),
        c matches ChoiceView::Custom { url } ==> contains_sub(
            spec_settings_page(c, status),
            "endpoint: <code>"@ + escape_html_spec(url) + "</code>"@,
        ),
{
    reveal_strlit("<p>Active backend: <code>");
    reveal_strlit("Active backend: <code>");
    reveal_strlit("</code> — endpoint: <code>");
    reveal_strlit("endpoint: <code>");
    reveal_strlit("</code></p><ul>");
    reveal_strlit("</code>");
    let page = spec_settings_page(c, status);
    let e = match c {
        ChoiceView::Custom { url } => url,
        ChoiceView::DefaultGateway => DEFAULT_TRUSTLESS_GATEWAY@,
        _ => "(none: coming-soon backend)"@,
    };
    let status_html = match status {
        Some(s) => status_paragraph(s),
        None => Seq::empty(),
    };
    let active_url = match c {
        ChoiceView::Custom { url } => url,
        _ => Seq::empty(),
    };
    assert("</code></p><ul>"@ =~= "</code>"@ + "</p><ul>"@) by {
        reveal_strlit("</p><ul>");
    }
    let line = "Active backend: <code>"@ + escape_html_spec(kind_of(c)) + "</code> — endpoint: <code>"@
        + escape_html_spec(e) + "</code>"@;
    let head = page_head() + status_html + "<p>"@;
    assert("<p>Active backend: <code>"@ =~= "<p>"@ + "Active backend: <code>"@) by {
        reveal_strlit("<p>");
    }
    let rest = "</p><ul>"@ + options_html(4, kind_of(c), active_url) + "</ul><p><small>The shipped default is still being decided (a public gateway is not an acceptable silent default for a privacy browser); see the release-gate follow-on.</small></p></body></html>"@;
    assert(page =~= head + line + rest);
    lemma_contains_middle(head, line, rest);
    if let ChoiceView::Custom { url } = c {
        let small = "endpoint: <code>"@ + escape_html_spec(url) + "</code>"@;
        let pre2 = "Active backend: <code>"@ + escape_html_spec(kind_of(c)) + "</code> — "@;
        assert("</code> — endpoint: <code>"@ =~= "</code> — "@ + "endpoint: <code>"@) by {
            reveal_strlit("</code> — ");
        }
        assert(page =~= (head + pre2) + small + rest);
        lemma_contains_middle(head + pre2, small, rest);
    }
}

/// Where a choice's kind stands in the option list.
pub open spec fn kind_index(c: ChoiceView) -> int {
    match c {
        ChoiceView::DefaultGateway => 0,
        ChoiceView::Custom { .. } => 1,
        ChoiceView::DelegatedRouting => 2,
        ChoiceView::EmbeddedP2p => 3,
    }
}

/// The settings page lists the four options in order; exactly one of them,
/// the active choice's, carries the `(active)` badge; and exactly the two
/// coming-soon ones offer no control but the `coming soon` marker.
pub proof fn law_page_marks_exactly_the_active_option(c: ChoiceView, active_url: Seq<char>)
    ensures
        options_html(4, kind_of(c), active_url) == option_html(0, kind_of(c), active_url)
            + option_html(1, kind_of(c), active_url) + option_html(2, kind_of(c), active_url)
            + option_html(3, kind_of(c), active_url),
        forall|i: int| 0 <= i < 4 ==> (#[trigger] opt_kind(i) == kind_of(c) <==> i == kind_index(c)),
        forall|i: int|
            0 <= i < 4 ==> (#[trigger] control_html(i, active_url) == "<em>coming soon</em>"@ <==> 2
                <= i),
{
    lemma_kinds_distinct();
    reveal_strlit("<em>coming soon</em>");
    reveal_strlit("<a href=\"werust://settings?backend=");
    reveal_strlit("<form action=\"werust://settings\" method=\"get\"><input type=\"hidden\" name=\"backend\" value=\"");
    let k = kind_of(c);
    assert(options_html(0, k, active_url) == Seq::<char>::empty());
    assert(options_html(1, k, active_url) == options_html(0, k, active_url) + option_html(0, k, active_url));
    assert(options_html(1, k, active_url) =~= option_html(0, k, active_url));
    assert(options_html(2, k, active_url) == options_html(1, k, active_url) + option_html(1, k, active_url));
    assert(options_html(3, k, active_url) == options_html(2, k, active_url) + option_html(2, k, active_url));
    assert(options_html(4, k, active_url) == options_html(3, k, active_url) + option_html(3, k, active_url));
    assert(options_html(4, kind_of(c), active_url) =~= option_html(0, kind_of(c), active_url)
        + option_html(1, kind_of(c), active_url) + option_html(2, kind_of(c), active_url)
        + option_html(3, kind_of(c), active_url));
    assert forall|i: int| 0 <= i < 2 implies control_html(i, active_url) != "<em>coming soon</em>"@ by {
        assert(control_html(i, active_url)[1] != "<em>coming soon</em>"@[1]);
    }
}

/// The settings page shows a status line, escaped, in its own paragraph
/// right after the heading and the privacy framing.
pub proof fn law_status_line_is_shown_escaped(c: ChoiceView, s: Seq<char>)
    ensures
        spec_settings_page(c, Some(s)).subrange(
            page_head().len() as int,
            (page_head().len() + status_paragraph(s).len()) as int,
        ) == status_paragraph(s),
        contains_sub(spec_settings_page(c, Some(s)), status_paragraph(s)),
{
    let page = spec_settings_page(c, Some(s));
    let k = page_head().len() as int;
    assert(page.subrange(k, k + status_paragraph(s).len()) =~= status_paragraph(s));
}

} // verus!
