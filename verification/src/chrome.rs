//! The chrome: the facts the window draws about the current page (load
//! lifecycle, pipeline step, trust posture, failure, invalid entry, the
//! mutable-name trust state) and the presentation rules that turn those facts
//! into the strings and flags every edge paints.

use vstd::prelude::*;

use crate::pins::{MutableNameTrust, date_text, utc_day_of};
use crate::text::{
    chars_of, contains_chars, contains_sub, lower_ascii, lower_ascii_seq, push_str, string_of,
    to_lower_ascii_vec, chars_eq,
};

verus! {

// ---------------------------------------------------------------------------
// The load lifecycle and the trust posture.
// ---------------------------------------------------------------------------

/// The backend's load lifecycle for the current page.
#[derive(Debug, Clone, Copy, PartialEq, Eq, Structural)]
pub enum LoadState {
    /// Nothing has loaded yet.
    Idle,
    /// A load has started.
    Started,
    /// The main resource has committed and the page is rendering.
    Committed,
    /// The load finished.
    Finished,
    /// The load failed.
    Failed,
}

impl Default for LoadState {
    fn default() -> (r: Self)
        ensures
            r == LoadState::Idle,
    {
        LoadState::Idle
    }
}

impl LoadState {
    /// Whether a load is in flight.
    pub open spec fn spec_is_loading(self) -> bool {
        self == LoadState::Started || self == LoadState::Committed
    }

    /// Whether a load is in flight: started or committed, not yet settled.
    pub fn is_loading(self) -> (r: bool)
        ensures
            r == self.spec_is_loading(),
    {
        match self {
            LoadState::Started | LoadState::Committed => true,
            _ => false,
        }
    }
}

/// The stable wire name of a load state.
pub open spec fn load_state_wire(state: LoadState) -> Seq<char> {
    match state {
        LoadState::Idle => "idle"@,
        LoadState::Started => "started"@,
        LoadState::Committed => "committed"@,
        LoadState::Finished => "finished"@,
        LoadState::Failed => "failed"@,
    }
}

/// The stable, lower-case wire name of a [`LoadState`].
pub fn load_state_wire_name(state: LoadState) -> (r: &'static str)
    ensures
        r@ == load_state_wire(state),
{
    match state {
        LoadState::Idle => "idle",
        LoadState::Started => "started",
        LoadState::Committed => "committed",
        LoadState::Finished => "finished",
        LoadState::Failed => "failed",
    }
}

/// How the current page's bytes and name were learned.
#[derive(Debug, Clone, Copy, PartialEq, Eq, Structural)]
pub enum TrustPosture {
    /// Served by an origin werust does not trust; not hash-verified.
    UnverifiedOrigin,
    /// Content-verified on the content-addressed path.
    ContentVerified,
    /// Content-verified, but the name came over a trusted RPC.
    NameViaTrustedRpc,
    /// Content-verified, but the name is mutable.
    MutableName,
}

impl Default for TrustPosture {
    fn default() -> (r: Self)
        ensures
            r == TrustPosture::UnverifiedOrigin,
    {
        TrustPosture::UnverifiedOrigin
    }
}

impl TrustPosture {
    /// Every posture.
    pub fn all() -> (r: Vec<TrustPosture>)
        ensures
            r@ == seq![
                TrustPosture::UnverifiedOrigin,
                TrustPosture::ContentVerified,
                TrustPosture::NameViaTrustedRpc,
                TrustPosture::MutableName,
            ],
    {
        let r = vec![
            TrustPosture::UnverifiedOrigin,
            TrustPosture::ContentVerified,
            TrustPosture::NameViaTrustedRpc,
            TrustPosture::MutableName,
        ];
        assert(r@ =~= seq![
            TrustPosture::UnverifiedOrigin,
            TrustPosture::ContentVerified,
            TrustPosture::NameViaTrustedRpc,
            TrustPosture::MutableName,
        ]);
        r
    }

    /// Whether the page was content-verified.
    pub fn is_content_verified(self) -> (r: bool)
        ensures
            r == (self == TrustPosture::ContentVerified),
    {
        match self {
            TrustPosture::ContentVerified => true,
            _ => false,
        }
    }

    /// Whether the page's name came over a trusted RPC.
    pub fn is_name_via_trusted_rpc(self) -> (r: bool)
        ensures
            r == (self == TrustPosture::NameViaTrustedRpc),
    {
        match self {
            TrustPosture::NameViaTrustedRpc => true,
            _ => false,
        }
    }

    /// Whether the page's name is mutable.
    pub fn is_mutable_name(self) -> (r: bool)
        ensures
            r == (self == TrustPosture::MutableName),
    {
        match self {
            TrustPosture::MutableName => true,
            _ => false,
        }
    }
}

/// The one shared wire spelling of a posture.
pub open spec fn posture_wire(p: TrustPosture) -> Seq<char> {
    match p {
        TrustPosture::UnverifiedOrigin => "unverified-origin"@,
        TrustPosture::ContentVerified => "content-verified"@,
        TrustPosture::NameViaTrustedRpc => "name-via-trusted-rpc"@,
        TrustPosture::MutableName => "mutable-name"@,
    }
}

/// The stable wire name of a [`TrustPosture`], shared by the chrome JSON and
/// the pin store.
pub fn trust_posture_wire_name(p: TrustPosture) -> (r: &'static str)
    ensures
        r@ == posture_wire(p),
{
    match p {
        TrustPosture::UnverifiedOrigin => "unverified-origin",
        TrustPosture::ContentVerified => "content-verified",
        TrustPosture::NameViaTrustedRpc => "name-via-trusted-rpc",
        TrustPosture::MutableName => "mutable-name",
    }
}

/// The four wire names are distinct.
proof fn lemma_posture_wires_distinct()
    ensures
        forall|a: TrustPosture, b: TrustPosture| posture_wire(a) == posture_wire(b) ==> a == b,
{
    reveal_strlit("unverified-origin");
    reveal_strlit("content-verified");
    reveal_strlit("name-via-trusted-rpc");
    reveal_strlit("mutable-name");
    assert forall|a: TrustPosture, b: TrustPosture| posture_wire(a) == posture_wire(b) implies a
        == b by {
        if a != b {
            assert(posture_wire(a).len() != posture_wire(b).len() || posture_wire(a)[0]
                != posture_wire(b)[0]);
        }
    }
}

/// The posture a wire name spells, if it is one.
pub open spec fn posture_from_wire(s: Seq<char>) -> Option<TrustPosture> {
    if s == posture_wire(TrustPosture::UnverifiedOrigin) {
        Some(TrustPosture::UnverifiedOrigin)
    } else if s == posture_wire(TrustPosture::ContentVerified) {
        Some(TrustPosture::ContentVerified)
    } else if s == posture_wire(TrustPosture::NameViaTrustedRpc) {
        Some(TrustPosture::NameViaTrustedRpc)
    } else if s == posture_wire(TrustPosture::MutableName) {
        Some(TrustPosture::MutableName)
    } else {
        None
    }
}

/// The [`TrustPosture`] a wire name spells, or `None` for a spelling this
/// build does not know.
pub fn trust_posture_from_wire_name(s: &str) -> (r: Option<TrustPosture>)
    ensures
        r == posture_from_wire(s@),
{
    let v = chars_of(s);
    let all = TrustPosture::all();
    let mut i: usize = 0;
    while i < all.len()
        invariant
            i <= 4,
            all@ == seq![
                TrustPosture::UnverifiedOrigin,
                TrustPosture::ContentVerified,
                TrustPosture::NameViaTrustedRpc,
                TrustPosture::MutableName,
            ],
            v@ == s@,
            forall|j: int| 0 <= j < i ==> v@ != posture_wire(#[trigger] all@[j]),
        decreases 4 - i,
    {
        let p = all[i];
        let w = chars_of(trust_posture_wire_name(p));
        if chars_eq(v.as_slice(), w.as_slice()) {
            return Some(p);
        }
        i += 1;
    }
    None
}

/// Reading back a posture's wire name gives the posture: the store and the
/// chrome JSON speak one vocabulary.
pub proof fn law_posture_wire_round_trips(p: TrustPosture)
    ensures
        posture_from_wire(posture_wire(p)) == Some(p),
{
    lemma_posture_wires_distinct();
}

// ---------------------------------------------------------------------------
// The pipeline step and the failure kind.
// ---------------------------------------------------------------------------

/// Which step of the `name -> record -> content -> render` pipeline a load is
/// in, for the live loading indicator.
#[derive(Debug, Clone, Copy, PartialEq, Eq, Structural)]
pub enum LoadStep {
    /// No load is in flight.
    Idle,
    /// Resolving a name to its content pointer.
    ResolvingName,
    /// Fetching and verifying the signed record of a mutable name.
    FetchingRecord,
    /// Fetching the content itself.
    FetchingContent,
    /// The main resource committed; the page is rendering.
    Rendering,
}

impl Default for LoadStep {
    fn default() -> (r: Self)
        ensures
            r == LoadStep::Idle,
    {
        LoadStep::Idle
    }
}

/// The short hint a step shows, empty for [`LoadStep::Idle`].
pub open spec fn step_hint(s: LoadStep) -> Seq<char> {
    match s {
        LoadStep::Idle => ""@,
        LoadStep::ResolvingName => "resolving name"@,
        LoadStep::FetchingRecord => "fetching record"@,
        LoadStep::FetchingContent => "fetching content"@,
        LoadStep::Rendering => "rendering"@,
    }
}

/// The wire name of a step.
pub open spec fn step_wire(s: LoadStep) -> Seq<char> {
    match s {
        LoadStep::Idle => "idle"@,
        LoadStep::ResolvingName => "resolving-name"@,
        LoadStep::FetchingRecord => "fetching-record"@,
        LoadStep::FetchingContent => "fetching-content"@,
        LoadStep::Rendering => "rendering"@,
    }
}

impl LoadStep {
    /// Every pipeline step, in the order a full load walks them.
    pub fn all() -> (r: Vec<LoadStep>)
        ensures
            r@ == seq![
                LoadStep::Idle,
                LoadStep::ResolvingName,
                LoadStep::FetchingRecord,
                LoadStep::FetchingContent,
                LoadStep::Rendering,
            ],
    {
        let r = vec![
            LoadStep::Idle,
            LoadStep::ResolvingName,
            LoadStep::FetchingRecord,
            LoadStep::FetchingContent,
            LoadStep::Rendering,
        ];
        assert(r@ =~= seq![
            LoadStep::Idle,
            LoadStep::ResolvingName,
            LoadStep::FetchingRecord,
            LoadStep::FetchingContent,
            LoadStep::Rendering,
        ]);
        r
    }

    /// A short, human-readable hint for this step; empty for `Idle`.
    pub fn hint(self) -> (r: &'static str)
        ensures
            r@ == step_hint(self),
    {
        match self {
            LoadStep::Idle => "",
            LoadStep::ResolvingName => "resolving name",
            LoadStep::FetchingRecord => "fetching record",
            LoadStep::FetchingContent => "fetching content",
            LoadStep::Rendering => "rendering",
        }
    }

    /// The stable, lower-kebab wire name of this step.
    pub fn wire_name(self) -> (r: &'static str)
        ensures
            r@ == step_wire(self),
    {
        match self {
            LoadStep::Idle => "idle",
            LoadStep::ResolvingName => "resolving-name",
            LoadStep::FetchingRecord => "fetching-record",
            LoadStep::FetchingContent => "fetching-content",
            LoadStep::Rendering => "rendering",
        }
    }
}

/// Whether a surfaced failure is one a retry can fix.
#[derive(Debug, Clone, Copy, PartialEq, Eq, Structural)]
pub enum FailureKind {
    /// A timeout or transport failure: a reload may succeed.
    Transient,
    /// Unsupported, unverified, malformed or not found: a retry will not fix it.
    Hard,
}

/// A reason names a verification failure (checked first, and never
/// transient).
pub open spec fn has_hard_marker(r: Seq<char>) -> bool {
    contains_sub(r, "did not verify"@) || contains_sub(r, "hash mismatch"@) || contains_sub(
        r,
        "expired"@,
    )
}

/// A reason names a timeout or a transport failure.
pub open spec fn has_transient_marker(r: Seq<char>) -> bool {
    contains_sub(r, "timeout"@) || contains_sub(r, "timed out"@) || contains_sub(
        r,
        "transport error"@,
    ) || contains_sub(r, "connection"@) || contains_sub(r, "io error"@)
}

/// The kind of a failure reason, matched ignoring ASCII case.
pub open spec fn spec_classify(reason: Seq<char>) -> FailureKind {
    let r = lower_ascii_seq(reason);
    if has_hard_marker(r) {
        FailureKind::Hard
    } else if has_transient_marker(r) {
        FailureKind::Transient
    } else {
        FailureKind::Hard
    }
}

/// The wire name of a failure kind.
pub open spec fn failure_wire(k: FailureKind) -> Seq<char> {
    match k {
        FailureKind::Transient => "transient"@,
        FailureKind::Hard => "hard"@,
    }
}

fn has_marker(r: &[char], m: &str) -> (b: bool)
    ensures
        b == contains_sub(r@, m@),
{
    let mc = chars_of(m);
    contains_chars(r, mc.as_slice())
}

impl FailureKind {
    /// Every failure kind.
    pub fn all() -> (r: Vec<FailureKind>)
        ensures
            r@ == seq![FailureKind::Transient, FailureKind::Hard],
    {
        let r = vec![FailureKind::Transient, FailureKind::Hard];
        assert(r@ =~= seq![FailureKind::Transient, FailureKind::Hard]);
        r
    }

    /// Classify a surfaced failure `reason` as transient (retryable) or hard.
    ///
    /// A verification marker (`did not verify`, `hash mismatch`, `expired`)
    /// wins; otherwise a timeout or transport marker (`timeout`, `timed out`,
    /// `transport error`, `connection`, `io error`) is transient; anything else
    /// is hard. Case-insensitive in ASCII.
    pub fn classify(reason: &str) -> (r: FailureKind)
        ensures
            r == spec_classify(reason@),
    {
        let v = chars_of(reason);
        let r = to_lower_ascii_vec(v.as_slice());
        let rs = r.as_slice();
        if has_marker(rs, "did not verify") || has_marker(rs, "hash mismatch") || has_marker(
            rs,
            "expired",
        ) {
            return FailureKind::Hard;
        }
        if has_marker(rs, "timeout") || has_marker(rs, "timed out") || has_marker(
            rs,
            "transport error",
        ) || has_marker(rs, "connection") || has_marker(rs, "io error") {
            FailureKind::Transient
        } else {
            FailureKind::Hard
        }
    }

    /// Whether a reload may fix this failure.
    pub fn is_retryable(self) -> (r: bool)
        ensures
            r == (self == FailureKind::Transient),
    {
        match self {
            FailureKind::Transient => true,
            FailureKind::Hard => false,
        }
    }

    /// The stable, lower-kebab wire name of this failure kind.
    pub fn wire_name(self) -> (r: &'static str)
        ensures
            r@ == failure_wire(self),
    {
        match self {
            FailureKind::Transient => "transient",
            FailureKind::Hard => "hard",
        }
    }
}

/// A verification failure is never retryable, whatever else its reason says.
pub proof fn law_verification_failures_are_hard(reason: Seq<char>)
    requires
        has_hard_marker(lower_ascii_seq(reason)),
    ensures
        spec_classify(reason) == FailureKind::Hard,
{
}

/// A failure whose reason, lower-cased in ASCII, names a verification
/// failure ("did not verify", "hash mismatch" or "expired") is never
/// retryable, whatever transport trouble it also names.
pub proof fn law_named_verification_failures_are_hard(reason: Seq<char>)
    requires
        contains_sub(lower_ascii_seq(reason), "did not verify"@) || contains_sub(
            lower_ascii_seq(reason),
            "hash mismatch"@,
        ) || contains_sub(lower_ascii_seq(reason), "expired"@),
    ensures
        spec_classify(reason) == FailureKind::Hard,
{
}

/// A failure whose reason, lower-cased in ASCII, names none of the
/// verification failures ("did not verify", "hash mismatch", "expired") is
/// retryable exactly when it names a transport trouble: "timeout",
/// "timed out", "transport error", "connection" or "io error".
pub proof fn law_transport_troubles_are_retryable(reason: Seq<char>)
    requires
        !contains_sub(lower_ascii_seq(reason), "did not verify"@),
        !contains_sub(lower_ascii_seq(reason), "hash mismatch"@),
        !contains_sub(lower_ascii_seq(reason), "expired"@),
    ensures
        spec_classify(reason) == FailureKind::Transient <==> (contains_sub(
            lower_ascii_seq(reason),
            "timeout"@,
        ) || contains_sub(lower_ascii_seq(reason), "timed out"@) || contains_sub(
            lower_ascii_seq(reason),
            "transport error"@,
        ) || contains_sub(lower_ascii_seq(reason), "connection"@) || contains_sub(
            lower_ascii_seq(reason),
            "io error"@,
        )),
{
}

/// `p` is not in `s` when its first two characters never stand side by
/// side in `s`.
proof fn lemma_absent_by_pair(s: Seq<char>, p: Seq<char>)
    requires
        p.len() >= 2,
        forall|i: int| 0 <= i < s.len() - 1 ==> !(#[trigger] s[i] == p[0] && s[i + 1] == p[1]),
    ensures
        !contains_sub(s, p),
{
    if contains_sub(s, p) {
        let i = choose|i: int| 0 <= i && i + p.len() <= s.len() && #[trigger] s.subrange(i, i + p.len()) == p;
        assert(s.subrange(i, i + p.len())[0] == s[i]);
        assert(s.subrange(i, i + p.len())[1] == s[i + 1]);
    }
}

/// A transport-trouble marker, alone, is a retryable failure.
proof fn lemma_marker_alone_is_transient(m: Seq<char>)
    requires
        forall|i: int| 0 <= i < m.len() ==> 'a' <= #[trigger] m[i] <= 'z' || m[i] == ' ',
        forall|i: int| 0 <= i < m.len() - 1 ==> !(#[trigger] m[i] == 'd' && m[i + 1] == 'i'),
        forall|i: int| 0 <= i < m.len() - 1 ==> !(#[trigger] m[i] == 'h' && m[i + 1] == 'a'),
        forall|i: int| 0 <= i < m.len() - 1 ==> !(#[trigger] m[i] == 'e' && m[i + 1] == 'x'),
        m == "timeout"@ || m == "timed out"@ || m == "transport error"@ || m == "connection"@
            || m == "io error"@,
    ensures
        spec_classify(m) == FailureKind::Transient,
{
    reveal_strlit("did not verify");
    reveal_strlit("hash mismatch");
    reveal_strlit("expired");
    assert(lower_ascii_seq(m) =~= m);
    lemma_absent_by_pair(m, "did not verify"@);
    lemma_absent_by_pair(m, "hash mismatch"@);
    lemma_absent_by_pair(m, "expired"@);
    assert(m.subrange(0, 0 + m.len() as int) =~= m);
    assert(contains_sub(m, m));
}

/// Each transport-trouble marker, alone, makes a failure retryable.
pub proof fn law_each_transport_marker_is_retryable()
    ensures
        spec_classify("timeout"@) == FailureKind::Transient,
        spec_classify("timed out"@) == FailureKind::Transient,
        spec_classify("transport error"@) == FailureKind::Transient,
        spec_classify("connection"@) == FailureKind::Transient,
        spec_classify("io error"@) == FailureKind::Transient,
{
    reveal_strlit("timeout");
    reveal_strlit("timed out");
    reveal_strlit("transport error");
    reveal_strlit("connection");
    reveal_strlit("io error");
    lemma_marker_alone_is_transient("timeout"@);
    lemma_marker_alone_is_transient("timed out"@);
    lemma_marker_alone_is_transient("transport error"@);
    lemma_marker_alone_is_transient("connection"@);
    lemma_marker_alone_is_transient("io error"@);
}

/// `c` with an ASCII small letter mapped to its capital.
pub open spec fn upper_ascii(c: char) -> char {
    if 'a' <= c <= 'z' {
        ((c as u32) - 32) as char
    } else {
        c
    }
}

/// Every character of `s` through [`upper_ascii`].
pub open spec fn upper_ascii_seq(s: Seq<char>) -> Seq<char> {
    Seq::new(s.len(), |i: int| upper_ascii(s[i]))
}

/// Classification ignores ASCII case: two reasons that differ only in the
/// case of ASCII letters classify alike, and a reason in capitals classifies
/// as the reason itself.
pub proof fn law_classify_ignores_ascii_case(reason: Seq<char>, other: Seq<char>)
    requires
        lower_ascii_seq(reason) == lower_ascii_seq(other),
    ensures
        spec_classify(reason) == spec_classify(other),
        spec_classify(upper_ascii_seq(reason)) == spec_classify(reason),
{
    let up = upper_ascii_seq(reason);
    assert forall|i: int| 0 <= i < reason.len() implies lower_ascii(#[trigger] up[i]) == lower_ascii(reason[i]) by {
        let c = reason[i];
        if 'a' <= c <= 'z' {
            let u = ((c as u32) - 32) as char;
            assert(u as u32 == (c as u32) - 32);
            assert('A' <= u <= 'Z');
            assert(((u as u32) + 32) as char == c);
        }
    }
    assert(lower_ascii_seq(up) =~= lower_ascii_seq(reason));
}

// ---------------------------------------------------------------------------
// The chrome state.
// ---------------------------------------------------------------------------

/// Everything the window draws about the current page, distinct from the
/// page content itself.
#[derive(Debug, Clone, PartialEq, Eq)]
pub struct ChromeState {
    /// The text shown in the URL bar.
    pub url_text: String,
    /// The backend's load lifecycle.
    pub load_state: LoadState,
    /// Whether the Back control is enabled.
    pub can_go_back: bool,
    /// Whether the Forward control is enabled.
    pub can_go_forward: bool,
    /// The honest, protocol-named reason the last load failed, if it did.
    pub last_error: Option<String>,
    /// Which pipeline step the current load is in.
    pub load_step: LoadStep,
    /// How the current page's bytes and name were learned.
    pub trust_posture: TrustPosture,
    /// The invalid URL-bar entry the user typed, if the last entry was one.
    pub invalid_entry: Option<String>,
    /// The current page's mutable-name identity and trust-on-first-use state,
    /// or `None` when the page is not a name-resolved load.
    pub mutable_name: Option<MutableNameTrust>,
}

impl Default for ChromeState {
    fn default() -> (r: Self)
        ensures
            r.url_text@ == Seq::<char>::empty(),
            r.load_state == LoadState::Idle,
            !r.can_go_back,
            !r.can_go_forward,
            r.last_error is None,
            r.load_step == LoadStep::Idle,
            r.trust_posture == TrustPosture::UnverifiedOrigin,
            r.invalid_entry is None,
            r.mutable_name is None,
    {
        ChromeState {
            url_text: String::new(),
            load_state: LoadState::Idle,
            can_go_back: false,
            can_go_forward: false,
            last_error: None,
            load_step: LoadStep::Idle,
            trust_posture: TrustPosture::UnverifiedOrigin,
            invalid_entry: None,
            mutable_name: None,
        }
    }
}

impl ChromeState {
    /// A load is in flight.
    pub open spec fn loading(&self) -> bool {
        self.load_state.spec_is_loading()
    }

    /// The kind of the surfaced failure, if any.
    pub open spec fn spec_failure_kind(&self) -> Option<FailureKind> {
        match self.last_error {
            Some(e) => Some(spec_classify(e@)),
            None => None,
        }
    }

    /// The surfaced failure is transient.
    pub open spec fn retryable(&self) -> bool {
        self.spec_failure_kind() == Some(FailureKind::Transient)
    }

    /// The page's name was blessed and now resolves elsewhere.
    pub open spec fn name_changed(&self) -> bool {
        self.mutable_name matches Some(m) && m.spec_is_changed()
    }

    /// Blessing the page's name would record something new.
    pub open spec fn blessable(&self) -> bool {
        self.mutable_name matches Some(m) && !m.spec_is_unchanged()
    }

    /// Whether the Stop control should be active (a load is in flight).
    pub fn is_loading(&self) -> (r: bool)
        ensures
            r == self.loading(),
    {
        self.load_state.is_loading()
    }

    /// The current pipeline step.
    pub fn load_step(&self) -> (r: LoadStep)
        ensures
            r == self.load_step,
    {
        self.load_step
    }

    /// The kind of the surfaced failure, or `None` when nothing has failed.
    pub fn failure_kind(&self) -> (r: Option<FailureKind>)
        ensures
            r == self.spec_failure_kind(),
    {
        match &self.last_error {
            Some(e) => Some(FailureKind::classify(e.as_str())),
            None => None,
        }
    }

    /// Whether the surfaced failure is a transient one a reload may fix.
    pub fn failure_is_retryable(&self) -> (r: bool)
        ensures
            r == self.retryable(),
    {
        match self.failure_kind() {
            Some(FailureKind::Transient) => true,
            _ => false,
        }
    }

    /// Whether the page was content-verified.
    pub fn is_content_verified(&self) -> (r: bool)
        ensures
            r == (self.trust_posture == TrustPosture::ContentVerified),
    {
        self.trust_posture.is_content_verified()
    }

    /// Whether the page's name came over a trusted RPC.
    pub fn is_name_via_trusted_rpc(&self) -> (r: bool)
        ensures
            r == (self.trust_posture == TrustPosture::NameViaTrustedRpc),
    {
        self.trust_posture.is_name_via_trusted_rpc()
    }

    /// Whether the page's name is mutable.
    pub fn is_mutable_name(&self) -> (r: bool)
        ensures
            r == (self.trust_posture == TrustPosture::MutableName),
    {
        self.trust_posture.is_mutable_name()
    }

    /// Whether the last URL-bar entry was invalid.
    pub fn has_invalid_entry(&self) -> (r: bool)
        ensures
            r == self.invalid_entry is Some,
    {
        self.invalid_entry.is_some()
    }

    /// The warning condition: the page's name was blessed and now resolves to
    /// a different CID.
    pub fn mutable_name_changed(&self) -> (r: bool)
        ensures
            r == self.name_changed(),
    {
        match &self.mutable_name {
            Some(m) => m.is_changed(),
            None => false,
        }
    }

    /// Whether the trust surface should offer the bless action.
    pub fn can_bless_name(&self) -> (r: bool)
        ensures
            r == self.blessable(),
    {
        match &self.mutable_name {
            Some(m) => m.is_blessable(),
            None => false,
        }
    }
}

// ---------------------------------------------------------------------------
// The presentation rules.
// ---------------------------------------------------------------------------

/// The label werust's Stop control carries on every edge.
pub const STOP_AFFORDANCE_LABEL: &'static str = "✕";

/// There is a load to indicate: a backend load in flight, or a pre-content
/// resolution step.
pub open spec fn spec_progress_visible(s: ChromeState) -> bool {
    s.loading() || s.load_step != LoadStep::Idle
}

/// Whether there is a load to indicate at all: a backend load in flight or a
/// pinned pre-content resolution step.
pub fn load_progress_visible(state: &ChromeState) -> (r: bool)
    ensures
        r == spec_progress_visible(*state),
{
    state.is_loading() || state.load_step() != LoadStep::Idle
}

/// The phase name behind the progress.
pub open spec fn spec_progress_hint(s: ChromeState) -> Seq<char> {
    if !spec_progress_visible(s) {
        ""@
    } else if s.load_step == LoadStep::Idle {
        "loading"@
    } else {
        step_hint(s.load_step)
    }
}

/// The phase name behind the current progress, for the URL bar's tooltip:
/// the step hint, a generic "loading" for a load with no phase yet, empty on
/// a settled chrome.
pub fn load_progress_hint(state: &ChromeState) -> (r: &'static str)
    ensures
        r@ == spec_progress_hint(*state),
{
    if !load_progress_visible(state) {
        return "";
    }
    match state.load_step() {
        LoadStep::Idle => "loading",
        step => step.hint(),
    }
}

/// The URL bar's progress tooltip.
pub open spec fn spec_progress_tooltip(s: ChromeState, stop_label: Seq<char>) -> Option<Seq<char>> {
    if !spec_progress_visible(s) {
        None
    } else if s.loading() {
        Some(spec_progress_hint(s) + "… — press Stop ("@ + stop_label + ") to cancel"@)
    } else {
        Some(spec_progress_hint(s) + "…"@)
    }
}

/// The URL bar's progress tooltip: the phase name, plus a cancel hint naming
/// the Stop affordance exactly when there is a backend load Stop can cancel.
/// `None` on a settled chrome, which clears the tooltip.
pub fn load_progress_tooltip(state: &ChromeState, stop_label: &str) -> (r: Option<String>)
    ensures
        match r {
            Some(t) => spec_progress_tooltip(*state, stop_label@) == Some(t@),
            None => spec_progress_tooltip(*state, stop_label@) is None,
        },
{
    if !load_progress_visible(state) {
        return None;
    }
    let hint = load_progress_hint(state);
    let mut out: Vec<char> = Vec::new();
    push_str(&mut out, hint);
    if state.is_loading() {
        push_str(&mut out, "… — press Stop (");
        push_str(&mut out, stop_label);
        push_str(&mut out, ") to cancel");
        assert(out@ =~= spec_progress_hint(*state) + "… — press Stop ("@ + stop_label@
            + ") to cancel"@);
    } else {
        push_str(&mut out, "…");
        assert(out@ =~= spec_progress_hint(*state) + "…"@);
    }
    Some(string_of(out.as_slice()))
}

/// The one-line status.
pub open spec fn spec_status_line(s: ChromeState) -> Seq<char> {
    match s.last_error {
        Some(reason) => "failed: "@ + reason@,
        None => if s.loading() {
            if step_hint(s.load_step).len() == 0 {
                "loading…"@
            } else {
                "loading… — "@ + step_hint(s.load_step)
            }
        } else {
            "idle"@
        },
    }
}

/// The one-line status: a surfaced failure wins, otherwise a loading line
/// naming the live pipeline step, otherwise idle.
pub fn status_line(state: &ChromeState) -> (r: String)
    ensures
        r@ == spec_status_line(*state),
{
    let mut out: Vec<char> = Vec::new();
    match &state.last_error {
        Some(reason) => {
            push_str(&mut out, "failed: ");
            push_str(&mut out, reason.as_str());
            assert(out@ =~= spec_status_line(*state));
        },
        None => {
            if state.is_loading() {
                let hint = state.load_step().hint();
                if hint.is_empty() {
                    push_str(&mut out, "loading…");
                } else {
                    push_str(&mut out, "loading… — ");
                    push_str(&mut out, hint);
                }
            } else {
                push_str(&mut out, "idle");
            }
            assert(out@ =~= spec_status_line(*state));
        },
    }
    string_of(out.as_slice())
}

/// The prominent banner is shown for a failure-class state.
pub open spec fn spec_banner_visible(s: ChromeState) -> bool {
    s.last_error is Some || s.name_changed()
}

/// Whether the prominent error banner is shown: exactly when the last load
/// failed or a trusted name changed.
pub fn error_banner_visible(state: &ChromeState) -> (r: bool)
    ensures
        r == spec_banner_visible(*state),
{
    state.last_error.is_some() || state.mutable_name_changed()
}

/// The changed-trusted-name sentence.
pub open spec fn spec_changed_banner(m: MutableNameTrust) -> Seq<char> {
    "⚠ "@ + m.name@ + " now points to different content than the version you trusted on "@
        + date_text(utc_day_of(m.blessed->0.blessed_at)) + ": it resolves to "@ + m.cid@
        + " now, not "@ + m.blessed->0.cid@
        + ". Nothing is blocked; look, then re-trust it or leave."@
}

/// The changed-trusted-name banner sentence: what changed, when it was
/// trusted, and both CIDs.
fn changed_name_banner_text(name: &MutableNameTrust) -> (r: String)
    requires
        name.blessed is Some,
    ensures
        r@ == spec_changed_banner(*name),
{
    let blessed = match &name.blessed {
        Some(p) => p,
        None => {
            return String::new();
        },
    };
    let day = blessed.blessed_on();
    let mut out: Vec<char> = Vec::new();
    push_str(&mut out, "⚠ ");
    push_str(&mut out, name.name.as_str());
    push_str(&mut out, " now points to different content than the version you trusted on ");
    push_str(&mut out, day.as_str());
    push_str(&mut out, ": it resolves to ");
    push_str(&mut out, name.cid.as_str());
    push_str(&mut out, " now, not ");
    push_str(&mut out, blessed.cid.as_str());
    push_str(&mut out, ". Nothing is blocked; look, then re-trust it or leave.");
    assert(out@ =~= spec_changed_banner(*name));
    string_of(out.as_slice())
}

/// The banner text.
pub open spec fn spec_banner_text(s: ChromeState) -> Seq<char> {
    match s.last_error {
        Some(reason) => if s.retryable() {
            "⏳ This page timed out — reload to retry: "@ + reason@
        } else {
            "⚠ This page failed to load: "@ + reason@
        },
        None => if s.name_changed() {
            spec_changed_banner(s.mutable_name->0)
        } else {
            ""@
        },
    }
}

/// The prominent banner text: a transient failure reads as a softer
/// "timed out, reload to retry", a hard one keeps "failed to load" with its
/// reason, a changed trusted name gets its own sentence, and nothing else
/// shows any text.
pub fn error_banner_text(state: &ChromeState) -> (r: String)
    ensures
        r@ == spec_banner_text(*state),
{
    proof {
        reveal_strlit("");
    }
    let mut out: Vec<char> = Vec::new();
    match &state.last_error {
        Some(reason) => {
            if state.failure_is_retryable() {
                push_str(&mut out, "⏳ This page timed out — reload to retry: ");
            } else {
                push_str(&mut out, "⚠ This page failed to load: ");
            }
            push_str(&mut out, reason.as_str());
            assert(out@ =~= spec_banner_text(*state));
            string_of(out.as_slice())
        },
        None => match &state.mutable_name {
            Some(name) => {
                if name.is_changed() {
                    changed_name_banner_text(name)
                } else {
                    String::new()
                }
            },
            None => String::new(),
        },
    }
}

/// The banner's CSS class.
pub open spec fn spec_banner_class(s: ChromeState) -> Seq<char> {
    if s.retryable() {
        "error-banner-transient"@
    } else {
        "error-banner"@
    }
}

/// The error banner's CSS class: the softer transient class for a retryable
/// failure, the hard class otherwise (a changed trusted name included).
pub fn error_banner_css_class(state: &ChromeState) -> (r: &'static str)
    ensures
        r@ == spec_banner_class(*state),
{
    if state.failure_is_retryable() {
        "error-banner-transient"
    } else {
        "error-banner"
    }
}

/// Whether the small "invalid URL" badge is shown.
pub fn invalid_entry_badge_visible(state: &ChromeState) -> (r: bool)
    ensures
        r == state.invalid_entry is Some,
{
    state.has_invalid_entry()
}

/// The badge text.
pub open spec fn spec_badge_text(s: ChromeState) -> Seq<char> {
    if s.invalid_entry is Some {
        "⛔ invalid URL"@
    } else {
        ""@
    }
}

/// The "invalid URL" badge text, empty when the badge is hidden.
pub fn invalid_entry_badge_text(state: &ChromeState) -> (r: &'static str)
    ensures
        r@ == spec_badge_text(*state),
{
    if state.has_invalid_entry() {
        "⛔ invalid URL"
    } else {
        ""
    }
}

/// The trust badge label.
pub open spec fn spec_trust_indicator(s: ChromeState) -> Seq<char> {
    if s.loading() {
        "⋯ loading…"@
    } else if s.name_changed() {
        "⚠ name points to NEW content"@
    } else if s.trust_posture == TrustPosture::ContentVerified {
        "✓ verified"@
    } else if s.trust_posture == TrustPosture::NameViaTrustedRpc {
        "◈ name via trusted RPC"@
    } else if s.trust_posture == TrustPosture::MutableName {
        "◇ content verified, mutable name"@
    } else {
        "⚠ unverified origin"@
    }
}

/// The trust indicator's label. While a load is in flight it is a neutral
/// loading state that makes no trust claim; a changed trusted name is the
/// loudest settled state; otherwise the posture decides.
pub fn trust_indicator(state: &ChromeState) -> (r: &'static str)
    ensures
        r@ == spec_trust_indicator(*state),
{
    if state.is_loading() {
        "⋯ loading…"
    } else if state.mutable_name_changed() {
        "⚠ name points to NEW content"
    } else if state.is_content_verified() {
        "✓ verified"
    } else if state.is_name_via_trusted_rpc() {
        "◈ name via trusted RPC"
    } else if state.is_mutable_name() {
        "◇ content verified, mutable name"
    } else {
        "⚠ unverified origin"
    }
}

/// The trust tooltip.
pub open spec fn spec_trust_detail(s: ChromeState) -> Seq<char> {
    if s.loading() {
        "werust is loading this page and is not yet asserting a trust level for it: the trust indicator shows the real posture only once the load settles."@
    } else if s.name_changed() {
        "You TRUSTED this name at a specific version, and it now points to DIFFERENT content. The bytes still hash-verified, so this is not a broken page, it is a CHANGED one: the name's controller repointed it, which may be a normal site update or may not be. werust neither accepts this silently nor blocks it; open this surface to compare the versions, then re-trust the name or leave."@
    } else if s.trust_posture == TrustPosture::ContentVerified {
        "This page was content-verified: its bytes were hash-checked against their content identifier on the content-addressed path."@
    } else if s.trust_posture == TrustPosture::NameViaTrustedRpc {
        "This page's content was hash-verified, but its name was resolved over a TRUSTED RPC (not a light client), which could misdirect the name to different content. werust makes no name-verification claim here."@
    } else if s.trust_posture == TrustPosture::MutableName {
        "This page's content was hash-verified, but its name is MUTABLE: the controller (an IPNS key holder, or an ENS name owner) can repoint it to different content at any time. werust makes no immutability claim here."@
    } else {
        "This page was served by an origin werust does not trust by default; its content was not hash-verified."@
    }
}

/// The longer explanation shown as the trust indicator's tooltip.
pub fn trust_indicator_detail(state: &ChromeState) -> (r: &'static str)
    ensures
        r@ == spec_trust_detail(*state),
{
    if state.is_loading() {
        "werust is loading this page and is not yet asserting a trust level for it: the trust indicator shows the real posture only once the load settles."
    } else if state.mutable_name_changed() {
        "You TRUSTED this name at a specific version, and it now points to DIFFERENT content. The bytes still hash-verified, so this is not a broken page, it is a CHANGED one: the name's controller repointed it, which may be a normal site update or may not be. werust neither accepts this silently nor blocks it; open this surface to compare the versions, then re-trust the name or leave."
    } else if state.is_content_verified() {
        "This page was content-verified: its bytes were hash-checked against their content identifier on the content-addressed path."
    } else if state.is_name_via_trusted_rpc() {
        "This page's content was hash-verified, but its name was resolved over a TRUSTED RPC (not a light client), which could misdirect the name to different content. werust makes no name-verification claim here."
    } else if state.is_mutable_name() {
        "This page's content was hash-verified, but its name is MUTABLE: the controller (an IPNS key holder, or an ENS name owner) can repoint it to different content at any time. werust makes no immutability claim here."
    } else {
        "This page was served by an origin werust does not trust by default; its content was not hash-verified."
    }
}

/// The trust badge CSS class.
pub open spec fn spec_trust_class(s: ChromeState) -> Seq<char> {
    if s.loading() {
        "trust-loading"@
    } else if s.name_changed() {
        "trust-name-changed"@
    } else if s.trust_posture == TrustPosture::ContentVerified {
        "trust-verified"@
    } else if s.trust_posture == TrustPosture::NameViaTrustedRpc {
        "trust-name-trusted-rpc"@
    } else if s.trust_posture == TrustPosture::MutableName {
        "trust-mutable-name"@
    } else {
        "trust-unverified"@
    }
}

/// The CSS class for the trust badge: exactly one of the trust classes.
pub fn trust_indicator_css_class(state: &ChromeState) -> (r: &'static str)
    ensures
        r@ == spec_trust_class(*state),
{
    if state.is_loading() {
        "trust-loading"
    } else if state.mutable_name_changed() {
        "trust-name-changed"
    } else if state.is_content_verified() {
        "trust-verified"
    } else if state.is_name_via_trusted_rpc() {
        "trust-name-trusted-rpc"
    } else if state.is_mutable_name() {
        "trust-mutable-name"
    } else {
        "trust-unverified"
    }
}

/// The bless action is offered.
pub open spec fn spec_pin_action_visible(s: ChromeState) -> bool {
    !s.loading() && s.blessable()
}

/// Whether the trust surface offers the bless action: a settled page whose
/// name is not already blessed at this very CID.
pub fn trust_pin_action_visible(state: &ChromeState) -> (r: bool)
    ensures
        r == spec_pin_action_visible(*state),
{
    !state.is_loading() && state.can_bless_name()
}

/// The bless action's label.
pub open spec fn spec_pin_action_label(s: ChromeState) -> Seq<char> {
    if !spec_pin_action_visible(s) {
        ""@
    } else if s.name_changed() {
        "🔒 Trust the NEW content of this name"@
    } else {
        "🔒 Trust this content"@
    }
}

/// The label of the bless action: the first-use bless, or the accept-the-
/// change bless for a changed name; empty when the action is not offered.
pub fn trust_pin_action_label(state: &ChromeState) -> (r: &'static str)
    ensures
        r@ == spec_pin_action_label(*state),
{
    if !trust_pin_action_visible(state) {
        ""
    } else if state.mutable_name_changed() {
        "🔒 Trust the NEW content of this name"
    } else {
        "🔒 Trust this content"
    }
}

/// The head of the trust-on-first-use section.
pub open spec fn spec_pin_head(m: MutableNameTrust) -> Seq<char> {
    m.name@ + " is a MUTABLE name: its controller can repoint it at any time.\nIt resolves to "@
        + m.cid@ + " right now."@
}

/// The trust-on-first-use section of the trust surface.
pub open spec fn spec_pin_detail(s: ChromeState) -> Seq<char> {
    match s.mutable_name {
        None => ""@,
        Some(m) => match m.blessed {
            None => spec_pin_head(m) + "\nYou have not trusted a version of this name yet."@,
            Some(pin) => if pin.cid@ == m.cid@ {
                spec_pin_head(m) + "\nYou trusted exactly this content on "@ + date_text(
                    utc_day_of(pin.blessed_at),
                ) + "."@
            } else {
                spec_pin_head(m) + "\nOn "@ + date_text(utc_day_of(pin.blessed_at))
                    + " you trusted "@ + pin.cid@ + " instead, when werust reported it as “"@
                    + posture_wire(pin.posture) + "”."@
            },
        },
    }
}

/// The body of the trust surface's trust-on-first-use section: the name, the
/// CID it resolves to right now, and what (if anything) the user blessed for
/// it. Empty when the page has no mutable name.
pub fn trust_pin_detail(state: &ChromeState) -> (r: String)
    ensures
        r@ == spec_pin_detail(*state),
{
    proof {
        reveal_strlit("");
    }
    let name = match &state.mutable_name {
        None => {
            return String::new();
        },
        Some(n) => n,
    };
    let mut out: Vec<char> = Vec::new();
    push_str(&mut out, name.name.as_str());
    push_str(&mut out, " is a MUTABLE name: its controller can repoint it at any time.\nIt resolves to ");
    push_str(&mut out, name.cid.as_str());
    push_str(&mut out, " right now.");
    let ghost head = out@;
    assert(head =~= spec_pin_head(*name));
    match &name.blessed {
        None => {
            push_str(&mut out, "\nYou have not trusted a version of this name yet.");
        },
        Some(pin) => {
            let day = pin.blessed_on();
            if pin.cid == name.cid {
                push_str(&mut out, "\nYou trusted exactly this content on ");
                push_str(&mut out, day.as_str());
                push_str(&mut out, ".");
            } else {
                push_str(&mut out, "\nOn ");
                push_str(&mut out, day.as_str());
                push_str(&mut out, " you trusted ");
                push_str(&mut out, pin.cid.as_str());
                push_str(&mut out, " instead, when werust reported it as “");
                push_str(&mut out, trust_posture_wire_name(pin.posture));
                push_str(&mut out, "”.");
            }
        },
    }
    assert(out@ =~= spec_pin_detail(*state));
    string_of(out.as_slice())
}

// ---------------------------------------------------------------------------
// The exported CSS class families.
// ---------------------------------------------------------------------------

/// The views of a run of string slices.
pub open spec fn str_views(v: Seq<&'static str>) -> Seq<Seq<char>> {
    v.map_values(|x: &'static str| x@)
}

/// Every class the trust badge can carry.
pub open spec fn trust_classes() -> Seq<Seq<char>> {
    seq![
        "trust-loading"@,
        "trust-verified"@,
        "trust-name-trusted-rpc"@,
        "trust-mutable-name"@,
        "trust-name-changed"@,
        "trust-unverified"@,
    ]
}

/// Every class the error banner can carry.
pub open spec fn banner_classes() -> Seq<Seq<char>> {
    seq!["error-banner"@, "error-banner-transient"@]
}

/// Every class [`trust_indicator_css_class`] can return, the family a painter
/// toggles as a unit on the trust badge.
pub fn trust_indicator_css_classes() -> (r: Vec<&'static str>)
    ensures
        str_views(r@) == trust_classes(),
{
    let r = vec![
        "trust-loading",
        "trust-verified",
        "trust-name-trusted-rpc",
        "trust-mutable-name",
        "trust-name-changed",
        "trust-unverified",
    ];
    assert(str_views(r@) =~= trust_classes());
    r
}

/// Every class [`error_banner_css_class`] can return, the family a painter
/// toggles as a unit on the banner.
pub fn error_banner_css_classes() -> (r: Vec<&'static str>)
    ensures
        str_views(r@) == banner_classes(),
{
    let r = vec!["error-banner", "error-banner-transient"];
    assert(str_views(r@) =~= banner_classes());
    r
}

/// The complete set of chrome class families a painter toggles: the trust
/// badge's, then the error banner's.
pub fn chrome_css_class_sets() -> (r: Vec<Vec<&'static str>>)
    ensures
        r@.len() == 2,
        str_views(r@[0]@) == trust_classes(),
        str_views(r@[1]@) == banner_classes(),
{
    let mut r: Vec<Vec<&'static str>> = Vec::new();
    r.push(trust_indicator_css_classes());
    r.push(error_banner_css_classes());
    r
}

/// A CSS class family this crate exports.
#[derive(Debug, Clone, Copy, PartialEq, Eq, Structural)]
pub enum CssClassFamily {
    /// The trust indicator's posture badges.
    TrustIndicator,
    /// The error banner's severities.
    ErrorBanner,
}

impl CssClassFamily {
    /// Every exported class family.
    pub fn all() -> (r: Vec<CssClassFamily>)
        ensures
            r@ == seq![CssClassFamily::TrustIndicator, CssClassFamily::ErrorBanner],
    {
        let r = vec![CssClassFamily::TrustIndicator, CssClassFamily::ErrorBanner];
        assert(r@ =~= seq![CssClassFamily::TrustIndicator, CssClassFamily::ErrorBanner]);
        r
    }

    /// The complete list of class names in this family.
    pub fn classes(self) -> (r: Vec<&'static str>)
        ensures
            str_views(r@) == match self {
                CssClassFamily::TrustIndicator => trust_classes(),
                CssClassFamily::ErrorBanner => banner_classes(),
            },
    {
        match self {
            CssClassFamily::TrustIndicator => trust_indicator_css_classes(),
            CssClassFamily::ErrorBanner => error_banner_css_classes(),
        }
    }
}

// ---------------------------------------------------------------------------
// Laws of the chrome.
// ---------------------------------------------------------------------------

/// Every class a rule can return is in the family the painters toggle, so no
/// class is ever turned on that a painter would not turn off again.
pub proof fn law_every_css_class_is_exported(s: ChromeState)
    ensures
        trust_classes().contains(spec_trust_class(s)),
        banner_classes().contains(spec_banner_class(s)),
{
    if s.loading() {
        assert(trust_classes()[0] == spec_trust_class(s));
    } else if s.name_changed() {
        assert(trust_classes()[4] == spec_trust_class(s));
    } else if s.trust_posture == TrustPosture::ContentVerified {
        assert(trust_classes()[1] == spec_trust_class(s));
    } else if s.trust_posture == TrustPosture::NameViaTrustedRpc {
        assert(trust_classes()[2] == spec_trust_class(s));
    } else if s.trust_posture == TrustPosture::MutableName {
        assert(trust_classes()[3] == spec_trust_class(s));
    } else {
        assert(trust_classes()[5] == spec_trust_class(s));
    }
    if s.retryable() {
        assert(banner_classes()[1] == spec_banner_class(s));
    } else {
        assert(banner_classes()[0] == spec_banner_class(s));
    }
}

/// While a load is in flight the chrome asserts no trust at all: the badge is
/// the neutral loading state, no bless is offered, and progress is shown.
pub proof fn law_loading_makes_no_trust_claim(s: ChromeState)
    requires
        s.loading(),
    ensures
        spec_trust_indicator(s) == "⋯ loading…"@,
        spec_trust_class(s) == "trust-loading"@,
        !spec_pin_action_visible(s),
        spec_progress_visible(s),
{
}

/// A settled chrome with no pending step shows no progress: no bar, no phase
/// name, and a cleared tooltip.
pub proof fn law_settled_chrome_shows_no_progress(s: ChromeState, stop_label: Seq<char>)
    requires
        !s.loading(),
        s.load_step == LoadStep::Idle,
    ensures
        !spec_progress_visible(s),
        spec_progress_hint(s) == ""@,
        spec_progress_tooltip(s, stop_label) is None,
{
}

/// A trusted name that now points elsewhere is the loudest settled state:
/// it wins over every posture and raises the failure-class banner.
pub proof fn law_changed_name_is_loudest(s: ChromeState)
    requires
        !s.loading(),
        s.name_changed(),
    ensures
        spec_trust_indicator(s) == "⚠ name points to NEW content"@,
        spec_trust_class(s) == "trust-name-changed"@,
        spec_banner_visible(s),
{
}

/// A load failure wins the banner even when a trusted name also changed.
pub proof fn law_failure_wins_the_banner(s: ChromeState)
    requires
        s.last_error is Some,
    ensures
        spec_banner_visible(s),
        spec_banner_text(s) == if s.retryable() {
            "⏳ This page timed out — reload to retry: "@ + s.last_error->0@
        } else {
            "⚠ This page failed to load: "@ + s.last_error->0@
        },
        spec_status_line(s) == "failed: "@ + s.last_error->0@,
{
}

/// Two chromes that differ only in their mutable-name axis.
pub open spec fn same_but_name(s: ChromeState, t: ChromeState) -> bool {
    &&& s.url_text@ == t.url_text@
    &&& s.load_state == t.load_state
    &&& s.can_go_back == t.can_go_back
    &&& s.can_go_forward == t.can_go_forward
    &&& s.last_error == t.last_error
    &&& s.load_step == t.load_step
    &&& s.trust_posture == t.trust_posture
    &&& s.invalid_entry == t.invalid_entry
}

/// Fail-safe: a name that was never blessed changes nothing the chrome says
/// except that the bless is offered; the page reads exactly as it would with
/// no name axis at all.
pub proof fn law_unblessed_name_changes_nothing_else(s: ChromeState, t: ChromeState)
    requires
        same_but_name(s, t),
        s.mutable_name is None,
        t.mutable_name matches Some(m) && m.blessed is None,
    ensures
        spec_status_line(s) == spec_status_line(t),
        spec_banner_visible(s) == spec_banner_visible(t),
        spec_banner_text(s) == spec_banner_text(t),
        spec_banner_class(s) == spec_banner_class(t),
        spec_trust_indicator(s) == spec_trust_indicator(t),
        spec_trust_detail(s) == spec_trust_detail(t),
        spec_trust_class(s) == spec_trust_class(t),
        spec_badge_text(s) == spec_badge_text(t),
        spec_progress_visible(s) == spec_progress_visible(t),
        spec_progress_hint(s) == spec_progress_hint(t),
        spec_pin_action_visible(t) == !t.loading(),
{
}

} // verus!
