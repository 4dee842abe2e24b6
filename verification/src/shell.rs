//! The browser shell's decisions: what the URL bar, the load indicator, the
//! trust surface and session history do as the user acts and the rendering
//! backend reports.
//!
//! The shell drives a rendering backend and a redirect sink that live at the
//! edge. [`ShellCore`] holds the state behind the window and decides, for each
//! user action and each backend event, how the chrome changes and what the
//! edge must ask of the backend next; the edge performs those requests and
//! hands back what the backend then reports ([`BackendFacts`], [`LoadEvent`]).
//! What the `ipfs://` URL helpers derive from a URL (the key an ENS page is
//! remembered under, the key the redirect chain knows a document by, the root
//! CID and in-site path) arrives with the URL, in a [`SeenUrl`].

use vstd::prelude::*;

use crate::chrome::{ChromeState, LoadState, LoadStep, TrustPosture, trust_pin_action_visible};
use crate::entry::{FrontDoor, eth_name_and_path_from_entry, front_door_view, route_entry, spec_eth_name_and_path, spec_route_entry};
use crate::name_resolution::{NameResolutionError, ResolvedName, resolution_error_text};
use crate::pins::{MutableNameTrust, PinView, TrustedNamePins, blessed_into, opt_pin_view, pin_for, spec_pin_key};
use crate::text::{contains_chars, contains_sub, chars_of, owned, push_str, string_of};

verus! {

// ---------------------------------------------------------------------------
// What the backend reports.
// ---------------------------------------------------------------------------

/// The root CID and in-site path of an `ipfs://` URL.
#[derive(Debug, Clone, PartialEq, Eq)]
pub struct IpfsRoot {
    /// The root CID (no path).
    pub cid: String,
    /// The in-site path, with its leading `/`, or empty at the root.
    pub path: String,
}

/// A URL the backend reported, with the keys the shell compares it by.
#[derive(Debug, Clone, PartialEq, Eq)]
pub struct SeenUrl {
    /// The URL as the backend reports it.
    pub url: String,
    /// The normalized key an ENS-originated page is remembered under.
    pub page_key: String,
    /// The key the redirect chain knows this document by.
    pub frame_key: String,
    /// The root CID and in-site path, for an `ipfs://` URL; `None` otherwise.
    pub root: Option<IpfsRoot>,
}

/// A reported URL as plain values.
pub struct UrlView {
    pub url: Seq<char>,
    pub page_key: Seq<char>,
    pub frame_key: Seq<char>,
    pub root: Option<(Seq<char>, Seq<char>)>,
}

impl View for SeenUrl {
    type V = UrlView;

    open spec fn view(&self) -> UrlView {
        UrlView {
            url: self.url@,
            page_key: self.page_key@,
            frame_key: self.frame_key@,
            root: match self.root {
                Some(r) => Some((r.cid@, r.path@)),
                None => None,
            },
        }
    }
}

/// An optional reported URL as plain values.
pub open spec fn opt_url_view(u: Option<SeenUrl>) -> Option<UrlView> {
    match u {
        Some(s) => Some(s@),
        None => None,
    }
}

/// What the backend reports about its current page, read fresh.
#[derive(Debug, Clone, PartialEq, Eq)]
pub struct BackendFacts {
    /// The load lifecycle.
    pub load_state: LoadState,
    /// Whether session history has an entry behind the current one.
    pub can_go_back: bool,
    /// Whether session history has an entry ahead of the current one.
    pub can_go_forward: bool,
    /// How the current page's bytes and name were learned.
    pub trust_posture: TrustPosture,
    /// The current page's URL, once the backend has one.
    pub current: Option<SeenUrl>,
}

/// The backend's report as plain values.
pub struct FactsView {
    pub load_state: LoadState,
    pub can_go_back: bool,
    pub can_go_forward: bool,
    pub trust_posture: TrustPosture,
    pub current: Option<UrlView>,
}

impl View for BackendFacts {
    type V = FactsView;

    open spec fn view(&self) -> FactsView {
        FactsView {
            load_state: self.load_state,
            can_go_back: self.can_go_back,
            can_go_forward: self.can_go_forward,
            trust_posture: self.trust_posture,
            current: opt_url_view(self.current),
        }
    }
}

/// A load lifecycle event from the backend.
#[derive(Debug, Clone, PartialEq, Eq)]
pub enum LoadEvent {
    /// A load started.
    Started {
        /// The URL being loaded.
        url: SeenUrl,
    },
    /// The main resource committed.
    Committed {
        /// The effective URL.
        url: SeenUrl,
    },
    /// The load finished.
    Finished {
        /// The effective URL.
        url: SeenUrl,
    },
    /// A same-document URL change (a history push or replace by the page).
    UrlChanged {
        /// The new URL.
        url: SeenUrl,
    },
    /// The load failed.
    Failed {
        /// The URL that failed.
        url: SeenUrl,
        /// The reason, as the backend reports it.
        reason: String,
    },
}

impl LoadEvent {
    /// The URL an event carries.
    pub open spec fn event_url(&self) -> SeenUrl {
        match self {
            LoadEvent::Started { url } => *url,
            LoadEvent::Committed { url } => *url,
            LoadEvent::Finished { url } => *url,
            LoadEvent::UrlChanged { url } => *url,
            LoadEvent::Failed { url, .. } => *url,
        }
    }

    /// The URL this event carries.
    pub fn url(&self) -> (r: &SeenUrl)
        ensures
            *r == self.event_url(),
    {
        match self {
            LoadEvent::Started { url } => url,
            LoadEvent::Committed { url } => url,
            LoadEvent::Finished { url } => url,
            LoadEvent::UrlChanged { url } => url,
            LoadEvent::Failed { url, .. } => url,
        }
    }
}

// ---------------------------------------------------------------------------
// The chrome and the shell's memory, as plain values.
// ---------------------------------------------------------------------------

/// A mutable name's trust state as plain values.
pub struct TrustView {
    pub name: Seq<char>,
    pub cid: Seq<char>,
    pub blessed: Option<PinView>,
}

/// The trust state of a mutable name as plain values.
pub open spec fn trust_view(m: MutableNameTrust) -> TrustView {
    TrustView { name: m.name@, cid: m.cid@, blessed: opt_pin_view(m.blessed) }
}

/// An optional trust state as plain values.
pub open spec fn opt_trust_view(m: Option<MutableNameTrust>) -> Option<TrustView> {
    match m {
        Some(t) => Some(trust_view(t)),
        None => None,
    }
}

/// An optional string as plain values.
pub open spec fn opt_text(s: Option<String>) -> Option<Seq<char>> {
    match s {
        Some(t) => Some(t@),
        None => None,
    }
}

/// The chrome's facts as plain values.
pub struct ChromeView {
    pub url_text: Seq<char>,
    pub load_state: LoadState,
    pub can_go_back: bool,
    pub can_go_forward: bool,
    pub last_error: Option<Seq<char>>,
    pub load_step: LoadStep,
    pub trust_posture: TrustPosture,
    pub invalid_entry: Option<Seq<char>>,
    pub mutable_name: Option<TrustView>,
}

/// The chrome's facts as plain values.
pub open spec fn chrome_view(c: ChromeState) -> ChromeView {
    ChromeView {
        url_text: c.url_text@,
        load_state: c.load_state,
        can_go_back: c.can_go_back,
        can_go_forward: c.can_go_forward,
        last_error: opt_text(c.last_error),
        load_step: c.load_step,
        trust_posture: c.trust_posture,
        invalid_entry: opt_text(c.invalid_entry),
        mutable_name: opt_trust_view(c.mutable_name),
    }
}

/// The ENS identity behind a resolved `ipfs://<cid>` page: the name (plus any
/// sub-path) shown in the bar, whether the name is mutable, and the site's
/// root CID and root name.
#[derive(Debug, Clone, PartialEq, Eq)]
pub struct EnsIdentity {
    /// The `.eth` identity typed, with any sub-path (`ronan.eth/blog/`).
    pub name: String,
    /// Whether the name resolved through a mutable pointer.
    pub mutable: bool,
    /// The site's root CID, or empty when it is not known.
    pub root_cid: String,
    /// The site's root `.eth` name.
    pub root_name: String,
}

/// An ENS identity as plain values.
pub struct IdentityView {
    pub name: Seq<char>,
    pub mutable: bool,
    pub root_cid: Seq<char>,
    pub root_name: Seq<char>,
}

impl View for EnsIdentity {
    type V = IdentityView;

    open spec fn view(&self) -> IdentityView {
        IdentityView {
            name: self.name@,
            mutable: self.mutable,
            root_cid: self.root_cid@,
            root_name: self.root_name@,
        }
    }
}

impl EnsIdentity {
    /// A copy of this identity.
    pub fn duplicate(&self) -> (r: EnsIdentity)
        ensures
            r@ == self@,
    {
        EnsIdentity {
            name: self.name.clone(),
            mutable: self.mutable,
            root_cid: self.root_cid.clone(),
            root_name: self.root_name.clone(),
        }
    }
}

/// A remembered ENS page: the key it is remembered under, and its identity.
/// The pages are kept as a `Vec` of such pairs: std's maps keyed by `String`
/// carry no specification a lookup could be proved against.
struct EnsPage {
    key: String,
    identity: EnsIdentity,
}

/// The remembered ENS pages as plain values.
spec fn pages_view(v: Seq<EnsPage>) -> Seq<(Seq<char>, IdentityView)> {
    v.map_values(|p: EnsPage| (p.key@, p.identity@))
}

/// The whole shell state as plain values.
pub struct ShellView {
    /// The chrome the window paints.
    pub chrome: ChromeView,
    /// The text pinned in the bar in place of the backend's URL.
    pub url_override: Option<Seq<char>>,
    /// The page key of the resolved root the pinned name is pinned for.
    pub pinned_root_key: Option<Seq<char>>,
    /// The pre-content resolution step in progress.
    pub resolving_step: Option<LoadStep>,
    /// The remembered ENS pages, by page key, in the order first seen.
    pub ens_pages: Seq<(Seq<char>, IdentityView)>,
    /// The frame keys an in-flight Back must step over.
    pub back_skip: Seq<Seq<char>>,
    /// The frame key of the entry the in-flight Back already stepped off.
    pub back_skip_issued: Option<Seq<char>>,
    /// The cached trusted-name pins.
    pub pins: Seq<PinView>,
    /// The marker a redirect's bookkeeping failure carries.
    pub marker: Seq<char>,
}

// ---------------------------------------------------------------------------
// Recognising an ENS page.
// ---------------------------------------------------------------------------

/// The first remembered page at or after `i` with page key `key`.
pub open spec fn page_with_key(pages: Seq<(Seq<char>, IdentityView)>, key: Seq<char>, i: int) -> Option<
    int,
>
    decreases pages.len() - i,
{
    if i < 0 || i >= pages.len() {
        None
    } else if pages[i].0 == key {
        Some(i)
    } else {
        page_with_key(pages, key, i + 1)
    }
}

/// The first remembered page at or after `i` of the site with root CID `cid`
/// (a page with an unknown root never matches).
pub open spec fn page_with_root(pages: Seq<(Seq<char>, IdentityView)>, cid: Seq<char>, i: int) -> Option<
    int,
>
    decreases pages.len() - i,
{
    if i < 0 || i >= pages.len() {
        None
    } else if pages[i].1.root_cid == cid && cid.len() > 0 {
        Some(i)
    } else {
        page_with_root(pages, cid, i + 1)
    }
}

/// The ENS identity a URL belongs to, with the text the bar shows for it: an
/// exact page-key match shows the identity as it was typed; otherwise a page
/// of a known site (by root CID) shows the site's root name plus the in-site
/// path. A URL of no known ENS site has none.
pub open spec fn ens_lookup(pages: Seq<(Seq<char>, IdentityView)>, u: UrlView) -> Option<
    (Seq<char>, IdentityView),
> {
    match page_with_key(pages, u.page_key, 0) {
        Some(i) => Some((pages[i].1.name, pages[i].1)),
        None => match u.root {
            None => None,
            Some((cid, path)) => match page_with_root(pages, cid, 0) {
                Some(j) => Some((pages[j].1.root_name + path, pages[j].1)),
                None => None,
            },
        },
    }
}

/// The ENS identity of the backend's current page, if it has one.
pub open spec fn current_entry(pages: Seq<(Seq<char>, IdentityView)>, current: Option<UrlView>) -> Option<
    (Seq<char>, IdentityView),
> {
    match current {
        Some(u) => ens_lookup(pages, u),
        None => None,
    }
}

/// The live pipeline step: a pinned resolution step while a name is being
/// resolved; otherwise fetching while the load has started, rendering once
/// it has committed, and none once it has settled.
pub open spec fn content_step(resolving: Option<LoadStep>, state: LoadState) -> LoadStep {
    match resolving {
        Some(s) => s,
        None => match state {
            LoadState::Started => LoadStep::FetchingContent,
            LoadState::Committed => LoadStep::Rendering,
            _ => LoadStep::Idle,
        },
    }
}

/// The trust-on-first-use axis for a page: a name-resolved page with a known
/// root pairs its root name and root CID with the pin on file; any other page
/// has none.
pub open spec fn tofu_axis(entry: Option<(Seq<char>, IdentityView)>, pins: Seq<PinView>) -> Option<
    TrustView,
> {
    match entry {
        Some((_, e)) => if e.root_cid.len() > 0 && e.root_name.len() > 0 {
            Some(
                TrustView {
                    name: e.root_name,
                    cid: e.root_cid,
                    blessed: pin_for(pins, spec_pin_key(e.root_name)),
                },
            )
        } else {
            None
        },
        None => None,
    }
}

/// The text the URL bar shows: a pinned name first, then the ENS identity of
/// the current page, then the backend's URL; with none of these it keeps what
/// it showed.
pub open spec fn bar_text(
    url_override: Option<Seq<char>>,
    entry: Option<(Seq<char>, IdentityView)>,
    current: Option<UrlView>,
    shown: Seq<char>,
) -> Seq<char> {
    match url_override {
        Some(n) => n,
        None => match entry {
            Some((d, _)) => d,
            None => match current {
                Some(u) => u.url,
                None => shown,
            },
        },
    }
}

/// The shell after re-reading the backend's report into the chrome.
pub open spec fn spec_refresh(s: ShellView, f: FactsView) -> ShellView {
    let entry = current_entry(s.ens_pages, f.current);
    ShellView {
        chrome: ChromeView {
            url_text: bar_text(s.url_override, entry, f.current, s.chrome.url_text),
            load_state: f.load_state,
            can_go_back: f.can_go_back,
            can_go_forward: f.can_go_forward,
            last_error: s.chrome.last_error,
            load_step: content_step(s.resolving_step, f.load_state),
            trust_posture: f.trust_posture,
            invalid_entry: s.chrome.invalid_entry,
            mutable_name: tofu_axis(entry, s.pins),
        },
        ..s
    }
}

// ---------------------------------------------------------------------------
// The shell core.
// ---------------------------------------------------------------------------

/// The state behind the browser window: the chrome, the name pinned in the
/// bar, the remembered ENS pages, the in-flight Back skip, and the cached
/// trusted-name pins.
pub struct ShellCore {
    chrome: ChromeState,
    url_override: Option<String>,
    pinned_root_key: Option<String>,
    resolving_step: Option<LoadStep>,
    ens_pages: Vec<EnsPage>,
    back_skip: Vec<String>,
    back_skip_issued: Option<String>,
    pins: TrustedNamePins,
    marker: String,
}

impl View for ShellCore {
    type V = ShellView;

    closed spec fn view(&self) -> ShellView {
        ShellView {
            chrome: chrome_view(self.chrome),
            url_override: opt_text(self.url_override),
            pinned_root_key: opt_text(self.pinned_root_key),
            resolving_step: self.resolving_step,
            ens_pages: pages_view(self.ens_pages@),
            back_skip: self.back_skip@.map_values(|k: String| k@),
            back_skip_issued: opt_text(self.back_skip_issued),
            pins: self.pins@,
            marker: self.marker@,
        }
    }
}

impl ShellCore {
    /// The shell's invariant: the cached pins are a well-formed store.
    pub closed spec fn wf(&self) -> bool {
        self.pins.wf()
    }

    /// The chrome the window paints.
    pub fn chrome(&self) -> (r: &ChromeState)
        ensures
            chrome_view(*r) == self@.chrome,
    {
        &self.chrome
    }

    /// The cached trusted-name pins.
    pub fn pins(&self) -> (r: &TrustedNamePins)
        requires
            self.wf(),
        ensures
            r.wf(),
            r@ == self@.pins,
    {
        &self.pins
    }

    /// The ENS identity of a URL and the text the bar shows for it.
    fn ens_entry_for(&self, u: &SeenUrl) -> (r: Option<(String, EnsIdentity)>)
        ensures
            match ens_lookup(self@.ens_pages, u@) {
                Some((d, id)) => r matches Some((rd, rid)) && rd@ == d && rid@ == id,
                None => r is None,
            },
    {
        let ghost pv = self@.ens_pages;
        let mut i: usize = 0;
        while i < self.ens_pages.len()
            invariant
                i <= self.ens_pages@.len(),
                pv == pages_view(self.ens_pages@),
                pv.len() == self.ens_pages@.len(),
                page_with_key(pv, u@.page_key, 0) == page_with_key(pv, u@.page_key, i as int),
            decreases self.ens_pages@.len() - i,
        {
            let page = &self.ens_pages[i];
            assert(pv[i as int] == (page.key@, page.identity@));
            if page.key == u.page_key {
                let id = page.identity.duplicate();
                let display = page.identity.name.clone();
                return Some((display, id));
            }
            i += 1;
        }
        let root = match &u.root {
            Some(r) => r,
            None => {
                return None;
            },
        };
        if chars_of(root.cid.as_str()).len() == 0 {
            proof {
                lemma_no_root_for_empty(pv, root.cid@, 0);
            }
            return None;
        }
        let mut j: usize = 0;
        while j < self.ens_pages.len()
            invariant
                j <= self.ens_pages@.len(),
                pv == pages_view(self.ens_pages@),
                pv.len() == self.ens_pages@.len(),
                root.cid@.len() > 0,
                page_with_key(pv, u@.page_key, 0) is None,
                u@.root == Some((root.cid@, root.path@)),
                page_with_root(pv, root.cid@, 0) == page_with_root(pv, root.cid@, j as int),
            decreases self.ens_pages@.len() - j,
        {
            let page = &self.ens_pages[j];
            assert(pv[j as int] == (page.key@, page.identity@));
            if page.identity.root_cid == root.cid {
                let id = page.identity.duplicate();
                let mut out: Vec<char> = Vec::new();
                push_str(&mut out, page.identity.root_name.as_str());
                push_str(&mut out, root.path.as_str());
                assert(out@ =~= page.identity.root_name@ + root.path@);
                return Some((string_of(out.as_slice()), id));
            }
            j += 1;
        }
        None
    }

    /// Re-read the backend's report into the chrome: the load lifecycle,
    /// history availability and posture as reported; the live pipeline step;
    /// the trust-on-first-use axis of a name-resolved page; and the bar text.
    pub fn refresh(&mut self, facts: &BackendFacts)
        requires
            old(self).wf(),
        ensures
            final(self).wf(),
            final(self)@ == spec_refresh(old(self)@, facts@),
    {
        self.chrome.load_state = facts.load_state;
        self.chrome.can_go_back = facts.can_go_back;
        self.chrome.can_go_forward = facts.can_go_forward;
        self.chrome.load_step = match self.resolving_step {
            Some(step) => step,
            None => match facts.load_state {
                LoadState::Started => LoadStep::FetchingContent,
                LoadState::Committed => LoadStep::Rendering,
                _ => LoadStep::Idle,
            },
        };
        let entry = match &facts.current {
            Some(u) => self.ens_entry_for(u),
            None => None,
        };
        let tofu = match &entry {
            Some((_, id)) => if chars_of(id.root_cid.as_str()).len() > 0 && chars_of(
                id.root_name.as_str(),
            ).len() > 0 {
                Some(self.pins.check(id.root_name.as_str(), id.root_cid.as_str()))
            } else {
                None
            },
            None => None,
        };
        self.chrome.mutable_name = tofu;
        self.chrome.trust_posture = facts.trust_posture;
        match &self.url_override {
            Some(name) => {
                self.chrome.url_text = name.clone();
            },
            None => match entry {
                Some((display, _)) => {
                    self.chrome.url_text = display;
                },
                None => match &facts.current {
                    Some(u) => {
                        self.chrome.url_text = u.url.clone();
                    },
                    None => {},
                },
            },
        }
        assert(self@.ens_pages == old(self)@.ens_pages);
        assert(self@.back_skip =~= old(self)@.back_skip);
    }
}

// ---------------------------------------------------------------------------
// The transitions, as plain values.
// ---------------------------------------------------------------------------

/// A navigation the user asked for proceeded: the bar follows the backend
/// again, no resolution step is pinned, and any failure or invalid-entry
/// badge of the previous page is cleared.
pub open spec fn spec_proceed(s: ShellView) -> ShellView {
    ShellView {
        chrome: ChromeView { last_error: None, invalid_entry: None, ..s.chrome },
        url_override: None,
        pinned_root_key: None,
        resolving_step: None,
        ..s
    }
}

/// No Back skip is in flight.
pub open spec fn spec_end_skip(s: ShellView) -> ShellView {
    ShellView { back_skip: Seq::empty(), back_skip_issued: None, ..s }
}

/// A front-door ENS load failed: the typed name (plus path) stays pinned in
/// the bar, nothing is loading, and the reason is surfaced.
pub open spec fn spec_fail_ens(s: ShellView, shown: Seq<char>, reason: Seq<char>) -> ShellView {
    ShellView {
        chrome: ChromeView { last_error: Some(reason), ..s.chrome },
        url_override: Some(shown),
        pinned_root_key: None,
        resolving_step: None,
        ..s
    }
}

/// What the front door does to the shell for an entry: a `.eth` entry clears
/// the invalid-entry badge and goes to name resolution; a URL to load ends
/// any Back skip; a refused entry pins the typed text in the bar and raises
/// the invalid-entry badge, leaving any load failure as it was.
pub open spec fn spec_navigate(s: ShellView, entry: Seq<char>) -> ShellView {
    if spec_route_entry(entry).0 == 0 {
        ShellView { chrome: ChromeView { invalid_entry: None, ..s.chrome }, ..s }
    } else if spec_route_entry(entry).0 == 1 {
        spec_end_skip(s)
    } else {
        ShellView {
            chrome: ChromeView { invalid_entry: Some(entry), ..s.chrome },
            url_override: Some(entry),
            pinned_root_key: None,
            resolving_step: None,
            ..s
        }
    }
}

/// The ENS identity a reload re-resolves: the current page's, else the name
/// pinned in the bar (a failed ENS load), split into name and path.
pub open spec fn spec_reload_target(s: ShellView, current: Option<UrlView>) -> Option<
    (Seq<char>, Seq<char>),
> {
    let shown = match current_entry(s.ens_pages, current) {
        Some((d, _)) => Some(d),
        None => s.url_override,
    };
    match shown {
        Some(t) => spec_eth_name_and_path(t),
        None => None,
    }
}

/// The remembered pages with `key` now naming `id`: the page under that key
/// is replaced, or a new one is remembered last.
pub open spec fn pages_insert(pages: Seq<(Seq<char>, IdentityView)>, key: Seq<char>, id: IdentityView) -> Seq<
    (Seq<char>, IdentityView),
> {
    match page_with_key(pages, key, 0) {
        Some(i) => pages.update(i, (key, id)),
        None => pages.push((key, id)),
    }
}

/// The resolved content of `name` (plus `path`) started loading at
/// `current`: the name (plus path) is pinned in the bar for that root, the
/// page is remembered under its key, and the failure is cleared.
pub open spec fn spec_content_loading(
    s: ShellView,
    name: Seq<char>,
    path: Seq<char>,
    mutable: bool,
    root_cid: Seq<char>,
    current: Option<UrlView>,
) -> ShellView {
    ShellView {
        chrome: ChromeView { last_error: None, ..s.chrome },
        url_override: Some(name + path),
        pinned_root_key: match current {
            Some(u) => Some(u.page_key),
            None => None,
        },
        ens_pages: match current {
            Some(u) => pages_insert(
                s.ens_pages,
                u.page_key,
                IdentityView { name: name + path, mutable, root_cid, root_name: name },
            ),
            None => s.ens_pages,
        },
        ..s
    }
}

/// The first position at or after `i` of `k` in `keys`.
pub open spec fn key_position(keys: Seq<Seq<char>>, k: Seq<char>, i: int) -> Option<int>
    decreases keys.len() - i,
{
    if i < 0 || i >= keys.len() {
        None
    } else if keys[i] == k {
        Some(i)
    } else {
        key_position(keys, k, i + 1)
    }
}

/// What a landed load event means for an in-flight Back skip.
#[derive(Debug, Clone, Copy, PartialEq, Eq, Structural)]
pub enum EventOutcome {
    /// The event was folded into the chrome: report its URL to the redirect
    /// sink as the top-level document.
    Folded,
    /// A trailing event of an entry the Back skip already stepped off:
    /// ignored.
    Dropped,
    /// The event landed on an entry a redirect left: abandon the sink's
    /// navigation and go back once more.
    SkippedBack,
}

/// The Back-skip phase of a load event landing on frame key `landed`: 0 to
/// fold the event into the state given, 1 to drop it, 2 to go back once more
/// from the state given.
pub open spec fn skip_phase(s: ShellView, landed: Seq<char>, can_go_back: bool) -> (int, ShellView) {
    if s.back_skip.len() == 0 && s.back_skip_issued is None {
        (0, s)
    } else if s.back_skip_issued == Some(landed) {
        (1, s)
    } else {
        match key_position(s.back_skip, landed, 0) {
            None => (0, spec_end_skip(s)),
            Some(at) => if !can_go_back {
                (0, spec_end_skip(s))
            } else {
                (2, ShellView { back_skip: s.back_skip.remove(at), back_skip_issued: Some(landed), ..s })
            },
        }
    }
}

/// Whether a failure reason is a redirect's bookkeeping (it carries the
/// marker), not something to show.
pub open spec fn is_redirect_bookkeeping(reason: Seq<char>, marker: Seq<char>) -> bool {
    contains_sub(reason, marker)
}

/// A load event folded into the shell: a load off the pinned root drops the
/// pin; the bar follows the event's URL unless a name is pinned; a start
/// clears the failure; a failure surfaces its reason unless it is a
/// redirect's bookkeeping.
pub open spec fn fold_event(s: ShellView, e: LoadEvent) -> ShellView {
    let u = e.event_url()@;
    let off_root = s.pinned_root_key matches Some(k) && u.page_key != k;
    let over = if off_root {
        None
    } else {
        s.url_override
    };
    let pinned_key = if off_root {
        None
    } else {
        s.pinned_root_key
    };
    let text = if over is Some {
        s.chrome.url_text
    } else {
        u.url
    };
    let error = match e {
        LoadEvent::Started { .. } => None,
        LoadEvent::Failed { reason, .. } => if is_redirect_bookkeeping(reason@, s.marker) {
            None
        } else {
            Some(reason@)
        },
        _ => s.chrome.last_error,
    };
    ShellView {
        chrome: ChromeView { url_text: text, last_error: error, ..s.chrome },
        url_override: over,
        pinned_root_key: pinned_key,
        ..s
    }
}

/// A load event's outcome and the shell after it.
pub open spec fn spec_on_event(s: ShellView, e: LoadEvent, can_go_back: bool) -> (
    EventOutcome,
    ShellView,
) {
    let (k, t) = skip_phase(s, e.event_url()@.frame_key, can_go_back);
    if k == 0 {
        (EventOutcome::Folded, fold_event(t, e))
    } else if k == 1 {
        (EventOutcome::Dropped, s)
    } else {
        (EventOutcome::SkippedBack, t)
    }
}

/// A queued redirect was followed: the bar follows the redirect target, no
/// step is pinned, and the redirected-from request's failure is spent.
pub open spec fn spec_redirect_followed(s: ShellView) -> ShellView {
    ShellView {
        chrome: ChromeView { last_error: None, ..s.chrome },
        url_override: None,
        pinned_root_key: None,
        resolving_step: None,
        ..s
    }
}

/// The trust surface offers to bless the page's name: the page has settled
/// and its name is not already blessed at the CID it resolves to now.
pub open spec fn bless_offered(c: ChromeView) -> bool {
    &&& !c.load_state.spec_is_loading()
    &&& c.mutable_name matches Some(m)
    &&& !(m.blessed matches Some(p) && p.cid == m.cid)
}

/// The chrome before anything has loaded.
pub open spec fn chrome_at_rest() -> ChromeView {
    ChromeView {
        url_text: Seq::empty(),
        load_state: LoadState::Idle,
        can_go_back: false,
        can_go_forward: false,
        last_error: None,
        load_step: LoadStep::Idle,
        trust_posture: TrustPosture::UnverifiedOrigin,
        invalid_entry: None,
        mutable_name: None,
    }
}

impl ShellCore {
    /// A shell at rest: an empty bar, nothing pinned or remembered, no Back
    /// skip, the trusted-name pins read at launch, and the marker a
    /// redirect's bookkeeping failure carries.
    pub fn new(pins: TrustedNamePins, marker: &str) -> (r: ShellCore)
        requires
            pins.wf(),
        ensures
            r.wf(),
            r@.chrome == chrome_at_rest(),
            r@.url_override is None,
            r@.pinned_root_key is None,
            r@.resolving_step is None,
            r@.ens_pages.len() == 0,
            r@.back_skip.len() == 0,
            r@.back_skip_issued is None,
            r@.pins == pins@,
            r@.marker == marker@,
    {
        let r = ShellCore {
            chrome: ChromeState::default(),
            url_override: None,
            pinned_root_key: None,
            resolving_step: None,
            ens_pages: Vec::new(),
            back_skip: Vec::new(),
            back_skip_issued: None,
            pins,
            marker: owned(marker),
        };
        assert(r@.chrome =~= chrome_at_rest());
        assert(r@.ens_pages =~= Seq::empty());
        assert(r@.back_skip =~= Seq::empty());
        r
    }

    fn proceed(&mut self)
        requires
            old(self).wf(),
        ensures
            final(self).wf(),
            final(self)@ == spec_proceed(old(self)@),
    {
        self.url_override = None;
        self.pinned_root_key = None;
        self.resolving_step = None;
        self.chrome.last_error = None;
        self.chrome.invalid_entry = None;
        assert(self@.back_skip =~= old(self)@.back_skip);
    }

    fn end_back_skip(&mut self)
        requires
            old(self).wf(),
        ensures
            final(self).wf(),
            final(self)@ == spec_end_skip(old(self)@),
    {
        self.back_skip = Vec::new();
        self.back_skip_issued = None;
        assert(self@.back_skip =~= Seq::<Seq<char>>::empty());
    }

    /// The URL-bar front door. A `.eth` entry goes to name resolution (the
    /// edge resolves it, then calls [`name_resolved`](ShellCore::name_resolved));
    /// a URL to load ends any Back skip (the edge starts a fresh redirect
    /// chain at it, reports it as the top-level document, asks the backend to
    /// load it, and calls [`load_proceeded`](ShellCore::load_proceeded) once
    /// the backend has started); a refused entry is not navigated at all: the
    /// typed text stays in the bar and the invalid-entry badge is raised.
    pub fn navigate(&mut self, entry: &str) -> (r: FrontDoor)
        requires
            old(self).wf(),
        ensures
            final(self).wf(),
            front_door_view(r) == spec_route_entry(entry@),
            final(self)@ == spec_navigate(old(self)@, entry@),
    {
        let door = route_entry(entry);
        match &door {
            FrontDoor::Ens { .. } => {
                self.chrome.invalid_entry = None;
                assert(self@.back_skip =~= old(self)@.back_skip);
            },
            FrontDoor::Navigate(_) => {
                self.end_back_skip();
            },
            FrontDoor::Invalid => {
                self.resolving_step = None;
                self.url_override = Some(owned(entry));
                self.pinned_root_key = None;
                self.chrome.invalid_entry = Some(owned(entry));
                assert(self@.back_skip =~= old(self)@.back_skip);
            },
        }
        door
    }

    /// The backend started a load the user asked for (a URL from the front
    /// door): the bar follows the backend from here.
    pub fn load_proceeded(&mut self)
        requires
            old(self).wf(),
        ensures
            final(self).wf(),
            final(self)@ == spec_proceed(old(self)@),
    {
        self.proceed();
    }

    /// Back was asked for. A no-op while the chrome shows no entry behind
    /// the current one (`false`: the edge does not move the backend either).
    /// Otherwise (`true`: the edge moves the backend back) the entries this
    /// redirect chain left (`redirect_sources`) are to be stepped over as the
    /// move lands, and the bar follows the backend.
    pub fn go_back(&mut self, redirect_sources: Vec<String>) -> (r: bool)
        requires
            old(self).wf(),
        ensures
            final(self).wf(),
            r == old(self)@.chrome.can_go_back,
            !r ==> final(self)@ == old(self)@,
            r ==> final(self)@ == spec_proceed(
                ShellView {
                    back_skip: redirect_sources@.map_values(|k: String| k@),
                    back_skip_issued: None,
                    ..old(self)@
                },
            ),
    {
        if !self.chrome.can_go_back {
            return false;
        }
        self.back_skip = redirect_sources;
        self.back_skip_issued = None;
        self.proceed();
        true
    }

    /// Forward was asked for: the user overrules any Back skip, and the bar
    /// follows the backend.
    pub fn go_forward(&mut self)
        requires
            old(self).wf(),
        ensures
            final(self).wf(),
            final(self)@ == spec_proceed(spec_end_skip(old(self)@)),
    {
        self.end_back_skip();
        self.proceed();
    }

    /// What a reload does: re-resolve the ENS name (plus path) of the current
    /// page, or of the name pinned after a failed ENS load, clearing the
    /// invalid-entry badge as the front door does; `None` for a plain reload
    /// of the backend's page (the edge reloads it, then calls
    /// [`reload_proceeded`](ShellCore::reload_proceeded)).
    pub fn reload(&mut self, current: &Option<SeenUrl>) -> (r: Option<(String, String)>)
        requires
            old(self).wf(),
        ensures
            final(self).wf(),
            match spec_reload_target(old(self)@, opt_url_view(*current)) {
                Some((n, p)) => r matches Some((rn, rp)) && rn@ == n && rp@ == p && final(self)@
                    == (ShellView {
                    chrome: ChromeView { invalid_entry: None, ..old(self)@.chrome },
                    ..old(self)@
                }),
                None => r is None && final(self)@ == old(self)@,
            },
    {
        let entry = match current {
            Some(u) => self.ens_entry_for(u),
            None => None,
        };
        let shown: Option<String> = match entry {
            Some((display, _)) => Some(display),
            None => match &self.url_override {
                Some(t) => Some(t.clone()),
                None => None,
            },
        };
        let target = match &shown {
            Some(t) => match eth_name_and_path_from_entry(t.as_str()) {
                Some((n, p)) => Some((owned(n), owned(p))),
                None => None,
            },
            None => None,
        };
        if target.is_some() {
            self.chrome.invalid_entry = None;
        }
        assert(self@.back_skip =~= old(self)@.back_skip);
        target
    }

    /// The backend reloaded its page: any Back skip ends, and the bar follows
    /// the backend.
    pub fn reload_proceeded(&mut self)
        requires
            old(self).wf(),
        ensures
            final(self).wf(),
            final(self)@ == spec_proceed(spec_end_skip(old(self)@)),
    {
        self.end_back_skip();
        self.proceed();
    }

    /// The outcome of resolving the `.eth` `name` typed with `path`: the
    /// resolved content's URL plus the path, to load next (any Back skip
    /// ends; the edge starts a fresh redirect chain at it, reports it as the
    /// top-level document, asks the backend to load it, then calls
    /// [`ens_content_loading`](ShellCore::ens_content_loading), or
    /// [`ens_load_failed`](ShellCore::ens_load_failed) if the backend cannot
    /// start); or, for a failed resolution, `None`, with the name pinned in
    /// the bar and the failure's own reason surfaced.
    pub fn name_resolved(
        &mut self,
        name: &str,
        path: &str,
        outcome: &Result<ResolvedName, NameResolutionError>,
    ) -> (r: Option<String>)
        requires
            old(self).wf(),
        ensures
            final(self).wf(),
            match outcome {
                Ok(res) => r matches Some(t) && t@ == res.spec_uri() + path@ && final(self)@
                    == (ShellView { resolving_step: None, ..spec_end_skip(old(self)@) }),
                Err(e) => r is None && final(self)@ == spec_fail_ens(
                    old(self)@,
                    name@ + path@,
                    resolution_error_text(*e),
                ),
            },
    {
        match outcome {
            Ok(res) => {
                let mut out: Vec<char> = Vec::new();
                push_str(&mut out, res.uri());
                push_str(&mut out, path);
                self.resolving_step = None;
                self.end_back_skip();
                Some(string_of(out.as_slice()))
            },
            Err(e) => {
                let reason = e.message();
                self.ens_load_failed(name, path, reason.as_str());
                None
            },
        }
    }

    /// A front-door ENS load failed with `reason`: the typed name (plus
    /// path) stays in the bar and the reason is surfaced.
    pub fn ens_load_failed(&mut self, name: &str, path: &str, reason: &str)
        requires
            old(self).wf(),
        ensures
            final(self).wf(),
            final(self)@ == spec_fail_ens(old(self)@, name@ + path@, reason@),
    {
        let mut out: Vec<char> = Vec::new();
        push_str(&mut out, name);
        push_str(&mut out, path);
        self.resolving_step = None;
        self.url_override = Some(string_of(out.as_slice()));
        self.pinned_root_key = None;
        self.chrome.last_error = Some(owned(reason));
        assert(self@.back_skip =~= old(self)@.back_skip);
    }

    /// The backend started loading the resolved content of `name` (plus
    /// `path`), landing at `current`; `root_cid` is the root CID the name
    /// resolved to. The name (plus path) is pinned in the bar for that root,
    /// the page is remembered so a reload or a history move onto it shows
    /// the name again, and the failure is cleared. The edge marks the load
    /// ENS-originated, and mutable-named when `mutable`.
    pub fn ens_content_loading(
        &mut self,
        name: &str,
        path: &str,
        mutable: bool,
        root_cid: &str,
        current: &Option<SeenUrl>,
    )
        requires
            old(self).wf(),
        ensures
            final(self).wf(),
            final(self)@ == spec_content_loading(
                old(self)@,
                name@,
                path@,
                mutable,
                root_cid@,
                opt_url_view(*current),
            ),
    {
        let mut out: Vec<char> = Vec::new();
        push_str(&mut out, name);
        push_str(&mut out, path);
        let display = string_of(out.as_slice());
        assert(display@ == name@ + path@);
        match current {
            Some(u) => {
                self.pinned_root_key = Some(u.page_key.clone());
                let identity = EnsIdentity {
                    name: display.clone(),
                    mutable,
                    root_cid: owned(root_cid),
                    root_name: owned(name),
                };
                self.remember_page(u.page_key.clone(), identity);
            },
            None => {
                self.pinned_root_key = None;
            },
        }
        self.url_override = Some(display);
        self.chrome.last_error = None;
        assert(self@.back_skip =~= old(self)@.back_skip);
    }

    fn remember_page(&mut self, key: String, identity: EnsIdentity)
        requires
            old(self).wf(),
        ensures
            final(self).wf(),
            final(self)@ == (ShellView {
                ens_pages: pages_insert(old(self)@.ens_pages, key@, identity@),
                ..old(self)@
            }),
    {
        let ghost pv = old(self)@.ens_pages;
        let mut i: usize = 0;
        while i < self.ens_pages.len()
            invariant
                i <= self.ens_pages@.len(),
                self == old(self),
                old(self).wf(),
                pv == pages_view(self.ens_pages@),
                pv.len() == self.ens_pages@.len(),
                page_with_key(pv, key@, 0) == page_with_key(pv, key@, i as int),
            decreases self.ens_pages@.len() - i,
        {
            assert(pv[i as int] == (self.ens_pages@[i as int].key@, self.ens_pages@[i as int].identity@));
            if self.ens_pages[i].key == key {
                let ghost kv = key@;
                let ghost iv = identity@;
                self.ens_pages.set(i, EnsPage { key, identity });
                assert(pages_view(self.ens_pages@) =~= pv.update(i as int, (kv, iv)));
                assert(self@.back_skip =~= old(self)@.back_skip);
                return;
            }
            i += 1;
        }
        let ghost kv = key@;
        let ghost iv = identity@;
        self.ens_pages.push(EnsPage { key, identity });
        assert(pages_view(self.ens_pages@) =~= pv.push((kv, iv)));
        assert(self@.back_skip =~= old(self)@.back_skip);
    }

    /// Which posture axes the edge re-marks on the backend before reading its
    /// report: for a page of a known ENS site, ENS-originated, and
    /// mutable-named when its name is mutable (`Some(mutable)`); nothing for
    /// any other page.
    pub fn remarks(&self, current: &Option<SeenUrl>) -> (r: Option<bool>)
        ensures
            match current_entry(self@.ens_pages, opt_url_view(*current)) {
                Some((_, id)) => r == Some(id.mutable),
                None => r is None,
            },
    {
        match current {
            Some(u) => match self.ens_entry_for(u) {
                Some((_, id)) => Some(id.mutable),
                None => None,
            },
            None => None,
        }
    }
}

impl ShellCore {
    /// Fold one load event from the backend into the shell. While a Back is
    /// stepping over the entries a redirect chain left, an event landing on
    /// one of them asks the edge to go back once more (the edge abandons the
    /// redirect sink's navigation and moves back), and the trailing events of
    /// the entry already stepped off are dropped. Any other event is folded
    /// in, and the edge reports its URL to the redirect sink as the top-level
    /// document.
    pub fn on_load_event(&mut self, event: &LoadEvent, can_go_back: bool) -> (r: EventOutcome)
        requires
            old(self).wf(),
        ensures
            final(self).wf(),
            (r, final(self)@) == spec_on_event(old(self)@, *event, can_go_back),
    {
        let u = event.url();
        if self.back_skip.len() > 0 || self.back_skip_issued.is_some() {
            let dropped = match &self.back_skip_issued {
                Some(k) => *k == u.frame_key,
                None => false,
            };
            if dropped {
                return EventOutcome::Dropped;
            }
            match self.skip_position(&u.frame_key) {
                None => {
                    self.end_back_skip();
                },
                Some(at) => {
                    if !can_go_back {
                        self.end_back_skip();
                    } else {
                        let ghost keys = self@.back_skip;
                        self.back_skip.remove(at);
                        self.back_skip_issued = Some(u.frame_key.clone());
                        assert(self@.back_skip =~= keys.remove(at as int));
                        assert(self@.ens_pages == old(self)@.ens_pages);
                        return EventOutcome::SkippedBack;
                    }
                },
            }
        }
        self.fold(event);
        EventOutcome::Folded
    }

    /// Where `landed` is among the entries to step over, first.
    fn skip_position(&self, landed: &String) -> (r: Option<usize>)
        ensures
            match r {
                Some(i) => key_position(self@.back_skip, landed@, 0) == Some(i as int) && i
                    < self@.back_skip.len(),
                None => key_position(self@.back_skip, landed@, 0) is None,
            },
    {
        let ghost keys = self@.back_skip;
        let mut i: usize = 0;
        while i < self.back_skip.len()
            invariant
                i <= self.back_skip@.len(),
                keys == self.back_skip@.map_values(|k: String| k@),
                keys.len() == self.back_skip@.len(),
                key_position(keys, landed@, 0) == key_position(keys, landed@, i as int),
            decreases self.back_skip@.len() - i,
        {
            assert(keys[i as int] == self.back_skip@[i as int]@);
            if self.back_skip[i] == *landed {
                return Some(i);
            }
            i += 1;
        }
        None
    }

    /// Fold a load event into the chrome (no Back skip concerns it).
    fn fold(&mut self, event: &LoadEvent)
        requires
            old(self).wf(),
        ensures
            final(self).wf(),
            final(self)@ == fold_event(old(self)@, *event),
    {
        let u = event.url();
        let off_root = match &self.pinned_root_key {
            Some(k) => *k != u.page_key,
            None => false,
        };
        if off_root {
            self.url_override = None;
            self.pinned_root_key = None;
        }
        let pinned = self.url_override.is_some();
        match event {
            LoadEvent::Started { url } => {
                if !pinned {
                    self.chrome.url_text = url.url.clone();
                }
                self.chrome.last_error = None;
            },
            LoadEvent::Committed { url } => {
                if !pinned {
                    self.chrome.url_text = url.url.clone();
                }
            },
            LoadEvent::Finished { url } => {
                if !pinned {
                    self.chrome.url_text = url.url.clone();
                }
            },
            LoadEvent::UrlChanged { url } => {
                if !pinned {
                    self.chrome.url_text = url.url.clone();
                }
            },
            LoadEvent::Failed { url, reason } => {
                if !pinned {
                    self.chrome.url_text = url.url.clone();
                }
                let rc = chars_of(reason.as_str());
                let mc = chars_of(self.marker.as_str());
                if contains_chars(rc.as_slice(), mc.as_slice()) {
                    self.chrome.last_error = None;
                } else {
                    self.chrome.last_error = Some(reason.clone());
                }
            },
        }
        assert(self@.back_skip =~= old(self)@.back_skip);
    }

    /// The edge followed a redirect the `ipfs://` scheme handler queued: the
    /// bar follows the redirect target, and the redirected-from request's
    /// failure is spent.
    pub fn redirect_followed(&mut self)
        requires
            old(self).wf(),
        ensures
            final(self).wf(),
            final(self)@ == spec_redirect_followed(old(self)@),
    {
        self.chrome.last_error = None;
        self.url_override = None;
        self.pinned_root_key = None;
        self.resolving_step = None;
        assert(self@.back_skip =~= old(self)@.back_skip);
    }

    /// Bless the current page's name at the CID it resolves to now, with the
    /// posture shown and the moment `now`: only when the trust surface offers
    /// it. The bless is made on `on_disk`, the store as just re-read from
    /// disk (so another window's pins are kept), or on the cached pins when
    /// nothing durable could be read; the result becomes the cache, which the
    /// edge then persists. Returns whether a bless was made.
    pub fn bless_current_name(&mut self, on_disk: Option<TrustedNamePins>, now: u64) -> (r: bool)
        requires
            old(self).wf(),
            on_disk matches Some(p) ==> p.wf(),
        ensures
            final(self).wf(),
            r == bless_offered(old(self)@.chrome),
            !r ==> final(self)@ == old(self)@,
            r ==> (old(self)@.chrome.mutable_name matches Some(m) && blessed_into(
                match on_disk {
                    Some(p) => p@,
                    None => old(self)@.pins,
                },
                final(self)@.pins,
                spec_pin_key(m.name),
                m.cid,
                old(self)@.chrome.trust_posture,
                now,
            ) && final(self)@ == (ShellView { pins: final(self)@.pins, ..old(self)@ })),
    {
        if !trust_pin_action_visible(&self.chrome) {
            return false;
        }
        let (name, cid) = match &self.chrome.mutable_name {
            Some(m) => (m.name.clone(), m.cid.clone()),
            None => {
                return false;
            },
        };
        let mut pins = TrustedNamePins::new();
        match on_disk {
            Some(p) => {
                pins = p;
            },
            None => {
                std::mem::swap(&mut pins, &mut self.pins);
            },
        }
        let ghost base = pins@;
        pins.bless(name.as_str(), cid.as_str(), self.chrome.trust_posture, now);
        self.pins = pins;
        assert(self@.back_skip =~= old(self)@.back_skip);
        true
    }
}

proof fn lemma_no_root_for_empty(pages: Seq<(Seq<char>, IdentityView)>, cid: Seq<char>, i: int)
    requires
        cid.len() == 0,
    ensures
        page_with_root(pages, cid, i) is None,
    decreases pages.len() - i,
{
    if 0 <= i < pages.len() {
        lemma_no_root_for_empty(pages, cid, i + 1);
    }
}

// ---------------------------------------------------------------------------
// Laws.
// ---------------------------------------------------------------------------

proof fn lemma_page_with_key(p: Seq<(Seq<char>, IdentityView)>, k: Seq<char>, j: int)
    requires
        0 <= j,
    ensures
        match page_with_key(p, k, j) {
            Some(i) => j <= i < p.len() && p[i].0 == k && forall|t: int|
                j <= t < i ==> #[trigger] p[t].0 != k,
            None => forall|t: int| j <= t < p.len() ==> #[trigger] p[t].0 != k,
        },
    decreases p.len() - j,
{
    if j < p.len() && p[j].0 != k {
        lemma_page_with_key(p, k, j + 1);
    }
}

proof fn lemma_page_with_key_at(p: Seq<(Seq<char>, IdentityView)>, k: Seq<char>, j: int, i: int)
    requires
        0 <= j <= i < p.len(),
        p[i].0 == k,
        forall|t: int| j <= t < i ==> #[trigger] p[t].0 != k,
    ensures
        page_with_key(p, k, j) == Some(i),
    decreases i - j,
{
    if j < i {
        lemma_page_with_key_at(p, k, j + 1, i);
    }
}

proof fn lemma_insert_then_find(pages: Seq<(Seq<char>, IdentityView)>, key: Seq<char>, id: IdentityView)
    ensures
        page_with_key(pages_insert(pages, key, id), key, 0) matches Some(i) && pages_insert(
            pages,
            key,
            id,
        )[i] == (key, id),
{
    lemma_page_with_key(pages, key, 0);
    let q = pages_insert(pages, key, id);
    match page_with_key(pages, key, 0) {
        Some(i) => {
            assert forall|t: int| 0 <= t < i implies #[trigger] q[t].0 != key by {
                assert(q[t] == pages[t]);
            }
            lemma_page_with_key_at(q, key, 0, i);
        },
        None => {
            let n = pages.len() as int;
            assert forall|t: int| 0 <= t < n implies #[trigger] q[t].0 != key by {
                assert(q[t] == pages[t]);
            }
            lemma_page_with_key_at(q, key, 0, n);
        },
    }
}

/// An entry the front door refuses is never navigated: the typed text stays
/// in the bar and the invalid-entry badge is raised, whatever the backend
/// then reports, and a load failure already shown is left as it was (an
/// invalid entry is not a load failure).
pub proof fn law_refused_entry_keeps_the_typed_text(s: ShellView, entry: Seq<char>, f: FactsView)
    requires
        spec_route_entry(entry).0 == 2,
    ensures
        spec_refresh(spec_navigate(s, entry), f).chrome.url_text == entry,
        spec_refresh(spec_navigate(s, entry), f).chrome.invalid_entry == Some(entry),
        spec_refresh(spec_navigate(s, entry), f).chrome.last_error == s.chrome.last_error,
{
}

/// Any navigation the user asked for that proceeds clears the previous
/// page's invalid-entry badge and failure, and the bar follows the backend
/// again: the ENS identity of the page it lands on, else its URL.
pub proof fn law_proceeding_navigation_starts_clean(s: ShellView, f: FactsView)
    ensures
        spec_refresh(spec_proceed(s), f).chrome.invalid_entry is None,
        spec_refresh(spec_proceed(s), f).chrome.last_error is None,
        spec_refresh(spec_proceed(s), f).chrome.url_text == bar_text(
            None,
            current_entry(s.ens_pages, f.current),
            f.current,
            s.chrome.url_text,
        ),
{
}

/// While a resolved name is pinned for its root, the root's own load events
/// never replace the name in the bar.
pub proof fn law_pinned_name_holds_through_its_root_load(
    s: ShellView,
    e: LoadEvent,
    can_go_back: bool,
    f: FactsView,
)
    requires
        s.back_skip.len() == 0,
        s.back_skip_issued is None,
        s.url_override is Some,
        s.pinned_root_key == Some(e.event_url()@.page_key),
    ensures
        spec_on_event(s, e, can_go_back).0 == EventOutcome::Folded,
        spec_on_event(s, e, can_go_back).1.url_override == s.url_override,
        spec_on_event(s, e, can_go_back).1.chrome.url_text == s.chrome.url_text,
        spec_refresh(spec_on_event(s, e, can_go_back).1, f).chrome.url_text == s.url_override->0,
{
}

/// A load off the pinned root (an in-page navigation) drops the pin, and
/// the bar follows the URL the backend reports.
pub proof fn law_in_page_navigation_follows_the_url(s: ShellView, e: LoadEvent, can_go_back: bool)
    requires
        s.back_skip.len() == 0,
        s.back_skip_issued is None,
        s.pinned_root_key matches Some(k) && k != e.event_url()@.page_key,
    ensures
        spec_on_event(s, e, can_go_back).1.url_override is None,
        spec_on_event(s, e, can_go_back).1.pinned_root_key is None,
        spec_on_event(s, e, can_go_back).1.chrome.url_text == e.event_url()@.url,
{
}

/// A redirect's bookkeeping failure is never shown; any other failure is
/// shown with its own reason.
pub proof fn law_only_real_failures_are_shown(s: ShellView, url: SeenUrl, reason: String, can_go_back: bool)
    requires
        s.back_skip.len() == 0,
        s.back_skip_issued is None,
    ensures
        ({
            let t = spec_on_event(s, LoadEvent::Failed { url, reason }, can_go_back).1;
            &&& is_redirect_bookkeeping(reason@, s.marker) ==> t.chrome.last_error is None
            &&& !is_redirect_bookkeeping(reason@, s.marker) ==> t.chrome.last_error == Some(reason@)
        }),
{
}

/// A resolved ENS page is remembered under its key: whenever the backend is
/// later on that page (a reload, a history move back onto it), the bar shows
/// the name and path typed, never the CID, its mutable axis is re-marked,
/// and a reload re-resolves that same name and path.
pub proof fn law_resolved_page_is_re_derived(
    s: ShellView,
    name: Seq<char>,
    path: Seq<char>,
    mutable: bool,
    root_cid: Seq<char>,
    u: UrlView,
    later: UrlView,
)
    requires
        later.page_key == u.page_key,
    ensures
        ({
            let t = spec_content_loading(s, name, path, mutable, root_cid, Some(u));
            &&& current_entry(t.ens_pages, Some(later)) matches Some((d, id)) && d == name + path
                && id.mutable == mutable
            &&& bar_text(None, current_entry(t.ens_pages, Some(later)), Some(later), t.chrome.url_text)
                == name + path
            &&& spec_reload_target(ShellView { url_override: None, ..t }, Some(later))
                == spec_eth_name_and_path(name + path)
        }),
{
    lemma_insert_then_find(
        s.ens_pages,
        u.page_key,
        IdentityView { name: name + path, mutable, root_cid, root_name: name },
    );
}

/// A Back skip always ends: every event that goes back once more spends one
/// of the entries to step over, and a dropped event changes nothing.
pub proof fn law_back_skip_always_ends(s: ShellView, e: LoadEvent, can_go_back: bool)
    ensures
        spec_on_event(s, e, can_go_back).0 == EventOutcome::SkippedBack ==> spec_on_event(
            s,
            e,
            can_go_back,
        ).1.back_skip.len() == s.back_skip.len() - 1,
        spec_on_event(s, e, can_go_back).0 == EventOutcome::Dropped ==> spec_on_event(
            s,
            e,
            can_go_back,
        ).1 == s,
{
    let landed = e.event_url()@.frame_key;
    if let Some(at) = key_position(s.back_skip, landed, 0) {
        lemma_key_position(s.back_skip, landed, 0);
    }
}

proof fn lemma_key_position(keys: Seq<Seq<char>>, k: Seq<char>, j: int)
    requires
        0 <= j,
    ensures
        key_position(keys, k, j) matches Some(i) ==> j <= i < keys.len(),
    decreases keys.len() - j,
{
    if j < keys.len() && keys[j] != k {
        lemma_key_position(keys, k, j + 1);
    }
}

/// The trust posture the chrome shows is always the backend's own report:
/// no pin, no remembered name makes unverified bytes look verified. And the
/// trust-on-first-use axis exists only for a page of a name-resolved site.
pub proof fn law_pins_never_change_what_is_shown_as_verified(s: ShellView, f: FactsView)
    ensures
        spec_refresh(s, f).chrome.trust_posture == f.trust_posture,
        spec_refresh(s, f).chrome.mutable_name is Some ==> current_entry(s.ens_pages, f.current)
            is Some,
{
}

/// After a bless, the page whose name was blessed shows the name as blessed
/// at the CID it resolves to, so no change is reported and the bless is no
/// longer offered.
pub proof fn law_blessed_name_is_unchanged(
    s: ShellView,
    base: Seq<PinView>,
    pins: Seq<PinView>,
    at: u64,
    f: FactsView,
)
    requires
        s.chrome.mutable_name == tofu_axis(current_entry(s.ens_pages, f.current), s.pins),
        s.chrome.mutable_name is Some,
        blessed_into(
            base,
            pins,
            spec_pin_key(s.chrome.mutable_name->0.name),
            s.chrome.mutable_name->0.cid,
            s.chrome.trust_posture,
            at,
        ),
    ensures
        spec_refresh(ShellView { pins, ..s }, f).chrome.mutable_name matches Some(t) && t.blessed
            matches Some(p) && p.cid == t.cid,
        !bless_offered(spec_refresh(ShellView { pins, ..s }, f).chrome),
{
}

} // verus!
