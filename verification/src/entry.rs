//! The URL-bar front door's routing: a `.eth` entry is an ENS name, an entry
//! with an explicit scheme is taken literally, a scheme-less plausible host is
//! tried over `https://`, and anything else is refused without navigating.

use vstd::prelude::*;
use vstd::string::StrSliceExecFns;

use crate::text::{
    before_any, chars_of, contains_char, contains_chars, contains_sub, ends_with,
    eq_ignore_ascii_case, find_any, find_any_from, find_sub, find_sub_from, is_control, is_control_char, is_digit, is_white, is_whitespace, lemma_find_any_from,
    lemma_find_sub_from, lower_ascii_seq, prefix_before_any, slice_to_vec,
    split_chars, split_on, to_lower_ascii_vec, views, owned, push_str, string_of,
};

verus! {

/// `://`, the separator between a URL scheme and the rest of the URL.
pub open spec fn scheme_sep() -> Seq<char> {
    seq![':', '/', '/']
}

/// `.eth`, the TLD that marks a URL-bar entry as an ENS name.
pub open spec fn eth_suffix() -> Seq<char> {
    seq!['.', 'e', 't', 'h']
}

/// `localhost`, the one dotless host the front door tries.
pub open spec fn localhost() -> Seq<char> {
    seq!['l', 'o', 'c', 'a', 'l', 'h', 'o', 's', 't']
}

/// Whether `s` ends in `.eth`, ignoring ASCII case.
pub open spec fn ends_in_eth(s: Seq<char>) -> bool {
    s.len() >= 4 && lower_ascii_seq(s).subrange(s.len() - 4, s.len() as int) == eth_suffix()
}

/// The bare ENS name a URL-bar entry names, or `None`.
///
/// A bare name carries no `://`, ends in `.eth` (ignoring ASCII case) after at
/// most one trailing `/` is dropped, has a non-empty label before the `.eth`,
/// and has no other `/`.
pub open spec fn spec_eth_name(entry: Seq<char>) -> Option<Seq<char>> {
    let name = if entry.len() > 0 && entry.last() == '/' {
        entry.drop_last()
    } else {
        entry
    };
    if contains_sub(entry, scheme_sep()) || name.contains('/') || !ends_in_eth(name) || name.len()
        <= 4 {
        None
    } else {
        Some(name)
    }
}

/// The `(name, path)` split of a `.eth` entry that may carry a sub-path, or
/// `None`: the name is before the first `/`, the path is from that `/` on
/// (a lone `/` counts as no path), and the name must be a bare `.eth` name.
pub open spec fn spec_eth_name_and_path(entry: Seq<char>) -> Option<(Seq<char>, Seq<char>)> {
    let k = find_any_from(entry, seq!['/'], 0);
    let name = if k == -1 {
        entry
    } else {
        entry.take(k)
    };
    let raw_path = if k == -1 {
        Seq::<char>::empty()
    } else {
        entry.skip(k)
    };
    let path = if raw_path == seq!['/'] {
        Seq::<char>::empty()
    } else {
        raw_path
    };
    if contains_sub(entry, scheme_sep()) {
        None
    } else {
        match spec_eth_name(name) {
            Some(n) => Some((n, path)),
            None => None,
        }
    }
}

fn eth_suffix_chars() -> (r: Vec<char>)
    ensures
        r@ == eth_suffix(),
{
    let mut v = Vec::new();
    v.push('.');
    v.push('e');
    v.push('t');
    v.push('h');
    assert(v@ =~= eth_suffix());
    v
}

fn scheme_sep_chars() -> (r: Vec<char>)
    ensures
        r@ == scheme_sep(),
{
    let mut v = Vec::new();
    v.push(':');
    v.push('/');
    v.push('/');
    assert(v@ =~= scheme_sep());
    v
}

/// Recognise a bare `.eth` URL-bar entry as an ENS name, returning the name to
/// resolve (with one trailing `/` stripped), or `None`.
///
/// An entry with an explicit `scheme://` is never a name, and neither is one
/// with a path (`ronan.eth/page`) or a bare `.eth`.
pub fn eth_name_from_entry(entry: &str) -> (r: Option<&str>)
    ensures
        match spec_eth_name(entry@) {
            Some(n) => r matches Some(s) && s@ == n,
            None => r is None,
        },
{
    let v = chars_of(entry);
    if contains_chars(v.as_slice(), scheme_sep_chars().as_slice()) {
        return None;
    }
    let n = if v.len() > 0 && v[v.len() - 1] == '/' {
        v.len() - 1
    } else {
        v.len()
    };
    let name = slice_to_vec(v.as_slice(), 0, n);
    assert(name@ =~= (if entry@.len() > 0 && entry@.last() == '/' {
        entry@.drop_last()
    } else {
        entry@
    }));
    if contains_char(name.as_slice(), '/') {
        return None;
    }
    let lower = to_lower_ascii_vec(name.as_slice());
    if !ends_with(lower.as_slice(), eth_suffix_chars().as_slice()) {
        return None;
    }
    if name.len() <= 4 {
        return None;
    }
    Some(entry.substring_char(0, n))
}

/// Recognise a `.eth` URL-bar entry that may carry a sub-path, splitting it into
/// the ENS name and the path (from the first `/`, or empty for a bare name), or
/// `None` when it is not a `.eth` name.
pub fn eth_name_and_path_from_entry(entry: &str) -> (r: Option<(&str, &str)>)
    ensures
        match spec_eth_name_and_path(entry@) {
            Some((n, p)) => r matches Some((rn, rp)) && rn@ == n && rp@ == p,
            None => r is None,
        },
{
    let v = chars_of(entry);
    if contains_chars(v.as_slice(), scheme_sep_chars().as_slice()) {
        return None;
    }
    let mut slash: Vec<char> = Vec::new();
    slash.push('/');
    let len = v.len();
    let (name, path) = match find_any(v.as_slice(), slash.as_slice(), 0) {
        Some(k) => {
            assert(k < len) by {
                lemma_find_any_from(v@, slash@, 0);
            }
            (entry.substring_char(0, k), entry.substring_char(k, len))
        },
        None => (entry, entry.substring_char(len, len)),
    };
    proof {
        assert(slash@ =~= seq!['/']);
        let k = find_any_from(entry@, seq!['/'], 0);
        if k != -1 {
            assert(entry@.subrange(0, k) =~= entry@.take(k));
            assert(entry@.subrange(k, entry@.len() as int) =~= entry@.skip(k));
        } else {
            assert(entry@.subrange(len as int, len as int) =~= Seq::<char>::empty());
        }
    }
    let pv = chars_of(path);
    let path = if pv.len() == 1 && pv[0] == '/' {
        assert(pv@ =~= seq!['/']);
        path.substring_char(0, 0)
    } else {
        assert(pv@ != seq!['/']);
        path
    };
    proof {
        if pv@ == seq!['/'] {
            assert(path@ =~= Seq::<char>::empty());
        }
    }
    match eth_name_from_entry(name) {
        Some(n) => Some((n, path)),
        None => None,
    }
}

/// How the front door routes an entry that is not a `.eth` name.
#[derive(Debug, Clone, Copy, PartialEq, Eq)]
pub enum EntryRoute {
    /// The entry carries an explicit scheme: take it literally.
    ExplicitScheme,
    /// A scheme-less plausible host: navigate it with `https://` prepended.
    HttpsCandidate,
    /// Neither: do not navigate, surface the invalid-entry state.
    Invalid,
}

/// Whether every `.`-separated label of `host` is non-empty.
pub open spec fn labels_non_empty(host: Seq<char>) -> bool {
    forall|i: int|
        0 <= i < split_on(host, seq!['.']).len() ==> #[trigger] split_on(host, seq!['.'])[i].len()
            > 0
}

/// Whether a scheme-less entry's authority is a plausible host to try over
/// `https://`: no `@`, an optional `:port` of ASCII digits after the first
/// `:`, and a host that is `localhost` (ignoring ASCII case) or is dotted with
/// every label non-empty.
pub open spec fn plausible_authority(a: Seq<char>) -> bool {
    let c = find_any_from(a, seq![':'], 0);
    let host = if c == -1 {
        a
    } else {
        a.take(c)
    };
    let port_ok = c == -1 || (c + 1 < a.len() && forall|j: int|
        c + 1 <= j < a.len() ==> is_digit(#[trigger] a[j]));
    &&& a.len() > 0
    &&& !a.contains('@')
    &&& port_ok
    &&& host.len() > 0
    &&& (lower_ascii_seq(host) == localhost() || (host.contains('.') && labels_non_empty(host)))
}

/// The separators that end a URL authority: `/`, `?`, `#`.
pub open spec fn authority_ends() -> Seq<char> {
    seq!['/', '?', '#']
}

/// The route of a URL-bar entry that is not a `.eth` name.
pub open spec fn spec_classify_entry(e: Seq<char>) -> EntryRoute {
    let k = find_sub_from(e, scheme_sep(), 0);
    if k != -1 && k > 0 && k + 3 < e.len() {
        EntryRoute::ExplicitScheme
    } else if e.len() == 0 || exists|i: int|
        0 <= i < e.len() && (is_white(#[trigger] e[i]) || is_control_char(e[i])) {
        EntryRoute::Invalid
    } else if plausible_authority(before_any(e, authority_ends())) {
        EntryRoute::HttpsCandidate
    } else {
        EntryRoute::Invalid
    }
}

/// Classify a URL-bar entry that is not a `.eth` name.
#[verifier::loop_isolation(false)]
pub fn classify_entry(entry: &str) -> (r: EntryRoute)
    ensures
        r == spec_classify_entry(entry@),
{
    let v = chars_of(entry);
    let sep = scheme_sep_chars();
    if let Some(k) = find_sub(v.as_slice(), sep.as_slice(), 0) {
        proof {
            lemma_find_sub_from(v@, sep@, 0);
            assert(sep@.len() == 3);
        }
        if k > 0 && k < v.len() && v.len() - k > 3 {
            return EntryRoute::ExplicitScheme;
        }
    }
    if v.len() == 0 {
        return EntryRoute::Invalid;
    }
    let mut i: usize = 0;
    while i < v.len()
        invariant
            i <= v@.len(),
            forall|j: int| 0 <= j < i ==> !(is_white(#[trigger] v@[j]) || is_control_char(v@[j])),
        decreases v@.len() - i,
    {
        if is_whitespace(v[i]) || is_control(v[i]) {
            assert(is_white(v@[i as int]) || is_control_char(v@[i as int]));
            return EntryRoute::Invalid;
        }
        i += 1;
    }
    let mut ends: Vec<char> = Vec::new();
    ends.push('/');
    ends.push('?');
    ends.push('#');
    assert(ends@ =~= authority_ends());
    let authority = prefix_before_any(v.as_slice(), ends.as_slice());
    if is_plausible_authority(authority.as_slice()) {
        EntryRoute::HttpsCandidate
    } else {
        EntryRoute::Invalid
    }
}

fn localhost_chars() -> (r: Vec<char>)
    ensures
        r@ == localhost(),
{
    let mut v = Vec::new();
    v.push('l');
    v.push('o');
    v.push('c');
    v.push('a');
    v.push('l');
    v.push('h');
    v.push('o');
    v.push('s');
    v.push('t');
    assert(v@ =~= localhost());
    v
}

/// Whether a scheme-less entry's authority (`host[:port]`) is a plausible host
/// to try over `https://`.
#[verifier::loop_isolation(false)]
pub fn is_plausible_authority(authority: &[char]) -> (r: bool)
    ensures
        r == plausible_authority(authority@),
{
    let a = authority;
    if a.len() == 0 {
        return false;
    }
    if contains_char(a, '@') {
        return false;
    }
    let mut colon: Vec<char> = Vec::new();
    colon.push(':');
    assert(colon@ =~= seq![':']);
    let host = match find_any(a, colon.as_slice(), 0) {
        Some(c) => {
            proof {
                lemma_find_any_from(a@, colon@, 0);
            }
            if c + 1 >= a.len() {
                return false;
            }
            let mut j = c + 1;
            while j < a.len()
                invariant
                    c + 1 <= j <= a@.len(),
                    forall|t: int| c + 1 <= t < j ==> is_digit(#[trigger] a@[t]),
                decreases a@.len() - j,
            {
                if !('0' <= a[j] && a[j] <= '9') {
                    assert(!is_digit(a@[j as int]));
                    return false;
                }
                j += 1;
            }
            slice_to_vec(a, 0, c)
        },
        None => slice_to_vec(a, 0, a.len()),
    };
    proof {
        let c = find_any_from(a@, seq![':'], 0);
        if c != -1 {
            assert(a@.subrange(0, c) =~= a@.take(c));
        } else {
            assert(a@.subrange(0, a@.len() as int) =~= a@);
        }
    }
    if host.len() == 0 {
        return false;
    }
    if eq_ignore_ascii_case(host.as_slice(), localhost_chars().as_slice()) {
        proof {
            assert(lower_ascii_seq(localhost()) =~= localhost());
        }
        return true;
    }
    proof {
        assert(lower_ascii_seq(localhost()) =~= localhost());
    }
    if !contains_char(host.as_slice(), '.') {
        return false;
    }
    let mut dot: Vec<char> = Vec::new();
    dot.push('.');
    assert(dot@ =~= seq!['.']);
    let labels = split_chars(host.as_slice(), dot.as_slice());
    let mut i: usize = 0;
    while i < labels.len()
        invariant
            i <= labels@.len(),
            views(labels@) == split_on(host@, seq!['.']),
            forall|t: int| 0 <= t < i ==> #[trigger] split_on(host@, seq!['.'])[t].len() > 0,
        decreases labels@.len() - i,
    {
        assert(views(labels@)[i as int] == labels@[i as int]@);
        if labels[i].len() == 0 {
            assert(split_on(host@, seq!['.'])[i as int].len() == 0);
            return false;
        }
        i += 1;
    }
    true
}

/// Where the URL-bar front door sends an entry.
#[derive(Debug, Clone, PartialEq, Eq)]
pub enum FrontDoor {
    /// A `.eth` name (with an optional sub-path): resolve it through ENS.
    Ens {
        /// The ENS name.
        name: String,
        /// The sub-path, with its leading `/`, or empty.
        path: String,
    },
    /// Navigate to this URL: an explicit-scheme entry as typed, a plausible
    /// scheme-less host with `https://` prepended.
    Navigate(String),
    /// Not a name and not a plausible URL: do not navigate; surface the
    /// invalid-entry state and keep the typed text.
    Invalid,
}

/// The front door's decision for an entry, as plain values.
pub open spec fn spec_route_entry(e: Seq<char>) -> (int, Seq<char>, Seq<char>) {
    match spec_eth_name_and_path(e) {
        Some((n, p)) => (0, n, p),
        None => match spec_classify_entry(e) {
            EntryRoute::ExplicitScheme => (1, e, Seq::empty()),
            EntryRoute::HttpsCandidate => (1, "https://"@ + e, Seq::empty()),
            EntryRoute::Invalid => (2, Seq::empty(), Seq::empty()),
        },
    }
}

/// A front-door decision as plain values.
pub open spec fn front_door_view(f: FrontDoor) -> (int, Seq<char>, Seq<char>) {
    match f {
        FrontDoor::Ens { name, path } => (0, name@, path@),
        FrontDoor::Navigate(u) => (1, u@, Seq::empty()),
        FrontDoor::Invalid => (2, Seq::empty(), Seq::empty()),
    }
}

/// The URL-bar front door: a `.eth` entry (with or without a path) is an ENS
/// name; otherwise an explicit scheme is taken literally, a plausible
/// scheme-less host is tried over `https://`, and anything else is refused
/// without navigating.
pub fn route_entry(entry: &str) -> (r: FrontDoor)
    ensures
        front_door_view(r) == spec_route_entry(entry@),
{
    match eth_name_and_path_from_entry(entry) {
        Some((name, path)) => {
            return FrontDoor::Ens { name: owned(name), path: owned(path) };
        },
        None => {},
    }
    match classify_entry(entry) {
        EntryRoute::ExplicitScheme => FrontDoor::Navigate(owned(entry)),
        EntryRoute::HttpsCandidate => {
            let mut out: Vec<char> = Vec::new();
            push_str(&mut out, "https://");
            push_str(&mut out, entry);
            FrontDoor::Navigate(string_of(out.as_slice()))
        },
        EntryRoute::Invalid => FrontDoor::Invalid,
    }
}

/// A `.eth` entry always goes to the ENS front door, never to `https://`.
pub proof fn law_eth_names_never_go_to_https(e: Seq<char>)
    requires
        spec_eth_name_and_path(e) is Some,
    ensures
        spec_route_entry(e).0 == 0,
{
}

/// An entry with whitespace or a control character is never navigated
/// unless it carries an explicit scheme.
pub proof fn law_entries_with_spaces_are_refused(e: Seq<char>, i: int)
    requires
        0 <= i < e.len(),
        is_white(e[i]) || is_control_char(e[i]),
        spec_eth_name_and_path(e) is None,
        spec_classify_entry(e) != EntryRoute::ExplicitScheme,
    ensures
        spec_route_entry(e).0 == 2,
{
}

} // verus!
