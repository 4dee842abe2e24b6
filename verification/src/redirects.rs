//! The IPFS `_redirects` web-pathing convention: parse a site's
//! root `_redirects` file and decide what a not-found path resolves to under
//! the site's own rules.
//!
//! This is the pure half of the fallback: grammar and matching, no retrieval.
//! A rule may only ever name another path under the same root CID: a target
//! that carries a scheme, a protocol-relative authority, or a `..` that climbs
//! above the root is refused as [`RedirectsError::OffRootTarget`], and a
//! matching 3xx rule (a navigation) is refused as
//! [`RedirectsError::RedirectNotSupported`] rather than skipped.

use vstd::prelude::*;

use crate::text::{
    before_any, chars_of, find_any, contains_chars, contains_sub, find_any_from,
    is_ascii_alnum, is_digit, lemma_find_any_from, lemma_split_on_len, nonempty_pieces,
    prefix_before_any, push_all, push_dec, push_str, slice_to_vec, split_chars, split_on,
    split_words, starts_with, str_from_utf8, string_of, trim, trim_vec, views, words, dec,
    drop_empty,
};

verus! {

/// The path of a site's redirects file, under the root CID.
pub const REDIRECTS_PATH: &'static str = "/_redirects";

/// The path of the default custom error page a site may ship with no
/// `_redirects` at all.
pub const DEFAULT_404_PATH: &'static str = "/404.html";

/// The largest `_redirects` file that is read at all (64 KiB); a larger one is
/// refused, never truncated.
pub const MAX_REDIRECTS_BYTES: usize = 65536;

/// The status a rule gets when it names none.
pub const DEFAULT_STATUS: u16 = 301;

/// One parsed `from to [status]` rule.
#[derive(Debug, Clone, PartialEq, Eq)]
pub struct RedirectRule {
    /// The path pattern to match (`:placeholder` segments and one trailing `*`).
    pub from: String,
    /// The path to serve (may inject `:splat` / `:placeholder`).
    pub to: String,
    /// The HTTP status the rule asks for.
    pub status: u16,
}

/// What a matched rule asks werust to do for a not-found path.
#[derive(Debug, Clone, PartialEq, Eq)]
pub enum FallbackAction {
    /// Serve the verified content of `path` (under the same root CID) as the
    /// response to the requested URL, with `status`.
    Serve {
        /// The in-site target path, root-relative and normalised.
        path: String,
        /// The status to answer the requested URL with.
        status: u16,
    },
}

/// A fail-closed problem with a `_redirects` file or with the rule that
/// matched.
#[derive(Debug, Clone, PartialEq, Eq)]
pub enum RedirectsError {
    /// The file exceeds [`MAX_REDIRECTS_BYTES`].
    TooLarge {
        /// The observed size in bytes.
        size: usize,
    },
    /// The file is not valid UTF-8 text.
    NotText,
    /// A line did not parse as `from to [status]`.
    InvalidLine {
        /// The 1-based line number.
        line: usize,
        /// Why the line is invalid.
        reason: String,
    },
    /// A rule's target leaves the root CID.
    OffRootTarget {
        /// The offending target, after placeholder injection.
        to: String,
    },
    /// The matching rule asks for a 3xx redirect, which is not followed.
    RedirectNotSupported {
        /// The status the rule asked for.
        status: u16,
        /// The target the rule named.
        to: String,
    },
}

// ---------------------------------------------------------------------------
// The mathematical model.
// ---------------------------------------------------------------------------

/// A rule as plain sequences.
pub struct RuleView {
    pub from: Seq<char>,
    pub to: Seq<char>,
    pub status: u16,
}

impl View for RedirectRule {
    type V = RuleView;

    open spec fn view(&self) -> RuleView {
        RuleView { from: self.from@, to: self.to@, status: self.status }
    }
}

/// The rules of a vector, as plain sequences.
pub open spec fn rules_view(rs: Seq<RedirectRule>) -> Seq<RuleView> {
    rs.map_values(|r: RedirectRule| r@)
}

/// An error as plain values.
pub enum ErrorView {
    TooLarge { size: nat },
    NotText,
    InvalidLine { line: nat, reason: Seq<char> },
    OffRootTarget { to: Seq<char> },
    RedirectNotSupported { status: u16, to: Seq<char> },
}

impl View for RedirectsError {
    type V = ErrorView;

    open spec fn view(&self) -> ErrorView {
        match self {
            RedirectsError::TooLarge { size } => ErrorView::TooLarge { size: *size as nat },
            RedirectsError::NotText => ErrorView::NotText,
            RedirectsError::InvalidLine { line, reason } => ErrorView::InvalidLine {
                line: *line as nat,
                reason: reason@,
            },
            RedirectsError::OffRootTarget { to } => ErrorView::OffRootTarget { to: to@ },
            RedirectsError::RedirectNotSupported { status, to } => ErrorView::RedirectNotSupported {
                status: *status,
                to: to@,
            },
        }
    }
}

/// The legible sentence for a `_redirects` failure.
pub open spec fn error_text(e: ErrorView) -> Seq<char> {
    match e {
        ErrorView::TooLarge { size } => "_redirects is "@ + dec(size) + " bytes, over the "@ + dec(
            MAX_REDIRECTS_BYTES as nat,
        ) + " byte limit"@,
        ErrorView::NotText => "_redirects is not valid utf-8 text"@,
        ErrorView::InvalidLine { line, reason } => "_redirects line "@ + dec(line) + ": "@ + reason,
        ErrorView::OffRootTarget { to } => "_redirects target `"@ + to
            + "` leaves the site's root cid; a site's rules may only name content under its own root"@,
        ErrorView::RedirectNotSupported { status, to } => "_redirects rule asks for a "@ + dec(
            status as nat,
        ) + " redirect to `"@ + to + "`, which werust does not follow yet"@,
    }
}

impl RedirectsError {
    /// The legible sentence the fail-closed load shows for this failure.
    pub fn message(&self) -> (r: String)
        ensures
            r@ == error_text(self@),
    {
        let mut out: Vec<char> = Vec::new();
        match self {
            RedirectsError::TooLarge { size } => {
                push_str(&mut out, "_redirects is ");
                push_dec(&mut out, *size as u64);
                push_str(&mut out, " bytes, over the ");
                push_dec(&mut out, MAX_REDIRECTS_BYTES as u64);
                push_str(&mut out, " byte limit");
            },
            RedirectsError::NotText => {
                push_str(&mut out, "_redirects is not valid utf-8 text");
            },
            RedirectsError::InvalidLine { line, reason } => {
                push_str(&mut out, "_redirects line ");
                push_dec(&mut out, *line as u64);
                push_str(&mut out, ": ");
                push_str(&mut out, reason.as_str());
            },
            RedirectsError::OffRootTarget { to } => {
                push_str(&mut out, "_redirects target `");
                push_str(&mut out, to.as_str());
                push_str(
                    &mut out,
                    "` leaves the site's root cid; a site's rules may only name content under its own root",
                );
            },
            RedirectsError::RedirectNotSupported { status, to } => {
                push_str(&mut out, "_redirects rule asks for a ");
                push_dec(&mut out, *status as u64);
                push_str(&mut out, " redirect to `");
                push_str(&mut out, to.as_str());
                push_str(&mut out, "`, which werust does not follow yet");
            },
        }
        assert(out@ =~= error_text(self@));
        string_of(out.as_slice())
    }
}

/// An action as plain values.
pub enum ActionView {
    Serve { path: Seq<char>, status: u16 },
}

impl View for FallbackAction {
    type V = ActionView;

    open spec fn view(&self) -> ActionView {
        match self {
            FallbackAction::Serve { path, status } => ActionView::Serve {
                path: path@,
                status: *status,
            },
        }
    }
}

/// The statuses a rule may carry.
pub open spec fn allowed_status(s: u16) -> bool {
    s == 200 || s == 301 || s == 302 || s == 303 || s == 307 || s == 308 || s == 404 || s == 410
        || s == 451
}

/// The statuses that are served for the requested URL rather than navigated.
pub open spec fn served_status(s: u16) -> bool {
    s == 200 || s == 404 || s == 410 || s == 451
}

/// The value of a run of decimal digits.
pub open spec fn digits_value(d: Seq<char>) -> nat
    decreases d.len(),
{
    if d.len() == 0 {
        0
    } else {
        digits_value(d.drop_last()) * 10 + ((d.last() as u32) - ('0' as u32)) as nat
    }
}

/// A numeral without its optional leading `+`.
pub open spec fn unsigned_digits(t: Seq<char>) -> Seq<char> {
    if t.len() > 0 && t[0] == '+' {
        t.drop_first()
    } else {
        t
    }
}

/// What `str::parse::<u16>` returns: an optional `+`, then at least one ASCII
/// digit, with a value that fits in 16 bits.
pub open spec fn parse_u16(t: Seq<char>) -> Option<u16> {
    let d = unsigned_digits(t);
    if d.len() > 0 && (forall|i: int| 0 <= i < d.len() ==> is_digit(#[trigger] d[i]))
        && digits_value(d) <= 65535 {
        Some(digits_value(d) as u16)
    } else {
        None
    }
}

/// The placeholder name a `from` segment declares (`:name`), if it is one.
pub open spec fn ph_name(seg: Seq<char>) -> Option<Seq<char>> {
    if seg.len() > 0 && seg[0] == ':' {
        Some(seg.drop_first())
    } else {
        None
    }
}

/// The placeholder names declared by `segs`, in order.
pub open spec fn ph_names(segs: Seq<Seq<char>>) -> Seq<Seq<char>>
    decreases segs.len(),
{
    if segs.len() == 0 {
        Seq::empty()
    } else {
        let prev = ph_names(segs.drop_last());
        match ph_name(segs.last()) {
            Some(n) => prev.push(n),
            None => prev,
        }
    }
}

/// The first placeholder name that `segs` declares a second time, if any.
pub open spec fn dup_placeholder(segs: Seq<Seq<char>>) -> Option<Seq<char>>
    decreases segs.len(),
{
    if segs.len() == 0 {
        None
    } else {
        match dup_placeholder(segs.drop_last()) {
            Some(n) => Some(n),
            None => match ph_name(segs.last()) {
                Some(n) => if ph_names(segs.drop_last()).contains(n) {
                    Some(n)
                } else {
                    None
                },
                None => None,
            },
        }
    }
}

/// The reason for a status field that is not a number.
pub open spec fn not_a_status_reason(t: Seq<char>) -> Seq<char> {
    "`"@ + t + "` is not an http status code"@
}

/// The reason for a status outside the allowed set.
pub open spec fn status_not_allowed_reason(v: u16) -> Seq<char> {
    "status "@ + dec(v as nat) + " is not one of [200, 301, 302, 303, 307, 308, 404, 410, 451]"@
}

/// The reason for a line with the wrong number of fields.
pub open spec fn field_count_reason(n: nat) -> Seq<char> {
    "expected `from to [status]`, got "@ + dec(n) + " fields"@
}

/// The reason for a `from` that is not root-relative.
pub open spec fn relative_from_reason(from: Seq<char>) -> Seq<char> {
    "`from` must be a root-relative path, got `"@ + from + "`"@
}

/// The reason for a placeholder named twice in `from`.
pub open spec fn dup_placeholder_reason(name: Seq<char>) -> Seq<char> {
    "placeholder `:"@ + name + "` is used more than once in `from`"@
}

/// What one line of a `_redirects` file contributes.
pub enum LineView {
    /// A blank line or a `#` comment.
    Skip,
    /// A rule.
    Rule(RuleView),
    /// An invalid line, with its reason.
    Fail(Seq<char>),
}

/// The meaning of one raw line.
pub open spec fn line_view(raw: Seq<char>) -> LineView {
    let line = trim(raw);
    if line.len() == 0 || line[0] == '#' {
        LineView::Skip
    } else {
        let f = words(line);
        if f.len() != 2 && f.len() != 3 {
            LineView::Fail(field_count_reason(f.len()))
        } else if f.len() == 3 && parse_u16(f[2]) is None {
            LineView::Fail(not_a_status_reason(f[2]))
        } else if f.len() == 3 && !allowed_status(parse_u16(f[2])->0) {
            LineView::Fail(status_not_allowed_reason(parse_u16(f[2])->0))
        } else if !(f[0].len() > 0 && f[0][0] == '/') {
            LineView::Fail(relative_from_reason(f[0]))
        } else if dup_placeholder(split_on(f[0], seq!['/'])) is Some {
            LineView::Fail(dup_placeholder_reason(dup_placeholder(split_on(f[0], seq!['/']))->0))
        } else {
            LineView::Rule(
                RuleView {
                    from: f[0],
                    to: f[1],
                    status: if f.len() == 3 {
                        parse_u16(f[2])->0
                    } else {
                        DEFAULT_STATUS
                    },
                },
            )
        }
    }
}

/// The rules of a run of lines, or the first invalid line's number and reason.
pub open spec fn parse_lines(ls: Seq<Seq<char>>) -> Result<Seq<RuleView>, (nat, Seq<char>)>
    decreases ls.len(),
{
    if ls.len() == 0 {
        Ok(Seq::empty())
    } else {
        match parse_lines(ls.drop_last()) {
            Err(e) => Err(e),
            Ok(rs) => match line_view(ls.last()) {
                LineView::Skip => Ok(rs),
                LineView::Rule(r) => Ok(rs.push(r)),
                LineView::Fail(reason) => Err((ls.len(), reason)),
            },
        }
    }
}

/// What parsing the bytes of a `_redirects` file yields.
pub open spec fn spec_parse_redirects(bytes: Seq<u8>) -> Result<Seq<RuleView>, ErrorView> {
    if bytes.len() > MAX_REDIRECTS_BYTES {
        Err(ErrorView::TooLarge { size: bytes.len() })
    } else if !vstd::utf8::valid_utf8(bytes) {
        Err(ErrorView::NotText)
    } else {
        match parse_lines(split_on(vstd::utf8::decode_utf8(bytes), seq!['\n'])) {
            Ok(rs) => Ok(rs),
            Err((line, reason)) => Err(ErrorView::InvalidLine { line, reason }),
        }
    }
}

// ---------------------------------------------------------------------------
// Parsing.
// ---------------------------------------------------------------------------

proof fn lemma_digits_value_take(d: Seq<char>, k: int)
    requires
        0 <= k < d.len(),
    ensures
        digits_value(d.take(k + 1)) == digits_value(d.take(k)) * 10 + ((d[k] as u32) - (
        '0' as u32)) as nat,
{
    assert(d.take(k + 1).drop_last() =~= d.take(k));
}

proof fn lemma_digits_value_mono(d: Seq<char>, k: int)
    requires
        0 <= k <= d.len(),
    ensures
        digits_value(d.take(k)) <= digits_value(d),
    decreases d.len(),
{
    if k < d.len() {
        lemma_digits_value_mono(d.drop_last(), k);
        assert(d.drop_last().take(k) =~= d.take(k));
    } else {
        assert(d.take(k) =~= d);
    }
}

/// A status field parsed as `str::parse::<u16>` does.
fn parse_status(t: &[char]) -> (r: Option<u16>)
    ensures
        r == parse_u16(t@),
{
    let start: usize = if t.len() > 0 && t[0] == '+' {
        1
    } else {
        0
    };
    let ghost d = unsigned_digits(t@);
    assert(d =~= t@.subrange(start as int, t@.len() as int));
    if start >= t.len() {
        return None;
    }
    let mut val: u32 = 0;
    let mut i: usize = start;
    while i < t.len()
        invariant
            start <= i <= t@.len(),
            start < t@.len(),
            d == t@.subrange(start as int, t@.len() as int),
            d == unsigned_digits(t@),
            val as nat == digits_value(d.take(i - start)),
            val <= 65535,
            forall|j: int| 0 <= j < i - start ==> is_digit(#[trigger] d[j]),
        decreases t@.len() - i,
    {
        let c = t[i];
        assert(d[i - start] == c);
        if !('0' <= c && c <= '9') {
            assert(!is_digit(d[i - start]));
            assert(!(forall|j: int| 0 <= j < d.len() ==> is_digit(#[trigger] d[j])));
            assert(parse_u16(t@) is None);
            return None;
        }
        let dv = (c as u32) - ('0' as u32);
        proof {
            lemma_digits_value_take(d, i - start);
        }
        assert(((d[i - start] as u32) - ('0' as u32)) as nat == dv as nat);
        if val * 10 + dv > 65535 {
            proof {
                lemma_digits_value_mono(d, i - start + 1);
            }
            assert(digits_value(d) > 65535);
            return None;
        }
        val = val * 10 + dv;
        i += 1;
    }
    assert(d.take(d.len() as int) =~= d);
    Some(val as u16)
}

/// Whether `x` is one of `seen`.
fn contains_piece(seen: &Vec<Vec<char>>, x: &[char]) -> (r: bool)
    ensures
        r == views(seen@).contains(x@),
{
    let mut i: usize = 0;
    while i < seen.len()
        invariant
            i <= seen@.len(),
            forall|j: int| 0 <= j < i ==> views(seen@)[j] != x@,
        decreases seen@.len() - i,
    {
        if crate::text::chars_eq(seen[i].as_slice(), x) {
            assert(views(seen@)[i as int] == x@);
            return true;
        }
        i += 1;
    }
    false
}

/// The first placeholder name `segs` declares twice.
fn first_dup_placeholder(segs: &Vec<Vec<char>>) -> (r: Option<Vec<char>>)
    ensures
        match r {
            Some(n) => dup_placeholder(views(segs@)) == Some(n@),
            None => dup_placeholder(views(segs@)) is None,
        },
{
    let mut seen: Vec<Vec<char>> = Vec::new();
    let mut j: usize = 0;
    while j < segs.len()
        invariant
            j <= segs@.len(),
            views(seen@) == ph_names(views(segs@).take(j as int)),
            dup_placeholder(views(segs@).take(j as int)) is None,
        decreases segs@.len() - j,
    {
        let seg = &segs[j];
        let ghost pre = views(segs@).take(j as int);
        assert(views(segs@).take(j as int + 1).drop_last() =~= pre);
        assert(views(segs@).take(j as int + 1).last() == seg@);
        if seg.len() > 0 && seg[0] == ':' {
            let name = slice_to_vec(seg.as_slice(), 1, seg.len());
            assert(name@ =~= seg@.drop_first());
            if contains_piece(&seen, name.as_slice()) {
                assert(dup_placeholder(views(segs@).take(j as int + 1)) == Some(name@));
                proof {
                    lemma_dup_placeholder_prefix(views(segs@), j as int + 1);
                }
                return Some(name);
            }
            seen.push(name);
            assert(views(seen@) =~= ph_names(pre).push(seg@.drop_first()));
        }
        j += 1;
    }
    assert(views(segs@).take(segs@.len() as int) =~= views(segs@));
    None
}

/// A duplicate found in a prefix is the first duplicate of the whole.
proof fn lemma_dup_placeholder_prefix(segs: Seq<Seq<char>>, k: int)
    requires
        0 <= k <= segs.len(),
        dup_placeholder(segs.take(k)) is Some,
    ensures
        dup_placeholder(segs) == dup_placeholder(segs.take(k)),
    decreases segs.len() - k,
{
    if k < segs.len() {
        assert(segs.take(k + 1).drop_last() =~= segs.take(k));
        lemma_dup_placeholder_prefix(segs, k + 1);
    } else {
        assert(segs.take(k) =~= segs);
    }
}

/// One line's contribution, as computed.
enum LineParse {
    Skip,
    Rule(RedirectRule),
    Fail(Vec<char>),
}

spec fn line_parse_view(l: LineParse) -> LineView {
    match l {
        LineParse::Skip => LineView::Skip,
        LineParse::Rule(r) => LineView::Rule(r@),
        LineParse::Fail(v) => LineView::Fail(v@),
    }
}

fn parse_line(raw: &[char]) -> (r: LineParse)
    ensures
        line_parse_view(r) == line_view(raw@),
{
    let line = trim_vec(raw);
    if line.len() == 0 || line[0] == '#' {
        return LineParse::Skip;
    }
    let f = split_words(line.as_slice());
    let ghost fv = views(f@);
    if f.len() != 2 && f.len() != 3 {
        let mut out: Vec<char> = Vec::new();
        push_str(&mut out, "expected `from to [status]`, got ");
        push_dec(&mut out, f.len() as u64);
        push_str(&mut out, " fields");
        assert(out@ =~= field_count_reason(fv.len()));
        return LineParse::Fail(out);
    }
    assert(fv[0] == f@[0]@ && fv[1] == f@[1]@);
    let mut status: u16 = DEFAULT_STATUS;
    if f.len() == 3 {
        assert(fv[2] == f@[2]@);
        match parse_status(f[2].as_slice()) {
            None => {
                let mut out: Vec<char> = Vec::new();
                push_str(&mut out, "`");
                push_all(&mut out, f[2].as_slice());
                push_str(&mut out, "` is not an http status code");
                assert(out@ =~= not_a_status_reason(fv[2]));
                return LineParse::Fail(out);
            },
            Some(v) => {
                if !(v == 200 || v == 301 || v == 302 || v == 303 || v == 307 || v == 308 || v
                    == 404 || v == 410 || v == 451) {
                    let mut out: Vec<char> = Vec::new();
                    push_str(&mut out, "status ");
                    push_dec(&mut out, v as u64);
                    push_str(
                        &mut out,
                        " is not one of [200, 301, 302, 303, 307, 308, 404, 410, 451]",
                    );
                    assert(out@ =~= status_not_allowed_reason(v));
                    return LineParse::Fail(out);
                }
                status = v;
            },
        }
    }
    let from = &f[0];
    if !(from.len() > 0 && from[0] == '/') {
        let mut out: Vec<char> = Vec::new();
        push_str(&mut out, "`from` must be a root-relative path, got `");
        push_all(&mut out, from.as_slice());
        push_str(&mut out, "`");
        assert(out@ =~= relative_from_reason(fv[0]));
        return LineParse::Fail(out);
    }
    let slash = vec!['/'];
    let segs = split_chars(from.as_slice(), slash.as_slice());
    assert(slash@ =~= seq!['/']);
    match first_dup_placeholder(&segs) {
        Some(name) => {
            let mut out: Vec<char> = Vec::new();
            push_str(&mut out, "placeholder `:");
            push_all(&mut out, name.as_slice());
            push_str(&mut out, "` is used more than once in `from`");
            assert(out@ =~= dup_placeholder_reason(name@));
            return LineParse::Fail(out);
        },
        None => {},
    }
    let rule = RedirectRule {
        from: string_of(from.as_slice()),
        to: string_of(f[1].as_slice()),
        status,
    };
    LineParse::Rule(rule)
}

/// Parse the bytes of a `_redirects` file into its rules, in file order.
///
/// One `from to [status]` per line (lines split at `\n`, so a `\r\n` ending
/// is trimmed away with the other surrounding whitespace); blank lines and
/// lines starting with `#` are skipped; an omitted status is 301. Anything
/// else is a distinct error naming the first bad line, never a dropped rule.
pub fn parse_redirects(bytes: &[u8]) -> (r: Result<Vec<RedirectRule>, RedirectsError>)
    ensures
        match r {
            Ok(rules) => spec_parse_redirects(bytes@) == Ok::<Seq<RuleView>, ErrorView>(
                rules_view(rules@),
            ),
            Err(e) => spec_parse_redirects(bytes@) == Err::<Seq<RuleView>, ErrorView>(e@),
        },
{
    if bytes.len() > MAX_REDIRECTS_BYTES {
        return Err(RedirectsError::TooLarge { size: bytes.len() });
    }
    let text = match str_from_utf8(bytes) {
        Some(t) => t,
        None => {
            return Err(RedirectsError::NotText);
        },
    };
    let chars = chars_of(text);
    let nl = vec!['\n'];
    assert(nl@ =~= seq!['\n']);
    let lines = split_chars(chars.as_slice(), nl.as_slice());
    let ghost ls = views(lines@);
    let mut rules: Vec<RedirectRule> = Vec::new();
    let mut idx: usize = 0;
    assert(ls.take(0) =~= Seq::<Seq<char>>::empty());
    assert(rules_view(rules@) =~= Seq::<RuleView>::empty());
    while idx < lines.len()
        invariant
            idx <= lines@.len(),
            bytes@.len() <= MAX_REDIRECTS_BYTES,
            vstd::utf8::valid_utf8(bytes@),
            ls == views(lines@),
            ls == split_on(vstd::utf8::decode_utf8(bytes@), seq!['\n']),
            parse_lines(ls.take(idx as int)) == Ok::<Seq<RuleView>, (nat, Seq<char>)>(
                rules_view(rules@),
            ),
        decreases lines@.len() - idx,
    {
        assert(ls.take(idx as int + 1).drop_last() =~= ls.take(idx as int));
        assert(ls.take(idx as int + 1).last() == lines@[idx as int]@);
        match parse_line(lines[idx].as_slice()) {
            LineParse::Skip => {},
            LineParse::Rule(rule) => {
                let ghost before = rules@;
                rules.push(rule);
                assert(rules_view(rules@) =~= rules_view(before).push(rule@));
            },
            LineParse::Fail(reason) => {
                assert(parse_lines(ls.take(idx as int + 1)) == Err::<Seq<RuleView>, (nat, Seq<char>)>(
                    ((idx + 1) as nat, reason@),
                ));
                proof {
                    lemma_parse_lines_err_prefix(ls, idx as int + 1);
                }
                return Err(
                    RedirectsError::InvalidLine { line: idx + 1, reason: string_of(reason.as_slice()) },
                );
            },
        }
        idx += 1;
    }
    assert(ls.take(ls.len() as int) =~= ls);
    Ok(rules)
}

/// An error in a prefix of the lines is the error of all of them.
proof fn lemma_parse_lines_err_prefix(ls: Seq<Seq<char>>, k: int)
    requires
        0 <= k <= ls.len(),
        parse_lines(ls.take(k)) is Err,
    ensures
        parse_lines(ls) == parse_lines(ls.take(k)),
    decreases ls.len() - k,
{
    if k < ls.len() {
        assert(ls.take(k + 1).drop_last() =~= ls.take(k));
        lemma_parse_lines_err_prefix(ls, k + 1);
    } else {
        assert(ls.take(k) =~= ls);
    }
}

// ---------------------------------------------------------------------------
// Matching: the model.
// ---------------------------------------------------------------------------

/// The non-empty `/`-separated segments of a path (`/a/b/` is `a`, `b`).
pub open spec fn path_segments(path: Seq<char>) -> Seq<Seq<char>> {
    nonempty_pieces(split_on(path, seq!['/']))
}

/// The value captured for placeholder `k`. Captures are kept as a list of
/// pairs in capture order, and a name captured twice reads as its last
/// capture.
pub open spec fn lookup(caps: Seq<(Seq<char>, Seq<char>)>, k: Seq<char>) -> Option<Seq<char>>
    decreases caps.len(),
{
    if caps.len() == 0 {
        None
    } else if caps.last().0 == k {
        Some(caps.last().1)
    } else {
        lookup(caps.drop_last(), k)
    }
}

/// Whether a pattern segment matches a request segment: a placeholder matches
/// any one segment, a literal only itself.
pub open spec fn seg_matches(pat: Seq<char>, seg: Seq<char>) -> bool {
    ph_name(pat) is Some || pat == seg
}

/// The placeholders `fixed` captures from the request segments, in order.
pub open spec fn captures_of(fixed: Seq<Seq<char>>, req: Seq<Seq<char>>) -> Seq<
    (Seq<char>, Seq<char>),
>
    decreases fixed.len(),
{
    if fixed.len() == 0 {
        Seq::empty()
    } else {
        let prev = captures_of(fixed.drop_last(), req);
        match ph_name(fixed.last()) {
            Some(n) => prev.push((n, req[fixed.len() - 1])),
            None => prev,
        }
    }
}

/// Segments joined with `/`.
pub open spec fn join_slash(ss: Seq<Seq<char>>) -> Seq<char>
    decreases ss.len(),
{
    if ss.len() == 0 {
        Seq::empty()
    } else if ss.len() == 1 {
        ss[0]
    } else {
        join_slash(ss.drop_last()) + seq!['/'] + ss.last()
    }
}

/// The capture name the trailing catch-all fills.
pub open spec fn splat_key() -> Seq<char> {
    seq!['s', 'p', 'l', 'a', 't']
}

/// Whether a pattern ends in the `*` catch-all.
pub open spec fn is_splat(pattern: Seq<Seq<char>>) -> bool {
    pattern.len() > 0 && pattern.last() == seq!['*']
}

/// A pattern without its trailing catch-all.
pub open spec fn fixed_part(pattern: Seq<Seq<char>>) -> Seq<Seq<char>> {
    if is_splat(pattern) {
        pattern.drop_last()
    } else {
        pattern
    }
}

/// A rule's `from` matched against the request segments: the captures on a
/// match. Literal segments must be equal, a `:name` segment matches exactly
/// one segment, and a trailing `*` takes whatever remains (possibly nothing)
/// as `splat`.
pub open spec fn spec_match_from(from: Seq<char>, req: Seq<Seq<char>>) -> Option<
    Seq<(Seq<char>, Seq<char>)>,
> {
    let pattern = path_segments(from);
    let splat = is_splat(pattern);
    let fixed = fixed_part(pattern);
    if (splat && req.len() < fixed.len()) || (!splat && req.len() != fixed.len()) {
        None
    } else if exists|i: int| 0 <= i < fixed.len() && !seg_matches(#[trigger] fixed[i], req[i]) {
        None
    } else {
        let caps = captures_of(fixed, req);
        Some(
            if splat {
                caps.push((splat_key(), join_slash(req.skip(fixed.len() as int))))
            } else {
                caps
            },
        )
    }
}

/// A character that may appear in a placeholder name.
pub open spec fn is_name_char(c: char) -> bool {
    is_ascii_alnum(c) || c == '_'
}

/// The end of the run of name characters starting at `i`.
pub open spec fn name_end(s: Seq<char>, i: int) -> int
    decreases s.len() - i,
{
    if i < 0 || i >= s.len() || !is_name_char(s[i]) {
        i
    } else {
        name_end(s, i + 1)
    }
}

pub proof fn lemma_name_end(s: Seq<char>, i: int)
    requires
        0 <= i <= s.len(),
    ensures
        i <= name_end(s, i) <= s.len(),
        forall|j: int| i <= j < name_end(s, i) ==> is_name_char(#[trigger] s[j]),
        name_end(s, i) < s.len() ==> !is_name_char(s[name_end(s, i)]),
    decreases s.len() - i,
{
    if i < s.len() && is_name_char(s[i]) {
        lemma_name_end(s, i + 1);
    }
}

/// `to` from position `pos` on, with every `:name` that has a capture
/// replaced by it and every other `:name` left as written.
pub open spec fn inject_from(to: Seq<char>, caps: Seq<(Seq<char>, Seq<char>)>, pos: int) -> Seq<
    char,
>
    decreases to.len() - pos,
{
    if pos < 0 || pos > to.len() {
        Seq::empty()
    } else {
        let k = find_any_from(to, seq![':'], pos);
        if k == -1 {
            to.subrange(pos, to.len() as int)
        } else {
            proof {
                lemma_find_any_from(to, seq![':'], pos);
                lemma_name_end(to, k + 1);
            }
            let e = name_end(to, k + 1);
            let name = to.subrange(k + 1, e);
            let rep = if name.len() > 0 && lookup(caps, name) is Some {
                lookup(caps, name)->0
            } else {
                seq![':'] + name
            };
            to.subrange(pos, k) + rep + inject_from(to, caps, e)
        }
    }
}

/// A rule's target with its placeholders injected.
pub open spec fn inject(to: Seq<char>, caps: Seq<(Seq<char>, Seq<char>)>) -> Seq<char> {
    inject_from(to, caps, 0)
}

/// The segments of a path with `.` and empty segments dropped and each `..`
/// removing the segment before it; `None` when a `..` would climb above the
/// root.
pub open spec fn normalize(segs: Seq<Seq<char>>) -> Option<Seq<Seq<char>>>
    decreases segs.len(),
{
    if segs.len() == 0 {
        Some(Seq::empty())
    } else {
        match normalize(segs.drop_last()) {
            None => None,
            Some(st) => {
                let seg = segs.last();
                if seg.len() == 0 || seg == seq!['.'] {
                    Some(st)
                } else if seg == seq!['.', '.'] {
                    if st.len() == 0 {
                        None
                    } else {
                        Some(st.drop_last())
                    }
                } else {
                    Some(st.push(seg))
                }
            },
        }
    }
}

/// The in-site path an expanded target names, or `None` when it leaves the
/// root: a scheme, a `//` authority, a path that is not root-relative, or a
/// `..` above the root. The query string and fragment are dropped.
pub open spec fn spec_within_root(to: Seq<char>) -> Option<Seq<char>> {
    if contains_sub(to, "://"@) || (to.len() >= 2 && to[0] == '/' && to[1] == '/') || !(to.len()
        > 0 && to[0] == '/') {
        None
    } else {
        match normalize(split_on(before_any(to, seq!['?', '#']), seq!['/'])) {
            None => None,
            Some(st) => Some(seq!['/'] + join_slash(st)),
        }
    }
}

/// What a matched rule asks for, given its captures.
pub open spec fn spec_resolve_target(rule: RuleView, caps: Seq<(Seq<char>, Seq<char>)>) -> Result<
    ActionView,
    ErrorView,
> {
    let expanded = inject(rule.to, caps);
    match spec_within_root(expanded) {
        None => Err(ErrorView::OffRootTarget { to: expanded }),
        Some(target) => if served_status(rule.status) {
            Ok(ActionView::Serve { path: target, status: rule.status })
        } else {
            Err(ErrorView::RedirectNotSupported { status: rule.status, to: expanded })
        },
    }
}

/// The outcome named by the first rule at or after `i` that matches.
pub open spec fn first_match_from(rules: Seq<RuleView>, req: Seq<Seq<char>>, i: int) -> Option<
    Result<ActionView, ErrorView>,
>
    decreases rules.len() - i,
{
    if i < 0 || i >= rules.len() {
        None
    } else {
        match spec_match_from(rules[i].from, req) {
            Some(caps) => Some(spec_resolve_target(rules[i], caps)),
            None => first_match_from(rules, req, i + 1),
        }
    }
}

/// What a not-found `path` resolves to under `rules`.
pub open spec fn spec_match_fallback(rules: Seq<RuleView>, path: Seq<char>) -> Option<
    Result<ActionView, ErrorView>,
> {
    first_match_from(rules, path_segments(path), 0)
}

// ---------------------------------------------------------------------------
// Matching: the code.
// ---------------------------------------------------------------------------

/// Captured placeholders as plain sequences.
pub open spec fn caps_view(c: Seq<(Vec<char>, Vec<char>)>) -> Seq<(Seq<char>, Seq<char>)> {
    c.map_values(|p: (Vec<char>, Vec<char>)| (p.0@, p.1@))
}

fn copy_chars(v: &[char]) -> (r: Vec<char>)
    ensures
        r@ == v@,
{
    let r = slice_to_vec(v, 0, v.len());
    assert(r@ =~= v@);
    r
}

/// The non-empty `/`-separated segments of `path`.
fn segments_of(path: &[char]) -> (r: Vec<Vec<char>>)
    ensures
        views(r@) == path_segments(path@),
{
    let slash = vec!['/'];
    assert(slash@ =~= seq!['/']);
    let parts = split_chars(path, slash.as_slice());
    drop_empty(&parts)
}

/// The last capture named `k`.
fn lookup_capture<'a>(caps: &'a Vec<(Vec<char>, Vec<char>)>, k: &[char]) -> (r: Option<
    &'a Vec<char>,
>)
    ensures
        match r {
            Some(v) => lookup(caps_view(caps@), k@) == Some(v@),
            None => lookup(caps_view(caps@), k@) is None,
        },
{
    let mut i: usize = caps.len();
    assert(caps_view(caps@).take(caps@.len() as int) =~= caps_view(caps@));
    while i > 0
        invariant
            i <= caps@.len(),
            lookup(caps_view(caps@), k@) == lookup(caps_view(caps@).take(i as int), k@),
        decreases i,
    {
        let ghost pre = caps_view(caps@).take(i as int);
        assert(pre.drop_last() =~= caps_view(caps@).take(i - 1));
        assert(pre.last() == (caps@[i - 1].0@, caps@[i - 1].1@));
        if crate::text::chars_eq(caps[i - 1].0.as_slice(), k) {
            return Some(&caps[i - 1].1);
        }
        i -= 1;
    }
    None
}

/// `req[from..]` joined with `/`.
fn join_from(req: &Vec<Vec<char>>, from: usize) -> (r: Vec<char>)
    requires
        from <= req@.len(),
    ensures
        r@ == join_slash(views(req@).skip(from as int)),
{
    let mut out: Vec<char> = Vec::new();
    let mut k: usize = from;
    assert(views(req@).subrange(from as int, from as int) =~= Seq::<Seq<char>>::empty());
    while k < req.len()
        invariant
            from <= k <= req@.len(),
            out@ == join_slash(views(req@).subrange(from as int, k as int)),
        decreases req@.len() - k,
    {
        let ghost pre = views(req@).subrange(from as int, k as int);
        let ghost next = views(req@).subrange(from as int, k as int + 1);
        assert(next.drop_last() =~= pre);
        assert(next.last() == req@[k as int]@);
        if k > from {
            out.push('/');
        }
        push_all(&mut out, req[k].as_slice());
        proof {
            if k == from {
                assert(next.len() == 1);
                assert(out@ =~= next[0]);
            } else {
                assert(out@ =~= join_slash(pre) + seq!['/'] + next.last());
            }
        }
        k += 1;
    }
    assert(views(req@).subrange(from as int, req@.len() as int) =~= views(req@).skip(from as int));
    out
}

/// A rule's `from` matched against the request segments.
#[verifier::loop_isolation(false)]
fn match_from(from: &[char], req: &Vec<Vec<char>>) -> (r: Option<Vec<(Vec<char>, Vec<char>)>>)
    ensures
        match r {
            Some(c) => spec_match_from(from@, views(req@)) == Some(caps_view(c@)),
            None => spec_match_from(from@, views(req@)) is None,
        },
{
    let pattern = segments_of(from);
    let ghost pv = views(pattern@);
    let star = vec!['*'];
    assert(star@ =~= seq!['*']);
    let splat = pattern.len() > 0 && crate::text::chars_eq(
        pattern[pattern.len() - 1].as_slice(),
        star.as_slice(),
    );
    proof {
        if pattern@.len() > 0 {
            assert(pv.last() == pattern@[pattern@.len() - 1]@);
        }
    }
    assert(splat == is_splat(pv));
    let fixed_len: usize = if splat {
        pattern.len() - 1
    } else {
        pattern.len()
    };
    let ghost fixed = fixed_part(pv);
    assert(fixed.len() == fixed_len);
    if (splat && req.len() < fixed_len) || (!splat && req.len() != fixed_len) {
        return None;
    }
    let mut caps: Vec<(Vec<char>, Vec<char>)> = Vec::new();
    let mut i: usize = 0;
    assert(fixed.take(0) =~= Seq::<Seq<char>>::empty());
    assert(caps_view(caps@) =~= Seq::<(Seq<char>, Seq<char>)>::empty());
    while i < fixed_len
        invariant
            i <= fixed_len,
            fixed_len <= pattern@.len(),
            pv.len() == pattern@.len(),
            fixed_len == fixed.len(),
            fixed_len <= req@.len(),
            pv == views(pattern@),
            fixed == fixed_part(pv),
            forall|j: int| 0 <= j < i ==> seg_matches(#[trigger] fixed[j], views(req@)[j]),
            caps_view(caps@) == captures_of(fixed.take(i as int), views(req@)),
        decreases fixed_len - i,
    {
        let pat = &pattern[i];
        let seg = &req[i];
        assert(fixed[i as int] == pat@);
        assert(views(req@)[i as int] == seg@);
        let ghost before = caps@;
        assert(fixed.take(i as int + 1).drop_last() =~= fixed.take(i as int));
        if pat.len() > 0 && pat[0] == ':' {
            let name = slice_to_vec(pat.as_slice(), 1, pat.len());
            assert(name@ =~= pat@.drop_first());
            let value = copy_chars(seg.as_slice());
            caps.push((name, value));
            assert(caps_view(caps@) =~= caps_view(before).push((name@, value@)));
        } else {
            if !crate::text::chars_eq(pat.as_slice(), seg.as_slice()) {
                assert(!seg_matches(fixed[i as int], views(req@)[i as int]));
                assert(exists|j: int|
                    0 <= j < fixed.len() && !seg_matches(#[trigger] fixed[j], views(req@)[j]));
                assert(pv == path_segments(from@));
                assert(is_splat(pv) == splat);
                assert(views(req@).len() == req@.len());
                assert(!((splat && views(req@).len() < fixed.len()) || (!splat && views(req@).len()
                    != fixed.len())));
                assert(spec_match_from(from@, views(req@)) is None);
                return None;
            }
        }
        i += 1;
    }
    assert(fixed.take(fixed_len as int) =~= fixed);
    assert(!exists|j: int| 0 <= j < fixed.len() && !seg_matches(#[trigger] fixed[j], views(req@)[j]));
    if splat {
        let rest = join_from(req, fixed_len);
        let key = vec!['s', 'p', 'l', 'a', 't'];
        let ghost before = caps@;
        caps.push((key, rest));
        assert(caps_view(caps@) =~= caps_view(before).push((splat_key(), rest@)));
    }
    Some(caps)
}

/// Extends a prefix of a `normalize` walk by one segment.
proof fn lemma_normalize_prefix_none(segs: Seq<Seq<char>>, k: int)
    requires
        0 <= k <= segs.len(),
        normalize(segs.take(k)) is None,
    ensures
        normalize(segs) is None,
    decreases segs.len() - k,
{
    if k < segs.len() {
        assert(segs.take(k + 1).drop_last() =~= segs.take(k));
        lemma_normalize_prefix_none(segs, k + 1);
    } else {
        assert(segs.take(k) =~= segs);
    }
}

/// The in-site path an expanded target names, or `None` when it leaves the
/// root.
#[verifier::loop_isolation(false)]
fn within_root_path(to: &[char]) -> (r: Option<Vec<char>>)
    ensures
        match r {
            Some(p) => spec_within_root(to@) == Some(p@),
            None => spec_within_root(to@) is None,
        },
{
    let sep = vec![':', '/', '/'];
    assert(sep@ =~= "://"@) by {
        reveal_strlit("://");
    }
    let dslash = vec!['/', '/'];
    if contains_chars(to, sep.as_slice()) || starts_with(to, dslash.as_slice()) || !(to.len() > 0
        && to[0] == '/') {
        proof {
            if to@.len() >= 2 && to@[0] == '/' && to@[1] == '/' {
                assert(to@.subrange(0, 2) =~= dslash@);
            }
        }
        return None;
    }
    assert(!(to@.len() >= 2 && to@[0] == '/' && to@[1] == '/')) by {
        if to@.len() >= 2 && to@[0] == '/' && to@[1] == '/' {
            assert(to@.subrange(0, 2) =~= dslash@);
        }
    }
    let qf = vec!['?', '#'];
    assert(qf@ =~= seq!['?', '#']);
    let path = prefix_before_any(to, qf.as_slice());
    let slash = vec!['/'];
    assert(slash@ =~= seq!['/']);
    let segs = split_chars(path.as_slice(), slash.as_slice());
    let ghost sv = views(segs@);
    let mut stack: Vec<Vec<char>> = Vec::new();
    let mut i: usize = 0;
    assert(sv.take(0) =~= Seq::<Seq<char>>::empty());
    assert(views(stack@) =~= Seq::<Seq<char>>::empty());
    while i < segs.len()
        invariant
            i <= segs@.len(),
            sv == views(segs@),
            normalize(sv.take(i as int)) == Some(views(stack@)),
        decreases segs@.len() - i,
    {
        let seg = &segs[i];
        assert(sv.take(i as int + 1).drop_last() =~= sv.take(i as int));
        assert(sv.take(i as int + 1).last() == seg@);
        let ghost before = stack@;
        if seg.len() == 0 || (seg.len() == 1 && seg[0] == '.') {
            assert(seg@.len() == 0 || seg@ =~= seq!['.']);
        } else if seg.len() == 2 && seg[0] == '.' && seg[1] == '.' {
            assert(seg@ =~= seq!['.', '.']);
            if stack.len() == 0 {
                proof {
                    lemma_normalize_prefix_none(sv, i as int + 1);
                }
                return None;
            }
            stack.pop();
            assert(views(stack@) =~= views(before).drop_last());
        } else {
            assert(seg@ != seq!['.'] && seg@ != seq!['.', '.'] && seg@.len() > 0) by {
                if seg@ =~= seq!['.'] {
                    assert(seg@.len() == 1 && seg@[0] == '.');
                }
                if seg@ =~= seq!['.', '.'] {
                    assert(seg@.len() == 2 && seg@[0] == '.' && seg@[1] == '.');
                }
            }
            let copy = copy_chars(seg.as_slice());
            stack.push(copy);
            assert(views(stack@) =~= views(before).push(seg@));
        }
        i += 1;
    }
    assert(sv.take(sv.len() as int) =~= sv);
    let mut out: Vec<char> = vec!['/'];
    let joined = join_from(&stack, 0);
    assert(views(stack@).skip(0) =~= views(stack@));
    push_all(&mut out, joined.as_slice());
    assert(out@ =~= seq!['/'] + join_slash(views(stack@)));
    Some(out)
}

fn is_name_char_exec(c: char) -> (r: bool)
    ensures
        r == is_name_char(c),
{
    ('0' <= c && c <= '9') || ('a' <= c && c <= 'z') || ('A' <= c && c <= 'Z') || c == '_'
}

/// A rule's target with `:name` placeholders (including `:splat`) replaced by
/// their captures; a `:name` with no capture is left as written.
#[verifier::loop_isolation(false)]
fn inject_placeholders(to: &[char], caps: &Vec<(Vec<char>, Vec<char>)>) -> (r: Vec<char>)
    ensures
        r@ == inject(to@, caps_view(caps@)),
{
    let ghost cv = caps_view(caps@);
    let colon = vec![':'];
    assert(colon@ =~= seq![':']);
    let mut out: Vec<char> = Vec::new();
    let mut pos: usize = 0;
    loop
        invariant
            pos <= to@.len(),
            out@ + inject_from(to@, cv, pos as int) == inject_from(to@, cv, 0),
        decreases to@.len() - pos,
    {
        match find_any(to, colon.as_slice(), pos) {
            None => {
                let tail = slice_to_vec(to, pos, to.len());
                push_all(&mut out, tail.as_slice());
                assert(out@ =~= inject_from(to@, cv, 0));
                return out;
            },
            Some(k) => {
                proof {
                    lemma_find_any_from(to@, seq![':'], pos as int);
                }
                assert(colon@ == seq![':']);
                assert(k as int == find_any_from(to@, seq![':'], pos as int));
                assert(k < to@.len());
                let n = to.len();
                assert(k < n);
                proof {
                    lemma_name_end(to@, k + 1);
                }
                let mut e: usize = k + 1;
                while e < to.len() && is_name_char_exec(to[e])
                    invariant
                        k + 1 <= e <= to@.len(),
                        name_end(to@, k + 1) == name_end(to@, e as int),
                    decreases to@.len() - e,
                {
                    e += 1;
                }
                assert(name_end(to@, k + 1) == e);
                let ghost before = out@;
                let head = slice_to_vec(to, pos, k);
                push_all(&mut out, head.as_slice());
                let name = slice_to_vec(to, k + 1, e);
                let ghost rep = if name@.len() > 0 && lookup(cv, name@) is Some {
                    lookup(cv, name@)->0
                } else {
                    seq![':'] + name@
                };
                let found = lookup_capture(caps, name.as_slice());
                if name.len() > 0 && found.is_some() {
                    let v = found.unwrap();
                    push_all(&mut out, v.as_slice());
                } else {
                    out.push(':');
                    push_all(&mut out, name.as_slice());
                }
                assert(out@ =~= before + to@.subrange(pos as int, k as int) + rep);
                assert(inject_from(to@, cv, pos as int) == to@.subrange(pos as int, k as int) + rep
                    + inject_from(to@, cv, e as int));
                pos = e;
            },
        }
    }
}

/// The outcome of a result as plain values.
pub open spec fn outcome_view(r: Result<FallbackAction, RedirectsError>) -> Result<
    ActionView,
    ErrorView,
> {
    match r {
        Ok(a) => Ok(a@),
        Err(e) => Err(e@),
    }
}

/// Expand and check a matched rule's target.
fn resolve_target(rule: &RedirectRule, caps: &Vec<(Vec<char>, Vec<char>)>) -> (r: Result<
    FallbackAction,
    RedirectsError,
>)
    ensures
        outcome_view(r) == spec_resolve_target(rule@, caps_view(caps@)),
{
    let to = chars_of(rule.to.as_str());
    let expanded = inject_placeholders(to.as_slice(), caps);
    match within_root_path(expanded.as_slice()) {
        None => Err(RedirectsError::OffRootTarget { to: string_of(expanded.as_slice()) }),
        Some(target) => {
            let st = rule.status;
            if st == 200 || st == 404 || st == 410 || st == 451 {
                Ok(FallbackAction::Serve { path: string_of(target.as_slice()), status: st })
            } else {
                Err(
                    RedirectsError::RedirectNotSupported {
                        status: st,
                        to: string_of(expanded.as_slice()),
                    },
                )
            }
        },
    }
}

/// Decide what a not-found `path` resolves to under `rules`: the outcome the
/// first matching rule names, or `None` when no rule matches.
///
/// Rules are tried top to bottom and the first match wins. The matched rule's
/// target is expanded, its query string dropped, and checked to stay inside
/// the root; a target that leaves the root, or a matching 3xx rule, is an
/// error rather than a fall-through to a later rule.
pub fn match_fallback(rules: &[RedirectRule], path: &str) -> (r: Option<
    Result<FallbackAction, RedirectsError>,
>)
    ensures
        match r {
            None => spec_match_fallback(rules_view(rules@), path@) is None,
            Some(x) => spec_match_fallback(rules_view(rules@), path@) == Some(outcome_view(x)),
        },
{
    let ghost rv = rules_view(rules@);
    let pchars = chars_of(path);
    let req = segments_of(pchars.as_slice());
    let mut i: usize = 0;
    while i < rules.len()
        invariant
            i <= rules@.len(),
            rv == rules_view(rules@),
            views(req@) == path_segments(path@),
            first_match_from(rv, views(req@), 0) == first_match_from(rv, views(req@), i as int),
        decreases rules@.len() - i,
    {
        let rule = &rules[i];
        assert(rv[i as int] == rule@);
        let from = chars_of(rule.from.as_str());
        match match_from(from.as_slice(), &req) {
            Some(caps) => {
                return Some(resolve_target(rule, &caps));
            },
            None => {},
        }
        i += 1;
    }
    None
}

// ---------------------------------------------------------------------------
// Laws.
// ---------------------------------------------------------------------------

/// A rule the parser can produce: a root-relative `from`, an allowed status,
/// and no placeholder named twice in `from`.
pub open spec fn well_formed_rule(r: RuleView) -> bool {
    &&& r.from.len() > 0
    &&& r.from[0] == '/'
    &&& allowed_status(r.status)
    &&& dup_placeholder(split_on(r.from, seq!['/'])) is None
}

proof fn lemma_parse_lines_well_formed(ls: Seq<Seq<char>>)
    ensures
        parse_lines(ls) matches Ok(rs) ==> forall|i: int|
            0 <= i < rs.len() ==> well_formed_rule(#[trigger] rs[i]),
    decreases ls.len(),
{
    if ls.len() > 0 {
        lemma_parse_lines_well_formed(ls.drop_last());
    }
}

/// Every rule a `_redirects` file parses into has a root-relative `from`, a
/// status the convention allows, and no placeholder declared twice in `from`.
pub proof fn law_parsed_rules_are_well_formed(bytes: Seq<u8>)
    ensures
        spec_parse_redirects(bytes) matches Ok(rs) ==> forall|i: int|
            0 <= i < rs.len() ==> well_formed_rule(#[trigger] rs[i]),
{
    if bytes.len() <= MAX_REDIRECTS_BYTES && vstd::utf8::valid_utf8(bytes) {
        lemma_parse_lines_well_formed(
            split_on(vstd::utf8::decode_utf8(bytes), seq!['\n']),
        );
    }
}

/// A segment of a normalised in-site path: not empty, not `.` or `..`, and
/// holding no `/`, `?` or `#`.
pub open spec fn clean_segment(s: Seq<char>) -> bool {
    s.len() > 0 && s != seq!['.'] && s != seq!['.', '.'] && !s.contains('/') && !s.contains('?')
        && !s.contains('#')
}

/// A root-relative path made only of clean segments: no `.`, no `..`, no
/// empty segment, and so nothing that can climb out of the root; and no
/// query string or fragment.
pub open spec fn under_root(p: Seq<char>) -> bool {
    exists|st: Seq<Seq<char>>|
        (forall|i: int| 0 <= i < st.len() ==> clean_segment(#[trigger] st[i])) && p == seq!['/']
            + join_slash(st)
}

proof fn lemma_split_on_pieces(s: Seq<char>, seps: Seq<char>)
    ensures
        forall|i: int, j: int|
            0 <= i < split_on(s, seps).len() && 0 <= j < split_on(s, seps)[i].len()
                ==> !seps.contains(#[trigger] split_on(s, seps)[i][j]),
    decreases s.len(),
{
    if s.len() > 0 {
        lemma_split_on_pieces(s.drop_last(), seps);
        lemma_split_on_len(s.drop_last(), seps);
    }
}

proof fn lemma_pieces_avoid(s: Seq<char>, seps: Seq<char>, c: char)
    requires
        !s.contains(c),
    ensures
        forall|i: int, j: int|
            0 <= i < split_on(s, seps).len() && 0 <= j < split_on(s, seps)[i].len()
                ==> #[trigger] split_on(s, seps)[i][j] != c,
    decreases s.len(),
{
    if s.len() > 0 {
        assert(!s.drop_last().contains(c)) by {
            if s.drop_last().contains(c) {
                let k = choose|k: int| 0 <= k < s.drop_last().len() && s.drop_last()[k] == c;
                assert(s[k] == c);
            }
        }
        assert(s.last() != c) by {
            assert(s[s.len() - 1] == s.last());
        }
        lemma_pieces_avoid(s.drop_last(), seps, c);
        lemma_split_on_len(s.drop_last(), seps);
    }
}

proof fn lemma_before_any_avoids(s: Seq<char>, seps: Seq<char>, c: char)
    requires
        seps.contains(c),
    ensures
        !before_any(s, seps).contains(c),
{
    lemma_find_any_from(s, seps, 0);
    let b = before_any(s, seps);
    if b.contains(c) {
        let k = choose|k: int| 0 <= k < b.len() && b[k] == c;
        assert(b[k] == s[k]);
    }
}

proof fn lemma_normalize_clean(segs: Seq<Seq<char>>)
    requires
        forall|i: int| 0 <= i < segs.len() ==> !(#[trigger] segs[i]).contains('/'),
        forall|i: int| 0 <= i < segs.len() ==> !(#[trigger] segs[i]).contains('?'),
        forall|i: int| 0 <= i < segs.len() ==> !(#[trigger] segs[i]).contains('#'),
    ensures
        normalize(segs) matches Some(st) ==> forall|i: int|
            0 <= i < st.len() ==> clean_segment(#[trigger] st[i]),
    decreases segs.len(),
{
    if segs.len() > 0 {
        lemma_normalize_clean(segs.drop_last());
        assert(!segs.last().contains('/'));
        assert(!segs.last().contains('?'));
        assert(!segs.last().contains('#'));
    }
}

proof fn lemma_within_root_under_root(to: Seq<char>)
    ensures
        spec_within_root(to) matches Some(p) ==> under_root(p),
{
    if let Some(p) = spec_within_root(to) {
        let segs = split_on(before_any(to, seq!['?', '#']), seq!['/']);
        lemma_split_on_pieces(before_any(to, seq!['?', '#']), seq!['/']);
        assert forall|i: int| 0 <= i < segs.len() implies !(#[trigger] segs[i]).contains('/') by {
            if segs[i].contains('/') {
                let j = choose|j: int| 0 <= j < segs[i].len() && segs[i][j] == '/';
                assert(seq!['/'].contains(segs[i][j])) by {
                    assert(seq!['/'][0] == '/');
                }
            }
        }
        let head = before_any(to, seq!['?', '#']);
        assert(seq!['?', '#'].contains('?') && seq!['?', '#'].contains('#')) by {
            assert(seq!['?', '#'][0] == '?');
            assert(seq!['?', '#'][1] == '#');
        }
        lemma_before_any_avoids(to, seq!['?', '#'], '?');
        lemma_before_any_avoids(to, seq!['?', '#'], '#');
        lemma_pieces_avoid(head, seq!['/'], '?');
        lemma_pieces_avoid(head, seq!['/'], '#');
        assert forall|i: int| 0 <= i < segs.len() implies !(#[trigger] segs[i]).contains('?') by {
            if segs[i].contains('?') {
                let j = choose|j: int| 0 <= j < segs[i].len() && segs[i][j] == '?';
            }
        }
        assert forall|i: int| 0 <= i < segs.len() implies !(#[trigger] segs[i]).contains('#') by {
            if segs[i].contains('#') {
                let j = choose|j: int| 0 <= j < segs[i].len() && segs[i][j] == '#';
            }
        }
        lemma_normalize_clean(segs);
        let st = normalize(segs)->0;
        assert(p == seq!['/'] + join_slash(st));
    }
}

proof fn lemma_first_match_under_root(rules: Seq<RuleView>, req: Seq<Seq<char>>, i: int)
    ensures
        first_match_from(rules, req, i) matches Some(Ok(ActionView::Serve { path, status }))
            ==> served_status(status) && under_root(path),
    decreases rules.len() - i,
{
    if 0 <= i < rules.len() {
        match spec_match_from(rules[i].from, req) {
            Some(caps) => {
                lemma_within_root_under_root(inject(rules[i].to, caps));
            },
            None => {
                lemma_first_match_under_root(rules, req, i + 1);
            },
        }
    }
}

/// Whatever rules a site ships, a not-found path is only ever served from a
/// root-relative path made of clean segments (no `.`, `..` or empty segment,
/// no query string or fragment),
/// and only with a status that is served rather than navigated (200, 404,
/// 410, 451).
pub proof fn law_served_paths_stay_under_the_root(rules: Seq<RuleView>, path: Seq<char>)
    ensures
        spec_match_fallback(rules, path) matches Some(Ok(ActionView::Serve { path: p, status }))
            ==> served_status(status) && under_root(p),
{
    lemma_first_match_under_root(rules, path_segments(path), 0);
}

/// Clean segments joined with `/` hold no `?` or `#`, never two `/` in a
/// row, and neither begin nor end with `/`.
#[verifier::spinoff_prover]
#[verifier::rlimit(40)]
proof fn lemma_join_clean(st: Seq<Seq<char>>)
    requires
        forall|i: int| 0 <= i < st.len() ==> clean_segment(#[trigger] st[i]),
    ensures
        forall|k: int| 0 <= k < join_slash(st).len() ==> #[trigger] join_slash(st)[k] != '?'
            && join_slash(st)[k] != '#',
        forall|k: int|
            0 <= k < join_slash(st).len() - 1 ==> !(#[trigger] join_slash(st)[k] == '/' && join_slash(
                st,
            )[k + 1] == '/'),
        st.len() > 0 ==> join_slash(st).len() > 0 && join_slash(st)[0] != '/' && join_slash(st)[join_slash(st).len() - 1] != '/',
    decreases st.len(),
{
    let j = join_slash(st);
    if st.len() == 1 {
        let s0 = st[0];
        assert(clean_segment(s0));
        assert forall|k: int| 0 <= k < s0.len() implies #[trigger] s0[k] != '?' && s0[k] != '#' && s0[k] != '/' by {
            assert(s0.contains(s0[k]));
        }
    } else if st.len() > 1 {
        let init = st.drop_last();
        let last = st.last();
        assert(clean_segment(st[st.len() - 1]));
        assert forall|i: int| 0 <= i < init.len() implies clean_segment(#[trigger] init[i]) by {
            assert(init[i] == st[i]);
        }
        lemma_join_clean(init);
        let a = join_slash(init);
        assert(j == a + seq!['/'] + last);
        assert forall|k: int| 0 <= k < last.len() implies #[trigger] last[k] != '?' && last[k] != '#' && last[k] != '/' by {
            assert(last.contains(last[k]));
        }
        assert forall|k: int| 0 <= k < j.len() implies #[trigger] j[k] != '?' && j[k] != '#' by {
            if k < a.len() {
                assert(j[k] == a[k]);
            } else if k > a.len() {
                assert(j[k] == last[k - a.len() - 1]);
            }
        }
        assert forall|k: int| 0 <= k < j.len() - 1 implies !(#[trigger] j[k] == '/' && j[k + 1] == '/') by {
            if k + 1 < a.len() {
                assert(j[k] == a[k] && j[k + 1] == a[k + 1]);
            } else if k + 1 == a.len() {
                assert(j[k] == a[a.len() - 1]);
            } else if k == a.len() {
                assert(j[k + 1] == last[0]);
            } else {
                assert(j[k] == last[k - a.len() - 1]);
            }
        }
        assert(j[0] == a[0]);
        assert(j[j.len() - 1] == last[last.len() - 1]);
    }
}

/// A path served for a not-found request is a plain root path: it starts
/// with `/`, holds no `?` or `#`, and never two `/` in a row.
pub proof fn law_served_paths_are_plain_root_paths(rules: Seq<RuleView>, path: Seq<char>)
    ensures
        spec_match_fallback(rules, path) matches Some(Ok(ActionView::Serve { path: p, status: _ }))
            ==> p.len() > 0 && p[0] == '/' && (forall|k: int| 0 <= k < p.len() ==> #[trigger] p[k] != '?' && p[k] != '#')
            && (forall|k: int| 0 <= k < p.len() - 1 ==> !(#[trigger] p[k] == '/' && p[k + 1] == '/')),
{
    law_served_paths_stay_under_the_root(rules, path);
    if let Some(Ok(ActionView::Serve { path: p, status: _ })) = spec_match_fallback(rules, path) {
        let st = choose|st: Seq<Seq<char>>|
            (forall|i: int| 0 <= i < st.len() ==> clean_segment(#[trigger] st[i])) && p == seq!['/']
                + join_slash(st);
        lemma_join_clean(st);
        let j = join_slash(st);
        assert forall|k: int| 0 <= k < p.len() implies #[trigger] p[k] != '?' && p[k] != '#' by {
            if k > 0 {
                assert(p[k] == j[k - 1]);
            }
        }
        assert forall|k: int| 0 <= k < p.len() - 1 implies !(#[trigger] p[k] == '/' && p[k + 1] == '/') by {
            if k == 0 {
                assert(p[1] == j[0]);
                assert(st.len() > 0) by {
                    if st.len() == 0 {
                        assert(j.len() == 0);
                    }
                }
            } else {
                assert(p[k] == j[k - 1] && p[k + 1] == j[k]);
            }
        }
    }
}

/// A character placeholder names are made of: an ASCII letter or digit, or
/// `_`.
pub open spec fn placeholder_char(c: char) -> bool {
    ('0' <= c <= '9') || ('a' <= c <= 'z') || ('A' <= c <= 'Z') || c == '_'
}

/// A placeholder in a rule's target is replaced by its capture: a target
/// `a:nb`, where `a` and `b` hold no `:`, the name `n` is ASCII letters,
/// digits and `_`, and `b` does not go on with such a character, expands to
/// `a`, the value captured for `n`, then `b`.
pub proof fn law_placeholder_takes_its_capture(
    a: Seq<char>,
    n: Seq<char>,
    b: Seq<char>,
    caps: Seq<(Seq<char>, Seq<char>)>,
)
    requires
        forall|i: int| 0 <= i < a.len() ==> #[trigger] a[i] != ':',
        n.len() > 0,
        forall|i: int| 0 <= i < n.len() ==> placeholder_char(#[trigger] n[i]),
        b.len() > 0 ==> !placeholder_char(b[0]),
        forall|i: int| 0 <= i < b.len() ==> #[trigger] b[i] != ':',
        lookup(caps, n) is Some,
    ensures
        inject(a + seq![':'] + n + b, caps) == a + lookup(caps, n)->0 + b,
{
    let to = a + seq![':'] + n + b;
    let k = a.len() as int;
    let e = k + 1 + n.len();
    lemma_find_any_from(to, seq![':'], 0);
    assert(to[k] == ':');
    assert(seq![':'].contains(to[k])) by {
        assert(seq![':'][0] == ':');
    }
    assert forall|j: int| 0 <= j < k implies !seq![':'].contains(#[trigger] to[j]) by {
        assert(to[j] == a[j]);
    }
    assert(find_any_from(to, seq![':'], 0) == k) by {
        if find_any_from(to, seq![':'], 0) != k {
            let f = find_any_from(to, seq![':'], 0);
            if f == -1 {
                assert(!seq![':'].contains(to[k]));
            } else if f < k {
                assert(to[f] == a[f]);
            }
        }
    }
    lemma_name_end(to, k + 1);
    assert forall|j: int| k + 1 <= j < e implies is_name_char(#[trigger] to[j]) by {
        assert(to[j] == n[j - k - 1]);
        assert(placeholder_char(n[j - k - 1]));
    }
    assert(e < to.len() ==> !is_name_char(to[e])) by {
        if e < to.len() {
            assert(to[e] == b[0]);
        }
    }
    assert(name_end(to, k + 1) == e) by {
        let g = name_end(to, k + 1);
        if g < e {
            assert(is_name_char(to[g]));
        } else if g > e {
            assert(is_name_char(to[e]));
        }
    }
    assert(to.subrange(k + 1, e) =~= n);
    lemma_find_any_from(to, seq![':'], e);
    assert(find_any_from(to, seq![':'], e) == -1) by {
        let f = find_any_from(to, seq![':'], e);
        if f != -1 {
            assert(to[f] == b[f - e]);
            assert(seq![':'].contains(to[f]));
            let w = choose|w: int| 0 <= w < 1 && seq![':'][w] == to[f];
        }
    }
    assert(inject_from(to, caps, e) == to.subrange(e, to.len() as int));
    assert(to.subrange(e, to.len() as int) =~= b);
    assert(to.subrange(0, k) =~= a);
}

proof fn lemma_split_no_sep(s: Seq<char>, seps: Seq<char>)
    requires
        forall|i: int| 0 <= i < s.len() ==> !seps.contains(#[trigger] s[i]),
    ensures
        split_on(s, seps) == seq![s],
    decreases s.len(),
{
    if s.len() > 0 {
        let init = s.drop_last();
        assert forall|i: int| 0 <= i < init.len() implies !seps.contains(#[trigger] init[i]) by {
            assert(init[i] == s[i]);
        }
        lemma_split_no_sep(init, seps);
        assert(!seps.contains(s[s.len() - 1]));
        assert(init.push(s.last()) =~= s);
        assert(split_on(s, seps) =~= seq![s]);
    } else {
        assert(s =~= Seq::<char>::empty());
    }
}

proof fn lemma_split_concat(x: Seq<char>, c: char, y: Seq<char>, seps: Seq<char>)
    requires
        seps.contains(c),
    ensures
        split_on(x + seq![c] + y, seps) == split_on(x, seps) + split_on(y, seps),
    decreases y.len(),
{
    let s = x + seq![c] + y;
    if y.len() == 0 {
        assert(s.drop_last() =~= x);
        assert(split_on(y, seps) =~= seq![Seq::<char>::empty()]);
        assert(split_on(s, seps) =~= split_on(x, seps) + split_on(y, seps));
    } else {
        lemma_split_concat(x, c, y.drop_last(), seps);
        assert(s.drop_last() =~= x + seq![c] + y.drop_last());
        assert(s.last() == y.last());
        lemma_split_on_len(y.drop_last(), seps);
        assert(split_on(s, seps) =~= split_on(x, seps) + split_on(y, seps));
    }
}

/// `/x/y`, for segments `x` and `y` holding no `/`, splits into an empty
/// piece, `x` and `y`; its segments are `x` and `y`.
proof fn lemma_two_segments(x: Seq<char>, y: Seq<char>)
    requires
        x.len() > 0,
        y.len() > 0,
        forall|i: int| 0 <= i < x.len() ==> #[trigger] x[i] != '/',
        forall|i: int| 0 <= i < y.len() ==> #[trigger] y[i] != '/',
    ensures
        split_on(seq!['/'] + x + seq!['/'] + y, seq!['/']) == seq![Seq::<char>::empty(), x, y],
        path_segments(seq!['/'] + x + seq!['/'] + y) == seq![x, y],
{
    let sl = seq!['/'];
    assert(sl.contains('/')) by {
        assert(sl[0] == '/');
    }
    assert forall|i: int| 0 <= i < x.len() implies !sl.contains(#[trigger] x[i]) by {
        if sl.contains(x[i]) {
            let w = choose|w: int| 0 <= w < sl.len() && sl[w] == x[i];
        }
    }
    assert forall|i: int| 0 <= i < y.len() implies !sl.contains(#[trigger] y[i]) by {
        if sl.contains(y[i]) {
            let w = choose|w: int| 0 <= w < sl.len() && sl[w] == y[i];
        }
    }
    lemma_split_no_sep(x, sl);
    lemma_split_no_sep(y, sl);
    lemma_split_concat(x, '/', y, sl);
    let e = Seq::<char>::empty();
    assert(split_on(e, sl) == seq![e]);
    lemma_split_concat(e, '/', x + seq!['/'] + y, sl);
    assert(sl + x + sl + y =~= e + seq!['/'] + (x + seq!['/'] + y));
    let ps = seq![e, x, y];
    assert(split_on(sl + x + sl + y, sl) =~= ps);
    assert(ps.drop_last() =~= seq![e, x]);
    assert(ps.drop_last().drop_last() =~= seq![e]);
    assert(ps.drop_last().drop_last().drop_last() =~= Seq::<Seq<char>>::empty());
    assert(seq![e].drop_last() =~= Seq::<Seq<char>>::empty());
    assert(nonempty_pieces(Seq::<Seq<char>>::empty()) == Seq::<Seq<char>>::empty());
    assert(seq![e].last() == e);
    assert(nonempty_pieces(seq![e]) =~= Seq::<Seq<char>>::empty());
    assert(nonempty_pieces(seq![e, x]) =~= seq![x]);
    assert(nonempty_pieces(ps) =~= seq![x, y]);
}

/// The rule `/p/:n` matches the request segments `p`, `v` and captures `v`
/// as `n`.
proof fn lemma_placeholder_rule_matches(p: Seq<char>, n: Seq<char>, v: Seq<char>)
    requires
        p.len() > 0,
        forall|i: int| 0 <= i < p.len() ==> #[trigger] p[i] != '/' && p[i] != ':',
        n.len() > 0,
        forall|i: int| 0 <= i < n.len() ==> placeholder_char(#[trigger] n[i]),
        v.len() > 0,
        forall|i: int| 0 <= i < v.len() ==> #[trigger] v[i] != '/',
    ensures
        path_segments(seq!['/'] + p + seq!['/'] + v) == seq![p, v],
        spec_match_from(seq!['/'] + p + seq!['/', ':'] + n, seq![p, v]) == Some(seq![(n, v)]),
{
    let cn = seq![':'] + n;
    assert(seq!['/'] + p + seq!['/', ':'] + n =~= seq!['/'] + p + seq!['/'] + cn);
    assert forall|i: int| 0 <= i < cn.len() implies #[trigger] cn[i] != '/' by {
        if i > 0 {
            assert(cn[i] == n[i - 1]);
            assert(placeholder_char(n[i - 1]));
        }
    }
    lemma_two_segments(p, cn);
    lemma_two_segments(p, v);
    let req = seq![p, v];
    let pattern = seq![p, cn];
    assert(!is_splat(pattern)) by {
        assert(cn[0] != seq!['*'][0]);
    }
    assert(fixed_part(pattern) == pattern);
    assert(ph_name(p) is None) by {
        assert(p[0] != ':');
    }
    assert(cn.drop_first() =~= n);
    assert(ph_name(cn) == Some(n));
    assert(seg_matches(pattern[0], req[0]));
    assert(seg_matches(pattern[1], req[1]));
    assert(!(exists|i: int| 0 <= i < pattern.len() && !seg_matches(#[trigger] pattern[i], req[i])));
    assert(pattern.drop_last() =~= seq![p]);
    assert(seq![p].drop_last() =~= Seq::<Seq<char>>::empty());
    assert(seq![p].last() == p);
    assert(captures_of(Seq::<Seq<char>>::empty(), req) == Seq::<(Seq<char>, Seq<char>)>::empty());
    assert(captures_of(seq![p], req) =~= Seq::<(Seq<char>, Seq<char>)>::empty());
    assert(pattern.last() == cn);
    assert(captures_of(pattern, req) =~= seq![(n, v)]);
}

/// The target `/a/c:nd`, with `v` captured as `n`, names the in-site path
/// `/a/cvd`.
#[verifier::rlimit(30)]
proof fn lemma_placeholder_target(
    a: Seq<char>,
    c: Seq<char>,
    n: Seq<char>,
    d: Seq<char>,
    v: Seq<char>,
)
    requires
        n.len() > 0,
        forall|i: int| 0 <= i < n.len() ==> placeholder_char(#[trigger] n[i]),
        d.len() > 0 ==> !placeholder_char(d[0]),
        a.len() > 0,
        a != seq!['.'],
        a != seq!['.', '.'],
        c + v + d != seq!['.'],
        c + v + d != seq!['.', '.'],
        v.len() > 0,
        forall|i: int| 0 <= i < a.len() ==> #[trigger] a[i] != '/' && a[i] != ':' && a[i] != '?' && a[i] != '#',
        forall|i: int| 0 <= i < c.len() ==> #[trigger] c[i] != '/' && c[i] != ':' && c[i] != '?' && c[i] != '#',
        forall|i: int| 0 <= i < d.len() ==> #[trigger] d[i] != '/' && d[i] != ':' && d[i] != '?' && d[i] != '#',
        forall|i: int| 0 <= i < v.len() ==> #[trigger] v[i] != '/' && v[i] != ':' && v[i] != '?' && v[i] != '#',
    ensures
        inject(seq!['/'] + a + seq!['/'] + c + seq![':'] + n + d, seq![(n, v)]) == seq!['/'] + a
            + seq!['/'] + c + v + d,
        spec_within_root(seq!['/'] + a + seq!['/'] + c + v + d) == Some(
            seq!['/'] + a + seq!['/'] + c + v + d,
        ),
{
    let caps = seq![(n, v)];
    assert(lookup(caps, n) == Some(v));
    let a2 = seq!['/'] + a + seq!['/'] + c;
    assert forall|i: int| 0 <= i < a2.len() implies #[trigger] a2[i] != ':' by {
        if 1 <= i < 1 + a.len() {
            assert(a2[i] == a[i - 1]);
        } else if i > 1 + a.len() {
            assert(a2[i] == c[i - 2 - a.len()]);
        }
    }
    assert(seq!['/'] + a + seq!['/'] + c + seq![':'] + n + d =~= a2 + seq![':'] + n + d);
    law_placeholder_takes_its_capture(a2, n, d, caps);
    let w = c + v + d;
    let ex = a2 + v + d;
    assert(ex =~= seq!['/'] + a + seq!['/'] + c + v + d);
    assert(ex =~= seq!['/'] + a + seq!['/'] + w);
    assert forall|i: int| 0 <= i < w.len() implies #[trigger] w[i] != '/' && w[i] != ':' && w[i] != '?' && w[i] != '#' by {
        if i < c.len() {
            assert(w[i] == c[i]);
        } else if i < c.len() + v.len() {
            assert(w[i] == v[i - c.len()]);
        } else {
            assert(w[i] == d[i - c.len() - v.len()]);
        }
    }
    assert forall|i: int| 0 <= i < ex.len() implies #[trigger] ex[i] != ':' && ex[i] != '?' && ex[i] != '#' by {
        if 1 <= i < 1 + a.len() {
            assert(ex[i] == a[i - 1]);
        } else if i > 1 + a.len() {
            assert(ex[i] == w[i - 2 - a.len()]);
        }
    }
    assert(!contains_sub(ex, "://"@)) by {
        reveal_strlit("://");
        if contains_sub(ex, "://"@) {
            let i = choose|i: int| 0 <= i && i + "://"@.len() <= ex.len() && #[trigger] ex.subrange(i, i + "://"@.len()) == "://"@;
            assert(ex.subrange(i, i + 3)[0] == ex[i]);
        }
    }
    assert(ex[1] == a[0]);
    let qh = seq!['?', '#'];
    lemma_find_any_from(ex, qh, 0);
    assert(find_any_from(ex, qh, 0) == -1) by {
        let f = find_any_from(ex, qh, 0);
        if f != -1 {
            let t = choose|t: int| 0 <= t < qh.len() && qh[t] == ex[f];
        }
    }
    assert(before_any(ex, qh) == ex);
    lemma_two_segments(a, w);
    let e = Seq::<char>::empty();
    let segs = seq![e, a, w];
    assert(split_on(ex, seq!['/']) == segs);
    assert(segs.drop_last() =~= seq![e, a]);
    assert(seq![e, a].drop_last() =~= seq![e]);
    assert(seq![e].drop_last() =~= Seq::<Seq<char>>::empty());
    assert(normalize(Seq::<Seq<char>>::empty()) == Some(Seq::<Seq<char>>::empty()));
    assert(seq![e].last() == e);
    assert(normalize(seq![e]) == Some(Seq::<Seq<char>>::empty()));
    assert(Seq::<Seq<char>>::empty().push(a) =~= seq![a]);
    assert(normalize(seq![e, a]) == Some(seq![a]));
    assert(seq![a].push(w) =~= seq![a, w]);
    assert(w.len() > 0);
    assert(normalize(segs) == Some(seq![a, w]));
    assert(seq![a, w].drop_last() =~= seq![a]);
    assert(join_slash(seq![a]) == a);
    assert(seq![a, w].last() == w);
    assert(join_slash(seq![a, w]) == a + seq!['/'] + w);
    assert(seq!['/'] + (a + seq!['/'] + w) =~= ex);
}

/// A rule `/p/:n -> /a/c:nd` serves, for the request `/p/v`, the path
/// `/a/cvd`: the segment the request holds where the rule declares `:n`
/// takes the place of `:n` in the target. Here `n` is ASCII letters, digits
/// and `_`; `d` does not go on with such a character; the literal pieces
/// hold no `/`, `:`, `?` or `#`; and the status is one that is served.
pub proof fn law_matched_placeholder_is_served(
    rules: Seq<RuleView>,
    p: Seq<char>,
    n: Seq<char>,
    a: Seq<char>,
    c: Seq<char>,
    d: Seq<char>,
    v: Seq<char>,
)
    requires
        rules.len() > 0,
        rules[0].from == seq!['/'] + p + seq!['/', ':'] + n,
        rules[0].to == seq!['/'] + a + seq!['/'] + c + seq![':'] + n + d,
        rules[0].status == 200 || rules[0].status == 404 || rules[0].status == 410 || rules[0].status == 451,
        p.len() > 0,
        forall|i: int| 0 <= i < p.len() ==> #[trigger] p[i] != '/' && p[i] != ':',
        n.len() > 0,
        forall|i: int| 0 <= i < n.len() ==> placeholder_char(#[trigger] n[i]),
        d.len() > 0 ==> !placeholder_char(d[0]),
        a.len() > 0,
        a != seq!['.'],
        a != seq!['.', '.'],
        c + v + d != seq!['.'],
        c + v + d != seq!['.', '.'],
        v.len() > 0,
        forall|i: int| 0 <= i < a.len() ==> #[trigger] a[i] != '/' && a[i] != ':' && a[i] != '?' && a[i] != '#',
        forall|i: int| 0 <= i < c.len() ==> #[trigger] c[i] != '/' && c[i] != ':' && c[i] != '?' && c[i] != '#',
        forall|i: int| 0 <= i < d.len() ==> #[trigger] d[i] != '/' && d[i] != ':' && d[i] != '?' && d[i] != '#',
        forall|i: int| 0 <= i < v.len() ==> #[trigger] v[i] != '/' && v[i] != ':' && v[i] != '?' && v[i] != '#',
    ensures
        spec_match_fallback(rules, seq!['/'] + p + seq!['/'] + v) == Some(
            Ok::<ActionView, ErrorView>(
                ActionView::Serve {
                    path: seq!['/'] + a + seq!['/'] + c + v + d,
                    status: rules[0].status,
                },
            ),
        ),
{
    lemma_placeholder_rule_matches(p, n, v);
    lemma_placeholder_target(a, c, n, d, v);
    let req = seq![p, v];
    assert(first_match_from(rules, req, 0) == Some(spec_resolve_target(rules[0], seq![(n, v)])));
}

proof fn lemma_first_match_skips(rules: Seq<RuleView>, req: Seq<Seq<char>>, j: int, i: int)
    requires
        0 <= j <= i < rules.len(),
        spec_match_from(rules[i].from, req) is Some,
        forall|k: int| j <= k < i ==> spec_match_from((#[trigger] rules[k]).from, req) is None,
    ensures
        first_match_from(rules, req, j) == Some(
            spec_resolve_target(rules[i], spec_match_from(rules[i].from, req)->0),
        ),
    decreases i - j,
{
    if j < i {
        lemma_first_match_skips(rules, req, j + 1, i);
    }
}

/// The first rule that matches decides: rules before it that do not match are
/// skipped, and no rule after it is consulted.
pub proof fn law_first_matching_rule_wins(rules: Seq<RuleView>, path: Seq<char>, i: int)
    requires
        0 <= i < rules.len(),
        spec_match_from(rules[i].from, path_segments(path)) is Some,
        forall|k: int|
            0 <= k < i ==> spec_match_from((#[trigger] rules[k]).from, path_segments(path)) is None,
    ensures
        spec_match_fallback(rules, path) == Some(
            spec_resolve_target(rules[i], spec_match_from(rules[i].from, path_segments(path))->0),
        ),
        spec_match_fallback(rules, path) matches Some(Ok(ActionView::Serve { status, .. }))
            ==> status == rules[i].status,
        !served_status(rules[i].status) ==> spec_match_fallback(rules, path) matches Some(Err(_)),
{
    lemma_first_match_skips(rules, path_segments(path), 0, i);
}

proof fn lemma_no_match_from(rules: Seq<RuleView>, req: Seq<Seq<char>>, j: int)
    requires
        0 <= j,
        forall|k: int| j <= k < rules.len() ==> spec_match_from((#[trigger] rules[k]).from, req) is None,
    ensures
        first_match_from(rules, req, j) is None,
    decreases rules.len() - j,
{
    if j < rules.len() {
        lemma_no_match_from(rules, req, j + 1);
    }
}

/// A path that no rule matches resolves to nothing: not an error, and no
/// rule's target is served.
pub proof fn law_no_matching_rule_is_no_answer(rules: Seq<RuleView>, path: Seq<char>)
    requires
        forall|k: int|
            0 <= k < rules.len() ==> spec_match_from((#[trigger] rules[k]).from, path_segments(path))
                is None,
    ensures
        spec_match_fallback(rules, path) is None,
{
    lemma_no_match_from(rules, path_segments(path), 0);
}

} // verus!
