//! Trust-on-first-use for mutable names: the user blesses the CID a name
//! resolves to today, and a later resolution to a different CID is reported
//! as a change.
//!
//! The store is advisory: it can only make the chrome say more. An unblessed
//! name behaves as before, and the blessed CID never chooses what loads.

use vstd::prelude::*;

use crate::chrome::{TrustPosture, posture_from_wire, posture_wire, trust_posture_from_wire_name, trust_posture_wire_name};
use crate::json::{
    json_array_at, json_array_field, json_document, json_error, json_parse_error, json_str_at,
    json_str_field, json_u64_at, json_u64_field, document_text, keys_sorted, member_value,
    members_view, num_member, objects_view, str_member, JsonScalar, ScalarView,
};
use crate::text::{
    chars_of, dec, owned, lemma_seq_lt_transitive, lemma_seq_lt_trichotomy, order_chars,
    push_all, push_dec, push_dec_padded, push_str, seq_lt, string_of, trim, trim_vec, zero_pad,
};

verus! {

// ---------------------------------------------------------------------------
// The proleptic Gregorian calendar.
// ---------------------------------------------------------------------------

/// Whether `y` is a leap year.
pub open spec fn is_leap(y: int) -> bool {
    (y % 4 == 0 && y % 100 != 0) || y % 400 == 0
}

/// The number of days in month `m` (1..=12) of year `y`.
pub open spec fn days_in_month(y: int, m: int) -> int {
    if m == 2 {
        if is_leap(y) {
            29
        } else {
            28
        }
    } else if m == 4 || m == 6 || m == 9 || m == 11 {
        30
    } else {
        31
    }
}

/// The number of days in year `y`.
pub open spec fn days_in_year(y: int) -> int {
    if is_leap(y) {
        366
    } else {
        365
    }
}

/// The leap years in `1..=y` (counted with floor division, so the count
/// differences are right for every `y`).
pub open spec fn leaps_through(y: int) -> int {
    y / 4 - y / 100 + y / 400
}

/// Days from 1970-01-01 to the first of January of year `y`.
pub open spec fn days_before_year(y: int) -> int {
    365 * (y - 1970) + leaps_through(y - 1) - leaps_through(1969)
}

/// Days from the first of January of `y` to the first of month `m`.
pub open spec fn days_before_month(y: int, m: int) -> int {
    let base: int = if m == 1 {
        0
    } else if m == 2 {
        31
    } else if m == 3 {
        59
    } else if m == 4 {
        90
    } else if m == 5 {
        120
    } else if m == 6 {
        151
    } else if m == 7 {
        181
    } else if m == 8 {
        212
    } else if m == 9 {
        243
    } else if m == 10 {
        273
    } else if m == 11 {
        304
    } else {
        334
    };
    base + if m > 2 && is_leap(y) {
        1int
    } else {
        0int
    }
}

/// Whether `(y, m, d)` names a real calendar day.
pub open spec fn valid_date(y: int, m: int, d: int) -> bool {
    1 <= m <= 12 && 1 <= d <= days_in_month(y, m)
}

/// The number of days from 1970-01-01 to `(y, m, d)`.
pub open spec fn day_number(y: int, m: int, d: int) -> int {
    days_before_year(y) + days_before_month(y, m) + d - 1
}

/// The calendar day that is `n` days after 1970-01-01.
pub open spec fn civil_of(n: int) -> (int, int, int) {
    choose|t: (int, int, int)| valid_date(t.0, t.1, t.2) && day_number(t.0, t.1, t.2) == n
}

proof fn lemma_year_step(y: int)
    ensures
        days_before_year(y + 1) == days_before_year(y) + days_in_year(y),
{
    assert(leaps_through(y) - leaps_through(y - 1) == if is_leap(y) {
        1int
    } else {
        0int
    }) by (nonlinear_arith);
}

proof fn lemma_era_step(y: int, q: int)
    ensures
        days_before_year(y + 400 * q) == days_before_year(y) + 146097 * q,
{
    let a = y - 1;
    assert((a + 400 * q) / 4 == a / 4 + 100 * q) by (nonlinear_arith);
    assert((a + 400 * q) / 100 == a / 100 + 4 * q) by (nonlinear_arith);
    assert((a + 400 * q) / 400 == a / 400 + q) by (nonlinear_arith);
}

proof fn lemma_month_bounds(y: int, m: int)
    requires
        1 <= m <= 12,
    ensures
        m < 12 ==> days_before_month(y, m + 1) == days_before_month(y, m) + days_in_month(y, m),
        m == 12 ==> days_before_month(y, m) + days_in_month(y, m) == days_in_year(y),
        0 <= days_before_month(y, m),
{
}

/// A valid day lies inside its own year.
proof fn lemma_day_in_year(y: int, m: int, d: int)
    requires
        valid_date(y, m, d),
    ensures
        days_before_year(y) <= day_number(y, m, d) < days_before_year(y + 1),
{
    lemma_year_step(y);
    lemma_days_before_month_le(y, m);
}

proof fn lemma_days_before_month_le(y: int, m: int)
    requires
        1 <= m <= 12,
    ensures
        days_before_month(y, m) + days_in_month(y, m) <= days_in_year(y),
{
}

proof fn lemma_years_ordered(y1: int, y2: int)
    requires
        y1 < y2,
    ensures
        days_before_year(y1 + 1) <= days_before_year(y2),
    decreases y2 - y1,
{
    if y1 + 1 < y2 {
        lemma_years_ordered(y1 + 1, y2);
        lemma_year_step(y1 + 1);
    }
}

/// Two valid days with the same day number are the same day.
pub proof fn law_day_number_is_injective(y1: int, m1: int, d1: int, y2: int, m2: int, d2: int)
    requires
        valid_date(y1, m1, d1),
        valid_date(y2, m2, d2),
        day_number(y1, m1, d1) == day_number(y2, m2, d2),
    ensures
        y1 == y2 && m1 == m2 && d1 == d2,
{
    lemma_day_in_year(y1, m1, d1);
    lemma_day_in_year(y2, m2, d2);
    if y1 < y2 {
        lemma_years_ordered(y1, y2);
    } else if y2 < y1 {
        lemma_years_ordered(y2, y1);
    } else {
        lemma_months_ordered(y1, m1, d1, m2, d2);
    }
}

proof fn lemma_months_ordered(y: int, m1: int, d1: int, m2: int, d2: int)
    requires
        valid_date(y, m1, d1),
        valid_date(y, m2, d2),
        days_before_month(y, m1) + d1 == days_before_month(y, m2) + d2,
    ensures
        m1 == m2 && d1 == d2,
{
}

/// The day a valid date names is the day `civil_of` gives back.
pub proof fn lemma_civil_of(y: int, m: int, d: int)
    requires
        valid_date(y, m, d),
    ensures
        civil_of(day_number(y, m, d)) == (y, m, d),
{
    let n = day_number(y, m, d);
    assert(valid_date((y, m, d).0, (y, m, d).1, (y, m, d).2) && day_number(
        (y, m, d).0,
        (y, m, d).1,
        (y, m, d).2,
    ) == n);
    let t = civil_of(n);
    law_day_number_is_injective(t.0, t.1, t.2, y, m, d);
}

/// The next calendar day after `(y, m, d)`.
pub open spec fn next_day(y: int, m: int, d: int) -> (int, int, int) {
    if d < days_in_month(y, m) {
        (y, m, d + 1)
    } else if m < 12 {
        (y, m + 1, 1)
    } else {
        (y + 1, 1, 1)
    }
}

/// Consecutive day numbers are consecutive calendar days: the conversion
/// walks the calendar without a gap or a repeat.
pub proof fn law_days_walk_the_calendar(n: int)
    requires
        valid_date(civil_of(n).0, civil_of(n).1, civil_of(n).2),
        day_number(civil_of(n).0, civil_of(n).1, civil_of(n).2) == n,
    ensures
        civil_of(n + 1) == next_day(civil_of(n).0, civil_of(n).1, civil_of(n).2),
{
    let (y, m, d) = civil_of(n);
    let (y2, m2, d2) = next_day(y, m, d);
    lemma_month_bounds(y, m);
    lemma_year_step(y);
    assert(valid_date(y2, m2, d2));
    assert(day_number(y2, m2, d2) == n + 1);
    lemma_civil_of(y2, m2, d2);
}

#[verifier::spinoff_prover]
fn month_length(y: i64, m: u32) -> (r: u32)
    requires
        1 <= m <= 12,
    ensures
        r == days_in_month(y as int, m as int),
{
    if m == 2 {
        if (y % 4 == 0 && y % 100 != 0) || y % 400 == 0 {
            29
        } else {
            28
        }
    } else if m == 4 || m == 6 || m == 9 || m == 11 {
        30
    } else {
        31
    }
}

/// `days` as whole 400-year cycles (146097 days each) plus a remainder.
fn split_cycles(days: i64) -> (r: (i64, u32))
    ensures
        r.0 * 146097 + r.1 == days,
        r.1 < 146097,
        -63131837319417 <= r.0 <= 63131837319416,
{
    let q: i64;
    let rem: u32;
    if days >= 0 {
        q = days / 146097;
        rem = (days % 146097) as u32;
        assert(q * 146097 + rem == days) by (nonlinear_arith)
            requires
                days >= 0,
                q == days / 146097,
                rem == days % 146097,
        {
        }
    } else {
        let m: u64 = (-(days + 1)) as u64;
        let k: u64 = m / 146097;
        let r0: u64 = m % 146097;
        assert(k * 146097 + r0 == m && r0 < 146097) by (nonlinear_arith)
            requires
                k == m / 146097,
                r0 == m % 146097,
        {
        }
        assert(k <= 63131837319416) by (nonlinear_arith)
            requires
                k * 146097 + r0 == m,
                m <= 9223372036854775807,
                r0 >= 0,
        {
        }
        q = -(k as i64) - 1;
        rem = (146096 - r0) as u32;
        assert(q * 146097 + rem == days) by (nonlinear_arith)
            requires
                k * 146097 + r0 == m,
                m == -(days + 1),
                q == -k - 1,
                rem == 146096 - r0,
        {
        }
    }
    assert(-63131837319417 <= q <= 63131837319416) by (nonlinear_arith)
        requires
            q * 146097 + rem == days,
            0 <= rem < 146097,
            -9223372036854775808 <= days <= 9223372036854775807,
    {
    }
    (q, rem)
}

#[verifier::spinoff_prover]
fn leap_year(y: i64) -> (r: bool)
    ensures
        r == is_leap(y as int),
{
    (y % 4 == 0 && y % 100 != 0) || y % 400 == 0
}

/// Whole years from `y0` on, taken out of `rem0` days.
fn walk_years(y0: i64, rem0: u32) -> (r: (i64, u32))
    requires
        rem0 < 146097,
        -9223372036854775808 <= y0 <= 9223372036854775807 - 400,
    ensures
        days_before_year(r.0 as int) + r.1 == days_before_year(y0 as int) + rem0,
        r.1 < days_in_year(r.0 as int),
        y0 <= r.0 <= y0 + 400,
{
    let mut y: i64 = y0;
    let mut rem: u32 = rem0;
    while rem >= 365 && (rem >= 366 || !leap_year(y))
        invariant
            days_before_year(y as int) + rem == days_before_year(y0 as int) + rem0,
            y0 <= y <= y0 + 400,
            rem0 < 146097,
            y0 <= 9223372036854775807 - 400,
        decreases rem,
    {
        proof {
            lemma_year_step(y as int);
        }
        if leap_year(y) {
            rem = rem - 366;
        } else {
            rem = rem - 365;
        }
        proof {
            if y + 1 > y0 + 400 {
                lemma_years_ordered_ge(y0 as int, y as int + 1);
                lemma_year_step(y as int);
            }
        }
        y = y + 1;
    }
    (y, rem)
}

/// Whole months of year `y`, taken out of `rem0` days.
fn walk_months(y: i64, rem0: u32) -> (r: (u32, u32))
    requires
        rem0 < days_in_year(y as int),
    ensures
        valid_date(y as int, r.0 as int, r.1 as int),
        days_before_month(y as int, r.0 as int) + r.1 - 1 == rem0,
{
    let mut m: u32 = 1;
    let mut rem: u32 = rem0;
    while rem >= month_length(y, m)
        invariant
            1 <= m <= 12,
            days_before_month(y as int, m as int) + rem == rem0,
            rem0 < days_in_year(y as int),
        decreases rem,
    {
        proof {
            lemma_month_bounds(y as int, m as int);
        }
        rem = rem - month_length(y, m);
        m = m + 1;
    }
    proof {
        lemma_month_bounds(y as int, m as int);
    }
    (m, rem + 1)
}

/// Days since 1970-01-01 -> `(year, month, day)` in the proleptic Gregorian
/// calendar.
pub fn civil_from_days(days: i64) -> (r: (i64, u32, u32))
    requires
        days <= i64::MAX - 719468,
    ensures
        valid_date(r.0 as int, r.1 as int, r.2 as int),
        day_number(r.0 as int, r.1 as int, r.2 as int) == days,
        (r.0 as int, r.1 as int, r.2 as int) == civil_of(days as int),
{
    // Whole 400-year cycles first, then whole years, then whole months.
    let (q, rem) = split_cycles(days);
    let y0: i64 = 1970 + 400 * q;
    proof {
        lemma_era_step(1970, q as int);
    }
    let (y, rest) = walk_years(y0, rem);
    let (m, d) = walk_months(y, rest);
    proof {
        lemma_civil_of(y as int, m as int, d as int);
    }
    (y, m, d)
}

/// `days_before_year` never decreases.
proof fn lemma_years_ordered_ge(y1: int, y2: int)
    requires
        y1 <= y2,
    ensures
        days_before_year(y1) + 365 * (y2 - y1) <= days_before_year(y2),
    decreases y2 - y1,
{
    if y1 < y2 {
        lemma_years_ordered_ge(y1, y2 - 1);
        lemma_year_step(y2 - 1);
    }
}

/// The `YYYY-MM-DD` text of a calendar day.
pub open spec fn date_text(t: (int, int, int)) -> Seq<char> {
    zero_pad(dec(t.0 as nat), 4) + seq!['-'] + zero_pad(dec(t.1 as nat), 2) + seq!['-'] + zero_pad(
        dec(t.2 as nat),
        2,
    )
}

/// The UTC calendar day of a Unix timestamp.
pub open spec fn utc_day_of(secs: u64) -> (int, int, int) {
    civil_of(secs as int / 86400)
}

/// A Unix timestamp as its UTC calendar day, `YYYY-MM-DD`.
pub fn format_utc_date(secs: u64) -> (r: String)
    ensures
        r@ == date_text(utc_day_of(secs)),
        valid_date(utc_day_of(secs).0, utc_day_of(secs).1, utc_day_of(secs).2),
        day_number(utc_day_of(secs).0, utc_day_of(secs).1, utc_day_of(secs).2) == secs / 86400,
{
    let days = (secs / 86400) as i64;
    let (year, month, day) = civil_from_days(days);
    proof {
        lemma_years_ordered_ge(1970, year as int);
        if year < 1970 {
            lemma_day_in_year(year as int, month as int, day as int);
            lemma_years_ordered(year as int, 1970);
        }
    }
    assert(year >= 1970);
    let mut out: Vec<char> = Vec::new();
    push_dec_padded(&mut out, year as u64, 4);
    out.push('-');
    push_dec_padded(&mut out, month as u64, 2);
    out.push('-');
    push_dec_padded(&mut out, day as u64, 2);
    assert(out@ =~= date_text((year as int, month as int, day as int)));
    string_of(out.as_slice())
}

// ---------------------------------------------------------------------------
// The pin value.
// ---------------------------------------------------------------------------

/// The pin-store file name, beside the retrieval settings file.
pub const PINS_FILE: &'static str = "pins.json";

/// One trust-on-first-use pin: the CID a mutable name resolved to when the
/// user blessed it, when they did, and what werust was claiming then.
#[derive(Debug, Clone, PartialEq, Eq)]
pub struct TrustedNamePin {
    /// The name, in the store's canonical key form (see [`pin_key`]).
    pub name: String,
    /// The CID the name resolved to when it was blessed.
    pub cid: String,
    /// When it was blessed, in whole seconds since the Unix epoch (UTC).
    pub blessed_at: u64,
    /// The posture werust was showing for that load at bless time.
    pub posture: TrustPosture,
}

/// A pin as plain values.
pub struct PinView {
    pub name: Seq<char>,
    pub cid: Seq<char>,
    pub blessed_at: u64,
    pub posture: TrustPosture,
}

impl View for TrustedNamePin {
    type V = PinView;

    open spec fn view(&self) -> PinView {
        PinView {
            name: self.name@,
            cid: self.cid@,
            blessed_at: self.blessed_at,
            posture: self.posture,
        }
    }
}

impl TrustedNamePin {
    /// The UTC calendar day this pin was blessed on, `YYYY-MM-DD`.
    pub fn blessed_on(&self) -> (r: String)
        ensures
            r@ == date_text(utc_day_of(self.blessed_at)),
    {
        format_utc_date(self.blessed_at)
    }

    /// A copy of this pin.
    pub fn duplicate(&self) -> (r: TrustedNamePin)
        ensures
            r@ == self@,
    {
        TrustedNamePin {
            name: self.name.clone(),
            cid: self.cid.clone(),
            blessed_at: self.blessed_at,
            posture: self.posture,
        }
    }
}

/// An optional pin as plain values.
pub open spec fn opt_pin_view(p: Option<TrustedNamePin>) -> Option<PinView> {
    match p {
        Some(pin) => Some(pin@),
        None => None,
    }
}

/// The mutable-name identity of the page shown, paired with whatever the user
/// has blessed for that name.
#[derive(Debug, Clone, PartialEq, Eq)]
pub struct MutableNameTrust {
    /// The root name shown in the URL bar for this site.
    pub name: String,
    /// The root CID this name resolves to on this load.
    pub cid: String,
    /// The pin on file for the name, or `None` when it was never blessed.
    pub blessed: Option<TrustedNamePin>,
}

impl MutableNameTrust {
    /// The name is blessed and now resolves to a different CID.
    pub open spec fn spec_is_changed(&self) -> bool {
        self.blessed matches Some(pin) && pin.cid@ != self.cid@
    }

    /// The name is blessed and still resolves to the blessed CID.
    pub open spec fn spec_is_unchanged(&self) -> bool {
        self.blessed matches Some(pin) && pin.cid@ == self.cid@
    }

    /// Whether the user has blessed this name at all.
    pub fn is_blessed(&self) -> (r: bool)
        ensures
            r == self.blessed is Some,
    {
        self.blessed.is_some()
    }

    /// The warning condition: blessed, and now resolving to a different CID.
    pub fn is_changed(&self) -> (r: bool)
        ensures
            r == self.spec_is_changed(),
    {
        match &self.blessed {
            Some(pin) => pin.cid != self.cid,
            None => false,
        }
    }

    /// Whether the name is blessed and still resolves to the blessed CID.
    pub fn is_unchanged(&self) -> (r: bool)
        ensures
            r == self.spec_is_unchanged(),
    {
        match &self.blessed {
            Some(pin) => pin.cid == self.cid,
            None => false,
        }
    }

    /// Whether blessing would record something new: no pin yet, or a pin
    /// that no longer matches.
    pub fn is_blessable(&self) -> (r: bool)
        ensures
            r == !self.spec_is_unchanged(),
    {
        !self.is_unchanged()
    }

    /// The day the current pin was blessed on, or `None` when unblessed.
    pub fn blessed_on(&self) -> (r: Option<String>)
        ensures
            match self.blessed {
                Some(pin) => r matches Some(d) && d@ == date_text(utc_day_of(pin.blessed_at)),
                None => r is None,
            },
    {
        match &self.blessed {
            Some(pin) => Some(pin.blessed_on()),
            None => None,
        }
    }
}

// ---------------------------------------------------------------------------
// "Cannot determine trust".
// ---------------------------------------------------------------------------

/// Why werust cannot determine what the user has blessed: distinct from "no
/// records" and never flattened into it.
#[derive(Debug, Clone, PartialEq, Eq)]
pub enum UndeterminableTrust {
    /// The store exists but could not be read.
    Unreadable(String),
    /// The document is not this store's wire form.
    Unparseable(String),
    /// One entry cannot be read honestly.
    UnreadableEntry(String),
    /// Two entries record the same name.
    DuplicateName(String),
}

/// The legible sentence for a reason trust cannot be determined.
pub open spec fn undeterminable_text(u: UndeterminableTrust) -> Seq<char> {
    match u {
        UndeterminableTrust::Unreadable(d) => "pins.json could not be read: "@ + d@,
        UndeterminableTrust::Unparseable(d) => "pins.json is not a trusted-name store werust can read: "@
            + d@,
        UndeterminableTrust::UnreadableEntry(d) => "pins.json records something werust cannot read honestly: "@
            + d@,
        UndeterminableTrust::DuplicateName(n) => "pins.json records two trusted-name pins for `"@
            + n@ + "`"@,
    }
}

impl UndeterminableTrust {
    /// The legible sentence the trust surface shows.
    pub fn message(&self) -> (r: String)
        ensures
            r@ == undeterminable_text(*self),
    {
        let mut out: Vec<char> = Vec::new();
        match self {
            UndeterminableTrust::Unreadable(d) => {
                push_str(&mut out, "pins.json could not be read: ");
                push_str(&mut out, d.as_str());
            },
            UndeterminableTrust::Unparseable(d) => {
                push_str(&mut out, "pins.json is not a trusted-name store werust can read: ");
                push_str(&mut out, d.as_str());
            },
            UndeterminableTrust::UnreadableEntry(d) => {
                push_str(&mut out, "pins.json records something werust cannot read honestly: ");
                push_str(&mut out, d.as_str());
            },
            UndeterminableTrust::DuplicateName(n) => {
                push_str(&mut out, "pins.json records two trusted-name pins for `");
                push_str(&mut out, n.as_str());
                push_str(&mut out, "`");
            },
        }
        assert(out@ =~= undeterminable_text(*self));
        string_of(out.as_slice())
    }
}

// ---------------------------------------------------------------------------
// The store.
// ---------------------------------------------------------------------------

/// What std's `str::to_lowercase` returns for a string: the Unicode lowercase
/// mapping of every character.
pub uninterp spec fn unicode_lowercase(s: Seq<char>) -> Seq<char>;

/// std's `str::to_lowercase`: the Unicode lowercase of `s`, as a function of
/// `s` alone.
#[verifier::external_body]
fn to_lowercase(s: &str) -> (r: String)
    ensures
        r@ == unicode_lowercase(s@),
{
    s.to_lowercase()
}

/// The canonical key of a name: trimmed, then lower-cased.
pub open spec fn spec_pin_key(name: Seq<char>) -> Seq<char> {
    unicode_lowercase(trim(name))
}

/// The canonical store key for a mutable name: trimmed and lower-cased, so
/// casing cannot split one name across two pins.
pub fn pin_key(name: &str) -> (r: String)
    ensures
        r@ == spec_pin_key(name@),
{
    let chars = chars_of(name);
    let trimmed = string_of(trim_vec(chars.as_slice()).as_slice());
    to_lowercase(trimmed.as_str())
}

/// The persisted trusted-name pins: at most one pin per name, kept sorted by
/// name.
#[derive(Debug, Clone, PartialEq, Eq)]
pub struct TrustedNamePins {
    pins: Vec<TrustedNamePin>,
}

/// The names of a run of pins are strictly increasing (so each occurs once).
pub open spec fn strictly_sorted(s: Seq<PinView>) -> bool {
    forall|i: int, j: int| 0 <= i < j < s.len() ==> seq_lt(#[trigger] s[i].name, #[trigger] s[j].name)
}

/// The pin recorded under key `k`, if any.
pub open spec fn pin_for(s: Seq<PinView>, k: Seq<char>) -> Option<PinView>
    decreases s.len(),
{
    if s.len() == 0 {
        None
    } else if s.last().name == k {
        Some(s.last())
    } else {
        pin_for(s.drop_last(), k)
    }
}

/// The pins of a vector as plain values.
pub open spec fn pins_view(v: Seq<TrustedNamePin>) -> Seq<PinView> {
    v.map_values(|p: TrustedNamePin| p@)
}

proof fn lemma_pin_for_found(s: Seq<PinView>, i: int)
    requires
        strictly_sorted(s),
        0 <= i < s.len(),
    ensures
        pin_for(s, s[i].name) == Some(s[i]),
    decreases s.len(),
{
    if i < s.len() - 1 {
        assert(seq_lt(s[i].name, s[s.len() - 1].name));
        lemma_seq_lt_trichotomy(s[i].name, s[s.len() - 1].name);
        assert(strictly_sorted(s.drop_last()));
        lemma_pin_for_found(s.drop_last(), i);
    }
}

proof fn lemma_pin_for_absent(s: Seq<PinView>, k: Seq<char>)
    requires
        forall|i: int| 0 <= i < s.len() ==> (#[trigger] s[i]).name != k,
    ensures
        pin_for(s, k) is None,
    decreases s.len(),
{
    if s.len() > 0 {
        assert(s.last().name != k);
        lemma_pin_for_absent(s.drop_last(), k);
    }
}

proof fn lemma_pin_for_some(s: Seq<PinView>, k: Seq<char>)
    ensures
        pin_for(s, k) matches Some(p) ==> p.name == k && s.contains(p),
        pin_for(s, k) is None ==> forall|i: int| 0 <= i < s.len() ==> (#[trigger] s[i]).name != k,
    decreases s.len(),
{
    if s.len() > 0 {
        lemma_pin_for_some(s.drop_last(), k);
        if pin_for(s, k) is Some && s.last().name != k {
            let p = pin_for(s, k)->0;
            let j = choose|j: int| 0 <= j < s.drop_last().len() && s.drop_last()[j] == p;
            assert(s[j] == p);
        }
        if pin_for(s, k) is Some && s.last().name == k {
            assert(s[s.len() - 1] == s.last());
        }
        if pin_for(s, k) is None {
            assert forall|i: int| 0 <= i < s.len() implies (#[trigger] s[i]).name != k by {
                if i < s.len() - 1 {
                    assert(s.drop_last()[i] == s[i]);
                }
            }
        }
    }
}

/// What a bless of `key` at `cid` does to a store: the key now holds the new
/// pin, every other key holds what it held, and the store grows only when the
/// key was new.
pub open spec fn blessed_into(
    before: Seq<PinView>,
    after: Seq<PinView>,
    key: Seq<char>,
    cid: Seq<char>,
    posture: TrustPosture,
    at: u64,
) -> bool {
    &&& pin_for(after, key) == Some(PinView { name: key, cid, blessed_at: at, posture })
    &&& forall|k: Seq<char>| k != key ==> #[trigger] pin_for(after, k) == pin_for(before, k)
    &&& after.len() == before.len() + if pin_for(before, key) is Some {
        0int
    } else {
        1int
    }
}

impl View for TrustedNamePins {
    type V = Seq<PinView>;

    closed spec fn view(&self) -> Seq<PinView> {
        pins_view(self.pins@)
    }
}

impl Default for TrustedNamePins {
    fn default() -> (r: Self)
        ensures
            r.wf(),
            r@ == Seq::<PinView>::empty(),
    {
        TrustedNamePins::new()
    }
}

impl TrustedNamePins {
    /// The store's invariant: names strictly increasing.
    pub closed spec fn wf(&self) -> bool {
        strictly_sorted(self@)
    }

    /// An empty store: a fresh install.
    pub fn new() -> (r: TrustedNamePins)
        ensures
            r.wf(),
            r@ == Seq::<PinView>::empty(),
    {
        let r = TrustedNamePins { pins: Vec::new() };
        assert(r@ =~= Seq::<PinView>::empty());
        r
    }

    /// Where key `key` is, or where it would go.
    fn position(&self, key: &[char]) -> (r: Result<usize, usize>)
        requires
            self.wf(),
        ensures
            match r {
                Ok(i) => i < self@.len() && self@[i as int].name == key@,
                Err(i) => i <= self@.len() && (forall|j: int|
                    0 <= j < i ==> seq_lt(#[trigger] self@[j].name, key@)) && (forall|j: int|
                    i <= j < self@.len() ==> seq_lt(key@, #[trigger] self@[j].name)),
            },
    {
        let mut i: usize = 0;
        while i < self.pins.len()
            invariant
                i <= self@.len(),
                self.wf(),
                self@ == pins_view(self.pins@),
                forall|j: int| 0 <= j < i ==> seq_lt(#[trigger] self@[j].name, key@),
            decreases self@.len() - i,
        {
            let name = chars_of(self.pins[i].name.as_str());
            assert(self@[i as int].name == name@);
            let c = order_chars(name.as_slice(), key);
            if c == 0 {
                return Ok(i);
            }
            if c > 0 {
                assert forall|j: int| i <= j < self@.len() implies seq_lt(
                    key@,
                    #[trigger] self@[j].name,
                ) by {
                    if j > i {
                        assert(seq_lt(self@[i as int].name, self@[j].name));
                        lemma_seq_lt_transitive(key@, self@[i as int].name, self@[j].name);
                    }
                }
                return Err(i);
            }
            i += 1;
        }
        Err(i)
    }

    /// The pin for `name`, or `None` when it has never been blessed. Looked
    /// up by [`pin_key`], so casing cannot split one name across two pins.
    pub fn get(&self, name: &str) -> (r: Option<&TrustedNamePin>)
        requires
            self.wf(),
        ensures
            match r {
                Some(p) => pin_for(self@, spec_pin_key(name@)) == Some(p@),
                None => pin_for(self@, spec_pin_key(name@)) is None,
            },
    {
        let key = pin_key(name);
        let kc = chars_of(key.as_str());
        match self.position(kc.as_slice()) {
            Ok(i) => {
                proof {
                    lemma_pin_for_found(self@, i as int);
                }
                Some(&self.pins[i])
            },
            Err(i) => {
                proof {
                    assert forall|j: int| 0 <= j < self@.len() implies (#[trigger] self@[j]).name
                        != kc@ by {
                        if j < i {
                            lemma_seq_lt_trichotomy(self@[j].name, kc@);
                        } else {
                            lemma_seq_lt_trichotomy(kc@, self@[j].name);
                        }
                    }
                    lemma_pin_for_absent(self@, kc@);
                }
                None
            },
        }
    }

    /// Record (or re-record) `name`'s current `cid` as blessed, with the
    /// posture werust was showing and the moment the user did it.
    ///
    /// Re-blessing a name replaces its pin, so the store always holds at most
    /// one pin per name.
    pub fn bless(&mut self, name: &str, cid: &str, posture: TrustPosture, blessed_at: u64)
        requires
            old(self).wf(),
        ensures
            final(self).wf(),
            blessed_into(old(self)@, final(self)@, spec_pin_key(name@), cid@, posture, blessed_at),
    {
        let key = pin_key(name);
        let kc = chars_of(key.as_str());
        let pin = TrustedNamePin { name: key, cid: crate::text::owned(cid), blessed_at, posture };
        let ghost pv = pin@;
        let ghost before = self@;
        proof {
            lemma_pin_for_some(before, kc@);
        }
        match self.position(kc.as_slice()) {
            Ok(i) => {
                proof {
                    lemma_pin_for_found(before, i as int);
                }
                self.pins.set(i, pin);
                assert(self@ =~= before.update(i as int, pv));
                assert(self.wf()) by {
                    assert forall|a: int, b: int| 0 <= a < b < self@.len() implies seq_lt(
                        #[trigger] self@[a].name,
                        #[trigger] self@[b].name,
                    ) by {
                        assert(before[a].name == self@[a].name);
                        assert(before[b].name == self@[b].name);
                    }
                }
                proof {
                    lemma_pin_for_found(self@, i as int);
                    assert forall|k: Seq<char>| k != kc@ implies #[trigger] pin_for(self@, k)
                        == pin_for(before, k) by {
                        lemma_pin_for_frame(before, self@, k, i as int);
                    }
                }
            },
            Err(i) => {
                self.insert_at(i, pin);
                proof {
                    lemma_pin_for_found(self@, i as int);
                    assert forall|k: Seq<char>| k != kc@ implies #[trigger] pin_for(self@, k)
                        == pin_for(before, k) by {
                        lemma_pin_for_insert_frame(before, self@, k, i as int);
                    }
                    assert(pin_for(before, kc@) is None) by {
                        assert forall|j: int| 0 <= j < before.len() implies (
                        #[trigger] before[j]).name != kc@ by {
                            if j < i {
                                lemma_seq_lt_trichotomy(before[j].name, kc@);
                            } else {
                                lemma_seq_lt_trichotomy(kc@, before[j].name);
                            }
                        }
                        lemma_pin_for_absent(before, kc@);
                    }
                }
            },
        }
    }

    /// Inserts `pin` at index `i`, where it sorts strictly between its
    /// neighbours.
    fn insert_at(&mut self, i: usize, pin: TrustedNamePin)
        requires
            old(self).wf(),
            i <= old(self)@.len(),
            forall|j: int| 0 <= j < i ==> seq_lt(#[trigger] old(self)@[j].name, pin@.name),
            forall|j: int|
                i <= j < old(self)@.len() ==> seq_lt(pin@.name, #[trigger] old(self)@[j].name),
        ensures
            final(self).wf(),
            final(self)@ == old(self)@.insert(i as int, pin@),
    {
        let ghost before = self@;
        let ghost pv = pin@;
        self.pins.insert(i, pin);
        assert(self@ =~= before.insert(i as int, pv));
        assert(self.wf()) by {
            assert forall|a: int, b: int| 0 <= a < b < self@.len() implies seq_lt(
                #[trigger] self@[a].name,
                #[trigger] self@[b].name,
            ) by {
                if a < i && b < i {
                } else if a < i && b == i {
                } else if a < i && b > i {
                    assert(self@[b] == before[b - 1]);
                    lemma_seq_lt_transitive(before[a].name, pv.name, before[b - 1].name);
                } else if a == i {
                    assert(self@[b] == before[b - 1]);
                } else {
                    assert(self@[a] == before[a - 1]);
                    assert(self@[b] == before[b - 1]);
                }
            }
        }
    }

    /// The [`MutableNameTrust`] for a name resolving to `cid` right now: the
    /// live identity paired with whatever is on file.
    pub fn check(&self, name: &str, cid: &str) -> (r: MutableNameTrust)
        requires
            self.wf(),
        ensures
            r.name@ == name@,
            r.cid@ == cid@,
            opt_pin_view(r.blessed) == pin_for(self@, spec_pin_key(name@)),
    {
        let blessed = match self.get(name) {
            Some(p) => Some(p.duplicate()),
            None => None,
        };
        MutableNameTrust { name: crate::text::owned(name), cid: crate::text::owned(cid), blessed }
    }

    /// How many names are blessed.
    pub fn len(&self) -> (r: usize)
        ensures
            r == self@.len(),
    {
        self.pins.len()
    }

    /// Whether nothing is blessed: a fresh install.
    pub fn is_empty(&self) -> (r: bool)
        ensures
            r == (self@.len() == 0),
    {
        self.pins.len() == 0
    }

    /// The pins, in name order.
    pub fn pins(&self) -> (r: &Vec<TrustedNamePin>)
        ensures
            pins_view(r@) == self@,
    {
        &self.pins
    }
}

/// Changing the pin at one index leaves every other key's pin as it was.
proof fn lemma_pin_for_frame(before: Seq<PinView>, after: Seq<PinView>, k: Seq<char>, i: int)
    requires
        strictly_sorted(before),
        strictly_sorted(after),
        0 <= i < before.len(),
        after.len() == before.len(),
        after[i].name == before[i].name,
        forall|j: int| 0 <= j < before.len() && j != i ==> after[j] == before[j],
        k != before[i].name,
    ensures
        pin_for(after, k) == pin_for(before, k),
{
    lemma_pin_for_some(before, k);
    lemma_pin_for_some(after, k);
    if let Some(p) = pin_for(before, k) {
        let j = choose|j: int| 0 <= j < before.len() && before[j] == p;
        lemma_pin_for_found(before, j);
        lemma_pin_for_found(after, j);
    } else if let Some(p) = pin_for(after, k) {
        let j = choose|j: int| 0 <= j < after.len() && after[j] == p;
        assert(before[j] == after[j]);
    }
}

/// Inserting a pin at one index leaves every other key's pin as it was.
proof fn lemma_pin_for_insert_frame(before: Seq<PinView>, after: Seq<PinView>, k: Seq<char>, i: int)
    requires
        strictly_sorted(before),
        strictly_sorted(after),
        0 <= i <= before.len(),
        after.len() == before.len() + 1,
        forall|j: int| 0 <= j < i ==> after[j] == before[j],
        forall|j: int| i < j < after.len() ==> after[j] == before[j - 1],
        k != after[i].name,
    ensures
        pin_for(after, k) == pin_for(before, k),
{
    lemma_pin_for_some(before, k);
    lemma_pin_for_some(after, k);
    if let Some(p) = pin_for(before, k) {
        let j = choose|j: int| 0 <= j < before.len() && before[j] == p;
        lemma_pin_for_found(before, j);
        if j < i {
            lemma_pin_for_found(after, j);
        } else {
            lemma_pin_for_found(after, j + 1);
        }
    } else if let Some(p) = pin_for(after, k) {
        let j = choose|j: int| 0 <= j < after.len() && after[j] == p;
        if j < i {
            assert(before[j] == after[j]);
        } else if j > i {
            assert(before[j - 1] == after[j]);
        }
    }
}

// ---------------------------------------------------------------------------
// Reading a persisted store.
// ---------------------------------------------------------------------------

/// One persisted entry as the document holds it: each field is `None` when
/// it is absent or not of the right JSON type.
#[derive(Debug, Clone, PartialEq, Eq)]
pub struct PinEntry {
    /// The `name` string.
    pub name: Option<String>,
    /// The `cid` string.
    pub cid: Option<String>,
    /// The `blessedAt` unsigned integer.
    pub blessed_at: Option<u64>,
    /// The `posture` string.
    pub posture: Option<String>,
}

/// An entry as plain values.
pub struct EntryView {
    pub name: Option<Seq<char>>,
    pub cid: Option<Seq<char>>,
    pub blessed_at: Option<u64>,
    pub posture: Option<Seq<char>>,
}

/// An optional string as an optional sequence.
pub open spec fn opt_str(o: Option<String>) -> Option<Seq<char>> {
    match o {
        Some(s) => Some(s@),
        None => None,
    }
}

impl View for PinEntry {
    type V = EntryView;

    open spec fn view(&self) -> EntryView {
        EntryView {
            name: opt_str(self.name),
            cid: opt_str(self.cid),
            blessed_at: self.blessed_at,
            posture: opt_str(self.posture),
        }
    }
}

/// The reason an entry cannot be read: `entry <n> <what>`.
pub open spec fn entry_reason(n: nat, what: Seq<char>) -> Seq<char> {
    "entry "@ + dec(n) + " "@ + what
}

/// `(`<key>`) <tail>`, the form a reason takes once the name is known.
pub open spec fn named(key: Seq<char>, tail: Seq<char>) -> Seq<char> {
    "(`"@ + key + "`) "@ + tail
}

/// The pin an entry records, or why it cannot be read honestly. `n` is the
/// entry's 1-based position.
pub open spec fn spec_read_entry(n: nat, e: EntryView) -> Result<PinView, Seq<char>> {
    match e.name {
        None => Err(entry_reason(n, "records no name"@)),
        Some(raw) => {
            let key = spec_pin_key(raw);
            if key.len() == 0 {
                Err(entry_reason(n, "records an empty name"@))
            } else if !(e.cid matches Some(c) && c.len() > 0) {
                Err(entry_reason(n, named(key, "records no cid"@)))
            } else if e.blessed_at is None {
                Err(entry_reason(n, named(key, "records no bless timestamp"@)))
            } else if e.posture is None {
                Err(entry_reason(n, named(key, "records no trust posture"@)))
            } else if posture_from_wire(e.posture->0) is None {
                Err(
                    entry_reason(
                        n,
                        named(
                            key,
                            "records a trust posture this build does not know: `"@ + e.posture->0
                                + "`"@,
                        ),
                    ),
                )
            } else {
                Ok(
                    PinView {
                        name: key,
                        cid: e.cid->0,
                        blessed_at: e.blessed_at->0,
                        posture: posture_from_wire(e.posture->0)->0,
                    },
                )
            }
        },
    }
}

/// The pins of a run of entries, or the first entry's reason it cannot be
/// read.
pub open spec fn read_all(es: Seq<EntryView>) -> Result<Seq<PinView>, Seq<char>>
    decreases es.len(),
{
    if es.len() == 0 {
        Ok(Seq::empty())
    } else {
        match read_all(es.drop_last()) {
            Err(r) => Err(r),
            Ok(ps) => match spec_read_entry(es.len(), es.last()) {
                Err(r) => Err(r),
                Ok(p) => Ok(ps.push(p)),
            },
        }
    }
}

/// The entries of a vector as plain values.
pub open spec fn entries_view(es: Seq<PinEntry>) -> Seq<EntryView> {
    es.map_values(|e: PinEntry| e@)
}

/// Whether key `k` is recorded twice in `ps`.
pub open spec fn occurs_twice(ps: Seq<PinView>, k: Seq<char>) -> bool {
    exists|i: int, j: int| 0 <= i < j < ps.len() && #[trigger] ps[i].name == k && #[trigger] ps[j].name == k
}

/// Whether key `k` is recorded in `ps`.
pub open spec fn has_key(ps: Seq<PinView>, k: Seq<char>) -> bool {
    exists|i: int| 0 <= i < ps.len() && #[trigger] ps[i].name == k
}

fn push_named(out: &mut Vec<char>, key: &[char], tail: &str)
    ensures
        final(out)@ == old(out)@ + named(key@, tail@),
{
    push_str(out, "(`");
    push_all(out, key);
    push_str(out, "`) ");
    push_str(out, tail);
    assert(final(out)@ =~= old(out)@ + named(key@, tail@));
}

/// One persisted entry read as a pin, or why it cannot be read honestly.
fn read_entry(index: usize, entry: &PinEntry) -> (r: Result<TrustedNamePin, String>)
    requires
        index < usize::MAX,
    ensures
        match r {
            Ok(p) => spec_read_entry(index as nat + 1, entry@) == Ok::<PinView, Seq<char>>(p@),
            Err(reason) => spec_read_entry(index as nat + 1, entry@) == Err::<PinView, Seq<char>>(
                reason@,
            ),
        },
{
    let n = index + 1;
    let mut out: Vec<char> = Vec::new();
    push_str(&mut out, "entry ");
    push_dec(&mut out, n as u64);
    push_str(&mut out, " ");
    let ghost head = out@;
    assert(head =~= "entry "@ + dec(n as nat) + " "@);
    let raw = match &entry.name {
        None => {
            push_str(&mut out, "records no name");
            assert(out@ =~= entry_reason(n as nat, "records no name"@));
            return Err(string_of(out.as_slice()));
        },
        Some(raw) => raw,
    };
    let key = pin_key(raw.as_str());
    let kc = chars_of(key.as_str());
    if kc.len() == 0 {
        push_str(&mut out, "records an empty name");
        assert(out@ =~= entry_reason(n as nat, "records an empty name"@));
        return Err(string_of(out.as_slice()));
    }
    let cid = match &entry.cid {
        Some(c) if !c.as_str().is_empty() => c,
        _ => {
            proof {
                if entry.cid is Some {
                    assert(entry.cid->0@.len() == 0);
                }
            }
            push_named(&mut out, kc.as_slice(), "records no cid");
            assert(out@ =~= entry_reason(n as nat, named(kc@, "records no cid"@)));
            return Err(string_of(out.as_slice()));
        },
    };
    let at = match entry.blessed_at {
        Some(t) => t,
        None => {
            push_named(&mut out, kc.as_slice(), "records no bless timestamp");
            assert(out@ =~= entry_reason(n as nat, named(kc@, "records no bless timestamp"@)));
            return Err(string_of(out.as_slice()));
        },
    };
    let spelling = match &entry.posture {
        Some(p) => p,
        None => {
            push_named(&mut out, kc.as_slice(), "records no trust posture");
            assert(out@ =~= entry_reason(n as nat, named(kc@, "records no trust posture"@)));
            return Err(string_of(out.as_slice()));
        },
    };
    let posture = match trust_posture_from_wire_name(spelling.as_str()) {
        Some(p) => p,
        None => {
            let mut tail: Vec<char> = Vec::new();
            push_str(&mut tail, "records a trust posture this build does not know: `");
            push_str(&mut tail, spelling.as_str());
            push_str(&mut tail, "`");
            let ghost what = "records a trust posture this build does not know: `"@ + spelling@
                + "`"@;
            assert(tail@ =~= what);
            push_str(&mut out, "(`");
            push_all(&mut out, kc.as_slice());
            push_str(&mut out, "`) ");
            push_all(&mut out, tail.as_slice());
            assert(out@ =~= entry_reason(n as nat, named(kc@, what)));
            return Err(string_of(out.as_slice()));
        },
    };
    Ok(TrustedNamePin { name: key, cid: cid.clone(), blessed_at: at, posture })
}

proof fn lemma_read_all_err_prefix(es: Seq<EntryView>, k: int)
    requires
        0 <= k <= es.len(),
        read_all(es.take(k)) is Err,
    ensures
        read_all(es) == read_all(es.take(k)),
    decreases es.len() - k,
{
    if k < es.len() {
        assert(es.take(k + 1).drop_last() =~= es.take(k));
        lemma_read_all_err_prefix(es, k + 1);
    } else {
        assert(es.take(k) =~= es);
    }
}

/// What reading a run of persisted entries gives: the first entry's reason
/// it cannot be read; else the first name, in name order, recorded twice;
/// else a store holding exactly the entries' pins.
pub open spec fn store_read_from(
    es: Seq<EntryView>,
    r: Result<TrustedNamePins, UndeterminableTrust>,
) -> bool {
    match read_all(es) {
        Err(reason) => r matches Err(UndeterminableTrust::UnreadableEntry(m)) && m@ == reason,
        Ok(ps) => if exists|k: Seq<char>| #[trigger] occurs_twice(ps, k) {
            r matches Err(UndeterminableTrust::DuplicateName(d)) && occurs_twice(ps, d@) && forall|
                k: Seq<char>,
            | #[trigger] occurs_twice(ps, k) ==> !seq_lt(k, d@)
        } else {
            r matches Ok(store) && store.wf() && store@.len() == ps.len() && forall|p: PinView|
                #[trigger] store@.contains(p) <==> ps.contains(p)
        },
    }
}

impl TrustedNamePins {
    /// The store a run of persisted entries records, or why trust cannot be
    /// determined from them.
    ///
    /// Every failure reports instead of shrinking the store: the first entry
    /// that cannot be read honestly is
    /// [`UnreadableEntry`](UndeterminableTrust::UnreadableEntry), and a name
    /// recorded twice is [`DuplicateName`](UndeterminableTrust::DuplicateName)
    /// (the first such name in name order).
    pub fn from_entries(entries: &Vec<PinEntry>) -> (r: Result<TrustedNamePins, UndeterminableTrust>)
        ensures
            store_read_from(entries_view(entries@), r),
    {
        let ghost ev = entries_view(entries@);
        let mut read: Vec<TrustedNamePin> = Vec::new();
        let mut i: usize = 0;
        assert(ev.take(0) =~= Seq::<EntryView>::empty());
        assert(pins_view(read@) =~= Seq::<PinView>::empty());
        while i < entries.len()
            invariant
                i <= entries@.len(),
                ev == entries_view(entries@),
                read_all(ev.take(i as int)) == Ok::<Seq<PinView>, Seq<char>>(pins_view(read@)),
            decreases entries@.len() - i,
        {
            assert(ev.take(i as int + 1).drop_last() =~= ev.take(i as int));
            assert(ev.take(i as int + 1).last() == entries@[i as int]@);
            assert(ev.take(i as int + 1).len() == i + 1);
            match read_entry(i, &entries[i]) {
                Ok(p) => {
                    let ghost before = read@;
                    read.push(p);
                    assert(pins_view(read@) =~= pins_view(before).push(p@));
                },
                Err(reason) => {
                    proof {
                        lemma_read_all_err_prefix(ev, i as int + 1);
                    }
                    return Err(UndeterminableTrust::UnreadableEntry(reason));
                },
            }
            i += 1;
        }
        assert(ev.take(ev.len() as int) =~= ev);
        let ghost ps = pins_view(read@);
        let mut store = TrustedNamePins::new();
        let mut dup: Option<Vec<char>> = None;
        let mut j: usize = 0;
        while j < read.len()
            invariant
                j <= read@.len(),
                ps == pins_view(read@),
                store.wf(),
                forall|k: Seq<char>| #[trigger] has_key(store@, k) <==> has_key(ps.take(j as int), k),
                match dup {
                    None => (forall|k: Seq<char>| !#[trigger] occurs_twice(ps.take(j as int), k))
                        && store@.len() == j && forall|p: PinView| #[trigger] store@.contains(p)
                        <==> ps.take(j as int).contains(p),
                    Some(d) => occurs_twice(ps.take(j as int), d@) && forall|k: Seq<char>|
                        #[trigger] occurs_twice(ps.take(j as int), k) ==> !seq_lt(k, d@),
                },
            decreases read@.len() - j,
        {
            let ghost pre = ps.take(j as int);
            let ghost post = ps.take(j as int + 1);
            let ghost pj = ps[j as int];
            assert(post =~= pre.push(pj));
            assert(read@[j as int]@ == pj);
            let key = chars_of(read[j].name.as_str());
            let ghost old_store = store@;
            let ghost old_dup = dup;
            match store.position(key.as_slice()) {
                Ok(q) => {
                    // `key` is already recorded: it occurs twice.
                    proof {
                        assert(has_key(old_store, key@));
                        assert(has_key(pre, key@));
                        let a = choose|a: int| 0 <= a < pre.len() && #[trigger] pre[a].name == key@;
                        assert(post[a].name == key@ && post[j as int].name == key@);
                        assert(occurs_twice(post, key@));
                        lemma_occurs_twice_step(pre, pj);
                    }
                    let better = match &dup {
                        None => true,
                        Some(d) => order_chars(key.as_slice(), d.as_slice()) < 0,
                    };
                    if better {
                        proof {
                            if let Some(d) = old_dup {
                                assert forall|k: Seq<char>| #[trigger] occurs_twice(post, k) implies !seq_lt(k, key@) by {
                                    if occurs_twice(pre, k) {
                                        assert(!seq_lt(k, d@));
                                        lemma_seq_lt_trichotomy(k, d@);
                                        if seq_lt(k, key@) {
                                            if k == d@ {
                                            } else {
                                                lemma_seq_lt_transitive(d@, k, key@);
                                            }
                                        }
                                        lemma_seq_lt_trichotomy(d@, key@);
                                    } else {
                                        lemma_seq_lt_trichotomy(k, key@);
                                    }
                                }
                            } else {
                                assert forall|k: Seq<char>| #[trigger] occurs_twice(post, k) implies !seq_lt(k, key@) by {
                                    lemma_seq_lt_trichotomy(k, key@);
                                }
                            }
                        }
                        dup = Some(key);
                    } else {
                        proof {
                            let d = old_dup->0;
                            assert(!seq_lt(key@, d@));
                            assert forall|k: Seq<char>| #[trigger] occurs_twice(post, k) implies !seq_lt(k, d@) by {
                                if !occurs_twice(pre, k) {
                                    assert(k == key@);
                                }
                            }
                            assert(occurs_twice(post, d@)) by {
                                lemma_occurs_twice_mono(pre, pj, d@);
                            }
                        }
                    }
                    proof {
                        assert forall|k: Seq<char>| #[trigger] has_key(store@, k) <==> has_key(post, k) by {
                            lemma_has_key_push(pre, pj, k);
                        }
                    }
                },
                Err(q) => {
                    let pin = read[j].duplicate();
                    store.insert_at(q, pin);
                    proof {
                        assert(store@ =~= old_store.insert(q as int, pj));
                        assert forall|k: Seq<char>| #[trigger] has_key(store@, k) <==> has_key(post, k) by {
                            lemma_has_key_push(pre, pj, k);
                            lemma_has_key_insert(old_store, q as int, pj, k);
                        }
                        assert(!has_key(pre, key@)) by {
                            if has_key(old_store, key@) {
                                let a = choose|a: int| 0 <= a < old_store.len() && #[trigger] old_store[a].name == key@;
                                if a < q {
                                    lemma_seq_lt_trichotomy(old_store[a].name, key@);
                                } else {
                                    lemma_seq_lt_trichotomy(key@, old_store[a].name);
                                }
                            }
                        }
                        lemma_occurs_twice_new(pre, pj);
                        match old_dup {
                            None => {
                                assert forall|p: PinView| #[trigger] store@.contains(p) <==> post.contains(p) by {
                                    lemma_contains_insert(old_store, q as int, pj, p);
                                    lemma_contains_push(pre, pj, p);
                                }
                            },
                            Some(d) => {
                                lemma_occurs_twice_mono(pre, pj, d@);
                            },
                        }
                    }
                },
            }
            j += 1;
        }
        assert(ps.take(ps.len() as int) =~= ps);
        match dup {
            Some(d) => Err(UndeterminableTrust::DuplicateName(string_of(d.as_slice()))),
            None => Ok(store),
        }
    }
}

proof fn lemma_has_key_push(ps: Seq<PinView>, p: PinView, k: Seq<char>)
    ensures
        has_key(ps.push(p), k) <==> has_key(ps, k) || p.name == k,
{
    if has_key(ps, k) {
        let a = choose|a: int| 0 <= a < ps.len() && #[trigger] ps[a].name == k;
        assert(ps.push(p)[a].name == k);
    }
    if p.name == k {
        assert(ps.push(p)[ps.len() as int].name == k);
    }
    if has_key(ps.push(p), k) {
        let a = choose|a: int| 0 <= a < ps.push(p).len() && #[trigger] ps.push(p)[a].name == k;
        if a < ps.len() {
            assert(ps[a].name == k);
        }
    }
}

proof fn lemma_has_key_insert(s: Seq<PinView>, q: int, p: PinView, k: Seq<char>)
    requires
        0 <= q <= s.len(),
    ensures
        has_key(s.insert(q, p), k) <==> has_key(s, k) || p.name == k,
{
    let t = s.insert(q, p);
    if has_key(s, k) {
        let a = choose|a: int| 0 <= a < s.len() && #[trigger] s[a].name == k;
        if a < q {
            assert(t[a].name == k);
        } else {
            assert(t[a + 1].name == k);
        }
    }
    if p.name == k {
        assert(t[q].name == k);
    }
    if has_key(t, k) {
        let a = choose|a: int| 0 <= a < t.len() && #[trigger] t[a].name == k;
        if a < q {
            assert(s[a].name == k);
        } else if a > q {
            assert(s[a - 1].name == k);
        }
    }
}

proof fn lemma_contains_insert(s: Seq<PinView>, q: int, p: PinView, x: PinView)
    requires
        0 <= q <= s.len(),
    ensures
        s.insert(q, p).contains(x) <==> s.contains(x) || x == p,
{
    let t = s.insert(q, p);
    if s.contains(x) {
        let a = choose|a: int| 0 <= a < s.len() && s[a] == x;
        if a < q {
            assert(t[a] == x);
        } else {
            assert(t[a + 1] == x);
        }
    }
    if x == p {
        assert(t[q] == x);
    }
    if t.contains(x) {
        let a = choose|a: int| 0 <= a < t.len() && t[a] == x;
        if a < q {
            assert(s[a] == x);
        } else if a > q {
            assert(s[a - 1] == x);
        }
    }
}

proof fn lemma_contains_push(s: Seq<PinView>, p: PinView, x: PinView)
    ensures
        s.push(p).contains(x) <==> s.contains(x) || x == p,
{
    let t = s.push(p);
    if s.contains(x) {
        let a = choose|a: int| 0 <= a < s.len() && s[a] == x;
        assert(t[a] == x);
    }
    if x == p {
        assert(t[s.len() as int] == x);
    }
    if t.contains(x) {
        let a = choose|a: int| 0 <= a < t.len() && t[a] == x;
        if a < s.len() {
            assert(s[a] == x);
        }
    }
}

proof fn lemma_occurs_twice_mono(ps: Seq<PinView>, p: PinView, k: Seq<char>)
    requires
        occurs_twice(ps, k),
    ensures
        occurs_twice(ps.push(p), k),
{
    let (a, b) = choose|a: int, b: int| 0 <= a < b < ps.len() && #[trigger] ps[a].name == k && #[trigger] ps[b].name == k;
    assert(ps.push(p)[a].name == k && ps.push(p)[b].name == k);
}

/// A key that occurs twice after a push occurred twice before, or is the
/// pushed key and occurred before.
proof fn lemma_occurs_twice_step(ps: Seq<PinView>, p: PinView)
    ensures
        forall|k: Seq<char>| #[trigger] occurs_twice(ps.push(p), k) ==> occurs_twice(ps, k) || (k
            == p.name && has_key(ps, k)),
{
    assert forall|k: Seq<char>| #[trigger] occurs_twice(ps.push(p), k) implies occurs_twice(ps, k)
        || (k == p.name && has_key(ps, k)) by {
        let t = ps.push(p);
        let (a, b) = choose|a: int, b: int| 0 <= a < b < t.len() && #[trigger] t[a].name == k && #[trigger] t[b].name == k;
        if b < ps.len() {
            assert(ps[a].name == k && ps[b].name == k);
        } else {
            assert(ps[a].name == k);
        }
    }
}

/// Pushing a key not yet present adds no repeated key.
proof fn lemma_occurs_twice_new(ps: Seq<PinView>, p: PinView)
    requires
        !has_key(ps, p.name),
    ensures
        forall|k: Seq<char>| #[trigger] occurs_twice(ps.push(p), k) ==> occurs_twice(ps, k),
{
    lemma_occurs_twice_step(ps, p);
}

// ---------------------------------------------------------------------------
// The persisted wire form.
// ---------------------------------------------------------------------------

/// One pin's members in the wire form, keys in order:
/// `blessedAt`, `cid`, `name`, `posture` (the wire name).
pub open spec fn pin_members(p: PinView) -> Seq<(Seq<char>, ScalarView)> {
    seq![
        ("blessedAt"@, ScalarView::Num(p.blessed_at)),
        ("cid"@, ScalarView::Str(p.cid)),
        ("name"@, ScalarView::Str(p.name)),
        ("posture"@, ScalarView::Str(posture_wire(p.posture))),
    ]
}

/// The whole store in the wire form:
/// `{"pins":[{"blessedAt":…,"cid":"…","name":"…","posture":"…"},…]}`.
pub open spec fn pins_json(ps: Seq<PinView>) -> Seq<char> {
    document_text("pins"@, ps.map_values(|p: PinView| pin_members(p)), Seq::empty())
}

/// Pins that a read accepts as they are: each name already in its key form
/// and not empty, each CID not empty. Every pin a bless records has a key
/// form name; the CID is what the caller handed it.
pub open spec fn pins_readable(ps: Seq<PinView>) -> bool {
    forall|i: int|
        0 <= i < ps.len() ==> spec_pin_key(#[trigger] ps[i].name) == ps[i].name && ps[i].name.len() > 0
            && ps[i].cid.len() > 0
}

/// The entry that records a pin with every field present.
pub open spec fn full_entry(p: PinView) -> EntryView {
    EntryView {
        name: Some(p.name),
        cid: Some(p.cid),
        blessed_at: Some(p.blessed_at),
        posture: Some(posture_wire(p.posture)),
    }
}

/// The entry a JSON element records: each field read with its JSON type.
pub open spec fn entry_of_json(t: Seq<char>) -> EntryView {
    EntryView {
        name: json_str_at(t, "name"@),
        cid: json_str_at(t, "cid"@),
        blessed_at: json_u64_at(t, "blessedAt"@),
        posture: json_str_at(t, "posture"@),
    }
}

/// What reading a persisted document gives: not JSON, or no `pins` array, is
/// [`Unparseable`](UndeterminableTrust::Unparseable); otherwise what its
/// entries record.
pub open spec fn store_read_from_json(
    text: Seq<char>,
    r: Result<TrustedNamePins, UndeterminableTrust>,
) -> bool {
    match json_parse_error(text) {
        Some(e) => r matches Err(UndeterminableTrust::Unparseable(m)) && m@ == e,
        None => match json_array_at(text, "pins"@) {
            None => r matches Err(UndeterminableTrust::Unparseable(m)) && m@ == "no `pins` array"@,
            Some(items) => store_read_from(items.map_values(|t: Seq<char>| entry_of_json(t)), r),
        },
    }
}

/// A pin's members are written in key order, and each reads back as
/// written.
proof fn lemma_pin_members_read(p: PinView)
    ensures
        keys_sorted(pin_members(p)),
        num_member(pin_members(p), "blessedAt"@) == Some(p.blessed_at),
        str_member(pin_members(p), "cid"@) == Some(p.cid),
        str_member(pin_members(p), "name"@) == Some(p.name),
        str_member(pin_members(p), "posture"@) == Some(posture_wire(p.posture)),
        str_member(pin_members(p), "blessedAt"@) is None,
        num_member(pin_members(p), "cid"@) is None,
        num_member(pin_members(p), "name"@) is None,
        num_member(pin_members(p), "posture"@) is None,
{
    reveal_strlit("blessedAt");
    reveal_strlit("cid");
    reveal_strlit("name");
    reveal_strlit("posture");
    let ms = pin_members(p);
    let k0 = "blessedAt"@;
    let k1 = "cid"@;
    let k2 = "name"@;
    let k3 = "posture"@;
    assert(k0[0] != k1[0] && k0[0] != k2[0] && k0[0] != k3[0]);
    assert(k1[0] != k2[0] && k1[0] != k3[0] && k2[0] != k3[0]);
    assert(seq_lt(k0, k1) && seq_lt(k0, k2) && seq_lt(k0, k3));
    assert(seq_lt(k1, k2) && seq_lt(k1, k3) && seq_lt(k2, k3));
    let m3 = ms.drop_last();
    let m2 = m3.drop_last();
    let m1 = m2.drop_last();
    assert(m1 =~= seq![(k0, ScalarView::Num(p.blessed_at))]);
    assert(m1.drop_last() =~= Seq::<(Seq<char>, ScalarView)>::empty());
    assert(member_value(ms, k3) == Some(ScalarView::Str(posture_wire(p.posture))));
    assert(member_value(m3, k2) == Some(ScalarView::Str(p.name)));
    assert(member_value(ms, k2) == member_value(m3, k2));
    assert(member_value(m2, k1) == Some(ScalarView::Str(p.cid)));
    assert(member_value(ms, k1) == member_value(m3, k1));
    assert(member_value(m3, k1) == member_value(m2, k1));
    assert(member_value(m1, k0) == Some(ScalarView::Num(p.blessed_at)));
    assert(member_value(ms, k0) == member_value(m3, k0));
    assert(member_value(m3, k0) == member_value(m2, k0));
    assert(member_value(m2, k0) == member_value(m1, k0));
}

/// A run of readable pins, each recorded with every field, reads back as
/// exactly those pins.
proof fn lemma_read_all_full(ps: Seq<PinView>)
    requires
        pins_readable(ps),
    ensures
        read_all(ps.map_values(|p: PinView| full_entry(p))) == Ok::<Seq<PinView>, Seq<char>>(ps),
    decreases ps.len(),
{
    let es = ps.map_values(|p: PinView| full_entry(p));
    if ps.len() > 0 {
        let init = ps.drop_last();
        assert forall|i: int| 0 <= i < init.len() implies spec_pin_key(#[trigger] init[i].name)
            == init[i].name && init[i].name.len() > 0 && init[i].cid.len() > 0 by {
            assert(init[i] == ps[i]);
        }
        lemma_read_all_full(init);
        assert(es.drop_last() =~= init.map_values(|p: PinView| full_entry(p)));
        let last = ps.last();
        assert(ps[ps.len() - 1] == last);
        assert(spec_pin_key(ps[ps.len() - 1].name) == ps[ps.len() - 1].name);
        assert(es.last() == full_entry(last));
        crate::chrome::law_posture_wire_round_trips(last.posture);
        assert(last.name.len() > 0 && last.cid.len() > 0);
        assert(spec_read_entry(es.len(), es.last()) == Ok::<PinView, Seq<char>>(last));
        assert(read_all(es.drop_last()) == Ok::<Seq<PinView>, Seq<char>>(init));
        assert(read_all(es) == Ok::<Seq<PinView>, Seq<char>>(init.push(last)));
        assert(init.push(last) =~= ps);
    } else {
        assert(ps =~= Seq::<PinView>::empty());
    }
}

/// In a store whose names strictly increase, no name occurs twice.
proof fn lemma_sorted_no_twice(ps: Seq<PinView>, k: Seq<char>)
    requires
        strictly_sorted(ps),
    ensures
        !occurs_twice(ps, k),
{
    if occurs_twice(ps, k) {
        let (i, j) = choose|i: int, j: int| 0 <= i < j < ps.len() && #[trigger] ps[i].name == k && #[trigger] ps[j].name == k;
        assert(seq_lt(ps[i].name, ps[j].name));
        lemma_seq_lt_trichotomy(k, k);
    }
}

/// Two stores whose names strictly increase and that hold the same pins
/// are the same store.
proof fn lemma_sorted_same_pins(a: Seq<PinView>, b: Seq<PinView>)
    requires
        strictly_sorted(a),
        strictly_sorted(b),
        a.len() == b.len(),
        forall|p: PinView| #[trigger] a.contains(p) <==> b.contains(p),
    ensures
        a == b,
    decreases a.len(),
{
    if a.len() > 0 {
        let n = a.len() - 1;
        let x = a[n];
        let y = b[n];
        assert(a.contains(x));
        assert(b.contains(x));
        assert(b.contains(y));
        assert(a.contains(y));
        let j = choose|j: int| 0 <= j < b.len() && b[j] == x;
        let i = choose|i: int| 0 <= i < a.len() && a[i] == y;
        if j < n {
            assert(seq_lt(b[j].name, b[n].name));
            if i < n {
                assert(seq_lt(a[i].name, a[n].name));
                lemma_seq_lt_trichotomy(x.name, y.name);
            } else {
                lemma_seq_lt_trichotomy(x.name, y.name);
            }
        }
        assert(x == y);
        let a2 = a.drop_last();
        let b2 = b.drop_last();
        assert forall|p: PinView| #[trigger] a2.contains(p) <==> b2.contains(p) by {
            if a2.contains(p) {
                let u = choose|u: int| 0 <= u < a2.len() && a2[u] == p;
                assert(a.contains(p)) by {
                    assert(a[u] == p);
                }
                let v = choose|v: int| 0 <= v < b.len() && b[v] == p;
                assert(seq_lt(a[u].name, a[n].name));
                if v == n {
                    lemma_seq_lt_trichotomy(p.name, p.name);
                }
                assert(b2[v] == p);
            }
            if b2.contains(p) {
                let v = choose|v: int| 0 <= v < b2.len() && b2[v] == p;
                assert(b.contains(p)) by {
                    assert(b[v] == p);
                }
                assert(a.contains(p));
                let u = choose|u: int| 0 <= u < a.len() && a[u] == p;
                assert(seq_lt(b[v].name, b[n].name));
                if u == n {
                    lemma_seq_lt_trichotomy(p.name, p.name);
                }
                assert(a2[u] == p);
            }
        }
        lemma_sorted_same_pins(a2, b2);
        assert(a =~= a2.push(x));
        assert(b =~= b2.push(y));
    }
}

impl TrustedNamePin {
    /// This pin's members in the wire form.
    fn wire_members(&self) -> (r: Vec<(String, JsonScalar)>)
        ensures
            members_view(r@) == pin_members(self@),
    {
        let mut ms: Vec<(String, JsonScalar)> = Vec::new();
        ms.push((owned("blessedAt"), JsonScalar::Num(self.blessed_at)));
        ms.push((owned("cid"), JsonScalar::Str(self.cid.clone())));
        ms.push((owned("name"), JsonScalar::Str(self.name.clone())));
        ms.push((owned("posture"), JsonScalar::Str(owned(trust_posture_wire_name(self.posture)))));
        assert(members_view(ms@) =~= pin_members(self@));
        ms
    }
}

impl TrustedNamePins {
    /// Serialize to the persisted wire form:
    /// `{"pins":[{"blessedAt":…,"cid":…,"name":…,"posture":"<wire name>"}]}`,
    /// the pins in name order, the posture in the shared wire vocabulary.
    ///
    /// Reading the text back gives this store again: a well-formed store of
    /// readable pins (names in key form, CIDs not empty) is exactly what
    /// [`from_json`](TrustedNamePins::from_json) returns for it.
    pub fn to_json(&self) -> (r: String)
        ensures
            r@ == pins_json(self@),
            self.wf() && pins_readable(self@) ==> store_read_from_json(
                r@,
                Ok::<TrustedNamePins, UndeterminableTrust>(*self),
            ),
            self.wf() && pins_readable(self@) ==> forall|q: Result<TrustedNamePins, UndeterminableTrust>|
                #[trigger] store_read_from_json(r@, q) ==> (q matches Ok(s) && s@ == self@),
    {
        let mut objects: Vec<Vec<(String, JsonScalar)>> = Vec::new();
        let mut i: usize = 0;
        while i < self.pins.len()
            invariant
                i <= self.pins@.len(),
                objects_view(objects@) =~= self@.take(i as int).map_values(
                    |p: PinView| pin_members(p),
                ),
            decreases self.pins@.len() - i,
        {
            let ms = self.pins[i].wire_members();
            let ghost before = objects@;
            objects.push(ms);
            proof {
                assert(self@[i as int] == self.pins@[i as int]@);
                assert(self@.take(i as int + 1) =~= self@.take(i as int).push(self@[i as int]));
                assert(objects_view(objects@) =~= objects_view(before).push(members_view(ms@)));
            }
            i += 1;
        }
        let ghost os = objects_view(objects@);
        proof {
            assert(self@.take(self@.len() as int) =~= self@);
            assert forall|j: int| 0 <= j < objects@.len() implies keys_sorted(#[trigger] objects_view(objects@)[j]) by {
                lemma_pin_members_read(self@[j]);
            }
        }
        let rest: Vec<(String, JsonScalar)> = Vec::new();
        proof {
            assert(members_view(rest@) =~= Seq::<(Seq<char>, ScalarView)>::empty());
        }
        let r = json_document("pins", &objects, &rest);
        proof {
            if self.wf() && pins_readable(self@) {
                let items = json_array_at(r@, "pins"@)->0;
                let es = items.map_values(|t: Seq<char>| entry_of_json(t));
                assert forall|j: int| 0 <= j < es.len() implies #[trigger] es[j] == full_entry(self@[j]) by {
                    lemma_pin_members_read(self@[j]);
                    assert(os[j] == pin_members(self@[j]));
                    assert(json_str_at(items[j], "name"@) == str_member(os[j], "name"@));
                    assert(json_str_at(items[j], "cid"@) == str_member(os[j], "cid"@));
                    assert(json_str_at(items[j], "posture"@) == str_member(os[j], "posture"@));
                    assert(json_u64_at(items[j], "blessedAt"@) == num_member(os[j], "blessedAt"@));
                }
                assert(es =~= self@.map_values(|p: PinView| full_entry(p)));
                lemma_read_all_full(self@);
                assert forall|k: Seq<char>| !#[trigger] occurs_twice(self@, k) by {
                    lemma_sorted_no_twice(self@, k);
                }
                assert(store_read_from_json(r@, Ok::<TrustedNamePins, UndeterminableTrust>(*self)));
                assert forall|q: Result<TrustedNamePins, UndeterminableTrust>|
                    #[trigger] store_read_from_json(r@, q) implies (q matches Ok(s) && s@ == self@) by {
                    let s = q->Ok_0;
                    lemma_sorted_same_pins(s@, self@);
                }
            }
        }
        r
    }

    /// Parse the persisted wire form, or say why trust cannot be determined
    /// from this document: not this wire form is
    /// [`Unparseable`](UndeterminableTrust::Unparseable); otherwise as
    /// [`from_entries`](TrustedNamePins::from_entries) reads its entries.
    pub fn from_json(text: &str) -> (r: Result<Self, UndeterminableTrust>)
        ensures
            store_read_from_json(text@, r),
    {
        match json_error(text) {
            Some(e) => {
                return Err(UndeterminableTrust::Unparseable(e));
            },
            None => {},
        }
        let items = match json_array_field(text, "pins") {
            Some(v) => v,
            None => {
                return Err(UndeterminableTrust::Unparseable(owned("no `pins` array")));
            },
        };
        let ghost want = items@.map_values(|s: String| s@).map_values(
            |t: Seq<char>| entry_of_json(t),
        );
        let mut entries: Vec<PinEntry> = Vec::new();
        let mut i: usize = 0;
        while i < items.len()
            invariant
                i <= items@.len(),
                want == items@.map_values(|s: String| s@).map_values(
                    |t: Seq<char>| entry_of_json(t),
                ),
                entries_view(entries@) =~= want.take(i as int),
            decreases items@.len() - i,
        {
            let t = items[i].as_str();
            let e = PinEntry {
                name: json_str_field(t, "name"),
                cid: json_str_field(t, "cid"),
                blessed_at: json_u64_field(t, "blessedAt"),
                posture: json_str_field(t, "posture"),
            };
            assert(e@ == entry_of_json(items@[i as int]@));
            let ghost before = entries@;
            entries.push(e);
            assert(entries_view(entries@) =~= entries_view(before).push(e@));
            i += 1;
        }
        assert(want.take(items@.len() as int) =~= want);
        Self::from_entries(&entries)
    }
}

// ---------------------------------------------------------------------------
// The three answers a read of the store gives.
// ---------------------------------------------------------------------------

/// The outcome of reading the trusted-name pin store.
#[derive(Debug, Clone, PartialEq, Eq)]
pub enum PinStoreRead {
    /// There is nowhere durable to read from at all. Not an empty store.
    NoStore,
    /// The store as recorded; an absent file is an empty one.
    Pins(TrustedNamePins),
    /// werust cannot determine what is blessed, and will not write until it can.
    Undeterminable(UndeterminableTrust),
}

impl PinStoreRead {
    /// A read of a store that exists: its pins, or why trust cannot be
    /// determined.
    pub fn from_read(read: Result<TrustedNamePins, UndeterminableTrust>) -> (r: PinStoreRead)
        ensures
            match read {
                Ok(p) => r == PinStoreRead::Pins(p),
                Err(why) => r == PinStoreRead::Undeterminable(why),
            },
    {
        match read {
            Ok(pins) => PinStoreRead::Pins(pins),
            Err(why) => PinStoreRead::Undeterminable(why),
        }
    }
}

/// Whether a store whose current on-disk read is `on_disk` may be replaced:
/// only when that read succeeded. Overwriting a store werust could not read
/// would destroy every record it holds.
pub fn may_replace_store(on_disk: &Result<TrustedNamePins, UndeterminableTrust>) -> (r: bool)
    ensures
        r == on_disk is Ok,
{
    on_disk.is_ok()
}

/// The system clock in whole seconds since the Unix epoch (std's
/// `SystemTime::now().duration_since(UNIX_EPOCH)`), or `None` when the clock
/// reads before the epoch. Nothing is claimed of the value: it is the time.
#[verifier::external_body]
fn system_clock_secs() -> (r: Option<u64>) {
    std::time::SystemTime::now().duration_since(std::time::UNIX_EPOCH).ok().map(|d| d.as_secs())
}

/// A clock reading as whole seconds since the Unix epoch: the reading, or
/// `0` for a clock that reads before the epoch.
pub fn unix_secs_or_zero(read: Option<u64>) -> (r: u64)
    ensures
        r == match read {
            Some(secs) => secs,
            None => 0u64,
        },
{
    match read {
        Some(secs) => secs,
        None => 0,
    }
}

/// The current moment in whole seconds since the Unix epoch (UTC), for
/// stamping a bless; `0` if the clock reads before the epoch. The clock is
/// read once and its reading taken as [`unix_secs_or_zero`] says.
pub fn now_unix_secs() -> (r: u64) {
    unix_secs_or_zero(system_clock_secs())
}

// ---------------------------------------------------------------------------
// Laws.
// ---------------------------------------------------------------------------

proof fn lemma_read_all_fields(es: Seq<EntryView>)
    ensures
        read_all(es) matches Ok(ps) ==> forall|i: int|
            0 <= i < ps.len() ==> (#[trigger] ps[i]).name.len() > 0 && ps[i].cid.len() > 0,
    decreases es.len(),
{
    if es.len() > 0 {
        lemma_read_all_fields(es.drop_last());
        if let Ok(ps) = read_all(es) {
            let init = read_all(es.drop_last())->Ok_0;
            assert forall|i: int| 0 <= i < ps.len() implies (#[trigger] ps[i]).name.len() > 0
                && ps[i].cid.len() > 0 by {
                if i < init.len() {
                    assert(ps[i] == init[i]);
                }
            }
        }
    }
}

/// A store read from persisted entries never holds a pin without a name or
/// without a CID: such an entry is reported, not stored. Its names strictly
/// increase.
pub proof fn law_read_pins_have_names_and_cids(
    es: Seq<EntryView>,
    r: Result<TrustedNamePins, UndeterminableTrust>,
)
    requires
        store_read_from(es, r),
        r is Ok,
    ensures
        r->Ok_0.wf(),
        forall|p: PinView| #[trigger] r->Ok_0@.contains(p) ==> p.name.len() > 0 && p.cid.len() > 0,
{
    lemma_read_all_fields(es);
    let ps = read_all(es)->Ok_0;
    assert forall|p: PinView| #[trigger] r->Ok_0@.contains(p) implies p.name.len() > 0 && p.cid.len() > 0 by {
        assert(ps.contains(p));
        let i = choose|i: int| 0 <= i < ps.len() && ps[i] == p;
        assert(ps[i].name.len() > 0);
    }
}

/// A bless is read back: after blessing a name, looking it up gives the pin
/// just recorded, under the name's canonical key.
pub proof fn law_bless_then_get(
    before: Seq<PinView>,
    after: Seq<PinView>,
    name: Seq<char>,
    cid: Seq<char>,
    posture: TrustPosture,
    at: u64,
)
    requires
        blessed_into(before, after, spec_pin_key(name), cid, posture, at),
    ensures
        pin_for(after, spec_pin_key(name)) == Some(
            PinView { name: spec_pin_key(name), cid, blessed_at: at, posture },
        ),
{
}

/// Re-blessing a name that already has a pin replaces it: the store does
/// not grow.
pub proof fn law_rebless_replaces(
    before: Seq<PinView>,
    after: Seq<PinView>,
    key: Seq<char>,
    cid: Seq<char>,
    posture: TrustPosture,
    at: u64,
)
    requires
        blessed_into(before, after, key, cid, posture, at),
        pin_for(before, key) is Some,
    ensures
        after.len() == before.len(),
{
}

/// A well-formed store holds at most one pin per name.
pub proof fn law_one_pin_per_name(s: Seq<PinView>)
    requires
        strictly_sorted(s),
    ensures
        forall|i: int, j: int| 0 <= i < j < s.len() ==> s[i].name != s[j].name,
{
    assert forall|i: int, j: int| 0 <= i < j < s.len() implies s[i].name != s[j].name by {
        assert(seq_lt(s[i].name, s[j].name));
        lemma_seq_lt_trichotomy(s[i].name, s[j].name);
    }
}

/// After a bless at `cid`, the trust check of that name warns exactly when
/// the name now resolves to another CID, and offers the bless again exactly
/// then.
pub proof fn law_check_after_bless(
    before: Seq<PinView>,
    after: Seq<PinView>,
    name: Seq<char>,
    cid: Seq<char>,
    posture: TrustPosture,
    at: u64,
    t: MutableNameTrust,
)
    requires
        blessed_into(before, after, spec_pin_key(name), cid, posture, at),
        opt_pin_view(t.blessed) == pin_for(after, spec_pin_key(name)),
    ensures
        t.spec_is_changed() <==> t.cid@ != cid,
        t.spec_is_unchanged() <==> t.cid@ == cid,
{
}

} // verus!
