//! What `serde_json` says of a JSON document, and what it writes.
//!
//! Parser and writer are `serde_json`'s. The library reads a document
//! through the names below, each a function of the text alone, and writes
//! the objects it persists through `serde_json` too: the text written is
//! stated here (string literals to the few lines `serde_json`'s escaper
//! follows), and so is what reading that text back gives.

use vstd::prelude::*;

use serde_json::Value;

use crate::text::{dec, dec_int, seq_lt};

verus! {

/// `serde_json`'s JSON value, carried through unread.
#[verifier::external_type_specification]
#[verifier::external_body]
pub struct ExJsonValue(serde_json::Value);

// ---------------------------------------------------------------------------
// What serde_json says of a document.
// ---------------------------------------------------------------------------

/// The error `serde_json::from_str::<Value>` reports for `text`, rendered by
/// its `Display`, or `None` when `text` is a JSON document.
pub uninterp spec fn json_parse_error(text: Seq<char>) -> Option<Seq<char>>;

/// The unsigned integer under `key` in the JSON object `text`, if it has one
/// there (`Value::get` then `Value::as_u64`).
pub uninterp spec fn json_u64_at(text: Seq<char>, key: Seq<char>) -> Option<u64>;

/// The string under `key` in the JSON object `text`, if it has one there
/// (`Value::get` then `Value::as_str`).
pub uninterp spec fn json_str_at(text: Seq<char>, key: Seq<char>) -> Option<Seq<char>>;

/// The compact JSON text of the member `key` of the JSON object `text`, or
/// `None` when it has no such member (`Value::get`, then `Value`'s
/// `Display`).
pub uninterp spec fn json_member_text(text: Seq<char>, key: Seq<char>) -> Option<Seq<char>>;

/// The compact JSON text of a value (`Value`'s `Display`).
pub uninterp spec fn json_value_text(v: serde_json::Value) -> Seq<char>;

/// The lowercase hexadecimal digit for `n` (below 16).
pub open spec fn hex_digit(n: int) -> char {
    seq!['0', '1', '2', '3', '4', '5', '6', '7', '8', '9', 'a', 'b', 'c', 'd', 'e', 'f'][n]
}

/// How one character stands inside a JSON string literal: `"` and `\` and
/// the control characters escaped (the short forms `\b`, `\t`, `\n`,
/// `\f`, `\r` where JSON has one, `\u00XX` with lowercase hex otherwise),
/// everything else as itself.
pub open spec fn json_escape_char(c: char) -> Seq<char> {
    if c == '"' {
        seq!['\\', '"']
    } else if c == '\\' {
        seq!['\\', '\\']
    } else if c == '\u{8}' {
        seq!['\\', 'b']
    } else if c == '\t' {
        seq!['\\', 't']
    } else if c == '\n' {
        seq!['\\', 'n']
    } else if c == '\u{c}' {
        seq!['\\', 'f']
    } else if c == '\r' {
        seq!['\\', 'r']
    } else if (c as u32) < 32 {
        seq!['\\', 'u', '0', '0', hex_digit((c as u32) as int / 16), hex_digit((c as u32) as int % 16)]
    } else {
        seq![c]
    }
}

/// The characters of `s`, each as it stands inside a JSON string literal.
pub open spec fn json_escape(s: Seq<char>) -> Seq<char>
    decreases s.len(),
{
    if s.len() == 0 {
        Seq::empty()
    } else {
        json_escape(s.drop_last()) + json_escape_char(s.last())
    }
}

/// The JSON string literal of `s`, as `serde_json` writes it: quoted, with
/// each character escaped as [`json_escape_char`] says.
#[verifier::opaque]
pub open spec fn json_string_literal(s: Seq<char>) -> Seq<char> {
    seq!['"'] + json_escape(s) + seq!['"']
}

/// `serde_json::from_str::<Value>` of `body`: the error text when it is not
/// JSON, `None` when it is. A function of the text alone.
#[verifier::external_body]
pub(crate) fn json_error(body: &str) -> (r: Option<String>)
    ensures
        match r {
            Some(e) => json_parse_error(body@) == Some(e@),
            None => json_parse_error(body@) is None,
        },
{
    match serde_json::from_str::<serde_json::Value>(body) {
        Ok(_) => None,
        Err(e) => Some(e.to_string()),
    }
}

/// The unsigned integer member `key` of the JSON document `body`.
#[verifier::external_body]
pub(crate) fn json_u64_field(body: &str, key: &str) -> (r: Option<u64>)
    ensures
        r == json_u64_at(body@, key@),
{
    serde_json::from_str::<serde_json::Value>(body).ok().and_then(|v| v.get(key).and_then(serde_json::Value::as_u64))
}

/// The string member `key` of the JSON document `body`.
#[verifier::external_body]
pub(crate) fn json_str_field(body: &str, key: &str) -> (r: Option<String>)
    ensures
        match r {
            Some(s) => json_str_at(body@, key@) == Some(s@),
            None => json_str_at(body@, key@) is None,
        },
{
    serde_json::from_str::<serde_json::Value>(body).ok().and_then(|v| v.get(key).and_then(serde_json::Value::as_str).map(str::to_string))
}

/// The member `key` of the JSON document `body`, as a value.
#[verifier::external_body]
pub(crate) fn json_value_field(body: &str, key: &str) -> (r: Option<serde_json::Value>)
    ensures
        match r {
            Some(v) => json_member_text(body@, key@) == Some(json_value_text(v)),
            None => json_member_text(body@, key@) is None,
        },
{
    serde_json::from_str::<serde_json::Value>(body).ok().and_then(|v| v.get(key).cloned())
}

/// An empty JSON array (`json!([])`).
#[verifier::external_body]
pub(crate) fn json_empty_array() -> (r: serde_json::Value)
    ensures
        json_value_text(r) == "[]"@,
{
    serde_json::Value::Array(Vec::new())
}

/// `s` as a JSON string value.
#[verifier::external_body]
pub(crate) fn json_string(s: &str) -> (r: serde_json::Value)
    ensures
        json_value_text(r) == json_string_literal(s@),
{
    serde_json::Value::String(s.to_string())
}

/// The elements of the array under `key` in the JSON object `text`, each as
/// its own compact JSON text (`Value::get`, `Value::as_array`, then
/// `Value::to_string` of each element), or `None` when there is no array
/// there.
pub uninterp spec fn json_array_at(text: Seq<char>, key: Seq<char>) -> Option<Seq<Seq<char>>>;

/// The array member `key` of the JSON document `body`, its elements rendered
/// back to JSON text one by one.
#[verifier::external_body]
pub(crate) fn json_array_field(body: &str, key: &str) -> (r: Option<Vec<String>>)
    ensures
        match r {
            Some(v) => json_array_at(body@, key@) == Some(v@.map_values(|s: String| s@)),
            None => json_array_at(body@, key@) is None,
        },
{
    let value = serde_json::from_str::<serde_json::Value>(body).ok()?;
    let items = value.get(key)?.as_array()?;
    Some(items.iter().map(serde_json::Value::to_string).collect())
}

// ---------------------------------------------------------------------------
// Objects the library writes, and what reading them back gives.
// ---------------------------------------------------------------------------

/// A scalar member of a JSON object the library writes: a string, an
/// unsigned integer or a signed one.
#[derive(Debug, Clone, PartialEq, Eq)]
pub enum JsonScalar {
    Str(String),
    Num(u64),
    Int(i64),
}

/// A scalar member as plain values.
pub enum ScalarView {
    Str(Seq<char>),
    Num(u64),
    Int(i64),
}

impl View for JsonScalar {
    type V = ScalarView;

    open spec fn view(&self) -> ScalarView {
        match self {
            JsonScalar::Str(s) => ScalarView::Str(s@),
            JsonScalar::Num(n) => ScalarView::Num(*n),
            JsonScalar::Int(n) => ScalarView::Int(*n),
        }
    }
}

/// The members of an object as plain values.
pub open spec fn members_view(ms: Seq<(String, JsonScalar)>) -> Seq<(Seq<char>, ScalarView)> {
    ms.map_values(|m: (String, JsonScalar)| (m.0@, m.1@))
}

/// A run of objects as plain values.
pub open spec fn objects_view(os: Seq<Vec<(String, JsonScalar)>>) -> Seq<
    Seq<(Seq<char>, ScalarView)>,
> {
    os.map_values(|o: Vec<(String, JsonScalar)>| members_view(o@))
}

/// The keys of an object's members are strictly increasing: the order a
/// `serde_json::Map` (a `BTreeMap` of `String`s) walks them in.
pub open spec fn keys_sorted(ms: Seq<(Seq<char>, ScalarView)>) -> bool {
    forall|i: int, j: int| 0 <= i < j < ms.len() ==> seq_lt(#[trigger] ms[i].0, #[trigger] ms[j].0)
}

/// The compact JSON text of a scalar.
pub open spec fn scalar_text(v: ScalarView) -> Seq<char> {
    match v {
        ScalarView::Str(s) => json_string_literal(s),
        ScalarView::Num(n) => dec(n as nat),
        ScalarView::Int(n) => dec_int(n as int),
    }
}

/// Texts joined with `,` between them.
pub open spec fn comma_join(parts: Seq<Seq<char>>) -> Seq<char>
    decreases parts.len(),
{
    if parts.len() == 0 {
        Seq::empty()
    } else if parts.len() == 1 {
        parts[0]
    } else {
        comma_join(parts.drop_last()) + ","@ + parts.last()
    }
}

/// One member in compact JSON: `"key":value`.
pub open spec fn member_text(m: (Seq<char>, ScalarView)) -> Seq<char> {
    json_string_literal(m.0) + ":"@ + scalar_text(m.1)
}

/// The compact JSON text of an object: `{"k":v,...}`, members in order.
pub open spec fn object_text(ms: Seq<(Seq<char>, ScalarView)>) -> Seq<char> {
    "{"@ + comma_join(ms.map_values(|m: (Seq<char>, ScalarView)| member_text(m))) + "}"@
}

/// The compact JSON text of a document holding an array of objects under
/// `key` and then the scalar members `rest`:
/// `{"key":[{...},...],"k":v,...}`.
pub open spec fn document_text(
    key: Seq<char>,
    os: Seq<Seq<(Seq<char>, ScalarView)>>,
    rest: Seq<(Seq<char>, ScalarView)>,
) -> Seq<char> {
    "{"@ + json_string_literal(key) + ":["@ + comma_join(
        os.map_values(|ms: Seq<(Seq<char>, ScalarView)>| object_text(ms)),
    ) + "]"@ + (if rest.len() == 0 {
        Seq::empty()
    } else {
        ","@ + comma_join(rest.map_values(|m: (Seq<char>, ScalarView)| member_text(m)))
    }) + "}"@
}

/// The value of the member `k`, if the object has one.
pub open spec fn member_value(ms: Seq<(Seq<char>, ScalarView)>, k: Seq<char>) -> Option<ScalarView>
    decreases ms.len(),
{
    if ms.len() == 0 {
        None
    } else if ms.last().0 == k {
        Some(ms.last().1)
    } else {
        member_value(ms.drop_last(), k)
    }
}

/// The string under `k`, if the object has a string member there.
pub open spec fn str_member(ms: Seq<(Seq<char>, ScalarView)>, k: Seq<char>) -> Option<Seq<char>> {
    match member_value(ms, k) {
        Some(ScalarView::Str(s)) => Some(s),
        _ => None,
    }
}

/// The unsigned integer under `k`, if the object has one there (a signed
/// member that is not negative reads back as one too).
pub open spec fn num_member(ms: Seq<(Seq<char>, ScalarView)>, k: Seq<char>) -> Option<u64> {
    match member_value(ms, k) {
        Some(ScalarView::Num(n)) => Some(n),
        Some(ScalarView::Int(n)) => if n >= 0 {
            Some(n as u64)
        } else {
            None
        },
        _ => None,
    }
}

/// `serde_json`'s text of the object with these members: a `Map` filled by
/// `insert`, wrapped in `Value::Object`, written by `Value`'s `Display`.
/// With the keys in order the text is the members in order, compact; and
/// `serde_json::from_str` of that text gives back each member: a string
/// under its key, an integer under its key, nothing under any other key.
#[verifier::external_body]
pub(crate) fn json_object(members: &Vec<(String, JsonScalar)>) -> (r: String)
    requires
        keys_sorted(members_view(members@)),
    ensures
        r@ == object_text(members_view(members@)),
        json_parse_error(r@) is None,
        forall|k: Seq<char>| #[trigger] json_str_at(r@, k) == str_member(members_view(members@), k),
        forall|k: Seq<char>| #[trigger] json_u64_at(r@, k) == num_member(members_view(members@), k),
{
    let mut map = serde_json::Map::new();
    for (k, v) in members {
        let value = match v {
            JsonScalar::Str(s) => Value::String(s.clone()),
            JsonScalar::Num(n) => Value::from(*n),
            JsonScalar::Int(n) => Value::from(*n),
        };
        map.insert(k.clone(), value);
    }
    Value::Object(map).to_string()
}

/// `serde_json`'s text of the document holding the array `objects` under
/// `key` and the members `rest` beside it, every object a `Map` as in
/// [`json_object`]. With `key` sorting before every key of `rest`, the text
/// is compact and in that order; `serde_json::from_str` of it gives back
/// the array under `key`, each element rendered back as its object's own
/// text, each element's members as written, and the members of `rest`.
#[verifier::external_body]
pub(crate) fn json_document(
    key: &str,
    objects: &Vec<Vec<(String, JsonScalar)>>,
    rest: &Vec<(String, JsonScalar)>,
) -> (r: String)
    requires
        forall|i: int| 0 <= i < objects@.len() ==> keys_sorted(#[trigger] objects_view(objects@)[i]),
        keys_sorted(members_view(rest@)),
        forall|j: int| 0 <= j < rest@.len() ==> seq_lt(key@, #[trigger] members_view(rest@)[j].0),
    ensures
        r@ == document_text(key@, objects_view(objects@), members_view(rest@)),
        json_parse_error(r@) is None,
        json_array_at(r@, key@) == Some(
            objects_view(objects@).map_values(|ms: Seq<(Seq<char>, ScalarView)>| object_text(ms)),
        ),
        forall|i: int, k: Seq<char>|
            0 <= i < objects@.len() ==> #[trigger] json_str_at(json_array_at(r@, key@)->0[i], k)
                == str_member(objects_view(objects@)[i], k),
        forall|i: int, k: Seq<char>|
            0 <= i < objects@.len() ==> #[trigger] json_u64_at(json_array_at(r@, key@)->0[i], k)
                == num_member(objects_view(objects@)[i], k),
        forall|k: Seq<char>| #[trigger] json_str_at(r@, k) == str_member(members_view(rest@), k),
{
    let value = |v: &JsonScalar| match v {
        JsonScalar::Str(s) => Value::from(s.as_str()),
        JsonScalar::Num(n) => Value::from(*n),
        JsonScalar::Int(n) => Value::from(*n),
    };
    let object = |ms: &Vec<(String, JsonScalar)>| ms.iter().map(|(k, v)| (k.clone(), value(v))).collect();
    let mut doc: serde_json::Map<_, _> = object(rest);
    let items = objects.iter().map(|ms| Value::Object(object(ms))).collect();
    doc.insert(key.to_string(), Value::Array(items));
    Value::Object(doc).to_string()
}

} // verus!
