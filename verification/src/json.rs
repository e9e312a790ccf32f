//! JSON values as the library reads them, with the lookups that
//! `serde_json::Value` offers (indexing by key and by position, `as_str`),
//! and the parsing and printing that `serde_json` does for it.
use vstd::prelude::*;
use crate::text::{same_text, decimal, signed_decimal};

verus! {

#[verifier::external_type_specification]
#[verifier::external_body]
pub struct ExJsonValue(serde_json::Value);

#[verifier::external_type_specification]
#[verifier::external_body]
pub struct ExJsonNumber(serde_json::Number);

/// A JSON value. Objects keep their entries in order; a lookup takes the
/// first entry with its key. The objects that parsing yields and those the
/// library builds hold each key once (`keys_unique`).
#[derive(Debug, PartialEq)]
pub enum Json {
    Null,
    Bool(bool),
    Number(serde_json::Number),
    Str(String),
    Array(Vec<Json>),
    Object(Vec<(String, Json)>),
}

/// The value of the first entry with `key`.
pub open spec fn lookup(entries: Seq<(String, Json)>, key: Seq<char>) -> Option<Json>
    decreases entries.len(),
{
    if entries.len() == 0 {
        None
    } else if entries[0].0@ == key {
        Some(entries[0].1)
    } else {
        lookup(entries.drop_first(), key)
    }
}

/// `v[key]` as `serde_json` reads it: the value under `key` in an object,
/// `null` when there is none or `v` is not an object.
pub open spec fn field(v: Json, key: Seq<char>) -> Json {
    match v {
        Json::Object(entries) => match lookup(entries@, key) {
            Some(x) => x,
            None => Json::Null,
        },
        _ => Json::Null,
    }
}

/// Whether `v` is an object with an entry for `key`.
pub open spec fn has_field(v: Json, key: Seq<char>) -> bool {
    match v {
        Json::Object(entries) => lookup(entries@, key) is Some,
        _ => false,
    }
}

/// Whether `v` is an array with an `i`-th element.
pub open spec fn has_item(v: Json, i: int) -> bool {
    match v {
        Json::Array(a) => 0 <= i < a@.len(),
        _ => false,
    }
}

/// `v[i]` as `serde_json` reads it: the `i`-th element of an array, `null`
/// when there is none or `v` is not an array.
pub open spec fn item(v: Json, i: int) -> Json {
    match v {
        Json::Array(a) => if 0 <= i < a@.len() {
            a@[i]
        } else {
            Json::Null
        },
        _ => Json::Null,
    }
}

/// The elements of an array, none for any other value.
pub open spec fn items(v: Json) -> Seq<Json> {
    match v {
        Json::Array(a) => a@,
        _ => seq![],
    }
}

/// `v.as_str()`: the text of a JSON string.
pub open spec fn text(v: Json) -> Option<Seq<char>> {
    match v {
        Json::Str(s) => Some(s@),
        _ => None,
    }
}

/// What `serde_json::from_str::<Value>` makes of a text: the value it
/// denotes, or nothing where the text is not JSON.
pub uninterp spec fn parsed_json(text: Seq<char>) -> Option<Json>;

/// The compact JSON text of a value, as `Value`'s `Display` writes it.
pub uninterp spec fn compact_json(v: Json) -> Seq<char>;

/// The indented JSON text of a value, as `serde_json::to_string_pretty`
/// writes it.
pub uninterp spec fn pretty_json(v: Json) -> Seq<char>;

/// The entries of an object, none for any other value.
pub open spec fn entries(v: Json) -> Seq<(String, Json)> {
    match v {
        Json::Object(es) => es@,
        _ => seq![],
    }
}

/// No two entries have the same key.
pub open spec fn keys_unique(es: Seq<(String, Json)>) -> bool {
    forall|i: int, j: int| 0 <= i < j < es.len() ==> es[i].0@ != es[j].0@
}

#[verifier::external_body]
fn from_value(v: serde_json::Value) -> Json {
    match v {
        serde_json::Value::Null => Json::Null,
        serde_json::Value::Bool(b) => Json::Bool(b),
        serde_json::Value::Number(n) => Json::Number(n),
        serde_json::Value::String(s) => Json::Str(s),
        serde_json::Value::Array(a) => Json::Array(a.into_iter().map(from_value).collect()),
        serde_json::Value::Object(m) => Json::Object(
            m.into_iter().map(|(k, x)| (k, from_value(x))).collect(),
        ),
    }
}

#[verifier::external_body]
fn to_value(v: &Json) -> serde_json::Value {
    match v {
        Json::Null => serde_json::Value::Null,
        Json::Bool(b) => serde_json::Value::Bool(*b),
        Json::Number(n) => serde_json::Value::Number(n.clone()),
        Json::Str(s) => serde_json::Value::String(s.clone()),
        Json::Array(a) => serde_json::Value::Array(a.iter().map(to_value).collect()),
        Json::Object(es) => serde_json::Value::Object(
            es.iter().map(|(k, x)| (k.clone(), to_value(x))).collect(),
        ),
    }
}

/// Parses JSON text with `serde_json::from_str` into a `serde_json::Value`
/// and takes it over; the result is named by `parsed_json`. An object that
/// it yields holds each key once, as `serde_json::Map` does.
#[verifier::external_body]
pub(crate) fn parse_json(text: &str) -> (r: Option<Json>)
    ensures
        r == parsed_json(text@),
        r matches Some(v) ==> keys_unique(entries(v)),
{
    match serde_json::from_str::<serde_json::Value>(text) {
        Ok(v) => Some(from_value(v)),
        Err(_) => None,
    }
}

/// Writes a value as compact JSON with `Value`'s `Display`
/// (`serde_json`'s serializer); the text is named by `compact_json`.
#[verifier::external_body]
pub(crate) fn compact_text(v: &Json) -> (s: String)
    ensures
        s@ == compact_json(*v),
{
    to_value(v).to_string()
}

/// Writes a value as indented JSON with `serde_json::to_string_pretty`,
/// which cannot fail on a `Value` (its keys are strings); the text is named
/// by `pretty_json`.
#[verifier::external_body]
pub(crate) fn pretty_text(v: &Json) -> (s: String)
    ensures
        s@ == pretty_json(*v),
{
    serde_json::to_string_pretty(&to_value(v)).unwrap_or_default()
}

/// `serde_json::Number::from_i128`: a number exactly when `n` lies between
/// `i64::MIN` and `u64::MAX` (without the `arbitrary_precision` feature),
/// which JSON writes as its decimal numeral.
#[verifier::external_body]
pub(crate) fn number_from_i128(n: i128) -> (r: Option<serde_json::Number>)
    ensures
        r is Some <==> (i64::MIN <= n <= u64::MAX),
        r matches Some(x) ==> compact_json(Json::Number(x)) == signed_decimal(n as int),
{
    serde_json::Number::from_i128(n)
}

/// `serde_json::Number::from(u64)`, which JSON writes as its decimal numeral.
#[verifier::external_body]
pub(crate) fn number_from_u64(n: u64) -> (r: serde_json::Number)
    ensures
        compact_json(Json::Number(r)) == decimal(n as nat),
{
    serde_json::Number::from(n)
}

/// The text that reports a result: the JSON document, indented, when JSON
/// output is asked for, the human-readable line otherwise.
pub fn report_text(as_json: bool, data: &Json, human: &str) -> (s: String)
    ensures
        s@ == (if as_json {
            pretty_json(*data)
        } else {
            human@
        }),
{
    if as_json {
        pretty_text(data)
    } else {
        String::from_str(human)
    }
}

/// An object entry with a key given as text.
pub fn entry(key: &str, value: Json) -> (e: (String, Json))
    ensures
        e.0@ == key@,
        e.1 == value,
{
    (String::from_str(key), value)
}

/// A JSON string holding `s`.
pub fn json_str(s: &str) -> (v: Json)
    ensures
        v matches Json::Str(t) && t@ == s@,
{
    Json::Str(String::from_str(s))
}

/// The index of the first entry with `key`.
fn find_key(entries: &Vec<(String, Json)>, key: &str) -> (r: Option<usize>)
    ensures
        match r {
            Some(i) => i < entries@.len() && lookup(entries@, key@) == Some(entries@[i as int].1),
            None => lookup(entries@, key@) is None,
        },
{
    let mut i: usize = 0;
    assert(entries@.skip(0) =~= entries@);
    while i < entries.len()
        invariant
            i <= entries@.len(),
            lookup(entries@, key@) == lookup(entries@.skip(i as int), key@),
        decreases entries.len() - i,
    {
        if same_text(entries[i].0.as_str(), key) {
            return Some(i);
        }
        assert(entries@.skip(i as int).drop_first() =~= entries@.skip(i + 1));
        i = i + 1;
    }
    None
}

impl Json {
    /// The value under `key`, if this is an object that has one.
    pub fn get(&self, key: &str) -> (r: Option<&Json>)
        ensures
            r is Some == has_field(*self, key@),
            match r {
                Some(x) => *x == field(*self, key@),
                None => field(*self, key@) == Json::Null,
            },
    {
        match self {
            Json::Object(entries) => match find_key(entries, key) {
                Some(i) => Some(&entries[i].1),
                None => None,
            },
            _ => None,
        }
    }

    /// The `i`-th element, if this is an array that has one.
    pub fn at(&self, i: usize) -> (r: Option<&Json>)
        ensures
            r is Some == has_item(*self, i as int),
            match r {
                Some(x) => *x == item(*self, i as int),
                None => item(*self, i as int) == Json::Null,
            },
    {
        match self {
            Json::Array(a) => if i < a.len() {
                Some(&a[i])
            } else {
                None
            },
            _ => None,
        }
    }

    /// The text of a JSON string.
    pub fn as_str(&self) -> (r: Option<&String>)
        ensures
            match r {
                Some(s) => text(*self) == Some(s@),
                None => text(*self) is None,
            },
    {
        match self {
            Json::Str(s) => Some(s),
            _ => None,
        }
    }

    /// Takes the value under `key` out of an object (`null` when absent).
    pub fn into_field(self, key: &str) -> (r: Json)
        ensures
            r == field(self, key@),
    {
        match self {
            Json::Object(mut entries) => match find_key(&entries, key) {
                Some(i) => {
                    let mut slot: (String, Json) = (String::new(), Json::Null);
                    entries.set_and_swap(i, &mut slot);
                    slot.1
                },
                None => Json::Null,
            },
            _ => Json::Null,
        }
    }

    /// Takes the elements out of an array (none for any other value).
    pub fn into_items(self) -> (r: Vec<Json>)
        ensures
            r@ == items(self),
    {
        match self {
            Json::Array(a) => a,
            _ => Vec::new(),
        }
    }
}

/// The text of `v` if it is a JSON string, `""` otherwise
/// (`v.as_str().unwrap_or("")`).
pub open spec fn text_or_empty(v: Json) -> Seq<char> {
    match text(v) {
        Some(s) => s,
        None => seq![],
    }
}

/// The text of `v` if it is a JSON string, `"-"` otherwise
/// (`v.as_str().unwrap_or("-")`).
pub open spec fn text_or_dash(v: Json) -> Seq<char> {
    match text(v) {
        Some(s) => s,
        None => "-"@,
    }
}

/// Whether `v` is a JSON string holding `expected`
/// (`v.as_str().unwrap_or("") == expected`).
pub fn text_is(v: Option<&Json>, expected: &str) -> (b: bool)
    ensures
        b == (text_or_empty(
            match v {
                Some(x) => *x,
                None => Json::Null,
            },
        ) == expected@),
{
    let s = match v {
        Some(x) => match x.as_str() {
            Some(s) => s.as_str(),
            None => "",
        },
        None => "",
    };
    proof {
        reveal_strlit("");
        assert(""@ =~= Seq::<char>::empty());
    }
    same_text(s, expected)
}

} // verus!
