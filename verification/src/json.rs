//! The JSON documents that the library reads, as plain values.
//!
//! Replies of the music APIs are parsed outside the library and handed in
//! as a [`JsonValue`]; the library only reads them.
use vstd::prelude::*;

use crate::text::{chars_of, eq_chars};

verus! {

/// Whether two integer readings of one number agree as `serde_json`'s
/// `as_u64` and `as_i64` do: equal when both exist, and a number that fits
/// both types has both.
pub open spec fn readings_agree(u: Option<u64>, i: Option<i64>) -> bool {
    match (u, i) {
        (Some(x), Some(y)) => x == y,
        (Some(x), None) => x > i64::MAX,
        (None, Some(y)) => y < 0,
        (None, None) => true,
    }
}

/// A JSON number: its canonical text and its integer readings, which
/// always agree.
pub struct JsonNumber {
    text: String,
    as_u64: Option<u64>,
    as_i64: Option<i64>,
}

impl JsonNumber {
    #[verifier::type_invariant]
    closed spec fn readings_consistent(self) -> bool {
        readings_agree(self.as_u64, self.as_i64)
    }

    /// The number as `serde_json` prints it.
    pub closed spec fn text_view(self) -> Seq<char> {
        self.text@
    }

    /// The value when it is an integer that fits in `u64`.
    pub closed spec fn u64_reading(self) -> Option<u64> {
        self.as_u64
    }

    /// The value when it is an integer that fits in `i64`.
    pub closed spec fn i64_reading(self) -> Option<i64> {
        self.as_i64
    }

    /// A number from its text and readings; `None` when the readings do
    /// not agree.
    pub fn new(text: String, as_u64: Option<u64>, as_i64: Option<i64>) -> (r: Option<JsonNumber>)
        ensures
            r is Some <==> readings_agree(as_u64, as_i64),
            r matches Some(n) ==> n.text_view() == text@ && n.u64_reading() == as_u64
                && n.i64_reading() == as_i64,
    {
        let agree = match (as_u64, as_i64) {
            (Some(x), Some(y)) => y >= 0 && x == y as u64,
            (Some(x), None) => x > 0x7FFF_FFFF_FFFF_FFFF,
            (None, Some(y)) => y < 0,
            (None, None) => true,
        };
        if agree {
            Some(JsonNumber { text, as_u64, as_i64 })
        } else {
            None
        }
    }

    pub fn text(&self) -> (r: &str)
        ensures
            r@ == self.text_view(),
    {
        self.text.as_str()
    }

    pub fn as_u64(&self) -> (r: Option<u64>)
        ensures
            r == self.u64_reading(),
            readings_agree(r, self.i64_reading()),
    {
        proof {
            use_type_invariant(self);
        }
        self.as_u64
    }

    pub fn as_i64(&self) -> (r: Option<i64>)
        ensures
            r == self.i64_reading(),
            readings_agree(self.u64_reading(), r),
    {
        proof {
            use_type_invariant(self);
        }
        self.as_i64
    }
}

/// A JSON value. Object members keep their order; a key occurs at most once
/// in documents produced by a JSON parser, and lookups take the first.
pub enum JsonValue {
    Null,
    Bool(bool),
    Number(JsonNumber),
    String(String),
    Array(Vec<JsonValue>),
    Object(Vec<(String, JsonValue)>),
}

/// Whether `text` is one complete JSON document
/// (`serde_json::from_str::<serde_json::Value>(text).is_ok()`).
pub uninterp spec fn json_text_valid(text: Seq<char>) -> bool;

/// `serde_json::from_str::<serde_json::Value>` and whether it succeeded; the
/// result is the named `json_text_valid` of the text.
#[verifier::external_body]
pub(crate) fn json_text_is_valid(text: &str) -> (r: bool)
    ensures
        r == json_text_valid(text@),
{
    serde_json::from_str::<serde_json::Value>(text).is_ok()
}

/// The first member of `entries` named `key`.
pub open spec fn entries_get(entries: Seq<(String, JsonValue)>, key: Seq<char>) -> Option<
    JsonValue,
>
    decreases entries.len(),
{
    if entries.len() == 0 {
        None
    } else if entries[0].0@ == key {
        Some(entries[0].1)
    } else {
        entries_get(entries.drop_first(), key)
    }
}

/// `Value::get(key)`: the member `key` of an object, `None` otherwise.
pub open spec fn jget(v: JsonValue, key: Seq<char>) -> Option<JsonValue> {
    match v {
        JsonValue::Object(m) => entries_get(m@, key),
        _ => None,
    }
}

/// `Value::as_str`.
pub open spec fn jstr(v: JsonValue) -> Option<Seq<char>> {
    match v {
        JsonValue::String(s) => Some(s@),
        _ => None,
    }
}

/// `Value::as_u64`.
pub open spec fn ju64(v: JsonValue) -> Option<u64> {
    match v {
        JsonValue::Number(n) => n.u64_reading(),
        _ => None,
    }
}

/// `Value::as_i64`.
pub open spec fn ji64(v: JsonValue) -> Option<i64> {
    match v {
        JsonValue::Number(n) => n.i64_reading(),
        _ => None,
    }
}

/// `Value::as_array`.
pub open spec fn jarr(v: JsonValue) -> Option<Seq<JsonValue>> {
    match v {
        JsonValue::Array(a) => Some(a@),
        _ => None,
    }
}

/// `v.get(key).and_then(as_str)`.
pub open spec fn get_str(v: JsonValue, key: Seq<char>) -> Option<Seq<char>> {
    match jget(v, key) {
        Some(x) => jstr(x),
        None => None,
    }
}

/// `v.get(key).and_then(as_u64)`.
pub open spec fn get_u64(v: JsonValue, key: Seq<char>) -> Option<u64> {
    match jget(v, key) {
        Some(x) => ju64(x),
        None => None,
    }
}

/// `v.get(key).and_then(as_array)`.
pub open spec fn get_arr(v: JsonValue, key: Seq<char>) -> Option<Seq<JsonValue>> {
    match jget(v, key) {
        Some(x) => jarr(x),
        None => None,
    }
}

pub open spec fn str_or_empty(o: Option<Seq<char>>) -> Seq<char> {
    match o {
        Some(s) => s,
        None => Seq::<char>::empty(),
    }
}

/// `Value::get`.
pub fn json_get<'a>(v: &'a JsonValue, key: &str) -> (r: Option<&'a JsonValue>)
    ensures
        match r {
            Some(x) => jget(*v, key@) == Some(*x),
            None => jget(*v, key@) is None,
        },
{
    match v {
        JsonValue::Object(m) => {
            let k = chars_of(key);
            let mut i: usize = 0;
            assert(m@.skip(0) =~= m@);
            while i < m.len()
                invariant
                    i <= m.len(),
                    k@ == key@,
                    jget(*v, key@) == entries_get(m@, key@),
                    entries_get(m@, key@) == entries_get(m@.skip(i as int), key@),
                decreases m.len() - i,
            {
                let name = chars_of(m[i].0.as_str());
                assert(m@.skip(i as int)[0] == m@[i as int]);
                if eq_chars(&name, &k) {
                    assert(m@[i as int].0@ == key@);
                    assert(entries_get(m@.skip(i as int), key@) == Some(m@[i as int].1));
                    return Some(&m[i].1);
                }
                assert(m@.skip(i as int).drop_first() =~= m@.skip(i + 1));
                i = i + 1;
            }
            None
        },
        _ => None,
    }
}

/// `Value::as_str`, copied into characters.
pub fn json_str(v: &JsonValue) -> (r: Option<Vec<char>>)
    ensures
        match r {
            Some(x) => jstr(*v) == Some(x@),
            None => jstr(*v) is None,
        },
{
    match v {
        JsonValue::String(s) => Some(chars_of(s.as_str())),
        _ => None,
    }
}

/// `Value::as_u64`.
pub fn json_u64(v: &JsonValue) -> (r: Option<u64>)
    ensures
        r == ju64(*v),
{
    match v {
        JsonValue::Number(n) => n.as_u64(),
        _ => None,
    }
}

/// `Value::as_i64`.
pub fn json_i64(v: &JsonValue) -> (r: Option<i64>)
    ensures
        r == ji64(*v),
{
    match v {
        JsonValue::Number(n) => n.as_i64(),
        _ => None,
    }
}

/// `Value::as_array`.
pub fn json_arr(v: &JsonValue) -> (r: Option<&Vec<JsonValue>>)
    ensures
        match r {
            Some(a) => jarr(*v) == Some(a@),
            None => jarr(*v) is None,
        },
{
    match v {
        JsonValue::Array(a) => Some(a),
        _ => None,
    }
}

/// `v.get(key).and_then(as_str)`.
pub fn get_str_exec(v: &JsonValue, key: &str) -> (r: Option<Vec<char>>)
    ensures
        match r {
            Some(x) => get_str(*v, key@) == Some(x@),
            None => get_str(*v, key@) is None,
        },
{
    match json_get(v, key) {
        Some(x) => json_str(x),
        None => None,
    }
}

/// `v.get(key).and_then(as_str).unwrap_or("")`.
pub fn get_str_or_empty(v: &JsonValue, key: &str) -> (r: Vec<char>)
    ensures
        r@ == str_or_empty(get_str(*v, key@)),
{
    match get_str_exec(v, key) {
        Some(x) => x,
        None => Vec::new(),
    }
}

/// `v.get(key).and_then(as_u64)`.
pub fn get_u64_exec(v: &JsonValue, key: &str) -> (r: Option<u64>)
    ensures
        r == get_u64(*v, key@),
{
    match json_get(v, key) {
        Some(x) => json_u64(x),
        None => None,
    }
}

/// `v.get(key).and_then(as_array)`.
pub fn get_arr_exec<'a>(v: &'a JsonValue, key: &str) -> (r: Option<&'a Vec<JsonValue>>)
    ensures
        match r {
            Some(a) => get_arr(*v, key@) == Some(a@),
            None => get_arr(*v, key@) is None,
        },
{
    match json_get(v, key) {
        Some(x) => json_arr(x),
        None => None,
    }
}

} // verus!
