//! The JSON document model the compiler reads: what a parsed payload holds,
//! as plain values. Numbers carry what the compiler reads of them: their
//! value as an `i64` when they are integers in range, and the bit pattern
//! of their value narrowed to `f32`.

use vstd::prelude::*;
use crate::text::str_eq;

verus! {

/// A JSON number.
#[derive(Clone, Copy, Debug, PartialEq, Eq, Structural)]
pub struct JsonNumber {
    /// The value, when it is an integer that fits in an `i64`.
    pub int_value: Option<i64>,
    /// The bit pattern of the value converted to `f64` and then to `f32`.
    pub f32_bits: u32,
}

/// A JSON value.
#[derive(Debug)]
pub enum JsonValue {
    Null,
    Bool(bool),
    Number(JsonNumber),
    String(String),
    Array(Vec<JsonValue>),
    /// Members, each key once; lookups find a key wherever it stands.
    Object(Vec<(String, JsonValue)>),
}

/// The value under `key` among `entries`, first match first.
pub open spec fn entries_lookup(entries: Seq<(String, JsonValue)>, key: Seq<char>) -> Option<JsonValue>
    decreases entries.len(),
{
    if entries.len() == 0 {
        None
    } else if entries[0].0@ == key {
        Some(entries[0].1)
    } else {
        entries_lookup(entries.drop_first(), key)
    }
}

/// The members of `entries` other than those under `key`, in order.
pub open spec fn without_key(entries: Seq<(String, JsonValue)>, key: Seq<char>) -> Seq<(String, JsonValue)>
    decreases entries.len(),
{
    if entries.len() == 0 {
        seq![]
    } else if entries[0].0@ == key {
        without_key(entries.drop_first(), key)
    } else {
        seq![entries[0]] + without_key(entries.drop_first(), key)
    }
}

/// With the members under `key` taken out, `key` is found nowhere and
/// every other key finds what it found before.
pub proof fn lemma_lookup_without_key(entries: Seq<(String, JsonValue)>, key: Seq<char>, other: Seq<char>)
    ensures
        entries_lookup(without_key(entries, key), other) == if other == key {
            None
        } else {
            entries_lookup(entries, other)
        },
    decreases entries.len(),
{
    if entries.len() > 0 {
        lemma_lookup_without_key(entries.drop_first(), key, other);
        if entries[0].0@ != key {
            let w = seq![entries[0]] + without_key(entries.drop_first(), key);
            assert(w[0] == entries[0]);
            assert(w.drop_first() =~= without_key(entries.drop_first(), key));
        }
    }
}

/// The member `key` of `v`; nothing when `v` is not an object or has no
/// such member (indexing then gives JSON `null`).
pub open spec fn json_lookup(v: JsonValue, key: Seq<char>) -> Option<JsonValue> {
    match v {
        JsonValue::Object(entries) => entries_lookup(entries@, key),
        _ => None,
    }
}

/// The characters of `v` when it is a string.
pub open spec fn json_as_str(v: Option<JsonValue>) -> Option<Seq<char>> {
    match v {
        Some(JsonValue::String(s)) => Some(s@),
        _ => None,
    }
}

/// The value of `v` when it is a boolean.
pub open spec fn json_as_bool(v: Option<JsonValue>) -> Option<bool> {
    match v {
        Some(JsonValue::Bool(b)) => Some(b),
        _ => None,
    }
}

/// The value of `v` when it is an integer that fits in an `i64`.
pub open spec fn json_as_i64(v: Option<JsonValue>) -> Option<i64> {
    match v {
        Some(JsonValue::Number(n)) => n.int_value,
        _ => None,
    }
}

/// The `f32` bit pattern of `v` when it is a number.
pub open spec fn json_as_f32_bits(v: Option<JsonValue>) -> Option<u32> {
    match v {
        Some(JsonValue::Number(n)) => Some(n.f32_bits),
        _ => None,
    }
}

/// The elements of `v` when it is an array.
pub open spec fn json_as_array(v: Option<JsonValue>) -> Option<Seq<JsonValue>> {
    match v {
        Some(JsonValue::Array(items)) => Some(items@),
        _ => None,
    }
}

/// `v` is an object.
pub open spec fn json_is_object(v: Option<JsonValue>) -> bool {
    v matches Some(JsonValue::Object(_))
}

/// The string elements of `items`, in order; other elements are dropped.
pub open spec fn strings_in(items: Seq<JsonValue>) -> Seq<Seq<char>>
    decreases items.len(),
{
    if items.len() == 0 {
        seq![]
    } else {
        let rest = strings_in(items.drop_last());
        match items.last() {
            JsonValue::String(s) => rest.push(s@),
            _ => rest,
        }
    }
}

/// Finds the member `key` of `v`.
pub fn lookup<'a>(v: &'a JsonValue, key: &str) -> (r: Option<&'a JsonValue>)
    ensures
        match r {
            Some(x) => json_lookup(*v, key@) == Some(*x),
            None => json_lookup(*v, key@) is None,
        },
{
    match v {
        JsonValue::Object(entries) => {
            let mut i: usize = 0;
            assert(entries@.skip(0) =~= entries@);
            while i < entries.len()
                invariant
                    i <= entries@.len(),
                    json_lookup(*v, key@) == entries_lookup(entries@, key@),
                    entries_lookup(entries@, key@) == entries_lookup(entries@.skip(i as int), key@),
                decreases entries@.len() - i,
            {
                assert(entries@.skip(i as int)[0] == entries@[i as int]);
                assert(entries@.skip(i as int).drop_first() =~= entries@.skip(i + 1));
                let entry = &entries[i];
                if str_eq(entry.0.as_str(), key) {
                    assert(entries@.skip(i as int).len() > 0);
                    assert(entries@.skip(i as int)[0].0@ == key@);
                    return Some(&entry.1);
                }
                i = i + 1;
            }
            None
        },
        _ => None,
    }
}

/// The string member `key` of `v`, or `default`.
pub fn str_member(v: &JsonValue, key: &str, default: &str) -> (r: String)
    ensures
        r@ == (match json_as_str(json_lookup(*v, key@)) {
            Some(s) => s,
            None => default@,
        }),
{
    match lookup(v, key) {
        Some(JsonValue::String(s)) => s.clone(),
        _ => default.to_owned(),
    }
}

/// The integer member `key` of `v`, or `default`.
pub fn i64_member(v: &JsonValue, key: &str, default: i64) -> (r: i64)
    ensures
        r == (match json_as_i64(json_lookup(*v, key@)) {
            Some(x) => x,
            None => default,
        }),
{
    match lookup(v, key) {
        Some(JsonValue::Number(n)) => match n.int_value {
            Some(x) => x,
            None => default,
        },
        _ => default,
    }
}

/// The number member `key` of `v` as `f32` bits, or `default`.
pub fn f32_member(v: &JsonValue, key: &str, default: u32) -> (r: u32)
    ensures
        r == (match json_as_f32_bits(json_lookup(*v, key@)) {
            Some(x) => x,
            None => default,
        }),
{
    match lookup(v, key) {
        Some(JsonValue::Number(n)) => n.f32_bits,
        _ => default,
    }
}

/// The boolean member `key` of `v`, or `default`.
pub fn bool_member(v: &JsonValue, key: &str, default: bool) -> (r: bool)
    ensures
        r == (match json_as_bool(json_lookup(*v, key@)) {
            Some(x) => x,
            None => default,
        }),
{
    match lookup(v, key) {
        Some(JsonValue::Bool(b)) => *b,
        _ => default,
    }
}

/// The string elements of `items`, in order.
pub fn collect_strings(items: &Vec<JsonValue>) -> (r: Vec<String>)
    ensures
        crate::wire::strings_view(r@) == strings_in(items@),
{
    let mut out: Vec<String> = Vec::new();
    let mut i: usize = 0;
    assert(items@.take(0) =~= Seq::<JsonValue>::empty());
    assert(crate::wire::strings_view(out@) =~= strings_in(items@.take(0)));
    while i < items.len()
        invariant
            i <= items@.len(),
            crate::wire::strings_view(out@) == strings_in(items@.take(i as int)),
        decreases items@.len() - i,
    {
        let ghost before = out@;
        assert(items@.take(i + 1).drop_last() =~= items@.take(i as int));
        assert(items@.take(i + 1).last() == items@[i as int]);
        match &items[i] {
            JsonValue::String(s) => {
                out.push(s.clone());
                assert(crate::wire::strings_view(out@) =~= crate::wire::strings_view(before).push(
                    s@,
                ));
            },
            _ => {},
        }
        i = i + 1;
    }
    assert(items@.take(i as int) =~= items@);
    out
}

} // verus!

verus! {

/// A string member's characters, or `d`.
pub open spec fn str_or(v: Option<JsonValue>, d: Seq<char>) -> Seq<char> {
    match json_as_str(v) {
        Some(s) => s,
        None => d,
    }
}

/// An integer member, or `d`.
pub open spec fn i64_or(v: Option<JsonValue>, d: i64) -> i64 {
    match json_as_i64(v) {
        Some(x) => x,
        None => d,
    }
}

/// A number member's `f32` bits, or `d`.
pub open spec fn f32_or(v: Option<JsonValue>, d: u32) -> u32 {
    match json_as_f32_bits(v) {
        Some(x) => x,
        None => d,
    }
}

/// A boolean member, or `d`.
pub open spec fn bool_or(v: Option<JsonValue>, d: bool) -> bool {
    match json_as_bool(v) {
        Some(x) => x,
        None => d,
    }
}

/// The string elements of the array member `key`, or none.
pub open spec fn string_items(v: JsonValue, key: Seq<char>) -> Seq<Seq<char>> {
    match json_as_array(json_lookup(v, key)) {
        Some(items) => strings_in(items),
        None => seq![],
    }
}

/// The string elements of the array member `key` of `v`, or none.
pub fn string_items_member(v: &JsonValue, key: &str) -> (r: Vec<String>)
    ensures
        crate::wire::strings_view(r@) == string_items(*v, key@),
{
    match lookup(v, key) {
        Some(JsonValue::Array(items)) => collect_strings(items),
        _ => {
            let r: Vec<String> = Vec::new();
            assert(crate::wire::strings_view(r@) =~= Seq::<Seq<char>>::empty());
            r
        },
    }
}

} // verus!
