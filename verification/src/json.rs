//! The library's own model of a decoded JSON value, and the trusted boundary
//! to the `serde_json` parser that turns one line of input text into such a
//! value.
//!
//! The parser is the only outside code on the decode path; everything that
//! inspects the parsed value (schema validation, routing, parameter
//! extraction) is verified and works on [`JsonVal`] alone.

use vstd::prelude::*;

verus! {

/// A JSON value as the verified core sees it.
///
/// Numbers that are not unsigned 64-bit integers (negative or fractional)
/// are carried as [`JsonVal::OtherNumber`]; the strict request schema rejects
/// them wherever an unsigned integer is required, and they round-trip through
/// no contract of this library.
#[derive(Debug, PartialEq)]
pub enum JsonVal {
    Null,
    Bool(bool),
    UInt(u64),
    /// A JSON number that does not fit in `u64`.
    OtherNumber,
    Str(String),
    Arr(Vec<JsonVal>),
    Obj(Vec<(String, JsonVal)>),
}

/// First value stored under `key` in an object's entry list, if any.
pub open spec fn lookup(entries: Seq<(String, JsonVal)>, key: Seq<char>) -> Option<JsonVal>
    decreases entries.len(),
{
    if entries.len() == 0 {
        None
    } else if entries[0].0@ == key {
        Some(entries[0].1)
    } else {
        lookup(entries.skip(1), key)
    }
}

/// Appending an entry changes a lookup only where the key was absent before.
pub proof fn lemma_lookup_push(entries: Seq<(String, JsonVal)>, p: (String, JsonVal), key: Seq<char>)
    ensures
        lookup(entries.push(p), key) == (match lookup(entries, key) {
            Some(v) => Some(v),
            None => if p.0@ == key {
                Some(p.1)
            } else {
                None
            },
        }),
    decreases entries.len(),
{
    if entries.len() == 0 {
        assert(entries.push(p).skip(1) =~= entries);
    } else {
        assert(entries.push(p).skip(1) =~= entries.skip(1).push(p));
        lemma_lookup_push(entries.skip(1), p, key);
    }
}

/// If `key` first occurs at index `i`, the lookup returns that entry's value.
pub proof fn lemma_lookup_index(e: Seq<(String, JsonVal)>, key: Seq<char>, i: int)
    requires
        0 <= i < e.len(),
        e[i].0@ == key,
        forall|j: int| 0 <= j < i ==> e[j].0@ != key,
    ensures
        lookup(e, key) == Some(e[i].1),
    decreases i,
{
    if i > 0 {
        assert(e[0].0@ != key);
        assert(e.skip(1)[i - 1] == e[i]);
        assert forall|j: int| 0 <= j < i - 1 implies e.skip(1)[j].0@ != key by {
            assert(e.skip(1)[j] == e[j + 1]);
        }
        lemma_lookup_index(e.skip(1), key, i - 1);
    }
}

/// A key that occurs under no entry is not found.
pub proof fn lemma_lookup_absent(e: Seq<(String, JsonVal)>, key: Seq<char>)
    requires
        forall|j: int| 0 <= j < e.len() ==> e[j].0@ != key,
    ensures
        lookup(e, key) is None,
    decreases e.len(),
{
    if e.len() > 0 {
        assert forall|j: int| 0 <= j < e.skip(1).len() implies e.skip(1)[j].0@ != key by {
            assert(e.skip(1)[j] == e[j + 1]);
        }
        lemma_lookup_absent(e.skip(1), key);
    }
}

/// True exactly when the key reads as `lit`.
pub(crate) fn key_is(k: &String, lit: &str) -> (r: bool)
    ensures
        r == (k@ == lit@),
{
    let s = lit.to_owned();
    *k == s
}

/// Index of the first entry stored under `key`, tied to what [`lookup`]
/// finds there.
pub fn find_param(entries: &Vec<(String, JsonVal)>, key: &str) -> (r: Option<usize>)
    ensures
        match r {
            Some(i) => i < entries@.len() && lookup(entries@, key@) == Some(
                entries@[i as int].1,
            ),
            None => lookup(entries@, key@) is None,
        },
{
    let mut i: usize = 0;
    while i < entries.len()
        invariant
            i <= entries@.len(),
            forall|j: int| 0 <= j < i ==> entries@[j].0@ != key@,
        decreases entries@.len() - i,
    {
        if key_is(&entries[i].0, key) {
            proof {
                lemma_lookup_index(entries@, key@, i as int);
            }
            return Some(i);
        }
        i = i + 1;
    }
    proof {
        lemma_lookup_absent(entries@, key@);
    }
    None
}

#[verifier::external_type_specification]
#[verifier::external_body]
pub struct ExValue(serde_json::Value);

/// Relies on the variants of `serde_json::Value`: each is mapped to the
/// matching [`JsonVal`] variant, field for field; a `Number` is mapped through
/// `serde_json::Number::as_u64`, which returns the exact integer when the
/// number is an unsigned 64-bit integer and `None` otherwise.
#[verifier::external_body]
fn json_of_value(v: serde_json::Value) -> JsonVal {
    match v {
        serde_json::Value::Null => JsonVal::Null,
        serde_json::Value::Bool(b) => JsonVal::Bool(b),
        serde_json::Value::Number(n) => match n.as_u64() {
            Some(u) => JsonVal::UInt(u),
            None => JsonVal::OtherNumber,
        },
        serde_json::Value::String(s) => JsonVal::Str(s),
        serde_json::Value::Array(a) => JsonVal::Arr(a.into_iter().map(json_of_value).collect()),
        serde_json::Value::Object(m) => JsonVal::Obj(
            m.into_iter().map(|(k, w)| (k, json_of_value(w))).collect(),
        ),
    }
}

/// What the JSON parser makes of a line: `Some` of the parsed value exactly
/// when the line is one syntactically valid JSON document, `None` otherwise.
/// The result depends on the line's characters alone, so it can bear a name,
/// though what it is on a given line is stated nowhere: callers are verified
/// for every possible value, and [`crate::message::message_of_json`] takes
/// the parsed value as an argument with an exact contract of its own.
pub uninterp spec fn parse_of(s: Seq<char>) -> Option<JsonVal>;

/// Relies on `serde_json::from_str::<serde_json::Value>`: it returns `Ok`
/// exactly when the line is one syntactically valid JSON document (surrounding
/// whitespace tolerated), and `Err` otherwise, without panicking; the vendored
/// parser is deterministic, so the result is a function of the line alone,
/// named [`parse_of`].
#[verifier::external_body]
pub(crate) fn parse_line(line: &str) -> (r: Option<JsonVal>)
    ensures
        r == parse_of(line@),
{
    match serde_json::from_str::<serde_json::Value>(line) {
        Ok(v) => Some(json_of_value(v)),
        Err(_) => None,
    }
}

} // verus!
