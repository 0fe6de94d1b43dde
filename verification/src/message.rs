//! Decoding one parsed JSON value into a request [`Message`] under the strict
//! request schema, and re-encoding a [`Message`] as a JSON value.
//!
//! The schema is `{ "method": string, "params": object, "id": u64 }`: all
//! three fields present, no unknown or duplicate top-level fields. The decode
//! contract is exact — [`spec_decode`] says which values are accepted and what
//! message each one yields — and the encoder's contract states the round trip:
//! decoding a re-encoded message gives the message back.

use vstd::prelude::*;

use crate::json::JsonVal;
use crate::json::key_is;
use crate::json::lemma_lookup_push;
use crate::json::lookup;

verus! {

/// One decoded JSON-RPC request: a method name, an ordered key-value
/// parameter list, and the caller-assigned request identifier.
#[derive(Debug, PartialEq)]
pub struct Message {
    pub method: String,
    pub params: Vec<(String, JsonVal)>,
    pub id: u64,
}

/// A line that did not decode to a [`Message`]; carries the request id when
/// it could still be recovered from the malformed value, so the failure can
/// be reported to the caller, and `None` when it could not (the line is then
/// dropped silently).
#[derive(Debug, Clone, PartialEq)]
pub struct DecodeFail {
    pub id: Option<u64>,
}

/// The three field names the strict schema admits at the top level.
pub open spec fn is_schema_key(k: Seq<char>) -> bool {
    k == "method"@ || k == "params"@ || k == "id"@
}

pub open spec fn all_keys_schema(e: Seq<(String, JsonVal)>) -> bool {
    forall|i: int| 0 <= i < e.len() ==> is_schema_key(#[trigger] e[i].0@)
}

/// The string payload of a looked-up value, when it is a JSON string.
pub open spec fn str_of(o: Option<JsonVal>) -> Option<String> {
    match o {
        Some(JsonVal::Str(s)) => Some(s),
        _ => None,
    }
}

/// The entry list of a looked-up value, when it is a JSON object.
pub open spec fn obj_of(o: Option<JsonVal>) -> Option<Vec<(String, JsonVal)>> {
    match o {
        Some(JsonVal::Obj(p)) => Some(p),
        _ => None,
    }
}

/// The integer payload of a looked-up value, when it is a `u64`.
pub open spec fn uint_of(o: Option<JsonVal>) -> Option<u64> {
    match o {
        Some(JsonVal::UInt(u)) => Some(u),
        _ => None,
    }
}

/// Strict decoding of a top-level object's entries: exactly the three schema
/// fields (so no unknown fields, no duplicates, none missing), `method` a
/// string, `params` an object, `id` a `u64`.
pub open spec fn spec_decode_obj(e: Seq<(String, JsonVal)>) -> Option<Message> {
    if all_keys_schema(e) && e.len() == 3 {
        match (str_of(lookup(e, "method"@)), obj_of(lookup(e, "params"@)), uint_of(
            lookup(e, "id"@),
        )) {
            (Some(m), Some(p), Some(i)) => Some(Message { method: m, params: p, id: i }),
            _ => None,
        }
    } else {
        None
    }
}

/// Which parsed JSON values decode to a [`Message`], and to which one.
pub open spec fn spec_decode(v: JsonVal) -> Option<Message> {
    match v {
        JsonVal::Obj(entries) => spec_decode_obj(entries@),
        _ => None,
    }
}

/// The request id that can still be recovered from a value that failed the
/// schema: the first top-level `id` field, when it is a `u64`.
pub open spec fn spec_recover_id(v: JsonVal) -> Option<u64> {
    match v {
        JsonVal::Obj(entries) => uint_of(lookup(entries@, "id"@)),
        _ => None,
    }
}

/// The three schema field names are pairwise distinct.
proof fn lemma_schema_keys_distinct()
    ensures
        "method"@ != "params"@,
        "method"@ != "id"@,
        "params"@ != "id"@,
{
    reveal_strlit("method");
    reveal_strlit("params");
    reveal_strlit("id");
    assert("method"@ != "params"@) by {
        assert("method"@[0] == 'm' && "params"@[0] == 'p');
    }
    assert("method"@ != "id"@) by {
        assert("method"@.len() == 6 && "id"@.len() == 2);
    }
    assert("params"@ != "id"@) by {
        assert("params"@.len() == 6 && "id"@.len() == 2);
    }
}

/// Appending an entry keeps the key set within the schema exactly when the
/// appended key is a schema key too.
proof fn lemma_schema_push(e: Seq<(String, JsonVal)>, p: (String, JsonVal))
    ensures
        all_keys_schema(e.push(p)) == (all_keys_schema(e) && is_schema_key(p.0@)),
{
    if all_keys_schema(e) && is_schema_key(p.0@) {
        assert forall|i: int| 0 <= i < e.push(p).len() implies is_schema_key(
            #[trigger] e.push(p)[i].0@,
        ) by {
            if i < e.len() {
                assert(e.push(p)[i] == e[i]);
            } else {
                assert(e.push(p)[i] == p);
            }
        }
    } else if !all_keys_schema(e) {
        let i = choose|i: int| 0 <= i < e.len() && !is_schema_key(#[trigger] e[i].0@);
        assert(e.push(p)[i] == e[i]);
    } else {
        assert(e.push(p)[e.len() as int] == p);
    }
}

/// Validate a parsed JSON value against the strict request schema and build
/// the [`Message`]; on failure, report the recoverable request id, if any.
pub fn message_of_json(v: JsonVal) -> (r: Result<Message, DecodeFail>)
    ensures
        match r {
            Ok(m) => spec_decode(v) == Some(m),
            Err(f) => spec_decode(v) is None && f.id == spec_recover_id(v),
        },
{
    match v {
        JsonVal::Obj(mut entries) => {
            let ghost e0 = entries@;
            let n = entries.len();
            let mut all_schema = true;
            let mut seen_method = false;
            let mut seen_params = false;
            let mut seen_id = false;
            let mut method_val: Option<String> = None;
            let mut params_val: Option<Vec<(String, JsonVal)>> = None;
            let mut id_val: Option<u64> = None;
            let mut i: usize = 0;
            while entries.len() > 0
                invariant
                    n == e0.len(),
                    i + entries@.len() == e0.len(),
                    entries@ == e0.skip(i as int),
                    all_schema == all_keys_schema(e0.take(i as int)),
                    seen_method == (lookup(e0.take(i as int), "method"@) is Some),
                    seen_params == (lookup(e0.take(i as int), "params"@) is Some),
                    seen_id == (lookup(e0.take(i as int), "id"@) is Some),
                    method_val == str_of(lookup(e0.take(i as int), "method"@)),
                    params_val == obj_of(lookup(e0.take(i as int), "params"@)),
                    id_val == uint_of(lookup(e0.take(i as int), "id"@)),
                decreases entries@.len(),
            {
                let (k, val) = entries.remove(0);
                proof {
                    assert(e0.skip(i as int)[0] == e0[i as int]);
                    assert(k == e0[i as int].0 && val == e0[i as int].1);
                    assert(e0.take(i as int).push(e0[i as int]) =~= e0.take(i + 1 as int));
                    assert(e0.skip(i as int).remove(0) =~= e0.skip(i + 1 as int));
                    lemma_lookup_push(e0.take(i as int), e0[i as int], "method"@);
                    lemma_lookup_push(e0.take(i as int), e0[i as int], "params"@);
                    lemma_lookup_push(e0.take(i as int), e0[i as int], "id"@);
                    lemma_schema_push(e0.take(i as int), e0[i as int]);
                    lemma_schema_keys_distinct();
                }
                if key_is(&k, "method") {
                    if !seen_method {
                        seen_method = true;
                        if let JsonVal::Str(s) = val {
                            method_val = Some(s);
                        }
                    }
                } else if key_is(&k, "params") {
                    if !seen_params {
                        seen_params = true;
                        if let JsonVal::Obj(p) = val {
                            params_val = Some(p);
                        }
                    }
                } else if key_is(&k, "id") {
                    if !seen_id {
                        seen_id = true;
                        if let JsonVal::UInt(u) = val {
                            id_val = Some(u);
                        }
                    }
                } else {
                    all_schema = false;
                }
                i = i + 1;
            }
            proof {
                assert(e0.take(i as int) =~= e0);
            }
            if n == 3 && all_schema && method_val.is_some() && params_val.is_some()
                && id_val.is_some() {
                let m = method_val.unwrap();
                let p = params_val.unwrap();
                let idv = id_val.unwrap();
                Ok(Message { method: m, params: p, id: idv })
            } else {
                Err(DecodeFail { id: id_val })
            }
        },
        _ => Err(DecodeFail { id: None }),
    }
}

/// Re-encode a message as a JSON value under the same schema.
///
/// The contract is the round trip itself: decoding the result gives back
/// exactly the message's method, params and id.
pub fn message_to_json(m: Message) -> (v: JsonVal)
    ensures
        spec_decode(v) == Some(m),
        v matches JsonVal::Obj(e) && e@.len() == 3 && e@[0].0@ == "method"@ && e@[0].1
            == JsonVal::Str(m.method) && e@[1].0@ == "params"@ && e@[1].1 == JsonVal::Obj(m.params)
            && e@[2].0@ == "id"@ && e@[2].1 == JsonVal::UInt(m.id),
{
    let mut entries: Vec<(String, JsonVal)> = Vec::new();
    entries.push((String::from_str("method"), JsonVal::Str(m.method)));
    entries.push((String::from_str("params"), JsonVal::Obj(m.params)));
    entries.push((String::from_str("id"), JsonVal::UInt(m.id)));
    proof {
        reveal_with_fuel(crate::json::lookup, 4);
        lemma_schema_keys_distinct();
        let e = entries@;
        assert(e.skip(1) =~= seq![e[1], e[2]]);
        assert(e.skip(1).skip(1) =~= seq![e[2]]);
        assert(e.skip(1).skip(1).skip(1) =~= Seq::<(String, JsonVal)>::empty());
        assert(e[0].0@ == "method"@ && e[1].0@ == "params"@ && e[2].0@ == "id"@);
        assert(lookup(e, "method"@) == Some(JsonVal::Str(m.method)));
        assert(lookup(e, "params"@) == Some(JsonVal::Obj(m.params)));
        assert(lookup(e, "id"@) == Some(JsonVal::UInt(m.id)));
        assert(all_keys_schema(e)) by {
            assert(forall|j: int| 0 <= j < 3 ==> is_schema_key(#[trigger] e[j].0@)) by {
                assert(is_schema_key(e[0].0@) && is_schema_key(e[1].0@) && is_schema_key(e[2].0@));
            }
        }
        assert(spec_decode_obj(e) == Some(Message { method: m.method, params: m.params, id: m.id }));
    }
    JsonVal::Obj(entries)
}

/// Decode one raw input line: parse it as JSON (through the trusted parser,
/// whose result on this line is named [`crate::json::parse_of`]) and
/// validate the result against the strict request schema. A line that is
/// not JSON at all fails with no recoverable id; a parsed line is accepted
/// or rejected exactly as [`spec_decode`] says of its parsed value.
pub fn decode_line(line: &str) -> (r: Result<Message, DecodeFail>)
    ensures
        match crate::json::parse_of(line@) {
            None => r == Err::<Message, DecodeFail>(DecodeFail { id: None }),
            Some(v) => match r {
                Ok(m) => spec_decode(v) == Some(m),
                Err(f) => spec_decode(v) is None && f.id == spec_recover_id(v),
            },
        },
{
    match crate::json::parse_line(line) {
        Some(v) => message_of_json(v),
        None => Err(DecodeFail { id: None }),
    }
}

} // verus!
