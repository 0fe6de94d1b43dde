//! Responses and their serialization to JSON payload bytes.
//!
//! Every completed task produces at most one [`Response`]; the writer turns
//! it into one JSON object holding either `data` or `error`, plus the
//! original request id when one is known. The serializer emits ASCII bytes
//! only (every other character is written as a JSON `\u` escape), so the
//! payload's byte length is exactly the length of the produced vector.

use vstd::prelude::*;

verus! {

/// The successful payload of a completed task.
#[derive(Debug, PartialEq)]
pub enum Payload {
    /// Session-ready acknowledgment of `init`.
    Ready,
    /// Display payload of a `move` preview.
    Preview(String),
    /// Ranked result list of a `typed` query.
    Matches(Vec<String>),
}

/// Why a request was answered with an error.
#[derive(Debug, PartialEq)]
pub enum RpcError {
    /// The method name is not one of the recognized operations.
    UnknownMethod,
    /// The method is known but the params lack a required field or hold one
    /// of the wrong type.
    BadRequest,
    /// The line was not a well-formed request at all (transport/decode
    /// error), but its request id could still be recovered.
    Malformed,
    /// A collaborator failed; carries its descriptive message.
    HandlerFailed(String),
}

/// One response: a result or error value plus the correlation id, written
/// exactly once per completed task that elects to answer.
#[derive(Debug, PartialEq)]
pub struct Response {
    /// The original request id; `None` when it could not be recovered from a
    /// malformed request.
    pub id: Option<u64>,
    pub body: Result<Payload, RpcError>,
}

/// The error reply for a request that never reached a handler.
pub open spec fn reply_error(id: Option<u64>, e: RpcError) -> Response {
    Response { id, body: Err(e) }
}

/// The acknowledgment reply of `init`.
pub open spec fn reply_ready(id: u64) -> Response {
    Response { id: Some(id), body: Ok(Payload::Ready) }
}

/// The reply of a fresh `move` preview.
pub open spec fn reply_preview(id: u64, s: String) -> Response {
    Response { id: Some(id), body: Ok(Payload::Preview(s)) }
}

/// The reply of a fresh `typed` result.
pub open spec fn reply_matches(id: u64, v: Vec<String>) -> Response {
    Response { id: Some(id), body: Ok(Payload::Matches(v)) }
}

/// ASCII decimal digits of `n`, most significant first, no leading zeros.
pub open spec fn dec_digits(n: nat) -> Seq<u8>
    decreases n,
{
    if n < 10 {
        seq![(48 + n) as u8]
    } else {
        dec_digits(n / 10).push((48 + n % 10) as u8)
    }
}

/// The lower-case hex digit for `d < 16`.
pub open spec fn hex_digit(d: nat) -> u8 {
    if d < 10 {
        (48 + d) as u8
    } else {
        (87 + d) as u8
    }
}

/// Four hex digits of `n % 0x10000`, most significant first.
pub open spec fn hex4(n: nat) -> Seq<u8> {
    seq![
        hex_digit((n / 0x1000) % 16),
        hex_digit((n / 0x100) % 16),
        hex_digit((n / 0x10) % 16),
        hex_digit(n % 16),
    ]
}

/// The JSON escape of one character, as ASCII bytes: printable ASCII stands
/// for itself (quote and backslash escaped); everything else becomes a `\u`
/// escape, with a surrogate pair above the basic plane.
pub open spec fn esc_char(c: char) -> Seq<u8> {
    let u = c as u32;
    if c == '"' {
        seq![92u8, 34u8]
    } else if c == '\\' {
        seq![92u8, 92u8]
    } else if 0x20 <= u && u < 0x7f {
        seq![u as u8]
    } else if u < 0x10000 {
        seq![92u8, 117u8] + hex4(u as nat)
    } else {
        seq![92u8, 117u8] + hex4((0xD800 + ((u - 0x10000) / 0x400)) as nat) + seq![92u8, 117u8]
            + hex4((0xDC00 + ((u - 0x10000) % 0x400)) as nat)
    }
}

/// The escaped bytes of a whole string.
pub open spec fn esc_seq(s: Seq<char>) -> Seq<u8>
    decreases s.len(),
{
    if s.len() == 0 {
        Seq::empty()
    } else {
        esc_seq(s.drop_last()) + esc_char(s.last())
    }
}

/// The JSON string literal for `s`.
pub open spec fn json_str(s: Seq<char>) -> Seq<u8> {
    seq![34u8] + esc_seq(s) + seq![34u8]
}

/// The comma-separated body of a JSON array of strings.
pub open spec fn arr_body(vs: Seq<String>) -> Seq<u8>
    decreases vs.len(),
{
    if vs.len() == 0 {
        Seq::empty()
    } else if vs.len() == 1 {
        json_str(vs.last()@)
    } else {
        arr_body(vs.drop_last()) + seq![44u8] + json_str(vs.last()@)
    }
}

/// The rendered error text.
pub open spec fn error_text(e: RpcError) -> Seq<char> {
    match e {
        RpcError::UnknownMethod => "unknown method"@,
        RpcError::BadRequest => "invalid params"@,
        RpcError::Malformed => "malformed request"@,
        RpcError::HandlerFailed(s) => s@,
    }
}

/// `"data":` and `"error":`.
pub open spec fn data_key() -> Seq<u8> {
    seq![34u8, 100u8, 97u8, 116u8, 97u8, 34u8, 58u8]
}

pub open spec fn error_key() -> Seq<u8> {
    seq![34u8, 101u8, 114u8, 114u8, 111u8, 114u8, 34u8, 58u8]
}

/// The JSON rendering of a successful payload.
pub open spec fn payload_data(p: Payload) -> Seq<u8> {
    match p {
        Payload::Ready => json_str("ready"@),
        Payload::Preview(s) => json_str(s@),
        Payload::Matches(v) => seq![91u8] + arr_body(v@) + seq![93u8],
    }
}

/// The trailing `,"id":N` part, empty when no id is known.
pub open spec fn id_part(id: Option<u64>) -> Seq<u8> {
    match id {
        None => Seq::empty(),
        Some(n) => seq![44u8, 34u8, 105u8, 100u8, 34u8, 58u8] + dec_digits(n as nat),
    }
}

/// The full JSON payload of a response: one object holding `data` or
/// `error`, plus the original id when known.
pub open spec fn payload_bytes(r: Response) -> Seq<u8> {
    match r.body {
        Ok(p) => seq![123u8] + data_key() + payload_data(p) + id_part(r.id) + seq![125u8],
        Err(e) => seq![123u8] + error_key() + json_str(error_text(e)) + id_part(r.id) + seq![125u8],
    }
}

/// Escaping a longer string appends the escape of each further character.
proof fn lemma_esc_take(s: Seq<char>, i: int)
    requires
        0 <= i < s.len(),
    ensures
        esc_seq(s.take(i + 1)) == esc_seq(s.take(i)) + esc_char(s[i]),
{
    assert(s.take(i + 1).drop_last() =~= s.take(i));
    assert(s.take(i + 1).last() == s[i]);
}

fn push_hex4(out: &mut Vec<u8>, n: u32)
    ensures
        final(out)@ == old(out)@ + hex4(n as nat),
{
    let d0 = ((n / 0x1000) % 16) as u8;
    let d1 = ((n / 0x100) % 16) as u8;
    let d2 = ((n / 0x10) % 16) as u8;
    let d3 = (n % 16) as u8;
    out.push(if d0 < 10 { 48 + d0 } else { 87 + d0 });
    out.push(if d1 < 10 { 48 + d1 } else { 87 + d1 });
    out.push(if d2 < 10 { 48 + d2 } else { 87 + d2 });
    out.push(if d3 < 10 { 48 + d3 } else { 87 + d3 });
    proof {
        assert(out@ =~= old(out)@ + hex4(n as nat));
    }
}

fn push_escaped(out: &mut Vec<u8>, c: char)
    ensures
        final(out)@ == old(out)@ + esc_char(c),
{
    let u = c as u32;
    if c == '"' {
        out.push(92u8);
        out.push(34u8);
        proof {
            assert(out@ =~= old(out)@ + esc_char(c));
        }
    } else if c == '\\' {
        out.push(92u8);
        out.push(92u8);
        proof {
            assert(out@ =~= old(out)@ + esc_char(c));
        }
    } else if 0x20 <= u && u < 0x7f {
        out.push(u as u8);
        proof {
            assert(out@ =~= old(out)@ + esc_char(c));
        }
    } else if u < 0x10000 {
        out.push(92u8);
        out.push(117u8);
        push_hex4(out, u);
        proof {
            assert(out@ =~= old(out)@ + esc_char(c));
        }
    } else {
        out.push(92u8);
        out.push(117u8);
        push_hex4(out, 0xD800 + ((u - 0x10000) / 0x400));
        out.push(92u8);
        out.push(117u8);
        push_hex4(out, 0xDC00 + ((u - 0x10000) % 0x400));
        proof {
            assert(out@ =~= old(out)@ + esc_char(c));
        }
    }
}

/// Append the JSON string literal for `s`.
fn push_json_str(out: &mut Vec<u8>, s: &str)
    ensures
        final(out)@ == old(out)@ + json_str(s@),
{
    out.push(34u8);
    let len = s.unicode_len();
    let mut i: usize = 0;
    while i < len
        invariant
            i <= len,
            len == s@.len(),
            out@ == old(out)@ + seq![34u8] + esc_seq(s@.take(i as int)),
        decreases len - i,
    {
        let c = s.get_char(i);
        push_escaped(out, c);
        proof {
            lemma_esc_take(s@, i as int);
            assert(out@ =~= old(out)@ + seq![34u8] + esc_seq(s@.take(i + 1 as int)));
        }
        i = i + 1;
    }
    out.push(34u8);
    proof {
        assert(s@.take(s@.len() as int) =~= s@);
        assert(out@ =~= old(out)@ + json_str(s@));
    }
}

/// Append the decimal digits of `n`.
pub fn push_u64(out: &mut Vec<u8>, n: u64)
    ensures
        final(out)@ == old(out)@ + dec_digits(n as nat),
{
    let mut rev: Vec<u8> = Vec::new();
    let mut m = n;
    if m == 0 {
        out.push(48u8);
        proof {
            assert(out@ =~= old(out)@ + dec_digits(0));
        }
        return ;
    }
    while m > 0
        invariant
            0 < n,
            m == 0 ==> rev@.len() > 0,
            dec_digits(n as nat) == (if m == 0 {
                rev@.reverse()
            } else {
                dec_digits(m as nat) + rev@.reverse()
            }),
        decreases m,
    {
        let ghost prev = rev@;
        let ghost pm = m as nat;
        let d = (48 + (m % 10)) as u8;
        rev.push(d);
        m = m / 10;
        proof {
            assert(rev@.reverse() =~= seq![d] + prev.reverse());
            if pm < 10 {
                assert(dec_digits(pm) =~= seq![d]);
                assert(dec_digits(pm) + prev.reverse() =~= rev@.reverse());
            } else {
                assert(dec_digits(pm) == dec_digits(pm / 10).push(d));
                assert(dec_digits(pm / 10).push(d) + prev.reverse() =~= dec_digits(pm / 10)
                    + rev@.reverse());
            }
        }
    }
    let k = rev.len();
    let mut j: usize = 0;
    while j < k
        invariant
            j <= k,
            k == rev@.len(),
            dec_digits(n as nat) == rev@.reverse(),
            out@ == old(out)@ + rev@.reverse().take(j as int),
        decreases k - j,
    {
        out.push(rev[k - 1 - j]);
        proof {
            assert(rev@.reverse().take(j + 1 as int) =~= rev@.reverse().take(j as int) + seq![
                rev@[k - 1 - j],
            ]);
            assert(rev@.reverse()[j as int] == rev@[k - 1 - j]);
            assert(out@ =~= old(out)@ + rev@.reverse().take(j + 1 as int));
        }
        j = j + 1;
    }
    proof {
        assert(rev@.reverse().take(k as int) =~= rev@.reverse());
    }
}

/// Serialize a response to its JSON payload bytes — ASCII only, so the
/// vector's length is the payload's byte length.
pub fn response_bytes(r: &Response) -> (out: Vec<u8>)
    ensures
        out@ == payload_bytes(*r),
{
    let mut out: Vec<u8> = Vec::new();
    out.push(123u8);
    match &r.body {
        Ok(p) => {
            out.push(34u8);
            out.push(100u8);
            out.push(97u8);
            out.push(116u8);
            out.push(97u8);
            out.push(34u8);
            out.push(58u8);
            proof {
                assert(out@ =~= seq![123u8] + data_key());
            }
            match p {
                Payload::Ready => {
                    push_json_str(&mut out, "ready");
                },
                Payload::Preview(s) => {
                    push_json_str(&mut out, s.as_str());
                },
                Payload::Matches(v) => {
                    let ghost mid = out@;
                    out.push(91u8);
                    let mut i: usize = 0;
                    while i < v.len()
                        invariant
                            i <= v@.len(),
                            out@ == mid + seq![91u8] + arr_body(v@.take(i as int)),
                        decreases v@.len() - i,
                    {
                        if i > 0 {
                            out.push(44u8);
                        }
                        push_json_str(&mut out, v[i].as_str());
                        proof {
                            assert(v@.take(i + 1 as int).drop_last() =~= v@.take(i as int));
                            assert(v@.take(i + 1 as int).last() == v@[i as int]);
                            assert(out@ =~= mid + seq![91u8] + arr_body(v@.take(i + 1 as int)));
                        }
                        i = i + 1;
                    }
                    out.push(93u8);
                    proof {
                        assert(v@.take(v@.len() as int) =~= v@);
                    }
                },
            }
        },
        Err(e) => {
            out.push(34u8);
            out.push(101u8);
            out.push(114u8);
            out.push(114u8);
            out.push(111u8);
            out.push(114u8);
            out.push(34u8);
            out.push(58u8);
            proof {
                assert(out@ =~= seq![123u8] + error_key());
            }
            match e {
                RpcError::UnknownMethod => {
                    push_json_str(&mut out, "unknown method");
                },
                RpcError::BadRequest => {
                    push_json_str(&mut out, "invalid params");
                },
                RpcError::Malformed => {
                    push_json_str(&mut out, "malformed request");
                },
                RpcError::HandlerFailed(s) => {
                    push_json_str(&mut out, s.as_str());
                },
            }
        },
    }
    match &r.id {
        None => {
        },
        Some(n) => {
            let ghost mid = out@;
            out.push(44u8);
            out.push(34u8);
            out.push(105u8);
            out.push(100u8);
            out.push(34u8);
            out.push(58u8);
            push_u64(&mut out, *n);
            proof {
                assert(out@ =~= mid + id_part(r.id));
            }
        },
    }
    out.push(125u8);
    proof {
        assert(out@ =~= payload_bytes(*r));
    }
    out
}

} // verus!

