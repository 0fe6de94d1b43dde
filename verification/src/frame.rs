//! Length-prefixed output frames.
//!
//! Each response is written as `Content-length: <N>\n\n<payload>` where `N`
//! is the exact byte length of the payload. The writer side must emit one
//! whole frame per write (a single critical section around the write), so
//! that concurrent tasks never interleave partial frames; this module makes
//! the frame itself exact: the declared length always matches the payload.

use vstd::prelude::*;

use crate::respond::dec_digits;
use crate::respond::push_u64;

verus! {

/// The bytes of `Content-length: `.
pub open spec fn header_prefix() -> Seq<u8> {
    seq![
        67u8,
        111u8,
        110u8,
        116u8,
        101u8,
        110u8,
        116u8,
        45u8,
        108u8,
        101u8,
        110u8,
        103u8,
        116u8,
        104u8,
        58u8,
        32u8,
    ]
}

/// A whole frame: header, the payload's byte length in decimal, a blank
/// line, then the exact payload bytes.
pub open spec fn frame_bytes(payload: Seq<u8>) -> Seq<u8> {
    header_prefix() + dec_digits(payload.len()) + seq![10u8, 10u8] + payload
}

/// The number denoted by a run of ASCII decimal digits.
pub open spec fn dec_val(s: Seq<u8>) -> int
    decreases s.len(),
{
    if s.len() == 0 {
        0
    } else {
        dec_val(s.drop_last()) * 10 + (s.last() - 48)
    }
}

/// The decimal digits of `n` denote `n` again, and all of them are digit
/// bytes — in particular no newline, so the blank line after them is
/// unambiguous.
pub proof fn lemma_dec_digits_exact(n: nat)
    ensures
        dec_val(dec_digits(n)) == n,
        dec_digits(n).len() >= 1,
        forall|i: int| 0 <= i < dec_digits(n).len() ==> 48 <= #[trigger] dec_digits(n)[i] < 58,
    decreases n,
{
    assert(dec_val(Seq::<u8>::empty()) == 0);
    if n < 10 {
        assert(dec_digits(n) =~= seq![(48 + n) as u8]);
        assert(dec_digits(n).drop_last() =~= Seq::<u8>::empty());
        assert(dec_val(dec_digits(n)) == dec_val(Seq::<u8>::empty()) * 10 + ((48 + n) as u8 - 48));
    } else {
        lemma_dec_digits_exact(n / 10);
        let d = (48 + n % 10) as u8;
        assert(dec_digits(n) == dec_digits(n / 10).push(d));
        assert(dec_digits(n).drop_last() =~= dec_digits(n / 10));
        assert(dec_digits(n).last() == d);
        assert(dec_val(dec_digits(n)) == (n / 10) * 10 + n % 10);
        assert((n / 10) * 10 + n % 10 == n) by {
            vstd::arithmetic::div_mod::lemma_fundamental_div_mod(n as int, 10);
        }
        assert forall|i: int| 0 <= i < dec_digits(n).len() implies 48 <= #[trigger] dec_digits(
            n,
        )[i] < 58 by {
            if i < dec_digits(n / 10).len() {
                assert(dec_digits(n)[i] == dec_digits(n / 10)[i]);
            }
        }
    }
}

/// A frame is exact: it is the header, then digits that denote precisely the
/// payload's byte length, then the blank line, then the payload itself,
/// unchanged.
pub proof fn lemma_frame_exact(payload: Seq<u8>)
    ensures
        ({
            let f = frame_bytes(payload);
            let digits = dec_digits(payload.len());
            let h = header_prefix().len() as int + digits.len() as int;
            &&& f.len() == h + 2 + payload.len()
            &&& f.subrange(0, header_prefix().len() as int) == header_prefix()
            &&& f.subrange(header_prefix().len() as int, h) == digits
            &&& dec_val(digits) == payload.len()
            &&& f[h] == 10u8 && f[h + 1] == 10u8
            &&& f.subrange(h + 2, f.len() as int) == payload
        }),
{
    lemma_dec_digits_exact(payload.len());
    let f = frame_bytes(payload);
    let digits = dec_digits(payload.len());
    let h = header_prefix().len() as int + digits.len() as int;
    assert(f.subrange(0, header_prefix().len() as int) =~= header_prefix());
    assert(f.subrange(header_prefix().len() as int, h) =~= digits);
    assert(f.subrange(h + 2, f.len() as int) =~= payload);
}

/// An ASCII decimal digit.
pub open spec fn is_digit(b: u8) -> bool {
    48 <= b < 58
}

/// The first position at or after `i` holding a non-digit byte (or the end
/// of the stream).
pub open spec fn digits_end(s: Seq<u8>, i: int) -> int
    decreases s.len() - i,
{
    if i < 0 || i >= s.len() {
        i
    } else if is_digit(s[i]) {
        digits_end(s, i + 1)
    } else {
        i
    }
}

/// How a reader takes one frame off the front of a stream: the fixed
/// header, then digits up to the first newline, a second newline, then as
/// many payload bytes as the digits said. Returns the payload and the
/// remainder of the stream.
pub open spec fn parse_frame(s: Seq<u8>) -> Option<(Seq<u8>, Seq<u8>)> {
    if s.len() >= 16 && s.subrange(0, 16) == header_prefix() {
        let e = digits_end(s, 16);
        if e > 16 && e + 2 <= s.len() && s[e] == 10u8 && s[e + 1] == 10u8 {
            let n = dec_val(s.subrange(16, e));
            if 0 <= n && e + 2 + n <= s.len() {
                Some((s.subrange(e + 2, e + 2 + n), s.skip(e + 2 + n)))
            } else {
                None
            }
        } else {
            None
        }
    } else {
        None
    }
}

/// If `s[i..j)` holds digits and `s[j]` does not, the digit run ends at `j`.
proof fn lemma_digits_end_at(s: Seq<u8>, i: int, j: int)
    requires
        0 <= i <= j < s.len(),
        forall|k: int| i <= k < j ==> is_digit(#[trigger] s[k]),
        !is_digit(s[j]),
    ensures
        digits_end(s, i) == j,
    decreases j - i,
{
    if i < j {
        lemma_digits_end_at(s, i + 1, j);
    }
}

/// Re-reading a stream that starts with a whole frame yields exactly that
/// frame's payload and leaves exactly what follows it — whatever follows.
/// So when every write puts one whole frame on the stream, a reader
/// recovers every payload intact: concurrently completing tasks never
/// corrupt each other's frames.
pub proof fn lemma_parse_frame(p: Seq<u8>, rest: Seq<u8>)
    ensures
        parse_frame(frame_bytes(p) + rest) == Some((p, rest)),
{
    lemma_dec_digits_exact(p.len());
    let digits = dec_digits(p.len());
    let s = frame_bytes(p) + rest;
    let e = 16 + digits.len() as int;
    assert(s.subrange(0, 16) =~= header_prefix());
    assert forall|k: int| 16 <= k < e implies is_digit(#[trigger] s[k]) by {
        assert(s[k] == digits[k - 16]);
    }
    assert(s[e] == 10u8 && s[e + 1] == 10u8);
    lemma_digits_end_at(s, 16, e);
    assert(s.subrange(16, e) =~= digits);
    assert(s.subrange(e + 2, e + 2 + p.len() as int) =~= p);
    assert(s.skip(e + 2 + p.len() as int) =~= rest);
}

/// Two frames written back to back are both recovered exactly.
pub proof fn lemma_two_frames(p1: Seq<u8>, p2: Seq<u8>)
    ensures
        parse_frame(frame_bytes(p1) + frame_bytes(p2)) == Some((p1, frame_bytes(p2))),
        parse_frame(frame_bytes(p2)) == Some((p2, Seq::<u8>::empty())),
{
    lemma_parse_frame(p1, frame_bytes(p2));
    lemma_parse_frame(p2, Seq::empty());
    assert(frame_bytes(p2) + Seq::<u8>::empty() =~= frame_bytes(p2));
}

/// Build the frame for one payload.
pub fn frame(payload: Vec<u8>) -> (out: Vec<u8>)
    ensures
        out@ == frame_bytes(payload@),
{
    let ghost p0 = payload@;
    let mut out: Vec<u8> = Vec::new();
    out.push(67u8);
    out.push(111u8);
    out.push(110u8);
    out.push(116u8);
    out.push(101u8);
    out.push(110u8);
    out.push(116u8);
    out.push(45u8);
    out.push(108u8);
    out.push(101u8);
    out.push(110u8);
    out.push(103u8);
    out.push(116u8);
    out.push(104u8);
    out.push(58u8);
    out.push(32u8);
    proof {
        assert(out@ =~= header_prefix());
    }
    push_u64(&mut out, payload.len() as u64);
    out.push(10u8);
    out.push(10u8);
    let mut payload = payload;
    out.append(&mut payload);
    proof {
        assert(out@ =~= frame_bytes(p0));
    }
    out
}

} // verus!
