//! The compute half of directory listing: formatting raw entries (a trailing
//! slash marks a directory) and sorting the names, since the order in which
//! a directory is read is not guaranteed and the listing must be
//! reproducible. The file system itself is read by the caller, which hands
//! the raw names in.

use vstd::prelude::*;

verus! {

broadcast use vstd::seq_lib::to_multiset_build, vstd::seq_lib::to_multiset_insert;

/// Lexicographic order on character sequences, by code point; a proper
/// prefix comes first. This is the order `str` comparison gives, since
/// UTF-8 byte order agrees with code-point order.
pub open spec fn lex_leq(a: Seq<char>, b: Seq<char>) -> bool
    decreases a.len(),
{
    if a.len() == 0 {
        true
    } else if b.len() == 0 {
        false
    } else if a[0] as u32 != b[0] as u32 {
        (a[0] as u32) < (b[0] as u32)
    } else {
        lex_leq(a.skip(1), b.skip(1))
    }
}

/// The order is total.
pub proof fn lemma_lex_total(a: Seq<char>, b: Seq<char>)
    ensures
        lex_leq(a, b) || lex_leq(b, a),
    decreases a.len(),
{
    if a.len() > 0 && b.len() > 0 && a[0] as u32 == b[0] as u32 {
        lemma_lex_total(a.skip(1), b.skip(1));
    }
}

/// The order is transitive.
pub proof fn lemma_lex_trans(a: Seq<char>, b: Seq<char>, c: Seq<char>)
    requires
        lex_leq(a, b),
        lex_leq(b, c),
    ensures
        lex_leq(a, c),
    decreases a.len(),
{
    if a.len() > 0 && b.len() > 0 && c.len() > 0 {
        if a[0] as u32 == b[0] as u32 && b[0] as u32 == c[0] as u32 {
            lemma_lex_trans(a.skip(1), b.skip(1), c.skip(1));
        }
    }
}

/// Comparing from a common prefix onward does not change the outcome.
proof fn lemma_lex_skip(a: Seq<char>, b: Seq<char>, i: int)
    requires
        0 <= i <= a.len(),
        i <= b.len(),
        forall|j: int| 0 <= j < i ==> a[j] as u32 == b[j] as u32,
    ensures
        lex_leq(a, b) == lex_leq(a.skip(i), b.skip(i)),
    decreases i,
{
    if i > 0 {
        assert(a[0] as u32 == b[0] as u32);
        assert forall|j: int| 0 <= j < i - 1 implies a.skip(1)[j] as u32 == b.skip(1)[j] as u32 by {
            assert(a.skip(1)[j] == a[j + 1] && b.skip(1)[j] == b[j + 1]);
        }
        lemma_lex_skip(a.skip(1), b.skip(1), i - 1);
        assert(a.skip(1).skip(i - 1) =~= a.skip(i));
        assert(b.skip(1).skip(i - 1) =~= b.skip(i));
        assert(a.skip(0) =~= a);
        assert(b.skip(0) =~= b);
    } else {
        assert(a.skip(0) =~= a);
        assert(b.skip(0) =~= b);
    }
}

/// Decide `lex_leq` on two strings.
pub fn str_leq(a: &str, b: &str) -> (r: bool)
    ensures
        r == lex_leq(a@, b@),
{
    let alen = a.unicode_len();
    let blen = b.unicode_len();
    let mut i: usize = 0;
    while i < alen && i < blen
        invariant
            i <= alen,
            i <= blen,
            alen == a@.len(),
            blen == b@.len(),
            forall|j: int| 0 <= j < i ==> a@[j] as u32 == b@[j] as u32,
        decreases alen - i,
    {
        let ca = a.get_char(i);
        let cb = b.get_char(i);
        if (ca as u32) != (cb as u32) {
            proof {
                lemma_lex_skip(a@, b@, i as int);
                assert(a@.skip(i as int)[0] == ca && b@.skip(i as int)[0] == cb);
            }
            return (ca as u32) < (cb as u32);
        }
        i = i + 1;
    }
    proof {
        lemma_lex_skip(a@, b@, i as int);
    }
    alen <= blen
}

/// Every pair of names appears in order.
pub open spec fn sorted_lex(s: Seq<String>) -> bool {
    forall|i: int, j: int| 0 <= i < j < s.len() ==> lex_leq(#[trigger] s[i]@, #[trigger] s[j]@)
}

/// Insert one name into an already sorted listing, keeping it sorted; the
/// contents change by exactly that name.
fn insert_sorted(out: &mut Vec<String>, x: String)
    requires
        sorted_lex(old(out)@),
    ensures
        sorted_lex(final(out)@),
        final(out)@.to_multiset() == old(out)@.to_multiset().insert(x),
        final(out)@.len() == old(out)@.len() + 1,
{
    let ghost o0 = out@;
    let mut idx: usize = 0;
    while idx < out.len() && str_leq(out[idx].as_str(), x.as_str())
        invariant
            out@ == o0,
            idx <= out@.len(),
            forall|j: int| 0 <= j < idx ==> lex_leq(#[trigger] out@[j]@, x@),
        decreases out@.len() - idx,
    {
        idx = idx + 1;
    }
    proof {
        if (idx as int) < o0.len() {
            lemma_lex_total(o0[idx as int]@, x@);
        }
    }
    out.insert(idx, x);
    proof {
        let n = out@;
        assert(n == o0.insert(idx as int, x));
        assert forall|i: int, j: int| 0 <= i < j < n.len() implies lex_leq(
            #[trigger] n[i]@,
            #[trigger] n[j]@,
        ) by {
            if j < idx {
                assert(n[i] == o0[i] && n[j] == o0[j]);
            } else if j == idx {
                assert(n[i] == o0[i] && n[j] == x);
            } else if i < idx {
                assert(n[i] == o0[i] && n[j] == o0[j - 1]);
            } else if i == idx {
                assert(n[i] == x && n[j] == o0[j - 1]);
                if (idx as int) < j - 1 {
                    assert(lex_leq(o0[idx as int]@, o0[j - 1]@));
                    lemma_lex_trans(x@, o0[idx as int]@, o0[j - 1]@);
                }
            } else {
                assert(n[i] == o0[i - 1] && n[j] == o0[j - 1]);
            }
        }
    }
}

/// Sort a listing by name. The result is the same names, in lexicographic
/// order.
pub fn sort_entries(v: Vec<String>) -> (out: Vec<String>)
    ensures
        sorted_lex(out@),
        out@.to_multiset() == v@.to_multiset(),
        out@.len() == v@.len(),
{
    let ghost v0 = v@;
    let n0 = v.len();
    let mut v = v;
    let mut out: Vec<String> = Vec::new();
    let mut i: usize = 0;
    proof {
        assert(v0.take(0) =~= Seq::<String>::empty());
        assert(Seq::<String>::empty().to_multiset() =~= out@.to_multiset());
    }
    while v.len() > 0
        invariant
            n0 == v0.len(),
            i + v@.len() == v0.len(),
            v@ == v0.skip(i as int),
            sorted_lex(out@),
            out@.to_multiset() == v0.take(i as int).to_multiset(),
            out@.len() == i,
        decreases v@.len(),
    {
        let s = v.remove(0);
        proof {
            assert(v0.skip(i as int)[0] == v0[i as int]);
            assert(v0.skip(i as int).remove(0) =~= v0.skip(i + 1 as int));
            assert(v0.take(i + 1 as int).drop_last() =~= v0.take(i as int));
            assert(v0.take(i + 1 as int) =~= v0.take(i as int).push(v0[i as int]));
        }
        insert_sorted(&mut out, s);
        i = i + 1;
    }
    proof {
        assert(v0.take(i as int) =~= v0);
    }
    out
}

/// Format one raw entry: a directory is shown with a trailing slash.
pub fn format_entry(name: String, is_dir: bool) -> (r: String)
    ensures
        is_dir ==> r@ == name@ + "/"@,
        !is_dir ==> r@ == name@,
{
    if is_dir {
        let mut s = name;
        s.append("/");
        s
    } else {
        name
    }
}

/// Format a whole raw listing, entry by entry, in the order given.
pub fn format_entries(raw: Vec<(String, bool)>) -> (out: Vec<String>)
    ensures
        out@.len() == raw@.len(),
        forall|k: int|
            0 <= k < raw@.len() ==> if raw@[k].1 {
                (#[trigger] out@[k])@ == raw@[k].0@ + "/"@
            } else {
                out@[k]@ == raw@[k].0@
            },
{
    let ghost r0 = raw@;
    let n0 = raw.len();
    let mut raw = raw;
    let mut out: Vec<String> = Vec::new();
    let mut i: usize = 0;
    while raw.len() > 0
        invariant
            n0 == r0.len(),
            i + raw@.len() == r0.len(),
            raw@ == r0.skip(i as int),
            out@.len() == i,
            forall|k: int|
                0 <= k < i ==> if r0[k].1 {
                    (#[trigger] out@[k])@ == r0[k].0@ + "/"@
                } else {
                    out@[k]@ == r0[k].0@
                },
        decreases raw@.len(),
    {
        let (name, is_dir) = raw.remove(0);
        proof {
            assert(r0.skip(i as int)[0] == r0[i as int]);
            assert(r0.skip(i as int).remove(0) =~= r0.skip(i + 1 as int));
        }
        let f = format_entry(name, is_dir);
        out.push(f);
        i = i + 1;
    }
    out
}

} // verus!
