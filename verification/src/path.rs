//! Path-prefix arithmetic over `/`-separated byte paths: the full-segment
//! prefix relation, remainder stripping, and first-segment extraction.

use vstd::prelude::*;

verus! {

/// The byte `/` that separates path segments.
pub open spec fn slash() -> u8 {
    47
}

/// `pre` is a plain byte prefix of `p`.
pub open spec fn starts_with(p: Seq<u8>, pre: Seq<u8>) -> bool {
    pre.len() <= p.len() && p.subrange(0, pre.len() as int) == pre
}

/// `k` is a full-segment path prefix of `p`: either equal to `p`, or `p`
/// continues right after `k` with a `/`.
pub open spec fn is_path_prefix(k: Seq<u8>, p: Seq<u8>) -> bool {
    k == p || (k.len() < p.len() && p.subrange(0, k.len() as int) == k && p[k.len() as int] == slash())
}

/// `p` with prefix `k` and a single `/` after it stripped.
pub open spec fn strip_prefix_spec(k: Seq<u8>, p: Seq<u8>) -> Seq<u8> {
    if k == p {
        Seq::empty()
    } else {
        p.subrange(k.len() as int + 1, p.len() as int)
    }
}

/// `s` is the first segment of `p`: the bytes up to but not including the
/// first `/`, or all of `p` when it has none.
pub open spec fn is_first_seg_of(s: Seq<u8>, p: Seq<u8>) -> bool {
    &&& s.len() <= p.len()
    &&& s == p.subrange(0, s.len() as int)
    &&& forall|i: int| 0 <= i < s.len() ==> s[i] != slash()
    &&& (s.len() == p.len() || p[s.len() as int] == slash())
}

/// True iff `pre` is a plain byte prefix of `p`.
pub fn bytes_starts_with(p: &[u8], pre: &[u8]) -> (r: bool)
    ensures
        r == starts_with(p@, pre@),
{
    if pre.len() > p.len() {
        return false;
    }
    let mut i: usize = 0;
    while i < pre.len()
        invariant
            0 <= i <= pre@.len(),
            pre@.len() <= p@.len(),
            forall|j: int| 0 <= j < i ==> p@[j] == pre@[j],
        decreases pre@.len() - i,
    {
        if p[i] != pre[i] {
            assert(p@.subrange(0, pre@.len() as int)[i as int] != pre@[i as int]);
            return false;
        }
        i += 1;
    }
    assert(p@.subrange(0, pre@.len() as int) =~= pre@);
    true
}

/// True iff `k` is a full-segment path prefix of `p`.
pub fn path_is_prefix(k: &[u8], p: &[u8]) -> (r: bool)
    ensures
        r == is_path_prefix(k@, p@),
{
    if k.len() == p.len() {
        let r = crate::bytes::bytes_eq(k, p);
        if r {
            assert(k@ == p@);
        }
        r
    } else if k.len() < p.len() {
        if bytes_starts_with(p, k) && p[k.len()] == 47 {
            assert(k@ != p@) by { assert(k@.len() != p@.len()) };
            true
        } else {
            assert(k@ != p@) by { assert(k@.len() != p@.len()) };
            false
        }
    } else {
        assert(k@ != p@) by { assert(k@.len() != p@.len()) };
        false
    }
}

/// The remainder of `p` after its full-segment prefix `k`.
pub fn strip_path_prefix(k: &[u8], p: &[u8]) -> (r: Vec<u8>)
    requires
        is_path_prefix(k@, p@),
    ensures
        r@ == strip_prefix_spec(k@, p@),
{
    if k.len() == p.len() {
        assert(k@ =~= p@);
        Vec::new()
    } else {
        assert(k@ != p@) by { assert(k@.len() != p@.len()) };
        let mut out: Vec<u8> = Vec::new();
        let mut i: usize = k.len() + 1;
        while i < p.len()
            invariant
                k@.len() + 1 <= i <= p@.len(),
                out@ == p@.subrange(k@.len() as int + 1, i as int),
            decreases p@.len() - i,
        {
            out.push(p[i]);
            assert(out@ =~= p@.subrange(k@.len() as int + 1, i + 1 as int));
            i += 1;
        }
        assert(out@ =~= strip_prefix_spec(k@, p@));
        out
    }
}

/// The first segment of `p`, as a fresh vector.
pub fn first_segment(p: &[u8]) -> (r: Vec<u8>)
    ensures
        is_first_seg_of(r@, p@),
{
    let mut out: Vec<u8> = Vec::new();
    let mut i: usize = 0;
    while i < p.len()
        invariant
            0 <= i <= p@.len(),
            out@ == p@.subrange(0, i as int),
            forall|j: int| 0 <= j < i ==> p@[j] != slash(),
        decreases p@.len() - i,
    {
        if p[i] == 47 {
            assert(out@ =~= p@.subrange(0, out@.len() as int));
            return out;
        }
        out.push(p[i]);
        assert(out@ =~= p@.subrange(0, i + 1 as int));
        i += 1;
    }
    assert(out@ =~= p@.subrange(0, out@.len() as int));
    out
}

/// A byte sequence has exactly one first segment.
pub proof fn lemma_first_seg_unique(a: Seq<u8>, b: Seq<u8>, q: Seq<u8>)
    requires
        is_first_seg_of(a, q),
        is_first_seg_of(b, q),
    ensures
        a == b,
{
    if a.len() < b.len() {
        assert(q[a.len() as int] == slash());
        assert(b[a.len() as int] == q.subrange(0, b.len() as int)[a.len() as int]);
        assert(false);
    } else if b.len() < a.len() {
        assert(q[b.len() as int] == slash());
        assert(a[b.len() as int] == q.subrange(0, a.len() as int)[b.len() as int]);
        assert(false);
    } else {
        assert(a =~= b);
    }
}

/// The full-segment prefix relation is transitive.
pub proof fn lemma_path_prefix_trans(a: Seq<u8>, b: Seq<u8>, c: Seq<u8>)
    requires
        is_path_prefix(a, b),
        is_path_prefix(b, c),
    ensures
        is_path_prefix(a, c),
{
    if a == b || b == c {
    } else {
        assert(b == c.subrange(0, b.len() as int));
        assert(a == b.subrange(0, a.len() as int));
        assert(a =~= c.subrange(0, a.len() as int)) by {
            assert forall|i: int| 0 <= i < a.len() implies a[i] == c[i] by {
                assert(a[i] == b[i]);
                assert(b[i] == c.subrange(0, b.len() as int)[i]);
            }
        }
        assert(c[a.len() as int] == b[a.len() as int]);
    }
}

/// Of two full-segment prefixes of the same path, the shorter is itself a
/// full-segment prefix of the longer.
pub proof fn lemma_shorter_prefix_of_longer(k1: Seq<u8>, k2: Seq<u8>, p: Seq<u8>)
    requires
        is_path_prefix(k1, p),
        is_path_prefix(k2, p),
        k1.len() <= k2.len(),
    ensures
        is_path_prefix(k1, k2),
{
    if k2 == p {
    } else if k1 == p {
        assert(k1.len() <= k2.len() < p.len());
        assert(false);
    } else {
        assert(k1 == p.subrange(0, k1.len() as int));
        assert(k2 == p.subrange(0, k2.len() as int));
        if k1.len() == k2.len() {
            assert(k1 =~= k2);
        } else {
            assert(k1 =~= k2.subrange(0, k1.len() as int)) by {
                assert forall|i: int| 0 <= i < k1.len() implies k1[i] == k2[i] by {
                    assert(k1[i] == p[i]);
                    assert(k2[i] == p.subrange(0, k2.len() as int)[i]);
                }
            }
            assert(k2[k1.len() as int] == p[k1.len() as int]);
            assert(k1 != k2) by { assert(k1.len() != k2.len()) };
        }
    }
}

} // verus!
