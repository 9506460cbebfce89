//! The mount table: a keyed collection from path to mount, with
//! longest-full-segment-prefix lookup and child enumeration for `ls`.

use vstd::prelude::*;
use crate::path::{is_path_prefix, strip_prefix_spec, is_first_seg_of, path_is_prefix, strip_path_prefix, first_segment};

verus! {

/// An in-process built-in node; it answers requests synchronously.
pub struct AppNode {
    pub app_name: Vec<u8>,
}

/// What a mount path resolves to: a remote device peer, or a built-in node.
pub enum Mount {
    Device { client_id: i32 },
    Node(AppNode),
}

/// The mathematical shadow of a `Mount`.
pub enum MountView {
    Device { client_id: i32 },
    Node { app_name: Seq<u8> },
}

impl View for Mount {
    type V = MountView;

    open spec fn view(&self) -> MountView {
        match self {
            Mount::Device { client_id } => MountView::Device { client_id: *client_id },
            Mount::Node(n) => MountView::Node { app_name: n.app_name@ },
        }
    }
}

/// Some entry of the table carries key `k`.
pub open spec fn tbl_has_key(s: Seq<(Seq<u8>, MountView)>, k: Seq<u8>) -> bool {
    exists|i: int| 0 <= i < s.len() && s[i].0 == k
}

/// The index of the entry with key `k` (meaningful under unique keys).
pub open spec fn tbl_key_index(s: Seq<(Seq<u8>, MountView)>, k: Seq<u8>) -> int {
    choose|i: int| 0 <= i < s.len() && s[i].0 == k
}

/// The mount bound to key `k` (meaningful when `tbl_has_key`).
pub open spec fn tbl_get(s: Seq<(Seq<u8>, MountView)>, k: Seq<u8>) -> MountView {
    s[tbl_key_index(s, k)].1
}

/// The table without the entry keyed `k`, if one is there.
pub open spec fn spec_remove(s: Seq<(Seq<u8>, MountView)>, k: Seq<u8>) -> Seq<(Seq<u8>, MountView)> {
    if tbl_has_key(s, k) {
        s.remove(tbl_key_index(s, k))
    } else {
        s
    }
}

/// The table with `k` bound to `v`: a prior binding of `k` is replaced.
pub open spec fn spec_insert(s: Seq<(Seq<u8>, MountView)>, k: Seq<u8>, v: MountView) -> Seq<(Seq<u8>, MountView)> {
    spec_remove(s, k).push((k, v))
}

/// `k` is a full-segment prefix of `p` and no key of the table that is
/// also one is longer.
pub open spec fn is_longest_match(s: Seq<(Seq<u8>, MountView)>, p: Seq<u8>, k: Seq<u8>) -> bool {
    &&& tbl_has_key(s, k)
    &&& is_path_prefix(k, p)
    &&& forall|i: int| 0 <= i < s.len() && is_path_prefix(#[trigger] s[i].0, p) ==> s[i].0.len() <= k.len()
}

/// `k` lies in the subtree rooted at `p`: at the root everything does,
/// elsewhere `p` must be a full-segment prefix of `k`.
pub open spec fn is_subtree_of(p: Seq<u8>, k: Seq<u8>) -> bool {
    p.len() == 0 || is_path_prefix(p, k)
}

/// What is left of `k` below the subtree root `p`.
pub open spec fn subtree_rest(p: Seq<u8>, k: Seq<u8>) -> Seq<u8> {
    if p.len() == 0 {
        k
    } else {
        strip_prefix_spec(p, k)
    }
}

/// Entry `i` of the table lies strictly below `p` and `c` is the first
/// segment of its key past `p`.
pub open spec fn entry_child(s: Seq<(Seq<u8>, MountView)>, i: int, p: Seq<u8>, c: Seq<u8>) -> bool {
    &&& 0 <= i < s.len()
    &&& is_subtree_of(p, s[i].0)
    &&& s[i].0.len() > p.len()
    &&& is_first_seg_of(c, subtree_rest(p, s[i].0))
}

/// `c` is an immediate child segment of `p` in the tree the keys span.
pub open spec fn is_child_of(s: Seq<(Seq<u8>, MountView)>, p: Seq<u8>, c: Seq<u8>) -> bool {
    exists|i: int| entry_child(s, i, p, c)
}

/// `p` names a node of the tree the keys span: some key extends it or
/// equals it.
pub open spec fn ls_valid(s: Seq<(Seq<u8>, MountView)>, p: Seq<u8>) -> bool {
    exists|i: int| 0 <= i < s.len() && is_subtree_of(p, #[trigger] s[i].0)
}

/// No two entries of the table share a key.
pub open spec fn keys_unique(s: Seq<(Seq<u8>, MountView)>) -> bool {
    forall|i: int, j: int| 0 <= i < j < s.len() ==> (#[trigger] s[i]).0 != (#[trigger] s[j]).0
}

/// A path has at most one longest full-segment match in a table.
pub proof fn lemma_longest_match_unique(s: Seq<(Seq<u8>, MountView)>, p: Seq<u8>, k1: Seq<u8>, k2: Seq<u8>)
    requires
        is_longest_match(s, p, k1),
        is_longest_match(s, p, k2),
    ensures
        k1 == k2,
{
    let j1 = choose|j: int| 0 <= j < s.len() && s[j].0 == k1;
    let j2 = choose|j: int| 0 <= j < s.len() && s[j].0 == k2;
    assert(s[j2].0.len() <= k1.len());
    assert(s[j1].0.len() <= k2.len());
    assert(k1.len() == k2.len());
    if k1 == p {
        assert(k2 == p);
    } else {
        assert(k1 == p.subrange(0, k1.len() as int));
        if k2 == p {
            assert(false);
        } else {
            assert(k2 == p.subrange(0, k2.len() as int));
            assert(k1 =~= k2);
        }
    }
}

/// Under unique keys, the table lookup at an entry's key yields that
/// entry, at that index.
pub proof fn lemma_tbl_get_at(s: Seq<(Seq<u8>, MountView)>, i: int)
    requires
        keys_unique(s),
        0 <= i < s.len(),
    ensures
        tbl_has_key(s, s[i].0),
        tbl_key_index(s, s[i].0) == i,
        tbl_get(s, s[i].0) == s[i].1,
{
    assert(0 <= i < s.len() && s[i].0 == s[i].0);
    let j = tbl_key_index(s, s[i].0);
    assert(0 <= j < s.len() && s[j].0 == s[i].0);
    if j < i {
        assert(false);
    } else if i < j {
        assert(false);
    }
}

/// Ordered collection of mounts keyed by path, keys unique.
pub struct MountTable {
    entries: Vec<(Vec<u8>, Mount)>,
}

impl MountTable {
    /// The table as a sequence of key/mount pairs.
    pub closed spec fn view(&self) -> Seq<(Seq<u8>, MountView)> {
        Seq::new(self.entries@.len(), |i: int| (self.entries@[i].0@, self.entries@[i].1@))
    }

    /// Well-formed: no two entries share a key.
    pub open spec fn wf(&self) -> bool {
        keys_unique(self@)
    }

    /// An empty table.
    pub fn new() -> (r: MountTable)
        ensures
            r@ == Seq::<(Seq<u8>, MountView)>::empty(),
            r.wf(),
    {
        let r = MountTable { entries: Vec::new() };
        assert(r@ =~= Seq::<(Seq<u8>, MountView)>::empty());
        r
    }

    pub fn len(&self) -> (r: usize)
        ensures
            r == self@.len(),
    {
        self.entries.len()
    }

    /// The mount stored at entry `i`.
    pub fn mount_at(&self, i: usize) -> (m: &Mount)
        requires
            i < self@.len(),
        ensures
            m@ == self@[i as int].1,
    {
        &self.entries[i].1
    }

    /// The key stored at entry `i`.
    pub fn key_at(&self, i: usize) -> (k: &Vec<u8>)
        requires
            i < self@.len(),
        ensures
            k@ == self@[i as int].0,
    {
        &self.entries[i].0
    }

    /// The index of the entry keyed `k`, if one is there.
    fn index_of_key(&self, k: &[u8]) -> (r: Option<usize>)
        ensures
            match r {
                Some(i) => i < self@.len() && self@[i as int].0 == k@,
                None => !tbl_has_key(self@, k@),
            },
    {
        let mut i: usize = 0;
        while i < self.entries.len()
            invariant
                0 <= i <= self@.len(),
                self@.len() == self.entries@.len(),
                forall|j: int| 0 <= j < i ==> (#[trigger] self@[j]).0 != k@,
            decreases self@.len() - i,
        {
            if crate::bytes::bytes_eq(self.entries[i].0.as_slice(), k) {
                return Some(i);
            }
            i += 1;
        }
        None
    }

    /// Binds `key` to `m`, replacing any prior binding of `key`.
    pub fn insert(&mut self, key: Vec<u8>, m: Mount)
        requires
            old(self).wf(),
        ensures
            final(self).wf(),
            final(self)@ == spec_insert(old(self)@, key@, m@),
    {
        let ghost s0 = self@;
        let idx = self.index_of_key(key.as_slice());
        match idx {
            Some(i) => {
                proof {
                    let ci = tbl_key_index(s0, key@);
                    assert(0 <= ci < s0.len() && s0[ci].0 == key@);
                    assert(ci == i as int);
                }
                self.entries.remove(i);
                assert(self@ =~= s0.remove(i as int));
            }
            None => {
                assert(self@ =~= spec_remove(s0, key@));
            }
        }
        let ghost s1 = self@;
        assert(s1 == spec_remove(s0, key@));
        assert(forall|j: int| 0 <= j < s1.len() ==> (#[trigger] s1[j]).0 != key@) by {
            if tbl_has_key(s0, key@) {
                let ci = tbl_key_index(s0, key@);
                assert(forall|j: int| 0 <= j < s0.len() && j != ci ==> (#[trigger] s0[j]).0 != key@);
            }
        }
        self.entries.push((key, m));
        assert(self@ =~= s1.push((key@, m@)));
    }

    /// Drops the binding of `key`, if one is there.
    pub fn remove(&mut self, key: &[u8])
        requires
            old(self).wf(),
        ensures
            final(self).wf(),
            final(self)@ == spec_remove(old(self)@, key@),
    {
        let ghost s0 = self@;
        let idx = self.index_of_key(key);
        match idx {
            Some(i) => {
                proof {
                    let ci = tbl_key_index(s0, key@);
                    assert(0 <= ci < s0.len() && s0[ci].0 == key@);
                    assert(ci == i as int);
                }
                self.entries.remove(i);
                assert(self@ =~= s0.remove(i as int));
            }
            None => {
                assert(self@ =~= spec_remove(s0, key@));
            }
        }
    }

    /// The entry whose key is the longest full-segment prefix of `p`,
    /// with the remainder of `p` past that key.
    pub fn find_longest_prefix(&self, p: &[u8]) -> (r: Option<(usize, Vec<u8>)>)
        ensures
            match r {
                Some((i, rem)) => {
                    &&& i < self@.len()
                    &&& is_longest_match(self@, p@, self@[i as int].0)
                    &&& rem@ == strip_prefix_spec(self@[i as int].0, p@)
                },
                None => forall|i: int| 0 <= i < self@.len() ==> !is_path_prefix((#[trigger] self@[i]).0, p@),
            },
    {
        let mut best: Option<usize> = None;
        let mut i: usize = 0;
        while i < self.entries.len()
            invariant
                0 <= i <= self@.len(),
                self@.len() == self.entries@.len(),
                match best {
                    Some(b) => {
                        &&& b < i
                        &&& is_path_prefix(self@[b as int].0, p@)
                        &&& forall|j: int| 0 <= j < i && is_path_prefix((#[trigger] self@[j]).0, p@)
                            ==> self@[j].0.len() <= self@[b as int].0.len()
                    },
                    None => forall|j: int| 0 <= j < i ==> !is_path_prefix((#[trigger] self@[j]).0, p@),
                },
            decreases self@.len() - i,
        {
            if path_is_prefix(self.entries[i].0.as_slice(), p) {
                match best {
                    Some(b) => {
                        if self.entries[i].0.len() > self.entries[b].0.len() {
                            best = Some(i);
                        }
                    }
                    None => {
                        best = Some(i);
                    }
                }
            }
            i += 1;
        }
        match best {
            Some(b) => {
                let rem = strip_path_prefix(self.entries[b].0.as_slice(), p);
                Some((b, rem))
            }
            None => None,
        }
    }

    /// The immediate child segments below `p` among the table's keys,
    /// without duplicates.
    pub fn children_of_path(&self, p: &[u8]) -> (r: Vec<Vec<u8>>)
        ensures
            forall|j: int| 0 <= j < r@.len() ==> is_child_of(self@, p@, (#[trigger] r@[j])@),
            forall|c: Seq<u8>| #[trigger] is_child_of(self@, p@, c) ==> exists|j: int| 0 <= j < r@.len() && (#[trigger] r@[j])@ == c,
            forall|j1: int, j2: int| 0 <= j1 < j2 < r@.len() ==> (#[trigger] r@[j1])@ != (#[trigger] r@[j2])@,
    {
        let mut out: Vec<Vec<u8>> = Vec::new();
        let mut i: usize = 0;
        while i < self.entries.len()
            invariant
                0 <= i <= self@.len(),
                self@.len() == self.entries@.len(),
                forall|j: int| 0 <= j < out@.len() ==> is_child_of(self@, p@, (#[trigger] out@[j])@),
                forall|e: int, c: Seq<u8>| e < i && #[trigger] entry_child(self@, e, p@, c)
                    ==> exists|j: int| 0 <= j < out@.len() && (#[trigger] out@[j])@ == c,
                forall|j1: int, j2: int| 0 <= j1 < j2 < out@.len() ==> (#[trigger] out@[j1])@ != (#[trigger] out@[j2])@,
            decreases self@.len() - i,
        {
            let key = &self.entries[i].0;
            if (p.len() == 0 || path_is_prefix(p, key.as_slice())) && key.len() > p.len() {
                let rem = if p.len() == 0 {
                    crate::bytes::copy_bytes(key.as_slice())
                } else {
                    strip_path_prefix(p, key.as_slice())
                };
                let c = first_segment(rem.as_slice());
                assert(entry_child(self@, i as int, p@, c@));
                let ghost out0 = out@;
                let had = contains_bytes(&out, c.as_slice());
                if !had {
                    out.push(c);
                }
                proof {
                    assert(exists|j: int| 0 <= j < out@.len() && (#[trigger] out@[j])@ == c@) by {
                        if had {
                            let j = choose|j: int| 0 <= j < out0.len() && (#[trigger] out0[j])@ == c@;
                            assert(out@[j]@ == c@);
                        } else {
                            assert(out@[out@.len() - 1]@ == c@);
                        }
                    }
                    assert forall|e: int, cc: Seq<u8>| e < i + 1 && #[trigger] entry_child(self@, e, p@, cc)
                        implies exists|j: int| 0 <= j < out@.len() && (#[trigger] out@[j])@ == cc by {
                        if e == i {
                            crate::path::lemma_first_seg_unique(cc, c@, subtree_rest(p@, self@[i as int].0));
                        } else {
                            let j = choose|j: int| 0 <= j < out0.len() && (#[trigger] out0[j])@ == cc;
                            assert(out@[j]@ == cc);
                        }
                    }
                }
            } else {
                proof {
                    assert forall|e: int, cc: Seq<u8>| e < i + 1 && #[trigger] entry_child(self@, e, p@, cc)
                        implies exists|j: int| 0 <= j < out@.len() && (#[trigger] out@[j])@ == cc by {
                        assert(e != i);
                    }
                }
            }
            i += 1;
        }
        proof {
            assert forall|c: Seq<u8>| #[trigger] is_child_of(self@, p@, c)
                implies exists|j: int| 0 <= j < out@.len() && (#[trigger] out@[j])@ == c by {
                let e = choose|e: int| entry_child(self@, e, p@, c);
                assert(e < self@.len());
            }
        }
        out
    }

    /// True iff `p` names a node of the tree the keys span.
    pub fn subtree_exists(&self, p: &[u8]) -> (r: bool)
        ensures
            r == ls_valid(self@, p@),
    {
        let mut i: usize = 0;
        while i < self.entries.len()
            invariant
                0 <= i <= self@.len(),
                self@.len() == self.entries@.len(),
                forall|j: int| 0 <= j < i ==> !is_subtree_of(p@, (#[trigger] self@[j]).0),
            decreases self@.len() - i,
        {
            if p.len() == 0 || path_is_prefix(p, self.entries[i].0.as_slice()) {
                assert(is_subtree_of(p@, self@[i as int].0));
                return true;
            }
            i += 1;
        }
        false
    }

    /// The key of some mount owned by device peer `client_id`, if any.
    pub fn find_device_of(&self, client_id: i32) -> (r: Option<Vec<u8>>)
        ensures
            match r {
                Some(k) => exists|i: int| 0 <= i < self@.len() && #[trigger] self@[i]
                    == (k@, MountView::Device { client_id }),
                None => forall|i: int| 0 <= i < self@.len()
                    ==> (#[trigger] self@[i]).1 != (MountView::Device { client_id }),
            },
    {
        let mut i: usize = 0;
        while i < self.entries.len()
            invariant
                0 <= i <= self@.len(),
                self@.len() == self.entries@.len(),
                forall|j: int| 0 <= j < i ==> (#[trigger] self@[j]).1 != (MountView::Device { client_id }),
            decreases self@.len() - i,
        {
            let owned = match &self.entries[i].1 {
                Mount::Device { client_id: c } => *c == client_id,
                Mount::Node(_) => false,
            };
            if owned {
                let k = crate::bytes::copy_bytes(self.entries[i].0.as_slice());
                assert(self@[i as int] == (k@, MountView::Device { client_id }));
                return Some(k);
            }
            i += 1;
        }
        None
    }
}

/// True iff some element of `v` holds exactly the bytes of `c`.
pub fn contains_bytes(v: &Vec<Vec<u8>>, c: &[u8]) -> (r: bool)
    ensures
        r == exists|j: int| 0 <= j < v@.len() && (#[trigger] v@[j])@ == c@,
{
    let mut i: usize = 0;
    while i < v.len()
        invariant
            0 <= i <= v@.len(),
            forall|j: int| 0 <= j < i ==> (#[trigger] v@[j])@ != c@,
        decreases v@.len() - i,
    {
        if crate::bytes::bytes_eq(v[i].as_slice(), c) {
            return true;
        }
        i += 1;
    }
    false
}

} // verus!
