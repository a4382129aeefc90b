//! Ordering of ranked entries: every ranked kind of entry maps to a tuple of
//! integers, and entries are put in increasing lexicographic order of it.

use vstd::prelude::*;

verus! {

broadcast use vstd::seq_lib::group_to_multiset_ensures;

/// A ranking key; smaller keys come first.
pub type RankKey = (u64, u64, u64, u64);

/// Lexicographic order on ranking keys.
pub open spec fn rank_le(a: RankKey, b: RankKey) -> bool {
    a.0 < b.0 || (a.0 == b.0 && (a.1 < b.1 || (a.1 == b.1 && (a.2 < b.2 || (a.2 == b.2 && a.3
        <= b.3)))))
}

/// Lexicographic comparison of two ranking keys.
pub fn rank_key_le(a: RankKey, b: RankKey) -> (r: bool)
    ensures
        r == rank_le(a, b),
{
    if a.0 != b.0 {
        a.0 < b.0
    } else if a.1 != b.1 {
        a.1 < b.1
    } else if a.2 != b.2 {
        a.2 < b.2
    } else {
        a.3 <= b.3
    }
}

/// An entry that can be ranked.
pub trait Ranked: Sized {
    spec fn rank(&self) -> RankKey;

    fn rank_key(&self) -> (r: RankKey)
        ensures
            r == self.rank(),
    ;
}

/// Each entry ranks no later than every entry after it.
pub open spec fn sorted_by_rank<T: Ranked>(s: Seq<T>) -> bool {
    forall|i: int, j: int| 0 <= i < j < s.len() ==> rank_le(#[trigger] s[i].rank(), #[trigger] s[j].rank())
}

/// Puts the entries in increasing order of their ranking keys.
pub fn sort_by_rank<T: Ranked>(v: Vec<T>) -> (r: Vec<T>)
    ensures
        sorted_by_rank(r@),
        r@.to_multiset() == v@.to_multiset(),
        r@.len() == v@.len(),
{
    let ghost orig = v@;
    let mut v = v;
    let mut out: Vec<T> = Vec::new();
    while v.len() > 0
        invariant
            sorted_by_rank(out@),
            out@.to_multiset().add(v@.to_multiset()) == orig.to_multiset(),
            out@.len() + v@.len() == orig.len(),
        decreases v@.len(),
    {
        let ghost before = v@;
        let x = v.pop().unwrap();
        proof {
            assert(before.remove(before.len() - 1) =~= v@);
            vstd::seq_lib::to_multiset_remove(before, before.len() - 1);
        }
        let kx = x.rank_key();
        let mut p: usize = 0;
        while p < out.len() && rank_key_le(out[p].rank_key(), kx)
            invariant
                p <= out@.len(),
                forall|j: int| 0 <= j < p ==> rank_le(#[trigger] out@[j].rank(), kx),
            decreases out@.len() - p,
        {
            p += 1;
        }
        let ghost prev = out@;
        out.insert(p, x);
        proof {
            vstd::seq_lib::to_multiset_insert(prev, p as int, x);
            let s = out@;
            assert forall|i: int, j: int| 0 <= i < j < s.len() implies rank_le(
                #[trigger] s[i].rank(),
                #[trigger] s[j].rank(),
            ) by {
                if j < p {
                    assert(s[i] == prev[i] && s[j] == prev[j]);
                } else if j == p {
                    assert(s[i] == prev[i]);
                } else if i < p {
                    assert(s[i] == prev[i] && s[j] == prev[j - 1]);
                    assert(rank_le(prev[i].rank(), kx));
                    assert(!rank_le(prev[p as int].rank(), kx));
                    if p < j - 1 {
                        assert(rank_le(prev[p as int].rank(), prev[j - 1].rank()));
                    }
                } else if i == p {
                    assert(s[j] == prev[j - 1]);
                    assert(!rank_le(prev[p as int].rank(), kx));
                    if p < j - 1 {
                        assert(rank_le(prev[p as int].rank(), prev[j - 1].rank()));
                    }
                } else {
                    assert(s[i] == prev[i - 1] && s[j] == prev[j - 1]);
                }
            }
        }
    }
    proof {
        assert(v@ =~= Seq::<T>::empty());
        assert(v@.to_multiset() =~= vstd::multiset::Multiset::empty());
        assert(out@.to_multiset().add(vstd::multiset::Multiset::empty()) =~= out@.to_multiset());
    }
    out
}

/// Entries of `s` that share a ranking key are equal.
pub open spec fn rank_injective<T: Ranked>(s: Seq<T>) -> bool {
    forall|i: int, j: int|
        0 <= i < s.len() && 0 <= j < s.len() && #[trigger] s[i].rank() == #[trigger] s[j].rank()
            ==> s[i] == s[j]
}

/// Two sorted orderings of the same entries, where no two distinct entries
/// share a ranking key, are the same sequence: ranking is deterministic.
pub proof fn lemma_sorted_unique<T: Ranked>(a: Seq<T>, b: Seq<T>)
    requires
        sorted_by_rank(a),
        sorted_by_rank(b),
        a.to_multiset() == b.to_multiset(),
        rank_injective(a),
    ensures
        a == b,
    decreases a.len(),
{
    vstd::seq_lib::to_multiset_len(a);
    vstd::seq_lib::to_multiset_len(b);
    if a.len() == 0 {
        assert(a =~= b);
    } else {
        assert(a.to_multiset().count(a[0]) > 0) by {
            vstd::seq_lib::to_multiset_contains(a, a[0]);
        }
        assert(b.to_multiset().count(b[0]) > 0) by {
            vstd::seq_lib::to_multiset_contains(b, b[0]);
        }
        vstd::seq_lib::to_multiset_contains(b, a[0]);
        vstd::seq_lib::to_multiset_contains(a, b[0]);
        let j = choose|j: int| 0 <= j < b.len() && b[j] == a[0];
        let i = choose|i: int| 0 <= i < a.len() && a[i] == b[0];
        if j > 0 {
            assert(rank_le(b[0].rank(), b[j].rank()));
        }
        if i > 0 {
            assert(rank_le(a[0].rank(), a[i].rank()));
        }
        assert(a[0].rank() == a[i].rank());
        assert(a[0] == a[i]);
        assert(a[0] == b[0]);
        vstd::seq_lib::to_multiset_remove(a, 0);
        vstd::seq_lib::to_multiset_remove(b, 0);
        assert(a.remove(0) =~= a.drop_first());
        assert(b.remove(0) =~= b.drop_first());
        let a1 = a.drop_first();
        let b1 = b.drop_first();
        assert(sorted_by_rank(a1)) by {
            assert forall|x: int, y: int| 0 <= x < y < a1.len() implies rank_le(
                #[trigger] a1[x].rank(),
                #[trigger] a1[y].rank(),
            ) by {
                assert(a1[x] == a[x + 1] && a1[y] == a[y + 1]);
            }
        }
        assert(sorted_by_rank(b1)) by {
            assert forall|x: int, y: int| 0 <= x < y < b1.len() implies rank_le(
                #[trigger] b1[x].rank(),
                #[trigger] b1[y].rank(),
            ) by {
                assert(b1[x] == b[x + 1] && b1[y] == b[y + 1]);
            }
        }
        assert(rank_injective(a1)) by {
            assert forall|x: int, y: int|
                0 <= x < a1.len() && 0 <= y < a1.len() && #[trigger] a1[x].rank()
                    == #[trigger] a1[y].rank() implies a1[x] == a1[y] by {
                assert(a1[x] == a[x + 1] && a1[y] == a[y + 1]);
            }
        }
        lemma_sorted_unique(a1, b1);
        assert(a =~= b) by {
            assert forall|k: int| 0 <= k < a.len() implies a[k] == b[k] by {
                if k > 0 {
                    assert(a[k] == a1[k - 1] && b[k] == b1[k - 1]);
                }
            }
        }
    }
}

/// The sorted ordering of a sequence of entries.
pub open spec fn rank_sorted<T: Ranked>(s: Seq<T>) -> Seq<T> {
    choose|r: Seq<T>| sorted_by_rank(r) && r.to_multiset() == s.to_multiset()
}

/// A sorted reordering of entries that no two distinct entries share a key
/// of is exactly `rank_sorted` of them.
pub proof fn lemma_is_rank_sorted<T: Ranked>(r: Seq<T>, s: Seq<T>)
    requires
        sorted_by_rank(r),
        r.to_multiset() == s.to_multiset(),
        rank_injective(r),
    ensures
        rank_sorted(s) == r,
{
    let c = rank_sorted(s);
    assert(sorted_by_rank(c) && c.to_multiset() == s.to_multiset());
    lemma_sorted_unique(r, c);
}


/// Inserting an entry into a sorted sequence, just after the entries that
/// rank no later than it, keeps the sequence sorted.
proof fn lemma_insert_sorted<T: Ranked>(r: Seq<T>, x: T) -> (out: Seq<T>)
    requires
        sorted_by_rank(r),
    ensures
        sorted_by_rank(out),
        out.to_multiset() == r.to_multiset().insert(x),
    decreases r.len(),
{
    if r.len() == 0 {
        let out = Seq::<T>::empty().insert(0, x);
        vstd::seq_lib::to_multiset_insert(Seq::<T>::empty(), 0, x);
        assert(r =~= Seq::<T>::empty());
        out
    } else if rank_le(r.last().rank(), x.rank()) {
        let out = r.insert(r.len() as int, x);
        vstd::seq_lib::to_multiset_insert(r, r.len() as int, x);
        assert forall|i: int, j: int| 0 <= i < j < out.len() implies rank_le(
            #[trigger] out[i].rank(),
            #[trigger] out[j].rank(),
        ) by {
            if j < r.len() {
                assert(out[i] == r[i] && out[j] == r[j]);
            } else {
                assert(out[i] == r[i] && out[j] == x);
                if i < r.len() - 1 {
                    assert(rank_le(r[i].rank(), r[r.len() - 1].rank()));
                }
            }
        }
        out
    } else {
        let p = r.drop_last();
        let l = r.last();
        assert(sorted_by_rank(p)) by {
            assert forall|i: int, j: int| 0 <= i < j < p.len() implies rank_le(
                #[trigger] p[i].rank(),
                #[trigger] p[j].rank(),
            ) by {
                assert(p[i] == r[i] && p[j] == r[j]);
            }
        }
        let rest = lemma_insert_sorted(p, x);
        let out = rest.insert(rest.len() as int, l);
        vstd::seq_lib::to_multiset_insert(rest, rest.len() as int, l);
        vstd::seq_lib::to_multiset_insert(p, p.len() as int, l);
        assert(p.insert(p.len() as int, l) =~= r);
        assert(out.to_multiset() =~= r.to_multiset().insert(x));
        assert forall|i: int, j: int| 0 <= i < j < out.len() implies rank_le(
            #[trigger] out[i].rank(),
            #[trigger] out[j].rank(),
        ) by {
            if j < rest.len() {
                assert(out[i] == rest[i] && out[j] == rest[j]);
            } else {
                assert(out[i] == rest[i] && out[j] == l);
                let e = rest[i];
                assert(rest.contains(e));
                vstd::seq_lib::to_multiset_contains(rest, e);
                vstd::seq_lib::to_multiset_contains(p, e);
                if e != x {
                    assert(p.to_multiset().count(e) > 0);
                    assert(p.contains(e));
                    let k = choose|k: int| 0 <= k < p.len() && p[k] == e;
                    assert(r[k] == e);
                    assert(rank_le(r[k].rank(), r[r.len() - 1].rank()));
                }
            }
        }
        out
    }
}

/// Every sequence of entries has a sorted reordering.
proof fn lemma_sorted_witness<T: Ranked>(s: Seq<T>) -> (r: Seq<T>)
    ensures
        sorted_by_rank(r),
        r.to_multiset() == s.to_multiset(),
    decreases s.len(),
{
    if s.len() == 0 {
        assert(s =~= Seq::<T>::empty());
        s
    } else {
        let p = s.drop_last();
        let w = lemma_sorted_witness(p);
        vstd::seq_lib::to_multiset_insert(p, p.len() as int, s.last());
        assert(p.insert(p.len() as int, s.last()) =~= s);
        lemma_insert_sorted(w, s.last())
    }
}

/// The sorted ordering of a sequence is sorted and holds the same entries.
pub proof fn lemma_rank_sorted<T: Ranked>(s: Seq<T>)
    ensures
        sorted_by_rank(rank_sorted(s)),
        rank_sorted(s).to_multiset() == s.to_multiset(),
{
    let w = lemma_sorted_witness(s);
    assert(sorted_by_rank(w) && w.to_multiset() == s.to_multiset());
}

} // verus!
