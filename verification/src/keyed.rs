//! Association lists used as the canister's tables: `KeyedList` keeps
//! entries in insertion order with keys compared by their view, and
//! `SortedMap` keeps `u64` keys in strictly increasing order, so that walking
//! its entries visits the keys as an ordered map does.
//!
//! The tables hold the library's own records, which cannot carry the
//! `Storable` trait of `ic-stable-structures` (and Verus does not accept a
//! declaration of that crate's `BTreeMap` with the trait bounds it carries),
//! so they live on the heap; the host canister writes them to stable
//! memory before an upgrade and reads them back after it.

use vstd::prelude::*;

verus! {

/// A key type whose equality is equality of views.
pub trait Key: Sized {
    /// The value by which keys are told apart.
    type KV;

    spec fn kv(&self) -> Self::KV;

    fn key_eq(&self, other: &Self) -> (r: bool)
        ensures
            r == (self.kv() == other.kv()),
    ;

    fn key_copy(&self) -> (r: Self)
        ensures
            r.kv() == self.kv(),
    ;
}

impl Key for u64 {
    type KV = u64;

    open spec fn kv(&self) -> u64 {
        *self
    }

    fn key_eq(&self, other: &Self) -> (r: bool) {
        *self == *other
    }

    fn key_copy(&self) -> (r: Self) {
        *self
    }
}

/// No two entries carry keys with the same view.
pub open spec fn keys_distinct<K: Key, V>(s: Seq<(K, V)>) -> bool {
    forall|i: int, j: int|
        0 <= i < s.len() && 0 <= j < s.len() && i != j ==> #[trigger] s[i].0.kv() != #[trigger] s[j].0.kv()
}

/// Some entry carries a key with view `k`.
pub open spec fn has_key<K: Key, V>(s: Seq<(K, V)>, k: K::KV) -> bool {
    exists|i: int| 0 <= i < s.len() && #[trigger] s[i].0.kv() == k
}

/// The value stored under the key with view `k`.
pub open spec fn value_of<K: Key, V>(s: Seq<(K, V)>, k: K::KV) -> V {
    s[choose|i: int| 0 <= i < s.len() && #[trigger] s[i].0.kv() == k].1
}

/// The map from key views to values that a list of entries stands for.
pub open spec fn as_map<K: Key, V>(s: Seq<(K, V)>) -> Map<K::KV, V> {
    Map::new(|k: K::KV| has_key(s, k), |k: K::KV| value_of(s, k))
}

/// Entry `i` is in the map, under its key.
pub proof fn lemma_as_map_index<K: Key, V>(s: Seq<(K, V)>, i: int)
    requires
        keys_distinct(s),
        0 <= i < s.len(),
    ensures
        as_map(s).contains_key(s[i].0.kv()),
        as_map(s)[s[i].0.kv()] == s[i].1,
{
    assert(has_key(s, s[i].0.kv()));
    let j = choose|j: int| 0 <= j < s.len() && #[trigger] s[j].0.kv() == s[i].0.kv();
    assert(j == i);
}

/// Every entry is in the map.
pub proof fn lemma_as_map_all<K: Key, V>(s: Seq<(K, V)>)
    requires
        keys_distinct(s),
    ensures
        forall|i: int|
            0 <= i < s.len() ==> #[trigger] as_map(s).contains_key(s[i].0.kv()) && as_map(s)[s[i].0.kv()]
                == s[i].1,
{
    assert forall|i: int| 0 <= i < s.len() implies #[trigger] as_map(s).contains_key(s[i].0.kv())
        && as_map(s)[s[i].0.kv()] == s[i].1 by {
        lemma_as_map_index(s, i);
    }
}

/// A list of entries with distinct keys stands for the map `m` when each
/// entry is in `m` and each key of `m` has an entry.
pub proof fn lemma_as_map_ext<K: Key, V>(s: Seq<(K, V)>, m: Map<K::KV, V>)
    requires
        keys_distinct(s),
        forall|i: int|
            0 <= i < s.len() ==> #[trigger] m.contains_key(s[i].0.kv()) && m[s[i].0.kv()] == s[i].1,
        forall|k: K::KV| #[trigger] m.contains_key(k) ==> has_key(s, k),
    ensures
        as_map(s) == m,
{
    assert forall|k: K::KV| #[trigger] as_map(s).contains_key(k) <==> m.contains_key(k) by {
        if as_map(s).contains_key(k) {
            let i = choose|i: int| 0 <= i < s.len() && #[trigger] s[i].0.kv() == k;
            assert(m.contains_key(s[i].0.kv()));
        }
    }
    assert forall|k: K::KV| #[trigger] as_map(s).contains_key(k) implies as_map(s)[k] == m[k] by {
        let i = choose|i: int| 0 <= i < s.len() && #[trigger] s[i].0.kv() == k;
        lemma_as_map_index(s, i);
    }
    assert(as_map(s) =~= m);
}

/// The map of a list with distinct keys has as many keys as the list has entries.
pub proof fn lemma_as_map_len<K: Key, V>(s: Seq<(K, V)>)
    requires
        keys_distinct(s),
    ensures
        as_map(s).dom().finite(),
        as_map(s).dom().len() == s.len(),
{
    let ks = s.map_values(|e: (K, V)| e.0.kv());
    assert(ks.no_duplicates()) by {
        assert forall|i: int, j: int| 0 <= i < ks.len() && 0 <= j < ks.len() && i != j implies ks[i]
            != ks[j] by {
            assert(s[i].0.kv() != s[j].0.kv());
        }
    }
    assert(as_map(s).dom() =~= ks.to_set()) by {
        assert forall|k: K::KV| as_map(s).dom().contains(k) <==> ks.to_set().contains(k) by {
            if as_map(s).dom().contains(k) {
                let i = choose|i: int| 0 <= i < s.len() && #[trigger] s[i].0.kv() == k;
                assert(ks[i] == k);
            }
            if ks.to_set().contains(k) {
                let i = choose|i: int| 0 <= i < ks.len() && ks[i] == k;
                assert(s[i].0.kv() == k);
            }
        }
    }
    ks.unique_seq_to_set();
    vstd::seq_lib::seq_to_set_is_finite(ks);
}

/// Finds the position of the entry whose key has the view of `k`.
fn find_index<K: Key, V>(entries: &Vec<(K, V)>, k: &K) -> (r: Option<usize>)
    requires
        keys_distinct(entries@),
    ensures
        match r {
            Some(i) => i < entries@.len() && entries@[i as int].0.kv() == k.kv(),
            None => !has_key(entries@, k.kv()),
        },
{
    let mut i: usize = 0;
    while i < entries.len()
        invariant
            i <= entries@.len(),
            forall|j: int| 0 <= j < i ==> #[trigger] entries@[j].0.kv() != k.kv(),
        decreases entries@.len() - i,
    {
        if entries[i].0.key_eq(k) {
            return Some(i);
        }
        i += 1;
    }
    None
}

/// A table whose entries keep the order in which their keys were first inserted.
pub struct KeyedList<K, V> {
    entries: Vec<(K, V)>,
}

impl<K: Key, V> View for KeyedList<K, V> {
    type V = Map<K::KV, V>;

    closed spec fn view(&self) -> Map<K::KV, V> {
        as_map(self.entries@)
    }
}

impl<K: Key, V> KeyedList<K, V> {
    /// The entries, in insertion order.
    pub closed spec fn entries_seq(&self) -> Seq<(K, V)> {
        self.entries@
    }

    /// Keys are distinct.
    pub open spec fn wf(&self) -> bool {
        keys_distinct(self.entries_seq())
    }

    /// The number of entries.
    pub open spec fn spec_len(&self) -> nat {
        self.entries_seq().len()
    }

    /// The map stands for exactly the entries walked by index.
    pub proof fn lemma_view(&self)
        requires
            self.wf(),
        ensures
            self@ == as_map(self.entries_seq()),
            self@.dom().finite(),
            self@.dom().len() == self.spec_len(),
            forall|i: int|
                0 <= i < self.spec_len() ==> #[trigger] self@.contains_key(
                    self.entries_seq()[i].0.kv(),
                ) && self@[self.entries_seq()[i].0.kv()] == self.entries_seq()[i].1,
            forall|k: K::KV| #[trigger]
                self@.contains_key(k) ==> exists|i: int|
                    0 <= i < self.spec_len() && #[trigger] self.entries_seq()[i].0.kv() == k,
    {
        lemma_as_map_all(self.entries@);
        lemma_as_map_len(self.entries@);
    }

    /// An empty table.
    pub fn new() -> (r: Self)
        ensures
            r.wf(),
            r@ == Map::<K::KV, V>::empty(),
            r.spec_len() == 0,
    {
        let r = KeyedList { entries: Vec::new() };
        assert(r@ =~= Map::<K::KV, V>::empty());
        r
    }

    /// The number of entries.
    pub fn len(&self) -> (r: usize)
        requires
            self.wf(),
        ensures
            r == self.spec_len(),
            r == self@.len(),
    {
        proof {
            lemma_as_map_len(self.entries@);
        }
        self.entries.len()
    }

    /// The entry at position `i`.
    pub fn entry_at(&self, i: usize) -> (r: (&K, &V))
        requires
            i < self.spec_len(),
        ensures
            *r.0 == self.entries_seq()[i as int].0,
            *r.1 == self.entries_seq()[i as int].1,
    {
        let e = &self.entries[i];
        (&e.0, &e.1)
    }

    /// The value stored under `k`.
    pub fn get(&self, k: &K) -> (r: Option<&V>)
        requires
            self.wf(),
        ensures
            match r {
                Some(v) => self@.contains_key(k.kv()) && *v == self@[k.kv()],
                None => !self@.contains_key(k.kv()),
            },
    {
        match find_index(&self.entries, k) {
            Some(i) => {
                proof {
                    lemma_as_map_index(self.entries@, i as int);
                }
                Some(&self.entries[i].1)
            },
            None => None,
        }
    }

    /// Whether a value is stored under `k`.
    pub fn contains_key(&self, k: &K) -> (r: bool)
        requires
            self.wf(),
        ensures
            r == self@.contains_key(k.kv()),
    {
        find_index(&self.entries, k).is_some()
    }

    /// Stores `v` under `k`, replacing any value stored under it.
    pub fn insert(&mut self, k: K, v: V)
        requires
            old(self).wf(),
        ensures
            final(self).wf(),
            final(self)@ == old(self)@.insert(k.kv(), v),
    {
        let ghost old_s = self.entries@;
        let ghost kv = k.kv();
        let ghost target = as_map(old_s).insert(kv, v);
        match find_index(&self.entries, &k) {
            Some(i) => {
                self.entries.set(i, (k, v));
                proof {
                    let s = self.entries@;
                    assert(keys_distinct(s)) by {
                        assert forall|a: int, b: int|
                            0 <= a < s.len() && 0 <= b < s.len() && a != b implies #[trigger] s[a].0.kv()
                            != #[trigger] s[b].0.kv() by {
                            assert(old_s[a].0.kv() != old_s[b].0.kv());
                        }
                    }
                    assert forall|j: int| 0 <= j < s.len() implies #[trigger] target.contains_key(
                        s[j].0.kv(),
                    ) && target[s[j].0.kv()] == s[j].1 by {
                        if j != i {
                            lemma_as_map_index(old_s, j);
                            assert(old_s[j].0.kv() != old_s[i as int].0.kv());
                        }
                    }
                    assert forall|key: K::KV| #[trigger] target.contains_key(key) implies has_key(
                        s,
                        key,
                    ) by {
                        if key == kv {
                            assert(s[i as int].0.kv() == key);
                        } else {
                            let j = choose|j: int| 0 <= j < old_s.len() && #[trigger] old_s[j].0.kv() == key;
                            assert(s[j].0.kv() == key);
                        }
                    }
                    lemma_as_map_ext(s, target);
                }
            },
            None => {
                self.entries.push((k, v));
                proof {
                    let s = self.entries@;
                    assert(keys_distinct(s)) by {
                        assert forall|a: int, b: int|
                            0 <= a < s.len() && 0 <= b < s.len() && a != b implies #[trigger] s[a].0.kv()
                            != #[trigger] s[b].0.kv() by {
                            if a < old_s.len() && b < old_s.len() {
                                assert(old_s[a].0.kv() != old_s[b].0.kv());
                            } else if a < old_s.len() {
                                assert(old_s[a].0.kv() != kv);
                            } else {
                                assert(old_s[b].0.kv() != kv);
                            }
                        }
                    }
                    assert forall|j: int| 0 <= j < s.len() implies #[trigger] target.contains_key(
                        s[j].0.kv(),
                    ) && target[s[j].0.kv()] == s[j].1 by {
                        if j < old_s.len() {
                            lemma_as_map_index(old_s, j);
                            assert(old_s[j].0.kv() != kv);
                        }
                    }
                    assert forall|key: K::KV| #[trigger] target.contains_key(key) implies has_key(
                        s,
                        key,
                    ) by {
                        if key == kv {
                            assert(s[old_s.len() as int].0.kv() == key);
                        } else {
                            let j = choose|j: int| 0 <= j < old_s.len() && #[trigger] old_s[j].0.kv() == key;
                            assert(s[j].0.kv() == key);
                        }
                    }
                    lemma_as_map_ext(s, target);
                }
            },
        }
    }

    /// Removes the entry stored under `k`, returning its value.
    pub fn remove(&mut self, k: &K) -> (r: Option<V>)
        requires
            old(self).wf(),
        ensures
            final(self).wf(),
            final(self)@ == old(self)@.remove(k.kv()),
            match r {
                Some(v) => old(self)@.contains_key(k.kv()) && v == old(self)@[k.kv()],
                None => !old(self)@.contains_key(k.kv()),
            },
    {
        let ghost old_s = self.entries@;
        let ghost kv = k.kv();
        let ghost target = as_map(old_s).remove(kv);
        match find_index(&self.entries, k) {
            Some(i) => {
                proof {
                    lemma_as_map_index(old_s, i as int);
                }
                let (_, v) = self.entries.remove(i);
                proof {
                    let s = self.entries@;
                    assert forall|j: int| 0 <= j < s.len() implies s[j] == (if j < i {
                        old_s[j]
                    } else {
                        old_s[j + 1]
                    }) by {}
                    assert(keys_distinct(s)) by {
                        assert forall|a: int, b: int|
                            0 <= a < s.len() && 0 <= b < s.len() && a != b implies #[trigger] s[a].0.kv()
                            != #[trigger] s[b].0.kv() by {
                            let a2 = if a < i { a } else { a + 1 };
                            let b2 = if b < i { b } else { b + 1 };
                            assert(old_s[a2].0.kv() != old_s[b2].0.kv());
                        }
                    }
                    assert forall|j: int| 0 <= j < s.len() implies #[trigger] target.contains_key(
                        s[j].0.kv(),
                    ) && target[s[j].0.kv()] == s[j].1 by {
                        let j2 = if j < i { j } else { j + 1 };
                        lemma_as_map_index(old_s, j2);
                        assert(old_s[j2].0.kv() != old_s[i as int].0.kv());
                    }
                    assert forall|key: K::KV| #[trigger] target.contains_key(key) implies has_key(
                        s,
                        key,
                    ) by {
                        let j = choose|j: int| 0 <= j < old_s.len() && #[trigger] old_s[j].0.kv() == key;
                        assert(j != i);
                        if j < i {
                            assert(s[j].0.kv() == key);
                        } else {
                            assert(s[j - 1].0.kv() == key);
                        }
                    }
                    lemma_as_map_ext(s, target);
                }
                Some(v)
            },
            None => {
                proof {
                    assert(as_map(old_s).remove(kv) =~= as_map(old_s));
                }
                None
            },
        }
    }

    /// Removes the entries stored under any of `keys`.
    pub fn remove_all(&mut self, keys: &Vec<K>)
        requires
            old(self).wf(),
        ensures
            final(self).wf(),
            final(self)@ == without_keys(old(self)@, keys@.map_values(|x: K| x.kv())),
    {
        let ghost old_m = self@;
        let ghost kvs = keys@.map_values(|x: K| x.kv());
        let mut i: usize = 0;
        while i < keys.len()
            invariant
                self.wf(),
                i <= keys@.len(),
                kvs == keys@.map_values(|x: K| x.kv()),
                self@ == without_keys(old_m, kvs.subrange(0, i as int)),
            decreases keys@.len() - i,
        {
            self.remove(&keys[i]);
            proof {
                lemma_prefix_step(kvs, i as int);
                assert(self@ =~= without_keys(old_m, kvs.subrange(0, i as int + 1)));
            }
            i += 1;
        }
        assert(kvs.subrange(0, i as int) =~= kvs);
    }

    /// Removes every entry.
    pub fn clear(&mut self)
        ensures
            final(self).wf(),
            final(self)@ == Map::<K::KV, V>::empty(),
    {
        self.entries.clear();
        assert(as_map(self.entries@) =~= Map::<K::KV, V>::empty());
    }
}

/// The map without the entries under any of `ks`.
pub open spec fn without_keys<A, B>(m: Map<A, B>, ks: Seq<A>) -> Map<A, B> {
    Map::new(|k: A| m.contains_key(k) && !ks.contains(k), |k: A| m[k])
}

/// Membership in a prefix one element longer.
pub proof fn lemma_prefix_step<A>(s: Seq<A>, i: int)
    requires
        0 <= i < s.len(),
    ensures
        forall|k: A|
            #[trigger] s.subrange(0, i + 1).contains(k) <==> s.subrange(0, i).contains(k) || k == s[i],
{
    let pre = s.subrange(0, i);
    let post = s.subrange(0, i + 1);
    assert forall|k: A| #[trigger] post.contains(k) <==> pre.contains(k) || k == s[i] by {
        if post.contains(k) {
            let j = choose|j: int| 0 <= j < post.len() && post[j] == k;
            if j < i {
                assert(pre[j] == k);
            }
        }
        if pre.contains(k) {
            let j = choose|j: int| 0 <= j < pre.len() && pre[j] == k;
            assert(post[j] == k);
        }
        if k == s[i] {
            assert(post[i] == k);
        }
    }
}

/// Keys strictly increase along the list.
pub open spec fn keys_increasing<V>(s: Seq<(u64, V)>) -> bool {
    forall|i: int, j: int| 0 <= i < j < s.len() ==> #[trigger] s[i].0 < #[trigger] s[j].0
}

/// A table keyed by `u64` whose entries are kept in increasing key order.
pub struct SortedMap<V> {
    entries: Vec<(u64, V)>,
}

impl<V> View for SortedMap<V> {
    type V = Map<u64, V>;

    closed spec fn view(&self) -> Map<u64, V> {
        as_map(self.entries@)
    }
}

impl<V> SortedMap<V> {
    /// The entries, in increasing key order.
    pub closed spec fn entries_seq(&self) -> Seq<(u64, V)> {
        self.entries@
    }

    /// Keys strictly increase.
    pub open spec fn wf(&self) -> bool {
        keys_increasing(self.entries_seq())
    }

    /// The number of entries.
    pub open spec fn spec_len(&self) -> nat {
        self.entries_seq().len()
    }

    /// The keys, in increasing order.
    pub open spec fn keys_seq(&self) -> Seq<u64> {
        self.entries_seq().map_values(|e: (u64, V)| e.0)
    }

    /// The map stands for exactly the entries walked by index.
    pub proof fn lemma_view(&self)
        requires
            self.wf(),
        ensures
            keys_distinct(self.entries_seq()),
            self@ == as_map(self.entries_seq()),
            self@.dom().finite(),
            self@.dom().len() == self.spec_len(),
            forall|i: int|
                0 <= i < self.spec_len() ==> #[trigger] self@.contains_key(self.entries_seq()[i].0)
                    && self@[self.entries_seq()[i].0] == self.entries_seq()[i].1,
            forall|k: u64| #[trigger]
                self@.contains_key(k) ==> exists|i: int|
                    0 <= i < self.spec_len() && #[trigger] self.entries_seq()[i].0 == k,
    {
        lemma_increasing_distinct(self.entries@);
        lemma_as_map_all(self.entries@);
        lemma_as_map_len(self.entries@);
        assert forall|i: int| 0 <= i < self.spec_len() implies #[trigger] self@.contains_key(
            self.entries_seq()[i].0,
        ) && self@[self.entries_seq()[i].0] == self.entries_seq()[i].1 by {
            assert(self.entries@[i].0.kv() == self.entries@[i].0);
        }
        assert forall|k: u64| #[trigger] self@.contains_key(k) implies exists|i: int|
            0 <= i < self.spec_len() && #[trigger] self.entries_seq()[i].0 == k by {
            let i = choose|i: int| 0 <= i < self.entries@.len() && #[trigger] self.entries@[i].0.kv() == k;
            assert(self.entries_seq()[i].0 == k);
        }
    }

    /// An empty table.
    pub fn new() -> (r: Self)
        ensures
            r.wf(),
            r@ == Map::<u64, V>::empty(),
            r.spec_len() == 0,
    {
        let r = SortedMap { entries: Vec::new() };
        assert(r@ =~= Map::<u64, V>::empty());
        r
    }

    /// The number of entries.
    pub fn len(&self) -> (r: usize)
        requires
            self.wf(),
        ensures
            r == self.spec_len(),
            r == self@.len(),
    {
        proof {
            self.lemma_view();
        }
        self.entries.len()
    }

    /// The entry at position `i`.
    pub fn entry_at(&self, i: usize) -> (r: (u64, &V))
        requires
            i < self.spec_len(),
        ensures
            r.0 == self.entries_seq()[i as int].0,
            *r.1 == self.entries_seq()[i as int].1,
    {
        let e = &self.entries[i];
        (e.0, &e.1)
    }

    /// The value stored under `k`.
    pub fn get(&self, k: u64) -> (r: Option<&V>)
        requires
            self.wf(),
        ensures
            match r {
                Some(v) => self@.contains_key(k) && *v == self@[k],
                None => !self@.contains_key(k),
            },
    {
        proof {
            lemma_increasing_distinct(self.entries@);
        }
        match find_index(&self.entries, &k) {
            Some(i) => {
                proof {
                    lemma_as_map_index(self.entries@, i as int);
                }
                Some(&self.entries[i].1)
            },
            None => None,
        }
    }

    /// Whether a value is stored under `k`.
    pub fn contains_key(&self, k: u64) -> (r: bool)
        requires
            self.wf(),
        ensures
            r == self@.contains_key(k),
    {
        proof {
            lemma_increasing_distinct(self.entries@);
        }
        find_index(&self.entries, &k).is_some()
    }

    /// Stores `v` under `k`, replacing any value stored under it.
    pub fn insert(&mut self, k: u64, v: V)
        requires
            old(self).wf(),
        ensures
            final(self).wf(),
            final(self)@ == old(self)@.insert(k, v),
    {
        let ghost old_s = self.entries@;
        let ghost target = as_map(old_s).insert(k, v);
        proof {
            lemma_increasing_distinct(old_s);
        }
        let mut p: usize = 0;
        while p < self.entries.len() && self.entries[p].0 < k
            invariant
                self.entries@ == old_s,
                p <= old_s.len(),
                forall|j: int| 0 <= j < p ==> #[trigger] old_s[j].0 < k,
            decreases old_s.len() - p,
        {
            p += 1;
        }
        if p < self.entries.len() && self.entries[p].0 == k {
            self.entries.set(p, (k, v));
            proof {
                let s = self.entries@;
                assert(keys_increasing(s)) by {
                    assert forall|a: int, b: int| 0 <= a < b < s.len() implies #[trigger] s[a].0
                        < #[trigger] s[b].0 by {
                        assert(old_s[a].0 < old_s[b].0);
                    }
                }
                lemma_increasing_distinct(s);
                assert forall|j: int| 0 <= j < s.len() implies #[trigger] target.contains_key(s[j].0)
                    && target[s[j].0] == s[j].1 by {
                    if j != p {
                        lemma_as_map_index(old_s, j);
                    }
                }
                assert forall|key: u64| #[trigger] target.contains_key(key) implies has_key(s, key) by {
                    if key == k {
                        assert(s[p as int].0.kv() == key);
                    } else {
                        let j = choose|j: int| 0 <= j < old_s.len() && #[trigger] old_s[j].0.kv() == key;
                        assert(s[j].0.kv() == key);
                    }
                }
                lemma_as_map_ext(s, target);
            }
        } else {
            self.entries.insert(p, (k, v));
            proof {
                let s = self.entries@;
                assert forall|j: int| 0 <= j < s.len() implies s[j] == (if j < p {
                    old_s[j]
                } else if j == p {
                    (k, v)
                } else {
                    old_s[j - 1]
                }) by {}
                assert(keys_increasing(s)) by {
                    assert forall|a: int, b: int| 0 <= a < b < s.len() implies #[trigger] s[a].0
                        < #[trigger] s[b].0 by {
                        if b < p {
                            assert(old_s[a].0 < old_s[b].0);
                        } else if b == p {
                        } else if a < p {
                            assert(old_s[a].0 < k);
                            assert(old_s[p as int].0 > k);
                            assert(old_s[p as int].0 <= old_s[b - 1].0);
                        } else if a == p {
                            assert(old_s[p as int].0 > k);
                            assert(old_s[p as int].0 <= old_s[b - 1].0);
                        } else {
                            assert(old_s[a - 1].0 < old_s[b - 1].0);
                        }
                    }
                }
                lemma_increasing_distinct(s);
                assert(!has_key(old_s, k)) by {
                    if has_key(old_s, k) {
                        let j = choose|j: int| 0 <= j < old_s.len() && #[trigger] old_s[j].0.kv() == k;
                        if j < p {
                        } else {
                            assert(old_s[p as int].0 > k);
                            assert(old_s[p as int].0 <= old_s[j].0);
                        }
                    }
                }
                assert forall|j: int| 0 <= j < s.len() implies #[trigger] target.contains_key(s[j].0)
                    && target[s[j].0] == s[j].1 by {
                    if j < p {
                        lemma_as_map_index(old_s, j);
                    } else if j > p {
                        lemma_as_map_index(old_s, j - 1);
                    }
                }
                assert forall|key: u64| #[trigger] target.contains_key(key) implies has_key(s, key) by {
                    if key == k {
                        assert(s[p as int].0.kv() == key);
                    } else {
                        let j = choose|j: int| 0 <= j < old_s.len() && #[trigger] old_s[j].0.kv() == key;
                        if j < p {
                            assert(s[j].0.kv() == key);
                        } else {
                            assert(s[j + 1].0.kv() == key);
                        }
                    }
                }
                lemma_as_map_ext(s, target);
            }
        }
    }

    /// Removes the entry stored under `k`, returning its value.
    pub fn remove(&mut self, k: u64) -> (r: Option<V>)
        requires
            old(self).wf(),
        ensures
            final(self).wf(),
            final(self)@ == old(self)@.remove(k),
            match r {
                Some(v) => old(self)@.contains_key(k) && v == old(self)@[k],
                None => !old(self)@.contains_key(k),
            },
    {
        let ghost old_s = self.entries@;
        let ghost target = as_map(old_s).remove(k);
        proof {
            lemma_increasing_distinct(old_s);
        }
        match find_index(&self.entries, &k) {
            Some(i) => {
                proof {
                    lemma_as_map_index(old_s, i as int);
                }
                let (_, v) = self.entries.remove(i);
                proof {
                    let s = self.entries@;
                    assert forall|j: int| 0 <= j < s.len() implies s[j] == (if j < i {
                        old_s[j]
                    } else {
                        old_s[j + 1]
                    }) by {}
                    assert(keys_increasing(s)) by {
                        assert forall|a: int, b: int| 0 <= a < b < s.len() implies #[trigger] s[a].0
                            < #[trigger] s[b].0 by {
                            let a2 = if a < i { a } else { a + 1 };
                            let b2 = if b < i { b } else { b + 1 };
                            assert(old_s[a2].0 < old_s[b2].0);
                        }
                    }
                    lemma_increasing_distinct(s);
                    assert forall|j: int| 0 <= j < s.len() implies #[trigger] target.contains_key(
                        s[j].0,
                    ) && target[s[j].0] == s[j].1 by {
                        let j2 = if j < i { j } else { j + 1 };
                        lemma_as_map_index(old_s, j2);
                        assert(old_s[j2].0 != old_s[i as int].0);
                    }
                    assert forall|key: u64| #[trigger] target.contains_key(key) implies has_key(
                        s,
                        key,
                    ) by {
                        let j = choose|j: int| 0 <= j < old_s.len() && #[trigger] old_s[j].0.kv() == key;
                        assert(j != i);
                        if j < i {
                            assert(s[j].0.kv() == key);
                        } else {
                            assert(s[j - 1].0.kv() == key);
                        }
                    }
                    lemma_as_map_ext(s, target);
                }
                Some(v)
            },
            None => {
                proof {
                    assert(as_map(old_s).remove(k) =~= as_map(old_s));
                }
                None
            },
        }
    }

    /// Removes the entries stored under any of `keys`.
    pub fn remove_all(&mut self, keys: &Vec<u64>)
        requires
            old(self).wf(),
        ensures
            final(self).wf(),
            final(self)@ == without_keys(old(self)@, keys@),
    {
        let ghost old_m = self@;
        let mut i: usize = 0;
        while i < keys.len()
            invariant
                self.wf(),
                i <= keys@.len(),
                self@ == without_keys(old_m, keys@.subrange(0, i as int)),
            decreases keys@.len() - i,
        {
            self.remove(keys[i]);
            proof {
                lemma_prefix_step(keys@, i as int);
                assert(self@ =~= without_keys(old_m, keys@.subrange(0, i as int + 1)));
            }
            i += 1;
        }
        assert(keys@.subrange(0, i as int) =~= keys@);
    }

    /// Removes every entry.
    pub fn clear(&mut self)
        ensures
            final(self).wf(),
            final(self)@ == Map::<u64, V>::empty(),
    {
        self.entries.clear();
        assert(as_map(self.entries@) =~= Map::<u64, V>::empty());
    }
}

/// Increasing keys are distinct.
pub proof fn lemma_increasing_distinct<V>(s: Seq<(u64, V)>)
    requires
        keys_increasing(s),
    ensures
        keys_distinct(s),
{
    assert forall|i: int, j: int| 0 <= i < s.len() && 0 <= j < s.len() && i != j implies #[trigger] s[i].0.kv()
        != #[trigger] s[j].0.kv() by {
        if i < j {
            assert(s[i].0 < s[j].0);
        } else {
            assert(s[j].0 < s[i].0);
        }
    }
}

} // verus!
