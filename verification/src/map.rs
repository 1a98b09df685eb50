//! A map keyed by strings, holding its entries in the order they were
//! first inserted, with no key twice.
use vstd::prelude::*;

use crate::text::text_eq;

verus! {

/// Values that can be copied with their view kept.
pub trait Duplicate: View + Sized {
    fn duplicate(&self) -> (r: Self)
        ensures
            r@ == self@,
    ;
}

impl Duplicate for u64 {
    fn duplicate(&self) -> (r: u64) {
        *self
    }
}

/// No key occurs twice among the entries.
pub open spec fn distinct_keys<W>(p: Seq<(Seq<char>, W)>) -> bool {
    forall|i: int, j: int| 0 <= i < j < p.len() ==> #[trigger] p[i].0 != #[trigger] p[j].0
}

/// Some entry has key `k`.
pub open spec fn has_key<W>(p: Seq<(Seq<char>, W)>, k: Seq<char>) -> bool {
    exists|i: int| 0 <= i < p.len() && #[trigger] p[i].0 == k
}

/// The map that a list of entries stands for.
pub open spec fn pairs_to_map<W>(p: Seq<(Seq<char>, W)>) -> Map<Seq<char>, W> {
    Map::new(
        |k: Seq<char>| has_key(p, k),
        |k: Seq<char>| p[choose|i: int| 0 <= i < p.len() && #[trigger] p[i].0 == k].1,
    )
}

pub proof fn lemma_pairs_to_map_index<W>(p: Seq<(Seq<char>, W)>, i: int)
    requires
        distinct_keys(p),
        0 <= i < p.len(),
    ensures
        pairs_to_map(p).contains_key(p[i].0),
        pairs_to_map(p)[p[i].0] == p[i].1,
{
    assert(has_key(p, p[i].0));
    let j = choose|j: int| 0 <= j < p.len() && #[trigger] p[j].0 == p[i].0;
    if j != i {
        if j < i {
            assert(p[j].0 != p[i].0);
        } else {
            assert(p[i].0 != p[j].0);
        }
    }
}

pub proof fn lemma_pairs_to_map_push<W>(p: Seq<(Seq<char>, W)>, k: Seq<char>, v: W)
    requires
        distinct_keys(p),
        !has_key(p, k),
    ensures
        distinct_keys(p.push((k, v))),
        pairs_to_map(p.push((k, v))) == pairs_to_map(p).insert(k, v),
{
    let q = p.push((k, v));
    assert forall|i: int, j: int| 0 <= i < j < q.len() implies #[trigger] q[i].0
        != #[trigger] q[j].0 by {
        if j == p.len() {
            assert(p[i].0 == q[i].0);
        } else {
            assert(p[i].0 != p[j].0);
        }
    }
    let m = pairs_to_map(q);
    let n = pairs_to_map(p).insert(k, v);
    assert forall|key: Seq<char>| m.contains_key(key) <==> n.contains_key(key) by {
        if has_key(q, key) {
            let i = choose|i: int| 0 <= i < q.len() && #[trigger] q[i].0 == key;
            if i < p.len() {
                assert(p[i].0 == key);
            }
        }
        if has_key(p, key) {
            let i = choose|i: int| 0 <= i < p.len() && #[trigger] p[i].0 == key;
            assert(q[i].0 == key);
        }
        if key == k {
            assert(q[p.len() as int].0 == key);
        }
    }
    assert forall|key: Seq<char>| #[trigger] m.contains_key(key) implies m[key] == n[key] by {
        let i = choose|i: int| 0 <= i < q.len() && #[trigger] q[i].0 == key;
        lemma_pairs_to_map_index(q, i);
        if i < p.len() {
            assert(p[i] == q[i]);
            lemma_pairs_to_map_index(p, i);
        }
    }
    assert(m =~= n);
}

pub proof fn lemma_pairs_to_map_update<W>(p: Seq<(Seq<char>, W)>, i: int, v: W)
    requires
        distinct_keys(p),
        0 <= i < p.len(),
    ensures
        distinct_keys(p.update(i, (p[i].0, v))),
        pairs_to_map(p.update(i, (p[i].0, v))) == pairs_to_map(p).insert(p[i].0, v),
{
    let k = p[i].0;
    let q = p.update(i, (k, v));
    assert forall|a: int, b: int| 0 <= a < b < q.len() implies #[trigger] q[a].0
        != #[trigger] q[b].0 by {
        assert(q[a].0 == p[a].0);
        assert(q[b].0 == p[b].0);
    }
    let m = pairs_to_map(q);
    let n = pairs_to_map(p).insert(k, v);
    assert forall|key: Seq<char>| m.contains_key(key) <==> n.contains_key(key) by {
        if has_key(q, key) {
            let j = choose|j: int| 0 <= j < q.len() && #[trigger] q[j].0 == key;
            assert(p[j].0 == key);
        }
        if has_key(p, key) {
            let j = choose|j: int| 0 <= j < p.len() && #[trigger] p[j].0 == key;
            assert(q[j].0 == key);
        }
        if key == k {
            assert(q[i].0 == key);
        }
    }
    assert forall|key: Seq<char>| #[trigger] m.contains_key(key) implies m[key] == n[key] by {
        let j = choose|j: int| 0 <= j < q.len() && #[trigger] q[j].0 == key;
        lemma_pairs_to_map_index(q, j);
        if j != i {
            assert(p[j] == q[j]);
            lemma_pairs_to_map_index(p, j);
        }
    }
    assert(m =~= n);
}

/// Position of the entry with key `k` (meaningful where there is one).
pub open spec fn key_index<W>(p: Seq<(Seq<char>, W)>, k: Seq<char>) -> int {
    choose|i: int| 0 <= i < p.len() && #[trigger] p[i].0 == k
}

/// The entries after storing `v` under `k`: in place where `k` is there,
/// else as a new last entry.
pub open spec fn pairs_with<W>(p: Seq<(Seq<char>, W)>, k: Seq<char>, v: W) -> Seq<(Seq<char>, W)> {
    if has_key(p, k) {
        p.update(key_index(p, k), (k, v))
    } else {
        p.push((k, v))
    }
}

pub proof fn lemma_pairs_with<W>(p: Seq<(Seq<char>, W)>, k: Seq<char>, v: W)
    requires
        distinct_keys(p),
    ensures
        distinct_keys(pairs_with(p, k, v)),
        pairs_to_map(pairs_with(p, k, v)) == pairs_to_map(p).insert(k, v),
        pairs_with(p, k, v).len() == if has_key(p, k) { p.len() } else { p.len() + 1 },
{
    if has_key(p, k) {
        let i = key_index(p, k);
        lemma_pairs_to_map_update(p, i, v);
    } else {
        lemma_pairs_to_map_push(p, k, v);
    }
}

/// `m` with `k` added at `v` where it is missing.
pub open spec fn keep_or_insert<W>(m: Map<Seq<char>, W>, k: Seq<char>, v: W) -> Map<Seq<char>, W> {
    if m.contains_key(k) {
        m
    } else {
        m.insert(k, v)
    }
}

/// A map from strings to values; `pairs` lists its entries in insertion order.
pub struct StringMap<V> {
    entries: Vec<(String, V)>,
}

/// Counters keyed by name.
pub type CountMap = StringMap<u64>;

impl<V: View> StringMap<V> {
    /// The entries, keys and values taken by their views, in insertion order.
    pub closed spec fn pairs(&self) -> Seq<(Seq<char>, V::V)> {
        self.entries@.map_values(|e: (String, V)| (e.0@, e.1@))
    }

    /// The stored values themselves, in the order of `pairs`.
    pub closed spec fn values(&self) -> Seq<V> {
        self.entries@.map_values(|e: (String, V)| e.1)
    }

    pub proof fn lemma_values(&self)
        ensures
            self.values().len() == self.pairs().len(),
            forall|i: int|
                0 <= i < self.pairs().len() ==> #[trigger] self.pairs()[i].1 == self.values()[i]@,
    {
    }

    pub open spec fn wf(&self) -> bool {
        distinct_keys(self.pairs())
    }

    /// The map these entries stand for.
    pub open spec fn map(&self) -> Map<Seq<char>, V::V> {
        pairs_to_map(self.pairs())
    }

    pub fn new() -> (m: Self)
        ensures
            m.wf(),
            m.pairs() == Seq::<(Seq<char>, V::V)>::empty(),
            m.map() == Map::<Seq<char>, V::V>::empty(),
            m.values().len() == 0,
    {
        let m = StringMap { entries: Vec::new() };
        assert(m.pairs() =~= Seq::<(Seq<char>, V::V)>::empty());
        assert(m.map() =~= Map::<Seq<char>, V::V>::empty());
        m
    }

    pub fn len(&self) -> (n: usize)
        ensures
            n == self.pairs().len(),
    {
        self.entries.len()
    }

    pub fn key_at(&self, i: usize) -> (k: &String)
        requires
            i < self.pairs().len(),
        ensures
            k@ == self.pairs()[i as int].0,
    {
        &self.entries[i].0
    }

    pub fn value_at(&self, i: usize) -> (v: &V)
        requires
            i < self.pairs().len(),
        ensures
            v@ == self.pairs()[i as int].1,
            *v == self.values()[i as int],
    {
        &self.entries[i].1
    }

    /// Position of the entry with this key, if any.
    pub fn find(&self, key: &str) -> (r: Option<usize>)
        ensures
            match r {
                Some(i) => i < self.pairs().len() && self.pairs()[i as int].0 == key@,
                None => !self.map().contains_key(key@),
            },
    {
        let n = self.entries.len();
        let mut i: usize = 0;
        while i < n
            invariant
                n == self.entries@.len(),
                i <= n,
                forall|j: int| 0 <= j < i ==> self.pairs()[j].0 != key@,
            decreases n - i,
        {
            if text_eq(self.entries[i].0.as_str(), key) {
                return Some(i);
            }
            i = i + 1;
        }
        assert(!has_key(self.pairs(), key@));
        None
    }

    /// The value stored under `key`.
    pub fn get(&self, key: &str) -> (r: Option<&V>)
        requires
            self.wf(),
        ensures
            match r {
                Some(v) => self.map().contains_key(key@) && v@ == self.map()[key@],
                None => !self.map().contains_key(key@),
            },
    {
        match self.find(key) {
            Some(i) => {
                proof {
                    lemma_pairs_to_map_index(self.pairs(), i as int);
                }
                Some(&self.entries[i].1)
            },
            None => None,
        }
    }

    /// Stores `value` under `key`, in place if the key is there, else as a new last entry.
    pub fn set(&mut self, key: String, value: V)
        requires
            old(self).wf(),
        ensures
            final(self).wf(),
            final(self).map() == old(self).map().insert(key@, value@),
            final(self).pairs() == pairs_with(old(self).pairs(), key@, value@),
            has_key(old(self).pairs(), key@) ==> final(self).values() == old(self).values().update(
                key_index(old(self).pairs(), key@),
                value,
            ),
            !has_key(old(self).pairs(), key@) ==> final(self).values() == old(self).values().push(
                value,
            ),
    {
        let ghost p = self.pairs();
        let ghost vals = self.values();
        let ghost kv = key@;
        let ghost vv = value@;
        let ghost val = value;
        match self.find(key.as_str()) {
            Some(i) => {
                proof {
                    assert(has_key(p, kv));
                    let j = key_index(p, kv);
                    if j != i as int {
                        if j < i as int {
                            assert(p[j].0 != p[i as int].0);
                        } else {
                            assert(p[i as int].0 != p[j].0);
                        }
                    }
                }
                self.entries.set(i, (key, value));
                assert(self.pairs() =~= p.update(i as int, (kv, vv)));
                assert(self.values() =~= vals.update(i as int, val));
                proof {
                    lemma_pairs_to_map_update(p, i as int, vv);
                }
            },
            None => {
                self.entries.push((key, value));
                assert(self.pairs() =~= p.push((kv, vv)));
                assert(self.values() =~= vals.push(val));
                proof {
                    lemma_pairs_to_map_push(p, kv, vv);
                }
            },
        }
    }

    /// Stores `value` under `key` only where the key is not there yet.
    pub fn insert_if_absent(&mut self, key: &str, value: V)
        requires
            old(self).wf(),
        ensures
            final(self).wf(),
            old(self).map().contains_key(key@) ==> final(self).pairs() == old(self).pairs(),
            !old(self).map().contains_key(key@) ==> final(self).pairs() == old(self).pairs().push(
                (key@, value@),
            ),
            final(self).map() == keep_or_insert(old(self).map(), key@, value@),
    {
        let ghost p = self.pairs();
        match self.find(key) {
            Some(i) => {
                proof {
                    lemma_pairs_to_map_index(p, i as int);
                }
            },
            None => {
                let owned = key.to_string();
                let ghost kv = owned@;
                let ghost vv = value@;
                self.entries.push((owned, value));
                assert(self.pairs() =~= p.push((kv, vv)));
                proof {
                    lemma_pairs_to_map_push(p, kv, vv);
                }
            },
        }
    }
}

impl<V: Duplicate> Duplicate for StringMap<V> {
    fn duplicate(&self) -> (r: Self)
        ensures
            r.pairs() == self.pairs(),
            self.wf() ==> r.wf(),
    {
        let n = self.entries.len();
        let mut entries: Vec<(String, V)> = Vec::new();
        let mut i: usize = 0;
        while i < n
            invariant
                n == self.entries@.len(),
                i <= n,
                entries@.len() == i,
                forall|j: int|
                    0 <= j < i ==> #[trigger] entries@[j].0@ == self.entries@[j].0@
                        && entries@[j].1@ == self.entries@[j].1@,
            decreases n - i,
        {
            let k = self.entries[i].0.clone();
            let v = self.entries[i].1.duplicate();
            entries.push((k, v));
            i = i + 1;
        }
        let r = StringMap { entries };
        assert(r.pairs() =~= self.pairs());
        r
    }
}

impl<V: View> View for StringMap<V> {
    type V = Map<Seq<char>, V::V>;

    open spec fn view(&self) -> Map<Seq<char>, V::V> {
        self.map()
    }
}

} // verus!
