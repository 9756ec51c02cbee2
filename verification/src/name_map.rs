//! A map from names to values that keeps its entries in insertion order.
//! It stands for the string-keyed hash maps of the token tables, and can be
//! walked entry by entry.

use vstd::prelude::*;
use crate::util::str_eq;

verus! {

/// A map from names to values; no name occurs twice among its entries.
#[derive(Debug)]
pub struct NameMap<V> {
    entries: Vec<(String, V)>,
}

impl<V> NameMap<V> {
    /// The entries, in insertion order, with names taken by their text.
    pub closed spec fn entry_seq(self) -> Seq<(Seq<char>, V)> {
        self.entries@.map_values(|e: (String, V)| (e.0@, e.1))
    }

    /// No name occurs twice.
    pub open spec fn wf(self) -> bool {
        forall|i: int, j: int|
            0 <= i < self.entry_seq().len() && 0 <= j < self.entry_seq().len() && i != j
                ==> self.entry_seq()[i].0 != self.entry_seq()[j].0
    }

    /// Whether `k` is the name of an entry.
    pub open spec fn has(self, k: Seq<char>) -> bool {
        exists|i: int| 0 <= i < self.entry_seq().len() && self.entry_seq()[i].0 == k
    }

    /// The value stored under `k` (meaningful when `has(k)`).
    pub open spec fn at(self, k: Seq<char>) -> V {
        self.entry_seq()[choose|i: int| 0 <= i < self.entry_seq().len() && self.entry_seq()[i].0 == k].1
    }

    /// The map that the entries describe.
    pub open spec fn view(self) -> Map<Seq<char>, V> {
        Map::new(|k: Seq<char>| self.has(k), |k: Seq<char>| self.at(k))
    }

    /// The number of entries.
    pub open spec fn size(self) -> nat {
        self.entry_seq().len()
    }

    pub fn new() -> (r: Self)
        ensures
            r.wf(),
            r.view() == Map::<Seq<char>, V>::empty(),
            r.size() == 0,
    {
        let r = NameMap { entries: Vec::new() };
        assert(r.view() =~= Map::<Seq<char>, V>::empty());
        r
    }

    /// The number of entries.
    pub fn len(&self) -> (r: usize)
        ensures
            r == self.size(),
    {
        self.entries.len()
    }

    /// The position of the entry named `k`, if there is one.
    pub fn position(&self, k: &str) -> (r: Option<usize>)
        ensures
            match r {
                Some(i) => i < self.size() && self.entry_seq()[i as int].0 == k@,
                None => !self.has(k@),
            },
    {
        let mut i: usize = 0;
        while i < self.entries.len()
            invariant
                i <= self.entries@.len(),
                forall|j: int| 0 <= j < i ==> self.entry_seq()[j].0 != k@,
            decreases self.entries@.len() - i,
        {
            if str_eq(self.entries[i].0.as_str(), k) {
                return Some(i);
            }
            i += 1;
        }
        None
    }

    /// The value stored under `k`, if there is one.
    pub fn get(&self, k: &str) -> (r: Option<&V>)
        requires
            self.wf(),
        ensures
            match r {
                Some(v) => self.has(k@) && *v == self.at(k@),
                None => !self.has(k@),
            },
    {
        match self.position(k) {
            Some(i) => {
                proof {
                    let c = choose|j: int| 0 <= j < self.entry_seq().len() && self.entry_seq()[j].0 == k@;
                    assert(c == i);
                }
                Some(&self.entries[i].1)
            },
            None => None,
        }
    }

    /// Whether there is an entry named `k`.
    pub fn contains_key(&self, k: &str) -> (r: bool)
        ensures
            r == self.has(k@),
    {
        self.position(k).is_some()
    }

    /// The name and value of the entry at position `i`.
    pub fn entry(&self, i: usize) -> (r: (&String, &V))
        requires
            i < self.size(),
        ensures
            r.0@ == self.entry_seq()[i as int].0,
            *r.1 == self.entry_seq()[i as int].1,
    {
        (&self.entries[i].0, &self.entries[i].1)
    }

    /// Stores `v` under `k`, replacing what was stored there before.
    pub fn insert(&mut self, k: String, v: V)
        requires
            old(self).wf(),
        ensures
            final(self).wf(),
            final(self).view() == old(self).view().insert(k@, v),
            old(self).has(k@) ==> final(self).size() == old(self).size(),
            !old(self).has(k@) ==> final(self).size() == old(self).size() + 1,
    {
        let ghost old_seq = self.entry_seq();
        match self.position(k.as_str()) {
            Some(i) => {
                let ghost key = k@;
                self.entries.set(i, (k, v));
                proof {
                    assert(self.entry_seq() =~= old_seq.update(i as int, (key, v)));
                    assert forall|kk: Seq<char>| #![auto] self.view().contains_key(kk)
                        <==> old(self).view().insert(key, v).contains_key(kk) by {
                        if kk == key {
                            assert(self.entry_seq()[i as int].0 == kk);
                        } else if old(self).has(kk) {
                            let j = choose|j: int| 0 <= j < old_seq.len() && old_seq[j].0 == kk;
                            assert(self.entry_seq()[j].0 == kk);
                        } else if self.has(kk) {
                            let j = choose|j: int| 0 <= j < self.entry_seq().len() && self.entry_seq()[j].0 == kk;
                            assert(old_seq[j].0 == kk);
                        }
                    }
                    assert forall|kk: Seq<char>| #![auto] self.has(kk)
                        implies self.at(kk) == old(self).view().insert(key, v)[kk] by {
                        let c = choose|j: int| 0 <= j < self.entry_seq().len() && self.entry_seq()[j].0 == kk;
                        if kk == key {
                            assert(c == i);
                        } else {
                            let d = choose|j: int| 0 <= j < old_seq.len() && old_seq[j].0 == kk;
                            assert(old_seq[c].0 == kk);
                            assert(c == d);
                        }
                    }
                    assert(self.view() =~= old(self).view().insert(key, v));
                }
            },
            None => {
                let ghost key = k@;
                self.entries.push((k, v));
                proof {
                    let n = old_seq.len() as int;
                    assert(self.entry_seq() =~= old_seq.push((key, v)));
                    assert forall|kk: Seq<char>| #![auto] self.view().contains_key(kk)
                        <==> old(self).view().insert(key, v).contains_key(kk) by {
                        if kk == key {
                            assert(self.entry_seq()[n].0 == kk);
                        } else if old(self).has(kk) {
                            let j = choose|j: int| 0 <= j < old_seq.len() && old_seq[j].0 == kk;
                            assert(self.entry_seq()[j].0 == kk);
                        } else if self.has(kk) {
                            let j = choose|j: int| 0 <= j < self.entry_seq().len() && self.entry_seq()[j].0 == kk;
                            assert(old_seq[j].0 == kk);
                        }
                    }
                    assert forall|kk: Seq<char>| #![auto] self.has(kk)
                        implies self.at(kk) == old(self).view().insert(key, v)[kk] by {
                        let c = choose|j: int| 0 <= j < self.entry_seq().len() && self.entry_seq()[j].0 == kk;
                        if kk == key {
                            assert(c == n);
                        } else {
                            let d = choose|j: int| 0 <= j < old_seq.len() && old_seq[j].0 == kk;
                            assert(old_seq[c].0 == kk);
                            assert(c == d);
                        }
                    }
                    assert(self.view() =~= old(self).view().insert(key, v));
                }
            },
        }
    }

    /// A copy of this map, each value copied by its `clone`.
    pub fn duplicate(&self) -> (r: Self)
        where V: Clone,
        requires
            self.wf(),
        ensures
            r.wf(),
            r.size() == self.size(),
            forall|i: int| 0 <= i < self.size() ==> (#[trigger] r.entry_seq()[i]).0 == self.entry_seq()[i].0
                && cloned::<V>(self.entry_seq()[i].1, r.entry_seq()[i].1),
    {
        let mut entries: Vec<(String, V)> = Vec::new();
        let mut i: usize = 0;
        while i < self.entries.len()
            invariant
                i <= self.entries@.len(),
                entries@.len() == i,
                forall|j: int| 0 <= j < i ==> (#[trigger] entries@[j]).0@ == self.entries@[j].0@
                    && cloned::<V>(self.entries@[j].1, entries@[j].1),
            decreases self.entries@.len() - i,
        {
            let name = self.entries[i].0.clone();
            let value = self.entries[i].1.clone();
            entries.push((name, value));
            i += 1;
        }
        let r = NameMap { entries };
        proof {
            assert forall|a: int, b: int|
                0 <= a < r.entry_seq().len() && 0 <= b < r.entry_seq().len() && a != b
                    implies r.entry_seq()[a].0 != r.entry_seq()[b].0 by {
                assert(r.entry_seq()[a].0 == self.entry_seq()[a].0);
                assert(r.entry_seq()[b].0 == self.entry_seq()[b].0);
            }
        }
        r
    }
}

/// Each entry of a well-formed map is what the map holds under its name, and
/// each name that the map holds is the name of some entry.
pub proof fn lemma_entries_are_view<V>(m: NameMap<V>)
    requires
        m.wf(),
    ensures
        forall|i: int| 0 <= i < m.size() ==> m.view().contains_key(#[trigger] m.entry_seq()[i].0)
            && m.view()[m.entry_seq()[i].0] == m.entry_seq()[i].1,
        forall|k: Seq<char>| #[trigger] m.view().contains_key(k) ==> exists|i: int| 0 <= i < m.size()
            && m.entry_seq()[i].0 == k && m.view()[k] == m.entry_seq()[i].1,
{
    assert forall|i: int| 0 <= i < m.size() implies m.view().contains_key(#[trigger] m.entry_seq()[i].0)
        && m.view()[m.entry_seq()[i].0] == m.entry_seq()[i].1 by {
        let k = m.entry_seq()[i].0;
        assert(m.has(k));
        let c = choose|j: int| 0 <= j < m.entry_seq().len() && m.entry_seq()[j].0 == k;
        assert(c == i);
    }
    assert forall|k: Seq<char>| #[trigger] m.view().contains_key(k) implies exists|i: int| 0 <= i < m.size()
        && m.entry_seq()[i].0 == k && m.view()[k] == m.entry_seq()[i].1 by {
        let c = choose|j: int| 0 <= j < m.entry_seq().len() && m.entry_seq()[j].0 == k;
        assert(m.entry_seq()[c].0 == k);
    }
}

/// Two maps with the same entries describe the same map.
pub proof fn lemma_same_entries_same_view<V>(a: NameMap<V>, b: NameMap<V>)
    requires
        a.entry_seq() == b.entry_seq(),
    ensures
        a.view() == b.view(),
{
    assert(a.view() =~= b.view());
}

} // verus!
