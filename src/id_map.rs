//! Records keyed by numeric id, held in a vector sorted by strictly increasing id.
use vstd::prelude::*;

use crate::model::Keyed;

verus! {

/// Ids strictly increase along the sequence (so no id occurs twice).
pub open spec fn keys_increasing<T: Keyed>(s: Seq<T>) -> bool {
    forall|i: int, j: int| 0 <= i < j < s.len() ==> s[i].key() < s[j].key()
}

/// Some record of `s` has id `k`.
pub open spec fn has_key<T: Keyed>(s: Seq<T>, k: u64) -> bool {
    exists|i: int| 0 <= i < s.len() && s[i].key() == k
}

/// The map from id to record that a sorted sequence of records stands for.
pub open spec fn map_of_sorted<T: Keyed>(s: Seq<T>) -> Map<u64, T> {
    Map::new(
        |k: u64| has_key(s, k),
        |k: u64| s[choose|i: int| 0 <= i < s.len() && s[i].key() == k],
    )
}

/// The map built by inserting the records of a list in order, keyed by id: a
/// later record replaces an earlier one with the same id.
pub open spec fn map_of_list<T: Keyed>(s: Seq<T>) -> Map<u64, T>
    decreases s.len(),
{
    if s.len() == 0 {
        Map::empty()
    } else {
        map_of_list(s.drop_last()).insert(s.last().key(), s.last())
    }
}

/// Every record of a map is stored under its own id.
pub open spec fn keyed_by_id<T: Keyed>(m: Map<u64, T>) -> bool {
    forall|k: u64| #[trigger] m.contains_key(k) ==> m[k].key() == k
}

pub proof fn lemma_sorted_lookup<T: Keyed>(s: Seq<T>, i: int)
    requires
        keys_increasing(s),
        0 <= i < s.len(),
    ensures
        map_of_sorted(s).contains_key(s[i].key()),
        map_of_sorted(s)[s[i].key()] == s[i],
{
    let k = s[i].key();
    assert(has_key(s, k));
    let j = choose|j: int| 0 <= j < s.len() && s[j].key() == k;
    assert(j == i);
}

pub proof fn lemma_sorted_keyed<T: Keyed>(s: Seq<T>)
    requires
        keys_increasing(s),
    ensures
        keyed_by_id(map_of_sorted(s)),
{
    assert forall|k: u64| #[trigger] map_of_sorted(s).contains_key(k) implies map_of_sorted(
        s,
    )[k].key() == k by {
        let i = choose|i: int| 0 <= i < s.len() && s[i].key() == k;
        lemma_sorted_lookup(s, i);
    }
}

/// A sorted sequence stands for `m` when it lists exactly the records of `m`.
pub proof fn lemma_sorted_view_eq<T: Keyed>(s: Seq<T>, m: Map<u64, T>)
    requires
        keys_increasing(s),
        forall|i: int|
            0 <= i < s.len() ==> m.contains_key(#[trigger] s[i].key()) && m[s[i].key()] == s[i],
        forall|k: u64| #[trigger] m.contains_key(k) ==> has_key(s, k),
    ensures
        map_of_sorted(s) == m,
{
    assert forall|k: u64| #[trigger] map_of_sorted(s).contains_key(k) == m.contains_key(k) by {
        if has_key(s, k) {
            let i = choose|i: int| 0 <= i < s.len() && s[i].key() == k;
            assert(m.contains_key(s[i].key()));
        }
    }
    assert forall|k: u64| #[trigger] map_of_sorted(s).contains_key(k) implies map_of_sorted(
        s,
    )[k] == m[k] by {
        let i = choose|i: int| 0 <= i < s.len() && s[i].key() == k;
        lemma_sorted_lookup(s, i);
        assert(m.contains_key(s[i].key()));
    }
    assert(map_of_sorted(s) =~= m);
}

/// Records keyed by id; the view is the map from id to record.
pub struct IdMap<T> {
    entries: Vec<T>,
}

impl<T: Keyed> IdMap<T> {
    /// The records in increasing id order.
    pub closed spec fn entries(&self) -> Seq<T> {
        self.entries@
    }

    pub open spec fn wf(&self) -> bool {
        keys_increasing(self.entries())
    }

    pub open spec fn view(&self) -> Map<u64, T> {
        map_of_sorted(self.entries())
    }

    pub fn new() -> (r: Self)
        ensures
            r.wf(),
            r@ == Map::<u64, T>::empty(),
    {
        let r = IdMap { entries: Vec::new() };
        proof {
            lemma_sorted_view_eq(r.entries(), Map::<u64, T>::empty());
        }
        r
    }

    pub fn len(&self) -> (r: usize)
        ensures
            r == self.entries().len(),
    {
        self.entries.len()
    }

    pub fn at(&self, i: usize) -> (r: &T)
        requires
            i < self.entries().len(),
        ensures
            *r == self.entries()[i as int],
    {
        &self.entries[i]
    }

    /// The first position whose id is not below `k`.
    fn position(&self, k: u64) -> (r: usize)
        requires
            self.wf(),
        ensures
            r <= self.entries().len(),
            forall|j: int| 0 <= j < r ==> self.entries()[j].key() < k,
            r < self.entries().len() ==> self.entries()[r as int].key() >= k,
    {
        let mut i: usize = 0;
        while i < self.entries.len()
            invariant
                i <= self.entries().len(),
                forall|j: int| 0 <= j < i ==> self.entries()[j].key() < k,
            decreases self.entries().len() - i,
        {
            if self.entries[i].id() >= k {
                return i;
            }
            i = i + 1;
        }
        i
    }

    pub fn get(&self, k: u64) -> (r: Option<&T>)
        requires
            self.wf(),
        ensures
            match r {
                Some(v) => self@.contains_key(k) && *v == self@[k],
                None => !self@.contains_key(k),
            },
    {
        let i = self.position(k);
        if i < self.entries.len() && self.entries[i].id() == k {
            proof {
                lemma_sorted_lookup(self.entries(), i as int);
            }
            Some(&self.entries[i])
        } else {
            proof {
                if has_key(self.entries(), k) {
                    let j = choose|j: int|
                        0 <= j < self.entries().len() && self.entries()[j].key() == k;
                    if j > i {
                        assert(self.entries()[i as int].key() < self.entries()[j].key());
                    }
                }
            }
            None
        }
    }

    /// Inserts `v` under its id, replacing a record with the same id.
    pub fn insert(&mut self, v: T)
        requires
            old(self).wf(),
        ensures
            final(self).wf(),
            final(self)@ == old(self)@.insert(v.key(), v),
    {
        let ghost s = self.entries();
        let ghost m = self@.insert(v.key(), v);
        let k = v.id();
        let i = self.position(k);
        proof {
            assert forall|j: int| 0 <= j < s.len() implies #[trigger] map_of_sorted(s).contains_key(
                s[j].key(),
            ) && map_of_sorted(s)[s[j].key()] == s[j] by {
                lemma_sorted_lookup(s, j);
            }
        }
        if i < self.entries.len() && self.entries[i].id() == k {
            self.entries.set(i, v);
            proof {
                let t = self.entries();
                assert(t == s.update(i as int, v));
                assert forall|k2: u64| #[trigger] m.contains_key(k2) implies has_key(t, k2) by {
                    if k2 == k {
                        assert(t[i as int].key() == k2);
                    } else {
                        let j = choose|j: int| 0 <= j < s.len() && s[j].key() == k2;
                        assert(t[j].key() == k2);
                    }
                }
                lemma_sorted_view_eq(t, m);
            }
        } else {
            self.entries.insert(i, v);
            proof {
                let t = self.entries();
                assert(t == s.insert(i as int, v));
                assert forall|a: int, b: int| 0 <= a < b < t.len() implies t[a].key() < t[b].key() by {
                    if b < i {
                    } else if b == i {
                    } else if a < i {
                        assert(s[a].key() < k);
                    } else if a == i {
                        assert(s[b - 1].key() >= s[i as int].key());
                    } else {
                        assert(s[a - 1].key() < s[b - 1].key());
                    }
                }
                assert forall|k2: u64| #[trigger] m.contains_key(k2) implies has_key(t, k2) by {
                    if k2 == k {
                        assert(t[i as int].key() == k2);
                    } else {
                        let j = choose|j: int| 0 <= j < s.len() && s[j].key() == k2;
                        if j < i {
                            assert(t[j].key() == k2);
                        } else {
                            assert(t[j + 1].key() == k2);
                        }
                    }
                }
                assert forall|j: int| 0 <= j < t.len() implies m.contains_key(
                    #[trigger] t[j].key(),
                ) && m[t[j].key()] == t[j] by {
                    if j < i {
                        assert(t[j] == s[j]);
                        assert(s[j].key() != k);
                    } else if j > i {
                        assert(t[j] == s[j - 1]);
                        if i < s.len() {
                            assert(s[j - 1].key() >= s[i as int].key());
                        }
                    }
                }
                lemma_sorted_view_eq(t, m);
            }
        }
    }

    /// Removes the record with id `k`, if any.
    pub fn remove(&mut self, k: u64)
        requires
            old(self).wf(),
        ensures
            final(self).wf(),
            final(self)@ == old(self)@.remove(k),
    {
        let ghost s = self.entries();
        let ghost m = self@.remove(k);
        let i = self.position(k);
        proof {
            assert forall|j: int| 0 <= j < s.len() implies #[trigger] map_of_sorted(s).contains_key(
                s[j].key(),
            ) && map_of_sorted(s)[s[j].key()] == s[j] by {
                lemma_sorted_lookup(s, j);
            }
        }
        if i < self.entries.len() && self.entries[i].id() == k {
            self.entries.remove(i);
            proof {
                let t = self.entries();
                assert(t == s.remove(i as int));
                assert forall|k2: u64| #[trigger] m.contains_key(k2) implies has_key(t, k2) by {
                    let j = choose|j: int| 0 <= j < s.len() && s[j].key() == k2;
                    if j < i {
                        assert(t[j].key() == k2);
                    } else {
                        assert(j != i);
                        assert(t[j - 1].key() == k2);
                    }
                }
                assert forall|j: int| 0 <= j < t.len() implies m.contains_key(
                    #[trigger] t[j].key(),
                ) && m[t[j].key()] == t[j] by {
                    if j < i {
                        assert(t[j] == s[j]);
                    } else {
                        assert(t[j] == s[j + 1]);
                    }
                }
                lemma_sorted_view_eq(t, m);
            }
        } else {
            proof {
                assert forall|k2: u64| #[trigger] m.contains_key(k2) implies has_key(s, k2) by {}
                assert forall|j: int| 0 <= j < s.len() implies m.contains_key(
                    #[trigger] s[j].key(),
                ) && m[s[j].key()] == s[j] by {
                    if j < i {
                    } else if j > i {
                        assert(s[j].key() > s[i as int].key());
                    }
                }
                lemma_sorted_view_eq(s, m);
            }
        }
    }

    /// Replaces the record at position `i` by one with the same id.
    pub fn replace_at(&mut self, i: usize, v: T)
        requires
            i < old(self).entries().len(),
            v.key() == old(self).entries()[i as int].key(),
            old(self).wf(),
        ensures
            final(self).wf(),
            final(self).entries() == old(self).entries().update(i as int, v),
    {
        self.entries.set(i, v);
    }

    /// The map of a list of records, a later one replacing an earlier one with
    /// the same id.
    pub fn from_list(list: &Vec<T>) -> (r: Self)
        ensures
            r.wf(),
            r@ == map_of_list(list@),
    {
        let mut r = IdMap::new();
        let mut i: usize = 0;
        while i < list.len()
            invariant
                i <= list@.len(),
                r.wf(),
                r@ == map_of_list(list@.take(i as int)),
            decreases list@.len() - i,
        {
            r.insert(list[i].duplicate());
            proof {
                let p = list@.take(i + 1);
                assert(p.drop_last() == list@.take(i as int));
                assert(p.last() == list@[i as int]);
            }
            i = i + 1;
        }
        assert(list@.take(i as int) == list@);
        r
    }
}

} // verus!
