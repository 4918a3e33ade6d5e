//! An identity-keyed table.
//!
//! Every component of the network keeps some state per identity: the
//! directory holds public keys, the routing server holds live links, the
//! store-and-forward transport holds links and pending queues. This module
//! gives them one table with unique string keys, seen in contracts as a
//! `Map` from the identity's characters to the stored value.

use vstd::prelude::*;

verus! {

use vstd::seq_lib::*;

/// A table from identities to values, with at most one entry per identity.
pub struct Registry<V> {
    entries: Vec<(String, V)>,
}

impl<V> Registry<V> {
    /// Keys are pairwise distinct.
    pub closed spec fn inv(self) -> bool {
        forall|i: int, j: int|
            0 <= i < j < self.entries@.len() ==> self.entries@[i].0@ != self.entries@[j].0@
    }

    /// The entries in storage order, keys as character sequences.
    pub closed spec fn entries_seq(self) -> Seq<(Seq<char>, V)> {
        self.entries@.map_values(|e: (String, V)| (e.0@, e.1))
    }

    spec fn contains_id(self, id: Seq<char>) -> bool {
        exists|i: int| 0 <= i < self.entries@.len() && self.entries@[i].0@ == id
    }

    spec fn index_of(self, id: Seq<char>) -> int {
        choose|i: int| 0 <= i < self.entries@.len() && self.entries@[i].0@ == id
    }

    /// The table as a map from identity to stored value.
    pub closed spec fn view(self) -> Map<Seq<char>, V> {
        Map::new(
            |id: Seq<char>| self.contains_id(id),
            |id: Seq<char>| self.entries@[self.index_of(id)].1,
        )
    }

    /// How the entry sequence and the map view correspond: each entry is
    /// in the map, each mapped identity has exactly one entry, and the
    /// map's domain is as large as the entry sequence.
    pub proof fn lemma_entries_view(&self)
        requires
            self.inv(),
        ensures
            forall|i: int|
                0 <= i < self.entries_seq().len() ==> #[trigger] self@.contains_key(
                    self.entries_seq()[i].0,
                ) && self@[self.entries_seq()[i].0] == self.entries_seq()[i].1,
            forall|id: Seq<char>|
                self@.contains_key(id) ==> exists|i: int|
                    0 <= i < self.entries_seq().len() && #[trigger] self.entries_seq()[i].0 == id,
            forall|i: int, j: int|
                0 <= i < j < self.entries_seq().len() ==> self.entries_seq()[i].0
                    != self.entries_seq()[j].0,
            self@.dom().len() == self.entries_seq().len(),
    {
        assert forall|i: int|
            0 <= i < self.entries_seq().len() implies #[trigger] self@.contains_key(
            self.entries_seq()[i].0,
        ) && self@[self.entries_seq()[i].0] == self.entries_seq()[i].1 by {
            let id = self.entries_seq()[i].0;
            assert(self.entries@[i].0@ == id);
            let j = self.index_of(id);
            assert(self.entries@[j].0@ == id);
            assert(j == i);
        }
        assert forall|id: Seq<char>| #[trigger] self@.contains_key(id) implies exists|i: int|
            0 <= i < self.entries_seq().len() && #[trigger] self.entries_seq()[i].0 == id by {
            let i = self.index_of(id);
            assert(0 <= i < self.entries@.len() && self.entries@[i].0@ == id);
            assert(self.entries_seq()[i].0 == id);
        }
        let keys = self.entries@.map_values(|e: (String, V)| e.0@);
        assert(keys.no_duplicates());
        keys.unique_seq_to_set();
        assert forall|k: Seq<char>| #[trigger] self@.contains_key(k) implies keys.contains(
            k,
        ) by {
            let i = self.index_of(k);
            assert(0 <= i < self.entries@.len() && self.entries@[i].0@ == k);
            assert(keys[i] == k);
        }
        assert forall|k: Seq<char>| #[trigger] keys.contains(k) implies self@.contains_key(
            k,
        ) by {
            let i = choose|i: int| 0 <= i < keys.len() && keys[i] == k;
            assert(self.entries@[i].0@ == k);
        }
        assert(self@.dom() =~= keys.to_set());
        assert(keys.len() == self.entries_seq().len());
    }

    /// An empty table.
    pub fn new() -> (r: Self)
        ensures
            r.inv(),
            r@ == Map::<Seq<char>, V>::empty(),
    {
        let r = Registry { entries: Vec::new() };
        proof {
            assert(r@ =~= Map::<Seq<char>, V>::empty());
        }
        r
    }

    /// How many identities are held.
    pub fn len(&self) -> (n: usize)
        requires
            self.inv(),
        ensures
            n == self@.dom().len(),
            n == self.entries_seq().len(),
    {
        proof {
            self.lemma_entries_view();
        }
        self.entries.len()
    }

    /// The entry at a storage position.
    pub fn entry_at(&self, i: usize) -> (e: (&String, &V))
        requires
            i < self.entries_seq().len(),
        ensures
            e.0@ == self.entries_seq()[i as int].0,
            *e.1 == self.entries_seq()[i as int].1,
    {
        let entry = &self.entries[i];
        (&entry.0, &entry.1)
    }

    /// The value held for an identity, if any.
    pub fn get(&self, id: &String) -> (r: Option<&V>)
        requires
            self.inv(),
        ensures
            match r {
                Some(v) => self@.contains_key(id@) && *v == self@[id@],
                None => !self@.contains_key(id@),
            },
    {
        let n = self.entries.len();
        let mut i: usize = 0;
        while i < n
            invariant
                self.inv(),
                n == self.entries@.len(),
                i <= n,
                forall|j: int| 0 <= j < i ==> self.entries@[j].0@ != id@,
            decreases n - i,
        {
            let entry = &self.entries[i];
            if entry.0 == *id {
                proof {
                    assert(self.contains_id(id@)) by {
                        assert(self.entries@[i as int].0@ == id@);
                    }
                    let w = self.index_of(id@);
                    assert(0 <= w < self.entries@.len() && self.entries@[w].0@ == id@);
                    assert(w == i) by {
                        if w < i {
                            assert(self.entries@[w].0@ != self.entries@[i as int].0@);
                        } else if i < w {
                            assert(self.entries@[i as int].0@ != self.entries@[w].0@);
                        }
                    }
                }
                return Some(&entry.1);
            }
            i += 1;
        }
        proof {
            assert(!self.contains_id(id@));
        }
        None
    }

    /// Insert a value for an identity not yet held; an identity already
    /// held is reported as a conflict and nothing changes.
    pub fn insert_new(&mut self, id: String, v: V) -> (r: Result<(), ()>)
        requires
            old(self).inv(),
        ensures
            final(self).inv(),
            match r {
                Ok(()) => !old(self)@.contains_key(id@) && final(self)@ == old(self)@.insert(id@, v),
                Err(()) => old(self)@.contains_key(id@) && *final(self) == *old(self),
            },
    {
        if self.get(&id).is_some() {
            return Err(());
        }
        self.entries.push((id, v));
        proof {
            let old_entries = old(self).entries@;
            let key = self.entries@.last().0@;
            assert forall|k: Seq<char>| #[trigger]
                self.contains_id(k) implies old(self).contains_id(k) || k == key by {
                let i = choose|i: int|
                    0 <= i < self.entries@.len() && self.entries@[i].0@ == k;
                if i < old_entries.len() {
                    assert(old(self).entries@[i].0@ == k);
                }
            }
            assert forall|k: Seq<char>| #[trigger]
                old(self).contains_id(k) implies self.contains_id(k) by {
                let i = choose|i: int|
                    0 <= i < old_entries.len() && old_entries[i].0@ == k;
                assert(self.entries@[i].0@ == k);
            }
            assert(self.contains_id(key)) by {
                assert(self.entries@[self.entries@.len() - 1].0@ == key);
            }
            assert forall|k: Seq<char>| self.contains_id(k) && k != key implies self@[k]
                == old(self)@[k] by {
                let i = self.index_of(k);
                assert(0 <= i < self.entries@.len() && self.entries@[i].0@ == k);
                assert(i < old_entries.len());
                let j = old(self).index_of(k);
                assert(old_entries[j].0@ == k);
                assert(self.entries@[j].0@ == k);
                assert(j == i);
            }
            assert(self@[key] == v) by {
                let i = self.index_of(key);
                assert(self.entries@[i].0@ == key);
                assert(i == self.entries@.len() - 1);
            }
            assert(self.inv()) by {
                assert forall|i: int, j: int|
                    0 <= i < j < self.entries@.len() implies self.entries@[i].0@
                    != self.entries@[j].0@ by {
                    if j < old_entries.len() {
                        assert(old(self).inv());
                    } else {
                        assert(self.entries@[j].0@ == key);
                        if self.entries@[i].0@ == key {
                            assert(old(self).contains_id(key)) by {
                                assert(old_entries[i].0@ == key);
                            }
                        }
                    }
                }
            }
            assert(self@ =~= old(self)@.insert(id@, v));
        }
        Ok(())
    }

    /// Remove the value held for an identity and return it.
    pub fn remove(&mut self, id: &String) -> (r: Option<V>)
        requires
            old(self).inv(),
        ensures
            final(self).inv(),
            final(self)@ == old(self)@.remove(id@),
            match r {
                Some(v) => old(self)@.contains_key(id@) && v == old(self)@[id@],
                None => !old(self)@.contains_key(id@),
            },
    {
        let n = self.entries.len();
        let mut i: usize = 0;
        while i < n
            invariant
                old(self).inv(),
                n == self.entries@.len(),
                i <= n,
                forall|j: int| 0 <= j < i ==> self.entries@[j].0@ != id@,
                *self == *old(self),
            decreases n - i,
        {
            let entry = &self.entries[i];
            if entry.0 == *id {
                let removed = self.entries.remove(i);
                proof {
                    self.lemma_remove_view(*old(self), i as int, id@);
                }
                return Some(removed.1);
            }
            i += 1;
        }
        proof {
            assert(!self.contains_id(id@));
            assert(self@ =~= old(self)@.remove(id@));
        }
        None
    }

    /// Hold a value for an identity, replacing any value already held.
    pub fn set(&mut self, id: String, v: V)
        requires
            old(self).inv(),
        ensures
            final(self).inv(),
            final(self)@ == old(self)@.insert(id@, v),
    {
        let _ = self.remove(&id);
        let inserted = self.insert_new(id, v);
        proof {
            assert(inserted is Ok);
            assert(self@ =~= old(self)@.insert(id@, v));
        }
    }

    proof fn lemma_remove_view(&self, prev: Self, at: int, id: Seq<char>)
        requires
            prev.inv(),
            0 <= at < prev.entries@.len(),
            prev.entries@[at].0@ == id,
            self.entries@ == prev.entries@.remove(at),
        ensures
            self.inv(),
            self@ == prev@.remove(id),
    {
        let old_entries = prev.entries@;
        assert(self.inv()) by {
            assert forall|i: int, j: int|
                0 <= i < j < self.entries@.len() implies self.entries@[i].0@
                != self.entries@[j].0@ by {
                let oi = if i < at { i } else { i + 1 };
                let oj = if j < at { j } else { j + 1 };
                assert(self.entries@[i].0@ == old_entries[oi].0@);
                assert(self.entries@[j].0@ == old_entries[oj].0@);
                assert(old_entries[oi].0@ != old_entries[oj].0@);
            }
        }
        assert forall|k: Seq<char>| #[trigger]
            self.contains_id(k) implies prev.contains_id(k) && k != id by {
            let i = choose|i: int| 0 <= i < self.entries@.len() && self.entries@[i].0@ == k;
            let oi = if i < at {
                i
            } else {
                i + 1
            };
            assert(old_entries[oi].0@ == k);
            assert(oi != at);
        }
        assert forall|k: Seq<char>| prev.contains_id(k) && k != id implies #[trigger]
            self.contains_id(k) && self@[k] == prev@[k] by {
            let i = choose|i: int| 0 <= i < old_entries.len() && old_entries[i].0@ == k;
            assert(i != at);
            let ni = if i < at {
                i
            } else {
                i - 1
            };
            assert(self.entries@[ni].0@ == k);
            let w = self.index_of(k);
            assert(0 <= w < self.entries@.len() && self.entries@[w].0@ == k);
            let ow = if w < at {
                w
            } else {
                w + 1
            };
            assert(old_entries[ow].0@ == k);
            let pw = prev.index_of(k);
            assert(old_entries[pw].0@ == k);
            assert(pw == ow);
        }
        assert(self@ =~= prev@.remove(id));
    }
}

} // verus!
