//! A table of records keyed by address, with unique keys.
use crate::address::Address;
use vstd::prelude::*;

verus! {

/// Records of type `V` keyed by address; its view is the map from key bytes
/// to record.
pub struct Table<V> {
    entries: Vec<(Address, V)>,
    model: Ghost<Map<Seq<u8>, V>>,
}

impl<V: Copy> View for Table<V> {
    type V = Map<Seq<u8>, V>;

    closed spec fn view(&self) -> Map<Seq<u8>, V> {
        self.model@
    }
}

impl<V: Copy> Table<V> {
    /// Every entry is in the map, every key of the map has an entry, and no
    /// two entries share a key.
    pub closed spec fn wf(&self) -> bool {
        &&& forall|i: int|
            0 <= i < self.entries@.len() ==> {
                &&& self.model@.contains_key(#[trigger] self.entries@[i].0.bytes@)
                &&& self.model@[self.entries@[i].0.bytes@] == self.entries@[i].1
            }
        &&& forall|k: Seq<u8>|
            #[trigger] self.model@.contains_key(k) ==> exists|i: int|
                0 <= i < self.entries@.len() && self.entries@[i].0.bytes@ == k
        &&& forall|i: int, j: int|
            0 <= i < self.entries@.len() && 0 <= j < self.entries@.len() && i != j
                ==> self.entries@[i].0.bytes@ != self.entries@[j].0.bytes@
    }

    pub fn new() -> (r: Table<V>)
        ensures
            r.wf(),
            r@ == Map::<Seq<u8>, V>::empty(),
    {
        Table { entries: Vec::new(), model: Ghost(Map::empty()) }
    }

    fn position(&self, key: &Address) -> (r: Option<usize>)
        requires
            self.wf(),
        ensures
            match r {
                Some(i) => i < self.entries@.len() && self.entries@[i as int].0.bytes@ == key.bytes@,
                None => !self@.contains_key(key.bytes@),
            },
    {
        let mut i: usize = 0;
        while i < self.entries.len()
            invariant
                self.wf(),
                0 <= i <= self.entries@.len(),
                forall|j: int| 0 <= j < i ==> self.entries@[j].0.bytes@ != key.bytes@,
            decreases self.entries@.len() - i,
        {
            if self.entries[i].0.same(key) {
                return Some(i);
            }
            i = i + 1;
        }
        None
    }

    /// The record stored under `key`, if any.
    pub fn get(&self, key: &Address) -> (r: Option<V>)
        requires
            self.wf(),
        ensures
            r == (if self@.contains_key(key.bytes@) {
                Some(self@[key.bytes@])
            } else {
                None
            }),
    {
        match self.position(key) {
            Some(i) => {
                assert(self@.contains_key(self.entries@[i as int].0.bytes@));
                Some(self.entries[i].1)
            },
            None => None,
        }
    }

    /// Stores `value` under `key`, replacing what was there.
    pub fn set(&mut self, key: &Address, value: V)
        requires
            old(self).wf(),
        ensures
            final(self).wf(),
            final(self)@ == old(self)@.insert(key.bytes@, value),
    {
        let ghost m = self.model@.insert(key.bytes@, value);
        match self.position(key) {
            Some(i) => {
                self.entries.set(i, (*key, value));
                self.model = Ghost(m);
                assert forall|k: Seq<u8>| #[trigger] self.model@.contains_key(k) implies exists|
                    j: int,
                | 0 <= j < self.entries@.len() && self.entries@[j].0.bytes@ == k by {
                    if k != key.bytes@ {
                        assert(old(self).model@.contains_key(k));
                        let j = choose|j: int|
                            0 <= j < old(self).entries@.len() && old(self).entries@[j].0.bytes@
                                == k;
                        assert(self.entries@[j].0.bytes@ == k);
                    } else {
                        assert(self.entries@[i as int].0.bytes@ == k);
                    }
                }
            },
            None => {
                self.entries.push((*key, value));
                self.model = Ghost(m);
                let ghost n = self.entries@.len() - 1;
                assert forall|k: Seq<u8>| #[trigger] self.model@.contains_key(k) implies exists|
                    j: int,
                | 0 <= j < self.entries@.len() && self.entries@[j].0.bytes@ == k by {
                    if k != key.bytes@ {
                        assert(old(self).model@.contains_key(k));
                        let j = choose|j: int|
                            0 <= j < old(self).entries@.len() && old(self).entries@[j].0.bytes@
                                == k;
                        assert(self.entries@[j].0.bytes@ == k);
                    } else {
                        assert(self.entries@[n].0.bytes@ == k);
                    }
                }
                assert forall|j: int| 0 <= j < n implies self.entries@[j].0.bytes@
                    != key.bytes@ by {
                    assert(old(self).model@.contains_key(old(self).entries@[j].0.bytes@));
                }
            },
        }
    }
}

} // verus!
