use vstd::prelude::*;
use crate::types::H256;

verus! {

/// A keyed store of records, addressed by 256-bit content hashes.
pub struct Registry<V> {
    entries: Vec<(H256, V)>,
    contents: Ghost<Map<Seq<u8>, V>>,
}

impl<V> View for Registry<V> {
    type V = Map<Seq<u8>, V>;

    closed spec fn view(&self) -> Map<Seq<u8>, V> {
        self.contents@
    }
}

impl<V: Copy> Registry<V> {
    /// Every entry is in the map under its key, every key of the map has an entry, and
    /// no key occurs twice.
    pub closed spec fn wf(&self) -> bool {
        &&& forall|i: int|
            0 <= i < self.entries@.len() ==> {
                &&& #[trigger] self.contents@.contains_key(self.entries@[i].0.0@)
                &&& self.contents@[self.entries@[i].0.0@] == self.entries@[i].1
            }
        &&& forall|k: Seq<u8>|
            #[trigger] self.contents@.contains_key(k) ==> exists|i: int|
                0 <= i < self.entries@.len() && #[trigger] self.entries@[i].0.0@ == k
        &&& forall|i: int, j: int|
            0 <= i < self.entries@.len() && 0 <= j < self.entries@.len() && i != j
                ==> self.entries@[i].0.0@ != self.entries@[j].0.0@
    }

    /// The stored records, in storage order; one per key.
    pub closed spec fn values(&self) -> Seq<V> {
        self.entries@.map_values(|e: (H256, V)| e.1)
    }

    /// Every stored record occurs in `values`.
    pub proof fn lemma_value_index(&self, k: Seq<u8>) -> (i: int)
        requires
            self.wf(),
            self@.contains_key(k),
        ensures
            0 <= i < self.values().len(),
            self.values()[i] == self@[k],
    {
        let i = choose|i: int| 0 <= i < self.entries@.len() && #[trigger] self.entries@[i].0.0@ == k;
        assert(self.contents@.contains_key(self.entries@[i].0.0@));
        i
    }

    pub fn new() -> (r: Self)
        ensures
            r.wf(),
            r@ == Map::<Seq<u8>, V>::empty(),
            r.values() == Seq::<V>::empty(),
    {
        assert(Seq::<(H256, V)>::empty().map_values(|e: (H256, V)| e.1) =~= Seq::<V>::empty());
        Registry { entries: Vec::new(), contents: Ghost(Map::empty()) }
    }

    fn find(&self, k: &H256) -> (r: Option<usize>)
        requires
            self.wf(),
        ensures
            match r {
                Some(i) => i < self.entries@.len() && self.entries@[i as int].0.0@ == k.0@,
                None => !self@.contains_key(k.0@),
            },
    {
        let mut i: usize = 0;
        while i < self.entries.len()
            invariant
                self.wf(),
                0 <= i <= self.entries@.len(),
                forall|j: int| 0 <= j < i ==> self.entries@[j].0.0@ != k.0@,
            decreases self.entries@.len() - i,
        {
            if self.entries[i].0.same_as(k) {
                return Some(i);
            }
            i = i + 1;
        }
        None
    }

    /// Whether a record is stored under `k`.
    pub fn contains_key(&self, k: &H256) -> (r: bool)
        requires
            self.wf(),
        ensures
            r == self@.contains_key(k.0@),
    {
        match self.find(k) {
            Some(_) => true,
            None => false,
        }
    }

    /// The record stored under `k`, if any.
    pub fn get(&self, k: &H256) -> (r: Option<V>)
        requires
            self.wf(),
        ensures
            r == (if self@.contains_key(k.0@) {
                Some(self@[k.0@])
            } else {
                None
            }),
    {
        match self.find(k) {
            Some(i) => Some(self.entries[i].1),
            None => None,
        }
    }

    /// Stores `v` under `k`, replacing what was there.
    pub fn insert(&mut self, k: H256, v: V)
        requires
            old(self).wf(),
        ensures
            final(self).wf(),
            final(self)@ == old(self)@.insert(k.0@, v),
            old(self)@.contains_key(k.0@) ==> exists|i: int|
                0 <= i < old(self).values().len() && old(self).values()[i] == old(self)@[k.0@]
                    && final(self).values() == old(self).values().update(i, v),
            !old(self)@.contains_key(k.0@) ==> final(self).values() == old(self).values().push(v),
    {
        match self.find(&k) {
            Some(i) => {
                self.entries.set(i, (k, v));
                self.contents = Ghost(self.contents@.insert(k.0@, v));
                assert forall|k2: Seq<u8>| #[trigger]
                    self.contents@.contains_key(k2) implies exists|j: int|
                    0 <= j < self.entries@.len() && #[trigger] self.entries@[j].0.0@ == k2 by {
                    if k2 != k.0@ {
                        let j = choose|j: int|
                            0 <= j < old(self).entries@.len() && #[trigger] old(
                                self,
                            ).entries@[j].0.0@ == k2;
                        assert(self.entries@[j].0.0@ == k2);
                    } else {
                        assert(self.entries@[i as int].0.0@ == k2);
                    }
                }
                assert(self.values() =~= old(self).values().update(i as int, v));
                assert(old(self).entries@[i as int].0.0@ == k.0@);
                assert(old(self).contents@.contains_key(old(self).entries@[i as int].0.0@));
                assert(old(self).values()[i as int] == old(self)@[k.0@]);
            },
            None => {
                self.entries.push((k, v));
                self.contents = Ghost(self.contents@.insert(k.0@, v));
                assert forall|k2: Seq<u8>| #[trigger]
                    self.contents@.contains_key(k2) implies exists|j: int|
                    0 <= j < self.entries@.len() && #[trigger] self.entries@[j].0.0@ == k2 by {
                    if k2 != k.0@ {
                        let j = choose|j: int|
                            0 <= j < old(self).entries@.len() && #[trigger] old(
                                self,
                            ).entries@[j].0.0@ == k2;
                        assert(self.entries@[j].0.0@ == k2);
                    } else {
                        assert(self.entries@[old(self).entries@.len() as int].0.0@ == k2);
                    }
                }
                assert(self.values() =~= old(self).values().push(v));
            },
        }
    }
}

} // verus!
