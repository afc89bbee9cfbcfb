//! A map from digests to values.
use crate::primitives::H256;
use vstd::prelude::*;

verus! {

/// A map keyed by digest, kept as a list of entries in which no digest occurs twice.
pub struct DigestMap<V> {
    entries: Vec<(H256, V)>,
}

impl<V> View for DigestMap<V> {
    type V = Map<H256, V>;

    closed spec fn view(&self) -> Map<H256, V> {
        Map::new(
            |digest: H256| exists|i: int| #[trigger] self.has_at(digest, i),
            |digest: H256| self.entries@[choose|i: int| #[trigger] self.has_at(digest, i)].1,
        )
    }
}

impl<V> DigestMap<V> {
    /// Whether the entry at the given position is the digest's.
    spec fn has_at(&self, digest: H256, i: int) -> bool {
        0 <= i < self.entries@.len() && self.entries@[i].0 == digest
    }

    /// No digest occurs twice.
    pub closed spec fn wf(&self) -> bool {
        forall|i: int, j: int|
            0 <= i < self.entries@.len() && 0 <= j < self.entries@.len() && i != j
                ==> (#[trigger] self.entries@[i]).0 != (#[trigger] self.entries@[j]).0
    }

    /// The value of a digest is the one in its entry.
    proof fn lemma_entry(&self, i: int)
        requires
            self.wf(),
            0 <= i < self.entries@.len(),
        ensures
            self@.contains_key(self.entries@[i].0),
            self@[self.entries@[i].0] == self.entries@[i].1,
    {
        let digest = self.entries@[i].0;
        assert(self.has_at(digest, i));
        let k = choose|k: int| #[trigger] self.has_at(digest, k);
        assert(self.has_at(digest, k));
        assert(k == i);
    }

    /// The empty map.
    pub fn new() -> (map: Self)
        ensures
            map.wf(),
            map@ == Map::<H256, V>::empty(),
    {
        let map = DigestMap { entries: Vec::new() };
        assert(map@ =~= Map::<H256, V>::empty());
        map
    }

    /// The position of the digest's entry.
    fn position(&self, digest: &H256) -> (position: Option<usize>)
        requires
            self.wf(),
        ensures
            match position {
                Some(i) => self.has_at(*digest, i as int),
                None => !self@.contains_key(*digest),
            },
    {
        let mut i: usize = 0;
        while i < self.entries.len()
            invariant
                i <= self.entries@.len(),
                forall|j: int| 0 <= j < i ==> !self.has_at(*digest, j),
            decreases self.entries@.len() - i,
        {
            if self.entries[i].0 == *digest {
                return Some(i);
            }
            i += 1;
        }
        None
    }

    /// The value of the digest, if it has one.
    pub fn get(&self, digest: &H256) -> (value: Option<&V>)
        requires
            self.wf(),
        ensures
            value == if self@.contains_key(*digest) {
                Some(&self@[*digest])
            } else {
                None
            },
    {
        match self.position(digest) {
            Some(i) => {
                proof {
                    self.lemma_entry(i as int);
                }
                Some(&self.entries[i].1)
            },
            None => None,
        }
    }

    /// Whether the digest has a value.
    pub fn contains_key(&self, digest: &H256) -> (present: bool)
        requires
            self.wf(),
        ensures
            present == self@.contains_key(*digest),
    {
        match self.position(digest) {
            Some(i) => {
                proof {
                    self.lemma_entry(i as int);
                }
                true
            },
            None => false,
        }
    }

    /// Gives the digest a value, in place of the one it had.
    pub fn insert(&mut self, digest: H256, value: V)
        requires
            old(self).wf(),
        ensures
            final(self).wf(),
            final(self)@ == old(self)@.insert(digest, value),
    {
        let ghost before = *self;
        match self.position(&digest) {
            Some(i) => {
                self.entries[i] = (digest, value);
            },
            None => {
                self.entries.push((digest, value));
                proof {
                    assert forall|j: int| 0 <= j < before.entries@.len() implies (
                    #[trigger] before.entries@[j]).0 != digest by {
                        before.lemma_entry(j);
                    }
                }
            },
        }
        proof {
            let inserted = before@.insert(digest, value);
            assert forall|other: H256| #[trigger]
                self@.contains_key(other) == inserted.contains_key(other) by {
                if before@.contains_key(other) {
                    let j = choose|j: int| #[trigger] before.has_at(other, j);
                    assert(self.has_at(other, j));
                } else if other == digest {
                    assert(self.has_at(digest, self.entries@.len() - 1));
                } else if self@.contains_key(other) {
                    let j = choose|j: int| #[trigger] self.has_at(other, j);
                    assert(before.has_at(other, j));
                }
            }
            assert forall|other: H256| #[trigger] self@.contains_key(other) implies self@[other]
                == inserted[other] by {
                let j = choose|j: int| #[trigger] self.has_at(other, j);
                self.lemma_entry(j);
                if other != digest {
                    before.lemma_entry(j);
                }
            }
            assert(self@ =~= inserted);
        }
    }
}

impl DigestMap<bool> {
    /// Whether every value is `true`.
    pub fn all(&self) -> (all: bool)
        requires
            self.wf(),
        ensures
            all == forall|digest: H256| #[trigger]
                self@.contains_key(digest) ==> self@[digest],
    {
        let mut i: usize = 0;
        while i < self.entries.len()
            invariant
                self.wf(),
                i <= self.entries@.len(),
                forall|j: int| 0 <= j < i ==> (#[trigger] self.entries@[j]).1,
            decreases self.entries@.len() - i,
        {
            if !self.entries[i].1 {
                proof {
                    self.lemma_entry(i as int);
                }
                return false;
            }
            i += 1;
        }
        proof {
            assert forall|digest: H256| #[trigger] self@.contains_key(digest) implies self@[digest] by {
                let j = choose|j: int| #[trigger] self.has_at(digest, j);
                self.lemma_entry(j);
            }
        }
        true
    }
}

} // verus!
