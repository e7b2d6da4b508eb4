//! Tables: what the market keeps under a key.

use vstd::prelude::*;

verus! {

/// What a table can be keyed by: a small value that is compared as a whole.
pub trait Key: Sized {
    fn same(&self, other: &Self) -> (same: bool)
        ensures
            same == (*self == *other),
    ;

    fn duplicate(&self) -> (copy: Self)
        ensures
            copy == *self,
    ;
}

impl Key for u64 {
    fn same(&self, other: &Self) -> (same: bool) {
        *self == *other
    }

    fn duplicate(&self) -> (copy: Self) {
        *self
    }
}

impl<A: Key, B: Key> Key for (A, B) {
    fn same(&self, other: &Self) -> (same: bool) {
        self.0.same(&other.0) && self.1.same(&other.1)
    }

    fn duplicate(&self) -> (copy: Self) {
        (self.0.duplicate(), self.1.duplicate())
    }
}

/// What a table can hold: a value that can be written down again.
pub trait Entry: View + Sized {
    fn rewrite(&self) -> (copy: Self)
        ensures
            copy@ == self@,
    ;
}

impl Entry for bool {
    fn rewrite(&self) -> (copy: Self) {
        *self
    }
}

impl Entry for u32 {
    fn rewrite(&self) -> (copy: Self) {
        *self
    }
}

impl Entry for u64 {
    fn rewrite(&self) -> (copy: Self) {
        *self
    }
}

impl Entry for u128 {
    fn rewrite(&self) -> (copy: Self) {
        *self
    }
}

impl Entry for i32 {
    fn rewrite(&self) -> (copy: Self) {
        *self
    }
}

impl Entry for i128 {
    fn rewrite(&self) -> (copy: Self) {
        *self
    }
}

impl Entry for String {
    fn rewrite(&self) -> (copy: Self) {
        self.clone()
    }
}

impl<A: Entry, B: Entry> Entry for (A, B) {
    fn rewrite(&self) -> (copy: Self) {
        (self.0.rewrite(), self.1.rewrite())
    }
}

/// A map kept as a list of entries, no key twice.
pub struct Table<K: Key, V: View> {
    entries: Vec<(K, V)>,
}

impl<K: Key, V: View> View for Table<K, V> {
    type V = Map<K, V::V>;

    closed spec fn view(&self) -> Map<K, V::V> {
        Map::new(
            |k: K| exists|i: int| 0 <= i < self.entries@.len() && #[trigger] self.entries@[i].0 == k,
            |k: K| self.entries@[self.position(k)].1@,
        )
    }
}

impl<K: Key, V: View> Table<K, V> {
    /// Where the entry of a key stands.
    spec fn position(self, k: K) -> int {
        choose|i: int| 0 <= i < self.entries@.len() && #[trigger] self.entries@[i].0 == k
    }

    #[verifier::type_invariant]
    spec fn keys_differ(self) -> bool {
        forall|i: int, j: int|
            0 <= i < j < self.entries@.len() ==> #[trigger] self.entries@[i].0
                != #[trigger] self.entries@[j].0
    }

    /// A table without entries.
    pub fn new() -> (table: Self)
        ensures
            table@ == Map::<K, V::V>::empty(),
    {
        let table = Table { entries: Vec::new() };
        assert(table@ =~= Map::<K, V::V>::empty());
        table
    }

    /// The keys, in the order of the entries.
    pub closed spec fn keys(&self) -> Seq<K> {
        self.entries@.map_values(|entry: (K, V)| entry.0)
    }

    /// How many entries there are: one for each key.
    pub fn len(&self) -> (len: usize)
        ensures
            len == self.keys().len(),
            self.keys().no_duplicates(),
            forall|key: K| #[trigger] self@.contains_key(key) <==> self.keys().contains(key),
    {
        proof {
            use_type_invariant(self);
            let keys = self.keys();
            assert forall|i: int, j: int|
                0 <= i < keys.len() && 0 <= j < keys.len() && i != j implies keys[i] != keys[j] by {
                assert(self.entries@[i].0 == keys[i] && self.entries@[j].0 == keys[j]);
            }
            assert forall|key: K| #[trigger] self@.contains_key(key) implies keys.contains(key) by {
                assert(keys[self.position(key)] == key);
            }
            assert forall|key: K| #[trigger] keys.contains(key) implies self@.contains_key(key) by {
                let i = choose|i: int| 0 <= i < keys.len() && keys[i] == key;
                assert(self.entries@[i].0 == key);
            }
        }
        self.entries.len()
    }

    /// The entry at a place: its key, and what is kept under it.
    pub fn entry(&self, i: usize) -> (entry: (&K, &V))
        requires
            i < self.keys().len(),
        ensures
            *entry.0 == self.keys()[i as int],
            self@.contains_key(*entry.0),
            entry.1@ == self@[*entry.0],
    {
        proof {
            use_type_invariant(self);
            assert(self.entries@[i as int].0 == self.keys()[i as int]);
            assert(self.position(self.keys()[i as int]) == i);
        }
        (&self.entries[i].0, &self.entries[i].1)
    }

    /// Where the entry of `key` stands.
    fn find(&self, key: &K) -> (at: Option<usize>)
        ensures
            at matches Some(i) ==> i < self.entries@.len() && self.entries@[i as int].0 == *key,
            at is None ==> forall|i: int|
                0 <= i < self.entries@.len() ==> #[trigger] self.entries@[i].0 != *key,
    {
        let mut i: usize = 0;
        while i < self.entries.len()
            invariant
                i <= self.entries@.len(),
                forall|j: int| 0 <= j < i ==> #[trigger] self.entries@[j].0 != *key,
            decreases self.entries@.len() - i,
        {
            if self.entries[i].0.same(key) {
                return Some(i);
            }
            i = i + 1;
        }
        None
    }

    /// What is kept under `key`.
    pub fn get(&self, key: &K) -> (value: Option<&V>)
        ensures
            value matches Some(v) ==> self@.contains_key(*key) && v@ == self@[*key],
            value is None ==> !self@.contains_key(*key),
    {
        proof {
            use_type_invariant(self);
        }
        match self.find(key) {
            Some(i) => {
                assert(self.position(*key) == i);
                Some(&self.entries[i].1)
            },
            None => None,
        }
    }

    /// Keeps `value` under `key`, in place of what was there.
    pub fn set(&mut self, key: K, value: V)
        ensures
            final(self)@ == old(self)@.insert(key, value@),
    {
        proof {
            use_type_invariant(&*self);
        }
        let ghost before = *self;
        let at = self.find(&key);
        let mut entries: Vec<(K, V)> = Vec::new();
        std::mem::swap(&mut entries, &mut self.entries);
        match at {
            Some(i) => {
                entries.set(i, (key, value));
            },
            None => {
                entries.push((key, value));
            },
        }
        self.entries = entries;
        assert(self@ =~= before@.insert(key, value@)) by {
            let place = if at is Some {
                at->0 as int
            } else {
                before.entries@.len() as int
            };
            assert(self.entries@[place].0 == key);
            assert forall|k: K| #[trigger] before@.contains_key(k) implies self@.contains_key(k) by {
                let p = before.position(k);
                assert(self.entries@[p].0 == k);
            }
        }
    }

    /// Whether anything is kept under `key`.
    pub fn contains_key(&self, key: &K) -> (found: bool)
        ensures
            found == self@.contains_key(*key),
    {
        self.get(key).is_some()
    }

    /// Drops the entry of `key`, if there is one.
    pub fn remove(&mut self, key: &K)
        ensures
            final(self)@ == old(self)@.remove(*key),
    {
        proof {
            use_type_invariant(&*self);
        }
        let ghost before = *self;
        if let Some(i) = self.find(key) {
            let mut entries: Vec<(K, V)> = Vec::new();
            std::mem::swap(&mut entries, &mut self.entries);
            entries.remove(i);
            self.entries = entries;
            assert(self@ =~= before@.remove(*key)) by {
                assert forall|k: K| #[trigger] self@.contains_key(k) implies k != *key
                    && before@.contains_key(k) && self@[k] == before@[k] by {
                    let p = self.position(k);
                    let q = if p < i { p } else { p + 1 };
                    assert(before.entries@[q] == self.entries@[p]);
                    assert(before.position(k) == q);
                }
                assert forall|k: K| #[trigger] before@.contains_key(k) && k != *key implies
                    self@.contains_key(k) by {
                    let q = before.position(k);
                    let p = if q < i { q } else { q - 1 };
                    assert(self.entries@[p].0 == k);
                }
            }
        } else {
            assert(self@ =~= before@.remove(*key));
        }
    }
}

impl<K: Key, V: Entry> Table<K, V> {
    /// Another table of the same entries.
    pub fn duplicate(&self) -> (copy: Self)
        ensures
            copy@ == self@,
    {
        proof {
            use_type_invariant(self);
        }
        let mut entries: Vec<(K, V)> = Vec::new();
        let mut i: usize = 0;
        while i < self.entries.len()
            invariant
                i <= self.entries@.len(),
                entries@.len() == i,
                forall|j: int|
                    0 <= j < i ==> #[trigger] entries@[j].0 == self.entries@[j].0 && entries@[j].1@
                        == self.entries@[j].1@,
            decreases self.entries@.len() - i,
        {
            entries.push((self.entries[i].0.duplicate(), self.entries[i].1.rewrite()));
            i = i + 1;
        }
        assert forall|i: int, j: int| 0 <= i < j < entries@.len() implies #[trigger] entries@[i].0
            != #[trigger] entries@[j].0 by {
            assert(self.entries@[i].0 != self.entries@[j].0);
        }
        let copy = Table { entries };
        assert(copy@ =~= self@) by {
            assert forall|k: K| #[trigger] copy@.contains_key(k) implies self@.contains_key(k)
                && copy@[k] == self@[k] by {
                let p = copy.position(k);
                assert(self.entries@[p].0 == k);
                assert(self.position(k) == p);
            }
            assert forall|k: K| #[trigger] self@.contains_key(k) implies copy@.contains_key(k) by {
                let p = self.position(k);
                assert(copy.entries@[p].0 == k);
            }
        }
        copy
    }
}

} // verus!
