use vstd::prelude::*;

use crate::types::Address;

verus! {

/// Keys that can be compared by their view.
pub trait KeyEq: View + Sized {
    fn key_eq(&self, other: &Self) -> (r: bool)
        ensures
            r == (self@ == other@),
    ;
}

impl KeyEq for u32 {
    fn key_eq(&self, other: &u32) -> (r: bool) {
        *self == *other
    }
}

impl KeyEq for (u32, u32) {
    fn key_eq(&self, other: &(u32, u32)) -> (r: bool) {
        self.0 == other.0 && self.1 == other.1
    }
}

impl KeyEq for (u32, Address) {
    fn key_eq(&self, other: &(u32, Address)) -> (r: bool) {
        self.0 == other.0 && self.1.same(&other.1)
    }
}

/// One table of a contract's storage: entries keyed by `K`, at most one per
/// key (keys being told apart by their view).
#[verifier::reject_recursive_types(K)]
pub struct Table<K: View, T> {
    entries: Vec<(K, T)>,
    contents: Ghost<Map<K::V, T>>,
}

impl<K: View, T> View for Table<K, T> {
    type V = Map<K::V, T>;

    closed spec fn view(&self) -> Map<K::V, T> {
        self.contents@
    }
}

impl<K: KeyEq, T> Table<K, T> {
    /// The table is well formed: its entries hold distinct keys and are
    /// exactly the map that it stands for.
    pub closed spec fn wf(&self) -> bool {
        &&& forall|i: int, j: int|
            0 <= i < j < self.entries@.len() ==> self.entries@[i].0@ != self.entries@[j].0@
        &&& forall|i: int|
            0 <= i < self.entries@.len() ==> {
                &&& self.contents@.contains_key(#[trigger] self.entries@[i].0@)
                &&& self.contents@[self.entries@[i].0@] == self.entries@[i].1
            }
        &&& forall|k: K::V|
            #[trigger] self.contents@.contains_key(k) ==> exists|i: int|
                0 <= i < self.entries@.len() && #[trigger] self.entries@[i].0@ == k
    }

    /// An empty table.
    pub fn new() -> (t: Self)
        ensures
            t.wf(),
            t@ == Map::<K::V, T>::empty(),
    {
        Table { entries: Vec::new(), contents: Ghost(Map::empty()) }
    }

    /// The position of `key` among the entries, if it is there.
    fn find(&self, key: &K) -> (r: Option<usize>)
        requires
            self.wf(),
        ensures
            match r {
                Some(i) => i < self.entries@.len() && self.entries@[i as int].0@ == key@,
                None => !self@.contains_key(key@),
            },
    {
        let mut i: usize = 0;
        while i < self.entries.len()
            invariant
                self.wf(),
                0 <= i <= self.entries@.len(),
                forall|j: int| 0 <= j < i ==> self.entries@[j].0@ != key@,
            decreases self.entries@.len() - i,
        {
            if self.entries[i].0.key_eq(key) {
                return Some(i);
            }
            i = i + 1;
        }
        None
    }

    /// Whether `key` has an entry.
    pub fn contains_key(&self, key: &K) -> (r: bool)
        requires
            self.wf(),
        ensures
            r == self@.contains_key(key@),
    {
        match self.find(key) {
            Some(i) => {
                assert(self@.contains_key(self.entries@[i as int].0@));
                true
            },
            None => false,
        }
    }

    /// The value stored under `key`, if any.
    pub fn get(&self, key: &K) -> (r: Option<&T>)
        requires
            self.wf(),
        ensures
            match r {
                Some(v) => self@.contains_key(key@) && *v == self@[key@],
                None => !self@.contains_key(key@),
            },
    {
        match self.find(key) {
            Some(i) => {
                assert(self@.contains_key(self.entries@[i as int].0@));
                Some(&self.entries[i].1)
            },
            None => None,
        }
    }

    /// Stores `value` under `key`, replacing what was there.
    pub fn insert(&mut self, key: K, value: T)
        requires
            old(self).wf(),
        ensures
            final(self).wf(),
            final(self)@ == old(self)@.insert(key@, value),
    {
        let ghost k = key@;
        let ghost v = value;
        let ghost before = self.entries@;
        match self.find(&key) {
            Some(i) => {
                self.entries.set(i, (key, value));
                self.contents = Ghost(self.contents@.insert(k, v));
                assert forall|c: K::V| #[trigger] self.contents@.contains_key(c) implies exists|j: int|
                    0 <= j < self.entries@.len() && #[trigger] self.entries@[j].0@ == c by {
                    if c == k {
                        assert(self.entries@[i as int].0@ == c);
                    } else {
                        let j = choose|j: int| 0 <= j < before.len() && #[trigger] before[j].0@ == c;
                        assert(self.entries@[j].0@ == c);
                    }
                }
            },
            None => {
                self.entries.push((key, value));
                self.contents = Ghost(self.contents@.insert(k, v));
                assert forall|c: K::V| #[trigger] self.contents@.contains_key(c) implies exists|j: int|
                    0 <= j < self.entries@.len() && #[trigger] self.entries@[j].0@ == c by {
                    if c == k {
                        assert(self.entries@[before.len() as int].0@ == c);
                    } else {
                        let j = choose|j: int| 0 <= j < before.len() && #[trigger] before[j].0@ == c;
                        assert(self.entries@[j].0@ == c);
                    }
                }
            },
        }
    }

    /// Removes the entry of `key`, if there is one.
    pub fn remove(&mut self, key: &K)
        requires
            old(self).wf(),
        ensures
            final(self).wf(),
            final(self)@ == old(self)@.remove(key@),
    {
        let ghost before = self.entries@;
        match self.find(key) {
            Some(i) => {
                self.entries.remove(i);
                self.contents = Ghost(self.contents@.remove(key@));
                assert forall|j: int| 0 <= j < self.entries@.len() implies #[trigger] self.entries@[j]
                    == (if j < i { before[j] } else { before[j + 1] }) by {}
                assert forall|a: int, b: int| 0 <= a < b < self.entries@.len() implies self.entries@[a].0@
                    != self.entries@[b].0@ by {
                    let a2 = if a < i { a } else { a + 1 };
                    let b2 = if b < i { b } else { b + 1 };
                    assert(before[a2].0@ != before[b2].0@);
                }
                assert forall|j: int| 0 <= j < self.entries@.len() implies {
                    &&& self.contents@.contains_key(#[trigger] self.entries@[j].0@)
                    &&& self.contents@[self.entries@[j].0@] == self.entries@[j].1
                } by {
                    let j2 = if j < i { j } else { j + 1 };
                    assert(before[j2].0@ != before[i as int].0@);
                }
                assert forall|c: K::V| #[trigger] self.contents@.contains_key(c) implies exists|j: int|
                    0 <= j < self.entries@.len() && #[trigger] self.entries@[j].0@ == c by {
                    let j = choose|j: int| 0 <= j < before.len() && #[trigger] before[j].0@ == c;
                    if j < i {
                        assert(self.entries@[j].0@ == c);
                    } else {
                        assert(self.entries@[j - 1].0@ == c);
                    }
                }
            },
            None => {
                assert(self.contents@.remove(key@) =~= self.contents@);
            },
        }
    }
}

} // verus!
