//! A map from text to values that keeps its keys in order.

use crate::text::{
    before, lemma_before_irreflexive, lemma_before_total, lemma_before_transitive, precedes,
    same_text,
};
use vstd::prelude::*;

verus! {

/// A map with text keys. Its entries stand in the order of their keys, and no key occurs twice.
pub struct StringMap<V> {
    entries: Vec<(String, V)>,
}

/// No key of `keys` stands before its predecessor or is equal to it.
pub open spec fn strictly_ordered(keys: Seq<Seq<char>>) -> bool {
    forall|i: int, j: int| 0 <= i < j < keys.len() ==> before(#[trigger] keys[i], #[trigger] keys[j])
}

impl<V> StringMap<V> {
    /// The keys, in their order.
    pub closed spec fn keys(&self) -> Seq<Seq<char>> {
        self.entries@.map_values(|entry: (String, V)| entry.0@)
    }

    /// The values, in the order of their keys.
    pub closed spec fn values(&self) -> Seq<V> {
        self.entries@.map_values(|entry: (String, V)| entry.1)
    }

    /// The keys are in order.
    pub open spec fn wf(&self) -> bool {
        &&& strictly_ordered(self.keys())
        &&& self.keys().len() == self.values().len()
    }
}

impl<V> View for StringMap<V> {
    type V = Map<Seq<char>, V>;

    open spec fn view(&self) -> Map<Seq<char>, V> {
        Map::new(
            |key: Seq<char>| self.keys().contains(key),
            |key: Seq<char>| self.values()[self.keys().index_of(key)],
        )
    }
}

/// In an ordered sequence of keys each key has one place.
proof fn lemma_one_place(keys: Seq<Seq<char>>, i: int)
    requires
        strictly_ordered(keys),
        0 <= i < keys.len(),
    ensures
        keys.contains(keys[i]),
        keys.index_of(keys[i]) == i,
{
    let j = keys.index_of(keys[i]);
    assert(keys.contains(keys[i]));
    assert(0 <= j < keys.len() && keys[j] == keys[i]);
    lemma_before_irreflexive(keys[i]);
}

/// What is left of an ordered sequence of keys when the key at place `i` leaves.
proof fn lemma_removed(keys: Seq<Seq<char>>, i: int)
    requires
        strictly_ordered(keys),
        0 <= i < keys.len(),
    ensures
        strictly_ordered(keys.remove(i)),
        forall|k: Seq<char>|
            #![trigger keys.remove(i).contains(k)]
            keys.remove(i).contains(k) == (keys.contains(k) && k != keys[i]),
        forall|k: Seq<char>|
            #![trigger keys.remove(i).index_of(k)]
            keys.contains(k) && k != keys[i] ==> keys.remove(i).index_of(k) == (if keys.index_of(k) < i {
                keys.index_of(k)
            } else {
                keys.index_of(k) - 1
            }),
{
    let left = keys.remove(i);
    assert forall|a: int, b: int| 0 <= a < b < left.len() implies before(
        #[trigger] left[a],
        #[trigger] left[b],
    ) by {
        assert(left[a] == keys[if a < i { a } else { a + 1 }]);
        assert(left[b] == keys[if b < i { b } else { b + 1 }]);
    }
    assert forall|k: Seq<char>| #[trigger] left.contains(k) == (keys.contains(k) && k != keys[i]) by {
        if keys.contains(k) && k != keys[i] {
            let j = keys.index_of(k);
            assert(keys[j] == k);
            assert(left[if j < i { j } else { j - 1 }] == k);
        }
        if left.contains(k) {
            let j = left.index_of(k);
            let m = if j < i { j } else { j + 1 };
            assert(left[j] == k);
            assert(keys[m] == k);
            lemma_one_place(keys, m);
            lemma_one_place(keys, i);
        }
    }
    assert forall|k: Seq<char>| keys.contains(k) && k != keys[i] implies #[trigger] left.index_of(k) == (if keys.index_of(k) < i {
        keys.index_of(k)
    } else {
        keys.index_of(k) - 1
    }) by {
        let j = keys.index_of(k);
        assert(keys[j] == k);
        let m = if j < i { j } else { j - 1 };
        assert(left[m] == k);
        lemma_one_place(left, m);
    }
}

/// An ordered sequence is fixed by the set of its members.
pub proof fn ordered_keys_are_unique(a: Seq<Seq<char>>, b: Seq<Seq<char>>)
    requires
        strictly_ordered(a),
        strictly_ordered(b),
        forall|key: Seq<char>| a.contains(key) == b.contains(key),
    ensures
        a == b,
    decreases a.len(),
{
    if a.len() == 0 {
        if b.len() > 0 {
            assert(b.contains(b[0]));
        }
        assert(a =~= b);
    } else if b.len() == 0 {
        assert(a.contains(a[0]));
    } else {
        let x = a.last();
        let y = b.last();
        assert(a.contains(x));
        assert(b.contains(y));
        let i = b.index_of(x);
        let j = a.index_of(y);
        if x != y {
            assert(before(b[i], b[b.len() - 1]));
            assert(before(a[j], a[a.len() - 1]));
            lemma_before_transitive(x, y, x);
            lemma_before_irreflexive(x);
        }
        let p = a.drop_last();
        let q = b.drop_last();
        assert forall|key: Seq<char>| p.contains(key) == q.contains(key) by {
            if p.contains(key) {
                let k = p.index_of(key);
                assert(a[k] == key);
                assert(a.contains(key));
                assert(before(a[k], a[a.len() - 1]));
                lemma_before_irreflexive(x);
                let m = b.index_of(key);
                assert(b[m] == key);
                assert(q[m] == key);
            }
            if q.contains(key) {
                let k = q.index_of(key);
                assert(b[k] == key);
                assert(b.contains(key));
                assert(before(b[k], b[b.len() - 1]));
                lemma_before_irreflexive(x);
                let m = a.index_of(key);
                assert(a[m] == key);
                assert(p[m] == key);
            }
        }
        ordered_keys_are_unique(p, q);
        assert(a =~= p.push(x));
        assert(b =~= q.push(y));
    }
}

impl<V> StringMap<V> {
    /// The empty map.
    pub fn new() -> (map: Self)
        ensures
            map.wf(),
            map@ == Map::<Seq<char>, V>::empty(),
    {
        let map = StringMap { entries: Vec::new() };
        assert(map@ =~= Map::<Seq<char>, V>::empty());
        map
    }

    /// The number of entries.
    pub fn len(&self) -> (n: usize)
        requires
            self.wf(),
        ensures
            n == self.keys().len(),
            n == self@.dom().len(),
    {
        proof {
            self.lemma_len();
        }
        self.entries.len()
    }

    proof fn lemma_len(&self)
        requires
            self.wf(),
        ensures
            self@.dom().finite(),
            self@.dom().len() == self.keys().len(),
    {
        let keys = self.keys();
        assert(keys.no_duplicates()) by {
            assert forall|i: int, j: int|
                0 <= i < keys.len() && 0 <= j < keys.len() && i != j implies keys[i] != keys[j] by {
                lemma_one_place(keys, i);
                lemma_one_place(keys, j);
            }
        }
        keys.unique_seq_to_set();
        assert(self@.dom() =~= keys.to_set());
    }

    /// Whether there is no entry.
    pub fn is_empty(&self) -> (empty: bool)
        ensures
            empty == (self@ == Map::<Seq<char>, V>::empty()),
    {
        if self.entries.len() == 0 {
            assert(self@ =~= Map::<Seq<char>, V>::empty());
            true
        } else {
            assert(self.keys().contains(self.keys()[0]));
            assert(self@.dom().contains(self.keys()[0]));
            false
        }
    }

    /// The key at place `i` in the order of the keys.
    pub fn key_at(&self, i: usize) -> (key: &str)
        requires
            i < self.keys().len(),
        ensures
            key@ == self.keys()[i as int],
    {
        self.entries[i].0.as_str()
    }

    /// The value at place `i` in the order of the keys.
    pub fn value_at(&self, i: usize) -> (value: &V)
        requires
            i < self.keys().len(),
            self.wf(),
        ensures
            *value == self.values()[i as int],
            *value == self@[self.keys()[i as int]],
    {
        proof {
            lemma_one_place(self.keys(), i as int);
        }
        &self.entries[i].1
    }

    /// The place of `key`, or of the first key that stands behind it.
    fn place_of(&self, key: &str) -> (place: usize)
        requires
            self.wf(),
        ensures
            place <= self.keys().len(),
            forall|i: int| 0 <= i < place ==> before(#[trigger] self.keys()[i], key@),
            forall|i: int| place <= i < self.keys().len() ==> !before(#[trigger] self.keys()[i], key@),
    {
        let mut place: usize = 0;
        while place < self.entries.len() && precedes(&self.entries[place].0, key)
            invariant
                place <= self.entries@.len(),
                forall|i: int| 0 <= i < place ==> before(#[trigger] self.keys()[i], key@),
            decreases self.entries@.len() - place,
        {
            place = place + 1;
        }
        proof {
            assert forall|i: int| place <= i < self.keys().len() implies !before(
                #[trigger] self.keys()[i],
                key@,
            ) by {
                if before(self.keys()[i], key@) && i > place {
                    lemma_before_transitive(self.keys()[place as int], self.keys()[i], key@);
                }
            }
        }
        place
    }

    /// The place of `key` where it is there.
    fn find(&self, key: &str) -> (place: Option<usize>)
        requires
            self.wf(),
        ensures
            match place {
                Some(i) => i < self.keys().len() && self.keys()[i as int] == key@
                    && self.keys().contains(key@) && self.keys().index_of(key@) == i,
                None => !self.keys().contains(key@),
            },
    {
        let i = self.place_of(key);
        if i < self.entries.len() && same_text(&self.entries[i].0, key) {
            proof {
                lemma_one_place(self.keys(), i as int);
            }
            Some(i)
        } else {
            proof {
                if self.keys().contains(key@) {
                    let j = self.keys().index_of(key@);
                    lemma_before_irreflexive(key@);
                    assert(self.keys()[j] == key@);
                    assert(j >= i);
                    if j > i {
                        assert(before(self.keys()[i as int], self.keys()[j]));
                    }
                    assert(j == i);
                    assert(self.entries@[i as int].0@ == self.keys()[i as int]);
                }
            }
            None
        }
    }

    /// The value under `key`.
    pub fn get(&self, key: &str) -> (value: Option<&V>)
        requires
            self.wf(),
        ensures
            match value {
                Some(v) => self@.dom().contains(key@) && *v == self@[key@],
                None => !self@.dom().contains(key@),
            },
    {
        match self.find(key) {
            Some(i) => Some(&self.entries[i].1),
            None => None,
        }
    }

    /// Puts `value` under `key`, in place of the value that was there.
    pub fn insert(&mut self, key: String, value: V)
        requires
            old(self).wf(),
        ensures
            final(self).wf(),
            final(self)@ == old(self)@.insert(key@, value),
    {
        let ghost name = key@;
        let ghost keys = self.keys();
        let ghost values = self.values();
        let ghost map = self@;
        match self.find(&key) {
            Some(i) => {
                self.entries.remove(i);
                self.entries.insert(i, (key, value));
                proof {
                    assert(self.keys() =~= keys);
                    assert(self.values() =~= values.update(i as int, value));
                    assert forall|k: Seq<char>| keys.contains(k) && k != name implies keys.index_of(k) != i by {
                        assert(keys[keys.index_of(k)] == k);
                    }
                    assert(self@ =~= map.insert(name, value));
                }
            },
            None => {
                let i = self.place_of(&key);
                proof {
                    assert forall|j: int| i <= j < keys.len() implies before(name, #[trigger] keys[j]) by {
                        assert(keys.contains(keys[j]));
                        lemma_before_total(keys[j], name);
                    }
                }
                self.entries.insert(i, (key, value));
                proof {
                    assert(self.keys() =~= keys.insert(i as int, name));
                    assert(self.values() =~= values.insert(i as int, value));
                    let grown = self.keys();
                    assert forall|a: int, b: int| 0 <= a < b < grown.len() implies before(
                        #[trigger] grown[a],
                        #[trigger] grown[b],
                    ) by {
                        let x = if a < i { a } else { a - 1 };
                        let y = if b < i { b } else { b - 1 };
                        if a != i {
                            assert(grown[a] == keys[x]);
                        }
                        if b != i {
                            assert(grown[b] == keys[y]);
                        }
                    }
                    assert(self.wf());
                    assert forall|k: Seq<char>| self@.dom().contains(k) == (map.dom().contains(k) || k == name) by {
                        if map.dom().contains(k) {
                            let j = keys.index_of(k);
                            assert(keys[j] == k);
                            assert(grown[if j < i { j } else { j + 1 }] == k);
                        }
                        if k == name {
                            assert(grown[i as int] == k);
                        }
                        if self@.dom().contains(k) && k != name {
                            let j = grown.index_of(k);
                            assert(grown[j] == k);
                            assert(keys[if j < i { j } else { j - 1 }] == k);
                        }
                    }
                    assert forall|k: Seq<char>| map.dom().contains(k) implies self@[k] == map[k] by {
                        let j = keys.index_of(k);
                        assert(keys[j] == k);
                        let m = if j < i { j } else { j + 1 };
                        assert(grown[m] == k);
                        lemma_one_place(grown, m);
                        lemma_one_place(keys, j);
                    }
                    lemma_one_place(grown, i as int);
                    assert(self@ =~= map.insert(name, value));
                }
            },
        }
    }

    /// Takes the entry under `key` out of the map.
    pub fn remove(&mut self, key: &str) -> (value: Option<V>)
        requires
            old(self).wf(),
        ensures
            final(self).wf(),
            final(self)@ == old(self)@.remove(key@),
            match value {
                Some(v) => old(self)@.dom().contains(key@) && v == old(self)@[key@],
                None => !old(self)@.dom().contains(key@),
            },
    {
        let ghost keys = self.keys();
        let ghost values = self.values();
        let ghost map = self@;
        match self.find(key) {
            Some(i) => {
                let entry = self.entries.remove(i);
                proof {
                    assert(self.keys() =~= keys.remove(i as int));
                    assert(self.values() =~= values.remove(i as int));
                    lemma_removed(keys, i as int);
                    assert forall|k: Seq<char>| #[trigger] map.remove(key@).dom().contains(k) implies self@[k]
                        == map[k] by {
                        let j = keys.index_of(k);
                        assert(keys[j] == k);
                        assert(j != i);
                    }
                    assert(self@ =~= map.remove(key@));
                }
                Some(entry.1)
            },
            None => {
                assert(map =~= map.remove(key@));
                None
            },
        }
    }
}

impl<V: Copy> StringMap<V> {
    /// A second map with the same entries.
    pub fn copied(&self) -> (map: Self)
        requires
            self.wf(),
        ensures
            map.wf(),
            map@ == self@,
    {
        let mut entries: Vec<(String, V)> = Vec::new();
        let mut i: usize = 0;
        while i < self.entries.len()
            invariant
                i <= self.entries@.len(),
                entries@.len() == i,
                forall|j: int| 0 <= j < i ==> #[trigger] entries@[j] == self.entries@[j],
            decreases self.entries@.len() - i,
        {
            let key = self.entries[i].0.clone();
            let value = self.entries[i].1;
            entries.push((key, value));
            i = i + 1;
        }
        assert(entries@ =~= self.entries@);
        StringMap { entries }
    }
}

// ---- laws ----

/// Keys are in order exactly where each stands before all that follow it, so that none occurs twice.
pub proof fn ordered_keys_stand_one_before_the_other(keys: Seq<Seq<char>>)
    ensures
        strictly_ordered(keys) <==> forall|i: int, j: int|
            0 <= i < j < keys.len() ==> before(#[trigger] keys[i], #[trigger] keys[j]),
        strictly_ordered(keys) ==> keys.no_duplicates(),
{
    if strictly_ordered(keys) {
        assert forall|i: int, j: int|
            0 <= i < keys.len() && 0 <= j < keys.len() && i != j implies keys[i] != keys[j] by {
            lemma_one_place(keys, i);
            lemma_one_place(keys, j);
        }
    }
}

} // verus!
