//! A map from text keys to values, kept in key order: the model of the
//! ordered maps that the configuration is made of.

use vstd::prelude::*;
use crate::text::{text_less, text_is_less, lemma_text_less_irreflexive, lemma_text_less_transitive,
    lemma_text_less_total};
use crate::enums::str_equals;

verus! {

/// Values that can be copied with their view preserved.
pub trait DeepCopy: View + Sized {
    fn deep_copy(&self) -> (r: Self)
        ensures
            r@ == self@;
}

impl DeepCopy for String {
    fn deep_copy(&self) -> (r: String) {
        self.clone()
    }
}

/// Keys in strictly increasing order.
pub open spec fn sorted_keys(ks: Seq<Seq<char>>) -> bool {
    forall|i: int, j: int| 0 <= i < j < ks.len() ==> text_less(#[trigger] ks[i], #[trigger] ks[j])
}

/// Entries with text keys, kept sorted by key with no key twice.
#[derive(Debug)]
pub struct KeyedList<V: View> {
    entries: Vec<(String, V)>,
}

impl<V: View> View for KeyedList<V> {
    type V = Map<Seq<char>, V::V>;

    open spec fn view(&self) -> Map<Seq<char>, V::V> {
        Map::new(
            |k: Seq<char>| self.keys().contains(k),
            |k: Seq<char>| self.vals()[self.keys().index_of(k)],
        )
    }
}

pub proof fn lemma_sorted_unique(ks: Seq<Seq<char>>, i: int, j: int)
    requires
        sorted_keys(ks),
        0 <= i < ks.len(),
        0 <= j < ks.len(),
        ks[i] == ks[j],
    ensures
        i == j,
{
    if i < j {
        assert(text_less(ks[i], ks[j]));
        lemma_text_less_irreflexive(ks[i]);
    } else if j < i {
        assert(text_less(ks[j], ks[i]));
        lemma_text_less_irreflexive(ks[i]);
    }
}

/// Sorted keys hold no key twice.
pub proof fn lemma_sorted_no_duplicates(ks: Seq<Seq<char>>)
    requires
        sorted_keys(ks),
    ensures
        ks.no_duplicates(),
{
    assert forall|i: int, j: int| 0 <= i < ks.len() && 0 <= j < ks.len() && i != j implies ks[i] != ks[j] by {
        if ks[i] == ks[j] {
            lemma_sorted_unique(ks, i, j);
        }
    }
}

pub proof fn lemma_sorted_index_of(ks: Seq<Seq<char>>, i: int)
    requires
        sorted_keys(ks),
        0 <= i < ks.len(),
    ensures
        ks.index_of(ks[i]) == i,
{
    assert(ks.contains(ks[i]));
    let j = ks.index_of(ks[i]);
    lemma_sorted_unique(ks, i, j);
}

/// Keys of raw entries.
pub open spec fn keys_of<V>(e: Seq<(String, V)>) -> Seq<Seq<char>> {
    e.map_values(|x: (String, V)| x.0@)
}

impl<V: View> KeyedList<V> {
    /// Keys in order.
    pub closed spec fn keys(self) -> Seq<Seq<char>> {
        keys_of(self.entries@)
    }

    /// Views of the values, in key order.
    pub closed spec fn vals(self) -> Seq<V::V> {
        self.entries@.map_values(|e: (String, V)| e.1@)
    }

    #[verifier::type_invariant]
    closed spec fn keys_sorted(self) -> bool {
        sorted_keys(self.keys())
    }

    /// What callers may rely on: keys sorted, one value per key, and the
    /// view made of exactly these entries.
    pub open spec fn consistent(self) -> bool {
        &&& sorted_keys(self.keys())
        &&& self.vals().len() == self.keys().len()
        &&& forall|i: int| 0 <= i < self.keys().len() ==> #[trigger] self@[self.keys()[i]] == self.vals()[i]
        &&& forall|k: Seq<char>| #[trigger] self@.contains_key(k) <==> self.keys().contains(k)
    }

    proof fn lemma_consistent(self)
        requires
            sorted_keys(self.keys()),
        ensures
            self.consistent(),
    {
        assert forall|i: int| 0 <= i < self.keys().len() implies #[trigger] self@[self.keys()[i]] == self.vals()[i] by {
            lemma_sorted_index_of(self.keys(), i);
        }
    }

    /// The view has one key per entry.
    pub proof fn lemma_view_len(self)
        requires
            self.consistent(),
        ensures
            self@.dom().len() == self.keys().len(),
            self@.dom().finite(),
    {
        let keys = self.keys();
        assert(self@.dom() =~= keys.to_set());
        lemma_sorted_no_duplicates(keys);
        keys.unique_seq_to_set();
    }

    /// The empty list.
    pub fn new() -> (r: KeyedList<V>)
        ensures
            r@ == Map::<Seq<char>, V::V>::empty(),
            r.keys().len() == 0,
    {
        let r = KeyedList { entries: Vec::new() };
        assert(r@ =~= Map::<Seq<char>, V::V>::empty());
        r
    }

    /// Number of entries; also gives the facts that tie keys, values and view.
    pub fn len(&self) -> (n: usize)
        ensures
            n == self.keys().len(),
            self.consistent(),
    {
        proof {
            use_type_invariant(self);
            self.lemma_consistent();
        }
        self.entries.len()
    }

    /// Key of the `i`-th entry in key order.
    pub fn key_at(&self, i: usize) -> (k: &String)
        requires
            i < self.keys().len(),
        ensures
            k@ == self.keys()[i as int],
    {
        &self.entries[i].0
    }

    /// Value of the `i`-th entry in key order.
    pub fn value_at(&self, i: usize) -> (v: &V)
        requires
            i < self.keys().len(),
        ensures
            v@ == self.vals()[i as int],
    {
        &self.entries[i].1
    }

    /// Position of `key`, if present.
    fn find(&self, key: &str) -> (r: Option<usize>)
        ensures
            r matches Some(i) ==> i < self.keys().len() && self.keys()[i as int] == key@,
            r is None ==> !self.keys().contains(key@),
    {
        let mut i: usize = 0;
        while i < self.entries.len()
            invariant
                i <= self.entries.len(),
                forall|j: int| 0 <= j < i ==> self.keys()[j] != key@,
            decreases self.entries.len() - i,
        {
            if str_equals(self.entries[i].0.as_str(), key) {
                return Some(i);
            }
            i = i + 1;
        }
        None
    }

    /// Whether `key` has a value.
    pub fn contains_key(&self, key: &str) -> (r: bool)
        ensures
            r == self@.contains_key(key@),
    {
        self.find(key).is_some()
    }

    /// The value of `key`, if any.
    pub fn get(&self, key: &str) -> (r: Option<&V>)
        ensures
            r is Some == self@.contains_key(key@),
            r matches Some(v) ==> v@ == self@[key@],
    {
        proof {
            use_type_invariant(self);
            self.lemma_consistent();
        }
        match self.find(key) {
            Some(i) => Some(&self.entries[i].1),
            None => None,
        }
    }

    /// Sets the value of `key`, replacing any value it had.
    pub fn insert(&mut self, key: String, value: V)
        ensures
            final(self)@ == old(self)@.insert(key@, value@),
    {
        proof {
            use_type_invariant(&*self);
            self.lemma_consistent();
        }
        let ghost old_keys = self.keys();
        let ghost old_view = self@;
        let mut i: usize = 0;
        while i < self.entries.len() && text_is_less(self.entries[i].0.as_str(), key.as_str())
            invariant
                i <= self.entries.len(),
                self.keys() == old_keys,
                sorted_keys(old_keys),
                forall|j: int| 0 <= j < i ==> text_less(#[trigger] old_keys[j], key@),
            decreases self.entries.len() - i,
        {
            i = i + 1;
        }
        if i < self.entries.len() && str_equals(self.entries[i].0.as_str(), key.as_str()) {
            let mut entries: Vec<(String, V)> = Vec::new();
            std::mem::swap(&mut entries, &mut self.entries);
            let ghost key_view = key@;
            entries.set(i, (key, value));
            assert(keys_of(entries@) =~= old_keys);
            self.entries = entries;
            proof {
                assert(self.keys() =~= old_keys);
                assert(old_keys[i as int] == key_view);
                assert(old_keys.contains(key_view));
                self.lemma_consistent();
                assert forall|k: Seq<char>| #![auto] self@.contains_key(k) == old_view.insert(key@, value@).contains_key(k) by {}
                assert forall|k: Seq<char>| #[trigger] self@.contains_key(k) implies self@[k] == old_view.insert(key@, value@)[k] by {
                    let j = self.keys().index_of(k);
                    lemma_sorted_index_of(self.keys(), j);
                    if k == key@ {
                        lemma_sorted_unique(self.keys(), j, i as int);
                    } else {
                        lemma_sorted_index_of(old_keys, j);
                    }
                }
                assert(self@ =~= old_view.insert(key@, value@));
            }
        } else {
            proof {
                if i < old_keys.len() {
                    lemma_text_less_total(old_keys[i as int], key@);
                }
            }
            let mut entries: Vec<(String, V)> = Vec::new();
            std::mem::swap(&mut entries, &mut self.entries);
            let ghost key_view = key@;
            let ghost value_view = value@;
            entries.insert(i, (key, value));
            proof {
                let ks = keys_of(entries@);
                assert(ks =~= old_keys.insert(i as int, key_view));
                assert forall|a: int, b: int| 0 <= a < b < ks.len() implies text_less(#[trigger] ks[a], #[trigger] ks[b]) by {
                    if b < i {
                    } else if a < i && b == i {
                    } else if a < i && b > i {
                        lemma_text_less_transitive(ks[a], key@, old_keys[i as int]);
                        if b - 1 > i {
                            lemma_text_less_transitive(ks[a], old_keys[i as int], old_keys[b - 1]);
                        }
                    } else if a == i {
                        if b - 1 > i {
                            lemma_text_less_transitive(key@, old_keys[i as int], old_keys[b - 1]);
                        }
                    } else {
                    }
                }
            }
            self.entries = entries;
            proof {
                let ks = self.keys();
                self.lemma_consistent();
                assert forall|k: Seq<char>| #![auto] self@.contains_key(k) == old_view.insert(key@, value@).contains_key(k) by {
                    if old_keys.contains(k) {
                        let j = old_keys.index_of(k);
                        if j < i {
                            assert(ks[j] == k);
                        } else {
                            assert(ks[j + 1] == k);
                        }
                    }
                    if ks.contains(k) && k != key@ {
                        let j = ks.index_of(k);
                        if j < i {
                            assert(old_keys[j] == k);
                        } else {
                            assert(old_keys[j - 1] == k);
                        }
                    }
                    if k == key@ {
                        assert(ks[i as int] == k);
                    }
                }
                assert forall|k: Seq<char>| #[trigger] self@.contains_key(k) implies self@[k] == old_view.insert(key@, value@)[k] by {
                    let j = ks.index_of(k);
                    lemma_sorted_index_of(ks, j);
                    if k == key@ {
                        lemma_sorted_unique(ks, j, i as int);
                    } else if j < i {
                        lemma_sorted_index_of(old_keys, j);
                    } else {
                        lemma_sorted_index_of(old_keys, j - 1);
                    }
                }
                assert(self@ =~= old_view.insert(key@, value@));
            }
        }
    }

    /// Removes `key` and its value; returns the value it had.
    pub fn remove(&mut self, key: &str) -> (r: Option<V>)
        ensures
            final(self)@ == old(self)@.remove(key@),
            r is Some == old(self)@.contains_key(key@),
            r matches Some(v) ==> v@ == old(self)@[key@],
    {
        proof {
            use_type_invariant(&*self);
            self.lemma_consistent();
        }
        let ghost old_keys = self.keys();
        let ghost old_view = self@;
        match self.find(key) {
            None => {
                assert(self@ =~= old_view.remove(key@));
                None
            },
            Some(i) => {
                let mut entries: Vec<(String, V)> = Vec::new();
                std::mem::swap(&mut entries, &mut self.entries);
                let e = entries.remove(i);
                proof {
                    let ks = keys_of(entries@);
                    assert(ks =~= old_keys.remove(i as int));
                    assert forall|a: int, b: int| 0 <= a < b < ks.len() implies text_less(#[trigger] ks[a], #[trigger] ks[b]) by {
                        if a >= i {
                            assert(ks[a] == old_keys[a + 1]);
                        }
                        if b >= i {
                            assert(ks[b] == old_keys[b + 1]);
                        }
                    }
                }
                self.entries = entries;
                proof {
                    let ks = self.keys();
                    self.lemma_consistent();
                    assert forall|k: Seq<char>| #![auto] self@.contains_key(k) == old_view.remove(key@).contains_key(k) by {
                        if old_keys.contains(k) && k != key@ {
                            let j = old_keys.index_of(k);
                            if j < i {
                                assert(ks[j] == k);
                            } else {
                                assert(j != i);
                                assert(ks[j - 1] == k);
                            }
                        }
                        if ks.contains(k) {
                            let j = ks.index_of(k);
                            if j < i {
                                assert(old_keys[j] == k);
                                if k == key@ {
                                    lemma_sorted_unique(old_keys, j, i as int);
                                }
                            } else {
                                assert(old_keys[j + 1] == k);
                                if k == key@ {
                                    lemma_sorted_unique(old_keys, j + 1, i as int);
                                }
                            }
                        }
                    }
                    assert forall|k: Seq<char>| #[trigger] self@.contains_key(k) implies self@[k] == old_view.remove(key@)[k] by {
                        let j = ks.index_of(k);
                        lemma_sorted_index_of(ks, j);
                        if j < i {
                            lemma_sorted_index_of(old_keys, j);
                        } else {
                            lemma_sorted_index_of(old_keys, j + 1);
                        }
                    }
                    assert(self@ =~= old_view.remove(key@));
                    lemma_sorted_index_of(old_keys, i as int);
                }
                Some(e.1)
            },
        }
    }
}

impl<V: View> KeyedList<V> {
    /// The keys, in order.
    pub fn key_list(&self) -> (r: Vec<String>)
        ensures
            views_of(r@) == self.keys(),
    {
        let mut r: Vec<String> = Vec::new();
        let mut i: usize = 0;
        while i < self.entries.len()
            invariant
                i <= self.entries.len(),
                views_of(r@) == self.keys().take(i as int),
            decreases self.entries.len() - i,
        {
            let ghost before = views_of(r@);
            r.push(self.entries[i].0.clone());
            assert(views_of(r@) =~= before.push(self.keys()[i as int]));
            assert(self.keys().take(i + 1) =~= self.keys().take(i as int).push(self.keys()[i as int]));
            i = i + 1;
        }
        assert(self.keys().take(self.entries.len() as int) =~= self.keys());
        r
    }
}

impl<V: DeepCopy> KeyedList<V> {
    /// A copy with the same entries.
    pub fn deep_copy_list(&self) -> (r: KeyedList<V>)
        ensures
            r@ == self@,
            r.keys() == self.keys(),
            r.vals() == self.vals(),
    {
        proof {
            use_type_invariant(self);
        }
        let mut entries: Vec<(String, V)> = Vec::new();
        let mut i: usize = 0;
        while i < self.entries.len()
            invariant
                i <= self.entries.len(),
                entries@.len() == i,
                forall|j: int| 0 <= j < i ==> (#[trigger] entries@[j]).0@ == self.entries@[j].0@
                    && entries@[j].1@ == self.entries@[j].1@,
            decreases self.entries.len() - i,
        {
            let k = self.entries[i].0.clone();
            let v = self.entries[i].1.deep_copy();
            entries.push((k, v));
            i = i + 1;
        }
        assert(keys_of(entries@) =~= self.keys());
        let r = KeyedList { entries };
        assert(r.vals() =~= self.vals());
        r
    }
}

impl<V: DeepCopy> DeepCopy for KeyedList<V> {
    fn deep_copy(&self) -> (r: KeyedList<V>) {
        self.deep_copy_list()
    }
}


/// Views of the elements of a sequence.
pub open spec fn views_of<T: View>(s: Seq<T>) -> Seq<T::V> {
    s.map_values(|x: T| x@)
}

/// A copy of each element, in order.
pub fn deep_copy_vec<T: DeepCopy>(v: &Vec<T>) -> (r: Vec<T>)
    ensures
        views_of(r@) == views_of(v@),
{
    let mut r: Vec<T> = Vec::new();
    let mut i: usize = 0;
    while i < v.len()
        invariant
            i <= v.len(),
            r@.len() == i,
            forall|j: int| 0 <= j < i ==> (#[trigger] r@[j])@ == v@[j]@,
        decreases v.len() - i,
    {
        r.push(v[i].deep_copy());
        i = i + 1;
    }
    assert(views_of(r@) =~= views_of(v@));
    r
}

/// `a` followed by copies of the elements of `b`.
pub fn append_copies<T: DeepCopy>(a: &mut Vec<T>, b: &Vec<T>)
    ensures
        views_of(final(a)@) == views_of(old(a)@) + views_of(b@),
{
    let ghost a0 = views_of(a@);
    let mut i: usize = 0;
    while i < b.len()
        invariant
            i <= b.len(),
            views_of(a@) == a0 + views_of(b@).take(i as int),
        decreases b.len() - i,
    {
        let x = b[i].deep_copy();
        let ghost prev = a@;
        a.push(x);
        proof {
            assert(views_of(a@) =~= views_of(prev).push(b@[i as int]@));
            assert(views_of(b@).take(i + 1) =~= views_of(b@).take(i as int).push(b@[i as int]@));
            assert(views_of(a@) =~= a0 + views_of(b@).take(i + 1));
        }
        i = i + 1;
    }
    assert(views_of(b@).take(b.len() as int) =~= views_of(b@));
}

} // verus!
