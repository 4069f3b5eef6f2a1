//! A small map from strings to strings that remembers the order in which its
//! keys first arrived.

use crate::entries::{
    as_map, has_key, is_first_index, keys_distinct, lemma_first_index_is, lemma_put_as_map,
    lemma_put_keys_distinct, put,
};
use vstd::prelude::*;

verus! {

/// A map from strings to strings, kept as a list of entries without repeated
/// keys, in the order in which the keys were first written.
#[derive(Debug)]
pub struct StringMap {
    entries: Vec<(String, String)>,
}

impl View for StringMap {
    type V = Map<Seq<char>, Seq<char>>;

    /// The map that the entries stand for.
    open spec fn view(&self) -> Map<Seq<char>, Seq<char>> {
        as_map(self.entries())
    }
}

impl StringMap {
    /// The entries, each key in the place of its first write.
    pub closed spec fn entries(&self) -> Seq<(Seq<char>, Seq<char>)> {
        self.entries.deep_view()
    }

    /// What holds of every map: no key has two entries.
    #[verifier::type_invariant]
    pub open spec fn well_formed(&self) -> bool {
        keys_distinct(self.entries())
    }

    /// An empty map.
    pub fn new() -> (map: Self)
        ensures
            map.entries() == Seq::<(Seq<char>, Seq<char>)>::empty(),
            map@ == Map::<Seq<char>, Seq<char>>::empty(),
    {
        let map = StringMap { entries: Vec::new() };
        assert(map.entries() =~= Seq::empty());
        assert(map@ =~= Map::empty());
        map
    }

    /// Where the entry with key `key` stands, if there is one.
    fn position(&self, key: &String) -> (found: Option<usize>)
        ensures
            match found {
                Some(i) => is_first_index(self.entries(), key@, i as int),
                None => !has_key(self.entries(), key@),
            },
    {
        let mut i: usize = 0;
        while i < self.entries.len()
            invariant
                i <= self.entries.len(),
                forall|j: int| 0 <= j < i ==> (#[trigger] self.entries()[j]).0 != key@,
            decreases self.entries.len() - i,
        {
            if self.entries[i].0 == *key {
                assert(self.entries()[i as int].0 == key@);
                return Some(i);
            }
            i += 1;
        }
        None
    }

    /// Writes `value` under `key`. A key that is already present keeps its
    /// place and gets the new value; a new key goes to the end.
    pub fn insert(&mut self, key: String, value: String)
        ensures
            final(self).entries() == put(old(self).entries(), key@, value@),
            final(self)@ == old(self)@.insert(key@, value@),
            keys_distinct(final(self).entries()),
    {
        proof {
            use_type_invariant(&*self);
            lemma_put_keys_distinct(self.entries(), key@, value@);
            lemma_put_as_map(self.entries(), key@, value@);
        }
        let ghost after = put(self.entries(), key@, value@);
        let found = self.position(&key);
        let mut entries: Vec<(String, String)> = Vec::new();
        std::mem::swap(&mut entries, &mut self.entries);
        match found {
            Some(i) => {
                proof {
                    lemma_first_index_is(old(self).entries(), key@, i as int);
                }
                entries.set(i, (key, value));
            },
            None => {
                entries.push((key, value));
            },
        }
        assert(entries.deep_view() =~= after);
        self.entries = entries;
    }

    /// The entries in order, each as a pair of references into the map.
    pub fn pairs(&self) -> (pairs: Vec<(&String, &String)>)
        ensures
            pairs.deep_view() == self.entries(),
            keys_distinct(self.entries()),
    {
        proof {
            use_type_invariant(self);
        }
        let mut pairs: Vec<(&String, &String)> = Vec::new();
        let mut i: usize = 0;
        while i < self.entries.len()
            invariant
                i <= self.entries.len(),
                pairs.len() == i,
                forall|j: int|
                    0 <= j < i ==> (#[trigger] pairs[j]).deep_view() == self.entries[j].deep_view(),
            decreases self.entries.len() - i,
        {
            pairs.push((&self.entries[i].0, &self.entries[i].1));
            i += 1;
        }
        assert(pairs.deep_view() =~= self.entries());
        pairs
    }
}

impl Clone for StringMap {
    /// A map with the same entries in the same order.
    fn clone(&self) -> (copy: Self)
        ensures
            copy.entries() == self.entries(),
            copy@ == self@,
    {
        proof {
            use_type_invariant(self);
        }
        let mut entries: Vec<(String, String)> = Vec::new();
        let mut i: usize = 0;
        while i < self.entries.len()
            invariant
                i <= self.entries.len(),
                entries.len() == i,
                forall|j: int| 0 <= j < i ==> (#[trigger] entries[j]) == self.entries[j],
            decreases self.entries.len() - i,
        {
            entries.push((self.entries[i].0.clone(), self.entries[i].1.clone()));
            i += 1;
        }
        assert(entries.deep_view() =~= self.entries.deep_view());
        StringMap { entries }
    }
}

} // verus!
