//! The key/value store behind every configuration layer.
use vstd::prelude::*;

use crate::pairs::{
    insert_all, keys_unique, lemma_insert_all_absent, lemma_insert_all_last,
    lemma_insert_all_push, lemma_insert_all_union, lemma_insert_all_update, lemma_pairs_map_finite,
    pairs_map,
};
use crate::value::{ConfigRef, ConfigValue, ValueView, ViperusValue};

verus! {

/// A map from dotted keys to configuration values; no key occurs twice.
#[derive(Debug)]
pub struct ViperusMap {
    data: Vec<(String, ViperusValue)>,
}

/// The pairs of `data` by their views.
pub open spec fn entries_view(data: Seq<(String, ViperusValue)>) -> Seq<(Seq<char>, ValueView)> {
    data.map_values(|e: (String, ViperusValue)| (e.0@, e.1@))
}

impl View for ViperusMap {
    type V = Map<Seq<char>, ValueView>;

    closed spec fn view(&self) -> Map<Seq<char>, ValueView> {
        pairs_map(entries_view(self.data@))
    }
}

impl ViperusMap {
    #[verifier::type_invariant]
    closed spec fn keys_distinct(&self) -> bool {
        keys_unique(entries_view(self.data@))
    }

    /// The map has finitely many keys.
    pub proof fn lemma_finite(&self)
        ensures
            self@.dom().finite(),
    {
        lemma_pairs_map_finite(entries_view(self.data@));
    }

    pub fn new() -> (m: ViperusMap)
        ensures
            m@ == Map::<Seq<char>, ValueView>::empty(),
    {
        ViperusMap { data: Vec::new() }
    }

    /// Index of the entry with key `key`, if any.
    fn find(&self, key: &str) -> (r: Option<usize>)
        ensures
            match r {
                Some(i) => i < self.data@.len() && self.data@[i as int].0@ == key@,
                None => forall|j: int|
                    0 <= j < self.data@.len() ==> self.data@[j].0@ != key@,
            },
    {
        let wanted: String = key.to_owned();
        let n: usize = self.data.len();
        let mut i: usize = 0;
        while i < n
            invariant
                n == self.data@.len(),
                wanted@ == key@,
                i <= n,
                forall|j: int| 0 <= j < i ==> self.data@[j].0@ != key@,
            decreases n - i,
        {
            if self.data[i].0.eq(&wanted) {
                return Some(i);
            }
            i = i + 1;
        }
        None
    }

    /// Stores `value` under `key`; returns the value that was stored there before.
    pub fn add_value(&mut self, key: &str, value: ViperusValue) -> (r: Option<ViperusValue>)
        ensures
            final(self)@ == old(self)@.insert(key@, value@),
            r is Some <==> old(self)@.contains_key(key@),
            r matches Some(v) ==> v@ == old(self)@[key@],
    {
        proof {
            use_type_invariant(&*self);
        }
        let ghost old_entries = entries_view(self.data@);
        let found = self.find(key);
        let mut data: Vec<(String, ViperusValue)> = Vec::new();
        std::mem::swap(&mut data, &mut self.data);
        match found {
            Some(i) => {
                let old_key = data[i].0.clone();
                let previous = data[i].1.duplicate();
                data.set(i, (old_key, value));
                proof {
                    assert(entries_view(data@) =~= old_entries.update(
                        i as int,
                        (old_entries[i as int].0, value@),
                    ));
                    lemma_insert_all_update(Map::empty(), old_entries, i as int, value@);
                    lemma_insert_all_last(Map::empty(), old_entries, i as int);
                    assert(keys_unique(entries_view(data@)));
                }
                self.data = data;
                Some(previous)
            },
            None => {
                data.push((key.to_owned(), value));
                proof {
                    assert(entries_view(data@) =~= old_entries.push((key@, value@)));
                    lemma_insert_all_push(Map::empty(), old_entries, key@, value@);
                    lemma_insert_all_absent(Map::empty(), old_entries, key@);
                    assert(keys_unique(entries_view(data@)));
                }
                self.data = data;
                None
            },
        }
    }

    /// The value stored under `key`, if any.
    pub fn get_value(&self, key: &str) -> (r: Option<&ViperusValue>)
        ensures
            r is Some <==> self@.contains_key(key@),
            r matches Some(v) ==> v@ == self@[key@],
    {
        proof {
            use_type_invariant(self);
        }
        match self.find(key) {
            Some(i) => {
                proof {
                    lemma_insert_all_last(Map::empty(), entries_view(self.data@), i as int);
                }
                Some(&self.data[i].1)
            },
            None => {
                proof {
                    lemma_insert_all_absent(Map::empty(), entries_view(self.data@), key@);
                }
                None
            },
        }
    }

    /// Stores `value` under `key`; returns the value stored there before, read as `T`.
    pub fn add<T: ConfigValue>(&mut self, key: &str, value: T) -> (r: Option<T>)
        requires
            old(self)@.contains_key(key@) ==> T::read(old(self)@[key@]) is Some,
        ensures
            final(self)@ == old(self)@.insert(key@, T::stored(value@)),
            r is Some <==> old(self)@.contains_key(key@),
            r matches Some(x) ==> T::read(old(self)@[key@]) == Some(x@),
    {
        match self.add_value(key, value.to_value()) {
            None => None,
            Some(previous) => Some(T::from_value(previous)),
        }
    }

    /// The value stored under `key`, read as `T`.
    pub fn get<'a, T: ConfigRef<'a>>(&'a self, key: &str) -> (r: Option<T>)
        requires
            self@.contains_key(key@) ==> T::read_ref(self@[key@]) is Some,
        ensures
            r is Some <==> self@.contains_key(key@),
            r matches Some(x) ==> T::read_ref(self@[key@]) == Some(x@),
    {
        match self.get_value(key) {
            None => None,
            Some(v) => Some(T::from_value_ref(v)),
        }
    }

    /// Copies every entry of `src` into this map, `src` winning on shared keys.
    pub fn merge(&mut self, src: &ViperusMap)
        ensures
            final(self)@ == old(self)@.union_prefer_right(src@),
    {
        proof {
            use_type_invariant(src);
        }
        let ghost start = self@;
        let ghost src_entries = entries_view(src.data@);
        let n: usize = src.data.len();
        let mut i: usize = 0;
        while i < n
            invariant
                n == src.data@.len(),
                src_entries == entries_view(src.data@),
                i <= n,
                self@ == insert_all(start, src_entries.take(i as int)),
            decreases n - i,
        {
            let key = src.data[i].0.as_str();
            let value = src.data[i].1.duplicate();
            self.add_value(key, value);
            proof {
                assert(src_entries.take(i + 1) =~= src_entries.take(i as int).push(
                    src_entries[i as int],
                ));
                lemma_insert_all_push(
                    start,
                    src_entries.take(i as int),
                    src_entries[i as int].0,
                    src_entries[i as int].1,
                );
            }
            i = i + 1;
        }
        proof {
            assert(src_entries.take(n as int) =~= src_entries);
            lemma_insert_all_union(start, src_entries);
        }
    }

    /// Removes every entry.
    pub fn clear(&mut self)
        ensures
            final(self)@ == Map::<Seq<char>, ValueView>::empty(),
    {
        self.data = Vec::new();
    }
}

impl Default for ViperusMap {
    fn default() -> (m: ViperusMap)
        ensures
            m@ == Map::<Seq<char>, ValueView>::empty(),
    {
        ViperusMap::new()
    }
}

} // verus!
