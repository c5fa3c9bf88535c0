//! Maps and sets whose keys are texts.

use vstd::hash_map::StringHashMap;
use vstd::hash_set::StringHashSet;
use vstd::prelude::*;

verus! {

/// A map from texts to values.
#[verifier::reject_recursive_types(V)]
pub struct TextMap<V> {
    entries: StringHashMap<V>,
}

impl<V> View for TextMap<V> {
    type V = Map<Seq<char>, V>;

    closed spec fn view(&self) -> Map<Seq<char>, V> {
        self.entries@
    }
}

impl<V> TextMap<V> {
    pub fn new() -> (map: TextMap<V>)
        ensures
            map@ == Map::<Seq<char>, V>::empty(),
    {
        TextMap { entries: StringHashMap::new() }
    }

    pub fn insert(&mut self, key: String, value: V)
        ensures
            final(self)@ == old(self)@.insert(key@, value),
    {
        self.entries.insert(key, value);
    }

    pub fn get(&self, key: &str) -> (value: Option<&V>)
        ensures
            match value {
                Some(v) => self@.contains_key(key@) && *v == self@[key@],
                None => !self@.contains_key(key@),
            },
    {
        self.entries.get(key)
    }
}

/// A set of texts.
pub struct TextSet {
    members: StringHashSet,
}

impl View for TextSet {
    type V = Set<Seq<char>>;

    closed spec fn view(&self) -> Set<Seq<char>> {
        self.members@
    }
}

impl TextSet {
    pub fn new() -> (set: TextSet)
        ensures
            set@ == Set::<Seq<char>>::empty(),
    {
        TextSet { members: StringHashSet::new() }
    }

    pub fn insert(&mut self, member: String)
        ensures
            final(self)@ == old(self)@.insert(member@),
    {
        self.members.insert(member);
    }

    pub fn contains(&self, member: &str) -> (b: bool)
        ensures
            b == self@.contains(member@),
    {
        self.members.contains(member)
    }
}

} // verus!
