//! The buckets of all clients, by key.

use vstd::hash_map::StringHashMap;
use vstd::prelude::*;

use crate::bucket;
use crate::bucket::{BucketState, BucketView, RateLimitDecision};
use crate::clock::{Moment, Span};

verus! {

/// The bucket under `key`; one that holds nothing where there is none.
pub open spec fn bucket_under(
    buckets: Map<Seq<char>, BucketView>,
    key: Seq<char>,
) -> BucketView {
    if buckets.contains_key(key) {
        buckets[key]
    } else {
        BucketView::empty()
    }
}

/// The buckets that have seen traffic lately.
pub open spec fn active_buckets(
    buckets: Map<Seq<char>, BucketView>,
    now: Moment,
) -> Map<Seq<char>, BucketView> {
    Map::new(
        |key: Seq<char>|
            buckets.contains_key(key) && bucket::is_active(buckets[key], now),
        |key: Seq<char>| buckets[key],
    )
}

/// A bucket and its key.
struct Slot {
    key: String,
    state: BucketState,
}

/// The buckets of all clients. The index tells where in the slots the bucket
/// under a key stands.
pub struct BucketTable {
    index: StringHashMap<usize>,
    slots: Vec<Slot>,
}

/// The index and the slots tell the same: each slot is found under its own key
/// and under no other.
spec fn linked(slots: Seq<Slot>, index: Map<Seq<char>, usize>) -> bool {
    &&& forall|key: Seq<char>| #[trigger]
        index.contains_key(key) ==> index[key] < slots.len() && slots[index[key] as int].key@ == key
    &&& forall|i: int|
        0 <= i < slots.len() ==> index.contains_key(#[trigger] slots[i].key@)
            && index[slots[i].key@] == i
    &&& forall|i: int| 0 <= i < slots.len() ==> (#[trigger] slots[i]).state.wf()
}

spec fn contents(slots: Seq<Slot>, index: Map<Seq<char>, usize>) -> Map<Seq<char>, BucketView> {
    Map::new(
        |key: Seq<char>| index.contains_key(key),
        |key: Seq<char>| slots[index[key] as int].state@,
    )
}

/// There are as many keys as slots.
proof fn lemma_sizes(slots: Seq<Slot>, index: Map<Seq<char>, usize>)
    requires
        linked(slots, index),
    ensures
        contents(slots, index).dom().finite(),
        contents(slots, index).dom().len() == slots.len(),
{
    let keys = slots.map_values(|slot: Slot| slot.key@);
    assert forall|i: int, j: int|
        0 <= i < keys.len() && 0 <= j < keys.len() && i != j implies keys[i] != keys[j] by {
        assert(index[slots[i].key@] == i);
        assert(index[slots[j].key@] == j);
    }
    keys.unique_seq_to_set();
    assert(keys.to_set() =~= contents(slots, index).dom()) by {
        assert forall|key: Seq<char>| index.contains_key(key) implies keys.contains(key) by {
            assert(keys[index[key] as int] == key);
        }
        assert forall|key: Seq<char>| keys.contains(key) implies index.contains_key(key) by {
            let i = choose|i: int| 0 <= i < keys.len() && keys[i] == key;
            assert(slots[i].key@ == key);
        }
    }
    vstd::seq_lib::seq_to_set_is_finite(keys);
}

impl View for BucketTable {
    type V = Map<Seq<char>, BucketView>;

    closed spec fn view(&self) -> Map<Seq<char>, BucketView> {
        contents(self.slots@, self.index@)
    }
}

impl BucketTable {
    /// Each bucket stands under one key.
    pub closed spec fn indexed(self) -> bool {
        linked(self.slots@, self.index@)
    }

    pub open spec fn wf(self) -> bool {
        &&& self.indexed()
        &&& forall|key: Seq<char>| #[trigger]
            self@.contains_key(key) ==> self@[key].consistent()
    }

    pub fn new() -> (table: BucketTable)
        ensures
            table.wf(),
            table@ == Map::<Seq<char>, BucketView>::empty(),
    {
        let table = BucketTable { index: StringHashMap::new(), slots: Vec::new() };
        assert(table@ =~= Map::<Seq<char>, BucketView>::empty());
        table
    }

    /// How many buckets there are.
    pub fn len(&self) -> (n: usize)
        requires
            self.wf(),
        ensures
            n == self@.dom().len(),
            self@.dom().finite(),
    {
        proof {
            lemma_sizes(self.slots@, self.index@);
        }
        self.slots.len()
    }

    /// The bucket under `key`.
    pub fn get(&self, key: &str) -> (bucket: Option<&BucketState>)
        requires
            self.wf(),
        ensures
            match bucket {
                Some(b) => self@.contains_key(key@) && b.wf() && b@ == self@[key@],
                None => !self@.contains_key(key@),
            },
    {
        match self.index.get(key) {
            Some(i) => Some(&self.slots[*i].state),
            None => None,
        }
    }

    /// Decides on a request at `now` by the bucket under `key`, which is made
    /// where there is none yet.
    pub fn check(
        &mut self,
        key: String,
        now: Moment,
        window: Span,
        burst_window: Span,
        hourly_limit: u32,
        burst_limit: u32,
    ) -> (made: RateLimitDecision)
        requires
            old(self).wf(),
            bucket::countable(window),
            bucket::countable(burst_window),
        ensures
            final(self).wf(),
            made == bucket::decision(
                bucket_under(old(self)@, key@),
                now,
                bucket::windows_of(window, burst_window),
                hourly_limit,
                burst_limit,
            ),
            final(self)@ == old(self)@.insert(
                key@,
                bucket::after_check(
                    bucket_under(old(self)@, key@),
                    now,
                    bucket::windows_of(window, burst_window),
                    hourly_limit,
                    burst_limit,
                ),
            ),
    {
        let ghost name = key@;
        let at: usize = match self.index.get(key.as_str()) {
            Some(i) => *i,
            None => {
                let i: usize = self.slots.len();
                self.slots.push(Slot { key: key.clone(), state: BucketState::new() });
                self.index.insert(key, i);
                i
            },
        };
        let ghost slots = self.slots@;
        assert(linked(slots, self.index@));
        assert(slots[at as int].state@ == bucket_under(old(self)@, name));
        let made = self.slots[at].state.check(
            now,
            window,
            burst_window,
            hourly_limit,
            burst_limit,
        );
        assert(forall|i: int| 0 <= i < slots.len() && i != at ==> self.slots@[i] == slots[i]);
        assert(self.slots@[at as int].key == slots[at as int].key);
        assert(self@ =~= old(self)@.insert(name, self.slots@[at as int].state@));
        made
    }

    /// Takes out the buckets that have seen no traffic within the last two of
    /// their windows, and tells how many there were.
    pub fn evict(&mut self, now: Moment) -> (evicted: usize)
        requires
            old(self).wf(),
        ensures
            final(self).wf(),
            final(self)@ == active_buckets(old(self)@, now),
            evicted == old(self)@.dom().len() - final(self)@.dom().len(),
    {
        let ghost all = self.slots@;
        let ghost places = self.index@;
        let before: usize = self.slots.len();
        let mut slots: Vec<Slot> = Vec::new();
        std::mem::swap(&mut slots, &mut self.slots);
        let mut index: StringHashMap<usize> = StringHashMap::new();
        let mut kept: Vec<Slot> = Vec::new();
        while slots.len() > 0
            invariant
                linked(all, places),
                slots@.len() + kept@.len() <= before,
                slots@ == all.take(slots@.len() as int),
                slots@.len() <= all.len(),
                before == all.len(),
                linked(kept@, index@),
                forall|key: Seq<char>| #[trigger]
                    index@.contains_key(key) ==> places.contains_key(key) && places[key]
                        >= slots@.len() && all[places[key] as int]
                        == kept@[index@[key] as int] && bucket::is_active(
                        all[places[key] as int].state@,
                        now,
                    ),
                forall|i: int|
                    slots@.len() <= i < all.len() && bucket::is_active(
                        (#[trigger] all[i]).state@,
                        now,
                    ) ==> index@.contains_key(all[i].key@),
            decreases slots@.len(),
        {
            let ghost at = slots@.len() - 1;
            let slot = slots.pop().unwrap();
            assert(slot == all[at]);
            assert(slots@ =~= all.take(at));
            if slot.state.active(now) {
                let ghost earlier = kept@;
                assert(!index@.contains_key(slot.key@)) by {
                    assert(places[all[at].key@] == at);
                }
                index.insert(slot.key.clone(), kept.len());
                kept.push(slot);
                assert(forall|i: int| 0 <= i < earlier.len() ==> kept@[i] == earlier[i]);
            }
        }
        let evicted: usize = before - kept.len();
        self.slots = kept;
        self.index = index;
        proof {
            lemma_sizes(all, places);
            lemma_sizes(self.slots@, self.index@);
            assert(self@ =~= active_buckets(old(self)@, now)) by {
                assert forall|key: Seq<char>|
                    active_buckets(old(self)@, now).contains_key(
                        key,
                    ) implies self@.contains_key(key) by {
                    assert(all[places[key] as int].key@ == key);
                }
            }
        }
        evicted
    }
}

} // verus!
