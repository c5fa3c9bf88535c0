//! What holds of all clients together: none of them, and no eviction, changes
//! what another is granted.

use vstd::prelude::*;

use crate::bucket;
use crate::bucket::{BucketView, Windows};
use crate::bucket_laws;
use crate::bucket_laws::Check;
use crate::clock::Moment;
use crate::table;

verus! {

/// What befalls the table of buckets: a request under a key, or an eviction of
/// idle buckets.
pub enum Event {
    Request { key: Seq<char>, check: Check },
    Eviction { now: Moment },
}

impl Event {
    pub open spec fn at(self) -> Moment {
        match self {
            Event::Request { check, .. } => check.now,
            Event::Eviction { now } => now,
        }
    }
}

/// Each event comes no earlier than the one before it.
pub open spec fn in_turn(events: Seq<Event>) -> bool {
    forall|i: int, j: int|
        0 <= i <= j < events.len() ==> (#[trigger] events[i]).at().nanos <= (
        #[trigger] events[j]).at().nanos
}

/// The buckets after the events, from an empty table on; `windows` tells what the
/// requests under each key are counted over.
pub open spec fn after_events(
    events: Seq<Event>,
    windows: spec_fn(Seq<char>) -> Windows,
) -> Map<Seq<char>, BucketView>
    decreases events.len(),
{
    if events.len() == 0 {
        Map::empty()
    } else {
        let before = after_events(events.drop_last(), windows);
        match events.last() {
            Event::Request { key, check } => before.insert(
                key,
                bucket::after_check(
                    table::bucket_under(before, key),
                    check.now,
                    windows(key),
                    check.hourly_limit,
                    check.burst_limit,
                ),
            ),
            Event::Eviction { now } => table::active_buckets(before, now),
        }
    }
}

/// The requests under a key, in order.
pub open spec fn requests_under(events: Seq<Event>, key: Seq<char>) -> Seq<Check>
    decreases events.len(),
{
    if events.len() == 0 {
        Seq::empty()
    } else {
        let earlier = requests_under(events.drop_last(), key);
        match events.last() {
            Event::Request { key: other, check } => if other == key {
                earlier.push(check)
            } else {
                earlier
            },
            Event::Eviction { .. } => earlier,
        }
    }
}

/// The requests under a key that the table grants, in order.
pub open spec fn granted_under(
    events: Seq<Event>,
    windows: spec_fn(Seq<char>) -> Windows,
    key: Seq<char>,
) -> Seq<Check>
    decreases events.len(),
{
    if events.len() == 0 {
        Seq::empty()
    } else {
        let earlier = granted_under(events.drop_last(), windows, key);
        match events.last() {
            Event::Request { key: other, check } => if other == key && bucket::decision(
                table::bucket_under(after_events(events.drop_last(), windows), key),
                check.now,
                windows(key),
                check.hourly_limit,
                check.burst_limit,
            ).allowed {
                earlier.push(check)
            } else {
                earlier
            },
            Event::Eviction { .. } => earlier,
        }
    }
}

/// The clock can look back over both windows, and a bucket that is idle for two
/// windows has nothing left in its burst window.
pub open spec fn evictable(windows: Windows) -> bool {
    bucket_laws::measurable(windows) && 0 < windows.window && windows.burst_window <= 2
        * windows.window
}

/// A request under one key leaves the buckets under all others as they are.
pub proof fn law_keys_are_independent(
    buckets: Map<Seq<char>, BucketView>,
    key: Seq<char>,
    other: Seq<char>,
    after: BucketView,
)
    requires
        key != other,
    ensures
        table::bucket_under(buckets.insert(key, after), other) == table::bucket_under(
            buckets,
            other,
        ),
        buckets.insert(key, after).contains_key(other) == buckets.contains_key(other),
{
}

/// A bucket is kept by an eviction exactly where it has seen traffic lately, and
/// is then kept as it is.
pub proof fn law_eviction_keeps_the_active(
    buckets: Map<Seq<char>, BucketView>,
    now: Moment,
    key: Seq<char>,
)
    ensures
        table::active_buckets(buckets, now).contains_key(key) <==> buckets.contains_key(key)
            && bucket::is_active(buckets[key], now),
        table::active_buckets(buckets, now).contains_key(key) ==> table::active_buckets(
            buckets,
            now,
        )[key] == buckets[key],
{
}

/// After an eviction every bucket left holds a granted request that is less than two
/// of its windows old, and every bucket whose last granted request is as old as that
/// or older, or that holds none, is gone. What is left is left as it was.
pub proof fn law_idle_buckets_are_gone(
    buckets: Map<Seq<char>, BucketView>,
    now: Moment,
    key: Seq<char>,
)
    requires
        buckets.contains_key(key) ==> buckets[key].burst_hits.is_suffix_of(buckets[key].hits),
    ensures
        ({
            let left = table::active_buckets(buckets, now);
            let bucket = buckets[key];
            let last = bucket.hits[bucket.hits.len() - 1];
            &&& left.contains_key(key) <==> buckets.contains_key(key) && bucket.hits.len() > 0
                && bucket.window > 0 && now.nanos - last < 2 * bucket.window
            &&& left.contains_key(key) ==> left[key] == bucket
        }),
{
    if buckets.contains_key(key) {
        let bucket = buckets[key];
        bucket_laws::law_buckets_are_kept_for_two_windows(bucket, now);
        if bucket.burst_hits.len() > 0 {
            let tail = bucket.hits.subrange(
                bucket.hits.len() - bucket.burst_hits.len(),
                bucket.hits.len() as int,
            );
            assert(tail[tail.len() - 1] == bucket.hits[bucket.hits.len() - 1]);
        }
    }
}

/// What is found under a key is what stands there, and nothing where nothing does.
pub proof fn law_buckets_are_found_under_their_key(
    buckets: Map<Seq<char>, BucketView>,
    key: Seq<char>,
    bucket: BucketView,
)
    ensures
        table::bucket_under(buckets.insert(key, bucket), key) == bucket,
        table::bucket_under(buckets.remove(key), key).hits.len() == 0,
        table::bucket_under(buckets.remove(key), key).burst_hits.len() == 0,
{
}

/// Whatever befalls the table, and whatever the windows are: in every bucket the
/// requests of the burst window are among those that the bucket holds, and both
/// are in order and none of them later than the last event.
pub proof fn law_buckets_stay_consistent(
    events: Seq<Event>,
    windows: spec_fn(Seq<char>) -> Windows,
    key: Seq<char>,
)
    requires
        in_turn(events),
        after_events(events, windows).contains_key(key),
    ensures
        ({
            let bucket = after_events(events, windows)[key];
            let last = events.last().at().nanos;
            &&& bucket.consistent()
            &&& forall|at: u64| bucket.burst_hits.contains(at) ==> bucket.hits.contains(at)
            &&& bucket_laws::in_order(bucket.hits)
            &&& bucket_laws::in_order(bucket.burst_hits)
            &&& forall|i: int| 0 <= i < bucket.hits.len() ==> bucket.hits[i] <= last
            &&& forall|i: int| 0 <= i < bucket.burst_hits.len() ==> bucket.burst_hits[i] <= last
        }),
    decreases events.len(),
{
    let earlier = events.drop_last();
    let before = after_events(earlier, windows);
    assert(in_turn(earlier)) by {
        assert forall|i: int, j: int| 0 <= i <= j < earlier.len() implies (
        #[trigger] earlier[i]).at().nanos <= (#[trigger] earlier[j]).at().nanos by {
            assert(earlier[i] == events[i] && earlier[j] == events[j]);
        }
    }
    if before.contains_key(key) {
        law_buckets_stay_consistent(earlier, windows, key);
        assert(earlier.len() > 0);
        assert(events[earlier.len() - 1] == earlier.last());
        assert(events[events.len() - 1] == events.last());
    }
    if let Event::Request { key: other, check } = events.last() {
        if other == key {
            let bucket = table::bucket_under(before, key);
            bucket_laws::law_burst_hits_are_latest_hits(
                bucket,
                check.now,
                windows(key),
                check.hourly_limit,
                check.burst_limit,
            );
            bucket_laws::law_hits_stay_in_order(
                bucket,
                check.now,
                windows(key),
                check.hourly_limit,
                check.burst_limit,
            );
        }
    }
}

/// The bucket under a key after the events: what the key's own requests make of
/// it, or none where that has been idle for two windows.
spec fn tracks(
    events: Seq<Event>,
    windows: spec_fn(Seq<char>) -> Windows,
    key: Seq<char>,
    last: int,
) -> bool {
    let own = bucket_laws::after_run(requests_under(events, key), windows(key));
    let buckets = after_events(events, windows);
    &&& bucket_laws::in_order(own.hits)
    &&& bucket_laws::in_order(own.burst_hits)
    &&& forall|i: int| 0 <= i < own.hits.len() ==> own.hits[i] <= last
    &&& forall|i: int| 0 <= i < own.burst_hits.len() ==> own.burst_hits[i] <= last
    &&& requests_under(events, key).len() > 0 ==> own.window == windows(key).window
    &&& buckets.contains_key(key) ==> buckets[key] == own && requests_under(events, key).len() > 0
    &&& !buckets.contains_key(key) && requests_under(events, key).len() > 0
        ==> !bucket::is_active(own, (Moment { nanos: last as u64 }))
    &&& granted_under(events, windows, key) == bucket_laws::granted(
        requests_under(events, key),
        windows(key),
    )
}

proof fn lemma_tracks(events: Seq<Event>, windows: spec_fn(Seq<char>) -> Windows, key: Seq<char>)
    requires
        in_turn(events),
        evictable(windows(key)),
    ensures
        tracks(
            events,
            windows,
            key,
            if events.len() > 0 {
                events.last().at().nanos as int
            } else {
                0
            },
        ),
        bucket_laws::in_turn(requests_under(events, key)),
        forall|i: int|
            0 <= i < requests_under(events, key).len() ==> (#[trigger] requests_under(
                events,
                key,
            )[i]).now.nanos <= events.last().at().nanos,
        events.len() == 0 ==> requests_under(events, key).len() == 0,
    decreases events.len(),
{
    if events.len() == 0 {
        assert(requests_under(events, key) =~= Seq::<Check>::empty());
    } else {
        let earlier = events.drop_last();
        assert(in_turn(earlier)) by {
            assert forall|i: int, j: int| 0 <= i <= j < earlier.len() implies (
            #[trigger] earlier[i]).at().nanos <= (#[trigger] earlier[j]).at().nanos by {
                assert(earlier[i] == events[i] && earlier[j] == events[j]);
            }
        }
        lemma_tracks(earlier, windows, key);
        let now = events.last().at();
        let last = if earlier.len() > 0 {
            earlier.last().at().nanos as int
        } else {
            0
        };
        if earlier.len() > 0 {
            assert(events[earlier.len() - 1] == earlier.last());
            assert(events[events.len() - 1] == events.last());
        }
        assert(last <= now.nanos);
        let requests = requests_under(earlier, key);
        let own = bucket_laws::after_run(requests, windows(key));
        let before = after_events(earlier, windows);
        match events.last() {
            Event::Request { key: other, check } => {
                if other == key {
                    assert(requests_under(events, key).drop_last() =~= requests);
                    assert(requests_under(events, key).last() == check);
                    bucket_laws::law_hits_stay_in_order(
                        own,
                        check.now,
                        windows(key),
                        check.hourly_limit,
                        check.burst_limit,
                    );
                    if !before.contains_key(key) && requests.len() > 0 {
                        bucket_laws::law_idle_bucket_is_as_good_as_none(
                            own,
                            Moment { nanos: last as u64 },
                            check.now,
                            windows(key),
                            check.hourly_limit,
                            check.burst_limit,
                        );
                    }
                }
            },
            Event::Eviction { .. } => {},
        }
    }
}

/// A client is granted exactly the requests that it would be granted if it were
/// alone and nothing were ever evicted.
pub proof fn law_others_and_evictions_change_nothing(
    events: Seq<Event>,
    windows: spec_fn(Seq<char>) -> Windows,
    key: Seq<char>,
)
    requires
        in_turn(events),
        evictable(windows(key)),
    ensures
        granted_under(events, windows, key) == bucket_laws::granted(
            requests_under(events, key),
            windows(key),
        ),
{
    lemma_tracks(events, windows, key);
}

/// Whatever other clients do and whatever is evicted in between, a client's grants
/// are spread: a request granted under a limit of `n` comes at least a window
/// after the `n`-th grant before it under the same key, and likewise for the burst
/// limit and the burst window.
pub proof fn law_grants_under_a_key_are_spread(
    events: Seq<Event>,
    windows: spec_fn(Seq<char>) -> Windows,
    key: Seq<char>,
    k: int,
)
    requires
        in_turn(events),
        evictable(windows(key)),
        0 <= k < granted_under(events, windows, key).len(),
    ensures
        ({
            let grants = granted_under(events, windows, key);
            let grant = grants[k];
            &&& 0 < grant.hourly_limit && 0 < grant.burst_limit
            &&& grant.hourly_limit <= k ==> grants[k - grant.hourly_limit].now.nanos + windows(
                key,
            ).window <= grant.now.nanos
            &&& grant.burst_limit <= k ==> grants[k - grant.burst_limit].now.nanos + windows(
                key,
            ).burst_window <= grant.now.nanos
        }),
{
    lemma_tracks(events, windows, key);
    bucket_laws::law_grants_are_spread(requests_under(events, key), windows(key), k);
}

/// An eviction is never noticed: the next request under any key is decided, and
/// leaves the key's bucket, as if nothing had been evicted.
pub proof fn law_eviction_is_never_noticed(
    buckets: Map<Seq<char>, BucketView>,
    now: Moment,
    later: Moment,
    key: Seq<char>,
    windows: Windows,
    hourly_limit: u32,
    burst_limit: u32,
)
    requires
        evictable(windows),
        table::bucket_under(buckets, key).window == windows.window || !buckets.contains_key(key),
        bucket_laws::in_order(table::bucket_under(buckets, key).hits),
        bucket_laws::in_order(table::bucket_under(buckets, key).burst_hits),
        now.nanos <= later.nanos,
    ensures
        ({
            let kept = table::bucket_under(table::active_buckets(buckets, now), key);
            let found = table::bucket_under(buckets, key);
            &&& bucket::decision(kept, later, windows, hourly_limit, burst_limit)
                == bucket::decision(found, later, windows, hourly_limit, burst_limit)
            &&& bucket::after_check(kept, later, windows, hourly_limit, burst_limit)
                == bucket::after_check(found, later, windows, hourly_limit, burst_limit)
        }),
{
    if buckets.contains_key(key) && !bucket::is_active(buckets[key], now) {
        bucket_laws::law_idle_bucket_is_as_good_as_none(
            buckets[key],
            now,
            later,
            windows,
            hourly_limit,
            burst_limit,
        );
    }
}

} // verus!
