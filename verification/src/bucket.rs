//! One client's sliding windows: the requests it was granted lately.

use std::collections::VecDeque;
use vstd::prelude::*;

use crate::clock;
use crate::clock::{Moment, Span};

verus! {

/// What a rate-limit check decided, and what the client is told.
#[derive(Clone, Copy, Debug, PartialEq, Eq, Structural)]
pub struct RateLimitDecision {
    pub allowed: bool,
    pub limit: u32,
    pub remaining: u32,
    pub reset_seconds: u64,
}

/// The moments, in nanoseconds, of the granted requests that either window still
/// holds, and of those that the burst window holds, each in the order in which they
/// were granted; and the length of the window that the bucket was last counted over.
pub struct BucketView {
    pub window: int,
    pub hits: Seq<u64>,
    pub burst_hits: Seq<u64>,
}

/// The lengths, in nanoseconds, of the two sliding windows.
pub struct Windows {
    pub window: int,
    pub burst_window: int,
}

impl BucketView {
    /// A client that was granted nothing yet.
    pub open spec fn empty() -> BucketView {
        BucketView { window: 0, hits: Seq::empty(), burst_hits: Seq::empty() }
    }

    /// The requests in the burst window are among those that the bucket holds: they
    /// are the latest of them.
    pub open spec fn consistent(self) -> bool {
        self.burst_hits.is_suffix_of(self.hits)
    }
}

/// `hits` without the leading ones that lie at or before `cutoff`.
pub open spec fn unexpired(hits: Seq<u64>, cutoff: int) -> Seq<u64>
    decreases hits.len(),
{
    if hits.len() > 0 && hits[0] <= cutoff {
        unexpired(hits.skip(1), cutoff)
    } else {
        hits
    }
}

/// The granted requests that the window holds at `now`.
pub open spec fn in_window(bucket: BucketView, now: Moment, windows: Windows) -> Seq<u64> {
    unexpired(bucket.hits, clock::cutoff(now.nanos as int, windows.window))
}

/// The granted requests that the burst window holds at `now`.
pub open spec fn in_burst_window(bucket: BucketView, now: Moment, windows: Windows) -> Seq<u64> {
    unexpired(bucket.burst_hits, clock::cutoff(now.nanos as int, windows.burst_window))
}

/// The end of what both windows have left behind at `now`.
pub open spec fn horizon(now: Moment, windows: Windows) -> int {
    let cutoff = clock::cutoff(now.nanos as int, windows.window);
    let burst_cutoff = clock::cutoff(now.nanos as int, windows.burst_window);
    if cutoff <= burst_cutoff {
        cutoff
    } else {
        burst_cutoff
    }
}

/// The bucket at `now`: without the granted requests that have left both windows,
/// and in the burst window without those that have left it.
pub open spec fn slid(bucket: BucketView, now: Moment, windows: Windows) -> BucketView {
    BucketView {
        window: windows.window,
        hits: unexpired(bucket.hits, horizon(now, windows)),
        burst_hits: in_burst_window(bucket, now, windows),
    }
}

/// A wait in whole seconds, and never less than one.
pub open spec fn wait_seconds(nanos: int) -> int {
    if clock::ceil_seconds(nanos) >= 1 {
        clock::ceil_seconds(nanos)
    } else {
        1
    }
}

/// When the oldest granted request leaves the window, in seconds from `now`; a
/// whole window where none is left, or where the clock cannot hold that moment.
pub open spec fn reset_seconds(hits: Seq<u64>, now: Moment, window: int) -> int {
    if hits.len() > 0 && clock::on_clock(hits[0] + window) {
        wait_seconds(clock::elapsed(now.nanos as int, hits[0] + window))
    } else {
        wait_seconds(window)
    }
}

/// What is decided on a request at `now`: refused where the window already holds
/// `hourly_limit` granted requests or the burst window `burst_limit`, else granted.
pub open spec fn decision(
    bucket: BucketView,
    now: Moment,
    windows: Windows,
    hourly_limit: u32,
    burst_limit: u32,
) -> RateLimitDecision {
    let hits = in_window(bucket, now, windows);
    let reset = reset_seconds(hits, now, windows.window);
    if hits.len() >= hourly_limit {
        RateLimitDecision {
            allowed: false,
            limit: hourly_limit,
            remaining: 0,
            reset_seconds: reset as u64,
        }
    } else if in_burst_window(bucket, now, windows).len() >= burst_limit {
        RateLimitDecision {
            allowed: false,
            limit: hourly_limit,
            remaining: (hourly_limit - hits.len()) as u32,
            reset_seconds: wait_seconds(windows.burst_window) as u64,
        }
    } else {
        RateLimitDecision {
            allowed: true,
            limit: hourly_limit,
            remaining: (hourly_limit - hits.len() - 1) as u32,
            reset_seconds: reset as u64,
        }
    }
}

/// The bucket after a request at `now`: slid, and with the request in it where it
/// was granted.
pub open spec fn after_check(
    bucket: BucketView,
    now: Moment,
    windows: Windows,
    hourly_limit: u32,
    burst_limit: u32,
) -> BucketView {
    let current = slid(bucket, now, windows);
    if decision(bucket, now, windows, hourly_limit, burst_limit).allowed {
        BucketView {
            window: windows.window,
            hits: current.hits.push(now.nanos),
            burst_hits: current.burst_hits.push(now.nanos),
        }
    } else {
        current
    }
}

/// How many of `hits` lie after `cutoff`.
pub open spec fn count_after(hits: Seq<u64>, cutoff: int) -> nat
    decreases hits.len(),
{
    if hits.len() == 0 {
        0
    } else {
        count_after(hits.drop_last(), cutoff) + (if hits.last() > cutoff {
            1nat
        } else {
            0nat
        })
    }
}

/// Whether the last of `hits` is less than two windows old.
pub open spec fn recent(hits: Seq<u64>, now: Moment, window: int) -> bool {
    hits.len() > 0 && clock::elapsed(hits.last() as int, now.nanos as int) < (if 2 * window <= clock::LONGEST {
        2 * window
    } else {
        clock::LONGEST as int
    })
}

/// Whether a bucket has seen traffic within two of its windows: it is kept as
/// long as it has.
pub open spec fn is_active(bucket: BucketView, now: Moment) -> bool {
    recent(bucket.hits, now, bucket.window) || recent(bucket.burst_hits, now, bucket.window)
}

/// A proper span whose seconds can be counted.
pub open spec fn countable(span: Span) -> bool {
    span.valid() && clock::ceil_seconds(span.nanos()) <= u64::MAX
}

/// The lengths of the two windows.
pub open spec fn windows_of(window: Span, burst_window: Span) -> Windows {
    Windows { window: window.nanos(), burst_window: burst_window.nanos() }
}

/// The granted requests of one client: those that either window holds and, among
/// them, those that the burst window holds.
pub struct BucketState {
    window: Span,
    timestamps: VecDeque<u64>,
    burst_timestamps: VecDeque<u64>,
}

impl View for BucketState {
    type V = BucketView;

    closed spec fn view(&self) -> BucketView {
        BucketView {
            window: self.window.nanos(),
            hits: self.timestamps@,
            burst_hits: self.burst_timestamps@,
        }
    }
}

/// Takes out the leading moments at or before `cutoff`.
fn drop_expired(hits: &mut VecDeque<u64>, cutoff: i128)
    ensures
        final(hits)@ == unexpired(old(hits)@, cutoff as int),
        final(hits)@.len() <= old(hits)@.len(),
{
    while hits.len() > 0 && hits[0] as i128 <= cutoff
        invariant
            unexpired(old(hits)@, cutoff as int) == unexpired(hits@, cutoff as int),
            hits@.len() <= old(hits)@.len(),
        decreases hits@.len(),
    {
        let ghost before = hits@;
        hits.pop_front();
        assert(hits@ =~= before.skip(1));
    }
}

/// How many leading moments lie at or before `cutoff`.
fn count_expired(hits: &VecDeque<u64>, cutoff: i128) -> (gone: usize)
    ensures
        gone <= hits@.len(),
        hits@.skip(gone as int) == unexpired(hits@, cutoff as int),
{
    let mut gone: usize = 0;
    assert(hits@.skip(0) =~= hits@);
    while gone < hits.len() && hits[gone] as i128 <= cutoff
        invariant
            gone <= hits@.len(),
            unexpired(hits@, cutoff as int) == unexpired(hits@.skip(gone as int), cutoff as int),
        decreases hits@.len() - gone,
    {
        assert(hits@.skip(gone as int).skip(1) =~= hits@.skip(gone + 1));
        gone = gone + 1;
    }
    gone
}

/// Taking out in two steps is taking out at once.
pub proof fn lemma_unexpired_twice(hits: Seq<u64>, earlier: int, later: int)
    requires
        earlier <= later,
    ensures
        unexpired(unexpired(hits, earlier), later) == unexpired(hits, later),
    decreases hits.len(),
{
    if hits.len() > 0 && hits[0] <= earlier {
        lemma_unexpired_twice(hits.skip(1), earlier, later);
    }
}

/// Taking out leaves the end of a sequence, and the first moment left is late.
pub proof fn lemma_unexpired(hits: Seq<u64>, cutoff: int)
    ensures
        unexpired(hits, cutoff).len() <= hits.len(),
        unexpired(hits, cutoff) == hits.skip(hits.len() - unexpired(hits, cutoff).len()),
        forall|i: int| 0 <= i < hits.len() - unexpired(hits, cutoff).len() ==> hits[i] <= cutoff,
        unexpired(hits, cutoff).len() > 0 ==> unexpired(hits, cutoff)[0] > cutoff,
    decreases hits.len(),
{
    if hits.len() > 0 && hits[0] <= cutoff {
        let rest = hits.skip(1);
        lemma_unexpired(rest, cutoff);
        let gone = rest.len() - unexpired(rest, cutoff).len();
        assert(rest.skip(gone) =~= hits.skip(gone + 1));
        assert forall|i: int| 0 <= i < gone + 1 implies hits[i] <= cutoff by {
            if i > 0 {
                assert(hits[i] == rest[i - 1]);
            }
        }
    } else {
        assert(hits.skip(0) =~= hits);
    }
}

/// What is consistent stays so, over whatever windows it is counted.
pub proof fn lemma_stays_consistent(
    bucket: BucketView,
    now: Moment,
    windows: Windows,
    hourly_limit: u32,
    burst_limit: u32,
)
    requires
        bucket.consistent(),
    ensures
        slid(bucket, now, windows).consistent(),
        after_check(bucket, now, windows, hourly_limit, burst_limit).consistent(),
{
    let burst_cutoff = clock::cutoff(now.nanos as int, windows.burst_window);
    lemma_unexpired(bucket.hits, horizon(now, windows));
    lemma_unexpired(bucket.burst_hits, burst_cutoff);
    let hits = slid(bucket, now, windows).hits;
    let burst_hits = slid(bucket, now, windows).burst_hits;
    let shift = bucket.hits.len() - bucket.burst_hits.len();
    assert(forall|i: int|
        0 <= i < bucket.burst_hits.len() ==> bucket.burst_hits[i] == bucket.hits[shift + i]);
    if burst_hits.len() > hits.len() {
        let first = bucket.burst_hits.len() - burst_hits.len();
        assert(burst_hits[0] == bucket.burst_hits[first]);
        assert(bucket.hits[shift + first] <= horizon(now, windows));
    }
    assert(burst_hits =~= hits.subrange(hits.len() - burst_hits.len(), hits.len() as int));
    let now_in = hits.push(now.nanos);
    let burst_now_in = burst_hits.push(now.nanos);
    assert(burst_now_in =~= now_in.subrange(
        now_in.len() - burst_now_in.len(),
        now_in.len() as int,
    ));
}

fn wait(span: Span) -> (secs: u64)
    requires
        countable(span),
    ensures
        secs == wait_seconds(span.nanos()),
{
    let secs: u64 = clock::ceil_duration_to_seconds(span);
    if secs >= 1 {
        secs
    } else {
        1
    }
}

impl BucketState {
    /// The burst window's requests are among those that the bucket holds.
    pub open spec fn wf(self) -> bool {
        self@.consistent()
    }

    pub fn new() -> (bucket: BucketState)
        ensures
            bucket.wf(),
            bucket@ == BucketView::empty(),
    {
        BucketState {
            window: Span::from_secs(0),
            timestamps: VecDeque::new(),
            burst_timestamps: VecDeque::new(),
        }
    }

    /// Decides on a request at `now` and, where it is granted, records it.
    pub fn check(
        &mut self,
        now: Moment,
        window: Span,
        burst_window: Span,
        hourly_limit: u32,
        burst_limit: u32,
    ) -> (made: RateLimitDecision)
        requires
            old(self).wf(),
            countable(window),
            countable(burst_window),
        ensures
            final(self).wf(),
            made == decision(
                old(self)@,
                now,
                windows_of(window, burst_window),
                hourly_limit,
                burst_limit,
            ),
            final(self)@ == after_check(
                old(self)@,
                now,
                windows_of(window, burst_window),
                hourly_limit,
                burst_limit,
            ),
    {
        let ghost windows = windows_of(window, burst_window);
        proof {
            lemma_stays_consistent(old(self)@, now, windows, hourly_limit, burst_limit);
            lemma_unexpired_twice(
                old(self)@.hits,
                horizon(now, windows),
                clock::cutoff(now.nanos as int, windows.window),
            );
        }
        let cutoff: i128 = now.cutoff(window);
        let burst_cutoff: i128 = now.cutoff(burst_window);
        self.window = window;
        drop_expired(
            &mut self.timestamps,
            if cutoff <= burst_cutoff {
                cutoff
            } else {
                burst_cutoff
            },
        );
        drop_expired(&mut self.burst_timestamps, burst_cutoff);
        assert(self@ == slid(old(self)@, now, windows));

        let gone: usize = count_expired(&self.timestamps, cutoff);
        let used: usize = self.timestamps.len() - gone;
        let ghost hits = in_window(old(self)@, now, windows);
        assert(hits == self@.hits.skip(gone as int));
        let mut reset_seconds: u64 = wait(window);
        if used > 0 {
            let oldest = Moment { nanos: self.timestamps[gone] };
            assert(oldest.nanos == hits[0]);
            if let Some(expiry) = oldest.checked_add(window) {
                reset_seconds = wait(now.until(expiry));
            }
        }
        if used >= hourly_limit as usize {
            return RateLimitDecision {
                allowed: false,
                limit: hourly_limit,
                remaining: 0,
                reset_seconds,
            };
        }
        if self.burst_timestamps.len() >= burst_limit as usize {
            return RateLimitDecision {
                allowed: false,
                limit: hourly_limit,
                remaining: hourly_limit - used as u32,
                reset_seconds: wait(burst_window),
            };
        }
        self.timestamps.push_back(now.nanos);
        self.burst_timestamps.push_back(now.nanos);
        RateLimitDecision {
            allowed: true,
            limit: hourly_limit,
            remaining: hourly_limit - (used as u32 + 1),
            reset_seconds,
        }
    }

    /// Whether the bucket has seen traffic within the last two of its windows.
    pub fn active(&self, now: Moment) -> (b: bool)
        ensures
            b == is_active(self@, now),
    {
        let horizon = self.window.doubled();
        last_within(&self.timestamps, now, horizon) || last_within(
            &self.burst_timestamps,
            now,
            horizon,
        )
    }

    /// How many granted requests lie in the bucket's window that ends at `now`.
    pub fn hourly_used(&self, now: Moment) -> (used: usize)
        ensures
            used == count_after(self@.hits, clock::cutoff(now.nanos as int, self@.window)),
            used <= self@.hits.len(),
    {
        count_since(&self.timestamps, now.cutoff(self.window))
    }

    /// How many granted requests lie in the burst window that ends at `now`.
    pub fn burst_used(&self, now: Moment, burst_window: Span) -> (used: usize)
        ensures
            used == count_after(self@.burst_hits, clock::cutoff(now.nanos as int, burst_window.nanos())),
            used <= self@.burst_hits.len(),
    {
        count_since(&self.burst_timestamps, now.cutoff(burst_window))
    }
}

fn last_within(hits: &VecDeque<u64>, now: Moment, horizon: Span) -> (b: bool)
    ensures
        b == (hits@.len() > 0 && clock::elapsed(hits@.last() as int, now.nanos as int) < horizon.nanos()),
{
    if hits.len() == 0 {
        return false;
    }
    let last_seen = Moment { nanos: hits[hits.len() - 1] };
    now.since(last_seen).as_nanos() < horizon.as_nanos()
}

fn count_since(hits: &VecDeque<u64>, cutoff: i128) -> (count: usize)
    ensures
        count == count_after(hits@, cutoff as int),
        count <= hits@.len(),
{
    let n: usize = hits.len();
    let mut count: usize = 0;
    let mut i: usize = 0;
    assert(hits@.take(0) =~= Seq::<u64>::empty());
    while i < n
        invariant
            i <= n,
            n == hits@.len(),
            count <= i,
            count == count_after(hits@.take(i as int), cutoff as int),
        decreases n - i,
    {
        assert(hits@.take(i + 1).drop_last() =~= hits@.take(i as int));
        if hits[i] as i128 > cutoff {
            count = count + 1;
        }
        i = i + 1;
    }
    assert(hits@.take(n as int) =~= hits@);
    count
}

} // verus!
