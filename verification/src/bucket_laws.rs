//! What holds of one client's sliding windows, whatever requests it sends.

use vstd::prelude::*;

use crate::bucket;
use crate::bucket::{BucketView, Windows};
use crate::clock;
use crate::clock::{Moment, Span};

verus! {

/// A request: when it came, and the limits that it was held to.
pub struct Check {
    pub now: Moment,
    pub hourly_limit: u32,
    pub burst_limit: u32,
}

/// The bucket after a run of requests, the first of which found it empty.
pub open spec fn after_run(checks: Seq<Check>, windows: Windows) -> BucketView
    decreases checks.len(),
{
    if checks.len() == 0 {
        BucketView::empty()
    } else {
        let check = checks.last();
        bucket::after_check(
            after_run(checks.drop_last(), windows),
            check.now,
            windows,
            check.hourly_limit,
            check.burst_limit,
        )
    }
}

/// Whether the last of a run of requests is granted.
pub open spec fn last_granted(checks: Seq<Check>, windows: Windows) -> bool {
    let check = checks.last();
    bucket::decision(
        after_run(checks.drop_last(), windows),
        check.now,
        windows,
        check.hourly_limit,
        check.burst_limit,
    ).allowed
}

/// The requests of a run that are granted, in order.
pub open spec fn granted(checks: Seq<Check>, windows: Windows) -> Seq<Check>
    decreases checks.len(),
{
    if checks.len() == 0 {
        Seq::empty()
    } else if last_granted(checks, windows) {
        granted(checks.drop_last(), windows).push(checks.last())
    } else {
        granted(checks.drop_last(), windows)
    }
}

/// Each request comes no earlier than the one before it.
pub open spec fn in_turn(checks: Seq<Check>) -> bool {
    forall|i: int, j: int|
        0 <= i <= j < checks.len() ==> (#[trigger] checks[i]).now.nanos <= (
        #[trigger] checks[j]).now.nanos
}

/// Every request is held to the same limits.
pub open spec fn under_limits(checks: Seq<Check>, hourly_limit: u32, burst_limit: u32) -> bool {
    forall|i: int|
        0 <= i < checks.len() ==> (#[trigger] checks[i]).hourly_limit == hourly_limit
            && checks[i].burst_limit == burst_limit
}

/// Each moment is no earlier than the one before it.
pub open spec fn in_order(hits: Seq<u64>) -> bool {
    forall|i: int, j: int| 0 <= i <= j < hits.len() ==> hits[i] <= hits[j]
}

/// The clock can look back over both windows from any moment.
pub open spec fn measurable(windows: Windows) -> bool {
    0 <= windows.window <= -clock::EARLIEST && 0 <= windows.burst_window <= -clock::EARLIEST
}

/// Where every moment is at or before the cutoff, none is left.
proof fn lemma_all_expired(hits: Seq<u64>, cutoff: int)
    requires
        forall|i: int| 0 <= i < hits.len() ==> hits[i] <= cutoff,
    ensures
        bucket::unexpired(hits, cutoff) == Seq::<u64>::empty(),
{
    bucket::lemma_unexpired(hits, cutoff);
    let left = bucket::unexpired(hits, cutoff);
    if left.len() > 0 {
        assert(left[0] == hits[hits.len() - left.len()]);
    }
    assert(left =~= Seq::<u64>::empty());
}

/// Where every moment is after the cutoff, all are left.
proof fn lemma_none_expired(hits: Seq<u64>, cutoff: int)
    requires
        forall|i: int| 0 <= i < hits.len() ==> hits[i] > cutoff,
    ensures
        bucket::unexpired(hits, cutoff) == hits,
{
    bucket::lemma_unexpired(hits, cutoff);
    let left = bucket::unexpired(hits, cutoff);
    if left.len() < hits.len() {
        assert(hits[0] <= cutoff);
    }
    assert(hits.skip(0) =~= hits);
}

/// A moment after the cutoff is left at the end.
proof fn lemma_unexpired_push(hits: Seq<u64>, at: u64, cutoff: int)
    requires
        at > cutoff,
    ensures
        bucket::unexpired(hits.push(at), cutoff) == bucket::unexpired(hits, cutoff).push(at),
    decreases hits.len(),
{
    if hits.len() > 0 && hits[0] <= cutoff {
        lemma_unexpired_push(hits.skip(1), at, cutoff);
        assert(hits.push(at).skip(1) =~= hits.skip(1).push(at));
    }
}

/// The cutoff of a window that the clock can look back over.
proof fn lemma_cutoff(now: Moment, window: int)
    requires
        0 <= window <= -clock::EARLIEST,
    ensures
        clock::cutoff(now.nanos as int, window) == now.nanos - window,
{
}

// ---------------------------------------------------------------------------
// What the moments say
// ---------------------------------------------------------------------------

/// Where a window of that length ends at `now`: so much earlier, or at `now` itself
/// where the clock does not reach back so far.
pub open spec fn start_of(now: Moment, length: int) -> int {
    if now.nanos - length >= -9_223_372_036_854_775_808_000_000_000 {
        now.nanos - length
    } else {
        now.nanos as int
    }
}

/// The first `gone` moments lie at or before `start`, and the next one after it.
pub open spec fn parted(hits: Seq<u64>, start: int, gone: int) -> bool {
    &&& 0 <= gone <= hits.len()
    &&& forall|i: int| 0 <= i < gone ==> #[trigger] hits[i] <= start
    &&& gone < hits.len() ==> hits[gone] > start
}

/// The least whole number of seconds, at least one, that takes a clock from `now` to
/// `end` or beyond.
pub open spec fn least_wait(secs: int, now: int, end: int) -> bool {
    &&& secs >= 1
    &&& now + secs * 1_000_000_000 >= end
    &&& secs > 1 ==> now + (secs - 1) * 1_000_000_000 < end
}

proof fn lemma_parted(hits: Seq<u64>, start: int, gone: int)
    requires
        parted(hits, start, gone),
    ensures
        bucket::unexpired(hits, start) == hits.skip(gone),
    decreases hits.len(),
{
    if gone > 0 {
        let rest = hits.skip(1);
        assert(hits[0] <= start);
        assert forall|i: int| 0 <= i < gone - 1 implies #[trigger] rest[i] <= start by {
            assert(rest[i] == hits[i + 1]);
        }
        lemma_parted(rest, start, gone - 1);
        assert(rest.skip(gone - 1) =~= hits.skip(gone));
    } else {
        assert(hits.skip(0) =~= hits);
    }
}

proof fn lemma_least_wait(now: int, end: int)
    requires
        now <= end,
    ensures
        least_wait(bucket::wait_seconds(end - now), now, end),
{
}

/// A request is granted exactly where each window holds fewer granted requests than
/// its limit, and the client is told the limit, what is left of it once a grant is
/// counted, and when it resets. That is the least wait after which the oldest
/// request in the window has left it; a whole window where it holds none or the
/// clock cannot hold that moment; and a whole burst window where the burst window
/// alone is full.
pub proof fn law_decision_goes_by_the_moments(
    bucket: BucketView,
    now: Moment,
    windows: Windows,
    hourly_limit: u32,
    burst_limit: u32,
    gone: int,
    burst_gone: int,
)
    requires
        0 <= windows.window <= 18_446_744_073_709_551_615_000_000_000,
        0 <= windows.burst_window <= 18_446_744_073_709_551_615_000_000_000,
        parted(bucket.hits, start_of(now, windows.window), gone),
        parted(bucket.burst_hits, start_of(now, windows.burst_window), burst_gone),
    ensures
        ({
            let made = bucket::decision(bucket, now, windows, hourly_limit, burst_limit);
            let used = bucket.hits.len() - gone;
            let burst_used = bucket.burst_hits.len() - burst_gone;
            let end = bucket.hits[gone] + windows.window;
            &&& made.allowed <==> used < hourly_limit && burst_used < burst_limit
            &&& made.limit == hourly_limit
            &&& made.allowed ==> made.remaining == hourly_limit - used - 1
            &&& used >= hourly_limit ==> made.remaining == 0
            &&& used < hourly_limit && burst_used >= burst_limit ==> made.remaining == hourly_limit
                - used && least_wait(made.reset_seconds as int, 0, windows.burst_window)
            &&& made.allowed || used >= hourly_limit ==> if used > 0 && end
                <= 9_223_372_036_854_775_807_999_999_999 {
                least_wait(
                    made.reset_seconds as int,
                    now.nanos as int,
                    if end >= now.nanos {
                        end
                    } else {
                        now.nanos as int
                    },
                )
            } else {
                least_wait(made.reset_seconds as int, 0, windows.window)
            }
        }),
{
    lemma_parted(bucket.hits, start_of(now, windows.window), gone);
    lemma_parted(bucket.burst_hits, start_of(now, windows.burst_window), burst_gone);
    lemma_least_wait(0, windows.window);
    lemma_least_wait(0, windows.burst_window);
    let end = bucket.hits[gone] + windows.window;
    let at = if end >= now.nanos {
        end
    } else {
        now.nanos as int
    };
    lemma_least_wait(now.nanos as int, at);
    assert(clock::elapsed(now.nanos as int, end) == at - now.nanos);
    if gone < bucket.hits.len() {
        assert(bucket::in_window(bucket, now, windows)[0] == bucket.hits[gone]);
    }
}

/// A check takes out of the bucket what has left both windows, out of the burst list
/// what has left the burst window, and puts a granted request at the end of both.
/// The window that it counted over is remembered.
pub proof fn law_check_keeps_what_a_window_holds(
    bucket: BucketView,
    now: Moment,
    windows: Windows,
    hourly_limit: u32,
    burst_limit: u32,
    gone: int,
    burst_gone: int,
)
    requires
        parted(
            bucket.hits,
            if start_of(now, windows.window) <= start_of(now, windows.burst_window) {
                start_of(now, windows.window)
            } else {
                start_of(now, windows.burst_window)
            },
            gone,
        ),
        parted(bucket.burst_hits, start_of(now, windows.burst_window), burst_gone),
        0 <= windows.window,
        0 <= windows.burst_window,
    ensures
        ({
            let granted = bucket::decision(bucket, now, windows, hourly_limit, burst_limit).allowed;
            let after = bucket::after_check(bucket, now, windows, hourly_limit, burst_limit);
            let kept = bucket.hits.subrange(gone, bucket.hits.len() as int);
            let burst_kept = bucket.burst_hits.subrange(
                burst_gone,
                bucket.burst_hits.len() as int,
            );
            &&& after.window == windows.window
            &&& after.hits == if granted {
                kept.push(now.nanos)
            } else {
                kept
            }
            &&& after.burst_hits == if granted {
                burst_kept.push(now.nanos)
            } else {
                burst_kept
            }
        }),
{
    let start = if start_of(now, windows.window) <= start_of(now, windows.burst_window) {
        start_of(now, windows.window)
    } else {
        start_of(now, windows.burst_window)
    };
    assert(start == bucket::horizon(now, windows));
    lemma_parted(bucket.hits, start, gone);
    lemma_parted(bucket.burst_hits, start_of(now, windows.burst_window), burst_gone);
    assert(bucket.hits.skip(gone) =~= bucket.hits.subrange(gone, bucket.hits.len() as int));
    assert(bucket.burst_hits.skip(burst_gone) =~= bucket.burst_hits.subrange(
        burst_gone,
        bucket.burst_hits.len() as int,
    ));
}

/// A client that was granted nothing yet has nothing in its bucket.
pub proof fn law_new_buckets_are_empty()
    ensures
        BucketView::empty().hits.len() == 0,
        BucketView::empty().burst_hits.len() == 0,
        BucketView::empty().window == 0,
{
}

/// A snapshot counts the moments that lie after the start of the window, wherever
/// they stand.
pub proof fn law_snapshot_counts_later_moments(hits: Seq<u64>, now: Moment, length: int)
    requires
        0 <= length,
    ensures
        bucket::count_after(hits, clock::cutoff(now.nanos as int, length)) == hits.filter(
            |at: u64| at > start_of(now, length),
        ).len(),
{
    lemma_count_is_of_later(hits, start_of(now, length));
    assert(clock::cutoff(now.nanos as int, length) == start_of(now, length));
    let start = start_of(now, length);
    assert((|at: u64| at > start) == (|at: u64| at > start_of(now, length)));
}

proof fn lemma_count_is_of_later(hits: Seq<u64>, start: int)
    ensures
        bucket::count_after(hits, start) == hits.filter(|at: u64| at > start).len(),
    decreases hits.len(),
{
    reveal(Seq::filter);
    if hits.len() > 0 {
        lemma_count_is_of_later(hits.drop_last(), start);
    }
}

/// A bucket is kept exactly as long as its last granted request, in either list, is
/// less than two of its windows old.
pub proof fn law_buckets_are_kept_for_two_windows(bucket: BucketView, now: Moment)
    ensures
        bucket::is_active(bucket, now) <==> {
            ||| bucket.hits.len() > 0 && now.nanos - bucket.hits[bucket.hits.len() - 1] < 2
                * bucket.window && 0 < bucket.window
            ||| bucket.burst_hits.len() > 0 && now.nanos
                - bucket.burst_hits[bucket.burst_hits.len() - 1] < 2 * bucket.window && 0
                < bucket.window
        },
{
}

/// The bound on a window's length under which its seconds can be counted, and the
/// lengths of two windows in nanoseconds.
pub proof fn law_window_lengths(window: Span, burst_window: Span)
    ensures
        window.valid() <==> window.subsec_nanos < 1_000_000_000,
        bucket::countable(window) <==> window.subsec_nanos < 1_000_000_000 && (window.secs
            < 18_446_744_073_709_551_615 || window.subsec_nanos == 0),
        bucket::windows_of(window, burst_window).window == window.secs * 1_000_000_000
            + window.subsec_nanos,
        bucket::windows_of(window, burst_window).burst_window == burst_window.secs * 1_000_000_000
            + burst_window.subsec_nanos,
{
}

/// A span is covered by its seconds, and by no fewer.
pub proof fn law_seconds_cover_the_span(nanos: int)
    requires
        0 <= nanos,
    ensures
        clock::ceil_seconds(nanos) * 1_000_000_000 >= nanos,
        (clock::ceil_seconds(nanos) - 1) * 1_000_000_000 < nanos || nanos == 0,
        nanos == 0 ==> clock::ceil_seconds(nanos) == 0,
{
}

/// Time that has passed is the difference, and never less than nothing; the clock
/// holds sixty-three bits of seconds on either side of its origin.
pub proof fn law_time_passed(earlier: int, later: int)
    ensures
        earlier <= later ==> clock::elapsed(earlier, later) == later - earlier,
        earlier >= later ==> clock::elapsed(earlier, later) == 0,
        clock::on_clock(later) <==> -9_223_372_036_854_775_808_000_000_000 <= later
            <= 9_223_372_036_854_775_807_999_999_999,
{
}

// ---------------------------------------------------------------------------
// One request
// ---------------------------------------------------------------------------

/// A granted request is counted: what remains, together with it and all that the
/// window held before, makes up the limit. Where the window has a length, that is
/// what it holds afterwards. The burst window then holds no more than its limit
/// admits.
pub proof fn law_grant_is_counted(
    bucket: BucketView,
    now: Moment,
    windows: Windows,
    hourly_limit: u32,
    burst_limit: u32,
)
    requires
        bucket::decision(bucket, now, windows, hourly_limit, burst_limit).allowed,
    ensures
        ({
            let made = bucket::decision(bucket, now, windows, hourly_limit, burst_limit);
            let after = bucket::after_check(bucket, now, windows, hourly_limit, burst_limit);
            &&& made.remaining + 1 + bucket::in_window(bucket, now, windows).len() == hourly_limit
            &&& clock::cutoff(now.nanos as int, windows.window) < now.nanos ==> made.remaining
                + bucket::in_window(after, now, windows).len() == hourly_limit
            &&& after.burst_hits.len() <= burst_limit
            &&& after.hits.last() == now.nanos
            &&& after.burst_hits.last() == now.nanos
        }),
{
    let cutoff = clock::cutoff(now.nanos as int, windows.window);
    if cutoff < now.nanos {
        let current = bucket::slid(bucket, now, windows);
        bucket::lemma_unexpired_twice(bucket.hits, bucket::horizon(now, windows), cutoff);
        lemma_unexpired_push(current.hits, now.nanos, cutoff);
    }
}

/// A refused request consumes nothing: the bucket is only slid, and the same
/// request at the same moment is refused in the same words.
pub proof fn law_refusal_consumes_nothing(
    bucket: BucketView,
    now: Moment,
    windows: Windows,
    hourly_limit: u32,
    burst_limit: u32,
)
    requires
        !bucket::decision(bucket, now, windows, hourly_limit, burst_limit).allowed,
    ensures
        ({
            let after = bucket::after_check(bucket, now, windows, hourly_limit, burst_limit);
            &&& after == bucket::slid(bucket, now, windows)
            &&& bucket::decision(after, now, windows, hourly_limit, burst_limit)
                == bucket::decision(bucket, now, windows, hourly_limit, burst_limit)
            &&& bucket::after_check(after, now, windows, hourly_limit, burst_limit) == after
        }),
{
    let horizon = bucket::horizon(now, windows);
    let cutoff = clock::cutoff(now.nanos as int, windows.window);
    let burst_cutoff = clock::cutoff(now.nanos as int, windows.burst_window);
    bucket::lemma_unexpired_twice(bucket.hits, horizon, cutoff);
    bucket::lemma_unexpired_twice(bucket.hits, horizon, horizon);
    bucket::lemma_unexpired_twice(bucket.burst_hits, burst_cutoff, burst_cutoff);
}

/// A request is refused exactly where one of the windows is full.
pub proof fn law_refused_when_full(
    bucket: BucketView,
    now: Moment,
    windows: Windows,
    hourly_limit: u32,
    burst_limit: u32,
)
    ensures
        !bucket::decision(bucket, now, windows, hourly_limit, burst_limit).allowed <==> {
            ||| bucket::in_window(bucket, now, windows).len() >= hourly_limit
            ||| bucket::in_burst_window(bucket, now, windows).len() >= burst_limit
        },
{
}

/// The wait that a client is told is at least a second, and no longer than the
/// seconds that cover the longer of the two windows.
pub proof fn law_wait_is_bounded(
    bucket: BucketView,
    now: Moment,
    windows: Windows,
    hourly_limit: u32,
    burst_limit: u32,
)
    requires
        measurable(windows),
        forall|i: int| 0 <= i < bucket.hits.len() ==> bucket.hits[i] <= now.nanos,
    ensures
        ({
            let made = bucket::decision(bucket, now, windows, hourly_limit, burst_limit);
            &&& 1 <= made.reset_seconds
            &&& made.reset_seconds <= bucket::wait_seconds(windows.window) || made.reset_seconds
                == bucket::wait_seconds(windows.burst_window)
        }),
{
    bucket::lemma_unexpired(bucket.hits, clock::cutoff(now.nanos as int, windows.window));
}

/// Where the window is full, one of its requests has left it once the client has
/// waited as long as it was told.
pub proof fn law_waiting_frees_a_slot(
    bucket: BucketView,
    now: Moment,
    later: Moment,
    windows: Windows,
    hourly_limit: u32,
    burst_limit: u32,
)
    requires
        measurable(windows),
        0 < hourly_limit <= bucket::in_window(bucket, now, windows).len(),
        forall|i: int| 0 <= i < bucket.hits.len() ==> bucket.hits[i] <= now.nanos,
        later.nanos >= now.nanos + bucket::decision(
            bucket,
            now,
            windows,
            hourly_limit,
            burst_limit,
        ).reset_seconds * 1_000_000_000,
    ensures
        bucket::in_window(bucket::slid(bucket, now, windows), later, windows).len()
            < bucket::in_window(bucket, now, windows).len(),
{
    let hits = bucket::in_window(bucket, now, windows);
    lemma_cutoff(now, windows.window);
    lemma_cutoff(later, windows.window);
    let cutoff = now.nanos - windows.window;
    let later_cutoff = later.nanos - windows.window;
    bucket::lemma_unexpired(bucket.hits, cutoff);
    let first = hits[0];
    assert(first == bucket.hits[bucket.hits.len() - hits.len()]);
    assert(clock::on_clock(first + windows.window));
    assert(first + windows.window <= later.nanos);
    bucket::lemma_unexpired(hits, later_cutoff);
    let left = bucket::unexpired(hits, later_cutoff);
    if left.len() == hits.len() {
        assert(left[0] == first);
    }
    bucket::lemma_unexpired_twice(bucket.hits, cutoff, later_cutoff);
    bucket::lemma_unexpired_twice(bucket.hits, bucket::horizon(now, windows), later_cutoff);
}

/// Moments stay in order as long as no request comes before an earlier one.
pub proof fn law_hits_stay_in_order(
    bucket: BucketView,
    now: Moment,
    windows: Windows,
    hourly_limit: u32,
    burst_limit: u32,
)
    requires
        in_order(bucket.hits),
        in_order(bucket.burst_hits),
        forall|i: int| 0 <= i < bucket.hits.len() ==> bucket.hits[i] <= now.nanos,
        forall|i: int| 0 <= i < bucket.burst_hits.len() ==> bucket.burst_hits[i] <= now.nanos,
    ensures
        ({
            let after = bucket::after_check(bucket, now, windows, hourly_limit, burst_limit);
            &&& in_order(after.hits)
            &&& in_order(after.burst_hits)
            &&& forall|i: int| 0 <= i < after.hits.len() ==> after.hits[i] <= now.nanos
            &&& forall|i: int| 0 <= i < after.burst_hits.len() ==> after.burst_hits[i] <= now.nanos
        }),
{
    bucket::lemma_unexpired(bucket.hits, bucket::horizon(now, windows));
    bucket::lemma_unexpired(
        bucket.burst_hits,
        clock::cutoff(now.nanos as int, windows.burst_window),
    );
}

/// Whatever the windows, the requests that the burst window holds are among those
/// that the bucket holds: they are the latest of them.
pub proof fn law_burst_hits_are_latest_hits(
    bucket: BucketView,
    now: Moment,
    windows: Windows,
    hourly_limit: u32,
    burst_limit: u32,
)
    requires
        bucket.burst_hits.is_suffix_of(bucket.hits),
    ensures
        ({
            let after = bucket::after_check(bucket, now, windows, hourly_limit, burst_limit);
            &&& after.burst_hits.is_suffix_of(after.hits)
            &&& forall|at: u64| after.burst_hits.contains(at) ==> after.hits.contains(at)
        }),
{
    bucket::lemma_stays_consistent(bucket, now, windows, hourly_limit, burst_limit);
    let after = bucket::after_check(bucket, now, windows, hourly_limit, burst_limit);
    let shift = after.hits.len() - after.burst_hits.len();
    assert forall|at: u64| after.burst_hits.contains(at) implies after.hits.contains(at) by {
        let i = after.burst_hits.index_of(at);
        assert(after.hits[shift + i] == after.burst_hits[i]);
    }
}

/// A client that is refused, and waits as long as it was told, is granted its next
/// request. The burst limit must not be below the limit, nor the burst window
/// longer than the window.
pub proof fn law_retry_after_the_wait_is_granted(
    bucket: BucketView,
    now: Moment,
    later: Moment,
    windows: Windows,
    hourly_limit: u32,
    burst_limit: u32,
)
    requires
        measurable(windows),
        windows.burst_window <= windows.window,
        0 < hourly_limit <= burst_limit,
        bucket.hits.len() <= hourly_limit,
        bucket.burst_hits.is_suffix_of(bucket.hits),
        forall|i: int| 0 <= i < bucket.hits.len() ==> bucket.hits[i] <= now.nanos,
        !bucket::decision(bucket, now, windows, hourly_limit, burst_limit).allowed,
        later.nanos >= now.nanos + bucket::decision(
            bucket,
            now,
            windows,
            hourly_limit,
            burst_limit,
        ).reset_seconds * 1_000_000_000,
    ensures
        bucket::decision(
            bucket::after_check(bucket, now, windows, hourly_limit, burst_limit),
            later,
            windows,
            hourly_limit,
            burst_limit,
        ).allowed,
{
    let after = bucket::after_check(bucket, now, windows, hourly_limit, burst_limit);
    lemma_cutoff(now, windows.window);
    lemma_cutoff(now, windows.burst_window);
    lemma_cutoff(later, windows.window);
    lemma_cutoff(later, windows.burst_window);
    bucket::lemma_unexpired(bucket.hits, clock::cutoff(now.nanos as int, windows.window));
    bucket::lemma_stays_consistent(bucket, now, windows, hourly_limit, burst_limit);
    law_waiting_frees_a_slot(bucket, now, later, windows, hourly_limit, burst_limit);
    bucket::lemma_stays_consistent(after, later, windows, hourly_limit, burst_limit);
}

/// A client that is refused for its burst alone, and waits as long as it was told,
/// is granted its next request.
pub proof fn law_retry_after_a_burst_is_granted(
    bucket: BucketView,
    now: Moment,
    later: Moment,
    windows: Windows,
    hourly_limit: u32,
    burst_limit: u32,
)
    requires
        measurable(windows),
        0 < burst_limit,
        bucket::in_window(bucket, now, windows).len() < hourly_limit,
        forall|i: int| 0 <= i < bucket.burst_hits.len() ==> bucket.burst_hits[i] <= now.nanos,
        !bucket::decision(bucket, now, windows, hourly_limit, burst_limit).allowed,
        later.nanos >= now.nanos + bucket::decision(
            bucket,
            now,
            windows,
            hourly_limit,
            burst_limit,
        ).reset_seconds * 1_000_000_000,
    ensures
        bucket::decision(
            bucket::after_check(bucket, now, windows, hourly_limit, burst_limit),
            later,
            windows,
            hourly_limit,
            burst_limit,
        ).allowed,
{
    let after = bucket::slid(bucket, now, windows);
    bucket::lemma_unexpired(
        bucket.burst_hits,
        clock::cutoff(now.nanos as int, windows.burst_window),
    );
    lemma_cutoff(later, windows.burst_window);
    assert(now.nanos <= later.nanos - windows.burst_window);
    lemma_all_expired(after.burst_hits, later.nanos - windows.burst_window);
    lemma_cutoff(now, windows.window);
    lemma_cutoff(later, windows.window);
    let cutoff = now.nanos - windows.window;
    let later_cutoff = later.nanos - windows.window;
    bucket::lemma_unexpired_twice(bucket.hits, bucket::horizon(now, windows), later_cutoff);
    bucket::lemma_unexpired_twice(bucket.hits, cutoff, later_cutoff);
    bucket::lemma_unexpired(bucket::unexpired(bucket.hits, cutoff), later_cutoff);
}

/// Of moments in order, as many lie after the cutoff as sliding leaves: what a
/// snapshot counts is what a check would find.
pub proof fn law_snapshot_counts_what_a_check_finds(hits: Seq<u64>, cutoff: int)
    requires
        in_order(hits),
    ensures
        bucket::count_after(hits, cutoff) == bucket::unexpired(hits, cutoff).len(),
{
    bucket::lemma_unexpired(hits, cutoff);
    let left = bucket::unexpired(hits, cutoff);
    let gone = hits.len() - left.len();
    assert forall|i: int| gone <= i < hits.len() implies hits[i] > cutoff by {
        assert(left[0] == hits[gone]);
    }
    lemma_count(hits, cutoff, gone);
}

proof fn lemma_count(hits: Seq<u64>, cutoff: int, gone: int)
    requires
        0 <= gone <= hits.len(),
        forall|i: int| 0 <= i < gone ==> hits[i] <= cutoff,
        forall|i: int| gone <= i < hits.len() ==> hits[i] > cutoff,
    ensures
        bucket::count_after(hits, cutoff) == hits.len() - gone,
    decreases hits.len(),
{
    if hits.len() > 0 {
        let front = hits.drop_last();
        if gone == hits.len() {
            lemma_count(front, cutoff, gone - 1);
        } else {
            lemma_count(front, cutoff, gone);
        }
    }
}

/// A bucket that has seen no traffic for two of its windows decides on any later
/// request, and holds after it, what an empty one would. The burst window must
/// not be longer than two windows.
pub proof fn law_idle_bucket_is_as_good_as_none(
    bucket: BucketView,
    now: Moment,
    later: Moment,
    windows: Windows,
    hourly_limit: u32,
    burst_limit: u32,
)
    requires
        measurable(windows),
        0 < windows.window,
        windows.burst_window <= 2 * windows.window,
        bucket.window == windows.window,
        in_order(bucket.hits),
        in_order(bucket.burst_hits),
        !bucket::is_active(bucket, now),
        now.nanos <= later.nanos,
    ensures
        bucket::decision(bucket, later, windows, hourly_limit, burst_limit) == bucket::decision(
            BucketView::empty(),
            later,
            windows,
            hourly_limit,
            burst_limit,
        ),
        bucket::after_check(bucket, later, windows, hourly_limit, burst_limit)
            == bucket::after_check(
            BucketView::empty(),
            later,
            windows,
            hourly_limit,
            burst_limit,
        ),
{
    lemma_cutoff(later, windows.window);
    lemma_cutoff(later, windows.burst_window);
    let cutoff = later.nanos - windows.window;
    let burst_cutoff = later.nanos - windows.burst_window;
    assert forall|i: int| 0 <= i < bucket.hits.len() implies bucket.hits[i] <= cutoff by {
        assert(bucket.hits[i] <= bucket.hits.last());
    }
    assert forall|i: int| 0 <= i < bucket.burst_hits.len() implies bucket.burst_hits[i]
        <= burst_cutoff by {
        assert(bucket.burst_hits[i] <= bucket.burst_hits.last());
    }
    assert forall|i: int| 0 <= i < bucket.hits.len() implies bucket.hits[i]
        <= burst_cutoff by {
        assert(bucket.hits[i] <= bucket.hits.last());
    }
    lemma_all_expired(bucket.hits, cutoff);
    lemma_all_expired(bucket.hits, burst_cutoff);
    lemma_all_expired(bucket.burst_hits, burst_cutoff);
    lemma_all_expired(Seq::empty(), cutoff);
    lemma_all_expired(Seq::empty(), burst_cutoff);
}

// ---------------------------------------------------------------------------
// Any run of requests
// ---------------------------------------------------------------------------

/// Without its last request a run is still in turn.
proof fn lemma_shorter_run(checks: Seq<Check>)
    requires
        in_turn(checks),
        checks.len() > 0,
    ensures
        in_turn(checks.drop_last()),
{
    let earlier = checks.drop_last();
    assert forall|i: int, j: int| 0 <= i <= j < earlier.len() implies (
    #[trigger] earlier[i]).now.nanos <= (#[trigger] earlier[j]).now.nanos by {
        assert(earlier[i] == checks[i] && earlier[j] == checks[j]);
    }
}

/// What a run of requests leaves: the latest granted requests, and every other
/// granted request had left both windows when the last request came; likewise for
/// the burst window.
proof fn lemma_run(checks: Seq<Check>, windows: Windows)
    requires
        in_turn(checks),
        measurable(windows),
    ensures
        ({
            let grants = granted(checks, windows);
            let after = after_run(checks, windows);
            &&& after.hits.len() <= grants.len()
            &&& after.burst_hits.len() <= grants.len()
            &&& forall|i: int|
                0 <= i < after.hits.len() ==> #[trigger] after.hits[i] == grants[grants.len()
                    - after.hits.len() + i].now.nanos
            &&& forall|i: int|
                0 <= i < after.burst_hits.len() ==> #[trigger] after.burst_hits[i]
                    == grants[grants.len() - after.burst_hits.len() + i].now.nanos
            &&& forall|i: int|
                0 <= i < grants.len() - after.hits.len() ==> (
                #[trigger] grants[i]).now.nanos + windows.window <= checks.last().now.nanos
                    && grants[i].now.nanos + windows.burst_window <= checks.last().now.nanos
            &&& forall|i: int|
                0 <= i < grants.len() - after.burst_hits.len() ==> (
                #[trigger] grants[i]).now.nanos + windows.burst_window <= checks.last().now.nanos
        }),
    decreases checks.len(),
{
    if checks.len() > 0 {
        let earlier = checks.drop_last();
        let now = checks.last().now;
        lemma_shorter_run(checks);
        lemma_run(earlier, windows);
        let before = after_run(earlier, windows);
        let grants = granted(earlier, windows);
        if earlier.len() > 0 {
            assert(checks[earlier.len() - 1] == earlier.last());
            assert(checks[checks.len() - 1] == checks.last());
            assert(earlier.last().now.nanos <= now.nanos);
        }
        lemma_cutoff(now, windows.window);
        lemma_cutoff(now, windows.burst_window);
        bucket::lemma_unexpired(before.hits, bucket::horizon(now, windows));
        bucket::lemma_unexpired(before.burst_hits, now.nanos - windows.burst_window);
        let current = bucket::slid(before, now, windows);
        assert forall|i: int| 0 <= i < grants.len() - current.hits.len() implies (
        #[trigger] grants[i]).now.nanos + windows.window <= now.nanos && grants[i].now.nanos
            + windows.burst_window <= now.nanos by {
            let k = i - (grants.len() - before.hits.len());
            if k >= 0 {
                assert(before.hits[k] <= bucket::horizon(now, windows));
            }
        }
        assert forall|i: int| 0 <= i < grants.len() - current.burst_hits.len() implies (
        #[trigger] grants[i]).now.nanos + windows.burst_window <= now.nanos by {
            let k = i - (grants.len() - before.burst_hits.len());
            if k >= 0 {
                assert(before.burst_hits[k] <= now.nanos - windows.burst_window);
            }
        }
        let gone = before.hits.len() - current.hits.len();
        let burst_gone = before.burst_hits.len() - current.burst_hits.len();
        assert forall|i: int| 0 <= i < current.hits.len() implies #[trigger] current.hits[i]
            == grants[grants.len() - current.hits.len() + i].now.nanos by {
            assert(current.hits[i] == before.hits[gone + i]);
        }
        assert forall|i: int| 0 <= i < current.burst_hits.len() implies #[trigger] current.burst_hits[i]
            == grants[grants.len() - current.burst_hits.len() + i].now.nanos by {
            assert(current.burst_hits[i] == before.burst_hits[burst_gone + i]);
        }
    }
}

/// A client's grants are spread: a request granted under a limit of `n` comes at
/// least a window after the `n`-th grant before it, and likewise for the burst
/// limit and the burst window. So no window that slides over the run ever holds
/// more grants than the limit.
pub proof fn law_grants_are_spread(checks: Seq<Check>, windows: Windows, k: int)
    requires
        in_turn(checks),
        measurable(windows),
        0 <= k < granted(checks, windows).len(),
    ensures
        ({
            let grants = granted(checks, windows);
            let grant = grants[k];
            &&& 0 < grant.hourly_limit && 0 < grant.burst_limit
            &&& grant.hourly_limit <= k ==> grants[k - grant.hourly_limit].now.nanos
                + windows.window <= grant.now.nanos
            &&& grant.burst_limit <= k ==> grants[k - grant.burst_limit].now.nanos
                + windows.burst_window <= grant.now.nanos
        }),
    decreases checks.len(),
{
    let earlier = checks.drop_last();
    let grants = granted(earlier, windows);
    let now = checks.last().now;
    lemma_shorter_run(checks);
    if k < grants.len() {
        law_grants_are_spread(earlier, windows, k);
    } else {
        lemma_run(checks, windows);
        lemma_run(earlier, windows);
        let before = after_run(earlier, windows);
        let after = after_run(checks, windows);
        let held = bucket::in_window(before, now, windows);
        assert(after.burst_hits.len() == bucket::in_burst_window(before, now, windows).len() + 1);
        lemma_cutoff(now, windows.window);
        bucket::lemma_unexpired(before.hits, now.nanos - windows.window);
        if earlier.len() > 0 {
            assert(checks[earlier.len() - 1] == earlier.last());
            assert(checks[checks.len() - 1] == checks.last());
        }
        let limit = checks.last().hourly_limit;
        if limit <= k {
            let place = before.hits.len() - limit;
            if place >= 0 {
                assert(before.hits[place] <= now.nanos - windows.window);
                assert(before.hits[place] == grants[k - limit].now.nanos);
            }
        }
    }
}

/// A client that starts afresh and sends its requests within one window gets as
/// many of them granted as the limit admits, the first ones, and no more, as long
/// as the burst limit is not below the limit.
pub proof fn law_quota_can_be_spent_and_no_more(
    checks: Seq<Check>,
    windows: Windows,
    hourly_limit: u32,
    burst_limit: u32,
)
    requires
        in_turn(checks),
        measurable(windows),
        hourly_limit <= burst_limit,
        forall|i: int|
            0 <= i < checks.len() ==> (#[trigger] checks[i]).hourly_limit == hourly_limit
                && checks[i].burst_limit == burst_limit && checks[i].now.nanos
                < checks[0].now.nanos + windows.window,
    ensures
        granted(checks, windows) == checks.take(
            if checks.len() <= hourly_limit {
                checks.len() as int
            } else {
                hourly_limit as int
            },
        ),
        checks.len() > 0 ==> (last_granted(checks, windows) <==> checks.len() <= hourly_limit),
    decreases checks.len(),
{
    if checks.len() == 0 {
        assert(checks.take(0) =~= Seq::<Check>::empty());
    } else {
        let earlier = checks.drop_last();
        lemma_shorter_run(checks);
        assert forall|i: int| 0 <= i < earlier.len() implies (
        #[trigger] earlier[i]).hourly_limit == hourly_limit && earlier[i].burst_limit
            == burst_limit && earlier[i].now.nanos < earlier[0].now.nanos + windows.window by {
            assert(earlier[i] == checks[i]);
            assert(earlier[0] == checks[0]);
        }
        law_quota_can_be_spent_and_no_more(earlier, windows, hourly_limit, burst_limit);
        lemma_run(earlier, windows);
        let n = if earlier.len() <= hourly_limit {
            earlier.len() as int
        } else {
            hourly_limit as int
        };
        let now = checks.last().now;
        let before = after_run(earlier, windows);
        let grants = granted(earlier, windows);
        assert(grants == earlier.take(n));
        if before.hits.len() < grants.len() {
            assert(grants[0] == checks[0]);
            assert(earlier.last() == checks[earlier.len() - 1]);
        }
        lemma_cutoff(now, windows.window);
        assert(checks.last() == checks[checks.len() - 1]);
        assert forall|i: int| 0 <= i < before.hits.len() implies before.hits[i] > now.nanos
            - windows.window by {
            assert(before.hits[i] == grants[i].now.nanos);
            assert(grants[i] == checks[i]);
            assert(checks[0].now.nanos <= checks[i].now.nanos);
        }
        lemma_none_expired(before.hits, now.nanos - windows.window);
        bucket::lemma_unexpired(
            before.burst_hits,
            clock::cutoff(now.nanos as int, windows.burst_window),
        );
        let m = if checks.len() <= hourly_limit {
            checks.len() as int
        } else {
            hourly_limit as int
        };
        assert(granted(checks, windows) =~= checks.take(m));
    }
}

/// What a run under one pair of limits leaves: no more than the limit admits, and
/// in the burst window the latest of it.
proof fn lemma_run_under_limits(
    checks: Seq<Check>,
    windows: Windows,
    hourly_limit: u32,
    burst_limit: u32,
)
    requires
        in_turn(checks),
        measurable(windows),
        windows.burst_window <= windows.window,
        under_limits(checks, hourly_limit, burst_limit),
    ensures
        ({
            let after = after_run(checks, windows);
            &&& after.hits.len() <= hourly_limit
            &&& after.burst_hits.is_suffix_of(after.hits)
            &&& forall|i: int|
                0 <= i < after.hits.len() ==> after.hits[i] <= checks.last().now.nanos
        }),
    decreases checks.len(),
{
    if checks.len() > 0 {
        let earlier = checks.drop_last();
        let check = checks.last();
        lemma_shorter_run(checks);
        assert(under_limits(earlier, hourly_limit, burst_limit)) by {
            assert forall|i: int| 0 <= i < earlier.len() implies (
            #[trigger] earlier[i]).hourly_limit == hourly_limit && earlier[i].burst_limit
                == burst_limit by {
                assert(earlier[i] == checks[i]);
            }
        }
        assert(check == checks[checks.len() - 1]);
        lemma_run_under_limits(earlier, windows, hourly_limit, burst_limit);
        let before = after_run(earlier, windows);
        law_burst_hits_are_latest_hits(before, check.now, windows, hourly_limit, burst_limit);
        bucket::lemma_unexpired(before.hits, clock::cutoff(check.now.nanos as int, windows.window));
        if earlier.len() > 0 {
            assert(earlier.last() == checks[earlier.len() - 1]);
        }
    }
}

/// A client that always asks under the same limits, however often and whenever it
/// did so before, is granted its next request once it has waited as long as its
/// last refusal told it.
pub proof fn law_refused_client_gets_in_after_the_wait(
    checks: Seq<Check>,
    windows: Windows,
    hourly_limit: u32,
    burst_limit: u32,
    retry: Check,
)
    requires
        in_turn(checks),
        measurable(windows),
        windows.burst_window <= windows.window,
        0 < hourly_limit <= burst_limit,
        checks.len() > 0,
        under_limits(checks.push(retry), hourly_limit, burst_limit),
        !last_granted(checks, windows),
        retry.now.nanos >= checks.last().now.nanos + bucket::decision(
            after_run(checks.drop_last(), windows),
            checks.last().now,
            windows,
            hourly_limit,
            burst_limit,
        ).reset_seconds * 1_000_000_000,
    ensures
        last_granted(checks.push(retry), windows),
{
    let earlier = checks.drop_last();
    let check = checks.last();
    let whole = checks.push(retry);
    assert forall|i: int| 0 <= i < checks.len() implies (#[trigger] checks[i]).hourly_limit
        == hourly_limit && checks[i].burst_limit == burst_limit by {
        assert(whole[i] == checks[i]);
    }
    assert forall|i: int| 0 <= i < earlier.len() implies (#[trigger] earlier[i]).hourly_limit
        == hourly_limit && earlier[i].burst_limit == burst_limit by {
        assert(earlier[i] == checks[i]);
    }
    assert(whole[checks.len() as int] == retry);
    assert(check == checks[checks.len() - 1]);
    lemma_shorter_run(checks);
    lemma_run_under_limits(earlier, windows, hourly_limit, burst_limit);
    if earlier.len() > 0 {
        assert(earlier.last() == checks[earlier.len() - 1]);
    }
    assert(whole.drop_last() =~= checks);
    law_retry_after_the_wait_is_granted(
        after_run(earlier, windows),
        check.now,
        retry.now,
        windows,
        hourly_limit,
        burst_limit,
    );
}

} // verus!
