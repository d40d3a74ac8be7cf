//! Interval partitioner: splits the frame range `[0, total)` into contiguous
//! half-open sub-ranges, one per worker.
//!
//! An interval is a pair `(start, end)` that stands for the frame indices
//! `start <= frame < end`.

use vstd::prelude::*;

verus! {

/// Number of frames that every worker but the last one receives.
pub open spec fn share_size(total: int, workers: int) -> int {
    total / workers
}

/// The interval handed to worker `i` out of `workers`: `share_size` frames
/// starting at `i * share_size`, the last worker taking everything up to
/// `total`.
pub open spec fn share_of(total: int, workers: int, i: int) -> (int, int) {
    let size = share_size(total, workers);
    (
        i * size,
        if i == workers - 1 {
            total
        } else {
            (i + 1) * size
        },
    )
}

/// The split of `[0, total)` over `workers` workers, interval by interval.
pub open spec fn partition_spec(total: int, workers: int) -> Seq<(i32, i32)> {
    Seq::new(
        workers as nat,
        |i: int| (share_of(total, workers, i).0 as i32, share_of(total, workers, i).1 as i32),
    )
}

/// The worker count that is actually used for `total` frames when `workers`
/// run in parallel: never more workers than frames, and at least one.
pub open spec fn clamped_workers(total: int, workers: int) -> int {
    let cap = if total >= 1 {
        total
    } else {
        1
    };
    if workers <= cap {
        workers
    } else {
        cap
    }
}

/// The intervals that a job of `total` frames hands to its workers when
/// `parallelism` of them could run at once: the split over the clamped worker
/// count.
pub open spec fn plan_spec(total: int, parallelism: int) -> Seq<(i32, i32)> {
    partition_spec(total, clamped_workers(total, parallelism))
}

/// `frame` lies in the half-open interval.
pub open spec fn contains_frame(interval: (i32, i32), frame: int) -> bool {
    interval.0 <= frame < interval.1
}

/// Number of frames in the interval.
pub open spec fn interval_len(interval: (i32, i32)) -> int {
    interval.1 - interval.0
}

/// Some interval of the sequence holds `frame`.
pub open spec fn assigned(intervals: Seq<(i32, i32)>, frame: int) -> bool {
    exists|i: int| 0 <= i < intervals.len() && #[trigger] contains_frame(intervals[i], frame)
}

/// No frame lies in two intervals of the sequence.
pub open spec fn pairwise_disjoint(intervals: Seq<(i32, i32)>) -> bool {
    forall|i: int, j: int, frame: int|
        0 <= i < j < intervals.len() ==> !(#[trigger] contains_frame(intervals[i], frame)
            && #[trigger] contains_frame(intervals[j], frame))
}

/// The frames held by the intervals are exactly those of `[0, total)`.
pub open spec fn covers(intervals: Seq<(i32, i32)>, total: int) -> bool {
    forall|frame: int| #[trigger] assigned(intervals, frame) <==> 0 <= frame < total
}

/// The intervals split `[0, total)`: every frame of the range lies in exactly
/// one of them, and they hold nothing else.
pub open spec fn is_partition(intervals: Seq<(i32, i32)>, total: int) -> bool {
    pairwise_disjoint(intervals) && covers(intervals, total)
}

/// No interval has negative length, and each one starts where its
/// predecessor ends.
pub open spec fn chained(intervals: Seq<(i32, i32)>) -> bool {
    &&& forall|i: int| 0 <= i < intervals.len() ==> (#[trigger] intervals[i]).0 <= intervals[i].1
    &&& forall|i: int, j: int|
        0 <= i < intervals.len() && j == i + 1 && j < intervals.len() ==> (
        #[trigger] intervals[i]).1 == (#[trigger] intervals[j]).0
}

/// Every interval runs upwards and lies within `[0, total]`.
pub open spec fn within(intervals: Seq<(i32, i32)>, total: int) -> bool {
    forall|i: int|
        0 <= i < intervals.len() ==> 0 <= (#[trigger] intervals[i]).0 <= intervals[i].1 <= total
}

/// Frames held by the first `count` intervals, counted with multiplicity.
pub open spec fn frames_in(intervals: Seq<(i32, i32)>, count: int) -> int
    decreases count,
{
    if count <= 0 {
        0
    } else {
        frames_in(intervals, count - 1) + interval_len(intervals[count - 1])
    }
}

/// Of two intervals that follow one another without gap, the earlier one
/// ends before the later one starts, or where it starts.
pub proof fn lemma_chain_ordered(intervals: Seq<(i32, i32)>, i: int, j: int)
    requires
        chained(intervals),
        0 <= i <= j < intervals.len(),
    ensures
        intervals[i].0 <= intervals[j].0,
        intervals[i].1 <= intervals[j].1,
        i < j ==> intervals[i].1 <= intervals[j].0,
    decreases j - i,
{
    if i < j {
        lemma_chain_ordered(intervals, i, j - 1);
        assert(intervals[j - 1].1 == intervals[j].0);
    }
}

proof fn lemma_chain_reaches(intervals: Seq<(i32, i32)>, last: int, frame: int)
    requires
        chained(intervals),
        0 <= last < intervals.len(),
        intervals[0].0 <= frame < intervals[last].1,
    ensures
        exists|i: int| 0 <= i <= last && #[trigger] contains_frame(intervals[i], frame),
    decreases last,
{
    if intervals[last].0 <= frame {
        assert(contains_frame(intervals[last], frame));
    } else {
        assert(last > 0);
        assert(intervals[last - 1].1 == intervals[last].0);
        lemma_chain_reaches(intervals, last - 1, frame);
    }
}

/// Intervals that follow one another without gap, from 0 up to `total`, split
/// `[0, total)`.
pub proof fn lemma_chain_is_partition(intervals: Seq<(i32, i32)>, total: int)
    requires
        chained(intervals),
        intervals.len() >= 1,
        intervals[0].0 == 0,
        intervals[intervals.len() - 1].1 == total,
    ensures
        is_partition(intervals, total),
{
    let last = intervals.len() - 1;
    assert forall|i: int, j: int, frame: int| 0 <= i < j < intervals.len() implies !(
    #[trigger] contains_frame(intervals[i], frame) && #[trigger] contains_frame(
        intervals[j],
        frame,
    )) by {
        lemma_chain_ordered(intervals, i, j);
    }
    assert forall|frame: int| #[trigger] assigned(intervals, frame) <==> 0 <= frame < total by {
        if assigned(intervals, frame) {
            let i = choose|i: int|
                0 <= i < intervals.len() && #[trigger] contains_frame(intervals[i], frame);
            lemma_chain_ordered(intervals, 0, i);
            lemma_chain_ordered(intervals, i, last);
        }
        if 0 <= frame < total {
            lemma_chain_reaches(intervals, last, frame);
        }
    }
}

/// Intervals that follow one another without gap hold, all together, as many
/// frames as lie between the first start and the last end.
pub proof fn lemma_chain_frame_count(intervals: Seq<(i32, i32)>, count: int)
    requires
        chained(intervals),
        1 <= count <= intervals.len(),
    ensures
        frames_in(intervals, count) == intervals[count - 1].1 - intervals[0].0,
    decreases count,
{
    if count > 1 {
        lemma_chain_frame_count(intervals, count - 1);
        assert(intervals[count - 2].1 == intervals[count - 1].0);
    } else {
        assert(frames_in(intervals, 0) == 0);
    }
}

proof fn lemma_share_bounds(total: int, workers: int, i: int)
    requires
        0 <= total,
        1 <= workers,
        0 <= i < workers,
    ensures
        0 <= share_size(total, workers),
        0 <= i * share_size(total, workers),
        (i + 1) * share_size(total, workers) <= total,
        i * share_size(total, workers) + share_size(total, workers) == (i + 1) * share_size(
            total,
            workers,
        ),
{
    let size = total / workers;
    assert(0 <= size && workers * size <= total) by (nonlinear_arith)
        requires
            0 <= total,
            1 <= workers,
            size == total / workers,
    ;
    assert(0 <= i * size && (i + 1) * size <= workers * size && i * size + size == (i + 1) * size)
        by (nonlinear_arith)
        requires
            0 <= size,
            0 <= i < workers,
    ;
}

/// The split of `[0, total)` over any number of workers is a split indeed:
/// the intervals follow one another from 0 up to `total` without gap or
/// overlap, none has negative length, and every frame of the range lies in
/// exactly one of them.
pub proof fn lemma_partition_spec(total: int, workers: int)
    requires
        0 <= total <= i32::MAX,
        1 <= workers,
    ensures
        partition_spec(total, workers).len() == workers,
        chained(partition_spec(total, workers)),
        within(partition_spec(total, workers), total),
        is_partition(partition_spec(total, workers), total),
        frames_in(partition_spec(total, workers), workers) == total,
{
    let intervals = partition_spec(total, workers);
    assert forall|i: int| 0 <= i < intervals.len() implies 0 <= (#[trigger] intervals[i]).0
        <= intervals[i].1 <= total && intervals[i].0 == share_of(total, workers, i).0
        && intervals[i].1 == share_of(total, workers, i).1 by {
        lemma_share_bounds(total, workers, i);
    }
    assert forall|i: int, j: int|
        0 <= i < intervals.len() && j == i + 1 && j < intervals.len() implies (
    #[trigger] intervals[i]).1 == (#[trigger] intervals[j]).0 by {
        lemma_share_bounds(total, workers, i);
        lemma_share_bounds(total, workers, j);
    }
    lemma_chain_is_partition(intervals, total);
    lemma_chain_frame_count(intervals, workers);
}

/// With at most as many workers as frames, every worker's share holds at
/// least one frame.
pub proof fn lemma_clamped_shares_nonempty(total: int, workers: int, i: int)
    requires
        1 <= total,
        1 <= workers <= total,
        0 <= i < workers,
    ensures
        share_of(total, workers, i).0 < share_of(total, workers, i).1,
{
    let size = total / workers;
    assert(1 <= size && workers * size <= total) by (nonlinear_arith)
        requires
            1 <= workers <= total,
            size == total / workers,
    ;
    assert(i * size < (i + 1) * size && (i + 1) * size <= workers * size) by (nonlinear_arith)
        requires
            1 <= size,
            0 <= i < workers,
    ;
}

/// The intervals that a job hands to its workers split its frames, and while
/// the job has frames none of the intervals is empty.
pub proof fn lemma_plan_spec(total: int, parallelism: int)
    requires
        0 <= total <= i32::MAX,
        1 <= parallelism,
    ensures
        1 <= plan_spec(total, parallelism).len() <= parallelism,
        plan_spec(total, parallelism).len() == clamped_workers(total, parallelism),
        chained(plan_spec(total, parallelism)),
        within(plan_spec(total, parallelism), total),
        is_partition(plan_spec(total, parallelism), total),
        frames_in(plan_spec(total, parallelism), plan_spec(total, parallelism).len() as int)
            == total,
        total >= 1 ==> forall|i: int|
            0 <= i < plan_spec(total, parallelism).len() ==> (#[trigger] plan_spec(
                total,
                parallelism,
            )[i]).0 < plan_spec(total, parallelism)[i].1,
{
    let workers = clamped_workers(total, parallelism);
    let intervals = plan_spec(total, parallelism);
    lemma_partition_spec(total, workers);
    if total >= 1 {
        assert forall|i: int| 0 <= i < intervals.len() implies (#[trigger] intervals[i]).0
            < intervals[i].1 by {
            lemma_share_bounds(total, workers, i);
            lemma_clamped_shares_nonempty(total, workers, i);
        }
    }
}

/// Splits the frame range `[0, integer)` into `n` contiguous intervals of
/// `integer / n` frames each, the last one also taking the remainder.
pub fn split_integer_into_intervals(integer: i32, n: usize) -> (intervals: Vec<(i32, i32)>)
    requires
        integer >= 0,
        n >= 1,
    ensures
        intervals@ == partition_spec(integer as int, n as int),
        chained(intervals@),
        within(intervals@, integer as int),
        is_partition(intervals@, integer as int),
        frames_in(intervals@, n as int) == integer,
{
    let size: i32 = if n > integer as usize {
        0
    } else {
        integer / (n as i32)
    };
    proof {
        if n > integer {
            vstd::arithmetic::div_mod::lemma_basic_div(integer as int, n as int);
        }
    }
    let mut intervals: Vec<(i32, i32)> = Vec::new();
    let mut start: i32 = 0;
    let mut i: usize = 0;
    while i < n - 1
        invariant
            integer >= 0,
            n >= 1,
            0 <= i <= n - 1,
            size == share_size(integer as int, n as int),
            start == i * size,
            intervals@.len() == i,
            forall|k: int|
                0 <= k < i ==> (#[trigger] intervals@[k]).0 == k * size && intervals@[k].1 == (k
                    + 1) * size,
        decreases n - 1 - i,
    {
        proof {
            lemma_share_bounds(integer as int, n as int, i as int);
        }
        let end: i32 = start + size;
        intervals.push((start, end));
        start = end;
        i = i + 1;
    }
    intervals.push((start, integer));
    proof {
        assert forall|k: int| 0 <= k < n implies #[trigger] intervals@[k] == partition_spec(
            integer as int,
            n as int,
        )[k] by {
            lemma_share_bounds(integer as int, n as int, k);
        }
        assert(intervals@ =~= partition_spec(integer as int, n as int));
        lemma_partition_spec(integer as int, n as int);
    }
    intervals
}

/// Caps the number of workers at the number of frames, keeping at least one
/// worker, so that no worker is left with an empty interval while there are
/// frames to fetch.
pub fn clamp_worker_count(total_frames: i32, worker_count: usize) -> (clamped: usize)
    requires
        total_frames >= 0,
        worker_count >= 1,
    ensures
        clamped == clamped_workers(total_frames as int, worker_count as int),
        1 <= clamped <= worker_count,
{
    let cap: usize = if total_frames >= 1 {
        total_frames as usize
    } else {
        1
    };
    if worker_count <= cap {
        worker_count
    } else {
        cap
    }
}

/// The intervals that a job of `total_frames` frames hands to its workers
/// when `parallelism` workers could run at once: the split of
/// `[0, total_frames)` over the clamped worker count.
pub fn plan_intervals(total_frames: i32, parallelism: usize) -> (intervals: Vec<(i32, i32)>)
    requires
        total_frames >= 0,
        parallelism >= 1,
    ensures
        intervals@ == plan_spec(total_frames as int, parallelism as int),
        chained(intervals@),
        within(intervals@, total_frames as int),
        is_partition(intervals@, total_frames as int),
        frames_in(intervals@, intervals@.len() as int) == total_frames,
        total_frames >= 1 ==> forall|i: int|
            0 <= i < intervals@.len() ==> (#[trigger] intervals@[i]).0 < intervals@[i].1,
{
    let workers = clamp_worker_count(total_frames, parallelism);
    let intervals = split_integer_into_intervals(total_frames, workers);
    proof {
        lemma_plan_spec(total_frames as int, parallelism as int);
    }
    intervals
}

} // verus!
