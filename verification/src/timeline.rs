//! Segment times: the expansion of a segment timeline, and the arithmetic
//! times of a template that has none.

use vstd::prelude::*;
use crate::manifest::TimelineEntry;

verus! {

/// How many segments a timeline entry stands for: its repeat count plus one,
/// and none where the repeat count is negative.
pub open spec fn entry_count(e: TimelineEntry) -> nat {
    let r: int = match e.r {
        Some(r) => r as int,
        None => 0,
    };
    if r < 0 {
        0
    } else {
        (r + 1) as nat
    }
}

/// `count` times that start at `start` and lie `d` apart.
pub open spec fn run_times(start: int, d: int, count: nat) -> Seq<int> {
    Seq::new(count, |k: int| start + k * d)
}

/// The time at which a timeline starts: the explicit start of its first
/// entry, or zero.
pub open spec fn timeline_start(timeline: Seq<TimelineEntry>) -> int {
    if timeline.len() > 0 {
        match timeline[0].t {
            Some(t) => t as int,
            None => 0,
        }
    } else {
        0
    }
}

/// The times of the entries of `timeline`, the first of them at `start`.
pub open spec fn times_from(timeline: Seq<TimelineEntry>, start: int) -> Seq<int>
    decreases timeline.len(),
{
    if timeline.len() == 0 {
        Seq::empty()
    } else {
        let e = timeline[0];
        run_times(start, e.d as int, entry_count(e)) + times_from(
            timeline.drop_first(),
            start + entry_count(e) * e.d,
        )
    }
}

/// The times of all segments of a timeline, in order.
pub open spec fn segment_times(timeline: Seq<TimelineEntry>) -> Seq<int> {
    times_from(timeline, timeline_start(timeline))
}

/// A sequence of machine integers as mathematical ones.
pub open spec fn ints(s: Seq<i128>) -> Seq<int> {
    Seq::new(s.len(), |i: int| s[i] as int)
}

/// How many segments a template without a timeline has: the period's length
/// in units of the timescale, divided by the segment duration. A negative
/// duration gives none; a zero duration gives none for an empty period and
/// as many as can be counted otherwise; a count never exceeds `usize::MAX`.
pub open spec fn template_count(period_secs: u64, timescale: u64, duration: i64) -> nat {
    let ticks: int = period_secs * timescale;
    if duration < 0 {
        0
    } else if duration == 0 {
        if ticks == 0 {
            0
        } else {
            usize::MAX as nat
        }
    } else if ticks / (duration as int) > usize::MAX {
        usize::MAX as nat
    } else {
        (ticks / (duration as int)) as nat
    }
}

/// The time of segment `index` of a template without a timeline.
pub open spec fn arithmetic_time(index: int, duration: i64) -> int {
    index * duration
}

proof fn lemma_run_step(start: int, d: int, k: nat)
    ensures
        run_times(start, d, k + 1) == run_times(start, d, k).push(start + k * d),
{
    assert(run_times(start, d, k + 1) =~= run_times(start, d, k).push(start + k * d));
}

/// Lists the times of all segments of a timeline.
pub fn compute_segment_times(timeline: &[TimelineEntry]) -> (times: Vec<i128>)
    ensures
        ints(times@) == segment_times(timeline@),
{
    let mut times: Vec<i128> = Vec::new();
    let n = timeline.len();
    let mut current: i128 = 0;
    if n > 0 {
        current = match timeline[0].t {
            Some(t) => t as i128,
            None => 0,
        };
    }
    let mut i: usize = 0;
    proof {
        assert(timeline@.subrange(0, n as int) =~= timeline@);
        assert(ints(times@) + segment_times(timeline@) =~= segment_times(timeline@));
    }
    while i < n
        invariant
            i <= n,
            n == timeline@.len(),
            ints(times@) + times_from(timeline@.subrange(i as int, n as int), current as int)
                == segment_times(timeline@),
            -(times@.len() + 1) * 0x8000_0000_0000_0000 <= current,
            current <= (times@.len() + 1) * 0x7fff_ffff_ffff_ffff,
            times@.len() <= usize::MAX,
        decreases n - i,
    {
        let e = timeline[i];
        let count: u64 = match e.r {
            Some(r) => if r < 0 {
                0
            } else {
                (r as u64) + 1
            },
            None => 1,
        };
        let ghost rest = timeline@.subrange(i as int, n as int);
        let ghost start = current as int;
        let ghost before = ints(times@);
        assert(rest[0] == e);
        assert(count == entry_count(e));
        let mut k: u64 = 0;
        proof {
            assert(run_times(start, e.d as int, 0) =~= Seq::<int>::empty());
            assert(before + run_times(start, e.d as int, 0) =~= before);
            assert(0 * (e.d as int) == 0) by (nonlinear_arith);
        }
        while k < count
            invariant
                k <= count,
                ints(times@) == before + run_times(start, e.d as int, k as nat),
                current == start + k * (e.d as int),
                -(times@.len() + 1) * 0x8000_0000_0000_0000 <= current,
                current <= (times@.len() + 1) * 0x7fff_ffff_ffff_ffff,
                times@.len() <= usize::MAX,
            decreases count - k,
        {
            let ghost old_ints = ints(times@);
            times.push(current);
            let len = times.len();
            proof {
                lemma_run_step(start, e.d as int, k as nat);
                assert(ints(times@) =~= old_ints.push(current as int));
                assert(before + run_times(start, e.d as int, (k + 1) as nat) =~= (before
                    + run_times(start, e.d as int, k as nat)).push(current as int));
                assert((k + 1) * (e.d as int) == k * (e.d as int) + (e.d as int))
                    by (nonlinear_arith);
                assert(len <= 0xffff_ffff_ffff_ffff);
            }
            current = current + e.d as i128;
            k = k + 1;
        }
        proof {
            assert(rest.drop_first() =~= timeline@.subrange(i + 1, n as int));
            let tail = times_from(rest.drop_first(), start + entry_count(e) * e.d);
            assert((before + run_times(start, e.d as int, count as nat)) + tail =~= before + (
            run_times(start, e.d as int, count as nat) + tail));
        }
        i = i + 1;
    }
    proof {
        assert(timeline@.subrange(n as int, n as int) =~= Seq::<TimelineEntry>::empty());
        assert(ints(times@) + Seq::<int>::empty() =~= ints(times@));
    }
    times
}

/// Counts the segments of a template that has no timeline.
pub fn count_template_segments(period_secs: u64, timescale: u64, duration: i64) -> (count: usize)
    ensures
        count == template_count(period_secs, timescale, duration),
{
    assert(period_secs * timescale <= 0xffff_ffff_ffff_ffff * 0xffff_ffff_ffff_ffff)
        by (nonlinear_arith)
        requires
            period_secs <= 0xffff_ffff_ffff_ffff,
            timescale <= 0xffff_ffff_ffff_ffff,
    ;
    let ticks: u128 = (period_secs as u128) * (timescale as u128);
    if duration < 0 {
        0
    } else if duration == 0 {
        if ticks == 0 {
            0
        } else {
            usize::MAX
        }
    } else {
        let quotient: u128 = ticks / (duration as u128);
        if quotient > usize::MAX as u128 {
            usize::MAX
        } else {
            quotient as usize
        }
    }
}

/// The time of segment `index` of a template without a timeline.
pub fn time_of_index(index: usize, duration: i64) -> (t: i128)
    ensures
        t == arithmetic_time(index as int, duration),
{
    assert(-0xffff_ffff_ffff_ffff * 0x8000_0000_0000_0000 <= index * duration
        <= 0xffff_ffff_ffff_ffff * 0x8000_0000_0000_0000) by (nonlinear_arith)
        requires
            0 <= index <= 0xffff_ffff_ffff_ffff,
            -0x8000_0000_0000_0000 <= duration <= 0x7fff_ffff_ffff_ffff,
    ;
    (index as i128) * (duration as i128)
}

} // verus!
