//! Click-to-photon: how long after an input the frame it caused is drawn.
//!
//! Both ends of the measurement happen in the page, and an idle desktop sends no
//! frames at all, so the first frame drawn after an input is the frame that
//! input caused. Times are doubles, in milliseconds, held as their IEEE 754 bit
//! patterns.

use vstd::prelude::*;

verus! {

/// How many samples the summary is computed over.
pub const WINDOW: usize = 60;

/// The bit pattern of ten thousand, from which on a sample is absurd. Of doubles
/// without a sign the patterns order as the numbers do; those with one, and those
/// that are no numbers, have larger patterns still.
pub const ABSURD: u64 = 0x40c3_8800_0000_0000;

/// The bit pattern of a zero with a sign, which is a zero all the same.
pub const SIGNED_ZERO: u64 = 0x8000_0000_0000_0000;

/// Is this the pattern of a sample worth taking: not negative, and below ten
/// thousand?
pub open spec fn plausible(elapsed: u64) -> bool {
    elapsed < ABSURD || elapsed == SIGNED_ZERO
}

/// Where the double of a pattern stands among all of them: by value, a zero with
/// a sign below one without.
pub open spec fn place(pattern: u64) -> int {
    if pattern < SIGNED_ZERO {
        pattern as int
    } else {
        SIGNED_ZERO - 1 - pattern
    }
}

/// Does one double stand at or below another?
fn stands_below(one: u64, other: u64) -> (below: bool)
    ensures
        below == (place(one) <= place(other)),
{
    if one < SIGNED_ZERO {
        other < SIGNED_ZERO && one <= other
    } else {
        other < SIGNED_ZERO || other <= one
    }
}

/// Input-to-frame timing over a rolling window.
#[derive(Debug)]
pub struct Latency {
    /// When the outstanding input was sent, if one has not yet been answered.
    pub pending: Option<u64>,
    pub samples: Vec<u64>,
}

/// The input that waits for a frame once one more was sent.
pub open spec fn outstanding(pending: Option<u64>, now: Option<u64>) -> Option<u64> {
    if pending is Some {
        pending
    } else {
        now
    }
}

/// Is a list in rising order?
pub open spec fn rising(list: Seq<u64>) -> bool {
    forall|i: int, j: int|
        0 <= i < j < list.len() ==> place(#[trigger] list[i]) <= place(#[trigger] list[j])
}

/// The samples once one more was taken: the oldest go when there are too many.
pub open spec fn recorded(samples: Seq<u64>, elapsed: u64) -> Seq<u64> {
    let all = samples.push(elapsed);
    if all.len() > WINDOW {
        all.drop_first()
    } else {
        all
    }
}

/// Is this the median, the worst and the number of the samples?
pub open spec fn summarises(samples: Seq<u64>, median: u64, worst: u64, count: int) -> bool {
    &&& count == samples.len()
    &&& exists|sorted: Seq<u64>| #[trigger]
        rising(sorted) && sorted.to_multiset() == samples.to_multiset() && sorted.len()
            == samples.len() && median == sorted[samples.len() as int / 2] && worst
            == sorted.last()
}

proof fn insertion_keeps_order(list: Seq<u64>, at: int, value: u64)
    requires
        rising(list),
        0 <= at <= list.len(),
        forall|i: int| 0 <= i < at ==> place(#[trigger] list[i]) <= place(value),
        forall|i: int| at <= i < list.len() ==> place(value) <= place(#[trigger] list[i]),
    ensures
        rising(list.insert(at, value)),
        list.insert(at, value).to_multiset() == list.to_multiset().insert(value),
{
    broadcast use vstd::seq_lib::group_to_multiset_ensures;

    let next = list.insert(at, value);
    assert forall|i: int, j: int| 0 <= i < j < next.len() implies place(#[trigger] next[i])
        <= place(#[trigger] next[j]) by {
        if j < at {
            assert(next[i] == list[i] && next[j] == list[j]);
        } else if j == at {
            assert(next[i] == list[i]);
        } else if i < at {
            assert(next[i] == list[i] && next[j] == list[j - 1]);
        } else if i == at {
            assert(next[j] == list[j - 1]);
        } else {
            assert(next[i] == list[i - 1] && next[j] == list[j - 1]);
        }
    }
}

/// A list in rising order.
fn sorted(list: &Vec<u64>) -> (result: Vec<u64>)
    ensures
        rising(result@),
        result@.to_multiset() == list@.to_multiset(),
        result@.len() == list@.len(),
{
    broadcast use vstd::seq_lib::group_to_multiset_ensures;

    let mut result: Vec<u64> = Vec::new();
    let mut i: usize = 0;
    assert(list@.take(0) =~= result@);
    while i < list.len()
        invariant
            i <= list@.len(),
            rising(result@),
            result@.len() == i,
            result@.to_multiset() == list@.take(i as int).to_multiset(),
        decreases list@.len() - i,
    {
        let value = list[i];
        let mut at: usize = 0;
        while at < result.len() && stands_below(result[at], value)
            invariant
                at <= result@.len(),
                rising(result@),
                forall|k: int| 0 <= k < at ==> place(#[trigger] result@[k]) <= place(value),
            decreases result@.len() - at,
        {
            at += 1;
        }
        proof {
            broadcast use vstd::seq_lib::group_to_multiset_ensures;

            assert forall|k: int| at <= k < result@.len() implies place(value) <= place(
                #[trigger] result@[k],
            ) by {
                if k > at {
                    assert(place(result@[at as int]) <= place(result@[k]));
                }
            }
            insertion_keeps_order(result@, at as int, value);
            assert(list@.take(i + 1) =~= list@.take(i as int).push(value));
        }
        result.insert(at, value);
        i += 1;
    }
    assert(list@.take(i as int) =~= list@);
    result
}

impl Latency {
    /// No input and no samples yet.
    #[must_use]
    pub fn new() -> (latency: Self)
        ensures
            latency.pending is None,
            latency.samples@ == Seq::<u64>::empty(),
    {
        Latency { pending: None, samples: Vec::new() }
    }

    /// An input just went to the compositor, at this time if there is a clock.
    ///
    /// Only the first of a burst is kept: holding a key down produces events
    /// faster than frames come back, and timing the newest against the next frame
    /// would measure the tail of the burst rather than the round trip.
    pub fn input_sent(&mut self, now: Option<u64>)
        ensures
            final(self).samples == old(self).samples,
            final(self).pending == outstanding(old(self).pending, now),
            final(self).pending == (if old(self).pending is Some {
                old(self).pending
            } else {
                now
            }),
    {
        if self.pending.is_none() {
            self.pending = now;
        }
    }

    /// A frame reached the screen: when the input it answers was sent, if one was
    /// outstanding.
    pub fn frame_drawn(&mut self) -> (sent: Option<u64>)
        ensures
            sent == old(self).pending,
            final(self).pending is None,
            final(self).samples == old(self).samples,
    {
        let sent = self.pending;
        self.pending = None;
        sent
    }

    /// Take the time that passed between the two. A negative or absurd sample
    /// means the clock or the pairing is wrong; recording it would quietly poison
    /// the median.
    pub fn record(&mut self, elapsed: u64) -> (sample: Option<u64>)
        ensures
            final(self).pending == old(self).pending,
            if plausible(elapsed) {
                sample == Some(elapsed) && final(self).samples@ == recorded(
                    old(self).samples@,
                    elapsed,
                )
            } else {
                sample is None && final(self).samples == old(self).samples
            },
    {
        if elapsed >= ABSURD && elapsed != SIGNED_ZERO {
            return None;
        }
        self.samples.push(elapsed);
        if self.samples.len() > WINDOW {
            self.samples.remove(0);
            assert(self.samples@ =~= recorded(old(self).samples@, elapsed));
        }
        Some(elapsed)
    }

    /// Median and worst of the recent samples, and how many there are.
    #[must_use]
    pub fn summary(&self) -> (found: Option<(u64, u64, usize)>)
        ensures
            match found {
                Some((median, worst, count)) => self.samples@.len() > 0 && summarises(
                    self.samples@,
                    median,
                    worst,
                    count as int,
                ),
                None => self.samples@.len() == 0,
            },
    {
        let count = self.samples.len();
        if count == 0 {
            return None;
        }
        let list = sorted(&self.samples);
        let median = list[count / 2];
        let worst = list[count - 1];
        proof {
            assert(rising(list@) && list@.last() == worst);
        }
        Some((median, worst, count))
    }
}

/// The window never grows past its size.
pub proof fn the_window_is_bounded(samples: Seq<u64>, elapsed: u64)
    requires
        samples.len() <= WINDOW,
    ensures
        recorded(samples, elapsed).len() <= WINDOW,
        recorded(samples, elapsed).last() == elapsed,
{
}

/// The worst of the samples is one of them, and none stands above it. More than
/// half of them stand at the median or below it, and half of them or more stand at
/// it or above.
pub proof fn a_summary_is_of_the_samples(latency: Latency, median: u64, worst: u64, count: usize)
    requires
        call_ensures(Latency::summary, (&latency,), Some((median, worst, count))),
    ensures
        count == latency.samples@.len(),
        latency.samples@.contains(worst),
        latency.samples@.contains(median),
        forall|i: int|
            0 <= i < latency.samples@.len() ==> place(#[trigger] latency.samples@[i]) <= place(
                worst,
            ),
        2 * latency.samples@.to_multiset().filter(|one: u64| place(one) <= place(median)).len()
            > count,
        2 * latency.samples@.to_multiset().filter(|one: u64| place(one) >= place(median)).len()
            >= count,
{
    broadcast use vstd::seq_lib::group_to_multiset_ensures;
    broadcast use vstd::multiset::group_multiset_axioms;

    let samples = latency.samples@;
    let all = samples.to_multiset();
    let sorted = choose|sorted: Seq<u64>| #[trigger]
        rising(sorted) && sorted.to_multiset() == all && sorted.len() == samples.len() && median
            == sorted[samples.len() as int / 2] && worst == sorted.last();
    let half = samples.len() as int / 2;
    assert(sorted.contains(sorted[half]));
    assert(sorted.contains(sorted[sorted.len() - 1]));
    assert(all.count(worst) > 0 && all.count(median) > 0);
    assert forall|i: int| 0 <= i < samples.len() implies place(#[trigger] samples[i]) <= place(
        worst,
    ) by {
        assert(samples.contains(samples[i]));
        assert(all.count(samples[i]) > 0);
        assert(sorted.contains(samples[i]));
        let at = choose|k: int| 0 <= k < sorted.len() && sorted[k] == samples[i];
        assert(place(sorted[at]) <= place(sorted[sorted.len() - 1]));
    }
    let low = sorted.take(half + 1);
    let high = sorted.skip(half + 1);
    assert(low + high =~= sorted);
    vstd::seq_lib::lemma_multiset_commutative(low, high);
    let below = all.filter(|one: u64| place(one) <= place(median));
    assert forall|one: u64| #[trigger] low.to_multiset().count(one) <= below.count(one) by {
        if low.to_multiset().count(one) > 0 {
            assert(low.contains(one));
            let at = choose|k: int| 0 <= k < low.len() && low[k] == one;
            assert(sorted[at] == one);
            assert(place(sorted[at]) <= place(sorted[half]));
        }
    }
    assert(low.to_multiset().subset_of(below));
    assert(below.sub(low.to_multiset()).len() == below.len() - low.to_multiset().len());
    let front = sorted.take(half);
    let back = sorted.skip(half);
    assert(front + back =~= sorted);
    vstd::seq_lib::lemma_multiset_commutative(front, back);
    let above = all.filter(|one: u64| place(one) >= place(median));
    assert forall|one: u64| #[trigger] back.to_multiset().count(one) <= above.count(one) by {
        if back.to_multiset().count(one) > 0 {
            assert(back.contains(one));
            let at = choose|k: int| 0 <= k < back.len() && back[k] == one;
            assert(sorted[half + at] == one);
            assert(place(sorted[half]) <= place(sorted[half + at]));
        }
    }
    assert(back.to_multiset().subset_of(above));
    assert(above.sub(back.to_multiset()).len() == above.len() - back.to_multiset().len());
}

/// Of two samples in the window the later one stays at least as long: what the
/// window holds is what came last, in the order in which it came.
pub proof fn the_newest_samples_are_kept(samples: Seq<u64>, elapsed: u64, back: int)
    requires
        samples.len() <= WINDOW,
        0 <= back < samples.len(),
        back + 1 < WINDOW,
    ensures
        back + 1 < recorded(samples, elapsed).len(),
        recorded(samples, elapsed)[recorded(samples, elapsed).len() - 2 - back]
            == samples[samples.len() - 1 - back],
{
}

/// Of a burst of inputs the first is timed: those after it change nothing until a
/// frame answers it. Without one outstanding, the next is timed.
pub proof fn the_first_of_a_burst_is_timed(first: u64, second: Option<u64>, now: Option<u64>)
    ensures
        outstanding(outstanding(None, Some(first)), second) == Some(first),
        outstanding(None, now) == now,
{
}

} // verus!
