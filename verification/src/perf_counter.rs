//! A cycles-per-second counter over a bounded, most-recent-first history.
//!
//! Timestamps are nanosecond counts from a high-resolution clock, and every
//! sample is an exact integer rate (cycles per second, floored), so the
//! reported relative speed is an exact fraction of two integers.

use vstd::prelude::*;
use std::collections::VecDeque;

verus! {

/// Number of samples the history window retains.
pub const HISTORY_SIZE: usize = 64;

/// Clock rate of the real device being emulated, in cycles per second.
pub const EXPECTED_CYCLES_PER_SECOND: u64 = 4194304;

/// Timestamps and elapsed times are counted in nanoseconds.
pub const NANOS_PER_SECOND: u64 = 1000000000;

/// One throughput measurement, derived from a single `update` call.
///
/// A sample taken while the clock did not advance (elapsed time zero, or a
/// clock that moved backward) has no defined rate; such a sample stays in the
/// window like any other and makes the average undefined until it is evicted.
#[derive(Clone, Copy, Debug, PartialEq, Eq, Structural)]
pub enum Sample {
    /// Cycles per second, floored to an integer.
    Rate(u128),
    /// Taken while the clock did not advance.
    Undefined,
}

/// An exact relative-speed percentage, as the fraction `num / den`.
///
/// `100` means real-device speed; larger is faster than the real device.
#[derive(Clone, Copy, Debug, PartialEq, Eq, Structural)]
pub struct SpeedPercent {
    /// Numerator of the percentage.
    pub num: u128,
    /// Denominator of the percentage; always positive.
    pub den: u128,
}

/// The largest rate one sample can hold: `u64::MAX` cycles in one nanosecond.
pub open spec fn max_rate() -> int {
    u64::MAX * NANOS_PER_SECOND
}

/// The rate a sample holds, as a mathematical integer; an undefined sample
/// counts as zero (it never reaches a defined average anyway).
pub open spec fn rate_value(s: Sample) -> int {
    match s {
        Sample::Rate(r) => r as int,
        Sample::Undefined => 0,
    }
}

/// Every rate a counter ever stores lies within `max_rate()`.
pub open spec fn sample_bounded(s: Sample) -> bool {
    match s {
        Sample::Rate(r) => r <= max_rate(),
        Sample::Undefined => true,
    }
}

/// The sample an update records: work done since the previous timestamp,
/// divided by the elapsed time, scaled to cycles per second.
pub open spec fn sample_at(cycles: u64, last: u64, now: u64) -> Sample {
    if now > last {
        Sample::Rate(((cycles * NANOS_PER_SECOND) / (now - last)) as u128)
    } else {
        Sample::Undefined
    }
}

/// The history after making room for one more sample: a full window loses
/// its oldest sample (the back); a window below capacity is unchanged.
pub open spec fn evicted(s: Seq<Sample>) -> Seq<Sample> {
    if s.len() >= HISTORY_SIZE {
        s.drop_last()
    } else {
        s
    }
}

/// The history after one update: the new sample enters at the front, after
/// eviction made room for it.
pub open spec fn pushed(s: Seq<Sample>, x: Sample) -> Seq<Sample> {
    seq![x] + evicted(s)
}

/// Whether every sample in the window holds a defined rate.
pub open spec fn all_rates(s: Seq<Sample>) -> bool {
    forall|i: int| 0 <= i < s.len() ==> (#[trigger] s[i]) is Rate
}

/// The sum of the rates in the window.
pub open spec fn rate_sum(s: Seq<Sample>) -> int
    decreases s.len(),
{
    if s.len() == 0 {
        0
    } else {
        rate_sum(s.drop_last()) + rate_value(s.last())
    }
}

/// The relative speed a window yields: the mean of its rates over the real
/// device's rate, times 100, as an exact fraction. An empty window, or one
/// holding a sample with no defined rate, yields no speed.
pub open spec fn relative_speed(s: Seq<Sample>) -> Option<SpeedPercent> {
    if s.len() == 0 || !all_rates(s) {
        None
    } else {
        Some(
            SpeedPercent {
                num: (100 * rate_sum(s)) as u128,
                den: (s.len() * EXPECTED_CYCLES_PER_SECOND) as u128,
            },
        )
    }
}

/// One update step as a relation between the counter before and after it,
/// for a given cycle count and timestamp.
pub open spec fn updated(pre: PerfCounter, post: PerfCounter, cycles: u64, now_ns: u64) -> bool {
    &&& post.samples() == pushed(pre.samples(), sample_at(cycles, pre.last_instant(), now_ns))
    &&& post.last_instant() == now_ns
}

/// A cycles-per-second counter: a bounded history of recent throughput
/// samples (front = newest) and the timestamp of the most recent update.
pub struct PerfCounter {
    history: VecDeque<Sample>,
    last_time: u64,
}

impl PerfCounter {
    /// The samples currently in the window, newest first.
    pub closed spec fn samples(&self) -> Seq<Sample> {
        self.history@
    }

    /// The timestamp (in nanoseconds) of the most recent update, or of
    /// construction if no update has happened yet.
    pub closed spec fn last_instant(&self) -> u64 {
        self.last_time
    }

    /// Well-formedness: the window never exceeds its capacity, and every
    /// stored rate is bounded.
    pub open spec fn wf(&self) -> bool {
        &&& self.samples().len() <= HISTORY_SIZE
        &&& forall|i: int| 0 <= i < self.samples().len() ==> sample_bounded(#[trigger] self.samples()[i])
    }

    /// Creates a counter with an empty history whose `last_instant` is the
    /// given timestamp.
    pub fn new_at(now_ns: u64) -> (c: PerfCounter)
        ensures
            c.wf(),
            c.samples() == Seq::<Sample>::empty(),
            c.last_instant() == now_ns,
    {
        PerfCounter { history: VecDeque::with_capacity(HISTORY_SIZE), last_time: now_ns }
    }

    /// Creates a counter with an empty history, capturing the current time
    /// of the platform's high-resolution clock as its `last_instant`.
    pub fn new() -> (c: PerfCounter)
        ensures
            c.wf(),
            c.samples() == Seq::<Sample>::empty(),
    {
        PerfCounter::new_at(precise_time_nanos())
    }

    /// Records one update made at the current time of the platform's
    /// high-resolution clock. Whatever timestamp the clock yields, the window
    /// changes by exactly one update step taken at that timestamp.
    pub fn update(&mut self, cycles: u64)
        requires
            old(self).wf(),
        ensures
            final(self).wf(),
            exists|now_ns: u64| #[trigger] updated(*old(self), *final(self), cycles, now_ns),
            final(self).samples().len() == if old(self).samples().len() < HISTORY_SIZE {
                old(self).samples().len() as int + 1
            } else {
                HISTORY_SIZE as int
            },
    {
        let now_ns = precise_time_nanos();
        self.update_at(cycles, now_ns);
        proof {
            assert(updated(*old(self), *self, cycles, now_ns));
        }
    }

    /// Records one update made at the given timestamp: the work done since
    /// the previous timestamp becomes a sample, the oldest sample is evicted
    /// if the window is full, and the timestamp is remembered.
    pub fn update_at(&mut self, cycles: u64, now_ns: u64)
        requires
            old(self).wf(),
        ensures
            final(self).wf(),
            final(self).last_instant() == now_ns,
            final(self).samples() == pushed(
                old(self).samples(),
                sample_at(cycles, old(self).last_instant(), now_ns),
            ),
            final(self).samples().len() == if old(self).samples().len() < HISTORY_SIZE {
                old(self).samples().len() as int + 1
            } else {
                HISTORY_SIZE as int
            },
    {
        let sample = compute_sample(cycles, self.last_time, now_ns);
        self.make_room_for_new_element();
        self.history.push_front(sample);
        self.last_time = now_ns;
    }

    /// Evicts the oldest sample when the window is at capacity, so that one
    /// more sample fits.
    fn make_room_for_new_element(&mut self)
        ensures
            final(self).samples() == evicted(old(self).samples()),
            final(self).last_instant() == old(self).last_instant(),
    {
        if self.history.len() >= HISTORY_SIZE {
            let _ = self.history.pop_back();
        }
    }

    /// Returns the estimated relative speed in percentages compared to a real
    /// device: the mean of the windowed rates over the real device's rate,
    /// times 100, as an exact fraction.
    ///
    /// Returns `None` while no sample has been recorded, and while the window
    /// holds a sample with no defined rate. Reading mutates nothing, so two
    /// reads without an update in between return the same value.
    pub fn get_relative_speed(&self) -> (r: Option<SpeedPercent>)
        requires
            self.wf(),
        ensures
            r == relative_speed(self.samples()),
    {
        let ghost s = self.samples();
        let n = self.history.len();
        if n == 0 {
            return None;
        }
        let mut sum: u128 = 0;
        let mut i: usize = 0;
        while i < n
            invariant
                self.wf(),
                n == s.len(),
                s == self.samples(),
                i <= n,
                all_rates(s.take(i as int)),
                sum == rate_sum(s.take(i as int)),
                sum <= i * max_rate(),
            decreases n - i,
        {
            match self.history[i] {
                Sample::Rate(rate) => {
                    proof {
                        lemma_rate_sum_take_step(s, i as int);
                        assert((i + 1) * max_rate() == i * max_rate() + max_rate())
                            by (nonlinear_arith);
                        assert(HISTORY_SIZE * max_rate() < u128::MAX) by (nonlinear_arith);
                        assert(i * max_rate() <= HISTORY_SIZE * max_rate()) by (nonlinear_arith)
                            requires 0 <= i < HISTORY_SIZE, max_rate() > 0;
                    }
                    sum = sum + rate;
                },
                Sample::Undefined => {
                    assert(!all_rates(s));
                    return None;
                },
            }
            i = i + 1;
        }
        assert(s.take(n as int) =~= s);
        proof {
            lemma_rate_sum_bounds(s);
            assert(100 * rate_sum(s) <= 100 * (HISTORY_SIZE * max_rate())) by (nonlinear_arith)
                requires rate_sum(s) <= s.len() * max_rate(), s.len() <= HISTORY_SIZE, max_rate() > 0;
            assert(100 * (HISTORY_SIZE * max_rate()) < u128::MAX) by (nonlinear_arith);
        }
        let num: u128 = 100 * sum;
        let den: u128 = (n as u128) * (EXPECTED_CYCLES_PER_SECOND as u128);
        Some(SpeedPercent { num, den })
    }
}

/// The sum of the rates in a window of bounded samples is itself bounded:
/// it is non-negative and at most one `max_rate()` per sample.
pub proof fn lemma_rate_sum_bounds(s: Seq<Sample>)
    requires
        forall|i: int| 0 <= i < s.len() ==> sample_bounded(#[trigger] s[i]),
    ensures
        0 <= rate_sum(s) <= s.len() * max_rate(),
    decreases s.len(),
{
    if s.len() > 0 {
        assert(forall|i: int|
            0 <= i < s.drop_last().len() ==> sample_bounded(#[trigger] s.drop_last()[i]));
        lemma_rate_sum_bounds(s.drop_last());
        assert(s.len() * max_rate() == (s.len() - 1) * max_rate() + max_rate())
            by (nonlinear_arith);
    }
}

/// Extending a prefix of a window by its next sample adds that sample's rate
/// to the prefix's sum.
proof fn lemma_rate_sum_take_step(s: Seq<Sample>, i: int)
    requires
        0 <= i < s.len(),
    ensures
        rate_sum(s.take(i + 1)) == rate_sum(s.take(i)) + rate_value(s[i]),
{
    assert(s.take(i + 1).drop_last() =~= s.take(i));
    assert(s.take(i + 1).last() == s[i]);
}

/// An update taken with the clock advanced records a defined rate, so a
/// window holding only defined rates still holds only defined rates after it:
/// a run of updates with positive elapsed time never makes the speed
/// undefined.
pub proof fn lemma_update_keeps_rates(s: Seq<Sample>, cycles: u64, last: u64, now: u64)
    requires
        all_rates(s),
        now > last,
    ensures
        all_rates(pushed(s, sample_at(cycles, last, now))),
{
    let p = pushed(s, sample_at(cycles, last, now));
    assert forall|i: int| 0 <= i < p.len() implies (#[trigger] p[i]) is Rate by {
        if i > 0 {
            assert(p[i] == evicted(s)[i - 1]);
            if s.len() >= HISTORY_SIZE {
                assert(evicted(s)[i - 1] == s[i - 1]);
            }
        }
    }
}

/// A non-empty window holding only defined rates yields a defined speed: a
/// fraction with a positive denominator and a non-negative numerator. After
/// at least one update with positive elapsed time and no undefined samples,
/// the reported speed is a defined, non-negative number.
pub proof fn lemma_speed_defined(s: Seq<Sample>)
    requires
        1 <= s.len() <= HISTORY_SIZE,
        all_rates(s),
        forall|i: int| 0 <= i < s.len() ==> sample_bounded(#[trigger] s[i]),
    ensures
        relative_speed(s) matches Some(p) && p.den > 0 && p.num == 100 * rate_sum(s),
{
    lemma_rate_sum_bounds(s);
    assert(100 * rate_sum(s) <= 100 * (HISTORY_SIZE * max_rate())) by (nonlinear_arith)
        requires rate_sum(s) <= s.len() * max_rate(), s.len() <= HISTORY_SIZE, max_rate() > 0;
    assert(100 * (HISTORY_SIZE * max_rate()) < u128::MAX) by (nonlinear_arith);
    assert(s.len() * EXPECTED_CYCLES_PER_SECOND >= EXPECTED_CYCLES_PER_SECOND) by (nonlinear_arith)
        requires s.len() >= 1;
    assert(s.len() * EXPECTED_CYCLES_PER_SECOND <= HISTORY_SIZE * EXPECTED_CYCLES_PER_SECOND)
        by (nonlinear_arith)
        requires s.len() <= HISTORY_SIZE;
}

/// FIFO eviction: pushing a sample into a full window evicts the oldest
/// sample (the back), so a value held only there, and distinct from the new
/// sample, no longer occurs anywhere in the window.
pub proof fn lemma_fifo_eviction(s: Seq<Sample>, x: Sample)
    requires
        s.len() == HISTORY_SIZE,
        forall|i: int| 0 <= i < s.len() - 1 ==> (#[trigger] s[i]) != s.last(),
        x != s.last(),
    ensures
        !pushed(s, x).contains(s.last()),
{
    let p = pushed(s, x);
    assert forall|i: int| 0 <= i < p.len() implies (#[trigger] p[i]) != s.last() by {
        if i > 0 {
            assert(p[i] == s.drop_last()[i - 1]);
        }
    }
}

/// The sum of a window in which every sample holds one and the same rate is
/// that rate times the window's length.
pub proof fn lemma_rate_sum_constant(s: Seq<Sample>, c: u128)
    requires
        forall|i: int| 0 <= i < s.len() ==> (#[trigger] s[i]) == Sample::Rate(c),
    ensures
        rate_sum(s) == s.len() * c,
    decreases s.len(),
{
    if s.len() > 0 {
        lemma_rate_sum_constant(s.drop_last(), c);
        assert(s.len() * c == (s.len() - 1) * c + c) by (nonlinear_arith);
    }
}

/// Mean correctness: when every sample in a non-empty window equals the same
/// rate `c`, the reported speed is exactly `(c / EXPECTED_CYCLES_PER_SECOND)
/// * 100` as a fraction: its numerator is `100 * len * c`, its denominator
/// `len * EXPECTED_CYCLES_PER_SECOND`, and cross-multiplication shows the
/// fraction equal to `100 * c` over `EXPECTED_CYCLES_PER_SECOND`.
pub proof fn lemma_constant_rate_mean(s: Seq<Sample>, c: u128)
    requires
        1 <= s.len() <= HISTORY_SIZE,
        c <= max_rate(),
        forall|i: int| 0 <= i < s.len() ==> (#[trigger] s[i]) == Sample::Rate(c),
    ensures
        relative_speed(s) matches Some(p)
            && p.num == 100 * s.len() * c
            && p.den == s.len() * EXPECTED_CYCLES_PER_SECOND
            && p.num * EXPECTED_CYCLES_PER_SECOND == p.den * (100 * c),
{
    assert(forall|i: int| 0 <= i < s.len() ==> sample_bounded(#[trigger] s[i]));
    lemma_rate_sum_constant(s, c);
    lemma_speed_defined(s);
    assert(100 * (s.len() * c) == 100 * s.len() * c) by (nonlinear_arith);
    assert((100 * s.len() * c) * EXPECTED_CYCLES_PER_SECOND
        == (s.len() * EXPECTED_CYCLES_PER_SECOND) * (100 * c)) by (nonlinear_arith);
}

/// Relies on `time::precise_time_ns`: the current value of a high-resolution
/// performance counter, in nanoseconds since an unspecified epoch. Nothing is
/// promised of the value; callers state what holds of every timestamp.
#[verifier::external_body]
fn precise_time_nanos() -> u64 {
    time::precise_time_ns()
}

/// Computes the sample one update records: cycles per second, floored, or an
/// undefined sample when the clock did not advance.
fn compute_sample(cycles: u64, last: u64, now: u64) -> (s: Sample)
    ensures
        s == sample_at(cycles, last, now),
        sample_bounded(s),
{
    if now > last {
        let elapsed: u64 = now - last;
        let scaled: u128 = (cycles as u128) * (NANOS_PER_SECOND as u128);
        let rate: u128 = scaled / (elapsed as u128);
        proof {
            vstd::arithmetic::div_mod::lemma_div_basics_5(scaled as int, elapsed as int);
        }
        Sample::Rate(rate)
    } else {
        Sample::Undefined
    }
}

} // verus!

