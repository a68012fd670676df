//! Time: the raw cycle counter behind a narrow capability, a reader that
//! records every sample it hands out as ghost history, and the scaling from
//! raw cycles to the emulated machine's clock base.

use vstd::prelude::*;

verus! {

/// Divisor coupling the host cycle counter to the emulated machine's timing
/// base; a tuning constant, re-tuned per target platform.
pub const CLOCK_DIVISOR: u64 = 2;

/// The most cycles the counter may advance between two successive reads.
/// Together with monotonicity this is the progress assumption the pacing
/// gate's termination rests on; generous for any real counter.
pub const MAX_ADVANCE: u64 = 0x1000000000000;

/// The emulated clock value derived from a raw cycle count.
pub open spec fn clock_scale(t: u64) -> u64 {
    t / CLOCK_DIVISOR
}

/// Scale one raw cycle count to the emulated clock base.
pub fn scale_cycles(t: u64) -> (r: u64)
    ensures
        r == clock_scale(t),
{
    t / CLOCK_DIVISOR
}

/// The narrow boundary to a hardware cycle counter: one non-blocking,
/// non-failing read per call. The counter is monotonic modulo 64-bit
/// wraparound and never stalls or jumps unboundedly: each read advances the
/// previous sample by at least 1 and at most `MAX_ADVANCE` cycles, under
/// wraparound-safe subtraction. The pacing gate's termination rests on this.
pub trait RawTimeSource: Sized {
    /// The sample most recently handed out (before the first read, the
    /// counter's virtual starting position).
    spec fn tick(&self) -> u64;

    fn now_raw(&mut self) -> (t: u64)
        ensures
            t == final(self).tick(),
            1 <= final(self).tick().wrapping_sub(old(self).tick()),
            final(self).tick().wrapping_sub(old(self).tick()) <= MAX_ADVANCE,
    ;
}

/// A deterministic counter that advances by a fixed step on every read: the
/// in-crate `RawTimeSource`, also an injectable stand-in wherever real
/// elapsed time is unwanted.
pub struct CountingTimeSource {
    next: u64,
    step: u64,
}

impl CountingTimeSource {
    #[verifier::type_invariant]
    spec fn step_in_range(self) -> bool {
        1 <= self.step <= MAX_ADVANCE
    }

    /// The value the next read will return.
    pub closed spec fn next_value(&self) -> u64 {
        self.next
    }

    /// How far the counter advances on each read.
    pub closed spec fn step_value(&self) -> u64 {
        self.step
    }

    pub fn new(start: u64, step: u64) -> (r: Self)
        requires
            1 <= step <= MAX_ADVANCE,
        ensures
            r.next_value() == start,
            r.step_value() == step,
    {
        CountingTimeSource { next: start, step }
    }

    /// The value the next read will return, without advancing the counter.
    pub fn peek(&self) -> (r: u64)
        ensures
            r == self.next_value(),
    {
        self.next
    }
}

impl RawTimeSource for CountingTimeSource {
    closed spec fn tick(&self) -> u64 {
        self.next.wrapping_sub(self.step)
    }

    fn now_raw(&mut self) -> (t: u64)
        ensures
            t == old(self).next_value(),
            final(self).next_value() == old(self).next_value().wrapping_add(
                old(self).step_value(),
            ),
            final(self).step_value() == old(self).step_value(),
    {
        proof {
            use_type_invariant(&*self);
        }
        let t = self.next;
        self.next = self.next.wrapping_add(self.step);
        t
    }
}

/// A cycle-counter reader that records, as ghost history, every sample it
/// has handed out, oldest first, so contracts can speak of what was observed.
pub struct InstrumentedTime<R: RawTimeSource> {
    /// The raw counter behind this reader.
    pub source: R,
    /// Every sample handed out so far, oldest first.
    pub hist: Ghost<Seq<u64>>,
}

impl<R: RawTimeSource> InstrumentedTime<R> {
    /// Every sample handed out so far, oldest first.
    pub closed spec fn history(&self) -> Seq<u64> {
        self.hist@
    }

    pub fn new(source: R) -> (r: Self)
        ensures
            r.history() == Seq::<u64>::empty(),
            r.source == source,
    {
        InstrumentedTime { source, hist: Ghost(Seq::empty()) }
    }

    /// Read the counter once and record the sample.
    pub fn now(&mut self) -> (t: u64)
        ensures
            final(self).history() == old(self).history().push(t),
            t == final(self).source.tick(),
            1 <= t.wrapping_sub(old(self).source.tick()),
            t.wrapping_sub(old(self).source.tick()) <= MAX_ADVANCE,
    {
        let t = self.source.now_raw();
        self.hist = Ghost(self.hist@.push(t));
        t
    }
}

/// A prefix of a sample history stays a prefix when one more sample is
/// recorded.
pub proof fn lemma_prefix_extends(s1: Seq<u64>, s2: Seq<u64>, t: u64)
    requires
        s1.is_prefix_of(s2),
    ensures
        s1.is_prefix_of(s2.push(t)),
{
    assert(s2.push(t).subrange(0, s1.len() as int) =~= s1);
}

/// Law: scaling preserves the counter's order, so the emulated clock is
/// monotonic wherever the counter is. Two samples at least `CLOCK_DIVISOR`
/// cycles apart (with no wraparound between them) scale to strictly
/// increasing clock values, so their wraparound difference is positive.
/// Samples closer than `CLOCK_DIVISOR` cycles may scale to one clock value.
pub proof fn lemma_clock_monotonic(t1: u64, t2: u64)
    requires
        t1 <= t2,
    ensures
        clock_scale(t1) <= clock_scale(t2),
        t1 + CLOCK_DIVISOR <= t2 ==> clock_scale(t2).wrapping_sub(clock_scale(t1)) > 0,
{
    vstd::arithmetic::div_mod::lemma_div_is_ordered(
        t1 as int,
        t2 as int,
        CLOCK_DIVISOR as int,
    );
    if t1 + CLOCK_DIVISOR <= t2 {
        vstd::arithmetic::div_mod::lemma_div_is_ordered(
            t1 as int + CLOCK_DIVISOR as int,
            t2 as int,
            CLOCK_DIVISOR as int,
        );
        vstd::arithmetic::div_mod::lemma_div_plus_one(t1 as int, CLOCK_DIVISOR as int);
    }
}

} // verus!
