//! The hardware adapter: binds the abstract hardware contract the
//! virtual-machine core consumes (randomness, key state, pixel I/O, timing,
//! cooperative pacing, sound) to the display, keyboard, entropy and time
//! capabilities it owns.
//!
//! Failure policy: no operation raises a recoverable error. Every
//! conceptually failable operation returns a benign default instead (no key
//! press reads as false, a stalled jitter source degrades to a fallback
//! byte); an out-of-range pixel coordinate is a precondition violation, not
//! a recoverable error.

use crate::display::Display;
use crate::display::VideoMemory;
use crate::display::block_offset;
use crate::display::get_spec;
use crate::display::set_spec;
use crate::display::SCALE;
use crate::entropy::EntropySource;
use crate::keyboard::key_matches_spec;
use crate::keyboard::Keyboard;
use crate::keyboard::ScanPort;
use crate::time::clock_scale;
use crate::time::CLOCK_DIVISOR;
use crate::time::lemma_prefix_extends;
use crate::time::scale_cycles;
use crate::time::InstrumentedTime;
use crate::time::RawTimeSource;
use crate::time::MAX_ADVANCE;
use vstd::prelude::*;
use vstd::seq_lib::*;

verus! {

/// Scaled clock ticks that must elapse before the pacing gate opens.
pub const TICK_THRESHOLD: u64 = 1000000;

/// The pacing gate's test: at least `TICK_THRESHOLD` scaled ticks lie
/// between `start` and `now`, under wraparound-safe subtraction.
pub open spec fn gate_open(start: u64, now: u64) -> bool {
    now.wrapping_sub(start) >= TICK_THRESHOLD
}

/// Decide the pacing gate from one clock observation.
pub fn gate_elapsed(start: u64, now: u64) -> (r: bool)
    ensures
        r == gate_open(start, now),
{
    now.wrapping_sub(start) >= TICK_THRESHOLD
}

/// While pacing stays closed and accumulated counter advance is moderate,
/// a closed gate bounds the raw distance from the base sample: scaling
/// halves distances, so a scaled distance under the threshold keeps the raw
/// distance under twice the threshold.
proof fn lemma_gate_closed_bounds_distance(raw0: u64, rawn: u64)
    by (bit_vector)
    requires
        rawn.wrapping_sub(raw0) <= 2 * TICK_THRESHOLD + 1 + MAX_ADVANCE,
        (rawn / CLOCK_DIVISOR).wrapping_sub(raw0 / CLOCK_DIVISOR) < TICK_THRESHOLD,
    ensures
        rawn.wrapping_sub(raw0) <= 2 * TICK_THRESHOLD + 1,
{
}

/// A bounded counter advance adds up without wrapping while the raw distance
/// from the base sample is still small.
proof fn lemma_distance_accumulates(raw0: u64, rawp: u64, rawn: u64)
    by (bit_vector)
    requires
        rawp.wrapping_sub(raw0) <= 2 * TICK_THRESHOLD + 1,
        rawn.wrapping_sub(rawp) <= MAX_ADVANCE,
    ensures
        rawn.wrapping_sub(raw0) == rawp.wrapping_sub(raw0) + rawn.wrapping_sub(rawp),
{
}

/// The hardware adapter the virtual-machine core drives.
pub struct Hardware<M: VideoMemory, P: ScanPort, R: RawTimeSource, E: EntropySource> {
    pub display: Display<M>,
    pub kbd: Keyboard<P>,
    pub rng: E,
    pub time: InstrumentedTime<R>,
    /// The display-size value the core stored last; held for it, never
    /// validated against the physical framebuffer geometry and never
    /// consulted by the display's fixed-width addressing.
    pub vramsz: (usize, usize),
}

impl<M: VideoMemory, P: ScanPort, R: RawTimeSource, E: EntropySource> Hardware<M, P, R, E> {
    pub fn new(display: Display<M>, kbd: Keyboard<P>, time: InstrumentedTime<R>, rng: E) -> (r:
        Self)
        ensures
            r.display == display,
            r.kbd == kbd,
            r.rng == rng,
            r.time == time,
            r.vramsz == (0usize, 0usize),
    {
        Hardware { display, kbd, rng, time, vramsz: (0, 0) }
    }

    /// One best-effort random byte from the entropy source.
    pub fn rand(&mut self) -> (r: u8)
        ensures
            final(self).display == old(self).display,
            final(self).kbd == old(self).kbd,
            final(self).time == old(self).time,
            final(self).vramsz == old(self).vramsz,
    {
        self.rng.next_byte()
    }

    /// Whether logical key `key` is held, from exactly one fresh poll of the
    /// port: true iff the code that poll latched equals `key`'s mapped scan
    /// code. A key outside the table's domain reports false rather than
    /// failing, whatever the port latched.
    pub fn key(&mut self, key: u8) -> (r: bool)
        ensures
            final(self).kbd.polled_codes() == old(self).kbd.polled_codes().push(
                final(self).kbd.polled_codes().last(),
            ),
            r == key_matches_spec(final(self).kbd.polled_codes().last(), key),
            key > 0xf ==> !r,
            final(self).display == old(self).display,
            final(self).rng == old(self).rng,
            final(self).time == old(self).time,
            final(self).vramsz == old(self).vramsz,
    {
        self.kbd.is_down(key)
    }

    /// Set logical pixel (x, y). The pixel's block must lie inside the
    /// video region: an out-of-range coordinate is a precondition violation.
    pub fn vram_set(&mut self, x: usize, y: usize, d: bool)
        requires
            block_offset(x as int, y as int, SCALE as int - 1, SCALE as int - 1) < old(
                self,
            ).display.mem().len(),
            old(self).display.mem().len() <= usize::MAX,
        ensures
            final(self).display.mem() == set_spec(
                old(self).display.mem(),
                x as int,
                y as int,
                d,
            ),
            final(self).kbd == old(self).kbd,
            final(self).rng == old(self).rng,
            final(self).time == old(self).time,
            final(self).vramsz == old(self).vramsz,
    {
        self.display.set(x, y, d);
    }

    /// Read logical pixel (x, y) from its block's top-left byte.
    pub fn vram_get(&mut self, x: usize, y: usize) -> (r: bool)
        requires
            block_offset(x as int, y as int, 0, 0) < old(self).display.mem().len(),
            old(self).display.mem().len() <= usize::MAX,
        ensures
            r == get_spec(old(self).display.mem(), x as int, y as int),
            *final(self) == *old(self),
    {
        self.display.get(x, y)
    }

    /// Store the core's display-size value, unvalidated.
    pub fn vram_setsize(&mut self, size: (usize, usize))
        ensures
            final(self).vramsz == size,
            final(self).display == old(self).display,
            final(self).kbd == old(self).kbd,
            final(self).rng == old(self).rng,
            final(self).time == old(self).time,
    {
        self.vramsz = size;
    }

    /// The display-size value the core stored last.
    pub fn vram_size(&mut self) -> (r: (usize, usize))
        ensures
            r == old(self).vramsz,
            *final(self) == *old(self),
    {
        self.vramsz
    }

    /// The emulated clock: one counter sample, scaled by `CLOCK_DIVISOR`.
    pub fn clock(&mut self) -> (r: u64)
        ensures
            final(self).time.history() == old(self).time.history().push(
                final(self).time.history().last(),
            ),
            r == clock_scale(final(self).time.history().last()),
            final(self).time.history().last() == final(self).time.source.tick(),
            1 <= final(self).time.source.tick().wrapping_sub(old(self).time.source.tick()),
            final(self).time.source.tick().wrapping_sub(old(self).time.source.tick())
                <= MAX_ADVANCE,
            final(self).display == old(self).display,
            final(self).kbd == old(self).kbd,
            final(self).rng == old(self).rng,
            final(self).vramsz == old(self).vramsz,
    {
        let t = self.time.now();
        scale_cycles(t)
    }

    /// Sound is intentionally unimplemented: a documented no-op.
    pub fn beep(&mut self)
        ensures
            *final(self) == *old(self),
    {
    }

    /// The cooperative pacing gate: samples the clock once for a base value,
    /// then busy-waits until `TICK_THRESHOLD` scaled ticks have elapsed
    /// since the base (wraparound-safe), and reports false: "continue
    /// running". Pacing opened on the last clock observation and on no
    /// earlier one, so execution never continues before the threshold has
    /// been seen to elapse.
    pub fn sched(&mut self) -> (r: bool)
        ensures
            !r,
            final(self).display == old(self).display,
            final(self).kbd == old(self).kbd,
            final(self).rng == old(self).rng,
            final(self).vramsz == old(self).vramsz,
            old(self).time.history().is_prefix_of(final(self).time.history()),
            old(self).time.history().len() + 2 <= final(self).time.history().len(),
            ({
                let h = final(self).time.history();
                let base = clock_scale(h[old(self).time.history().len() as int]);
                &&& gate_open(base, clock_scale(h.last()))
                &&& forall|i: int|
                    old(self).time.history().len() < i < h.len() - 1 ==> !gate_open(
                        base,
                        clock_scale(#[trigger] h[i]),
                    )
            }),
    {
        let ghost h0 = self.time.history();
        let ghost d0 = self.display;
        let ghost k0 = self.kbd;
        let ghost e0 = self.rng;
        let ghost s0 = self.vramsz;
        let t = self.clock();
        let ghost raw0 = self.time.source.tick();
        proof {
            assert(h0.is_prefix_of(self.time.history())) by {
                assert(h0.is_prefix_of(h0)) by {
                    assert(h0.subrange(0, h0.len() as int) =~= h0);
                }
                lemma_prefix_extends(h0, h0, self.time.history().last());
            }
        }
        loop
            invariant_except_break
                !gate_open(t, clock_scale(self.time.source.tick())),
                self.time.source.tick().wrapping_sub(raw0) <= 2 * TICK_THRESHOLD + 1,
                forall|i: int|
                    h0.len() < i < self.time.history().len() ==> !gate_open(
                        t,
                        clock_scale(#[trigger] self.time.history()[i]),
                    ),
            invariant
                self.display == d0,
                self.kbd == k0,
                self.rng == e0,
                self.vramsz == s0,
                h0.is_prefix_of(self.time.history()),
                h0.len() + 1 <= self.time.history().len(),
                self.time.history()[h0.len() as int] == raw0,
                t == clock_scale(raw0),
                self.time.history().last() == self.time.source.tick(),
            ensures
                h0.len() + 2 <= self.time.history().len(),
                gate_open(t, clock_scale(self.time.history().last())),
                forall|i: int|
                    h0.len() < i < self.time.history().len() - 1 ==> !gate_open(
                        t,
                        clock_scale(#[trigger] self.time.history()[i]),
                    ),
            decreases 2 * TICK_THRESHOLD + 1 - self.time.source.tick().wrapping_sub(raw0),
        {
            let ghost hprev = self.time.history();
            let ghost rawp = self.time.source.tick();
            let c = self.clock();
            proof {
                let rawn = self.time.source.tick();
                lemma_prefix_extends(h0, hprev, rawn);
                lemma_distance_accumulates(raw0, rawp, rawn);
                assert forall|i: int|
                    h0.len() < i < self.time.history().len() - 1 implies !gate_open(
                    t,
                    clock_scale(#[trigger] self.time.history()[i]),
                ) by {
                    assert(self.time.history()[i] == hprev[i]);
                }
            }
            if gate_elapsed(t, c) {
                break;
            }
            proof {
                lemma_gate_closed_bounds_distance(raw0, self.time.source.tick());
            }
        }
        false
    }
}

} // verus!
