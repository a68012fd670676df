//! Best-effort entropy derived from timing jitter between successive cycle-
//! counter reads. Not cryptographically specified: the promises are that a
//! call never blocks (a counter with no jitter within the retry bound
//! degrades to a fallback byte), and that the byte handed out is exactly the
//! fold of the deltas between the counter samples the call observed.

use crate::time::lemma_prefix_extends;
use crate::time::InstrumentedTime;
use crate::time::RawTimeSource;
use vstd::prelude::*;

verus! {

/// Byte returned when the counter shows no jitter within the retry bound.
pub const FALLBACK_BYTE: u8 = 0xa5;

/// Nonzero jitter deltas folded into one output byte per call.
pub const JITTER_ROUNDS: u32 = 8;

/// Upper bound on counter reads per call beyond the initial one.
pub const MAX_SAMPLES: u32 = 64;

/// One mixing step: fold a jitter delta into the accumulator.
pub open spec fn mix_spec(acc: u64, delta: u64) -> u64 {
    acc.wrapping_mul(0x100000001b3u64).wrapping_add(delta)
}

/// Fold one jitter delta into the accumulator.
pub fn mix(acc: u64, delta: u64) -> (r: u64)
    ensures
        r == mix_spec(acc, delta),
{
    acc.wrapping_mul(0x100000001b3u64).wrapping_add(delta)
}

/// The byte an accumulator folds down to: the xor of its eight bytes.
pub open spec fn fold_spec(acc: u64) -> u8 {
    (((acc ^ (acc >> 8u64) ^ (acc >> 16u64) ^ (acc >> 24u64)) ^ ((acc >> 32u64) ^ (acc >> 40u64)
        ^ (acc >> 48u64) ^ (acc >> 56u64))) & 0xffu64) as u8
}

/// Fold an accumulator down to one byte.
pub fn fold_to_byte(acc: u64) -> (r: u8)
    ensures
        r == fold_spec(acc),
{
    let b: u64 = (acc ^ (acc >> 8u64) ^ (acc >> 16u64) ^ (acc >> 24u64)) ^ ((acc >> 32u64) ^ (acc
        >> 40u64) ^ (acc >> 48u64) ^ (acc >> 56u64));
    proof {
        assert((b & 0xffu64) < 256u64) by (bit_vector);
    }
    (b & 0xffu64) as u8
}

/// The accumulator after folding in, from position `from` on, the wraparound
/// delta of each consecutive sample pair `s[i - 1], s[i]`.
pub open spec fn mixed_deltas(s: Seq<u64>, from: int, acc: u64) -> u64
    decreases s.len() - from,
{
    if from < 1 || from >= s.len() {
        acc
    } else {
        mixed_deltas(s, from + 1, mix_spec(acc, s[from].wrapping_sub(s[from - 1])))
    }
}

/// Folding in one more sample at the tail mixes its delta last.
proof fn lemma_mixed_deltas_push(s: Seq<u64>, x: u64, from: int, acc: u64)
    requires
        1 <= from <= s.len(),
    ensures
        mixed_deltas(s.push(x), from, acc) == mix_spec(
            mixed_deltas(s, from, acc),
            x.wrapping_sub(s.last()),
        ),
    decreases s.len() - from,
{
    if from == s.len() {
        assert(s.push(x)[from] == x);
        assert(s.push(x)[from - 1] == s[from - 1]);
        assert(s[from - 1] == s.last());
        let acc2 = mix_spec(acc, x.wrapping_sub(s.last()));
        assert(mixed_deltas(s, from, acc) == acc);
        assert(mixed_deltas(s.push(x), from, acc) == mixed_deltas(s.push(x), from + 1, acc2));
        assert(mixed_deltas(s.push(x), from + 1, acc2) == acc2);
    } else {
        assert(s.push(x)[from] == s[from]);
        assert(s.push(x)[from - 1] == s[from - 1]);
        let acc2 = mix_spec(acc, s[from].wrapping_sub(s[from - 1]));
        assert(mixed_deltas(s, from, acc) == mixed_deltas(s, from + 1, acc2));
        assert(mixed_deltas(s.push(x), from, acc) == mixed_deltas(s.push(x), from + 1, acc2));
        lemma_mixed_deltas_push(s, x, from + 1, acc2);
    }
}

/// A source of best-effort pseudo-random bytes. A call must not block
/// indefinitely.
pub trait EntropySource: Sized {
    fn next_byte(&mut self) -> u8;
}

/// Derives bytes from timing jitter: repeated counter samples, their
/// wraparound deltas mixed into an accumulator and folded to one byte.
pub struct JitterEntropy<R: RawTimeSource> {
    time: InstrumentedTime<R>,
}

impl<R: RawTimeSource> JitterEntropy<R> {
    /// Every counter sample this source has taken, oldest first.
    pub closed spec fn samples(&self) -> Seq<u64> {
        self.time.history()
    }

    pub fn new(source: R) -> (r: Self)
        ensures
            r.samples() == Seq::<u64>::empty(),
    {
        JitterEntropy { time: InstrumentedTime::new(source) }
    }
}

impl<R: RawTimeSource> EntropySource for JitterEntropy<R> {
    /// One best-effort byte: sample the counter, folding `JITTER_ROUNDS`
    /// nonzero deltas into a byte. The counter's contract rules a stalled
    /// delta out, so exactly `JITTER_ROUNDS` reads follow the first and the
    /// byte is the fold of their deltas; the retry bound and the degrade to
    /// `FALLBACK_BYTE` stay as defense against a counter outside its
    /// contract, so a call can never block.
    fn next_byte(&mut self) -> (r: u8)
        ensures
            old(self).samples().is_prefix_of(final(self).samples()),
            final(self).samples().len() == old(self).samples().len() + 1 + JITTER_ROUNDS as nat,
            r == fold_spec(
                mixed_deltas(
                    final(self).samples().subrange(
                        old(self).samples().len() as int,
                        final(self).samples().len() as int,
                    ),
                    1,
                    0,
                ),
            ),
    {
        let ghost h0 = self.samples();
        let ghost n0 = self.samples().len() as int;
        let mut acc: u64 = 0;
        let mut prev: u64 = self.time.now();
        let mut rounds: u32 = 0;
        let mut tries: u32 = 0;
        proof {
            assert(h0.is_prefix_of(h0)) by {
                assert(h0.subrange(0, n0) =~= h0);
            }
            lemma_prefix_extends(h0, h0, prev);
        }
        while rounds < JITTER_ROUNDS && tries < MAX_SAMPLES
            invariant
                rounds == tries,
                tries <= JITTER_ROUNDS,
                0 <= n0,
                h0.len() == n0,
                h0.is_prefix_of(self.samples()),
                self.samples().len() == n0 + 1 + tries as int,
                self.samples().last() == prev,
                prev == self.time.source.tick(),
                acc == mixed_deltas(
                    self.samples().subrange(n0, self.samples().len() as int),
                    1,
                    0,
                ),
            decreases JITTER_ROUNDS - rounds,
        {
            let ghost hprev = self.samples();
            let cur = self.time.now();
            let delta = cur.wrapping_sub(prev);
            proof {
                lemma_prefix_extends(h0, hprev, cur);
                let sfx = hprev.subrange(n0, hprev.len() as int);
                assert(self.samples().subrange(n0, self.samples().len() as int) =~= sfx.push(
                    cur,
                ));
                assert(sfx.last() == prev);
                lemma_mixed_deltas_push(sfx, cur, 1, 0);
            }
            prev = cur;
            tries = tries + 1;
            if delta != 0 {
                acc = mix(acc, delta);
                rounds = rounds + 1;
            }
        }
        if rounds == 0 {
            FALLBACK_BYTE
        } else {
            fold_to_byte(acc)
        }
    }
}

} // verus!
