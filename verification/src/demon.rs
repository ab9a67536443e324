//! The demon: the state it keeps between samples, what one sample does to it,
//! and when it hands out a block.

use crate::word::{
    capped_sum, dec, in_memory_order, inc, memory_bytes, rotate_left, rotate_right, rotl, rotr,
    wrapped_sum,
};
use vstd::prelude::*;

verus! {

/// Mixing events that make up one block.
pub const OPS_PER_BLOCK: u32 = 100;

/// Samples a demon waits for one block before it reports a timeout.
pub const SAMPLES_PER_BLOCK: u32 = 100_000;

/// The key a demon starts from.
pub const KEY_SEED: u32 = 0xACAC_ACAC;

/// The mix a demon starts from.
pub const MIX_SEED: u32 = 0xF0F0_F0F0;

/// What a demon keeps between samples. Every combination of values is a
/// state it can be in, and callers may set the two budgets as they see fit.
#[derive(Debug, PartialEq, Eq, Structural)]
pub struct Demon {
    /// The last sample observed by the demon
    pub last_sample: u32,
    /// The last sample used by the demon for mixing
    pub last_mixing_sample: u32,
    /// The number of consecutive samples with the same value
    pub run: u32,
    /// The current key-in-progress
    pub key: u32,
    /// The current mixing value
    pub mix: u32,
    /// The number of operations remaining to obtain a good key
    pub ops_remaining: u32,
    /// The number of samples remaining before a timeout will be raised
    pub samples_remaining: u32,
}

/// Why a sample did not yield a block.
#[derive(Debug, Clone, Copy, PartialEq, Eq, Structural)]
pub enum Error {
    /// The block is not complete yet: feed the next sample.
    NeedMoreSamples,
    /// The sample budget ran out before the block was complete.
    Timeout,
}

impl Demon {
    /// The state every demon starts in.
    pub open spec fn fresh() -> Demon {
        Demon {
            last_sample: 0,
            last_mixing_sample: 0,
            run: 0,
            key: KEY_SEED,
            mix: MIX_SEED,
            ops_remaining: OPS_PER_BLOCK,
            samples_remaining: SAMPLES_PER_BLOCK,
        }
    }

    /// Whether `sample` repeats the sample before it.
    pub open spec fn repeats(self, sample: u32) -> bool {
        sample == self.last_sample
    }

    /// The mix once the run that a new sample ends has been folded into it:
    /// a run of `n` adds bit `n mod 32`, without carrying past the top, and
    /// turns the mix right by `n`.
    pub open spec fn settled_mix(self) -> u32 {
        if self.run != 0 {
            rotr(capped_sum(self.mix, 1u32 << (self.run % 32)), self.run)
        } else {
            self.mix
        }
    }

    /// The low two bits of `sample` against those of the last sample that was
    /// mixed in.
    pub open spec fn candidate_bits(self, sample: u32) -> u32 {
        (self.last_mixing_sample & 3) ^ (sample & 3)
    }

    /// The mix that `sample` proposes.
    pub open spec fn new_mix(self, sample: u32) -> u32 {
        rotr(self.settled_mix(), self.candidate_bits(sample)) ^ (sample & 3)
    }

    /// Whether `sample` is a mixing event: it differs from the sample before
    /// it, its low bits differ from those last mixed in, and the mix it
    /// proposes is not zero.
    pub open spec fn mixes(self, sample: u32) -> bool {
        &&& !self.repeats(sample)
        &&& self.candidate_bits(sample) != 0
        &&& self.new_mix(sample) != 0
    }

    /// The key after `sample`.
    pub open spec fn next_key(self, sample: u32) -> u32 {
        let bits = self.candidate_bits(sample);
        let proposed = self.new_mix(sample);
        if self.repeats(sample) {
            self.key
        } else if bits != 0 && proposed != 0 {
            rotl(wrapped_sum(self.key, proposed) ^ self.settled_mix(), (bits << 2) | (sample & 3))
        } else if bits != 0 {
            rotl(self.key, 7)
        } else if proposed != 0 {
            rotr(self.key, 7)
        } else {
            !self.key
        }
    }

    /// The mixing events still owed for the block once `sample` is counted.
    pub open spec fn ops_left(self, sample: u32) -> u32 {
        if self.mixes(sample) {
            dec(self.ops_remaining)
        } else {
            self.ops_remaining
        }
    }

    /// Whether `sample` completes a block.
    pub open spec fn completes(self, sample: u32) -> bool {
        !self.repeats(sample) && self.ops_left(sample) == 0
    }

    /// Whether `sample` finds the sample budget spent with the block still
    /// incomplete.
    pub open spec fn times_out(self, sample: u32) -> bool {
        &&& !self.repeats(sample)
        &&& self.ops_left(sample) != 0
        &&& dec(self.samples_remaining) == 0
    }

    /// The state after `sample`.
    pub open spec fn after(self, sample: u32) -> Demon {
        if self.repeats(sample) {
            Demon {
                run: inc(self.run),
                samples_remaining: dec(self.samples_remaining),
                ..self
            }
        } else {
            Demon {
                last_sample: sample,
                last_mixing_sample: if self.mixes(sample) {
                    sample
                } else {
                    self.last_mixing_sample
                },
                run: 0,
                key: self.next_key(sample),
                mix: if self.mixes(sample) {
                    self.new_mix(sample)
                } else {
                    self.settled_mix()
                },
                ops_remaining: if self.completes(sample) {
                    OPS_PER_BLOCK
                } else {
                    self.ops_left(sample)
                },
                samples_remaining: if self.completes(sample) {
                    SAMPLES_PER_BLOCK
                } else {
                    dec(self.samples_remaining)
                },
            }
        }
    }

    /// What `sample` yields: the key of the block it completes, or the
    /// reason there is none.
    pub open spec fn verdict(self, sample: u32) -> Result<u32, Error> {
        if self.completes(sample) {
            Ok(self.next_key(sample))
        } else if self.times_out(sample) {
            Err(Error::Timeout)
        } else {
            Err(Error::NeedMoreSamples)
        }
    }

    /// Feeds one sample to the demon. `Ok` carries a finished block: the key
    /// in the byte order of the machine.
    ///
    /// The first two clauses say all there is to say; the others spell out
    /// what callers lean on most.
    pub fn take_sample(&mut self, sample: u32) -> (r: Result<[u8; 4], Error>)
        ensures
            *final(self) == old(self).after(sample),
            reports(r, old(self).verdict(sample)),
            // A repeated sample lengthens the run, asks for more, and leaves
            // the key, the mix and the count of mixing events alone.
            sample == old(self).last_sample ==> r == Err::<[u8; 4], Error>(Error::NeedMoreSamples),
            sample == old(self).last_sample ==> final(self).run == inc(old(self).run),
            sample == old(self).last_sample ==> final(self).key == old(self).key,
            sample == old(self).last_sample ==> final(self).mix == old(self).mix,
            sample == old(self).last_sample ==> final(self).last_mixing_sample == old(
                self,
            ).last_mixing_sample,
            sample == old(self).last_sample ==> final(self).ops_remaining == old(
                self,
            ).ops_remaining,
            // A new sample ends the run.
            sample != old(self).last_sample ==> final(self).run == 0,
            sample != old(self).last_sample ==> final(self).last_sample == sample,
            // A call that completes no block costs one sample of the budget,
            // whatever else it does,
            r is Err ==> final(self).samples_remaining == dec(old(self).samples_remaining),
            // and one mixing event if the sample mixes, none if it does not.
            r is Err && old(self).mixes(sample) ==> final(self).ops_remaining == old(
                self,
            ).ops_remaining - 1,
            r is Err && !old(self).mixes(sample) ==> final(self).ops_remaining == old(
                self,
            ).ops_remaining,
            // A block starts both budgets afresh.
            r is Ok ==> final(self).ops_remaining == OPS_PER_BLOCK,
            r is Ok ==> final(self).samples_remaining == SAMPLES_PER_BLOCK,
            // A timeout resets neither: the sample budget stays spent, the
            // mixing events stay owed.
            r == Err::<[u8; 4], Error>(Error::Timeout) ==> final(self).samples_remaining == 0,
            r == Err::<[u8; 4], Error>(Error::Timeout) ==> final(self).ops_remaining == old(
                self,
            ).ops_left(sample),
    {
        self.samples_remaining = self.samples_remaining.saturating_sub(1);

        // The same value as the last sample only lengthens the run.
        if sample == self.last_sample {
            self.run = self.run.saturating_add(1);
            return Err(Error::NeedMoreSamples);
        }
        self.last_sample = sample;

        if self.run != 0 {
            self.mix = self.mix.saturating_add(1u32 << (self.run % 32));
            self.mix = rotate_right(self.mix, self.run);
        }
        // New data ends the run.
        self.run = 0;

        let sample_bits: u32 = sample & 0b11;
        let candidate_bits: u32 = (self.last_mixing_sample & 0b11) ^ sample_bits;

        let changed_data = candidate_bits != 0;
        let new_mix: u32 = rotate_right(self.mix, candidate_bits) ^ sample_bits;

        if changed_data && new_mix != 0 {
            self.key = self.key.wrapping_add(new_mix);
            self.key ^= self.mix;
            self.key = rotate_left(self.key, (candidate_bits << 2) | sample_bits);

            // This sample is now the last one used for mixing.
            self.last_mixing_sample = sample;
            self.mix = new_mix;
            self.ops_remaining = self.ops_remaining.saturating_sub(1);
        } else if changed_data {
            // The data changed, but the new mix would be zero.
            self.key = rotate_left(self.key, 7);
        } else if new_mix != 0 {
            // The data did not change, but the new mix would not be zero.
            self.key = rotate_right(self.key, 7);
        } else {
            // Neither: invert the key.
            self.key = !self.key;
        }

        if self.ops_remaining == 0 {
            // Gather a full block's worth again before the next key.
            self.ops_remaining = OPS_PER_BLOCK;
            self.samples_remaining = SAMPLES_PER_BLOCK;
            Ok(memory_bytes(self.key))
        } else if self.samples_remaining == 0 {
            Err(Error::Timeout)
        } else {
            Err(Error::NeedMoreSamples)
        }
    }
}

/// Whether `r` is how `take_sample` reports `verdict`: a key as its bytes in
/// memory, a reason as it is.
pub open spec fn reports(r: Result<[u8; 4], Error>, verdict: Result<u32, Error>) -> bool {
    match verdict {
        Ok(key) => r matches Ok(block) && in_memory_order(block@, key),
        Err(reason) => r == Err::<[u8; 4], Error>(reason),
    }
}

impl Default for Demon {
    fn default() -> (demon: Demon)
        ensures
            demon == Demon::fresh(),
    {
        Demon {
            key: KEY_SEED,
            last_sample: 0,
            last_mixing_sample: 0,
            mix: MIX_SEED,
            run: 0,
            ops_remaining: OPS_PER_BLOCK,
            samples_remaining: SAMPLES_PER_BLOCK,
        }
    }
}

} // verus!
