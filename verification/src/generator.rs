//! The generator.

use crate::fill::{drawn_bytes, le_byte, words_drawn};
use crate::laws::{lemma_jump_keeps_nonzero, lemma_steps_scale, respond, Call, Reply};
use crate::power::{lemma_scale_by_power, wrapping_pow};
use crate::seed::{arr_to_u64, seed_word, PcgSeed};
use crate::stream::{
    advance, jump, nth_output, output, produce_output, step, wide_output, INVERSE, MULTIPLIER,
};
use rand_core::{RngCore, SeedableRng};
use vstd::prelude::*;

verus! {

/// The register that a 64-bit seed gives: the seed itself, but 1 for the
/// seed 0, which would never leave zero.
pub open spec fn seeded(seed: u64) -> u64 {
    if seed == 0 {
        1
    } else {
        seed
    }
}

/// A generator: one 64-bit register that is never zero.
pub struct Pcg {
    state: u64,
}

impl Pcg {
    #[verifier::type_invariant]
    spec fn nonzero(self) -> bool {
        self.state != 0
    }

    /// The register.
    pub closed spec fn view(&self) -> u64 {
        self.state
    }

    /// Reads the register.
    pub fn get_state(&self) -> (state: u64)
        ensures
            state == self@,
            state != 0,
            (self@, Reply::Register(state)) == respond(self@, Call::GetState),
    {
        proof {
            use_type_invariant(self);
        }
        self.state
    }

    /// Advances the register by `n` steps, as `n` draws of 32 bits would, or
    /// takes it back by `-n` steps where `n` is negative.
    pub fn skip(&mut self, n: i32)
        ensures
            final(self)@ == jump(old(self)@, n as int),
            final(self)@ != 0,
            (final(self)@, Reply::Skipped) == respond(old(self)@, Call::Skip(n)),
    {
        proof {
            use_type_invariant(&*self);
            lemma_jump_keeps_nonzero(self@, n as int);
        }
        if n == 0 {
            return ;
        }
        let ghost before: u64 = self.state;
        if n > 0 {
            let count: u64 = n as u64;
            let factor: u64 = wrapping_pow(MULTIPLIER, count);
            proof {
                lemma_scale_by_power(before, MULTIPLIER, count as nat, factor);
                lemma_steps_scale(before, count as nat);
            }
            self.state = self.state.wrapping_mul(factor);
        } else {
            let count: u64 = (-(n as i64)) as u64;
            let factor: u64 = wrapping_pow(INVERSE, count);
            proof {
                lemma_scale_by_power(before, INVERSE, count as nat, factor);
                lemma_steps_scale(before, count as nat);
            }
            self.state = self.state.wrapping_mul(factor);
        }
    }

    /// Starts a new generator, seeded with the next 64-bit output of this one.
    pub fn new_stream(&mut self) -> (child: Pcg)
        ensures
            child@ == seeded(wide_output(old(self)@)),
            child@ != 0,
            final(self)@ == advance(old(self)@, 2),
            final(self)@ != 0,
            (final(self)@, Reply::Stream(child@)) == respond(old(self)@, Call::NewStream),
    {
        let seed: u64 = self.next_u64();
        Self::seed_from_u64(seed)
    }
}

impl Clone for Pcg {
    /// A second generator with the same register.
    fn clone(&self) -> (copy: Pcg)
        ensures
            copy@ == self@,
            copy@ != 0,
    {
        proof {
            use_type_invariant(self);
        }
        Pcg { state: self.state }
    }
}

impl RngCore for Pcg {
    /// Takes one step and returns the output of the new register.
    fn next_u32(&mut self) -> (out: u32)
        ensures
            final(self)@ == step(old(self)@),
            out == output(final(self)@),
            out == nth_output(old(self)@, 1),
            final(self)@ != 0,
            (final(self)@, Reply::Word(out)) == respond(old(self)@, Call::NextU32),
    {
        proof {
            use_type_invariant(&*self);
            lemma_jump_keeps_nonzero(self@, 1);
            reveal_with_fuel(advance, 2);
        }
        self.state = self.state.wrapping_mul(MULTIPLIER);
        produce_output(self.state)
    }

    /// Takes two steps and returns the two 32-bit outputs side by side, the
    /// first in the upper half.
    fn next_u64(&mut self) -> (out: u64)
        ensures
            final(self)@ == advance(old(self)@, 2),
            out == wide_output(old(self)@),
            final(self)@ != 0,
            (final(self)@, Reply::Wide(out)) == respond(old(self)@, Call::NextU64),
    {
        proof {
            reveal_with_fuel(advance, 3);
        }
        let high: u32 = self.next_u32();
        let low: u32 = self.next_u32();
        ((high as u64) << 32) ^ (low as u64)
    }

    /// Fills `dest` with the little-endian bytes of successive 32-bit outputs,
    /// one output for every four bytes started.
    fn fill_bytes(&mut self, dest: &mut [u8])
        ensures
            final(dest)@ == drawn_bytes(old(self)@, old(dest)@.len()),
            final(dest)@.len() == old(dest)@.len(),
            final(self)@ == advance(old(self)@, words_drawn(old(dest)@.len())),
            final(self)@ != 0,
            (final(self)@, Reply::Bytes(final(dest)@)) == respond(
                old(self)@,
                Call::FillBytes(old(dest)@.len()),
            ),
    {
        let ghost start: u64 = self@;
        let len: usize = dest.len();
        let mut word: u32 = 0;
        let mut i: usize = 0;
        proof {
            use_type_invariant(&*self);
        }
        while i < len
            invariant
                i <= len,
                dest@.len() == len,
                self@ != 0,
                self@ == advance(start, words_drawn(i as nat)),
                i % 4 != 0 ==> word == nth_output(start, (i / 4 + 1) as nat),
                forall|k: int|
                    0 <= k < i ==> dest@[k] == le_byte(
                        nth_output(start, (k / 4 + 1) as nat) as u64,
                        (k % 4) as nat,
                    ),
            decreases len - i,
        {
            if i % 4 == 0 {
                word = self.next_u32();
            }
            let shift: u64 = 8 * ((i % 4) as u64);
            dest[i] = (((word as u64) >> shift) & 0xff) as u8;
            i = i + 1;
        }
        assert(dest@ =~= drawn_bytes(start, len as nat));
    }

    /// Fills `dest` as [`Pcg::fill_bytes`] does. It never fails.
    fn try_fill_bytes(&mut self, dest: &mut [u8]) -> (done: Result<(), rand_core::Error>)
        ensures
            done is Ok,
            final(dest)@ == drawn_bytes(old(self)@, old(dest)@.len()),
            final(dest)@.len() == old(dest)@.len(),
            final(self)@ == advance(old(self)@, words_drawn(old(dest)@.len())),
            final(self)@ != 0,
            (final(self)@, Reply::Bytes(final(dest)@)) == respond(
                old(self)@,
                Call::FillBytes(old(dest)@.len()),
            ),
    {
        Ok(self.fill_bytes(dest))
    }
}

impl SeedableRng for Pcg {
    type Seed = PcgSeed;

    /// A generator seeded with the little-endian word of eight bytes.
    fn from_seed(seed: PcgSeed) -> (g: Pcg)
        ensures
            g@ == seeded(seed_word(seed)),
            g@ != 0,
    {
        Self::seed_from_u64(arr_to_u64(seed))
    }

    /// A generator whose register is `seed`, or 1 where `seed` is 0.
    fn seed_from_u64(seed: u64) -> (g: Pcg)
        ensures
            g@ == seeded(seed),
            g@ != 0,
    {
        Pcg { state: if seed == 0 { 1 } else { seed } }
    }
}

} // verus!
