//! The mathematical model of the generator: a multiplicative congruential
//! register modulo 2^64 and the xorshift/variable-shift output permutation.
//!
//! Everything here is stated on the bare 64-bit register, so that the laws of
//! the stream can be read without the generator type.

use vstd::prelude::*;

verus! {

/// The multiplier of the state update, 2^60 + 3.
pub const MULTIPLIER: u64 = 0x1000000000000003;

/// The inverse of [`MULTIPLIER`] modulo 2^64. The two constants are one fact:
/// their product is congruent to 1.
pub const INVERSE: u64 = 0x1AAAAAAAAAAAAAAB;

/// One step forward: the register times [`MULTIPLIER`], modulo 2^64.
pub open spec fn step(state: u64) -> u64 {
    state.wrapping_mul(MULTIPLIER)
}

/// One step backward: the register times [`INVERSE`], modulo 2^64.
pub open spec fn unstep(state: u64) -> u64 {
    state.wrapping_mul(INVERSE)
}

/// The register after `n` forward steps.
pub open spec fn advance(state: u64, n: nat) -> u64
    decreases n,
{
    if n == 0 {
        state
    } else {
        step(advance(state, (n - 1) as nat))
    }
}

/// The register after `n` backward steps.
pub open spec fn rewind(state: u64, n: nat) -> u64
    decreases n,
{
    if n == 0 {
        state
    } else {
        unstep(rewind(state, (n - 1) as nat))
    }
}

/// The register after a signed number of steps: forward for a positive `n`,
/// backward for a negative one.
pub open spec fn jump(state: u64, n: int) -> u64 {
    if n >= 0 {
        advance(state, n as nat)
    } else {
        rewind(state, (-n) as nat)
    }
}

/// The output permutation: xorshift by 22, then a right shift by 22 plus the
/// top three bits of the register, truncated to 32 bits.
pub open spec fn output(state: u64) -> u32 {
    ((state ^ (state >> 22)) >> ((22 + (state >> 61)) as u64)) as u32
}

/// The `k`-th 32-bit output of a generator whose register is `state`,
/// counting from 1: the permutation of the register after `k` steps.
pub open spec fn nth_output(state: u64, k: nat) -> u32 {
    output(advance(state, k))
}

/// Two 32-bit words side by side, `high` in the upper half.
pub open spec fn join_words(high: u32, low: u32) -> u64 {
    ((high as u64) << 32) ^ (low as u64)
}

/// The next 64-bit output: the next two 32-bit outputs, the first in the
/// upper half.
pub open spec fn wide_output(state: u64) -> u64 {
    join_words(nth_output(state, 1), nth_output(state, 2))
}

/// Computes the output permutation of a register.
pub fn produce_output(state: u64) -> (out: u32)
    ensures
        out == output(state),
{
    assert(state >> 61 <= 7) by (bit_vector);
    let shift: u64 = 22 + (state >> 61);
    ((state ^ (state >> 22)) >> shift) as u32
}

} // verus!
