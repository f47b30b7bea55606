//! Laws of the stream, proved of the model in [`crate::stream`].

use crate::fill::{drawn_bytes, words_drawn};
use crate::generator::{seeded, Pcg};
use crate::power::{lemma_inverse_undoes, lemma_wrapping_mul_is_mod, modulus, scale};
use crate::stream::{
    advance, jump, nth_output, output, rewind, step, unstep, wide_output, INVERSE, MULTIPLIER,
};
use vstd::arithmetic::div_mod::{lemma_mod_multiples_vanish, lemma_small_mod};
use vstd::prelude::*;

verus! {

/// The two constants are inverse to each other modulo 2^64.
pub proof fn lemma_constants_are_inverse()
    ensures
        (MULTIPLIER * INVERSE) % modulus() == 1,
{
    let product: int = 0x1000000000000003int * 0x1AAAAAAAAAAAAAABint;
    assert(product == 0x1_0000_0000_0000_0000int * 0x1AAAAAAAAAAAAABint + 1);
    lemma_mod_multiples_vanish(0x1AAAAAAAAAAAAABint, 1, modulus());
    lemma_small_mod(1, modulus() as nat);
}

/// A step backward undoes a step forward, and a step forward undoes a step
/// backward, however often the products wrap.
pub proof fn lemma_step_inverts(state: u64)
    ensures
        unstep(step(state)) == state,
        step(unstep(state)) == state,
{
    lemma_constants_are_inverse();
    assert(INVERSE * MULTIPLIER == MULTIPLIER * INVERSE) by (nonlinear_arith);
    lemma_inverse_undoes(state, MULTIPLIER, INVERSE);
    lemma_inverse_undoes(state, INVERSE, MULTIPLIER);
}

/// Stepping forward is repeated multiplication by [`MULTIPLIER`], stepping
/// backward repeated multiplication by [`INVERSE`].
pub proof fn lemma_steps_scale(state: u64, n: nat)
    ensures
        advance(state, n) == scale(state, MULTIPLIER, n),
        rewind(state, n) == scale(state, INVERSE, n),
    decreases n,
{
    if n > 0 {
        lemma_steps_scale(state, (n - 1) as nat);
    }
}

/// One more step after a jump is a jump by one more; one step back after a
/// jump is a jump by one less. This holds across zero.
pub proof fn lemma_jump_neighbours(state: u64, n: int)
    ensures
        jump(state, n + 1) == step(jump(state, n)),
        jump(state, n - 1) == unstep(jump(state, n)),
{
    if n < 0 {
        let before: u64 = rewind(state, (-n - 1) as nat);
        lemma_step_inverts(before);
        assert(jump(state, n) == unstep(before));
        assert(jump(state, n - 1) == unstep(rewind(state, (-n) as nat)));
    } else if n == 0 {
        assert(jump(state, n + 1) == step(advance(state, 0)));
        assert(jump(state, n - 1) == unstep(rewind(state, 0)));
    } else {
        let before: u64 = advance(state, (n - 1) as nat);
        lemma_step_inverts(before);
        assert(jump(state, n) == step(before));
        assert(jump(state, n + 1) == step(advance(state, n as nat)));
    }
}

/// Jumps compose: a jump by `a` followed by a jump by `b` is a jump by
/// `a + b`, whatever the signs.
pub proof fn lemma_jump_adds(state: u64, a: int, b: int)
    ensures
        jump(jump(state, a), b) == jump(state, a + b),
    decreases (if b >= 0 { b } else { -b }),
{
    if b > 0 {
        lemma_jump_adds(state, a, b - 1);
        lemma_jump_neighbours(jump(state, a), b - 1);
        lemma_jump_neighbours(state, a + b - 1);
    } else if b < 0 {
        lemma_jump_adds(state, a, b + 1);
        lemma_jump_neighbours(jump(state, a), b + 1);
        lemma_jump_neighbours(state, a + b + 1);
    }
}

/// Skipping `k` steps and then `-k` steps restores the register exactly.
pub proof fn lemma_jump_round_trip(state: u64, k: int)
    ensures
        jump(jump(state, k), -k) == state,
{
    lemma_jump_adds(state, k, -k);
}

/// A register that is not zero never becomes zero, however many steps are
/// taken forward or backward.
pub proof fn lemma_jump_keeps_nonzero(state: u64, n: int)
    requires
        state != 0,
    ensures
        jump(state, n) != 0,
{
    lemma_jump_round_trip(state, n);
    lemma_zero_is_fixed(-n);
}

/// Zero is a fixed point of every jump.
pub proof fn lemma_zero_is_fixed(n: int)
    ensures
        jump(0, n) == 0,
    decreases (if n >= 0 { n } else { -n }),
{
    assert(step(0) == 0 && unstep(0) == 0) by {
        lemma_wrapping_mul_is_mod(0, MULTIPLIER);
        lemma_wrapping_mul_is_mod(0, INVERSE);
    }
    if n > 0 {
        lemma_zero_is_fixed(n - 1);
        lemma_jump_neighbours(0, n - 1);
    } else if n < 0 {
        lemma_zero_is_fixed(n + 1);
        lemma_jump_neighbours(0, n + 1);
    }
}

/// Skipping `k` steps and then drawing one 32-bit output gives the output
/// that `k + 1` successive draws end with. It is the output that `k` draws
/// end with only where those two outputs are equal.
pub proof fn lemma_skip_then_draw(state: u64, k: nat)
    ensures
        output(step(jump(state, k as int))) == nth_output(state, k + 1),
        output(step(jump(state, k as int))) == nth_output(state, k) <==> nth_output(state, k + 1)
            == nth_output(state, k),
{
}

/// Drawing `k` 32-bit outputs leaves the register where skipping `k` steps
/// leaves it.
pub proof fn lemma_draws_are_a_skip(state: u64, k: nat)
    ensures
        advance(state, k) == jump(state, k as int),
        k > 0 ==> advance(state, k) == step(advance(state, (k - 1) as nat)),
{
}

/// The 64-bit output is the big-endian concatenation of the next two 32-bit
/// outputs: the first fills the upper half, the second the lower half.
pub proof fn lemma_wide_output_halves(state: u64)
    ensures
        wide_output(state) == nth_output(state, 1) * 0x1_0000_0000 + nth_output(state, 2),
        (wide_output(state) >> 32) as u32 == nth_output(state, 1),
        (wide_output(state) & 0xffff_ffff) as u32 == nth_output(state, 2),
{
    let high: u32 = nth_output(state, 1);
    let low: u32 = nth_output(state, 2);
    assert(((high as u64) << 32) ^ (low as u64) == high * 0x1_0000_0000 + low) by (bit_vector);
    assert(((((high as u64) << 32) ^ (low as u64)) >> 32) as u32 == high) by (bit_vector);
    assert(((((high as u64) << 32) ^ (low as u64)) & 0xffff_ffff) as u32 == low) by (bit_vector);
}

/// One call on a generator.
pub enum Call {
    /// Read the register.
    GetState,
    /// Draw 32 bits.
    NextU32,
    /// Draw 64 bits.
    NextU64,
    /// Fill a buffer of this many bytes.
    FillBytes(nat),
    /// Skip this many steps.
    Skip(i32),
    /// Start a new stream.
    NewStream,
}

/// What a call hands back.
pub enum Reply {
    /// The register read.
    Register(u64),
    /// The 32 bits drawn.
    Word(u32),
    /// The 64 bits drawn.
    Wide(u64),
    /// The bytes written to the buffer.
    Bytes(Seq<u8>),
    /// Nothing.
    Skipped,
    /// The register of the new generator.
    Stream(u64),
}

/// The register after a call and what the call hands back. Every method of
/// [`Pcg`] ensures that it answers as this function says.
pub open spec fn respond(state: u64, call: Call) -> (u64, Reply) {
    match call {
        Call::GetState => (state, Reply::Register(state)),
        Call::NextU32 => (step(state), Reply::Word(nth_output(state, 1))),
        Call::NextU64 => (advance(state, 2), Reply::Wide(wide_output(state))),
        Call::FillBytes(len) => (
            advance(state, words_drawn(len)),
            Reply::Bytes(drawn_bytes(state, len)),
        ),
        Call::Skip(n) => (jump(state, n as int), Reply::Skipped),
        Call::NewStream => (advance(state, 2), Reply::Stream(seeded(wide_output(state)))),
    }
}

/// What a sequence of calls hands back, one after the other.
pub open spec fn replies(state: u64, calls: Seq<Call>) -> Seq<Reply>
    decreases calls.len(),
{
    if calls.len() == 0 {
        Seq::empty()
    } else {
        seq![respond(state, calls[0]).1] + replies(respond(state, calls[0]).0, calls.drop_first())
    }
}

/// Two generators made from one seed answer every sequence of calls alike.
pub proof fn lemma_same_seed_same_replies(seed: u64, first: Pcg, second: Pcg, calls: Seq<Call>)
    requires
        first@ == seeded(seed),
        second@ == seeded(seed),
    ensures
        replies(first@, calls) == replies(second@, calls),
{
}

} // verus!
