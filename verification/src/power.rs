//! Powers modulo 2^64: the algebra behind jumping many steps at once.

use vstd::arithmetic::div_mod::{lemma_mul_mod_noop_general, lemma_small_mod};
use vstd::arithmetic::power::{
    lemma_pow0, lemma_pow1, lemma_pow_adds, lemma_pow_mod_noop, lemma_pow_multiplies,
    lemma_square_is_pow2, pow,
};
use vstd::prelude::*;

verus! {

/// The modulus of the register: 2^64.
pub open spec fn modulus() -> int {
    0x1_0000_0000_0000_0000
}

/// `state` times `factor`, `n` times over, each product reduced modulo 2^64.
pub open spec fn scale(state: u64, factor: u64, n: nat) -> u64
    decreases n,
{
    if n == 0 {
        state
    } else {
        scale(state, factor, (n - 1) as nat).wrapping_mul(factor)
    }
}

/// Products of congruent factors are congruent.
pub proof fn lemma_mul_congruent(a: int, b: int, x: int, y: int)
    requires
        a % modulus() == b % modulus(),
        x % modulus() == y % modulus(),
    ensures
        (a * x) % modulus() == (b * y) % modulus(),
{
    lemma_mul_mod_noop_general(a, x, modulus());
    lemma_mul_mod_noop_general(b, y, modulus());
}

/// A wrapping product is the product of the integers, reduced modulo 2^64.
pub proof fn lemma_wrapping_mul_is_mod(x: u64, y: u64)
    ensures
        x.wrapping_mul(y) == (x * y) % modulus(),
{
    assert(x as nat * y as nat == x * y) by (nonlinear_arith);
}

/// An exponent splits into its lowest bit and the half above it.
pub proof fn lemma_pow_halves(b: int, e: nat)
    ensures
        pow(b, e) == (if e % 2 == 1 { b } else { 1 }) * pow(b * b, e / 2),
{
    let half: nat = e / 2;
    let low: nat = e % 2;
    lemma_pow_adds(b, low, 2 * half);
    lemma_pow_multiplies(b, 2, half);
    lemma_square_is_pow2(b);
    lemma_pow0(b);
    lemma_pow1(b);
}

/// Repeated wrapping multiplication by `factor` is multiplication by its power.
pub proof fn lemma_scale_is_power(state: u64, factor: u64, n: nat)
    ensures
        scale(state, factor, n) == (state * pow(factor as int, n)) % modulus(),
    decreases n,
{
    reveal(pow);
    if n == 0 {
        lemma_small_mod(state as nat, modulus() as nat);
    } else {
        let before: u64 = scale(state, factor, (n - 1) as nat);
        let lower: int = pow(factor as int, (n - 1) as nat);
        lemma_scale_is_power(state, factor, (n - 1) as nat);
        lemma_wrapping_mul_is_mod(before, factor);
        lemma_mul_mod_noop_general(state * lower, factor as int, modulus());
        assert((state * lower) * factor == state * (factor * lower)) by (nonlinear_arith);
    }
}

/// One wrapping multiplication by a power of `factor` does the work of `n`
/// multiplications by `factor`.
pub proof fn lemma_scale_by_power(state: u64, factor: u64, n: nat, power: u64)
    requires
        power == pow(factor as int, n) % modulus(),
    ensures
        state.wrapping_mul(power) == scale(state, factor, n),
{
    lemma_scale_is_power(state, factor, n);
    lemma_wrapping_mul_is_mod(state, power);
    lemma_mul_mod_noop_general(state as int, pow(factor as int, n), modulus());
}

/// Multiplying by `factor` and then by its inverse modulo 2^64 changes nothing.
pub proof fn lemma_inverse_undoes(state: u64, factor: u64, inverse: u64)
    requires
        (factor * inverse) % modulus() == 1,
    ensures
        state.wrapping_mul(factor).wrapping_mul(inverse) == state,
{
    let once: u64 = state.wrapping_mul(factor);
    lemma_wrapping_mul_is_mod(state, factor);
    lemma_wrapping_mul_is_mod(once, inverse);
    lemma_mul_mod_noop_general(state * factor, inverse as int, modulus());
    assert((state * factor) * inverse == state * (factor * inverse)) by (nonlinear_arith);
    lemma_mul_mod_noop_general(state as int, factor * inverse, modulus());
    lemma_small_mod(state as nat, modulus() as nat);
}

/// Raises `base` to the power `exp` modulo 2^64 by repeated squaring.
pub fn wrapping_pow(base: u64, exp: u64) -> (power: u64)
    ensures
        power == pow(base as int, exp as nat) % modulus(),
{
    let mut power: u64 = 1;
    let mut square: u64 = base;
    let mut left: u64 = exp;
    proof {
        assert(1 * pow(base as int, exp as nat) == pow(base as int, exp as nat));
    }
    while left > 0
        invariant
            (power * pow(square as int, left as nat)) % modulus() == pow(base as int, exp as nat)
                % modulus(),
        decreases left,
    {
        let ghost low: int = if left % 2 == 1 { square as int } else { 1 };
        let ghost old_power: u64 = power;
        let ghost old_square: u64 = square;
        let ghost old_left: u64 = left;
        if left % 2 == 1 {
            power = power.wrapping_mul(square);
        }
        square = square.wrapping_mul(square);
        left = left / 2;
        proof {
            let tail: int = pow(old_square * old_square, left as nat);
            lemma_pow_halves(old_square as int, old_left as nat);
            lemma_wrapping_mul_is_mod(old_power, old_square);
            lemma_wrapping_mul_is_mod(old_square, old_square);
            lemma_small_mod(old_power as nat, modulus() as nat);
            assert(old_power * 1 == old_power);
            assert(power as int % modulus() == (old_power * low) % modulus());
            lemma_pow_mod_noop(old_square * old_square, left as nat, modulus());
            lemma_small_mod(square as nat, modulus() as nat);
            assert(pow(square as int, left as nat) % modulus() == tail % modulus());
            lemma_mul_congruent(
                power as int,
                old_power * low,
                pow(square as int, left as nat),
                tail,
            );
            assert((old_power * low) * tail == old_power * (low * tail)) by (nonlinear_arith);
        }
    }
    proof {
        lemma_pow0(square as int);
        lemma_small_mod(power as nat, modulus() as nat);
    }
    power
}

} // verus!
