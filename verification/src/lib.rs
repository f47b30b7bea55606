//! A pseudo-random number generator of the PCG family: a 64-bit multiplicative
//! congruential register with a xorshift and variable-shift output of 32 bits.
//!
//! The stream is deterministic and reproducible. It is not suitable for
//! cryptographic use.
//!
//! [`Pcg`] implements `rand_core::RngCore` and `rand_core::SeedableRng`. The
//! register and its laws are modelled in [`stream`] and [`laws`], jumps over
//! many steps rest on [`power`], seeds are packed in [`seed`], and [`fill`]
//! says which bytes fill a buffer.

pub mod fill;
pub mod generator;
pub mod laws;
pub mod power;
pub mod seed;
pub mod stream;

pub use generator::Pcg;
pub use seed::PcgSeed;
