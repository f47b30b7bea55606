//! Filling a byte buffer from the stream.

use crate::stream::nth_output;
use vstd::prelude::*;

verus! {

/// `rand_core::Error`, the error in the signature of `try_fill_bytes`. Nothing
/// is known of what it holds, and this library never makes one.
#[verifier::external_type_specification]
#[verifier::external_body]
pub struct ExError(rand_core::Error);

/// Byte `index` of the little-endian encoding of `word`.
pub open spec fn le_byte(word: u64, index: nat) -> u8 {
    ((word >> ((8 * index) as u64)) & 0xff) as u8
}

/// The first `n` bytes of the little-endian encoding of `word`.
pub open spec fn le_bytes(word: u64, n: nat) -> Seq<u8> {
    Seq::new(n, |i: int| le_byte(word, i as nat))
}

/// The bytes that fill a buffer of `len` bytes from a generator whose
/// register is `state`: the little-endian bytes of the 32-bit outputs in the
/// order drawn, four bytes to an output, the last output cut to the room that
/// is left.
pub open spec fn drawn_bytes(state: u64, len: nat) -> Seq<u8> {
    Seq::new(len, |i: int| le_byte(nth_output(state, (i / 4 + 1) as nat) as u64, (i % 4) as nat))
}

/// The number of 32-bit outputs drawn to fill `len` bytes: one for every
/// chunk of four bytes that is started.
pub open spec fn words_drawn(len: nat) -> nat {
    (len + 3) / 4
}

/// Filling a buffer whose length is a multiple of four gives, chunk by chunk,
/// the four little-endian bytes of the outputs that as many single draws of
/// 32 bits give, in that order.
pub proof fn lemma_chunks_are_draws(state: u64, len: nat, chunk: nat)
    requires
        len % 4 == 0,
        chunk < len / 4,
    ensures
        drawn_bytes(state, len).subrange(4 * chunk as int, 4 * chunk as int + 4) == le_bytes(
            nth_output(state, chunk + 1) as u64,
            4,
        ),
        words_drawn(len) == len / 4,
{
    let part: Seq<u8> = drawn_bytes(state, len).subrange(4 * chunk as int, 4 * chunk as int + 4);
    let word: Seq<u8> = le_bytes(nth_output(state, chunk + 1) as u64, 4);
    assert forall|i: int| 0 <= i < 4 implies part[i] == word[i] by {
        assert((4 * chunk + i) / 4 == chunk && (4 * chunk + i) % 4 == i);
    }
    assert(part =~= word);
}

} // verus!
