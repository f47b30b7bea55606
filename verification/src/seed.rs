//! The seed of a generator: eight bytes, packed little-endian into a word.

use vstd::prelude::*;

verus! {

/// The eight seed bytes of a generator, least significant first.
pub struct PcgSeed(pub [u8; 8]);

impl Default for PcgSeed {
    /// The seed of eight zero bytes.
    fn default() -> (seed: PcgSeed)
        ensures
            seed.0@ == Seq::new(8, |i: int| 0u8),
    {
        PcgSeed([0u8; 8])
    }
}

impl AsMut<[u8]> for PcgSeed {
    /// Lends the eight bytes for writing.
    fn as_mut(&mut self) -> (bytes: &mut [u8])
        ensures
            bytes@ == old(self).0@,
            final(self).0@ == final(bytes)@,
    {
        &mut self.0
    }
}

/// The byte at `index`, moved to its place in a little-endian word.
pub open spec fn placed(byte: u8, index: nat) -> u64 {
    (byte as u64) << ((8 * index) as u64)
}

/// The first `n` bytes packed into a word: byte `i` contributes
/// `byte << (8 * i)`, and the contributions are combined with XOR.
pub open spec fn pack_le(bytes: Seq<u8>, n: nat) -> u64
    decreases n,
{
    if n == 0 {
        0
    } else {
        pack_le(bytes, (n - 1) as nat) ^ placed(bytes[n - 1], (n - 1) as nat)
    }
}

/// The word that a seed stands for.
pub open spec fn seed_word(seed: PcgSeed) -> u64 {
    pack_le(seed.0@, 8)
}

/// The little-endian value of eight bytes: the sum of `byte[i] * 256^i`.
pub open spec fn le_value(bytes: Seq<u8>) -> int {
    bytes[0] + bytes[1] * 0x100 + bytes[2] * 0x1_0000 + bytes[3] * 0x100_0000 + bytes[4]
        * 0x1_0000_0000 + bytes[5] * 0x100_0000_0000 + bytes[6] * 0x1_0000_0000_0000 + bytes[7]
        * 0x100_0000_0000_0000
}

/// Packing eight bytes with shifts and XOR is little-endian concatenation.
pub proof fn lemma_pack_is_le_value(bytes: Seq<u8>)
    requires
        bytes.len() == 8,
    ensures
        pack_le(bytes, 8) == le_value(bytes),
{
    reveal_with_fuel(pack_le, 9);
    let b0: u8 = bytes[0];
    let b1: u8 = bytes[1];
    let b2: u8 = bytes[2];
    let b3: u8 = bytes[3];
    let b4: u8 = bytes[4];
    let b5: u8 = bytes[5];
    let b6: u8 = bytes[6];
    let b7: u8 = bytes[7];
    let packed: u64 = pack_le(bytes, 8);
    assert(packed == b0 + b1 * 0x100 + b2 * 0x1_0000 + b3 * 0x100_0000 + b4 * 0x1_0000_0000 + b5
        * 0x100_0000_0000 + b6 * 0x1_0000_0000_0000 + b7 * 0x100_0000_0000_0000) by (bit_vector)
        requires
            packed == 0u64 ^ ((b0 as u64) << 0u64) ^ ((b1 as u64) << 8u64) ^ ((b2 as u64) << 16u64)
                ^ ((b3 as u64) << 24u64) ^ ((b4 as u64) << 32u64) ^ ((b5 as u64) << 40u64) ^ ((
            b6 as u64) << 48u64) ^ ((b7 as u64) << 56u64),
    ;
}

/// Packs the eight bytes of a seed into a word, least significant byte first.
pub fn arr_to_u64(arr: PcgSeed) -> (seed: u64)
    ensures
        seed == seed_word(arr),
{
    let mut seed: u64 = 0;
    let mut i: usize = 0;
    while i < 8
        invariant
            i <= 8,
            seed == pack_le(arr.0@, i as nat),
        decreases 8 - i,
    {
        let shift: u64 = 8 * (i as u64);
        seed = seed ^ ((arr.0[i] as u64) << shift);
        i = i + 1;
    }
    seed
}

} // verus!
