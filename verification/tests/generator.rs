use pcg::{Pcg, PcgSeed};
use rand_core::{RngCore, SeedableRng};
use std::num::Wrapping;

const MULTIPLIER: u64 = 0x1000000000000003;

#[test]
fn test_from_seed() {
    let arr = [0xef, 0xcd, 0xab, 0x89, 0x67, 0x45, 0x23, 0x01];
    let pcg = Pcg::from_seed(PcgSeed(arr));
    assert_eq!(pcg.get_state(), 0x0123456789abcdef);
}

#[test]
fn test_seed_from_u64() {
    let seed = u64::MAX;
    let pcg = Pcg::seed_from_u64(seed);
    assert_eq!(pcg.get_state(), seed);
}

#[test]
fn test_next_u64() {
    let seed = rand::random::<u64>();
    let mut state = (Wrapping(seed) * Wrapping(MULTIPLIER)).0;
    let mut next: u64 = (state ^ (state >> 22)) >> (22 + (state >> 61)) << 32;
    state = (Wrapping(state) * Wrapping(MULTIPLIER)).0;
    next ^= ((state ^ (state >> 22)) >> (22 + (state >> 61))) & 0xFFFFFFFF;

    let mut pcg = Pcg::seed_from_u64(seed);
    assert_eq!(pcg.next_u64(), next);
}

#[test]
fn test_next_u32() {
    let seed = rand::random::<u64>();
    let state = (Wrapping(seed) * Wrapping(MULTIPLIER)).0;
    let next = ((state ^ (state >> 22)) >> (22 + (state >> 61))) as u32;

    let mut pcg = Pcg::seed_from_u64(seed);
    assert_eq!(pcg.next_u32(), next);
}

#[test]
fn test_fill_bytes() {
    let seed = rand::random::<u64>();
    let state = (Wrapping(seed) * Wrapping(MULTIPLIER)).0;
    let next = (state ^ (state >> 22)) >> (22 + (state >> 61));
    let secondstate = (Wrapping(state) * Wrapping(MULTIPLIER)).0;
    let secondnext = (secondstate ^ (secondstate >> 22)) >> (22 + (secondstate >> 61));
    let mut next_eight_expected_bytes = [0; 8];
    for i in 0..4 {
        next_eight_expected_bytes[i] = ((next >> 8 * i) % 256) as u8;
    }
    for i in 0..4 {
        next_eight_expected_bytes[i + 4] = ((secondnext >> 8 * i) % 256) as u8;
    }

    let mut arr = [0; 8];
    let mut pcg = Pcg::seed_from_u64(seed);
    pcg.fill_bytes(&mut arr);
    assert_eq!(arr, next_eight_expected_bytes);

    pcg = Pcg::seed_from_u64(seed);
    assert!(pcg.try_fill_bytes(&mut arr).is_ok());
    assert_eq!(arr, next_eight_expected_bytes);
}

#[test]
fn test_skip() {
    let seed = rand::random::<u64>();
    let state = (Wrapping(seed) * Wrapping(MULTIPLIER) * Wrapping(MULTIPLIER)).0;
    let next = ((state ^ (state >> 22)) >> (22 + (state >> 61))) as u32;

    let mut pcg = Pcg::seed_from_u64(seed);
    pcg.skip(1);
    assert_eq!(pcg.next_u32(), next);
}

#[test]
fn test_skip_backwards() {
    let seed = rand::random::<u64>();
    let skips = rand::random::<i8>();
    let mut pcg = Pcg::seed_from_u64(seed);
    pcg.skip(skips as i32);
    pcg.skip(-(skips as i32));
    assert_eq!(pcg.get_state(), seed);
}

#[test]
fn test_no_zeroes_in_state() {
    let mut pcg = Pcg::seed_from_u64(0);
    assert_ne!(pcg.get_state(), 0);

    for _ in 0..100 {
        pcg.skip(1);
        assert_ne!(pcg.get_state(), 0);
    }
}

#[test]
fn test_clone() {
    let mut parent = Pcg::seed_from_u64(rand::random::<u64>());
    let mut child = parent.clone();
    assert_eq!(child.next_u64(), parent.next_u64());
    parent.skip(1);
    assert_ne!(child.next_u64(), parent.next_u64());
}

#[test]
fn test_new_stream() {
    let mut parent = Pcg::seed_from_u64(rand::random::<u64>());
    let mut child = parent.new_stream();

    parent.skip(-2);
    let seed = parent.next_u64();
    let state = (Wrapping(seed) * Wrapping(MULTIPLIER)).0;
    let next = ((state ^ (state >> 22)) >> (22 + (state >> 61))) as u32;
    assert_eq!(child.next_u32(), next);
}
