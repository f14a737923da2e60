use memsonic::env::rand;
use memsonic::noise::{leash_bits, Gaussian, Rand};

#[test]
fn xorshift_step_values() {
    assert_eq!(1u32.rand(), 0x0004_2021);
    assert_eq!(0xdead_fa11u32.rand(), 0x5c12_b626);
    assert_eq!(0u32.rand(), 0);
}

#[test]
fn rand_returns_state_then_advances() {
    let mut state: u32 = 0xdead_fa11;
    assert_eq!(rand(&mut state), 0xdead_fa11);
    assert_eq!(state, 0x5c12_b626);
    assert_eq!(rand(&mut state), 0x5c12_b626);
    assert_eq!(state, 0x5018_1aed);
}

#[test]
fn nonzero_seed_never_reaches_zero() {
    let mut state: u32 = 1;
    for _ in 0..10_000 {
        rand(&mut state);
        assert_ne!(state, 0);
    }
}

#[test]
fn same_seed_replays_same_sequence() {
    let mut a: u32 = 0x1234_5678;
    let mut b: u32 = 0x1234_5678;
    for _ in 0..100 {
        assert_eq!(rand(&mut a), rand(&mut b));
    }
}

#[test]
fn normal_draws_are_twelve_consecutive_states() {
    let mut g = Gaussian::new(1);
    let d = g.normal_draws();
    let expected: [u32; 12] = [
        0x0004_2021, 0x0408_0601, 0x9dcc_a8c5, 0x1255_994f, 0x8ef9_17d1, 0x2c6f_5bd0,
        0x25b2_331a, 0x19f9_1cb2, 0x7787_7125, 0xadd0_2374, 0x9e60_02cb, 0x591c_9737,
    ];
    assert_eq!(d, expected.to_vec());
    assert_eq!(g.state, 0x591c_9737);
}

#[test]
fn fast_draws_sum_bytes_of_three_states() {
    let mut g = Gaussian::new(1);
    assert_eq!(g.fast_draws(), 814);
    assert_eq!(g.state, 0x9dcc_a8c5);
}

#[test]
fn fast_draws_stay_within_byte_range() {
    let mut g = Gaussian::new(0xdead_fa11);
    for _ in 0..1000 {
        let s = g.fast_draws();
        assert!(s <= 3060);
    }
}

#[test]
fn leash_bits_make_half_to_one_magnitudes() {
    assert_eq!(leash_bits(0), 0x3f00_0000);
    assert_eq!(f32::from_bits(leash_bits(0)), 0.5);
    assert_eq!(f32::from_bits(leash_bits(1)), -0.5);
    assert_eq!(leash_bits(0xffff_ffff), 0xbf7f_ffff);
    let mut state: u32 = 7;
    for _ in 0..1000 {
        let r = rand(&mut state);
        let x = f32::from_bits(leash_bits(r));
        assert!(x.abs() >= 0.5 && x.abs() < 1.0);
        assert_eq!(x < 0.0, r & 1 == 1);
    }
}

#[test]
fn different_seeds_never_merge() {
    let mut a: u32 = 1;
    let mut b: u32 = 2;
    for _ in 0..10_000 {
        rand(&mut a);
        rand(&mut b);
        assert_ne!(a, b);
    }
}
