use sanctuary_seeder::prng::Prng;
use sanctuary_seeder::rating::rating_bits;
use unity_random::Random;

/// The library's generator must reproduce the reference engine's raw
/// 32-bit sequence for a spread of seeds.
#[test]
fn raw_sequence_matches_reference_engine() {
    for seed in [0u32, 1, 2, 42, 32410, 123456, 0xDEAD_BEEF, u32::MAX] {
        let mut reference = Random::new();
        reference.init_state(seed as i32);
        let mut ours = Prng::init_state(seed, 1_000_000);
        for _ in 0..10_000 {
            // one reference draw; the raw value is the new last state word
            reference.range_int(0, 1_000_000);
            let got = ours.next_u32().unwrap();
            let refstate = reference.state;
            assert_eq!(ours.s3, got);
            assert_eq!(
                (ours.s0, ours.s1, ours.s2, ours.s3),
                (refstate.s0, refstate.s1, refstate.s2, refstate.s3),
                "state diverged for seed {seed}"
            );
        }
    }
}

/// `range_int` must match the reference engine draw for draw.
#[test]
fn range_int_matches_reference_engine() {
    for seed in [0u32, 7, 991, 32410, 0x8000_0000] {
        let mut reference = Random::new();
        reference.init_state(seed as i32);
        let mut ours = Prng::init_state(seed, 1_000_000);
        for bound in 1..500i32 {
            let expected = reference.range_int(0, bound);
            let got = ours.range_int(0, bound).unwrap();
            assert_eq!(got, expected, "seed {seed} bound {bound}");
        }
        for (lo, hi) in [(4, 110), (0, 4), (0, 1000), (3, 3)] {
            let expected = reference.range_int(lo, hi);
            let got = ours.range_int(lo, hi).unwrap();
            assert_eq!(got, expected, "seed {seed} range {lo}..{hi}");
        }
    }
}

/// The generator fails draws once its budget is spent, leaving its state
/// unchanged.
#[test]
fn budget_exhaustion_stops_draws() {
    let mut p = Prng::init_state(5, 3);
    assert!(p.next_u32().is_some());
    assert!(p.range_int(0, 10).is_some());
    assert!(p.next_rating().is_some());
    let state = (p.s0, p.s1, p.s2, p.s3);
    assert!(p.next_u32().is_none());
    assert!(p.range_int(0, 10).is_none());
    assert_eq!(state, (p.s0, p.s1, p.s2, p.s3));
}

/// Drives the reference engine so that its next raw draw has exactly the
/// wanted low 23 bits.
fn reference_rating(m: u32) -> u32 {
    let mut reference = Random::new();
    reference.init_state(0);
    reference.state.s0 = 0;
    reference.state.s3 = m ^ (m >> 19);
    reference.range_float(0.0, 1.0).to_bits()
}

fn check_rating_range(lo: u32, hi: u32) {
    for m in lo..hi {
        let expected = reference_rating(m);
        let got = rating_bits(m);
        assert_eq!(got, expected, "rating bits differ for mantissa {m:#x}");
    }
}

/// The integer rating pipeline must reproduce the reference engine's
/// single-precision `range_float(0, 1)` bit for bit: first quarter of
/// the 23-bit mantissa space.
#[test]
fn rating_bits_match_reference_quarter_one() {
    check_rating_range(0, 0x20_0000);
}

/// Second quarter of the mantissa space.
#[test]
fn rating_bits_match_reference_quarter_two() {
    check_rating_range(0x20_0000, 0x40_0000);
}

/// Third quarter of the mantissa space.
#[test]
fn rating_bits_match_reference_quarter_three() {
    check_rating_range(0x40_0000, 0x60_0000);
}

/// Last quarter of the mantissa space.
#[test]
fn rating_bits_match_reference_quarter_four() {
    check_rating_range(0x60_0000, 0x80_0000);
}

/// The rating draw must agree with the reference engine through the
/// generator itself, not only on injected states.
#[test]
fn rating_draws_match_reference_engine() {
    for seed in [0u32, 1, 32410, 77777] {
        let mut reference = Random::new();
        reference.init_state(seed as i32);
        let mut ours = Prng::init_state(seed, 1_000_000);
        for _ in 0..5_000 {
            let expected = reference.range_float(0.0, 1.0).to_bits();
            let got = ours.next_rating().unwrap();
            assert_eq!(got, expected, "seed {seed}");
        }
    }
}
