use falling_sand::noise::{advance, chance, mix, noise, pick};
use falling_sand::paint::{fresh, paintable, within};
use falling_sand::universe::DEFAULT_SEED;
use falling_sand::{Cell, Species};

#[test]
fn mix_gives_the_known_values() {
    assert_eq!(mix(0, 0), 0);
    assert_eq!(mix(1, 2), 0x0dd6_b1d3);
    assert_eq!(mix(DEFAULT_SEED, 7), 0x2b85_f774);
}

#[test]
fn advance_is_mix_with_a_fixed_salt() {
    assert_eq!(advance(DEFAULT_SEED), 0x993e_d3c7);
    assert_eq!(advance(DEFAULT_SEED), mix(DEFAULT_SEED, 0x5eed_5eed));
    assert_ne!(advance(0), 0);
}

#[test]
fn noise_mixes_column_then_row() {
    assert_eq!(noise(DEFAULT_SEED, 5, 0), 0x5db9_584d);
    assert_eq!(noise(DEFAULT_SEED, 0, 0), 0x9c0a_36b7);
    assert_eq!(noise(DEFAULT_SEED, 2, 1), mix(mix(DEFAULT_SEED, 2), 1));
    assert_ne!(noise(DEFAULT_SEED, 2, 1), noise(DEFAULT_SEED, 1, 2));
}

#[test]
fn chance_compares_the_low_byte() {
    assert!(!chance(0, 0));
    assert!(chance(0, 1));
    assert!(chance(0x1234_5600, 1));
    assert!(!chance(0x1234_5601, 1));
    assert!(chance(0xffff_fffe, 255));
    assert!(!chance(0xffff_ffff, 255));
    for r in 0..512u32 {
        assert!(!chance(r, 0));
    }
}

#[test]
fn pick_is_the_second_byte() {
    assert_eq!(pick(0x1234_5678), 0x56);
    assert_eq!(pick(0xff), 0);
    assert_eq!(pick(0xff00), 0xff);
}

#[test]
fn fresh_takes_its_bytes_from_the_high_half_of_the_draw() {
    assert_eq!(
        fresh(Species::Sand, 0xabcd_1234),
        Cell { species: Species::Sand, ra: 0xcd, rb: 0xab }
    );
    assert_eq!(fresh(Species::Acid, 0x0102_0304), Cell { species: Species::Acid, ra: 2, rb: 1 });
    assert_eq!(
        fresh(Species::Rocket, 0xff00_0000),
        Cell { species: Species::Rocket, ra: 0, rb: 0xff }
    );
}

#[test]
fn fresh_starts_some_species_from_zero() {
    assert_eq!(fresh(Species::Empty, 0xabcd_1234), Cell { species: Species::Empty, ra: 0, rb: 0 });
    assert_eq!(
        fresh(Species::Cloner, 0xabcd_1234),
        Cell { species: Species::Cloner, ra: 0, rb: 0xab }
    );
    assert_eq!(fresh(Species::Fire, 0xabcd_1234), Cell { species: Species::Fire, ra: 0xcd, rb: 0 });
    assert_eq!(fresh(Species::Wood, 0xabcd_1234), Cell { species: Species::Wood, ra: 0xcd, rb: 0 });
}

#[test]
fn walls_may_only_be_erased() {
    assert!(paintable(Species::Wall, Species::Empty));
    assert!(!paintable(Species::Wall, Species::Sand));
    assert!(!paintable(Species::Wall, Species::Wall));
    assert!(paintable(Species::Empty, Species::Sand));
    assert!(paintable(Species::Stone, Species::Wall));
    assert!(paintable(Species::Fire, Species::Empty));
}

#[test]
fn a_disc_includes_its_rim() {
    assert!(within(0, 0, 0));
    assert!(!within(1, 0, 0));
    assert!(!within(0, -1, 0));
    assert!(within(1, 0, 1));
    assert!(within(0, -1, 1));
    assert!(!within(1, 1, 1));
    assert!(within(3, 4, 5));
    assert!(within(-4, 3, 5));
    assert!(within(5, 0, 5));
    assert!(!within(4, 4, 5));
    assert!(!within(0, 0, -1));
    assert!(!within(0, 0, i32::MIN));
}

#[test]
fn a_disc_test_does_not_overflow() {
    let far: i64 = 0x1_0000_0000;
    assert!(!within(far, far, i32::MAX));
    assert!(!within(-far, 0, i32::MAX));
    assert!(within(i32::MAX as i64, 0, i32::MAX));
    assert!(within(0, -(i32::MAX as i64), i32::MAX));
    assert!(!within(i32::MAX as i64, 1, i32::MAX));
    assert!(!within(i64::MAX, i64::MIN, 3));
}
