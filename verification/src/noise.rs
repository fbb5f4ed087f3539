//! The pseudo-random source of the simulation.
//!
//! The grid carries one 32-bit seed. Every random choice of a step is a
//! function of that seed and of the place it is made for, so a step needs no
//! mutable generator; the seed itself moves on once per tick and once per
//! brush stroke.

use vstd::prelude::*;

verus! {

/// A 32-bit integer hash of `seed` and `salt` (three multiply-xorshift rounds).
pub open spec fn spec_mix(seed: u32, salt: u32) -> u32 {
    let a = seed ^ salt.wrapping_mul(0x9E37_79B1u32);
    let b = (a ^ (a >> 16u32)).wrapping_mul(0x85EB_CA6Bu32);
    let c = (b ^ (b >> 13u32)).wrapping_mul(0xC2B2_AE35u32);
    c ^ (c >> 16u32)
}

/// The seed that follows `seed`.
pub open spec fn spec_advance(seed: u32) -> u32 {
    spec_mix(seed, 0x5EED_5EEDu32)
}

/// Whether a draw `r` falls under a chance of `odds` in 256.
pub open spec fn spec_chance(r: u32, odds: u8) -> bool {
    r % 256 < odds as u32
}

/// The second byte of a draw, for choices that must not depend on `chance`.
pub open spec fn spec_pick(r: u32) -> u8 {
    ((r / 256) % 256) as u8
}

/// The random draw of the cell at `(x, y)`, a place of the grid, under
/// `seed`.
pub open spec fn spec_noise(seed: u32, x: int, y: int) -> u32 {
    spec_mix(spec_mix(seed, x as u32), y as u32)
}

/// A 32-bit integer hash of `seed` and `salt` (three multiply-xorshift rounds).
#[verifier::when_used_as_spec(spec_mix)]
pub fn mix(seed: u32, salt: u32) -> (r: u32)
    ensures
        r == spec_mix(seed, salt),
{
    let a: u32 = seed ^ salt.wrapping_mul(0x9E37_79B1u32);
    let b: u32 = (a ^ (a >> 16u32)).wrapping_mul(0x85EB_CA6Bu32);
    let c: u32 = (b ^ (b >> 13u32)).wrapping_mul(0xC2B2_AE35u32);
    c ^ (c >> 16u32)
}

/// The seed that follows `seed`.
#[verifier::when_used_as_spec(spec_advance)]
pub fn advance(seed: u32) -> (next: u32)
    ensures
        next == spec_advance(seed),
{
    mix(seed, 0x5EED_5EEDu32)
}

/// Whether a draw `r` falls under a chance of `odds` in 256.
#[verifier::when_used_as_spec(spec_chance)]
pub fn chance(r: u32, odds: u8) -> (yes: bool)
    ensures
        yes == spec_chance(r, odds),
{
    r % 256 < odds as u32
}

/// The second byte of a draw, for choices that must not depend on `chance`.
#[verifier::when_used_as_spec(spec_pick)]
pub fn pick(r: u32) -> (byte: u8)
    ensures
        byte == spec_pick(r),
{
    ((r / 256) % 256) as u8
}

/// The random draw of the cell at `(x, y)` under `seed`.
pub fn noise(seed: u32, x: u32, y: u32) -> (r: u32)
    ensures
        r == spec_noise(seed, x as int, y as int),
{
    mix(mix(seed, x), y)
}

} // verus!
