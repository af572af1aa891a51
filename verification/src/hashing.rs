//! Deterministic randomness: coordinate hashes, from which terrain, tree
//! growth and other placement draw (so a world is the same every time it
//! is generated from the same seed), and the generator behind drops and
//! other chance events.

use vstd::prelude::*;

verus! {

/// A 32-bit integer mixer: two rounds of xor-shift and multiplication.
pub open spec fn mix32(x: u32) -> u32 {
    let a = x ^ (x >> 16u32);
    let b = a.wrapping_mul(0x7feb352du32);
    let c = b ^ (b >> 15u32);
    let d = c.wrapping_mul(0x846ca68bu32);
    d ^ (d >> 16u32)
}

/// The hash of a 2-D position under `seed`.
pub open spec fn spec_hash2(seed: u32, x: i32, y: i32) -> u32 {
    mix32(seed ^ (x as u32).wrapping_mul(0x9E3779B1u32) ^ (y as u32).wrapping_mul(0x85EBCA77u32))
}

/// The hash of a 3-D position under `seed`.
pub open spec fn spec_hash3(seed: u32, x: i32, y: i32, z: i32) -> u32 {
    mix32(
        seed ^ (x as u32).wrapping_mul(0x9E3779B1u32) ^ (y as u32).wrapping_mul(0x85EBCA77u32) ^ (z as u32).wrapping_mul(
            0xC2B2AE3Du32,
        ),
    )
}

pub fn hash32(x: u32) -> (r: u32)
    ensures
        r == mix32(x),
{
    let mut x = x;
    x ^= x >> 16;
    x = x.wrapping_mul(0x7feb352d);
    x ^= x >> 15;
    x = x.wrapping_mul(0x846ca68b);
    x ^= x >> 16;
    x
}

pub fn hash2(seed: u32, x: i32, y: i32) -> (r: u32)
    ensures
        r == spec_hash2(seed, x, y),
{
    hash32(seed ^ (x as u32).wrapping_mul(0x9E3779B1) ^ (y as u32).wrapping_mul(0x85EBCA77))
}

pub fn hash3(seed: u32, x: i32, y: i32, z: i32) -> (r: u32)
    ensures
        r == spec_hash3(seed, x, y, z),
{
    hash32(
        seed ^ (x as u32).wrapping_mul(0x9E3779B1) ^ (y as u32).wrapping_mul(0x85EBCA77) ^ (z as u32).wrapping_mul(
            0xC2B2AE3D,
        ),
    )
}

/// One step of the game's linear congruential generator: the state moves
/// on, and its top 24 bits are the draw (a float draw divides them by
/// 2^24).
pub fn next_bits24(rng: &mut u32) -> (r: u32)
    ensures
        *final(rng) == old(rng).wrapping_mul(1664525u32).wrapping_add(1013904223u32),
        r == (*final(rng) >> 8u32) & 0xFF_FFFFu32,
        r < 0x100_0000,
{
    *rng = rng.wrapping_mul(1664525).wrapping_add(1013904223);
    let v = *rng;
    assert((v >> 8u32) & 0xFF_FFFFu32 < 0x100_0000) by (bit_vector);
    (v >> 8) & 0xFF_FFFF
}


} // verus!
