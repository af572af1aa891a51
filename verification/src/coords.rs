//! Block and chunk coordinates, and the one-to-one keys that world maps are
//! indexed by.

use vstd::prelude::*;

verus! {

/// The chunk coordinate of a block coordinate (floor division by 16).
pub open spec fn chunk_of(v: i32) -> i32 {
    v >> 4i32
}

/// The coordinate within its chunk (Euclidean remainder by 16).
pub open spec fn local_of(v: i32) -> i32 {
    v & 15i32
}

/// Index of a cell in a chunk: y-major, then z, then x.
pub open spec fn cell_index(lx: int, y: int, lz: int) -> int {
    y * 256 + lz * 16 + lx
}

pub open spec fn chunk_key(cx: i32, cz: i32) -> u64 {
    (((cx as u32) as u64) << 32u64) | ((cz as u32) as u64)
}

pub open spec fn pos_key(x: i32, y: i32, z: i32) -> u128 {
    (((x as u32) as u128) << 64u128) | (((y as u32) as u128) << 32u128) | ((z as u32) as u128)
}

pub open spec fn pos_key_of(p: (i32, i32, i32)) -> u128 {
    pos_key(p.0, p.1, p.2)
}

/// Chunk keys tell their coordinates back.
pub broadcast proof fn lemma_chunk_key_unpacks(cx: i32, cz: i32)
    ensures
        ((#[trigger] chunk_key(cx, cz) >> 32u64) as u32) as i32 == cx,
        ((chunk_key(cx, cz) as u32) as i32) == cz,
{
    assert((((((cx as u32) as u64) << 32u64) | ((cz as u32) as u64)) >> 32u64) as u32 == cx as u32) by (bit_vector);
    assert(((((((cx as u32) as u64) << 32u64) | ((cz as u32) as u64))) as u32) == cz as u32) by (bit_vector);
    assert(((cx as u32) as i32) == cx && ((cz as u32) as i32) == cz) by (bit_vector);
}

/// Position keys tell their coordinates back.
pub broadcast proof fn lemma_pos_key_unpacks(x: i32, y: i32, z: i32)
    ensures
        ((#[trigger] pos_key(x, y, z) >> 64u128) as u32) as i32 == x,
        ((pos_key(x, y, z) >> 32u128) as u32) as i32 == y,
        (pos_key(x, y, z) as u32) as i32 == z,
{
    let k = pos_key(x, y, z);
    assert(((((((x as u32) as u128) << 64u128) | (((y as u32) as u128) << 32u128) | ((z as u32) as u128)) >> 64u128) as u32)
        == x as u32) by (bit_vector);
    assert(((((((x as u32) as u128) << 64u128) | (((y as u32) as u128) << 32u128) | ((z as u32) as u128)) >> 32u128) as u32)
        == y as u32) by (bit_vector);
    assert((((((x as u32) as u128) << 64u128) | (((y as u32) as u128) << 32u128) | ((z as u32) as u128)) as u32)
        == z as u32) by (bit_vector);
    assert(((x as u32) as i32) == x && ((y as u32) as i32) == y && ((z as u32) as i32) == z) by (bit_vector);
}

pub broadcast group group_world_keys {
    lemma_chunk_key_unpacks,
    lemma_pos_key_unpacks,
}

pub fn chunk_key_of(cx: i32, cz: i32) -> (r: u64)
    ensures
        r == chunk_key(cx, cz),
{
    (((cx as u32) as u64) << 32) | ((cz as u32) as u64)
}

pub fn pos_key_from(x: i32, y: i32, z: i32) -> (r: u128)
    ensures
        r == pos_key(x, y, z),
{
    (((x as u32) as u128) << 64) | (((y as u32) as u128) << 32) | ((z as u32) as u128)
}

pub proof fn lemma_local_range(v: i32)
    ensures
        0 <= local_of(v) < 16,
        chunk_of(v) * 16 + local_of(v) == v,
{
    assert(0 <= v & 15i32 < 16) by (bit_vector);
    assert((v >> 4i32) * 16 + (v & 15i32) == v) by (bit_vector);
}

} // verus!
