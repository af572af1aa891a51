//! World actions the game loop sets off: the chunk loading order, adopting
//! generated chunks, switching dimension, portal arrival, blast damage to
//! blocks, support checks, dispensers and tree growth. Where a random draw
//! or a floating-point distance decides, the caller makes it and hands the
//! outcome in.

use vstd::prelude::*;
use crate::blocks;
use crate::blocks::Block;
use crate::coords;
use crate::coords::{chunk_key_of, pos_key_from};
use crate::edits::{fill_ok, ops_in_range, ops_post, EditOp, Guard};
use crate::fluids::put;
use crate::world::{
    block_at, chunks_wf, coord_ok, set_block_post, Chunk, World, WorldView, CHUNK_VOLUME, HEIGHT,
};
use std::collections::HashMap;

verus! {

broadcast use {
    vstd::std_specs::hash::group_hash_axioms,
    crate::coords::group_world_keys,
    vstd::seq_lib::group_to_multiset_ensures,
};

// ---------------------------------------------------------------------------
// Chunks.
// ---------------------------------------------------------------------------

/// Whether the four chunks beside chunk `(cx, cz)` are loaded (its mesh
/// can then be built with correct seams).
pub fn neighbors_ready(world: &World, cx: i32, cz: i32) -> (r: bool)
    requires
        i32::MIN < cx < i32::MAX,
        i32::MIN < cz < i32::MAX,
    ensures
        r == (world@.chunks.contains_key(coords::chunk_key((cx - 1) as i32, cz)) && world@.chunks.contains_key(
            coords::chunk_key((cx + 1) as i32, cz),
        ) && world@.chunks.contains_key(coords::chunk_key(cx, (cz - 1) as i32)) && world@.chunks.contains_key(
            coords::chunk_key(cx, (cz + 1) as i32),
        )),
{
    world.has_chunk(cx - 1, cz) && world.has_chunk(cx + 1, cz) && world.has_chunk(cx, cz - 1) && world.has_chunk(cx, cz + 1)
}

/// The world coordinate of local coordinate `l` in chunk `c`.
pub open spec fn world_coord(c: i32, l: int) -> i32 {
    (c * 16 + l) as i32
}

/// Chunk coordinates whose cells have world coordinates in `i32`.
pub open spec fn chunk_coord_ok(c: i32) -> bool {
    -0x800_0000 <= c < 0x800_0000
}

/// Cell `i` of a generated chunk `(cx, cz)` once the player edits that fall
/// in it are laid over it.
pub open spec fn overlaid_cell(cells: Seq<Block>, edits: Map<u128, Block>, cx: i32, cz: i32, i: int) -> Block {
    let y = i / 256;
    let lz = (i % 256) / 16;
    let lx = i % 16;
    let pk = coords::pos_key(world_coord(cx, lx), y as i32, world_coord(cz, lz));
    if edits.contains_key(pk) { edits[pk] } else { cells[i] }
}

pub open spec fn overlaid(cells: Seq<Block>, edits: Map<u128, Block>, cx: i32, cz: i32) -> Seq<Block> {
    Seq::new(CHUNK_VOLUME as nat, |i: int| overlaid_cell(cells, edits, cx, cz, i))
}

/// The position keys of a list of cells.
pub open spec fn keys_of(s: Seq<(i32, i32, i32)>) -> Set<u128> {
    Set::new(|k: u128| exists|i: int| 0 <= i < s.len() && k == coords::pos_key_of(#[trigger] s[i]))
}

proof fn lemma_keys_of_push(s: Seq<(i32, i32, i32)>, c: (i32, i32, i32))
    ensures
        keys_of(s.push(c)) == keys_of(s).insert(coords::pos_key_of(c)),
{
    assert forall|k: u128| keys_of(s.push(c)).contains(k) <==> #[trigger] keys_of(s).insert(coords::pos_key_of(c)).contains(k) by {
        if keys_of(s.push(c)).contains(k) {
            let i = choose|i: int| 0 <= i < s.push(c).len() && k == coords::pos_key_of(#[trigger] s.push(c)[i]);
            if i < s.len() {
                assert(s.push(c)[i] == s[i]);
            }
        }
        if keys_of(s).contains(k) {
            let i = choose|i: int| 0 <= i < s.len() && k == coords::pos_key_of(#[trigger] s[i]);
            assert(s.push(c)[i] == s[i]);
        }
        if k == coords::pos_key_of(c) {
            assert(s.push(c)[s.len() as int] == c);
        }
    }
    assert(keys_of(s.push(c)) =~= keys_of(s).insert(coords::pos_key_of(c)));
}

/// Player edits outlive their chunks: once a generated chunk is adopted
/// (see `integrate_chunk`), every cell of it with a recorded edit holds the
/// edited block, whatever the generator put there.
pub proof fn lemma_adopted_chunk_shows_edits(
    chunks: Map<u64, Seq<Block>>,
    cells: Seq<Block>,
    edits: Map<u128, Block>,
    x: i32,
    y: i32,
    z: i32,
)
    requires
        cells.len() == CHUNK_VOLUME,
        0 <= y < HEIGHT,
        edits.contains_key(coords::pos_key(x, y, z)),
    ensures
        block_at(
            chunks.insert(
                coords::chunk_key(coords::chunk_of(x), coords::chunk_of(z)),
                overlaid(cells, edits, coords::chunk_of(x), coords::chunk_of(z)),
            ),
            x,
            y,
            z,
        ) == edits[coords::pos_key(x, y, z)],
{
    let cx = coords::chunk_of(x);
    let cz = coords::chunk_of(z);
    let lx = coords::local_of(x) as int;
    let lz = coords::local_of(z) as int;
    coords::lemma_local_range(x);
    coords::lemma_local_range(z);
    let i = coords::cell_index(lx, y as int, lz);
    assert(i / 256 == y as int && (i % 256) / 16 == lz && i % 16 == lx) by (nonlinear_arith)
        requires
            i == y * 256 + lz * 16 + lx,
            0 <= lx < 16,
            0 <= lz < 16,
            0 <= y,
    ;
    assert(world_coord(cx, lx) == x && world_coord(cz, lz) == z);
    assert(0 <= i < CHUNK_VOLUME);
}


/// Add the position keys of `cells` to `set`.
fn insert_cells(set: &mut std::collections::HashSet<u128>, cells: &Vec<(i32, i32, i32)>)
    ensures
        final(set)@ == old(set)@.union(keys_of(cells@)),
{
    let mut i: usize = 0;
    while i < cells.len()
        invariant
            0 <= i <= cells.len(),
            set@ == old(set)@.union(keys_of(cells@.take(i as int))),
        decreases cells.len() - i,
    {
        let (x, y, z) = cells[i];
        set.insert(pos_key_from(x, y, z));
        proof {
            lemma_keys_of_push(cells@.take(i as int), cells@[i as int]);
            assert(cells@.take(i + 1) == cells@.take(i as int).push(cells@[i as int]));
        }
        i = i + 1;
    }
    assert(cells@.take(cells@.len() as int) =~= cells@);
    assert(set@ =~= old(set)@.union(keys_of(cells@)));
}

impl World {
    /// Adopt a generated chunk: note its light sources and spawners, lay the
    /// player edits that fall inside it over it, and file it. A chunk that
    /// is loaded already is kept and the new one dropped.
    pub fn integrate_chunk(
        &mut self,
        cx: i32,
        cz: i32,
        c: Chunk,
        torches: Vec<(i32, i32, i32)>,
        spawners: Vec<(i32, i32, i32)>,
    )
        requires
            old(self).wf(),
            c.blocks@.len() == CHUNK_VOLUME,
            chunk_coord_ok(cx),
            chunk_coord_ok(cz),
        ensures
            final(self).wf(),
            old(self)@.chunks.contains_key(coords::chunk_key(cx, cz)) ==> final(self)@ == old(self)@,
            !old(self)@.chunks.contains_key(coords::chunk_key(cx, cz)) ==> final(self)@ == (WorldView {
                chunks: old(self)@.chunks.insert(
                    coords::chunk_key(cx, cz),
                    overlaid(c.blocks@, old(self)@.edits, cx, cz),
                ),
                torches: old(self)@.torches.union(keys_of(torches@)),
                spawners: old(self)@.spawners.union(keys_of(spawners@)),
                ..old(self)@
            }),
    {
        let key = chunk_key_of(cx, cz);
        if self.chunks.contains_key(&key) {
            return;
        }
        insert_cells(&mut self.torches, &torches);
        insert_cells(&mut self.spawners, &spawners);
        let mut c = c;
        let ghost cells = c.blocks@;
        let ghost edits = self@.edits;
        let bx = cx * 16;
        let bz = cz * 16;
        let mut i: usize = 0;
        while i < CHUNK_VOLUME
            invariant
                0 <= i <= CHUNK_VOLUME,
                bx == cx * 16,
                bz == cz * 16,
                chunk_coord_ok(cx),
                chunk_coord_ok(cz),
                edits == self@.edits,
                cells.len() == CHUNK_VOLUME,
                c.blocks@.len() == CHUNK_VOLUME,
                forall|j: int| 0 <= j < CHUNK_VOLUME ==> #[trigger] c.blocks@[j] == if j < i {
                    overlaid_cell(cells, edits, cx, cz, j)
                } else {
                    cells[j]
                },
            decreases CHUNK_VOLUME - i,
        {
            let y = (i / 256) as i32;
            let lz = ((i % 256) / 16) as i32;
            let lx = (i % 16) as i32;
            let pk = pos_key_from(bx + lx, y, bz + lz);
            assert(pk == coords::pos_key(world_coord(cx, (i % 16) as int), ((i as int) / 256) as i32, world_coord(cz, ((i as int) % 256) / 16)));
            match self.edits.get(&pk) {
                Some(b) => {
                    assert(coords::cell_index(lx as int, y as int, lz as int) == i);
                    c.set(lx, y, lz, *b);
                },
                None => {},
            }
            i = i + 1;
        }
        let ghost merged = c.blocks@;
        assert(merged =~= overlaid(cells, edits, cx, cz));
        self.chunks.insert(key, c);
        proof {
            assert(self@.chunks =~= old(self)@.chunks.insert(key, merged));
        }
    }
}

/// Squared horizontal distance of a chunk offset.
pub open spec fn dist2(o: (i32, i32)) -> int {
    o.0 * o.0 + o.1 * o.1
}

/// Whether offset `a` comes before offset `b` in loading order: nearer
/// first, then by `dx`, then by `dz`.
pub open spec fn offset_before(a: (i32, i32), b: (i32, i32)) -> bool {
    dist2(a) < dist2(b) || (dist2(a) == dist2(b) && (a.0 < b.0 || (a.0 == b.0 && a.1 < b.1)))
}

/// The chunk offsets loaded around the player: the square of `radius`
/// whose squared distance is at most `radius * radius + 1`.
pub open spec fn in_disc(radius: i32, o: (i32, i32)) -> bool {
    -radius <= o.0 <= radius && -radius <= o.1 <= radius && dist2(o) <= radius * radius + 1
}

/// The sort key of an offset: distance, then the offset itself.
pub fn offset_key(o: (i32, i32)) -> (r: (i32, i32, i32))
    requires
        -0x7fff <= o.0 <= 0x7fff,
        -0x7fff <= o.1 <= 0x7fff,
    ensures
        r == (dist2(o) as i32, o.0, o.1),
{
    assert(0 <= o.0 * o.0 <= 0x7fff * 0x7fff) by (nonlinear_arith)
        requires
            -0x7fff <= o.0 <= 0x7fff,
    ;
    assert(0 <= o.1 * o.1 <= 0x7fff * 0x7fff) by (nonlinear_arith)
        requires
            -0x7fff <= o.1 <= 0x7fff,
    ;
    (o.0 * o.0 + o.1 * o.1, o.0, o.1)
}

/// `slice::sort_unstable_by_key` with `offset_key`. std documents that it
/// leaves the slice in ascending order of the keys (tuples compare
/// lexicographically) and only reorders its elements.
#[verifier::external_body]
fn sort_by_offset_key(v: &mut Vec<(i32, i32)>)
    requires
        forall|i: int| 0 <= i < old(v)@.len() ==> -0x7fff <= #[trigger] old(v)@[i].0 <= 0x7fff && -0x7fff <= old(v)@[i].1 <= 0x7fff,
    ensures
        final(v)@.to_multiset() == old(v)@.to_multiset(),
        forall|i: int, j: int| 0 <= i < j < final(v)@.len() ==> !offset_before(#[trigger] final(v)@[j], #[trigger] final(v)@[i]),
{
    v.sort_unstable_by_key(|&o| offset_key(o));
}

/// The chunk offsets within `radius` (see `in_disc`), nearest first; among
/// offsets at the same distance, by `dx` and then `dz` (the order they are
/// listed in before sorting by distance).
pub fn sorted_offsets(radius: i32) -> (v: Vec<(i32, i32)>)
    requires
        radius <= 0x7fff,
    ensures
        forall|o: (i32, i32)| #[trigger] v@.contains(o) <==> in_disc(radius, o),
        forall|i: int, j: int| 0 <= i < j < v@.len() ==> offset_before(#[trigger] v@[i], #[trigger] v@[j]),
{
    let mut v: Vec<(i32, i32)> = Vec::new();
    if radius < 0 {
        assert forall|o: (i32, i32)| #[trigger] v@.contains(o) <==> in_disc(radius, o) by {
            assert(!v@.contains(o));
        }
        return v;
    }
    proof {
        assert(0 <= radius * radius <= 0x7fff * 0x7fff) by (nonlinear_arith)
            requires
                0 <= radius <= 0x7fff,
        ;
    }
    let limit = radius * radius + 1;
    let mut dx = -radius;
    while dx <= radius
        invariant
            0 <= radius <= 0x7fff,
            limit == radius * radius + 1,
            -radius <= dx <= radius + 1,
            forall|o: (i32, i32)| #[trigger] v@.contains(o) <==> (in_disc(radius, o) && o.0 < dx),
            forall|i: int, j: int| 0 <= i < j < v@.len() ==> #[trigger] v@[i].0 < #[trigger] v@[j].0 || (v@[i].0 == v@[j].0
                && v@[i].1 < v@[j].1),
            forall|i: int| 0 <= i < v@.len() ==> #[trigger] v@[i].0 < dx && -radius <= v@[i].0 && -radius <= v@[i].1 <= radius,
        decreases radius + 1 - dx,
    {
        let mut dz = -radius;
        while dz <= radius
            invariant
                0 <= radius <= 0x7fff,
                limit == radius * radius + 1,
                -radius <= dx <= radius,
                -radius <= dz <= radius + 1,
                forall|o: (i32, i32)| #[trigger] v@.contains(o) <==> (in_disc(radius, o) && (o.0 < dx || (o.0 == dx && o.1
                    < dz))),
                forall|i: int, j: int| 0 <= i < j < v@.len() ==> #[trigger] v@[i].0 < #[trigger] v@[j].0 || (v@[i].0
                    == v@[j].0 && v@[i].1 < v@[j].1),
                forall|i: int| 0 <= i < v@.len() ==> (#[trigger] v@[i].0 < dx || (v@[i].0 == dx && v@[i].1 < dz))
                    && -radius <= v@[i].0 && -radius <= v@[i].1 <= radius,
            decreases radius + 1 - dz,
        {
            proof {
                assert(0 <= dx * dx <= 0x7fff * 0x7fff) by (nonlinear_arith)
                    requires
                        -0x7fff <= dx <= 0x7fff,
                ;
                assert(0 <= dz * dz <= 0x7fff * 0x7fff) by (nonlinear_arith)
                    requires
                        -0x7fff <= dz <= 0x7fff,
                ;
            }
            let ghost before = v@;
            if dx * dx + dz * dz <= limit {
                v.push((dx, dz));
                assert forall|o: (i32, i32)| #[trigger] v@.contains(o) <==> (in_disc(radius, o) && (o.0 < dx || (o.0
                    == dx && o.1 < dz + 1))) by {
                    if v@.contains(o) && o != (dx, dz) {
                        let k = choose|k: int| 0 <= k < v@.len() && v@[k] == o;
                        assert(before[k] == o);
                        assert(before.contains(o));
                    }
                    if in_disc(radius, o) && (o.0 < dx || (o.0 == dx && o.1 < dz)) {
                        assert(before.contains(o));
                        let k = choose|k: int| 0 <= k < before.len() && before[k] == o;
                        assert(v@[k] == o);
                    }
                    if o == (dx, dz) {
                        assert(v@[before.len() as int] == o);
                    }
                }
            } else {
                assert forall|o: (i32, i32)| #[trigger] v@.contains(o) <==> (in_disc(radius, o) && (o.0 < dx || (o.0
                    == dx && o.1 < dz + 1))) by {
                    if o == (dx, dz) {
                        assert(!in_disc(radius, o));
                    }
                }
            }
            dz = dz + 1;
        }
        dx = dx + 1;
    }
    let ghost gen = v@;
    proof {
        assert(gen.no_duplicates()) by {
            assert forall|i: int, j: int| 0 <= i < gen.len() && 0 <= j < gen.len() && i != j implies gen[i] != gen[j] by {
                if i < j {
                    assert(gen[i].0 < gen[j].0 || (gen[i].0 == gen[j].0 && gen[i].1 < gen[j].1));
                } else {
                    assert(gen[j].0 < gen[i].0 || (gen[j].0 == gen[i].0 && gen[j].1 < gen[i].1));
                }
            }
        }
        gen.lemma_multiset_has_no_duplicates();
    }
    sort_by_offset_key(&mut v);
    proof {
        assert forall|x: (i32, i32)| v@.to_multiset().contains(x) implies v@.to_multiset().count(x) == 1 by {
            assert(v@.to_multiset().count(x) == gen.to_multiset().count(x));
        }
        v@.lemma_multiset_has_no_duplicates_conv();
        assert forall|o: (i32, i32)| #[trigger] v@.contains(o) <==> in_disc(radius, o) by {
            assert(v@.to_multiset().count(o) == gen.to_multiset().count(o));
            assert(gen.contains(o) <==> in_disc(radius, o));
        }
        assert forall|i: int, j: int| 0 <= i < j < v@.len() implies offset_before(#[trigger] v@[i], #[trigger] v@[j]) by {
            assert(!offset_before(v@[j], v@[i]));
            assert(v@[i] != v@[j]);
        }
    }
    v
}

// ---------------------------------------------------------------------------
// Dimensions.
// ---------------------------------------------------------------------------

/// Make `target` the active dimension: its world comes out of `others`
/// (or is created with `seed`), and the world it replaces goes in under
/// its own dimension. Nothing changes when `target` is active already.
pub fn switch_dim(world: &mut World, others: &mut HashMap<u8, World>, target: u8, seed: u32)
    ensures
        old(world)@.dim == target ==> final(world)@ == old(world)@ && final(others)@ == old(others)@,
        old(world)@.dim != target ==> {
            &&& old(others)@.contains_key(target) ==> final(world)@ == old(others)@[target]@
            &&& !old(others)@.contains_key(target) ==> final(world)@ == crate::world::fresh_world(seed, target)
            &&& final(others)@ == old(others)@.remove(target).insert(old(world)@.dim, *old(world))
        },
        old(world).wf() && old(world)@.dim != target && old(others)@.contains_key(target) ==> final(world).wf()
            == old(others)@[target].wf(),
        old(world)@.dim != target && !old(others)@.contains_key(target) ==> final(world).wf(),
{
    if world.dim == target {
        return;
    }
    let mut next = match others.remove(&target) {
        Some(w) => w,
        None => World::new(seed, target),
    };
    std::mem::swap(world, &mut next);
    let d = next.dim;
    others.insert(d, next);
}

// ---------------------------------------------------------------------------
// Portals.
// ---------------------------------------------------------------------------

/// Whether `(x, y, z)` is firm ground to arrive on: solid and not lava,
/// with two cells of room above and no lava right above.
pub open spec fn landing_at(w: WorldView, x: i32, y: i32, z: i32) -> bool {
    let ground = block_at(w.chunks, x, y, z);
    let up1 = block_at(w.chunks, x, (y + 1) as i32, z);
    let up2 = block_at(w.chunks, x, (y + 2) as i32, z);
    blocks::spec_is_solid(ground) && ground != Block::Lava && !blocks::spec_is_solid(up1) && !blocks::spec_is_solid(up2)
        && up1 != Block::Lava
}

/// The cell above the highest landing at or below row `y` (down to row 4)
/// of column `(x, z)`.
pub open spec fn landing_from(w: WorldView, x: i32, z: i32, y: int) -> Option<i32>
    decreases y,
{
    if y < 4 {
        None
    } else if landing_at(w, x, y as i32, z) {
        Some((y + 1) as i32)
    } else {
        landing_from(w, x, z, y - 1)
    }
}

/// Where a portal traveler arrives in column `(x, z)`: above the highest
/// landing below the top three rows.
pub open spec fn landing(w: WorldView, x: i32, z: i32) -> Option<i32> {
    landing_from(w, x, z, HEIGHT - 4)
}

/// The cells carved when a column has no landing: a 3 x 3 obsidian floor
/// at row 39 and three rows of air above it, column by column (`dx`, then
/// `dz`, from -1 to 1).
pub open spec fn carve_column(x: i32, z: i32) -> Seq<EditOp> {
    seq![
        put((x, 39, z), Block::Obsidian, Guard::Always),
        put((x, 40, z), Block::Air, Guard::Always),
        put((x, 41, z), Block::Air, Guard::Always),
        put((x, 42, z), Block::Air, Guard::Always),
    ]
}

pub open spec fn carve_upto(x: i32, z: i32, g: int) -> Seq<EditOp>
    decreases g,
{
    if g <= 0 {
        Seq::empty()
    } else {
        carve_upto(x, z, g - 1) + carve_column((x + (g - 1) / 3 - 1) as i32, (z + (g - 1) % 3 - 1) as i32)
    }
}

/// The writes of a portal arrival in column `(x, z)` of world `w`.
pub open spec fn arrival_ops(w: WorldView, x: i32, z: i32) -> Seq<EditOp> {
    match landing(w, x, z) {
        Some(y) => seq![put((x, y, z), Block::Portal, Guard::Always)],
        None => carve_upto(x, z, 9) + seq![put((x, 40, z), Block::Portal, Guard::Always)],
    }
}

/// The row a portal traveler arrives at in column `(x, z)` of world `w`.
pub open spec fn arrival_row(w: WorldView, x: i32, z: i32) -> i32 {
    match landing(w, x, z) {
        Some(y) => y,
        None => 40,
    }
}

/// Arrive through a portal in column `(x, z)` (its chunks generated by the
/// caller): find the landing, or carve a pocket at row 40 when there is
/// none, and stamp a return portal there. Returns the arrival row.
pub fn arrival_portal(world: &mut World, x: i32, z: i32) -> (ay: i32)
    requires
        old(world).wf(),
        fill_ok(old(world)@),
        i32::MIN + 22 <= x <= i32::MAX - 22,
        i32::MIN + 22 <= z <= i32::MAX - 22,
    ensures
        final(world).wf(),
        ay == arrival_row(old(world)@, x, z),
        ops_post(old(world)@, final(world)@, arrival_ops(old(world)@, x, z)),
{
    let mut found: Option<i32> = None;
    let mut y: i32 = HEIGHT - 4;
    while found.is_none() && y >= 4
        invariant
            3 <= y <= HEIGHT - 4,
            world.wf(),
            found is None ==> landing(world@, x, z) == landing_from(world@, x, z, y as int),
            found is Some ==> landing(world@, x, z) == found,
        decreases (y as int) * 2 + (if found is None { 1int } else { 0int }),
    {
        let ground = world.get_block(x, y, z);
        let up1 = world.get_block(x, y + 1, z);
        let up2 = world.get_block(x, y + 2, z);
        if ground.is_solid() && ground != Block::Lava && !up1.is_solid() && !up2.is_solid() && up1 != Block::Lava {
            found = Some(y + 1);
        } else {
            y = y - 1;
        }
    }
    let mut ops: Vec<EditOp> = Vec::new();
    let ay = match found {
        Some(a) => a,
        None => {
            let mut g: i32 = 0;
            while g < 9
                invariant
                    0 <= g <= 9,
                    i32::MIN + 22 <= x <= i32::MAX - 22,
                    i32::MIN + 22 <= z <= i32::MAX - 22,
                    ops@ == carve_upto(x, z, g as int),
                decreases 9 - g,
            {
                assert(0 <= g / 3 <= 3 && 0 <= g % 3 < 3);
                let cx = x + g / 3 - 1;
                let cz = z + g % 3 - 1;
                ops.push(EditOp { x: cx, y: 39, z: cz, block: Block::Obsidian, guard: Guard::Always });
                ops.push(EditOp { x: cx, y: 40, z: cz, block: Block::Air, guard: Guard::Always });
                ops.push(EditOp { x: cx, y: 41, z: cz, block: Block::Air, guard: Guard::Always });
                ops.push(EditOp { x: cx, y: 42, z: cz, block: Block::Air, guard: Guard::Always });
                g = g + 1;
                assert(ops@ =~= carve_upto(x, z, g as int));
            }
            40
        },
    };
    ops.push(EditOp { x, y: ay, z, block: Block::Portal, guard: Guard::Always });
    assert(ops@ =~= arrival_ops(world@, x, z));
    proof {
        assert forall|i: int| 0 <= i < ops@.len() implies coord_ok(#[trigger] ops@[i].x) && coord_ok(ops@[i].z) by {
            lemma_carve_in_range(x, z, 9);
            if i < ops@.len() - 1 && landing(world@, x, z) is None {
                assert(ops@[i] == carve_upto(x, z, 9)[i]);
            }
        }
    }
    world.apply_ops(&ops);
    ay
}

proof fn lemma_carve_in_range(x: i32, z: i32, g: int)
    requires
        i32::MIN + 22 <= x <= i32::MAX - 22,
        i32::MIN + 22 <= z <= i32::MAX - 22,
        0 <= g <= 9,
    ensures
        carve_upto(x, z, g).len() == 4 * g,
        forall|i: int| 0 <= i < carve_upto(x, z, g).len() ==> coord_ok(#[trigger] carve_upto(x, z, g)[i].x) && coord_ok(
            carve_upto(x, z, g)[i].z,
        ),
    decreases g,
{
    if g > 0 {
        lemma_carve_in_range(x, z, g - 1);
        let s = carve_upto(x, z, g);
        let p = carve_upto(x, z, g - 1);
        assert(0 <= (g - 1) / 3 <= 3 && 0 <= (g - 1) % 3 < 3);
        let col = carve_column((x + (g - 1) / 3 - 1) as i32, (z + (g - 1) % 3 - 1) as i32);
        assert forall|i: int| 0 <= i < s.len() implies coord_ok(#[trigger] s[i].x) && coord_ok(s[i].z) by {
            if i < p.len() {
                assert(s[i] == p[i]);
            } else {
                assert(s[i] == col[i - p.len()]);
            }
        }
    }
}

// ---------------------------------------------------------------------------
// Explosions.
// ---------------------------------------------------------------------------

/// What a blast does to one cell in its radius: TNT is removed (to be
/// chain-ignited by the caller), any other breakable block is destroyed,
/// and the rest stays. Returns the block that was there.
pub fn blast_cell(world: &mut World, x: i32, y: i32, z: i32) -> (b: Block)
    requires
        old(world).wf(),
        fill_ok(old(world)@),
        coord_ok(x),
        coord_ok(z),
    ensures
        final(world).wf(),
        b == block_at(old(world)@.chunks, x, y, z),
        b == Block::Tnt || blocks::spec_is_breakable(b) ==> set_block_post(old(world)@, final(world)@, x, y, z, Block::Air),
        !(b == Block::Tnt || blocks::spec_is_breakable(b)) ==> final(world)@ == old(world)@,
{
    let b = world.get_block(x, y, z);
    if b == Block::Tnt || b.is_breakable() {
        world.set_block(x, y, z, Block::Air);
    }
    b
}

// ---------------------------------------------------------------------------
// Support checks.
// ---------------------------------------------------------------------------

/// What a support check did to a cell.
#[derive(Clone, Copy, PartialEq, Eq, Debug, Structural)]
pub enum Support {
    /// Nothing changed.
    Stays,
    /// This block lost its support and was removed (it may drop as an item).
    Popped(Block),
    /// This block was removed to fall (it lands as a block again later).
    Fell(Block),
}

/// Whether `b` (a block that needs support) stands on `below`: cactus on
/// sand or cactus, sugar cane on sugar cane, grass, dirt or sand, anything
/// else on a solid block.
pub open spec fn supported(b: Block, below: Block) -> bool {
    if b == Block::Cactus {
        below == Block::Sand || below == Block::Cactus
    } else if b == Block::SugarCane {
        below == Block::SugarCane || below == Block::Grass || below == Block::Dirt || below == Block::Sand
    } else {
        blocks::spec_is_solid(below)
    }
}

/// What the support check of cell `(x, y, z)` finds in world `w`.
pub open spec fn support_outcome(w: WorldView, x: i32, y: i32, z: i32) -> Support {
    let b = block_at(w.chunks, x, y, z);
    let below = block_at(w.chunks, x, (y - 1) as i32, z);
    if blocks::spec_needs_support(b) {
        if supported(b, below) { Support::Stays } else { Support::Popped(b) }
    } else if blocks::spec_falls(b) && blocks::spec_is_replaceable(below) {
        Support::Fell(b)
    } else {
        Support::Stays
    }
}

/// Check the support of a queued cell: a plant or attachment that lost its
/// support pops off, and sand or gravel over an open cell starts to fall;
/// either way the cell becomes air.
pub fn support_check(world: &mut World, x: i32, y: i32, z: i32) -> (r: Support)
    requires
        old(world).wf(),
        fill_ok(old(world)@),
        coord_ok(x),
        coord_ok(z),
        y > i32::MIN,
    ensures
        final(world).wf(),
        r == support_outcome(old(world)@, x, y, z),
        r is Stays ==> final(world)@ == old(world)@,
        !(r is Stays) ==> set_block_post(old(world)@, final(world)@, x, y, z, Block::Air),
{
    let b = world.get_block(x, y, z);
    let below = world.get_block(x, y - 1, z);
    if b.needs_support() {
        let ok = match b {
            Block::Cactus => below == Block::Sand || below == Block::Cactus,
            Block::SugarCane => below == Block::SugarCane || below == Block::Grass || below == Block::Dirt || below
                == Block::Sand,
            _ => below.is_solid(),
        };
        if !ok {
            world.set_block(x, y, z, Block::Air);
            return Support::Popped(b);
        }
        Support::Stays
    } else if b.falls() && below.is_replaceable() {
        world.set_block(x, y, z, Block::Air);
        Support::Fell(b)
    } else {
        Support::Stays
    }
}

/// Take one arrow for a dispenser from the chest above it: the first slot
/// holding arrows gives one (an emptied slot is cleared). Returns whether
/// there was one.
pub fn take_arrow(chest: &mut Vec<Option<crate::items::ItemStack>>) -> (found: bool)
    requires
        forall|i: int| 0 <= i < old(chest)@.len() && #[trigger] arrow_slot(old(chest)@[i]) ==> old(chest)@[i]->0.count >= 1,
    ensures
        final(chest)@.len() == old(chest)@.len(),
        found == exists|i: int| 0 <= i < old(chest)@.len() && #[trigger] arrow_slot(old(chest)@[i]),
        found ==> ({
            let k = first_arrow(old(chest)@);
            &&& 0 <= k < old(chest)@.len()
            &&& final(chest)@ == old(chest)@.update(k, crate::items::take_one(old(chest)@[k]))
        }),
        !found ==> final(chest)@ == old(chest)@,
{
    let mut i: usize = 0;
    while i < chest.len()
        invariant
            0 <= i <= chest@.len(),
            chest@ == old(chest)@,
            forall|j: int| 0 <= j < i ==> !#[trigger] arrow_slot(chest@[j]),
        decreases chest@.len() - i,
    {
        if let Some(st) = chest[i] {
            if st.item == crate::items::Item::Arrow {
                proof {
                    lemma_first_arrow(chest@, i as int);
                }
                let next = if st.count <= 1 { None } else { Some(crate::items::ItemStack { count: st.count - 1, ..st }) };
                chest.set(i, next);
                return true;
            }
        }
        i = i + 1;
    }
    false
}

/// A slot holding arrows.
pub open spec fn arrow_slot(s: Option<crate::items::ItemStack>) -> bool {
    s matches Some(st) && st.item == crate::items::Item::Arrow
}

/// The first slot holding arrows.
pub open spec fn first_arrow(slots: Seq<Option<crate::items::ItemStack>>) -> int {
    choose|k: int| 0 <= k < slots.len() && arrow_slot(slots[k]) && forall|j: int| 0 <= j < k ==> !#[trigger] arrow_slot(slots[j])
}

proof fn lemma_first_arrow(slots: Seq<Option<crate::items::ItemStack>>, i: int)
    requires
        0 <= i < slots.len(),
        arrow_slot(slots[i]),
        forall|j: int| 0 <= j < i ==> !#[trigger] arrow_slot(slots[j]),
    ensures
        first_arrow(slots) == i,
{
    let k = first_arrow(slots);
    assert(0 <= k < slots.len() && arrow_slot(slots[k]) && forall|j: int| 0 <= j < k ==> !#[trigger] arrow_slot(slots[j]));
    if k < i {
        assert(!arrow_slot(slots[k]));
    }
    if k > i {
        assert(!arrow_slot(slots[i]));
    }
}


// ---------------------------------------------------------------------------
// Crops.
// ---------------------------------------------------------------------------

/// What a crop grows into when its timer runs out: young wheat grows, and
/// growing wheat ripens.
pub open spec fn ripened(b: Block) -> Option<Block> {
    if b == Block::Wheat1 {
        Some(Block::Wheat2)
    } else if b == Block::Wheat2 {
        Some(Block::Wheat3)
    } else {
        None
    }
}

/// Grow the crop at `(x, y, z)` one stage (see `ripened`). Returns the new
/// stage; the caller starts another timer for a crop still growing.
pub fn ripen_crop(world: &mut World, x: i32, y: i32, z: i32) -> (r: Option<Block>)
    requires
        old(world).wf(),
        fill_ok(old(world)@),
        coord_ok(x),
        coord_ok(z),
    ensures
        final(world).wf(),
        r == ripened(block_at(old(world)@.chunks, x, y, z)),
        r is Some ==> set_block_post(old(world)@, final(world)@, x, y, z, r->0),
        r is None ==> final(world)@ == old(world)@,
{
    let b = world.get_block(x, y, z);
    let next = match b {
        Block::Wheat1 => Block::Wheat2,
        Block::Wheat2 => Block::Wheat3,
        _ => {
            return None;
        },
    };
    world.set_block(x, y, z, next);
    Some(next)
}


// ---------------------------------------------------------------------------
// Trees.
// ---------------------------------------------------------------------------

/// The random parts of a grown tree: trunk height, birch or oak, and which
/// corners of the two lower leaf layers are left bare (layer-major, then
/// `(-2,-2)`, `(-2,2)`, `(2,-2)`, `(2,2)`).
pub struct TreeShape {
    pub trunk: i32,
    pub birch: bool,
    pub bare: [bool; 8],
}

/// Index into `TreeShape::bare` of corner `(dx, dz)` of leaf layer
/// `layer`, when it is a corner.
pub open spec fn corner_slot(layer: int, dx: int, dz: int) -> int {
    layer * 4 + (if dx < 0 { 0int } else { 2int }) + (if dz < 0 { 0int } else { 1int })
}

/// The leaf writes of the first `p` positions (`dx`-major from -2 to 2,
/// then `dz`) of lower leaf layer `layer`, at row `ly`.
pub open spec fn leaf_layer(x: i32, ly: i32, z: i32, layer: int, bare: Seq<bool>, p: int) -> Seq<EditOp>
    decreases p,
{
    if p <= 0 {
        Seq::empty()
    } else {
        let q = p - 1;
        let dx = q / 5 - 2;
        let dz = q % 5 - 2;
        let skip = (dx == 0 && dz == 0 && layer == 0) || ((dx == 2 || dx == -2) && (dz == 2 || dz == -2) && bare[corner_slot(
            layer,
            dx,
            dz,
        )]);
        leaf_layer(x, ly, z, layer, bare, q) + if skip {
            Seq::empty()
        } else {
            seq![put(((x + dx) as i32, ly, (z + dz) as i32), Block::Leaves, Guard::NotSolid)]
        }
    }
}

/// The trunk writes of its first `n` blocks, from the bottom.
pub open spec fn trunk_upto(x: i32, y: i32, z: i32, kind: Block, n: int) -> Seq<EditOp>
    decreases n,
{
    if n <= 0 {
        Seq::empty()
    } else {
        trunk_upto(x, y, z, kind, n - 1) + seq![put((x, (y + n - 1) as i32, z), kind, Guard::Always)]
    }
}

pub open spec fn tree_kind(birch: bool) -> Block {
    if birch { Block::BirchLog } else { Block::Log }
}

/// The writes that grow a tree of shape `(trunk, birch, bare)` from the
/// sapling at `(x, y, z)`: two leaf layers below the trunk's top, a plus of
/// leaves above it and one more on top (leaves only into cells that are not
/// solid), then the trunk.
pub open spec fn tree_ops(x: i32, y: i32, z: i32, trunk: i32, birch: bool, bare: Seq<bool>) -> Seq<EditOp> {
    let top = y + trunk - 1;
    let cap = top + 1;
    leaf_layer(x, (top - 1) as i32, z, 0, bare, 25) + leaf_layer(x, top as i32, z, 1, bare, 25) + seq![
        put(((x - 1) as i32, cap as i32, z), Block::Leaves, Guard::NotSolid),
        put((x, cap as i32, (z - 1) as i32), Block::Leaves, Guard::NotSolid),
        put((x, cap as i32, z), Block::Leaves, Guard::NotSolid),
        put((x, cap as i32, (z + 1) as i32), Block::Leaves, Guard::NotSolid),
        put(((x + 1) as i32, cap as i32, z), Block::Leaves, Guard::NotSolid),
        put((x, (top + 2) as i32, z), Block::Leaves, Guard::NotSolid),
    ] + trunk_upto(x, y, z, tree_kind(birch), trunk as int)
}

proof fn lemma_leaf_op_in_range(x: i32, ly: i32, z: i32, layer: int, bare: Seq<bool>, p: int, i: int)
    requires
        i32::MIN + 23 <= x <= i32::MAX - 23,
        i32::MIN + 23 <= z <= i32::MAX - 23,
        0 <= p <= 25,
        0 <= i < leaf_layer(x, ly, z, layer, bare, p).len(),
    ensures
        coord_ok(leaf_layer(x, ly, z, layer, bare, p)[i].x),
        coord_ok(leaf_layer(x, ly, z, layer, bare, p)[i].z),
    decreases p,
{
    let s = leaf_layer(x, ly, z, layer, bare, p);
    let r = leaf_layer(x, ly, z, layer, bare, p - 1);
    let q = p - 1;
    let dx = q / 5 - 2;
    let dz = q % 5 - 2;
    assert(-2 <= dx <= 2 && -2 <= dz <= 2);
    let op = put(((x + dx) as i32, ly, (z + dz) as i32), Block::Leaves, Guard::NotSolid);
    let skip = (dx == 0 && dz == 0 && layer == 0) || ((dx == 2 || dx == -2) && (dz == 2 || dz == -2) && bare[corner_slot(
        layer,
        dx,
        dz,
    )]);
    assert(s == r + if skip { Seq::<EditOp>::empty() } else { seq![op] });
    if i < r.len() {
        lemma_leaf_op_in_range(x, ly, z, layer, bare, p - 1, i);
        assert(s[i] == r[i]);
    } else {
        assert(s[i] == op);
    }
}

proof fn lemma_trunk_in_range(x: i32, y: i32, z: i32, kind: Block, n: int)
    requires
        coord_ok(x),
        coord_ok(z),
        n >= 0,
    ensures
        trunk_upto(x, y, z, kind, n).len() == n,
        forall|i: int| 0 <= i < n ==> #[trigger] trunk_upto(x, y, z, kind, n)[i] == put((x, (y + i) as i32, z), kind, Guard::Always),
    decreases n,
{
    if n > 0 {
        lemma_trunk_in_range(x, y, z, kind, n - 1);
        let s = trunk_upto(x, y, z, kind, n);
        let r = trunk_upto(x, y, z, kind, n - 1);
        assert forall|i: int| 0 <= i < n implies #[trigger] s[i] == put((x, (y + i) as i32, z), kind, Guard::Always) by {
            if i < n - 1 {
                assert(s[i] == r[i]);
            }
        }
    }
}

proof fn lemma_tree_ops_in_range(x: i32, y: i32, z: i32, trunk: i32, birch: bool, bare: Seq<bool>)
    requires
        i32::MIN + 23 <= x <= i32::MAX - 23,
        i32::MIN + 23 <= z <= i32::MAX - 23,
        0 <= trunk <= 64,
    ensures
        ops_in_range(tree_ops(x, y, z, trunk, birch, bare)),
{
    let top = y + trunk - 1;
    let cap = top + 1;
    let kind = tree_kind(birch);
    let l0 = leaf_layer(x, (top - 1) as i32, z, 0, bare, 25);
    let l1 = leaf_layer(x, top as i32, z, 1, bare, 25);
    let caps = seq![
        put(((x - 1) as i32, cap as i32, z), Block::Leaves, Guard::NotSolid),
        put((x, cap as i32, (z - 1) as i32), Block::Leaves, Guard::NotSolid),
        put((x, cap as i32, z), Block::Leaves, Guard::NotSolid),
        put((x, cap as i32, (z + 1) as i32), Block::Leaves, Guard::NotSolid),
        put(((x + 1) as i32, cap as i32, z), Block::Leaves, Guard::NotSolid),
        put((x, (top + 2) as i32, z), Block::Leaves, Guard::NotSolid),
    ];
    let tr = trunk_upto(x, y, z, kind, trunk as int);
    lemma_trunk_in_range(x, y, z, kind, trunk as int);
    let s = tree_ops(x, y, z, trunk, birch, bare);
    assert(s == l0 + l1 + caps + tr);
    let a = l0 + l1;
    let b = a + caps;
    assert forall|i: int| 0 <= i < s.len() implies coord_ok(#[trigger] s[i].x) && coord_ok(s[i].z) by {
        if i < b.len() {
            assert(s[i] == b[i]);
            if i < a.len() {
                assert(b[i] == a[i]);
                if i < l0.len() {
                    assert(a[i] == l0[i]);
                    lemma_leaf_op_in_range(x, (top - 1) as i32, z, 0, bare, 25, i);
                } else {
                    let j = i - l0.len();
                    assert(a[i] == l1[j]);
                    lemma_leaf_op_in_range(x, top as i32, z, 1, bare, 25, j);
                }
            } else {
                assert(b[i] == caps[i - a.len()]);
                assert(coord_ok(caps[i - a.len()].x));
                assert(coord_ok(caps[i - a.len()].z));
            }
        } else {
            assert(s[i] == tr[i - b.len()]);
            assert(coord_ok(tr[i - b.len()].x));
        }
    }
}

impl World {
    /// Grow a tree of the given shape from the sapling at `(x, y, z)`
    /// (see `tree_ops`).
    pub fn grow_tree(&mut self, x: i32, y: i32, z: i32, shape: &TreeShape)
        requires
            old(self).wf(),
            fill_ok(old(self)@),
            i32::MIN + 23 <= x <= i32::MAX - 23,
            i32::MIN + 23 <= z <= i32::MAX - 23,
            i32::MIN + 2 <= y <= i32::MAX - 66,
            0 <= shape.trunk <= 64,
        ensures
            final(self).wf(),
            ops_post(old(self)@, final(self)@, tree_ops(x, y, z, shape.trunk, shape.birch, shape.bare@)),
    {
        let ghost bare = shape.bare@;
        let top = y + shape.trunk - 1;
        let mut ops: Vec<EditOp> = Vec::new();
        let mut layer: i32 = 0;
        while layer < 2
            invariant
                0 <= layer <= 2,
                i32::MIN + 23 <= x <= i32::MAX - 23,
                i32::MIN + 23 <= z <= i32::MAX - 23,
                top == y + shape.trunk - 1,
                i32::MIN + 2 <= y <= i32::MAX - 66,
                0 <= shape.trunk <= 64,
                bare == shape.bare@,
                ops@ == if layer == 0 {
                    Seq::<EditOp>::empty()
                } else if layer == 1 {
                    leaf_layer(x, (top - 1) as i32, z, 0, bare, 25)
                } else {
                    leaf_layer(x, (top - 1) as i32, z, 0, bare, 25) + leaf_layer(x, top as i32, z, 1, bare, 25)
                },
            decreases 2 - layer,
        {
            let ly = top - 1 + layer;
            let ghost base = ops@;
            let mut p: i32 = 0;
            while p < 25
                invariant
                    0 <= p <= 25,
                    0 <= layer < 2,
                    i32::MIN + 23 <= x <= i32::MAX - 23,
                    i32::MIN + 23 <= z <= i32::MAX - 23,
                    bare == shape.bare@,
                    ops@ == base + leaf_layer(x, ly, z, layer as int, bare, p as int),
                decreases 25 - p,
            {
                assert(0 <= p / 5 <= 4 && 0 <= p % 5 < 5);
                let dx = p / 5 - 2;
                let dz = p % 5 - 2;
                let corner = (dx == 2 || dx == -2) && (dz == 2 || dz == -2);
                let slot = (layer * 4 + (if dx < 0 { 0i32 } else { 2i32 }) + (if dz < 0 { 0i32 } else { 1i32 })) as usize;
                let skip = (dx == 0 && dz == 0 && layer == 0) || (corner && shape.bare[slot]);
                if !skip {
                    ops.push(EditOp { x: x + dx, y: ly, z: z + dz, block: Block::Leaves, guard: Guard::NotSolid });
                }
                p = p + 1;
                assert(ops@ =~= base + leaf_layer(x, ly, z, layer as int, bare, p as int));
            }
            layer = layer + 1;
        }
        let cap = top + 1;
        let ghost pre = ops@;
        ops.push(EditOp { x: x - 1, y: cap, z, block: Block::Leaves, guard: Guard::NotSolid });
        ops.push(EditOp { x, y: cap, z: z - 1, block: Block::Leaves, guard: Guard::NotSolid });
        ops.push(EditOp { x, y: cap, z, block: Block::Leaves, guard: Guard::NotSolid });
        ops.push(EditOp { x, y: cap, z: z + 1, block: Block::Leaves, guard: Guard::NotSolid });
        ops.push(EditOp { x: x + 1, y: cap, z, block: Block::Leaves, guard: Guard::NotSolid });
        ops.push(EditOp { x, y: top + 2, z, block: Block::Leaves, guard: Guard::NotSolid });
        let kind = if shape.birch { Block::BirchLog } else { Block::Log };
        let ghost head = ops@;
        let ghost caps = seq![
            EditOp { x: (x - 1) as i32, y: cap, z, block: Block::Leaves, guard: Guard::NotSolid },
            EditOp { x, y: cap, z: (z - 1) as i32, block: Block::Leaves, guard: Guard::NotSolid },
            EditOp { x, y: cap, z, block: Block::Leaves, guard: Guard::NotSolid },
            EditOp { x, y: cap, z: (z + 1) as i32, block: Block::Leaves, guard: Guard::NotSolid },
            EditOp { x: (x + 1) as i32, y: cap, z, block: Block::Leaves, guard: Guard::NotSolid },
            EditOp { x, y: (top + 2) as i32, z, block: Block::Leaves, guard: Guard::NotSolid },
        ];
        assert(head =~= pre + caps);
        let mut dy: i32 = 0;
        while dy < shape.trunk
            invariant
                0 <= dy <= shape.trunk,
                0 <= shape.trunk <= 64,
                i32::MIN + 2 <= y <= i32::MAX - 66,
                kind == tree_kind(shape.birch),
                ops@ == head + trunk_upto(x, y, z, kind, dy as int),
            decreases shape.trunk - dy,
        {
            ops.push(EditOp { x, y: y + dy, z, block: kind, guard: Guard::Always });
            dy = dy + 1;
            assert(ops@ =~= head + trunk_upto(x, y, z, kind, dy as int));
        }
        assert(ops@ =~= tree_ops(x, y, z, shape.trunk, shape.birch, bare));
        proof {
            lemma_tree_ops_in_range(x, y, z, shape.trunk, shape.birch, bare);
        }
        self.apply_ops(&ops);
    }
}

} // verus!
