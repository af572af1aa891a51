//! Chunked voxel world state: block storage, block edits and what they set
//! in motion (liquid and support checks, observers, light sources, mesh
//! invalidation), and redstone power. Terrain generation fills chunks from
//! outside this module.
//!
//! Block positions are keyed in the maps by `pos_key` and chunks by
//! `chunk_key`, both one-to-one packings of the coordinates.

use vstd::prelude::*;
use crate::blocks;
use crate::blocks::Block;
use crate::coords;
use crate::coords::{chunk_key_of, pos_key_from};
use std::collections::{HashMap, HashSet};

verus! {

broadcast use {vstd::std_specs::hash::group_hash_axioms, crate::coords::group_world_keys};

pub const CHUNK: i32 = 16;
pub const HEIGHT: i32 = 96;
pub const SEA: i32 = 34;
pub const SNOW_LINE: i32 = 62;

pub const DIM_OVERWORLD: u8 = 0;
pub const DIM_NETHER: u8 = 1;
pub const DIM_END: u8 = 2;

/// Cells of one chunk: 16 x 16 columns of `HEIGHT` blocks.
pub const CHUNK_VOLUME: usize = 24576;

// ---------------------------------------------------------------------------
// Chunks.
// ---------------------------------------------------------------------------

pub struct Chunk {
    pub blocks: Vec<Block>,
}

impl Chunk {
    /// An all-air chunk.
    pub fn new() -> (r: Chunk)
        ensures
            r.blocks@ == Seq::new(CHUNK_VOLUME as nat, |i: int| Block::Air),
    {
        let mut blocks: Vec<Block> = Vec::new();
        let mut i: usize = 0;
        while i < CHUNK_VOLUME
            invariant
                i <= CHUNK_VOLUME,
                blocks@ == Seq::new(i as nat, |j: int| Block::Air),
            decreases CHUNK_VOLUME - i,
        {
            blocks.push(Block::Air);
            i = i + 1;
            assert(blocks@ =~= Seq::new(i as nat, |j: int| Block::Air));
        }
        Chunk { blocks }
    }

    /// The block at local `(x, y, z)`.
    pub fn get(&self, x: i32, y: i32, z: i32) -> (r: Block)
        requires
            self.blocks@.len() == CHUNK_VOLUME,
            0 <= x < 16,
            0 <= y < HEIGHT,
            0 <= z < 16,
        ensures
            r == self.blocks@[coords::cell_index(x as int, y as int, z as int)],
    {
        self.blocks[(y as usize) * 256 + (z as usize) * 16 + (x as usize)]
    }

    /// Set the block at local `(x, y, z)`.
    pub fn set(&mut self, x: i32, y: i32, z: i32, b: Block)
        requires
            old(self).blocks@.len() == CHUNK_VOLUME,
            0 <= x < 16,
            0 <= y < HEIGHT,
            0 <= z < 16,
        ensures
            final(self).blocks@ == old(self).blocks@.update(coords::cell_index(x as int, y as int, z as int), b),
    {
        self.blocks.set((y as usize) * 256 + (z as usize) * 16 + (x as usize), b);
    }
}

// ---------------------------------------------------------------------------
// The world.
// ---------------------------------------------------------------------------

pub struct World {
    pub seed: u32,
    pub dim: u8,
    /// Loaded chunks by `chunk_key`.
    pub chunks: HashMap<u64, Chunk>,
    /// Chunks whose mesh needs rebuilding after a block edit.
    pub dirty: HashSet<u64>,
    /// All placed light sources, for baked glow at mesh time.
    pub torches: HashSet<u128>,
    /// Player edits overlaid onto freshly generated chunks (and saved).
    pub edits: HashMap<u128, Block>,
    /// Redstone power levels (wires 1-15, sources/lit lamps 16/15).
    pub power: HashMap<u128, u8>,
    /// TNT blocks ignited by redstone, drained by the game loop.
    pub pending_tnt: Vec<(i32, i32, i32)>,
    /// Observers/sculk sensors currently emitting (managed by the game loop).
    pub extra_sources: HashSet<u128>,
    /// Observers adjacent to a block change (drained by the game loop).
    pub pending_obs: Vec<(i32, i32, i32)>,
    /// Powered dispensers found during recompute (drained by the game loop).
    pub pending_dispense: Vec<(i32, i32, i32)>,
    /// Container fill levels (0-15) for comparators, set by the game loop.
    pub container_fill: HashMap<u128, u8>,
    /// Monster spawner positions (generated dungeons + player-placed).
    pub spawners: HashSet<u128>,
    /// Cells whose liquids need a flow update (drained by the game loop).
    pub pending_fluid: Vec<(i32, i32, i32)>,
    /// Cells whose support must be re-checked (drained by the game loop).
    pub pending_support: Vec<(i32, i32, i32)>,
    /// When enabled, set_block records changes for network replication.
    pub net_log_enabled: bool,
    pub net_log: Vec<(u8, i32, i32, i32, u8)>,
}

/// The world with its maps, sets and lists as mathematical values.
pub struct WorldView {
    pub seed: u32,
    pub dim: u8,
    pub chunks: Map<u64, Seq<Block>>,
    pub dirty: Set<u64>,
    pub torches: Set<u128>,
    pub edits: Map<u128, Block>,
    pub power: Map<u128, u8>,
    pub pending_tnt: Seq<(i32, i32, i32)>,
    pub extra_sources: Set<u128>,
    pub pending_obs: Seq<(i32, i32, i32)>,
    pub pending_dispense: Seq<(i32, i32, i32)>,
    pub container_fill: Map<u128, u8>,
    pub spawners: Set<u128>,
    pub pending_fluid: Seq<(i32, i32, i32)>,
    pub pending_support: Seq<(i32, i32, i32)>,
    pub net_log_enabled: bool,
    pub net_log: Seq<(u8, i32, i32, i32, u8)>,
}

pub open spec fn chunks_view(m: Map<u64, Chunk>) -> Map<u64, Seq<Block>> {
    m.map_values(|c: Chunk| c.blocks@)
}

impl View for World {
    type V = WorldView;

    open spec fn view(&self) -> WorldView {
        WorldView {
            seed: self.seed,
            dim: self.dim,
            chunks: chunks_view(self.chunks@),
            dirty: self.dirty@,
            torches: self.torches@,
            edits: self.edits@,
            power: self.power@,
            pending_tnt: self.pending_tnt@,
            extra_sources: self.extra_sources@,
            pending_obs: self.pending_obs@,
            pending_dispense: self.pending_dispense@,
            container_fill: self.container_fill@,
            spawners: self.spawners@,
            pending_fluid: self.pending_fluid@,
            pending_support: self.pending_support@,
            net_log_enabled: self.net_log_enabled,
            net_log: self.net_log@,
        }
    }
}

/// Every loaded chunk holds a full column of cells.
pub open spec fn chunks_wf(m: Map<u64, Seq<Block>>) -> bool {
    forall|k: u64| #[trigger] m.contains_key(k) ==> m[k].len() == CHUNK_VOLUME
}

/// The block at a position: air above and below the world and in chunks
/// that are not loaded.
pub open spec fn block_at(m: Map<u64, Seq<Block>>, x: i32, y: i32, z: i32) -> Block {
    let k = coords::chunk_key(coords::chunk_of(x), coords::chunk_of(z));
    if 0 <= y < HEIGHT && m.contains_key(k) {
        m[k][coords::cell_index(coords::local_of(x) as int, y as int, coords::local_of(z) as int)]
    } else {
        Block::Air
    }
}

pub open spec fn block_at_pos(m: Map<u64, Seq<Block>>, p: (i32, i32, i32)) -> Block {
    block_at(m, p.0, p.1, p.2)
}

/// A world with no chunks loaded and nothing recorded or pending.
pub open spec fn fresh_world(seed: u32, dim: u8) -> WorldView {
    WorldView {
        seed,
        dim,
        chunks: Map::empty(),
        dirty: Set::empty(),
        torches: Set::empty(),
        edits: Map::empty(),
        power: Map::empty(),
        pending_tnt: Seq::empty(),
        extra_sources: Set::empty(),
        pending_obs: Seq::empty(),
        pending_dispense: Seq::empty(),
        container_fill: Map::empty(),
        spawners: Set::empty(),
        pending_fluid: Seq::empty(),
        pending_support: Seq::empty(),
        net_log_enabled: false,
        net_log: Seq::empty(),
    }
}

impl World {
    pub open spec fn wf(&self) -> bool {
        chunks_wf(self@.chunks)
    }

    /// An empty world (no chunks loaded) with this seed and dimension.
    pub fn new(seed: u32, dim: u8) -> (r: World)
        ensures
            r.wf(),
            r@ == fresh_world(seed, dim),
            r@.seed == seed,
            r@.dim == dim,
            r@.chunks == Map::<u64, Seq<Block>>::empty(),
            r@.dirty == Set::<u64>::empty(),
            r@.torches == Set::<u128>::empty(),
            r@.edits == Map::<u128, Block>::empty(),
            r@.power == Map::<u128, u8>::empty(),
            r@.pending_tnt.len() == 0,
            r@.extra_sources == Set::<u128>::empty(),
            r@.pending_obs.len() == 0,
            r@.pending_dispense.len() == 0,
            r@.container_fill == Map::<u128, u8>::empty(),
            r@.spawners == Set::<u128>::empty(),
            r@.pending_fluid.len() == 0,
            r@.pending_support.len() == 0,
            !r@.net_log_enabled,
            r@.net_log.len() == 0,
    {
        let w = World {
            seed,
            dim,
            chunks: HashMap::new(),
            dirty: HashSet::new(),
            torches: HashSet::new(),
            edits: HashMap::new(),
            power: HashMap::new(),
            pending_tnt: Vec::new(),
            extra_sources: HashSet::new(),
            pending_obs: Vec::new(),
            pending_dispense: Vec::new(),
            container_fill: HashMap::new(),
            spawners: HashSet::new(),
            pending_fluid: Vec::new(),
            pending_support: Vec::new(),
            net_log_enabled: false,
            net_log: Vec::new(),
        };
        assert(w@.chunks =~= Map::<u64, Seq<Block>>::empty());
        assert(w@ =~= fresh_world(seed, dim));
        w
    }

    /// The block at world position `(wx, wy, wz)`.
    pub fn get_block(&self, wx: i32, wy: i32, wz: i32) -> (r: Block)
        requires
            self.wf(),
        ensures
            r == block_at(self@.chunks, wx, wy, wz),
    {
        if wy < 0 || wy >= HEIGHT {
            return Block::Air;
        }
        let key = chunk_key_of(wx >> 4, wz >> 4);
        proof {
            coords::lemma_local_range(wx);
            coords::lemma_local_range(wz);
        }
        match self.chunks.get(&key) {
            Some(c) => {
                assert(self@.chunks.contains_key(key));
                c.get(wx & 15, wy, wz & 15)
            },
            None => Block::Air,
        }
    }

    /// Whether the block at a position is solid.
    pub fn is_solid(&self, wx: i32, wy: i32, wz: i32) -> (r: bool)
        requires
            self.wf(),
        ensures
            r == blocks::spec_is_solid(block_at(self@.chunks, wx, wy, wz)),
    {
        self.get_block(wx, wy, wz).is_solid()
    }

    /// Whether a chunk is loaded.
    pub fn has_chunk(&self, cx: i32, cz: i32) -> (r: bool)
        ensures
            r == self@.chunks.contains_key(coords::chunk_key(cx, cz)),
    {
        self.chunks.contains_key(&chunk_key_of(cx, cz))
    }

    /// Whether a chunk's mesh is marked for rebuilding.
    pub fn is_dirty(&self, cx: i32, cz: i32) -> (r: bool)
        ensures
            r == self@.dirty.contains(coords::chunk_key(cx, cz)),
    {
        self.dirty.contains(&chunk_key_of(cx, cz))
    }
}


// ---------------------------------------------------------------------------
// Redstone.
// ---------------------------------------------------------------------------

/// The power level at a position (0 when it has none).
pub open spec fn level(p: Map<u128, u8>, c: (i32, i32, i32)) -> u8 {
    let k = coords::pos_key(c.0, c.1, c.2);
    if p.contains_key(k) {
        p[k]
    } else {
        0
    }
}

/// Face neighbor `d` (0..6) of a position: +x, -x, +y, -y, +z, -z.
pub open spec fn nbr(c: (i32, i32, i32), d: int) -> (i32, i32, i32) {
    if d == 0 {
        (c.0.wrapping_add(1), c.1, c.2)
    } else if d == 1 {
        (c.0.wrapping_sub(1), c.1, c.2)
    } else if d == 2 {
        (c.0, c.1.wrapping_add(1), c.2)
    } else if d == 3 {
        (c.0, c.1.wrapping_sub(1), c.2)
    } else if d == 4 {
        (c.0, c.1, c.2.wrapping_add(1))
    } else {
        (c.0, c.1, c.2.wrapping_sub(1))
    }
}

fn nbr_of(c: (i32, i32, i32), d: usize) -> (r: (i32, i32, i32))
    requires
        d < 6,
    ensures
        r == nbr(c, d as int),
{
    if d == 0 {
        (c.0.wrapping_add(1), c.1, c.2)
    } else if d == 1 {
        (c.0.wrapping_sub(1), c.1, c.2)
    } else if d == 2 {
        (c.0, c.1.wrapping_add(1), c.2)
    } else if d == 3 {
        (c.0, c.1.wrapping_sub(1), c.2)
    } else if d == 4 {
        (c.0, c.1, c.2.wrapping_add(1))
    } else {
        (c.0, c.1, c.2.wrapping_sub(1))
    }
}

/// Signal has spread out of a cell: it carries at most level 1, or every
/// wire next to it carries at least one level less.
pub open spec fn closed(p: Map<u128, u8>, m: Map<u64, Seq<Block>>, c: (i32, i32, i32)) -> bool {
    level(p, c) <= 1 || forall|d: int|
        0 <= d < 6 && block_at_pos(m, #[trigger] nbr(c, d)) == Block::RedstoneWire ==> level(p, nbr(c, d)) + 1 >= level(p, c)
}

/// Some neighbor carries a stronger signal than the cell.
pub open spec fn fed_by_stronger(p: Map<u128, u8>, c: (i32, i32, i32)) -> bool {
    exists|d: int| 0 <= d < 6 && level(p, #[trigger] nbr(c, d)) > level(p, c)
}

/// Some neighbor carries any signal.
pub open spec fn powered_near(p: Map<u128, u8>, c: (i32, i32, i32)) -> bool {
    exists|d: int| 0 <= d < 6 && level(p, #[trigger] nbr(c, d)) > 0
}

pub open spec fn pow7(l: nat) -> nat
    decreases l,
{
    if l == 0 {
        1
    } else {
        7 * pow7((l - 1) as nat)
    }
}

/// Termination measure of a spread queue: each entry weighs 7 to its level.
pub open spec fn queue_weight(q: Seq<((i32, i32, i32), u8)>) -> nat
    decreases q.len(),
{
    if q.len() == 0 {
        0
    } else {
        queue_weight(q.drop_last()) + pow7(q.last().1 as nat)
    }
}

proof fn lemma_queue_weight_push(q: Seq<((i32, i32, i32), u8)>, e: ((i32, i32, i32), u8))
    ensures
        queue_weight(q.push(e)) == queue_weight(q) + pow7(e.1 as nat),
{
    assert(q.push(e).drop_last() =~= q);
}

/// Cells of the queue, as a set.
pub open spec fn queued(q: Seq<((i32, i32, i32), u8)>, c: (i32, i32, i32), l: u8) -> bool {
    exists|i: int| 0 <= i < q.len() && #[trigger] q[i] == (c, l)
}

/// Only `power` differs between two views.
pub open spec fn same_but_power(a: WorldView, b: WorldView) -> bool {
    b == WorldView { power: b.power, ..a }
}

pub open spec fn is_wire(m: Map<u64, Seq<Block>>, c: (i32, i32, i32)) -> bool {
    block_at_pos(m, c) == Block::RedstoneWire
}

pub open spec fn in_init(init: Seq<((i32, i32, i32), u8)>, c: (i32, i32, i32)) -> bool {
    exists|i: int| 0 <= i < init.len() && (#[trigger] init[i]).0 == c
}

/// The state of a spread: levels only rise, and only on wires, each raised
/// wire fed by a stronger neighbor; every raised or starting cell has spread
/// its signal, or is still queued at its level.
pub open spec fn spread_inv(
    p0: Map<u128, u8>,
    p: Map<u128, u8>,
    m: Map<u64, Seq<Block>>,
    q: Seq<((i32, i32, i32), u8)>,
    init: Seq<((i32, i32, i32), u8)>,
) -> bool {
    &&& forall|c: (i32, i32, i32)| level(p, c) >= #[trigger] level(p0, c)
    &&& forall|c: (i32, i32, i32)| #[trigger] level(p, c) != level(p0, c) ==> is_wire(m, c) && level(p, c) <= 15
        && fed_by_stronger(p, c)
    &&& forall|c: (i32, i32, i32)| (#[trigger] level(p, c) != level(p0, c) || in_init(init, c)) ==> closed(p, m, c)
        || queued(q, c, level(p, c))
    &&& forall|i: int| 0 <= i < q.len() ==> (#[trigger] q[i]).1 <= 16
}

/// `spread_inv`, except that cell `c0` at level `l0` is being spread.
pub open spec fn spread_inv_pending(
    p0: Map<u128, u8>,
    p: Map<u128, u8>,
    m: Map<u64, Seq<Block>>,
    q: Seq<((i32, i32, i32), u8)>,
    init: Seq<((i32, i32, i32), u8)>,
    c0: (i32, i32, i32),
    l0: u8,
) -> bool {
    &&& l0 <= 16
    &&& forall|c: (i32, i32, i32)| level(p, c) >= #[trigger] level(p0, c)
    &&& forall|c: (i32, i32, i32)| #[trigger] level(p, c) != level(p0, c) ==> is_wire(m, c) && level(p, c) <= 15
        && fed_by_stronger(p, c)
    &&& forall|c: (i32, i32, i32)| (#[trigger] level(p, c) != level(p0, c) || in_init(init, c)) ==> closed(p, m, c)
        || queued(q, c, level(p, c)) || (c == c0 && level(p, c) == l0)
    &&& forall|i: int| 0 <= i < q.len() ==> (#[trigger] q[i]).1 <= 16
}

proof fn lemma_spread_start(p0: Map<u128, u8>, m: Map<u64, Seq<Block>>, init: Seq<((i32, i32, i32), u8)>)
    requires
        forall|i: int| 0 <= i < init.len() ==> level(p0, (#[trigger] init[i]).0) == init[i].1,
        forall|i: int| 0 <= i < init.len() ==> (#[trigger] init[i]).1 <= 16,
    ensures
        spread_inv(p0, p0, m, init, init),
{
    assert forall|c: (i32, i32, i32)| (#[trigger] level(p0, c) != level(p0, c) || in_init(init, c)) implies closed(p0, m, c)
        || queued(init, c, level(p0, c)) by {
        let i = choose|i: int| 0 <= i < init.len() && (#[trigger] init[i]).0 == c;
        assert(init[i] == (c, level(p0, c)));
    }
}

proof fn lemma_pop(
    p0: Map<u128, u8>,
    p: Map<u128, u8>,
    m: Map<u64, Seq<Block>>,
    q0: Seq<((i32, i32, i32), u8)>,
    init: Seq<((i32, i32, i32), u8)>,
    c0: (i32, i32, i32),
    l0: u8,
)
    requires
        spread_inv(p0, p, m, q0, init),
        q0.len() > 0,
        q0.last() == (c0, l0),
    ensures
        spread_inv_pending(p0, p, m, q0.drop_last(), init, c0, l0),
{
    let qp = q0.drop_last();
    assert(q0[q0.len() - 1].1 <= 16);
    assert forall|c: (i32, i32, i32), l: u8| queued(q0, c, l) && (c, l) != (c0, l0) implies queued(qp, c, l) by {
        let i = choose|i: int| 0 <= i < q0.len() && #[trigger] q0[i] == (c, l);
        assert(i < q0.len() - 1);
        assert(qp[i] == q0[i]);
    }
    assert forall|i: int| 0 <= i < qp.len() implies (#[trigger] qp[i]).1 <= 16 by {
        assert(qp[i] == q0[i]);
    }
}

proof fn lemma_skip_cell(
    p0: Map<u128, u8>,
    p: Map<u128, u8>,
    m: Map<u64, Seq<Block>>,
    q: Seq<((i32, i32, i32), u8)>,
    init: Seq<((i32, i32, i32), u8)>,
    c0: (i32, i32, i32),
    l0: u8,
)
    requires
        spread_inv_pending(p0, p, m, q, init, c0, l0),
        l0 <= 1,
    ensures
        spread_inv(p0, p, m, q, init),
{
}

proof fn lemma_finish_cell(
    p0: Map<u128, u8>,
    p: Map<u128, u8>,
    m: Map<u64, Seq<Block>>,
    q: Seq<((i32, i32, i32), u8)>,
    init: Seq<((i32, i32, i32), u8)>,
    c0: (i32, i32, i32),
    l0: u8,
)
    requires
        spread_inv_pending(p0, p, m, q, init, c0, l0),
        l0 >= 2,
        forall|dd: int| 0 <= dd < 6 && block_at_pos(m, #[trigger] nbr(c0, dd)) == Block::RedstoneWire
            ==> level(p, nbr(c0, dd)) >= l0 - 1,
    ensures
        spread_inv(p0, p, m, q, init),
{
    if level(p, c0) == l0 {
        assert(closed(p, m, c0));
    }
}

proof fn lemma_nbr_distinct(c: (i32, i32, i32), d: int)
    requires
        0 <= d < 6,
    ensures
        nbr(c, d) != c,
        nbr(nbr(c, d), opposite(d)) == c,
        0 <= opposite(d) < 6,
{
}

/// The direction back.
pub open spec fn opposite(d: int) -> int {
    if d % 2 == 0 { d + 1 } else { d - 1 }
}

proof fn lemma_raise(
    p0: Map<u128, u8>,
    pb: Map<u128, u8>,
    pa: Map<u128, u8>,
    m: Map<u64, Seq<Block>>,
    qb: Seq<((i32, i32, i32), u8)>,
    qa: Seq<((i32, i32, i32), u8)>,
    init: Seq<((i32, i32, i32), u8)>,
    c0: (i32, i32, i32),
    l0: u8,
    n: (i32, i32, i32),
    nl: u8,
)
    requires
        spread_inv_pending(p0, pb, m, qb, init, c0, l0),
        pa == pb.insert(coords::pos_key(n.0, n.1, n.2), nl),
        qa == qb.push((n, nl)),
        is_wire(m, n),
        level(pb, n) < nl,
        nl + 1 == l0,
        level(pb, c0) >= l0,
        n != c0,
        exists|d: int| 0 <= d < 6 && #[trigger] nbr(n, d) == c0,
    ensures
        spread_inv_pending(p0, pa, m, qa, init, c0, l0),
        forall|x: (i32, i32, i32)| #[trigger] level(pa, x) == if x == n { nl } else { level(pb, x) },
{
    let kn = coords::pos_key(n.0, n.1, n.2);
    assert forall|x: (i32, i32, i32)| #[trigger] level(pa, x) == if x == n { nl } else { level(pb, x) } by {
        if coords::pos_key(x.0, x.1, x.2) == kn {
            assert(x == n);
        }
    }
    assert(qa[qa.len() - 1] == (n, nl));
    assert(queued(qa, n, nl));
    assert forall|c: (i32, i32, i32), l: u8| queued(qb, c, l) implies queued(qa, c, l) by {
        let i = choose|i: int| 0 <= i < qb.len() && #[trigger] qb[i] == (c, l);
        assert(qa[i] == qb[i]);
    }
    assert forall|c: (i32, i32, i32)| c != n && closed(pb, m, c) implies closed(pa, m, c) by {
        assert forall|d: int| 0 <= d < 6 && block_at_pos(m, #[trigger] nbr(c, d)) == Block::RedstoneWire
            implies level(pa, nbr(c, d)) + 1 >= level(pa, c) by {
            assert(level(pa, nbr(c, d)) >= level(pb, nbr(c, d)));
        }
    }
    assert forall|c: (i32, i32, i32)| #[trigger] level(pa, c) != level(p0, c) implies fed_by_stronger(pa, c) by {
        if c == n {
            let d = choose|d: int| 0 <= d < 6 && #[trigger] nbr(n, d) == c0;
            assert(level(pa, nbr(n, d)) > level(pa, n));
        } else {
            let d = choose|d: int| 0 <= d < 6 && level(pb, #[trigger] nbr(c, d)) > level(pb, c);
            assert(level(pa, nbr(c, d)) >= level(pb, nbr(c, d)));
        }
    }
    assert forall|i: int| 0 <= i < qa.len() implies (#[trigger] qa[i]).1 <= 16 by {
        if i < qb.len() {
            assert(qa[i] == qb[i]);
        }
    }
}

proof fn lemma_weight_drop(qp: Seq<((i32, i32, i32), u8)>, q: Seq<((i32, i32, i32), u8)>, nl: nat)
    requires
        q.len() >= qp.len(),
        q.len() - qp.len() <= 6,
        queue_weight(q) <= queue_weight(qp) + (q.len() - qp.len()) * pow7(nl),
    ensures
        queue_weight(q) < queue_weight(qp) + pow7(nl + 1),
{
    let k = q.len() - qp.len();
    let w = pow7(nl);
    assert(pow7(nl + 1) == 7 * w);
    assert(k * w <= 6 * w) by (nonlinear_arith)
        requires
            0 <= k <= 6,
            w >= 0,
    ;
    lemma_pow7_positive(nl);
}

proof fn lemma_pow7_positive(l: nat)
    ensures
        pow7(l) >= 1,
    decreases l,
{
    if l > 0 {
        lemma_pow7_positive((l - 1) as nat);
    }
}

proof fn lemma_spread_done(p0: Map<u128, u8>, p: Map<u128, u8>, m: Map<u64, Seq<Block>>, init: Seq<((i32, i32, i32), u8)>)
    requires
        spread_inv(p0, p, m, Seq::empty(), init),
    ensures
        forall|c: (i32, i32, i32)| #[trigger] level(p, c) != level(p0, c) ==> closed(p, m, c),
        forall|i: int| 0 <= i < init.len() ==> closed(p, m, (#[trigger] init[i]).0),
{
    assert forall|i: int| 0 <= i < init.len() implies closed(p, m, (#[trigger] init[i]).0) by {
        assert(in_init(init, init[i].0));
        assert(!queued(Seq::<((i32, i32, i32), u8)>::empty(), init[i].0, level(p, init[i].0)));
    }
    assert forall|c: (i32, i32, i32)| #[trigger] level(p, c) != level(p0, c) implies closed(p, m, c) by {
        assert(!queued(Seq::<((i32, i32, i32), u8)>::empty(), c, level(p, c)));
    }
}

/// Cell `c` carries more power than its `base` level, is not in `avoid`,
/// and is a source or is reached from one within `k` steps, each step to a
/// neighbor that also carries more than its base level and is not in
/// `avoid`.
pub open spec fn reached(
    src: spec_fn((i32, i32, i32)) -> bool,
    avoid: spec_fn((i32, i32, i32)) -> bool,
    base: spec_fn((i32, i32, i32)) -> u8,
    p: Map<u128, u8>,
    c: (i32, i32, i32),
    k: nat,
) -> bool
    decreases k,
{
    level(p, c) > base(c) && !avoid(c) && (src(c) || (k > 0 && {
        let j = (k - 1) as nat;
        ||| reached(src, avoid, base, p, nbr(c, 0), j)
        ||| reached(src, avoid, base, p, nbr(c, 1), j)
        ||| reached(src, avoid, base, p, nbr(c, 2), j)
        ||| reached(src, avoid, base, p, nbr(c, 3), j)
        ||| reached(src, avoid, base, p, nbr(c, 4), j)
        ||| reached(src, avoid, base, p, nbr(c, 5), j)
    }))
}

/// Cell `c` is reached from a source in some number of steps.
pub open spec fn reachable(
    src: spec_fn((i32, i32, i32)) -> bool,
    avoid: spec_fn((i32, i32, i32)) -> bool,
    base: spec_fn((i32, i32, i32)) -> u8,
    p: Map<u128, u8>,
    c: (i32, i32, i32),
) -> bool {
    exists|k: nat| reached(src, avoid, base, p, c, k)
}

/// No cell is below its base level, every cell above it is reached from a
/// source, and the cells of `avoid` stay at their base level.
pub open spec fn grounded(
    src: spec_fn((i32, i32, i32)) -> bool,
    avoid: spec_fn((i32, i32, i32)) -> bool,
    base: spec_fn((i32, i32, i32)) -> u8,
    p: Map<u128, u8>,
) -> bool {
    &&& forall|c: (i32, i32, i32)| #[trigger] level(p, c) >= base(c)
    &&& forall|c: (i32, i32, i32)| #[trigger] level(p, c) > base(c) ==> reachable(src, avoid, base, p, c)
    &&& forall|c: (i32, i32, i32)| avoid(c) ==> #[trigger] level(p, c) == base(c)
}

proof fn lemma_reached_mono(
    src: spec_fn((i32, i32, i32)) -> bool,
    avoid: spec_fn((i32, i32, i32)) -> bool,
    base: spec_fn((i32, i32, i32)) -> u8,
    p: Map<u128, u8>,
    p2: Map<u128, u8>,
    c: (i32, i32, i32),
    k: nat,
)
    requires
        forall|x: (i32, i32, i32)| level(p2, x) >= #[trigger] level(p, x),
        reached(src, avoid, base, p, c, k),
    ensures
        reached(src, avoid, base, p2, c, k),
    decreases k,
{
    assert(level(p2, c) >= level(p, c));
    if !src(c) {
        let j = (k - 1) as nat;
        if reached(src, avoid, base, p, nbr(c, 0), j) {
            lemma_reached_mono(src, avoid, base, p, p2, nbr(c, 0), j);
        } else if reached(src, avoid, base, p, nbr(c, 1), j) {
            lemma_reached_mono(src, avoid, base, p, p2, nbr(c, 1), j);
        } else if reached(src, avoid, base, p, nbr(c, 2), j) {
            lemma_reached_mono(src, avoid, base, p, p2, nbr(c, 2), j);
        } else if reached(src, avoid, base, p, nbr(c, 3), j) {
            lemma_reached_mono(src, avoid, base, p, p2, nbr(c, 3), j);
        } else if reached(src, avoid, base, p, nbr(c, 4), j) {
            lemma_reached_mono(src, avoid, base, p, p2, nbr(c, 4), j);
        } else {
            lemma_reached_mono(src, avoid, base, p, p2, nbr(c, 5), j);
        }
    }
}

proof fn lemma_reachable_mono(
    src: spec_fn((i32, i32, i32)) -> bool,
    avoid: spec_fn((i32, i32, i32)) -> bool,
    base: spec_fn((i32, i32, i32)) -> u8,
    p: Map<u128, u8>,
    p2: Map<u128, u8>,
)
    requires
        forall|x: (i32, i32, i32)| level(p2, x) >= #[trigger] level(p, x),
    ensures
        forall|c: (i32, i32, i32)| reachable(src, avoid, base, p, c) ==> #[trigger] reachable(src, avoid, base, p2, c),
{
    assert forall|c: (i32, i32, i32)| reachable(src, avoid, base, p, c) implies #[trigger] reachable(src, avoid, base, p2, c) by {
        let k = choose|k: nat| reached(src, avoid, base, p, c, k);
        lemma_reached_mono(src, avoid, base, p, p2, c, k);
    }
}

/// Raising cell `n` above its level keeps the power grounded when `n` is a
/// source, or when its neighbor `c0` (in direction `d`) is above its base.
proof fn lemma_ground_raise(
    src: spec_fn((i32, i32, i32)) -> bool,
    avoid: spec_fn((i32, i32, i32)) -> bool,
    base: spec_fn((i32, i32, i32)) -> u8,
    p: Map<u128, u8>,
    pa: Map<u128, u8>,
    n: (i32, i32, i32),
    v: u8,
    c0: (i32, i32, i32),
    d: int,
)
    requires
        grounded(src, avoid, base, p),
        pa == p.insert(coords::pos_key(n.0, n.1, n.2), v),
        v > level(p, n),
        !avoid(n),
        src(n) || (0 <= d < 6 && nbr(n, d) == c0 && level(p, c0) > base(c0) && n != c0),
    ensures
        grounded(src, avoid, base, pa),
        forall|x: (i32, i32, i32)| #[trigger] level(pa, x) == if x == n { v } else { level(p, x) },
{
    lemma_level_insert(p, n, v);
    assert forall|x: (i32, i32, i32)| level(pa, x) >= #[trigger] level(p, x) by {}
    lemma_reachable_mono(src, avoid, base, p, pa);
    assert(level(p, n) >= base(n));
    if src(n) {
        assert(reached(src, avoid, base, pa, n, 0));
    } else {
        assert(reachable(src, avoid, base, p, c0));
        assert(reachable(src, avoid, base, pa, c0));
        let k = choose|k: nat| reached(src, avoid, base, pa, c0, k);
        assert(reached(src, avoid, base, pa, nbr(n, d), k));
        assert(((k + 1) - 1) as nat == k);
        assert(d == 0 || d == 1 || d == 2 || d == 3 || d == 4 || d == 5);
        assert(reached(src, avoid, base, pa, n, k + 1));
    }
    assert(reachable(src, avoid, base, pa, n));
    assert forall|c: (i32, i32, i32)| #[trigger] level(pa, c) > base(c) implies reachable(src, avoid, base, pa, c) by {
        if c != n {
            assert(reachable(src, avoid, base, p, c));
        }
    }
    assert forall|c: (i32, i32, i32)| #[trigger] level(pa, c) >= base(c) by {
        assert(level(p, c) >= base(c));
    }
}

impl World {
    fn level_at(&self, c: (i32, i32, i32)) -> (r: u8)
        ensures
            r == level(self@.power, c),
    {
        match self.power.get(&pos_key_from(c.0, c.1, c.2)) {
            Some(v) => *v,
            None => 0,
        }
    }

    fn set_level(&mut self, c: (i32, i32, i32), v: u8)
        ensures
            final(self)@ == (WorldView { power: old(self)@.power.insert(coords::pos_key(c.0, c.1, c.2), v), ..old(self)@ }),
    {
        self.power.insert(pos_key_from(c.0, c.1, c.2), v);
    }

    /// Spread signal from the queued cells along redstone wire: each wire
    /// next to a cell of level `l > 1` is raised to `l - 1` where it was
    /// weaker, and spreads in turn.
    fn spread(
        &mut self,
        queue: Vec<((i32, i32, i32), u8)>,
        Ghost(src): Ghost<spec_fn((i32, i32, i32)) -> bool>,
        Ghost(avoid): Ghost<spec_fn((i32, i32, i32)) -> bool>,
        Ghost(base): Ghost<spec_fn((i32, i32, i32)) -> u8>,
    )
        requires
            old(self).wf(),
            grounded(src, avoid, base, old(self)@.power),
            forall|c: (i32, i32, i32)| is_wire(old(self)@.chunks, c) ==> !#[trigger] avoid(c),
            forall|i: int| 0 <= i < queue@.len() ==> level(old(self)@.power, (#[trigger] queue@[i]).0) > base(queue@[i].0),
            forall|i: int| 0 <= i < queue@.len() ==> level(old(self)@.power, (#[trigger] queue@[i]).0) == queue@[i].1,
            forall|i: int| 0 <= i < queue@.len() ==> (#[trigger] queue@[i]).1 <= 16,
        ensures
            final(self).wf(),
            same_but_power(old(self)@, final(self)@),
            forall|c: (i32, i32, i32)| level(final(self)@.power, c) >= #[trigger] level(old(self)@.power, c),
            forall|c: (i32, i32, i32)| #[trigger] level(final(self)@.power, c) != level(old(self)@.power, c) ==> {
                &&& block_at_pos(old(self)@.chunks, c) == Block::RedstoneWire
                &&& level(final(self)@.power, c) <= 15
                &&& fed_by_stronger(final(self)@.power, c)
                &&& closed(final(self)@.power, old(self)@.chunks, c)
            },
            forall|i: int| 0 <= i < queue@.len() ==> closed(final(self)@.power, old(self)@.chunks, (#[trigger] queue@[i]).0),
            grounded(src, avoid, base, final(self)@.power),
    {
        let ghost p0 = self@.power;
        let ghost m = self@.chunks;
        let ghost w0 = self@;
        let ghost init = queue@;
        let mut queue = queue;
        proof {
            lemma_spread_start(p0, m, init);
        }
        loop
            invariant
                self.wf(),
                self@.chunks == m,
                same_but_power(w0, self@),
                w0.power == p0,
                w0.chunks == m,
                forall|i: int| 0 <= i < queue@.len() ==> level(self@.power, (#[trigger] queue@[i]).0) >= queue@[i].1,
                spread_inv(p0, self@.power, m, queue@, init),
                grounded(src, avoid, base, self@.power),
                forall|c: (i32, i32, i32)| is_wire(m, c) ==> !#[trigger] avoid(c),
                forall|i: int| 0 <= i < queue@.len() ==> level(self@.power, (#[trigger] queue@[i]).0) > base(queue@[i].0),
            ensures
                queue@.len() == 0,
            decreases queue_weight(queue@),
        {
            let ghost pq = self@.power;
            let ghost q0 = queue@;
            let top = queue.pop();
            match top {
                None => {
                    break;
                },
                Some((c, lvl)) => {
                    let ghost qp = queue@;
                    proof {
                        assert(q0 =~= qp.push((c, lvl)));
                        lemma_queue_weight_push(qp, (c, lvl));
                        lemma_pop(p0, pq, m, q0, init, c, lvl);
                        assert(q0[q0.len() - 1] == (c, lvl));
                        assert forall|i: int| 0 <= i < qp.len() implies level(pq, (#[trigger] qp[i]).0) > base(qp[i].0) by {
                            assert(qp[i] == q0[i]);
                        }
                    }
                    if lvl > 1 {
                        let nl = lvl - 1;
                        let mut d: usize = 0;
                        while d < 6
                            invariant
                                self.wf(),
                                self@.chunks == m,
                                same_but_power(w0, self@),
                                w0.power == p0,
                                w0.chunks == m,
                                1 <= nl < lvl,
                                nl == lvl - 1,
                                d <= 6,
                                level(self@.power, c) >= lvl,
                                level(pq, c) >= lvl,
                                queue@.len() >= qp.len(),
                                queue@.subrange(0, qp.len() as int) == qp,
                                forall|j: int| qp.len() <= j < queue@.len() ==> (#[trigger] queue@[j]).1 == nl,
                                queue_weight(queue@) <= queue_weight(qp) + (queue@.len() - qp.len()) * pow7(nl as nat),
                                queue@.len() - qp.len() <= d,
                                forall|i: int| 0 <= i < queue@.len() ==> level(self@.power, (#[trigger] queue@[i]).0) >= queue@[i].1,
                                forall|dd: int| 0 <= dd < d && block_at_pos(m, #[trigger] nbr(c, dd)) == Block::RedstoneWire
                                    ==> level(self@.power, nbr(c, dd)) >= nl,
                                spread_inv_pending(p0, self@.power, m, queue@, init, c, lvl),
                                grounded(src, avoid, base, self@.power),
                                forall|c: (i32, i32, i32)| is_wire(m, c) ==> !#[trigger] avoid(c),
                                forall|i: int| 0 <= i < queue@.len() ==> level(self@.power, (#[trigger] queue@[i]).0) > base(queue@[i].0),
                                level(self@.power, c) > base(c),
                            decreases 6 - d,
                        {
                            let n = nbr_of(c, d);
                            if self.get_block(n.0, n.1, n.2) == Block::RedstoneWire {
                                if self.level_at(n) < nl {
                                    let ghost pb = self@.power;
                                    let ghost qb = queue@;
                                    self.set_level(n, nl);
                                    queue.push((n, nl));
                                    proof {
                                        lemma_nbr_distinct(c, d as int);
                                        lemma_ground_raise(src, avoid, base, pb, self@.power, n, nl, c, opposite(d as int));
                                        lemma_raise(p0, pb, self@.power, m, qb, queue@, init, c, lvl, n, nl);
                                        assert(level(pb, n) >= base(n));
                                        assert forall|i: int| 0 <= i < queue@.len() implies level(self@.power, (#[trigger] queue@[i]).0)
                                            > base(queue@[i].0) by {
                                            if i < qb.len() {
                                                assert(queue@[i] == qb[i]);
                                                assert(level(self@.power, qb[i].0) >= level(pb, qb[i].0));
                                            } else {
                                                assert(queue@[i] == (n, nl));
                                            }
                                        }
                                        lemma_queue_weight_push(qb, (n, nl));
                                        assert(queue@.subrange(0, qp.len() as int) =~= qb.subrange(0, qp.len() as int));
                                        let k = qb.len() - qp.len();
                                        let w = pow7(nl as nat);
                                        assert((k + 1) * w == k * w + w) by (nonlinear_arith);
                                    }
                                }
                            }
                            d = d + 1;
                        }
                        proof {
                            lemma_finish_cell(p0, self@.power, m, queue@, init, c, lvl);
                            lemma_weight_drop(qp, queue@, nl as nat);
                            assert(lvl as nat == nl as nat + 1);
                        }
                    } else {
                        proof {
                            lemma_skip_cell(p0, self@.power, m, qp, init, c, lvl);
                            lemma_pow7_positive(lvl as nat);
                        }
                    }
                },
            }
        }
        proof {
            lemma_spread_done(p0, self@.power, m, init);
        }
    }
}

/// Half the edge of the cube of cells a power recompute covers.
pub const POWER_RADIUS: i32 = 20;

/// Coordinates far enough from the `i32` limits for the cube around them
/// (20 cells out) and its neighbors (one more).
pub open spec fn coord_ok(v: i32) -> bool {
    i32::MIN + 21 <= v <= i32::MAX - 21
}

/// The cube of side 41 around `(px, py, pz)` whose stored power a recompute
/// clears.
pub open spec fn in_cube(c: (i32, i32, i32), px: i32, py: i32, pz: i32) -> bool {
    &&& px - POWER_RADIUS <= c.0 <= px + POWER_RADIUS
    &&& py - POWER_RADIUS <= c.1 <= py + POWER_RADIUS
    &&& pz - POWER_RADIUS <= c.2 <= pz + POWER_RADIUS
}

impl World {
    /// Drop the stored power of every cell of the cube around `(px, py, pz)`.
    fn clear_cube(&mut self, px: i32, py: i32, pz: i32)
        requires
            old(self).wf(),
            coord_ok(px),
            coord_ok(py),
            coord_ok(pz),
        ensures
            final(self).wf(),
            same_but_power(old(self)@, final(self)@),
            forall|c: (i32, i32, i32)| #[trigger] level(final(self)@.power, c)
                == if in_cube(c, px, py, pz) { 0 } else { level(old(self)@.power, c) },
    {
        let ghost w0 = self@;
        let mut x = px - POWER_RADIUS;
        while x <= px + POWER_RADIUS
            invariant
                self.wf(),
                coord_ok(px),
                coord_ok(py),
                coord_ok(pz),
                px - POWER_RADIUS <= x <= px + POWER_RADIUS + 1,
                same_but_power(w0, self@),
                forall|c: (i32, i32, i32)| #[trigger] level(self@.power, c)
                    == if in_cube(c, px, py, pz) && c.0 < x { 0 } else { level(w0.power, c) },
            decreases px + POWER_RADIUS + 1 - x,
        {
            let mut y = py - POWER_RADIUS;
            while y <= py + POWER_RADIUS
                invariant
                    self.wf(),
                    coord_ok(px),
                    coord_ok(py),
                    coord_ok(pz),
                    px - POWER_RADIUS <= x <= px + POWER_RADIUS,
                    py - POWER_RADIUS <= y <= py + POWER_RADIUS + 1,
                    same_but_power(w0, self@),
                    forall|c: (i32, i32, i32)| #[trigger] level(self@.power, c)
                        == if in_cube(c, px, py, pz) && (c.0 < x || (c.0 == x && c.1 < y)) { 0 } else { level(w0.power, c) },
                decreases py + POWER_RADIUS + 1 - y,
            {
                let mut z = pz - POWER_RADIUS;
                while z <= pz + POWER_RADIUS
                    invariant
                        self.wf(),
                        coord_ok(px),
                        coord_ok(py),
                        coord_ok(pz),
                        px - POWER_RADIUS <= x <= px + POWER_RADIUS,
                        py - POWER_RADIUS <= y <= py + POWER_RADIUS,
                        pz - POWER_RADIUS <= z <= pz + POWER_RADIUS + 1,
                        same_but_power(w0, self@),
                        forall|c: (i32, i32, i32)| #[trigger] level(self@.power, c)
                            == if in_cube(c, px, py, pz) && (c.0 < x || (c.0 == x && (c.1 < y || (c.1 == y && c.2 < z)))) {
                            0
                        } else {
                            level(w0.power, c)
                        },
                    decreases pz + POWER_RADIUS + 1 - z,
                {
                    let ghost pb = self@.power;
                    let k = pos_key_from(x, y, z);
                    self.power.remove(&k);
                    proof {
                        assert forall|c: (i32, i32, i32)| #[trigger] level(self@.power, c)
                            == if c == (x, y, z) { 0 } else { level(pb, c) } by {
                            if coords::pos_key(c.0, c.1, c.2) == k {
                                assert(c == (x, y, z));
                            }
                        }
                    }
                    z = z + 1;
                }
                y = y + 1;
            }
            x = x + 1;
        }
    }
}

/// The container fill level at a position (0 when none).
pub open spec fn fill_at(cf: Map<u128, u8>, c: (i32, i32, i32)) -> u8 {
    level(cf, c)
}

pub open spec fn max_u8(a: u8, b: u8) -> u8 {
    if a >= b { a } else { b }
}

/// The fullest container next to a comparator.
pub open spec fn comparator_fill(cf: Map<u128, u8>, c: (i32, i32, i32)) -> u8 {
    max_u8(max_u8(max_u8(fill_at(cf, nbr(c, 0)), fill_at(cf, nbr(c, 1))), max_u8(fill_at(cf, nbr(c, 2)), fill_at(cf, nbr(c, 3)))),
        max_u8(fill_at(cf, nbr(c, 4)), fill_at(cf, nbr(c, 5))))
}

/// The level a cell emits on its own: 16 for a lit lever, a redstone
/// torch, or an observer or sculk sensor that is currently emitting; one
/// more than the fill of the fullest neighboring container for a
/// comparator next to a non-empty one.
pub open spec fn emit_level(w: WorldView, c: (i32, i32, i32)) -> Option<u8> {
    let b = block_at_pos(w.chunks, c);
    if b == Block::LeverOn || b == Block::RedstoneTorch {
        Some(16u8)
    } else if (b == Block::Observer || b == Block::SculkSensor) && w.extra_sources.contains(coords::pos_key(c.0, c.1, c.2)) {
        Some(16u8)
    } else if b == Block::Comparator && comparator_fill(w.container_fill, c) > 0 {
        Some((comparator_fill(w.container_fill, c) + 1) as u8)
    } else {
        None
    }
}

/// Lowest and highest row a recompute around height `py` looks at.
pub open spec fn scan_y_lo(py: i32) -> i32 {
    if py - POWER_RADIUS > 0 { (py - POWER_RADIUS) as i32 } else { 0 }
}

pub open spec fn scan_y_hi(py: i32) -> i32 {
    if py + POWER_RADIUS < HEIGHT - 1 { (py + POWER_RADIUS) as i32 } else { (HEIGHT - 1) as i32 }
}

/// The cells a recompute around `(px, py, pz)` looks at: the cube, cut to
/// the world's rows.
pub open spec fn in_scan(c: (i32, i32, i32), px: i32, py: i32, pz: i32) -> bool {
    &&& px - POWER_RADIUS <= c.0 <= px + POWER_RADIUS
    &&& scan_y_lo(py) <= c.1 <= scan_y_hi(py)
    &&& pz - POWER_RADIUS <= c.2 <= pz + POWER_RADIUS
}

/// Scan cells visited before `(x, y, z)` (x outermost, then y, then z).
pub open spec fn scanned_before(c: (i32, i32, i32), px: i32, py: i32, pz: i32, x: i32, y: i32, z: i32) -> bool {
    in_scan(c, px, py, pz) && (c.0 < x || (c.0 == x && (c.1 < y || (c.1 == y && c.2 < z))))
}

/// Blocks of the lists a scan collects: 0 lamps, 1 TNT, 2 repeaters,
/// 3 dispensers.
pub open spec fn kind_match(kind: int, b: Block) -> bool {
    if kind == 0 {
        b == Block::RedstoneLamp
    } else if kind == 1 {
        b == Block::Tnt
    } else if kind == 2 {
        b == Block::Repeater || b == Block::RepeaterOn
    } else {
        b == Block::Dispenser
    }
}

/// `l` holds, once each, exactly the cells scanned before `(x, y, z)` whose
/// block is of kind `kind`.
pub open spec fn list_exact(
    l: Seq<(i32, i32, i32)>,
    m: Map<u64, Seq<Block>>,
    kind: int,
    px: i32,
    py: i32,
    pz: i32,
    x: i32,
    y: i32,
    z: i32,
) -> bool {
    &&& forall|i: int| 0 <= i < l.len() ==> scanned_before(#[trigger] l[i], px, py, pz, x, y, z)
        && kind_match(kind, block_at_pos(m, l[i]))
    &&& forall|c: (i32, i32, i32)| scanned_before(c, px, py, pz, x, y, z) && kind_match(kind, #[trigger] block_at_pos(m, c))
        ==> l.contains(c)
    &&& l.no_duplicates()
}

/// What a scan has done by `(x, y, z)`: emitting cells scanned so far hold
/// their emitted level and are queued with it, once; the lists are exact.
pub open spec fn scan_inv(
    w0: WorldView,
    w: WorldView,
    q: Seq<((i32, i32, i32), u8)>,
    lamps: Seq<(i32, i32, i32)>,
    tnts: Seq<(i32, i32, i32)>,
    reps: Seq<(i32, i32, i32)>,
    disps: Seq<(i32, i32, i32)>,
    px: i32,
    py: i32,
    pz: i32,
    x: i32,
    y: i32,
    z: i32,
) -> bool {
    &&& same_but_power(w0, w)
    &&& forall|c: (i32, i32, i32)| #[trigger] level(w.power, c) == if scanned_before(c, px, py, pz, x, y, z)
        && emit_level(w0, c) is Some { emit_level(w0, c)->0 } else { level(w0.power, c) }
    &&& forall|i: int| 0 <= i < q.len() ==> scanned_before((#[trigger] q[i]).0, px, py, pz, x, y, z)
        && emit_level(w0, q[i].0) == Some(q[i].1)
    &&& forall|c: (i32, i32, i32)| scanned_before(c, px, py, pz, x, y, z) && (#[trigger] emit_level(w0, c)) is Some
        ==> in_init(q, c)
    &&& list_exact(lamps, w0.chunks, 0, px, py, pz, x, y, z)
    &&& list_exact(tnts, w0.chunks, 1, px, py, pz, x, y, z)
    &&& list_exact(reps, w0.chunks, 2, px, py, pz, x, y, z)
    &&& list_exact(disps, w0.chunks, 3, px, py, pz, x, y, z)
}

proof fn lemma_level_insert(p: Map<u128, u8>, c: (i32, i32, i32), v: u8)
    ensures
        forall|x: (i32, i32, i32)| #[trigger] level(p.insert(coords::pos_key(c.0, c.1, c.2), v), x)
            == if x == c { v } else { level(p, x) },
{
    let k = coords::pos_key(c.0, c.1, c.2);
    assert forall|x: (i32, i32, i32)| #[trigger] level(p.insert(k, v), x) == if x == c { v } else { level(p, x) } by {
        if coords::pos_key(x.0, x.1, x.2) == k {
            assert(x == c);
        }
    }
}

/// Adding the scanned cell `cur` to a list of kind `kind` when its block
/// is of that kind keeps the list exact one cell further on.
proof fn lemma_list_step(
    l: Seq<(i32, i32, i32)>,
    l2: Seq<(i32, i32, i32)>,
    m: Map<u64, Seq<Block>>,
    kind: int,
    px: i32,
    py: i32,
    pz: i32,
    x: i32,
    y: i32,
    z: i32,
)
    requires
        list_exact(l, m, kind, px, py, pz, x, y, z),
        in_scan((x, y, z), px, py, pz),
        z < i32::MAX,
        l2 == if kind_match(kind, block_at(m, x, y, z)) { l.push((x, y, z)) } else { l },
    ensures
        list_exact(l2, m, kind, px, py, pz, x, y, (z + 1) as i32),
{
    let cur = (x, y, z);
    assert(!l.contains(cur)) by {
        if l.contains(cur) {
            let i = choose|i: int| 0 <= i < l.len() && l[i] == cur;
            assert(scanned_before(l[i], px, py, pz, x, y, z));
        }
    }
    if kind_match(kind, block_at(m, x, y, z)) {
        assert forall|i: int, j: int| 0 <= i < l2.len() && 0 <= j < l2.len() && i != j implies l2[i] != l2[j] by {
            if i < l.len() && j < l.len() {
                assert(l[i] != l[j]);
            } else if i < l.len() {
                assert(l.contains(l2[i]));
            } else {
                assert(l.contains(l2[j]));
            }
        }
        assert forall|c: (i32, i32, i32)| scanned_before(c, px, py, pz, x, y, (z + 1) as i32)
            && kind_match(kind, #[trigger] block_at_pos(m, c)) implies l2.contains(c) by {
            if c == cur {
                assert(l2[l.len() as int] == cur);
            } else {
                assert(l.contains(c));
                let i = choose|i: int| 0 <= i < l.len() && l[i] == c;
                assert(l2[i] == c);
            }
        }
    }
}

impl World {
    fn comparator_fill_at(&self, c: (i32, i32, i32)) -> (r: u8)
        ensures
            r == comparator_fill(self@.container_fill, c),
    {
        let mut d: usize = 0;
        let mut vals: [u8; 6] = [0; 6];
        while d < 6
            invariant
                d <= 6,
                forall|j: int| 0 <= j < d ==> vals@[j] == fill_at(self@.container_fill, nbr(c, j)),
            decreases 6 - d,
        {
            let n = nbr_of(c, d);
            let v = match self.container_fill.get(&pos_key_from(n.0, n.1, n.2)) {
                Some(v) => *v,
                None => 0,
            };
            vals.set(d, v);
            d = d + 1;
        }
        let a = if vals[0] >= vals[1] { vals[0] } else { vals[1] };
        let b = if vals[2] >= vals[3] { vals[2] } else { vals[3] };
        let e = if vals[4] >= vals[5] { vals[4] } else { vals[5] };
        let ab = if a >= b { a } else { b };
        if ab >= e { ab } else { e }
    }
}

/// The lists a power scan collects.
pub struct ScanLists {
    pub queue: Vec<((i32, i32, i32), u8)>,
    pub lamps: Vec<(i32, i32, i32)>,
    pub tnts: Vec<(i32, i32, i32)>,
    pub reps: Vec<(i32, i32, i32)>,
    pub disps: Vec<(i32, i32, i32)>,
}

impl World {
    /// Look at one scan cell: give an emitting cell its level and queue it,
    /// and file lamps, TNT, repeaters and dispensers.
    fn scan_cell(&mut self, lists: &mut ScanLists, px: i32, py: i32, pz: i32, x: i32, y: i32, z: i32, Ghost(w0): Ghost<WorldView>)
        requires
            old(self).wf(),
            in_scan((x, y, z), px, py, pz),
            coord_ok(px),
            coord_ok(py),
            coord_ok(pz),
            forall|k: u128| #[trigger] w0.container_fill.contains_key(k) ==> w0.container_fill[k] <= 15,
            scan_inv(w0, old(self)@, old(lists).queue@, old(lists).lamps@, old(lists).tnts@, old(lists).reps@,
                old(lists).disps@, px, py, pz, x, y, z),
        ensures
            final(self).wf(),
            scan_inv(w0, final(self)@, final(lists).queue@, final(lists).lamps@, final(lists).tnts@,
                final(lists).reps@, final(lists).disps@, px, py, pz, x, y, (z + 1) as i32),
    {
        let ghost p = self@.power;
        let ghost q = lists.queue@;
        let ghost cur = (x, y, z);
        let ghost m = w0.chunks;
        assert(self@.chunks == m);
        let c = (x, y, z);
        let b = self.get_block(x, y, z);
        let mut emitted: Option<u8> = None;
        match b {
            Block::LeverOn | Block::RedstoneTorch => {
                emitted = Some(16);
            },
            Block::Observer | Block::SculkSensor => {
                if self.extra_sources.contains(&pos_key_from(x, y, z)) {
                    emitted = Some(16);
                }
            },
            Block::Comparator => {
                let fill = self.comparator_fill_at(c);
                if fill > 0 {
                    proof {
                        let cf = w0.container_fill;
                        assert(fill_at(cf, nbr(c, 0)) <= 15 && fill_at(cf, nbr(c, 1)) <= 15 && fill_at(cf, nbr(c, 2)) <= 15);
                        assert(fill_at(cf, nbr(c, 3)) <= 15 && fill_at(cf, nbr(c, 4)) <= 15 && fill_at(cf, nbr(c, 5)) <= 15);
                    }
                    emitted = Some(fill + 1);
                }
            },
            _ => {},
        }
        assert(emitted == emit_level(w0, cur));
        proof {
            lemma_list_step(lists.lamps@, if kind_match(0, b) { lists.lamps@.push(cur) } else { lists.lamps@ }, m, 0, px, py, pz, x, y, z);
            lemma_list_step(lists.tnts@, if kind_match(1, b) { lists.tnts@.push(cur) } else { lists.tnts@ }, m, 1, px, py, pz, x, y, z);
            lemma_list_step(lists.reps@, if kind_match(2, b) { lists.reps@.push(cur) } else { lists.reps@ }, m, 2, px, py, pz, x, y, z);
            lemma_list_step(lists.disps@, if kind_match(3, b) { lists.disps@.push(cur) } else { lists.disps@ }, m, 3, px, py, pz, x, y, z);
        }
        match b {
            Block::RedstoneLamp => lists.lamps.push(c),
            Block::Tnt => lists.tnts.push(c),
            Block::Repeater | Block::RepeaterOn => lists.reps.push(c),
            Block::Dispenser => lists.disps.push(c),
            _ => {},
        }
        match emitted {
            Some(v) => {
                self.set_level(c, v);
                lists.queue.push((c, v));
                proof {
                    lemma_level_insert(p, c, v);
                    assert forall|c2: (i32, i32, i32)| scanned_before(c2, px, py, pz, x, y, (z + 1) as i32)
                        && (#[trigger] emit_level(w0, c2)) is Some implies in_init(lists.queue@, c2) by {
                        if c2 == cur {
                            assert(lists.queue@[q.len() as int] == (c, v));
                        } else {
                            let i = choose|i: int| 0 <= i < q.len() && (#[trigger] q[i]).0 == c2;
                            assert(lists.queue@[i] == q[i]);
                        }
                    }
                    assert forall|i: int| 0 <= i < lists.queue@.len() implies scanned_before((#[trigger] lists.queue@[i]).0, px, py, pz, x, y, (z + 1) as i32)
                        && emit_level(w0, lists.queue@[i].0) == Some(lists.queue@[i].1) by {
                        if i < q.len() {
                            assert(lists.queue@[i] == q[i]);
                        }
                    }
                }
            },
            None => {
                proof {
                    assert forall|c2: (i32, i32, i32)| scanned_before(c2, px, py, pz, x, y, (z + 1) as i32)
                        && (#[trigger] emit_level(w0, c2)) is Some implies in_init(lists.queue@, c2) by {
                        assert(c2 != cur);
                    }
                }
            },
        }
    }
}

/// A scan position can be renamed to any position that has the same cells
/// before it.
proof fn lemma_scan_inv_moves(
    w0: WorldView,
    w: WorldView,
    q: Seq<((i32, i32, i32), u8)>,
    lamps: Seq<(i32, i32, i32)>,
    tnts: Seq<(i32, i32, i32)>,
    reps: Seq<(i32, i32, i32)>,
    disps: Seq<(i32, i32, i32)>,
    px: i32,
    py: i32,
    pz: i32,
    x: i32,
    y: i32,
    z: i32,
    x2: i32,
    y2: i32,
    z2: i32,
)
    requires
        scan_inv(w0, w, q, lamps, tnts, reps, disps, px, py, pz, x, y, z),
        forall|c: (i32, i32, i32)| #[trigger] scanned_before(c, px, py, pz, x, y, z) == scanned_before(c, px, py, pz, x2, y2, z2),
    ensures
        scan_inv(w0, w, q, lamps, tnts, reps, disps, px, py, pz, x2, y2, z2),
{
    assert forall|c: (i32, i32, i32)| #[trigger] level(w.power, c) == if scanned_before(c, px, py, pz, x2, y2, z2)
        && emit_level(w0, c) is Some { emit_level(w0, c)->0 } else { level(w0.power, c) } by {
        assert(scanned_before(c, px, py, pz, x, y, z) == scanned_before(c, px, py, pz, x2, y2, z2));
    }
    assert forall|c: (i32, i32, i32)| scanned_before(c, px, py, pz, x2, y2, z2) && (#[trigger] emit_level(w0, c)) is Some
        implies in_init(q, c) by {
        assert(scanned_before(c, px, py, pz, x, y, z));
    }
    assert forall|i: int| 0 <= i < q.len() implies scanned_before((#[trigger] q[i]).0, px, py, pz, x2, y2, z2)
        && emit_level(w0, q[i].0) == Some(q[i].1) by {
        assert(scanned_before(q[i].0, px, py, pz, x, y, z));
    }
    lemma_list_moves(lamps, w0.chunks, 0, px, py, pz, x, y, z, x2, y2, z2);
    lemma_list_moves(tnts, w0.chunks, 1, px, py, pz, x, y, z, x2, y2, z2);
    lemma_list_moves(reps, w0.chunks, 2, px, py, pz, x, y, z, x2, y2, z2);
    lemma_list_moves(disps, w0.chunks, 3, px, py, pz, x, y, z, x2, y2, z2);
}

proof fn lemma_list_moves(
    l: Seq<(i32, i32, i32)>,
    m: Map<u64, Seq<Block>>,
    kind: int,
    px: i32,
    py: i32,
    pz: i32,
    x: i32,
    y: i32,
    z: i32,
    x2: i32,
    y2: i32,
    z2: i32,
)
    requires
        list_exact(l, m, kind, px, py, pz, x, y, z),
        forall|c: (i32, i32, i32)| #[trigger] scanned_before(c, px, py, pz, x, y, z) == scanned_before(c, px, py, pz, x2, y2, z2),
    ensures
        list_exact(l, m, kind, px, py, pz, x2, y2, z2),
{
    assert forall|i: int| 0 <= i < l.len() implies scanned_before(#[trigger] l[i], px, py, pz, x2, y2, z2)
        && kind_match(kind, block_at_pos(m, l[i])) by {
        assert(scanned_before(l[i], px, py, pz, x, y, z));
    }
    assert forall|c: (i32, i32, i32)| scanned_before(c, px, py, pz, x2, y2, z2) && kind_match(kind, #[trigger] block_at_pos(m, c))
        implies l.contains(c) by {
        assert(scanned_before(c, px, py, pz, x, y, z));
    }
}

impl World {
    /// Scan the cells around `(px, py, pz)`.
    fn scan_region(&mut self, px: i32, py: i32, pz: i32) -> (lists: ScanLists)
        requires
            old(self).wf(),
            coord_ok(px),
            coord_ok(py),
            coord_ok(pz),
            forall|k: u128| #[trigger] old(self)@.container_fill.contains_key(k) ==> old(self)@.container_fill[k] <= 15,
        ensures
            final(self).wf(),
            scan_inv(old(self)@, final(self)@, lists.queue@, lists.lamps@, lists.tnts@, lists.reps@, lists.disps@, px, py, pz,
                (px + POWER_RADIUS + 1) as i32, scan_y_lo(py), (pz - POWER_RADIUS) as i32),
    {
        let ghost w0 = self@;
        let mut lists = ScanLists { queue: Vec::new(), lamps: Vec::new(), tnts: Vec::new(), reps: Vec::new(), disps: Vec::new() };
        let y_lo: i32 = if py - POWER_RADIUS > 0 { py - POWER_RADIUS } else { 0 };
        let y_hi: i32 = if py + POWER_RADIUS < HEIGHT - 1 { py + POWER_RADIUS } else { HEIGHT - 1 };
        let mut x = px - POWER_RADIUS;
        assert(scan_inv(w0, self@, lists.queue@, lists.lamps@, lists.tnts@, lists.reps@, lists.disps@, px, py, pz, x, y_lo,
            (pz - POWER_RADIUS) as i32)) by {
            assert(lists.lamps@.no_duplicates());
        }
        while x <= px + POWER_RADIUS
            invariant
                self.wf(),
                coord_ok(px),
                coord_ok(py),
                coord_ok(pz),
                y_lo == scan_y_lo(py),
                y_hi == scan_y_hi(py),
                px - POWER_RADIUS <= x <= px + POWER_RADIUS + 1,
                forall|k: u128| #[trigger] w0.container_fill.contains_key(k) ==> w0.container_fill[k] <= 15,
                scan_inv(w0, self@, lists.queue@, lists.lamps@, lists.tnts@, lists.reps@, lists.disps@, px, py, pz, x, y_lo,
                    (pz - POWER_RADIUS) as i32),
            decreases px + POWER_RADIUS + 1 - x,
        {
            let mut y = y_lo;
            while y <= y_hi
                invariant
                    self.wf(),
                    coord_ok(px),
                    coord_ok(py),
                    coord_ok(pz),
                    y_lo == scan_y_lo(py),
                    y_hi == scan_y_hi(py),
                    px - POWER_RADIUS <= x <= px + POWER_RADIUS,
                    y_lo <= y,
                    y <= y_hi + 1 || y == y_lo,
                    forall|k: u128| #[trigger] w0.container_fill.contains_key(k) ==> w0.container_fill[k] <= 15,
                    scan_inv(w0, self@, lists.queue@, lists.lamps@, lists.tnts@, lists.reps@, lists.disps@, px, py, pz, x, y,
                        (pz - POWER_RADIUS) as i32),
                decreases y_hi + 1 - y,
            {
                let mut z = pz - POWER_RADIUS;
                while z <= pz + POWER_RADIUS
                    invariant
                        self.wf(),
                        coord_ok(px),
                        coord_ok(py),
                        coord_ok(pz),
                        y_lo == scan_y_lo(py),
                        y_hi == scan_y_hi(py),
                        px - POWER_RADIUS <= x <= px + POWER_RADIUS,
                        y_lo <= y <= y_hi,
                        pz - POWER_RADIUS <= z <= pz + POWER_RADIUS + 1,
                        forall|k: u128| #[trigger] w0.container_fill.contains_key(k) ==> w0.container_fill[k] <= 15,
                        scan_inv(w0, self@, lists.queue@, lists.lamps@, lists.tnts@, lists.reps@, lists.disps@, px, py, pz, x, y,
                            z),
                    decreases pz + POWER_RADIUS + 1 - z,
                {
                    self.scan_cell(&mut lists, px, py, pz, x, y, z, Ghost(w0));
                    z = z + 1;
                }
                proof {
                    lemma_scan_inv_moves(w0, self@, lists.queue@, lists.lamps@, lists.tnts@, lists.reps@, lists.disps@, px, py, pz,
                        x, y, z, x, (y + 1) as i32, (pz - POWER_RADIUS) as i32);
                }
                y = y + 1;
            }
            proof {
                lemma_scan_inv_moves(w0, self@, lists.queue@, lists.lamps@, lists.tnts@, lists.reps@, lists.disps@, px, py, pz,
                    x, y, (pz - POWER_RADIUS) as i32, (x + 1) as i32, y_lo, (pz - POWER_RADIUS) as i32);
            }
            x = x + 1;
        }
        lists
    }
}

pub open spec fn is_repeater(m: Map<u64, Seq<Block>>, c: (i32, i32, i32)) -> bool {
    block_at_pos(m, c) == Block::Repeater || block_at_pos(m, c) == Block::RepeaterOn
}

/// Power after the scan's spread, relative to the scanned power `ps`:
/// levels only rose; a raised cell is a wire of level at most 15 fed by a
/// stronger neighbor, or one of the repeaters `reps` at 16, and has spread
/// its signal; so have the cells in `sources`.
pub open spec fn power_state(
    ps: Map<u128, u8>,
    p: Map<u128, u8>,
    m: Map<u64, Seq<Block>>,
    sources: Seq<((i32, i32, i32), u8)>,
    reps: Seq<(i32, i32, i32)>,
) -> bool {
    &&& forall|c: (i32, i32, i32)| level(p, c) >= #[trigger] level(ps, c)
    &&& forall|c: (i32, i32, i32)| #[trigger] level(p, c) != level(ps, c) ==> closed(p, m, c) && ((is_wire(m, c)
        && level(p, c) <= 15 && fed_by_stronger(p, c)) || (reps.contains(c) && level(p, c) == 16))
    &&& forall|i: int| 0 <= i < sources.len() ==> closed(p, m, (#[trigger] sources[i]).0)
}

/// Indices of `reps` whose cell carries no power.
pub open spec fn unfired(p: Map<u128, u8>, reps: Seq<(i32, i32, i32)>) -> nat
    decreases reps.len(),
{
    if reps.len() == 0 {
        0
    } else {
        unfired(p, reps.drop_last()) + if level(p, reps.last()) == 0 { 1nat } else { 0nat }
    }
}

proof fn lemma_unfired_mono(p: Map<u128, u8>, p2: Map<u128, u8>, reps: Seq<(i32, i32, i32)>, j: int)
    requires
        forall|c: (i32, i32, i32)| level(p2, c) >= #[trigger] level(p, c),
    ensures
        unfired(p2, reps) <= unfired(p, reps),
        0 <= j < reps.len() && level(p, reps[j]) == 0 && level(p2, reps[j]) > 0 ==> unfired(p2, reps) < unfired(p, reps),
    decreases reps.len(),
{
    if reps.len() > 0 {
        let init = reps.drop_last();
        if j == reps.len() - 1 {
            lemma_unfired_mono(p, p2, init, -1);
        } else {
            lemma_unfired_mono(p, p2, init, j);
            if 0 <= j < reps.len() {
                assert(init[j] == reps[j]);
            }
        }
        assert(level(p2, reps.last()) >= level(p, reps.last()));
    }
}

/// Raising a cell that is not a wire, and everything that then spreads from
/// it, keeps the power state.
proof fn lemma_fire(
    ps: Map<u128, u8>,
    p: Map<u128, u8>,
    p1: Map<u128, u8>,
    p2: Map<u128, u8>,
    m: Map<u64, Seq<Block>>,
    sources: Seq<((i32, i32, i32), u8)>,
    reps: Seq<(i32, i32, i32)>,
    rp: (i32, i32, i32),
)
    requires
        power_state(ps, p, m, sources, reps),
        reps.contains(rp),
        is_repeater(m, rp),
        level(p, rp) == 0,
        p1 == p.insert(coords::pos_key(rp.0, rp.1, rp.2), 16u8),
        forall|c: (i32, i32, i32)| level(p2, c) >= #[trigger] level(p1, c),
        forall|c: (i32, i32, i32)| #[trigger] level(p2, c) != level(p1, c) ==> {
            &&& block_at_pos(m, c) == Block::RedstoneWire
            &&& level(p2, c) <= 15
            &&& fed_by_stronger(p2, c)
            &&& closed(p2, m, c)
        },
        closed(p2, m, rp),
    ensures
        power_state(ps, p2, m, sources, reps),
        forall|c: (i32, i32, i32)| level(p2, c) >= #[trigger] level(p, c),
        level(p2, rp) == 16,
{
    lemma_level_insert(p, rp, 16u8);
    assert(level(p1, rp) == 16);
    assert(!is_wire(m, rp));
    assert(level(p2, rp) == 16);
    assert forall|c: (i32, i32, i32)| level(p2, c) >= #[trigger] level(p, c) by {
        assert(level(p1, c) >= level(p, c));
    }
    assert forall|c: (i32, i32, i32)| c != rp && closed(p, m, c) && level(p2, c) == level(p, c) implies closed(p2, m, c) by {
        assert forall|d: int| 0 <= d < 6 && block_at_pos(m, #[trigger] nbr(c, d)) == Block::RedstoneWire
            implies level(p2, nbr(c, d)) + 1 >= level(p2, c) by {
            assert(level(p2, nbr(c, d)) >= level(p, nbr(c, d)));
        }
    }
    assert forall|c: (i32, i32, i32)| c != rp && fed_by_stronger(p, c) && level(p2, c) == level(p, c) implies fed_by_stronger(p2, c) by {
        let d = choose|d: int| 0 <= d < 6 && level(p, #[trigger] nbr(c, d)) > level(p, c);
        assert(level(p2, nbr(c, d)) >= level(p, nbr(c, d)));
    }
    assert forall|c: (i32, i32, i32)| #[trigger] level(p2, c) != level(ps, c) implies closed(p2, m, c) && ((is_wire(m, c)
        && level(p2, c) <= 15 && fed_by_stronger(p2, c)) || (reps.contains(c) && level(p2, c) == 16)) by {
        if c != rp && level(p2, c) == level(p1, c) {
            assert(level(p1, c) == level(p, c));
        }
    }
    assert forall|i: int| 0 <= i < sources.len() implies closed(p2, m, (#[trigger] sources[i]).0) by {
        let c = sources[i].0;
        if c != rp && level(p2, c) == level(p1, c) {
            assert(level(p1, c) == level(p, c));
        }
    }
}

impl World {
    /// Whether some neighbor of `c` carries power.
    fn powered_near_at(&self, c: (i32, i32, i32)) -> (r: bool)
        ensures
            r == powered_near(self@.power, c),
    {
        let mut d: usize = 0;
        while d < 6
            invariant
                d <= 6,
                forall|j: int| 0 <= j < d ==> level(self@.power, #[trigger] nbr(c, j)) == 0,
            decreases 6 - d,
        {
            if self.level_at(nbr_of(c, d)) > 0 {
                assert(level(self@.power, nbr(c, d as int)) > 0);
                return true;
            }
            d = d + 1;
        }
        false
    }

    /// Repeaters re-emit any incoming signal at full strength: fire every
    /// unpowered repeater of `reps` that has a powered neighbor, spreading
    /// from it, until none is left to fire.
    fn fire_repeaters(
        &mut self,
        reps: &Vec<(i32, i32, i32)>,
        Ghost(ps): Ghost<Map<u128, u8>>,
        Ghost(sources): Ghost<Seq<((i32, i32, i32), u8)>>,
        Ghost(src): Ghost<spec_fn((i32, i32, i32)) -> bool>,
        Ghost(avoid): Ghost<spec_fn((i32, i32, i32)) -> bool>,
        Ghost(base): Ghost<spec_fn((i32, i32, i32)) -> u8>,
    )
        requires
            old(self).wf(),
            grounded(src, avoid, base, old(self)@.power),
            forall|c: (i32, i32, i32)| (is_wire(old(self)@.chunks, c) || is_repeater(old(self)@.chunks, c)) ==> !#[trigger] avoid(c),
            forall|i: int, d: int| 0 <= i < reps@.len() && 0 <= d < 6 && base(#[trigger] nbr(reps@[i], d)) > 0 ==> src(reps@[i]),
            power_state(ps, old(self)@.power, old(self)@.chunks, sources, reps@),
            forall|i: int| 0 <= i < reps@.len() ==> is_repeater(old(self)@.chunks, #[trigger] reps@[i]),
        ensures
            final(self).wf(),
            same_but_power(old(self)@, final(self)@),
            power_state(ps, final(self)@.power, old(self)@.chunks, sources, reps@),
            forall|c: (i32, i32, i32)| level(final(self)@.power, c) >= #[trigger] level(old(self)@.power, c),
            forall|i: int| 0 <= i < reps@.len() ==> level(final(self)@.power, #[trigger] reps@[i]) > 0
                || !powered_near(final(self)@.power, reps@[i]),
            grounded(src, avoid, base, final(self)@.power),
    {
        let ghost w0 = self@;
        let ghost m = self@.chunks;
        loop
            invariant
                self.wf(),
                self@.chunks == m,
                same_but_power(w0, self@),
                w0.chunks == m,
                power_state(ps, self@.power, m, sources, reps@),
                forall|c: (i32, i32, i32)| level(self@.power, c) >= #[trigger] level(w0.power, c),
                forall|i: int| 0 <= i < reps@.len() ==> is_repeater(m, #[trigger] reps@[i]),
                grounded(src, avoid, base, self@.power),
                forall|c: (i32, i32, i32)| (is_wire(m, c) || is_repeater(m, c)) ==> !#[trigger] avoid(c),
                forall|i: int, d: int| 0 <= i < reps@.len() && 0 <= d < 6 && base(#[trigger] nbr(reps@[i], d)) > 0 ==> src(reps@[i]),
            ensures
                grounded(src, avoid, base, self@.power),
                same_but_power(w0, self@),
                power_state(ps, self@.power, m, sources, reps@),
                forall|c: (i32, i32, i32)| level(self@.power, c) >= #[trigger] level(w0.power, c),
                forall|i: int| 0 <= i < reps@.len() ==> level(self@.power, #[trigger] reps@[i]) > 0
                    || !powered_near(self@.power, reps@[i]),
            decreases unfired(self@.power, reps@),
        {
            let ghost pass_start = self@.power;
            let mut changed = false;
            let mut i: usize = 0;
            while i < reps.len()
                invariant
                    self.wf(),
                    self@.chunks == m,
                    same_but_power(w0, self@),
                    w0.chunks == m,
                    i <= reps@.len(),
                    power_state(ps, self@.power, m, sources, reps@),
                    forall|c: (i32, i32, i32)| level(self@.power, c) >= #[trigger] level(pass_start, c),
                    forall|c: (i32, i32, i32)| level(pass_start, c) >= #[trigger] level(w0.power, c),
                    forall|j: int| 0 <= j < reps@.len() ==> is_repeater(m, #[trigger] reps@[j]),
                    grounded(src, avoid, base, self@.power),
                    forall|c: (i32, i32, i32)| (is_wire(m, c) || is_repeater(m, c)) ==> !#[trigger] avoid(c),
                    forall|i: int, d: int| 0 <= i < reps@.len() && 0 <= d < 6 && base(#[trigger] nbr(reps@[i], d)) > 0 ==> src(reps@[i]),
                    !changed ==> self@.power == pass_start,
                    changed ==> unfired(self@.power, reps@) < unfired(pass_start, reps@),
                    !changed ==> forall|j: int| 0 <= j < i ==> level(self@.power, #[trigger] reps@[j]) > 0
                        || !powered_near(self@.power, reps@[j]),
                decreases reps@.len() - i,
            {
                let rp = reps[i];
                if self.level_at(rp) == 0 && self.powered_near_at(rp) {
                    let ghost p = self@.power;
                    self.set_level(rp, 16);
                    let ghost p1 = self@.power;
                    proof {
                        lemma_level_insert(p, rp, 16u8);
                        let d = choose|d: int| 0 <= d < 6 && level(p, #[trigger] nbr(rp, d)) > 0;
                        lemma_nbr_distinct(rp, d);
                        assert(is_repeater(m, reps@[i as int]));
                        assert(level(p, nbr(rp, d)) >= base(nbr(rp, d)));
                        if level(p, nbr(rp, d)) == base(nbr(rp, d)) {
                            assert(base(nbr(reps@[i as int], d)) > 0);
                        }
                        lemma_ground_raise(src, avoid, base, p, p1, rp, 16u8, nbr(rp, d), d);
                        assert(level(p, rp) >= base(rp));
                    }
                    let mut q: Vec<((i32, i32, i32), u8)> = Vec::new();
                    q.push((rp, 16));
                    self.spread(q, Ghost(src), Ghost(avoid), Ghost(base));
                    proof {
                        assert(q@[0] == (rp, 16u8));
                        assert(reps@[i as int] == rp);
                        lemma_fire(ps, p, p1, self@.power, m, sources, reps@, rp);
                        lemma_unfired_mono(p, self@.power, reps@, i as int);
                        lemma_unfired_mono(pass_start, p, reps@, -1);
                        assert forall|c: (i32, i32, i32)| level(self@.power, c) >= #[trigger] level(pass_start, c) by {
                            assert(level(p, c) >= level(pass_start, c));
                        }
                    }
                    changed = true;
                }
                i = i + 1;
            }
            if !changed {
                break;
            }
            proof {
                assert forall|c: (i32, i32, i32)| level(self@.power, c) >= #[trigger] level(w0.power, c) by {
                    assert(level(pass_start, c) >= level(w0.power, c));
                }
            }
        }
    }
}

/// How the lamps of `lamps[..i]` were decided against power `p`, starting
/// from power `p0` and light sources `t0`: a lit lamp holds level 15, is a
/// light source and has a powered neighbor; an unlit one keeps its level, is
/// no light source, and its only powered neighbors are lamps of the list.
pub open spec fn lamps_decided(
    p0: Map<u128, u8>,
    t0: Set<u128>,
    p: Map<u128, u8>,
    t: Set<u128>,
    lamps: Seq<(i32, i32, i32)>,
    i: int,
) -> bool {
    &&& forall|j: int| 0 <= j < i ==> lamp_ok(p0, p, t, lamps, #[trigger] lamps[j])
    &&& forall|c: (i32, i32, i32)| !lamps.take(i).contains(c) ==> #[trigger] level(p, c) == level(p0, c)
        && (t.contains(coords::pos_key(c.0, c.1, c.2)) == t0.contains(coords::pos_key(c.0, c.1, c.2)))
    &&& forall|c: (i32, i32, i32)| level(p, c) >= #[trigger] level(p0, c)
}

/// A decided lamp: lit, it holds level 15, is a light source and has a
/// powered neighbor; unlit, it keeps its level, is no light source, and its
/// only powered neighbors are lamps of the list.
pub open spec fn lamp_ok(
    p0: Map<u128, u8>,
    p: Map<u128, u8>,
    t: Set<u128>,
    lamps: Seq<(i32, i32, i32)>,
    l: (i32, i32, i32),
) -> bool {
    if t.contains(coords::pos_key(l.0, l.1, l.2)) {
        level(p, l) == 15 && powered_near(p, l)
    } else {
        level(p, l) == level(p0, l) && forall|d: int| 0 <= d < 6 && level(p, #[trigger] nbr(l, d)) > 0
            ==> lamps.contains(nbr(l, d))
    }
}

/// The cells of `l` with a powered neighbor, in order.
pub open spec fn powered_cells(p: Map<u128, u8>, l: Seq<(i32, i32, i32)>) -> Seq<(i32, i32, i32)>
    decreases l.len(),
{
    if l.len() == 0 {
        Seq::empty()
    } else {
        powered_cells(p, l.drop_last()) + if powered_near(p, l.last()) { seq![l.last()] } else { Seq::empty() }
    }
}

proof fn lemma_powered_cells(p: Map<u128, u8>, l: Seq<(i32, i32, i32)>)
    requires
        l.no_duplicates(),
    ensures
        powered_cells(p, l).no_duplicates(),
        forall|c: (i32, i32, i32)| #[trigger] powered_cells(p, l).contains(c) <==> l.contains(c) && powered_near(p, c),
    decreases l.len(),
{
    if l.len() > 0 {
        let init = l.drop_last();
        assert forall|i: int, j: int| 0 <= i < init.len() && 0 <= j < init.len() && i != j implies init[i] != init[j] by {
            assert(l[i] != l[j]);
        }
        lemma_powered_cells(p, init);
        let pc = powered_cells(p, l);
        let pi = powered_cells(p, init);
        assert(!init.contains(l.last())) by {
            if init.contains(l.last()) {
                let i = choose|i: int| 0 <= i < init.len() && init[i] == l.last();
                assert(l[i] == l[l.len() - 1]);
            }
        }
        assert forall|c: (i32, i32, i32)| #[trigger] pc.contains(c) <==> l.contains(c) && powered_near(p, c) by {
            if l.contains(c) {
                let i = choose|i: int| 0 <= i < l.len() && l[i] == c;
                if i < l.len() - 1 {
                    assert(init[i] == c);
                }
            }
            if init.contains(c) {
                let i = choose|i: int| 0 <= i < init.len() && init[i] == c;
                assert(l[i] == c);
            }
            if pc.contains(c) {
                let i = choose|i: int| 0 <= i < pc.len() && pc[i] == c;
                if i < pi.len() {
                    assert(pi[i] == c);
                }
            }
            if pi.contains(c) {
                let i = choose|i: int| 0 <= i < pi.len() && pi[i] == c;
                assert(pc[i] == c);
            }
            if powered_near(p, l.last()) && c == l.last() {
                assert(pc[pi.len() as int] == c);
            }
        }
        assert forall|i: int, j: int| 0 <= i < pc.len() && 0 <= j < pc.len() && i != j implies pc[i] != pc[j] by {
            if i < pi.len() && j < pi.len() {
                assert(pi[i] != pi[j]);
            } else if i < pi.len() {
                assert(pi.contains(pc[i]));
            } else {
                assert(pi.contains(pc[j]));
            }
        }
    }
}

impl World {
    /// Light each lamp of `lamps` that has a powered neighbor (level 15, a
    /// light source); put out the others.
    fn light_lamps(&mut self, lamps: &Vec<(i32, i32, i32)>)
        requires
            lamps@.no_duplicates(),
            forall|i: int| 0 <= i < lamps@.len() ==> level(old(self)@.power, #[trigger] lamps@[i]) == 0,
        ensures
            final(self)@ == (WorldView { power: final(self)@.power, torches: final(self)@.torches, ..old(self)@ }),
            lamps_decided(old(self)@.power, old(self)@.torches, final(self)@.power, final(self)@.torches, lamps@,
                lamps@.len() as int),
    {
        let ghost w0 = self@;
        let mut i: usize = 0;
        while i < lamps.len()
            invariant
                i <= lamps@.len(),
                lamps@.no_duplicates(),
                forall|j: int| 0 <= j < lamps@.len() ==> level(w0.power, #[trigger] lamps@[j]) == 0,
                self@ == (WorldView { power: self@.power, torches: self@.torches, ..w0 }),
                lamps_decided(w0.power, w0.torches, self@.power, self@.torches, lamps@, i as int),
            decreases lamps@.len() - i,
        {
            let l = lamps[i];
            let k = pos_key_from(l.0, l.1, l.2);
            let ghost p = self@.power;
            let ghost t = self@.torches;
            assert(!lamps@.take(i as int).contains(l)) by {
                if lamps@.take(i as int).contains(l) {
                    let j = choose|j: int| 0 <= j < i && lamps@.take(i as int)[j] == l;
                    assert(lamps@[j] == lamps@[i as int]);
                }
            }
            if self.powered_near_at(l) {
                self.set_level(l, 15);
                self.torches.insert(k);
                proof {
                    lemma_level_insert(p, l, 15u8);
                    lemma_lamp_step(w0.power, w0.torches, p, t, self@.power, self@.torches, lamps@, i as int, true);
                }
            } else {
                self.torches.remove(&k);
                proof {
                    lemma_lamp_step(w0.power, w0.torches, p, t, self@.power, self@.torches, lamps@, i as int, false);
                }
            }
            i = i + 1;
        }
        assert(lamps@.take(i as int) =~= lamps@);
    }
}

#[verifier::spinoff_prover]
proof fn lemma_lamp_step(
    p0: Map<u128, u8>,
    t0: Set<u128>,
    p: Map<u128, u8>,
    t: Set<u128>,
    p2: Map<u128, u8>,
    t2: Set<u128>,
    lamps: Seq<(i32, i32, i32)>,
    i: int,
    lit: bool,
)
    requires
        0 <= i < lamps.len(),
        lamps.no_duplicates(),
        lamps_decided(p0, t0, p, t, lamps, i),
        !lamps.take(i).contains(lamps[i]),
        lit ==> powered_near(p, lamps[i]),
        !lit ==> !powered_near(p, lamps[i]),
        lit ==> p2 == p.insert(coords::pos_key(lamps[i].0, lamps[i].1, lamps[i].2), 15u8)
            && t2 == t.insert(coords::pos_key(lamps[i].0, lamps[i].1, lamps[i].2)),
        !lit ==> p2 == p && t2 == t.remove(coords::pos_key(lamps[i].0, lamps[i].1, lamps[i].2)),
        level(p0, lamps[i]) == 0,
    ensures
        lamps_decided(p0, t0, p2, t2, lamps, i + 1),
{
    let l = lamps[i];
    let k = coords::pos_key(l.0, l.1, l.2);
    lemma_level_insert(p, l, 15u8);
    assert forall|c: (i32, i32, i32)| c != l implies #[trigger] level(p2, c) == level(p, c)
        && (t2.contains(coords::pos_key(c.0, c.1, c.2)) == t.contains(coords::pos_key(c.0, c.1, c.2))) by {
        if coords::pos_key(c.0, c.1, c.2) == k {
            assert(c == l);
        }
    }
    assert(level(p, l) == level(p0, l));
    assert forall|c: (i32, i32, i32)| level(p2, c) >= #[trigger] level(p0, c) by {
        assert(level(p, c) >= level(p0, c));
        if c != l {
            assert(level(p2, c) == level(p, c));
        }
    }
    assert forall|c: (i32, i32, i32)| !lamps.take(i + 1).contains(c) implies #[trigger] level(p2, c) == level(p0, c)
        && (t2.contains(coords::pos_key(c.0, c.1, c.2)) == t0.contains(coords::pos_key(c.0, c.1, c.2))) by {
        assert(lamps.take(i + 1)[i] == l);
        if c == l {
            assert(lamps.take(i + 1).contains(l));
        } else {
            if lamps.take(i).contains(c) {
                let j = choose|j: int| 0 <= j < i && lamps.take(i)[j] == c;
                assert(lamps.take(i + 1)[j] == c);
            }
            assert(!lamps.take(i).contains(c));
            assert(level(p2, c) == level(p, c));
        }
    }
    lemma_lamp_step_decided(p0, t0, p, t, p2, t2, lamps, i, lit);
    let i1 = i + 1;
    assert(forall|j: int| 0 <= j < i1 ==> lamp_ok(p0, p2, t2, lamps, #[trigger] lamps[j]));
    assert(forall|c: (i32, i32, i32)| !lamps.take(i1).contains(c) ==> #[trigger] level(p2, c) == level(p0, c)
        && (t2.contains(coords::pos_key(c.0, c.1, c.2)) == t0.contains(coords::pos_key(c.0, c.1, c.2))));
    assert(forall|c: (i32, i32, i32)| level(p2, c) >= #[trigger] level(p0, c));
    assert(lamps_decided(p0, t0, p2, t2, lamps, i1));
}

#[verifier::spinoff_prover]
proof fn lemma_lamp_step_decided(
    p0: Map<u128, u8>,
    t0: Set<u128>,
    p: Map<u128, u8>,
    t: Set<u128>,
    p2: Map<u128, u8>,
    t2: Set<u128>,
    lamps: Seq<(i32, i32, i32)>,
    i: int,
    lit: bool,
)
    requires
        0 <= i < lamps.len(),
        lamps.no_duplicates(),
        lamps_decided(p0, t0, p, t, lamps, i),
        !lamps.take(i).contains(lamps[i]),
        lit ==> powered_near(p, lamps[i]),
        !lit ==> !powered_near(p, lamps[i]),
        lit ==> p2 == p.insert(coords::pos_key(lamps[i].0, lamps[i].1, lamps[i].2), 15u8)
            && t2 == t.insert(coords::pos_key(lamps[i].0, lamps[i].1, lamps[i].2)),
        !lit ==> p2 == p && t2 == t.remove(coords::pos_key(lamps[i].0, lamps[i].1, lamps[i].2)),
        level(p0, lamps[i]) == 0,
    ensures
        forall|j: int| 0 <= j < i + 1 ==> lamp_ok(p0, p2, t2, lamps, #[trigger] lamps[j]),
{
    let l = lamps[i];
    let k = coords::pos_key(l.0, l.1, l.2);
    lemma_level_insert(p, l, 15u8);
    assert forall|c: (i32, i32, i32)| c != l implies #[trigger] level(p2, c) == level(p, c)
        && (t2.contains(coords::pos_key(c.0, c.1, c.2)) == t.contains(coords::pos_key(c.0, c.1, c.2))) by {
        if coords::pos_key(c.0, c.1, c.2) == k {
            assert(c == l);
        }
    }
    assert forall|j: int| 0 <= j < i + 1 implies lamp_ok(p0, p2, t2, lamps, #[trigger] lamps[j]) by {
        let lj = lamps[j];
        if j < i {
            assert(lamp_ok(p0, p, t, lamps, lj));
            assert(lj != l);
            assert(level(p2, lj) == level(p, lj));
            if t.contains(coords::pos_key(lj.0, lj.1, lj.2)) {
                let d = choose|d: int| 0 <= d < 6 && level(p, #[trigger] nbr(lj, d)) > 0;
                assert(level(p2, nbr(lj, d)) >= level(p, nbr(lj, d)));
            } else {
                assert forall|d: int| 0 <= d < 6 && level(p2, #[trigger] nbr(lj, d)) > 0 implies lamps.contains(nbr(lj, d)) by {
                    if nbr(lj, d) == l {
                        assert(lamps[i] == l);
                    } else {
                        assert(level(p2, nbr(lj, d)) == level(p, nbr(lj, d)));
                    }
                }
            }
        } else {
            assert(lj == l);
            assert(!lamps.take(i).contains(l));
            if lit {
                let d = choose|d: int| 0 <= d < 6 && level(p, #[trigger] nbr(l, d)) > 0;
                lemma_nbr_distinct(l, d);
                assert(level(p2, nbr(l, d)) == level(p, nbr(l, d)));
            } else {
                assert forall|d: int| 0 <= d < 6 && level(p2, #[trigger] nbr(l, d)) > 0 implies lamps.contains(nbr(l, d)) by {
                    assert(level(p, nbr(l, d)) == 0);
                }
            }
        }
    }
}

impl World {
    /// Queue every cell of `cells` that has a powered neighbor: TNT to
    /// ignite (`dispense` false) or dispensers to fire (`dispense` true).
    fn queue_powered(&mut self, cells: &Vec<(i32, i32, i32)>, dispense: bool)
        ensures
            !dispense ==> final(self)@ == (WorldView {
                pending_tnt: old(self)@.pending_tnt + powered_cells(old(self)@.power, cells@),
                ..old(self)@
            }),
            dispense ==> final(self)@ == (WorldView {
                pending_dispense: old(self)@.pending_dispense + powered_cells(old(self)@.power, cells@),
                ..old(self)@
            }),
    {
        let ghost w0 = self@;
        let mut i: usize = 0;
        while i < cells.len()
            invariant
                i <= cells@.len(),
                !dispense ==> self@ == (WorldView { pending_tnt: w0.pending_tnt + powered_cells(w0.power, cells@.take(i as int)), ..w0 }),
                dispense ==> self@ == (WorldView {
                    pending_dispense: w0.pending_dispense + powered_cells(w0.power, cells@.take(i as int)),
                    ..w0
                }),
            decreases cells@.len() - i,
        {
            let c = cells[i];
            assert(cells@.take(i + 1).drop_last() =~= cells@.take(i as int));
            if self.powered_near_at(c) {
                if dispense {
                    self.pending_dispense.push(c);
                } else {
                    self.pending_tnt.push(c);
                }
            }
            proof {
                let a = powered_cells(w0.power, cells@.take(i as int));
                let b = powered_cells(w0.power, cells@.take(i + 1));
                if dispense {
                    assert(self@.pending_dispense =~= w0.pending_dispense + b);
                } else {
                    assert(self@.pending_tnt =~= w0.pending_tnt + b);
                }
            }
            i = i + 1;
        }
        assert(cells@.take(i as int) =~= cells@);
    }

    /// Mark for rebuilding every loaded chunk that the cube around `(px, _, pz)` touches.
    fn mark_cube_dirty(&mut self, px: i32, pz: i32)
        requires
            coord_ok(px),
            coord_ok(pz),
        ensures
            final(self)@ == (WorldView { dirty: final(self)@.dirty, ..old(self)@ }),
            forall|cx: i32, cz: i32| #[trigger] final(self)@.dirty.contains(coords::chunk_key(cx, cz))
                == (old(self)@.dirty.contains(coords::chunk_key(cx, cz)) || (old(self)@.chunks.contains_key(coords::chunk_key(cx, cz))
                && coords::chunk_of((px - POWER_RADIUS) as i32) <= cx <= coords::chunk_of((px + POWER_RADIUS) as i32)
                && coords::chunk_of((pz - POWER_RADIUS) as i32) <= cz <= coords::chunk_of((pz + POWER_RADIUS) as i32))),
    {
        let ghost w0 = self@;
        let cx0 = (px - POWER_RADIUS) >> 4;
        let cx1 = (px + POWER_RADIUS) >> 4;
        let cz0 = (pz - POWER_RADIUS) >> 4;
        let cz1 = (pz + POWER_RADIUS) >> 4;
        assert(cx0 <= cx1 && cz0 <= cz1) by {
            let a = (px - POWER_RADIUS) as i32;
            let b = (px + POWER_RADIUS) as i32;
            let e = (pz - POWER_RADIUS) as i32;
            let f = (pz + POWER_RADIUS) as i32;
            assert(a <= b ==> (a >> 4i32) <= (b >> 4i32)) by (bit_vector);
            assert(e <= f ==> (e >> 4i32) <= (f >> 4i32)) by (bit_vector);
        }
        assert(cx1 < i32::MAX && cz1 < i32::MAX) by {
            let b = (px + POWER_RADIUS) as i32;
            let f = (pz + POWER_RADIUS) as i32;
            assert((b >> 4i32) < 0x7fff_ffff && (f >> 4i32) < 0x7fff_ffff) by (bit_vector);
        }
        let mut cx = cx0;
        while cx <= cx1
            invariant
                cx0 <= cx <= cx1 + 1,
                cz0 <= cz1,
                cx1 < i32::MAX,
                cz1 < i32::MAX,
                self@ == (WorldView { dirty: self@.dirty, ..w0 }),
                forall|a: i32, b: i32| #[trigger] self@.dirty.contains(coords::chunk_key(a, b))
                    == (w0.dirty.contains(coords::chunk_key(a, b)) || (w0.chunks.contains_key(coords::chunk_key(a, b))
                    && cx0 <= a < cx && cz0 <= b <= cz1)),
            decreases cx1 + 1 - cx,
        {
            let mut cz = cz0;
            while cz <= cz1
                invariant
                    cx0 <= cx <= cx1,
                    cz0 <= cz <= cz1 + 1,
                    cz1 < i32::MAX,
                    self@ == (WorldView { dirty: self@.dirty, ..w0 }),
                    forall|a: i32, b: i32| #[trigger] self@.dirty.contains(coords::chunk_key(a, b))
                        == (w0.dirty.contains(coords::chunk_key(a, b)) || (w0.chunks.contains_key(coords::chunk_key(a, b))
                        && ((cx0 <= a < cx && cz0 <= b <= cz1) || (a == cx && cz0 <= b < cz)))),
                decreases cz1 + 1 - cz,
            {
                let key = chunk_key_of(cx, cz);
                if self.chunks.contains_key(&key) {
                    self.dirty.insert(key);
                }
                proof {
                    assert forall|a: i32, b: i32| coords::chunk_key(a, b) == key implies a == cx && b == cz by {}
                }
                cz = cz + 1;
            }
            cx = cx + 1;
        }
    }
}

/// A redstone lamp among the cells a recompute looks at.
pub open spec fn lamp_in_scan(o: WorldView, c: (i32, i32, i32), px: i32, py: i32, pz: i32) -> bool {
    in_scan(c, px, py, pz) && block_at_pos(o.chunks, c) == Block::RedstoneLamp
}

/// Where a recompute's power starts: the emitters of the scan, and the
/// repeaters of the scan next to a cell outside the cleared cube that
/// already carries power (a repeater takes any neighbor's signal).
pub open spec fn power_source(o: WorldView, px: i32, py: i32, pz: i32) -> spec_fn((i32, i32, i32)) -> bool {
    |c: (i32, i32, i32)| in_scan(c, px, py, pz) && (emit_level(o, c) is Some || (is_repeater(o.chunks, c) && exists|d: int|
        0 <= d < 6 && !in_cube(#[trigger] nbr(c, d), px, py, pz) && level(o.power, nbr(c, d)) > 0))
}

/// The power a cell has before a recompute adds any: none inside the
/// cleared cube, its stored level outside it.
pub open spec fn prior_level(o: WorldView, px: i32, py: i32, pz: i32) -> spec_fn((i32, i32, i32)) -> u8 {
    |c: (i32, i32, i32)| if in_cube(c, px, py, pz) { 0u8 } else { level(o.power, c) }
}

/// The lamps of the scan, which take power last and pass none on.
pub open spec fn scan_lamps(o: WorldView, px: i32, py: i32, pz: i32) -> spec_fn((i32, i32, i32)) -> bool {
    |c: (i32, i32, i32)| lamp_in_scan(o, c, px, py, pz)
}

/// A neighbor other than a lamp of the scan carries a stronger signal.
pub open spec fn fed_by_stronger_unlit(o: WorldView, p: Map<u128, u8>, c: (i32, i32, i32), px: i32, py: i32, pz: i32) -> bool {
    exists|d: int| 0 <= d < 6 && level(p, #[trigger] nbr(c, d)) > level(p, c) && !lamp_in_scan(o, nbr(c, d), px, py, pz)
}

/// The power a recompute around `(px, py, pz)` leaves (`f`), given the
/// state before it (`o`).
pub open spec fn recompute_power_post(o: WorldView, f: WorldView, px: i32, py: i32, pz: i32) -> bool {
    let m = o.chunks;
    &&& forall|c: (i32, i32, i32)| !in_cube(c, px, py, pz) ==> #[trigger] level(f.power, c) >= level(o.power, c)
        && (!is_wire(m, c) ==> level(f.power, c) == level(o.power, c))
    &&& forall|c: (i32, i32, i32)| in_cube(c, px, py, pz) && #[trigger] level(f.power, c) > 0 ==> in_scan(c, px, py, pz)
        && (emit_level(o, c) is Some || is_wire(m, c) || is_repeater(m, c) || block_at_pos(m, c) == Block::RedstoneLamp)
    &&& forall|c: (i32, i32, i32)| in_scan(c, px, py, pz) && #[trigger] emit_level(o, c) is Some ==> level(f.power, c)
        == emit_level(o, c)->0
    &&& forall|c: (i32, i32, i32)| ((in_scan(c, px, py, pz) && block_at_pos(m, c) != Block::RedstoneLamp) || (!in_cube(
        c,
        px,
        py,
        pz,
    ) && level(f.power, c) != level(o.power, c))) ==> #[trigger] closed(f.power, m, c)
    &&& forall|c: (i32, i32, i32)| is_wire(m, c) && #[trigger] level(f.power, c) > 0 && (in_scan(c, px, py, pz) || level(
        f.power,
        c,
    ) != level(o.power, c)) ==> level(f.power, c) <= 15 && fed_by_stronger_unlit(o, f.power, c, px, py, pz)
    &&& forall|c: (i32, i32, i32)| #[trigger] level(f.power, c) > prior_level(o, px, py, pz)(c) && !lamp_in_scan(o, c, px, py, pz)
        ==> reachable(power_source(o, px, py, pz), scan_lamps(o, px, py, pz), prior_level(o, px, py, pz), f.power, c)
    &&& forall|c: (i32, i32, i32)| in_scan(c, px, py, pz) && #[trigger] is_repeater(m, c) ==> level(f.power, c) == 16 || (
    level(f.power, c) == 0 && forall|d: int| 0 <= d < 6 && level(f.power, #[trigger] nbr(c, d)) > 0 ==> lamp_in_scan(
        o,
        nbr(c, d),
        px,
        py,
        pz,
    ))
    &&& forall|c: (i32, i32, i32)| #[trigger] lamp_in_scan(o, c, px, py, pz) ==> if f.torches.contains(
        coords::pos_key(c.0, c.1, c.2),
    ) {
        level(f.power, c) == 15 && powered_near(f.power, c)
    } else {
        level(f.power, c) == 0 && forall|d: int| 0 <= d < 6 && level(f.power, #[trigger] nbr(c, d)) > 0 ==> lamp_in_scan(
            o,
            nbr(c, d),
            px,
            py,
            pz,
        )
    }
    &&& forall|c: (i32, i32, i32)| !#[trigger] lamp_in_scan(o, c, px, py, pz) ==> (f.torches.contains(
        coords::pos_key(c.0, c.1, c.2),
    ) == o.torches.contains(coords::pos_key(c.0, c.1, c.2)))
}

/// What a recompute appends to a pending list: each scanned cell with block
/// `b` and a powered neighbor, once.
pub open spec fn appended_powered(
    before: Seq<(i32, i32, i32)>,
    after: Seq<(i32, i32, i32)>,
    o: WorldView,
    p: Map<u128, u8>,
    b: Block,
    px: i32,
    py: i32,
    pz: i32,
) -> bool {
    &&& after.len() >= before.len()
    &&& after.subrange(0, before.len() as int) == before
    &&& after.subrange(before.len() as int, after.len() as int).no_duplicates()
    &&& forall|c: (i32, i32, i32)| #[trigger] after.subrange(before.len() as int, after.len() as int).contains(c) <==> in_scan(
        c,
        px,
        py,
        pz,
    ) && block_at_pos(o.chunks, c) == b && powered_near(p, c)
}

/// Everything a recompute around `(px, py, pz)` does.
pub open spec fn recompute_post(o: WorldView, f: WorldView, px: i32, py: i32, pz: i32) -> bool {
    &&& f == (WorldView {
        power: f.power,
        torches: f.torches,
        pending_tnt: f.pending_tnt,
        pending_dispense: f.pending_dispense,
        dirty: f.dirty,
        ..o
    })
    &&& recompute_power_post(o, f, px, py, pz)
    &&& appended_powered(o.pending_tnt, f.pending_tnt, o, f.power, Block::Tnt, px, py, pz)
    &&& appended_powered(o.pending_dispense, f.pending_dispense, o, f.power, Block::Dispenser, px, py, pz)
    &&& forall|cx: i32, cz: i32| #[trigger] f.dirty.contains(coords::chunk_key(cx, cz)) == (o.dirty.contains(
        coords::chunk_key(cx, cz),
    ) || (o.chunks.contains_key(coords::chunk_key(cx, cz)) && coords::chunk_of((px - POWER_RADIUS) as i32) <= cx
        <= coords::chunk_of((px + POWER_RADIUS) as i32) && coords::chunk_of((pz - POWER_RADIUS) as i32) <= cz
        <= coords::chunk_of((pz + POWER_RADIUS) as i32)))
}

proof fn lemma_scan_complete(px: i32, py: i32, pz: i32)
    requires
        coord_ok(px),
        coord_ok(py),
        coord_ok(pz),
    ensures
        forall|c: (i32, i32, i32)| #[trigger] scanned_before(c, px, py, pz, (px + POWER_RADIUS + 1) as i32, scan_y_lo(py), (pz - POWER_RADIUS) as i32)
            == in_scan(c, px, py, pz),
        forall|c: (i32, i32, i32)| #[trigger] in_scan(c, px, py, pz) ==> in_cube(c, px, py, pz),
        forall|c: (i32, i32, i32)| #[trigger] in_cube(c, px, py, pz) && !in_scan(c, px, py, pz) ==> !(0 <= c.1 < HEIGHT),
{
}

proof fn lemma_emit_bound(o: WorldView, c: (i32, i32, i32))
    requires
        forall|k: u128| #[trigger] o.container_fill.contains_key(k) ==> o.container_fill[k] <= 15,
    ensures
        emit_level(o, c) matches Some(v) ==> 1 <= v <= 16,
        emit_level(o, c) is Some ==> !is_wire(o.chunks, c) && !is_repeater(o.chunks, c)
            && block_at_pos(o.chunks, c) != Block::RedstoneLamp,
{
    let cf = o.container_fill;
    assert(fill_at(cf, nbr(c, 0)) <= 15 && fill_at(cf, nbr(c, 1)) <= 15 && fill_at(cf, nbr(c, 2)) <= 15);
    assert(fill_at(cf, nbr(c, 3)) <= 15 && fill_at(cf, nbr(c, 4)) <= 15 && fill_at(cf, nbr(c, 5)) <= 15);
}

/// What the phases of a recompute leave, in the terms its result is stated
/// in: `p1` after clearing, `ps` after scanning, `p4` after spreading and
/// firing repeaters, `w5` after the lamps.
pub open spec fn rc_facts(
    o: WorldView,
    p1: Map<u128, u8>,
    ps: Map<u128, u8>,
    p4: Map<u128, u8>,
    w5: WorldView,
    q: Seq<((i32, i32, i32), u8)>,
    lamps: Seq<(i32, i32, i32)>,
    reps: Seq<(i32, i32, i32)>,
    px: i32,
    py: i32,
    pz: i32,
) -> bool {
    let m = o.chunks;
    &&& coord_ok(px) && coord_ok(py) && coord_ok(pz)
    &&& forall|k: u128| #[trigger] o.container_fill.contains_key(k) ==> o.container_fill[k] <= 15
    &&& forall|c: (i32, i32, i32)| #[trigger] level(p1, c) == if in_cube(c, px, py, pz) { 0 } else { level(o.power, c) }
    &&& forall|c: (i32, i32, i32)| #[trigger] level(ps, c) == if in_scan(c, px, py, pz) && emit_level(o, c) is Some {
        emit_level(o, c)->0
    } else {
        level(p1, c)
    }
    &&& forall|c: (i32, i32, i32)| in_scan(c, px, py, pz) && #[trigger] emit_level(o, c) is Some ==> in_init(q, c)
    &&& power_state(ps, p4, m, q, reps)
    &&& grounded(power_source(o, px, py, pz), scan_lamps(o, px, py, pz), prior_level(o, px, py, pz), p4)
    &&& forall|i: int| 0 <= i < reps.len() ==> level(p4, #[trigger] reps[i]) > 0 || !powered_near(p4, reps[i])
    &&& forall|c: (i32, i32, i32)| #[trigger] reps.contains(c) ==> in_scan(c, px, py, pz) && is_repeater(m, c)
    &&& forall|c: (i32, i32, i32)| in_scan(c, px, py, pz) && #[trigger] is_repeater(m, c) ==> reps.contains(c)
    &&& forall|c: (i32, i32, i32)| #[trigger] lamps.contains(c) <==> lamp_in_scan(o, c, px, py, pz)
    &&& w5 == (WorldView { power: w5.power, torches: w5.torches, ..o })
    &&& forall|j: int| 0 <= j < lamps.len() ==> lamp_ok(p4, w5.power, w5.torches, lamps, #[trigger] lamps[j])
    &&& forall|c: (i32, i32, i32)| !lamps.contains(c) ==> #[trigger] level(w5.power, c) == level(p4, c)
        && (w5.torches.contains(coords::pos_key(c.0, c.1, c.2)) == o.torches.contains(coords::pos_key(c.0, c.1, c.2)))
    &&& forall|c: (i32, i32, i32)| level(w5.power, c) >= #[trigger] level(p4, c)
    &&& forall|c: (i32, i32, i32)| #[trigger] in_scan(c, px, py, pz) ==> in_cube(c, px, py, pz)
    &&& forall|c: (i32, i32, i32)| #[trigger] in_cube(c, px, py, pz) && !in_scan(c, px, py, pz) ==> !(0 <= c.1 < HEIGHT)
}

#[verifier::spinoff_prover]
proof fn lemma_rc_facts(
    o: WorldView,
    p1: Map<u128, u8>,
    w2: WorldView,
    p4: Map<u128, u8>,
    w5: WorldView,
    q: Seq<((i32, i32, i32), u8)>,
    lamps: Seq<(i32, i32, i32)>,
    tnts: Seq<(i32, i32, i32)>,
    reps: Seq<(i32, i32, i32)>,
    disps: Seq<(i32, i32, i32)>,
    px: i32,
    py: i32,
    pz: i32,
)
    requires
        coord_ok(px),
        coord_ok(py),
        coord_ok(pz),
        forall|k: u128| #[trigger] o.container_fill.contains_key(k) ==> o.container_fill[k] <= 15,
        forall|c: (i32, i32, i32)| #[trigger] level(p1, c) == if in_cube(c, px, py, pz) { 0 } else { level(o.power, c) },
        scan_inv((WorldView { power: p1, ..o }), w2, q, lamps, tnts, reps, disps, px, py, pz, (px + POWER_RADIUS + 1) as i32,
            scan_y_lo(py), (pz - POWER_RADIUS) as i32),
        power_state(w2.power, p4, o.chunks, q, reps),
        grounded(power_source(o, px, py, pz), scan_lamps(o, px, py, pz), prior_level(o, px, py, pz), p4),
        forall|i: int| 0 <= i < reps.len() ==> level(p4, #[trigger] reps[i]) > 0 || !powered_near(p4, reps[i]),
        w5 == (WorldView { power: w5.power, torches: w5.torches, ..o }),
        lamps_decided(p4, o.torches, w5.power, w5.torches, lamps, lamps.len() as int),
    ensures
        rc_facts(o, p1, w2.power, p4, w5, q, lamps, reps, px, py, pz),
{
    let m = o.chunks;
    let w1 = WorldView { power: p1, ..o };
    let xe = (px + POWER_RADIUS + 1) as i32;
    let ys = scan_y_lo(py);
    let zs = (pz - POWER_RADIUS) as i32;
    lemma_scan_complete(px, py, pz);
    assert(lamps.take(lamps.len() as int) =~= lamps);
    assert forall|c: (i32, i32, i32)| #[trigger] level(w2.power, c) == if in_scan(c, px, py, pz) && emit_level(o, c) is Some {
        emit_level(o, c)->0
    } else {
        level(p1, c)
    } by {
        assert(emit_level(w1, c) == emit_level(o, c));
        assert(scanned_before(c, px, py, pz, xe, ys, zs) == in_scan(c, px, py, pz));
    }
    assert forall|c: (i32, i32, i32)| in_scan(c, px, py, pz) && #[trigger] emit_level(o, c) is Some implies in_init(q, c) by {
        assert(emit_level(w1, c) == emit_level(o, c));
        assert(scanned_before(c, px, py, pz, xe, ys, zs));
    }
    assert forall|c: (i32, i32, i32)| #[trigger] reps.contains(c) implies in_scan(c, px, py, pz) && is_repeater(m, c) by {
        let i = choose|i: int| 0 <= i < reps.len() && reps[i] == c;
        assert(scanned_before(reps[i], px, py, pz, xe, ys, zs));
    }
    assert forall|c: (i32, i32, i32)| in_scan(c, px, py, pz) && #[trigger] is_repeater(m, c) implies reps.contains(c) by {
        assert(scanned_before(c, px, py, pz, xe, ys, zs));
        assert(kind_match(2, block_at_pos(m, c)));
    }
    assert forall|c: (i32, i32, i32)| #[trigger] lamps.contains(c) <==> lamp_in_scan(o, c, px, py, pz) by {
        if lamps.contains(c) {
            let i = choose|i: int| 0 <= i < lamps.len() && lamps[i] == c;
            assert(scanned_before(lamps[i], px, py, pz, xe, ys, zs));
        }
        if lamp_in_scan(o, c, px, py, pz) {
            assert(scanned_before(c, px, py, pz, xe, ys, zs));
            assert(kind_match(0, block_at_pos(m, c)));
        }
    }
}

/// After the scan, every powered cell is a source and no lamp of the scan
/// carries power.
proof fn lemma_scan_grounded(
    o: WorldView,
    p1: Map<u128, u8>,
    w2: WorldView,
    q: Seq<((i32, i32, i32), u8)>,
    lamps: Seq<(i32, i32, i32)>,
    tnts: Seq<(i32, i32, i32)>,
    reps: Seq<(i32, i32, i32)>,
    disps: Seq<(i32, i32, i32)>,
    px: i32,
    py: i32,
    pz: i32,
)
    requires
        coord_ok(px),
        coord_ok(py),
        coord_ok(pz),
        forall|k: u128| #[trigger] o.container_fill.contains_key(k) ==> o.container_fill[k] <= 15,
        forall|c: (i32, i32, i32)| #[trigger] level(p1, c) == if in_cube(c, px, py, pz) { 0 } else { level(o.power, c) },
        scan_inv((WorldView { power: p1, ..o }), w2, q, lamps, tnts, reps, disps, px, py, pz, (px + POWER_RADIUS + 1) as i32,
            scan_y_lo(py), (pz - POWER_RADIUS) as i32),
    ensures
        grounded(power_source(o, px, py, pz), scan_lamps(o, px, py, pz), prior_level(o, px, py, pz), w2.power),
        forall|c: (i32, i32, i32)| (is_wire(o.chunks, c) || is_repeater(o.chunks, c)) ==> !#[trigger] scan_lamps(o, px, py, pz)(c),
        forall|i: int| 0 <= i < q.len() ==> level(w2.power, (#[trigger] q[i]).0) > prior_level(o, px, py, pz)(q[i].0),
        forall|i: int, d: int| 0 <= i < reps.len() && 0 <= d < 6 && prior_level(o, px, py, pz)(#[trigger] nbr(reps[i], d)) > 0
            ==> power_source(o, px, py, pz)(reps[i]),
{
    let w1 = WorldView { power: p1, ..o };
    let xe = (px + POWER_RADIUS + 1) as i32;
    let ys = scan_y_lo(py);
    let zs = (pz - POWER_RADIUS) as i32;
    let src = power_source(o, px, py, pz);
    let avoid = scan_lamps(o, px, py, pz);
    let base = prior_level(o, px, py, pz);
    lemma_scan_complete(px, py, pz);
    assert forall|c: (i32, i32, i32)| #[trigger] level(w2.power, c) == if in_scan(c, px, py, pz) && emit_level(o, c) is Some {
        emit_level(o, c)->0
    } else {
        level(p1, c)
    } by {
        assert(emit_level(w1, c) == emit_level(o, c));
        assert(scanned_before(c, px, py, pz, xe, ys, zs) == in_scan(c, px, py, pz));
    }
    assert forall|c: (i32, i32, i32)| #[trigger] level(w2.power, c) >= base(c) by {
        lemma_emit_bound(o, c);
    }
    assert forall|c: (i32, i32, i32)| avoid(c) implies #[trigger] level(w2.power, c) == base(c) by {
        lemma_emit_bound(o, c);
    }
    assert forall|c: (i32, i32, i32)| #[trigger] level(w2.power, c) > base(c) implies reachable(src, avoid, base, w2.power, c) by {
        lemma_emit_bound(o, c);
        assert(src(c));
        assert(!avoid(c));
        assert(reached(src, avoid, base, w2.power, c, 0));
    }
    assert forall|i: int| 0 <= i < q.len() implies level(w2.power, (#[trigger] q[i]).0) > base(q[i].0) by {
        let c = q[i].0;
        assert(scanned_before(c, px, py, pz, xe, ys, zs));
        assert(emit_level(w1, c) == emit_level(o, c));
        lemma_emit_bound(o, c);
    }
    assert forall|i: int, d: int| 0 <= i < reps.len() && 0 <= d < 6 && base(#[trigger] nbr(reps[i], d)) > 0 implies src(reps[i]) by {
        let c = reps[i];
        assert(scanned_before(c, px, py, pz, xe, ys, zs));
        assert(kind_match(2, block_at_pos(o.chunks, c)));
        assert(!in_cube(nbr(c, d), px, py, pz) && level(o.power, nbr(c, d)) > 0);
    }
}

proof fn lemma_rc_outside(o: WorldView, p1: Map<u128, u8>, ps: Map<u128, u8>, p4: Map<u128, u8>, w5: WorldView,
    q: Seq<((i32, i32, i32), u8)>, lamps: Seq<(i32, i32, i32)>, reps: Seq<(i32, i32, i32)>, px: i32, py: i32, pz: i32)
    requires
        rc_facts(o, p1, ps, p4, w5, q, lamps, reps, px, py, pz),
    ensures
        forall|c: (i32, i32, i32)| !in_cube(c, px, py, pz) ==> #[trigger] level(w5.power, c) >= level(o.power, c)
            && (!is_wire(o.chunks, c) ==> level(w5.power, c) == level(o.power, c)),
        forall|c: (i32, i32, i32)| in_cube(c, px, py, pz) && #[trigger] level(w5.power, c) > 0 ==> in_scan(c, px, py, pz)
            && (emit_level(o, c) is Some || is_wire(o.chunks, c) || is_repeater(o.chunks, c) || block_at_pos(o.chunks, c)
            == Block::RedstoneLamp),
{
    assert forall|c: (i32, i32, i32)| !in_cube(c, px, py, pz) implies #[trigger] level(w5.power, c) >= level(o.power, c)
        && (!is_wire(o.chunks, c) ==> level(w5.power, c) == level(o.power, c)) by {
        assert(!in_scan(c, px, py, pz));
        assert(!lamps.contains(c));
        assert(level(ps, c) == level(o.power, c));
        assert(level(p4, c) >= level(ps, c));
        if reps.contains(c) {
            assert(in_scan(c, px, py, pz));
        }
    }
    assert forall|c: (i32, i32, i32)| in_cube(c, px, py, pz) && #[trigger] level(w5.power, c) > 0 implies in_scan(c, px, py, pz)
        && (emit_level(o, c) is Some || is_wire(o.chunks, c) || is_repeater(o.chunks, c) || block_at_pos(o.chunks, c)
        == Block::RedstoneLamp) by {
        if lamps.contains(c) {
            assert(lamp_in_scan(o, c, px, py, pz));
        } else {
            assert(level(w5.power, c) == level(p4, c));
            if level(p4, c) == level(ps, c) {
                assert(level(p1, c) == 0);
            } else if reps.contains(c) {
            } else {
                assert(is_wire(o.chunks, c));
                if !in_scan(c, px, py, pz) {
                    assert(!(0 <= c.1 < HEIGHT));
                }
            }
        }
    }
}

proof fn lemma_rc_emitters(o: WorldView, p1: Map<u128, u8>, ps: Map<u128, u8>, p4: Map<u128, u8>, w5: WorldView,
    q: Seq<((i32, i32, i32), u8)>, lamps: Seq<(i32, i32, i32)>, reps: Seq<(i32, i32, i32)>, px: i32, py: i32, pz: i32)
    requires
        rc_facts(o, p1, ps, p4, w5, q, lamps, reps, px, py, pz),
    ensures
        forall|c: (i32, i32, i32)| in_scan(c, px, py, pz) && #[trigger] emit_level(o, c) is Some ==> level(w5.power, c)
            == emit_level(o, c)->0,
        forall|c: (i32, i32, i32)| ((in_scan(c, px, py, pz) && block_at_pos(o.chunks, c) != Block::RedstoneLamp) || (!in_cube(
            c,
            px,
            py,
            pz,
        ) && level(w5.power, c) != level(o.power, c))) ==> #[trigger] closed(w5.power, o.chunks, c),
{
    let m = o.chunks;
    let p5 = w5.power;
    assert forall|c: (i32, i32, i32)| in_scan(c, px, py, pz) && #[trigger] emit_level(o, c) is Some implies level(p5, c)
        == emit_level(o, c)->0 by {
        lemma_emit_bound(o, c);
        assert(!lamp_in_scan(o, c, px, py, pz));
        if reps.contains(c) {
            assert(is_repeater(m, c));
        }
        assert(level(p4, c) == level(ps, c));
    }
    assert forall|c: (i32, i32, i32)| !lamps.contains(c) && closed(p4, m, c) implies #[trigger] closed(p5, m, c) by {
        assert forall|d: int| 0 <= d < 6 && block_at_pos(m, #[trigger] nbr(c, d)) == Block::RedstoneWire
            implies level(p5, nbr(c, d)) + 1 >= level(p5, c) by {
            assert(!lamp_in_scan(o, nbr(c, d), px, py, pz));
            assert(level(p5, nbr(c, d)) == level(p4, nbr(c, d)));
        }
    }
    assert forall|c: (i32, i32, i32)| ((in_scan(c, px, py, pz) && block_at_pos(m, c) != Block::RedstoneLamp) || (!in_cube(
        c,
        px,
        py,
        pz,
    ) && level(p5, c) != level(o.power, c))) implies #[trigger] closed(p5, m, c) by {
        assert(!lamp_in_scan(o, c, px, py, pz));
        assert(!lamps.contains(c));
        if level(p4, c) != level(ps, c) {
            assert(closed(p4, m, c));
        } else if in_scan(c, px, py, pz) && emit_level(o, c) is Some {
            assert(in_init(q, c));
            let i = choose|i: int| 0 <= i < q.len() && (#[trigger] q[i]).0 == c;
            assert(closed(p4, m, q[i].0));
        } else if in_scan(c, px, py, pz) {
            assert(level(p4, c) == 0);
        } else {
            assert(level(ps, c) == level(o.power, c));
        }
    }
}

proof fn lemma_rc_wires(o: WorldView, p1: Map<u128, u8>, ps: Map<u128, u8>, p4: Map<u128, u8>, w5: WorldView,
    q: Seq<((i32, i32, i32), u8)>, lamps: Seq<(i32, i32, i32)>, reps: Seq<(i32, i32, i32)>, px: i32, py: i32, pz: i32)
    requires
        rc_facts(o, p1, ps, p4, w5, q, lamps, reps, px, py, pz),
    ensures
        forall|c: (i32, i32, i32)| is_wire(o.chunks, c) && #[trigger] level(w5.power, c) > 0 && (in_scan(c, px, py, pz) || level(
            w5.power,
            c,
        ) != level(o.power, c)) ==> level(w5.power, c) <= 15 && fed_by_stronger_unlit(o, w5.power, c, px, py, pz),
        forall|c: (i32, i32, i32)| #[trigger] level(w5.power, c) > prior_level(o, px, py, pz)(c) && !lamp_in_scan(o, c, px, py, pz)
            ==> reachable(power_source(o, px, py, pz), scan_lamps(o, px, py, pz), prior_level(o, px, py, pz), w5.power, c),
{
    let m = o.chunks;
    let p5 = w5.power;
    let src = power_source(o, px, py, pz);
    let avoid = scan_lamps(o, px, py, pz);
    let base = prior_level(o, px, py, pz);
    lemma_reachable_mono(src, avoid, base, p4, p5);
    assert forall|c: (i32, i32, i32)| #[trigger] level(p5, c) > base(c) && !lamp_in_scan(o, c, px, py, pz) implies reachable(
        src, avoid, base, p5, c) by {
        assert(!lamps.contains(c));
        assert(level(p4, c) > base(c));
        assert(reachable(src, avoid, base, p4, c));
    }
    assert forall|c: (i32, i32, i32)| is_wire(m, c) && #[trigger] level(p5, c) > 0 && (in_scan(c, px, py, pz) || level(p5, c)
        != level(o.power, c)) implies level(p5, c) <= 15 && fed_by_stronger_unlit(o, p5, c, px, py, pz) by {
        assert(!lamp_in_scan(o, c, px, py, pz));
        assert(!lamps.contains(c));
        assert(level(p5, c) == level(p4, c));
        lemma_emit_bound(o, c);
        if level(p4, c) == level(ps, c) {
            if in_scan(c, px, py, pz) {
                assert(level(ps, c) == level(p1, c));
                assert(level(p1, c) == 0);
            } else {
                assert(level(ps, c) == level(o.power, c));
            }
        } else {
            if reps.contains(c) {
                assert(is_repeater(m, c));
            }
            assert(fed_by_stronger(p4, c));
            let d = choose|d: int| 0 <= d < 6 && level(p4, #[trigger] nbr(c, d)) > level(p4, c);
            assert(level(p5, nbr(c, d)) >= level(p4, nbr(c, d)));
            if lamp_in_scan(o, nbr(c, d), px, py, pz) {
                assert(avoid(nbr(c, d)));
                assert(level(p4, nbr(c, d)) == base(nbr(c, d)));
                assert(in_cube(nbr(c, d), px, py, pz));
            }
            assert(!lamps.contains(c));
            assert(level(p5, c) == level(p4, c));
        }
    }
}

proof fn lemma_rc_repeaters(o: WorldView, p1: Map<u128, u8>, ps: Map<u128, u8>, p4: Map<u128, u8>, w5: WorldView,
    q: Seq<((i32, i32, i32), u8)>, lamps: Seq<(i32, i32, i32)>, reps: Seq<(i32, i32, i32)>, px: i32, py: i32, pz: i32)
    requires
        rc_facts(o, p1, ps, p4, w5, q, lamps, reps, px, py, pz),
    ensures
        forall|c: (i32, i32, i32)| in_scan(c, px, py, pz) && #[trigger] is_repeater(o.chunks, c) ==> level(w5.power, c) == 16 || (
        level(w5.power, c) == 0 && forall|d: int| 0 <= d < 6 && level(w5.power, #[trigger] nbr(c, d)) > 0 ==> lamp_in_scan(
            o,
            nbr(c, d),
            px,
            py,
            pz,
        )),
{
    let m = o.chunks;
    let p5 = w5.power;
    assert forall|c: (i32, i32, i32)| in_scan(c, px, py, pz) && #[trigger] is_repeater(m, c) implies level(p5, c) == 16 || (
    level(p5, c) == 0 && forall|d: int| 0 <= d < 6 && level(p5, #[trigger] nbr(c, d)) > 0 ==> lamp_in_scan(o, nbr(c, d), px, py, pz)) by {
        assert(reps.contains(c));
        let i = choose|i: int| 0 <= i < reps.len() && reps[i] == c;
        assert(!lamp_in_scan(o, c, px, py, pz));
        assert(level(p5, c) == level(p4, c));
        lemma_emit_bound(o, c);
        assert(level(ps, c) == 0);
        if level(p4, c) == 0 {
            assert(!powered_near(p4, reps[i]));
            assert forall|d: int| 0 <= d < 6 && level(p5, #[trigger] nbr(c, d)) > 0 implies lamp_in_scan(o, nbr(c, d), px, py, pz) by {
                if !lamps.contains(nbr(c, d)) {
                    assert(level(p4, nbr(c, d)) == 0);
                }
            }
        }
    }
}

proof fn lemma_rc_lamps(o: WorldView, p1: Map<u128, u8>, ps: Map<u128, u8>, p4: Map<u128, u8>, w5: WorldView,
    q: Seq<((i32, i32, i32), u8)>, lamps: Seq<(i32, i32, i32)>, reps: Seq<(i32, i32, i32)>, px: i32, py: i32, pz: i32)
    requires
        rc_facts(o, p1, ps, p4, w5, q, lamps, reps, px, py, pz),
    ensures
        forall|c: (i32, i32, i32)| #[trigger] lamp_in_scan(o, c, px, py, pz) ==> if w5.torches.contains(
            coords::pos_key(c.0, c.1, c.2),
        ) {
            level(w5.power, c) == 15 && powered_near(w5.power, c)
        } else {
            level(w5.power, c) == 0 && forall|d: int| 0 <= d < 6 && level(w5.power, #[trigger] nbr(c, d)) > 0 ==> lamp_in_scan(
                o,
                nbr(c, d),
                px,
                py,
                pz,
            )
        },
        forall|c: (i32, i32, i32)| !#[trigger] lamp_in_scan(o, c, px, py, pz) ==> (w5.torches.contains(
            coords::pos_key(c.0, c.1, c.2),
        ) == o.torches.contains(coords::pos_key(c.0, c.1, c.2))),
{
    let m = o.chunks;
    let p5 = w5.power;
    assert forall|c: (i32, i32, i32)| #[trigger] lamp_in_scan(o, c, px, py, pz) implies if w5.torches.contains(
        coords::pos_key(c.0, c.1, c.2),
    ) {
        level(p5, c) == 15 && powered_near(p5, c)
    } else {
        level(p5, c) == 0 && forall|d: int| 0 <= d < 6 && level(p5, #[trigger] nbr(c, d)) > 0 ==> lamp_in_scan(o, nbr(c, d), px, py, pz)
    } by {
        assert(lamps.contains(c));
        let i = choose|i: int| 0 <= i < lamps.len() && lamps[i] == c;
        assert(lamp_ok(p4, p5, w5.torches, lamps, lamps[i]));
        lemma_emit_bound(o, c);
        if reps.contains(c) {
            assert(is_repeater(m, c));
        }
        assert(level(p4, c) == level(ps, c));
        assert(level(ps, c) == 0);
        if !w5.torches.contains(coords::pos_key(c.0, c.1, c.2)) {
            assert forall|d: int| 0 <= d < 6 && level(p5, #[trigger] nbr(c, d)) > 0 implies lamp_in_scan(o, nbr(c, d), px, py, pz) by {
                assert(lamps.contains(nbr(c, d)));
            }
        }
    }
    assert forall|c: (i32, i32, i32)| !#[trigger] lamp_in_scan(o, c, px, py, pz) implies (w5.torches.contains(
        coords::pos_key(c.0, c.1, c.2),
    ) == o.torches.contains(coords::pos_key(c.0, c.1, c.2))) by {
        assert(!lamps.contains(c));
        assert(level(w5.power, c) == level(p4, c));
    }
}

proof fn lemma_recompute_power(o: WorldView, p1: Map<u128, u8>, ps: Map<u128, u8>, p4: Map<u128, u8>, w5: WorldView,
    q: Seq<((i32, i32, i32), u8)>, lamps: Seq<(i32, i32, i32)>, reps: Seq<(i32, i32, i32)>, px: i32, py: i32, pz: i32)
    requires
        rc_facts(o, p1, ps, p4, w5, q, lamps, reps, px, py, pz),
    ensures
        recompute_power_post(o, w5, px, py, pz),
{
    lemma_rc_outside(o, p1, ps, p4, w5, q, lamps, reps, px, py, pz);
    lemma_rc_emitters(o, p1, ps, p4, w5, q, lamps, reps, px, py, pz);
    lemma_rc_wires(o, p1, ps, p4, w5, q, lamps, reps, px, py, pz);
    lemma_rc_repeaters(o, p1, ps, p4, w5, q, lamps, reps, px, py, pz);
    lemma_rc_lamps(o, p1, ps, p4, w5, q, lamps, reps, px, py, pz);
}


proof fn lemma_list_final(l: Seq<(i32, i32, i32)>, m: Map<u64, Seq<Block>>, kind: int, px: i32, py: i32, pz: i32)
    requires
        coord_ok(px),
        coord_ok(py),
        coord_ok(pz),
        list_exact(l, m, kind, px, py, pz, (px + POWER_RADIUS + 1) as i32, scan_y_lo(py), (pz - POWER_RADIUS) as i32),
    ensures
        forall|c: (i32, i32, i32)| #[trigger] l.contains(c) <==> in_scan(c, px, py, pz) && kind_match(kind, block_at_pos(m, c)),
        l.no_duplicates(),
{
    lemma_scan_complete(px, py, pz);
    let xe = (px + POWER_RADIUS + 1) as i32;
    let ys = scan_y_lo(py);
    let zs = (pz - POWER_RADIUS) as i32;
    assert forall|c: (i32, i32, i32)| #[trigger] l.contains(c) <==> in_scan(c, px, py, pz) && kind_match(kind, block_at_pos(m, c)) by {
        if l.contains(c) {
            let i = choose|i: int| 0 <= i < l.len() && l[i] == c;
            assert(scanned_before(l[i], px, py, pz, xe, ys, zs));
        }
        if in_scan(c, px, py, pz) && kind_match(kind, block_at_pos(m, c)) {
            assert(scanned_before(c, px, py, pz, xe, ys, zs));
        }
    }
}

proof fn lemma_appended(
    before: Seq<(i32, i32, i32)>,
    l: Seq<(i32, i32, i32)>,
    o: WorldView,
    p: Map<u128, u8>,
    kind: int,
    b: Block,
    px: i32,
    py: i32,
    pz: i32,
)
    requires
        coord_ok(px),
        coord_ok(py),
        coord_ok(pz),
        list_exact(l, o.chunks, kind, px, py, pz, (px + POWER_RADIUS + 1) as i32, scan_y_lo(py), (pz - POWER_RADIUS) as i32),
        forall|x: Block| kind_match(kind, x) <==> x == b,
    ensures
        appended_powered(before, before + powered_cells(p, l), o, p, b, px, py, pz),
{
    lemma_list_final(l, o.chunks, kind, px, py, pz);
    lemma_powered_cells(p, l);
    let after = before + powered_cells(p, l);
    assert(after.subrange(0, before.len() as int) =~= before);
    assert(after.subrange(before.len() as int, after.len() as int) =~= powered_cells(p, l));
}

impl World {
    /// Recompute redstone power levels in a region around an edit: clear the
    /// cube around it, give every emitter in it its level, spread along
    /// wires, fire repeaters, light lamps, queue powered TNT and dispensers,
    /// and mark the chunks it touches for rebuilding.
    pub fn recompute_power(&mut self, px: i32, py: i32, pz: i32)
        requires
            old(self).wf(),
            coord_ok(px),
            coord_ok(py),
            coord_ok(pz),
            forall|k: u128| #[trigger] old(self)@.container_fill.contains_key(k) ==> old(self)@.container_fill[k] <= 15,
        ensures
            final(self).wf(),
            recompute_post(old(self)@, final(self)@, px, py, pz),
    {
        let ghost o = self@;
        self.clear_cube(px, py, pz);
        let ghost p1 = self@.power;
        let ghost w1 = self@;
        let lists = self.scan_region(px, py, pz);
        let ghost w2 = self@;
        let ghost q = lists.queue@;
        let ScanLists { queue, lamps, tnts, reps, disps } = lists;
        let ghost m = o.chunks;
        proof {
            lemma_scan_complete(px, py, pz);
            assert forall|i: int| 0 <= i < queue@.len() implies level(self@.power, (#[trigger] queue@[i]).0) == queue@[i].1
                && queue@[i].1 <= 16 by {
                lemma_emit_bound(w1, queue@[i].0);
            }
        }
        let ghost src = power_source(o, px, py, pz);
        let ghost avoid = scan_lamps(o, px, py, pz);
        let ghost base = prior_level(o, px, py, pz);
        proof {
            lemma_scan_grounded(o, p1, w2, q, lamps@, tnts@, reps@, disps@, px, py, pz);
        }
        self.spread(queue, Ghost(src), Ghost(avoid), Ghost(base));
        let ghost p3 = self@.power;
        proof {
            assert forall|i: int| 0 <= i < reps@.len() implies is_repeater(m, #[trigger] reps@[i]) by {
                assert(scanned_before(reps@[i], px, py, pz, (px + POWER_RADIUS + 1) as i32, scan_y_lo(py), (pz - POWER_RADIUS) as i32));
                assert(kind_match(2, block_at_pos(m, reps@[i])));
            }
            assert(power_state(w2.power, p3, m, q, reps@));
        }
        self.fire_repeaters(&reps, Ghost(w2.power), Ghost(q), Ghost(src), Ghost(avoid), Ghost(base));
        let ghost p4 = self@.power;
        proof {
            lemma_list_final(lamps@, m, 0, px, py, pz);
            lemma_list_final(reps@, m, 2, px, py, pz);
            assert forall|i: int| 0 <= i < lamps@.len() implies level(p4, #[trigger] lamps@[i]) == 0 by {
                let c = lamps@[i];
                assert(lamps@.contains(c));
                lemma_emit_bound(o, c);
                assert(emit_level(w1, c) == emit_level(o, c));
                assert(scanned_before(c, px, py, pz, (px + POWER_RADIUS + 1) as i32, scan_y_lo(py), (pz - POWER_RADIUS) as i32));
                assert(level(w2.power, c) == level(p1, c));
                assert(!reps@.contains(c));
                assert(level(p4, c) == level(w2.power, c));
            }
        }
        self.light_lamps(&lamps);
        let ghost w5 = self@;
        self.queue_powered(&tnts, false);
        self.queue_powered(&disps, true);
        self.mark_cube_dirty(px, pz);
        proof {
            lemma_rc_facts(o, p1, w2, p4, w5, q, lamps@, tnts@, reps@, disps@, px, py, pz);
            lemma_recompute_power(o, p1, w2.power, p4, w5, q, lamps@, reps@, px, py, pz);
            assert forall|x: Block| kind_match(1, x) <==> x == Block::Tnt by {}
            assert forall|x: Block| kind_match(3, x) <==> x == Block::Dispenser by {}
            lemma_appended(o.pending_tnt, tnts@, o, w5.power, 1, Block::Tnt, px, py, pz);
            lemma_appended(o.pending_dispense, disps@, o, w5.power, 3, Block::Dispenser, px, py, pz);
        }
    }
}

// ---------------------------------------------------------------------------
// Block edits.
// ---------------------------------------------------------------------------

/// Blocks whose placing or removal can change a redstone circuit.
pub open spec fn spec_is_redstone(b: Block) -> bool {
    b == Block::RedstoneWire || b == Block::Lever || b == Block::LeverOn || b == Block::RedstoneTorch
        || b == Block::RedstoneLamp || b == Block::Tnt
}

pub fn is_redstone(b: Block) -> (r: bool)
    ensures
        r == spec_is_redstone(b),
{
    match b {
        Block::RedstoneWire | Block::Lever | Block::LeverOn | Block::RedstoneTorch | Block::RedstoneLamp | Block::Tnt => true,
        _ => false,
    }
}

/// Blocks that are light sources wherever they are placed by an edit.
pub open spec fn spec_edit_lights(b: Block) -> bool {
    b == Block::Torch || b == Block::RedstoneTorch || b == Block::Portal || b == Block::EndPortal
}

/// Neighbors `0..d` of `c` (in neighbor order) whose block satisfies `kind`:
/// 0 liquid, 1 observer.
pub open spec fn nbrs_where(m: Map<u64, Seq<Block>>, c: (i32, i32, i32), d: int, kind: int) -> Seq<(i32, i32, i32)>
    decreases d,
{
    if d <= 0 {
        Seq::empty()
    } else {
        let n = nbr(c, d - 1);
        let b = block_at_pos(m, n);
        let hit = if kind == 0 { blocks::spec_is_liquid(b) } else { b == Block::Observer };
        nbrs_where(m, c, d - 1, kind) + if hit { seq![n] } else { Seq::empty() }
    }
}

/// The chunk keys an edit at local `(lx, lz)` of chunk `(cx, cz)` marks for
/// rebuilding: its own, and the neighbor across each edge it touches.
pub open spec fn edit_dirty(dirty: Set<u64>, cx: i32, cz: i32, lx: i32, lz: i32) -> Set<u64> {
    let d0 = dirty.insert(coords::chunk_key(cx, cz));
    let d1 = if lx == 0 { d0.insert(coords::chunk_key((cx - 1) as i32, cz)) } else { d0 };
    let d2 = if lx == CHUNK - 1 { d1.insert(coords::chunk_key((cx + 1) as i32, cz)) } else { d1 };
    let d3 = if lz == 0 { d2.insert(coords::chunk_key(cx, (cz - 1) as i32)) } else { d2 };
    if lz == CHUNK - 1 { d3.insert(coords::chunk_key(cx, (cz + 1) as i32)) } else { d3 }
}

/// The world with block `b` written at `(x, y, z)` of its loaded chunk.
pub open spec fn written(o: WorldView, x: i32, y: i32, z: i32, b: Block) -> WorldView {
    let key = coords::chunk_key(coords::chunk_of(x), coords::chunk_of(z));
    let idx = coords::cell_index(coords::local_of(x) as int, y as int, coords::local_of(z) as int);
    WorldView { chunks: o.chunks.insert(key, o.chunks[key].update(idx, b)), ..o }
}

/// The edit recorded: in the edit map and (when enabled) the network log;
/// light sources and spawners follow the block; the chunk and any neighbor
/// across a touched edge are marked for rebuilding.
pub open spec fn recorded(w: WorldView, x: i32, y: i32, z: i32, b: Block) -> WorldView {
    let pk = coords::pos_key(x, y, z);
    WorldView {
        edits: w.edits.insert(pk, b),
        net_log: if w.net_log_enabled { w.net_log.push((w.dim, x, y, z, blocks::block_id(b))) } else { w.net_log },
        torches: if spec_edit_lights(b) { w.torches.insert(pk) } else { w.torches.remove(pk) },
        spawners: if b == Block::Spawner { w.spawners.insert(pk) } else { w.spawners.remove(pk) },
        dirty: edit_dirty(w.dirty, coords::chunk_of(x), coords::chunk_of(z), coords::local_of(x), coords::local_of(z)),
        ..w
    }
}

/// The follow-up checks queued: the cell and its liquid neighbors for a
/// liquid update; the cell (if it falls or needs support) and the block
/// above it (likewise) for a support check; neighboring observers.
pub open spec fn queued_checks(w: WorldView, x: i32, y: i32, z: i32, b: Block) -> WorldView {
    let c = (x, y, z);
    let above = nbr(c, 2);
    let ab = block_at_pos(w.chunks, above);
    WorldView {
        pending_fluid: w.pending_fluid.push(c) + nbrs_where(w.chunks, c, 6, 0),
        pending_support: w.pending_support + (if blocks::spec_falls(b) || blocks::spec_needs_support(b) { seq![c] } else {
            Seq::empty()
        }) + (if blocks::spec_needs_support(ab) || blocks::spec_falls(ab) { seq![above] } else { Seq::empty() }),
        pending_obs: w.pending_obs + nbrs_where(w.chunks, c, 6, 1),
        ..w
    }
}

/// The world right after block `b` is written at `(x, y, z)` in a loaded
/// chunk, before any redstone recompute.
pub open spec fn edited(o: WorldView, x: i32, y: i32, z: i32, b: Block) -> WorldView {
    queued_checks(recorded(written(o, x, y, z, b), x, y, z, b), x, y, z, b)
}

/// Whether an edit at `c` replacing `old` with `b` can change a circuit:
/// either block is redstone, or a neighbor (in the edited world `e`) is
/// redstone or holds a power entry.
pub open spec fn near_redstone(e: WorldView, c: (i32, i32, i32), old: Block, b: Block) -> bool {
    spec_is_redstone(b) || spec_is_redstone(old) || exists|d: int| 0 <= d < 6 && (spec_is_redstone(
        block_at_pos(e.chunks, #[trigger] nbr(c, d)),
    ) || e.power.contains_key(coords::pos_key(nbr(c, d).0, nbr(c, d).1, nbr(c, d).2)))
}

/// The whole effect of `set_block`.
pub open spec fn set_block_post(o: WorldView, f: WorldView, x: i32, y: i32, z: i32, b: Block) -> bool {
    let key = coords::chunk_key(coords::chunk_of(x), coords::chunk_of(z));
    if !(0 <= y < HEIGHT) || !o.chunks.contains_key(key) {
        f == o
    } else {
        let e = edited(o, x, y, z, b);
        if near_redstone(e, (x, y, z), block_at(o.chunks, x, y, z), b) {
            recompute_post(e, f, x, y, z)
        } else {
            f == e
        }
    }
}

proof fn lemma_chunks_view_insert(m: Map<u64, Chunk>, k: u64, c: Chunk)
    ensures
        chunks_view(m.insert(k, c)) == chunks_view(m).insert(k, c.blocks@),
{
    assert(chunks_view(m.insert(k, c)) =~= chunks_view(m).insert(k, c.blocks@));
}

impl World {
    /// Write `b` into the loaded chunk at `(wx, wy, wz)`; the block that was
    /// there, or `None` (and no change) when the chunk is not loaded.
    fn write_cell(&mut self, wx: i32, wy: i32, wz: i32, b: Block) -> (r: Option<Block>)
        requires
            old(self).wf(),
            0 <= wy < HEIGHT,
        ensures
            final(self).wf(),
            old(self)@.chunks.contains_key(coords::chunk_key(coords::chunk_of(wx), coords::chunk_of(wz))) ==> r == Some(
                block_at(old(self)@.chunks, wx, wy, wz),
            ) && final(self)@ == written(old(self)@, wx, wy, wz, b),
            !old(self)@.chunks.contains_key(coords::chunk_key(coords::chunk_of(wx), coords::chunk_of(wz))) ==> r is None
                && final(self)@ == old(self)@,
    {
        let ghost o = self@;
        proof {
            coords::lemma_local_range(wx);
            coords::lemma_local_range(wz);
        }
        let old_block = self.get_block(wx, wy, wz);
        let key = chunk_key_of(wx >> 4, wz >> 4);
        let ghost m0 = self.chunks@;
        match self.chunks.remove(&key) {
            None => {
                assert(self.chunks@ == m0);
                None
            },
            Some(mut c) => {
                assert(m0.contains_key(key) && m0[key] == c);
                c.set(wx & 15, wy, wz & 15, b);
                let ghost cv = c;
                self.chunks.insert(key, c);
                proof {
                    assert(self.chunks@ == m0.insert(key, cv));
                    lemma_chunks_view_insert(m0, key, cv);
                    let chunks1 = self@.chunks;
                    assert forall|k: u64| #[trigger] chunks1.contains_key(k) implies chunks1[k].len() == CHUNK_VOLUME by {
                        if k != key {
                            assert(o.chunks.contains_key(k));
                        }
                    }
                }
                Some(old_block)
            },
        }
    }

    fn record_edit(&mut self, wx: i32, wy: i32, wz: i32, b: Block)
        requires
            coord_ok(wx),
            coord_ok(wz),
        ensures
            final(self)@ == recorded(old(self)@, wx, wy, wz, b),
    {
        let cx = wx >> 4;
        let cz = wz >> 4;
        let lx = wx & 15;
        let lz = wz & 15;
        proof {
            assert(-0x800_0000 <= wx >> 4i32 <= 0x7ff_ffff) by (bit_vector);
            assert(-0x800_0000 <= wz >> 4i32 <= 0x7ff_ffff) by (bit_vector);
        }
        let pk = pos_key_from(wx, wy, wz);
        self.edits.insert(pk, b);
        if self.net_log_enabled {
            let id = b.id();
            self.net_log.push((self.dim, wx, wy, wz, id));
        }
        if b == Block::Torch || b == Block::RedstoneTorch || b == Block::Portal || b == Block::EndPortal {
            self.torches.insert(pk);
        } else {
            self.torches.remove(&pk);
        }
        if b == Block::Spawner {
            self.spawners.insert(pk);
        } else {
            self.spawners.remove(&pk);
        }
        self.dirty.insert(chunk_key_of(cx, cz));
        if lx == 0 {
            self.dirty.insert(chunk_key_of(cx - 1, cz));
        }
        if lx == CHUNK - 1 {
            self.dirty.insert(chunk_key_of(cx + 1, cz));
        }
        if lz == 0 {
            self.dirty.insert(chunk_key_of(cx, cz - 1));
        }
        if lz == CHUNK - 1 {
            self.dirty.insert(chunk_key_of(cx, cz + 1));
        }
    }

    fn queue_checks(&mut self, wx: i32, wy: i32, wz: i32, b: Block)
        requires
            old(self).wf(),
        ensures
            final(self).wf(),
            final(self)@ == queued_checks(old(self)@, wx, wy, wz, b),
    {
        let ghost w_start = self@;
        let c = (wx, wy, wz);
        self.pending_fluid.push(c);
        if b.falls() || b.needs_support() {
            self.pending_support.push(c);
        }
        let ghost chunks1 = self@.chunks;
        let ghost fluid0 = self@.pending_fluid;
        let ghost support0 = self@.pending_support;
        let ghost obs0 = self@.pending_obs;
        let ghost wb = self@;
        let mut d: usize = 0;
        while d < 6
            invariant
                self.wf(),
                self@.chunks == chunks1,
                d <= 6,
                self@ == (WorldView {
                    pending_fluid: self@.pending_fluid,
                    pending_support: self@.pending_support,
                    pending_obs: self@.pending_obs,
                    ..wb
                }),
                self@.pending_fluid == fluid0 + nbrs_where(chunks1, c, d as int, 0),
                self@.pending_obs == obs0 + nbrs_where(chunks1, c, d as int, 1),
                self@.pending_support == support0 + (if d > 2 && (blocks::spec_needs_support(block_at_pos(chunks1, nbr(c, 2)))
                    || blocks::spec_falls(block_at_pos(chunks1, nbr(c, 2)))) { seq![nbr(c, 2)] } else { Seq::empty() }),
            decreases 6 - d,
        {
            let n = nbr_of(c, d);
            let nb = self.get_block(n.0, n.1, n.2);
            if nb.is_liquid() {
                self.pending_fluid.push(n);
            }
            if d == 2 && (nb.needs_support() || nb.falls()) {
                self.pending_support.push(n);
            }
            if nb == Block::Observer {
                self.pending_obs.push(n);
            }
            d = d + 1;
        }
        proof {
            let q = queued_checks(w_start, wx, wy, wz, b);
            assert(self@.pending_fluid =~= q.pending_fluid);
            assert(self@.pending_support =~= q.pending_support);
            assert(self@.pending_obs =~= q.pending_obs);
        }
    }

    fn near_redstone_at(&self, c: (i32, i32, i32), old_block: Block, b: Block) -> (r: bool)
        requires
            self.wf(),
        ensures
            r == near_redstone(self@, c, old_block, b),
    {
        let mut near = is_redstone(b) || is_redstone(old_block);
        let mut d: usize = 0;
        while d < 6
            invariant
                d <= 6,
                self.wf(),
                near == (spec_is_redstone(b) || spec_is_redstone(old_block) || exists|dd: int| 0 <= dd < d && (spec_is_redstone(
                    block_at_pos(self@.chunks, #[trigger] nbr(c, dd)),
                ) || self@.power.contains_key(coords::pos_key(nbr(c, dd).0, nbr(c, dd).1, nbr(c, dd).2)))),
            decreases 6 - d,
        {
            let n = nbr_of(c, d);
            if is_redstone(self.get_block(n.0, n.1, n.2)) || self.power.contains_key(&pos_key_from(n.0, n.1, n.2)) {
                near = true;
            }
            d = d + 1;
        }
        near
    }

    /// Write block `b` at `(wx, wy, wz)` and set off what the change calls
    /// for (see `edited`); then, near redstone, recompute power around it.
    /// Outside the world's rows, or in a chunk that is not loaded, nothing
    /// happens.
    pub fn set_block(&mut self, wx: i32, wy: i32, wz: i32, b: Block)
        requires
            old(self).wf(),
            coord_ok(wx),
            coord_ok(wz),
            forall|k: u128| #[trigger] old(self)@.container_fill.contains_key(k) ==> old(self)@.container_fill[k] <= 15,
        ensures
            final(self).wf(),
            set_block_post(old(self)@, final(self)@, wx, wy, wz, b),
    {
        if wy < 0 || wy >= HEIGHT {
            return;
        }
        let ghost o = self@;
        let old_block = match self.write_cell(wx, wy, wz, b) {
            None => {
                return;
            },
            Some(ob) => ob,
        };
        self.record_edit(wx, wy, wz, b);
        self.queue_checks(wx, wy, wz, b);
        assert(self@ == edited(o, wx, wy, wz, b));
        if self.near_redstone_at((wx, wy, wz), old_block, b) {
            self.recompute_power(wx, wy, wz);
        }
    }
}


// ---------------------------------------------------------------------------
// Chunks from a Minecraft server, and replicated edits.
// ---------------------------------------------------------------------------

/// The cells of a chunk built from the first `n` streamed blocks: each
/// block in the world's rows is written at its position within a chunk, a
/// later one over an earlier one; everything else is air.
pub open spec fn streamed_cells(blocks: Seq<(i32, i32, i32, Block)>, n: int) -> Seq<Block>
    decreases n,
{
    if n <= 0 {
        Seq::new(CHUNK_VOLUME as nat, |i: int| Block::Air)
    } else {
        let prev = streamed_cells(blocks, n - 1);
        let e = blocks[n - 1];
        if 0 <= e.1 < HEIGHT {
            prev.update(coords::cell_index(coords::local_of(e.0) as int, e.1 as int, coords::local_of(e.2) as int), e.3)
        } else {
            prev
        }
    }
}

/// Streamed blocks that light their surroundings.
pub open spec fn streamed_light(b: Block) -> bool {
    b == Block::Torch || b == Block::RedstoneTorch || b == Block::Glowstone
}

/// Light sources among the first `n` streamed blocks (in the world's rows).
pub open spec fn streamed_torches(t: Set<u128>, blocks: Seq<(i32, i32, i32, Block)>, n: int) -> Set<u128>
    decreases n,
{
    if n <= 0 {
        t
    } else {
        let prev = streamed_torches(t, blocks, n - 1);
        let e = blocks[n - 1];
        if 0 <= e.1 < HEIGHT && streamed_light(e.3) {
            prev.insert(coords::pos_key(e.0, e.1, e.2))
        } else {
            prev
        }
    }
}

proof fn lemma_streamed_len(blocks: Seq<(i32, i32, i32, Block)>, n: int)
    ensures
        streamed_cells(blocks, n).len() == CHUNK_VOLUME,
    decreases n,
{
    if n > 0 {
        lemma_streamed_len(blocks, n - 1);
        coords::lemma_local_range(blocks[n - 1].0);
        coords::lemma_local_range(blocks[n - 1].2);
    }
}

impl World {
    /// Build (or replace) chunk `(cx, cz)` straight from blocks streamed off
    /// a Minecraft server. `blocks` are world coordinates already remapped
    /// into MineRust's vertical range; out-of-range entries are ignored. No
    /// terrain physics is run, but the chunk and its loaded neighbours are
    /// marked for rebuilding.
    pub fn inject_mc_chunk(&mut self, cx: i32, cz: i32, blocks: &[(i32, i32, i32, Block)])
        requires
            old(self).wf(),
            i32::MIN < cx < i32::MAX,
            i32::MIN < cz < i32::MAX,
        ensures
            final(self).wf(),
            final(self)@ == (WorldView {
                chunks: old(self)@.chunks.insert(coords::chunk_key(cx, cz), streamed_cells(blocks@, blocks@.len() as int)),
                torches: streamed_torches(old(self)@.torches, blocks@, blocks@.len() as int),
                dirty: final(self)@.dirty,
                ..old(self)@
            }),
            forall|a: i32, b: i32| #[trigger] final(self)@.dirty.contains(coords::chunk_key(a, b)) == (old(self)@.dirty.contains(
                coords::chunk_key(a, b),
            ) || (a == cx && b == cz) || (final(self)@.chunks.contains_key(coords::chunk_key(a, b)) && ((a == cx + 1 && b == cz)
                || (a == cx - 1 && b == cz) || (a == cx && b == cz + 1) || (a == cx && b == cz - 1)))),
    {
        let ghost o = self@;
        let mut c = Chunk::new();
        let mut i: usize = 0;
        while i < blocks.len()
            invariant
                i <= blocks@.len(),
                c.blocks@ == streamed_cells(blocks@, i as int),
                self@ == (WorldView { torches: streamed_torches(o.torches, blocks@, i as int), ..o }),
            decreases blocks@.len() - i,
        {
            proof {
                lemma_streamed_len(blocks@, i as int);
            }
            let (wx, wy, wz, b) = blocks[i];
            if 0 <= wy && wy < HEIGHT {
                proof {
                    coords::lemma_local_range(wx);
                    coords::lemma_local_range(wz);
                }
                c.set(wx & 15, wy, wz & 15, b);
                if b == Block::Torch || b == Block::RedstoneTorch || b == Block::Glowstone {
                    self.torches.insert(pos_key_from(wx, wy, wz));
                }
            }
            i = i + 1;
        }
        let key = chunk_key_of(cx, cz);
        let ghost cv = c;
        let ghost m0 = self.chunks@;
        self.chunks.insert(key, c);
        proof {
            lemma_chunks_view_insert(m0, key, cv);
            lemma_streamed_len(blocks@, blocks@.len() as int);
            let ch = self@.chunks;
            assert forall|k: u64| #[trigger] ch.contains_key(k) implies ch[k].len() == CHUNK_VOLUME by {
                if k != key {
                    assert(o.chunks.contains_key(k));
                }
            }
        }
        let ghost w1 = self@;
        self.dirty.insert(key);
        let k1 = chunk_key_of(cx + 1, cz);
        if self.chunks.contains_key(&k1) {
            self.dirty.insert(k1);
        }
        let k2 = chunk_key_of(cx - 1, cz);
        if self.chunks.contains_key(&k2) {
            self.dirty.insert(k2);
        }
        let k3 = chunk_key_of(cx, cz + 1);
        if self.chunks.contains_key(&k3) {
            self.dirty.insert(k3);
        }
        let k4 = chunk_key_of(cx, cz - 1);
        if self.chunks.contains_key(&k4) {
            self.dirty.insert(k4);
        }
    }
}

/// What `apply_remote_block` leaves in a world that does not have the chunk
/// (or is not the edit's dimension): the edit recorded, and a light source
/// noted when the block gives light.
pub open spec fn remote_recorded(w: WorldView, x: i32, y: i32, z: i32, b: Block) -> WorldView {
    let pk = coords::pos_key(x, y, z);
    WorldView {
        edits: w.edits.insert(pk, b),
        torches: if blocks::spec_emits_light(b) { w.torches.insert(pk) } else { w.torches },
        ..w
    }
}

/// Apply a replicated block edit without echoing it back to the network.
/// An edit in the current dimension is set (when its chunk is loaded) or
/// recorded for later; an edit in another dimension is recorded in that
/// dimension's world in `others`, created with `seed` if needed. The
/// current world's network log is left enabled.
pub fn apply_remote_block(
    world: &mut World,
    others: &mut HashMap<u8, World>,
    seed: u32,
    dim: u8,
    x: i32,
    y: i32,
    z: i32,
    block: Block,
)
    requires
        old(world).wf(),
        coord_ok(x),
        coord_ok(z),
        forall|k: u128| #[trigger] old(world)@.container_fill.contains_key(k) ==> old(world)@.container_fill[k] <= 15,
    ensures
        final(world).wf(),
        dim == old(world)@.dim ==> {
            let o = WorldView { net_log_enabled: false, ..old(world)@ };
            let f = WorldView { net_log_enabled: false, ..final(world)@ };
            &&& final(world)@.net_log_enabled
            &&& old(world)@.chunks.contains_key(coords::chunk_key(coords::chunk_of(x), coords::chunk_of(z))) ==> set_block_post(
                o,
                f,
                x,
                y,
                z,
                block,
            )
            &&& !old(world)@.chunks.contains_key(coords::chunk_key(coords::chunk_of(x), coords::chunk_of(z))) ==> f
                == remote_recorded(o, x, y, z, block)
            &&& final(others)@ == old(others)@
        },
        dim != old(world)@.dim ==> {
            &&& final(world)@ == old(world)@
            &&& final(others)@.dom() == old(others)@.dom().insert(dim)
            &&& forall|d: u8| d != dim && #[trigger] old(others)@.contains_key(d) ==> final(others)@[d] == old(others)@[d]
            &&& old(others)@.contains_key(dim) ==> final(others)@[dim]@ == remote_recorded(old(others)@[dim]@, x, y, z, block)
            &&& !old(others)@.contains_key(dim) ==> {
                let n = final(others)@[dim]@;
                &&& n.seed == seed && n.dim == dim
                &&& n.edits == Map::<u128, Block>::empty().insert(coords::pos_key(x, y, z), block)
                &&& n.torches == if blocks::spec_emits_light(block) { Set::<u128>::empty().insert(coords::pos_key(x, y, z)) } else {
                    Set::<u128>::empty()
                }
                &&& n.chunks == Map::<u64, Seq<Block>>::empty()
                &&& n.power == Map::<u128, u8>::empty()
            }
        },
{
    let pk = pos_key_from(x, y, z);
    if dim == world.dim {
        world.net_log_enabled = false;
        if world.has_chunk(x >> 4, z >> 4) {
            world.set_block(x, y, z, block);
        } else {
            world.edits.insert(pk, block);
            if block.emits_light() {
                world.torches.insert(pk);
            }
        }
        world.net_log_enabled = true;
    } else {
        let mut w = match others.remove(&dim) {
            Some(w) => w,
            None => World::new(seed, dim),
        };
        w.edits.insert(pk, block);
        if block.emits_light() {
            w.torches.insert(pk);
        }
        others.insert(dim, w);
    }
}

/// Reading back a write: after `set_block` in a loaded chunk within the
/// world's rows, the cell holds the new block, every other cell keeps its
/// block, the edit is recorded, and the cell's chunk is marked for
/// rebuilding.
pub proof fn lemma_set_block_read_back(o: WorldView, f: WorldView, x: i32, y: i32, z: i32, b: Block, c: (i32, i32, i32))
    requires
        chunks_wf(o.chunks),
        0 <= y < HEIGHT,
        o.chunks.contains_key(coords::chunk_key(coords::chunk_of(x), coords::chunk_of(z))),
        set_block_post(o, f, x, y, z, b),
    ensures
        block_at(f.chunks, x, y, z) == b,
        c != (x, y, z) ==> block_at_pos(f.chunks, c) == block_at_pos(o.chunks, c),
        f.edits == o.edits.insert(coords::pos_key(x, y, z), b),
        f.dirty.contains(coords::chunk_key(coords::chunk_of(x), coords::chunk_of(z))),
{
    let e = edited(o, x, y, z, b);
    coords::lemma_local_range(x);
    coords::lemma_local_range(z);
    coords::lemma_local_range(c.0);
    coords::lemma_local_range(c.2);
    assert(f.chunks == e.chunks);
    assert(f.edits == e.edits);
    assert(e.dirty.contains(coords::chunk_key(coords::chunk_of(x), coords::chunk_of(z))));
    let k = coords::chunk_key(coords::chunk_of(x), coords::chunk_of(z));
    let kc = coords::chunk_key(coords::chunk_of(c.0), coords::chunk_of(c.2));
    if c != (x, y, z) && 0 <= c.1 < HEIGHT && kc == k {
        assert(coords::chunk_of(c.0) == coords::chunk_of(x) && coords::chunk_of(c.2) == coords::chunk_of(z));
        assert(coords::cell_index(coords::local_of(c.0) as int, c.1 as int, coords::local_of(c.2) as int) != coords::cell_index(
            coords::local_of(x) as int,
            y as int,
            coords::local_of(z) as int,
        ));
    }
}
} // verus!
