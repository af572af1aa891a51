//! Liquid flow. Block edits queue cells for a liquid update; each tick
//! takes a batch of the queued cells, in coordinate order and without
//! repeats, and applies the flow rules to each in turn: flowing liquid that
//! nothing stronger feeds dries up, liquid falls into an open cell below,
//! and otherwise, resting on something, spreads sideways one level weaker.

use vstd::prelude::*;
use crate::blocks;
use crate::blocks::Block;
use crate::edits::{fill_ok, ops_in_range, ops_post, EditOp, Guard};
use crate::world::{block_at, block_at_pos, coord_ok, World, WorldView};

verus! {

broadcast use vstd::seq_lib::group_to_multiset_ensures;

/// Cells taken per liquid tick; the rest wait for later ticks.
pub const FLUID_BATCH: usize = 160;

/// Lexicographic order on cell coordinates (`x`, then `y`, then `z`), the
/// order std gives tuples.
pub open spec fn cell_lt(a: (i32, i32, i32), b: (i32, i32, i32)) -> bool {
    a.0 < b.0 || (a.0 == b.0 && (a.1 < b.1 || (a.1 == b.1 && a.2 < b.2)))
}

pub open spec fn cell_le(a: (i32, i32, i32), b: (i32, i32, i32)) -> bool {
    cell_lt(a, b) || a == b
}

/// Ascending and without repeats.
pub open spec fn strictly_sorted(s: Seq<(i32, i32, i32)>) -> bool {
    forall|i: int, j: int| 0 <= i < j < s.len() ==> cell_lt(#[trigger] s[i], #[trigger] s[j])
}

pub open spec fn same_cells(a: Seq<(i32, i32, i32)>, b: Seq<(i32, i32, i32)>) -> bool {
    forall|c: (i32, i32, i32)| #[trigger] a.contains(c) <==> b.contains(c)
}

/// The distinct cells of `p` in ascending order.
pub open spec fn sorted_cells(p: Seq<(i32, i32, i32)>) -> Seq<(i32, i32, i32)> {
    choose|s: Seq<(i32, i32, i32)>| strictly_sorted(s) && same_cells(s, p)
}

/// The cells one liquid tick takes from the queue `p`.
pub open spec fn batch_of(p: Seq<(i32, i32, i32)>) -> Seq<(i32, i32, i32)> {
    let s = sorted_cells(p);
    if s.len() > FLUID_BATCH { s.take(FLUID_BATCH as int) } else { s }
}

/// The cells a liquid tick leaves queued.
pub open spec fn left_over(p: Seq<(i32, i32, i32)>) -> Seq<(i32, i32, i32)> {
    let s = sorted_cells(p);
    if s.len() > FLUID_BATCH { s.skip(FLUID_BATCH as int) } else { Seq::empty() }
}

/// Two ascending sequences without repeats that hold the same cells are
/// the same sequence.
proof fn lemma_sorted_unique(a: Seq<(i32, i32, i32)>, b: Seq<(i32, i32, i32)>)
    requires
        strictly_sorted(a),
        strictly_sorted(b),
        same_cells(a, b),
    ensures
        a == b,
    decreases a.len(),
{
    if a.len() == 0 {
        if b.len() > 0 {
            assert(b.contains(b[0]));
            assert(a.contains(b[0]));
        }
        assert(a =~= b);
    } else {
        assert(a.contains(a[0]));
        assert(b.contains(a[0]));
        let k = choose|k: int| 0 <= k < b.len() && b[k] == a[0];
        assert(b.contains(b[0]));
        assert(a.contains(b[0]));
        let m = choose|m: int| 0 <= m < a.len() && a[m] == b[0];
        if k > 0 {
            assert(cell_lt(b[0], b[k]));
            if m > 0 {
                assert(cell_lt(a[0], a[m]));
            }
        }
        assert(a[0] == b[0]);
        let a1 = a.drop_first();
        let b1 = b.drop_first();
        assert forall|c: (i32, i32, i32)| #[trigger] a1.contains(c) implies b1.contains(c) by {
            let i = choose|i: int| 0 <= i < a1.len() && a1[i] == c;
            assert(a[i + 1] == c);
            assert(cell_lt(a[0], a[i + 1]));
            assert(a.contains(c));
            let j = choose|j: int| 0 <= j < b.len() && b[j] == c;
            assert(j != 0);
            assert(b1[j - 1] == c);
        }
        assert forall|c: (i32, i32, i32)| #[trigger] b1.contains(c) implies a1.contains(c) by {
            let i = choose|i: int| 0 <= i < b1.len() && b1[i] == c;
            assert(b[i + 1] == c);
            assert(cell_lt(b[0], b[i + 1]));
            assert(b.contains(c));
            assert(a.contains(c));
            let j = choose|j: int| 0 <= j < a.len() && a[j] == c;
            assert(j != 0);
            assert(a1[j - 1] == c);
        }
        assert forall|i: int, j: int| 0 <= i < j < a1.len() implies cell_lt(#[trigger] a1[i], #[trigger] a1[j]) by {
            assert(a1[i] == a[i + 1] && a1[j] == a[j + 1]);
        }
        assert forall|i: int, j: int| 0 <= i < j < b1.len() implies cell_lt(#[trigger] b1[i], #[trigger] b1[j]) by {
            assert(b1[i] == b[i + 1] && b1[j] == b[j + 1]);
        }
        lemma_sorted_unique(a1, b1);
        assert(a =~= b) by {
            assert forall|i: int| 0 <= i < a.len() implies a[i] == b[i] by {
                if i > 0 {
                    assert(a[i] == a1[i - 1] && b[i] == b1[i - 1]);
                }
            }
        }
    }
}

/// Whatever sorted sequence of the cells of `p` is at hand is
/// `sorted_cells(p)`.
proof fn lemma_sorted_cells(s: Seq<(i32, i32, i32)>, p: Seq<(i32, i32, i32)>)
    requires
        strictly_sorted(s),
        same_cells(s, p),
    ensures
        sorted_cells(p) == s,
{
    let t = sorted_cells(p);
    assert(strictly_sorted(t) && same_cells(t, p));
    assert(same_cells(t, s));
    lemma_sorted_unique(t, s);
}

/// `slice::sort_unstable` on a list of cells. std documents that it
/// leaves the slice in ascending order, comparing tuples
/// lexicographically, and only reorders its elements.
#[verifier::external_body]
fn sort_cells(v: &mut Vec<(i32, i32, i32)>)
    ensures
        final(v)@.to_multiset() == old(v)@.to_multiset(),
        forall|i: int, j: int| 0 <= i < j < final(v)@.len() ==> cell_le(#[trigger] final(v)@[i], #[trigger] final(v)@[j]),
{
    v.sort_unstable();
}

/// Drop the repeats from an ascending list.
fn dedup_sorted(v: &Vec<(i32, i32, i32)>) -> (r: Vec<(i32, i32, i32)>)
    requires
        forall|i: int, j: int| 0 <= i < j < v@.len() ==> cell_le(#[trigger] v@[i], #[trigger] v@[j]),
    ensures
        strictly_sorted(r@),
        same_cells(r@, v@),
{
    let mut r: Vec<(i32, i32, i32)> = Vec::new();
    let mut i: usize = 0;
    while i < v.len()
        invariant
            0 <= i <= v.len(),
            forall|a: int, b: int| 0 <= a < b < v@.len() ==> cell_le(#[trigger] v@[a], #[trigger] v@[b]),
            strictly_sorted(r@),
            i > 0 ==> r@.len() > 0 && r@.last() == v@[i - 1],
            i == 0 ==> r@.len() == 0,
            same_cells(r@, v@.take(i as int)),
        decreases v.len() - i,
    {
        let c = v[i];
        let ghost r0 = r@;
        let fresh = if r.len() == 0 {
            true
        } else {
            let l = r[r.len() - 1];
            l.0 != c.0 || l.1 != c.1 || l.2 != c.2
        };
        if fresh {
            if r.len() > 0 {
                assert(cell_le(v@[i - 1], v@[i as int]));
            }
            r.push(c);
            assert forall|a: int, b: int| 0 <= a < b < r@.len() implies cell_lt(#[trigger] r@[a], #[trigger] r@[b]) by {
                if b == r@.len() - 1 && a < r0.len() - 1 {
                    assert(cell_lt(r0[a], r0[r0.len() - 1]));
                }
            }
        }
        proof {
            let t0 = v@.take(i as int);
            let t1 = v@.take(i + 1);
            if !fresh {
                assert(r0[r0.len() - 1] == c);
            }
            assert forall|x: (i32, i32, i32)| #[trigger] r@.contains(x) <==> t1.contains(x) by {
                if r@.contains(x) {
                    let k = choose|k: int| 0 <= k < r@.len() && r@[k] == x;
                    if k < r0.len() {
                        assert(r0[k] == x);
                        assert(r0.contains(x));
                        assert(t0.contains(x));
                        let j = choose|j: int| 0 <= j < t0.len() && t0[j] == x;
                        assert(t1[j] == x);
                    } else {
                        assert(t1[i as int] == c);
                    }
                }
                if t1.contains(x) {
                    let j = choose|j: int| 0 <= j < t1.len() && t1[j] == x;
                    if j < i {
                        assert(t0[j] == x);
                        assert(t0.contains(x));
                        assert(r0.contains(x));
                        let k = choose|k: int| 0 <= k < r0.len() && r0[k] == x;
                        assert(r@[k] == x);
                    } else if fresh {
                        assert(r@[r@.len() - 1] == c);
                    } else {
                        assert(r@[r0.len() - 1] == c);
                    }
                }
            }
        }
        i = i + 1;
    }
    assert(v@.take(v@.len() as int) =~= v@);
    r
}

/// Far enough from the edge of the `i32` range for a cell and its
/// neighbors.
pub open spec fn margin_ok(v: i32) -> bool {
    i32::MIN + 22 <= v <= i32::MAX - 22
}

/// The four horizontal neighbors, in the order they are fed from and
/// spread to: `+x`, `-x`, `+z`, `-z`.
pub open spec fn side(c: (i32, i32, i32), d: int) -> (i32, i32, i32) {
    if d == 0 {
        ((c.0 + 1) as i32, c.1, c.2)
    } else if d == 1 {
        ((c.0 - 1) as i32, c.1, c.2)
    } else if d == 2 {
        (c.0, c.1, (c.2 + 1) as i32)
    } else {
        (c.0, c.1, (c.2 - 1) as i32)
    }
}

/// A neighbor that feeds a flowing cell: the same liquid, stronger.
pub open spec fn feeds(nb: Block, water: bool, level: u8) -> bool {
    blocks::spec_is_water(nb) == water && blocks::spec_is_liquid(nb) && blocks::spec_liquid_level(nb) > level
}

/// Whether the flowing liquid `b` at `c` is fed: by a stronger side
/// neighbor of the same liquid, or by the same liquid above.
pub open spec fn fed(w: WorldView, c: (i32, i32, i32), b: Block) -> bool {
    let water = blocks::spec_is_water(b);
    let level = blocks::spec_liquid_level(b);
    let above = block_at(w.chunks, c.0, (c.1 + 1) as i32, c.2);
    feeds(block_at_pos(w.chunks, side(c, 0)), water, level) || feeds(block_at_pos(w.chunks, side(c, 1)), water, level)
        || feeds(block_at_pos(w.chunks, side(c, 2)), water, level) || feeds(
        block_at_pos(w.chunks, side(c, 3)),
        water,
        level,
    ) || (blocks::spec_is_liquid(above) && blocks::spec_is_water(above) == water)
}

/// What falls into an open cell below: strong flowing water, or lava.
pub open spec fn fall_block(water: bool) -> Block {
    if water { Block::WaterF3 } else { Block::LavaF2 }
}

/// The flow one level weaker than a cell of level `level`.
pub open spec fn weaker(water: bool, level: u8) -> Block {
    if water {
        if level == 4 { Block::WaterF3 } else if level == 3 { Block::WaterF2 } else { Block::WaterF1 }
    } else {
        if level == 3 { Block::LavaF2 } else { Block::LavaF1 }
    }
}

pub open spec fn put(c: (i32, i32, i32), b: Block, g: Guard) -> EditOp {
    EditOp { x: c.0, y: c.1, z: c.2, block: b, guard: g }
}

/// The writes a liquid update of cell `c` makes in world `w`.
pub open spec fn fluid_ops(w: WorldView, c: (i32, i32, i32)) -> Seq<EditOp> {
    let b = block_at_pos(w.chunks, c);
    let water = blocks::spec_is_water(b);
    let level = blocks::spec_liquid_level(b);
    let below_c = (c.0, (c.1 - 1) as i32, c.2);
    let below = block_at_pos(w.chunks, below_c);
    if !blocks::spec_is_liquid(b) {
        Seq::empty()
    } else if !(b == Block::Water || b == Block::Lava) && !fed(w, c, b) {
        seq![put(c, Block::Air, Guard::Always)]
    } else if blocks::spec_is_replaceable(below) && !blocks::spec_is_liquid(below) && c.1 > 0 {
        seq![put(below_c, fall_block(water), Guard::Always)]
    } else if (blocks::spec_is_solid(below) || blocks::spec_is_liquid(below)) && level > 1 {
        let n = weaker(water, level);
        seq![put(side(c, 0), n, Guard::OpenDry), put(side(c, 1), n, Guard::OpenDry), put(side(c, 2), n, Guard::OpenDry), put(side(c, 3), n, Guard::OpenDry)]
    } else {
        Seq::empty()
    }
}

/// A liquid update never writes above the updated cell's row, and never
/// touches the cell itself when it holds a source block: only flowing
/// liquid dries up.
pub proof fn lemma_flow_writes(w: WorldView, c: (i32, i32, i32))
    requires
        margin_ok(c.0),
        margin_ok(c.2),
    ensures
        forall|i: int| 0 <= i < fluid_ops(w, c).len() ==> #[trigger] fluid_ops(w, c)[i].y <= c.1,
        ({
            let b = block_at_pos(w.chunks, c);
            b == Block::Water || b == Block::Lava ==> forall|i: int| 0 <= i < fluid_ops(w, c).len() ==> !(
            #[trigger] fluid_ops(w, c)[i].x == c.0 && fluid_ops(w, c)[i].y == c.1 && fluid_ops(w, c)[i].z == c.2)
        }),
{
    let b = block_at_pos(w.chunks, c);
    if blocks::spec_is_liquid(b) {
        assert(0 <= c.1 < crate::world::HEIGHT);
    }
}


/// A liquid that stays (a source, or a flow that is fed) and rests on a
/// solid or liquid block spreads sideways when its level is above 1: the
/// update writes, into each of the four horizontal neighbors and nowhere
/// else, a flow of the same liquid one level weaker, guarded so it only
/// fills open cells. This holds for lava as for water.
pub proof fn lemma_liquid_spreads_sideways(w: WorldView, c: (i32, i32, i32))
    requires
        blocks::spec_is_liquid(block_at_pos(w.chunks, c)),
        block_at_pos(w.chunks, c) == Block::Water || block_at_pos(w.chunks, c) == Block::Lava || fed(
            w,
            c,
            block_at_pos(w.chunks, c),
        ),
        blocks::spec_is_solid(block_at_pos(w.chunks, (c.0, (c.1 - 1) as i32, c.2))) || blocks::spec_is_liquid(
            block_at_pos(w.chunks, (c.0, (c.1 - 1) as i32, c.2)),
        ),
        blocks::spec_liquid_level(block_at_pos(w.chunks, c)) > 1,
    ensures
        fluid_ops(w, c).len() == 4,
        forall|d: int| 0 <= d < 4 ==> {
            let op = #[trigger] fluid_ops(w, c)[d];
            let b = block_at_pos(w.chunks, c);
            &&& (op.x, op.y, op.z) == side(c, d)
            &&& op.guard == Guard::OpenDry
            &&& blocks::spec_is_liquid(op.block)
            &&& blocks::spec_is_water(op.block) == blocks::spec_is_water(b)
            &&& blocks::spec_liquid_level(op.block) + 1 == blocks::spec_liquid_level(b)
        },
{
    let b = block_at_pos(w.chunks, c);
    let below = block_at_pos(w.chunks, (c.0, (c.1 - 1) as i32, c.2));
    assert(!(blocks::spec_is_replaceable(below) && !blocks::spec_is_liquid(below)));
    let ops = fluid_ops(w, c);
    assert forall|d: int| 0 <= d < 4 implies {
        let op = #[trigger] fluid_ops(w, c)[d];
        &&& (op.x, op.y, op.z) == side(c, d)
        &&& op.guard == Guard::OpenDry
        &&& blocks::spec_is_liquid(op.block)
        &&& blocks::spec_is_water(op.block) == blocks::spec_is_water(b)
        &&& blocks::spec_liquid_level(op.block) + 1 == blocks::spec_liquid_level(b)
    } by {
        assert(d == 0 || d == 1 || d == 2 || d == 3);
    }
}

/// A liquid that stays and has an open, dry cell below it (above the
/// bottom of the world) falls: the update writes only that cell, with the
/// strongest flow of the same liquid (one level below its source).
pub proof fn lemma_liquid_falls(w: WorldView, c: (i32, i32, i32))
    requires
        blocks::spec_is_liquid(block_at_pos(w.chunks, c)),
        block_at_pos(w.chunks, c) == Block::Water || block_at_pos(w.chunks, c) == Block::Lava || fed(
            w,
            c,
            block_at_pos(w.chunks, c),
        ),
        blocks::spec_is_replaceable(block_at_pos(w.chunks, (c.0, (c.1 - 1) as i32, c.2))),
        !blocks::spec_is_liquid(block_at_pos(w.chunks, (c.0, (c.1 - 1) as i32, c.2))),
        c.1 > 0,
    ensures
        fluid_ops(w, c).len() == 1,
        ({
            let op = fluid_ops(w, c)[0];
            let water = blocks::spec_is_water(block_at_pos(w.chunks, c));
            &&& (op.x, op.y, op.z) == (c.0, (c.1 - 1) as i32, c.2)
            &&& op.guard == Guard::Always
            &&& blocks::spec_is_liquid(op.block)
            &&& blocks::spec_is_water(op.block) == water
            &&& blocks::spec_liquid_level(op.block) + 1 == blocks::spec_liquid_level(
                if water { Block::Water } else { Block::Lava },
            )
        }),
{
}

/// A flowing liquid that no stronger neighbor of its kind and no liquid of
/// its kind above feeds dries up: the update clears that cell and writes
/// nothing else. A source never dries up.
pub proof fn lemma_unfed_flow_dries(w: WorldView, c: (i32, i32, i32))
    requires
        blocks::spec_is_liquid(block_at_pos(w.chunks, c)),
    ensures
        block_at_pos(w.chunks, c) != Block::Water && block_at_pos(w.chunks, c) != Block::Lava && !fed(
            w,
            c,
            block_at_pos(w.chunks, c),
        ) ==> fluid_ops(w, c) == seq![put(c, Block::Air, Guard::Always)],
        forall|i: int| 0 <= i < fluid_ops(w, c).len() && (block_at_pos(w.chunks, c) == Block::Water
            || block_at_pos(w.chunks, c) == Block::Lava) ==> #[trigger] fluid_ops(w, c)[i].block != Block::Air,
{
}

/// `t` lists the worlds before, between and after the updates of the cells
/// of `batch`.
pub open spec fn flow_trace(t: Seq<WorldView>, batch: Seq<(i32, i32, i32)>) -> bool {
    &&& t.len() == batch.len() + 1
    &&& forall|i: int| 0 <= i < batch.len() ==> #[trigger] ops_post(t[i], t[i + 1], fluid_ops(t[i], batch[i]))
}

/// One liquid tick taking world `o` to world `f`: the batch leaves the
/// queue, then its cells are updated in order.
pub open spec fn fluid_step_post(o: WorldView, f: WorldView) -> bool {
    let batch = batch_of(o.pending_fluid);
    exists|t: Seq<WorldView>| #[trigger] flow_trace(t, batch) && t[0] == (WorldView {
        pending_fluid: left_over(o.pending_fluid),
        ..o
    }) && t[batch.len() as int] == f
}

pub open spec fn queue_in_range(p: Seq<(i32, i32, i32)>) -> bool {
    forall|i: int| 0 <= i < p.len() ==> margin_ok(#[trigger] p[i].0) && margin_ok(p[i].2)
}

impl World {
    /// Take one tick's batch of queued liquid updates off the queue.
    pub fn take_fluid_batch(&mut self) -> (batch: Vec<(i32, i32, i32)>)
        requires
            old(self).wf(),
        ensures
            final(self).wf(),
            batch@ == batch_of(old(self)@.pending_fluid),
            strictly_sorted(sorted_cells(old(self)@.pending_fluid)),
            same_cells(sorted_cells(old(self)@.pending_fluid), old(self)@.pending_fluid),
            final(self)@ == (WorldView { pending_fluid: left_over(old(self)@.pending_fluid), ..old(self)@ }),
    {
        let ghost p = self@.pending_fluid;
        let mut q: Vec<(i32, i32, i32)> = Vec::new();
        std::mem::swap(&mut q, &mut self.pending_fluid);
        let ghost q0 = q@;
        sort_cells(&mut q);
        assert forall|c: (i32, i32, i32)| #[trigger] q@.contains(c) <==> p.contains(c) by {
            assert(q@.to_multiset().count(c) == q0.to_multiset().count(c));
        }
        let mut s = dedup_sorted(&q);
        proof {
            lemma_sorted_cells(s@, p);
        }
        if s.len() > FLUID_BATCH {
            let rest = s.split_off(FLUID_BATCH);
            self.pending_fluid = rest;
        }
        assert(self@.chunks == old(self)@.chunks);
        s
    }

    /// The writes a liquid update of cell `(fx, fy, fz)` makes.
    pub fn fluid_ops_at(&self, fx: i32, fy: i32, fz: i32) -> (ops: Vec<EditOp>)
        requires
            self.wf(),
            margin_ok(fx),
            margin_ok(fz),
        ensures
            ops@ == fluid_ops(self@, (fx, fy, fz)),
            ops_in_range(ops@),
    {
        let c = (fx, fy, fz);
        let b = self.get_block(fx, fy, fz);
        let mut ops: Vec<EditOp> = Vec::new();
        if !b.is_liquid() {
            return ops;
        }
        let water = b.is_water();
        let level = b.liquid_level();
        let source = match b {
            Block::Water | Block::Lava => true,
            _ => false,
        };
        if !source {
            let mut fed_now = false;
            let n0 = self.get_block(fx + 1, fy, fz);
            let n1 = self.get_block(fx - 1, fy, fz);
            let n2 = self.get_block(fx, fy, fz + 1);
            let n3 = self.get_block(fx, fy, fz - 1);
            if (n0.is_water() == water && n0.is_liquid()) && n0.liquid_level() > level {
                fed_now = true;
            }
            if (n1.is_water() == water && n1.is_liquid()) && n1.liquid_level() > level {
                fed_now = true;
            }
            if (n2.is_water() == water && n2.is_liquid()) && n2.liquid_level() > level {
                fed_now = true;
            }
            if (n3.is_water() == water && n3.is_liquid()) && n3.liquid_level() > level {
                fed_now = true;
            }
            // fy is a row of the world here, so fy + 1 cannot overflow.
            let above = self.get_block(fx, fy + 1, fz);
            if above.is_liquid() && above.is_water() == water {
                fed_now = true;
            }
            assert(fed_now == fed(self@, c, b));
            if !fed_now {
                ops.push(EditOp { x: fx, y: fy, z: fz, block: Block::Air, guard: Guard::Always });
                assert(ops@ =~= seq![put(c, Block::Air, Guard::Always)]);
                return ops;
            }
        }
        let below = self.get_block(fx, fy - 1, fz);
        if below.is_replaceable() && !below.is_liquid() && fy > 0 {
            let fall = if water { Block::WaterF3 } else { Block::LavaF2 };
            ops.push(EditOp { x: fx, y: fy - 1, z: fz, block: fall, guard: Guard::Always });
            assert(ops@ =~= seq![put((fx, (fy - 1) as i32, fz), fall_block(water), Guard::Always)]);
        } else if (below.is_solid() || below.is_liquid()) && level > 1 {
            let next = if water {
                match level {
                    4 => Block::WaterF3,
                    3 => Block::WaterF2,
                    _ => Block::WaterF1,
                }
            } else {
                match level {
                    3 => Block::LavaF2,
                    _ => Block::LavaF1,
                }
            };
            assert(next == weaker(water, level));
            ops.push(EditOp { x: fx + 1, y: fy, z: fz, block: next, guard: Guard::OpenDry });
            ops.push(EditOp { x: fx - 1, y: fy, z: fz, block: next, guard: Guard::OpenDry });
            ops.push(EditOp { x: fx, y: fy, z: fz + 1, block: next, guard: Guard::OpenDry });
            ops.push(EditOp { x: fx, y: fy, z: fz - 1, block: next, guard: Guard::OpenDry });
            assert(ops@ =~= seq![put(side(c, 0), next, Guard::OpenDry), put(side(c, 1), next, Guard::OpenDry), put(side(c, 2), next, Guard::OpenDry), put(side(c, 3), next, Guard::OpenDry)]);
        }
        ops
    }
}

/// One liquid tick: take a batch of queued cells (see `batch_of`) and
/// update each in turn (see `fluid_ops`); the writes queue further
/// updates for later ticks.
pub fn fluid_step(world: &mut World)
    requires
        old(world).wf(),
        fill_ok(old(world)@),
        queue_in_range(old(world)@.pending_fluid),
    ensures
        final(world).wf(),
        fluid_step_post(old(world)@, final(world)@),
{
    let ghost o = world@;
    let batch = world.take_fluid_batch();
    let ghost w0 = world@;
    let ghost mut t: Seq<WorldView> = seq![world@];
    proof {
        let s = sorted_cells(o.pending_fluid);
        assert forall|i: int| 0 <= i < batch@.len() implies margin_ok(#[trigger] batch@[i].0) && margin_ok(batch@[i].2) by {
            assert(batch@[i] == s[i]);
            assert(s.contains(s[i]));
            assert(o.pending_fluid.contains(s[i]));
            let k = choose|k: int| 0 <= k < o.pending_fluid.len() && o.pending_fluid[k] == s[i];
            assert(margin_ok(o.pending_fluid[k].0));
        }
    }
    let mut i: usize = 0;
    while i < batch.len()
        invariant
            0 <= i <= batch.len(),
            world.wf(),
            fill_ok(world@),
            forall|k: int| 0 <= k < batch@.len() ==> margin_ok(#[trigger] batch@[k].0) && margin_ok(batch@[k].2),
            t.len() == i + 1,
            t[0] == w0,
            t[i as int] == world@,
            forall|k: int| 0 <= k < i ==> #[trigger] ops_post(t[k], t[k + 1], fluid_ops(t[k], batch@[k])),
        decreases batch.len() - i,
    {
        let (fx, fy, fz) = batch[i];
        assert(margin_ok(batch@[i as int].0) && margin_ok(batch@[i as int].2));
        let ops = world.fluid_ops_at(fx, fy, fz);
        let ghost before = world@;
        world.apply_ops(&ops);
        proof {
            t = t.push(world@);
            assert(ops_post(t[i as int], t[i + 1], fluid_ops(t[i as int], batch@[i as int])));
        }
        i = i + 1;
    }
    assert(flow_trace(t, batch@));
}

} // verus!
