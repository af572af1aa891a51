//! Edit programs: lists of guarded block writes applied to a world in
//! order, each through `World::set_block` and each seeing the world the
//! earlier ones left. Liquid flow, tree growth and portal arrival are
//! written as such programs.

use vstd::prelude::*;
use crate::blocks;
use crate::blocks::Block;
use crate::world::{block_at, coord_ok, set_block_post, World, WorldView};

verus! {

/// When a guarded write goes ahead, judged by the block in the cell at
/// the moment of writing.
#[derive(Clone, Copy, PartialEq, Eq, Debug, Structural)]
pub enum Guard {
    /// Whatever is there.
    Always,
    /// Only into a cell that is not solid.
    NotSolid,
    /// Only into a replaceable cell that holds no liquid.
    OpenDry,
}

/// Write `block` at `(x, y, z)` if `guard` allows it.
#[derive(Clone, Copy, PartialEq, Eq, Debug, Structural)]
pub struct EditOp {
    pub x: i32,
    pub y: i32,
    pub z: i32,
    pub block: Block,
    pub guard: Guard,
}

pub open spec fn guard_allows(g: Guard, b: Block) -> bool {
    match g {
        Guard::Always => true,
        Guard::NotSolid => !blocks::spec_is_solid(b),
        Guard::OpenDry => blocks::spec_is_replaceable(b) && !blocks::spec_is_liquid(b),
    }
}

/// One guarded write taking world `o` to world `f`.
pub open spec fn op_post(o: WorldView, f: WorldView, op: EditOp) -> bool {
    if guard_allows(op.guard, block_at(o.chunks, op.x, op.y, op.z)) {
        set_block_post(o, f, op.x, op.y, op.z, op.block)
    } else {
        f == o
    }
}

/// `t` lists the worlds before, between and after the writes of `ops`.
pub open spec fn ops_trace(t: Seq<WorldView>, ops: Seq<EditOp>) -> bool {
    &&& t.len() == ops.len() + 1
    &&& forall|i: int| 0 <= i < ops.len() ==> #[trigger] op_post(t[i], t[i + 1], ops[i])
}

/// Applying the writes of `ops` in order takes world `o` to world `f`.
pub open spec fn ops_post(o: WorldView, f: WorldView, ops: Seq<EditOp>) -> bool {
    exists|t: Seq<WorldView>| #[trigger] ops_trace(t, ops) && t[0] == o && t[ops.len() as int] == f
}

/// Comparator inputs hold fill levels 0 to 15.
pub open spec fn fill_ok(w: WorldView) -> bool {
    forall|k: u128| #[trigger] w.container_fill.contains_key(k) ==> w.container_fill[k] <= 15
}

/// Every write of `ops` lies far enough from the edge of the `i32` range.
pub open spec fn ops_in_range(ops: Seq<EditOp>) -> bool {
    forall|i: int| 0 <= i < ops.len() ==> coord_ok(#[trigger] ops[i].x) && coord_ok(ops[i].z)
}

/// A block edit leaves the comparator inputs, dimension and seed alone.
pub proof fn lemma_set_block_keeps(o: WorldView, f: WorldView, x: i32, y: i32, z: i32, b: Block)
    requires
        set_block_post(o, f, x, y, z, b),
    ensures
        f.container_fill == o.container_fill,
        f.dim == o.dim,
        f.seed == o.seed,
{
}

impl World {
    /// Whether `guard` lets a write into the cell at `(x, y, z)` go ahead.
    pub fn guard_allows_at(&self, guard: Guard, x: i32, y: i32, z: i32) -> (r: bool)
        requires
            self.wf(),
        ensures
            r == guard_allows(guard, block_at(self@.chunks, x, y, z)),
    {
        let b = self.get_block(x, y, z);
        match guard {
            Guard::Always => true,
            Guard::NotSolid => !b.is_solid(),
            Guard::OpenDry => b.is_replaceable() && !b.is_liquid(),
        }
    }

    /// Apply the guarded writes of `ops` in order.
    pub fn apply_ops(&mut self, ops: &Vec<EditOp>)
        requires
            old(self).wf(),
            fill_ok(old(self)@),
            ops_in_range(ops@),
        ensures
            final(self).wf(),
            ops_post(old(self)@, final(self)@, ops@),
            final(self)@.container_fill == old(self)@.container_fill,
            final(self)@.dim == old(self)@.dim,
            final(self)@.seed == old(self)@.seed,
    {
        let ghost o = self@;
        let ghost mut t: Seq<WorldView> = seq![self@];
        let mut i: usize = 0;
        while i < ops.len()
            invariant
                0 <= i <= ops.len(),
                self.wf(),
                ops_in_range(ops@),
                t.len() == i + 1,
                t[0] == o,
                t[i as int] == self@,
                forall|j: int| 0 <= j < i ==> #[trigger] op_post(t[j], t[j + 1], ops@[j]),
                self@.container_fill == o.container_fill,
                self@.dim == o.dim,
                self@.seed == o.seed,
                fill_ok(o),
            decreases ops.len() - i,
        {
            let op = ops[i];
            let ghost before = self@;
            assert(coord_ok(ops@[i as int].x) && coord_ok(ops@[i as int].z));
            if self.guard_allows_at(op.guard, op.x, op.y, op.z) {
                self.set_block(op.x, op.y, op.z, op.block);
                proof {
                    lemma_set_block_keeps(before, self@, op.x, op.y, op.z, op.block);
                }
            }
            proof {
                t = t.push(self@);
                assert(op_post(t[i as int], t[i + 1], ops@[i as int]));
            }
            i = i + 1;
        }
        assert(ops_trace(t, ops@));
    }
}

} // verus!
