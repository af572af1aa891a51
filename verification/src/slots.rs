//! Inventory screens: what a click does to the clicked slot and the stack
//! held on the cursor.

use vstd::prelude::*;
use crate::items::{new_stack, spec_max_stack, take_one, Item, ItemStack};

verus! {

/// Two stacks that merge: the same item with the same enchantment and wear.
pub open spec fn same_kind(a: ItemStack, b: ItemStack) -> bool {
    a.item == b.item && a.ench == b.ench && a.ench_kind == b.ench_kind && a.dura == b.dura
}

/// A stack with its count replaced.
pub open spec fn with_count(s: ItemStack, n: u32) -> ItemStack {
    ItemStack { count: n, ..s }
}

/// A stack of `n`, or nothing when `n` is zero.
pub open spec fn nonempty(s: ItemStack, n: int) -> Option<ItemStack> {
    if n > 0 { Some(with_count(s, n as u32)) } else { None }
}

/// A click with the left button: pick up, put down, merge into the slot as
/// far as it has room, or swap differing stacks.
pub open spec fn left_click(slot: Option<ItemStack>, cursor: Option<ItemStack>) -> (Option<ItemStack>, Option<ItemStack>) {
    match (slot, cursor) {
        (None, None) => (None, None),
        (Some(s), None) => (None, Some(s)),
        (None, Some(c)) => (Some(c), None),
        (Some(s), Some(c)) => if same_kind(s, c) {
            let room = spec_max_stack(s.item) - s.count;
            let put = if room < c.count { room } else { c.count as int };
            (Some(with_count(s, (s.count + put) as u32)), nonempty(c, c.count - put))
        } else {
            (Some(c), Some(s))
        },
    }
}

/// A click with the right button: pick up half (rounded up), put down one,
/// or add one from the cursor to a matching slot with room.
pub open spec fn right_click(slot: Option<ItemStack>, cursor: Option<ItemStack>) -> (Option<ItemStack>, Option<ItemStack>) {
    match (slot, cursor) {
        (None, None) => (None, None),
        (Some(s), None) => {
            let half = (s.count + 1) / 2;
            (
                if s.count - half > 0 { Some(new_stack(s.item, (s.count - half) as u32)) } else { None },
                Some(new_stack(s.item, half as u32)),
            )
        },
        (None, Some(c)) => (Some(new_stack(c.item, 1)), nonempty(c, c.count - 1)),
        (Some(s), Some(c)) => if same_kind(s, c) && s.count < spec_max_stack(s.item) {
            (Some(with_count(s, (s.count + 1) as u32)), nonempty(c, c.count - 1))
        } else {
            (Some(s), nonempty(c, c.count as int))
        },
    }
}

/// What a click leaves in the slot and on the cursor.
pub open spec fn spec_interact(slot: Option<ItemStack>, cursor: Option<ItemStack>, lmb: bool, rmb: bool) -> (
    Option<ItemStack>,
    Option<ItemStack>,
) {
    if lmb {
        left_click(slot, cursor)
    } else if rmb {
        right_click(slot, cursor)
    } else {
        (slot, cursor)
    }
}

/// The inputs on which a click stays within `u32`: a left-click merge into
/// a slot holding no more than a full stack, and a right-click that moves
/// one item from a cursor holding at least one.
pub open spec fn interact_ok(slot: Option<ItemStack>, cursor: Option<ItemStack>, lmb: bool, rmb: bool) -> bool {
    &&& lmb && slot is Some && cursor is Some && same_kind(slot->0, cursor->0) ==> slot->0.count <= spec_max_stack(
        slot->0.item,
    )
    &&& !lmb && rmb && slot is None && cursor is Some ==> cursor->0.count >= 1
    &&& !lmb && rmb && slot is Some && cursor is Some && same_kind(slot->0, cursor->0) && slot->0.count
        < spec_max_stack(slot->0.item) ==> cursor->0.count >= 1
}

/// Click an ordinary slot with the left (`lmb`) or right (`rmb`) button.
pub fn interact(slot: &mut Option<ItemStack>, cursor: &mut Option<ItemStack>, lmb: bool, rmb: bool)
    requires
        interact_ok(*old(slot), *old(cursor), lmb, rmb),
    ensures
        (*final(slot), *final(cursor)) == spec_interact(*old(slot), *old(cursor), lmb, rmb),
{
    let s0 = *slot;
    let c0 = *cursor;
    if lmb {
        match (s0, c0) {
            (None, None) => {},
            (Some(s), None) => {
                *slot = None;
                *cursor = Some(s);
            },
            (None, Some(c)) => {
                *slot = Some(c);
                *cursor = None;
            },
            (Some(s), Some(c)) => {
                if s.item == c.item && s.ench == c.ench && s.ench_kind == c.ench_kind && s.dura == c.dura {
                    let room = s.item.max_stack() - s.count;
                    let put = if room < c.count { room } else { c.count };
                    *slot = Some(ItemStack { count: s.count + put, ..s });
                    *cursor = if c.count - put > 0 { Some(ItemStack { count: c.count - put, ..c }) } else { None };
                } else {
                    *slot = Some(c);
                    *cursor = Some(s);
                }
            },
        }
    } else if rmb {
        match (s0, c0) {
            (None, None) => {},
            (Some(s), None) => {
                let half = s.count / 2 + s.count % 2;
                assert(half == (s.count + 1) / 2);
                *cursor = Some(ItemStack::new(s.item, half));
                *slot = if s.count - half > 0 { Some(ItemStack::new(s.item, s.count - half)) } else { None };
            },
            (None, Some(c)) => {
                *slot = Some(ItemStack::new(c.item, 1));
                *cursor = if c.count - 1 > 0 { Some(ItemStack { count: c.count - 1, ..c }) } else { None };
            },
            (Some(s), Some(c)) => {
                if s.item == c.item && s.ench == c.ench && s.ench_kind == c.ench_kind && s.dura == c.dura && s.count
                    < s.item.max_stack() {
                    *slot = Some(ItemStack { count: s.count + 1, ..s });
                    *cursor = if c.count - 1 > 0 { Some(ItemStack { count: c.count - 1, ..c }) } else { None };
                } else {
                    *cursor = if c.count > 0 { Some(c) } else { None };
                }
            },
        }
    }
}

/// A left click on a take-only slot (a crafting result, a furnace output):
/// the whole stack goes to the cursor, or onto a cursor stack of the same
/// item that has room for all of it. Returns whether it was taken.
pub open spec fn spec_take(slot: Option<ItemStack>, cursor: Option<ItemStack>, lmb: bool) -> (
    bool,
    Option<ItemStack>,
    Option<ItemStack>,
) {
    if !lmb {
        (false, slot, cursor)
    } else {
        match slot {
            None => (false, slot, cursor),
            Some(s) => match cursor {
                None => (true, None, Some(s)),
                Some(c) => if c.item == s.item && c.count + s.count <= spec_max_stack(s.item) {
                    (true, None, Some(with_count(c, (c.count + s.count) as u32)))
                } else {
                    (false, slot, cursor)
                },
            },
        }
    }
}

pub fn interact_take(slot: &mut Option<ItemStack>, cursor: &mut Option<ItemStack>, lmb: bool) -> (taken: bool)
    requires
        lmb && (*old(slot)) is Some && (*old(cursor)) is Some ==> (*old(slot))->0.count + (*old(cursor))->0.count
            <= u32::MAX,
    ensures
        (taken, *final(slot), *final(cursor)) == spec_take(*old(slot), *old(cursor), lmb),
{
    if !lmb {
        return false;
    }
    let s = match *slot {
        Some(s) => s,
        None => {
            return false;
        },
    };
    match *cursor {
        None => {
            *slot = None;
            *cursor = Some(s);
            true
        },
        Some(c) => {
            if c.item == s.item && c.count + s.count <= s.item.max_stack() {
                *slot = None;
                *cursor = Some(ItemStack { count: c.count + s.count, ..c });
                true
            } else {
                false
            }
        },
    }
}

// ---------------------------------------------------------------------------
// Crafting grids.
// ---------------------------------------------------------------------------

/// The item in cell `i` (row by row) of the top-left `n` x `n` of a 3 x 3
/// crafting grid.
pub open spec fn grid_item(g: Seq<Option<ItemStack>>, n: int, i: int) -> Option<Item> {
    match g[(i / n) * 3 + i % n] {
        Some(st) => Some(st.item),
        None => None,
    }
}

/// The items of the top-left `n` x `n` of a 3 x 3 crafting grid, row by
/// row: what the recipes are matched against.
pub fn grid_items(grid: &Vec<Option<ItemStack>>, n: usize) -> (items: Vec<Option<Item>>)
    requires
        grid@.len() == 9,
        1 <= n <= 3,
    ensures
        items@.len() == n * n,
        forall|i: int| 0 <= i < n * n ==> #[trigger] items@[i] == grid_item(grid@, n as int, i),
{
    let mut items: Vec<Option<Item>> = Vec::new();
    assert(n * n <= 9) by (nonlinear_arith)
        requires
            1 <= n <= 3,
    ;
    let cells = n * n;
    let mut i: usize = 0;
    while i < cells
        invariant
            1 <= n <= 3,
            cells == n * n,
            grid@.len() == 9,
            0 <= i <= n * n,
            items@.len() == i,
            forall|j: int| 0 <= j < i ==> #[trigger] items@[j] == grid_item(grid@, n as int, j),
        decreases cells - i,
    {
        assert((i / n) * 3 + i % n < 9) by (nonlinear_arith)
            requires
                1 <= n <= 3,
                i < n * n,
        ;
        let cell = grid[(i / n) * 3 + i % n];
        items.push(match cell {
            Some(st) => Some(st.item),
            None => None,
        });
        i = i + 1;
    }
    items
}

/// How many items a recipe result makes (none for no result).
pub open spec fn crafted_count(result: Option<(Item, u32)>) -> int {
    match result {
        Some((_, k)) => k as int,
        None => 0,
    }
}

/// Every ingredient in the grid used once.
pub open spec fn consume_one(g: Seq<Option<ItemStack>>) -> Seq<Option<ItemStack>> {
    g.map_values(|s: Option<ItemStack>| take_one(s))
}

/// A left click on the output slot of a crafting grid showing `result`:
/// when the cursor takes the crafted stack (see `spec_take`), every
/// ingredient in the grid is used once; otherwise nothing changes.
pub fn take_craft_output(grid: &mut Vec<Option<ItemStack>>, result: Option<(Item, u32)>, cursor: &mut Option<ItemStack>) -> (taken: bool)
    requires
        forall|i: int| 0 <= i < old(grid)@.len() && (#[trigger] old(grid)@[i]) is Some ==> old(grid)@[i]->0.count >= 1,
        result is Some && (*old(cursor)) is Some ==> crafted_count(result) + (*old(cursor))->0.count <= u32::MAX,
    ensures
        match result {
            None => !taken && final(grid)@ == old(grid)@ && *final(cursor) == *old(cursor),
            Some((item, count)) => {
                let t = spec_take(Some(new_stack(item, count)), *old(cursor), true);
                &&& taken == t.0
                &&& *final(cursor) == t.2
                &&& final(grid)@ == if t.0 { consume_one(old(grid)@) } else { old(grid)@ }
            },
        },
{
    match result {
        None => false,
        Some((item, count)) => {
            let mut out = Some(ItemStack::new(item, count));
            if interact_take(&mut out, cursor, true) {
                let ghost g0 = grid@;
                let mut i: usize = 0;
                while i < grid.len()
                    invariant
                        0 <= i <= grid@.len(),
                        grid@.len() == g0.len(),
                        forall|j: int| 0 <= j < i ==> #[trigger] grid@[j] == take_one(g0[j]),
                        forall|j: int| i <= j < grid@.len() ==> #[trigger] grid@[j] == g0[j],
                    decreases grid@.len() - i,
                {
                    if let Some(st) = grid[i] {
                        let next = if st.count <= 1 { None } else { Some(ItemStack { count: st.count - 1, ..st }) };
                        grid.set(i, next);
                    }
                    i = i + 1;
                }
                assert(grid@ =~= consume_one(g0));
                true
            } else {
                false
            }
        },
    }
}


// ---------------------------------------------------------------------------
// Hoppers.
// ---------------------------------------------------------------------------

/// The first slot from `i` on holding something.
pub open spec fn first_filled(s: Seq<Option<ItemStack>>, i: int) -> Option<int>
    decreases s.len() - i,
{
    if i < 0 || i >= s.len() {
        None
    } else if s[i] is Some {
        Some(i)
    } else {
        first_filled(s, i + 1)
    }
}

/// The first slot from `i` on holding `item` below its stack limit.
pub open spec fn first_room(s: Seq<Option<ItemStack>>, item: Item, i: int) -> Option<int>
    decreases s.len() - i,
{
    if i < 0 || i >= s.len() {
        None
    } else if s[i] is Some && s[i]->0.item == item && s[i]->0.count < spec_max_stack(item) {
        Some(i)
    } else {
        first_room(s, item, i + 1)
    }
}

/// The first empty slot from `i` on.
pub open spec fn first_empty(s: Seq<Option<ItemStack>>, i: int) -> Option<int>
    decreases s.len() - i,
{
    if i < 0 || i >= s.len() {
        None
    } else if s[i] is None {
        Some(i)
    } else {
        first_empty(s, i + 1)
    }
}

proof fn lemma_found_in_range(s: Seq<Option<ItemStack>>, item: Item, i: int)
    requires
        0 <= i,
    ensures
        first_filled(s, i) is Some ==> i <= first_filled(s, i)->0 < s.len() && s[first_filled(s, i)->0] is Some,
        first_room(s, item, i) is Some ==> i <= first_room(s, item, i)->0 < s.len() && s[first_room(s, item, i)->0] is Some
            && s[first_room(s, item, i)->0]->0.item == item && s[first_room(s, item, i)->0]->0.count < spec_max_stack(item),
        first_empty(s, i) is Some ==> i <= first_empty(s, i)->0 < s.len() && s[first_empty(s, i)->0] is None,
    decreases s.len() - i,
{
    if i < s.len() {
        lemma_found_in_range(s, item, i + 1);
    }
}

/// Where one moved item lands in a container: on the first stack of it
/// with room, else in the first empty slot, else nowhere.
pub open spec fn put_one(s: Seq<Option<ItemStack>>, item: Item) -> Option<Seq<Option<ItemStack>>> {
    match first_room(s, item, 0) {
        Some(k) => Some(s.update(k, Some(with_count(s[k]->0, (s[k]->0.count + 1) as u32)))),
        None => match first_empty(s, 0) {
            Some(k) => Some(s.update(k, Some(new_stack(item, 1)))),
            None => None,
        },
    }
}

/// One hopper move from container `src` (above) to container `dst`
/// (below): one item leaves the first filled slot of `src` and goes to
/// `dst` (see `put_one`); when `dst` has no room it comes back to the first
/// empty slot of `src`, as a plain stack of one, or is lost when there is
/// none. Returns the item moved, or `None` when `src` is empty.
pub open spec fn hopper_move(src: Seq<Option<ItemStack>>, dst: Seq<Option<ItemStack>>) -> (
    Option<Item>,
    Seq<Option<ItemStack>>,
    Seq<Option<ItemStack>>,
) {
    match first_filled(src, 0) {
        None => (None, src, dst),
        Some(k) => {
            let item = src[k]->0.item;
            let taken = src.update(k, take_one(src[k]));
            match put_one(dst, item) {
                Some(d2) => (Some(item), taken, d2),
                None => match first_empty(taken, 0) {
                    Some(e) => (Some(item), taken.update(e, Some(new_stack(item, 1))), dst),
                    None => (Some(item), taken, dst),
                },
            }
        },
    }
}

fn find_filled(s: &Vec<Option<ItemStack>>) -> (r: Option<usize>)
    ensures
        r is Some ==> first_filled(s@, 0) == Some(r->0 as int),
        r is None ==> first_filled(s@, 0) is None,
{
    let mut i: usize = 0;
    while i < s.len()
        invariant
            0 <= i <= s@.len(),
            first_filled(s@, 0) == first_filled(s@, i as int),
        decreases s@.len() - i,
    {
        if s[i].is_some() {
            return Some(i);
        }
        i = i + 1;
    }
    None
}

fn find_room(s: &Vec<Option<ItemStack>>, item: Item) -> (r: Option<usize>)
    ensures
        r is Some ==> first_room(s@, item, 0) == Some(r->0 as int),
        r is None ==> first_room(s@, item, 0) is None,
{
    let max = item.max_stack();
    let mut i: usize = 0;
    while i < s.len()
        invariant
            0 <= i <= s@.len(),
            max == spec_max_stack(item),
            first_room(s@, item, 0) == first_room(s@, item, i as int),
        decreases s@.len() - i,
    {
        if let Some(st) = s[i] {
            if st.item == item && st.count < max {
                return Some(i);
            }
        }
        i = i + 1;
    }
    None
}

fn find_empty(s: &Vec<Option<ItemStack>>) -> (r: Option<usize>)
    ensures
        r is Some ==> first_empty(s@, 0) == Some(r->0 as int),
        r is None ==> first_empty(s@, 0) is None,
{
    let mut i: usize = 0;
    while i < s.len()
        invariant
            0 <= i <= s@.len(),
            first_empty(s@, 0) == first_empty(s@, i as int),
        decreases s@.len() - i,
    {
        if s[i].is_none() {
            return Some(i);
        }
        i = i + 1;
    }
    None
}

/// One hopper move (see `hopper_move`).
pub fn hopper_transfer(src: &mut Vec<Option<ItemStack>>, dst: &mut Vec<Option<ItemStack>>) -> (moved: Option<Item>)
    requires
        forall|i: int| 0 <= i < old(src)@.len() && (#[trigger] old(src)@[i]) is Some ==> old(src)@[i]->0.count >= 1,
    ensures
        (moved, final(src)@, final(dst)@) == hopper_move(old(src)@, old(dst)@),
{
    let ghost s0 = src@;
    let ghost d0 = dst@;
    let k = match find_filled(src) {
        Some(k) => k,
        None => {
            return None;
        },
    };
    proof {
        lemma_found_in_range(s0, Item::Stick, 0);
        assert(first_filled(s0, 0) == Some(k as int));
        assert(s0[k as int] is Some);
    }
    let st = match src[k] {
        Some(st) => st,
        None => {
            return None;
        },
    };
    let item = st.item;
    let next = if st.count <= 1 { None } else { Some(ItemStack { count: st.count - 1, ..st }) };
    src.set(k, next);
    let ghost taken = src@;
    proof {
        assert(taken == s0.update(k as int, take_one(s0[k as int])));
        lemma_found_in_range(d0, item, 0);
        lemma_found_in_range(taken, item, 0);
    }
    match find_room(dst, item) {
        Some(r) => {
            let d = match dst[r] {
                Some(d) => d,
                None => {
                    return Some(item);
                },
            };
            dst.set(r, Some(ItemStack { count: d.count + 1, ..d }));
            assert(put_one(d0, item) == Some(dst@));
            Some(item)
        },
        None => {
            match find_empty(dst) {
                Some(e) => {
                    dst.set(e, Some(ItemStack::new(item, 1)));
                    assert(put_one(d0, item) == Some(dst@));
                },
                None => {
                    assert(put_one(d0, item) is None);
                    if let Some(e) = find_empty(src) {
                        src.set(e, Some(ItemStack::new(item, 1)));
                    }
                },
            }
            Some(item)
        },
    }
}


/// How many of `item` a slot holds.
pub open spec fn held(s: Option<ItemStack>, item: Item) -> int {
    match s {
        Some(st) => if st.item == item { st.count as int } else { 0 },
        None => 0,
    }
}

/// Clicking never makes or destroys items: for every item, the slot and
/// the cursor hold as many of it after a click as before (stacks hold at
/// least one item).
pub proof fn lemma_interact_conserves(
    slot: Option<ItemStack>,
    cursor: Option<ItemStack>,
    lmb: bool,
    rmb: bool,
    item: Item,
)
    requires
        interact_ok(slot, cursor, lmb, rmb),
        slot is Some ==> slot->0.count >= 1,
        cursor is Some ==> cursor->0.count >= 1,
    ensures
        ({
            let (s2, c2) = spec_interact(slot, cursor, lmb, rmb);
            held(s2, item) + held(c2, item) == held(slot, item) + held(cursor, item)
        }),
{
}

/// Taking from a take-only slot never makes or destroys items either.
pub proof fn lemma_take_conserves(slot: Option<ItemStack>, cursor: Option<ItemStack>, lmb: bool, item: Item)
    ensures
        ({
            let (_, s2, c2) = spec_take(slot, cursor, lmb);
            held(s2, item) + held(c2, item) == held(slot, item) + held(cursor, item)
        }),
{
}

} // verus!
