//! The player inventory: a fixed row of slots that merges, fills and
//! drains stacks left to right.

use vstd::prelude::*;
use crate::items;
use crate::items::{Item, ItemStack};

verus! {

pub const INV_SIZE: usize = 36;

pub struct Inventory {
    pub slots: Vec<Option<ItemStack>>,
}

/// How many items of a kind a row of slots holds, over every stack of it.
pub open spec fn stack_total(slots: Seq<Option<ItemStack>>, item: Item) -> nat
    decreases slots.len(),
{
    if slots.len() == 0 {
        0
    } else {
        stack_total(slots.drop_last(), item) + slot_count(slots.last(), item)
    }
}

/// Items of a kind in one slot.
pub open spec fn slot_count(slot: Option<ItemStack>, item: Item) -> nat {
    match slot {
        Some(s) => if s.item == item { s.count as nat } else { 0 },
        None => 0,
    }
}

/// A slot takes more of `item` when it holds a plain (unenchanted,
/// undamaged) stack of it below the stack limit.
pub open spec fn mergeable(slot: Option<ItemStack>, item: Item, max: u32) -> bool {
    match slot {
        Some(s) => s.item == item && s.count < max && s.ench == 0 && s.dura == 0,
        None => false,
    }
}

/// Top up one slot from `count` waiting items; returns the slot and what is
/// still waiting.
pub open spec fn merge_into(slot: Option<ItemStack>, item: Item, max: u32, count: nat) -> (Option<ItemStack>, nat) {
    if count > 0 && mergeable(slot, item, max) {
        let s = slot->0;
        let room = (max - s.count) as nat;
        let put = if room < count { room } else { count };
        (Some(ItemStack { count: (s.count + put) as u32, ..s }), (count - put) as nat)
    } else {
        (slot, count)
    }
}

/// First pass of adding: top up existing stacks, left to right.
pub open spec fn merge_pass(slots: Seq<Option<ItemStack>>, item: Item, max: u32, count: nat) -> (Seq<Option<ItemStack>>, nat)
    decreases slots.len(),
{
    if slots.len() == 0 {
        (Seq::empty(), count)
    } else {
        let (p, c) = merge_pass(slots.drop_last(), item, max, count);
        let (s, c2) = merge_into(slots.last(), item, max, c);
        (p.push(s), c2)
    }
}

/// Put waiting items into one slot when it is empty.
pub open spec fn fill_into(slot: Option<ItemStack>, item: Item, max: u32, count: nat) -> (Option<ItemStack>, nat) {
    if count > 0 && slot is None {
        let put = if (max as nat) < count { max as nat } else { count };
        (Some(items::new_stack(item, put as u32)), (count - put) as nat)
    } else {
        (slot, count)
    }
}

/// Second pass of adding: start new stacks in empty slots, left to right.
pub open spec fn fill_pass(slots: Seq<Option<ItemStack>>, item: Item, max: u32, count: nat) -> (Seq<Option<ItemStack>>, nat)
    decreases slots.len(),
{
    if slots.len() == 0 {
        (Seq::empty(), count)
    } else {
        let (p, c) = fill_pass(slots.drop_last(), item, max, count);
        let (s, c2) = fill_into(slots.last(), item, max, c);
        (p.push(s), c2)
    }
}

/// The slots after adding `count` of `item`, and the leftover count.
pub open spec fn spec_add(slots: Seq<Option<ItemStack>>, item: Item, count: nat) -> (Seq<Option<ItemStack>>, nat) {
    let max = items::spec_max_stack(item);
    let (merged, c) = merge_pass(slots, item, max, count);
    fill_pass(merged, item, max, c)
}

/// Take waiting removals out of one slot; emptied stacks leave the slot.
pub open spec fn take_from(slot: Option<ItemStack>, item: Item, count: nat) -> (Option<ItemStack>, nat) {
    match slot {
        Some(s) => if count > 0 && s.item == item {
            let take = if (s.count as nat) < count { s.count as nat } else { count };
            let left = (s.count - take) as u32;
            (if left == 0 { None } else { Some(ItemStack { count: left, ..s }) }, (count - take) as nat)
        } else {
            (slot, count)
        },
        None => (slot, count),
    }
}

/// Remove `count` of `item` across the slots, left to right.
pub open spec fn remove_pass(slots: Seq<Option<ItemStack>>, item: Item, count: nat) -> (Seq<Option<ItemStack>>, nat)
    decreases slots.len(),
{
    if slots.len() == 0 {
        (Seq::empty(), count)
    } else {
        let (p, c) = remove_pass(slots.drop_last(), item, count);
        let (s, c2) = take_from(slots.last(), item, c);
        (p.push(s), c2)
    }
}

proof fn lemma_total_push(p: Seq<Option<ItemStack>>, s: Option<ItemStack>, item: Item)
    ensures
        stack_total(p.push(s), item) == stack_total(p, item) + slot_count(s, item),
{
    assert(p.push(s).drop_last() =~= p);
}

proof fn lemma_total_prefix(s: Seq<Option<ItemStack>>, i: int, item: Item)
    requires
        0 <= i <= s.len(),
    ensures
        stack_total(s.take(i), item) <= stack_total(s, item),
    decreases s.len() - i,
{
    if i < s.len() {
        lemma_total_prefix(s, i + 1, item);
        assert(s.take(i + 1).drop_last() =~= s.take(i));
    } else {
        assert(s.take(i) =~= s);
    }
}

proof fn lemma_merge_pass(slots: Seq<Option<ItemStack>>, item: Item, max: u32, count: nat, other: Item)
    ensures
        merge_pass(slots, item, max, count).0.len() == slots.len(),
        merge_pass(slots, item, max, count).1 <= count,
        other == item ==> stack_total(merge_pass(slots, item, max, count).0, other)
            + merge_pass(slots, item, max, count).1 == stack_total(slots, other) + count,
        other != item ==> stack_total(merge_pass(slots, item, max, count).0, other)
            == stack_total(slots, other),
        forall|j: int| 0 <= j < slots.len() ==> (#[trigger] merge_pass(slots, item, max, count).0[j] is Some <==> slots[j] is Some),
    decreases slots.len(),
{
    if slots.len() > 0 {
        lemma_merge_pass(slots.drop_last(), item, max, count, other);
        let (p, c) = merge_pass(slots.drop_last(), item, max, count);
        let (s, c2) = merge_into(slots.last(), item, max, c);
        lemma_total_push(p, s, other);
        let r = merge_pass(slots, item, max, count).0;
        assert forall|j: int| 0 <= j < slots.len() implies (#[trigger] r[j] is Some <==> slots[j] is Some) by {
            if j < slots.len() - 1 {
                assert(r[j] == p[j]);
                assert(slots[j] == slots.drop_last()[j]);
            }
        }
    }
}

proof fn lemma_fill_pass(slots: Seq<Option<ItemStack>>, item: Item, max: u32, count: nat, other: Item)
    requires
        max > 0,
    ensures
        fill_pass(slots, item, max, count).0.len() == slots.len(),
        fill_pass(slots, item, max, count).1 <= count,
        other == item ==> stack_total(fill_pass(slots, item, max, count).0, other)
            + fill_pass(slots, item, max, count).1 == stack_total(slots, other) + count,
        other != item ==> stack_total(fill_pass(slots, item, max, count).0, other)
            == stack_total(slots, other),
        fill_pass(slots, item, max, count).1 > 0 ==> forall|j: int| 0 <= j < slots.len()
            ==> (#[trigger] fill_pass(slots, item, max, count).0[j]) is Some,
    decreases slots.len(),
{
    if slots.len() > 0 {
        lemma_fill_pass(slots.drop_last(), item, max, count, other);
        let (p, c) = fill_pass(slots.drop_last(), item, max, count);
        let (s, c2) = fill_into(slots.last(), item, max, c);
        lemma_total_push(p, s, other);
        let r = fill_pass(slots, item, max, count).0;
        if c2 > 0 {
            assert forall|j: int| 0 <= j < slots.len() implies (#[trigger] r[j]) is Some by {
                if j < slots.len() - 1 {
                    assert(r[j] == p[j]);
                }
            }
        }
    }
}

proof fn lemma_remove_pass(slots: Seq<Option<ItemStack>>, item: Item, count: nat, other: Item)
    ensures
        remove_pass(slots, item, count).0.len() == slots.len(),
        remove_pass(slots, item, count).1 <= count,
        other == item ==> stack_total(remove_pass(slots, item, count).0, other)
            + count == stack_total(slots, other) + remove_pass(slots, item, count).1,
        other != item ==> stack_total(remove_pass(slots, item, count).0, other)
            == stack_total(slots, other),
        remove_pass(slots, item, count).1 > 0 ==> stack_total(remove_pass(slots, item, count).0, item) == 0,
        stack_total(slots, item) >= count ==> remove_pass(slots, item, count).1 == 0,
    decreases slots.len(),
{
    if slots.len() > 0 {
        lemma_remove_pass(slots.drop_last(), item, count, other);
        lemma_remove_pass(slots.drop_last(), item, count, item);
        let (p, c) = remove_pass(slots.drop_last(), item, count);
        let (s, c2) = take_from(slots.last(), item, c);
        lemma_total_push(p, s, other);
        lemma_total_push(p, s, item);
    }
}

/// Adding items keeps every item: what went into the slots plus what was
/// left over is what was already there plus what was added, other kinds are
/// untouched, and a leftover only remains once no slot is empty.
pub proof fn lemma_add_conserves(slots: Seq<Option<ItemStack>>, item: Item, count: nat, other: Item)
    ensures
        spec_add(slots, item, count).0.len() == slots.len(),
        spec_add(slots, item, count).1 <= count,
        other == item ==> stack_total(spec_add(slots, item, count).0, other)
            + spec_add(slots, item, count).1 == stack_total(slots, other) + count,
        other != item ==> stack_total(spec_add(slots, item, count).0, other)
            == stack_total(slots, other),
        spec_add(slots, item, count).1 > 0 ==> forall|j: int| 0 <= j < slots.len()
            ==> (#[trigger] spec_add(slots, item, count).0[j]) is Some,
{
    let max = items::spec_max_stack(item);
    lemma_merge_pass(slots, item, max, count, other);
    let (m, c) = merge_pass(slots, item, max, count);
    lemma_fill_pass(m, item, max, c, other);
}

/// Removing succeeds exactly when enough items are present, and then takes
/// exactly that many of the kind and nothing of any other kind.
pub proof fn lemma_remove_conserves(slots: Seq<Option<ItemStack>>, item: Item, count: nat, other: Item)
    requires
        stack_total(slots, item) >= count,
    ensures
        remove_pass(slots, item, count).0.len() == slots.len(),
        other == item ==> stack_total(remove_pass(slots, item, count).0, other) + count
            == stack_total(slots, other),
        other != item ==> stack_total(remove_pass(slots, item, count).0, other)
            == stack_total(slots, other),
{
    lemma_remove_pass(slots, item, count, other);
    lemma_remove_pass(slots, item, count, item);
}

impl Inventory {
    /// A well-formed inventory has exactly `INV_SIZE` slots.
    pub open spec fn wf(&self) -> bool {
        self.slots@.len() == INV_SIZE
    }

    pub fn new() -> (r: Inventory)
        ensures
            r.wf(),
            forall|j: int| 0 <= j < INV_SIZE ==> (#[trigger] r.slots@[j]) is None,
    {
        let mut slots: Vec<Option<ItemStack>> = Vec::new();
        while slots.len() < INV_SIZE
            invariant
                slots@.len() <= INV_SIZE,
                forall|j: int| 0 <= j < slots@.len() ==> (#[trigger] slots@[j]) is None,
            decreases INV_SIZE - slots@.len(),
        {
            slots.push(None);
        }
        Inventory { slots }
    }

    /// Add a stack, merging into existing stacks first. Returns leftover count.
    /// Only plain (unenchanted, undamaged) stacks merge.
    pub fn add(&mut self, item: Item, count: u32) -> (left: u32)
        requires
            old(self).wf(),
        ensures
            final(self).wf(),
            (final(self).slots@, left as nat) == spec_add(old(self).slots@, item, count as nat),
    {
        let max = item.max_stack();
        let ghost orig = self.slots@;
        let ghost count0 = count;
        let mut count = count;
        let mut i: usize = 0;
        while i < INV_SIZE
            invariant
                self.slots@.len() == INV_SIZE,
                orig.len() == INV_SIZE,
                max == items::spec_max_stack(item),
                i <= INV_SIZE,
                (self.slots@.take(i as int), count as nat) == merge_pass(orig.take(i as int), item, max, count0 as nat),
                forall|j: int| i <= j < INV_SIZE ==> #[trigger] self.slots@[j] == orig[j],
            decreases INV_SIZE - i,
        {
            assert(orig.take(i + 1).drop_last() =~= orig.take(i as int));
            let ghost before = self.slots@;
            let cur = self.slots[i];
            if let Some(s) = cur {
                if count > 0 && s.item == item && s.count < max && s.ench == 0 && s.dura == 0 {
                    let room = max - s.count;
                    let put = if room < count { room } else { count };
                    self.slots.set(i, Some(ItemStack { count: s.count + put, ..s }));
                    count = count - put;
                }
            }
            assert(self.slots@.take(i + 1) =~= before.take(i as int).push(self.slots@[i as int]));
            i = i + 1;
        }
        assert(self.slots@.take(INV_SIZE as int) =~= self.slots@);
        assert(orig.take(INV_SIZE as int) =~= orig);
        let ghost merged = self.slots@;
        let ghost count1 = count;
        i = 0;
        while i < INV_SIZE
            invariant
                self.slots@.len() == INV_SIZE,
                merged.len() == INV_SIZE,
                max == items::spec_max_stack(item),
                i <= INV_SIZE,
                (self.slots@.take(i as int), count as nat) == fill_pass(merged.take(i as int), item, max, count1 as nat),
                forall|j: int| i <= j < INV_SIZE ==> #[trigger] self.slots@[j] == merged[j],
            decreases INV_SIZE - i,
        {
            assert(merged.take(i + 1).drop_last() =~= merged.take(i as int));
            let ghost before = self.slots@;
            if count > 0 && self.slots[i].is_none() {
                let put = if max < count { max } else { count };
                self.slots.set(i, Some(ItemStack::new(item, put)));
                count = count - put;
            }
            assert(self.slots@.take(i + 1) =~= before.take(i as int).push(self.slots@[i as int]));
            i = i + 1;
        }
        assert(self.slots@.take(INV_SIZE as int) =~= self.slots@);
        assert(merged.take(INV_SIZE as int) =~= merged);
        count
    }

    /// How many items of a kind the inventory holds.
    pub fn count_of(&self, item: Item) -> (r: u32)
        requires
            stack_total(self.slots@, item) <= u32::MAX,
        ensures
            r == stack_total(self.slots@, item),
    {
        let mut sum: u32 = 0;
        let mut i: usize = 0;
        while i < self.slots.len()
            invariant
                i <= self.slots@.len(),
                stack_total(self.slots@, item) <= u32::MAX,
                sum == stack_total(self.slots@.take(i as int), item),
            decreases self.slots@.len() - i,
        {
            assert(self.slots@.take(i + 1).drop_last() =~= self.slots@.take(i as int));
            proof {
                lemma_total_prefix(self.slots@, i + 1, item);
            }
            if let Some(s) = self.slots[i] {
                if s.item == item {
                    sum = sum + s.count;
                }
            }
            i = i + 1;
        }
        assert(self.slots@.take(i as int) =~= self.slots@);
        sum
    }

    /// Remove `count` items of a kind across slots. Returns false (and takes
    /// nothing) when there aren't enough.
    pub fn remove_items(&mut self, item: Item, count: u32) -> (r: bool)
        requires
            old(self).wf(),
            stack_total(old(self).slots@, item) <= u32::MAX,
        ensures
            final(self).wf(),
            r == (stack_total(old(self).slots@, item) >= count),
            r ==> final(self).slots@ == remove_pass(old(self).slots@, item, count as nat).0,
            !r ==> final(self).slots@ == old(self).slots@,
    {
        if self.count_of(item) < count {
            return false;
        }
        let ghost orig = self.slots@;
        let ghost count0 = count;
        let mut count = count;
        let mut i: usize = 0;
        while i < INV_SIZE
            invariant
                self.slots@.len() == INV_SIZE,
                orig.len() == INV_SIZE,
                i <= INV_SIZE,
                (self.slots@.take(i as int), count as nat) == remove_pass(orig.take(i as int), item, count0 as nat),
                forall|j: int| i <= j < INV_SIZE ==> #[trigger] self.slots@[j] == orig[j],
            decreases INV_SIZE - i,
        {
            assert(orig.take(i + 1).drop_last() =~= orig.take(i as int));
            let ghost before = self.slots@;
            if let Some(s) = self.slots[i] {
                if count > 0 && s.item == item {
                    let take = if s.count < count { s.count } else { count };
                    let left = s.count - take;
                    if left == 0 {
                        self.slots.set(i, None);
                    } else {
                        self.slots.set(i, Some(ItemStack { count: left, ..s }));
                    }
                    count = count - take;
                }
            }
            assert(self.slots@.take(i + 1) =~= before.take(i as int).push(self.slots@[i as int]));
            i = i + 1;
        }
        assert(self.slots@.take(INV_SIZE as int) =~= self.slots@);
        assert(orig.take(INV_SIZE as int) =~= orig);
        true
    }

    /// Remove `count` of the item from the slot if present; an emptied slot
    /// is cleared.
    pub fn remove_from_slot(&mut self, slot: usize, count: u32)
        requires
            old(self).wf(),
            slot < INV_SIZE,
        ensures
            final(self).wf(),
            forall|j: int| 0 <= j < INV_SIZE && j != slot ==> #[trigger] final(self).slots@[j] == old(self).slots@[j],
            final(self).slots@[slot as int] == (match old(self).slots@[slot as int] {
                Some(s) => if s.count <= count { None } else { Some(ItemStack { count: (s.count - count) as u32, ..s }) },
                None => None,
            }),
    {
        if let Some(s) = self.slots[slot] {
            let left = s.count.saturating_sub(count);
            if left == 0 {
                self.slots.set(slot, None);
            } else {
                self.slots.set(slot, Some(ItemStack { count: left, ..s }));
            }
        }
    }
}

} // verus!
