//! Workstation transactions: villager trades, brewing, enchanting and the
//! grindstone. Each is one click's worth of change to the inventory, the
//! held stack and the experience points.

use vstd::prelude::*;
use crate::inventory::{lemma_remove_conserves, remove_pass, spec_add, stack_total, take_from, Inventory, INV_SIZE};
use crate::items::{all_enchants, new_stack, spec_creative_catalog, spec_enchants_for, spec_max_durability, spec_max_stack, Item, ItemStack};
use crate::blocks::Block;

verus! {

// ---------------------------------------------------------------------------
// Trades.
// ---------------------------------------------------------------------------

/// Number of villager trades.
pub const TRADE_COUNT: usize = 5;

/// Trade `k`: give this many of an item, get this many of another.
pub open spec fn spec_trade(k: int) -> (Item, u32, Item, u32) {
    if k == 0 {
        (Item::Block(Block::Wool), 8, Item::Emerald, 1)
    } else if k == 1 {
        (Item::Emerald, 1, Item::Block(Block::Glass), 6)
    } else if k == 2 {
        (Item::Emerald, 1, Item::Block(Block::Torch), 8)
    } else if k == 3 {
        (Item::Emerald, 2, Item::Steak, 2)
    } else {
        (Item::Emerald, 3, Item::EnderPearl, 1)
    }
}

pub fn trade_offer(k: usize) -> (r: (Item, u32, Item, u32))
    requires
        k < TRADE_COUNT,
    ensures
        r == spec_trade(k as int),
{
    match k {
        0 => (Item::Block(Block::Wool), 8, Item::Emerald, 1),
        1 => (Item::Emerald, 1, Item::Block(Block::Glass), 6),
        2 => (Item::Emerald, 1, Item::Block(Block::Torch), 8),
        3 => (Item::Emerald, 2, Item::Steak, 2),
        _ => (Item::Emerald, 3, Item::EnderPearl, 1),
    }
}

/// Make trade `k` when the inventory holds enough to give: the price leaves
/// the inventory and the goods are added (what does not fit is lost).
/// Returns whether the trade was made.
pub fn trade(inv: &mut Inventory, k: usize) -> (done: bool)
    requires
        old(inv).wf(),
        k < TRADE_COUNT,
        stack_total(old(inv).slots@, spec_trade(k as int).0) <= u32::MAX,
    ensures
        final(inv).wf(),
        ({
            let (give, gn, get, get_n) = spec_trade(k as int);
            &&& done == (stack_total(old(inv).slots@, give) >= gn)
            &&& done ==> final(inv).slots@ == spec_add(remove_pass(old(inv).slots@, give, gn as nat).0, get, get_n as nat).0
            &&& !done ==> final(inv).slots@ == old(inv).slots@
        }),
{
    let (give, gn, get, get_n) = trade_offer(k);
    if inv.count_of(give) >= gn && inv.remove_items(give, gn) {
        inv.add(get, get_n);
        true
    } else {
        false
    }
}

// ---------------------------------------------------------------------------
// Brewing.
// ---------------------------------------------------------------------------

/// Number of brewing recipes.
pub const BREW_COUNT: usize = 4;

/// Brewing recipe `k`: a glass bottle and this ingredient make this potion.
pub open spec fn spec_brew(k: int) -> (Item, Item) {
    if k == 0 {
        (Item::Apple, Item::PotionHealing)
    } else if k == 1 {
        (Item::Feather, Item::PotionSwiftness)
    } else if k == 2 {
        (Item::RedstoneDust, Item::PotionStrength)
    } else {
        (Item::GoldenApple, Item::PotionRegen)
    }
}

pub fn brew_recipe(k: usize) -> (r: (Item, Item))
    requires
        k < BREW_COUNT,
    ensures
        r == spec_brew(k as int),
{
    match k {
        0 => (Item::Apple, Item::PotionHealing),
        1 => (Item::Feather, Item::PotionSwiftness),
        2 => (Item::RedstoneDust, Item::PotionStrength),
        _ => (Item::GoldenApple, Item::PotionRegen),
    }
}

/// Brew recipe `k` when the inventory holds a glass bottle and the
/// ingredient: both leave the inventory and the potion is added (lost if it
/// does not fit). Returns whether it was brewed.
pub fn brew(inv: &mut Inventory, k: usize) -> (done: bool)
    requires
        old(inv).wf(),
        k < BREW_COUNT,
        stack_total(old(inv).slots@, Item::GlassBottle) <= u32::MAX,
        stack_total(old(inv).slots@, spec_brew(k as int).0) <= u32::MAX,
    ensures
        final(inv).wf(),
        ({
            let (ing, out) = spec_brew(k as int);
            let s = old(inv).slots@;
            &&& done == (stack_total(s, Item::GlassBottle) >= 1 && stack_total(s, ing) >= 1)
            &&& done ==> final(inv).slots@ == spec_add(
                remove_pass(remove_pass(s, Item::GlassBottle, 1).0, ing, 1).0,
                out,
                1,
            ).0
            &&& !done ==> final(inv).slots@ == s
        }),
{
    let (ing, out) = brew_recipe(k);
    let ghost s = inv.slots@;
    if inv.count_of(Item::GlassBottle) >= 1 && inv.count_of(ing) >= 1 {
        proof {
            lemma_remove_conserves(s, Item::GlassBottle, 1, ing);
        }
        let a = inv.remove_items(Item::GlassBottle, 1);
        let b = inv.remove_items(ing, 1);
        assert(a && b);
        inv.add(out, 1);
        true
    } else {
        false
    }
}

// ---------------------------------------------------------------------------
// Enchanting and the grindstone.
// ---------------------------------------------------------------------------

/// Experience points per level.
pub const XP_PER_LEVEL: u32 = 30;

/// The highest enchantment level.
pub const MAX_ENCHANT: u8 = 5;

/// An item the enchanting table works on: one with enchantment kinds, other
/// than flint and steel.
pub open spec fn spec_enchantable(item: Item) -> bool {
    spec_enchants_for(item).len() > 0 && item != Item::FlintAndSteel
}

pub fn enchantable(item: Item) -> (r: bool)
    ensures
        r == spec_enchantable(item),
{
    let kinds = crate::items::enchants_for(item);
    proof {
        assert(kinds@.map_values(|s: &'static str| s@).len() == kinds@.len());
    }
    kinds.len() > 0 && item != Item::FlintAndSteel
}

/// Switch a stack to the next of its `kinds` enchantment kinds (wrapping
/// around), starting over at level 0; with one kind or none nothing changes.
pub fn cycle_enchant_kind(stack: &mut ItemStack, kinds: usize)
    requires
        kinds <= 256,
    ensures
        kinds > 1 ==> *final(stack) == (ItemStack {
            ench_kind: ((old(stack).ench_kind + 1) % (kinds as int)) as u8,
            ench: 0,
            ..*old(stack)
        }),
        kinds <= 1 ==> *final(stack) == *old(stack),
{
    if kinds > 1 {
        let next = (stack.ench_kind as usize + 1) % kinds;
        stack.ench_kind = next as u8;
        stack.ench = 0;
    }
}

/// Levels the next enchantment of a stack costs: one more than its level.
pub open spec fn enchant_cost(stack: ItemStack) -> int {
    stack.ench + 1
}

/// Enchant a stack one level up when it is below the top level and the
/// cost in levels is paid from `xp`; a book becomes an enchanted book.
/// Returns whether it was enchanted.
pub fn enchant(stack: &mut ItemStack, xp: &mut u32) -> (done: bool)
    ensures
        done == (old(stack).ench < MAX_ENCHANT && *old(xp) >= enchant_cost(*old(stack)) * XP_PER_LEVEL),
        done ==> *final(xp) == *old(xp) - enchant_cost(*old(stack)) * XP_PER_LEVEL && *final(stack) == (ItemStack {
            ench: (old(stack).ench + 1) as u8,
            item: if old(stack).item == Item::Book { Item::EnchantedBook } else { old(stack).item },
            ..*old(stack)
        }),
        !done ==> *final(xp) == *old(xp) && *final(stack) == *old(stack),
{
    let cost = stack.ench as u32 + 1;
    if stack.ench < MAX_ENCHANT && *xp >= cost * XP_PER_LEVEL {
        stack.ench = stack.ench + 1;
        *xp = *xp - cost * XP_PER_LEVEL;
        if stack.item == Item::Book {
            stack.item = Item::EnchantedBook;
        }
        true
    } else {
        false
    }
}

/// Experience a grindstone gives back for a stack's enchantment.
pub open spec fn refund(stack: ItemStack) -> int {
    stack.ench * 15
}

/// Strip an enchanted stack's enchantment, refunding 15 points per level.
/// Returns whether there was one to strip.
pub fn disenchant(stack: &mut ItemStack, xp: &mut u32) -> (done: bool)
    requires
        *old(xp) + refund(*old(stack)) <= u32::MAX,
    ensures
        done == (old(stack).ench > 0),
        done ==> *final(xp) == *old(xp) + refund(*old(stack)) && *final(stack) == (ItemStack {
            ench: 0,
            ench_kind: 0,
            ..*old(stack)
        }),
        !done ==> *final(xp) == *old(xp) && *final(stack) == *old(stack),
{
    if stack.ench > 0 {
        let r = stack.ench as u32 * 15;
        stack.ench = 0;
        stack.ench_kind = 0;
        *xp = *xp + r;
        true
    } else {
        false
    }
}

// ---------------------------------------------------------------------------
// The anvil.
// ---------------------------------------------------------------------------

/// Removing items leaves every slot that holds another item as it was.
proof fn lemma_remove_keeps_other(slots: Seq<Option<ItemStack>>, item: Item, count: nat, j: int)
    requires
        0 <= j < slots.len(),
        !holds(slots[j], item),
    ensures
        remove_pass(slots, item, count).0.len() == slots.len(),
        remove_pass(slots, item, count).0[j] == slots[j],
    decreases slots.len(),
{
    let n = slots.len() - 1;
    let (p, c) = remove_pass(slots.drop_last(), item, count);
    lemma_remove_len(slots.drop_last(), item, count);
    if j < n {
        lemma_remove_keeps_other(slots.drop_last(), item, count, j);
    } else {
        assert(take_from(slots.last(), item, c).0 == slots.last());
    }
    lemma_remove_len(slots, item, count);
}

proof fn lemma_remove_len(slots: Seq<Option<ItemStack>>, item: Item, count: nat)
    ensures
        remove_pass(slots, item, count).0.len() == slots.len(),
    decreases slots.len(),
{
    if slots.len() > 0 {
        lemma_remove_len(slots.drop_last(), item, count);
    }
}

/// The selected slot holds gear with durability (what the anvil works on).
pub open spec fn gear_at(s: Seq<Option<ItemStack>>, sel: int) -> bool {
    0 <= sel < s.len() && s[sel] is Some && spec_max_durability(s[sel]->0.item) is Some
}

/// Experience an anvil repair costs, in points (two levels).
pub const REPAIR_XP: u32 = 60;

/// Repair the selected gear when it is worn and an iron ingot and two levels
/// are paid: the ingot leaves the inventory and the gear's wear is undone.
/// Returns whether it was repaired.
pub fn repair(inv: &mut Inventory, selected: usize, xp: &mut u32) -> (done: bool)
    requires
        old(inv).wf(),
        selected < INV_SIZE,
        stack_total(old(inv).slots@, Item::IronIngot) <= u32::MAX,
    ensures
        final(inv).wf(),
        ({
            let s = old(inv).slots@;
            &&& done == (gear_at(s, selected as int) && s[selected as int]->0.dura > 0 && *old(xp) >= REPAIR_XP
                && stack_total(s, Item::IronIngot) >= 1)
            &&& done ==> {
                let r = remove_pass(s, Item::IronIngot, 1).0;
                &&& *final(xp) == *old(xp) - REPAIR_XP
                &&& final(inv).slots@ == r.update(selected as int, Some(ItemStack { dura: 0, ..s[selected as int]->0 }))
            }
            &&& !done ==> *final(xp) == *old(xp) && final(inv).slots@ == s
        }),
{
    let ghost s = inv.slots@;
    let stack = match inv.slots[selected] {
        Some(st) => st,
        None => {
            return false;
        },
    };
    if stack.item.max_durability().is_none() {
        return false;
    }
    if stack.dura > 0 && *xp >= REPAIR_XP && inv.count_of(Item::IronIngot) >= 1 {
        proof {
            lemma_remove_keeps_other(s, Item::IronIngot, 1, selected as int);
        }
        let ok = inv.remove_items(Item::IronIngot, 1);
        assert(ok);
        *xp = *xp - REPAIR_XP;
        inv.slots.set(selected, Some(ItemStack { dura: 0, ..stack }));
        true
    } else {
        false
    }
}

/// A slot holds a stack of `item`.
pub open spec fn holds(slot: Option<ItemStack>, item: Item) -> bool {
    slot is Some && slot->0.item == item
}

/// The first slot from `i` on, other than `sel`, holding `item`.
pub open spec fn twin_from(s: Seq<Option<ItemStack>>, sel: int, item: Item, i: int) -> Option<int>
    decreases s.len() - i,
{
    if i < 0 || i >= s.len() {
        None
    } else if i != sel && holds(s[i], item) {
        Some(i)
    } else {
        twin_from(s, sel, item, i + 1)
    }
}

proof fn lemma_twin_in_range(s: Seq<Option<ItemStack>>, sel: int, item: Item, i: int)
    requires
        0 <= i,
    ensures
        twin_from(s, sel, item, i) is Some ==> i <= twin_from(s, sel, item, i)->0 < s.len() && twin_from(
            s,
            sel,
            item,
            i,
        )->0 != sel && holds(s[twin_from(s, sel, item, i)->0], item),
    decreases s.len() - i,
{
    if i < s.len() {
        lemma_twin_in_range(s, sel, item, i + 1);
    }
}

/// Experience combining two pieces costs, in points (one level).
pub const COMBINE_XP: u32 = 30;

/// Wear left after combining gear worn `mine` with a twin worn `other`, both
/// of durability `max`: the twin's remaining durability is restored.
pub open spec fn combined_wear(mine: u16, other: u16, max: u16) -> u16 {
    let restore = max - (if other < max { other } else { max });
    if mine > restore { (mine - restore) as u16 } else { 0 }
}

/// Combine the selected gear with the first other slot holding the same
/// item, for one level: the twin is used up, its remaining durability is
/// restored to the selected piece, and the selected piece takes the twin's
/// enchantment when it is higher. Returns whether they were combined.
pub fn combine(inv: &mut Inventory, selected: usize, xp: &mut u32) -> (done: bool)
    requires
        old(inv).wf(),
        selected < INV_SIZE,
    ensures
        final(inv).wf(),
        ({
            let s = old(inv).slots@;
            let sel = selected as int;
            &&& done == (gear_at(s, sel) && twin_from(s, sel, s[sel]->0.item, 0) is Some && *old(xp) >= COMBINE_XP)
            &&& done ==> {
                let t = twin_from(s, sel, s[sel]->0.item, 0)->0;
                let me = s[sel]->0;
                let other = s[t]->0;
                let max = spec_max_durability(me.item)->0;
                let worn = ItemStack { dura: combined_wear(me.dura, other.dura, max), ..me };
                &&& *final(xp) == *old(xp) - COMBINE_XP
                &&& final(inv).slots@ == s.update(t, None).update(
                    sel,
                    Some(if other.ench > me.ench { ItemStack { ench: other.ench, ench_kind: other.ench_kind, ..worn } } else { worn }),
                )
            }
            &&& !done ==> *final(xp) == *old(xp) && final(inv).slots@ == s
        }),
{
    let ghost s = inv.slots@;
    let stack = match inv.slots[selected] {
        Some(st) => st,
        None => {
            return false;
        },
    };
    let max = match stack.item.max_durability() {
        Some(m) => m,
        None => {
            return false;
        },
    };
    let mut i: usize = 0;
    let mut twin: Option<usize> = None;
    while i < inv.slots.len()
        invariant_except_break
            twin is None,
        invariant
            inv.slots@ == s,
            s.len() == INV_SIZE,
            selected < INV_SIZE,
            0 <= i <= s.len(),
            twin_from(s, selected as int, stack.item, 0) == twin_from(s, selected as int, stack.item, i as int),
        ensures
            twin is None ==> twin_from(s, selected as int, stack.item, 0) is None,
            twin is Some ==> twin_from(s, selected as int, stack.item, 0) == Some(twin->0 as int),
        decreases s.len() - i,
    {
        let hit = match inv.slots[i] {
            Some(st) => i != selected && st.item == stack.item,
            None => false,
        };
        if hit {
            twin = Some(i);
            break;
        }
        i = i + 1;
    }
    proof {
        lemma_twin_in_range(s, selected as int, stack.item, 0);
    }
    match twin {
        None => false,
        Some(ti) => {
            if *xp < COMBINE_XP {
                return false;
            }
            let other = match inv.slots[ti] {
                Some(o) => o,
                None => {
                    return false;
                },
            };
            inv.slots.set(ti, None);
            *xp = *xp - COMBINE_XP;
            let restore = max - (if other.dura < max { other.dura } else { max });
            let dura = if stack.dura > restore { stack.dura - restore } else { 0 };
            let worn = ItemStack { dura, ..stack };
            let next = if other.ench > stack.ench { ItemStack { ench: other.ench, ench_kind: other.ench_kind, ..worn } } else { worn };
            inv.slots.set(selected, Some(next));
            true
        },
    }
}


/// Index of `name` among `kinds` from `i` on, when present.
pub open spec fn kind_index(kinds: Seq<Seq<char>>, name: Seq<char>, i: int) -> Option<int>
    decreases kinds.len() - i,
{
    if i < 0 || i >= kinds.len() {
        None
    } else if kinds[i] == name {
        Some(i)
    } else {
        kind_index(kinds, name, i + 1)
    }
}

/// Number of enchantment kinds.
pub const ENCHANT_KINDS: u8 = 12;

/// When a slot holds an enchanted book whose enchantment is one of the
/// kinds gear `gear` takes: that kind's index for the gear.
pub open spec fn book_kind(slot: Option<ItemStack>, gear: Item) -> Option<int> {
    if slot is Some && slot->0.item == Item::EnchantedBook && slot->0.ench_kind < ENCHANT_KINDS {
        kind_index(spec_enchants_for(gear), all_enchants()[slot->0.ench_kind as int], 0)
    } else {
        None
    }
}

/// The first slot from `i` on, other than `sel`, holding a book that fits
/// gear `gear`.
pub open spec fn book_from(s: Seq<Option<ItemStack>>, sel: int, gear: Item, i: int) -> Option<int>
    decreases s.len() - i,
{
    if i < 0 || i >= s.len() {
        None
    } else if i != sel && book_kind(s[i], gear) is Some {
        Some(i)
    } else {
        book_from(s, sel, gear, i + 1)
    }
}

proof fn lemma_book_in_range(s: Seq<Option<ItemStack>>, sel: int, gear: Item, i: int)
    requires
        0 <= i,
    ensures
        book_from(s, sel, gear, i) is Some ==> i <= book_from(s, sel, gear, i)->0 < s.len() && book_from(s, sel, gear, i)->0
            != sel && book_kind(s[book_from(s, sel, gear, i)->0], gear) is Some,
    decreases s.len() - i,
{
    if i < s.len() {
        lemma_book_in_range(s, sel, gear, i + 1);
    }
}

proof fn lemma_kind_index_range(kinds: Seq<Seq<char>>, name: Seq<char>, i: int)
    requires
        0 <= i,
    ensures
        kind_index(kinds, name, i) is Some ==> i <= kind_index(kinds, name, i)->0 < kinds.len(),
    decreases kinds.len() - i,
{
    if i < kinds.len() {
        lemma_kind_index_range(kinds, name, i + 1);
    }
}

/// Whether two texts are the same.
fn same_text(a: &str, b: &str) -> (r: bool)
    ensures
        r == (a@ == b@),
{
    let n = a.unicode_len();
    if n != b.unicode_len() {
        return false;
    }
    let mut i: usize = 0;
    while i < n
        invariant
            n == a@.len(),
            n == b@.len(),
            i <= n,
            forall|j: int| 0 <= j < i ==> a@[j] == b@[j],
        decreases n - i,
    {
        if a.get_char(i) != b.get_char(i) {
            return false;
        }
        i = i + 1;
    }
    assert(a@ =~= b@);
    true
}

/// Where enchantment `name` sits among the kinds of gear `gear`.
fn gear_kind_index(gear: Item, name: &str) -> (r: Option<usize>)
    ensures
        match kind_index(spec_enchants_for(gear), name@, 0) {
            Some(k) => r == Some(k as usize),
            None => r is None,
        },
{
    let kinds = crate::items::enchants_for(gear);
    let ghost ks = spec_enchants_for(gear);
    assert(ks.len() == kinds@.len());
    let mut i: usize = 0;
    while i < kinds.len()
        invariant
            ks == spec_enchants_for(gear),
            kinds@.map_values(|s: &'static str| s@) == ks,
            i <= kinds@.len(),
            kind_index(ks, name@, 0) == kind_index(ks, name@, i as int),
        decreases kinds@.len() - i,
    {
        assert(ks[i as int] == kinds@[i as int]@);
        if same_text(kinds[i], name) {
            return Some(i);
        }
        i = i + 1;
    }
    None
}

/// The name of enchantment kind `k`.
fn enchant_name(k: u8) -> (r: &'static str)
    requires
        k < ENCHANT_KINDS,
    ensures
        r@ == all_enchants()[k as int],
{
    let names = crate::items::enchants_for(Item::Book);
    assert(names@.map_values(|s: &'static str| s@) == all_enchants());
    assert(names@[k as int]@ == all_enchants()[k as int]);
    names[k as usize]
}

/// Apply to the selected gear the first other slot's enchanted book whose
/// enchantment the gear can take: the book is used up, and the gear takes
/// the book's kind and level unless it already has that kind at a level at
/// least as high. Returns whether a book was applied.
pub fn apply_book(inv: &mut Inventory, selected: usize) -> (done: bool)
    requires
        old(inv).wf(),
        selected < INV_SIZE,
    ensures
        final(inv).wf(),
        ({
            let s = old(inv).slots@;
            let sel = selected as int;
            &&& done == (gear_at(s, sel) && book_from(s, sel, s[sel]->0.item, 0) is Some)
            &&& done ==> {
                let me = s[sel]->0;
                let b = book_from(s, sel, me.item, 0)->0;
                let book = s[b]->0;
                let k = book_kind(s[b], me.item)->0;
                final(inv).slots@ == s.update(b, None).update(
                    sel,
                    Some(if book.ench > me.ench || me.ench_kind != k { ItemStack { ench: book.ench, ench_kind: k as u8, ..me } } else { me }),
                )
            }
            &&& !done ==> final(inv).slots@ == s
        }),
{
    let ghost s = inv.slots@;
    let stack = match inv.slots[selected] {
        Some(st) => st,
        None => {
            return false;
        },
    };
    if stack.item.max_durability().is_none() {
        return false;
    }
    let mut i: usize = 0;
    let mut found: Option<(usize, u8, usize)> = None;
    while i < inv.slots.len()
        invariant_except_break
            found is None,
        invariant
            inv.slots@ == s,
            s.len() == INV_SIZE,
            selected < INV_SIZE,
            s[selected as int] == Some(stack),
            0 <= i <= s.len(),
            book_from(s, selected as int, stack.item, 0) == book_from(s, selected as int, stack.item, i as int),
        ensures
            found is None ==> book_from(s, selected as int, stack.item, 0) is None,
            found matches Some((b, lvl, k)) ==> book_from(s, selected as int, stack.item, 0) == Some(b as int) && lvl
                == s[b as int]->0.ench && book_kind(s[b as int], stack.item) == Some(k as int),
        decreases s.len() - i,
    {
        if i != selected {
            if let Some(st) = inv.slots[i] {
                if st.item == Item::EnchantedBook && st.ench_kind < ENCHANT_KINDS {
                    let name = enchant_name(st.ench_kind);
                    if let Some(k) = gear_kind_index(stack.item, name) {
                        proof {
                            lemma_kind_index_range(spec_enchants_for(stack.item), name@, 0);
                        }
                        assert(book_kind(s[i as int], stack.item) == Some(k as int));
                        assert(book_from(s, selected as int, stack.item, i as int) == Some(i as int));
                        found = Some((i, st.ench, k));
                        break;
                    }
                }
            }
        }
        i = i + 1;
    }
    match found {
        None => false,
        Some((bi, lvl, k)) => {
            proof {
                lemma_book_in_range(s, selected as int, stack.item, 0);
                lemma_kind_index_range(spec_enchants_for(stack.item), all_enchants()[s[bi as int]->0.ench_kind as int], 0);
                assert(spec_enchants_for(stack.item).len() <= 12);
            }
            inv.slots.set(bi, None);
            let kk = k as u8;
            let next = if lvl > stack.ench || stack.ench_kind != kk { ItemStack { ench: lvl, ench_kind: kk, ..stack } } else { stack };
            inv.slots.set(selected, Some(next));
            true
        },
    }
}


// ---------------------------------------------------------------------------
// The smithing table.
// ---------------------------------------------------------------------------

/// The diamond piece an iron piece of gear upgrades to.
pub open spec fn spec_upgrade(item: Item) -> Option<Item> {
    match item {
        Item::IronPickaxe => Some(Item::DiamondPickaxe),
        Item::IronAxe => Some(Item::DiamondAxe),
        Item::IronShovel => Some(Item::DiamondShovel),
        Item::IronSword => Some(Item::DiamondSword),
        Item::IronHelmet => Some(Item::DiamondHelmet),
        Item::IronChest => Some(Item::DiamondChest),
        Item::IronLegs => Some(Item::DiamondLegs),
        Item::IronBoots => Some(Item::DiamondBoots),
        _ => None,
    }
}

pub fn upgrade(item: Item) -> (r: Option<Item>)
    ensures
        r == spec_upgrade(item),
{
    match item {
        Item::IronPickaxe => Some(Item::DiamondPickaxe),
        Item::IronAxe => Some(Item::DiamondAxe),
        Item::IronShovel => Some(Item::DiamondShovel),
        Item::IronSword => Some(Item::DiamondSword),
        Item::IronHelmet => Some(Item::DiamondHelmet),
        Item::IronChest => Some(Item::DiamondChest),
        Item::IronLegs => Some(Item::DiamondLegs),
        Item::IronBoots => Some(Item::DiamondBoots),
        _ => None,
    }
}

/// Upgrade the selected iron gear to diamond for one diamond, with wear
/// `new_dura` (the caller carries the worn fraction over to the new
/// durability). Returns whether it was upgraded.
pub fn smith(inv: &mut Inventory, selected: usize, new_dura: u16) -> (done: bool)
    requires
        old(inv).wf(),
        selected < INV_SIZE,
        stack_total(old(inv).slots@, Item::Diamond) <= u32::MAX,
    ensures
        final(inv).wf(),
        ({
            let s = old(inv).slots@;
            let sel = selected as int;
            &&& done == (s[sel] is Some && spec_upgrade(s[sel]->0.item) is Some && stack_total(s, Item::Diamond) >= 1)
            &&& done ==> final(inv).slots@ == remove_pass(s, Item::Diamond, 1).0.update(
                sel,
                Some(ItemStack { item: spec_upgrade(s[sel]->0.item)->0, dura: new_dura, ..s[sel]->0 }),
            )
            &&& !done ==> final(inv).slots@ == s
        }),
{
    let ghost s = inv.slots@;
    let stack = match inv.slots[selected] {
        Some(st) => st,
        None => {
            return false;
        },
    };
    let up = match upgrade(stack.item) {
        Some(u) => u,
        None => {
            return false;
        },
    };
    if inv.count_of(Item::Diamond) >= 1 {
        proof {
            lemma_remove_keeps_other(s, Item::Diamond, 1, selected as int);
        }
        let ok = inv.remove_items(Item::Diamond, 1);
        assert(ok);
        inv.slots.set(selected, Some(ItemStack { item: up, dura: new_dura, ..stack }));
        true
    } else {
        false
    }
}

// ---------------------------------------------------------------------------
// The creative inventory.
// ---------------------------------------------------------------------------

/// Catalog entries shown per page (nine by four).
pub const CREATIVE_PAGE: usize = 36;

/// Number of catalog pages: the catalog length divided by the page size,
/// rounded up.
pub open spec fn page_count() -> int {
    let n = spec_creative_catalog().len() as int;
    n / CREATIVE_PAGE as int + if n % CREATIVE_PAGE as int > 0 { 1int } else { 0int }
}

pub fn creative_pages() -> (r: usize)
    ensures
        r == page_count(),
{
    let n = crate::items::creative_catalog().len();
    n / CREATIVE_PAGE + if n % CREATIVE_PAGE > 0 { 1 } else { 0 }
}

/// What clicking catalog entry `i` of page `page` grabs: a full stack of the
/// entry's item (replacing whatever the cursor held), when there is one.
pub fn creative_grab(page: usize, i: usize) -> (r: Option<ItemStack>)
    requires
        i < CREATIVE_PAGE,
        page < 0x100_0000,
    ensures
        ({
            let k = page * CREATIVE_PAGE + i;
            if k < spec_creative_catalog().len() {
                r == Some(new_stack(spec_creative_catalog()[k], spec_max_stack(spec_creative_catalog()[k])))
            } else {
                r is None
            }
        }),
{
    let catalog = crate::items::creative_catalog();
    let k = page * CREATIVE_PAGE + i;
    if k < catalog.len() {
        let item = catalog[k];
        Some(ItemStack::new(item, item.max_stack()))
    } else {
        None
    }
}



/// Each brewing recipe takes the ingredient that names its potion: an
/// apple makes healing, a feather swiftness, redstone dust strength and a
/// golden apple regeneration. Recipe 0 is the healing one.
pub proof fn lemma_brew_pairs(k: int)
    requires
        0 <= k < BREW_COUNT,
    ensures
        spec_brew(0) == (Item::Apple, Item::PotionHealing),
        spec_brew(k).0 == Item::Apple ==> spec_brew(k).1 == Item::PotionHealing,
        spec_brew(k).0 == Item::Feather ==> spec_brew(k).1 == Item::PotionSwiftness,
        spec_brew(k).0 == Item::RedstoneDust ==> spec_brew(k).1 == Item::PotionStrength,
        spec_brew(k).0 == Item::GoldenApple ==> spec_brew(k).1 == Item::PotionRegen,
        spec_brew(k).0 == Item::Apple || spec_brew(k).0 == Item::Feather || spec_brew(k).0 == Item::RedstoneDust
            || spec_brew(k).0 == Item::GoldenApple,
{
}

/// Brewing recipe 0 in an inventory holding a glass bottle and an apple
/// uses up exactly one of each and adds one potion of healing (unless the
/// inventory has no room for it); every other item's count is unchanged.
pub proof fn lemma_brew_healing(s: Seq<Option<ItemStack>>, other: Item)
    requires
        stack_total(s, Item::GlassBottle) >= 1,
        stack_total(s, Item::Apple) >= 1,
    ensures
        ({
            let (ing, out) = spec_brew(0);
            let r = spec_add(remove_pass(remove_pass(s, Item::GlassBottle, 1).0, ing, 1).0, out, 1);
            &&& stack_total(r.0, Item::GlassBottle) + 1 == stack_total(s, Item::GlassBottle)
            &&& stack_total(r.0, Item::Apple) + 1 == stack_total(s, Item::Apple)
            &&& stack_total(r.0, Item::PotionHealing) + r.1 == stack_total(s, Item::PotionHealing) + 1
            &&& other != Item::GlassBottle && other != Item::Apple && other != Item::PotionHealing ==> stack_total(r.0, other)
                == stack_total(s, other)
        }),
{
    let s1 = remove_pass(s, Item::GlassBottle, 1).0;
    lemma_remove_conserves(s, Item::GlassBottle, 1, Item::Apple);
    lemma_remove_conserves(s, Item::GlassBottle, 1, Item::GlassBottle);
    lemma_remove_conserves(s, Item::GlassBottle, 1, Item::PotionHealing);
    lemma_remove_conserves(s, Item::GlassBottle, 1, other);
    let s2 = remove_pass(s1, Item::Apple, 1).0;
    lemma_remove_conserves(s1, Item::Apple, 1, Item::Apple);
    lemma_remove_conserves(s1, Item::Apple, 1, Item::GlassBottle);
    lemma_remove_conserves(s1, Item::Apple, 1, Item::PotionHealing);
    lemma_remove_conserves(s1, Item::Apple, 1, other);
    crate::inventory::lemma_add_conserves(s2, Item::PotionHealing, 1, Item::PotionHealing);
    crate::inventory::lemma_add_conserves(s2, Item::PotionHealing, 1, Item::Apple);
    crate::inventory::lemma_add_conserves(s2, Item::PotionHealing, 1, Item::GlassBottle);
    crate::inventory::lemma_add_conserves(s2, Item::PotionHealing, 1, other);
}

} // verus!
