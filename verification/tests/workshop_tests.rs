use minerust::blocks::Block;
use minerust::inventory::Inventory;
use minerust::items::{Item, ItemStack};
use minerust::workshop::{
    apply_book, brew, combine, creative_grab, creative_pages, cycle_enchant_kind, disenchant, enchant, enchantable,
    repair, smith, trade,
};

fn inv_with(items: &[(usize, Item, u32)]) -> Inventory {
    let mut inv = Inventory::new();
    for &(slot, item, count) in items {
        inv.slots[slot] = Some(ItemStack::new(item, count));
    }
    inv
}

#[test]
fn trades_need_the_full_price() {
    let mut inv = inv_with(&[(0, Item::Block(Block::Wool), 9)]);
    assert!(trade(&mut inv, 0));
    assert_eq!(inv.count_of(Item::Block(Block::Wool)), 1);
    assert_eq!(inv.count_of(Item::Emerald), 1);
    assert!(!trade(&mut inv, 0));
    assert!(!trade(&mut inv, 3));
    assert!(trade(&mut inv, 2));
    assert_eq!(inv.count_of(Item::Emerald), 0);
    assert_eq!(inv.count_of(Item::Block(Block::Torch)), 8);
}

#[test]
fn brewing_uses_a_bottle_and_the_ingredient() {
    let mut inv = inv_with(&[(0, Item::GlassBottle, 2), (5, Item::Feather, 1)]);
    assert!(!brew(&mut inv, 0));
    assert!(brew(&mut inv, 1));
    assert_eq!(inv.count_of(Item::GlassBottle), 1);
    assert_eq!(inv.count_of(Item::Feather), 0);
    assert_eq!(inv.count_of(Item::PotionSwiftness), 1);
    assert!(!brew(&mut inv, 1));
}

#[test]
fn enchanting_costs_levels_and_tops_out() {
    assert!(enchantable(Item::IronSword));
    assert!(enchantable(Item::Book));
    assert!(!enchantable(Item::FlintAndSteel));
    assert!(!enchantable(Item::Coal));
    let mut s = ItemStack::new(Item::Book, 1);
    let mut xp = 100;
    assert!(enchant(&mut s, &mut xp));
    assert_eq!((s.item, s.ench, xp), (Item::EnchantedBook, 1, 70));
    assert!(enchant(&mut s, &mut xp));
    assert_eq!((s.ench, xp), (2, 10));
    assert!(!enchant(&mut s, &mut xp));
    let mut top = ItemStack { ench: 5, ..ItemStack::new(Item::IronSword, 1) };
    let mut lots = 10_000;
    assert!(!enchant(&mut top, &mut lots));
    cycle_enchant_kind(&mut top, 4);
    assert_eq!((top.ench_kind, top.ench), (1, 0));
    let mut last = ItemStack { ench_kind: 3, ench: 2, ..ItemStack::new(Item::IronSword, 1) };
    cycle_enchant_kind(&mut last, 4);
    assert_eq!((last.ench_kind, last.ench), (0, 0));
    let mut single = ItemStack { ench: 2, ..ItemStack::new(Item::IronSword, 1) };
    cycle_enchant_kind(&mut single, 1);
    assert_eq!(single.ench, 2);
}

#[test]
fn grindstone_refunds_fifteen_points_a_level() {
    let mut s = ItemStack { ench: 3, ench_kind: 2, ..ItemStack::new(Item::IronPickaxe, 1) };
    let mut xp = 5;
    assert!(disenchant(&mut s, &mut xp));
    assert_eq!((s.ench, s.ench_kind, xp), (0, 0, 50));
    assert!(!disenchant(&mut s, &mut xp));
    assert_eq!(xp, 50);
}

#[test]
fn anvil_repairs_with_an_ingot() {
    let mut inv = inv_with(&[(0, Item::IronSword, 1), (3, Item::IronIngot, 2)]);
    inv.slots[0] = Some(ItemStack { dura: 40, ..ItemStack::new(Item::IronSword, 1) });
    let mut xp = 59;
    assert!(!repair(&mut inv, 0, &mut xp));
    xp = 70;
    assert!(repair(&mut inv, 0, &mut xp));
    assert_eq!(xp, 10);
    assert_eq!(inv.slots[0].unwrap().dura, 0);
    assert_eq!(inv.count_of(Item::IronIngot), 1);
    assert!(!repair(&mut inv, 0, &mut xp));
    assert!(!repair(&mut inv, 3, &mut xp));
}

#[test]
fn anvil_combines_twins() {
    let mut inv = Inventory::new();
    inv.slots[1] = Some(ItemStack { dura: 200, ench: 1, ..ItemStack::new(Item::IronPickaxe, 1) });
    inv.slots[7] = Some(ItemStack { dura: 100, ench: 3, ench_kind: 2, ..ItemStack::new(Item::IronPickaxe, 1) });
    let mut xp = 30;
    assert!(combine(&mut inv, 1, &mut xp));
    assert_eq!(xp, 0);
    assert_eq!(inv.slots[7], None);
    let max = Item::IronPickaxe.max_durability().unwrap();
    let got = inv.slots[1].unwrap();
    assert_eq!(got.dura, 200u16.saturating_sub(max - 100));
    assert_eq!((got.ench, got.ench_kind), (3, 2));
    assert!(!combine(&mut inv, 1, &mut xp));
}

#[test]
fn anvil_applies_a_fitting_book() {
    let mut inv = Inventory::new();
    inv.slots[0] = Some(ItemStack { ench: 1, ench_kind: 0, ..ItemStack::new(Item::IronSword, 1) });
    // "Efficiency" (kind 0) does not fit a sword; "Looting" (kind 5) does.
    inv.slots[2] = Some(ItemStack { ench: 4, ench_kind: 0, ..ItemStack::new(Item::EnchantedBook, 1) });
    inv.slots[4] = Some(ItemStack { ench: 2, ench_kind: 5, ..ItemStack::new(Item::EnchantedBook, 1) });
    assert!(apply_book(&mut inv, 0));
    assert_eq!(inv.slots[4], None);
    assert!(inv.slots[2].is_some());
    let sword = inv.slots[0].unwrap();
    assert_eq!((sword.ench_kind, sword.ench), (2, 2));
    assert!(!apply_book(&mut inv, 0));
}

#[test]
fn smithing_upgrades_iron_to_diamond() {
    let mut inv = inv_with(&[(2, Item::IronAxe, 1), (9, Item::Diamond, 1), (10, Item::Coal, 1)]);
    assert!(!smith(&mut inv, 10, 0));
    assert!(smith(&mut inv, 2, 17));
    let axe = inv.slots[2].unwrap();
    assert_eq!((axe.item, axe.dura), (Item::DiamondAxe, 17));
    assert_eq!(inv.count_of(Item::Diamond), 0);
    assert!(!smith(&mut inv, 2, 0));
}

#[test]
fn creative_pages_cover_the_catalog() {
    let n = minerust::items::creative_catalog().len();
    assert_eq!(creative_pages(), (n + 35) / 36);
    let first = creative_grab(0, 0).unwrap();
    assert_eq!(first.count, first.item.max_stack());
    assert_eq!(creative_grab(creative_pages(), 0), None);
}
