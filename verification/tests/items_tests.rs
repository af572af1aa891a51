use minerust::blocks::Block as B;
use minerust::blocks::BLOCK_COUNT;
use std::collections::HashMap;
use minerust::crafting::match_recipe;
use minerust::inventory::Inventory;
use minerust::items::Item as I;
use minerust::items::{block_drop, luck_rank, FurnaceState, ItemStack};

fn grid3(cells: &[(usize, I)]) -> Vec<Option<I>> {
    let mut g = vec![None; 9];
    for &(i, it) in cells {
        g[i] = Some(it);
    }
    g
}

#[test]
fn recipes_match() {
    // Log anywhere in a 2x2 grid -> planks.
    let mut g = vec![None; 4];
    g[3] = Some(I::Block(B::Log));
    assert_eq!(match_recipe(&g, 2), Some((I::Block(B::Planks), 4)));
    // Two planks stacked -> sticks.
    let g = grid3(&[(1, I::Block(B::Planks)), (4, I::Block(B::Planks))]);
    assert_eq!(match_recipe(&g, 3), Some((I::Stick, 4)));
    // Wooden pickaxe.
    let g = grid3(&[
        (0, I::Block(B::Planks)),
        (1, I::Block(B::Planks)),
        (2, I::Block(B::Planks)),
        (4, I::Stick),
        (7, I::Stick),
    ]);
    assert_eq!(match_recipe(&g, 3), Some((I::WoodPickaxe, 1)));
    // Furnace ring.
    let c = I::Block(B::Cobblestone);
    let g = grid3(&[(0, c), (1, c), (2, c), (3, c), (5, c), (6, c), (7, c), (8, c)]);
    assert_eq!(match_recipe(&g, 3), Some((I::Block(B::Furnace), 1)));
    // Wrong material does not match.
    let g = grid3(&[(0, I::Block(B::Dirt))]);
    assert_eq!(match_recipe(&g, 3), None);
}

#[test]
fn inventory_stacks_and_merges() {
    let mut inv = Inventory::new();
    assert_eq!(inv.add(I::Coal, 70), 0);
    assert_eq!(inv.slots[0].unwrap().count, 64);
    assert_eq!(inv.slots[1].unwrap().count, 6);
    assert_eq!(inv.add(I::Coal, 10), 0);
    assert_eq!(inv.slots[1].unwrap().count, 16);
    // Tools don't stack.
    inv.add(I::IronPickaxe, 2);
    assert_eq!(inv.slots[2].unwrap().count, 1);
    assert_eq!(inv.slots[3].unwrap().count, 1);
}

#[test]
fn drops_respect_tools() {
    assert_eq!(block_drop(B::Stone, false, 0.5f32.to_bits()), None);
    assert_eq!(
        block_drop(B::Stone, true, 0.5f32.to_bits()),
        Some(ItemStack::new(I::Block(B::Cobblestone), 1))
    );
    assert_eq!(block_drop(B::CoalOre, true, 0.5f32.to_bits()), Some(ItemStack::new(I::Coal, 1)));
    assert_eq!(
        block_drop(B::Grass, false, 0.5f32.to_bits()),
        Some(ItemStack::new(I::Block(B::Dirt), 1))
    );
    assert_eq!(
        block_drop(B::Leaves, false, 0.05f32.to_bits()),
        Some(ItemStack::new(I::Block(B::Sapling), 1))
    );
    assert_eq!(block_drop(B::Leaves, false, 0.5f32.to_bits()), None);
    assert_eq!(block_drop(B::Bedrock, true, 0.5f32.to_bits()), None);
}

#[test]
fn item_ids_roundtrip() {
    for id in 0..40u16 {
        let item = I::from_id(id);
        assert_eq!(I::from_id(item.id()), item);
    }
    for item in I::non_block() {
        assert_eq!(I::from_id(item.id()), item);
    }
}

#[test]
fn luck_rank_follows_float_order() {
    assert_eq!(luck_rank(0.0f32.to_bits()), 0);
    assert_eq!(luck_rank((-0.0f32).to_bits()), 0);
    assert_eq!(luck_rank(0.07f32.to_bits()), 0);
    assert_eq!(luck_rank(0.08f32.to_bits()), 1);
    assert_eq!(luck_rank(0.1f32.to_bits()), 1);
    assert_eq!(luck_rank(0.13f32.to_bits()), 2);
    assert_eq!(luck_rank(0.2f32.to_bits()), 3);
    assert_eq!(luck_rank(0.4f32.to_bits()), 4);
    assert_eq!(luck_rank(0.99f32.to_bits()), 4);
    assert_eq!(luck_rank(f32::NAN.to_bits()), 4);
    assert_eq!(luck_rank((-1.0f32).to_bits()), 0);
    // Gravel yields flint up to the flint threshold, seeds up to theirs.
    assert_eq!(block_drop(B::Gravel, false, 0.14f32.to_bits()), Some(ItemStack::new(I::Flint, 1)));
    assert_eq!(block_drop(B::Gravel, false, 0.16f32.to_bits()), Some(ItemStack::new(I::Block(B::Gravel), 1)));
    assert_eq!(block_drop(B::TallGrass, false, 0.3f32.to_bits()), Some(ItemStack::new(I::Seeds, 1)));
    assert_eq!(block_drop(B::Leaves, false, 0.1f32.to_bits()), Some(ItemStack::new(I::Apple, 1)));
}

#[test]
fn item_id_of_blocks_and_tools() {
    assert_eq!(I::Block(B::Stone).id(), B::Stone.id() as u16);
    assert_eq!(I::Stick.id(), 256);
    assert_eq!(I::from_id(256), I::Stick);
    assert_eq!(B::from_id(B::Torch.id()), B::Torch);
    assert_eq!(B::from_id(250), B::Air);
    assert_eq!(I::non_block().len(), 90);
}

#[test]
fn furnace_slots_move_items() {
    let mut f = FurnaceState::new();
    assert!(!f.is_lit());
    assert_eq!(f.burn_total, 1.0f32.to_bits());
    f.input = Some(ItemStack::new(I::RawIron, 2));
    f.fuel = Some(ItemStack::new(I::Coal, 1));
    assert_eq!(f.smelt_ready(), Some(I::IronIngot));
    assert_eq!(f.take_fuel(), Some(I::Coal));
    assert_eq!(f.fuel, None);
    assert_eq!(f.take_fuel(), None);
    assert!(f.finish_item());
    assert!(f.finish_item());
    assert_eq!(f.input, None);
    assert_eq!(f.output, Some(ItemStack::new(I::IronIngot, 2)));
    assert!(!f.finish_item());
    f.burn_left = 2.5f32.to_bits();
    assert!(f.is_lit());
    f.burn_left = (-1.0f32).to_bits();
    assert!(!f.is_lit());
    f.burn_left = f32::NAN.to_bits();
    assert!(!f.is_lit());
}

#[test]
fn furnace_output_slot_must_match() {
    let mut f = FurnaceState::new();
    f.input = Some(ItemStack::new(I::RawIron, 1));
    f.output = Some(ItemStack::new(I::Coal, 3));
    assert_eq!(f.smelt_ready(), None);
    assert!(!f.finish_item());
    assert_eq!(f.input, Some(ItemStack::new(I::RawIron, 1)));
    // Sand is no fuel.
    f.fuel = Some(ItemStack::new(I::Block(B::Sand), 4));
    assert_eq!(f.take_fuel(), None);
    assert_eq!(f.fuel, Some(ItemStack::new(I::Block(B::Sand), 4)));
}

#[test]
fn inventory_add_then_remove_conserves() {
    let mut inv = Inventory::new();
    assert_eq!(inv.add(I::Coal, 100), 0);
    assert_eq!(inv.count_of(I::Coal), 100);
    assert!(inv.remove_items(I::Coal, 30));
    assert_eq!(inv.count_of(I::Coal), 70);
    assert!(!inv.remove_items(I::Coal, 71));
    assert_eq!(inv.count_of(I::Coal), 70);
}

#[test]
fn block_names_are_distinct_but_for_stages_and_flows() {
    let mut seen: HashMap<&str, Vec<B>> = HashMap::new();
    for id in 0..BLOCK_COUNT {
        let b = B::from_id(id);
        assert!(!b.name().is_empty());
        seen.entry(b.name()).or_default().push(b);
    }
    for (name, bs) in &seen {
        if bs.len() > 1 {
            assert!(["Wheat Crop", "Flowing Water", "Flowing Lava"].contains(name), "{name} shared by {bs:?}");
        }
    }
    assert_eq!(B::Log.name(), "Oak Log");
    assert_eq!(B::FlowerRed.name(), "Poppy");
}

#[test]
fn non_block_item_names_are_distinct() {
    let items = I::non_block();
    for (i, a) in items.iter().enumerate() {
        assert!(!a.name().is_empty());
        for c in &items[i + 1..] {
            assert_ne!(a.name(), c.name());
        }
    }
    assert_eq!(I::Block(B::Sand).name(), B::Sand.name());
    assert_eq!(I::WoodPickaxe.name(), "Wooden Pickaxe");
}

#[test]
fn empty_grid_crafts_nothing() {
    assert_eq!(match_recipe(&[], 0), None);
    assert_eq!(match_recipe(&[Some(I::Block(B::Log))], 0), None);
    assert_eq!(match_recipe(&[None, None, None, None], 2), None);
}
