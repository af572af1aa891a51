use minerust::blocks::{face_visible, Block};
use minerust::items::{cook_speed, Item, ItemStack};
use minerust::crafting::match_recipe;
use minerust::slots::{grid_items, hopper_transfer, interact, interact_take, take_craft_output};

fn st(item: Item, count: u32) -> Option<ItemStack> {
    Some(ItemStack::new(item, count))
}

#[test]
fn left_click_picks_up_puts_down_and_swaps() {
    let mut slot = st(Item::Coal, 5);
    let mut cur = None;
    interact(&mut slot, &mut cur, true, false);
    assert_eq!((slot, cur), (None, st(Item::Coal, 5)));
    interact(&mut slot, &mut cur, true, false);
    assert_eq!((slot, cur), (st(Item::Coal, 5), None));
    let mut cur = st(Item::Stick, 2);
    interact(&mut slot, &mut cur, true, false);
    assert_eq!((slot, cur), (st(Item::Stick, 2), st(Item::Coal, 5)));
}

#[test]
fn left_click_merges_up_to_a_full_stack() {
    let mut slot = st(Item::Coal, 60);
    let mut cur = st(Item::Coal, 10);
    interact(&mut slot, &mut cur, true, false);
    assert_eq!((slot, cur), (st(Item::Coal, 64), st(Item::Coal, 6)));
    let mut slot = st(Item::Coal, 3);
    let mut cur = st(Item::Coal, 10);
    interact(&mut slot, &mut cur, true, false);
    assert_eq!((slot, cur), (st(Item::Coal, 13), None));
}

#[test]
fn right_click_splits_and_places_one() {
    let mut slot = st(Item::Coal, 5);
    let mut cur = None;
    interact(&mut slot, &mut cur, false, true);
    assert_eq!((slot, cur), (st(Item::Coal, 2), st(Item::Coal, 3)));
    let mut empty = None;
    interact(&mut empty, &mut cur, false, true);
    assert_eq!((empty, cur), (st(Item::Coal, 1), st(Item::Coal, 2)));
    interact(&mut slot, &mut cur, false, true);
    assert_eq!((slot, cur), (st(Item::Coal, 3), st(Item::Coal, 1)));
    let mut one = st(Item::Stick, 1);
    let mut none = None;
    interact(&mut one, &mut none, false, true);
    assert_eq!((one, none), (None, st(Item::Stick, 1)));
    // No button: nothing moves.
    interact(&mut slot, &mut cur, false, false);
    assert_eq!((slot, cur), (st(Item::Coal, 3), st(Item::Coal, 1)));
}

#[test]
fn take_only_slots_move_whole_stacks() {
    let mut slot = st(Item::IronIngot, 1);
    let mut cur = st(Item::IronIngot, 63);
    assert!(interact_take(&mut slot, &mut cur, true));
    assert_eq!((slot, cur), (None, st(Item::IronIngot, 64)));
    let mut slot = st(Item::IronIngot, 1);
    assert!(!interact_take(&mut slot, &mut cur, true));
    assert_eq!((slot, cur), (st(Item::IronIngot, 1), st(Item::IronIngot, 64)));
    assert!(!interact_take(&mut slot, &mut cur, false));
    let mut empty = None;
    assert!(interact_take(&mut slot, &mut empty, true));
    assert_eq!((slot, empty), (None, st(Item::IronIngot, 1)));
}

#[test]
fn faces_hide_between_like_blocks() {
    assert!(face_visible(Block::Stone, Block::Air));
    assert!(!face_visible(Block::Stone, Block::Dirt));
    assert!(!face_visible(Block::Water, Block::WaterF2));
    assert!(!face_visible(Block::Lava, Block::LavaF1));
    assert!(face_visible(Block::Water, Block::Air));
    assert!(!face_visible(Block::Glass, Block::Glass));
    assert!(face_visible(Block::Stone, Block::Glass));
}

#[test]
fn crafting_output_uses_one_of_each_ingredient() {
    let mut grid: Vec<Option<ItemStack>> = vec![None; 9];
    grid[4] = st(Item::Block(Block::Log), 2);
    let items = grid_items(&grid, 2);
    assert_eq!(items, vec![None, None, None, Some(Item::Block(Block::Log))]);
    let result = match_recipe(&items, 2);
    assert_eq!(result, Some((Item::Block(Block::Planks), 4)));
    let mut cursor = None;
    assert!(take_craft_output(&mut grid, result, &mut cursor));
    assert_eq!(cursor, st(Item::Block(Block::Planks), 4));
    assert_eq!(grid[4], st(Item::Block(Block::Log), 1));
    // A cursor holding something else refuses the output; nothing is used.
    let mut other = st(Item::Coal, 1);
    assert!(!take_craft_output(&mut grid, result, &mut other));
    assert_eq!(grid[4], st(Item::Block(Block::Log), 1));
    assert!(!take_craft_output(&mut grid, None, &mut cursor));
}

#[test]
fn hoppers_move_one_item_down() {
    let mut src: Vec<Option<ItemStack>> = vec![None; 27];
    let mut dst: Vec<Option<ItemStack>> = vec![None; 27];
    src[2] = st(Item::Coal, 2);
    dst[0] = st(Item::Stick, 1);
    dst[5] = st(Item::Coal, 64);
    dst[6] = st(Item::Coal, 10);
    assert_eq!(hopper_transfer(&mut src, &mut dst), Some(Item::Coal));
    assert_eq!(src[2], st(Item::Coal, 1));
    assert_eq!(dst[6], st(Item::Coal, 11));
    assert_eq!(hopper_transfer(&mut src, &mut dst), Some(Item::Coal));
    assert_eq!(src[2], None);
    assert_eq!(hopper_transfer(&mut src, &mut dst), None);
    // A full container sends the item back to the first empty slot above.
    let mut full: Vec<Option<ItemStack>> = vec![st(Item::Stick, 64); 2];
    let mut from: Vec<Option<ItemStack>> = vec![None, st(Item::Coal, 1)];
    assert_eq!(hopper_transfer(&mut from, &mut full), Some(Item::Coal));
    assert_eq!(from, vec![st(Item::Coal, 1), None]);
    // A new stack starts in the first empty slot.
    let mut dst2: Vec<Option<ItemStack>> = vec![st(Item::Stick, 64), None];
    let mut src2: Vec<Option<ItemStack>> = vec![st(Item::Coal, 3)];
    assert_eq!(hopper_transfer(&mut src2, &mut dst2), Some(Item::Coal));
    assert_eq!(dst2[1], st(Item::Coal, 1));
}

#[test]
fn smokers_speed_up_food_and_blast_furnaces_the_rest() {
    assert_eq!(cook_speed(Block::Smoker, st(Item::Beef, 1)), 2);
    assert_eq!(cook_speed(Block::Smoker, st(Item::RawIron, 1)), 1);
    assert_eq!(cook_speed(Block::BlastFurnace, st(Item::RawIron, 1)), 2);
    assert_eq!(cook_speed(Block::BlastFurnace, st(Item::Beef, 1)), 1);
    assert_eq!(cook_speed(Block::Furnace, st(Item::Beef, 1)), 1);
    assert_eq!(cook_speed(Block::BlastFurnace, None), 2);
}
