use minerust::blocks::Block;
use minerust::coords::{chunk_key_of, pos_key_from};
use minerust::entities::MobKind;
use minerust::fluids::fluid_step;
use minerust::world::{apply_remote_block, World};
use std::collections::HashMap;

fn flat_world() -> World {
    let mut w = World::new(7, 0);
    let mut floor = Vec::new();
    for x in 0..16 {
        for z in 0..16 {
            floor.push((x, 40, z, Block::Stone));
        }
    }
    w.inject_mc_chunk(0, 0, &floor);
    w.inject_mc_chunk(-1, 0, &[]);
    w.dirty.clear();
    w
}

fn level(w: &World, x: i32, y: i32, z: i32) -> u8 {
    w.power.get(&pos_key_from(x, y, z)).copied().unwrap_or(0)
}

#[test]
fn set_block_marks_dirty_and_persists() {
    let mut w = flat_world();
    w.set_block(0, 50, 5, Block::Planks);
    assert_eq!(w.get_block(0, 50, 5), Block::Planks);
    assert!(w.is_dirty(0, 0));
    assert!(w.is_dirty(-1, 0), "border edit marks neighbor");
    assert_eq!(w.edits.get(&pos_key_from(0, 50, 5)), Some(&Block::Planks));
}

#[test]
fn edits_outside_loaded_chunks_or_rows_do_nothing() {
    let mut w = flat_world();
    w.set_block(100, 50, 100, Block::Planks);
    assert_eq!(w.get_block(100, 50, 100), Block::Air);
    assert!(w.edits.is_empty());
    w.set_block(3, 96, 3, Block::Planks);
    w.set_block(3, -1, 3, Block::Planks);
    assert!(w.edits.is_empty());
    assert_eq!(w.get_block(3, 40, 3), Block::Stone);
}

#[test]
fn placed_sand_is_queued_for_gravity() {
    let mut w = flat_world();
    w.pending_support.clear();
    w.set_block(8, 45, 8, Block::Sand);
    assert!(w.pending_support.contains(&(8, 45, 8)), "midair sand must be queued to fall");
    w.pending_support.clear();
    w.set_block(8, 47, 8, Block::TallGrass);
    assert!(w.pending_support.contains(&(8, 47, 8)));
}

#[test]
fn unsupported_blocks_are_flagged() {
    let mut w = flat_world();
    w.set_block(8, 41, 8, Block::Dirt);
    w.set_block(8, 42, 8, Block::Torch);
    assert!(w.torches.contains(&pos_key_from(8, 42, 8)));
    w.pending_support.clear();
    w.set_block(8, 41, 8, Block::Air);
    assert!(w.pending_support.contains(&(8, 42, 8)), "torch above removed block must be queued for a support check");
}

#[test]
fn liquids_and_observers_next_to_edits_are_queued() {
    let mut w = flat_world();
    w.set_block(5, 41, 5, Block::Water);
    w.set_block(7, 41, 5, Block::Observer);
    w.pending_fluid.clear();
    w.pending_obs.clear();
    w.set_block(6, 41, 5, Block::Dirt);
    assert_eq!(w.pending_fluid, vec![(6, 41, 5), (5, 41, 5)]);
    assert_eq!(w.pending_obs, vec![(7, 41, 5)]);
}

#[test]
fn network_log_records_enabled_edits() {
    let mut w = flat_world();
    w.set_block(1, 41, 1, Block::Dirt);
    assert!(w.net_log.is_empty());
    w.net_log_enabled = true;
    w.set_block(1, 41, 1, Block::Stone);
    assert_eq!(w.net_log, vec![(0, 1, 41, 1, Block::Stone.id())]);
}

#[test]
fn wire_carries_a_weakening_signal() {
    let mut w = flat_world();
    for x in 2..14 {
        w.set_block(x, 41, 8, Block::RedstoneWire);
    }
    w.set_block(1, 41, 8, Block::LeverOn);
    assert_eq!(level(&w, 1, 41, 8), 16);
    assert_eq!(level(&w, 2, 41, 8), 15);
    assert_eq!(level(&w, 3, 41, 8), 14);
    assert_eq!(level(&w, 13, 41, 8), 4);
    // A lamp at the end of the line lights up.
    w.set_block(14, 41, 8, Block::RedstoneLamp);
    assert_eq!(level(&w, 14, 41, 8), 15);
    assert!(w.torches.contains(&pos_key_from(14, 41, 8)));
    // Switching the lever off clears the line and the lamp.
    w.set_block(1, 41, 8, Block::Lever);
    assert_eq!(level(&w, 2, 41, 8), 0);
    assert_eq!(level(&w, 14, 41, 8), 0);
    assert!(!w.torches.contains(&pos_key_from(14, 41, 8)));
}

#[test]
fn signal_dies_out_after_fifteen_wires() {
    let mut w = flat_world();
    w.inject_mc_chunk(1, 0, &[]);
    for x in 1..25 {
        w.set_block(x, 41, 3, Block::RedstoneWire);
    }
    w.set_block(0, 41, 3, Block::RedstoneTorch);
    assert_eq!(level(&w, 15, 41, 3), 1);
    assert_eq!(level(&w, 16, 41, 3), 0);
}

#[test]
fn repeaters_refresh_and_tnt_is_queued() {
    let mut w = flat_world();
    w.set_block(2, 41, 2, Block::RedstoneWire);
    w.set_block(3, 41, 2, Block::Repeater);
    w.set_block(4, 41, 2, Block::RedstoneWire);
    w.set_block(5, 41, 2, Block::Tnt);
    w.set_block(2, 41, 3, Block::Dispenser);
    w.pending_tnt.clear();
    w.pending_dispense.clear();
    w.set_block(1, 41, 2, Block::RedstoneTorch);
    assert_eq!(level(&w, 2, 41, 2), 15);
    assert_eq!(level(&w, 3, 41, 2), 16);
    assert_eq!(level(&w, 4, 41, 2), 15);
    assert_eq!(w.pending_tnt, vec![(5, 41, 2)]);
    assert_eq!(w.pending_dispense, vec![(2, 41, 3)]);
}

#[test]
fn comparator_emits_container_fill() {
    let mut w = flat_world();
    w.container_fill.insert(pos_key_from(5, 41, 9), 6);
    w.set_block(4, 41, 9, Block::Comparator);
    w.set_block(3, 41, 9, Block::RedstoneWire);
    assert_eq!(level(&w, 4, 41, 9), 7);
    assert_eq!(level(&w, 3, 41, 9), 6);
}

#[test]
fn streamed_chunks_replace_and_mark_neighbors() {
    let mut w = flat_world();
    w.dirty.clear();
    w.inject_mc_chunk(0, 0, &[(3, 5, 4, Block::Glowstone), (19, 7, -2, Block::Dirt), (1, 200, 1, Block::Stone)]);
    assert_eq!(w.get_block(3, 5, 4), Block::Glowstone);
    assert_eq!(w.get_block(3, 7, 14), Block::Dirt);
    assert_eq!(w.get_block(3, 40, 3), Block::Air);
    assert!(w.torches.contains(&pos_key_from(3, 5, 4)));
    assert!(w.dirty.contains(&chunk_key_of(0, 0)));
    assert!(w.dirty.contains(&chunk_key_of(-1, 0)));
    assert!(!w.dirty.contains(&chunk_key_of(1, 0)));
    assert!(w.has_chunk(0, 0));
    assert!(!w.has_chunk(5, 5));
}

#[test]
fn remote_edits_land_in_their_dimension() {
    let mut w = flat_world();
    let mut others: HashMap<u8, World> = HashMap::new();
    apply_remote_block(&mut w, &mut others, 7, 0, 2, 41, 2, Block::Torch);
    assert_eq!(w.get_block(2, 41, 2), Block::Torch);
    assert!(w.net_log.is_empty());
    assert!(w.net_log_enabled);
    apply_remote_block(&mut w, &mut others, 7, 0, 300, 41, 2, Block::Glowstone);
    assert_eq!(w.edits.get(&pos_key_from(300, 41, 2)), Some(&Block::Glowstone));
    assert!(w.torches.contains(&pos_key_from(300, 41, 2)));
    apply_remote_block(&mut w, &mut others, 7, 1, 1, 2, 3, Block::Netherrack);
    let nether = &others[&1];
    assert_eq!(nether.dim, 1);
    assert_eq!(nether.edits.get(&pos_key_from(1, 2, 3)), Some(&Block::Netherrack));
}

#[test]
fn mob_ids_are_stable() {
    for id in 0..16u8 {
        assert_eq!(MobKind::from_id(id).id(), id);
    }
    assert_eq!(MobKind::from_id(200), MobKind::Pig);
    assert_eq!(MobKind::Wolf.id(), 13);
    assert!(MobKind::Creeper.is_hostile());
    assert!(!MobKind::Cow.is_hostile());
    assert_eq!(MobKind::Zombie.tiles(), (59, 60));
}

#[test]
fn water_source_spreads_one_level_weaker() {
    let mut w = flat_world();
    w.set_block(5, 41, 5, Block::Water);
    assert_eq!(w.pending_fluid, vec![(5, 41, 5)]);
    fluid_step(&mut w);
    assert_eq!(w.get_block(5, 41, 5), Block::Water);
    assert_eq!(w.get_block(6, 41, 5), Block::WaterF3);
    assert_eq!(w.get_block(4, 41, 5), Block::WaterF3);
    assert_eq!(w.get_block(5, 41, 6), Block::WaterF3);
    assert_eq!(w.get_block(5, 41, 4), Block::WaterF3);
    assert_eq!(w.get_block(5, 42, 5), Block::Air);
}

#[test]
fn unfed_flow_dries_up_and_liquid_falls() {
    let mut w = flat_world();
    w.set_block(8, 41, 8, Block::WaterF1);
    w.set_block(2, 45, 2, Block::Lava);
    fluid_step(&mut w);
    assert_eq!(w.get_block(8, 41, 8), Block::Air);
    assert_eq!(w.get_block(2, 45, 2), Block::Lava);
    assert_eq!(w.get_block(2, 44, 2), Block::LavaF2);
    assert_eq!(w.get_block(3, 45, 2), Block::Air);
}

#[test]
fn fluid_batch_is_sorted_distinct_and_capped() {
    let mut w = flat_world();
    for i in (0..200).rev() {
        w.pending_fluid.push((i, 50, 0));
        w.pending_fluid.push((i, 50, 0));
    }
    let batch = w.take_fluid_batch();
    assert_eq!(batch.len(), 160);
    assert_eq!(batch[0], (0, 50, 0));
    assert_eq!(batch[159], (159, 50, 0));
    assert_eq!(w.pending_fluid.len(), 40);
    assert_eq!(w.pending_fluid[0], (160, 50, 0));
    fluid_step(&mut w);
    assert!(w.pending_fluid.is_empty());
}

#[test]
fn lone_repeater_stays_off_without_a_source() {
    let mut w = flat_world();
    w.set_block(2, 41, 6, Block::RedstoneWire);
    w.set_block(3, 41, 6, Block::Repeater);
    w.set_block(4, 41, 6, Block::RedstoneWire);
    w.set_block(5, 41, 6, Block::RedstoneLamp);
    w.recompute_power(3, 41, 6);
    assert_eq!(level(&w, 3, 41, 6), 0);
    assert_eq!(level(&w, 2, 41, 6), 0);
    assert_eq!(level(&w, 4, 41, 6), 0);
    assert_eq!(level(&w, 5, 41, 6), 0);
    assert!(!w.torches.contains(&pos_key_from(5, 41, 6)));
}

#[test]
fn power_outside_the_cube_does_not_feed_wires_inside() {
    let mut w = flat_world();
    w.inject_mc_chunk(1, 0, &[]);
    w.set_block(20, 41, 0, Block::RedstoneWire);
    w.set_block(21, 41, 0, Block::RedstoneWire);
    w.power.insert(pos_key_from(21, 41, 0), 10);
    w.power.insert(pos_key_from(20, 41, 0), 9);
    w.recompute_power(0, 41, 0);
    assert_eq!(level(&w, 20, 41, 0), 0);
    assert_eq!(level(&w, 21, 41, 0), 10);
}

#[test]
fn power_outside_the_cube_fires_a_repeater_inside() {
    let mut w = flat_world();
    w.inject_mc_chunk(1, 0, &[]);
    w.set_block(20, 41, 0, Block::Repeater);
    w.set_block(21, 41, 0, Block::RedstoneWire);
    w.set_block(19, 41, 0, Block::RedstoneWire);
    w.power.insert(pos_key_from(21, 41, 0), 3);
    w.recompute_power(0, 41, 0);
    assert_eq!(level(&w, 20, 41, 0), 16);
    assert_eq!(level(&w, 19, 41, 0), 15);
    assert_eq!(level(&w, 21, 41, 0), 15);
}
