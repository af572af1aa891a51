use minerust::actions::{
    arrival_portal, blast_cell, neighbors_ready, ripen_crop, sorted_offsets, support_check, switch_dim, take_arrow, Support, TreeShape,
};
use minerust::items::{Item, ItemStack};
use minerust::blocks::Block;
use minerust::coords::{chunk_key_of, pos_key_from};
use minerust::fluids::fluid_step;
use minerust::hashing::{hash2, hash3, hash32, next_bits24};
use minerust::world::{Chunk, World};
use std::collections::HashMap;

/// A world whose chunk (0, 0) is loaded and empty.
fn open_world() -> World {
    let mut w = World::new(7, 0);
    w.inject_mc_chunk(0, 0, &[]);
    w
}

fn rand3(seed: u32, x: i32, y: i32, z: i32) -> f32 {
    (hash3(seed, x, y, z) & 0xFFFFFF) as f32 / 16777216.0
}

/// The tree the game grows from a sapling at (x, y, z) in a world of `seed`.
fn tree_shape(seed: u32, x: i32, y: i32, z: i32) -> TreeShape {
    let trunk = 4 + (rand3(seed ^ 0x6072_EE00, x, y, z) * 3.0) as i32;
    let birch = rand3(seed ^ 0x0B12_C400, x, y, z) < 0.25;
    let top = y + trunk - 1;
    let mut bare = [false; 8];
    for layer in 0..2 {
        let ly = top - 1 + layer;
        let corners = [(-2, -2), (-2, 2), (2, -2), (2, 2)];
        for (k, (dx, dz)) in corners.iter().enumerate() {
            bare[(layer as usize) * 4 + k] = rand3(seed ^ 0x00C0_FFEE, x + dx, ly, z + dz) < 0.6;
        }
    }
    TreeShape { trunk, birch, bare }
}

fn settle(world: &mut World, ticks: usize) {
    for _ in 0..ticks {
        fluid_step(world);
    }
}

fn stone_floor_at_60() -> World {
    let mut w = open_world();
    for x in 0..16 {
        for z in 0..16 {
            for y in 60..70 {
                w.set_block(x, y, z, Block::Air);
            }
            w.set_block(x, 60, z, Block::Stone);
        }
    }
    w.pending_fluid.clear();
    w
}

#[test]
fn water_flows_down_and_spreads() {
    let mut w = stone_floor_at_60();
    // Source two blocks up: must fall, then spread along the floor.
    w.set_block(8, 63, 8, Block::Water);
    settle(&mut w, 12);
    assert!(w.get_block(8, 62, 8).is_water(), "falls straight down");
    assert!(w.get_block(8, 61, 8).is_water(), "keeps falling");
    assert!(w.get_block(9, 61, 8).is_water(), "spreads on the floor");
    assert!(w.get_block(11, 61, 8).is_water(), "spreads further");
    assert!(!w.get_block(15, 61, 8).is_water(), "flow range is finite without a source");
}

#[test]
fn flows_evaporate_when_source_removed() {
    let mut w = stone_floor_at_60();
    w.set_block(8, 61, 8, Block::Water);
    settle(&mut w, 10);
    assert!(w.get_block(10, 61, 8).is_water(), "spread before removal");
    w.set_block(8, 61, 8, Block::Air);
    settle(&mut w, 20);
    for x in 5..12 {
        assert!(!w.get_block(x, 61, 8).is_water(), "flow at x={x} should evaporate");
    }
}

#[test]
fn saplings_grow_into_trees() {
    let mut w = open_world();
    for y in 50..70 {
        for x in 4..12 {
            for z in 4..12 {
                w.set_block(x, y, z, Block::Air);
            }
        }
    }
    let shape = tree_shape(w.seed, 8, 51, 8);
    w.grow_tree(8, 51, 8, &shape);
    let trunk = w.get_block(8, 51, 8);
    assert!(matches!(trunk, Block::Log | Block::BirchLog), "expected log at trunk base, got {:?}", trunk);
    let mut leaves = 0;
    for y in 50..70 {
        for x in 4..12 {
            for z in 4..12 {
                if w.get_block(x, y, z) == Block::Leaves {
                    leaves += 1;
                }
            }
        }
    }
    assert!(leaves > 10, "expected a canopy, got {leaves} leaves");
}

#[test]
fn tree_shape_places_trunk_and_canopy_exactly() {
    let mut w = open_world();
    w.set_block(3, 20, 3, Block::Stone);
    let shape = TreeShape { trunk: 5, birch: true, bare: [true, false, false, false, false, false, false, true] };
    w.grow_tree(3, 15, 3, &shape);
    for dy in 0..5 {
        assert_eq!(w.get_block(3, 15 + dy, 3), Block::BirchLog);
    }
    // Top of trunk is row 19; leaf layers at 18 and 19, caps at 20 and 21.
    assert_eq!(w.get_block(1, 18, 1), Block::Air);
    assert_eq!(w.get_block(1, 18, 5), Block::Leaves);
    assert_eq!(w.get_block(5, 19, 5), Block::Air);
    assert_eq!(w.get_block(5, 19, 1), Block::Leaves);
    assert_eq!(w.get_block(2, 20, 3), Block::Leaves);
    assert_eq!(w.get_block(2, 20, 2), Block::Air);
    // A solid block in the canopy stays.
    assert_eq!(w.get_block(3, 20, 3), Block::Stone);
    assert_eq!(w.get_block(3, 21, 3), Block::Leaves);
}

#[test]
fn blast_breaks_blocks_but_not_bedrock() {
    let mut w = open_world();
    w.set_block(1, 0, 1, Block::Bedrock);
    w.set_block(1, 1, 1, Block::Dirt);
    w.set_block(1, 2, 1, Block::Tnt);
    assert_eq!(blast_cell(&mut w, 1, 0, 1), Block::Bedrock);
    assert_eq!(blast_cell(&mut w, 1, 1, 1), Block::Dirt);
    assert_eq!(blast_cell(&mut w, 1, 2, 1), Block::Tnt);
    assert_eq!(blast_cell(&mut w, 1, 3, 1), Block::Air);
    assert_eq!(w.get_block(1, 0, 1), Block::Bedrock);
    assert_eq!(w.get_block(1, 1, 1), Block::Air);
    assert_eq!(w.get_block(1, 2, 1), Block::Air);
}

#[test]
fn portal_arrives_on_highest_landing() {
    let mut w = open_world();
    w.set_block(5, 30, 5, Block::Stone);
    w.set_block(5, 50, 5, Block::Stone);
    w.set_block(5, 51, 5, Block::Stone);
    let ay = arrival_portal(&mut w, 5, 5);
    assert_eq!(ay, 52);
    assert_eq!(w.get_block(5, 52, 5), Block::Portal);
}

#[test]
fn portal_carves_a_pocket_without_landing() {
    let mut w = open_world();
    w.set_block(6, 41, 6, Block::Lava);
    let ay = arrival_portal(&mut w, 6, 6);
    assert_eq!(ay, 40);
    for x in 5..8 {
        for z in 5..8 {
            assert_eq!(w.get_block(x, 39, z), Block::Obsidian);
            if (x, z) != (6, 6) {
                assert_eq!(w.get_block(x, 40, z), Block::Air);
            }
            assert_eq!(w.get_block(x, 41, z), Block::Air);
            assert_eq!(w.get_block(x, 42, z), Block::Air);
        }
    }
    assert_eq!(w.get_block(6, 40, 6), Block::Portal);
}

#[test]
fn switching_dimension_swaps_worlds() {
    let mut w = open_world();
    w.set_block(1, 1, 1, Block::Stone);
    let mut others: HashMap<u8, World> = HashMap::new();
    switch_dim(&mut w, &mut others, 0, 7);
    assert_eq!(w.dim, 0);
    assert!(others.is_empty());
    switch_dim(&mut w, &mut others, 1, 7);
    assert_eq!(w.dim, 1);
    assert_eq!(w.seed, 7);
    assert!(!w.has_chunk(0, 0));
    assert!(others.contains_key(&0));
    switch_dim(&mut w, &mut others, 0, 7);
    assert_eq!(w.dim, 0);
    assert_eq!(w.get_block(1, 1, 1), Block::Stone);
    assert!(others.contains_key(&1));
    assert!(!others.contains_key(&0));
}

#[test]
fn integrated_chunks_carry_player_edits() {
    let mut w = World::new(3, 0);
    w.edits.insert(pos_key_from(17, 5, -3), Block::Glass);
    w.edits.insert(pos_key_from(2, 5, 2), Block::Stone);
    let mut c = Chunk::new();
    c.set(1, 5, 13, Block::Dirt);
    c.set(0, 0, 0, Block::Bedrock);
    w.integrate_chunk(1, -1, c, vec![(20, 6, -4)], vec![(18, 2, -9)]);
    assert!(w.has_chunk(1, -1));
    assert_eq!(w.get_block(17, 5, -3), Block::Glass);
    assert_eq!(w.get_block(16, 0, -16), Block::Bedrock);
    assert_eq!(w.get_block(2, 5, 2), Block::Air);
    assert!(w.torches.contains(&pos_key_from(20, 6, -4)));
    assert!(w.spawners.contains(&pos_key_from(18, 2, -9)));
    // A second chunk for the same place is dropped.
    let mut d = Chunk::new();
    d.set(1, 5, 13, Block::Planks);
    w.integrate_chunk(1, -1, d, vec![], vec![]);
    assert_eq!(w.get_block(17, 5, -3), Block::Glass);
    assert!(w.chunks.contains_key(&chunk_key_of(1, -1)));
}

#[test]
fn meshing_waits_for_all_four_neighbors() {
    let mut w = World::new(1, 0);
    for (cx, cz) in [(1, 0), (-1, 0), (0, 1)] {
        w.inject_mc_chunk(cx, cz, &[]);
    }
    assert!(!neighbors_ready(&w, 0, 0));
    w.inject_mc_chunk(0, -1, &[]);
    assert!(neighbors_ready(&w, 0, 0));
}

#[test]
fn coordinate_hashes_are_fixed() {
    assert_eq!(hash32(0), 0);
    assert_eq!(hash32(1), 1753845952);
    assert_eq!(hash32(0x12345678), 4125564054);
    assert_eq!(hash2(7, -3, 5), 1082667044);
    assert_eq!(hash3(7, 8, 51, 8), 140126031);
}

#[test]
fn wav_files_have_riff_header_and_le_samples() {
    let out = minerust::sound::wav_from_samples(&[1, -2]);
    let mut want: Vec<u8> = Vec::new();
    want.extend_from_slice(b"RIFF");
    want.extend_from_slice(&40u32.to_le_bytes());
    want.extend_from_slice(b"WAVEfmt ");
    want.extend_from_slice(&[16, 0, 0, 0, 1, 0, 1, 0]);
    want.extend_from_slice(&22050u32.to_le_bytes());
    want.extend_from_slice(&44100u32.to_le_bytes());
    want.extend_from_slice(&[2, 0, 16, 0]);
    want.extend_from_slice(b"data");
    want.extend_from_slice(&4u32.to_le_bytes());
    want.extend_from_slice(&[1, 0, 0xFE, 0xFF]);
    assert_eq!(out, want);
    assert_eq!(minerust::sound::wav_from_samples(&[]).len(), 44);
}

#[test]
fn generator_steps_are_fixed() {
    let mut rng = 1u32;
    assert_eq!(next_bits24(&mut rng), 3967065);
    assert_eq!(rng, 1015568748);
}

#[test]
fn chunk_offsets_come_nearest_first() {
    assert_eq!(
        sorted_offsets(1),
        vec![(0, 0), (-1, 0), (0, -1), (0, 1), (1, 0), (-1, -1), (-1, 1), (1, -1), (1, 1)]
    );
    let v = sorted_offsets(2);
    assert_eq!(v.len(), 21);
    assert!(!v.contains(&(2, 2)));
    assert_eq!(v[20], (2, 1));
    assert!(sorted_offsets(-1).is_empty());
    assert_eq!(sorted_offsets(0), vec![(0, 0)]);
}

#[test]
fn unsupported_plants_pop_and_sand_falls() {
    let mut w = open_world();
    w.set_block(2, 10, 2, Block::Stone);
    w.set_block(2, 11, 2, Block::Torch);
    assert_eq!(support_check(&mut w, 2, 11, 2), Support::Stays);
    w.set_block(2, 10, 2, Block::Air);
    assert_eq!(support_check(&mut w, 2, 11, 2), Support::Popped(Block::Torch));
    assert_eq!(w.get_block(2, 11, 2), Block::Air);
    w.set_block(4, 10, 4, Block::Dirt);
    w.set_block(4, 11, 4, Block::Cactus);
    assert_eq!(support_check(&mut w, 4, 11, 4), Support::Popped(Block::Cactus));
    w.set_block(5, 20, 5, Block::Sand);
    assert_eq!(support_check(&mut w, 5, 20, 5), Support::Fell(Block::Sand));
    assert_eq!(w.get_block(5, 20, 5), Block::Air);
    w.set_block(6, 10, 6, Block::Stone);
    w.set_block(6, 11, 6, Block::Gravel);
    assert_eq!(support_check(&mut w, 6, 11, 6), Support::Stays);
    assert_eq!(w.get_block(6, 11, 6), Block::Gravel);
}

#[test]
fn dispensers_take_one_arrow_from_the_first_arrow_slot() {
    let mut chest = vec![None; 27];
    chest[3] = Some(ItemStack::new(Item::Coal, 4));
    chest[5] = Some(ItemStack::new(Item::Arrow, 1));
    chest[9] = Some(ItemStack::new(Item::Arrow, 7));
    assert!(take_arrow(&mut chest));
    assert_eq!(chest[5], None);
    assert!(take_arrow(&mut chest));
    assert_eq!(chest[9], Some(ItemStack::new(Item::Arrow, 6)));
    assert_eq!(chest[3], Some(ItemStack::new(Item::Coal, 4)));
    let mut empty: Vec<Option<ItemStack>> = vec![None; 27];
    assert!(!take_arrow(&mut empty));
}

#[test]
fn wheat_grows_in_two_stages() {
    let mut w = open_world();
    w.set_block(3, 5, 3, Block::Wheat1);
    assert_eq!(ripen_crop(&mut w, 3, 5, 3), Some(Block::Wheat2));
    assert_eq!(w.get_block(3, 5, 3), Block::Wheat2);
    assert_eq!(ripen_crop(&mut w, 3, 5, 3), Some(Block::Wheat3));
    assert_eq!(ripen_crop(&mut w, 3, 5, 3), None);
    assert_eq!(w.get_block(3, 5, 3), Block::Wheat3);
}
