//! Shaped crafting: the recipe book and matching a crafting grid against it.

use vstd::prelude::*;
use crate::blocks::Block;
use crate::items::Item;

verus! {

/// A shaped recipe: a trimmed pattern of `rows` x `cols` cells (row-major)
/// plus the result.
pub struct Recipe {
    pub rows: usize,
    pub cols: usize,
    pub cells: Vec<Option<Item>>,
    pub result: Item,
    pub count: u32,
}

pub const RECIPE_COUNT: usize = 84;

/// The recipe book, in matching order: (rows, cols, cells, result, count).
pub open spec fn spec_recipe(k: usize) -> (usize, usize, Seq<Option<Item>>, Item, u32) {
    match k {
        0 => (1, 1, seq![Some(Item::Block(Block::Log))], Item::Block(Block::Planks), 4),
        1 => (1, 1, seq![Some(Item::Block(Block::BirchLog))], Item::Block(Block::Planks), 4),
        2 => (2, 1, seq![Some(Item::Block(Block::Planks)), Some(Item::Block(Block::Planks))], Item::Stick, 4),
        3 => (2, 2, seq![Some(Item::Block(Block::Planks)), Some(Item::Block(Block::Planks)), Some(Item::Block(Block::Planks)), Some(Item::Block(Block::Planks))], Item::Block(Block::CraftingTable), 1),
        4 => (3, 3, seq![Some(Item::Block(Block::Cobblestone)), Some(Item::Block(Block::Cobblestone)), Some(Item::Block(Block::Cobblestone)), Some(Item::Block(Block::Cobblestone)), None, Some(Item::Block(Block::Cobblestone)), Some(Item::Block(Block::Cobblestone)), Some(Item::Block(Block::Cobblestone)), Some(Item::Block(Block::Cobblestone))], Item::Block(Block::Furnace), 1),
        5 => (3, 3, seq![Some(Item::Block(Block::Planks)), Some(Item::Block(Block::Planks)), Some(Item::Block(Block::Planks)), Some(Item::Block(Block::Planks)), None, Some(Item::Block(Block::Planks)), Some(Item::Block(Block::Planks)), Some(Item::Block(Block::Planks)), Some(Item::Block(Block::Planks))], Item::Block(Block::Chest), 1),
        6 => (2, 1, seq![Some(Item::Coal), Some(Item::Stick)], Item::Block(Block::Torch), 4),
        7 => (2, 3, seq![Some(Item::Block(Block::Wool)), Some(Item::Block(Block::Wool)), Some(Item::Block(Block::Wool)), Some(Item::Block(Block::Planks)), Some(Item::Block(Block::Planks)), Some(Item::Block(Block::Planks))], Item::Block(Block::Bed), 1),
        8 => (2, 1, seq![Some(Item::Stick), Some(Item::Block(Block::Cobblestone))], Item::Block(Block::Lever), 1),
        9 => (2, 1, seq![Some(Item::RedstoneDust), Some(Item::Stick)], Item::Block(Block::RedstoneTorch), 1),
        10 => (3, 3, seq![None, Some(Item::RedstoneDust), None, Some(Item::RedstoneDust), Some(Item::Block(Block::Glass)), Some(Item::RedstoneDust), None, Some(Item::RedstoneDust), None], Item::Block(Block::RedstoneLamp), 1),
        11 => (3, 3, seq![Some(Item::Gunpowder), Some(Item::Block(Block::Sand)), Some(Item::Gunpowder), Some(Item::Block(Block::Sand)), Some(Item::Gunpowder), Some(Item::Block(Block::Sand)), Some(Item::Gunpowder), Some(Item::Block(Block::Sand)), Some(Item::Gunpowder)], Item::Block(Block::Tnt), 1),
        12 => (2, 1, seq![Some(Item::IronIngot), Some(Item::Flint)], Item::FlintAndSteel, 1),
        13 => (3, 3, seq![None, Some(Item::Block(Block::Glass)), None, Some(Item::Emerald), Some(Item::Block(Block::Obsidian)), Some(Item::Emerald), Some(Item::Block(Block::Obsidian)), Some(Item::Block(Block::Obsidian)), Some(Item::Block(Block::Obsidian))], Item::Block(Block::EnchantTable), 1),
        14 => (2, 1, seq![Some(Item::RedstoneDust), Some(Item::Block(Block::Cobblestone))], Item::Block(Block::Repeater), 1),
        15 => (3, 2, seq![Some(Item::Block(Block::Planks)), Some(Item::Block(Block::Planks)), Some(Item::Block(Block::Planks)), Some(Item::Block(Block::Planks)), Some(Item::Block(Block::Planks)), Some(Item::Block(Block::Planks))], Item::Block(Block::Door), 1),
        16 => (3, 3, seq![None, Some(Item::Block(Block::Planks)), Some(Item::String), Some(Item::Block(Block::Planks)), None, Some(Item::String), None, Some(Item::Block(Block::Planks)), Some(Item::String)], Item::Bow, 1),
        17 => (3, 1, seq![Some(Item::Flint), Some(Item::Stick), Some(Item::Feather)], Item::Arrow, 4),
        18 => (3, 2, seq![Some(Item::Block(Block::Planks)), Some(Item::Block(Block::Planks)), None, Some(Item::Stick), None, Some(Item::Stick)], Item::WoodHoe, 1),
        19 => (3, 2, seq![Some(Item::Block(Block::Cobblestone)), Some(Item::Block(Block::Cobblestone)), None, Some(Item::Stick), None, Some(Item::Stick)], Item::StoneHoe, 1),
        20 => (3, 2, seq![Some(Item::IronIngot), Some(Item::IronIngot), None, Some(Item::Stick), None, Some(Item::Stick)], Item::IronHoe, 1),
        21 => (1, 3, seq![Some(Item::Wheat), Some(Item::Wheat), Some(Item::Wheat)], Item::Bread, 1),
        22 => (2, 3, seq![Some(Item::Leather), Some(Item::Leather), Some(Item::Leather), Some(Item::Leather), None, Some(Item::Leather)], Item::LeatherHelmet, 1),
        23 => (3, 3, seq![Some(Item::Leather), None, Some(Item::Leather), Some(Item::Leather), Some(Item::Leather), Some(Item::Leather), Some(Item::Leather), Some(Item::Leather), Some(Item::Leather)], Item::LeatherChest, 1),
        24 => (3, 3, seq![Some(Item::Leather), Some(Item::Leather), Some(Item::Leather), Some(Item::Leather), None, Some(Item::Leather), Some(Item::Leather), None, Some(Item::Leather)], Item::LeatherLegs, 1),
        25 => (2, 3, seq![Some(Item::Leather), None, Some(Item::Leather), Some(Item::Leather), None, Some(Item::Leather)], Item::LeatherBoots, 1),
        26 => (2, 3, seq![Some(Item::IronIngot), Some(Item::IronIngot), Some(Item::IronIngot), Some(Item::IronIngot), None, Some(Item::IronIngot)], Item::IronHelmet, 1),
        27 => (3, 3, seq![Some(Item::IronIngot), None, Some(Item::IronIngot), Some(Item::IronIngot), Some(Item::IronIngot), Some(Item::IronIngot), Some(Item::IronIngot), Some(Item::IronIngot), Some(Item::IronIngot)], Item::IronChest, 1),
        28 => (3, 3, seq![Some(Item::IronIngot), Some(Item::IronIngot), Some(Item::IronIngot), Some(Item::IronIngot), None, Some(Item::IronIngot), Some(Item::IronIngot), None, Some(Item::IronIngot)], Item::IronLegs, 1),
        29 => (2, 3, seq![Some(Item::IronIngot), None, Some(Item::IronIngot), Some(Item::IronIngot), None, Some(Item::IronIngot)], Item::IronBoots, 1),
        30 => (3, 3, seq![Some(Item::GoldIngot), Some(Item::GoldIngot), Some(Item::GoldIngot), None, Some(Item::Stick), None, None, Some(Item::Stick), None], Item::GoldPickaxe, 1),
        31 => (3, 2, seq![Some(Item::GoldIngot), Some(Item::GoldIngot), Some(Item::GoldIngot), Some(Item::Stick), None, Some(Item::Stick)], Item::GoldAxe, 1),
        32 => (3, 1, seq![Some(Item::GoldIngot), Some(Item::Stick), Some(Item::Stick)], Item::GoldShovel, 1),
        33 => (3, 1, seq![Some(Item::GoldIngot), Some(Item::GoldIngot), Some(Item::Stick)], Item::GoldSword, 1),
        34 => (3, 3, seq![Some(Item::Diamond), Some(Item::Diamond), Some(Item::Diamond), None, Some(Item::Stick), None, None, Some(Item::Stick), None], Item::DiamondPickaxe, 1),
        35 => (3, 2, seq![Some(Item::Diamond), Some(Item::Diamond), Some(Item::Diamond), Some(Item::Stick), None, Some(Item::Stick)], Item::DiamondAxe, 1),
        36 => (3, 1, seq![Some(Item::Diamond), Some(Item::Stick), Some(Item::Stick)], Item::DiamondShovel, 1),
        37 => (3, 1, seq![Some(Item::Diamond), Some(Item::Diamond), Some(Item::Stick)], Item::DiamondSword, 1),
        38 => (2, 3, seq![Some(Item::Diamond), Some(Item::Diamond), Some(Item::Diamond), Some(Item::Diamond), None, Some(Item::Diamond)], Item::DiamondHelmet, 1),
        39 => (3, 3, seq![Some(Item::Diamond), None, Some(Item::Diamond), Some(Item::Diamond), Some(Item::Diamond), Some(Item::Diamond), Some(Item::Diamond), Some(Item::Diamond), Some(Item::Diamond)], Item::DiamondChest, 1),
        40 => (3, 3, seq![Some(Item::Diamond), Some(Item::Diamond), Some(Item::Diamond), Some(Item::Diamond), None, Some(Item::Diamond), Some(Item::Diamond), None, Some(Item::Diamond)], Item::DiamondLegs, 1),
        41 => (2, 3, seq![Some(Item::Diamond), None, Some(Item::Diamond), Some(Item::Diamond), None, Some(Item::Diamond)], Item::DiamondBoots, 1),
        42 => (3, 3, seq![Some(Item::Block(Block::Planks)), Some(Item::IronIngot), Some(Item::Block(Block::Planks)), Some(Item::Block(Block::Planks)), Some(Item::Block(Block::Planks)), Some(Item::Block(Block::Planks)), None, Some(Item::Block(Block::Planks)), None], Item::Shield, 1),
        43 => (3, 3, seq![Some(Item::Stick), Some(Item::IronIngot), Some(Item::Stick), Some(Item::String), Some(Item::String), Some(Item::String), None, Some(Item::Stick), None], Item::Crossbow, 1),
        44 => (3, 3, seq![Some(Item::GoldIngot), Some(Item::GoldIngot), Some(Item::GoldIngot), Some(Item::GoldIngot), Some(Item::Apple), Some(Item::GoldIngot), Some(Item::GoldIngot), Some(Item::GoldIngot), Some(Item::GoldIngot)], Item::GoldenApple, 1),
        45 => (2, 3, seq![Some(Item::IronIngot), None, Some(Item::IronIngot), None, Some(Item::IronIngot), None], Item::Bucket, 1),
        46 => (2, 3, seq![Some(Item::Block(Block::Glass)), None, Some(Item::Block(Block::Glass)), None, Some(Item::Block(Block::Glass)), None], Item::GlassBottle, 3),
        47 => (2, 3, seq![None, Some(Item::Stick), None, Some(Item::Block(Block::Cobblestone)), Some(Item::Block(Block::Cobblestone)), Some(Item::Block(Block::Cobblestone))], Item::Block(Block::BrewingStand), 1),
        48 => (3, 3, seq![Some(Item::IronIngot), None, Some(Item::IronIngot), Some(Item::IronIngot), Some(Item::Block(Block::Glass)), Some(Item::IronIngot), None, Some(Item::IronIngot), None], Item::Block(Block::Hopper), 1),
        49 => (3, 3, seq![Some(Item::Block(Block::Cobblestone)), Some(Item::Block(Block::Cobblestone)), Some(Item::Block(Block::Cobblestone)), Some(Item::Block(Block::Cobblestone)), Some(Item::String), Some(Item::Block(Block::Cobblestone)), Some(Item::Block(Block::Cobblestone)), Some(Item::RedstoneDust), Some(Item::Block(Block::Cobblestone))], Item::Block(Block::Dispenser), 1),
        50 => (3, 3, seq![Some(Item::Block(Block::Cobblestone)), Some(Item::Block(Block::Cobblestone)), Some(Item::Block(Block::Cobblestone)), Some(Item::RedstoneDust), Some(Item::RedstoneDust), Some(Item::Block(Block::Glass)), Some(Item::Block(Block::Cobblestone)), Some(Item::Block(Block::Cobblestone)), Some(Item::Block(Block::Cobblestone))], Item::Block(Block::Observer), 1),
        51 => (3, 3, seq![None, Some(Item::Block(Block::Glass)), None, Some(Item::RedstoneDust), Some(Item::RedstoneDust), Some(Item::RedstoneDust), None, Some(Item::Block(Block::Glass)), None], Item::Block(Block::SculkSensor), 1),
        52 => (3, 3, seq![None, None, Some(Item::Stick), None, Some(Item::Stick), Some(Item::String), Some(Item::Stick), None, Some(Item::String)], Item::FishingRod, 1),
        53 => (3, 3, seq![Some(Item::IronIngot), Some(Item::IronIngot), Some(Item::IronIngot), None, Some(Item::IronIngot), None, Some(Item::IronIngot), Some(Item::IronIngot), Some(Item::IronIngot)], Item::Block(Block::Anvil), 1),
        54 => (2, 3, seq![None, Some(Item::RedstoneDust), None, Some(Item::RedstoneDust), Some(Item::Block(Block::Cobblestone)), Some(Item::RedstoneDust)], Item::Block(Block::Comparator), 1),
        55 => (2, 2, seq![Some(Item::Block(Block::Sand)), Some(Item::Block(Block::Sand)), Some(Item::Block(Block::Sand)), Some(Item::Block(Block::Sand))], Item::Block(Block::Sandstone), 4),
        56 => (3, 3, seq![None, Some(Item::Block(Block::Log)), None, Some(Item::Block(Block::Log)), Some(Item::Block(Block::Furnace)), Some(Item::Block(Block::Log)), None, Some(Item::Block(Block::Log)), None], Item::Block(Block::Smoker), 1),
        57 => (3, 3, seq![Some(Item::IronIngot), Some(Item::IronIngot), Some(Item::IronIngot), Some(Item::IronIngot), Some(Item::Block(Block::Furnace)), Some(Item::IronIngot), Some(Item::Block(Block::Cobblestone)), Some(Item::Block(Block::Cobblestone)), Some(Item::Block(Block::Cobblestone))], Item::Block(Block::BlastFurnace), 1),
        58 => (2, 3, seq![Some(Item::Stick), Some(Item::Block(Block::Cobblestone)), Some(Item::Stick), Some(Item::Block(Block::Planks)), None, Some(Item::Block(Block::Planks))], Item::Block(Block::Grindstone), 1),
        59 => (3, 2, seq![Some(Item::IronIngot), Some(Item::IronIngot), Some(Item::Block(Block::Planks)), Some(Item::Block(Block::Planks)), Some(Item::Block(Block::Planks)), Some(Item::Block(Block::Planks))], Item::Block(Block::SmithingTable), 1),
        60 => (2, 3, seq![Some(Item::Block(Block::Planks)), None, Some(Item::Block(Block::Planks)), Some(Item::Block(Block::Planks)), Some(Item::Block(Block::Planks)), Some(Item::Block(Block::Planks))], Item::Block(Block::Composter), 1),
        61 => (1, 1, seq![Some(Item::Bone)], Item::Bonemeal, 3),
        62 => (1, 3, seq![Some(Item::Block(Block::SugarCane)), Some(Item::Block(Block::SugarCane)), Some(Item::Block(Block::SugarCane))], Item::Paper, 3),
        63 => (3, 1, seq![Some(Item::Paper), Some(Item::Paper), Some(Item::Leather)], Item::Book, 1),
        64 => (3, 3, seq![Some(Item::Stick), Some(Item::Stick), Some(Item::Stick), Some(Item::Stick), Some(Item::Block(Block::Wool)), Some(Item::Stick), Some(Item::Stick), Some(Item::Stick), Some(Item::Stick)], Item::Block(Block::Painting), 1),
        65 => (2, 2, seq![Some(Item::Arrow), Some(Item::Arrow), Some(Item::Arrow), Some(Item::PotionStrength)], Item::TippedArrow, 4),
        66 => (3, 3, seq![Some(Item::IronIngot), None, Some(Item::IronIngot), Some(Item::IronIngot), None, Some(Item::IronIngot), Some(Item::IronIngot), Some(Item::IronIngot), Some(Item::IronIngot)], Item::Block(Block::Cauldron), 1),
        67 => (3, 3, seq![Some(Item::Stick), Some(Item::Stick), Some(Item::Stick), Some(Item::Stick), Some(Item::Leather), Some(Item::Stick), Some(Item::Stick), Some(Item::Stick), Some(Item::Stick)], Item::Block(Block::ItemFrame), 1),
        68 => (2, 1, seq![Some(Item::Arrow), Some(Item::Block(Block::Glowstone))], Item::SpectralArrow, 2),
        69 => (3, 2, seq![Some(Item::String), Some(Item::String), Some(Item::String), Some(Item::String), None, Some(Item::String)], Item::Lead, 1),
        70 => (3, 3, seq![Some(Item::Paper), Some(Item::Paper), Some(Item::Paper), Some(Item::Paper), Some(Item::RedstoneDust), Some(Item::Paper), Some(Item::Paper), Some(Item::Paper), Some(Item::Paper)], Item::MapItem, 1),
        71 => (3, 3, seq![Some(Item::Stick), None, Some(Item::Stick), Some(Item::Stick), Some(Item::Stick), Some(Item::Stick), Some(Item::Stick), None, Some(Item::Stick)], Item::Block(Block::Ladder), 4),
        72 => (3, 3, seq![Some(Item::Block(Block::Planks)), Some(Item::Block(Block::Planks)), Some(Item::Block(Block::Planks)), None, Some(Item::Stick), None, None, Some(Item::Stick), None], Item::WoodPickaxe, 1),
        73 => (3, 3, seq![Some(Item::Block(Block::Cobblestone)), Some(Item::Block(Block::Cobblestone)), Some(Item::Block(Block::Cobblestone)), None, Some(Item::Stick), None, None, Some(Item::Stick), None], Item::StonePickaxe, 1),
        74 => (3, 3, seq![Some(Item::IronIngot), Some(Item::IronIngot), Some(Item::IronIngot), None, Some(Item::Stick), None, None, Some(Item::Stick), None], Item::IronPickaxe, 1),
        75 => (3, 2, seq![Some(Item::Block(Block::Planks)), Some(Item::Block(Block::Planks)), Some(Item::Block(Block::Planks)), Some(Item::Stick), None, Some(Item::Stick)], Item::WoodAxe, 1),
        76 => (3, 2, seq![Some(Item::Block(Block::Cobblestone)), Some(Item::Block(Block::Cobblestone)), Some(Item::Block(Block::Cobblestone)), Some(Item::Stick), None, Some(Item::Stick)], Item::StoneAxe, 1),
        77 => (3, 2, seq![Some(Item::IronIngot), Some(Item::IronIngot), Some(Item::IronIngot), Some(Item::Stick), None, Some(Item::Stick)], Item::IronAxe, 1),
        78 => (3, 1, seq![Some(Item::Block(Block::Planks)), Some(Item::Stick), Some(Item::Stick)], Item::WoodShovel, 1),
        79 => (3, 1, seq![Some(Item::Block(Block::Cobblestone)), Some(Item::Stick), Some(Item::Stick)], Item::StoneShovel, 1),
        80 => (3, 1, seq![Some(Item::IronIngot), Some(Item::Stick), Some(Item::Stick)], Item::IronShovel, 1),
        81 => (3, 1, seq![Some(Item::Block(Block::Planks)), Some(Item::Block(Block::Planks)), Some(Item::Stick)], Item::WoodSword, 1),
        82 => (3, 1, seq![Some(Item::Block(Block::Cobblestone)), Some(Item::Block(Block::Cobblestone)), Some(Item::Stick)], Item::StoneSword, 1),
        83 => (3, 1, seq![Some(Item::IronIngot), Some(Item::IronIngot), Some(Item::Stick)], Item::IronSword, 1),
        _ => (0, 0, Seq::empty(), Item::Stick, 0),
    }
}

/// The `k`-th recipe of the book.
pub fn recipe(k: usize) -> (r: Recipe)
    requires
        k < RECIPE_COUNT,
    ensures
        (r.rows, r.cols, r.cells@, r.result, r.count) == spec_recipe(k),
        r.cells@.len() == r.rows * r.cols,
        r.rows >= 1,
        r.cols >= 1,
        r.rows <= 3,
        r.cols <= 3,
{
    let r = match k {
        0 => Recipe { rows: 1, cols: 1, cells: vec![Some(Item::Block(Block::Log))], result: Item::Block(Block::Planks), count: 4 },
        1 => Recipe { rows: 1, cols: 1, cells: vec![Some(Item::Block(Block::BirchLog))], result: Item::Block(Block::Planks), count: 4 },
        2 => Recipe { rows: 2, cols: 1, cells: vec![Some(Item::Block(Block::Planks)), Some(Item::Block(Block::Planks))], result: Item::Stick, count: 4 },
        3 => Recipe { rows: 2, cols: 2, cells: vec![Some(Item::Block(Block::Planks)), Some(Item::Block(Block::Planks)), Some(Item::Block(Block::Planks)), Some(Item::Block(Block::Planks))], result: Item::Block(Block::CraftingTable), count: 1 },
        4 => Recipe { rows: 3, cols: 3, cells: vec![Some(Item::Block(Block::Cobblestone)), Some(Item::Block(Block::Cobblestone)), Some(Item::Block(Block::Cobblestone)), Some(Item::Block(Block::Cobblestone)), None, Some(Item::Block(Block::Cobblestone)), Some(Item::Block(Block::Cobblestone)), Some(Item::Block(Block::Cobblestone)), Some(Item::Block(Block::Cobblestone))], result: Item::Block(Block::Furnace), count: 1 },
        5 => Recipe { rows: 3, cols: 3, cells: vec![Some(Item::Block(Block::Planks)), Some(Item::Block(Block::Planks)), Some(Item::Block(Block::Planks)), Some(Item::Block(Block::Planks)), None, Some(Item::Block(Block::Planks)), Some(Item::Block(Block::Planks)), Some(Item::Block(Block::Planks)), Some(Item::Block(Block::Planks))], result: Item::Block(Block::Chest), count: 1 },
        6 => Recipe { rows: 2, cols: 1, cells: vec![Some(Item::Coal), Some(Item::Stick)], result: Item::Block(Block::Torch), count: 4 },
        7 => Recipe { rows: 2, cols: 3, cells: vec![Some(Item::Block(Block::Wool)), Some(Item::Block(Block::Wool)), Some(Item::Block(Block::Wool)), Some(Item::Block(Block::Planks)), Some(Item::Block(Block::Planks)), Some(Item::Block(Block::Planks))], result: Item::Block(Block::Bed), count: 1 },
        8 => Recipe { rows: 2, cols: 1, cells: vec![Some(Item::Stick), Some(Item::Block(Block::Cobblestone))], result: Item::Block(Block::Lever), count: 1 },
        9 => Recipe { rows: 2, cols: 1, cells: vec![Some(Item::RedstoneDust), Some(Item::Stick)], result: Item::Block(Block::RedstoneTorch), count: 1 },
        10 => Recipe { rows: 3, cols: 3, cells: vec![None, Some(Item::RedstoneDust), None, Some(Item::RedstoneDust), Some(Item::Block(Block::Glass)), Some(Item::RedstoneDust), None, Some(Item::RedstoneDust), None], result: Item::Block(Block::RedstoneLamp), count: 1 },
        11 => Recipe { rows: 3, cols: 3, cells: vec![Some(Item::Gunpowder), Some(Item::Block(Block::Sand)), Some(Item::Gunpowder), Some(Item::Block(Block::Sand)), Some(Item::Gunpowder), Some(Item::Block(Block::Sand)), Some(Item::Gunpowder), Some(Item::Block(Block::Sand)), Some(Item::Gunpowder)], result: Item::Block(Block::Tnt), count: 1 },
        12 => Recipe { rows: 2, cols: 1, cells: vec![Some(Item::IronIngot), Some(Item::Flint)], result: Item::FlintAndSteel, count: 1 },
        13 => Recipe { rows: 3, cols: 3, cells: vec![None, Some(Item::Block(Block::Glass)), None, Some(Item::Emerald), Some(Item::Block(Block::Obsidian)), Some(Item::Emerald), Some(Item::Block(Block::Obsidian)), Some(Item::Block(Block::Obsidian)), Some(Item::Block(Block::Obsidian))], result: Item::Block(Block::EnchantTable), count: 1 },
        14 => Recipe { rows: 2, cols: 1, cells: vec![Some(Item::RedstoneDust), Some(Item::Block(Block::Cobblestone))], result: Item::Block(Block::Repeater), count: 1 },
        15 => Recipe { rows: 3, cols: 2, cells: vec![Some(Item::Block(Block::Planks)), Some(Item::Block(Block::Planks)), Some(Item::Block(Block::Planks)), Some(Item::Block(Block::Planks)), Some(Item::Block(Block::Planks)), Some(Item::Block(Block::Planks))], result: Item::Block(Block::Door), count: 1 },
        16 => Recipe { rows: 3, cols: 3, cells: vec![None, Some(Item::Block(Block::Planks)), Some(Item::String), Some(Item::Block(Block::Planks)), None, Some(Item::String), None, Some(Item::Block(Block::Planks)), Some(Item::String)], result: Item::Bow, count: 1 },
        17 => Recipe { rows: 3, cols: 1, cells: vec![Some(Item::Flint), Some(Item::Stick), Some(Item::Feather)], result: Item::Arrow, count: 4 },
        18 => Recipe { rows: 3, cols: 2, cells: vec![Some(Item::Block(Block::Planks)), Some(Item::Block(Block::Planks)), None, Some(Item::Stick), None, Some(Item::Stick)], result: Item::WoodHoe, count: 1 },
        19 => Recipe { rows: 3, cols: 2, cells: vec![Some(Item::Block(Block::Cobblestone)), Some(Item::Block(Block::Cobblestone)), None, Some(Item::Stick), None, Some(Item::Stick)], result: Item::StoneHoe, count: 1 },
        20 => Recipe { rows: 3, cols: 2, cells: vec![Some(Item::IronIngot), Some(Item::IronIngot), None, Some(Item::Stick), None, Some(Item::Stick)], result: Item::IronHoe, count: 1 },
        21 => Recipe { rows: 1, cols: 3, cells: vec![Some(Item::Wheat), Some(Item::Wheat), Some(Item::Wheat)], result: Item::Bread, count: 1 },
        22 => Recipe { rows: 2, cols: 3, cells: vec![Some(Item::Leather), Some(Item::Leather), Some(Item::Leather), Some(Item::Leather), None, Some(Item::Leather)], result: Item::LeatherHelmet, count: 1 },
        23 => Recipe { rows: 3, cols: 3, cells: vec![Some(Item::Leather), None, Some(Item::Leather), Some(Item::Leather), Some(Item::Leather), Some(Item::Leather), Some(Item::Leather), Some(Item::Leather), Some(Item::Leather)], result: Item::LeatherChest, count: 1 },
        24 => Recipe { rows: 3, cols: 3, cells: vec![Some(Item::Leather), Some(Item::Leather), Some(Item::Leather), Some(Item::Leather), None, Some(Item::Leather), Some(Item::Leather), None, Some(Item::Leather)], result: Item::LeatherLegs, count: 1 },
        25 => Recipe { rows: 2, cols: 3, cells: vec![Some(Item::Leather), None, Some(Item::Leather), Some(Item::Leather), None, Some(Item::Leather)], result: Item::LeatherBoots, count: 1 },
        26 => Recipe { rows: 2, cols: 3, cells: vec![Some(Item::IronIngot), Some(Item::IronIngot), Some(Item::IronIngot), Some(Item::IronIngot), None, Some(Item::IronIngot)], result: Item::IronHelmet, count: 1 },
        27 => Recipe { rows: 3, cols: 3, cells: vec![Some(Item::IronIngot), None, Some(Item::IronIngot), Some(Item::IronIngot), Some(Item::IronIngot), Some(Item::IronIngot), Some(Item::IronIngot), Some(Item::IronIngot), Some(Item::IronIngot)], result: Item::IronChest, count: 1 },
        28 => Recipe { rows: 3, cols: 3, cells: vec![Some(Item::IronIngot), Some(Item::IronIngot), Some(Item::IronIngot), Some(Item::IronIngot), None, Some(Item::IronIngot), Some(Item::IronIngot), None, Some(Item::IronIngot)], result: Item::IronLegs, count: 1 },
        29 => Recipe { rows: 2, cols: 3, cells: vec![Some(Item::IronIngot), None, Some(Item::IronIngot), Some(Item::IronIngot), None, Some(Item::IronIngot)], result: Item::IronBoots, count: 1 },
        30 => Recipe { rows: 3, cols: 3, cells: vec![Some(Item::GoldIngot), Some(Item::GoldIngot), Some(Item::GoldIngot), None, Some(Item::Stick), None, None, Some(Item::Stick), None], result: Item::GoldPickaxe, count: 1 },
        31 => Recipe { rows: 3, cols: 2, cells: vec![Some(Item::GoldIngot), Some(Item::GoldIngot), Some(Item::GoldIngot), Some(Item::Stick), None, Some(Item::Stick)], result: Item::GoldAxe, count: 1 },
        32 => Recipe { rows: 3, cols: 1, cells: vec![Some(Item::GoldIngot), Some(Item::Stick), Some(Item::Stick)], result: Item::GoldShovel, count: 1 },
        33 => Recipe { rows: 3, cols: 1, cells: vec![Some(Item::GoldIngot), Some(Item::GoldIngot), Some(Item::Stick)], result: Item::GoldSword, count: 1 },
        34 => Recipe { rows: 3, cols: 3, cells: vec![Some(Item::Diamond), Some(Item::Diamond), Some(Item::Diamond), None, Some(Item::Stick), None, None, Some(Item::Stick), None], result: Item::DiamondPickaxe, count: 1 },
        35 => Recipe { rows: 3, cols: 2, cells: vec![Some(Item::Diamond), Some(Item::Diamond), Some(Item::Diamond), Some(Item::Stick), None, Some(Item::Stick)], result: Item::DiamondAxe, count: 1 },
        36 => Recipe { rows: 3, cols: 1, cells: vec![Some(Item::Diamond), Some(Item::Stick), Some(Item::Stick)], result: Item::DiamondShovel, count: 1 },
        37 => Recipe { rows: 3, cols: 1, cells: vec![Some(Item::Diamond), Some(Item::Diamond), Some(Item::Stick)], result: Item::DiamondSword, count: 1 },
        38 => Recipe { rows: 2, cols: 3, cells: vec![Some(Item::Diamond), Some(Item::Diamond), Some(Item::Diamond), Some(Item::Diamond), None, Some(Item::Diamond)], result: Item::DiamondHelmet, count: 1 },
        39 => Recipe { rows: 3, cols: 3, cells: vec![Some(Item::Diamond), None, Some(Item::Diamond), Some(Item::Diamond), Some(Item::Diamond), Some(Item::Diamond), Some(Item::Diamond), Some(Item::Diamond), Some(Item::Diamond)], result: Item::DiamondChest, count: 1 },
        40 => Recipe { rows: 3, cols: 3, cells: vec![Some(Item::Diamond), Some(Item::Diamond), Some(Item::Diamond), Some(Item::Diamond), None, Some(Item::Diamond), Some(Item::Diamond), None, Some(Item::Diamond)], result: Item::DiamondLegs, count: 1 },
        41 => Recipe { rows: 2, cols: 3, cells: vec![Some(Item::Diamond), None, Some(Item::Diamond), Some(Item::Diamond), None, Some(Item::Diamond)], result: Item::DiamondBoots, count: 1 },
        42 => Recipe { rows: 3, cols: 3, cells: vec![Some(Item::Block(Block::Planks)), Some(Item::IronIngot), Some(Item::Block(Block::Planks)), Some(Item::Block(Block::Planks)), Some(Item::Block(Block::Planks)), Some(Item::Block(Block::Planks)), None, Some(Item::Block(Block::Planks)), None], result: Item::Shield, count: 1 },
        43 => Recipe { rows: 3, cols: 3, cells: vec![Some(Item::Stick), Some(Item::IronIngot), Some(Item::Stick), Some(Item::String), Some(Item::String), Some(Item::String), None, Some(Item::Stick), None], result: Item::Crossbow, count: 1 },
        44 => Recipe { rows: 3, cols: 3, cells: vec![Some(Item::GoldIngot), Some(Item::GoldIngot), Some(Item::GoldIngot), Some(Item::GoldIngot), Some(Item::Apple), Some(Item::GoldIngot), Some(Item::GoldIngot), Some(Item::GoldIngot), Some(Item::GoldIngot)], result: Item::GoldenApple, count: 1 },
        45 => Recipe { rows: 2, cols: 3, cells: vec![Some(Item::IronIngot), None, Some(Item::IronIngot), None, Some(Item::IronIngot), None], result: Item::Bucket, count: 1 },
        46 => Recipe { rows: 2, cols: 3, cells: vec![Some(Item::Block(Block::Glass)), None, Some(Item::Block(Block::Glass)), None, Some(Item::Block(Block::Glass)), None], result: Item::GlassBottle, count: 3 },
        47 => Recipe { rows: 2, cols: 3, cells: vec![None, Some(Item::Stick), None, Some(Item::Block(Block::Cobblestone)), Some(Item::Block(Block::Cobblestone)), Some(Item::Block(Block::Cobblestone))], result: Item::Block(Block::BrewingStand), count: 1 },
        48 => Recipe { rows: 3, cols: 3, cells: vec![Some(Item::IronIngot), None, Some(Item::IronIngot), Some(Item::IronIngot), Some(Item::Block(Block::Glass)), Some(Item::IronIngot), None, Some(Item::IronIngot), None], result: Item::Block(Block::Hopper), count: 1 },
        49 => Recipe { rows: 3, cols: 3, cells: vec![Some(Item::Block(Block::Cobblestone)), Some(Item::Block(Block::Cobblestone)), Some(Item::Block(Block::Cobblestone)), Some(Item::Block(Block::Cobblestone)), Some(Item::String), Some(Item::Block(Block::Cobblestone)), Some(Item::Block(Block::Cobblestone)), Some(Item::RedstoneDust), Some(Item::Block(Block::Cobblestone))], result: Item::Block(Block::Dispenser), count: 1 },
        50 => Recipe { rows: 3, cols: 3, cells: vec![Some(Item::Block(Block::Cobblestone)), Some(Item::Block(Block::Cobblestone)), Some(Item::Block(Block::Cobblestone)), Some(Item::RedstoneDust), Some(Item::RedstoneDust), Some(Item::Block(Block::Glass)), Some(Item::Block(Block::Cobblestone)), Some(Item::Block(Block::Cobblestone)), Some(Item::Block(Block::Cobblestone))], result: Item::Block(Block::Observer), count: 1 },
        51 => Recipe { rows: 3, cols: 3, cells: vec![None, Some(Item::Block(Block::Glass)), None, Some(Item::RedstoneDust), Some(Item::RedstoneDust), Some(Item::RedstoneDust), None, Some(Item::Block(Block::Glass)), None], result: Item::Block(Block::SculkSensor), count: 1 },
        52 => Recipe { rows: 3, cols: 3, cells: vec![None, None, Some(Item::Stick), None, Some(Item::Stick), Some(Item::String), Some(Item::Stick), None, Some(Item::String)], result: Item::FishingRod, count: 1 },
        53 => Recipe { rows: 3, cols: 3, cells: vec![Some(Item::IronIngot), Some(Item::IronIngot), Some(Item::IronIngot), None, Some(Item::IronIngot), None, Some(Item::IronIngot), Some(Item::IronIngot), Some(Item::IronIngot)], result: Item::Block(Block::Anvil), count: 1 },
        54 => Recipe { rows: 2, cols: 3, cells: vec![None, Some(Item::RedstoneDust), None, Some(Item::RedstoneDust), Some(Item::Block(Block::Cobblestone)), Some(Item::RedstoneDust)], result: Item::Block(Block::Comparator), count: 1 },
        55 => Recipe { rows: 2, cols: 2, cells: vec![Some(Item::Block(Block::Sand)), Some(Item::Block(Block::Sand)), Some(Item::Block(Block::Sand)), Some(Item::Block(Block::Sand))], result: Item::Block(Block::Sandstone), count: 4 },
        56 => Recipe { rows: 3, cols: 3, cells: vec![None, Some(Item::Block(Block::Log)), None, Some(Item::Block(Block::Log)), Some(Item::Block(Block::Furnace)), Some(Item::Block(Block::Log)), None, Some(Item::Block(Block::Log)), None], result: Item::Block(Block::Smoker), count: 1 },
        57 => Recipe { rows: 3, cols: 3, cells: vec![Some(Item::IronIngot), Some(Item::IronIngot), Some(Item::IronIngot), Some(Item::IronIngot), Some(Item::Block(Block::Furnace)), Some(Item::IronIngot), Some(Item::Block(Block::Cobblestone)), Some(Item::Block(Block::Cobblestone)), Some(Item::Block(Block::Cobblestone))], result: Item::Block(Block::BlastFurnace), count: 1 },
        58 => Recipe { rows: 2, cols: 3, cells: vec![Some(Item::Stick), Some(Item::Block(Block::Cobblestone)), Some(Item::Stick), Some(Item::Block(Block::Planks)), None, Some(Item::Block(Block::Planks))], result: Item::Block(Block::Grindstone), count: 1 },
        59 => Recipe { rows: 3, cols: 2, cells: vec![Some(Item::IronIngot), Some(Item::IronIngot), Some(Item::Block(Block::Planks)), Some(Item::Block(Block::Planks)), Some(Item::Block(Block::Planks)), Some(Item::Block(Block::Planks))], result: Item::Block(Block::SmithingTable), count: 1 },
        60 => Recipe { rows: 2, cols: 3, cells: vec![Some(Item::Block(Block::Planks)), None, Some(Item::Block(Block::Planks)), Some(Item::Block(Block::Planks)), Some(Item::Block(Block::Planks)), Some(Item::Block(Block::Planks))], result: Item::Block(Block::Composter), count: 1 },
        61 => Recipe { rows: 1, cols: 1, cells: vec![Some(Item::Bone)], result: Item::Bonemeal, count: 3 },
        62 => Recipe { rows: 1, cols: 3, cells: vec![Some(Item::Block(Block::SugarCane)), Some(Item::Block(Block::SugarCane)), Some(Item::Block(Block::SugarCane))], result: Item::Paper, count: 3 },
        63 => Recipe { rows: 3, cols: 1, cells: vec![Some(Item::Paper), Some(Item::Paper), Some(Item::Leather)], result: Item::Book, count: 1 },
        64 => Recipe { rows: 3, cols: 3, cells: vec![Some(Item::Stick), Some(Item::Stick), Some(Item::Stick), Some(Item::Stick), Some(Item::Block(Block::Wool)), Some(Item::Stick), Some(Item::Stick), Some(Item::Stick), Some(Item::Stick)], result: Item::Block(Block::Painting), count: 1 },
        65 => Recipe { rows: 2, cols: 2, cells: vec![Some(Item::Arrow), Some(Item::Arrow), Some(Item::Arrow), Some(Item::PotionStrength)], result: Item::TippedArrow, count: 4 },
        66 => Recipe { rows: 3, cols: 3, cells: vec![Some(Item::IronIngot), None, Some(Item::IronIngot), Some(Item::IronIngot), None, Some(Item::IronIngot), Some(Item::IronIngot), Some(Item::IronIngot), Some(Item::IronIngot)], result: Item::Block(Block::Cauldron), count: 1 },
        67 => Recipe { rows: 3, cols: 3, cells: vec![Some(Item::Stick), Some(Item::Stick), Some(Item::Stick), Some(Item::Stick), Some(Item::Leather), Some(Item::Stick), Some(Item::Stick), Some(Item::Stick), Some(Item::Stick)], result: Item::Block(Block::ItemFrame), count: 1 },
        68 => Recipe { rows: 2, cols: 1, cells: vec![Some(Item::Arrow), Some(Item::Block(Block::Glowstone))], result: Item::SpectralArrow, count: 2 },
        69 => Recipe { rows: 3, cols: 2, cells: vec![Some(Item::String), Some(Item::String), Some(Item::String), Some(Item::String), None, Some(Item::String)], result: Item::Lead, count: 1 },
        70 => Recipe { rows: 3, cols: 3, cells: vec![Some(Item::Paper), Some(Item::Paper), Some(Item::Paper), Some(Item::Paper), Some(Item::RedstoneDust), Some(Item::Paper), Some(Item::Paper), Some(Item::Paper), Some(Item::Paper)], result: Item::MapItem, count: 1 },
        71 => Recipe { rows: 3, cols: 3, cells: vec![Some(Item::Stick), None, Some(Item::Stick), Some(Item::Stick), Some(Item::Stick), Some(Item::Stick), Some(Item::Stick), None, Some(Item::Stick)], result: Item::Block(Block::Ladder), count: 4 },
        72 => Recipe { rows: 3, cols: 3, cells: vec![Some(Item::Block(Block::Planks)), Some(Item::Block(Block::Planks)), Some(Item::Block(Block::Planks)), None, Some(Item::Stick), None, None, Some(Item::Stick), None], result: Item::WoodPickaxe, count: 1 },
        73 => Recipe { rows: 3, cols: 3, cells: vec![Some(Item::Block(Block::Cobblestone)), Some(Item::Block(Block::Cobblestone)), Some(Item::Block(Block::Cobblestone)), None, Some(Item::Stick), None, None, Some(Item::Stick), None], result: Item::StonePickaxe, count: 1 },
        74 => Recipe { rows: 3, cols: 3, cells: vec![Some(Item::IronIngot), Some(Item::IronIngot), Some(Item::IronIngot), None, Some(Item::Stick), None, None, Some(Item::Stick), None], result: Item::IronPickaxe, count: 1 },
        75 => Recipe { rows: 3, cols: 2, cells: vec![Some(Item::Block(Block::Planks)), Some(Item::Block(Block::Planks)), Some(Item::Block(Block::Planks)), Some(Item::Stick), None, Some(Item::Stick)], result: Item::WoodAxe, count: 1 },
        76 => Recipe { rows: 3, cols: 2, cells: vec![Some(Item::Block(Block::Cobblestone)), Some(Item::Block(Block::Cobblestone)), Some(Item::Block(Block::Cobblestone)), Some(Item::Stick), None, Some(Item::Stick)], result: Item::StoneAxe, count: 1 },
        77 => Recipe { rows: 3, cols: 2, cells: vec![Some(Item::IronIngot), Some(Item::IronIngot), Some(Item::IronIngot), Some(Item::Stick), None, Some(Item::Stick)], result: Item::IronAxe, count: 1 },
        78 => Recipe { rows: 3, cols: 1, cells: vec![Some(Item::Block(Block::Planks)), Some(Item::Stick), Some(Item::Stick)], result: Item::WoodShovel, count: 1 },
        79 => Recipe { rows: 3, cols: 1, cells: vec![Some(Item::Block(Block::Cobblestone)), Some(Item::Stick), Some(Item::Stick)], result: Item::StoneShovel, count: 1 },
        80 => Recipe { rows: 3, cols: 1, cells: vec![Some(Item::IronIngot), Some(Item::Stick), Some(Item::Stick)], result: Item::IronShovel, count: 1 },
        81 => Recipe { rows: 3, cols: 1, cells: vec![Some(Item::Block(Block::Planks)), Some(Item::Block(Block::Planks)), Some(Item::Stick)], result: Item::WoodSword, count: 1 },
        82 => Recipe { rows: 3, cols: 1, cells: vec![Some(Item::Block(Block::Cobblestone)), Some(Item::Block(Block::Cobblestone)), Some(Item::Stick)], result: Item::StoneSword, count: 1 },
        83 => Recipe { rows: 3, cols: 1, cells: vec![Some(Item::IronIngot), Some(Item::IronIngot), Some(Item::Stick)], result: Item::IronSword, count: 1 },
        _ => Recipe { rows: 0, cols: 0, cells: Vec::new(), result: Item::Stick, count: 0 },
    };
    assert(r.cells@ =~= spec_recipe(k).2);
    r
}

/// Is grid cell (r, c) of an n x n row-major grid filled?
pub open spec fn occupied(g: Seq<Option<Item>>, n: int, r: int, c: int) -> bool {
    g[r * n + c] is Some
}

/// (r0, r1, c0, c1) is the bounding box of the filled cells: every filled
/// cell lies inside it and each of its four edges touches a filled cell.
pub open spec fn is_bbox(g: Seq<Option<Item>>, n: int, r0: int, r1: int, c0: int, c1: int) -> bool {
    &&& 0 <= r0 <= r1 < n
    &&& 0 <= c0 <= c1 < n
    &&& forall|r: int, c: int|
        0 <= r < n && 0 <= c < n && #[trigger] occupied(g, n, r, c) ==> r0 <= r <= r1 && c0 <= c <= c1
    &&& exists|c: int| 0 <= c < n && #[trigger] occupied(g, n, r0, c)
    &&& exists|c: int| 0 <= c < n && #[trigger] occupied(g, n, r1, c)
    &&& exists|r: int| 0 <= r < n && #[trigger] occupied(g, n, r, c0)
    &&& exists|r: int| 0 <= r < n && #[trigger] occupied(g, n, r, c1)
}

/// The grid cells of the box at (r0, c0) of size rows x cols equal a
/// recipe's cells.
pub open spec fn pattern_fits(g: Seq<Option<Item>>, n: int, r0: int, c0: int, rows: int, cols: int, cells: Seq<Option<Item>>) -> bool {
    &&& cells.len() == rows * cols
    &&& forall|r: int, c: int| 0 <= r < rows && 0 <= c < cols ==>
        g[(r0 + r) * n + (c0 + c)] == #[trigger] cells[r * cols + c]
}

/// The result of the first recipe, from the `k`-th on, whose pattern is
/// exactly the trimmed grid.
pub open spec fn first_match(g: Seq<Option<Item>>, n: int, r0: int, c0: int, rows: int, cols: int, k: int) -> Option<(Item, u32)>
    decreases RECIPE_COUNT - k,
{
    if k < 0 || k >= RECIPE_COUNT {
        None
    } else {
        let (rr, cc, cells, res, cnt) = spec_recipe(k as usize);
        if rr == rows && cc == cols && pattern_fits(g, n, r0, c0, rows, cols, cells) {
            Some((res, cnt))
        } else {
            first_match(g, n, r0, c0, rows, cols, k + 1)
        }
    }
}

proof fn lemma_index_bound(n: int, r: int, c: int)
    requires
        0 <= r < n,
        0 <= c < n,
    ensures
        0 <= r * n + c < n * n,
{
    assert(r * n <= (n - 1) * n) by (nonlinear_arith)
        requires
            0 <= r < n,
    ;
    assert((n - 1) * n + n == n * n) by (nonlinear_arith);
    assert(0 <= r * n) by (nonlinear_arith)
        requires
            0 <= r,
            0 <= n,
    ;
}

fn same_cell(a: Option<Item>, b: Option<Item>) -> (r: bool)
    ensures
        r == (a == b),
{
    match (a, b) {
        (Some(x), Some(y)) => x == y,
        (None, None) => true,
        _ => false,
    }
}

/// Match a crafting grid (row-major, size n x n) against the recipe set.
/// Returns the crafted result if the trimmed grid equals a recipe pattern;
/// an empty grid (no cell occupied, or no cells at all) crafts nothing.
pub fn match_recipe(grid: &[Option<Item>], n: usize) -> (res: Option<(Item, u32)>)
    requires
        grid@.len() >= n * n,
    ensures
        !(exists|r: int, c: int| 0 <= r < n && 0 <= c < n && #[trigger] occupied(grid@, n as int, r, c))
            ==> res is None,
        forall|r0: int, r1: int, c0: int, c1: int| #[trigger] is_bbox(grid@, n as int, r0, r1, c0, c1) ==>
            res == first_match(grid@, n as int, r0, c0, r1 - r0 + 1, c1 - c0 + 1, 0),
{
    if n == 0 {
        return None;
    }
    let ghost g = grid@;
    let ghost ni = n as int;
    assert(grid@.len() == grid.len());
    let mut min_r = n;
    let mut max_r: usize = 0;
    let mut min_c = n;
    let mut max_c: usize = 0;
    let mut r: usize = 0;
    while r < n
        invariant
            g == grid@,
            ni == n,
            g.len() >= n * n,
            n * n <= usize::MAX,
            r <= n,
            min_r <= n && max_r < n && min_c <= n && max_c < n,
            forall|rr: int, cc: int| 0 <= rr < r && 0 <= cc < n && #[trigger] occupied(g, ni, rr, cc)
                ==> min_r <= rr <= max_r && min_c <= cc <= max_c,
            min_r == n ==> max_r == 0 && min_c == n && max_c == 0
                && forall|rr: int, cc: int| 0 <= rr < r && 0 <= cc < n ==> !#[trigger] occupied(g, ni, rr, cc),
            min_r < n ==> min_c < n && min_r <= max_r < r,
            min_r < n ==> exists|cc: int| 0 <= cc < n && #[trigger] occupied(g, ni, min_r as int, cc),
            min_r < n ==> exists|cc: int| 0 <= cc < n && #[trigger] occupied(g, ni, max_r as int, cc),
            min_r < n ==> exists|rr: int| 0 <= rr < r && #[trigger] occupied(g, ni, rr, min_c as int),
            min_r < n ==> exists|rr: int| 0 <= rr < r && #[trigger] occupied(g, ni, rr, max_c as int),
        decreases n - r,
    {
        let mut c: usize = 0;
        while c < n
            invariant
                g == grid@,
                ni == n,
                g.len() >= n * n,
                n * n <= usize::MAX,
                r < n,
                c <= n,
                min_r <= n && max_r < n && min_c <= n && max_c < n,
                forall|rr: int, cc: int| (0 <= rr < r && 0 <= cc < n || rr == r && 0 <= cc < c)
                    && #[trigger] occupied(g, ni, rr, cc) ==> min_r <= rr <= max_r && min_c <= cc <= max_c,
                min_r == n ==> max_r == 0 && min_c == n && max_c == 0
                    && forall|rr: int, cc: int| (0 <= rr < r && 0 <= cc < n || rr == r && 0 <= cc < c)
                        ==> !#[trigger] occupied(g, ni, rr, cc),
                min_r < n ==> min_c < n && min_r <= max_r <= r,
                min_r < n ==> exists|cc: int| 0 <= cc < n && #[trigger] occupied(g, ni, min_r as int, cc),
                min_r < n ==> exists|cc: int| 0 <= cc < n && #[trigger] occupied(g, ni, max_r as int, cc),
                min_r < n ==> exists|rr: int| 0 <= rr <= r && #[trigger] occupied(g, ni, rr, min_c as int),
                min_r < n ==> exists|rr: int| 0 <= rr <= r && #[trigger] occupied(g, ni, rr, max_c as int),
            decreases n - c,
        {
            proof {
                lemma_index_bound(ni, r as int, c as int);
                assert(r * n <= r * n + c);
            }
            if grid[r * n + c].is_some() {
                assert(occupied(g, ni, r as int, c as int));
                if r < min_r {
                    min_r = r;
                }
                if r > max_r {
                    max_r = r;
                }
                if c < min_c {
                    min_c = c;
                }
                if c > max_c {
                    max_c = c;
                }
            }
            c = c + 1;
        }
        r = r + 1;
    }
    if min_r > max_r {
        return None;
    }
    assert(is_bbox(g, ni, min_r as int, max_r as int, min_c as int, max_c as int));
    let rows = max_r - min_r + 1;
    let cols = max_c - min_c + 1;
    let mut k: usize = 0;
    while k < RECIPE_COUNT
        invariant
            g == grid@,
            ni == n,
            g.len() >= n * n,
            n * n <= usize::MAX,
            min_r <= max_r < n,
            min_c <= max_c < n,
            rows == max_r - min_r + 1,
            cols == max_c - min_c + 1,
            is_bbox(g, ni, min_r as int, max_r as int, min_c as int, max_c as int),
            k <= RECIPE_COUNT,
            first_match(g, ni, min_r as int, min_c as int, rows as int, cols as int, 0)
                == first_match(g, ni, min_r as int, min_c as int, rows as int, cols as int, k as int),
        decreases RECIPE_COUNT - k,
    {
        let rec = recipe(k);
        let mut fits = rec.rows == rows && rec.cols == cols;
        if fits {
            let mut rr: usize = 0;
            while rr < rows && fits
                invariant
                    g == grid@,
                    ni == n,
                    g.len() >= n * n,
                    n * n <= usize::MAX,
                    min_r <= max_r < n,
                    min_c <= max_c < n,
                    rows == max_r - min_r + 1,
                    cols == max_c - min_c + 1,
                    rec.rows == rows,
                    rec.cols == cols,
                    rec.cells@.len() == rows * cols,
                    rows <= 3,
                    cols <= 3,
                    rr <= rows,
                    fits ==> forall|r: int, c: int| 0 <= r < rr && 0 <= c < cols ==>
                        g[(min_r + r) * ni + (min_c + c)] == #[trigger] rec.cells@[r * cols + c],
                    !fits ==> !pattern_fits(g, ni, min_r as int, min_c as int, rows as int, cols as int, rec.cells@),
                decreases rows - rr,
            {
                let mut cc: usize = 0;
                while cc < cols && fits
                    invariant
                        g == grid@,
                        ni == n,
                        g.len() >= n * n,
                        n * n <= usize::MAX,
                        min_r <= max_r < n,
                        min_c <= max_c < n,
                        rows == max_r - min_r + 1,
                        cols == max_c - min_c + 1,
                        rec.rows == rows,
                        rec.cols == cols,
                        rec.cells@.len() == rows * cols,
                        rows <= 3,
                        cols <= 3,
                        rr < rows,
                        cc <= cols,
                        fits ==> forall|r: int, c: int| (0 <= r < rr && 0 <= c < cols || r == rr && 0 <= c < cc) ==>
                            g[(min_r + r) * ni + (min_c + c)] == #[trigger] rec.cells@[r * cols + c],
                        !fits ==> !pattern_fits(g, ni, min_r as int, min_c as int, rows as int, cols as int, rec.cells@),
                    decreases cols - cc,
                {
                    proof {
                        lemma_index_bound(ni, (min_r + rr) as int, (min_c + cc) as int);
                        assert(rr * cols + cc < rows * cols && rr * cols <= 9) by (nonlinear_arith)
                            requires
                                rr < rows,
                                cc < cols,
                                rows <= 3,
                                cols <= 3,
                        ;
                    }
                    let idx = (min_r + rr) * n + (min_c + cc);
                    let want = rec.cells[rr * cols + cc];
                    if !same_cell(grid[idx], want) {
                        fits = false;
                    }
                    cc = cc + 1;
                }
                rr = rr + 1;
            }
        }
        if fits {
            assert(pattern_fits(g, ni, min_r as int, min_c as int, rows as int, cols as int, rec.cells@));
            return Some((rec.result, rec.count));
        }
        k = k + 1;
    }
    None
}

/// Two grids with the same filled cells, each placed anywhere, craft the
/// same thing: the result depends only on the trimmed pattern.
pub proof fn lemma_match_depends_on_trimmed_pattern(
    g1: Seq<Option<Item>>,
    n1: int,
    r1: int,
    c1: int,
    g2: Seq<Option<Item>>,
    n2: int,
    r2: int,
    c2: int,
    rows: int,
    cols: int,
    k: int,
)
    requires
        forall|r: int, c: int| 0 <= r < rows && 0 <= c < cols ==>
            #[trigger] g1[(r1 + r) * n1 + (c1 + c)] == g2[(r2 + r) * n2 + (c2 + c)],
    ensures
        first_match(g1, n1, r1, c1, rows, cols, k) == first_match(g2, n2, r2, c2, rows, cols, k),
    decreases RECIPE_COUNT - k,
{
    if 0 <= k < RECIPE_COUNT {
        let cells = spec_recipe(k as usize).2;
        assert(pattern_fits(g1, n1, r1, c1, rows, cols, cells) == pattern_fits(g2, n2, r2, c2, rows, cols, cells)) by {
            if pattern_fits(g1, n1, r1, c1, rows, cols, cells) {
                assert forall|r: int, c: int| 0 <= r < rows && 0 <= c < cols implies
                    g2[(r2 + r) * n2 + (c2 + c)] == #[trigger] cells[r * cols + c] by {
                    assert(g1[(r1 + r) * n1 + (c1 + c)] == g2[(r2 + r) * n2 + (c2 + c)]);
                }
            }
            if pattern_fits(g2, n2, r2, c2, rows, cols, cells) {
                assert forall|r: int, c: int| 0 <= r < rows && 0 <= c < cols implies
                    g1[(r1 + r) * n1 + (c1 + c)] == #[trigger] cells[r * cols + c] by {
                    assert(g1[(r1 + r) * n1 + (c1 + c)] == g2[(r2 + r) * n2 + (c2 + c)]);
                }
            }
        }
        lemma_match_depends_on_trimmed_pattern(g1, n1, r1, c1, g2, n2, r2, c2, rows, cols, k + 1);
    }
}


/// A grid of side `n` whose only filled cells are `top` at row `r`, column
/// `c` and `bottom` right below it.
pub open spec fn only_pair_at(g: Seq<Option<Item>>, n: int, r: int, c: int, top: Item, bottom: Item) -> bool {
    &&& 0 <= r && r + 1 < n && 0 <= c < n
    &&& g.len() >= n * n
    &&& g[r * n + c] == Some(top)
    &&& g[(r + 1) * n + c] == Some(bottom)
    &&& forall|rr: int, cc: int| 0 <= rr < n && 0 <= cc < n && #[trigger] occupied(g, n, rr, cc) ==> (rr == r || rr == r + 1)
        && cc == c
}

/// A grid of side `n` whose only filled cell is `it` at row `r`, column `c`.
pub open spec fn only_cell_at(g: Seq<Option<Item>>, n: int, r: int, c: int, it: Item) -> bool {
    &&& 0 <= r < n && 0 <= c < n
    &&& g.len() >= n * n
    &&& g[r * n + c] == Some(it)
    &&& forall|rr: int, cc: int| 0 <= rr < n && 0 <= cc < n && #[trigger] occupied(g, n, rr, cc) ==> rr == r && cc == c
}

proof fn lemma_pair_bbox(g: Seq<Option<Item>>, n: int, r: int, c: int, top: Item, bottom: Item)
    requires
        only_pair_at(g, n, r, c, top, bottom),
    ensures
        is_bbox(g, n, r, r + 1, c, c),
        forall|r0: int, r1: int, c0: int, c1: int| #[trigger] is_bbox(g, n, r0, r1, c0, c1) ==> r0 == r && r1 == r + 1
            && c0 == c && c1 == c,
{
    assert(occupied(g, n, r, c));
    assert(occupied(g, n, r + 1, c));
    assert forall|r0: int, r1: int, c0: int, c1: int| #[trigger] is_bbox(g, n, r0, r1, c0, c1) implies r0 == r && r1 == r + 1
        && c0 == c && c1 == c by {
        let a = choose|cc: int| 0 <= cc < n && #[trigger] occupied(g, n, r0, cc);
        let b = choose|cc: int| 0 <= cc < n && #[trigger] occupied(g, n, r1, cc);
        let x = choose|rr: int| 0 <= rr < n && #[trigger] occupied(g, n, rr, c0);
        let y = choose|rr: int| 0 <= rr < n && #[trigger] occupied(g, n, rr, c1);
    }
}

proof fn lemma_cell_bbox(g: Seq<Option<Item>>, n: int, r: int, c: int, it: Item)
    requires
        only_cell_at(g, n, r, c, it),
    ensures
        is_bbox(g, n, r, r, c, c),
        forall|r0: int, r1: int, c0: int, c1: int| #[trigger] is_bbox(g, n, r0, r1, c0, c1) ==> r0 == r && r1 == r
            && c0 == c && c1 == c,
{
    assert(occupied(g, n, r, c));
    assert forall|r0: int, r1: int, c0: int, c1: int| #[trigger] is_bbox(g, n, r0, r1, c0, c1) implies r0 == r && r1 == r
        && c0 == c && c1 == c by {
        let a = choose|cc: int| 0 <= cc < n && #[trigger] occupied(g, n, r0, cc);
        let b = choose|cc: int| 0 <= cc < n && #[trigger] occupied(g, n, r1, cc);
        let x = choose|rr: int| 0 <= rr < n && #[trigger] occupied(g, n, rr, c0);
        let y = choose|rr: int| 0 <= rr < n && #[trigger] occupied(g, n, rr, c1);
    }
}

/// Coal directly above a stick, alone anywhere in a grid of any size,
/// crafts four torches: the grid's bounding box is that pair, and the
/// recipe matched there gives (torch, 4).
pub proof fn lemma_coal_over_stick_makes_four_torches(g: Seq<Option<Item>>, n: int, r: int, c: int)
    requires
        only_pair_at(g, n, r, c, Item::Coal, Item::Stick),
    ensures
        is_bbox(g, n, r, r + 1, c, c),
        forall|r0: int, r1: int, c0: int, c1: int| #[trigger] is_bbox(g, n, r0, r1, c0, c1) ==> first_match(
            g,
            n,
            r0,
            c0,
            r1 - r0 + 1,
            c1 - c0 + 1,
            0,
        ) == Some((Item::Block(Block::Torch), 4u32)),
{
    lemma_pair_bbox(g, n, r, c, Item::Coal, Item::Stick);
    let planks = spec_recipe(2).2;
    assert(planks[0int * 1 + 0] == Some(Item::Block(Block::Planks)));
    assert(!pattern_fits(g, n, r, c, 2, 1, planks));
    let torch = spec_recipe(6).2;
    assert forall|rr: int, cc: int| 0 <= rr < 2 && 0 <= cc < 1 implies g[(r + rr) * n + (c + cc)] == #[trigger] torch[rr
        * 1 + cc] by {
        assert(cc == 0);
        if rr == 0 {
            assert(torch[0] == Some(Item::Coal));
        } else {
            assert(torch[1] == Some(Item::Stick));
        }
    }
    assert(pattern_fits(g, n, r, c, 2, 1, torch));
    reveal_with_fuel(first_match, 8);
}

/// Two planks stacked, alone anywhere in the grid, craft four sticks.
pub proof fn lemma_planks_make_four_sticks(g: Seq<Option<Item>>, n: int, r: int, c: int)
    requires
        only_pair_at(g, n, r, c, Item::Block(Block::Planks), Item::Block(Block::Planks)),
    ensures
        is_bbox(g, n, r, r + 1, c, c),
        forall|r0: int, r1: int, c0: int, c1: int| #[trigger] is_bbox(g, n, r0, r1, c0, c1) ==> first_match(
            g,
            n,
            r0,
            c0,
            r1 - r0 + 1,
            c1 - c0 + 1,
            0,
        ) == Some((Item::Stick, 4u32)),
{
    lemma_pair_bbox(g, n, r, c, Item::Block(Block::Planks), Item::Block(Block::Planks));
    let cells = spec_recipe(2).2;
    assert forall|rr: int, cc: int| 0 <= rr < 2 && 0 <= cc < 1 implies g[(r + rr) * n + (c + cc)] == #[trigger] cells[rr
        * 1 + cc] by {
        assert(cc == 0);
    }
    assert(pattern_fits(g, n, r, c, 2, 1, cells));
    reveal_with_fuel(first_match, 4);
}

/// A single oak or birch log, alone anywhere in the grid, crafts four
/// planks.
pub proof fn lemma_log_makes_four_planks(g: Seq<Option<Item>>, n: int, r: int, c: int, log: Block)
    requires
        log == Block::Log || log == Block::BirchLog,
        only_cell_at(g, n, r, c, Item::Block(log)),
    ensures
        is_bbox(g, n, r, r, c, c),
        forall|r0: int, r1: int, c0: int, c1: int| #[trigger] is_bbox(g, n, r0, r1, c0, c1) ==> first_match(
            g,
            n,
            r0,
            c0,
            r1 - r0 + 1,
            c1 - c0 + 1,
            0,
        ) == Some((Item::Block(Block::Planks), 4u32)),
{
    lemma_cell_bbox(g, n, r, c, Item::Block(log));
    let oak = spec_recipe(0).2;
    let birch = spec_recipe(1).2;
    assert(r * n + c == (r + 0) * n + (c + 0));
    assert(oak[0int * 1 + 0] == Some(Item::Block(Block::Log)));
    assert(birch[0int * 1 + 0] == Some(Item::Block(Block::BirchLog)));
    if log == Block::Log {
        assert(pattern_fits(g, n, r, c, 1, 1, oak));
    } else {
        assert(!pattern_fits(g, n, r, c, 1, 1, oak));
        assert(pattern_fits(g, n, r, c, 1, 1, birch));
    }
    reveal_with_fuel(first_match, 3);
}

} // verus!
