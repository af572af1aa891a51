//! Block kinds and their static properties: ids, physics and rendering
//! classes, mining tool classes and atlas tiles.

use vstd::prelude::*;

verus! {

/// Every kind of block in the world. The declaration order is the id order
/// used by save files and the network protocol.
#[derive(Clone, Copy, PartialEq, Eq, Debug, Hash, Structural)]
pub enum Block {
    Air,
    Grass,
    Dirt,
    Stone,
    Cobblestone,
    Sand,
    Log,
    Leaves,
    Planks,
    Water,
    Glass,
    Snow,
    CoalOre,
    IronOre,
    Gravel,
    Bedrock,
    CraftingTable,
    Furnace,
    Chest,
    Torch,
    Sapling,
    FlowerRed,
    FlowerYellow,
    TallGrass,
    Cactus,
    BirchLog,
    Wool,
    Bed,
    RedstoneOre,
    RedstoneWire,
    Lever,
    LeverOn,
    RedstoneTorch,
    RedstoneLamp,
    Tnt,
    Obsidian,
    Netherrack,
    Glowstone,
    EndStone,
    Portal,
    EndPortal,
    Lava,
    EnchantTable,
    Repeater,
    RepeaterOn,
    Door,
    DoorOpen,
    Farmland,
    Wheat1,
    Wheat2,
    Wheat3,
    GoldOre,
    DiamondOre,
    NetherBrick,
    BrewingStand,
    Hopper,
    Dispenser,
    Observer,
    SculkSensor,
    JungleLog,
    Deepslate,
    CopperOre,
    Amethyst,
    SlimeBlock,
    CherryLog,
    CherryLeaves,
    CrimsonStem,
    Shroomlight,
    Anvil,
    Comparator,
    Sandstone,
    Smoker,
    BlastFurnace,
    Grindstone,
    SmithingTable,
    Composter,
    SugarCane,
    Painting,
    Spawner,
    Cauldron,
    ItemFrame,
    SculkBlock,
    Ladder,
    Blackstone,
    WaterF3,
    WaterF2,
    WaterF1,
    LavaF2,
    LavaF1,
}

/// Which tool class mines a block fastest (and, for stone-likes, is required
/// for the block to drop anything).
#[derive(Clone, Copy, PartialEq, Eq, Debug, Structural)]
pub enum ToolClass {
    Pickaxe,
    Axe,
    Shovel,
    Hand,
}

/// Number of block kinds; valid ids are `0..BLOCK_COUNT`.
pub const BLOCK_COUNT: u8 = 89;

/// The id of each block kind: its position in the declaration order.
pub open spec fn block_id(b: Block) -> u8 {
    match b {
        Block::Air => 0,
        Block::Grass => 1,
        Block::Dirt => 2,
        Block::Stone => 3,
        Block::Cobblestone => 4,
        Block::Sand => 5,
        Block::Log => 6,
        Block::Leaves => 7,
        Block::Planks => 8,
        Block::Water => 9,
        Block::Glass => 10,
        Block::Snow => 11,
        Block::CoalOre => 12,
        Block::IronOre => 13,
        Block::Gravel => 14,
        Block::Bedrock => 15,
        Block::CraftingTable => 16,
        Block::Furnace => 17,
        Block::Chest => 18,
        Block::Torch => 19,
        Block::Sapling => 20,
        Block::FlowerRed => 21,
        Block::FlowerYellow => 22,
        Block::TallGrass => 23,
        Block::Cactus => 24,
        Block::BirchLog => 25,
        Block::Wool => 26,
        Block::Bed => 27,
        Block::RedstoneOre => 28,
        Block::RedstoneWire => 29,
        Block::Lever => 30,
        Block::LeverOn => 31,
        Block::RedstoneTorch => 32,
        Block::RedstoneLamp => 33,
        Block::Tnt => 34,
        Block::Obsidian => 35,
        Block::Netherrack => 36,
        Block::Glowstone => 37,
        Block::EndStone => 38,
        Block::Portal => 39,
        Block::EndPortal => 40,
        Block::Lava => 41,
        Block::EnchantTable => 42,
        Block::Repeater => 43,
        Block::RepeaterOn => 44,
        Block::Door => 45,
        Block::DoorOpen => 46,
        Block::Farmland => 47,
        Block::Wheat1 => 48,
        Block::Wheat2 => 49,
        Block::Wheat3 => 50,
        Block::GoldOre => 51,
        Block::DiamondOre => 52,
        Block::NetherBrick => 53,
        Block::BrewingStand => 54,
        Block::Hopper => 55,
        Block::Dispenser => 56,
        Block::Observer => 57,
        Block::SculkSensor => 58,
        Block::JungleLog => 59,
        Block::Deepslate => 60,
        Block::CopperOre => 61,
        Block::Amethyst => 62,
        Block::SlimeBlock => 63,
        Block::CherryLog => 64,
        Block::CherryLeaves => 65,
        Block::CrimsonStem => 66,
        Block::Shroomlight => 67,
        Block::Anvil => 68,
        Block::Comparator => 69,
        Block::Sandstone => 70,
        Block::Smoker => 71,
        Block::BlastFurnace => 72,
        Block::Grindstone => 73,
        Block::SmithingTable => 74,
        Block::Composter => 75,
        Block::SugarCane => 76,
        Block::Painting => 77,
        Block::Spawner => 78,
        Block::Cauldron => 79,
        Block::ItemFrame => 80,
        Block::SculkBlock => 81,
        Block::Ladder => 82,
        Block::Blackstone => 83,
        Block::WaterF3 => 84,
        Block::WaterF2 => 85,
        Block::WaterF1 => 86,
        Block::LavaF2 => 87,
        Block::LavaF1 => 88,
    }
}

/// The block kind with a given id; ids past the last kind read as `Air`.
pub open spec fn block_from_id(id: u8) -> Block {
    match id {
        0 => Block::Air,
        1 => Block::Grass,
        2 => Block::Dirt,
        3 => Block::Stone,
        4 => Block::Cobblestone,
        5 => Block::Sand,
        6 => Block::Log,
        7 => Block::Leaves,
        8 => Block::Planks,
        9 => Block::Water,
        10 => Block::Glass,
        11 => Block::Snow,
        12 => Block::CoalOre,
        13 => Block::IronOre,
        14 => Block::Gravel,
        15 => Block::Bedrock,
        16 => Block::CraftingTable,
        17 => Block::Furnace,
        18 => Block::Chest,
        19 => Block::Torch,
        20 => Block::Sapling,
        21 => Block::FlowerRed,
        22 => Block::FlowerYellow,
        23 => Block::TallGrass,
        24 => Block::Cactus,
        25 => Block::BirchLog,
        26 => Block::Wool,
        27 => Block::Bed,
        28 => Block::RedstoneOre,
        29 => Block::RedstoneWire,
        30 => Block::Lever,
        31 => Block::LeverOn,
        32 => Block::RedstoneTorch,
        33 => Block::RedstoneLamp,
        34 => Block::Tnt,
        35 => Block::Obsidian,
        36 => Block::Netherrack,
        37 => Block::Glowstone,
        38 => Block::EndStone,
        39 => Block::Portal,
        40 => Block::EndPortal,
        41 => Block::Lava,
        42 => Block::EnchantTable,
        43 => Block::Repeater,
        44 => Block::RepeaterOn,
        45 => Block::Door,
        46 => Block::DoorOpen,
        47 => Block::Farmland,
        48 => Block::Wheat1,
        49 => Block::Wheat2,
        50 => Block::Wheat3,
        51 => Block::GoldOre,
        52 => Block::DiamondOre,
        53 => Block::NetherBrick,
        54 => Block::BrewingStand,
        55 => Block::Hopper,
        56 => Block::Dispenser,
        57 => Block::Observer,
        58 => Block::SculkSensor,
        59 => Block::JungleLog,
        60 => Block::Deepslate,
        61 => Block::CopperOre,
        62 => Block::Amethyst,
        63 => Block::SlimeBlock,
        64 => Block::CherryLog,
        65 => Block::CherryLeaves,
        66 => Block::CrimsonStem,
        67 => Block::Shroomlight,
        68 => Block::Anvil,
        69 => Block::Comparator,
        70 => Block::Sandstone,
        71 => Block::Smoker,
        72 => Block::BlastFurnace,
        73 => Block::Grindstone,
        74 => Block::SmithingTable,
        75 => Block::Composter,
        76 => Block::SugarCane,
        77 => Block::Painting,
        78 => Block::Spawner,
        79 => Block::Cauldron,
        80 => Block::ItemFrame,
        81 => Block::SculkBlock,
        82 => Block::Ladder,
        83 => Block::Blackstone,
        84 => Block::WaterF3,
        85 => Block::WaterF2,
        86 => Block::WaterF1,
        87 => Block::LavaF2,
        88 => Block::LavaF1,
        _ => Block::Air,
    }
}

/// Any water-family block (source or flowing).
pub open spec fn spec_is_water(b: Block) -> bool {
    b is Water || b is WaterF3 || b is WaterF2 || b is WaterF1
}

/// Any lava-family block (source or flowing).
pub open spec fn spec_is_lava(b: Block) -> bool {
    b is Lava || b is LavaF2 || b is LavaF1
}

/// Blocks that need solid ground and pop off without it.
pub open spec fn spec_needs_support(b: Block) -> bool {
    b is Torch || b is Sapling || b is FlowerRed || b is FlowerYellow || b is TallGrass || b is RedstoneWire || b is Lever || b is LeverOn || b is RedstoneTorch || b is Repeater || b is RepeaterOn || b is Comparator || b is Wheat1 || b is Wheat2 || b is Wheat3 || b is Door || b is DoorOpen || b is SugarCane || b is Cactus
}

/// Blocks pulled down by gravity when unsupported.
pub open spec fn spec_falls(b: Block) -> bool {
    b is Sand || b is Gravel
}

/// Rendered as two crossed quads instead of a cube.
pub open spec fn spec_is_cross(b: Block) -> bool {
    b is Torch || b is Sapling || b is FlowerRed || b is FlowerYellow || b is TallGrass || b is Lever || b is LeverOn || b is RedstoneTorch || b is DoorOpen || b is Wheat1 || b is Wheat2 || b is Wheat3 || b is SugarCane
}

/// Rendered as a flat overlay on the floor (redstone wire, repeaters).
pub open spec fn spec_is_flat(b: Block) -> bool {
    b is RedstoneWire || b is Repeater || b is RepeaterOn || b is Comparator
}

/// Light-emitting blocks (baked like torches at mesh time).
pub open spec fn spec_emits_light(b: Block) -> bool {
    b is Torch || b is RedstoneTorch || b is Glowstone || b is Portal || b is EndPortal || b is Lava || b is LavaF2 || b is LavaF1 || b is Shroomlight
}

/// Blocks that can be overwritten when placing or growing.
pub open spec fn spec_is_replaceable(b: Block) -> bool {
    b is Air || b is Water || b is TallGrass || b is WaterF3 || b is WaterF2 || b is WaterF1 || b is LavaF2 || b is LavaF1
}

/// Blocks the player collides with: everything but air, liquids, plants,
/// redstone components, portals, open doors and ladders.
pub open spec fn spec_is_solid(b: Block) -> bool {
    !(b is Air || b is Water || b is WaterF3 || b is WaterF2 || b is WaterF1 || b is LavaF2 || b is LavaF1 || b is Torch || b is Sapling || b is FlowerRed || b is FlowerYellow || b is TallGrass || b is RedstoneWire || b is Lever || b is LeverOn || b is RedstoneTorch || b is Portal || b is Lava || b is Repeater || b is RepeaterOn || b is DoorOpen || b is Wheat1 || b is Wheat2 || b is Wheat3 || b is SugarCane || b is Ladder)
}

/// Blocks that fully hide faces of their neighbors.
pub open spec fn spec_is_opaque(b: Block) -> bool {
    (spec_is_solid(b) && !(b is Glass || b is Cactus || b is Leaves || b is CherryLeaves
        || b is Spawner)) || b is Leaves || b is CherryLeaves
}

pub open spec fn spec_is_liquid(b: Block) -> bool {
    spec_is_water(b) || spec_is_lava(b)
}

pub open spec fn spec_is_breakable(b: Block) -> bool {
    !(b is Air || b is Bedrock || b is Portal || b is EndPortal) && !spec_is_liquid(b)
}

/// Liquid strength: sources are highest, flows taper off.
pub open spec fn spec_liquid_level(b: Block) -> u8 {
    match b {
        Block::Water => 4,
        Block::WaterF3 => 3,
        Block::WaterF2 => 2,
        Block::WaterF1 => 1,
        Block::Lava => 3,
        Block::LavaF2 => 2,
        Block::LavaF1 => 1,
        _ => 0,
    }
}

/// Tool class that speeds up mining; for pickaxe blocks a pickaxe is also
/// required for drops.
pub open spec fn spec_tool_class(b: Block) -> ToolClass {
    if b is Stone || b is Cobblestone || b is CoalOre || b is IronOre || b is Furnace || b is RedstoneOre || b is Obsidian || b is Netherrack || b is EndStone || b is EnchantTable || b is GoldOre || b is DiamondOre || b is NetherBrick || b is BrewingStand || b is Hopper || b is Dispenser || b is Observer || b is Deepslate || b is CopperOre || b is Amethyst || b is Anvil || b is Sandstone || b is Smoker || b is BlastFurnace || b is Grindstone || b is Spawner || b is Cauldron || b is Blackstone {
        ToolClass::Pickaxe
    }
    else if b is SmithingTable || b is Composter || b is Ladder || b is JungleLog || b is CherryLog || b is CrimsonStem || b is Log || b is BirchLog || b is Planks || b is CraftingTable || b is Chest || b is Door || b is DoorOpen {
        ToolClass::Axe
    }
    else if b is Grass || b is Dirt || b is Sand || b is Gravel || b is Snow || b is Farmland {
        ToolClass::Shovel
    }
    else {
        ToolClass::Hand
    }
}

/// Atlas tile indices: (top, side, bottom).
pub open spec fn spec_tiles(b: Block) -> (u16, u16, u16) {
    match b {
        Block::Air => (0, 0, 0),
        Block::Grass => (0, 1, 2),
        Block::Dirt => (2, 2, 2),
        Block::Stone => (3, 3, 3),
        Block::Cobblestone => (4, 4, 4),
        Block::Sand => (5, 5, 5),
        Block::Log => (7, 6, 7),
        Block::Leaves => (8, 8, 8),
        Block::Planks => (9, 9, 9),
        Block::Water => (10, 10, 10),
        Block::Glass => (11, 11, 11),
        Block::Snow => (12, 13, 2),
        Block::CoalOre => (14, 14, 14),
        Block::IronOre => (15, 15, 15),
        Block::Gravel => (16, 16, 16),
        Block::Bedrock => (17, 17, 17),
        Block::CraftingTable => (44, 45, 9),
        Block::Furnace => (47, 46, 47),
        Block::Chest => (50, 48, 50),
        Block::Torch => (22, 22, 22),
        Block::Sapling => (57, 57, 57),
        Block::FlowerRed => (54, 54, 54),
        Block::FlowerYellow => (55, 55, 55),
        Block::TallGrass => (56, 56, 56),
        Block::Cactus => (53, 52, 53),
        Block::BirchLog => (7, 51, 7),
        Block::Wool => (58, 58, 58),
        Block::Bed => (74, 75, 9),
        Block::RedstoneOre => (77, 77, 77),
        Block::RedstoneWire => (76, 76, 76),
        Block::Lever => (78, 78, 78),
        Block::LeverOn => (79, 79, 79),
        Block::RedstoneTorch => (80, 80, 80),
        Block::RedstoneLamp => (81, 81, 81),
        Block::Tnt => (84, 83, 84),
        Block::Obsidian => (85, 85, 85),
        Block::Netherrack => (86, 86, 86),
        Block::Glowstone => (87, 87, 87),
        Block::EndStone => (88, 88, 88),
        Block::Portal => (89, 89, 89),
        Block::EndPortal => (89, 89, 89),
        Block::Lava => (90, 90, 90),
        Block::EnchantTable => (102, 103, 85),
        Block::Repeater => (104, 104, 104),
        Block::RepeaterOn => (105, 105, 105),
        Block::Door => (106, 106, 106),
        Block::DoorOpen => (106, 106, 106),
        Block::Farmland => (108, 2, 2),
        Block::Wheat1 => (109, 109, 109),
        Block::Wheat2 => (110, 110, 110),
        Block::Wheat3 => (111, 111, 111),
        Block::GoldOre => (144, 144, 144),
        Block::DiamondOre => (145, 145, 145),
        Block::NetherBrick => (146, 146, 146),
        Block::BrewingStand => (147, 147, 147),
        Block::Hopper => (148, 148, 148),
        Block::Dispenser => (149, 148, 148),
        Block::Observer => (150, 148, 148),
        Block::SculkSensor => (151, 151, 151),
        Block::JungleLog => (7, 152, 7),
        Block::Deepslate => (181, 181, 181),
        Block::CopperOre => (182, 182, 182),
        Block::Amethyst => (184, 184, 184),
        Block::SlimeBlock => (186, 186, 186),
        Block::CherryLog => (7, 187, 7),
        Block::CherryLeaves => (188, 188, 188),
        Block::CrimsonStem => (189, 189, 189),
        Block::Shroomlight => (190, 190, 190),
        Block::Anvil => (191, 191, 191),
        Block::Comparator => (192, 192, 192),
        Block::Sandstone => (200, 200, 200),
        Block::Smoker => (47, 201, 47),
        Block::BlastFurnace => (47, 202, 47),
        Block::Grindstone => (203, 203, 203),
        Block::SmithingTable => (204, 45, 9),
        Block::Composter => (205, 205, 9),
        Block::SugarCane => (216, 216, 216),
        Block::Painting => (217, 217, 217),
        Block::Spawner => (221, 221, 221),
        Block::Cauldron => (222, 222, 222),
        Block::ItemFrame => (223, 223, 223),
        Block::SculkBlock => (225, 225, 225),
        Block::Ladder => (226, 226, 226),
        Block::Blackstone => (227, 227, 227),
        Block::WaterF3 => (10, 10, 10),
        Block::WaterF2 => (10, 10, 10),
        Block::WaterF1 => (10, 10, 10),
        Block::LavaF2 => (90, 90, 90),
        Block::LavaF1 => (90, 90, 90),
    }
}

/// Tile used for the hotbar/inventory icon.
pub open spec fn spec_icon_tile(b: Block) -> u16 {
    match b {
        Block::Grass => 1,
        Block::Snow => 13,
        Block::Log => 6,
        Block::BirchLog => 51,
        Block::CraftingTable => 45,
        Block::Furnace => 46,
        Block::Chest => 48,
        Block::Cactus => 52,
        Block::Tnt => 83,
        _ => spec_tiles(b).0,
    }
}

/// Display name.
pub open spec fn spec_block_name(b: Block) -> Seq<char> {
    match b {
        Block::Air => "Air"@,
        Block::Grass => "Grass"@,
        Block::Dirt => "Dirt"@,
        Block::Stone => "Stone"@,
        Block::Cobblestone => "Cobblestone"@,
        Block::Sand => "Sand"@,
        Block::Log => "Oak Log"@,
        Block::Leaves => "Leaves"@,
        Block::Planks => "Planks"@,
        Block::Water => "Water"@,
        Block::Glass => "Glass"@,
        Block::Snow => "Snow"@,
        Block::CoalOre => "Coal Ore"@,
        Block::IronOre => "Iron Ore"@,
        Block::Gravel => "Gravel"@,
        Block::Bedrock => "Bedrock"@,
        Block::CraftingTable => "Crafting Table"@,
        Block::Furnace => "Furnace"@,
        Block::Chest => "Chest"@,
        Block::Torch => "Torch"@,
        Block::Sapling => "Sapling"@,
        Block::FlowerRed => "Poppy"@,
        Block::FlowerYellow => "Dandelion"@,
        Block::TallGrass => "Tall Grass"@,
        Block::Cactus => "Cactus"@,
        Block::BirchLog => "Birch Log"@,
        Block::Wool => "Wool"@,
        Block::Bed => "Bed"@,
        Block::RedstoneOre => "Redstone Ore"@,
        Block::RedstoneWire => "Redstone Wire"@,
        Block::Lever => "Lever"@,
        Block::LeverOn => "Lever (on)"@,
        Block::RedstoneTorch => "Redstone Torch"@,
        Block::RedstoneLamp => "Redstone Lamp"@,
        Block::Tnt => "TNT"@,
        Block::Obsidian => "Obsidian"@,
        Block::Netherrack => "Netherrack"@,
        Block::Glowstone => "Glowstone"@,
        Block::EndStone => "End Stone"@,
        Block::Portal => "Nether Portal"@,
        Block::EndPortal => "End Portal"@,
        Block::Lava => "Lava"@,
        Block::EnchantTable => "Enchanting Table"@,
        Block::Repeater => "Redstone Repeater"@,
        Block::RepeaterOn => "Redstone Repeater (on)"@,
        Block::Door => "Door"@,
        Block::DoorOpen => "Door (open)"@,
        Block::Farmland => "Farmland"@,
        Block::Wheat1 => "Wheat Crop"@,
        Block::Wheat2 => "Wheat Crop"@,
        Block::Wheat3 => "Wheat Crop"@,
        Block::GoldOre => "Gold Ore"@,
        Block::DiamondOre => "Diamond Ore"@,
        Block::NetherBrick => "Nether Brick"@,
        Block::BrewingStand => "Brewing Stand"@,
        Block::Hopper => "Hopper"@,
        Block::Dispenser => "Dispenser"@,
        Block::Observer => "Observer"@,
        Block::SculkSensor => "Sculk Sensor"@,
        Block::JungleLog => "Jungle Log"@,
        Block::Deepslate => "Deepslate"@,
        Block::CopperOre => "Copper Ore"@,
        Block::Amethyst => "Amethyst Block"@,
        Block::SlimeBlock => "Slime Block"@,
        Block::CherryLog => "Cherry Log"@,
        Block::CherryLeaves => "Cherry Leaves"@,
        Block::CrimsonStem => "Crimson Stem"@,
        Block::Shroomlight => "Shroomlight"@,
        Block::Anvil => "Anvil"@,
        Block::Comparator => "Comparator"@,
        Block::Sandstone => "Sandstone"@,
        Block::Smoker => "Smoker"@,
        Block::BlastFurnace => "Blast Furnace"@,
        Block::Grindstone => "Grindstone"@,
        Block::SmithingTable => "Smithing Table"@,
        Block::Composter => "Composter"@,
        Block::SugarCane => "Sugar Cane"@,
        Block::Painting => "Painting"@,
        Block::Spawner => "Monster Spawner"@,
        Block::Cauldron => "Cauldron"@,
        Block::ItemFrame => "Item Frame"@,
        Block::SculkBlock => "Sculk"@,
        Block::Ladder => "Ladder"@,
        Block::Blackstone => "Blackstone"@,
        Block::WaterF3 => "Flowing Water"@,
        Block::WaterF2 => "Flowing Water"@,
        Block::WaterF1 => "Flowing Water"@,
        Block::LavaF2 => "Flowing Lava"@,
        Block::LavaF1 => "Flowing Lava"@,
    }
}

impl Block {
    pub fn id(self) -> (r: u8)
        ensures
            r == block_id(self),
            r < BLOCK_COUNT,
    {
        match self {
            Block::Air => 0,
            Block::Grass => 1,
            Block::Dirt => 2,
            Block::Stone => 3,
            Block::Cobblestone => 4,
            Block::Sand => 5,
            Block::Log => 6,
            Block::Leaves => 7,
            Block::Planks => 8,
            Block::Water => 9,
            Block::Glass => 10,
            Block::Snow => 11,
            Block::CoalOre => 12,
            Block::IronOre => 13,
            Block::Gravel => 14,
            Block::Bedrock => 15,
            Block::CraftingTable => 16,
            Block::Furnace => 17,
            Block::Chest => 18,
            Block::Torch => 19,
            Block::Sapling => 20,
            Block::FlowerRed => 21,
            Block::FlowerYellow => 22,
            Block::TallGrass => 23,
            Block::Cactus => 24,
            Block::BirchLog => 25,
            Block::Wool => 26,
            Block::Bed => 27,
            Block::RedstoneOre => 28,
            Block::RedstoneWire => 29,
            Block::Lever => 30,
            Block::LeverOn => 31,
            Block::RedstoneTorch => 32,
            Block::RedstoneLamp => 33,
            Block::Tnt => 34,
            Block::Obsidian => 35,
            Block::Netherrack => 36,
            Block::Glowstone => 37,
            Block::EndStone => 38,
            Block::Portal => 39,
            Block::EndPortal => 40,
            Block::Lava => 41,
            Block::EnchantTable => 42,
            Block::Repeater => 43,
            Block::RepeaterOn => 44,
            Block::Door => 45,
            Block::DoorOpen => 46,
            Block::Farmland => 47,
            Block::Wheat1 => 48,
            Block::Wheat2 => 49,
            Block::Wheat3 => 50,
            Block::GoldOre => 51,
            Block::DiamondOre => 52,
            Block::NetherBrick => 53,
            Block::BrewingStand => 54,
            Block::Hopper => 55,
            Block::Dispenser => 56,
            Block::Observer => 57,
            Block::SculkSensor => 58,
            Block::JungleLog => 59,
            Block::Deepslate => 60,
            Block::CopperOre => 61,
            Block::Amethyst => 62,
            Block::SlimeBlock => 63,
            Block::CherryLog => 64,
            Block::CherryLeaves => 65,
            Block::CrimsonStem => 66,
            Block::Shroomlight => 67,
            Block::Anvil => 68,
            Block::Comparator => 69,
            Block::Sandstone => 70,
            Block::Smoker => 71,
            Block::BlastFurnace => 72,
            Block::Grindstone => 73,
            Block::SmithingTable => 74,
            Block::Composter => 75,
            Block::SugarCane => 76,
            Block::Painting => 77,
            Block::Spawner => 78,
            Block::Cauldron => 79,
            Block::ItemFrame => 80,
            Block::SculkBlock => 81,
            Block::Ladder => 82,
            Block::Blackstone => 83,
            Block::WaterF3 => 84,
            Block::WaterF2 => 85,
            Block::WaterF1 => 86,
            Block::LavaF2 => 87,
            Block::LavaF1 => 88,
        }
    }

    pub fn from_id(id: u8) -> (r: Block)
        ensures
            r == block_from_id(id),
            id < BLOCK_COUNT ==> block_id(r) == id,
            id >= BLOCK_COUNT ==> r == Block::Air,
    {
        match id {
            0 => Block::Air,
            1 => Block::Grass,
            2 => Block::Dirt,
            3 => Block::Stone,
            4 => Block::Cobblestone,
            5 => Block::Sand,
            6 => Block::Log,
            7 => Block::Leaves,
            8 => Block::Planks,
            9 => Block::Water,
            10 => Block::Glass,
            11 => Block::Snow,
            12 => Block::CoalOre,
            13 => Block::IronOre,
            14 => Block::Gravel,
            15 => Block::Bedrock,
            16 => Block::CraftingTable,
            17 => Block::Furnace,
            18 => Block::Chest,
            19 => Block::Torch,
            20 => Block::Sapling,
            21 => Block::FlowerRed,
            22 => Block::FlowerYellow,
            23 => Block::TallGrass,
            24 => Block::Cactus,
            25 => Block::BirchLog,
            26 => Block::Wool,
            27 => Block::Bed,
            28 => Block::RedstoneOre,
            29 => Block::RedstoneWire,
            30 => Block::Lever,
            31 => Block::LeverOn,
            32 => Block::RedstoneTorch,
            33 => Block::RedstoneLamp,
            34 => Block::Tnt,
            35 => Block::Obsidian,
            36 => Block::Netherrack,
            37 => Block::Glowstone,
            38 => Block::EndStone,
            39 => Block::Portal,
            40 => Block::EndPortal,
            41 => Block::Lava,
            42 => Block::EnchantTable,
            43 => Block::Repeater,
            44 => Block::RepeaterOn,
            45 => Block::Door,
            46 => Block::DoorOpen,
            47 => Block::Farmland,
            48 => Block::Wheat1,
            49 => Block::Wheat2,
            50 => Block::Wheat3,
            51 => Block::GoldOre,
            52 => Block::DiamondOre,
            53 => Block::NetherBrick,
            54 => Block::BrewingStand,
            55 => Block::Hopper,
            56 => Block::Dispenser,
            57 => Block::Observer,
            58 => Block::SculkSensor,
            59 => Block::JungleLog,
            60 => Block::Deepslate,
            61 => Block::CopperOre,
            62 => Block::Amethyst,
            63 => Block::SlimeBlock,
            64 => Block::CherryLog,
            65 => Block::CherryLeaves,
            66 => Block::CrimsonStem,
            67 => Block::Shroomlight,
            68 => Block::Anvil,
            69 => Block::Comparator,
            70 => Block::Sandstone,
            71 => Block::Smoker,
            72 => Block::BlastFurnace,
            73 => Block::Grindstone,
            74 => Block::SmithingTable,
            75 => Block::Composter,
            76 => Block::SugarCane,
            77 => Block::Painting,
            78 => Block::Spawner,
            79 => Block::Cauldron,
            80 => Block::ItemFrame,
            81 => Block::SculkBlock,
            82 => Block::Ladder,
            83 => Block::Blackstone,
            84 => Block::WaterF3,
            85 => Block::WaterF2,
            86 => Block::WaterF1,
            87 => Block::LavaF2,
            88 => Block::LavaF1,
            _ => Block::Air,
        }
    }

    /// Any water-family block (source or flowing).
    pub fn is_water(self) -> (r: bool)
        ensures
            r == spec_is_water(self),
    {
        matches!(self, Block::Water | Block::WaterF3 | Block::WaterF2 | Block::WaterF1)
    }

    /// Any lava-family block (source or flowing).
    pub fn is_lava(self) -> (r: bool)
        ensures
            r == spec_is_lava(self),
    {
        matches!(self, Block::Lava | Block::LavaF2 | Block::LavaF1)
    }

    /// Any liquid, water or lava.
    pub fn is_liquid(self) -> (r: bool)
        ensures
            r == spec_is_liquid(self),
    {
        self.is_water() || self.is_lava()
    }

    /// Liquid strength: sources are highest, flows taper off.
    pub fn liquid_level(self) -> (r: u8)
        ensures
            r == spec_liquid_level(self),
    {
        match self {
            Block::Water => 4,
            Block::WaterF3 => 3,
            Block::WaterF2 => 2,
            Block::WaterF1 => 1,
            Block::Lava => 3,
            Block::LavaF2 => 2,
            Block::LavaF1 => 1,
            _ => 0,
        }
    }

    /// Blocks that need solid ground and pop off without it.
    pub fn needs_support(self) -> (r: bool)
        ensures
            r == spec_needs_support(self),
    {
        matches!(self, Block::Torch | Block::Sapling | Block::FlowerRed | Block::FlowerYellow | Block::TallGrass | Block::RedstoneWire | Block::Lever | Block::LeverOn | Block::RedstoneTorch | Block::Repeater | Block::RepeaterOn | Block::Comparator | Block::Wheat1 | Block::Wheat2 | Block::Wheat3 | Block::Door | Block::DoorOpen | Block::SugarCane | Block::Cactus)
    }

    /// Blocks pulled down by gravity when unsupported.
    pub fn falls(self) -> (r: bool)
        ensures
            r == spec_falls(self),
    {
        matches!(self, Block::Sand | Block::Gravel)
    }

    /// Blocks the player collides with.
    pub fn is_solid(self) -> (r: bool)
        ensures
            r == spec_is_solid(self),
    {
        !matches!(self, Block::Air | Block::Water | Block::WaterF3 | Block::WaterF2 | Block::WaterF1 | Block::LavaF2 | Block::LavaF1 | Block::Torch | Block::Sapling | Block::FlowerRed | Block::FlowerYellow | Block::TallGrass | Block::RedstoneWire | Block::Lever | Block::LeverOn | Block::RedstoneTorch | Block::Portal | Block::Lava | Block::Repeater | Block::RepeaterOn | Block::DoorOpen | Block::Wheat1 | Block::Wheat2 | Block::Wheat3 | Block::SugarCane | Block::Ladder)
    }

    /// Blocks that fully hide faces of their neighbors.
    pub fn is_opaque(self) -> (r: bool)
        ensures
            r == spec_is_opaque(self),
    {
        self.is_solid() && !matches!(self, Block::Glass | Block::Cactus | Block::Leaves | Block::CherryLeaves | Block::Spawner)
            || matches!(self, Block::Leaves | Block::CherryLeaves)
    }

    /// Rendered as two crossed quads instead of a cube.
    pub fn is_cross(self) -> (r: bool)
        ensures
            r == spec_is_cross(self),
    {
        matches!(self, Block::Torch | Block::Sapling | Block::FlowerRed | Block::FlowerYellow | Block::TallGrass | Block::Lever | Block::LeverOn | Block::RedstoneTorch | Block::DoorOpen | Block::Wheat1 | Block::Wheat2 | Block::Wheat3 | Block::SugarCane)
    }

    /// Rendered as a flat overlay on the floor (redstone wire, repeaters).
    pub fn is_flat(self) -> (r: bool)
        ensures
            r == spec_is_flat(self),
    {
        matches!(self, Block::RedstoneWire | Block::Repeater | Block::RepeaterOn | Block::Comparator)
    }

    /// Light-emitting blocks (baked like torches at mesh time).
    pub fn emits_light(self) -> (r: bool)
        ensures
            r == spec_emits_light(self),
    {
        matches!(self, Block::Torch | Block::RedstoneTorch | Block::Glowstone | Block::Portal | Block::EndPortal | Block::Lava | Block::LavaF2 | Block::LavaF1 | Block::Shroomlight)
    }

    /// Blocks that can be overwritten when placing or growing.
    pub fn is_replaceable(self) -> (r: bool)
        ensures
            r == spec_is_replaceable(self),
    {
        matches!(self, Block::Air | Block::Water | Block::TallGrass | Block::WaterF3 | Block::WaterF2 | Block::WaterF1 | Block::LavaF2 | Block::LavaF1)
    }

    /// Everything but air, bedrock, portals and liquids can be mined.
    pub fn is_breakable(self) -> (r: bool)
        ensures
            r == spec_is_breakable(self),
    {
        !matches!(self, Block::Air | Block::Bedrock | Block::Portal | Block::EndPortal) && !self.is_liquid()
    }

    /// Tool class that speeds up mining; for pickaxe blocks a pickaxe is also
    /// required for drops (like modern Minecraft).
    pub fn tool_class(self) -> (r: ToolClass)
        ensures
            r == spec_tool_class(self),
    {
        match self {
            Block::Stone | Block::Cobblestone | Block::CoalOre | Block::IronOre | Block::Furnace | Block::RedstoneOre | Block::Obsidian | Block::Netherrack | Block::EndStone | Block::EnchantTable | Block::GoldOre | Block::DiamondOre | Block::NetherBrick | Block::BrewingStand | Block::Hopper | Block::Dispenser | Block::Observer | Block::Deepslate | Block::CopperOre | Block::Amethyst | Block::Anvil | Block::Sandstone | Block::Smoker | Block::BlastFurnace | Block::Grindstone | Block::Spawner | Block::Cauldron | Block::Blackstone => ToolClass::Pickaxe,
            Block::SmithingTable | Block::Composter | Block::Ladder | Block::JungleLog | Block::CherryLog | Block::CrimsonStem | Block::Log | Block::BirchLog | Block::Planks | Block::CraftingTable | Block::Chest | Block::Door | Block::DoorOpen => ToolClass::Axe,
            Block::Grass | Block::Dirt | Block::Sand | Block::Gravel | Block::Snow | Block::Farmland => ToolClass::Shovel,
            _ => ToolClass::Hand,
        }
    }

    pub fn needs_pickaxe(self) -> (r: bool)
        ensures
            r == (spec_tool_class(self) == ToolClass::Pickaxe),
    {
        match self.tool_class() {
            ToolClass::Pickaxe => true,
            _ => false,
        }
    }

    /// Atlas tile indices: (top, side, bottom).
    pub fn tiles(self) -> (r: (u16, u16, u16))
        ensures
            r == spec_tiles(self),
    {
        match self {
            Block::Air => (0, 0, 0),
            Block::Grass => (0, 1, 2),
            Block::Dirt => (2, 2, 2),
            Block::Stone => (3, 3, 3),
            Block::Cobblestone => (4, 4, 4),
            Block::Sand => (5, 5, 5),
            Block::Log => (7, 6, 7),
            Block::Leaves => (8, 8, 8),
            Block::Planks => (9, 9, 9),
            Block::Water => (10, 10, 10),
            Block::Glass => (11, 11, 11),
            Block::Snow => (12, 13, 2),
            Block::CoalOre => (14, 14, 14),
            Block::IronOre => (15, 15, 15),
            Block::Gravel => (16, 16, 16),
            Block::Bedrock => (17, 17, 17),
            Block::CraftingTable => (44, 45, 9),
            Block::Furnace => (47, 46, 47),
            Block::Chest => (50, 48, 50),
            Block::Torch => (22, 22, 22),
            Block::Sapling => (57, 57, 57),
            Block::FlowerRed => (54, 54, 54),
            Block::FlowerYellow => (55, 55, 55),
            Block::TallGrass => (56, 56, 56),
            Block::Cactus => (53, 52, 53),
            Block::BirchLog => (7, 51, 7),
            Block::Wool => (58, 58, 58),
            Block::Bed => (74, 75, 9),
            Block::RedstoneOre => (77, 77, 77),
            Block::RedstoneWire => (76, 76, 76),
            Block::Lever => (78, 78, 78),
            Block::LeverOn => (79, 79, 79),
            Block::RedstoneTorch => (80, 80, 80),
            Block::RedstoneLamp => (81, 81, 81),
            Block::Tnt => (84, 83, 84),
            Block::Obsidian => (85, 85, 85),
            Block::Netherrack => (86, 86, 86),
            Block::Glowstone => (87, 87, 87),
            Block::EndStone => (88, 88, 88),
            Block::Portal => (89, 89, 89),
            Block::EndPortal => (89, 89, 89),
            Block::Lava => (90, 90, 90),
            Block::EnchantTable => (102, 103, 85),
            Block::Repeater => (104, 104, 104),
            Block::RepeaterOn => (105, 105, 105),
            Block::Door => (106, 106, 106),
            Block::DoorOpen => (106, 106, 106),
            Block::Farmland => (108, 2, 2),
            Block::Wheat1 => (109, 109, 109),
            Block::Wheat2 => (110, 110, 110),
            Block::Wheat3 => (111, 111, 111),
            Block::GoldOre => (144, 144, 144),
            Block::DiamondOre => (145, 145, 145),
            Block::NetherBrick => (146, 146, 146),
            Block::BrewingStand => (147, 147, 147),
            Block::Hopper => (148, 148, 148),
            Block::Dispenser => (149, 148, 148),
            Block::Observer => (150, 148, 148),
            Block::SculkSensor => (151, 151, 151),
            Block::JungleLog => (7, 152, 7),
            Block::Deepslate => (181, 181, 181),
            Block::CopperOre => (182, 182, 182),
            Block::Amethyst => (184, 184, 184),
            Block::SlimeBlock => (186, 186, 186),
            Block::CherryLog => (7, 187, 7),
            Block::CherryLeaves => (188, 188, 188),
            Block::CrimsonStem => (189, 189, 189),
            Block::Shroomlight => (190, 190, 190),
            Block::Anvil => (191, 191, 191),
            Block::Comparator => (192, 192, 192),
            Block::Sandstone => (200, 200, 200),
            Block::Smoker => (47, 201, 47),
            Block::BlastFurnace => (47, 202, 47),
            Block::Grindstone => (203, 203, 203),
            Block::SmithingTable => (204, 45, 9),
            Block::Composter => (205, 205, 9),
            Block::SugarCane => (216, 216, 216),
            Block::Painting => (217, 217, 217),
            Block::Spawner => (221, 221, 221),
            Block::Cauldron => (222, 222, 222),
            Block::ItemFrame => (223, 223, 223),
            Block::SculkBlock => (225, 225, 225),
            Block::Ladder => (226, 226, 226),
            Block::Blackstone => (227, 227, 227),
            Block::WaterF3 => (10, 10, 10),
            Block::WaterF2 => (10, 10, 10),
            Block::WaterF1 => (10, 10, 10),
            Block::LavaF2 => (90, 90, 90),
            Block::LavaF1 => (90, 90, 90),
        }
    }

    /// Tile used for the hotbar/inventory icon.
    pub fn icon_tile(self) -> (r: u16)
        ensures
            r == spec_icon_tile(self),
    {
        match self {
            Block::Grass => 1,
            Block::Snow => 13,
            Block::Log => 6,
            Block::BirchLog => 51,
            Block::CraftingTable => 45,
            Block::Furnace => 46,
            Block::Chest => 48,
            Block::Cactus => 52,
            Block::Tnt => 83,
            _ => self.tiles().0,
        }
    }

    pub fn name(self) -> (r: &'static str)
        ensures
            r@ == spec_block_name(self),
    {
        match self {
            Block::Air => "Air",
            Block::Grass => "Grass",
            Block::Dirt => "Dirt",
            Block::Stone => "Stone",
            Block::Cobblestone => "Cobblestone",
            Block::Sand => "Sand",
            Block::Log => "Oak Log",
            Block::Leaves => "Leaves",
            Block::Planks => "Planks",
            Block::Water => "Water",
            Block::Glass => "Glass",
            Block::Snow => "Snow",
            Block::CoalOre => "Coal Ore",
            Block::IronOre => "Iron Ore",
            Block::Gravel => "Gravel",
            Block::Bedrock => "Bedrock",
            Block::CraftingTable => "Crafting Table",
            Block::Furnace => "Furnace",
            Block::Chest => "Chest",
            Block::Torch => "Torch",
            Block::Sapling => "Sapling",
            Block::FlowerRed => "Poppy",
            Block::FlowerYellow => "Dandelion",
            Block::TallGrass => "Tall Grass",
            Block::Cactus => "Cactus",
            Block::BirchLog => "Birch Log",
            Block::Wool => "Wool",
            Block::Bed => "Bed",
            Block::RedstoneOre => "Redstone Ore",
            Block::RedstoneWire => "Redstone Wire",
            Block::Lever => "Lever",
            Block::LeverOn => "Lever (on)",
            Block::RedstoneTorch => "Redstone Torch",
            Block::RedstoneLamp => "Redstone Lamp",
            Block::Tnt => "TNT",
            Block::Obsidian => "Obsidian",
            Block::Netherrack => "Netherrack",
            Block::Glowstone => "Glowstone",
            Block::EndStone => "End Stone",
            Block::Portal => "Nether Portal",
            Block::EndPortal => "End Portal",
            Block::Lava => "Lava",
            Block::EnchantTable => "Enchanting Table",
            Block::Repeater => "Redstone Repeater",
            Block::RepeaterOn => "Redstone Repeater (on)",
            Block::Door => "Door",
            Block::DoorOpen => "Door (open)",
            Block::Farmland => "Farmland",
            Block::Wheat1 => "Wheat Crop",
            Block::Wheat2 => "Wheat Crop",
            Block::Wheat3 => "Wheat Crop",
            Block::GoldOre => "Gold Ore",
            Block::DiamondOre => "Diamond Ore",
            Block::NetherBrick => "Nether Brick",
            Block::BrewingStand => "Brewing Stand",
            Block::Hopper => "Hopper",
            Block::Dispenser => "Dispenser",
            Block::Observer => "Observer",
            Block::SculkSensor => "Sculk Sensor",
            Block::JungleLog => "Jungle Log",
            Block::Deepslate => "Deepslate",
            Block::CopperOre => "Copper Ore",
            Block::Amethyst => "Amethyst Block",
            Block::SlimeBlock => "Slime Block",
            Block::CherryLog => "Cherry Log",
            Block::CherryLeaves => "Cherry Leaves",
            Block::CrimsonStem => "Crimson Stem",
            Block::Shroomlight => "Shroomlight",
            Block::Anvil => "Anvil",
            Block::Comparator => "Comparator",
            Block::Sandstone => "Sandstone",
            Block::Smoker => "Smoker",
            Block::BlastFurnace => "Blast Furnace",
            Block::Grindstone => "Grindstone",
            Block::SmithingTable => "Smithing Table",
            Block::Composter => "Composter",
            Block::SugarCane => "Sugar Cane",
            Block::Painting => "Painting",
            Block::Spawner => "Monster Spawner",
            Block::Cauldron => "Cauldron",
            Block::ItemFrame => "Item Frame",
            Block::SculkBlock => "Sculk",
            Block::Ladder => "Ladder",
            Block::Blackstone => "Blackstone",
            Block::WaterF3 => "Flowing Water",
            Block::WaterF2 => "Flowing Water",
            Block::WaterF1 => "Flowing Water",
            Block::LavaF2 => "Flowing Lava",
            Block::LavaF1 => "Flowing Lava",
        }
    }
}

/// Block ids are a bijection between the block kinds and `0..BLOCK_COUNT`:
/// reading back the id of a block gives the same block, and every id in
/// range names the block whose id it is.
pub proof fn lemma_block_id_roundtrip(b: Block, id: u8)
    ensures
        block_from_id(block_id(b)) == b,
        block_id(b) < BLOCK_COUNT,
        id < BLOCK_COUNT ==> block_id(block_from_id(id)) == id,
{
}

/// Whether the face of block `me` toward `neighbor` is drawn: not between
/// two waters or two lavas, and not against an opaque block or another
/// block of the same kind.
pub open spec fn spec_face_visible(me: Block, neighbor: Block) -> bool {
    if spec_is_water(me) && spec_is_water(neighbor) {
        false
    } else if spec_is_lava(me) && spec_is_lava(neighbor) {
        false
    } else {
        !spec_is_opaque(neighbor) && me != neighbor
    }
}

pub fn face_visible(me: Block, neighbor: Block) -> (r: bool)
    ensures
        r == spec_face_visible(me, neighbor),
{
    if me.is_water() && neighbor.is_water() {
        return false;
    }
    if me.is_lava() && neighbor.is_lava() {
        return false;
    }
    !neighbor.is_opaque() && me != neighbor
}



/// Length, first two and last characters of a display name: enough to
/// tell the block names apart.
pub open spec fn block_name_key(s: Seq<char>) -> (int, char, char, char) {
    (s.len() as int, s[0], s[1], s[s.len() - 1])
}

/// The block a name key belongs to (the first of blocks sharing a name).
pub open spec fn block_of_name_key(k: (int, char, char, char)) -> Block {
    if k == (3int, 'A', 'i', 'r') {
        Block::Air
    } else if k == (5int, 'G', 'r', 's') {
        Block::Grass
    } else if k == (4int, 'D', 'i', 't') {
        Block::Dirt
    } else if k == (5int, 'S', 't', 'e') {
        Block::Stone
    } else if k == (11int, 'C', 'o', 'e') {
        Block::Cobblestone
    } else if k == (4int, 'S', 'a', 'd') {
        Block::Sand
    } else if k == (7int, 'O', 'a', 'g') {
        Block::Log
    } else if k == (6int, 'L', 'e', 's') {
        Block::Leaves
    } else if k == (6int, 'P', 'l', 's') {
        Block::Planks
    } else if k == (5int, 'W', 'a', 'r') {
        Block::Water
    } else if k == (5int, 'G', 'l', 's') {
        Block::Glass
    } else if k == (4int, 'S', 'n', 'w') {
        Block::Snow
    } else if k == (8int, 'C', 'o', 'e') {
        Block::CoalOre
    } else if k == (8int, 'I', 'r', 'e') {
        Block::IronOre
    } else if k == (6int, 'G', 'r', 'l') {
        Block::Gravel
    } else if k == (7int, 'B', 'e', 'k') {
        Block::Bedrock
    } else if k == (14int, 'C', 'r', 'e') {
        Block::CraftingTable
    } else if k == (7int, 'F', 'u', 'e') {
        Block::Furnace
    } else if k == (5int, 'C', 'h', 't') {
        Block::Chest
    } else if k == (5int, 'T', 'o', 'h') {
        Block::Torch
    } else if k == (7int, 'S', 'a', 'g') {
        Block::Sapling
    } else if k == (5int, 'P', 'o', 'y') {
        Block::FlowerRed
    } else if k == (9int, 'D', 'a', 'n') {
        Block::FlowerYellow
    } else if k == (10int, 'T', 'a', 's') {
        Block::TallGrass
    } else if k == (6int, 'C', 'a', 's') {
        Block::Cactus
    } else if k == (9int, 'B', 'i', 'g') {
        Block::BirchLog
    } else if k == (4int, 'W', 'o', 'l') {
        Block::Wool
    } else if k == (3int, 'B', 'e', 'd') {
        Block::Bed
    } else if k == (12int, 'R', 'e', 'e') {
        Block::RedstoneOre
    } else if k == (13int, 'R', 'e', 'e') {
        Block::RedstoneWire
    } else if k == (5int, 'L', 'e', 'r') {
        Block::Lever
    } else if k == (10int, 'L', 'e', ')') {
        Block::LeverOn
    } else if k == (14int, 'R', 'e', 'h') {
        Block::RedstoneTorch
    } else if k == (13int, 'R', 'e', 'p') {
        Block::RedstoneLamp
    } else if k == (3int, 'T', 'N', 'T') {
        Block::Tnt
    } else if k == (8int, 'O', 'b', 'n') {
        Block::Obsidian
    } else if k == (10int, 'N', 'e', 'k') {
        Block::Netherrack
    } else if k == (9int, 'G', 'l', 'e') {
        Block::Glowstone
    } else if k == (9int, 'E', 'n', 'e') {
        Block::EndStone
    } else if k == (13int, 'N', 'e', 'l') {
        Block::Portal
    } else if k == (10int, 'E', 'n', 'l') {
        Block::EndPortal
    } else if k == (4int, 'L', 'a', 'a') {
        Block::Lava
    } else if k == (16int, 'E', 'n', 'e') {
        Block::EnchantTable
    } else if k == (17int, 'R', 'e', 'r') {
        Block::Repeater
    } else if k == (22int, 'R', 'e', ')') {
        Block::RepeaterOn
    } else if k == (4int, 'D', 'o', 'r') {
        Block::Door
    } else if k == (11int, 'D', 'o', ')') {
        Block::DoorOpen
    } else if k == (8int, 'F', 'a', 'd') {
        Block::Farmland
    } else if k == (10int, 'W', 'h', 'p') {
        Block::Wheat1
    } else if k == (8int, 'G', 'o', 'e') {
        Block::GoldOre
    } else if k == (11int, 'D', 'i', 'e') {
        Block::DiamondOre
    } else if k == (12int, 'N', 'e', 'k') {
        Block::NetherBrick
    } else if k == (13int, 'B', 'r', 'd') {
        Block::BrewingStand
    } else if k == (6int, 'H', 'o', 'r') {
        Block::Hopper
    } else if k == (9int, 'D', 'i', 'r') {
        Block::Dispenser
    } else if k == (8int, 'O', 'b', 'r') {
        Block::Observer
    } else if k == (12int, 'S', 'c', 'r') {
        Block::SculkSensor
    } else if k == (10int, 'J', 'u', 'g') {
        Block::JungleLog
    } else if k == (9int, 'D', 'e', 'e') {
        Block::Deepslate
    } else if k == (10int, 'C', 'o', 'e') {
        Block::CopperOre
    } else if k == (14int, 'A', 'm', 'k') {
        Block::Amethyst
    } else if k == (11int, 'S', 'l', 'k') {
        Block::SlimeBlock
    } else if k == (10int, 'C', 'h', 'g') {
        Block::CherryLog
    } else if k == (13int, 'C', 'h', 's') {
        Block::CherryLeaves
    } else if k == (12int, 'C', 'r', 'm') {
        Block::CrimsonStem
    } else if k == (11int, 'S', 'h', 't') {
        Block::Shroomlight
    } else if k == (5int, 'A', 'n', 'l') {
        Block::Anvil
    } else if k == (10int, 'C', 'o', 'r') {
        Block::Comparator
    } else if k == (9int, 'S', 'a', 'e') {
        Block::Sandstone
    } else if k == (6int, 'S', 'm', 'r') {
        Block::Smoker
    } else if k == (13int, 'B', 'l', 'e') {
        Block::BlastFurnace
    } else if k == (10int, 'G', 'r', 'e') {
        Block::Grindstone
    } else if k == (14int, 'S', 'm', 'e') {
        Block::SmithingTable
    } else if k == (9int, 'C', 'o', 'r') {
        Block::Composter
    } else if k == (10int, 'S', 'u', 'e') {
        Block::SugarCane
    } else if k == (8int, 'P', 'a', 'g') {
        Block::Painting
    } else if k == (15int, 'M', 'o', 'r') {
        Block::Spawner
    } else if k == (8int, 'C', 'a', 'n') {
        Block::Cauldron
    } else if k == (10int, 'I', 't', 'e') {
        Block::ItemFrame
    } else if k == (5int, 'S', 'c', 'k') {
        Block::SculkBlock
    } else if k == (6int, 'L', 'a', 'r') {
        Block::Ladder
    } else if k == (10int, 'B', 'l', 'e') {
        Block::Blackstone
    } else if k == (13int, 'F', 'l', 'r') {
        Block::WaterF3
    } else {
        Block::LavaF2
    }
}

/// Blocks that share their display name with other blocks: wheat growth
/// stages and the flow levels of water and of lava.
pub open spec fn name_group(b: Block) -> Block {
    match b {
        Block::Wheat2 | Block::Wheat3 => Block::Wheat1,
        Block::WaterF2 | Block::WaterF1 => Block::WaterF3,
        Block::LavaF1 => Block::LavaF2,
        _ => b,
    }
}

proof fn lemma_block_name_key(b: Block)
    ensures
        block_of_name_key(block_name_key(spec_block_name(b))) == name_group(b),
        spec_block_name(b).len() > 0,
{
    match b {
        Block::Air => {
            reveal_strlit("Air");
        },
        Block::Grass => {
            reveal_strlit("Grass");
        },
        Block::Dirt => {
            reveal_strlit("Dirt");
        },
        Block::Stone => {
            reveal_strlit("Stone");
        },
        Block::Cobblestone => {
            reveal_strlit("Cobblestone");
        },
        Block::Sand => {
            reveal_strlit("Sand");
        },
        Block::Log => {
            reveal_strlit("Oak Log");
        },
        Block::Leaves => {
            reveal_strlit("Leaves");
        },
        Block::Planks => {
            reveal_strlit("Planks");
        },
        Block::Water => {
            reveal_strlit("Water");
        },
        Block::Glass => {
            reveal_strlit("Glass");
        },
        Block::Snow => {
            reveal_strlit("Snow");
        },
        Block::CoalOre => {
            reveal_strlit("Coal Ore");
        },
        Block::IronOre => {
            reveal_strlit("Iron Ore");
        },
        Block::Gravel => {
            reveal_strlit("Gravel");
        },
        Block::Bedrock => {
            reveal_strlit("Bedrock");
        },
        Block::CraftingTable => {
            reveal_strlit("Crafting Table");
        },
        Block::Furnace => {
            reveal_strlit("Furnace");
        },
        Block::Chest => {
            reveal_strlit("Chest");
        },
        Block::Torch => {
            reveal_strlit("Torch");
        },
        Block::Sapling => {
            reveal_strlit("Sapling");
        },
        Block::FlowerRed => {
            reveal_strlit("Poppy");
        },
        Block::FlowerYellow => {
            reveal_strlit("Dandelion");
        },
        Block::TallGrass => {
            reveal_strlit("Tall Grass");
        },
        Block::Cactus => {
            reveal_strlit("Cactus");
        },
        Block::BirchLog => {
            reveal_strlit("Birch Log");
        },
        Block::Wool => {
            reveal_strlit("Wool");
        },
        Block::Bed => {
            reveal_strlit("Bed");
        },
        Block::RedstoneOre => {
            reveal_strlit("Redstone Ore");
        },
        Block::RedstoneWire => {
            reveal_strlit("Redstone Wire");
        },
        Block::Lever => {
            reveal_strlit("Lever");
        },
        Block::LeverOn => {
            reveal_strlit("Lever (on)");
        },
        Block::RedstoneTorch => {
            reveal_strlit("Redstone Torch");
        },
        Block::RedstoneLamp => {
            reveal_strlit("Redstone Lamp");
        },
        Block::Tnt => {
            reveal_strlit("TNT");
        },
        Block::Obsidian => {
            reveal_strlit("Obsidian");
        },
        Block::Netherrack => {
            reveal_strlit("Netherrack");
        },
        Block::Glowstone => {
            reveal_strlit("Glowstone");
        },
        Block::EndStone => {
            reveal_strlit("End Stone");
        },
        Block::Portal => {
            reveal_strlit("Nether Portal");
        },
        Block::EndPortal => {
            reveal_strlit("End Portal");
        },
        Block::Lava => {
            reveal_strlit("Lava");
        },
        Block::EnchantTable => {
            reveal_strlit("Enchanting Table");
        },
        Block::Repeater => {
            reveal_strlit("Redstone Repeater");
        },
        Block::RepeaterOn => {
            reveal_strlit("Redstone Repeater (on)");
        },
        Block::Door => {
            reveal_strlit("Door");
        },
        Block::DoorOpen => {
            reveal_strlit("Door (open)");
        },
        Block::Farmland => {
            reveal_strlit("Farmland");
        },
        Block::Wheat1 => {
            reveal_strlit("Wheat Crop");
        },
        Block::Wheat2 => {
            reveal_strlit("Wheat Crop");
        },
        Block::Wheat3 => {
            reveal_strlit("Wheat Crop");
        },
        Block::GoldOre => {
            reveal_strlit("Gold Ore");
        },
        Block::DiamondOre => {
            reveal_strlit("Diamond Ore");
        },
        Block::NetherBrick => {
            reveal_strlit("Nether Brick");
        },
        Block::BrewingStand => {
            reveal_strlit("Brewing Stand");
        },
        Block::Hopper => {
            reveal_strlit("Hopper");
        },
        Block::Dispenser => {
            reveal_strlit("Dispenser");
        },
        Block::Observer => {
            reveal_strlit("Observer");
        },
        Block::SculkSensor => {
            reveal_strlit("Sculk Sensor");
        },
        Block::JungleLog => {
            reveal_strlit("Jungle Log");
        },
        Block::Deepslate => {
            reveal_strlit("Deepslate");
        },
        Block::CopperOre => {
            reveal_strlit("Copper Ore");
        },
        Block::Amethyst => {
            reveal_strlit("Amethyst Block");
        },
        Block::SlimeBlock => {
            reveal_strlit("Slime Block");
        },
        Block::CherryLog => {
            reveal_strlit("Cherry Log");
        },
        Block::CherryLeaves => {
            reveal_strlit("Cherry Leaves");
        },
        Block::CrimsonStem => {
            reveal_strlit("Crimson Stem");
        },
        Block::Shroomlight => {
            reveal_strlit("Shroomlight");
        },
        Block::Anvil => {
            reveal_strlit("Anvil");
        },
        Block::Comparator => {
            reveal_strlit("Comparator");
        },
        Block::Sandstone => {
            reveal_strlit("Sandstone");
        },
        Block::Smoker => {
            reveal_strlit("Smoker");
        },
        Block::BlastFurnace => {
            reveal_strlit("Blast Furnace");
        },
        Block::Grindstone => {
            reveal_strlit("Grindstone");
        },
        Block::SmithingTable => {
            reveal_strlit("Smithing Table");
        },
        Block::Composter => {
            reveal_strlit("Composter");
        },
        Block::SugarCane => {
            reveal_strlit("Sugar Cane");
        },
        Block::Painting => {
            reveal_strlit("Painting");
        },
        Block::Spawner => {
            reveal_strlit("Monster Spawner");
        },
        Block::Cauldron => {
            reveal_strlit("Cauldron");
        },
        Block::ItemFrame => {
            reveal_strlit("Item Frame");
        },
        Block::SculkBlock => {
            reveal_strlit("Sculk");
        },
        Block::Ladder => {
            reveal_strlit("Ladder");
        },
        Block::Blackstone => {
            reveal_strlit("Blackstone");
        },
        Block::WaterF3 => {
            reveal_strlit("Flowing Water");
        },
        Block::WaterF2 => {
            reveal_strlit("Flowing Water");
        },
        Block::WaterF1 => {
            reveal_strlit("Flowing Water");
        },
        Block::LavaF2 => {
            reveal_strlit("Flowing Lava");
        },
        Block::LavaF1 => {
            reveal_strlit("Flowing Lava");
        },
    }
}

/// Every block has a non-empty display name, and two different blocks share
/// one only when both are wheat growth stages, both flowing water or both
/// flowing lava.
pub proof fn lemma_block_names_distinct(a: Block, b: Block)
    ensures
        spec_block_name(a).len() > 0,
        a != b && spec_block_name(a) == spec_block_name(b) ==> {
            ||| (a == Block::Wheat1 || a == Block::Wheat2 || a == Block::Wheat3) && (b == Block::Wheat1 || b
                == Block::Wheat2 || b == Block::Wheat3)
            ||| (a == Block::WaterF3 || a == Block::WaterF2 || a == Block::WaterF1) && (b == Block::WaterF3 || b
                == Block::WaterF2 || b == Block::WaterF1)
            ||| (a == Block::LavaF2 || a == Block::LavaF1) && (b == Block::LavaF2 || b == Block::LavaF1)
        },
{
    lemma_block_name_key(a);
    lemma_block_name_key(b);
}

} // verus!
