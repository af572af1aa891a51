//! Items, item stacks, tools, drops, and the enchantment tables.

use vstd::prelude::*;
use crate::blocks;
use crate::blocks::{Block, ToolClass, BLOCK_COUNT};

verus! {

/// Anything that can sit in an inventory slot: a placeable block or one of
/// the non-block items.
#[derive(Clone, Copy, PartialEq, Eq, Debug, Structural)]
pub enum Item {
    Block(Block),
    Stick,
    Coal,
    RawIron,
    IronIngot,
    WoodPickaxe,
    StonePickaxe,
    IronPickaxe,
    WoodAxe,
    StoneAxe,
    IronAxe,
    WoodShovel,
    StoneShovel,
    IronShovel,
    WoodSword,
    StoneSword,
    IronSword,
    Apple,
    Porkchop,
    CookedPorkchop,
    Beef,
    Steak,
    RedstoneDust,
    Gunpowder,
    Flint,
    FlintAndSteel,
    EnderPearl,
    Emerald,
    String,
    Feather,
    Bow,
    Arrow,
    WoodHoe,
    StoneHoe,
    IronHoe,
    Seeds,
    Wheat,
    Bread,
    RawChicken,
    CookedChicken,
    Leather,
    LeatherHelmet,
    LeatherChest,
    LeatherLegs,
    LeatherBoots,
    IronHelmet,
    IronChest,
    IronLegs,
    IronBoots,
    RawGold,
    GoldIngot,
    Diamond,
    GoldPickaxe,
    GoldAxe,
    GoldShovel,
    GoldSword,
    DiamondPickaxe,
    DiamondAxe,
    DiamondShovel,
    DiamondSword,
    DiamondHelmet,
    DiamondChest,
    DiamondLegs,
    DiamondBoots,
    Shield,
    Crossbow,
    GoldenApple,
    Bucket,
    WaterBucket,
    LavaBucket,
    GlassBottle,
    PotionHealing,
    PotionSwiftness,
    PotionStrength,
    Elytra,
    RawCopper,
    CopperIngot,
    AmethystShard,
    FishingRod,
    Fish,
    CookedFish,
    Bone,
    Bonemeal,
    Paper,
    Book,
    EnchantedBook,
    TippedArrow,
    SpectralArrow,
    Lead,
    MapItem,
    PotionRegen,
}

/// A stack of items in a slot, with its enchantment and wear.
#[derive(Clone, Copy, PartialEq, Eq, Debug, Structural)]
pub struct ItemStack {
    pub item: Item,
    pub count: u32,
    /// Enchantment level 0-5.
    pub ench: u8,
    /// Enchantment kind index (see `enchants_for`).
    pub ench_kind: u8,
    /// Durability points used (breaks at the item's max).
    pub dura: u16,
}

#[derive(Clone, Copy, PartialEq, Eq, Debug, Structural)]
pub enum ToolTier {
    Wood,
    Stone,
    Iron,
    Gold,
    Diamond,
}

/// Number of non-block items; their ids are `256..256 + NON_BLOCK_COUNT`.
pub const NON_BLOCK_COUNT: u16 = 90;

/// Position of a non-block item in the non-block id order.
pub open spec fn non_block_index(i: Item) -> int {
    match i {
        Item::Block(_) => -1,
        Item::Stick => 0,
        Item::Coal => 1,
        Item::RawIron => 2,
        Item::IronIngot => 3,
        Item::WoodPickaxe => 4,
        Item::StonePickaxe => 5,
        Item::IronPickaxe => 6,
        Item::WoodAxe => 7,
        Item::StoneAxe => 8,
        Item::IronAxe => 9,
        Item::WoodShovel => 10,
        Item::StoneShovel => 11,
        Item::IronShovel => 12,
        Item::WoodSword => 13,
        Item::StoneSword => 14,
        Item::IronSword => 15,
        Item::Apple => 16,
        Item::Porkchop => 17,
        Item::CookedPorkchop => 18,
        Item::Beef => 19,
        Item::Steak => 20,
        Item::RedstoneDust => 21,
        Item::Gunpowder => 22,
        Item::Flint => 23,
        Item::FlintAndSteel => 24,
        Item::EnderPearl => 25,
        Item::Emerald => 26,
        Item::String => 27,
        Item::Feather => 28,
        Item::Bow => 29,
        Item::Arrow => 30,
        Item::WoodHoe => 31,
        Item::StoneHoe => 32,
        Item::IronHoe => 33,
        Item::Seeds => 34,
        Item::Wheat => 35,
        Item::Bread => 36,
        Item::RawChicken => 37,
        Item::CookedChicken => 38,
        Item::Leather => 39,
        Item::LeatherHelmet => 40,
        Item::LeatherChest => 41,
        Item::LeatherLegs => 42,
        Item::LeatherBoots => 43,
        Item::IronHelmet => 44,
        Item::IronChest => 45,
        Item::IronLegs => 46,
        Item::IronBoots => 47,
        Item::RawGold => 48,
        Item::GoldIngot => 49,
        Item::Diamond => 50,
        Item::GoldPickaxe => 51,
        Item::GoldAxe => 52,
        Item::GoldShovel => 53,
        Item::GoldSword => 54,
        Item::DiamondPickaxe => 55,
        Item::DiamondAxe => 56,
        Item::DiamondShovel => 57,
        Item::DiamondSword => 58,
        Item::DiamondHelmet => 59,
        Item::DiamondChest => 60,
        Item::DiamondLegs => 61,
        Item::DiamondBoots => 62,
        Item::Shield => 63,
        Item::Crossbow => 64,
        Item::GoldenApple => 65,
        Item::Bucket => 66,
        Item::WaterBucket => 67,
        Item::LavaBucket => 68,
        Item::GlassBottle => 69,
        Item::PotionHealing => 70,
        Item::PotionSwiftness => 71,
        Item::PotionStrength => 72,
        Item::Elytra => 73,
        Item::RawCopper => 74,
        Item::CopperIngot => 75,
        Item::AmethystShard => 76,
        Item::FishingRod => 77,
        Item::Fish => 78,
        Item::CookedFish => 79,
        Item::Bone => 80,
        Item::Bonemeal => 81,
        Item::Paper => 82,
        Item::Book => 83,
        Item::EnchantedBook => 84,
        Item::TippedArrow => 85,
        Item::SpectralArrow => 86,
        Item::Lead => 87,
        Item::MapItem => 88,
        Item::PotionRegen => 89,
    }
}

/// The non-block item at a position of the non-block id order.
pub open spec fn non_block_at(k: u16) -> Item {
    match k {
        0 => Item::Stick,
        1 => Item::Coal,
        2 => Item::RawIron,
        3 => Item::IronIngot,
        4 => Item::WoodPickaxe,
        5 => Item::StonePickaxe,
        6 => Item::IronPickaxe,
        7 => Item::WoodAxe,
        8 => Item::StoneAxe,
        9 => Item::IronAxe,
        10 => Item::WoodShovel,
        11 => Item::StoneShovel,
        12 => Item::IronShovel,
        13 => Item::WoodSword,
        14 => Item::StoneSword,
        15 => Item::IronSword,
        16 => Item::Apple,
        17 => Item::Porkchop,
        18 => Item::CookedPorkchop,
        19 => Item::Beef,
        20 => Item::Steak,
        21 => Item::RedstoneDust,
        22 => Item::Gunpowder,
        23 => Item::Flint,
        24 => Item::FlintAndSteel,
        25 => Item::EnderPearl,
        26 => Item::Emerald,
        27 => Item::String,
        28 => Item::Feather,
        29 => Item::Bow,
        30 => Item::Arrow,
        31 => Item::WoodHoe,
        32 => Item::StoneHoe,
        33 => Item::IronHoe,
        34 => Item::Seeds,
        35 => Item::Wheat,
        36 => Item::Bread,
        37 => Item::RawChicken,
        38 => Item::CookedChicken,
        39 => Item::Leather,
        40 => Item::LeatherHelmet,
        41 => Item::LeatherChest,
        42 => Item::LeatherLegs,
        43 => Item::LeatherBoots,
        44 => Item::IronHelmet,
        45 => Item::IronChest,
        46 => Item::IronLegs,
        47 => Item::IronBoots,
        48 => Item::RawGold,
        49 => Item::GoldIngot,
        50 => Item::Diamond,
        51 => Item::GoldPickaxe,
        52 => Item::GoldAxe,
        53 => Item::GoldShovel,
        54 => Item::GoldSword,
        55 => Item::DiamondPickaxe,
        56 => Item::DiamondAxe,
        57 => Item::DiamondShovel,
        58 => Item::DiamondSword,
        59 => Item::DiamondHelmet,
        60 => Item::DiamondChest,
        61 => Item::DiamondLegs,
        62 => Item::DiamondBoots,
        63 => Item::Shield,
        64 => Item::Crossbow,
        65 => Item::GoldenApple,
        66 => Item::Bucket,
        67 => Item::WaterBucket,
        68 => Item::LavaBucket,
        69 => Item::GlassBottle,
        70 => Item::PotionHealing,
        71 => Item::PotionSwiftness,
        72 => Item::PotionStrength,
        73 => Item::Elytra,
        74 => Item::RawCopper,
        75 => Item::CopperIngot,
        76 => Item::AmethystShard,
        77 => Item::FishingRod,
        78 => Item::Fish,
        79 => Item::CookedFish,
        80 => Item::Bone,
        81 => Item::Bonemeal,
        82 => Item::Paper,
        83 => Item::Book,
        84 => Item::EnchantedBook,
        85 => Item::TippedArrow,
        86 => Item::SpectralArrow,
        87 => Item::Lead,
        88 => Item::MapItem,
        89 => Item::PotionRegen,
        _ => Item::Stick,
    }
}

/// Item ids: a block's id for block items, 256 plus the position in the
/// non-block order for the rest.
pub open spec fn item_id(i: Item) -> u16 {
    match i {
        Item::Block(b) => blocks::block_id(b) as u16,
        _ => (256 + non_block_index(i)) as u16,
    }
}

/// The item with a given id: ids below 256 name blocks (unknown ones read
/// as air), ids past the last non-block item read as a stick.
pub open spec fn item_from_id(id: u16) -> Item {
    if id < 256 {
        Item::Block(blocks::block_from_id(id as u8))
    } else if id < 256 + NON_BLOCK_COUNT {
        non_block_at((id - 256) as u16)
    } else {
        Item::Stick
    }
}

/// A fresh stack: no enchantment, no wear.
pub open spec fn new_stack(item: Item, count: u32) -> ItemStack {
    ItemStack { item, count, ench: 0, ench_kind: 0, dura: 0 }
}

/// Maximum durability for tools/weapons/armor (none = unbreakable).
pub open spec fn spec_max_durability(i: Item) -> Option<u16> {
    match i {
        Item::WoodPickaxe | Item::WoodAxe | Item::WoodShovel | Item::WoodSword | Item::WoodHoe => Some(60),
        Item::StonePickaxe | Item::StoneAxe | Item::StoneShovel | Item::StoneSword | Item::StoneHoe => Some(132),
        Item::IronPickaxe | Item::IronAxe | Item::IronShovel | Item::IronSword | Item::IronHoe => Some(251),
        Item::GoldPickaxe | Item::GoldAxe | Item::GoldShovel | Item::GoldSword => Some(33),
        Item::DiamondPickaxe | Item::DiamondAxe | Item::DiamondShovel | Item::DiamondSword => Some(800),
        Item::Bow => Some(120),
        Item::Crossbow => Some(180),
        Item::FishingRod => Some(64),
        Item::Shield => Some(160),
        Item::Elytra => Some(300),
        Item::FlintAndSteel => Some(65),
        Item::LeatherHelmet | Item::LeatherChest | Item::LeatherLegs | Item::LeatherBoots => Some(80),
        Item::IronHelmet | Item::IronChest | Item::IronLegs | Item::IronBoots => Some(190),
        Item::DiamondHelmet | Item::DiamondChest | Item::DiamondLegs | Item::DiamondBoots => Some(420),
        _ => None,
    }
}

/// Largest stack a slot holds: one for items that wear, 64 otherwise.
pub open spec fn spec_max_stack(i: Item) -> u32 {
    if spec_max_durability(i) is Some { 1 } else { 64 }
}

pub open spec fn spec_item_icon_tile(i: Item) -> u16 {
    match i {
        Item::Block(b) => blocks::spec_icon_tile(b),
        Item::Stick => 23,
        Item::Coal => 24,
        Item::RawIron => 25,
        Item::IronIngot => 26,
        Item::WoodPickaxe => 27,
        Item::StonePickaxe => 28,
        Item::IronPickaxe => 29,
        Item::WoodAxe => 30,
        Item::StoneAxe => 31,
        Item::IronAxe => 32,
        Item::WoodShovel => 33,
        Item::StoneShovel => 34,
        Item::IronShovel => 35,
        Item::WoodSword => 36,
        Item::StoneSword => 37,
        Item::IronSword => 38,
        Item::Apple => 39,
        Item::Porkchop => 40,
        Item::CookedPorkchop => 41,
        Item::Beef => 42,
        Item::Steak => 43,
        Item::RedstoneDust => 91,
        Item::Gunpowder => 92,
        Item::Flint => 93,
        Item::FlintAndSteel => 94,
        Item::EnderPearl => 95,
        Item::Emerald => 96,
        Item::String => 112,
        Item::Feather => 113,
        Item::Bow => 114,
        Item::Arrow => 115,
        Item::WoodHoe => 127,
        Item::StoneHoe => 128,
        Item::IronHoe => 129,
        Item::Seeds => 125,
        Item::Wheat => 124,
        Item::Bread => 126,
        Item::RawChicken => 140,
        Item::CookedChicken => 141,
        Item::Leather => 142,
        Item::LeatherHelmet => 116,
        Item::LeatherChest => 118,
        Item::LeatherLegs => 120,
        Item::LeatherBoots => 122,
        Item::IronHelmet => 117,
        Item::IronChest => 119,
        Item::IronLegs => 121,
        Item::IronBoots => 123,
        Item::RawGold => 153,
        Item::GoldIngot => 154,
        Item::Diamond => 155,
        Item::GoldPickaxe => 156,
        Item::GoldAxe => 157,
        Item::GoldShovel => 158,
        Item::GoldSword => 159,
        Item::DiamondPickaxe => 160,
        Item::DiamondAxe => 161,
        Item::DiamondShovel => 162,
        Item::DiamondSword => 163,
        Item::DiamondHelmet => 164,
        Item::DiamondChest => 165,
        Item::DiamondLegs => 166,
        Item::DiamondBoots => 167,
        Item::Shield => 168,
        Item::Crossbow => 169,
        Item::GoldenApple => 170,
        Item::Bucket => 171,
        Item::WaterBucket => 172,
        Item::LavaBucket => 173,
        Item::GlassBottle => 174,
        Item::PotionHealing => 175,
        Item::PotionSwiftness => 176,
        Item::PotionStrength => 177,
        Item::Elytra => 178,
        Item::RawCopper => 183,
        Item::CopperIngot => 183,
        Item::AmethystShard => 185,
        Item::FishingRod => 194,
        Item::Fish => 195,
        Item::CookedFish => 195,
        Item::Bone => 206,
        Item::Bonemeal => 207,
        Item::Paper => 218,
        Item::Book => 219,
        Item::EnchantedBook => 220,
        Item::TippedArrow => 224,
        Item::SpectralArrow => 228,
        Item::Lead => 229,
        Item::MapItem => 230,
        Item::PotionRegen => 231,
    }
}

/// Armor slot index (0 helm, 1 chest, 2 legs, 3 boots) when wearable.
pub open spec fn spec_armor_slot(i: Item) -> Option<usize> {
    match i {
        Item::LeatherHelmet | Item::IronHelmet | Item::DiamondHelmet => Some(0),
        Item::LeatherChest | Item::IronChest | Item::DiamondChest | Item::Elytra => Some(1),
        Item::LeatherLegs | Item::IronLegs | Item::DiamondLegs => Some(2),
        Item::LeatherBoots | Item::IronBoots | Item::DiamondBoots => Some(3),
        _ => None,
    }
}

pub open spec fn spec_item_name(i: Item) -> Seq<char> {
    match i {
        Item::Block(b) => blocks::spec_block_name(b),
        Item::Stick => "Stick"@,
        Item::Coal => "Coal"@,
        Item::RawIron => "Raw Iron"@,
        Item::IronIngot => "Iron Ingot"@,
        Item::WoodPickaxe => "Wooden Pickaxe"@,
        Item::StonePickaxe => "Stone Pickaxe"@,
        Item::IronPickaxe => "Iron Pickaxe"@,
        Item::WoodAxe => "Wooden Axe"@,
        Item::StoneAxe => "Stone Axe"@,
        Item::IronAxe => "Iron Axe"@,
        Item::WoodShovel => "Wooden Shovel"@,
        Item::StoneShovel => "Stone Shovel"@,
        Item::IronShovel => "Iron Shovel"@,
        Item::WoodSword => "Wooden Sword"@,
        Item::StoneSword => "Stone Sword"@,
        Item::IronSword => "Iron Sword"@,
        Item::Apple => "Apple"@,
        Item::Porkchop => "Raw Porkchop"@,
        Item::CookedPorkchop => "Cooked Porkchop"@,
        Item::Beef => "Raw Beef"@,
        Item::Steak => "Steak"@,
        Item::RedstoneDust => "Redstone Dust"@,
        Item::Gunpowder => "Gunpowder"@,
        Item::Flint => "Flint"@,
        Item::FlintAndSteel => "Flint and Steel"@,
        Item::EnderPearl => "Ender Pearl"@,
        Item::Emerald => "Emerald"@,
        Item::String => "String"@,
        Item::Feather => "Feather"@,
        Item::Bow => "Bow"@,
        Item::Arrow => "Arrow"@,
        Item::WoodHoe => "Wooden Hoe"@,
        Item::StoneHoe => "Stone Hoe"@,
        Item::IronHoe => "Iron Hoe"@,
        Item::Seeds => "Wheat Seeds"@,
        Item::Wheat => "Wheat"@,
        Item::Bread => "Bread"@,
        Item::RawChicken => "Raw Chicken"@,
        Item::CookedChicken => "Cooked Chicken"@,
        Item::Leather => "Leather"@,
        Item::LeatherHelmet => "Leather Cap"@,
        Item::LeatherChest => "Leather Tunic"@,
        Item::LeatherLegs => "Leather Pants"@,
        Item::LeatherBoots => "Leather Boots"@,
        Item::IronHelmet => "Iron Helmet"@,
        Item::IronChest => "Iron Chestplate"@,
        Item::IronLegs => "Iron Leggings"@,
        Item::IronBoots => "Iron Boots"@,
        Item::RawGold => "Raw Gold"@,
        Item::GoldIngot => "Gold Ingot"@,
        Item::Diamond => "Diamond"@,
        Item::GoldPickaxe => "Golden Pickaxe"@,
        Item::GoldAxe => "Golden Axe"@,
        Item::GoldShovel => "Golden Shovel"@,
        Item::GoldSword => "Golden Sword"@,
        Item::DiamondPickaxe => "Diamond Pickaxe"@,
        Item::DiamondAxe => "Diamond Axe"@,
        Item::DiamondShovel => "Diamond Shovel"@,
        Item::DiamondSword => "Diamond Sword"@,
        Item::DiamondHelmet => "Diamond Helmet"@,
        Item::DiamondChest => "Diamond Chestplate"@,
        Item::DiamondLegs => "Diamond Leggings"@,
        Item::DiamondBoots => "Diamond Boots"@,
        Item::Shield => "Shield"@,
        Item::Crossbow => "Crossbow"@,
        Item::GoldenApple => "Golden Apple"@,
        Item::Bucket => "Bucket"@,
        Item::WaterBucket => "Water Bucket"@,
        Item::LavaBucket => "Lava Bucket"@,
        Item::GlassBottle => "Glass Bottle"@,
        Item::PotionHealing => "Potion of Healing"@,
        Item::PotionSwiftness => "Potion of Swiftness"@,
        Item::PotionStrength => "Potion of Strength"@,
        Item::Elytra => "Elytra"@,
        Item::RawCopper => "Raw Copper"@,
        Item::CopperIngot => "Copper Ingot"@,
        Item::AmethystShard => "Amethyst Shard"@,
        Item::FishingRod => "Fishing Rod"@,
        Item::Fish => "Raw Fish"@,
        Item::CookedFish => "Cooked Fish"@,
        Item::Bone => "Bone"@,
        Item::Bonemeal => "Bonemeal"@,
        Item::Paper => "Paper"@,
        Item::Book => "Book"@,
        Item::EnchantedBook => "Enchanted Book"@,
        Item::TippedArrow => "Tipped Arrow"@,
        Item::SpectralArrow => "Spectral Arrow"@,
        Item::Lead => "Lead"@,
        Item::MapItem => "Map"@,
        Item::PotionRegen => "Potion of Regeneration"@,
    }
}

/// (class, tier) when the item is a tool.
pub open spec fn spec_tool(i: Item) -> Option<(ToolClass, ToolTier)> {
    match i {
        Item::WoodPickaxe => Some((ToolClass::Pickaxe, ToolTier::Wood)),
        Item::StonePickaxe => Some((ToolClass::Pickaxe, ToolTier::Stone)),
        Item::IronPickaxe => Some((ToolClass::Pickaxe, ToolTier::Iron)),
        Item::WoodAxe => Some((ToolClass::Axe, ToolTier::Wood)),
        Item::StoneAxe => Some((ToolClass::Axe, ToolTier::Stone)),
        Item::IronAxe => Some((ToolClass::Axe, ToolTier::Iron)),
        Item::WoodShovel => Some((ToolClass::Shovel, ToolTier::Wood)),
        Item::StoneShovel => Some((ToolClass::Shovel, ToolTier::Stone)),
        Item::IronShovel => Some((ToolClass::Shovel, ToolTier::Iron)),
        Item::GoldPickaxe => Some((ToolClass::Pickaxe, ToolTier::Gold)),
        Item::GoldAxe => Some((ToolClass::Axe, ToolTier::Gold)),
        Item::GoldShovel => Some((ToolClass::Shovel, ToolTier::Gold)),
        Item::DiamondPickaxe => Some((ToolClass::Pickaxe, ToolTier::Diamond)),
        Item::DiamondAxe => Some((ToolClass::Axe, ToolTier::Diamond)),
        Item::DiamondShovel => Some((ToolClass::Shovel, ToolTier::Diamond)),
        Item::WoodHoe => Some((ToolClass::Hand, ToolTier::Wood)),
        Item::StoneHoe => Some((ToolClass::Hand, ToolTier::Stone)),
        Item::IronHoe => Some((ToolClass::Hand, ToolTier::Iron)),
        _ => None,
    }
}

/// What an item smelts into in a furnace.
pub open spec fn spec_smelt_result(i: Item) -> Option<Item> {
    match i {
        Item::RawIron => Some(Item::IronIngot),
        Item::Block(Block::IronOre) => Some(Item::IronIngot),
        Item::Block(Block::Sand) => Some(Item::Block(Block::Glass)),
        Item::Block(Block::Log) | Item::Block(Block::BirchLog) => Some(Item::Coal),
        Item::Block(Block::Cobblestone) => Some(Item::Block(Block::Stone)),
        Item::Porkchop => Some(Item::CookedPorkchop),
        Item::Beef => Some(Item::Steak),
        Item::RawChicken => Some(Item::CookedChicken),
        Item::RawGold => Some(Item::GoldIngot),
        Item::RawCopper => Some(Item::CopperIngot),
        Item::Fish => Some(Item::CookedFish),
        _ => None,
    }
}

impl Item {
    /// Wraps the item as a present grid cell.
    pub fn into_opt(self) -> (r: Option<Item>)
        ensures
            r == Some(self),
    {
        Some(self)
    }

    pub fn id(self) -> (r: u16)
        ensures
            r == item_id(self),
    {
        match self {
            Item::Block(b) => b.id() as u16,
            Item::Stick => 256,
            Item::Coal => 257,
            Item::RawIron => 258,
            Item::IronIngot => 259,
            Item::WoodPickaxe => 260,
            Item::StonePickaxe => 261,
            Item::IronPickaxe => 262,
            Item::WoodAxe => 263,
            Item::StoneAxe => 264,
            Item::IronAxe => 265,
            Item::WoodShovel => 266,
            Item::StoneShovel => 267,
            Item::IronShovel => 268,
            Item::WoodSword => 269,
            Item::StoneSword => 270,
            Item::IronSword => 271,
            Item::Apple => 272,
            Item::Porkchop => 273,
            Item::CookedPorkchop => 274,
            Item::Beef => 275,
            Item::Steak => 276,
            Item::RedstoneDust => 277,
            Item::Gunpowder => 278,
            Item::Flint => 279,
            Item::FlintAndSteel => 280,
            Item::EnderPearl => 281,
            Item::Emerald => 282,
            Item::String => 283,
            Item::Feather => 284,
            Item::Bow => 285,
            Item::Arrow => 286,
            Item::WoodHoe => 287,
            Item::StoneHoe => 288,
            Item::IronHoe => 289,
            Item::Seeds => 290,
            Item::Wheat => 291,
            Item::Bread => 292,
            Item::RawChicken => 293,
            Item::CookedChicken => 294,
            Item::Leather => 295,
            Item::LeatherHelmet => 296,
            Item::LeatherChest => 297,
            Item::LeatherLegs => 298,
            Item::LeatherBoots => 299,
            Item::IronHelmet => 300,
            Item::IronChest => 301,
            Item::IronLegs => 302,
            Item::IronBoots => 303,
            Item::RawGold => 304,
            Item::GoldIngot => 305,
            Item::Diamond => 306,
            Item::GoldPickaxe => 307,
            Item::GoldAxe => 308,
            Item::GoldShovel => 309,
            Item::GoldSword => 310,
            Item::DiamondPickaxe => 311,
            Item::DiamondAxe => 312,
            Item::DiamondShovel => 313,
            Item::DiamondSword => 314,
            Item::DiamondHelmet => 315,
            Item::DiamondChest => 316,
            Item::DiamondLegs => 317,
            Item::DiamondBoots => 318,
            Item::Shield => 319,
            Item::Crossbow => 320,
            Item::GoldenApple => 321,
            Item::Bucket => 322,
            Item::WaterBucket => 323,
            Item::LavaBucket => 324,
            Item::GlassBottle => 325,
            Item::PotionHealing => 326,
            Item::PotionSwiftness => 327,
            Item::PotionStrength => 328,
            Item::Elytra => 329,
            Item::RawCopper => 330,
            Item::CopperIngot => 331,
            Item::AmethystShard => 332,
            Item::FishingRod => 333,
            Item::Fish => 334,
            Item::CookedFish => 335,
            Item::Bone => 336,
            Item::Bonemeal => 337,
            Item::Paper => 338,
            Item::Book => 339,
            Item::EnchantedBook => 340,
            Item::TippedArrow => 341,
            Item::SpectralArrow => 342,
            Item::Lead => 343,
            Item::MapItem => 344,
            Item::PotionRegen => 345,
        }
    }

    pub fn from_id(id: u16) -> (r: Item)
        ensures
            r == item_from_id(id),
    {
        if id < 256 {
            Item::Block(Block::from_id(id as u8))
        } else {
            match id - 256 {
                0 => Item::Stick,
                1 => Item::Coal,
                2 => Item::RawIron,
                3 => Item::IronIngot,
                4 => Item::WoodPickaxe,
                5 => Item::StonePickaxe,
                6 => Item::IronPickaxe,
                7 => Item::WoodAxe,
                8 => Item::StoneAxe,
                9 => Item::IronAxe,
                10 => Item::WoodShovel,
                11 => Item::StoneShovel,
                12 => Item::IronShovel,
                13 => Item::WoodSword,
                14 => Item::StoneSword,
                15 => Item::IronSword,
                16 => Item::Apple,
                17 => Item::Porkchop,
                18 => Item::CookedPorkchop,
                19 => Item::Beef,
                20 => Item::Steak,
                21 => Item::RedstoneDust,
                22 => Item::Gunpowder,
                23 => Item::Flint,
                24 => Item::FlintAndSteel,
                25 => Item::EnderPearl,
                26 => Item::Emerald,
                27 => Item::String,
                28 => Item::Feather,
                29 => Item::Bow,
                30 => Item::Arrow,
                31 => Item::WoodHoe,
                32 => Item::StoneHoe,
                33 => Item::IronHoe,
                34 => Item::Seeds,
                35 => Item::Wheat,
                36 => Item::Bread,
                37 => Item::RawChicken,
                38 => Item::CookedChicken,
                39 => Item::Leather,
                40 => Item::LeatherHelmet,
                41 => Item::LeatherChest,
                42 => Item::LeatherLegs,
                43 => Item::LeatherBoots,
                44 => Item::IronHelmet,
                45 => Item::IronChest,
                46 => Item::IronLegs,
                47 => Item::IronBoots,
                48 => Item::RawGold,
                49 => Item::GoldIngot,
                50 => Item::Diamond,
                51 => Item::GoldPickaxe,
                52 => Item::GoldAxe,
                53 => Item::GoldShovel,
                54 => Item::GoldSword,
                55 => Item::DiamondPickaxe,
                56 => Item::DiamondAxe,
                57 => Item::DiamondShovel,
                58 => Item::DiamondSword,
                59 => Item::DiamondHelmet,
                60 => Item::DiamondChest,
                61 => Item::DiamondLegs,
                62 => Item::DiamondBoots,
                63 => Item::Shield,
                64 => Item::Crossbow,
                65 => Item::GoldenApple,
                66 => Item::Bucket,
                67 => Item::WaterBucket,
                68 => Item::LavaBucket,
                69 => Item::GlassBottle,
                70 => Item::PotionHealing,
                71 => Item::PotionSwiftness,
                72 => Item::PotionStrength,
                73 => Item::Elytra,
                74 => Item::RawCopper,
                75 => Item::CopperIngot,
                76 => Item::AmethystShard,
                77 => Item::FishingRod,
                78 => Item::Fish,
                79 => Item::CookedFish,
                80 => Item::Bone,
                81 => Item::Bonemeal,
                82 => Item::Paper,
                83 => Item::Book,
                84 => Item::EnchantedBook,
                85 => Item::TippedArrow,
                86 => Item::SpectralArrow,
                87 => Item::Lead,
                88 => Item::MapItem,
                89 => Item::PotionRegen,
                _ => Item::Stick,
            }
        }
    }

    pub fn max_stack(self) -> (r: u32)
        ensures
            r == spec_max_stack(self),
    {
        if self.max_durability().is_some() {
            1
        } else {
            64
        }
    }

    pub fn icon_tile(self) -> (r: u16)
        ensures
            r == spec_item_icon_tile(self),
    {
        match self {
            Item::Block(b) => b.icon_tile(),
            Item::Stick => 23,
            Item::Coal => 24,
            Item::RawIron => 25,
            Item::IronIngot => 26,
            Item::WoodPickaxe => 27,
            Item::StonePickaxe => 28,
            Item::IronPickaxe => 29,
            Item::WoodAxe => 30,
            Item::StoneAxe => 31,
            Item::IronAxe => 32,
            Item::WoodShovel => 33,
            Item::StoneShovel => 34,
            Item::IronShovel => 35,
            Item::WoodSword => 36,
            Item::StoneSword => 37,
            Item::IronSword => 38,
            Item::Apple => 39,
            Item::Porkchop => 40,
            Item::CookedPorkchop => 41,
            Item::Beef => 42,
            Item::Steak => 43,
            Item::RedstoneDust => 91,
            Item::Gunpowder => 92,
            Item::Flint => 93,
            Item::FlintAndSteel => 94,
            Item::EnderPearl => 95,
            Item::Emerald => 96,
            Item::String => 112,
            Item::Feather => 113,
            Item::Bow => 114,
            Item::Arrow => 115,
            Item::WoodHoe => 127,
            Item::StoneHoe => 128,
            Item::IronHoe => 129,
            Item::Seeds => 125,
            Item::Wheat => 124,
            Item::Bread => 126,
            Item::RawChicken => 140,
            Item::CookedChicken => 141,
            Item::Leather => 142,
            Item::LeatherHelmet => 116,
            Item::LeatherChest => 118,
            Item::LeatherLegs => 120,
            Item::LeatherBoots => 122,
            Item::IronHelmet => 117,
            Item::IronChest => 119,
            Item::IronLegs => 121,
            Item::IronBoots => 123,
            Item::RawGold => 153,
            Item::GoldIngot => 154,
            Item::Diamond => 155,
            Item::GoldPickaxe => 156,
            Item::GoldAxe => 157,
            Item::GoldShovel => 158,
            Item::GoldSword => 159,
            Item::DiamondPickaxe => 160,
            Item::DiamondAxe => 161,
            Item::DiamondShovel => 162,
            Item::DiamondSword => 163,
            Item::DiamondHelmet => 164,
            Item::DiamondChest => 165,
            Item::DiamondLegs => 166,
            Item::DiamondBoots => 167,
            Item::Shield => 168,
            Item::Crossbow => 169,
            Item::GoldenApple => 170,
            Item::Bucket => 171,
            Item::WaterBucket => 172,
            Item::LavaBucket => 173,
            Item::GlassBottle => 174,
            Item::PotionHealing => 175,
            Item::PotionSwiftness => 176,
            Item::PotionStrength => 177,
            Item::Elytra => 178,
            Item::RawCopper => 183,
            Item::CopperIngot => 183,
            Item::AmethystShard => 185,
            Item::FishingRod => 194,
            Item::Fish => 195,
            Item::CookedFish => 195,
            Item::Bone => 206,
            Item::Bonemeal => 207,
            Item::Paper => 218,
            Item::Book => 219,
            Item::EnchantedBook => 220,
            Item::TippedArrow => 224,
            Item::SpectralArrow => 228,
            Item::Lead => 229,
            Item::MapItem => 230,
            Item::PotionRegen => 231,
        }
    }

    /// Armor slot index (0 helm, 1 chest, 2 legs, 3 boots) when wearable.
    pub fn armor_slot(self) -> (r: Option<usize>)
        ensures
            r == spec_armor_slot(self),
    {
        match self {
            Item::LeatherHelmet | Item::IronHelmet | Item::DiamondHelmet => Some(0),
            Item::LeatherChest | Item::IronChest | Item::DiamondChest | Item::Elytra => Some(1),
            Item::LeatherLegs | Item::IronLegs | Item::DiamondLegs => Some(2),
            Item::LeatherBoots | Item::IronBoots | Item::DiamondBoots => Some(3),
            _ => None,
        }
    }

    /// Maximum durability for tools/weapons/armor (None = unbreakable).
    pub fn max_durability(self) -> (r: Option<u16>)
        ensures
            r == spec_max_durability(self),
    {
        match self {
            Item::WoodPickaxe | Item::WoodAxe | Item::WoodShovel | Item::WoodSword | Item::WoodHoe => Some(60),
            Item::StonePickaxe | Item::StoneAxe | Item::StoneShovel | Item::StoneSword | Item::StoneHoe => Some(132),
            Item::IronPickaxe | Item::IronAxe | Item::IronShovel | Item::IronSword | Item::IronHoe => Some(251),
            Item::GoldPickaxe | Item::GoldAxe | Item::GoldShovel | Item::GoldSword => Some(33),
            Item::DiamondPickaxe | Item::DiamondAxe | Item::DiamondShovel | Item::DiamondSword => Some(800),
            Item::Bow => Some(120),
            Item::Crossbow => Some(180),
            Item::FishingRod => Some(64),
            Item::Shield => Some(160),
            Item::Elytra => Some(300),
            Item::FlintAndSteel => Some(65),
            Item::LeatherHelmet | Item::LeatherChest | Item::LeatherLegs | Item::LeatherBoots => Some(80),
            Item::IronHelmet | Item::IronChest | Item::IronLegs | Item::IronBoots => Some(190),
            Item::DiamondHelmet | Item::DiamondChest | Item::DiamondLegs | Item::DiamondBoots => Some(420),
            _ => None,
        }
    }

    /// Block this item places (dust places wire).
    pub fn place_block(self) -> (r: Option<Block>)
        ensures
            r == (match self {
                Item::Block(b) => Some(b),
                Item::RedstoneDust => Some(Block::RedstoneWire),
                _ => None,
            }),
    {
        match self {
            Item::Block(b) => Some(b),
            Item::RedstoneDust => Some(Block::RedstoneWire),
            _ => None,
        }
    }

    pub fn name(self) -> (r: &'static str)
        ensures
            r@ == spec_item_name(self),
    {
        match self {
            Item::Block(b) => b.name(),
            Item::Stick => "Stick",
            Item::Coal => "Coal",
            Item::RawIron => "Raw Iron",
            Item::IronIngot => "Iron Ingot",
            Item::WoodPickaxe => "Wooden Pickaxe",
            Item::StonePickaxe => "Stone Pickaxe",
            Item::IronPickaxe => "Iron Pickaxe",
            Item::WoodAxe => "Wooden Axe",
            Item::StoneAxe => "Stone Axe",
            Item::IronAxe => "Iron Axe",
            Item::WoodShovel => "Wooden Shovel",
            Item::StoneShovel => "Stone Shovel",
            Item::IronShovel => "Iron Shovel",
            Item::WoodSword => "Wooden Sword",
            Item::StoneSword => "Stone Sword",
            Item::IronSword => "Iron Sword",
            Item::Apple => "Apple",
            Item::Porkchop => "Raw Porkchop",
            Item::CookedPorkchop => "Cooked Porkchop",
            Item::Beef => "Raw Beef",
            Item::Steak => "Steak",
            Item::RedstoneDust => "Redstone Dust",
            Item::Gunpowder => "Gunpowder",
            Item::Flint => "Flint",
            Item::FlintAndSteel => "Flint and Steel",
            Item::EnderPearl => "Ender Pearl",
            Item::Emerald => "Emerald",
            Item::String => "String",
            Item::Feather => "Feather",
            Item::Bow => "Bow",
            Item::Arrow => "Arrow",
            Item::WoodHoe => "Wooden Hoe",
            Item::StoneHoe => "Stone Hoe",
            Item::IronHoe => "Iron Hoe",
            Item::Seeds => "Wheat Seeds",
            Item::Wheat => "Wheat",
            Item::Bread => "Bread",
            Item::RawChicken => "Raw Chicken",
            Item::CookedChicken => "Cooked Chicken",
            Item::Leather => "Leather",
            Item::LeatherHelmet => "Leather Cap",
            Item::LeatherChest => "Leather Tunic",
            Item::LeatherLegs => "Leather Pants",
            Item::LeatherBoots => "Leather Boots",
            Item::IronHelmet => "Iron Helmet",
            Item::IronChest => "Iron Chestplate",
            Item::IronLegs => "Iron Leggings",
            Item::IronBoots => "Iron Boots",
            Item::RawGold => "Raw Gold",
            Item::GoldIngot => "Gold Ingot",
            Item::Diamond => "Diamond",
            Item::GoldPickaxe => "Golden Pickaxe",
            Item::GoldAxe => "Golden Axe",
            Item::GoldShovel => "Golden Shovel",
            Item::GoldSword => "Golden Sword",
            Item::DiamondPickaxe => "Diamond Pickaxe",
            Item::DiamondAxe => "Diamond Axe",
            Item::DiamondShovel => "Diamond Shovel",
            Item::DiamondSword => "Diamond Sword",
            Item::DiamondHelmet => "Diamond Helmet",
            Item::DiamondChest => "Diamond Chestplate",
            Item::DiamondLegs => "Diamond Leggings",
            Item::DiamondBoots => "Diamond Boots",
            Item::Shield => "Shield",
            Item::Crossbow => "Crossbow",
            Item::GoldenApple => "Golden Apple",
            Item::Bucket => "Bucket",
            Item::WaterBucket => "Water Bucket",
            Item::LavaBucket => "Lava Bucket",
            Item::GlassBottle => "Glass Bottle",
            Item::PotionHealing => "Potion of Healing",
            Item::PotionSwiftness => "Potion of Swiftness",
            Item::PotionStrength => "Potion of Strength",
            Item::Elytra => "Elytra",
            Item::RawCopper => "Raw Copper",
            Item::CopperIngot => "Copper Ingot",
            Item::AmethystShard => "Amethyst Shard",
            Item::FishingRod => "Fishing Rod",
            Item::Fish => "Raw Fish",
            Item::CookedFish => "Cooked Fish",
            Item::Bone => "Bone",
            Item::Bonemeal => "Bonemeal",
            Item::Paper => "Paper",
            Item::Book => "Book",
            Item::EnchantedBook => "Enchanted Book",
            Item::TippedArrow => "Tipped Arrow",
            Item::SpectralArrow => "Spectral Arrow",
            Item::Lead => "Lead",
            Item::MapItem => "Map",
            Item::PotionRegen => "Potion of Regeneration",
        }
    }

    /// (class, tier) when this item is a tool.
    pub fn tool(self) -> (r: Option<(ToolClass, ToolTier)>)
        ensures
            r == spec_tool(self),
    {
        match self {
            Item::WoodPickaxe => Some((ToolClass::Pickaxe, ToolTier::Wood)),
            Item::StonePickaxe => Some((ToolClass::Pickaxe, ToolTier::Stone)),
            Item::IronPickaxe => Some((ToolClass::Pickaxe, ToolTier::Iron)),
            Item::WoodAxe => Some((ToolClass::Axe, ToolTier::Wood)),
            Item::StoneAxe => Some((ToolClass::Axe, ToolTier::Stone)),
            Item::IronAxe => Some((ToolClass::Axe, ToolTier::Iron)),
            Item::WoodShovel => Some((ToolClass::Shovel, ToolTier::Wood)),
            Item::StoneShovel => Some((ToolClass::Shovel, ToolTier::Stone)),
            Item::IronShovel => Some((ToolClass::Shovel, ToolTier::Iron)),
            Item::GoldPickaxe => Some((ToolClass::Pickaxe, ToolTier::Gold)),
            Item::GoldAxe => Some((ToolClass::Axe, ToolTier::Gold)),
            Item::GoldShovel => Some((ToolClass::Shovel, ToolTier::Gold)),
            Item::DiamondPickaxe => Some((ToolClass::Pickaxe, ToolTier::Diamond)),
            Item::DiamondAxe => Some((ToolClass::Axe, ToolTier::Diamond)),
            Item::DiamondShovel => Some((ToolClass::Shovel, ToolTier::Diamond)),
            Item::WoodHoe => Some((ToolClass::Hand, ToolTier::Wood)),
            Item::StoneHoe => Some((ToolClass::Hand, ToolTier::Stone)),
            Item::IronHoe => Some((ToolClass::Hand, ToolTier::Iron)),
            _ => None,
        }
    }

    /// What this item smelts into in a furnace.
    pub fn smelt_result(self) -> (r: Option<Item>)
        ensures
            r == spec_smelt_result(self),
    {
        match self {
            Item::RawIron => Some(Item::IronIngot),
            Item::Block(Block::IronOre) => Some(Item::IronIngot),
            Item::Block(Block::Sand) => Some(Item::Block(Block::Glass)),
            Item::Block(Block::Log) | Item::Block(Block::BirchLog) => Some(Item::Coal),
            Item::Block(Block::Cobblestone) => Some(Item::Block(Block::Stone)),
            Item::Porkchop => Some(Item::CookedPorkchop),
            Item::Beef => Some(Item::Steak),
            Item::RawChicken => Some(Item::CookedChicken),
            Item::RawGold => Some(Item::GoldIngot),
            Item::RawCopper => Some(Item::CopperIngot),
            Item::Fish => Some(Item::CookedFish),
            _ => None,
        }
    }
}

/// Item ids are stable: decoding the id of any item gives the item back.
pub proof fn lemma_item_id_roundtrip(i: Item)
    ensures
        item_from_id(item_id(i)) == i,
        item_id(i) < 256 + NON_BLOCK_COUNT,
{
    match i {
        Item::Block(b) => {
            blocks::lemma_block_id_roundtrip(b, 0);
        },
        _ => {},
    }
}

impl ItemStack {
    pub fn new(item: Item, count: u32) -> (r: ItemStack)
        ensures
            r == new_stack(item, count),
    {
        ItemStack { item, count, ench: 0, ench_kind: 0, dura: 0 }
    }

    /// Wear one durability point; returns false when the item breaks.
    /// Items without durability are left untouched.
    pub fn wear(&mut self) -> (r: bool)
        requires
            spec_max_durability(old(self).item) is Some ==> old(self).dura < u16::MAX,
        ensures
            match spec_max_durability(old(self).item) {
                Some(max) => {
                    &&& *final(self) == (ItemStack { dura: (old(self).dura + 1) as u16, ..*old(self) })
                    &&& r == (old(self).dura + 1 < max)
                },
                None => *final(self) == *old(self) && r,
            },
    {
        if let Some(max) = self.item.max_durability() {
            self.dura = self.dura + 1;
            if self.dura >= max {
                return false;
            }
        }
        true
    }
}

/// What mining a block yields. `has_pickaxe` matters for stone-class
/// blocks; `luck_rank` is how many of the ascending drop-chance thresholds
/// (sapling, apple, flint, seeds) the luck roll reached, so rank 0 is the
/// luckiest roll and rank 4 or more the least lucky.
pub open spec fn spec_block_drop(block: Block, has_pickaxe: bool, luck_rank: u8) -> Option<ItemStack> {
    if blocks::spec_tool_class(block) == ToolClass::Pickaxe && !has_pickaxe {
        None
    } else {
        match block {
            Block::Stone => Some(new_stack(Item::Block(Block::Cobblestone), 1)),
            Block::Grass => Some(new_stack(Item::Block(Block::Dirt), 1)),
            Block::CoalOre => Some(new_stack(Item::Coal, 1)),
            Block::IronOre => Some(new_stack(Item::RawIron, 1)),
            Block::GoldOre => Some(new_stack(Item::RawGold, 1)),
            Block::DiamondOre => Some(new_stack(Item::Diamond, 1)),
            Block::CopperOre => Some(new_stack(Item::RawCopper, 1)),
            Block::Amethyst => Some(new_stack(Item::AmethystShard, 1)),
            Block::Deepslate => Some(new_stack(Item::Block(Block::Cobblestone), 1)),
            Block::CherryLeaves => if luck_rank == 0 {
                Some(new_stack(Item::Block(Block::Sapling), 1))
            } else {
                None
            },
            Block::RedstoneOre => Some(new_stack(Item::RedstoneDust, 4)),
            Block::RedstoneWire => Some(new_stack(Item::RedstoneDust, 1)),
            Block::LeverOn => Some(new_stack(Item::Block(Block::Lever), 1)),
            Block::Gravel => if luck_rank <= 2 {
                Some(new_stack(Item::Flint, 1))
            } else {
                Some(new_stack(Item::Block(Block::Gravel), 1))
            },
            Block::Glass => None,
            Block::TallGrass => if luck_rank <= 3 {
                Some(new_stack(Item::Seeds, 1))
            } else {
                None
            },
            Block::Wheat3 => Some(new_stack(Item::Wheat, 1)),
            Block::Wheat1 | Block::Wheat2 => Some(new_stack(Item::Seeds, 1)),
            Block::DoorOpen => Some(new_stack(Item::Block(Block::Door), 1)),
            Block::Farmland => Some(new_stack(Item::Block(Block::Dirt), 1)),
            Block::RepeaterOn => Some(new_stack(Item::Block(Block::Repeater), 1)),
            Block::Leaves => if luck_rank == 0 {
                Some(new_stack(Item::Block(Block::Sapling), 1))
            } else if luck_rank == 1 {
                Some(new_stack(Item::Apple, 1))
            } else {
                None
            },
            Block::Water | Block::Air | Block::Bedrock => None,
            other => Some(new_stack(Item::Block(other), 1)),
        }
    }
}

/// Is the `f32` with bits `bits` less than the positive finite `f32` with
/// bits `t`? A NaN is less than nothing; every negative value, and negative
/// zero, is less than a positive one; between non-negative values the bit
/// patterns are ordered as the values are.
pub open spec fn f32_bits_lt_positive(bits: u32, t: u32) -> bool {
    if (bits & 0x7FFF_FFFF) > 0x7F80_0000 {
        false
    } else if bits >= 0x8000_0000 {
        true
    } else {
        bits < t
    }
}

/// Drop-chance thresholds, as `f32` bits: sapling 0.08, apple 0.12,
/// flint 0.15, seeds 0.4.
pub const LUCK_SAPLING: u32 = 0x3DA3_D70A;
pub const LUCK_APPLE: u32 = 0x3DF5_C28F;
pub const LUCK_FLINT: u32 = 0x3E19_999A;
pub const LUCK_SEEDS: u32 = 0x3ECC_CCCD;

/// How many of the drop-chance thresholds a luck roll (`f32` bits) is not
/// below.
pub open spec fn spec_luck_rank(luck: u32) -> u8 {
    ((if f32_bits_lt_positive(luck, LUCK_SAPLING) { 0int } else { 1int })
        + (if f32_bits_lt_positive(luck, LUCK_APPLE) { 0int } else { 1int })
        + (if f32_bits_lt_positive(luck, LUCK_FLINT) { 0int } else { 1int })
        + (if f32_bits_lt_positive(luck, LUCK_SEEDS) { 0int } else { 1int })) as u8
}

fn f32_lt_positive(bits: u32, t: u32) -> (r: bool)
    ensures
        r == f32_bits_lt_positive(bits, t),
{
    if (bits & 0x7FFF_FFFF) > 0x7F80_0000 {
        false
    } else if bits >= 0x8000_0000 {
        true
    } else {
        bits < t
    }
}

/// The luck rank of a roll (`f32` bits): 0 below the sapling chance, up to 4
/// at or above the seeds chance.
pub fn luck_rank(luck: u32) -> (r: u8)
    ensures
        r == spec_luck_rank(luck),
        r <= 4,
{
    let a: u8 = if f32_lt_positive(luck, LUCK_SAPLING) { 0 } else { 1 };
    let b: u8 = if f32_lt_positive(luck, LUCK_APPLE) { 0 } else { 1 };
    let c: u8 = if f32_lt_positive(luck, LUCK_FLINT) { 0 } else { 1 };
    let d: u8 = if f32_lt_positive(luck, LUCK_SEEDS) { 0 } else { 1 };
    a + b + c + d
}

/// What mining a block yields (None = nothing), for a luck roll `luck` in
/// `[0, 1)` given as `f32` bits.
pub fn block_drop(block: Block, has_pickaxe: bool, luck: u32) -> (r: Option<ItemStack>)
    ensures
        r == spec_block_drop(block, has_pickaxe, spec_luck_rank(luck)),
{
    let luck_rank = luck_rank(luck);
    if block.needs_pickaxe() && !has_pickaxe {
        return None;
    }
    let item = match block {
        Block::Stone => Item::Block(Block::Cobblestone),
        Block::Grass => Item::Block(Block::Dirt),
        Block::CoalOre => Item::Coal,
        Block::IronOre => Item::RawIron,
        Block::GoldOre => Item::RawGold,
        Block::DiamondOre => Item::Diamond,
        Block::CopperOre => Item::RawCopper,
        Block::Amethyst => Item::AmethystShard,
        Block::Deepslate => Item::Block(Block::Cobblestone),
        Block::CherryLeaves => {
            if luck_rank == 0 {
                Item::Block(Block::Sapling)
            } else {
                return None;
            }
        },
        Block::RedstoneOre => {
            return Some(ItemStack::new(Item::RedstoneDust, 4));
        },
        Block::RedstoneWire => Item::RedstoneDust,
        Block::LeverOn => Item::Block(Block::Lever),
        Block::Gravel => {
            if luck_rank <= 2 {
                Item::Flint
            } else {
                Item::Block(Block::Gravel)
            }
        },
        Block::Glass => {
            return None;
        },
        Block::TallGrass => {
            if luck_rank <= 3 {
                Item::Seeds
            } else {
                return None;
            }
        },
        Block::Wheat3 => Item::Wheat,
        Block::Wheat1 | Block::Wheat2 => Item::Seeds,
        Block::DoorOpen => Item::Block(Block::Door),
        Block::Farmland => Item::Block(Block::Dirt),
        Block::RepeaterOn => Item::Block(Block::Repeater),
        Block::Leaves => {
            if luck_rank == 0 {
                Item::Block(Block::Sapling)
            } else if luck_rank == 1 {
                Item::Apple
            } else {
                return None;
            }
        },
        Block::Water | Block::Air | Block::Bedrock => {
            return None;
        },
        other => Item::Block(other),
    };
    Some(ItemStack::new(item, 1))
}

/// Blocks left out of the creative catalog: liquids, portals, and the
/// transient states of levers, repeaters, doors and crops.
pub open spec fn creative_skips(b: Block) -> bool {
    b is Air || b is Water || b is Lava || b is WaterF3 || b is WaterF2 || b is WaterF1
        || b is LavaF2 || b is LavaF1 || b is Portal || b is EndPortal || b is LeverOn
        || b is RepeaterOn || b is DoorOpen || b is Wheat1 || b is Wheat2 || b is Wheat3
}

/// Catalog entries for the blocks with ids below `k`, in id order.
pub open spec fn creative_blocks(k: int) -> Seq<Item>
    decreases k,
{
    if k <= 0 {
        Seq::empty()
    } else {
        let b = blocks::block_from_id((k - 1) as u8);
        if creative_skips(b) {
            creative_blocks(k - 1)
        } else {
            creative_blocks(k - 1).push(Item::Block(b))
        }
    }
}

/// Every non-block item in id order.
pub open spec fn non_block_items() -> Seq<Item> {
    Seq::new(NON_BLOCK_COUNT as nat, |k: int| non_block_at(k as u16))
}

/// Everything obtainable from the creative inventory: the placeable blocks
/// in id order, then every non-block item in id order.
pub open spec fn spec_creative_catalog() -> Seq<Item> {
    creative_blocks(BLOCK_COUNT as int) + non_block_items()
}

fn creative_skip(b: Block) -> (r: bool)
    ensures
        r == creative_skips(b),
{
    matches!(
        b,
        Block::Air | Block::Water | Block::Lava | Block::WaterF3 | Block::WaterF2
            | Block::WaterF1 | Block::LavaF2 | Block::LavaF1 | Block::Portal
            | Block::EndPortal | Block::LeverOn | Block::RepeaterOn | Block::DoorOpen
            | Block::Wheat1 | Block::Wheat2 | Block::Wheat3
    )
}

impl Item {
    /// Every non-block item, in id order.
    pub fn non_block() -> (r: Vec<Item>)
        ensures
            r@ == non_block_items(),
    {
        let mut v: Vec<Item> = Vec::new();
        let mut k: u16 = 0;
        while k < NON_BLOCK_COUNT
            invariant
                k <= NON_BLOCK_COUNT,
                v@ == non_block_items().take(k as int),
            decreases NON_BLOCK_COUNT - k,
        {
            let it = Item::from_id(256 + k);
            v.push(it);
            k = k + 1;
            assert(non_block_items().take(k as int) =~= non_block_items().take(k - 1).push(it));
        }
        assert(non_block_items().take(NON_BLOCK_COUNT as int) =~= non_block_items());
        v
    }
}

/// Everything obtainable from the creative inventory.
pub fn creative_catalog() -> (r: Vec<Item>)
    ensures
        r@ == spec_creative_catalog(),
{
    let mut v: Vec<Item> = Vec::new();
    let mut i: u8 = 0;
    while i < BLOCK_COUNT
        invariant
            i <= BLOCK_COUNT,
            v@ == creative_blocks(i as int),
        decreases BLOCK_COUNT - i,
    {
        let b = Block::from_id(i);
        if !creative_skip(b) {
            v.push(Item::Block(b));
        }
        i = i + 1;
    }
    let ghost blocks = v@;
    let mut k: u16 = 0;
    while k < NON_BLOCK_COUNT
        invariant
            k <= NON_BLOCK_COUNT,
            v@ == blocks + non_block_items().take(k as int),
        decreases NON_BLOCK_COUNT - k,
    {
        let it = Item::from_id(256 + k);
        v.push(it);
        k = k + 1;
        assert(non_block_items().take(k as int) =~= non_block_items().take(k - 1).push(it));
    }
    assert(non_block_items().take(NON_BLOCK_COUNT as int) =~= non_block_items());
    v
}

/// Every enchantment name (books can hold any of them).
pub open spec fn all_enchants() -> Seq<Seq<char>> {
    seq![
        "Efficiency"@, "Unbreaking"@, "Mending"@, "Sharpness"@, "Knockback"@, "Looting"@,
        "Power"@, "Punch"@, "Protection"@, "Thorns"@, "Curse of Vanishing"@,
        "Curse of Binding"@,
    ]
}

/// Does an enchantment name mark a curse?
pub open spec fn spec_is_curse(name: Seq<char>) -> bool {
    name.len() >= 5 && name.subrange(0, 5) == "Curse"@
}

/// Is this enchant kind (by name) a curse?
pub fn is_curse(name: &str) -> (r: bool)
    ensures
        r == spec_is_curse(name@),
{
    let prefix = "Curse";
    proof {
        reveal_strlit("Curse");
    }
    let n = name.unicode_len();
    if n < 5 {
        return false;
    }
    let mut i: usize = 0;
    while i < 5
        invariant
            i <= 5,
            n == name@.len(),
            n >= 5,
            prefix@ == "Curse"@,
            prefix@.len() == 5,
            forall|j: int| 0 <= j < i ==> name@[j] == prefix@[j],
        decreases 5 - i,
    {
        if name.get_char(i) != prefix.get_char(i) {
            return false;
        }
        i = i + 1;
    }
    assert(name@.subrange(0, 5) =~= "Curse"@);
    true
}

/// Enchantment kinds available for an item (index = ench_kind).
pub open spec fn spec_enchants_for(item: Item) -> Seq<Seq<char>> {
    if spec_armor_slot(item) is Some && item != Item::Elytra {
        seq!["Protection"@, "Thorns"@, "Curse of Vanishing"@, "Curse of Binding"@]
    } else {
        match item {
            Item::Book | Item::EnchantedBook => all_enchants(),
            Item::Bow | Item::Crossbow => seq!["Power"@, "Punch"@, "Curse of Vanishing"@],
            Item::WoodSword | Item::StoneSword | Item::IronSword | Item::GoldSword
            | Item::DiamondSword => seq![
                "Sharpness"@,
                "Knockback"@,
                "Looting"@,
                "Curse of Vanishing"@,
            ],
            _ => if spec_tool(item) is Some {
                seq!["Efficiency"@, "Unbreaking"@, "Mending"@, "Curse of Vanishing"@]
            } else {
                Seq::empty()
            },
        }
    }
}

/// Enchantment kinds available for an item (index = ench_kind).
pub fn enchants_for(item: Item) -> (r: Vec<&'static str>)
    ensures
        r@.map_values(|s: &'static str| s@) == spec_enchants_for(item),
{
    let v: Vec<&'static str> = if item.armor_slot().is_some() && item != Item::Elytra {
        vec!["Protection", "Thorns", "Curse of Vanishing", "Curse of Binding"]
    } else {
        match item {
            Item::Book | Item::EnchantedBook => vec![
                "Efficiency",
                "Unbreaking",
                "Mending",
                "Sharpness",
                "Knockback",
                "Looting",
                "Power",
                "Punch",
                "Protection",
                "Thorns",
                "Curse of Vanishing",
                "Curse of Binding",
            ],
            Item::Bow | Item::Crossbow => vec!["Power", "Punch", "Curse of Vanishing"],
            Item::WoodSword | Item::StoneSword | Item::IronSword | Item::GoldSword
            | Item::DiamondSword => vec!["Sharpness", "Knockback", "Looting", "Curse of Vanishing"],
            _ => if item.tool().is_some() {
                vec!["Efficiency", "Unbreaking", "Mending", "Curse of Vanishing"]
            } else {
                Vec::new()
            },
        }
    };
    assert(v@.map_values(|s: &'static str| s@) =~= spec_enchants_for(item));
    v
}


/// Seconds a furnace needs to cook one item, as `f32` bits (10.0).
pub const COOK_TIME_BITS: u32 = 0x4120_0000;

/// Items a furnace burns as fuel.
pub open spec fn spec_is_fuel(i: Item) -> bool {
    match i {
        Item::Coal | Item::Stick => true,
        Item::Block(Block::Planks) | Item::Block(Block::Log) | Item::Block(Block::BirchLog) => true,
        Item::Block(Block::CraftingTable) | Item::Block(Block::Chest) | Item::Block(Block::Sapling) => true,
        _ => false,
    }
}

impl Item {
    /// Whether a furnace burns this item (the items with a fuel value).
    pub fn is_fuel(self) -> (r: bool)
        ensures
            r == spec_is_fuel(self),
    {
        match self {
            Item::Coal | Item::Stick => true,
            Item::Block(Block::Planks) | Item::Block(Block::Log) | Item::Block(Block::BirchLog) => true,
            Item::Block(Block::CraftingTable) | Item::Block(Block::Chest) | Item::Block(Block::Sapling) => true,
            _ => false,
        }
    }
}

/// A furnace: its three slots and its timers. The timers are seconds held
/// as `f32` bit patterns.
#[derive(Clone, Copy, PartialEq, Eq, Debug, Structural)]
pub struct FurnaceState {
    pub input: Option<ItemStack>,
    pub fuel: Option<ItemStack>,
    pub output: Option<ItemStack>,
    pub burn_left: u32,
    pub burn_total: u32,
    pub cook: u32,
}

/// Whether the `f32` with these bits is greater than zero: a positive sign
/// and a nonzero magnitude that is not a NaN.
pub open spec fn f32_bits_positive(bits: u32) -> bool {
    0 < bits && bits <= 0x7F80_0000
}

/// What the input smelts into, when the output slot can take one more of it.
pub open spec fn spec_smelt_ready(f: FurnaceState) -> Option<Item> {
    match f.input {
        None => None,
        Some(inp) => match spec_smelt_result(inp.item) {
            None => None,
            Some(r) => match f.output {
                None => Some(r),
                Some(out) => if out.item == r && out.count < spec_max_stack(r) {
                    Some(r)
                } else {
                    None
                },
            },
        },
    }
}

/// A stack with one item fewer; an emptied stack leaves the slot.
pub open spec fn take_one(s: Option<ItemStack>) -> Option<ItemStack> {
    match s {
        None => None,
        Some(st) => if st.count <= 1 {
            None
        } else {
            Some(ItemStack { count: (st.count - 1) as u32, ..st })
        },
    }
}

impl FurnaceState {
    /// An empty, cold furnace (burn total 1.0, so a gauge never divides by zero).
    pub fn new() -> (r: FurnaceState)
        ensures
            r == (FurnaceState { input: None, fuel: None, output: None, burn_left: 0, burn_total: 0x3F80_0000, cook: 0 }),
    {
        FurnaceState { input: None, fuel: None, output: None, burn_left: 0, burn_total: 0x3F80_0000, cook: 0 }
    }

    /// Whether fuel is burning (time left above zero).
    pub fn is_lit(&self) -> (r: bool)
        ensures
            r == f32_bits_positive(self.burn_left),
    {
        0 < self.burn_left && self.burn_left <= 0x7F80_0000
    }

    /// The item the current input smelts into, if the output slot has room
    /// for it.
    pub fn smelt_ready(&self) -> (r: Option<Item>)
        ensures
            r == spec_smelt_ready(*self),
    {
        match self.input {
            None => None,
            Some(inp) => match inp.item.smelt_result() {
                None => None,
                Some(r) => match self.output {
                    None => Some(r),
                    Some(out) => if out.item == r && out.count < r.max_stack() {
                        Some(r)
                    } else {
                        None
                    },
                },
            },
        }
    }

    /// Lights one piece of fuel: when the fuel slot holds fuel, one item
    /// leaves it and is returned (its burn time is the caller's to add).
    pub fn take_fuel(&mut self) -> (r: Option<Item>)
        ensures
            match old(self).fuel {
                Some(st) => if spec_is_fuel(st.item) {
                    r == Some(st.item) && *final(self) == (FurnaceState { fuel: take_one(old(self).fuel), ..*old(self) })
                } else {
                    r is None && *final(self) == *old(self)
                },
                None => r is None && *final(self) == *old(self),
            },
    {
        match self.fuel {
            Some(st) => {
                if st.item.is_fuel() {
                    if st.count <= 1 {
                        self.fuel = None;
                    } else {
                        self.fuel = Some(ItemStack { count: st.count - 1, ..st });
                    }
                    Some(st.item)
                } else {
                    None
                }
            },
            None => None,
        }
    }

    /// Finishes cooking one item: one input becomes one output (added to the
    /// output stack, or starting it). Nothing changes when the output slot
    /// cannot take it.
    pub fn finish_item(&mut self) -> (r: bool)
        ensures
            r == (spec_smelt_ready(*old(self)) is Some),
            match spec_smelt_ready(*old(self)) {
                Some(res) => *final(self) == (FurnaceState {
                    input: take_one(old(self).input),
                    output: match old(self).output {
                        None => Some(new_stack(res, 1)),
                        Some(out) => Some(ItemStack { count: (out.count + 1) as u32, ..out }),
                    },
                    ..*old(self)
                }),
                None => *final(self) == *old(self),
            },
    {
        match self.smelt_ready() {
            None => false,
            Some(res) => {
                match self.output {
                    None => {
                        self.output = Some(ItemStack::new(res, 1));
                    },
                    Some(out) => {
                        proof {
                            lemma_max_stack_bound(res);
                        }
                        self.output = Some(ItemStack { count: out.count + 1, ..out });
                    },
                }
                match self.input {
                    Some(inp) => {
                        if inp.count <= 1 {
                            self.input = None;
                        } else {
                            self.input = Some(ItemStack { count: inp.count - 1, ..inp });
                        }
                    },
                    None => {},
                }
                true
            },
        }
    }
}

proof fn lemma_max_stack_bound(i: Item)
    ensures
        spec_max_stack(i) <= 64,
{
}

/// Items eaten for hunger.
pub open spec fn spec_is_food(i: Item) -> bool {
    match i {
        Item::Apple | Item::Porkchop | Item::Beef | Item::CookedPorkchop | Item::Steak | Item::Bread
        | Item::GoldenApple | Item::Fish | Item::CookedFish | Item::RawChicken | Item::CookedChicken => true,
        _ => false,
    }
}

impl Item {
    /// Whether the item can be eaten (the items with a food value).
    pub fn is_food(self) -> (r: bool)
        ensures
            r == spec_is_food(self),
    {
        match self {
            Item::Apple | Item::Porkchop | Item::Beef | Item::CookedPorkchop | Item::Steak | Item::Bread
            | Item::GoldenApple | Item::Fish | Item::CookedFish | Item::RawChicken | Item::CookedChicken => true,
            _ => false,
        }
    }
}

/// How many times faster than a furnace a station cooks its input: a
/// smoker doubles on food (or what cooks into food), a blast furnace on
/// everything else.
pub open spec fn spec_cook_speed(station: Block, input: Option<ItemStack>) -> u32 {
    let food = match input {
        Some(st) => spec_is_food(st.item) || (spec_smelt_result(st.item) matches Some(r) && spec_is_food(r)),
        None => false,
    };
    if station == Block::Smoker && food {
        2
    } else if station == Block::BlastFurnace && !food {
        2
    } else {
        1
    }
}

pub fn cook_speed(station: Block, input: Option<ItemStack>) -> (r: u32)
    ensures
        r == spec_cook_speed(station, input),
{
    let food = match input {
        Some(st) => st.item.is_food() || match st.item.smelt_result() {
            Some(r) => r.is_food(),
            None => false,
        },
        None => false,
    };
    if station == Block::Smoker && food {
        2
    } else if station == Block::BlastFurnace && !food {
        2
    } else {
        1
    }
}



/// Length, first three and last three characters of a display name:
/// enough to tell the names of the items that are not blocks apart.
pub open spec fn item_name_key(s: Seq<char>) -> (int, char, char, char, char, char, char) {
    (s.len() as int, s[0], s[1], s[2], s[s.len() - 1], s[s.len() - 2], s[s.len() - 3])
}

/// The item (not a block) a name key belongs to.
pub open spec fn item_of_name_key(k: (int, char, char, char, char, char, char)) -> Item {
    if k == (5int, 'S', 't', 'i', 'k', 'c', 'i') {
        Item::Stick
    } else if k == (4int, 'C', 'o', 'a', 'l', 'a', 'o') {
        Item::Coal
    } else if k == (8int, 'R', 'a', 'w', 'n', 'o', 'r') {
        Item::RawIron
    } else if k == (10int, 'I', 'r', 'o', 't', 'o', 'g') {
        Item::IronIngot
    } else if k == (14int, 'W', 'o', 'o', 'e', 'x', 'a') {
        Item::WoodPickaxe
    } else if k == (13int, 'S', 't', 'o', 'e', 'x', 'a') {
        Item::StonePickaxe
    } else if k == (12int, 'I', 'r', 'o', 'e', 'x', 'a') {
        Item::IronPickaxe
    } else if k == (10int, 'W', 'o', 'o', 'e', 'x', 'A') {
        Item::WoodAxe
    } else if k == (9int, 'S', 't', 'o', 'e', 'x', 'A') {
        Item::StoneAxe
    } else if k == (8int, 'I', 'r', 'o', 'e', 'x', 'A') {
        Item::IronAxe
    } else if k == (13int, 'W', 'o', 'o', 'l', 'e', 'v') {
        Item::WoodShovel
    } else if k == (12int, 'S', 't', 'o', 'l', 'e', 'v') {
        Item::StoneShovel
    } else if k == (11int, 'I', 'r', 'o', 'l', 'e', 'v') {
        Item::IronShovel
    } else if k == (12int, 'W', 'o', 'o', 'd', 'r', 'o') {
        Item::WoodSword
    } else if k == (11int, 'S', 't', 'o', 'd', 'r', 'o') {
        Item::StoneSword
    } else if k == (10int, 'I', 'r', 'o', 'd', 'r', 'o') {
        Item::IronSword
    } else if k == (5int, 'A', 'p', 'p', 'e', 'l', 'p') {
        Item::Apple
    } else if k == (12int, 'R', 'a', 'w', 'p', 'o', 'h') {
        Item::Porkchop
    } else if k == (15int, 'C', 'o', 'o', 'p', 'o', 'h') {
        Item::CookedPorkchop
    } else if k == (8int, 'R', 'a', 'w', 'f', 'e', 'e') {
        Item::Beef
    } else if k == (5int, 'S', 't', 'e', 'k', 'a', 'e') {
        Item::Steak
    } else if k == (13int, 'R', 'e', 'd', 't', 's', 'u') {
        Item::RedstoneDust
    } else if k == (9int, 'G', 'u', 'n', 'r', 'e', 'd') {
        Item::Gunpowder
    } else if k == (5int, 'F', 'l', 'i', 't', 'n', 'i') {
        Item::Flint
    } else if k == (15int, 'F', 'l', 'i', 'l', 'e', 'e') {
        Item::FlintAndSteel
    } else if k == (11int, 'E', 'n', 'd', 'l', 'r', 'a') {
        Item::EnderPearl
    } else if k == (7int, 'E', 'm', 'e', 'd', 'l', 'a') {
        Item::Emerald
    } else if k == (6int, 'S', 't', 'r', 'g', 'n', 'i') {
        Item::String
    } else if k == (7int, 'F', 'e', 'a', 'r', 'e', 'h') {
        Item::Feather
    } else if k == (3int, 'B', 'o', 'w', 'w', 'o', 'B') {
        Item::Bow
    } else if k == (5int, 'A', 'r', 'r', 'w', 'o', 'r') {
        Item::Arrow
    } else if k == (10int, 'W', 'o', 'o', 'e', 'o', 'H') {
        Item::WoodHoe
    } else if k == (9int, 'S', 't', 'o', 'e', 'o', 'H') {
        Item::StoneHoe
    } else if k == (8int, 'I', 'r', 'o', 'e', 'o', 'H') {
        Item::IronHoe
    } else if k == (11int, 'W', 'h', 'e', 's', 'd', 'e') {
        Item::Seeds
    } else if k == (5int, 'W', 'h', 'e', 't', 'a', 'e') {
        Item::Wheat
    } else if k == (5int, 'B', 'r', 'e', 'd', 'a', 'e') {
        Item::Bread
    } else if k == (11int, 'R', 'a', 'w', 'n', 'e', 'k') {
        Item::RawChicken
    } else if k == (14int, 'C', 'o', 'o', 'n', 'e', 'k') {
        Item::CookedChicken
    } else if k == (7int, 'L', 'e', 'a', 'r', 'e', 'h') {
        Item::Leather
    } else if k == (11int, 'L', 'e', 'a', 'p', 'a', 'C') {
        Item::LeatherHelmet
    } else if k == (13int, 'L', 'e', 'a', 'c', 'i', 'n') {
        Item::LeatherChest
    } else if k == (13int, 'L', 'e', 'a', 's', 't', 'n') {
        Item::LeatherLegs
    } else if k == (13int, 'L', 'e', 'a', 's', 't', 'o') {
        Item::LeatherBoots
    } else if k == (11int, 'I', 'r', 'o', 't', 'e', 'm') {
        Item::IronHelmet
    } else if k == (15int, 'I', 'r', 'o', 'e', 't', 'a') {
        Item::IronChest
    } else if k == (13int, 'I', 'r', 'o', 's', 'g', 'n') {
        Item::IronLegs
    } else if k == (10int, 'I', 'r', 'o', 's', 't', 'o') {
        Item::IronBoots
    } else if k == (8int, 'R', 'a', 'w', 'd', 'l', 'o') {
        Item::RawGold
    } else if k == (10int, 'G', 'o', 'l', 't', 'o', 'g') {
        Item::GoldIngot
    } else if k == (7int, 'D', 'i', 'a', 'd', 'n', 'o') {
        Item::Diamond
    } else if k == (14int, 'G', 'o', 'l', 'e', 'x', 'a') {
        Item::GoldPickaxe
    } else if k == (10int, 'G', 'o', 'l', 'e', 'x', 'A') {
        Item::GoldAxe
    } else if k == (13int, 'G', 'o', 'l', 'l', 'e', 'v') {
        Item::GoldShovel
    } else if k == (12int, 'G', 'o', 'l', 'd', 'r', 'o') {
        Item::GoldSword
    } else if k == (15int, 'D', 'i', 'a', 'e', 'x', 'a') {
        Item::DiamondPickaxe
    } else if k == (11int, 'D', 'i', 'a', 'e', 'x', 'A') {
        Item::DiamondAxe
    } else if k == (14int, 'D', 'i', 'a', 'l', 'e', 'v') {
        Item::DiamondShovel
    } else if k == (13int, 'D', 'i', 'a', 'd', 'r', 'o') {
        Item::DiamondSword
    } else if k == (14int, 'D', 'i', 'a', 't', 'e', 'm') {
        Item::DiamondHelmet
    } else if k == (18int, 'D', 'i', 'a', 'e', 't', 'a') {
        Item::DiamondChest
    } else if k == (16int, 'D', 'i', 'a', 's', 'g', 'n') {
        Item::DiamondLegs
    } else if k == (13int, 'D', 'i', 'a', 's', 't', 'o') {
        Item::DiamondBoots
    } else if k == (6int, 'S', 'h', 'i', 'd', 'l', 'e') {
        Item::Shield
    } else if k == (8int, 'C', 'r', 'o', 'w', 'o', 'b') {
        Item::Crossbow
    } else if k == (12int, 'G', 'o', 'l', 'e', 'l', 'p') {
        Item::GoldenApple
    } else if k == (6int, 'B', 'u', 'c', 't', 'e', 'k') {
        Item::Bucket
    } else if k == (12int, 'W', 'a', 't', 't', 'e', 'k') {
        Item::WaterBucket
    } else if k == (11int, 'L', 'a', 'v', 't', 'e', 'k') {
        Item::LavaBucket
    } else if k == (12int, 'G', 'l', 'a', 'e', 'l', 't') {
        Item::GlassBottle
    } else if k == (17int, 'P', 'o', 't', 'g', 'n', 'i') {
        Item::PotionHealing
    } else if k == (19int, 'P', 'o', 't', 's', 's', 'e') {
        Item::PotionSwiftness
    } else if k == (18int, 'P', 'o', 't', 'h', 't', 'g') {
        Item::PotionStrength
    } else if k == (6int, 'E', 'l', 'y', 'a', 'r', 't') {
        Item::Elytra
    } else if k == (10int, 'R', 'a', 'w', 'r', 'e', 'p') {
        Item::RawCopper
    } else if k == (12int, 'C', 'o', 'p', 't', 'o', 'g') {
        Item::CopperIngot
    } else if k == (14int, 'A', 'm', 'e', 'd', 'r', 'a') {
        Item::AmethystShard
    } else if k == (11int, 'F', 'i', 's', 'd', 'o', 'R') {
        Item::FishingRod
    } else if k == (8int, 'R', 'a', 'w', 'h', 's', 'i') {
        Item::Fish
    } else if k == (11int, 'C', 'o', 'o', 'h', 's', 'i') {
        Item::CookedFish
    } else if k == (4int, 'B', 'o', 'n', 'e', 'n', 'o') {
        Item::Bone
    } else if k == (8int, 'B', 'o', 'n', 'l', 'a', 'e') {
        Item::Bonemeal
    } else if k == (5int, 'P', 'a', 'p', 'r', 'e', 'p') {
        Item::Paper
    } else if k == (4int, 'B', 'o', 'o', 'k', 'o', 'o') {
        Item::Book
    } else if k == (14int, 'E', 'n', 'c', 'k', 'o', 'o') {
        Item::EnchantedBook
    } else if k == (12int, 'T', 'i', 'p', 'w', 'o', 'r') {
        Item::TippedArrow
    } else if k == (14int, 'S', 'p', 'e', 'w', 'o', 'r') {
        Item::SpectralArrow
    } else if k == (4int, 'L', 'e', 'a', 'd', 'a', 'e') {
        Item::Lead
    } else if k == (3int, 'M', 'a', 'p', 'p', 'a', 'M') {
        Item::MapItem
    } else {
        Item::PotionRegen
    }
}

proof fn lemma_item_name_key(i: Item)
    requires
        !(i is Block),
    ensures
        item_of_name_key(item_name_key(spec_item_name(i))) == i,
        spec_item_name(i).len() > 0,
{
    match i {
        Item::Block(_) => {},
        Item::Stick => {
            reveal_strlit("Stick");
        },
        Item::Coal => {
            reveal_strlit("Coal");
        },
        Item::RawIron => {
            reveal_strlit("Raw Iron");
        },
        Item::IronIngot => {
            reveal_strlit("Iron Ingot");
        },
        Item::WoodPickaxe => {
            reveal_strlit("Wooden Pickaxe");
        },
        Item::StonePickaxe => {
            reveal_strlit("Stone Pickaxe");
        },
        Item::IronPickaxe => {
            reveal_strlit("Iron Pickaxe");
        },
        Item::WoodAxe => {
            reveal_strlit("Wooden Axe");
        },
        Item::StoneAxe => {
            reveal_strlit("Stone Axe");
        },
        Item::IronAxe => {
            reveal_strlit("Iron Axe");
        },
        Item::WoodShovel => {
            reveal_strlit("Wooden Shovel");
        },
        Item::StoneShovel => {
            reveal_strlit("Stone Shovel");
        },
        Item::IronShovel => {
            reveal_strlit("Iron Shovel");
        },
        Item::WoodSword => {
            reveal_strlit("Wooden Sword");
        },
        Item::StoneSword => {
            reveal_strlit("Stone Sword");
        },
        Item::IronSword => {
            reveal_strlit("Iron Sword");
        },
        Item::Apple => {
            reveal_strlit("Apple");
        },
        Item::Porkchop => {
            reveal_strlit("Raw Porkchop");
        },
        Item::CookedPorkchop => {
            reveal_strlit("Cooked Porkchop");
        },
        Item::Beef => {
            reveal_strlit("Raw Beef");
        },
        Item::Steak => {
            reveal_strlit("Steak");
        },
        Item::RedstoneDust => {
            reveal_strlit("Redstone Dust");
        },
        Item::Gunpowder => {
            reveal_strlit("Gunpowder");
        },
        Item::Flint => {
            reveal_strlit("Flint");
        },
        Item::FlintAndSteel => {
            reveal_strlit("Flint and Steel");
        },
        Item::EnderPearl => {
            reveal_strlit("Ender Pearl");
        },
        Item::Emerald => {
            reveal_strlit("Emerald");
        },
        Item::String => {
            reveal_strlit("String");
        },
        Item::Feather => {
            reveal_strlit("Feather");
        },
        Item::Bow => {
            reveal_strlit("Bow");
        },
        Item::Arrow => {
            reveal_strlit("Arrow");
        },
        Item::WoodHoe => {
            reveal_strlit("Wooden Hoe");
        },
        Item::StoneHoe => {
            reveal_strlit("Stone Hoe");
        },
        Item::IronHoe => {
            reveal_strlit("Iron Hoe");
        },
        Item::Seeds => {
            reveal_strlit("Wheat Seeds");
        },
        Item::Wheat => {
            reveal_strlit("Wheat");
        },
        Item::Bread => {
            reveal_strlit("Bread");
        },
        Item::RawChicken => {
            reveal_strlit("Raw Chicken");
        },
        Item::CookedChicken => {
            reveal_strlit("Cooked Chicken");
        },
        Item::Leather => {
            reveal_strlit("Leather");
        },
        Item::LeatherHelmet => {
            reveal_strlit("Leather Cap");
        },
        Item::LeatherChest => {
            reveal_strlit("Leather Tunic");
        },
        Item::LeatherLegs => {
            reveal_strlit("Leather Pants");
        },
        Item::LeatherBoots => {
            reveal_strlit("Leather Boots");
        },
        Item::IronHelmet => {
            reveal_strlit("Iron Helmet");
        },
        Item::IronChest => {
            reveal_strlit("Iron Chestplate");
        },
        Item::IronLegs => {
            reveal_strlit("Iron Leggings");
        },
        Item::IronBoots => {
            reveal_strlit("Iron Boots");
        },
        Item::RawGold => {
            reveal_strlit("Raw Gold");
        },
        Item::GoldIngot => {
            reveal_strlit("Gold Ingot");
        },
        Item::Diamond => {
            reveal_strlit("Diamond");
        },
        Item::GoldPickaxe => {
            reveal_strlit("Golden Pickaxe");
        },
        Item::GoldAxe => {
            reveal_strlit("Golden Axe");
        },
        Item::GoldShovel => {
            reveal_strlit("Golden Shovel");
        },
        Item::GoldSword => {
            reveal_strlit("Golden Sword");
        },
        Item::DiamondPickaxe => {
            reveal_strlit("Diamond Pickaxe");
        },
        Item::DiamondAxe => {
            reveal_strlit("Diamond Axe");
        },
        Item::DiamondShovel => {
            reveal_strlit("Diamond Shovel");
        },
        Item::DiamondSword => {
            reveal_strlit("Diamond Sword");
        },
        Item::DiamondHelmet => {
            reveal_strlit("Diamond Helmet");
        },
        Item::DiamondChest => {
            reveal_strlit("Diamond Chestplate");
        },
        Item::DiamondLegs => {
            reveal_strlit("Diamond Leggings");
        },
        Item::DiamondBoots => {
            reveal_strlit("Diamond Boots");
        },
        Item::Shield => {
            reveal_strlit("Shield");
        },
        Item::Crossbow => {
            reveal_strlit("Crossbow");
        },
        Item::GoldenApple => {
            reveal_strlit("Golden Apple");
        },
        Item::Bucket => {
            reveal_strlit("Bucket");
        },
        Item::WaterBucket => {
            reveal_strlit("Water Bucket");
        },
        Item::LavaBucket => {
            reveal_strlit("Lava Bucket");
        },
        Item::GlassBottle => {
            reveal_strlit("Glass Bottle");
        },
        Item::PotionHealing => {
            reveal_strlit("Potion of Healing");
        },
        Item::PotionSwiftness => {
            reveal_strlit("Potion of Swiftness");
        },
        Item::PotionStrength => {
            reveal_strlit("Potion of Strength");
        },
        Item::Elytra => {
            reveal_strlit("Elytra");
        },
        Item::RawCopper => {
            reveal_strlit("Raw Copper");
        },
        Item::CopperIngot => {
            reveal_strlit("Copper Ingot");
        },
        Item::AmethystShard => {
            reveal_strlit("Amethyst Shard");
        },
        Item::FishingRod => {
            reveal_strlit("Fishing Rod");
        },
        Item::Fish => {
            reveal_strlit("Raw Fish");
        },
        Item::CookedFish => {
            reveal_strlit("Cooked Fish");
        },
        Item::Bone => {
            reveal_strlit("Bone");
        },
        Item::Bonemeal => {
            reveal_strlit("Bonemeal");
        },
        Item::Paper => {
            reveal_strlit("Paper");
        },
        Item::Book => {
            reveal_strlit("Book");
        },
        Item::EnchantedBook => {
            reveal_strlit("Enchanted Book");
        },
        Item::TippedArrow => {
            reveal_strlit("Tipped Arrow");
        },
        Item::SpectralArrow => {
            reveal_strlit("Spectral Arrow");
        },
        Item::Lead => {
            reveal_strlit("Lead");
        },
        Item::MapItem => {
            reveal_strlit("Map");
        },
        Item::PotionRegen => {
            reveal_strlit("Potion of Regeneration");
        },
    }
}

/// An item that is a block is named as the block; every item has a
/// non-empty name; and two different items that are not blocks have
/// different names.
pub proof fn lemma_item_names_distinct(a: Item, c: Item)
    ensures
        a matches Item::Block(b) ==> spec_item_name(a) == blocks::spec_block_name(b),
        spec_item_name(a).len() > 0,
        !(a is Block) && !(c is Block) && a != c ==> spec_item_name(a) != spec_item_name(c),
{
    match a {
        Item::Block(b) => {
            blocks::lemma_block_names_distinct(b, b);
        },
        _ => {
            lemma_item_name_key(a);
        },
    }
    if !(a is Block) && !(c is Block) {
        lemma_item_name_key(a);
        lemma_item_name_key(c);
    }
}


/// Mining an ore with a pickaxe yields its resource, whatever the luck
/// roll: one diamond, coal, raw iron, raw gold or raw copper, or four
/// redstone dust; mining stone yields one cobblestone. Without a pickaxe
/// none of them yields anything.
pub proof fn lemma_ores_drop_their_resource(luck_rank: u8)
    ensures
        spec_block_drop(Block::DiamondOre, true, luck_rank) == Some(new_stack(Item::Diamond, 1)),
        spec_block_drop(Block::CoalOre, true, luck_rank) == Some(new_stack(Item::Coal, 1)),
        spec_block_drop(Block::IronOre, true, luck_rank) == Some(new_stack(Item::RawIron, 1)),
        spec_block_drop(Block::GoldOre, true, luck_rank) == Some(new_stack(Item::RawGold, 1)),
        spec_block_drop(Block::CopperOre, true, luck_rank) == Some(new_stack(Item::RawCopper, 1)),
        spec_block_drop(Block::RedstoneOre, true, luck_rank) == Some(new_stack(Item::RedstoneDust, 4)),
        spec_block_drop(Block::Stone, true, luck_rank) == Some(new_stack(Item::Block(Block::Cobblestone), 1)),
        spec_block_drop(Block::DiamondOre, false, luck_rank) is None,
        spec_block_drop(Block::CoalOre, false, luck_rank) is None,
        spec_block_drop(Block::IronOre, false, luck_rank) is None,
        spec_block_drop(Block::GoldOre, false, luck_rank) is None,
        spec_block_drop(Block::Stone, false, luck_rank) is None,
{
}

/// A block that is not a pickaxe block, not a liquid, not air or bedrock,
/// and has no special drop rule, drops itself whatever the tool and luck.
pub proof fn lemma_plain_blocks_drop_themselves(b: Block, has_pickaxe: bool, luck_rank: u8)
    requires
        blocks::spec_tool_class(b) != ToolClass::Pickaxe,
        b == Block::Dirt || b == Block::Sand || b == Block::Planks || b == Block::Log || b == Block::BirchLog
            || b == Block::CraftingTable || b == Block::Chest || b == Block::Torch,
    ensures
        spec_block_drop(b, has_pickaxe, luck_rank) == Some(new_stack(Item::Block(b), 1)),
{
}

/// Smelting turns sand into glass, cobblestone back into stone, raw iron
/// and iron ore into iron ingots, raw gold into gold ingots, logs into coal
/// and raw meat into cooked meat; an ingot, glass or stone does not smelt
/// further.
pub proof fn lemma_smelting_results()
    ensures
        spec_smelt_result(Item::Block(Block::Sand)) == Some(Item::Block(Block::Glass)),
        spec_smelt_result(Item::Block(Block::Cobblestone)) == Some(Item::Block(Block::Stone)),
        spec_smelt_result(Item::RawIron) == Some(Item::IronIngot),
        spec_smelt_result(Item::Block(Block::IronOre)) == Some(Item::IronIngot),
        spec_smelt_result(Item::RawGold) == Some(Item::GoldIngot),
        spec_smelt_result(Item::Block(Block::Log)) == Some(Item::Coal),
        spec_smelt_result(Item::Block(Block::BirchLog)) == Some(Item::Coal),
        spec_smelt_result(Item::Porkchop) == Some(Item::CookedPorkchop),
        spec_smelt_result(Item::Beef) == Some(Item::Steak),
        spec_smelt_result(Item::RawChicken) == Some(Item::CookedChicken),
        spec_smelt_result(Item::IronIngot) is None,
        spec_smelt_result(Item::Block(Block::Glass)) is None,
        spec_smelt_result(Item::Block(Block::Stone)) is None,
{
}

/// Mining an ore or stone and smelting what it drops gives the refined
/// material: iron ore gives an iron ingot, gold ore a gold ingot, stone
/// gives stone back.
pub proof fn lemma_mine_then_smelt(luck_rank: u8)
    ensures
        spec_block_drop(Block::IronOre, true, luck_rank) matches Some(d) && spec_smelt_result(d.item) == Some(Item::IronIngot),
        spec_block_drop(Block::GoldOre, true, luck_rank) matches Some(d) && spec_smelt_result(d.item) == Some(Item::GoldIngot),
        spec_block_drop(Block::Stone, true, luck_rank) matches Some(d) && spec_smelt_result(d.item) == Some(Item::Block(Block::Stone)),
{
}

/// A furnace whose input holds something smeltable and whose output slot
/// is empty is ready to produce that input's smelting result, whatever its
/// fuel and timers: in particular sand makes glass. With an output slot
/// holding a different item it is not ready.
pub proof fn lemma_furnace_ready(f: FurnaceState)
    ensures
        f.input is Some && f.output is None ==> spec_smelt_ready(f) == spec_smelt_result(f.input->0.item),
        f.input is Some && f.input->0.item == Item::Block(Block::Sand) && f.output is None ==> spec_smelt_ready(f)
            == Some(Item::Block(Block::Glass)),
        f.input is Some && f.input->0.item == Item::Block(Block::Sand) && f.output is Some && f.output->0.item
            != Item::Block(Block::Glass) ==> spec_smelt_ready(f) is None,
        f.input is None ==> spec_smelt_ready(f) is None,
{
}

/// Without a pickaxe, a block that needs one drops nothing, whatever the
/// luck roll; with one, an ore always drops something.
pub proof fn lemma_pickaxe_blocks_need_a_pickaxe(b: Block, luck_rank: u8)
    ensures
        blocks::spec_tool_class(b) == ToolClass::Pickaxe ==> spec_block_drop(b, false, luck_rank) is None,
        (b == Block::CoalOre || b == Block::IronOre || b == Block::GoldOre || b == Block::DiamondOre || b == Block::CopperOre
            || b == Block::RedstoneOre) ==> spec_block_drop(b, true, luck_rank) is Some,
{
}

} // verus!
