//! Mob kinds: their stable wire ids, hostility, and texture tiles.

use vstd::prelude::*;

verus! {

#[derive(Clone, Copy, PartialEq, Eq, Debug, Hash, Structural)]
pub enum MobKind {
    Pig,
    Cow,
    Sheep,
    Zombie,
    Creeper,
    Villager,
    EnderDragon,
    Spider,
    Skeleton,
    Chicken,
    Warden,
    Piglin,
    Strider,
    Wolf,
    Husk,
    WanderingTrader,
}

/// Number of mob kinds; their ids are `0..MOB_KIND_COUNT`.
pub const MOB_KIND_COUNT: u8 = 16;

/// The id of a kind on the wire and in saves: the first thirteen kinds in
/// declaration order, then the later additions after them.
pub open spec fn mob_id(k: MobKind) -> u8 {
    match k {
        MobKind::Pig => 0,
        MobKind::Cow => 1,
        MobKind::Sheep => 2,
        MobKind::Zombie => 3,
        MobKind::Creeper => 4,
        MobKind::Villager => 5,
        MobKind::EnderDragon => 6,
        MobKind::Spider => 7,
        MobKind::Skeleton => 8,
        MobKind::Chicken => 9,
        MobKind::Warden => 10,
        MobKind::Piglin => 11,
        MobKind::Strider => 12,
        MobKind::Wolf => 13,
        MobKind::Husk => 14,
        MobKind::WanderingTrader => 15,
    }
}

/// The kind with an id; unknown ids read as a pig.
pub open spec fn mob_from_id(id: u8) -> MobKind {
    if id == 0 {
        MobKind::Pig
    } else if id == 1 {
        MobKind::Cow
    } else if id == 2 {
        MobKind::Sheep
    } else if id == 3 {
        MobKind::Zombie
    } else if id == 4 {
        MobKind::Creeper
    } else if id == 5 {
        MobKind::Villager
    } else if id == 6 {
        MobKind::EnderDragon
    } else if id == 7 {
        MobKind::Spider
    } else if id == 8 {
        MobKind::Skeleton
    } else if id == 9 {
        MobKind::Chicken
    } else if id == 10 {
        MobKind::Warden
    } else if id == 11 {
        MobKind::Piglin
    } else if id == 12 {
        MobKind::Strider
    } else if id == 13 {
        MobKind::Wolf
    } else if id == 14 {
        MobKind::Husk
    } else if id == 15 {
        MobKind::WanderingTrader
    } else {
        MobKind::Pig
    }
}

pub open spec fn spec_is_hostile(k: MobKind) -> bool {
    matches!(k, MobKind::Zombie | MobKind::Creeper | MobKind::EnderDragon | MobKind::Spider
        | MobKind::Skeleton | MobKind::Warden | MobKind::Husk)
}

/// (face tile, body tile)
pub open spec fn spec_mob_tiles(k: MobKind) -> (u16, u16) {
    match k {
        MobKind::Zombie => (59, 60),
        MobKind::Creeper => (72, 73),
        MobKind::Villager => (97, 98),
        MobKind::EnderDragon => (100, 99),
        MobKind::Pig => (61, 62),
        MobKind::Cow => (63, 64),
        MobKind::Sheep => (65, 66),
        MobKind::Spider => (130, 131),
        MobKind::Skeleton => (134, 135),
        MobKind::Chicken => (132, 133),
        MobKind::Warden => (179, 180),
        MobKind::Piglin => (196, 197),
        MobKind::Strider => (198, 199),
        MobKind::Wolf => (208, 209),
        MobKind::Husk => (210, 211),
        MobKind::WanderingTrader => (212, 213),
    }
}

impl MobKind {
    pub fn id(self) -> (r: u8)
        ensures
            r == mob_id(self),
            r < MOB_KIND_COUNT,
    {
        match self {
            MobKind::Pig => 0,
            MobKind::Cow => 1,
            MobKind::Sheep => 2,
            MobKind::Zombie => 3,
            MobKind::Creeper => 4,
            MobKind::Villager => 5,
            MobKind::EnderDragon => 6,
            MobKind::Spider => 7,
            MobKind::Skeleton => 8,
            MobKind::Chicken => 9,
            MobKind::Warden => 10,
            MobKind::Piglin => 11,
            MobKind::Strider => 12,
            MobKind::Wolf => 13,
            MobKind::Husk => 14,
            MobKind::WanderingTrader => 15,
        }
    }

    pub fn from_id(id: u8) -> (r: MobKind)
        ensures
            r == mob_from_id(id),
    {
        match id {
            0 => MobKind::Pig,
            1 => MobKind::Cow,
            2 => MobKind::Sheep,
            3 => MobKind::Zombie,
            4 => MobKind::Creeper,
            5 => MobKind::Villager,
            6 => MobKind::EnderDragon,
            7 => MobKind::Spider,
            8 => MobKind::Skeleton,
            9 => MobKind::Chicken,
            10 => MobKind::Warden,
            11 => MobKind::Piglin,
            12 => MobKind::Strider,
            13 => MobKind::Wolf,
            14 => MobKind::Husk,
            15 => MobKind::WanderingTrader,
            _ => MobKind::Pig,
        }
    }

    pub fn is_hostile(self) -> (r: bool)
        ensures
            r == spec_is_hostile(self),
    {
        match self {
            MobKind::Zombie | MobKind::Creeper | MobKind::EnderDragon | MobKind::Spider | MobKind::Skeleton
            | MobKind::Warden | MobKind::Husk => true,
            _ => false,
        }
    }

    /// (face tile, body tile)
    pub fn tiles(self) -> (r: (u16, u16))
        ensures
            r == spec_mob_tiles(self),
    {
        match self {
            MobKind::Zombie => (59, 60),
            MobKind::Creeper => (72, 73),
            MobKind::Villager => (97, 98),
            MobKind::EnderDragon => (100, 99),
            MobKind::Pig => (61, 62),
            MobKind::Cow => (63, 64),
            MobKind::Sheep => (65, 66),
            MobKind::Spider => (130, 131),
            MobKind::Skeleton => (134, 135),
            MobKind::Chicken => (132, 133),
            MobKind::Warden => (179, 180),
            MobKind::Piglin => (196, 197),
            MobKind::Strider => (198, 199),
            MobKind::Wolf => (208, 209),
            MobKind::Husk => (210, 211),
            MobKind::WanderingTrader => (212, 213),
        }
    }
}

/// Mob ids are stable: every kind reads back from its id, and every id below
/// `MOB_KIND_COUNT` names the kind that has it.
pub proof fn lemma_mob_id_roundtrip(k: MobKind, id: u8)
    ensures
        mob_from_id(mob_id(k)) == k,
        mob_id(k) < MOB_KIND_COUNT,
        id < MOB_KIND_COUNT ==> mob_id(mob_from_id(id)) == id,
{
}

} // verus!
