//! The creature roster and its ability tables.

use vstd::prelude::*;

verus! {

/// Roster ids of the creatures that the generation rules single out.
pub const KOI: u32 = 49;

/// The fallback egg creature.
pub const TANUKI: u32 = 50;

/// Creatures the game singles out by name.
#[derive(Clone, Copy, PartialEq, Eq, Structural)]
pub enum EMonster {
    Koi,
    Tanuki,
    Dodo,
    Skorch,
    Shockhopper,
    Bard,
    Vaero,
    Frosty,
    MadEye,
    Nightwing,
    Toxiquus,
    Magmamoth,
    Glowfly,
    Raduga,
    Kanko,
    Glowdra,
    Draconov,
    Thanatos,
    Vertraag,
    Ascendant,
    Amberlagna,
}

impl EMonster {
    /// The roster id of this creature.
    pub open spec fn spec_id(self) -> u32 {
        match self {
            EMonster::Koi => 49,
            EMonster::Tanuki => 50,
            EMonster::Dodo => 52,
            EMonster::Skorch => 68,
            EMonster::Shockhopper => 75,
            EMonster::Bard => 110,
            EMonster::Vaero => 7,
            EMonster::Frosty => 15,
            EMonster::MadEye => 20,
            EMonster::Nightwing => 21,
            EMonster::Toxiquus => 22,
            EMonster::Magmamoth => 25,
            EMonster::Glowfly => 27,
            EMonster::Raduga => 32,
            EMonster::Kanko => 51,
            EMonster::Glowdra => 64,
            EMonster::Draconov => 65,
            EMonster::Thanatos => 90,
            EMonster::Vertraag => 99,
            EMonster::Ascendant => 101,
            EMonster::Amberlagna => 107,
        }
    }

    /// The roster id of this creature.
    #[verifier::when_used_as_spec(spec_id)]
    pub fn id(self) -> (r: u32)
        ensures
            r == self.spec_id(),
    {
        match self {
            EMonster::Koi => 49,
            EMonster::Tanuki => 50,
            EMonster::Dodo => 52,
            EMonster::Skorch => 68,
            EMonster::Shockhopper => 75,
            EMonster::Bard => 110,
            EMonster::Vaero => 7,
            EMonster::Frosty => 15,
            EMonster::MadEye => 20,
            EMonster::Nightwing => 21,
            EMonster::Toxiquus => 22,
            EMonster::Magmamoth => 25,
            EMonster::Glowfly => 27,
            EMonster::Raduga => 32,
            EMonster::Kanko => 51,
            EMonster::Glowdra => 64,
            EMonster::Draconov => 65,
            EMonster::Thanatos => 90,
            EMonster::Vertraag => 99,
            EMonster::Ascendant => 101,
            EMonster::Amberlagna => 107,
        }
    }

    /// Whether drawing this creature as a starter costs the engine one
    /// extra hidden draw for its flying animation.
    pub open spec fn spec_is_animated(id: u32) -> bool {
        id == 7 || id == 15 || id == 20 || id == 21 || id == 22 || id == 25 || id == 27 || id == 32
            || id == 51 || id == 64 || id == 65 || id == 90 || id == 99 || id == 101 || id == 107
    }

    /// Whether drawing this creature as a starter costs the engine one
    /// extra hidden draw for its flying animation.
    #[verifier::when_used_as_spec(spec_is_animated)]
    pub fn is_animated(id: u32) -> (r: bool)
        ensures
            r == EMonster::spec_is_animated(id),
    {
        id == 7 || id == 15 || id == 20 || id == 21 || id == 22 || id == 25 || id == 27 || id == 32
            || id == 51 || id == 64 || id == 65 || id == 90 || id == 99 || id == 101 || id == 107
    }
}

/// The exploration abilities the generation rules test for, in the order
/// of the game's ability table.
#[derive(Clone, Copy, PartialEq, Eq, Structural)]
pub enum Ability {
    BreakWall,
    Mount,
    Flying,
    ImprovedFlying,
    SecretVision,
    Ignite,
    Light,
    Crush,
    BigRock,
    Grappling,
    BlobForm,
    Levitate,
    MountOrFlying,
}

impl Ability {
    /// Position of this ability in the ability table.
    pub open spec fn spec_index(self) -> u32 {
        match self {
            Ability::BreakWall => 0,
            Ability::Mount => 1,
            Ability::Flying => 2,
            Ability::ImprovedFlying => 3,
            Ability::SecretVision => 4,
            Ability::Ignite => 5,
            Ability::Light => 6,
            Ability::Crush => 7,
            Ability::BigRock => 8,
            Ability::Grappling => 9,
            Ability::BlobForm => 10,
            Ability::Levitate => 11,
            Ability::MountOrFlying => 12,
        }
    }

    /// Position of this ability in the ability table.
    #[verifier::when_used_as_spec(spec_index)]
    pub fn index(self) -> (r: u32)
        ensures
            r == self.spec_index(),
    {
        match self {
            Ability::BreakWall => 0,
            Ability::Mount => 1,
            Ability::Flying => 2,
            Ability::ImprovedFlying => 3,
            Ability::SecretVision => 4,
            Ability::Ignite => 5,
            Ability::Light => 6,
            Ability::Crush => 7,
            Ability::BigRock => 8,
            Ability::Grappling => 9,
            Ability::BlobForm => 10,
            Ability::Levitate => 11,
            Ability::MountOrFlying => 12,
        }
    }
}

/// One creature of the roster.
pub struct Monster {
    pub id: u32,
    pub name: String,
    pub explore_action: u32,
    pub monster_types: Vec<u32>,
}

/// One creature type.
pub struct MonsterType {
    pub id: u32,
    pub name: String,
}

/// One exploration action.
pub struct ExploreAction {
    pub id: u32,
    pub name: String,
}

/// One exploration ability: the actions that grant it.
pub struct ExploreAbility {
    pub name: String,
    pub explore_actions: Vec<u32>,
}

} // verus!
