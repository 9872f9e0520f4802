//! The game's areas.

use vstd::prelude::*;

verus! {

/// The thirteen areas, in the order of the area table.
#[derive(Clone, Copy, PartialEq, Eq, Structural)]
pub enum Area {
    MountainPath,
    BlueCaves,
    StrongholdDungeon,
    AncientWoods,
    SnowyPeaks,
    SunPalace,
    HorizonBeach,
    MagmaChamber,
    MysticalWorkshop,
    Underworld,
    AbandonedTower,
    BlobBurg,
    ForgottenWorld,
}

impl Area {
    /// Position of this area in the area table.
    pub open spec fn spec_index(self) -> u32 {
        match self {
            Area::MountainPath => 0,
            Area::BlueCaves => 1,
            Area::StrongholdDungeon => 2,
            Area::AncientWoods => 3,
            Area::SnowyPeaks => 4,
            Area::SunPalace => 5,
            Area::HorizonBeach => 6,
            Area::MagmaChamber => 7,
            Area::MysticalWorkshop => 8,
            Area::Underworld => 9,
            Area::AbandonedTower => 10,
            Area::BlobBurg => 11,
            Area::ForgottenWorld => 12,
        }
    }

    /// Position of this area in the area table.
    #[verifier::when_used_as_spec(spec_index)]
    pub fn index(self) -> (r: u32)
        ensures
            r == self.spec_index(),
    {
        match self {
            Area::MountainPath => 0,
            Area::BlueCaves => 1,
            Area::StrongholdDungeon => 2,
            Area::AncientWoods => 3,
            Area::SnowyPeaks => 4,
            Area::SunPalace => 5,
            Area::HorizonBeach => 6,
            Area::MagmaChamber => 7,
            Area::MysticalWorkshop => 8,
            Area::Underworld => 9,
            Area::AbandonedTower => 10,
            Area::BlobBurg => 11,
            Area::ForgottenWorld => 12,
        }
    }
}

/// One area of the map: its creatures and its linked scenes.
pub struct MapArea {
    pub id: u32,
    pub name: String,
    pub monsters: Vec<u32>,
    pub wild_monsters: Vec<u32>,
    pub randomizer_check_list: Vec<u32>,
    pub champions: Vec<u32>,
    pub area_data: Vec<u32>,
}

/// One scene of an area, with its reward chests.
pub struct AreaData {
    pub area_id: u32,
    pub scene_id: u32,
    pub scene_name: String,
    pub chests: Vec<u32>,
}

} // verus!
