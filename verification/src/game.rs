//! The result record of one whole simulation run.

use vstd::prelude::*;
use crate::bravery::{BraveryData, BraveryModel};
use crate::relic::{RelicData, RelicModel};

verus! {

/// A game result as the specification sees it.
#[verifier::ext_equal]
pub ghost struct GameModel {
    pub seed: u32,
    pub is_randomizer: bool,
    pub is_bravery: bool,
    pub is_relic: bool,
    pub mapping: Option<Seq<Option<u32>>>,
    pub bravery_data: Option<BraveryModel>,
    pub relics: Option<RelicModel>,
}

/// The seed, the mode flags, and the three optional results. Two game
/// results are equal exactly when all of it compares equal.
#[derive(Debug, PartialEq)]
pub struct Game {
    pub seed: u32,
    pub is_randomizer: bool,
    pub is_bravery: bool,
    pub is_relic: bool,

    pub mapping: Option<Vec<Option<u32>>>,
    pub bravery_data: Option<BraveryData>,
    pub relics: Option<RelicData>,
}

impl View for Game {
    type V = GameModel;

    open spec fn view(&self) -> GameModel {
        GameModel {
            seed: self.seed,
            is_randomizer: self.is_randomizer,
            is_bravery: self.is_bravery,
            is_relic: self.is_relic,
            mapping: match self.mapping {
                Some(m) => Some(m@),
                None => None,
            },
            bravery_data: match self.bravery_data {
                Some(b) => Some(b@),
                None => None,
            },
            relics: match self.relics {
                Some(r) => Some(r@),
                None => None,
            },
        }
    }
}

impl Game {
    /// Whether this run failed to generate: bravery mode was requested
    /// and no assignment could be produced.
    pub fn is_bad_seed(&self) -> (r: bool)
        ensures
            r == (self.is_bravery && self@.bravery_data is None),
    {
        self.is_bravery && match self.bravery_data {
            None => true,
            Some(_) => false,
        }
    }
}

} // verus!
