//! The orchestrator: one seed and three mode flags in, one game result
//! out, with the three simulators run in the game's fixed order over a
//! single generator.

use vstd::prelude::*;
use crate::bravery::{BraveryData, BraveryMode, BraveryOutcome, BraveryModel, initial_bravery, mapping_seq, spec_get_monsters};
use crate::game::{Game, GameModel};
use crate::game_data::GameData;
use crate::prng::{Prng, spec_init};
use crate::randomizer::{RandomizerMode, spec_get_mapping};
use crate::relic::{RelicData, RelicMode, RelicModel, spec_get_relics};

verus! {

/// Draws a run may spend before it is declared failed. Far beyond any
/// physically realizable run, so the bound never binds in practice; it
/// exists so that every redraw loop provably terminates.
pub const DEFAULT_DRAW_BUDGET: u64 = 0x1000_0000_0000_0000;

/// The relic stage and the assembled result, after the earlier stages
/// have settled the mapping and the bravery assignment.
pub open spec fn spec_finish_game(
    data: GameData,
    seed: u32,
    is_randomizer: bool,
    is_bravery: bool,
    is_relic: bool,
    mapping: Option<Seq<Option<u32>>>,
    bravery: Option<BraveryModel>,
    p: Prng,
) -> GameModel {
    let relics: Option<RelicModel> = if is_relic {
        match spec_get_relics(
            data,
            is_bravery,
            match bravery {
                Some(b) => b,
                None => initial_bravery(),
            },
            p,
        ) {
            None => None,
            Some((r, p2)) => Some(r),
        }
    } else {
        None
    };
    GameModel { seed, is_randomizer, is_bravery, is_relic, mapping, bravery_data: bravery, relics }
}

/// The bravery stage onward.
pub open spec fn spec_game_after_mapping(
    data: GameData,
    seed: u32,
    is_randomizer: bool,
    is_bravery: bool,
    is_relic: bool,
    mapping: Option<Seq<Option<u32>>>,
    p: Prng,
) -> GameModel {
    if is_bravery {
        match spec_get_monsters(
            data,
            is_randomizer,
            match mapping {
                Some(m) => m,
                None => Seq::empty(),
            },
            p,
        ) {
            BraveryOutcome::Done(b, p2) => spec_finish_game(
                data,
                seed,
                is_randomizer,
                is_bravery,
                is_relic,
                mapping,
                Some(b),
                p2,
            ),
            // an ungenerable seed (or a spent budget) keeps the mapping
            // but yields neither a bravery assignment nor relics
            _ => GameModel {
                seed,
                is_randomizer,
                is_bravery,
                is_relic,
                mapping,
                bravery_data: None,
                relics: None,
            },
        }
    } else {
        spec_finish_game(data, seed, is_randomizer, is_bravery, is_relic, mapping, None, p)
    }
}

/// One whole run: the generator seeded once, then the randomizer, the
/// bravery and the relic stages in the game's fixed order.
pub open spec fn spec_generate_game(
    data: GameData,
    seed: u32,
    is_randomizer: bool,
    is_bravery: bool,
    is_relic: bool,
    budget: u64,
) -> GameModel {
    let p0 = spec_init(seed, budget);
    if is_randomizer {
        match spec_get_mapping(data, p0) {
            None => GameModel {
                seed,
                is_randomizer,
                is_bravery,
                is_relic,
                mapping: None,
                bravery_data: None,
                relics: None,
            },
            Some((mp, p1)) => spec_game_after_mapping(
                data,
                seed,
                is_randomizer,
                is_bravery,
                is_relic,
                Some(mp),
                p1,
            ),
        }
    } else {
        spec_game_after_mapping(data, seed, is_randomizer, is_bravery, is_relic, None, p0)
    }
}

/// One whole run with an explicit draw budget.
#[verifier::rlimit(100)]
pub fn generate_game_with_budget(
    data: &GameData,
    seed: u32,
    is_randomizer: bool,
    is_bravery: bool,
    is_relic: bool,
    budget: u64,
) -> (r: Game)
    requires
        data.wf(),
    ensures
        r@ == spec_generate_game(*data, seed, is_randomizer, is_bravery, is_relic, budget),
        r.seed == seed,
        r.is_randomizer == is_randomizer,
        r.is_bravery == is_bravery,
        r.is_relic == is_relic,
{
    let mut random = Prng::init_state(seed, budget);
    let mapping: Option<Vec<Option<u32>>> = if is_randomizer {
        match RandomizerMode::get_mapping(&mut random, data) {
            None => {
                let g = Game {
                    seed,
                    is_randomizer,
                    is_bravery,
                    is_relic,
                    mapping: None,
                    bravery_data: None,
                    relics: None,
                };
                proof {
                    assert(g@ =~= spec_generate_game(
                        *data,
                        seed,
                        is_randomizer,
                        is_bravery,
                        is_relic,
                        budget,
                    ));
                }
                return g;
            },
            Some(mp) => Some(mp),
        }
    } else {
        None
    };
    let ghost mapping_view: Option<Seq<Option<u32>>> = match &mapping {
        Some(m) => Some(m@),
        None => None,
    };
    proof {
        assert(spec_generate_game(*data, seed, is_randomizer, is_bravery, is_relic, budget)
            == spec_game_after_mapping(
            *data,
            seed,
            is_randomizer,
            is_bravery,
            is_relic,
            mapping_view,
            random,
        ));
    }
    let bravery_data: Option<BraveryData> = if is_bravery {
        match BraveryMode::get_monsters(&mut random, is_randomizer, &mapping, data) {
            None => {
                let g = Game {
                    seed,
                    is_randomizer,
                    is_bravery,
                    is_relic,
                    mapping,
                    bravery_data: None,
                    relics: None,
                };
                proof {
                    assert(g@ =~= spec_generate_game(
                        *data,
                        seed,
                        is_randomizer,
                        is_bravery,
                        is_relic,
                        budget,
                    ));
                }
                return g;
            },
            Some(bd) => Some(bd),
        }
    } else {
        None
    };
    let ghost bravery_view: Option<BraveryModel> = match &bravery_data {
        Some(b) => Some(b@),
        None => None,
    };
    proof {
        assert(mapping_seq(mapping) == (match mapping_view {
            Some(m) => m,
            None => Seq::<Option<u32>>::empty(),
        }));
        assert(spec_generate_game(*data, seed, is_randomizer, is_bravery, is_relic, budget)
            == spec_finish_game(
            *data,
            seed,
            is_randomizer,
            is_bravery,
            is_relic,
            mapping_view,
            bravery_view,
            random,
        ));
    }
    let relics: Option<RelicData> = if is_relic {
        match RelicMode::get_relics(&mut random, is_bravery, &bravery_data, data) {
            None => None,
            Some(rd) => Some(rd),
        }
    } else {
        None
    };
    let g = Game { seed, is_randomizer, is_bravery, is_relic, mapping, bravery_data, relics };
    proof {
        assert(g@ =~= spec_generate_game(
            *data,
            seed,
            is_randomizer,
            is_bravery,
            is_relic,
            budget,
        ));
    }
    g
}

/// One whole run under the default draw budget, as the game performs it.
pub fn generate_game(
    data: &GameData,
    seed: u32,
    is_randomizer: bool,
    is_bravery: bool,
    is_relic: bool,
) -> (r: Game)
    requires
        data.wf(),
    ensures
        r@ == spec_generate_game(
            *data,
            seed,
            is_randomizer,
            is_bravery,
            is_relic,
            DEFAULT_DRAW_BUDGET,
        ),
{
    generate_game_with_budget(data, seed, is_randomizer, is_bravery, is_relic, DEFAULT_DRAW_BUDGET)
}


/// Determinism: a game result is a function of the reference data, the
/// seed, the mode flags and the draw budget alone, so two independent
/// runs over the same inputs produce structurally equal results.
pub proof fn lemma_generate_game_deterministic(
    data: GameData,
    seed: u32,
    is_randomizer: bool,
    is_bravery: bool,
    is_relic: bool,
    budget: u64,
    g1: GameModel,
    g2: GameModel,
)
    requires
        g1 == spec_generate_game(data, seed, is_randomizer, is_bravery, is_relic, budget),
        g2 == spec_generate_game(data, seed, is_randomizer, is_bravery, is_relic, budget),
    ensures
        g1 == g2,
{
}

} // verus!
