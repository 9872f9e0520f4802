//! The bravery simulator: starters, rewards, eggs, army and endgame
//! creatures for the alternate starting-creature mode.
//!
//! The draws follow the game's exact order: swimming reward, gift
//! creature, starters (with a hidden extra draw after animated starters),
//! then per-area eggs rated by one draw per eligible candidate, validated
//! against the movement-coverage rules and retried up to the bound, then
//! the cryomancer pair, the ability army and the endgame creatures.

use vstd::prelude::*;
use crate::game_data::GameData;
use crate::monster::{Ability, EMonster, KOI, TANUKI};
use crate::prng::{Prng, spec_draw, spec_range_int, spec_rating_draw};
use crate::randomizer::spec_replacement;

verus! {

/// Bit pattern of the engine's single-precision fallback probability
/// constant (one tenth), which a fresh rating is compared against before
/// the fallback egg can take an area's slot.
pub const FALLBACK_THRESHOLD_BITS: u32 = 0x3DCC_CCCD;

/// A bravery assignment as the specification sees it.
#[verifier::ext_equal]
pub ghost struct BraveryModel {
    pub shift_offset: u32,
    pub familiar: u32,
    pub swimming: u32,
    pub bex: u32,
    pub cryomancer: Option<u32>,
    pub cryomancer_required: u32,
    pub starters: Seq<u32>,
    pub eggs: Seq<u32>,
    pub end_of_time: Seq<u32>,
    pub army: Seq<Option<u32>>,
}

/// The state every run starts from: placeholder roles and empty lists.
pub open spec fn initial_bravery() -> BraveryModel {
    BraveryModel {
        shift_offset: 0,
        familiar: 0,
        swimming: KOI,
        bex: 0,
        cryomancer: None,
        cryomancer_required: 0,
        starters: Seq::empty(),
        eggs: Seq::empty(),
        end_of_time: Seq::empty(),
        army: Seq::empty(),
    }
}

/// Whether a creature already fills some role, the exclusion consulted
/// before any draw is accepted.
pub open spec fn spec_was_determined(b: BraveryModel, m: u32) -> bool {
    ||| m == b.familiar
    ||| m == b.swimming
    ||| b.cryomancer == Some(m)
    ||| m == b.bex
    ||| b.eggs.contains(m)
    ||| b.end_of_time.contains(m)
    ||| b.army.contains(Some(m))
    ||| exists|i: int| 0 <= i < 3 && i < b.starters.len() && b.starters[i] == m
}

/// An ability test that can leave one creature out of consideration.
pub open spec fn spec_has_ability_ex(
    data: GameData,
    ability: Ability,
    m: u32,
    exclude: Option<u32>,
) -> bool {
    exclude != Some(m) && data.spec_has_ability(ability, m)
}

/// Whether some starter grants the ability (all three slots, or only the
/// two drawn from the general pool).
pub open spec fn spec_starter_cover(
    data: GameData,
    b: BraveryModel,
    ability: Ability,
    exclude: Option<u32>,
    include_familiar: bool,
) -> bool {
    exists|i: int|
        (if include_familiar { 0int } else { 1int }) <= i < 3 && i < b.starters.len()
            && spec_has_ability_ex(data, ability, #[trigger] b.starters[i], exclude)
}

/// Whether the egg of one of the listed areas grants the ability.
pub open spec fn spec_egg_cover(
    data: GameData,
    b: BraveryModel,
    ability: Ability,
    areas: Seq<int>,
    exclude: Option<u32>,
) -> bool {
    exists|k: int|
        0 <= k < areas.len() && 0 <= #[trigger] areas[k] < b.eggs.len() && spec_has_ability_ex(
            data,
            ability,
            b.eggs[areas[k]],
            exclude,
        )
}

/// Wall-breaking stays reachable among starters and the first two areas'
/// eggs.
pub open spec fn spec_has_breakwall(data: GameData, b: BraveryModel, exclude: Option<u32>) -> bool {
    spec_starter_cover(data, b, Ability::BreakWall, exclude, true) || spec_egg_cover(
        data,
        b,
        Ability::BreakWall,
        seq![1, 0],
        exclude,
    )
}

/// A mount stays reachable among the drawn starters and the six early
/// areas' eggs.
pub open spec fn spec_has_mount(data: GameData, b: BraveryModel, exclude: Option<u32>) -> bool {
    spec_starter_cover(data, b, Ability::Mount, exclude, false) || spec_egg_cover(
        data,
        b,
        Ability::Mount,
        seq![1, 0, 2, 3, 4, 5],
        exclude,
    )
}

/// A mount or a flyer stays reachable in the first four areas.
pub open spec fn spec_has_mount_or_flying(
    data: GameData,
    b: BraveryModel,
    exclude: Option<u32>,
) -> bool {
    spec_starter_cover(data, b, Ability::Mount, exclude, false) || spec_starter_cover(
        data,
        b,
        Ability::Flying,
        exclude,
        true,
    ) || spec_egg_cover(data, b, Ability::Mount, seq![1, 0, 2, 3], exclude) || spec_egg_cover(
        data,
        b,
        Ability::Flying,
        seq![1, 0, 2, 3],
        exclude,
    )
}

/// Improved flying stays reachable among the middle areas' eggs.
pub open spec fn spec_has_improved_flying(
    data: GameData,
    b: BraveryModel,
    exclude: Option<u32>,
) -> bool {
    spec_egg_cover(data, b, Ability::ImprovedFlying, seq![2, 3, 4, 5, 6, 7], exclude)
}

/// Secret vision stays reachable among starters, the gift creature and
/// every area's egg but the last area's.
pub open spec fn spec_has_secret_vision(
    data: GameData,
    b: BraveryModel,
    exclude: Option<u32>,
) -> bool {
    ||| spec_starter_cover(data, b, Ability::SecretVision, exclude, false)
    ||| exists|i: int|
        0 <= i < b.eggs.len() && i != 12 && spec_has_ability_ex(
            data,
            Ability::SecretVision,
            #[trigger] b.eggs[i],
            exclude,
        )
    ||| spec_has_ability_ex(data, Ability::SecretVision, b.bex, exclude)
}

/// The coverage validation on a finished egg list.
pub open spec fn spec_eggs_valid(data: GameData, b: BraveryModel) -> bool {
    spec_has_breakwall(data, b, None) && spec_has_mount(data, b, None) && spec_has_mount_or_flying(
        data,
        b,
        None,
    ) && spec_has_improved_flying(data, b, None) && spec_has_secret_vision(data, b, None)
}

/// Redraw from the roster range until a creature passes the exclusions:
/// improved fliers and swimmers only where allowed, ids below the
/// familiar range only where allowed, and never an already-assigned one.
pub open spec fn spec_determine_random(
    data: GameData,
    b: BraveryModel,
    allow_improved_flying: bool,
    allow_swimming: bool,
    allow_familiar: bool,
    p: Prng,
) -> Option<(u32, Prng)>
    decreases p.budget,
{
    let min: i32 = if allow_familiar { 0 } else { 4 };
    match spec_range_int(p, min, (data.monsters@.len() - 1) as i32) {
        None => None,
        Some((mi, p2)) => {
            let m = mi as u32;
            if (!allow_improved_flying && data.spec_has_ability(Ability::ImprovedFlying, m)) || (
            !allow_swimming && data.spec_is_swimming(m)) || spec_was_determined(b, m) {
                spec_determine_random(data, b, allow_improved_flying, allow_swimming, allow_familiar, p2)
            } else {
                Some((m, p2))
            }
        },
    }
}

/// The two starters drawn after the familiar; an animated draw costs one
/// extra hidden draw.
pub open spec fn spec_starter_slots(
    data: GameData,
    b: BraveryModel,
    n: int,
    p: Prng,
) -> Option<(BraveryModel, Prng)>
    decreases n when n >= 0
{
    if n <= 0 {
        Some((b, p))
    } else {
        match spec_determine_random(data, b, false, false, false, p) {
            None => None,
            Some((m, p2)) => {
                let b2 = BraveryModel { starters: b.starters.push(m), ..b };
                if EMonster::spec_is_animated(m) {
                    match spec_draw(p2) {
                        None => None,
                        Some((v, p3)) => spec_starter_slots(data, b2, n - 1, p3),
                    }
                } else {
                    spec_starter_slots(data, b2, n - 1, p2)
                }
            },
        }
    }
}

/// The familiar and both drawn starters.
pub open spec fn spec_determine_starters(data: GameData, b: BraveryModel, p: Prng) -> Option<
    (BraveryModel, Prng),
> {
    match spec_range_int(p, 0, 4) {
        None => None,
        Some((f, p2)) => {
            let b2 = BraveryModel { familiar: f as u32, starters: seq![f as u32], ..b };
            spec_starter_slots(data, b2, 2, p2)
        },
    }
}

/// One area's candidate scan: each not-yet-assigned creature of the
/// area's roster (replaced when the randomizer mapping is active) gets
/// one rating draw, and the best-rated so far is kept.
pub open spec fn spec_egg_candidates(
    data: GameData,
    is_randomizer: bool,
    mapping: Seq<Option<u32>>,
    b: BraveryModel,
    list: Seq<u32>,
    j: int,
    egg: u32,
    best: Option<u32>,
    p: Prng,
) -> Option<(u32, Option<u32>, Prng)>
    decreases list.len() - j when j >= 0
{
    if j >= list.len() {
        Some((egg, best, p))
    } else {
        let repl = if is_randomizer {
            spec_replacement(mapping, list[j])
        } else {
            list[j]
        };
        if !spec_was_determined(b, repl) {
            match spec_rating_draw(p) {
                None => None,
                Some((rating, p2)) => {
                    if best is None || rating > best->0 {
                        spec_egg_candidates(
                            data,
                            is_randomizer,
                            mapping,
                            b,
                            list,
                            j + 1,
                            repl,
                            Some(rating),
                            p2,
                        )
                    } else {
                        spec_egg_candidates(data, is_randomizer, mapping, b, list, j + 1, egg, best, p2)
                    }
                },
            }
        } else {
            spec_egg_candidates(data, is_randomizer, mapping, b, list, j + 1, egg, best, p)
        }
    }
}

/// The fallback override after a scan: when no candidate was kept, the
/// fallback creature takes the slot outright; otherwise, if it is still
/// free, one draw against the threshold and one against the best rating
/// decide whether it takes the slot anyway.
pub open spec fn spec_egg_fallback(
    data: GameData,
    b: BraveryModel,
    egg: u32,
    best: Option<u32>,
    p: Prng,
) -> Option<(u32, Prng)> {
    if egg == 0 {
        Some((TANUKI, p))
    } else if !spec_was_determined(b, TANUKI) {
        match spec_rating_draw(p) {
            None => None,
            Some((r1, p1)) => {
                if r1 < FALLBACK_THRESHOLD_BITS {
                    match spec_rating_draw(p1) {
                        None => None,
                        Some((r2, p2)) => {
                            if best is None || r2 > best->0 {
                                Some((TANUKI, p2))
                            } else {
                                Some((egg, p2))
                            }
                        },
                    }
                } else {
                    Some((egg, p1))
                }
            },
        }
    } else {
        Some((egg, p))
    }
}

/// Eggs for the areas from `a` up, appended in area order.
pub open spec fn spec_determine_eggs(
    data: GameData,
    is_randomizer: bool,
    mapping: Seq<Option<u32>>,
    b: BraveryModel,
    a: int,
    p: Prng,
) -> Option<(BraveryModel, Prng)>
    decreases 13 - a when a <= 13
{
    if a >= 13 {
        Some((b, p))
    } else {
        match spec_egg_candidates(
            data,
            is_randomizer,
            mapping,
            b,
            data.areas@[a].monsters@,
            0,
            0,
            None,
            p,
        ) {
            None => None,
            Some((egg0, best, p2)) => match spec_egg_fallback(data, b, egg0, best, p2) {
                None => None,
                Some((egg, p3)) => spec_determine_eggs(
                    data,
                    is_randomizer,
                    mapping,
                    BraveryModel { eggs: b.eggs.push(egg), ..b },
                    a + 1,
                    p3,
                ),
            },
        }
    }
}

/// How one whole bravery generation can end.
pub ghost enum BraveryOutcome {
    /// The draw budget ran out.
    OutOfBudget,
    /// The retry bound was exhausted: the seed cannot generate.
    Ungenerable,
    /// A finished assignment and the generator state after it.
    Done(BraveryModel, Prng),
}

/// The egg retry loop: draw a fresh egg list, keep it when the coverage
/// validation passes, otherwise redraw, with the starters themselves
/// redrawn every hundredth failure, and give the seed up past the bound.
pub open spec fn spec_egg_retry(
    data: GameData,
    is_randomizer: bool,
    mapping: Seq<Option<u32>>,
    b: BraveryModel,
    tries: int,
    p: Prng,
) -> BraveryOutcome
    decreases 10001 - tries when 0 <= tries <= 10000
{
    let cleared = BraveryModel { eggs: Seq::empty(), ..b };
    match spec_determine_eggs(data, is_randomizer, mapping, cleared, 0, p) {
        None => BraveryOutcome::OutOfBudget,
        Some((b2, p2)) => {
            if spec_eggs_valid(data, b2) {
                BraveryOutcome::Done(b2, p2)
            } else if tries + 1 > 10000 {
                // the hundredth-retry starter redraw cannot intervene
                // before a bail-out: the bound is not a multiple of it
                BraveryOutcome::Ungenerable
            } else if (tries + 1) % 100 == 0 {
                match spec_determine_starters(data, b2, p2) {
                    None => BraveryOutcome::OutOfBudget,
                    Some((b3, p3)) => spec_egg_retry(data, is_randomizer, mapping, b3, tries + 1, p3),
                }
            } else {
                spec_egg_retry(data, is_randomizer, mapping, b2, tries + 1, p2)
            }
        },
    }
}


/// One cryomancer-required candidate: disqualified outright (no draw)
/// when removing it would break a coverage rule it alone sustains,
/// otherwise rated by one draw against the best so far.
pub open spec fn spec_check_cryo(
    data: GameData,
    b: BraveryModel,
    m: u32,
    best_rating: Option<u32>,
    p: Prng,
) -> Option<(Option<(u32, u32)>, Prng)> {
    let disqualified = (data.spec_has_ability(Ability::BreakWall, m) && !spec_has_breakwall(
        data,
        b,
        Some(m),
    )) || (data.spec_has_ability(Ability::ImprovedFlying, m) && !spec_has_breakwall(data, b, Some(m)))
        || (data.spec_has_ability(Ability::SecretVision, m) && !spec_has_secret_vision(
        data,
        b,
        Some(m),
    )) || (data.spec_has_ability(Ability::Mount, m) && !spec_has_mount(data, b, Some(m)));
    if disqualified {
        Some((None, p))
    } else {
        match spec_rating_draw(p) {
            None => None,
            Some((r, p2)) => {
                if best_rating is Some && r <= best_rating->0 {
                    Some((None, p2))
                } else {
                    Some((Some((m, r)), p2))
                }
            },
        }
    }
}

/// The cryomancer-required scan over the eggs, in area order.
pub open spec fn spec_cryo_eggs(
    data: GameData,
    b: BraveryModel,
    j: int,
    best_m: u32,
    best_r: Option<u32>,
    p: Prng,
) -> Option<(u32, Option<u32>, Prng)>
    decreases b.eggs.len() - j when j >= 0
{
    if j >= b.eggs.len() {
        Some((best_m, best_r, p))
    } else {
        match spec_check_cryo(data, b, b.eggs[j], best_r, p) {
            None => None,
            Some((res, p2)) => match res {
                Some((m, r)) => spec_cryo_eggs(data, b, j + 1, m, Some(r), p2),
                None => spec_cryo_eggs(data, b, j + 1, best_m, best_r, p2),
            },
        }
    }
}

/// The cryomancer-required scan over the two drawn starters.
pub open spec fn spec_cryo_starters(
    data: GameData,
    b: BraveryModel,
    i: int,
    best_m: u32,
    best_r: Option<u32>,
    p: Prng,
) -> Option<(u32, Option<u32>, Prng)>
    decreases 3 - i when 1 <= i <= 3
{
    if i >= 3 {
        Some((best_m, best_r, p))
    } else {
        match spec_check_cryo(data, b, b.starters[i], best_r, p) {
            None => None,
            Some((res, p2)) => match res {
                Some((m, r)) => spec_cryo_starters(data, b, i + 1, m, Some(r), p2),
                None => spec_cryo_starters(data, b, i + 1, best_m, best_r, p2),
            },
        }
    }
}

/// The whole cryomancer-required determination: eggs, then the drawn
/// starters, then the gift creature, which overrides the running best
/// outright whenever it qualifies.
pub open spec fn spec_determine_cryo_required(data: GameData, b: BraveryModel, p: Prng) -> Option<
    (u32, Prng),
> {
    match spec_cryo_eggs(data, b, 0, 0, None, p) {
        None => None,
        Some((m1, r1, p1)) => match spec_cryo_starters(data, b, 1, m1, r1, p1) {
            None => None,
            Some((m2, r2, p2)) => match spec_check_cryo(data, b, b.bex, r2, p2) {
                None => None,
                Some((res, p3)) => match res {
                    Some((m, r)) => Some((m, p3)),
                    None => Some((m2, p3)),
                },
            },
        },
    }
}

/// Whether the ability is already granted by a starter, an egg outside
/// the last area, or the gift creature, none of them the
/// cryomancer-required one.
pub open spec fn spec_has_endgame(data: GameData, b: BraveryModel, ability: Ability) -> bool {
    ||| exists|i: int|
        1 <= i < 3 && i < b.starters.len() && data.spec_has_ability(
            ability,
            #[trigger] b.starters[i],
        ) && b.starters[i] != b.cryomancer_required
    ||| exists|i: int|
        0 <= i < b.eggs.len() && i != 12 && data.spec_has_ability(ability, #[trigger] b.eggs[i])
            && b.eggs[i] != b.cryomancer_required
    ||| (data.spec_has_ability(ability, b.bex) && b.bex != b.cryomancer_required)
}

/// The army scan over the whole randomizable range: each eligible,
/// unassigned, ability-matching creature gets one rating draw and the
/// best is kept.
pub open spec fn spec_army_scan(
    data: GameData,
    b: BraveryModel,
    ability: Ability,
    i: int,
    monster: Option<u32>,
    best: Option<u32>,
    p: Prng,
) -> Option<(Option<u32>, Prng)>
    decreases 110 - i when 4 <= i <= 110
{
    if i >= 110 {
        Some((monster, p))
    } else {
        if data.spec_has_ability(ability, i as u32) && !spec_was_determined(b, i as u32) {
            match spec_rating_draw(p) {
                None => None,
                Some((r, p2)) => {
                    if best is None || r > best->0 {
                        spec_army_scan(data, b, ability, i + 1, Some(i as u32), Some(r), p2)
                    } else {
                        spec_army_scan(data, b, ability, i + 1, monster, best, p2)
                    }
                },
            }
        } else {
            spec_army_scan(data, b, ability, i + 1, monster, best, p)
        }
    }
}

/// The seven army abilities, in draw order.
pub open spec fn spec_army_ability(k: int) -> Ability {
    if k == 0 {
        Ability::Ignite
    } else if k == 1 {
        Ability::Light
    } else if k == 2 {
        Ability::Crush
    } else if k == 3 {
        Ability::BigRock
    } else if k == 4 {
        Ability::Grappling
    } else if k == 5 {
        Ability::BlobForm
    } else {
        Ability::Levitate
    }
}

/// One army slot: a fresh unrestricted draw when the ability is already
/// granted, otherwise the scan's best candidate, or nothing at all.
pub open spec fn spec_army_step(data: GameData, b: BraveryModel, ability: Ability, p: Prng) -> Option<
    (BraveryModel, Prng),
> {
    if spec_has_endgame(data, b, ability) {
        match spec_determine_random(data, b, true, false, true, p) {
            None => None,
            Some((m, p2)) => Some((BraveryModel { army: b.army.push(Some(m)), ..b }, p2)),
        }
    } else {
        match spec_army_scan(data, b, ability, 4, None, None, p) {
            None => None,
            Some((mo, p2)) => {
                if mo is Some {
                    Some((BraveryModel { army: b.army.push(mo), ..b }, p2))
                } else {
                    Some((b, p2))
                }
            },
        }
    }
}

/// The army slots from `k` up, in ability order.
pub open spec fn spec_determine_army(data: GameData, b: BraveryModel, k: int, p: Prng) -> Option<
    (BraveryModel, Prng),
>
    decreases 7 - k when k <= 7
{
    if k >= 7 {
        Some((b, p))
    } else {
        match spec_army_step(data, b, spec_army_ability(k), p) {
            None => None,
            Some((b2, p2)) => spec_determine_army(data, b2, k + 1, p2),
        }
    }
}

/// The three endgame creatures, drawn from the unrestricted pool.
pub open spec fn spec_end_of_time(data: GameData, b: BraveryModel, n: int, p: Prng) -> Option<
    (BraveryModel, Prng),
>
    decreases n when n >= 0
{
    if n <= 0 {
        Some((b, p))
    } else {
        match spec_determine_random(data, b, true, true, true, p) {
            None => None,
            Some((m, p2)) => spec_end_of_time(
                data,
                BraveryModel { end_of_time: b.end_of_time.push(m), ..b },
                n - 1,
                p2,
            ),
        }
    }
}


/// The coverage validation reads only the starters, the eggs and the
/// gift creature, so it carries over to any assignment that keeps them.
proof fn lemma_eggs_valid_roles(data: GameData, b1: BraveryModel, b2: BraveryModel)
    requires
        b1.starters == b2.starters,
        b1.eggs == b2.eggs,
        b1.bex == b2.bex,
        spec_eggs_valid(data, b1),
    ensures
        spec_eggs_valid(data, b2),
{
    assert forall|ability: Ability, exclude: Option<u32>, inc: bool|
        spec_starter_cover(data, b1, ability, exclude, inc) implies spec_starter_cover(
        data,
        b2,
        ability,
        exclude,
        inc,
    ) by {
        let i = choose|i: int|
            (if inc { 0int } else { 1int }) <= i < 3 && i < b1.starters.len()
                && spec_has_ability_ex(data, ability, #[trigger] b1.starters[i], exclude);
        assert(b2.starters[i] == b1.starters[i]);
        assert(spec_has_ability_ex(data, ability, b2.starters[i], exclude));
    }
    assert forall|ability: Ability, areas: Seq<int>, exclude: Option<u32>|
        spec_egg_cover(data, b1, ability, areas, exclude) implies spec_egg_cover(
        data,
        b2,
        ability,
        areas,
        exclude,
    ) by {
        let k = choose|k: int|
            0 <= k < areas.len() && 0 <= #[trigger] areas[k] < b1.eggs.len()
                && spec_has_ability_ex(data, ability, b1.eggs[areas[k]], exclude);
        assert(b2.eggs[areas[k]] == b1.eggs[areas[k]]);
        assert(spec_has_ability_ex(data, ability, b2.eggs[areas[k]], exclude));
    }
    assert(spec_has_secret_vision(data, b2, None)) by {
        if exists|i: int|
            0 <= i < b1.eggs.len() && i != 12 && spec_has_ability_ex(
                data,
                Ability::SecretVision,
                #[trigger] b1.eggs[i],
                None,
            ) {
            let i = choose|i: int|
                0 <= i < b1.eggs.len() && i != 12 && spec_has_ability_ex(
                    data,
                    Ability::SecretVision,
                    #[trigger] b1.eggs[i],
                    None,
                );
            assert(b2.eggs[i] == b1.eggs[i]);
            assert(spec_has_ability_ex(data, Ability::SecretVision, b2.eggs[i], None));
        }
    }
}

/// The last draw: the cosmetic shift offset.
pub open spec fn spec_tail_shift(b: BraveryModel, p: Prng) -> BraveryOutcome {
    match spec_range_int(p, 0, 1000) {
        None => BraveryOutcome::OutOfBudget,
        Some((sh, p2)) => BraveryOutcome::Done(BraveryModel { shift_offset: sh as u32, ..b }, p2),
    }
}

/// The endgame creatures, then the shift offset.
pub open spec fn spec_tail_end_of_time(data: GameData, b: BraveryModel, p: Prng) -> BraveryOutcome {
    match spec_end_of_time(data, b, 3, p) {
        None => BraveryOutcome::OutOfBudget,
        Some((b2, p2)) => spec_tail_shift(b2, p2),
    }
}

/// The army, then everything after it.
pub open spec fn spec_tail_army(data: GameData, b: BraveryModel, p: Prng) -> BraveryOutcome {
    match spec_determine_army(data, b, 0, p) {
        None => BraveryOutcome::OutOfBudget,
        Some((b2, p2)) => spec_tail_end_of_time(data, b2, p2),
    }
}

/// The cryomancer-required creature, then everything after it.
pub open spec fn spec_tail_cryo_required(data: GameData, b: BraveryModel, p: Prng) -> BraveryOutcome {
    match spec_determine_cryo_required(data, b, p) {
        None => BraveryOutcome::OutOfBudget,
        Some((cr, p2)) => spec_tail_army(data, BraveryModel { cryomancer_required: cr, ..b }, p2),
    }
}

/// Everything drawn after a valid egg list: the cryomancer gift, the
/// required creature, the army, the endgame creatures and the shift.
pub open spec fn spec_bravery_tail(data: GameData, b: BraveryModel, p: Prng) -> BraveryOutcome {
    match spec_determine_random(data, b, true, false, true, p) {
        None => BraveryOutcome::OutOfBudget,
        Some((cm, p2)) => spec_tail_cryo_required(
            data,
            BraveryModel { cryomancer: Some(cm), ..b },
            p2,
        ),
    }
}

/// One whole bravery generation, in the game's exact draw order.
pub open spec fn spec_get_monsters(
    data: GameData,
    is_randomizer: bool,
    mapping: Seq<Option<u32>>,
    p: Prng,
) -> BraveryOutcome {
    let b0 = initial_bravery();
    match spec_range_int(p, 0, data.swimming_monsters@.len() as i32) {
        None => BraveryOutcome::OutOfBudget,
        Some((idx, p1)) => {
            let b1 = BraveryModel { swimming: data.swimming_monsters@[idx as int], ..b0 };
            match spec_determine_random(data, b1, true, false, false, p1) {
                None => BraveryOutcome::OutOfBudget,
                Some((bx, p2)) => {
                    let b2 = BraveryModel { bex: bx, ..b1 };
                    match spec_determine_starters(data, b2, p2) {
                        None => BraveryOutcome::OutOfBudget,
                        Some((b3, p3)) => match spec_egg_retry(
                            data,
                            is_randomizer,
                            mapping,
                            b3,
                            0,
                            p3,
                        ) {
                            BraveryOutcome::OutOfBudget => BraveryOutcome::OutOfBudget,
                            BraveryOutcome::Ungenerable => BraveryOutcome::Ungenerable,
                            BraveryOutcome::Done(b4, p4) => spec_bravery_tail(data, b4, p4),
                        },
                    }
                },
            }
        },
    }
}

/// The cosmetic variant a reward egg hatches with.
#[derive(Clone, Copy, Debug, PartialEq, Eq, Structural)]
pub enum Shift {
    Normal,
    Light,
    Dark,
}

/// The fixed 32-entry cosmetic variant table, indexed by slot position
/// plus the assignment's shift offset.
pub open spec fn spec_shift_at(k: int) -> Shift {
    if k == 0 { Shift::Dark }
    else if k == 1 { Shift::Normal }
    else if k == 2 { Shift::Dark }
    else if k == 3 { Shift::Light }
    else if k == 4 { Shift::Normal }
    else if k == 5 { Shift::Normal }
    else if k == 6 { Shift::Dark }
    else if k == 7 { Shift::Dark }
    else if k == 8 { Shift::Normal }
    else if k == 9 { Shift::Light }
    else if k == 10 { Shift::Normal }
    else if k == 11 { Shift::Light }
    else if k == 12 { Shift::Normal }
    else if k == 13 { Shift::Dark }
    else if k == 14 { Shift::Normal }
    else if k == 15 { Shift::Normal }
    else if k == 16 { Shift::Dark }
    else if k == 17 { Shift::Light }
    else if k == 18 { Shift::Normal }
    else if k == 19 { Shift::Normal }
    else if k == 20 { Shift::Normal }
    else if k == 21 { Shift::Light }
    else if k == 22 { Shift::Light }
    else if k == 23 { Shift::Normal }
    else if k == 24 { Shift::Dark }
    else if k == 25 { Shift::Normal }
    else if k == 26 { Shift::Normal }
    else if k == 27 { Shift::Light }
    else if k == 28 { Shift::Normal }
    else if k == 29 { Shift::Light }
    else if k == 30 { Shift::Dark }
    else { Shift::Normal }
}

/// The fixed cosmetic variant table, executable.
fn shift_at(k: u32) -> (r: Shift)
    requires
        k < 32,
    ensures
        r == spec_shift_at(k as int),
{
    if k == 0 { Shift::Dark }
    else if k == 1 { Shift::Normal }
    else if k == 2 { Shift::Dark }
    else if k == 3 { Shift::Light }
    else if k == 4 { Shift::Normal }
    else if k == 5 { Shift::Normal }
    else if k == 6 { Shift::Dark }
    else if k == 7 { Shift::Dark }
    else if k == 8 { Shift::Normal }
    else if k == 9 { Shift::Light }
    else if k == 10 { Shift::Normal }
    else if k == 11 { Shift::Light }
    else if k == 12 { Shift::Normal }
    else if k == 13 { Shift::Dark }
    else if k == 14 { Shift::Normal }
    else if k == 15 { Shift::Normal }
    else if k == 16 { Shift::Dark }
    else if k == 17 { Shift::Light }
    else if k == 18 { Shift::Normal }
    else if k == 19 { Shift::Normal }
    else if k == 20 { Shift::Normal }
    else if k == 21 { Shift::Light }
    else if k == 22 { Shift::Light }
    else if k == 23 { Shift::Normal }
    else if k == 24 { Shift::Dark }
    else if k == 25 { Shift::Normal }
    else if k == 26 { Shift::Normal }
    else if k == 27 { Shift::Light }
    else if k == 28 { Shift::Normal }
    else if k == 29 { Shift::Light }
    else if k == 30 { Shift::Dark }
    else { Shift::Normal }
}

/// A finished bravery assignment.
#[derive(Debug, PartialEq)]
pub struct BraveryData {
    pub shift_offset: u32,

    pub familiar: u32,
    pub swimming: u32,
    pub bex: u32,
    pub cryomancer: Option<u32>,
    pub cryomancer_required: u32,

    pub starters: Vec<u32>,
    pub eggs: Vec<u32>,
    pub end_of_time: Vec<u32>,
    pub army: Vec<Option<u32>>,
}

impl View for BraveryData {
    type V = BraveryModel;

    open spec fn view(&self) -> BraveryModel {
        BraveryModel {
            shift_offset: self.shift_offset,
            familiar: self.familiar,
            swimming: self.swimming,
            bex: self.bex,
            cryomancer: self.cryomancer,
            cryomancer_required: self.cryomancer_required,
            starters: self.starters@,
            eggs: self.eggs@,
            end_of_time: self.end_of_time@,
            army: self.army@,
        }
    }
}

impl BraveryData {
    /// The cosmetic variant of each area egg, from the shift offset.
    pub fn get_area_eggs_shift(&self) -> (r: Vec<Shift>)
        ensures
            r@.len() == self.eggs@.len(),
            forall|i: int|
                0 <= i < r@.len() ==> r@[i] == spec_shift_at(
                    (i + self.shift_offset as int) % 32,
                ),
    {
        let mut r: Vec<Shift> = Vec::new();
        let mut i: usize = 0;
        while i < self.eggs.len()
            invariant
                i <= self.eggs@.len(),
                r@.len() == i,
                forall|j: int|
                    0 <= j < i ==> r@[j] == spec_shift_at((j + self.shift_offset as int) % 32),
            decreases self.eggs@.len() - i,
        {
            let k = (((i % 32) as u64 + (self.shift_offset % 32) as u64) % 32) as u32;
            proof {
                vstd::arithmetic::div_mod::lemma_add_mod_noop(
                    i as int,
                    self.shift_offset as int,
                    32,
                );
            }
            r.push(shift_at(k));
            i = i + 1;
        }
        r
    }

    /// The cosmetic variant of each army slot, from the shift offset.
    pub fn get_army_eggs_shift(&self) -> (r: Vec<Shift>)
        ensures
            r@.len() == self.army@.len(),
            forall|i: int|
                0 <= i < r@.len() ==> r@[i] == spec_shift_at(
                    (i + self.shift_offset as int) % 32,
                ),
    {
        let mut r: Vec<Shift> = Vec::new();
        let mut i: usize = 0;
        while i < self.army.len()
            invariant
                i <= self.army@.len(),
                r@.len() == i,
                forall|j: int|
                    0 <= j < i ==> r@[j] == spec_shift_at((j + self.shift_offset as int) % 32),
            decreases self.army@.len() - i,
        {
            let k = (((i % 32) as u64 + (self.shift_offset % 32) as u64) % 32) as u32;
            proof {
                vstd::arithmetic::div_mod::lemma_add_mod_noop(
                    i as int,
                    self.shift_offset as int,
                    32,
                );
            }
            r.push(shift_at(k));
            i = i + 1;
        }
        r
    }
}

/// Every id an assignment holds stays inside the roster, so ability
/// lookups on it cannot go out of bounds.
pub open spec fn bravery_bounded(b: BraveryModel) -> bool {
    &&& b.familiar < 110
    &&& b.swimming < 110
    &&& b.bex < 110
    &&& (b.cryomancer matches Some(c) ==> c < 110)
    &&& b.cryomancer_required < 110
    &&& b.starters.len() <= 3
    &&& forall|i: int| 0 <= i < b.starters.len() ==> #[trigger] b.starters[i] < 110
    &&& forall|i: int| 0 <= i < b.eggs.len() ==> #[trigger] b.eggs[i] < 110
    &&& forall|i: int| 0 <= i < b.end_of_time.len() ==> #[trigger] b.end_of_time[i] < 110
    &&& forall|i: int|
        0 <= i < b.army.len() ==> ((#[trigger] b.army[i]) matches Some(m) ==> m < 110)
}

/// Working state of one bravery generation.
pub struct BraveryMode {
    is_randomizer: bool,
    monsters: BraveryData,
}

impl BraveryMode {
    /// Whether a creature already fills some role.
    fn was_monster_already_determined(&self, m: u32) -> (r: bool)
        ensures
            r == spec_was_determined(self.monsters@, m),
    {
        if m == self.monsters.familiar || m == self.monsters.swimming || m == self.monsters.bex {
            return true;
        }
        match self.monsters.cryomancer {
            Some(c) => if c == m {
                proof {
                    assert(self.monsters@.cryomancer == Some(m));
                }
                return true;
            },
            None => {},
        }
        if crate::game_data::contains_u32(&self.monsters.eggs, m) {
            return true;
        }
        if crate::game_data::contains_u32(&self.monsters.end_of_time, m) {
            return true;
        }
        let mut i: usize = 0;
        while i < self.monsters.army.len()
            invariant
                i <= self.monsters.army@.len(),
                forall|j: int| 0 <= j < i ==> self.monsters.army@[j] != Some(m),
            decreases self.monsters.army@.len() - i,
        {
            match self.monsters.army[i] {
                Some(v) => if v == m {
                    proof {
                        assert(self.monsters.army@[i as int] == Some(m));
                        assert(self.monsters.army@.contains(Some(m)));
                    }
                    return true;
                },
                None => {},
            }
            i = i + 1;
        }
        let mut i: usize = 0;
        while i < 3
            invariant
                i <= 3,
                forall|j: int|
                    0 <= j < i && j < self.monsters.starters@.len()
                        ==> self.monsters.starters@[j] != m,
            decreases 3 - i,
        {
            if self.monsters.starters.len() > i {
                if self.monsters.starters[i] == m {
                    proof {
                        assert(self.monsters@.starters[i as int] == m);
                    }
                    return true;
                }
            }
            i = i + 1;
        }
        proof {
            if self.monsters.army@.contains(Some(m)) {
                let w = choose|w: int|
                    0 <= w < self.monsters.army@.len() && self.monsters.army@[w] == Some(m);
            }
        }
        false
    }

    /// An ability test that can leave one creature out.
    fn has_ability(&self, data: &GameData, ability: Ability, m: u32, exclude: Option<u32>) -> (r:
        bool)
        requires
            data.wf(),
            m < 111,
        ensures
            r == spec_has_ability_ex(*data, ability, m, exclude),
    {
        let excluded = match exclude {
            Some(e) => e == m,
            None => false,
        };
        if excluded {
            proof {
                assert(exclude == Some(m));
            }
            false
        } else {
            data.has_ability(ability, m)
        }
    }
}


/// The mapping handed to the bravery run, as a sequence (empty when the
/// randomizer did not run).
pub open spec fn mapping_seq(mapping: Option<Vec<Option<u32>>>) -> Seq<Option<u32>> {
    match mapping {
        Some(v) => v@,
        None => Seq::empty(),
    }
}

impl BraveryMode {
    /// Whether one of the starter slots grants the ability.
    fn starter_cover(&self, data: &GameData, ability: Ability, exclude: Option<u32>, include_familiar: bool) -> (r: bool)
        requires
            data.wf(),
            bravery_bounded(self.monsters@),
            self.monsters.starters@.len() == 3,
        ensures
            r == spec_starter_cover(*data, self.monsters@, ability, exclude, include_familiar),
    {
        let mut i: usize = if include_familiar { 0 } else { 1 };
        while i < 3
            invariant
                data.wf(),
                bravery_bounded(self.monsters@),
                self.monsters.starters@.len() == 3,
                (if include_familiar { 0int } else { 1int }) <= i <= 3,
                forall|j: int|
                    (if include_familiar { 0int } else { 1int }) <= j < i
                        ==> !spec_has_ability_ex(
                        *data,
                        ability,
                        #[trigger] self.monsters@.starters[j],
                        exclude,
                    ),
            decreases 3 - i,
        {
            if self.has_ability(data, ability, self.monsters.starters[i], exclude) {
                return true;
            }
            i = i + 1;
        }
        false
    }

    /// Whether one area's egg grants the ability.
    fn egg_has(&self, data: &GameData, ability: Ability, a: usize, exclude: Option<u32>) -> (r: bool)
        requires
            data.wf(),
            bravery_bounded(self.monsters@),
            self.monsters.eggs@.len() == 13,
            a < 13,
        ensures
            r == spec_has_ability_ex(*data, ability, self.monsters@.eggs[a as int], exclude),
    {
        proof {
            assert(self.monsters@.eggs[a as int] < 110);
        }
        self.has_ability(data, ability, self.monsters.eggs[a], exclude)
    }

    /// Wall-breaking coverage over starters and the first two areas.
    fn has_breakwall_monster(&self, data: &GameData, exclude: Option<u32>) -> (r: bool)
        requires
            data.wf(),
            bravery_bounded(self.monsters@),
            self.monsters.starters@.len() == 3,
            self.monsters.eggs@.len() == 13,
        ensures
            r == spec_has_breakwall(*data, self.monsters@, exclude),
    {
        let ghost sq: Seq<int> = seq![1, 0];
        proof {
            assert(sq[0] == 1 && sq[1] == 0);
        }
        let r = self.starter_cover(data, Ability::BreakWall, exclude, true) || self.egg_has(
            data,
            Ability::BreakWall,
            1,
            exclude,
        ) || self.egg_has(data, Ability::BreakWall, 0, exclude);
        proof {
            if spec_egg_cover(*data, self.monsters@, Ability::BreakWall, sq, exclude) {
                let k = choose|k: int|
                    0 <= k < sq.len() && 0 <= sq[k] < self.monsters@.eggs.len()
                        && spec_has_ability_ex(
                        *data,
                        Ability::BreakWall,
                        self.monsters@.eggs[sq[k]],
                        exclude,
                    );
            }
        }
        r
    }

    /// Mount coverage over the drawn starters and the six early areas.
    fn has_mount_monster(&self, data: &GameData, exclude: Option<u32>) -> (r: bool)
        requires
            data.wf(),
            bravery_bounded(self.monsters@),
            self.monsters.starters@.len() == 3,
            self.monsters.eggs@.len() == 13,
        ensures
            r == spec_has_mount(*data, self.monsters@, exclude),
    {
        let ghost sq: Seq<int> = seq![1, 0, 2, 3, 4, 5];
        proof {
            assert(sq[0] == 1 && sq[1] == 0 && sq[2] == 2 && sq[3] == 3 && sq[4] == 4 && sq[5]
                == 5);
        }
        let r = self.starter_cover(data, Ability::Mount, exclude, false) || self.egg_has(
            data,
            Ability::Mount,
            1,
            exclude,
        ) || self.egg_has(data, Ability::Mount, 0, exclude) || self.egg_has(
            data,
            Ability::Mount,
            2,
            exclude,
        ) || self.egg_has(data, Ability::Mount, 3, exclude) || self.egg_has(
            data,
            Ability::Mount,
            4,
            exclude,
        ) || self.egg_has(data, Ability::Mount, 5, exclude);
        proof {
            if spec_egg_cover(*data, self.monsters@, Ability::Mount, sq, exclude) {
                let k = choose|k: int|
                    0 <= k < sq.len() && 0 <= sq[k] < self.monsters@.eggs.len()
                        && spec_has_ability_ex(
                        *data,
                        Ability::Mount,
                        self.monsters@.eggs[sq[k]],
                        exclude,
                    );
            }
        }
        r
    }

    /// Mount-or-flying coverage over the first four areas.
    fn has_mount_or_flying_monster(&self, data: &GameData, exclude: Option<u32>) -> (r: bool)
        requires
            data.wf(),
            bravery_bounded(self.monsters@),
            self.monsters.starters@.len() == 3,
            self.monsters.eggs@.len() == 13,
        ensures
            r == spec_has_mount_or_flying(*data, self.monsters@, exclude),
    {
        let ghost sq: Seq<int> = seq![1, 0, 2, 3];
        proof {
            assert(sq[0] == 1 && sq[1] == 0 && sq[2] == 2 && sq[3] == 3);
        }
        let r = self.starter_cover(data, Ability::Mount, exclude, false) || self.starter_cover(
            data,
            Ability::Flying,
            exclude,
            true,
        ) || self.egg_has(data, Ability::Mount, 1, exclude) || self.egg_has(
            data,
            Ability::Mount,
            0,
            exclude,
        ) || self.egg_has(data, Ability::Mount, 2, exclude) || self.egg_has(
            data,
            Ability::Mount,
            3,
            exclude,
        ) || self.egg_has(data, Ability::Flying, 1, exclude) || self.egg_has(
            data,
            Ability::Flying,
            0,
            exclude,
        ) || self.egg_has(data, Ability::Flying, 2, exclude) || self.egg_has(
            data,
            Ability::Flying,
            3,
            exclude,
        );
        proof {
            if spec_egg_cover(*data, self.monsters@, Ability::Mount, sq, exclude) {
                let k = choose|k: int|
                    0 <= k < sq.len() && 0 <= sq[k] < self.monsters@.eggs.len()
                        && spec_has_ability_ex(
                        *data,
                        Ability::Mount,
                        self.monsters@.eggs[sq[k]],
                        exclude,
                    );
            }
            if spec_egg_cover(*data, self.monsters@, Ability::Flying, sq, exclude) {
                let k = choose|k: int|
                    0 <= k < sq.len() && 0 <= sq[k] < self.monsters@.eggs.len()
                        && spec_has_ability_ex(
                        *data,
                        Ability::Flying,
                        self.monsters@.eggs[sq[k]],
                        exclude,
                    );
            }
        }
        r
    }

    /// Improved-flying coverage over the middle areas.
    fn has_improved_flying_monster(&self, data: &GameData, exclude: Option<u32>) -> (r: bool)
        requires
            data.wf(),
            bravery_bounded(self.monsters@),
            self.monsters.starters@.len() == 3,
            self.monsters.eggs@.len() == 13,
        ensures
            r == spec_has_improved_flying(*data, self.monsters@, exclude),
    {
        let ghost sq: Seq<int> = seq![2, 3, 4, 5, 6, 7];
        proof {
            assert(sq[0] == 2 && sq[1] == 3 && sq[2] == 4 && sq[3] == 5 && sq[4] == 6 && sq[5]
                == 7);
        }
        let r = self.egg_has(data, Ability::ImprovedFlying, 2, exclude) || self.egg_has(
            data,
            Ability::ImprovedFlying,
            3,
            exclude,
        ) || self.egg_has(data, Ability::ImprovedFlying, 4, exclude) || self.egg_has(
            data,
            Ability::ImprovedFlying,
            5,
            exclude,
        ) || self.egg_has(data, Ability::ImprovedFlying, 6, exclude) || self.egg_has(
            data,
            Ability::ImprovedFlying,
            7,
            exclude,
        );
        proof {
            if spec_egg_cover(*data, self.monsters@, Ability::ImprovedFlying, sq, exclude) {
                let k = choose|k: int|
                    0 <= k < sq.len() && 0 <= sq[k] < self.monsters@.eggs.len()
                        && spec_has_ability_ex(
                        *data,
                        Ability::ImprovedFlying,
                        self.monsters@.eggs[sq[k]],
                        exclude,
                    );
            }
        }
        r
    }

    /// Secret-vision coverage over starters, eggs and the gift creature.
    fn has_secret_vision_monster(&self, data: &GameData, exclude: Option<u32>) -> (r: bool)
        requires
            data.wf(),
            bravery_bounded(self.monsters@),
            self.monsters.starters@.len() == 3,
            self.monsters.eggs@.len() == 13,
        ensures
            r == spec_has_secret_vision(*data, self.monsters@, exclude),
    {
        if self.starter_cover(data, Ability::SecretVision, exclude, false) {
            return true;
        }
        let mut i: usize = 0;
        while i < 13
            invariant
                data.wf(),
                bravery_bounded(self.monsters@),
                self.monsters.eggs@.len() == 13,
                i <= 13,
                forall|j: int|
                    0 <= j < i && j != 12 ==> !spec_has_ability_ex(
                        *data,
                        Ability::SecretVision,
                        #[trigger] self.monsters@.eggs[j],
                        exclude,
                    ),
            decreases 13 - i,
        {
            if i != 12 {
                if self.egg_has(data, Ability::SecretVision, i, exclude) {
                    return true;
                }
            }
            i = i + 1;
        }
        self.has_ability(data, Ability::SecretVision, self.monsters.bex, exclude)
    }

    /// The whole coverage validation over the current assignment.
    fn eggs_valid(&self, data: &GameData) -> (r: bool)
        requires
            data.wf(),
            bravery_bounded(self.monsters@),
            self.monsters.starters@.len() == 3,
            self.monsters.eggs@.len() == 13,
        ensures
            r == spec_eggs_valid(*data, self.monsters@),
    {
        self.has_breakwall_monster(data, None) && self.has_mount_monster(data, None)
            && self.has_mount_or_flying_monster(data, None) && self.has_improved_flying_monster(
            data,
            None,
        ) && self.has_secret_vision_monster(data, None)
    }

    /// Redraw from the roster range until a creature passes the
    /// exclusions.
    fn determine_random_monster(
        &self,
        random: &mut Prng,
        data: &GameData,
        allow_improved_flying: bool,
        allow_swimming: bool,
        allow_familiar: bool,
    ) -> (r: Option<u32>)
        requires
            data.wf(),
        ensures
            match r {
                Some(m) => spec_determine_random(
                    *data,
                    self.monsters@,
                    allow_improved_flying,
                    allow_swimming,
                    allow_familiar,
                    *old(random),
                ) == Some((m, *final(random))) && m < 110 && !spec_was_determined(self.monsters@, m)
                    && final(random).budget < old(random).budget,
                None => spec_determine_random(
                    *data,
                    self.monsters@,
                    allow_improved_flying,
                    allow_swimming,
                    allow_familiar,
                    *old(random),
                ) is None,
            },
    {
        let min: i32 = if allow_familiar {
            0
        } else {
            4
        };
        let hi: i32 = (data.monsters.len() - 1) as i32;
        loop
            invariant
                data.wf(),
                min == (if allow_familiar { 0int } else { 4int }),
                hi == 110,
                random.budget <= old(random).budget,
                spec_determine_random(
                    *data,
                    self.monsters@,
                    allow_improved_flying,
                    allow_swimming,
                    allow_familiar,
                    *random,
                ) == spec_determine_random(
                    *data,
                    self.monsters@,
                    allow_improved_flying,
                    allow_swimming,
                    allow_familiar,
                    *old(random),
                ),
            decreases random.budget,
        {
            match random.range_int(min, hi) {
                None => {
                    return None;
                },
                Some(mi) => {
                    let m = mi as u32;
                    let rejected = (!allow_improved_flying && data.has_ability(
                        Ability::ImprovedFlying,
                        m,
                    )) || (!allow_swimming && data.is_swimming(m))
                        || self.was_monster_already_determined(m);
                    if !rejected {
                        return Some(m);
                    }
                },
            }
        }
    }

    /// The familiar and both drawn starters; an animated starter costs
    /// one extra hidden draw.
    #[verifier::loop_isolation(false)]
    fn determine_starters(&mut self, random: &mut Prng, data: &GameData) -> (r: Option<()>)
        requires
            data.wf(),
        ensures
            match r {
                Some(_) => {
                    &&& spec_determine_starters(*data, old(self).monsters@, *old(random)) == Some(
                        (final(self).monsters@, *final(random)),
                    )
                    &&& final(self).monsters.starters@.len() == 3
                    &&& final(self).is_randomizer == old(self).is_randomizer
                    &&& (forall|i: int|
                        0 <= i < final(self).monsters.starters@.len()
                            ==> #[trigger] final(self).monsters.starters@[i] < 110)
                    &&& final(self).monsters.eggs == old(self).monsters.eggs
                    &&& final(self).monsters@.end_of_time == old(self).monsters@.end_of_time
                    &&& final(self).monsters@.army == old(self).monsters@.army
                    &&& final(self).monsters@.bex == old(self).monsters@.bex
                    &&& final(self).monsters@.swimming == old(self).monsters@.swimming
                    &&& final(self).monsters@.cryomancer == old(self).monsters@.cryomancer
                    &&& final(self).monsters@.cryomancer_required == old(
                        self,
                    ).monsters@.cryomancer_required
                    &&& final(self).monsters@.shift_offset == old(self).monsters@.shift_offset
                    &&& final(self).monsters@.familiar < 4
                    &&& final(self).monsters@.familiar == final(self).monsters@.starters[0]
                },
                None => spec_determine_starters(*data, old(self).monsters@, *old(random)) is None,
            },
{
        let f = match random.range_int(0, 4) {
            None => {
                return None;
            },
            Some(f) => f,
        };
        self.monsters.familiar = f as u32;
        let mut starters: Vec<u32> = Vec::new();
        starters.push(f as u32);
        self.monsters.starters = starters;
        proof {
            assert(self.monsters@ =~= BraveryModel {
                familiar: f as u32,
                starters: seq![f as u32],
                ..old(self).monsters@
            });
        }
        let ghost b2 = self.monsters@;
        let ghost target = spec_starter_slots(*data, b2, 2, *random);
        let mut n: u32 = 2;
        while n > 0
            invariant
                data.wf(),
                n <= 2,
                self.monsters.starters@.len() == 3 - n,
                self.is_randomizer == old(self).is_randomizer,
                self.monsters@.familiar == b2.familiar,
                self.monsters@.swimming == b2.swimming,
                self.monsters@.bex == b2.bex,
                self.monsters@.cryomancer == b2.cryomancer,
                self.monsters@.cryomancer_required == b2.cryomancer_required,
                self.monsters@.shift_offset == b2.shift_offset,
                self.monsters@.eggs == b2.eggs,
                self.monsters@.end_of_time == b2.end_of_time,
                self.monsters@.army == b2.army,
                self.monsters.starters@.len() >= 1,
                self.monsters.starters@[0] == self.monsters@.familiar,
                self.monsters.eggs == old(self).monsters.eggs,
                forall|i: int|
                    0 <= i < self.monsters.starters@.len()
                        ==> #[trigger] self.monsters.starters@[i] < 110,
                spec_starter_slots(*data, self.monsters@, n as int, *random) == target,
            decreases n,
        {
            let m = match self.determine_random_monster(random, data, false, false, false) {
                None => {
                    return None;
                },
                Some(m) => m,
            };
            self.monsters.starters.push(m);
            if EMonster::is_animated(m) {
                match random.next_u32() {
                    None => {
                        return None;
                    },
                    Some(_) => {},
                }
            }
            n = n - 1;
        }
        proof {
            assert(spec_determine_starters(*data, old(self).monsters@, *old(random)) == Some(
                (self.monsters@, *random),
            ));
        }
        Some(())
    }
}


impl BraveryMode {
    /// One fresh egg list, one egg per area in area order; says whether
    /// it passes the coverage validation.
    #[verifier::loop_isolation(false)]
    #[verifier::rlimit(100)]
    fn determine_eggs(
        &mut self,
        random: &mut Prng,
        data: &GameData,
        mapping: &Option<Vec<Option<u32>>>,
    ) -> (r: Option<bool>)
        requires
            data.wf(),
            bravery_bounded(old(self).monsters@),
            old(self).monsters.starters@.len() == 3,
            old(self).is_randomizer ==> ((*mapping) matches Some(mp) && mp@.len() == 110 && (
            forall|i: int| 0 <= i < 110 && (#[trigger] mp@[i]) is Some ==> mp@[i]->0 < 110)),
        ensures
            match r {
                Some(valid) => {
                    &&& spec_determine_eggs(
                        *data,
                        old(self).is_randomizer,
                        mapping_seq(*mapping),
                        BraveryModel { eggs: Seq::empty(), ..old(self).monsters@ },
                        0,
                        *old(random),
                    ) == Some((final(self).monsters@, *final(random)))
                    &&& valid == spec_eggs_valid(*data, final(self).monsters@)
                    &&& bravery_bounded(final(self).monsters@)
                    &&& final(self).monsters.eggs@.len() == 13
                    &&& final(self).monsters.starters@.len() == 3
                    &&& final(self).is_randomizer == old(self).is_randomizer
                    &&& final(self).monsters@ == (BraveryModel {
                        eggs: final(self).monsters@.eggs,
                        ..old(self).monsters@
                    })
                },
                None => spec_determine_eggs(
                    *data,
                    old(self).is_randomizer,
                    mapping_seq(*mapping),
                    BraveryModel { eggs: Seq::empty(), ..old(self).monsters@ },
                    0,
                    *old(random),
                ) is None,
            },
    {
        self.monsters.eggs = Vec::new();
        proof {
            assert(self.monsters@ =~= BraveryModel { eggs: Seq::empty(), ..old(self).monsters@ });
        }
        let ghost mseq = mapping_seq(*mapping);
        let ghost target = spec_determine_eggs(
            *data,
            self.is_randomizer,
            mseq,
            self.monsters@,
            0,
            *random,
        );
        let mut a: usize = 0;
        while a < 13
            invariant
                a <= 13,
                self.monsters.eggs@.len() == a,
                bravery_bounded(self.monsters@),
                self.monsters.starters@.len() == 3,
                self.is_randomizer == old(self).is_randomizer,
                self.monsters@ == (BraveryModel { eggs: self.monsters@.eggs, ..old(self).monsters@ }),
                spec_determine_eggs(
                    *data,
                    self.is_randomizer,
                    mseq,
                    self.monsters@,
                    a as int,
                    *random,
                ) == target,
            decreases 13 - a,
        {
            let list = &data.areas[a].monsters;
            let mut egg: u32 = 0;
            let mut best: Option<u32> = None;
            let ghost ctarget = spec_egg_candidates(
                *data,
                self.is_randomizer,
                mseq,
                self.monsters@,
                list@,
                0,
                0,
                None,
                *random,
            );
            let mut j: usize = 0;
            while j < list.len()
                invariant
                    j <= list@.len(),
                    egg < 110,
                    spec_egg_candidates(
                        *data,
                        self.is_randomizer,
                        mseq,
                        self.monsters@,
                        list@,
                        j as int,
                        egg,
                        best,
                        *random,
                    ) == ctarget,
                decreases list@.len() - j,
            {
                let mon = list[j];
                let repl: u32 = if self.is_randomizer {
                    match mapping {
                        Some(mp) => match mp[mon as usize] {
                            Some(id) => id,
                            None => mon,
                        },
                        None => mon,
                    }
                } else {
                    mon
                };
                if !self.was_monster_already_determined(repl) {
                    match random.next_rating() {
                        None => {
                            return None;
                        },
                        Some(rating) => {
                            let better = match best {
                                None => true,
                                Some(bb) => rating > bb,
                            };
                            if better {
                                egg = repl;
                                best = Some(rating);
                            }
                        },
                    }
                }
                j = j + 1;
            }
            // the fallback override
            if egg == 0 {
                egg = TANUKI;
            } else if !self.was_monster_already_determined(TANUKI) {
                match random.next_rating() {
                    None => {
                        return None;
                    },
                    Some(r1) => {
                        if r1 < FALLBACK_THRESHOLD_BITS {
                            match random.next_rating() {
                                None => {
                                    return None;
                                },
                                Some(r2) => {
                                    let better = match best {
                                        None => true,
                                        Some(bb) => r2 > bb,
                                    };
                                    if better {
                                        egg = TANUKI;
                                    }
                                },
                            }
                        }
                    },
                }
            }
            let ghost before = self.monsters@;
            self.monsters.eggs.push(egg);
            proof {
                assert(self.monsters@ =~= BraveryModel { eggs: before.eggs.push(egg), ..before });
            }
            a = a + 1;
        }
        let valid = self.eggs_valid(data);
        Some(valid)
    }
}


/// The seven army abilities, in draw order, executable.
fn army_ability(k: u32) -> (r: Ability)
    requires
        k < 7,
    ensures
        r == spec_army_ability(k as int),
{
    if k == 0 {
        Ability::Ignite
    } else if k == 1 {
        Ability::Light
    } else if k == 2 {
        Ability::Crush
    } else if k == 3 {
        Ability::BigRock
    } else if k == 4 {
        Ability::Grappling
    } else if k == 5 {
        Ability::BlobForm
    } else {
        Ability::Levitate
    }
}

impl BraveryMode {
    /// One cryomancer-required candidate.
    fn check_cryomancer_required(
        &self,
        random: &mut Prng,
        data: &GameData,
        m: u32,
        best_rating: Option<u32>,
    ) -> (r: Option<Option<(u32, u32)>>)
        requires
            data.wf(),
            bravery_bounded(self.monsters@),
            self.monsters.starters@.len() == 3,
            self.monsters.eggs@.len() == 13,
            m < 110,
        ensures
            match r {
                Some(res) => spec_check_cryo(*data, self.monsters@, m, best_rating, *old(random))
                    == Some((res, *final(random))),
                None => spec_check_cryo(*data, self.monsters@, m, best_rating, *old(random)) is None,
            },
    {
        let disqualified = (data.has_ability(Ability::BreakWall, m)
            && !self.has_breakwall_monster(data, Some(m))) || (data.has_ability(
            Ability::ImprovedFlying,
            m,
        ) && !self.has_breakwall_monster(data, Some(m))) || (data.has_ability(
            Ability::SecretVision,
            m,
        ) && !self.has_secret_vision_monster(data, Some(m))) || (data.has_ability(Ability::Mount, m)
            && !self.has_mount_monster(data, Some(m)));
        if disqualified {
            return Some(None);
        }
        match random.next_rating() {
            None => None,
            Some(r) => {
                let beaten = match best_rating {
                    Some(bb) => r <= bb,
                    None => false,
                };
                if beaten {
                    Some(None)
                } else {
                    Some(Some((m, r)))
                }
            },
        }
    }

    /// The cryomancer-required determination over eggs, starters and the
    /// gift creature.
    #[verifier::loop_isolation(false)]
    fn determine_cryomancer_required(&self, random: &mut Prng, data: &GameData) -> (r: Option<u32>)
        requires
            data.wf(),
            bravery_bounded(self.monsters@),
            self.monsters.starters@.len() == 3,
            self.monsters.eggs@.len() == 13,
        ensures
            match r {
                Some(cr) => spec_determine_cryo_required(*data, self.monsters@, *old(random))
                    == Some((cr, *final(random))) && cr < 110,
                None => spec_determine_cryo_required(*data, self.monsters@, *old(random)) is None,
            },
    {
        let mut best_m: u32 = 0;
        let mut best_r: Option<u32> = None;
        let ghost etarget = spec_cryo_eggs(*data, self.monsters@, 0, 0, None, *random);
        let mut j: usize = 0;
        while j < 13
            invariant
                j <= 13,
                best_m < 110,
                spec_cryo_eggs(*data, self.monsters@, j as int, best_m, best_r, *random)
                    == etarget,
            decreases 13 - j,
        {
            match self.check_cryomancer_required(random, data, self.monsters.eggs[j], best_r) {
                None => {
                    return None;
                },
                Some(res) => match res {
                    Some((m, r)) => {
                        best_m = m;
                        best_r = Some(r);
                    },
                    None => {},
                },
            }
            j = j + 1;
        }
        let ghost starget = spec_cryo_starters(*data, self.monsters@, 1, best_m, best_r, *random);
        let mut i: usize = 1;
        while i < 3
            invariant
                1 <= i <= 3,
                best_m < 110,
                spec_cryo_starters(*data, self.monsters@, i as int, best_m, best_r, *random)
                    == starget,
            decreases 3 - i,
        {
            match self.check_cryomancer_required(random, data, self.monsters.starters[i], best_r) {
                None => {
                    return None;
                },
                Some(res) => match res {
                    Some((m, r)) => {
                        best_m = m;
                        best_r = Some(r);
                    },
                    None => {},
                },
            }
            i = i + 1;
        }
        match self.check_cryomancer_required(random, data, self.monsters.bex, best_r) {
            None => None,
            Some(res) => match res {
                Some((m, _)) => Some(m),
                None => Some(best_m),
            },
        }
    }

    /// Whether a starter, an egg outside the last area, or the gift
    /// creature already grants the ability without being the
    /// cryomancer-required one.
    #[verifier::loop_isolation(false)]
    fn has_endgame_ability(&self, data: &GameData, ability: Ability) -> (r: bool)
        requires
            data.wf(),
            bravery_bounded(self.monsters@),
            self.monsters.starters@.len() == 3,
            self.monsters.eggs@.len() == 13,
        ensures
            r == spec_has_endgame(*data, self.monsters@, ability),
    {
        let mut i: usize = 1;
        while i < 3
            invariant
                1 <= i <= 3,
                forall|j: int|
                    1 <= j < i ==> !(data.spec_has_ability(
                        ability,
                        #[trigger] self.monsters@.starters[j],
                    ) && self.monsters@.starters[j] != self.monsters@.cryomancer_required),
            decreases 3 - i,
        {
            if data.has_ability(ability, self.monsters.starters[i]) && self.monsters.starters[i]
                != self.monsters.cryomancer_required {
                proof {
                    assert(data.spec_has_ability(ability, self.monsters@.starters[i as int])
                        && self.monsters@.starters[i as int] != self.monsters@.cryomancer_required);
                }
                return true;
            }
            i = i + 1;
        }
        let mut j: usize = 0;
        while j < 13
            invariant
                j <= 13,
                forall|k: int|
                    0 <= k < j && k != 12 ==> !(data.spec_has_ability(
                        ability,
                        #[trigger] self.monsters@.eggs[k],
                    ) && self.monsters@.eggs[k] != self.monsters@.cryomancer_required),
            decreases 13 - j,
        {
            if j != 12 {
                proof {
                    assert(self.monsters@.eggs[j as int] < 110);
                }
                if data.has_ability(ability, self.monsters.eggs[j]) && self.monsters.eggs[j]
                    != self.monsters.cryomancer_required {
                    proof {
                        assert(data.spec_has_ability(ability, self.monsters@.eggs[j as int])
                            && self.monsters@.eggs[j as int] != self.monsters@.cryomancer_required);
                    }
                    return true;
                }
            }
            j = j + 1;
        }
        data.has_ability(ability, self.monsters.bex) && self.monsters.bex
            != self.monsters.cryomancer_required
    }

    /// One army slot.
    #[verifier::loop_isolation(false)]
    fn determine_army_monster(
        &mut self,
        random: &mut Prng,
        data: &GameData,
        ability: Ability,
    ) -> (r: Option<()>)
        requires
            data.wf(),
            bravery_bounded(old(self).monsters@),
            old(self).monsters.starters@.len() == 3,
            old(self).monsters.eggs@.len() == 13,
        ensures
            match r {
                Some(_) => {
                    &&& spec_army_step(*data, old(self).monsters@, ability, *old(random)) == Some(
                        (final(self).monsters@, *final(random)),
                    )
                    &&& bravery_bounded(final(self).monsters@)
                    &&& final(self).monsters.starters@.len() == 3
                    &&& final(self).monsters.eggs@.len() == 13
                    &&& final(self).is_randomizer == old(self).is_randomizer
                    &&& final(self).monsters@ == (BraveryModel {
                        army: final(self).monsters@.army,
                        ..old(self).monsters@
                    })
                },
                None => spec_army_step(*data, old(self).monsters@, ability, *old(random)) is None,
            },
    {
        if self.has_endgame_ability(data, ability) {
            let m = match self.determine_random_monster(random, data, true, false, true) {
                None => {
                    return None;
                },
                Some(m) => m,
            };
            let ghost before = self.monsters@;
            self.monsters.army.push(Some(m));
            proof {
                assert(self.monsters@ =~= BraveryModel {
                    army: before.army.push(Some(m)),
                    ..before
                });
            }
            return Some(());
        }
        let mut monster: Option<u32> = None;
        let mut best: Option<u32> = None;
        let ghost starget = spec_army_scan(*data, self.monsters@, ability, 4, None, None, *random);
        let mut i: u32 = 4;
        while i < 110
            invariant
                4 <= i <= 110,
                monster matches Some(m) ==> m < 110,
                spec_army_scan(*data, self.monsters@, ability, i as int, monster, best, *random)
                    == starget,
            decreases 110 - i,
        {
            if data.has_ability(ability, i) && !self.was_monster_already_determined(i) {
                match random.next_rating() {
                    None => {
                        return None;
                    },
                    Some(rating) => {
                        let better = match best {
                            None => true,
                            Some(bb) => rating > bb,
                        };
                        if better {
                            monster = Some(i);
                            best = Some(rating);
                        }
                    },
                }
            }
            i = i + 1;
        }
        match monster {
            Some(m) => {
                let ghost before = self.monsters@;
                self.monsters.army.push(Some(m));
                proof {
                    assert(self.monsters@ =~= BraveryModel {
                        army: before.army.push(Some(m)),
                        ..before
                    });
                }
            },
            None => {},
        }
        Some(())
    }

    /// All seven army slots, in ability order.
    #[verifier::loop_isolation(false)]
    fn determine_army(&mut self, random: &mut Prng, data: &GameData) -> (r: Option<()>)
        requires
            data.wf(),
            bravery_bounded(old(self).monsters@),
            old(self).monsters.starters@.len() == 3,
            old(self).monsters.eggs@.len() == 13,
        ensures
            match r {
                Some(_) => {
                    &&& spec_determine_army(*data, old(self).monsters@, 0, *old(random)) == Some(
                        (final(self).monsters@, *final(random)),
                    )
                    &&& bravery_bounded(final(self).monsters@)
                    &&& final(self).monsters.starters@.len() == 3
                    &&& final(self).monsters.eggs@.len() == 13
                    &&& final(self).is_randomizer == old(self).is_randomizer
                    &&& final(self).monsters@ == (BraveryModel {
                        army: final(self).monsters@.army,
                        ..old(self).monsters@
                    })
                },
                None => spec_determine_army(*data, old(self).monsters@, 0, *old(random)) is None,
            },
    {
        let ghost target = spec_determine_army(*data, self.monsters@, 0, *random);
        let mut k: u32 = 0;
        while k < 7
            invariant
                k <= 7,
                data.wf(),
                bravery_bounded(self.monsters@),
                self.monsters.starters@.len() == 3,
                self.monsters.eggs@.len() == 13,
                self.is_randomizer == old(self).is_randomizer,
                self.monsters@ == (BraveryModel {
                    army: self.monsters@.army,
                    ..old(self).monsters@
                }),
                spec_determine_army(*data, self.monsters@, k as int, *random) == target,
            decreases 7 - k,
        {
            let ability = army_ability(k);
            match self.determine_army_monster(random, data, ability) {
                None => {
                    return None;
                },
                Some(_) => {},
            }
            k = k + 1;
        }
        Some(())
    }


    /// Everything drawn after a valid egg list.
    #[verifier::loop_isolation(false)]
    #[verifier::rlimit(100)]
    fn finish_assignment(self, random: &mut Prng, data: &GameData) -> (r: Option<BraveryData>)
        requires
            data.wf(),
            bravery_bounded(self.monsters@),
            self.monsters.starters@.len() == 3,
            self.monsters.eggs@.len() == 13,
            self.monsters.end_of_time@.len() == 0,
            self.monsters.army@.len() == 0,
            self.monsters@.familiar == self.monsters@.starters[0],
            spec_eggs_valid(*data, self.monsters@),
        ensures
            match r {
                Some(bd) => {
                    &&& spec_bravery_tail(*data, self.monsters@, *old(random))
                        == BraveryOutcome::Done(bd@, *final(random))
                    &&& bravery_bounded(bd@)
                    &&& bd.starters@.len() == 3
                    &&& bd.eggs@.len() == 13
                    &&& bd.end_of_time@.len() == 3
                    &&& bd.familiar == bd.starters@[0]
                    &&& spec_eggs_valid(*data, bd@)
                },
                None => spec_bravery_tail(*data, self.monsters@, *old(random))
                    is OutOfBudget,
            },
    {
        let ghost b0 = self.monsters@;
        let mut this = self;
        // the cryomancer pair
        let cm = match this.determine_random_monster(random, data, true, false, true) {
            None => {
                return None;
            },
            Some(m) => m,
        };
        let ghost before_cm = this.monsters@;
        this.monsters.cryomancer = Some(cm);
        proof {
            assert(this.monsters@ =~= BraveryModel { cryomancer: Some(cm), ..before_cm });
            assert(spec_bravery_tail(*data, b0, *old(random)) == spec_tail_cryo_required(
                *data,
                this.monsters@,
                *random,
            ));
        }
        let cr = match this.determine_cryomancer_required(random, data) {
            None => {
                return None;
            },
            Some(cr) => cr,
        };
        let ghost before_cr = this.monsters@;
        this.monsters.cryomancer_required = cr;
        proof {
            assert(this.monsters@ =~= BraveryModel { cryomancer_required: cr, ..before_cr });
            assert(spec_bravery_tail(*data, b0, *old(random)) == spec_tail_army(
                *data,
                this.monsters@,
                *random,
            ));
        }
        // the army
        match this.determine_army(random, data) {
            None => {
                return None;
            },
            Some(_) => {},
        }
        proof {
            assert(spec_bravery_tail(*data, b0, *old(random)) == spec_tail_end_of_time(
                *data,
                this.monsters@,
                *random,
            ));
        }
        // the endgame creatures
        let ghost eot_target = spec_end_of_time(*data, this.monsters@, 3, *random);
        let ghost before_eot = this.monsters@;
        let mut n: u32 = 0;
        while n < 3
            invariant
                n <= 3,
                data.wf(),
                bravery_bounded(this.monsters@),
                this.monsters.starters@.len() == 3,
                this.monsters.eggs@.len() == 13,
                this.monsters.end_of_time@.len() == before_eot.end_of_time.len() + n,
                this.monsters@ == (BraveryModel {
                    end_of_time: this.monsters@.end_of_time,
                    ..before_eot
                }),
                spec_end_of_time(*data, this.monsters@, 3 - n as int, *random) == eot_target,
            decreases 3 - n,
        {
            let m = match this.determine_random_monster(random, data, true, true, true) {
                None => {
                    return None;
                },
                Some(m) => m,
            };
            let ghost before = this.monsters@;
            this.monsters.end_of_time.push(m);
            proof {
                assert(this.monsters@ =~= BraveryModel {
                    end_of_time: before.end_of_time.push(m),
                    ..before
                });
            }
            n = n + 1;
        }
        proof {
            assert(spec_bravery_tail(*data, b0, *old(random)) == spec_tail_shift(
                this.monsters@,
                *random,
            ));
        }
        // the cosmetic shift offset
        let sh = match random.range_int(0, 1000) {
            None => {
                return None;
            },
            Some(sh) => sh,
        };
        let ghost before_sh = this.monsters@;
        this.monsters.shift_offset = sh as u32;
        proof {
            assert(this.monsters@ =~= BraveryModel {
                shift_offset: sh as u32,
                ..before_sh
            });
            assert(spec_bravery_tail(*data, b0, *old(random)) == BraveryOutcome::Done(
                this.monsters@,
                *random,
            ));
            assert(spec_eggs_valid(*data, this.monsters@)) by {
                assert(this.monsters@.starters == b0.starters && this.monsters@.eggs == b0.eggs
                    && this.monsters@.bex == b0.bex);
                assert(spec_eggs_valid(*data, b0));
                lemma_eggs_valid_roles(*data, b0, this.monsters@);
                assert(spec_has_breakwall(*data, this.monsters@, None));
                assert(spec_has_mount(*data, this.monsters@, None));
                assert(spec_has_mount_or_flying(*data, this.monsters@, None));
                assert(spec_has_improved_flying(*data, this.monsters@, None));
                assert(spec_has_secret_vision(*data, this.monsters@, None));
            }
        }
        Some(this.monsters)
    }

    /// One whole bravery generation. Gives `None` when the seed cannot
    /// generate within the retry bound, or when the draw budget runs out.
    #[verifier::loop_isolation(false)]
    #[verifier::rlimit(100)]
    #[verifier::spinoff_prover]
    pub fn get_monsters(
        random: &mut Prng,
        is_randomizer: bool,
        mapping: &Option<Vec<Option<u32>>>,
        data: &GameData,
    ) -> (r: Option<BraveryData>)
        requires
            data.wf(),
            is_randomizer ==> ((*mapping) matches Some(mp) && mp@.len() == 110 && (forall|i: int|
                0 <= i < 110 && (#[trigger] mp@[i]) is Some ==> mp@[i]->0 < 110)),
        ensures
            match r {
                Some(bd) => {
                    &&& spec_get_monsters(*data, is_randomizer, mapping_seq(*mapping), *old(random))
                        == BraveryOutcome::Done(bd@, *final(random))
                    &&& bravery_bounded(bd@)
                    &&& bd.starters@.len() == 3
                    &&& bd.eggs@.len() == 13
                    &&& bd.end_of_time@.len() == 3
                    &&& bd.familiar == bd.starters@[0]
                    &&& spec_eggs_valid(*data, bd@)
                },
                None => spec_get_monsters(*data, is_randomizer, mapping_seq(*mapping), *old(random))
                    is OutOfBudget || spec_get_monsters(
                    *data,
                    is_randomizer,
                    mapping_seq(*mapping),
                    *old(random),
                ) is Ungenerable,
            },
    {
        let mut instance = BraveryMode {
            is_randomizer,
            monsters: BraveryData {
                shift_offset: 0,
                familiar: 0,
                swimming: KOI,
                bex: 0,
                cryomancer: None,
                cryomancer_required: 0,
                starters: Vec::new(),
                eggs: Vec::new(),
                end_of_time: Vec::new(),
                army: Vec::new(),
            },
        };
        proof {
            assert(instance.monsters@ =~= initial_bravery());
        }
        let ghost mseq = mapping_seq(*mapping);
        // the swimming reward comes first
        let idx = match random.range_int(0, data.swimming_monsters.len() as i32) {
            None => {
                return None;
            },
            Some(idx) => idx,
        };
        instance.monsters.swimming = data.swimming_monsters[idx as usize];
        proof {
            assert(instance.monsters@ =~= BraveryModel {
                swimming: data.swimming_monsters@[idx as int],
                ..initial_bravery()
            });
        }
        // the gift creature
        let bx = match instance.determine_random_monster(random, data, true, false, false) {
            None => {
                return None;
            },
            Some(m) => m,
        };
        instance.monsters.bex = bx;
        proof {
            assert(instance.monsters@ =~= BraveryModel {
                bex: bx,
                swimming: data.swimming_monsters@[idx as int],
                ..initial_bravery()
            });
        }
        // the starters
        match instance.determine_starters(random, data) {
            None => {
                return None;
            },
            Some(_) => {},
        }
        // eggs, retried under the bound
        let ghost retry_target = spec_egg_retry(
            *data,
            is_randomizer,
            mseq,
            instance.monsters@,
            0,
            *random,
        );
        let mut tries: u32 = 0;
        let mut done = false;
        while !done
            invariant
                data.wf(),
                instance.is_randomizer == is_randomizer,
                bravery_bounded(instance.monsters@),
                instance.monsters.starters@.len() == 3,
                instance.monsters.end_of_time@.len() == 0,
                instance.monsters.army@.len() == 0,
                instance.monsters@.familiar == instance.monsters@.starters[0],
                !done ==> tries <= 10000 && spec_egg_retry(
                    *data,
                    is_randomizer,
                    mseq,
                    instance.monsters@,
                    tries as int,
                    *random,
                ) == retry_target,
                done ==> instance.monsters.eggs@.len() == 13 && retry_target
                    == BraveryOutcome::Done(instance.monsters@, *random) && spec_eggs_valid(
                    *data,
                    instance.monsters@,
                ),
            decreases 10001 - tries, (if done { 0int } else { 1int }),
        {
            match instance.determine_eggs(random, data, mapping) {
                None => {
                    return None;
                },
                Some(valid) => {
                    if valid {
                        done = true;
                    } else {
                        tries = tries + 1;
                        if tries % 100 == 0 {
                            match instance.determine_starters(random, data) {
                                None => {
                                    return None;
                                },
                                Some(_) => {},
                            }
                        }
                        if tries > 10000 {
                            return None;
                        }
                    }
                },
            }
        }
        proof {
            assert(spec_get_monsters(*data, is_randomizer, mseq, *old(random))
                == spec_bravery_tail(*data, instance.monsters@, *random));
        }
        let r = instance.finish_assignment(random, data);
        proof {
            assert(mseq == mapping_seq(*mapping));
        }
        r
    }
}


/// How often a creature id occurs in a list of role ids.
pub open spec fn count_in(s: Seq<u32>, m: u32) -> nat
    decreases s.len(),
{
    if s.len() == 0 {
        0
    } else {
        count_in(s.drop_last(), m) + (if s.last() == m {
            1nat
        } else {
            0
        })
    }
}

/// How often a creature id occurs among the filled army slots.
pub open spec fn count_army(s: Seq<Option<u32>>, m: u32) -> nat
    decreases s.len(),
{
    if s.len() == 0 {
        0
    } else {
        count_army(s.drop_last(), m) + (if s.last() == Some(m) {
            1nat
        } else {
            0
        })
    }
}

/// How many roles of an assignment a creature id fills. The familiar is
/// the first starter and is not counted twice; the cryomancer-required
/// creature names an existing role and is not counted either.
pub open spec fn occurrences(b: BraveryModel, m: u32) -> nat {
    count_in(b.starters, m) + count_in(b.eggs, m) + count_in(b.end_of_time, m) + count_army(
        b.army,
        m,
    ) + (if b.swimming == m {
        1nat
    } else {
        0
    }) + (if b.bex == m {
        1nat
    } else {
        0
    }) + (if b.cryomancer == Some(m) {
        1nat
    } else {
        0
    })
}

/// Exclusivity: no creature fills two roles, with the one exception the
/// generation rules themselves make: the fallback egg creature can be
/// forced into an egg slot even when it is already assigned.
pub open spec fn spec_exclusive(b: BraveryModel) -> bool {
    forall|m: u32| m != TANUKI ==> occurrences(b, m) <= 1
}

proof fn lemma_count_contains(s: Seq<u32>, m: u32)
    ensures
        (count_in(s, m) == 0) <==> !s.contains(m),
    decreases s.len(),
{
    if s.len() > 0 {
        let head = s.drop_last();
        lemma_count_contains(head, m);
        if s.contains(m) {
            let w = choose|w: int| 0 <= w < s.len() && s[w] == m;
            if w < s.len() - 1 {
                assert(head[w] == m);
                assert(head.contains(m));
            }
        }
        if head.contains(m) {
            let w = choose|w: int| 0 <= w < head.len() && head[w] == m;
            assert(s[w] == m);
            assert(s.contains(m));
        }
    }
}

proof fn lemma_count_army_contains(s: Seq<Option<u32>>, m: u32)
    ensures
        (count_army(s, m) == 0) <==> !s.contains(Some(m)),
    decreases s.len(),
{
    if s.len() > 0 {
        let head = s.drop_last();
        lemma_count_army_contains(head, m);
        if s.contains(Some(m)) {
            let w = choose|w: int| 0 <= w < s.len() && s[w] == Some(m);
            if w < s.len() - 1 {
                assert(head[w] == Some(m));
                assert(head.contains(Some(m)));
            }
        }
        if head.contains(Some(m)) {
            let w = choose|w: int| 0 <= w < head.len() && head[w] == Some(m);
            assert(s[w] == Some(m));
            assert(s.contains(Some(m)));
        }
    }
}

proof fn lemma_count_push(s: Seq<u32>, x: u32, m: u32)
    ensures
        count_in(s.push(x), m) == count_in(s, m) + (if x == m {
            1nat
        } else {
            0
        }),
{
    assert(s.push(x).drop_last() =~= s);
    assert(s.push(x).last() == x);
}

proof fn lemma_count_army_push(s: Seq<Option<u32>>, x: Option<u32>, m: u32)
    ensures
        count_army(s.push(x), m) == count_army(s, m) + (if x == Some(m) {
            1nat
        } else {
            0
        }),
{
    assert(s.push(x).drop_last() =~= s);
    assert(s.push(x).last() == x);
}

/// A creature that fills no role at all occurs zero times.
proof fn lemma_fresh_occurrences(b: BraveryModel, m: u32)
    requires
        !spec_was_determined(b, m),
        b.starters.len() <= 3,
    ensures
        occurrences(b, m) == 0,
{
    lemma_count_contains(b.starters, m);
    if b.starters.contains(m) {
        let w = choose|w: int| 0 <= w < b.starters.len() && b.starters[w] == m;
    }
    lemma_count_contains(b.eggs, m);
    lemma_count_contains(b.end_of_time, m);
    lemma_count_army_contains(b.army, m);
}

/// Appending a creature that fills no role yet keeps exclusivity, for
/// each of the three role lists and the army.
proof fn lemma_exclusive_push_starter(b: BraveryModel, m: u32)
    requires
        spec_exclusive(b),
        !spec_was_determined(b, m),
        b.starters.len() <= 3,
    ensures
        spec_exclusive(BraveryModel { starters: b.starters.push(m), ..b }),
{
    let b2 = BraveryModel { starters: b.starters.push(m), ..b };
    lemma_fresh_occurrences(b, m);
    assert forall|v: u32| v != TANUKI implies occurrences(b2, v) <= 1 by {
        lemma_count_push(b.starters, m, v);
        assert(occurrences(b, v) <= 1);
        assert(occurrences(b2, v) == occurrences(b, v) + (if m == v { 1nat } else { 0 }));
    }
}

proof fn lemma_exclusive_push_egg(b: BraveryModel, m: u32)
    requires
        spec_exclusive(b),
        !spec_was_determined(b, m) || m == TANUKI,
        b.starters.len() <= 3,
    ensures
        spec_exclusive(BraveryModel { eggs: b.eggs.push(m), ..b }),
{
    let b2 = BraveryModel { eggs: b.eggs.push(m), ..b };
    if !spec_was_determined(b, m) {
        lemma_fresh_occurrences(b, m);
    }
    assert forall|v: u32| v != TANUKI implies occurrences(b2, v) <= 1 by {
        lemma_count_push(b.eggs, m, v);
        assert(occurrences(b, v) <= 1);
        assert(occurrences(b2, v) == occurrences(b, v) + (if m == v { 1nat } else { 0 }));
    }
}

proof fn lemma_exclusive_push_end_of_time(b: BraveryModel, m: u32)
    requires
        spec_exclusive(b),
        !spec_was_determined(b, m),
        b.starters.len() <= 3,
    ensures
        spec_exclusive(BraveryModel { end_of_time: b.end_of_time.push(m), ..b }),
{
    let b2 = BraveryModel { end_of_time: b.end_of_time.push(m), ..b };
    lemma_fresh_occurrences(b, m);
    assert forall|v: u32| v != TANUKI implies occurrences(b2, v) <= 1 by {
        lemma_count_push(b.end_of_time, m, v);
        assert(occurrences(b, v) <= 1);
        assert(occurrences(b2, v) == occurrences(b, v) + (if m == v { 1nat } else { 0 }));
    }
}

proof fn lemma_exclusive_push_army(b: BraveryModel, m: u32)
    requires
        spec_exclusive(b),
        !spec_was_determined(b, m),
        b.starters.len() <= 3,
    ensures
        spec_exclusive(BraveryModel { army: b.army.push(Some(m)), ..b }),
{
    let b2 = BraveryModel { army: b.army.push(Some(m)), ..b };
    lemma_fresh_occurrences(b, m);
    assert forall|v: u32| v != TANUKI implies occurrences(b2, v) <= 1 by {
        lemma_count_army_push(b.army, Some(m), v);
        assert(occurrences(b, v) <= 1);
        assert(occurrences(b2, v) == occurrences(b, v) + (if Some(m) == Some(v) { 1nat } else { 0 }));
    }
}

/// A creature accepted by the redraw loop fills no role yet.
proof fn lemma_determine_random_fresh(
    data: GameData,
    b: BraveryModel,
    allow_improved_flying: bool,
    allow_swimming: bool,
    allow_familiar: bool,
    p: Prng,
)
    ensures
        spec_determine_random(data, b, allow_improved_flying, allow_swimming, allow_familiar, p)
            matches Some((m, p2)) ==> !spec_was_determined(b, m),
    decreases p.budget,
{
    let min: i32 = if allow_familiar { 0 } else { 4 };
    match spec_range_int(p, min, (data.monsters@.len() - 1) as i32) {
        None => {},
        Some((mi, p2)) => {
            lemma_determine_random_fresh(
                data,
                b,
                allow_improved_flying,
                allow_swimming,
                allow_familiar,
                p2,
            );
        },
    }
}


/// A creature accepted by the redraw loop lies inside the allowed range.
proof fn lemma_determine_random_range(
    data: GameData,
    b: BraveryModel,
    allow_improved_flying: bool,
    allow_swimming: bool,
    allow_familiar: bool,
    p: Prng,
)
    requires
        data.monsters@.len() == 111,
    ensures
        spec_determine_random(data, b, allow_improved_flying, allow_swimming, allow_familiar, p)
            matches Some((m, p2)) ==> (if allow_familiar {
            0int
        } else {
            4int
        }) <= m < 110,
    decreases p.budget,
{
    let min: i32 = if allow_familiar { 0 } else { 4 };
    match spec_range_int(p, min, (data.monsters@.len() - 1) as i32) {
        None => {},
        Some((mi, p2)) => {
            lemma_determine_random_range(
                data,
                b,
                allow_improved_flying,
                allow_swimming,
                allow_familiar,
                p2,
            );
        },
    }
}

/// Every role a bravery assignment can draw an egg from stays above the
/// familiar range, so a redrawn familiar can never collide with one.
pub open spec fn roles_above_familiar(b: BraveryModel) -> bool {
    &&& b.swimming >= 4
    &&& b.bex >= 4
    &&& (b.cryomancer matches Some(c) ==> c >= 4)
    &&& forall|i: int| 0 <= i < b.eggs.len() ==> #[trigger] b.eggs[i] >= 4
    &&& forall|i: int| 0 <= i < b.end_of_time.len() ==> #[trigger] b.end_of_time[i] >= 4
    &&& forall|i: int|
        0 <= i < b.army.len() ==> ((#[trigger] b.army[i]) matches Some(m) ==> m >= 4)
}

/// The sources eggs are drawn from lie above the familiar range: the
/// areas' creature lists, and the mapping's replacements when the
/// randomizer is active.
pub open spec fn egg_sources_above_familiar(
    data: GameData,
    is_randomizer: bool,
    mapping: Seq<Option<u32>>,
) -> bool {
    &&& forall|a: int, j: int|
        0 <= a < 13 && 0 <= j < data.areas@[a].monsters@.len()
            ==> #[trigger] data.areas@[a].monsters@[j] >= 4
    &&& is_randomizer ==> forall|i: int|
        0 <= i < mapping.len() ==> ((#[trigger] mapping[i]) matches Some(m) ==> m >= 4)
}

proof fn lemma_exclusive_replace_starters(b: BraveryModel, f: u32)
    requires
        spec_exclusive(b),
        roles_above_familiar(b),
        f < 4,
    ensures
        spec_exclusive(BraveryModel { familiar: f, starters: seq![f], ..b }),
{
    let b2 = BraveryModel { familiar: f, starters: seq![f], ..b };
    assert forall|v: u32| v != TANUKI implies occurrences(b2, v) <= 1 by {
        assert(spec_exclusive(b));
        assert(occurrences(b, v) <= 1);
        assert(count_in(seq![f], v) == (if f == v {
            1nat
        } else {
            0
        })) by {
            assert(count_in(Seq::<u32>::empty(), v) == 0);
            assert(seq![f].drop_last() =~= Seq::<u32>::empty());
            assert(seq![f].last() == f);
        }
        assert(count_in(b.starters, v) >= 0);
        if v == f {
            lemma_count_contains(b.eggs, v);
            if b.eggs.contains(v) {
                let w = choose|w: int| 0 <= w < b.eggs.len() && b.eggs[w] == v;
            }
            lemma_count_contains(b.end_of_time, v);
            if b.end_of_time.contains(v) {
                let w = choose|w: int| 0 <= w < b.end_of_time.len() && b.end_of_time[w] == v;
            }
            lemma_count_army_contains(b.army, v);
            if b.army.contains(Some(v)) {
                let w = choose|w: int| 0 <= w < b.army.len() && b.army[w] == Some(v);
            }
            assert(occurrences(b2, v) <= 1);
        }
    }
}

/// The starter slots keep exclusivity and touch nothing else.
proof fn lemma_starter_slots_exclusive(data: GameData, b: BraveryModel, n: int, p: Prng)
    requires
        spec_exclusive(b),
        n >= 0,
        b.starters.len() + n <= 3,
    ensures
        spec_starter_slots(data, b, n, p) matches Some((b2, p2)) ==> (spec_exclusive(b2)
            && b2 == (BraveryModel { starters: b2.starters, ..b }) && b2.starters.len()
            == b.starters.len() + n && (forall|i: int|
            0 <= i < b.starters.len() ==> #[trigger] b2.starters[i] == b.starters[i])),
    decreases n,
{
    if n > 0 {
        lemma_determine_random_fresh(data, b, false, false, false, p);
        match spec_determine_random(data, b, false, false, false, p) {
            None => {},
            Some((m, p2)) => {
                let bp = BraveryModel { starters: b.starters.push(m), ..b };
                lemma_exclusive_push_starter(b, m);
                if EMonster::spec_is_animated(m) {
                    match spec_draw(p2) {
                        None => {},
                        Some((v, p3)) => {
                            lemma_starter_slots_exclusive(data, bp, n - 1, p3);
                        },
                    }
                } else {
                    lemma_starter_slots_exclusive(data, bp, n - 1, p2);
                }
            },
        }
    }
}

/// A starter redraw keeps exclusivity when every other role lies above
/// the familiar range.
proof fn lemma_determine_starters_exclusive(data: GameData, b: BraveryModel, p: Prng)
    requires
        spec_exclusive(b),
        roles_above_familiar(b),
    ensures
        spec_determine_starters(data, b, p) matches Some((b2, p2)) ==> (spec_exclusive(b2) && b2
            == (BraveryModel { familiar: b2.familiar, starters: b2.starters, ..b })
            && b2.starters.len() == 3),
{
    match spec_range_int(p, 0, 4) {
        None => {},
        Some((f, p2)) => {
            let bf = BraveryModel { familiar: f as u32, starters: seq![f as u32], ..b };
            lemma_exclusive_replace_starters(b, f as u32);
            lemma_starter_slots_exclusive(data, bf, 2, p2);
        },
    }
}

/// The candidate scan yields either no candidate or a fresh one.
proof fn lemma_egg_candidates_fresh(
    data: GameData,
    is_randomizer: bool,
    mapping: Seq<Option<u32>>,
    b: BraveryModel,
    list: Seq<u32>,
    j: int,
    egg: u32,
    best: Option<u32>,
    p: Prng,
)
    requires
        j >= 0,
        egg == 0 || (!spec_was_determined(b, egg) && 4 <= egg < 110),
        forall|k: int| 0 <= k < list.len() ==> 4 <= #[trigger] list[k] < 110,
        is_randomizer ==> forall|i: int|
            0 <= i < mapping.len() ==> ((#[trigger] mapping[i]) matches Some(m) ==> 4 <= m < 110),
    ensures
        spec_egg_candidates(data, is_randomizer, mapping, b, list, j, egg, best, p) matches Some(
            (egg2, best2, p2),
        ) ==> (egg2 == 0 || (!spec_was_determined(b, egg2) && 4 <= egg2 < 110)),
    decreases list.len() - j,
{
    if j < list.len() {
        let repl = if is_randomizer {
            spec_replacement(mapping, list[j])
        } else {
            list[j]
        };
        assert(4 <= repl < 110);
        if !spec_was_determined(b, repl) {
            match spec_rating_draw(p) {
                None => {},
                Some((rating, p2)) => {
                    if best is None || rating > best->0 {
                        lemma_egg_candidates_fresh(
                            data,
                            is_randomizer,
                            mapping,
                            b,
                            list,
                            j + 1,
                            repl,
                            Some(rating),
                            p2,
                        );
                    } else {
                        lemma_egg_candidates_fresh(
                            data,
                            is_randomizer,
                            mapping,
                            b,
                            list,
                            j + 1,
                            egg,
                            best,
                            p2,
                        );
                    }
                },
            }
        } else {
            lemma_egg_candidates_fresh(data, is_randomizer, mapping, b, list, j + 1, egg, best, p);
        }
    }
}

/// The fallback yields the scanned candidate or the fallback creature.
proof fn lemma_egg_fallback_shape(
    data: GameData,
    b: BraveryModel,
    egg: u32,
    best: Option<u32>,
    p: Prng,
)
    ensures
        spec_egg_fallback(data, b, egg, best, p) matches Some((e, p2)) ==> (e == TANUKI || (e
            == egg && egg != 0)),
{
}

/// Drawing all thirteen eggs keeps exclusivity and every other role.
proof fn lemma_determine_eggs_exclusive(
    data: GameData,
    is_randomizer: bool,
    mapping: Seq<Option<u32>>,
    b: BraveryModel,
    a: int,
    p: Prng,
)
    requires
        data.wf(),
        egg_sources_above_familiar(data, is_randomizer, mapping),
        is_randomizer ==> (mapping.len() == 110 && forall|i: int|
            0 <= i < mapping.len() ==> ((#[trigger] mapping[i]) matches Some(m) ==> m < 110)),
        0 <= a <= 13,
        spec_exclusive(b),
        roles_above_familiar(b),
        b.starters.len() <= 3,
    ensures
        spec_determine_eggs(data, is_randomizer, mapping, b, a, p) matches Some((b2, p2)) ==> (
        spec_exclusive(b2) && roles_above_familiar(b2) && b2 == (BraveryModel {
            eggs: b2.eggs,
            ..b
        }) && b2.starters.len() <= 3),
    decreases 13 - a,
{
    if a < 13 {
        let list = data.areas@[a].monsters@;
        assert forall|k: int| 0 <= k < list.len() implies 4 <= #[trigger] list[k] < 110 by {
            assert(data.areas@[a].monsters@[k] == list[k]);
            assert(data.areas@[a].monsters@[k] < 110);
            assert(data.areas@[a].monsters@[k] >= 4);
        }
        lemma_egg_candidates_fresh(data, is_randomizer, mapping, b, list, 0, 0, None, p);
        match spec_egg_candidates(data, is_randomizer, mapping, b, list, 0, 0, None, p) {
            None => {},
            Some((egg0, best, p2)) => {
                lemma_egg_fallback_shape(data, b, egg0, best, p2);
                match spec_egg_fallback(data, b, egg0, best, p2) {
                    None => {},
                    Some((egg, p3)) => {
                        let b2 = BraveryModel { eggs: b.eggs.push(egg), ..b };
                        lemma_exclusive_push_egg(b, egg);
                        assert(roles_above_familiar(b2)) by {
                            assert(egg >= 4);
                            assert(forall|i: int|
                                0 <= i < b.eggs.len() ==> #[trigger] b2.eggs[i] == b.eggs[i]);
                        }
                        lemma_determine_eggs_exclusive(data, is_randomizer, mapping, b2, a + 1, p3);
                    },
                }
            },
        }
    }
}

/// The whole egg retry loop keeps exclusivity and the roles drawn
/// before it.
proof fn lemma_egg_retry_exclusive(
    data: GameData,
    is_randomizer: bool,
    mapping: Seq<Option<u32>>,
    b: BraveryModel,
    tries: int,
    p: Prng,
)
    requires
        data.wf(),
        egg_sources_above_familiar(data, is_randomizer, mapping),
        is_randomizer ==> (mapping.len() == 110 && forall|i: int|
            0 <= i < mapping.len() ==> ((#[trigger] mapping[i]) matches Some(m) ==> m < 110)),
        0 <= tries <= 10000,
        spec_exclusive(b),
        roles_above_familiar(b),
        b.starters.len() <= 3,
        b.cryomancer is None,
        b.end_of_time.len() == 0,
        b.army.len() == 0,
    ensures
        spec_egg_retry(data, is_randomizer, mapping, b, tries, p) matches BraveryOutcome::Done(
            b2,
            p2,
        ) ==> (spec_exclusive(b2) && roles_above_familiar(b2) && b2.starters.len() <= 3
            && b2.cryomancer is None && b2.end_of_time.len() == 0 && b2.army.len() == 0
            && b2.swimming == b.swimming && b2.bex == b.bex),
    decreases 10001 - tries,
{
    let cleared = BraveryModel { eggs: Seq::empty(), ..b };
    assert(spec_exclusive(cleared)) by {
        assert forall|v: u32| v != TANUKI implies occurrences(cleared, v) <= 1 by {
            assert(occurrences(b, v) <= 1);
            assert(count_in(cleared.eggs, v) == 0);
        }
    }
    lemma_determine_eggs_exclusive(data, is_randomizer, mapping, cleared, 0, p);
    match spec_determine_eggs(data, is_randomizer, mapping, cleared, 0, p) {
        None => {},
        Some((b2, p2)) => {
            if spec_eggs_valid(data, b2) {
            } else if tries + 1 > 10000 {
            } else if (tries + 1) % 100 == 0 {
                lemma_determine_starters_exclusive(data, b2, p2);
                match spec_determine_starters(data, b2, p2) {
                    None => {},
                    Some((b3, p3)) => {
                        lemma_egg_retry_exclusive(data, is_randomizer, mapping, b3, tries + 1, p3);
                    },
                }
            } else {
                lemma_egg_retry_exclusive(data, is_randomizer, mapping, b2, tries + 1, p2);
            }
        },
    }
}


proof fn lemma_exclusive_set_cryo(b: BraveryModel, m: u32)
    requires
        spec_exclusive(b),
        !spec_was_determined(b, m),
        b.starters.len() <= 3,
        b.cryomancer is None,
    ensures
        spec_exclusive(BraveryModel { cryomancer: Some(m), ..b }),
{
    let b2 = BraveryModel { cryomancer: Some(m), ..b };
    lemma_fresh_occurrences(b, m);
    assert forall|v: u32| v != TANUKI implies occurrences(b2, v) <= 1 by {
        assert(occurrences(b, v) <= 1);
        assert(occurrences(b2, v) == occurrences(b, v) + (if m == v {
            1nat
        } else {
            0
        }));
    }
}

proof fn lemma_exclusive_set_bex(b: BraveryModel, m: u32)
    requires
        spec_exclusive(b),
        !spec_was_determined(b, m),
        b.starters.len() <= 3,
    ensures
        spec_exclusive(BraveryModel { bex: m, ..b }),
{
    let b2 = BraveryModel { bex: m, ..b };
    lemma_fresh_occurrences(b, m);
    assert forall|v: u32| v != TANUKI implies occurrences(b2, v) <= 1 by {
        assert(occurrences(b, v) <= 1);
        if v == m {
            assert(occurrences(b2, v) <= occurrences(b, v) + 1);
        } else {
            assert(occurrences(b2, v) <= occurrences(b, v));
        }
    }
}

/// Fields outside the counted roles do not disturb exclusivity.
proof fn lemma_exclusive_same_roles(b: BraveryModel, b2: BraveryModel)
    requires
        spec_exclusive(b),
        b2.starters == b.starters,
        b2.eggs == b.eggs,
        b2.end_of_time == b.end_of_time,
        b2.army == b.army,
        b2.swimming == b.swimming,
        b2.bex == b.bex,
        b2.cryomancer == b.cryomancer,
    ensures
        spec_exclusive(b2),
{
    assert forall|v: u32| v != TANUKI implies occurrences(b2, v) <= 1 by {
        assert(occurrences(b, v) <= 1);
        assert(occurrences(b2, v) == occurrences(b, v));
    }
}

/// The army scan yields no candidate or a fresh one.
proof fn lemma_army_scan_fresh(
    data: GameData,
    b: BraveryModel,
    ability: Ability,
    i: int,
    monster: Option<u32>,
    best: Option<u32>,
    p: Prng,
)
    requires
        4 <= i <= 110,
        monster matches Some(m) ==> !spec_was_determined(b, m),
    ensures
        spec_army_scan(data, b, ability, i, monster, best, p) matches Some((mo, p2)) ==> (
        mo matches Some(m) ==> !spec_was_determined(b, m)),
    decreases 110 - i,
{
    if i < 110 {
        if data.spec_has_ability(ability, i as u32) && !spec_was_determined(b, i as u32) {
            match spec_rating_draw(p) {
                None => {},
                Some((r, p2)) => {
                    if best is None || r > best->0 {
                        lemma_army_scan_fresh(data, b, ability, i + 1, Some(i as u32), Some(r), p2);
                    } else {
                        lemma_army_scan_fresh(data, b, ability, i + 1, monster, best, p2);
                    }
                },
            }
        } else {
            lemma_army_scan_fresh(data, b, ability, i + 1, monster, best, p);
        }
    }
}

/// One army slot keeps exclusivity and touches only the army.
proof fn lemma_army_step_exclusive(data: GameData, b: BraveryModel, ability: Ability, p: Prng)
    requires
        spec_exclusive(b),
        b.starters.len() <= 3,
    ensures
        spec_army_step(data, b, ability, p) matches Some((b2, p2)) ==> (spec_exclusive(b2) && b2
            == (BraveryModel { army: b2.army, ..b })),
{
    if spec_has_endgame(data, b, ability) {
        lemma_determine_random_fresh(data, b, true, false, true, p);
        match spec_determine_random(data, b, true, false, true, p) {
            None => {},
            Some((m, p2)) => {
                lemma_exclusive_push_army(b, m);
            },
        }
    } else {
        lemma_army_scan_fresh(data, b, ability, 4, None, None, p);
        match spec_army_scan(data, b, ability, 4, None, None, p) {
            None => {},
            Some((mo, p2)) => {
                match mo {
                    Some(m) => {
                        lemma_exclusive_push_army(b, m);
                    },
                    None => {},
                }
            },
        }
    }
}

proof fn lemma_determine_army_exclusive(data: GameData, b: BraveryModel, k: int, p: Prng)
    requires
        spec_exclusive(b),
        b.starters.len() <= 3,
        k <= 7,
    ensures
        spec_determine_army(data, b, k, p) matches Some((b2, p2)) ==> (spec_exclusive(b2) && b2
            == (BraveryModel { army: b2.army, ..b })),
    decreases 7 - k,
{
    if k < 7 {
        lemma_army_step_exclusive(data, b, spec_army_ability(k), p);
        match spec_army_step(data, b, spec_army_ability(k), p) {
            None => {},
            Some((b2, p2)) => {
                lemma_determine_army_exclusive(data, b2, k + 1, p2);
            },
        }
    }
}

proof fn lemma_end_of_time_exclusive(data: GameData, b: BraveryModel, n: int, p: Prng)
    requires
        spec_exclusive(b),
        b.starters.len() <= 3,
        n >= 0,
    ensures
        spec_end_of_time(data, b, n, p) matches Some((b2, p2)) ==> (spec_exclusive(b2) && b2
            == (BraveryModel { end_of_time: b2.end_of_time, ..b })),
    decreases n,
{
    if n > 0 {
        lemma_determine_random_fresh(data, b, true, true, true, p);
        match spec_determine_random(data, b, true, true, true, p) {
            None => {},
            Some((m, p2)) => {
                lemma_exclusive_push_end_of_time(b, m);
                lemma_end_of_time_exclusive(
                    data,
                    BraveryModel { end_of_time: b.end_of_time.push(m), ..b },
                    n - 1,
                    p2,
                );
            },
        }
    }
}

proof fn lemma_bravery_tail_exclusive(data: GameData, b: BraveryModel, p: Prng)
    requires
        spec_exclusive(b),
        b.starters.len() <= 3,
        b.cryomancer is None,
    ensures
        spec_bravery_tail(data, b, p) matches BraveryOutcome::Done(b2, p2) ==> spec_exclusive(b2),
{
    lemma_determine_random_fresh(data, b, true, false, true, p);
    match spec_determine_random(data, b, true, false, true, p) {
        None => {},
        Some((cm, p2)) => {
            let b5 = BraveryModel { cryomancer: Some(cm), ..b };
            lemma_exclusive_set_cryo(b, cm);
            match spec_determine_cryo_required(data, b5, p2) {
                None => {},
                Some((cr, p3)) => {
                    let b6 = BraveryModel { cryomancer_required: cr, ..b5 };
                    lemma_exclusive_same_roles(b5, b6);
                    lemma_determine_army_exclusive(data, b6, 0, p3);
                    match spec_determine_army(data, b6, 0, p3) {
                        None => {},
                        Some((b7, p4)) => {
                            lemma_end_of_time_exclusive(data, b7, 3, p4);
                            match spec_end_of_time(data, b7, 3, p4) {
                                None => {},
                                Some((b8, p5)) => {
                                    match spec_range_int(p5, 0, 1000) {
                                        None => {},
                                        Some((sh, p6)) => {
                                            lemma_exclusive_same_roles(
                                                b8,
                                                BraveryModel { shift_offset: sh as u32, ..b8 },
                                            );
                                        },
                                    }
                                },
                            }
                        },
                    }
                },
            }
        },
    }
}

/// Exclusivity of a finished bravery assignment: no creature id fills
/// more than one role. The familiar is the first starter by definition
/// and the cryomancer-required creature names an existing role, so
/// neither counts as a role of its own; and the one repeat the game's
/// own rules allow is the fallback egg creature, which a forced fallback
/// can place in an egg slot even when it is already assigned elsewhere.
/// Holds whenever the areas' creature lists (and, with the randomizer
/// active, the mapping's replacements) stay above the familiar range,
/// as the game's tables do.
pub proof fn lemma_bravery_exclusive(
    data: GameData,
    is_randomizer: bool,
    mapping: Seq<Option<u32>>,
    p: Prng,
    b: BraveryModel,
    p2: Prng,
)
    requires
        data.wf(),
        egg_sources_above_familiar(data, is_randomizer, mapping),
        is_randomizer ==> (mapping.len() == 110 && forall|i: int|
            0 <= i < mapping.len() ==> ((#[trigger] mapping[i]) matches Some(m) ==> m < 110)),
        spec_get_monsters(data, is_randomizer, mapping, p) == BraveryOutcome::Done(b, p2),
    ensures
        spec_exclusive(b),
{
    let b0 = initial_bravery();
    match spec_range_int(p, 0, data.swimming_monsters@.len() as i32) {
        None => {},
        Some((idx, q1)) => {
            let sw = data.swimming_monsters@[idx as int];
            let b1 = BraveryModel { swimming: sw, ..b0 };
            assert(0 <= idx < data.swimming_monsters@.len());
            assert(4 <= sw < 110);
            assert(spec_exclusive(b1)) by {
                assert forall|v: u32| v != TANUKI implies occurrences(b1, v) <= 1 by {
                    assert(count_in(Seq::<u32>::empty(), v) == 0);
                    assert(count_army(Seq::<Option<u32>>::empty(), v) == 0);
                }
            }
            lemma_determine_random_fresh(data, b1, true, false, false, q1);
            lemma_determine_random_range(data, b1, true, false, false, q1);
            match spec_determine_random(data, b1, true, false, false, q1) {
                None => {},
                Some((bx, q2)) => {
                    let b2 = BraveryModel { bex: bx, ..b1 };
                    lemma_exclusive_set_bex(b1, bx);
                    assert(roles_above_familiar(b2));
                    lemma_determine_starters_exclusive(data, b2, q2);
                    match spec_determine_starters(data, b2, q2) {
                        None => {},
                        Some((b3, q3)) => {
                            assert(roles_above_familiar(b3));
                            lemma_egg_retry_exclusive(data, is_randomizer, mapping, b3, 0, q3);
                            match spec_egg_retry(data, is_randomizer, mapping, b3, 0, q3) {
                                BraveryOutcome::Done(b4, q4) => {
                                    lemma_bravery_tail_exclusive(data, b4, q4);
                                },
                                _ => {},
                            }
                        },
                    }
                },
            }
        },
    }
}

} // verus!
