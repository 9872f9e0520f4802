//! The randomizer simulator: a creature-replacement mapping.
//!
//! The mapping sends every roster id in the randomizable range to a
//! distinct replacement drawn from the same range. An attempt draws the
//! swimming reward first, then a replacement for every other id in
//! ascending order, each drawn from the shrinking pool under two
//! conditional exclusions; the finished mapping is kept only when it
//! leaves every movement ability reachable, otherwise the whole attempt
//! is thrown away and redrawn.

use vstd::prelude::*;
use crate::game_data::GameData;
use crate::monster::{Ability, KOI, TANUKI};
use crate::prng::{Prng, spec_range_int};

verus! {

/// The pool of randomizable ids, in ascending order.
pub open spec fn initial_pool() -> Seq<u32> {
    Seq::new(106, |i: int| (i + 4) as u32)
}

/// Index of the first occurrence of `x`, or a negative value when absent.
pub open spec fn first_index(s: Seq<u32>, x: u32) -> int
    decreases s.len(),
{
    if s.len() == 0 {
        -1
    } else if s[0] == x {
        0
    } else {
        let r = first_index(s.drop_first(), x);
        if r < 0 {
            -1
        } else {
            r + 1
        }
    }
}

proof fn lemma_first_index(s: Seq<u32>, x: u32)
    ensures
        s.contains(x) <==> 0 <= first_index(s, x) < s.len(),
        first_index(s, x) == -1 || 0 <= first_index(s, x) < s.len(),
        0 <= first_index(s, x) ==> s[first_index(s, x)] == x,
    decreases s.len(),
{
    if s.len() == 0 {
    } else if s[0] == x {
        assert(s.contains(x));
    } else {
        let rest = s.drop_first();
        lemma_first_index(rest, x);
        if s.contains(x) {
            let w = choose|w: int| 0 <= w < s.len() && s[w] == x;
            assert(rest[w - 1] == s[w]);
            assert(rest.contains(x));
        }
        if rest.contains(x) {
            let w = choose|w: int| 0 <= w < rest.len() && rest[w] == x;
            assert(s[w + 1] == rest[w]);
            assert(s.contains(x));
        }
        if rest.contains(x) {
            assert(s[first_index(rest, x) + 1] == rest[first_index(rest, x)]);
        }
    }
}

/// Removing the first occurrence of `x`, the mapping pool's shrink step.
pub open spec fn remove_monster(s: Seq<u32>, x: u32) -> Seq<u32> {
    let i = first_index(s, x);
    if i < 0 {
        s
    } else {
        s.remove(i)
    }
}

proof fn lemma_remove_monster(s: Seq<u32>, x: u32)
    requires
        s.no_duplicates(),
        s.contains(x),
    ensures
        remove_monster(s, x).no_duplicates(),
        remove_monster(s, x).len() == s.len() - 1,
        forall|v: u32| remove_monster(s, x).contains(v) <==> (s.contains(v) && v != x),
{
    lemma_first_index(s, x);
    let i = first_index(s, x);
    let s2 = s.remove(i);
    assert forall|v: u32| s2.contains(v) implies (s.contains(v) && v != x) by {
        let w = choose|w: int| 0 <= w < s2.len() && s2[w] == v;
        if w < i {
            assert(s[w] == v);
        } else {
            assert(s[w + 1] == v);
        }
    }
    assert forall|v: u32| s.contains(v) && v != x implies s2.contains(v) by {
        let w = choose|w: int| 0 <= w < s.len() && s[w] == v;
        if w < i {
            assert(s2[w] == v);
        } else {
            assert(s2[w - 1] == v);
        }
    }
    assert forall|w1: int, w2: int| 0 <= w1 < w2 < s2.len() implies s2[w1] != s2[w2] by {
        let u1: int = if w1 < i { w1 } else { w1 + 1 };
        let u2: int = if w2 < i { w2 } else { w2 + 1 };
        assert(s2[w1] == s[u1] && s2[w2] == s[u2]);
    }
}

/// Whether the exclusion flags admit this candidate.
pub open spec fn spec_accepts(data: GameData, allow_improved_flying: bool, allow_swimming: bool, m: u32) -> bool {
    (allow_improved_flying || !data.spec_has_ability(Ability::ImprovedFlying, m))
        && (allow_swimming || !data.spec_is_swimming(m))
}

/// Improved-flying replacements are barred from ids whose home areas
/// must keep one reachable.
pub open spec fn spec_allow_improved_flying(data: GameData, m: u32) -> bool {
    m != TANUKI && !data.spec_in_area(1, m) && !data.spec_in_area(0, m)
}

/// Swimming replacements are barred except around the water areas.
pub open spec fn spec_allow_swimming(data: GameData, m: u32) -> bool {
    spec_allow_improved_flying(data, m) && !data.spec_in_area(3, m) && !data.spec_in_area(2, m)
        && !data.spec_in_area(4, m) && !data.spec_in_area(5, m) && !data.spec_in_area(7, m)
        && !data.spec_in_area(8, m)
}

/// Redraw from the pool until a candidate passes the exclusion flags.
pub open spec fn spec_rand_monster(
    data: GameData,
    pool: Seq<u32>,
    allow_improved_flying: bool,
    allow_swimming: bool,
    p: Prng,
) -> Option<(u32, Prng)>
    recommends
        1 <= pool.len() <= 106,
    decreases p.budget,
{
    match spec_range_int(p, 0, pool.len() as i32) {
        None => None,
        Some((idx, p2)) => {
            let m = pool[idx as int];
            if spec_accepts(data, allow_improved_flying, allow_swimming, m) {
                Some((m, p2))
            } else {
                spec_rand_monster(data, pool, allow_improved_flying, allow_swimming, p2)
            }
        },
    }
}

/// Replacements for every id of the randomizable range from `m_id` up,
/// in ascending order, skipping the already-assigned swimming role.
pub open spec fn spec_fill_mapping(
    data: GameData,
    m_id: int,
    pool: Seq<u32>,
    mapping: Seq<Option<u32>>,
    p: Prng,
) -> Option<(Seq<Option<u32>>, Seq<u32>, Prng)>
    decreases 110 - m_id when m_id <= 110
{
    if m_id >= 110 {
        Some((mapping, pool, p))
    } else if m_id == KOI {
        spec_fill_mapping(data, m_id + 1, pool, mapping, p)
    } else {
        let aif = spec_allow_improved_flying(data, m_id as u32);
        let asw = spec_allow_swimming(data, m_id as u32);
        match spec_rand_monster(data, pool, aif, asw, p) {
            None => None,
            Some((rm, p2)) => spec_fill_mapping(
                data,
                m_id + 1,
                remove_monster(pool, rm),
                mapping.update(m_id, Some(rm)),
                p2,
            ),
        }
    }
}

/// One whole mapping attempt: the swimming reward first, then all other
/// ids in order.
pub open spec fn spec_mapping_attempt(data: GameData, p: Prng) -> Option<(Seq<Option<u32>>, Prng)> {
    match spec_range_int(p, 0, data.swimming_monsters@.len() as i32) {
        None => None,
        Some((idx, p2)) => {
            let sm = data.swimming_monsters@[idx as int];
            let pool0 = remove_monster(initial_pool(), sm);
            let mapping0 = Seq::new(110, |i: int| if i == KOI { Some(sm) } else { None::<u32> });
            match spec_fill_mapping(data, 4, pool0, mapping0, p2) {
                None => None,
                Some((mp, pool, p3)) => Some((mp, p3)),
            }
        },
    }
}

/// What an id is replaced by: its mapping entry, or itself outside the
/// mapped range.
pub open spec fn spec_replacement(mapping: Seq<Option<u32>>, m: u32) -> u32 {
    if 0 <= m < mapping.len() {
        match mapping[m as int] {
            Some(r) => r,
            None => m,
        }
    } else {
        m
    }
}

/// Whether some id in the list has, after replacement, the ability
/// (mount-or-flying looks for either).
pub open spec fn spec_list_coverage(
    data: GameData,
    mapping: Seq<Option<u32>>,
    list: Seq<u32>,
    ability: Ability,
) -> bool {
    match ability {
        Ability::MountOrFlying => exists|j: int|
            0 <= j < list.len() && (data.spec_has_ability(
                Ability::Mount,
                spec_replacement(mapping, #[trigger] list[j]),
            ) || data.spec_has_ability(Ability::Flying, spec_replacement(mapping, list[j]))),
        _ => exists|j: int|
            0 <= j < list.len() && data.spec_has_ability(
                ability,
                spec_replacement(mapping, #[trigger] list[j]),
            ),
    }
}

/// Coverage over one area, on its full creature list or its randomizer
/// check list.
pub open spec fn spec_area_coverage(
    data: GameData,
    mapping: Seq<Option<u32>>,
    a: int,
    ability: Ability,
    full_monster_list: bool,
) -> bool
    recommends
        0 <= a < 13,
{
    spec_list_coverage(
        data,
        mapping,
        if full_monster_list {
            data.areas@[a].monsters@
        } else {
            data.areas@[a].randomizer_check_list@
        },
        ability,
    )
}

/// The validity check on a finished mapping: each movement ability must
/// stay reachable in one of its listed areas, and secret vision in some
/// area other than the last.
pub open spec fn spec_mapping_valid(data: GameData, mapping: Seq<Option<u32>>) -> bool {
    let mount = spec_area_coverage(data, mapping, 0, Ability::Mount, false)
        || spec_area_coverage(data, mapping, 1, Ability::Mount, false)
        || spec_area_coverage(data, mapping, 2, Ability::Mount, false)
        || spec_area_coverage(data, mapping, 3, Ability::Mount, false)
        || spec_area_coverage(data, mapping, 4, Ability::Mount, false)
        || spec_area_coverage(data, mapping, 5, Ability::Mount, false);
    let mount_or_flying = spec_area_coverage(data, mapping, 0, Ability::MountOrFlying, false)
        || spec_area_coverage(data, mapping, 1, Ability::MountOrFlying, false)
        || spec_area_coverage(data, mapping, 2, Ability::MountOrFlying, false)
        || spec_area_coverage(data, mapping, 3, Ability::MountOrFlying, false);
    let improved_flying = spec_area_coverage(data, mapping, 2, Ability::ImprovedFlying, false)
        || spec_area_coverage(data, mapping, 3, Ability::ImprovedFlying, false)
        || spec_area_coverage(data, mapping, 4, Ability::ImprovedFlying, false)
        || spec_area_coverage(data, mapping, 5, Ability::ImprovedFlying, false)
        || spec_area_coverage(data, mapping, 7, Ability::ImprovedFlying, false)
        || spec_area_coverage(data, mapping, 6, Ability::ImprovedFlying, false);
    let secret_vision = exists|a: int|
        0 <= a < 13 && a != 12 && spec_area_coverage(data, mapping, a, Ability::SecretVision, true);
    mount && mount_or_flying && improved_flying && secret_vision
}

/// Attempts until a mapping passes validation.
pub open spec fn spec_get_mapping(data: GameData, p: Prng) -> Option<(Seq<Option<u32>>, Prng)>
    decreases p.budget,
    via spec_get_mapping_decreases
{
    match spec_mapping_attempt(data, p) {
        None => None,
        Some((mp, p2)) => if spec_mapping_valid(data, mp) {
            Some((mp, p2))
        } else {
            spec_get_mapping(data, p2)
        },
    }
}

#[via_fn]
proof fn spec_get_mapping_decreases(data: GameData, p: Prng) {
    lemma_attempt_budget(data, p);
}

proof fn lemma_rand_monster_budget(
    data: GameData,
    pool: Seq<u32>,
    aif: bool,
    asw: bool,
    p: Prng,
)
    ensures
        spec_rand_monster(data, pool, aif, asw, p) matches Some((m, p2)) ==> p2.budget
            < p.budget,
    decreases p.budget,
{
    if p.budget > 0 {
        match spec_range_int(p, 0, pool.len() as i32) {
            None => {},
            Some((idx, p2)) => {
                lemma_rand_monster_budget(data, pool, aif, asw, p2);
            },
        }
    }
}

proof fn lemma_fill_budget(
    data: GameData,
    m_id: int,
    pool: Seq<u32>,
    mapping: Seq<Option<u32>>,
    p: Prng,
)
    requires
        m_id <= 110,
    ensures
        spec_fill_mapping(data, m_id, pool, mapping, p) matches Some((mp, pl, p2)) ==> p2.budget
            <= p.budget,
    decreases 110 - m_id,
{
    if m_id < 110 {
        if m_id == KOI {
            lemma_fill_budget(data, m_id + 1, pool, mapping, p);
        } else {
            let aif = spec_allow_improved_flying(data, m_id as u32);
            let asw = spec_allow_swimming(data, m_id as u32);
            lemma_rand_monster_budget(data, pool, aif, asw, p);
            match spec_rand_monster(data, pool, aif, asw, p) {
                None => {},
                Some((rm, p2)) => {
                    lemma_fill_budget(
                        data,
                        m_id + 1,
                        remove_monster(pool, rm),
                        mapping.update(m_id, Some(rm)),
                        p2,
                    );
                },
            }
        }
    }
}

proof fn lemma_attempt_budget(data: GameData, p: Prng)
    ensures
        spec_mapping_attempt(data, p) matches Some((mp, p2)) ==> p2.budget < p.budget,
{
    match spec_range_int(p, 0, data.swimming_monsters@.len() as i32) {
        None => {},
        Some((idx, p2)) => {
            let sm = data.swimming_monsters@[idx as int];
            let pool0 = remove_monster(initial_pool(), sm);
            let mapping0 = Seq::new(110, |i: int| if i == KOI { Some(sm) } else { None::<u32> });
            lemma_fill_budget(data, 4, pool0, mapping0, p2);
        },
    }
}


proof fn lemma_first_index_least(s: Seq<u32>, x: u32, i: int)
    requires
        0 <= i < s.len(),
        s[i] == x,
        forall|j: int| 0 <= j < i ==> s[j] != x,
    ensures
        first_index(s, x) == i,
    decreases s.len(),
{
    if i > 0 {
        let rest = s.drop_first();
        assert(forall|j: int| 0 <= j < i - 1 ==> rest[j] == s[j + 1]);
        lemma_first_index_least(rest, x, i - 1);
    }
}

/// Position of the first occurrence of `x`.
fn position_of(v: &Vec<u32>, x: u32) -> (r: usize)
    requires
        v@.contains(x),
    ensures
        r == first_index(v@, x),
        r < v@.len(),
        v@[r as int] == x,
{
    let mut i: usize = 0;
    proof {
        lemma_first_index(v@, x);
    }
    loop
        invariant
            v@.contains(x),
            i <= v@.len(),
            forall|j: int| 0 <= j < i ==> v@[j] != x,
            0 <= first_index(v@, x) < v@.len(),
        decreases v@.len() - i,
    {
        proof {
            lemma_first_index(v@, x);
        }
        if i >= v.len() {
            proof {
                assert(v@[first_index(v@, x)] == x);
                assert(false);
            }
        }
        if v[i] == x {
            proof {
                lemma_first_index_least(v@, x, i as int);
            }
            return i;
        }
        i = i + 1;
    }
}

/// An id's replacement under a mapping.
fn get_replacement(mapping: &Vec<Option<u32>>, m: u32) -> (r: u32)
    requires
        mapping@.len() == 110,
    ensures
        r == spec_replacement(mapping@, m),
{
    if m < 110 {
        match mapping[m as usize] {
            Some(r) => r,
            None => m,
        }
    } else {
        m
    }
}

/// Whether some id in the list keeps the ability after replacement.
fn list_coverage(
    data: &GameData,
    mapping: &Vec<Option<u32>>,
    list: &Vec<u32>,
    ability: Ability,
) -> (r: bool)
    requires
        data.wf(),
        mapping@.len() == 110,
        forall|j: int| 0 <= j < list@.len() ==> #[trigger] list@[j] < 110,
        forall|i: int|
            0 <= i < 110 && #[trigger] mapping@[i] is Some ==> mapping@[i]->0 < 110,
    ensures
        r == spec_list_coverage(*data, mapping@, list@, ability),
{
    let mut j: usize = 0;
    while j < list.len()
        invariant
            data.wf(),
            mapping@.len() == 110,
            forall|jj: int| 0 <= jj < list@.len() ==> #[trigger] list@[jj] < 110,
            forall|i: int|
                0 <= i < 110 && #[trigger] mapping@[i] is Some ==> mapping@[i]->0 < 110,
            j <= list@.len(),
            match ability {
                Ability::MountOrFlying => forall|jj: int|
                    0 <= jj < j ==> !(data.spec_has_ability(
                        Ability::Mount,
                        spec_replacement(mapping@, #[trigger] list@[jj]),
                    ) || data.spec_has_ability(
                        Ability::Flying,
                        spec_replacement(mapping@, list@[jj]),
                    )),
                _ => forall|jj: int|
                    0 <= jj < j ==> !data.spec_has_ability(
                        ability,
                        spec_replacement(mapping@, #[trigger] list@[jj]),
                    ),
            },
        decreases list@.len() - j,
    {
        let repl = get_replacement(mapping, list[j]);
        let found = match ability {
            Ability::MountOrFlying => data.has_ability(Ability::Mount, repl) || data.has_ability(
                Ability::Flying,
                repl,
            ),
            _ => data.has_ability(ability, repl),
        };
        if found {
            return true;
        }
        j = j + 1;
    }
    false
}

/// Coverage over one area.
fn area_coverage(
    data: &GameData,
    mapping: &Vec<Option<u32>>,
    a: u32,
    ability: Ability,
    full_monster_list: bool,
) -> (r: bool)
    requires
        data.wf(),
        a < 13,
        mapping@.len() == 110,
        forall|i: int|
            0 <= i < 110 && #[trigger] mapping@[i] is Some ==> mapping@[i]->0 < 110,
    ensures
        r == spec_area_coverage(*data, mapping@, a as int, ability, full_monster_list),
{
    if full_monster_list {
        list_coverage(data, mapping, &data.areas[a as usize].monsters, ability)
    } else {
        list_coverage(data, mapping, &data.areas[a as usize].randomizer_check_list, ability)
    }
}

/// The whole validity check on a finished mapping.
fn mapping_valid(data: &GameData, mapping: &Vec<Option<u32>>) -> (r: bool)
    requires
        data.wf(),
        mapping@.len() == 110,
        forall|i: int|
            0 <= i < 110 && #[trigger] mapping@[i] is Some ==> mapping@[i]->0 < 110,
    ensures
        r == spec_mapping_valid(*data, mapping@),
{
    let mount = area_coverage(data, mapping, 0, Ability::Mount, false) || area_coverage(
        data,
        mapping,
        1,
        Ability::Mount,
        false,
    ) || area_coverage(data, mapping, 2, Ability::Mount, false) || area_coverage(
        data,
        mapping,
        3,
        Ability::Mount,
        false,
    ) || area_coverage(data, mapping, 4, Ability::Mount, false) || area_coverage(
        data,
        mapping,
        5,
        Ability::Mount,
        false,
    );
    let mount_or_flying = area_coverage(data, mapping, 0, Ability::MountOrFlying, false)
        || area_coverage(data, mapping, 1, Ability::MountOrFlying, false) || area_coverage(
        data,
        mapping,
        2,
        Ability::MountOrFlying,
        false,
    ) || area_coverage(data, mapping, 3, Ability::MountOrFlying, false);
    let improved_flying = area_coverage(data, mapping, 2, Ability::ImprovedFlying, false)
        || area_coverage(data, mapping, 3, Ability::ImprovedFlying, false) || area_coverage(
        data,
        mapping,
        4,
        Ability::ImprovedFlying,
        false,
    ) || area_coverage(data, mapping, 5, Ability::ImprovedFlying, false) || area_coverage(
        data,
        mapping,
        7,
        Ability::ImprovedFlying,
        false,
    ) || area_coverage(data, mapping, 6, Ability::ImprovedFlying, false);
    let mut secret_vision = false;
    let mut a: u32 = 0;
    while a < 13
        invariant
            data.wf(),
            mapping@.len() == 110,
            forall|i: int|
                0 <= i < 110 && #[trigger] mapping@[i] is Some ==> mapping@[i]->0 < 110,
            a <= 13,
            secret_vision == exists|aa: int|
                0 <= aa < a && aa != 12 && spec_area_coverage(
                    *data,
                    mapping@,
                    aa,
                    Ability::SecretVision,
                    true,
                ),
        decreases 13 - a,
    {
        if a != 12 && !secret_vision {
            if area_coverage(data, mapping, a, Ability::SecretVision, true) {
                secret_vision = true;
            }
        }
        a = a + 1;
    }
    mount && mount_or_flying && improved_flying && secret_vision
}

/// Redraw from the pool until a candidate passes the exclusion flags.
fn determine_randomizer_monster(
    random: &mut Prng,
    data: &GameData,
    pool: &Vec<u32>,
    allow_improved_flying: bool,
    allow_swimming: bool,
) -> (r: Option<u32>)
    requires
        data.wf(),
        1 <= pool@.len() <= 106,
        forall|v: u32| pool@.contains(v) ==> v < 110,
    ensures
        match r {
            Some(m) => spec_rand_monster(
                *data,
                pool@,
                allow_improved_flying,
                allow_swimming,
                *old(random),
            ) == Some((m, *final(random))) && pool@.contains(m) && m < 110
                && final(random).budget < old(random).budget,
            None => spec_rand_monster(
                *data,
                pool@,
                allow_improved_flying,
                allow_swimming,
                *old(random),
            ) is None,
        },
{
    loop
        invariant
            data.wf(),
            1 <= pool@.len() <= 106,
            forall|v: u32| pool@.contains(v) ==> v < 110,
            random.budget <= old(random).budget,
            spec_rand_monster(*data, pool@, allow_improved_flying, allow_swimming, *random)
                == spec_rand_monster(
                *data,
                pool@,
                allow_improved_flying,
                allow_swimming,
                *old(random),
            ),
        decreases random.budget,
    {
        match random.range_int(0, pool.len() as i32) {
            None => {
                return None;
            },
            Some(idx) => {
                let m = pool[idx as usize];
                proof {
                    assert(pool@.contains(pool@[idx as int]));
                }
                let ok_flying = allow_improved_flying || !data.has_ability(
                    Ability::ImprovedFlying,
                    m,
                );
                let ok_swimming = allow_swimming || !data.is_swimming(m);
                if ok_flying && ok_swimming {
                    return Some(m);
                }
            },
        }
    }
}

/// Working state of one mapping construction.
pub struct RandomizerMode {
    pool: Vec<u32>,
    mapping: Vec<Option<u32>>,
}

/// Mapping entries outside the randomizable range are empty, the range
/// itself is fully assigned inside the range, and no replacement repeats.
pub open spec fn spec_mapping_complete(mapping: Seq<Option<u32>>) -> bool {
    &&& mapping.len() == 110
    &&& forall|i: int| 0 <= i < 4 ==> mapping[i] is None
    &&& forall|i: int| 4 <= i < 110 ==> (#[trigger] mapping[i]) is Some
    &&& forall|i: int| 4 <= i < 110 ==> 4 <= (#[trigger] mapping[i])->0 < 110
    &&& forall|i: int, j: int|
        4 <= i < j < 110 ==> (#[trigger] mapping[i])->0 != (#[trigger] mapping[j])->0
}

impl RandomizerMode {
    /// One full mapping attempt; says whether it passed validation.
    #[verifier::rlimit(60)]
    #[verifier::loop_isolation(false)]
    fn attempt(&mut self, random: &mut Prng, data: &GameData) -> (r: Option<bool>)
        requires
            data.wf(),
        ensures
            match r {
                Some(valid) => {
                    &&& spec_mapping_attempt(*data, *old(random)) == Some(
                        (final(self).mapping@, *final(random)),
                    )
                    &&& valid == spec_mapping_valid(*data, final(self).mapping@)
                    &&& final(random).budget < old(random).budget
                    &&& spec_mapping_complete(final(self).mapping@)
                },
                None => spec_mapping_attempt(*data, *old(random)) is None,
            },
    {
        // fresh pool of all randomizable ids
        let mut pool: Vec<u32> = Vec::new();
        let mut v: u32 = 4;
        while v < 110
            invariant
                4 <= v <= 110,
                pool@.len() == v - 4,
                forall|i: int| 0 <= i < pool@.len() ==> #[trigger] pool@[i] == i + 4,
            decreases 110 - v,
        {
            pool.push(v);
            v = v + 1;
        }
        proof {
            assert(pool@ =~= initial_pool());
        }
        self.pool = pool;
        // fresh empty mapping
        let mut mapping: Vec<Option<u32>> = Vec::new();
        let mut i: u32 = 0;
        while i < 110
            invariant
                i <= 110,
                mapping@.len() == i,
                forall|j: int| 0 <= j < mapping@.len() ==> #[trigger] mapping@[j] is None,
            decreases 110 - i,
        {
            mapping.push(None);
            i = i + 1;
        }
        self.mapping = mapping;
        // the swimming reward comes first
        let idx = match random.range_int(0, data.swimming_monsters.len() as i32) {
            None => {
                return None;
            },
            Some(idx) => idx,
        };
        let ghost p_mid = *random;
        let sm = data.swimming_monsters[idx as usize];
        proof {
            assert(data.swimming_monsters@[idx as int] == sm);
            assert(4 <= sm < 110);
            assert(initial_pool().contains(sm)) by {
                assert(initial_pool()[sm - 4] == sm);
            }
            assert(self.pool@.no_duplicates());
            lemma_remove_monster(self.pool@, sm);
        }
        let pos = position_of(&self.pool, sm);
        self.pool.remove(pos);
        self.mapping[KOI as usize] = Some(sm);
        let ghost mapping0 = Seq::new(110, |i: int| if i == KOI { Some(sm) } else { None::<u32> });
        proof {
            assert(self.mapping@ =~= mapping0);
            assert(self.pool@ == remove_monster(initial_pool(), sm));
        }
        let ghost fill_target = spec_fill_mapping(*data, 4, self.pool@, self.mapping@, p_mid);
        let ghost b0 = old(random).budget;
        // every other id in ascending order
        let mut m_id: u32 = 4;
        while m_id < 110
            invariant
                data.wf(),
                4 <= m_id <= 110,
                random.budget < b0,
                self.mapping@.len() == 110,
                self.pool@.no_duplicates(),
                forall|v2: u32| self.pool@.contains(v2) ==> 4 <= v2 < 110,
                forall|i: int| 0 <= i < 4 ==> self.mapping@[i] is None,
                forall|i: int|
                    m_id <= i < 110 && i != KOI ==> (#[trigger] self.mapping@[i]) is None,
                forall|i: int|
                    4 <= i < m_id || i == KOI ==> (#[trigger] self.mapping@[i]) is Some,
                forall|i: int|
                    0 <= i < 110 && (#[trigger] self.mapping@[i]) is Some ==> 4 <= self.mapping@[i]->0
                        < 110 && !self.pool@.contains(self.mapping@[i]->0),
                forall|i: int, j: int|
                    0 <= i < j < 110 && (#[trigger] self.mapping@[i]) is Some && (
                    #[trigger] self.mapping@[j]) is Some ==> self.mapping@[i]->0
                        != self.mapping@[j]->0,
                self.pool@.len() == (if m_id > KOI { 110 - m_id } else { 109 - m_id }),
                spec_fill_mapping(*data, m_id as int, self.pool@, self.mapping@, *random)
                    == fill_target,
            decreases 110 - m_id,
        {
            if m_id != KOI {
                let allow_improved_flying = m_id != TANUKI && !data.in_area(1, m_id) && !data.in_area(
                    0,
                    m_id,
                );
                let allow_swimming = allow_improved_flying && !data.in_area(3, m_id) && !data.in_area(
                    2,
                    m_id,
                ) && !data.in_area(4, m_id) && !data.in_area(5, m_id) && !data.in_area(7, m_id)
                    && !data.in_area(8, m_id);
                proof {
                    assert(allow_improved_flying == spec_allow_improved_flying(*data, m_id));
                    assert(allow_swimming == spec_allow_swimming(*data, m_id));
                }
                let rm = match determine_randomizer_monster(
                    random,
                    data,
                    &self.pool,
                    allow_improved_flying,
                    allow_swimming,
                ) {
                    None => {
                        return None;
                    },
                    Some(rm) => rm,
                };
                let ghost pool_before = self.pool@;
                proof {
                    lemma_remove_monster(pool_before, rm);
                    lemma_first_index(pool_before, rm);
                }
                let pos = position_of(&self.pool, rm);
                self.pool.remove(pos);
                self.mapping[m_id as usize] = Some(rm);
                proof {
                    assert(self.pool@ == remove_monster(pool_before, rm));
                    assert forall|v2: u32| self.pool@.contains(v2) implies 4 <= v2 < 110 by {
                        assert(remove_monster(pool_before, rm).contains(v2));
                        assert(pool_before.contains(v2));
                    }
                }
            }
            m_id = m_id + 1;
        }
        let valid = mapping_valid(data, &self.mapping);
        Some(valid)
    }

    /// Draws mapping attempts until one passes validation. Fails only
    /// when the generator's draw budget runs out.
    pub fn get_mapping(random: &mut Prng, data: &GameData) -> (r: Option<Vec<Option<u32>>>)
        requires
            data.wf(),
        ensures
            match r {
                Some(mapping) => {
                    &&& spec_get_mapping(*data, *old(random)) == Some((mapping@, *final(random)))
                    &&& spec_mapping_valid(*data, mapping@)
                    &&& spec_mapping_complete(mapping@)
                },
                None => spec_get_mapping(*data, *old(random)) is None,
            },
    {
        let mut instance = RandomizerMode { pool: Vec::new(), mapping: Vec::new() };
        loop
            invariant
                data.wf(),
                spec_get_mapping(*data, *random) == spec_get_mapping(*data, *old(random)),
            decreases random.budget,
        {
            match instance.attempt(random, data) {
                None => {
                    return None;
                },
                Some(true) => {
                    return Some(instance.mapping);
                },
                Some(false) => {},
            }
        }
    }
}

} // verus!
