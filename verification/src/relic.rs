//! The relic table and the relic simulator: one relic and one reward
//! chest per area.
//!
//! Relics are drawn uniformly from the whole table and redrawn on a
//! collision with an already-placed relic, or, when bravery mode is
//! active, on a creature-type restriction that neither the area's egg
//! nor any starter satisfies. The chest is one uniform scene pick
//! followed by one uniform chest pick within that scene.

use vstd::prelude::*;
use crate::bravery::{BraveryData, BraveryModel, initial_bravery};
use crate::game_data::{GameData, contains_u32, linked_scene_ok, lemma_scene_index, lemma_scene_index_least, scene_index};
use crate::map::AreaData;
use crate::prng::{Prng, spec_range_int};

verus! {

/// One relic: its id and, when nonzero, the creature type that must be
/// assigned nearby before the relic may be placed.
pub struct Relic {
    pub id: u32,
    pub name: String,
    pub monster_type_restriction: u32,
}

/// A relic assignment as the specification sees it.
#[verifier::ext_equal]
pub ghost struct RelicModel {
    pub list: Seq<u32>,
    pub area_chests: Seq<(Seq<char>, u32)>,
}

/// A finished relic assignment: one relic id and one (scene, chest)
/// pair per area, in area order.
#[derive(Debug, PartialEq)]
pub struct RelicData {
    pub list: Vec<u32>,
    pub area_chests: Vec<(String, u32)>,
}

impl View for RelicData {
    type V = RelicModel;

    open spec fn view(&self) -> RelicModel {
        RelicModel {
            list: self.list@,
            area_chests: Seq::new(
                self.area_chests@.len(),
                |i: int| (self.area_chests@[i].0@, self.area_chests@[i].1),
            ),
        }
    }
}

/// The bravery assignment the relic draws consult, absent outside
/// bravery mode.
pub open spec fn bravery_view(b: Option<BraveryData>) -> BraveryModel {
    match b {
        Some(bd) => bd@,
        None => initial_bravery(),
    }
}

/// Whether the area's egg or one of the starters carries the creature
/// type a restricted relic demands.
pub open spec fn spec_relic_type_ok(
    data: GameData,
    b: BraveryModel,
    area: int,
    restriction: u32,
) -> bool {
    ||| (0 <= area < b.eggs.len() && data.monsters@[b.eggs[area] as int].monster_types@.contains(
        restriction,
    ))
    ||| exists|i: int|
        0 <= i < b.starters.len() && data.monsters@[(#[trigger] b.starters[i]) as int].monster_types@.contains(
            restriction,
        )
}

/// Redraw from the relic table until a relic is new to this run and,
/// under bravery mode, satisfies its type restriction.
pub open spec fn spec_random_relic(
    data: GameData,
    is_bravery: bool,
    b: BraveryModel,
    area: int,
    list: Seq<u32>,
    p: Prng,
) -> Option<(u32, Prng)>
    decreases p.budget,
{
    match spec_range_int(p, 0, data.relics@.len() as i32) {
        None => None,
        Some((ri, p2)) => {
            let relic = data.relics@[ri as int];
            if list.contains(relic.id) {
                spec_random_relic(data, is_bravery, b, area, list, p2)
            } else if is_bravery && relic.monster_type_restriction != 0 && !spec_relic_type_ok(
                data,
                b,
                area,
                relic.monster_type_restriction,
            ) {
                spec_random_relic(data, is_bravery, b, area, list, p2)
            } else {
                Some((relic.id, p2))
            }
        },
    }
}

/// One uniform scene pick among the area's linked scenes, then one
/// uniform chest pick within that scene.
pub open spec fn spec_random_chest(data: GameData, area: int, p: Prng) -> Option<
    ((Seq<char>, u32), Prng),
> {
    let links = data.areas@[area].area_data@;
    match spec_range_int(p, 0, links.len() as i32) {
        None => None,
        Some((di, p2)) => {
            let row = data.area_data@[scene_index(data.area_data@, links[di as int])];
            match spec_range_int(p2, 0, row.chests@.len() as i32) {
                None => None,
                Some((ci, p3)) => Some(((row.scene_name@, row.chests@[ci as int]), p3)),
            }
        },
    }
}

/// Relics and chests for the areas from `a` up, in area order.
pub open spec fn spec_relic_areas(
    data: GameData,
    is_bravery: bool,
    b: BraveryModel,
    a: int,
    acc: RelicModel,
    p: Prng,
) -> Option<(RelicModel, Prng)>
    decreases 13 - a when a <= 13
{
    if a >= 13 {
        Some((acc, p))
    } else {
        match spec_random_relic(data, is_bravery, b, a, acc.list, p) {
            None => None,
            Some((relic, p2)) => match spec_random_chest(data, a, p2) {
                None => None,
                Some((chest, p3)) => spec_relic_areas(
                    data,
                    is_bravery,
                    b,
                    a + 1,
                    RelicModel { list: acc.list.push(relic), area_chests: acc.area_chests.push(chest) },
                    p3,
                ),
            },
        }
    }
}

/// One whole relic assignment.
pub open spec fn spec_get_relics(data: GameData, is_bravery: bool, b: BraveryModel, p: Prng) -> Option<
    (RelicModel, Prng),
> {
    spec_relic_areas(
        data,
        is_bravery,
        b,
        0,
        RelicModel { list: Seq::empty(), area_chests: Seq::empty() },
        p,
    )
}

/// Working state of one relic assignment.
pub struct RelicMode {
    list: Vec<u32>,
}

/// Whether the area's egg or one of the starters carries the creature
/// type a restricted relic demands, executable.
#[verifier::loop_isolation(false)]
fn relic_type_ok(data: &GameData, bd: &BraveryData, area: u32, restriction: u32) -> (r: bool)
    requires
        data.wf(),
        crate::bravery::bravery_bounded(bd@),
    ensures
        r == spec_relic_type_ok(*data, bd@, area as int, restriction),
{
    if (area as usize) < bd.eggs.len() {
        proof {
            assert(bd@.eggs[area as int] < 110);
        }
        if contains_u32(&data.monsters[bd.eggs[area as usize] as usize].monster_types, restriction)
        {
            return true;
        }
    }
    let mut i: usize = 0;
    while i < bd.starters.len()
        invariant
            i <= bd.starters@.len(),
            forall|j: int|
                0 <= j < i ==> !data.monsters@[(#[trigger] bd.starters@[j]) as int].monster_types@.contains(
                    restriction,
                ),
        decreases bd.starters@.len() - i,
    {
        proof {
            assert(bd@.starters[i as int] < 110);
        }
        if contains_u32(&data.monsters[bd.starters[i] as usize].monster_types, restriction) {
            return true;
        }
        i = i + 1;
    }
    false
}

impl RelicMode {
    /// Redraw until a relic is new to this run and allowed here.
    #[verifier::loop_isolation(false)]
    fn get_random_relic(
        random: &mut Prng,
        data: &GameData,
        is_bravery: bool,
        bravery_data: &Option<BraveryData>,
        area: u32,
        list: &Vec<u32>,
    ) -> (r: Option<u32>)
        requires
            data.wf(),
            area < 13,
            is_bravery ==> ((*bravery_data) matches Some(bd) && crate::bravery::bravery_bounded(
                bd@,
            )),
        ensures
            match r {
                Some(relic) => spec_random_relic(
                    *data,
                    is_bravery,
                    bravery_view(*bravery_data),
                    area as int,
                    list@,
                    *old(random),
                ) == Some((relic, *final(random))) && !list@.contains(relic),
                None => spec_random_relic(
                    *data,
                    is_bravery,
                    bravery_view(*bravery_data),
                    area as int,
                    list@,
                    *old(random),
                ) is None,
            },
    {
        let ghost b = bravery_view(*bravery_data);
        loop
            invariant
                spec_random_relic(*data, is_bravery, b, area as int, list@, *random)
                    == spec_random_relic(*data, is_bravery, b, area as int, list@, *old(random)),
            decreases random.budget,
        {
            let ghost p_entry = *random;
            let ri = match random.range_int(0, data.relics.len() as i32) {
                None => {
                    return None;
                },
                Some(ri) => ri,
            };
            let relic_id = data.relics[ri as usize].id;
            let restriction = data.relics[ri as usize].monster_type_restriction;
            let taken = contains_u32(list, relic_id);
            let blocked = if taken {
                false
            } else if is_bravery && restriction != 0 {
                let ok = match bravery_data {
                    Some(bd) => relic_type_ok(data, bd, area, restriction),
                    None => false,
                };
                proof {
                    if (*bravery_data) is None {
                        assert(b == initial_bravery());
                        assert(b.starters.len() == 0 && b.eggs.len() == 0);
                        assert(!spec_relic_type_ok(*data, b, area as int, restriction));
                    }
                }
                !ok
            } else {
                false
            };
            if !taken && !blocked {
                proof {
                    assert(spec_random_relic(*data, is_bravery, b, area as int, list@, p_entry)
                        == Some((relic_id, *random)));
                }
                return Some(relic_id);
            }
        }
    }

    /// One uniform scene pick, then one uniform chest pick in it.
    #[verifier::loop_isolation(false)]
    fn get_random_chest_in_area(random: &mut Prng, data: &GameData, area: u32) -> (r: Option<
        (String, u32),
    >)
        requires
            data.wf(),
            area < 13,
        ensures
            match r {
                Some(chest) => spec_random_chest(*data, area as int, *old(random)) == Some(
                    ((chest.0@, chest.1), *final(random)),
                ),
                None => spec_random_chest(*data, area as int, *old(random)) is None,
            },
    {
        proof {
            assert(data.areas@[area as int].area_data@.len() < 0x8000_0000);
            assert(data.areas@[area as int].area_data@.len() >= 1);
        }
        let di = match random.range_int(0, data.areas[area as usize].area_data.len() as i32) {
            None => {
                return None;
            },
            Some(di) => di,
        };
        let ghost p_after_di = *random;
        proof {
            assert(spec_range_int(
                *old(random),
                0,
                data.areas@[area as int].area_data@.len() as i32,
            ) == Some((di, p_after_di)));
        }
        let scene_id = data.areas[area as usize].area_data[di as usize];
        proof {
            assert(linked_scene_ok(data.area_data@, scene_id));
            lemma_scene_index(data.area_data@, scene_id);
        }
        let mut d: usize = 0;
        while d < data.area_data.len()
            invariant
                forall|j: int| 0 <= j < d ==> (#[trigger] data.area_data@[j]).scene_id != scene_id,
                d <= data.area_data@.len(),
                *random == p_after_di,
            decreases data.area_data@.len() - d,
        {
            if data.area_data[d].scene_id == scene_id {
                proof {
                    lemma_scene_index_least(data.area_data@, scene_id, d as int);
                    assert(data.area_data@[scene_index(data.area_data@, scene_id)]
                        == data.area_data@[d as int]);
                    assert(data.area_data@[d as int].chests@.len() >= 1);
                }
                let row = &data.area_data[d];
                proof {
                    assert(*random == p_after_di);
                    assert(data.areas@[area as int].area_data@[di as int] == scene_id);
                }
                let ci = match random.range_int(0, row.chests.len() as i32) {
                    None => {
                        proof {
                            assert(spec_range_int(
                                p_after_di,
                                0,
                                data.area_data@[d as int].chests@.len() as i32,
                            ) is None);
                            assert(spec_random_chest(*data, area as int, *old(random)) is None);
                        }
                        return None;
                    },
                    Some(ci) => ci,
                };
                let chest = (clone_string(&row.scene_name), row.chests[ci as usize]);
                proof {
                    assert(spec_range_int(
                        p_after_di,
                        0,
                        data.area_data@[d as int].chests@.len() as i32,
                    ) == Some((ci, *random)));
                    assert(spec_random_chest(*data, area as int, *old(random)) == Some(
                        ((chest.0@, chest.1), *random),
                    ));
                }
                return Some(chest);
            }
            d = d + 1;
        }
        proof {
            let si = scene_index(data.area_data@, scene_id);
            assert(data.area_data@[si].scene_id == scene_id);
            assert(false);
        }
        None
    }

    /// One whole relic assignment: a relic and a chest for every area,
    /// in area order. Fails only when the draw budget runs out.
    #[verifier::loop_isolation(false)]
    pub fn get_relics(
        random: &mut Prng,
        is_bravery: bool,
        bravery_data: &Option<BraveryData>,
        data: &GameData,
    ) -> (r: Option<RelicData>)
        requires
            data.wf(),
            is_bravery ==> ((*bravery_data) matches Some(bd) && crate::bravery::bravery_bounded(
                bd@,
            )),
        ensures
            match r {
                Some(rd) => {
                    &&& spec_get_relics(*data, is_bravery, bravery_view(*bravery_data), *old(random))
                        == Some((rd@, *final(random)))
                    &&& rd.list@.len() == 13
                    &&& rd.area_chests@.len() == 13
                    &&& rd.list@.no_duplicates()
                },
                None => spec_get_relics(*data, is_bravery, bravery_view(*bravery_data), *old(random))
                    is None,
            },
    {
        let mut instance = RelicMode { list: Vec::new() };
        let mut area_chests: Vec<(String, u32)> = Vec::new();
        let ghost b = bravery_view(*bravery_data);
        let ghost target = spec_get_relics(*data, is_bravery, b, *random);
        proof {
            let m0 = RelicModel { list: Seq::empty(), area_chests: Seq::empty() };
            assert(instance.list@ =~= m0.list);
            assert(Seq::new(
                area_chests@.len(),
                |i: int| (area_chests@[i].0@, area_chests@[i].1),
            ) =~= m0.area_chests);
        }
        let mut a: u32 = 0;
        while a < 13
            invariant
                a <= 13,
                instance.list@.len() == a,
                area_chests@.len() == a,
                instance.list@.no_duplicates(),
                spec_relic_areas(
                    *data,
                    is_bravery,
                    b,
                    a as int,
                    RelicModel {
                        list: instance.list@,
                        area_chests: Seq::new(
                            area_chests@.len(),
                            |i: int| (area_chests@[i].0@, area_chests@[i].1),
                        ),
                    },
                    *random,
                ) == target,
            decreases 13 - a,
        {
            let relic = match RelicMode::get_random_relic(
                random,
                data,
                is_bravery,
                bravery_data,
                a,
                &instance.list,
            ) {
                None => {
                    return None;
                },
                Some(relic) => relic,
            };
            let chest = match RelicMode::get_random_chest_in_area(random, data, a) {
                None => {
                    return None;
                },
                Some(chest) => chest,
            };
            let ghost old_list = instance.list@;
            let ghost old_chests = Seq::new(
                area_chests@.len(),
                |i: int| (area_chests@[i].0@, area_chests@[i].1),
            );
            let ghost chest_view = (chest.0@, chest.1);
            instance.list.push(relic);
            area_chests.push(chest);
            proof {
                assert(instance.list@ =~= old_list.push(relic));
                assert(Seq::new(
                    area_chests@.len(),
                    |i: int| (area_chests@[i].0@, area_chests@[i].1),
                ) =~= old_chests.push(chest_view));
                assert(RelicModel {
                    list: instance.list@,
                    area_chests: Seq::new(
                        area_chests@.len(),
                        |i: int| (area_chests@[i].0@, area_chests@[i].1),
                    ),
                } =~= RelicModel { list: old_list.push(relic), area_chests: old_chests.push(chest_view) });
            }
            a = a + 1;
        }
        let result = RelicData { list: instance.list, area_chests };
        proof {
            assert(result@ =~= RelicModel {
                list: result.list@,
                area_chests: Seq::new(
                    result.area_chests@.len(),
                    |i: int| (result.area_chests@[i].0@, result.area_chests@[i].1),
                ),
            });
        }
        Some(result)
    }
}

/// A copy of a scene name.
fn clone_string(s: &String) -> (r: String)
    ensures
        r@ == s@,
{
    s.clone()
}

} // verus!
