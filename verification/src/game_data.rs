//! The immutable reference tables that every simulation run reads.

use vstd::prelude::*;
use crate::monster::{Ability, Monster, MonsterType, ExploreAction, ExploreAbility};
use crate::map::{MapArea, AreaData};
use crate::relic::Relic;

verus! {

/// The game's reference data: creature roster, ability tables, areas and
/// relics. Loaded once by the caller and shared read-only by every run.
pub struct GameData {
    pub monsters: Vec<Monster>,
    pub monster_types: Vec<MonsterType>,
    pub swimming_monsters: Vec<u32>,

    pub actions: Vec<ExploreAction>,
    pub abilities: Vec<ExploreAbility>,

    pub areas: Vec<MapArea>,
    pub area_data: Vec<AreaData>,
    pub relics: Vec<Relic>,
}

impl GameData {
    /// The shape the generation rules rely on: a full roster, the ability
    /// table, area creature ids inside the randomizable range, and at
    /// least one scene with chests behind every area link. The data
    /// shipped with the game satisfies all of it; the simulators require
    /// it instead of re-checking it on every draw.
    pub open spec fn wf(self) -> bool {
        &&& self.monsters@.len() == 111
        &&& self.abilities@.len() >= 13
        &&& self.swimming_monsters@.len() >= 1
        &&& forall|i: int|
            0 <= i < self.swimming_monsters@.len() ==> 4 <= #[trigger] self.swimming_monsters@[i]
                < 110
        &&& self.areas@.len() == 13
        &&& forall|a: int| 0 <= a < 13 ==> (#[trigger] self.areas@[a]).id == a
        &&& forall|a: int, j: int|
            0 <= a < 13 && 0 <= j < self.areas@[a].monsters@.len()
                ==> #[trigger] self.areas@[a].monsters@[j] < 110
        &&& forall|a: int, j: int|
            0 <= a < 13 && 0 <= j < self.areas@[a].randomizer_check_list@.len()
                ==> #[trigger] self.areas@[a].randomizer_check_list@[j] < 110
        &&& self.relics@.len() >= 1
        &&& self.swimming_monsters@.len() < 0x8000_0000
        &&& self.relics@.len() < 0x8000_0000
        &&& forall|a: int| 0 <= a < 13 ==> (#[trigger] self.areas@[a]).area_data@.len() < 0x8000_0000
        &&& forall|d: int|
            0 <= d < self.area_data@.len() ==> (#[trigger] self.area_data@[d]).chests@.len()
                < 0x8000_0000
        &&& forall|a: int| 0 <= a < 13 ==> (#[trigger] self.areas@[a]).area_data@.len() >= 1
        &&& forall|a: int, j: int|
            0 <= a < 13 && 0 <= j < self.areas@[a].area_data@.len() ==> linked_scene_ok(
                self.area_data@,
                #[trigger] self.areas@[a].area_data@[j],
            )
    }

    /// Builds the bundle from its tables. The caller decodes the game's
    /// data files and hands the plain rows over.
    pub fn new(
        monsters: Vec<Monster>,
        monster_types: Vec<MonsterType>,
        swimming_monsters: Vec<u32>,
        actions: Vec<ExploreAction>,
        abilities: Vec<ExploreAbility>,
        areas: Vec<MapArea>,
        area_data: Vec<AreaData>,
        relics: Vec<Relic>,
    ) -> (r: GameData)
        ensures
            r.monsters == monsters,
            r.monster_types == monster_types,
            r.swimming_monsters == swimming_monsters,
            r.actions == actions,
            r.abilities == abilities,
            r.areas == areas,
            r.area_data == area_data,
            r.relics == relics,
    {
        GameData {
            monsters,
            monster_types,
            swimming_monsters,
            actions,
            abilities,
            areas,
            area_data,
            relics,
        }
    }
}


impl GameData {
    /// Whether a creature's exploration action grants the ability.
    pub open spec fn spec_has_ability(self, ability: Ability, m: u32) -> bool
        recommends
            self.wf(),
            m < 111,
    {
        self.abilities@[ability.spec_index() as int].explore_actions@.contains(
            self.monsters@[m as int].explore_action,
        )
    }

    /// Whether a creature is one of the swimming creatures.
    pub open spec fn spec_is_swimming(self, m: u32) -> bool {
        self.swimming_monsters@.contains(m)
    }

    /// Whether a creature is in an area's full creature list.
    pub open spec fn spec_in_area(self, a: u32, m: u32) -> bool
        recommends
            a < 13,
    {
        self.areas@[a as int].monsters@.contains(m)
    }

    /// Whether a creature's exploration action grants the ability.
    pub fn has_ability(&self, ability: Ability, m: u32) -> (r: bool)
        requires
            self.wf(),
            m < 111,
        ensures
            r == self.spec_has_ability(ability, m),
    {
        let idx = ability.index();
        contains_u32(&self.abilities[idx as usize].explore_actions, self.monsters[m as usize].explore_action)
    }

    /// Whether a creature is one of the swimming creatures.
    pub fn is_swimming(&self, m: u32) -> (r: bool)
        ensures
            r == self.spec_is_swimming(m),
    {
        contains_u32(&self.swimming_monsters, m)
    }

    /// Whether a creature is in an area's full creature list.
    pub fn in_area(&self, a: u32, m: u32) -> (r: bool)
        requires
            self.wf(),
            a < 13,
        ensures
            r == self.spec_in_area(a, m),
    {
        contains_u32(&self.areas[a as usize].monsters, m)
    }
}

/// Linear scan for a value in a list of ids.
pub fn contains_u32(v: &Vec<u32>, x: u32) -> (r: bool)
    ensures
        r == v@.contains(x),
{
    let mut i: usize = 0;
    while i < v.len()
        invariant
            i <= v@.len(),
            forall|j: int| 0 <= j < i ==> v@[j] != x,
        decreases v@.len() - i,
    {
        if v[i] == x {
            return true;
        }
        i = i + 1;
    }
    false
}

/// Index of the first scene row carrying this scene id, or a negative
/// value when none does.
pub open spec fn scene_index(rows: Seq<AreaData>, scene_id: u32) -> int
    decreases rows.len(),
{
    if rows.len() == 0 {
        -1
    } else if rows[0].scene_id == scene_id {
        0
    } else {
        let r = scene_index(rows.drop_first(), scene_id);
        if r < 0 {
            -1
        } else {
            r + 1
        }
    }
}

/// A linked scene id resolves to a scene row, and that row offers at
/// least one chest.
pub open spec fn linked_scene_ok(rows: Seq<AreaData>, scene_id: u32) -> bool {
    &&& 0 <= scene_index(rows, scene_id) < rows.len()
    &&& rows[scene_index(rows, scene_id)].chests@.len() >= 1
}

pub proof fn lemma_scene_index(rows: Seq<AreaData>, scene_id: u32)
    ensures
        scene_index(rows, scene_id) == -1 || 0 <= scene_index(rows, scene_id) < rows.len(),
        0 <= scene_index(rows, scene_id) ==> rows[scene_index(rows, scene_id)].scene_id
            == scene_id,
    decreases rows.len(),
{
    if rows.len() == 0 {
    } else if rows[0].scene_id == scene_id {
    } else {
        let rest = rows.drop_first();
        lemma_scene_index(rest, scene_id);
        if 0 <= scene_index(rest, scene_id) < rest.len() {
            assert(rows[scene_index(rest, scene_id) + 1] == rest[scene_index(rest, scene_id)]);
        }
    }
}

pub proof fn lemma_scene_index_least(rows: Seq<AreaData>, scene_id: u32, i: int)
    requires
        0 <= i < rows.len(),
        rows[i].scene_id == scene_id,
        forall|j: int| 0 <= j < i ==> (#[trigger] rows[j]).scene_id != scene_id,
    ensures
        scene_index(rows, scene_id) == i,
    decreases rows.len(),
{
    if i > 0 {
        let rest = rows.drop_first();
        assert(forall|j: int| 0 <= j < i - 1 ==> #[trigger] rest[j] == rows[j + 1]);
        lemma_scene_index_least(rest, scene_id, i - 1);
    }
}


/// Position of the first scene row with this id, executable.
fn find_scene(rows: &Vec<AreaData>, scene_id: u32) -> (r: Option<usize>)
    ensures
        match r {
            Some(d) => d == scene_index(rows@, scene_id) && d < rows@.len(),
            None => scene_index(rows@, scene_id) < 0,
        },
{
    let mut d: usize = 0;
    while d < rows.len()
        invariant
            d <= rows@.len(),
            forall|j: int| 0 <= j < d ==> (#[trigger] rows@[j]).scene_id != scene_id,
        decreases rows@.len() - d,
    {
        if rows[d].scene_id == scene_id {
            proof {
                lemma_scene_index_least(rows@, scene_id, d as int);
            }
            return Some(d);
        }
        d = d + 1;
    }
    proof {
        lemma_scene_index(rows@, scene_id);
        if 0 <= scene_index(rows@, scene_id) {
            assert(rows@[scene_index(rows@, scene_id)].scene_id == scene_id);
            assert(false);
        }
    }
    None
}

impl GameData {
    /// Checks the whole well-formedness assumption at run time, for
    /// callers that load the tables from outside and cannot prove it.
    #[verifier::loop_isolation(false)]
    #[verifier::rlimit(100)]
    pub fn is_consistent(&self) -> (r: bool)
        ensures
            r == self.wf(),
    {
        if self.monsters.len() != 111 {
            return false;
        }
        if self.abilities.len() < 13 {
            return false;
        }
        if self.swimming_monsters.len() < 1 || self.swimming_monsters.len() >= 0x8000_0000 {
            return false;
        }
        if self.relics.len() < 1 || self.relics.len() >= 0x8000_0000 {
            return false;
        }
        if self.areas.len() != 13 {
            return false;
        }
        let mut i: usize = 0;
        while i < self.swimming_monsters.len()
            invariant
                i <= self.swimming_monsters@.len(),
                forall|j: int|
                    0 <= j < i ==> 4 <= #[trigger] self.swimming_monsters@[j] < 110,
            decreases self.swimming_monsters@.len() - i,
        {
            if self.swimming_monsters[i] < 4 || self.swimming_monsters[i] >= 110 {
                return false;
            }
            i = i + 1;
        }
        let mut d: usize = 0;
        while d < self.area_data.len()
            invariant
                d <= self.area_data@.len(),
                forall|j: int|
                    0 <= j < d ==> (#[trigger] self.area_data@[j]).chests@.len() < 0x8000_0000,
            decreases self.area_data@.len() - d,
        {
            if self.area_data[d].chests.len() >= 0x8000_0000 {
                return false;
            }
            d = d + 1;
        }
        let mut a: usize = 0;
        while a < 13
            invariant
                a <= 13,
                forall|b: int| 0 <= b < a ==> (#[trigger] self.areas@[b]).id == b,
                forall|b: int, j: int|
                    0 <= b < a && 0 <= j < self.areas@[b].monsters@.len()
                        ==> #[trigger] self.areas@[b].monsters@[j] < 110,
                forall|b: int, j: int|
                    0 <= b < a && 0 <= j < self.areas@[b].randomizer_check_list@.len()
                        ==> #[trigger] self.areas@[b].randomizer_check_list@[j] < 110,
                forall|b: int|
                    0 <= b < a ==> 1 <= (#[trigger] self.areas@[b]).area_data@.len()
                        < 0x8000_0000,
                forall|b: int, j: int|
                    0 <= b < a && 0 <= j < self.areas@[b].area_data@.len() ==> linked_scene_ok(
                        self.area_data@,
                        #[trigger] self.areas@[b].area_data@[j],
                    ),
            decreases 13 - a,
        {
            let area = &self.areas[a];
            if area.id != a as u32 {
                return false;
            }
            if area.area_data.len() < 1 || area.area_data.len() >= 0x8000_0000 {
                return false;
            }
            let mut j: usize = 0;
            while j < area.monsters.len()
                invariant
                    j <= area.monsters@.len(),
                    forall|k: int| 0 <= k < j ==> #[trigger] area.monsters@[k] < 110,
                decreases area.monsters@.len() - j,
            {
                if area.monsters[j] >= 110 {
                    return false;
                }
                j = j + 1;
            }
            let mut j: usize = 0;
            while j < area.randomizer_check_list.len()
                invariant
                    j <= area.randomizer_check_list@.len(),
                    forall|k: int| 0 <= k < j ==> #[trigger] area.randomizer_check_list@[k] < 110,
                decreases area.randomizer_check_list@.len() - j,
            {
                if area.randomizer_check_list[j] >= 110 {
                    return false;
                }
                j = j + 1;
            }
            let mut j: usize = 0;
            while j < area.area_data.len()
                invariant
                    j <= area.area_data@.len(),
                    forall|k: int|
                        0 <= k < j ==> linked_scene_ok(
                            self.area_data@,
                            #[trigger] area.area_data@[k],
                        ),
                decreases area.area_data@.len() - j,
            {
                match find_scene(&self.area_data, area.area_data[j]) {
                    None => {
                        return false;
                    },
                    Some(di) => {
                        if self.area_data[di].chests.len() < 1 {
                            return false;
                        }
                    },
                }
                j = j + 1;
            }
            a = a + 1;
        }
        true
    }
}

} // verus!
