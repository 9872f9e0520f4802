use sanctuary_seeder::bravery::Shift;
use sanctuary_seeder::game_data::GameData;
use sanctuary_seeder::game_manager::generate_game;
use sanctuary_seeder::map::{AreaData, MapArea};
use sanctuary_seeder::monster::{ExploreAbility, ExploreAction, Monster, MonsterType};
use sanctuary_seeder::relic::Relic;

/// A small consistent world: 111 creatures, 13 areas, every creature
/// grants the basic movement abilities and none grants improved flying,
/// so every attempt validates on the first try.
fn sample_data() -> GameData {
    let mut monsters = Vec::new();
    for id in 0..111u32 {
        // every fifth creature is an improved flier (action 2), the rest
        // grant the ordinary movement abilities (action 1)
        let explore_action = if id % 5 == 0 { 2 } else { 1 };
        monsters.push(Monster {
            id,
            name: format!("creature {id}"),
            explore_action,
            monster_types: vec![id % 5, 5 + id % 3],
        });
    }
    let monster_types = (0..8u32)
        .map(|id| MonsterType { id, name: format!("type {id}") })
        .collect();
    let swimming_monsters = vec![30, 60, 90];
    let actions = vec![
        ExploreAction { id: 0, name: String::from("none") },
        ExploreAction { id: 1, name: String::from("roam") },
    ];
    // abilities indexed as the generation rules expect: improved flying
    // comes from action 2 alone, everything else from either action
    let mut abilities = Vec::new();
    for k in 0..13u32 {
        let grants = if k == 3 { vec![2] } else { vec![1, 2] };
        abilities.push(ExploreAbility { name: format!("ability {k}"), explore_actions: grants });
    }
    let mut areas = Vec::new();
    for a in 0..13u32 {
        let lo = 4 + (a * 8) % 100;
        let monsters_here: Vec<u32> = (lo..lo + 6).collect();
        areas.push(MapArea {
            id: a,
            name: format!("area {a}"),
            monsters: monsters_here.clone(),
            wild_monsters: monsters_here.clone(),
            randomizer_check_list: monsters_here.clone(),
            champions: vec![],
            area_data: vec![100 + a, 200 + a],
        });
    }
    let mut area_data = Vec::new();
    for a in 0..13u32 {
        area_data.push(AreaData {
            area_id: a,
            scene_id: 100 + a,
            scene_name: format!("scene {a}a"),
            chests: vec![1, 2, 3],
        });
        area_data.push(AreaData {
            area_id: a,
            scene_id: 200 + a,
            scene_name: format!("scene {a}b"),
            chests: vec![7],
        });
    }
    let relics = (0..20u32)
        .map(|id| Relic {
            id,
            name: format!("relic {id}"),
            monster_type_restriction: if id >= 18 { 1 } else { 0 },
        })
        .collect();
    GameData::new(
        monsters,
        monster_types,
        swimming_monsters,
        actions,
        abilities,
        areas,
        area_data,
        relics,
    )
}

#[test]
fn sample_data_is_consistent() {
    assert!(sample_data().is_consistent());
}

/// Two independent runs over the same inputs give structurally equal
/// results, for every flag combination.
#[test]
fn generation_is_deterministic() {
    let data = sample_data();
    for seed in [0u32, 1, 17, 32410, 99999] {
        for flags in 0..8u32 {
            let (r, b, l) = (flags & 1 != 0, flags & 2 != 0, flags & 4 != 0);
            let first = generate_game(&data, seed, r, b, l);
            let second = generate_game(&data, seed, r, b, l);
            assert_eq!(first, second, "seed {seed} flags {flags}");
        }
    }
}

/// A successful randomizer mapping covers the whole randomizable range
/// with a permutation: every id from four up is mapped, no replacement
/// repeats, and ids below four stay unmapped.
#[test]
fn mapping_is_a_permutation() {
    let data = sample_data();
    for seed in [3u32, 5, 1234] {
        let game = generate_game(&data, seed, true, false, false);
        let mapping = game.mapping.as_ref().expect("mapping");
        assert_eq!(mapping.len(), 110);
        for slot in &mapping[..4] {
            assert!(slot.is_none());
        }
        let mut seen = vec![false; 110];
        for slot in &mapping[4..] {
            let id = slot.expect("assigned") as usize;
            assert!((4..110).contains(&id));
            assert!(!seen[id], "replacement repeated");
            seen[id] = true;
        }
    }
}

/// No creature id appears in more than one role of a successful bravery
/// assignment (the familiar is the first starter by definition; the
/// cryomancer-required creature points at an existing role).
#[test]
fn bravery_roles_are_exclusive() {
    let data = sample_data();
    for seed in [2u32, 11, 808] {
        let game = generate_game(&data, seed, false, true, false);
        let bd = game.bravery_data.as_ref().expect("bravery");
        assert_eq!(bd.familiar, bd.starters[0]);
        let mut roles: Vec<u32> = Vec::new();
        roles.extend(&bd.starters);
        roles.push(bd.swimming);
        roles.push(bd.bex);
        roles.push(bd.cryomancer.expect("cryomancer"));
        roles.extend(&bd.eggs);
        roles.extend(&bd.end_of_time);
        roles.extend(bd.army.iter().flatten());
        let mut sorted = roles.clone();
        sorted.sort_unstable();
        sorted.dedup();
        assert_eq!(sorted.len(), roles.len(), "a creature fills two roles");
    }
}

/// The per-area relic list of a successful assignment has no duplicates.
#[test]
fn relics_are_collision_free() {
    let data = sample_data();
    for seed in [4u32, 21, 4242] {
        for bravery in [false, true] {
            let game = generate_game(&data, seed, false, bravery, true);
            let relics = game.relics.as_ref().expect("relics");
            assert_eq!(relics.list.len(), 13);
            assert_eq!(relics.area_chests.len(), 13);
            let mut sorted = relics.list.clone();
            sorted.sort_unstable();
            sorted.dedup();
            assert_eq!(sorted.len(), 13, "a relic repeated");
        }
    }
}

/// The coverage rules hold of the final assignment: with this sample
/// world every creature grants the checked abilities, so each rule is
/// witnessed by the starters themselves.
#[test]
fn bravery_assignment_has_shape() {
    let data = sample_data();
    let game = generate_game(&data, 6, true, true, true);
    let bd = game.bravery_data.as_ref().expect("bravery");
    assert_eq!(bd.starters.len(), 3);
    assert_eq!(bd.eggs.len(), 13);
    assert_eq!(bd.end_of_time.len(), 3);
    assert!(bd.army.len() <= 7);
    assert!(bd.shift_offset < 1000);
    assert!(bd.familiar < 4);
    assert!(!game.is_bad_seed());
    // the coverage rules hold post-hoc: the drawn starters grant the
    // ordinary movement abilities (they are never improved fliers), and
    // improved flying is witnessed by an egg of the middle areas
    for i in 1..3 {
        assert!(bd.starters[i] % 5 != 0, "a starter is an improved flier");
    }
    assert!(
        (2..8).any(|a: usize| bd.eggs[a] % 5 == 0),
        "no egg of the middle areas grants improved flying"
    );
}

/// A run whose draw budget is spent reports no assignment at all; with
/// bravery requested the seed reads as bad.
#[test]
fn spent_budget_reads_as_bad_seed() {
    let data = sample_data();
    let game = sanctuary_seeder::game_manager::generate_game_with_budget(
        &data, 12, true, true, true, 2,
    );
    assert!(game.mapping.is_none());
    assert!(game.bravery_data.is_none());
    assert!(game.relics.is_none());
    assert!(game.is_bad_seed());
}

/// A seed is bad exactly when bravery was requested and produced nothing.
#[test]
fn is_bad_seed_follows_bravery() {
    let data = sample_data();
    let game = generate_game(&data, 9, false, false, true);
    assert!(!game.is_bad_seed());
    assert!(game.relics.is_some());
    assert!(game.bravery_data.is_none());
}

/// The cosmetic shifts walk the fixed 32-entry table from the offset.
#[test]
fn egg_shifts_follow_the_table() {
    let data = sample_data();
    let game = generate_game(&data, 14, false, true, false);
    let bd = game.bravery_data.as_ref().expect("bravery");
    let shifts = bd.get_area_eggs_shift();
    assert_eq!(shifts.len(), 13);
    let table = [
        Shift::Dark, Shift::Normal, Shift::Dark, Shift::Light, Shift::Normal, Shift::Normal,
        Shift::Dark, Shift::Dark, Shift::Normal, Shift::Light, Shift::Normal, Shift::Light,
        Shift::Normal, Shift::Dark, Shift::Normal, Shift::Normal, Shift::Dark, Shift::Light,
        Shift::Normal, Shift::Normal, Shift::Normal, Shift::Light, Shift::Light, Shift::Normal,
        Shift::Dark, Shift::Normal, Shift::Normal, Shift::Light, Shift::Normal, Shift::Light,
        Shift::Dark, Shift::Normal,
    ];
    for (i, s) in shifts.iter().enumerate() {
        assert_eq!(*s, table[(i + bd.shift_offset as usize) % 32]);
    }
    let army_shifts = bd.get_army_eggs_shift();
    assert_eq!(army_shifts.len(), bd.army.len());
}
