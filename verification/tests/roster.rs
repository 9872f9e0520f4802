use sanctuary_seeder::map::Area;
use sanctuary_seeder::monster::{Ability, EMonster};

/// The singled-out creatures carry their roster ids.
#[test]
fn named_creatures_have_their_ids() {
    assert_eq!(EMonster::Koi.id(), 49);
    assert_eq!(EMonster::Tanuki.id(), 50);
    assert_eq!(EMonster::Dodo.id(), 52);
    assert_eq!(EMonster::Skorch.id(), 68);
    assert_eq!(EMonster::Shockhopper.id(), 75);
    assert_eq!(EMonster::Bard.id(), 110);
    assert_eq!(EMonster::Vaero.id(), 7);
    assert_eq!(EMonster::Amberlagna.id(), 107);
}

/// Abilities index the ability table in declaration order.
#[test]
fn abilities_index_the_table() {
    assert_eq!(Ability::BreakWall.index(), 0);
    assert_eq!(Ability::Mount.index(), 1);
    assert_eq!(Ability::Flying.index(), 2);
    assert_eq!(Ability::ImprovedFlying.index(), 3);
    assert_eq!(Ability::SecretVision.index(), 4);
    assert_eq!(Ability::MountOrFlying.index(), 12);
}

/// Areas index the area table in declaration order.
#[test]
fn areas_index_the_table() {
    assert_eq!(Area::MountainPath.index(), 0);
    assert_eq!(Area::BlueCaves.index(), 1);
    assert_eq!(Area::ForgottenWorld.index(), 12);
}
