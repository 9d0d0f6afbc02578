use sas_game::combat::{award_for_frag, AwardCounts, AwardType, ProjectileIds, Vitals};
use sas_game::weapon::Weapon;

fn armor_share(damage: i32) -> i32 {
    (damage as f32 * 0.66) as i32
}

#[test]
fn fresh_player() {
    let v = Vitals::new();
    assert_eq!((v.health, v.armor, v.dead, v.gibbed, v.deaths), (100, 0, false, false, 0));
}

#[test]
fn armor_takes_its_share() {
    let mut v = Vitals { health: 100, armor: 50, dead: false, gibbed: false, deaths: 0 };
    assert_eq!(armor_share(30), 19);
    assert_eq!(v.take_damage(30, armor_share(30)), (false, false));
    assert_eq!(v.armor, 31);
    assert_eq!(v.health, 89);
}

#[test]
fn armor_never_below_zero() {
    let mut v = Vitals { health: 100, armor: 10, dead: false, gibbed: false, deaths: 0 };
    v.take_damage(50, armor_share(50));
    assert_eq!(v.armor, 0);
    assert_eq!(v.health, 100 - (50 - 33));
}

#[test]
fn death_sets_health_to_zero_and_counts_once() {
    let mut v = Vitals::new();
    assert_eq!(v.take_damage(120, 0), (true, false));
    assert_eq!(v.health, 0);
    assert!(v.dead);
    assert_eq!(v.deaths, 1);
    assert_eq!(v.take_damage(10, 0), (false, false));
    assert_eq!(v.deaths, 1);
    assert_eq!(v.health, -10);
}

#[test]
fn massive_hit_gibs() {
    let mut v = Vitals::new();
    assert_eq!(v.take_damage(300, 0), (true, true));
    assert!(v.gibbed && v.dead);
    assert_eq!(v.health, -200);
    assert_eq!(v.deaths, 1);
}

#[test]
fn corpse_gibs_once() {
    let mut v = Vitals::new();
    v.take_damage(100, 0);
    assert_eq!(v.take_damage(200, 0), (false, true));
    assert!(v.gibbed);
    assert_eq!(v.take_damage(50, 0), (false, false));
    assert_eq!(v.health, -250);
}

#[test]
fn awards_for_frags() {
    assert_eq!(award_for_frag(Weapon::Railgun, false), Some(AwardType::Impressive));
    assert_eq!(award_for_frag(Weapon::Railgun, true), Some(AwardType::Impressive));
    assert_eq!(award_for_frag(Weapon::Shotgun, true), Some(AwardType::Excellent));
    assert_eq!(award_for_frag(Weapon::Shotgun, false), None);
    let mut c = AwardCounts::new();
    c.add(AwardType::Excellent);
    c.add(AwardType::Excellent);
    c.add(AwardType::Impressive);
    assert_eq!((c.excellent_count, c.impressive_count), (2, 1));
}

#[test]
fn projectile_ids_increase() {
    let mut ids = ProjectileIds::new();
    let a = ids.create_projectile_id();
    let b = ids.create_projectile_id();
    let c = ids.create_projectile_id();
    assert_eq!((a, b, c), (0, 1, 2));
    assert_eq!(ids.next_projectile_id, 3);
}
