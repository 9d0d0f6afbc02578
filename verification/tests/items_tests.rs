use sas_game::items::{pick_up_items, ItemRules, ItemSpot, ItemType, PickupSound, PowerUps, Stock};
use sas_game::scoreboard::{credit_kill, credit_kills};

fn rules() -> ItemRules {
    ItemRules {
        respawn_health: 1000,
        respawn_armor: 1500,
        respawn_weapon: 900,
        respawn_powerup: 3000,
        quad: 1800,
        regen: 1500,
        battle: 1500,
        flight: 1500,
        haste: 1500,
        invis: 1500,
    }
}

fn no_powerups() -> PowerUps {
    PowerUps { quad: 0, regen: 0, battle: 0, flight: 0, haste: 0, invis: 0 }
}

fn stock(health: i32, armor: i32) -> Stock {
    Stock {
        dead: false,
        health,
        armor,
        has_weapon: [true, true, false, false, false, false, false, false, false],
        ammo: [255, 50, 0, 0, 0, 0, 0, 0, 0],
        powerups: no_powerups(),
    }
}

fn item(item_type: ItemType) -> ItemSpot {
    ItemSpot { item_type, active: true, respawn_time: 0 }
}

#[test]
fn health_is_taken_up_to_its_cap() {
    let mut items = vec![item(ItemType::Health25), item(ItemType::Health100)];
    let mut players = vec![stock(90, 0)];
    let touching = vec![vec![true, false]];
    let ev = pick_up_items(&mut items, &mut players, &touching, &rules()).unwrap();
    assert_eq!(players[0].health, 100);
    assert!(!items[0].active);
    assert_eq!(items[0].respawn_time, 1000);
    assert!(items[1].active);
    assert_eq!(ev, vec![(0, PickupSound::Item)]);
}

#[test]
fn full_health_leaves_item_lying() {
    let mut items = vec![item(ItemType::Health50)];
    let mut players = vec![stock(100, 0)];
    let ev = pick_up_items(&mut items, &mut players, &vec![vec![true]], &rules()).unwrap();
    assert!(ev.is_empty());
    assert!(items[0].active);
    assert_eq!(players[0].health, 100);
}

#[test]
fn armor_and_mega_health_caps() {
    let mut items = vec![item(ItemType::Armor100), item(ItemType::Health100)];
    let mut players = vec![stock(150, 150)];
    let ev = pick_up_items(&mut items, &mut players, &vec![vec![true, true]], &rules()).unwrap();
    assert_eq!(players[0].armor, 200);
    assert_eq!(players[0].health, 200);
    assert_eq!(ev, vec![(0, PickupSound::Armor), (1, PickupSound::Item)]);
    assert_eq!(items[0].respawn_time, 1500);
}

#[test]
fn weapons_give_ammo_up_to_cap() {
    let mut items = vec![item(ItemType::Plasmagun), item(ItemType::Shotgun), item(ItemType::BFG)];
    let mut s = stock(100, 0);
    s.ammo[7] = 180;
    let mut players = vec![s];
    let ev = pick_up_items(&mut items, &mut players, &vec![vec![true, true, true]], &rules()).unwrap();
    assert!(players[0].has_weapon[7] && players[0].has_weapon[2] && players[0].has_weapon[8]);
    assert_eq!(players[0].ammo[7], 200);
    assert_eq!(players[0].ammo[2], 10);
    assert_eq!(players[0].ammo[8], 15);
    assert_eq!((items[0].respawn_time, items[1].respawn_time, items[2].respawn_time), (900, 300, 600));
    assert_eq!(ev.len(), 3);
}

#[test]
fn quad_starts_powerup_and_announces() {
    let mut items = vec![item(ItemType::Quad)];
    let mut players = vec![stock(100, 0)];
    let ev = pick_up_items(&mut items, &mut players, &vec![vec![true]], &rules()).unwrap();
    assert_eq!(players[0].powerups.quad, 1800);
    assert_eq!(ev, vec![(0, PickupSound::Powerup), (0, PickupSound::QuadDamage)]);
}

#[test]
fn hidden_items_count_down_once_per_living_player() {
    let mut items = vec![ItemSpot { item_type: ItemType::Haste, active: false, respawn_time: 3 }];
    let mut dead = stock(0, 0);
    dead.dead = true;
    let mut players = vec![stock(100, 0), dead, stock(100, 0)];
    let touching = vec![vec![false], vec![true], vec![false]];
    pick_up_items(&mut items, &mut players, &touching, &rules()).unwrap();
    assert_eq!(items[0].respawn_time, 1);
    pick_up_items(&mut items, &mut players, &touching, &rules()).unwrap();
    assert_eq!(items[0].respawn_time, 0);
    assert!(items[0].active);
    pick_up_items(&mut items, &mut players, &vec![vec![false], vec![false], vec![true]], &rules()).unwrap();
    assert!(!items[0].active);
    assert_eq!(items[0].respawn_time, 3000);
    assert_eq!(players[2].powerups.haste, 1500);
    assert_eq!(players[0].powerups.haste, 0);
}

#[test]
fn first_player_gets_the_item() {
    let mut items = vec![item(ItemType::Railgun)];
    let mut players = vec![stock(100, 0), stock(100, 0)];
    let ev = pick_up_items(&mut items, &mut players, &vec![vec![true], vec![true]], &rules()).unwrap();
    assert!(players[0].has_weapon[6]);
    assert!(!players[1].has_weapon[6]);
    assert_eq!(ev.len(), 1);
}

#[test]
fn ammo_overflow_is_refused() {
    let mut items = vec![item(ItemType::RocketLauncher)];
    let mut s = stock(100, 0);
    s.ammo[4] = 250;
    let mut players = vec![s];
    assert!(pick_up_items(&mut items, &mut players, &vec![vec![true]], &rules()).is_none());
}

#[test]
fn powerup_clocks_count_down() {
    let mut p = PowerUps { quad: 2, regen: 1, battle: 0, flight: 5, haste: 0, invis: 1 };
    assert_eq!(p.tick(150, true), 151);
    assert_eq!((p.quad, p.regen, p.battle, p.flight, p.haste, p.invis), (1, 0, 0, 4, 0, 0));
    assert_eq!(p.tick(150, true), 150);
    let mut r = PowerUps { quad: 0, regen: 3, battle: 0, flight: 0, haste: 0, invis: 0 };
    assert_eq!(r.tick(200, true), 200);
    assert_eq!(r.tick(120, false), 120);
}

#[test]
fn kills_and_suicides_change_frags() {
    let ids = vec![4, 7, 7];
    let mut frags = vec![0, 3, 5];
    assert_eq!(credit_kill(&ids, &mut frags, 7, 4), Some(1));
    assert_eq!(frags, vec![0, 4, 5]);
    assert_eq!(credit_kill(&ids, &mut frags, 4, 4), Some(0));
    assert_eq!(frags, vec![-1, 4, 5]);
    assert_eq!(credit_kill(&ids, &mut frags, 9, 4), None);
    assert_eq!(frags, vec![-1, 4, 5]);
}

#[test]
fn kills_of_a_frame_are_credited_in_order() {
    let ids = vec![1, 2, 3];
    let mut frags = vec![0, 0, 5];
    let credited = credit_kills(&ids, &mut frags, &vec![(1, 2), (2, 2), (9, 1), (1, 3)]).unwrap();
    assert_eq!(credited, vec![Some(0), Some(1), None, Some(0)]);
    assert_eq!(frags, vec![2, -1, 5]);
}

#[test]
fn kill_credit_refuses_overflow() {
    let ids = vec![1, 2];
    let mut frags = vec![i32::MAX, 0];
    assert!(credit_kills(&ids, &mut frags, &vec![(2, 1), (1, 2)]).is_none());
    let mut low = vec![i32::MIN, 0];
    assert!(credit_kills(&ids, &mut low, &vec![(1, 1)]).is_none());
}
