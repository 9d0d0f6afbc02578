use sas_game::story::StoryMode;
use sas_game::weapon::Weapon;

#[test]
fn campaign_has_five_levels() {
    let levels = StoryMode::create_campaign();
    let maps: Vec<&str> = levels.iter().map(|l| l.map_name.as_str()).collect();
    assert_eq!(maps, vec!["0-arena", "1-arena", "new_map", "2-arena", "my_arena"]);
    let counts: Vec<usize> = levels.iter().map(|l| l.enemy_spawns.len()).collect();
    assert_eq!(counts, vec![3, 4, 5, 6, 5]);
    assert!(levels.iter().all(|l| l.enemy_spawns.iter().all(|s| !s.spawned)));
    assert_eq!(levels[0].name, "TRAINING GROUND");
    assert_eq!(levels[4].exit_radius, 130);
    let keeper = &levels[4].enemy_spawns[4];
    assert_eq!(keeper.model, "tankjr");
    assert_eq!(keeper.health, 2500);
    assert_eq!(keeper.weapon, Weapon::BFG);
    assert!(keeper.is_boss);
    assert_eq!(keeper.scale_tenths, 22);
}

#[test]
fn new_campaign_starts_with_briefing() {
    let s = StoryMode::new();
    assert!(s.active);
    assert_eq!(s.current_level, 0);
    assert_eq!(s.total_enemies, 3);
    assert!(s.show_briefing);
    assert!(s.in_briefing());
    assert!(!s.level_complete);
}

#[test]
fn briefing_holds_until_it_expires() {
    let mut s = StoryMode::new();
    let (spawns, change) = s.update(false, 0, true);
    assert!(spawns.is_empty());
    assert!(!change);
    assert!(s.show_briefing);
    let (spawns, change) = s.update(true, 0, true);
    assert!(spawns.is_empty());
    assert!(!change);
    assert!(!s.show_briefing);
}

#[test]
fn enemies_spawn_once() {
    let mut s = StoryMode::new();
    s.update(true, 0, false);
    let (spawns, change) = s.update(false, 2, false);
    assert_eq!(spawns.len(), 3);
    assert_eq!(spawns[0].model, "grunt");
    assert_eq!((spawns[2].x, spawns[2].y), (1350, 285));
    assert!(!change);
    assert!(!s.level_complete);
    let (again, _) = s.update(false, 2, false);
    assert!(again.is_empty());
    assert!(s.levels[0].enemy_spawns.iter().all(|e| e.spawned));
}

#[test]
fn level_completes_and_exit_changes_level() {
    let mut s = StoryMode::new();
    s.update(true, 0, false);
    s.update(false, 3, false);
    let (_, change) = s.update(false, 0, false);
    assert!(!change);
    assert!(s.level_complete);
    assert!(!s.next_level_ready);
    let (_, change) = s.update(false, 1, true);
    assert!(change);
    assert!(s.next_level_ready);
    assert_eq!(s.advance_to_next_level(), Some("1-arena".to_string()));
    assert_eq!(s.current_level, 1);
    assert_eq!(s.total_enemies, 4);
    assert!(s.show_briefing);
    assert!(!s.level_complete);
    assert!(!s.next_level_ready);
}

#[test]
fn campaign_ends_after_last_level() {
    let mut s = StoryMode::new();
    for _ in 0..4 {
        assert!(s.advance_to_next_level().is_some());
    }
    assert_eq!(s.get_current_level().unwrap().map_name, "my_arena");
    assert_eq!(s.advance_to_next_level(), None);
    assert!(!s.active);
    assert!(s.campaign_complete);
    assert!(s.get_current_level().is_none());
    let (spawns, change) = s.update(true, 0, true);
    assert!(spawns.is_empty());
    assert!(!change);
}

#[test]
fn killed_enemies_are_counted() {
    let mut s = StoryMode::new();
    s.on_enemy_killed();
    s.on_enemy_killed();
    assert_eq!(s.enemies_killed, 2);
    s.advance_to_next_level();
    assert_eq!(s.enemies_killed, 0);
}
