use sas_game::sync::{sync_projectiles, Origin, ProjectileTag, Synced};

fn tag(id: u32, owner_id: u16, active: bool) -> ProjectileTag {
    ProjectileTag { id, owner_id, active }
}

#[test]
fn snapshot_moves_known_and_adds_new() {
    let local = vec![tag(10, 2, false), tag(11, 3, true)];
    let snapshot = vec![(10, 2), (12, 4)];
    let out = sync_projectiles(&local, &snapshot, 1);
    assert_eq!(
        out,
        vec![
            Synced { origin: Origin::Local(0), updated_by: Some(0), tag: tag(10, 2, true) },
            Synced { origin: Origin::Snapshot(1), updated_by: Some(1), tag: tag(12, 4, true) },
        ]
    );
}

#[test]
fn own_projectiles_stay_while_active() {
    let local = vec![tag(5, 1, true), tag(6, 1, false), tag(7, 2, true)];
    let out = sync_projectiles(&local, &Vec::new(), 1);
    assert_eq!(out, vec![Synced { origin: Origin::Local(0), updated_by: None, tag: tag(5, 1, true) }]);
}

#[test]
fn repeated_entries_go_to_the_first_projectile() {
    let local = vec![tag(9, 2, true), tag(9, 2, true)];
    let snapshot = vec![(9, 2), (9, 2)];
    let out = sync_projectiles(&local, &snapshot, 1);
    assert_eq!(out.len(), 2);
    assert_eq!(out[0].updated_by, Some(1));
    assert_eq!(out[1].updated_by, None);
}

#[test]
fn duplicate_new_ids_are_added_once() {
    let snapshot = vec![(3, 2), (3, 2)];
    let out = sync_projectiles(&Vec::new(), &snapshot, 1);
    assert_eq!(out, vec![Synced { origin: Origin::Snapshot(0), updated_by: Some(1), tag: tag(3, 2, true) }]);
}
