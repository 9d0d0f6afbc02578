use sas_game::net_events::{
    damage_reaction, death_effects, find_player, player_sync_action, remaining_after_disconnect,
    respawn_action, DamageReaction, DeathEffects, PlayerSyncAction, RespawnAction,
};

#[test]
fn respawn_of_own_and_remote_players() {
    let ids = vec![3, 5, 5];
    assert_eq!(respawn_action(false, Some(3), &ids, 3), RespawnAction::Ignore);
    assert_eq!(respawn_action(true, Some(3), &ids, 3), RespawnAction::Ignore);
    assert_eq!(respawn_action(true, Some(7), &ids, 7), RespawnAction::SpawnLocal);
    assert_eq!(respawn_action(true, Some(3), &ids, 5), RespawnAction::ResetRemote(1));
    assert_eq!(respawn_action(true, None, &ids, 9), RespawnAction::SpawnRemote);
}

#[test]
fn damage_effects_depend_on_who_is_local() {
    let none = DamageReaction { knockback: false, pain_sound: false, hit_sound: false, damage_number: false, blood: false };
    assert_eq!(damage_reaction(Some(1), false, 1, 2), none);
    assert_eq!(
        damage_reaction(Some(1), true, 1, 2),
        DamageReaction { knockback: true, pain_sound: true, hit_sound: false, damage_number: true, blood: true }
    );
    assert_eq!(
        damage_reaction(Some(2), true, 1, 2),
        DamageReaction { knockback: false, pain_sound: false, hit_sound: true, damage_number: true, blood: true }
    );
    assert_eq!(
        damage_reaction(None, true, 1, 2),
        DamageReaction { knockback: false, pain_sound: false, hit_sound: false, damage_number: false, blood: true }
    );
}

#[test]
fn death_leaves_corpse_or_gibs() {
    assert_eq!(
        death_effects(true, false),
        DeathEffects { corpse: true, gib_sound: false, death_sound: true, particles: 10, gibs: false }
    );
    assert_eq!(
        death_effects(true, true),
        DeathEffects { corpse: false, gib_sound: true, death_sound: false, particles: 20, gibs: true }
    );
    assert_eq!(death_effects(false, true).particles, 0);
}

#[test]
fn snapshot_players_update_skip_or_create() {
    let ids = vec![1, 4, 6];
    let dead = vec![false, true, false];
    assert_eq!(player_sync_action(Some(1), &ids, &dead, 1, false), PlayerSyncAction::UpdateLocal(0));
    assert_eq!(player_sync_action(Some(9), &ids, &dead, 9, false), PlayerSyncAction::Skip);
    assert_eq!(player_sync_action(Some(1), &ids, &dead, 4, false), PlayerSyncAction::Skip);
    assert_eq!(player_sync_action(Some(1), &ids, &dead, 6, true), PlayerSyncAction::Skip);
    assert_eq!(player_sync_action(Some(1), &ids, &dead, 6, false), PlayerSyncAction::UpdateRemote(2));
    assert_eq!(player_sync_action(Some(1), &ids, &dead, 8, false), PlayerSyncAction::Create);
}

#[test]
fn disconnect_removes_every_player_with_the_id() {
    assert_eq!(remaining_after_disconnect(&vec![2, 7, 2, 9], 2), vec![1, 3]);
    assert_eq!(remaining_after_disconnect(&vec![2, 7], 5), vec![0, 1]);
    assert_eq!(find_player(&vec![2, 7, 7], 7), Some(1));
    assert_eq!(find_player(&vec![2, 7, 7], 3), None);
}
