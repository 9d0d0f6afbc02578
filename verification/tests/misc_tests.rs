use sas_game::animation::{
    compute_frames, frame_in_range, legs_animation, torso_animation, AnimConfig, AnimRange,
    MAX_LEGS_FRAME,
};
use sas_game::models::{
    explosion_radius, extra_paths, muzzle_flash_paths, projectile_size, should_create_trail, trail_due, weapon_path,
    weapon_textures, ProjectileModelType,
};
use sas_game::palette::{
    get_base_color, get_border_color, get_edge_color, get_player_railgun_color, is_grass,
};
use sas_game::roster::{bot_count, bot_spawn_index, cycle_model_index, last_bot_index, new_bot_id};
use sas_game::scoreboard::scoreboard_order;
use sas_game::usercmd::{InputState, UserCmd, BUTTON_ATTACK, BUTTON_CROUCH, BUTTON_JUMP};
use sas_game::weapon::Weapon;

fn range(first_frame: usize, num_frames: usize, looping_frames: usize) -> AnimRange {
    AnimRange { first_frame, num_frames, looping_frames, fps: 15 }
}

fn config() -> AnimConfig {
    AnimConfig {
        death1: range(0, 30, 0),
        torso_attack: range(90, 6, 0),
        torso_stand: range(151, 1, 0),
        legs_walkcr: range(100, 10, 10),
        legs_run: range(110, 10, 10),
        legs_jump: range(120, 8, 0),
        legs_idle: range(130, 10, 10),
        legs_idlecr: range(140, 10, 10),
    }
}

#[test]
fn leg_animation_choice() {
    let c = config();
    assert_eq!(legs_animation(&c, true, true, true, true).first_frame, 0);
    assert_eq!(legs_animation(&c, true, false, false, true).first_frame, 120);
    assert_eq!(legs_animation(&c, true, true, false, true).first_frame, 100);
    assert_eq!(legs_animation(&c, false, true, false, true).first_frame, 140);
    assert_eq!(legs_animation(&c, true, true, false, false).first_frame, 110);
    assert_eq!(legs_animation(&c, false, true, false, false).first_frame, 130);
    assert_eq!(torso_animation(&c, true, false).first_frame, 90);
    assert_eq!(torso_animation(&c, false, false).first_frame, 151);
    assert_eq!(torso_animation(&c, true, true).first_frame, 0);
}

#[test]
fn frames_loop_or_hold() {
    assert_eq!(frame_in_range(&range(10, 5, 5), 7, false, 190), 12);
    assert_eq!(frame_in_range(&range(10, 5, 5), 7, true, 190), 14);
    assert_eq!(frame_in_range(&range(10, 5, 0), 2, false, 190), 12);
    assert_eq!(frame_in_range(&range(10, 5, 0), 9, false, 190), 14);
    assert_eq!(frame_in_range(&range(10, 0, 0), 9, false, 190), 10);
    assert_eq!(frame_in_range(&range(200, 5, 0), 1, false, 190), 190);
}

#[test]
fn model_frames_for_state() {
    let c = config();
    assert_eq!(compute_frames(&c, true, false, true, false, false, 13, 0), (113, 151));
    assert_eq!(compute_frames(&c, false, true, true, true, false, 40, 3), (29, 3));
    let far = AnimConfig { legs_idle: range(185, 10, 10), ..c };
    assert_eq!(compute_frames(&far, false, false, true, false, false, 8, 0).0, MAX_LEGS_FRAME);
}

#[test]
fn user_command_from_keys() {
    let keys = InputState { move_left: true, move_right: true, jump: true, crouch: false, shoot: true };
    let cmd = UserCmd::from_input(&keys);
    assert_eq!(cmd.right, 0);
    assert_eq!(cmd.buttons, BUTTON_ATTACK | BUTTON_JUMP);
    assert!(cmd.has_button(BUTTON_JUMP));
    assert!(!cmd.has_button(BUTTON_CROUCH));
    let left = InputState { move_left: true, move_right: false, jump: false, crouch: true, shoot: false };
    let cmd = UserCmd::from_player_input(&left);
    assert_eq!(cmd.right, -1);
    assert_eq!(cmd.buttons, 4);
    assert_eq!(UserCmd::new().buttons, 0);
}

#[test]
fn bots_in_the_roster() {
    let roster = vec![false, true, false, true, false];
    assert_eq!(last_bot_index(&roster), Some(3));
    assert_eq!(last_bot_index(&vec![false, false]), None);
    assert_eq!(bot_count(&roster), 2);
    assert_eq!(new_bot_id(3), 4);
    assert_eq!(new_bot_id(65535), 0);
    assert_eq!(bot_spawn_index(5, 3), 2);
    assert_eq!(bot_spawn_index(5, 0), 0);
    assert_eq!(bot_spawn_index(5, 1), 0);
}

#[test]
fn scoreboard_sorts_by_frags_stably() {
    assert_eq!(scoreboard_order(&vec![3, 7, 3, 10]), vec![3, 1, 0, 2]);
    assert_eq!(scoreboard_order(&vec![-1, -1, -1]), vec![0, 1, 2]);
    assert!(scoreboard_order(&Vec::new()).is_empty());
}

#[test]
fn tile_and_beam_colours() {
    assert_eq!(get_base_color(6), (130, 100, 75, 255));
    assert_eq!(get_base_color(42), (55, 57, 62, 255));
    assert_eq!(get_edge_color(0), (70, 48, 32, 255));
    assert_eq!(get_edge_color(42), (65, 67, 72, 255));
    assert!(is_grass(7));
    assert!(!is_grass(8));
    assert_eq!(get_border_color(13), (80, 70, 60, 180));
    assert_eq!(get_border_color(29), (65, 70, 75, 180));
    assert_eq!(get_player_railgun_color(2), (255, 100, 100, 255));
    assert_eq!(get_player_railgun_color(9), (200, 150, 255, 255));
}

#[test]
fn weapon_and_projectile_models() {
    assert_eq!(weapon_path(Weapon::Railgun), "models/weapons2/railgun/railgun.md3");
    assert_eq!(extra_paths(Weapon::MachineGun), vec!["models/weapons2/machinegun/machinegun_barrel.md3"]);
    assert!(extra_paths(Weapon::Shotgun).is_empty());
    assert_eq!(weapon_textures(Weapon::Lightning).len(), 3);
    assert_eq!(weapon_textures(Weapon::BFG)[1], "models/weapons2/bfg/f_bfg2.png");
    assert_eq!(ProjectileModelType::Rocket.model_path(), "q3-resources/models/ammo/rocket/rocket.md3");
    assert_eq!(ProjectileModelType::Grenade.model_path(), "q3-resources/models/ammo/grenade1.md3");
}

#[test]
fn projectile_properties() {
    assert_eq!(explosion_radius(Weapon::RocketLauncher), 120);
    assert_eq!(explosion_radius(Weapon::BFG), 150);
    assert_eq!(explosion_radius(Weapon::Railgun), 0);
    assert_eq!(projectile_size(Weapon::Plasmagun), 12);
    assert_eq!(projectile_size(Weapon::RocketLauncher), 8);
    assert!(should_create_trail(Weapon::RocketLauncher));
    assert!(!should_create_trail(Weapon::GrenadeLauncher));
    assert!(trail_due(Weapon::RocketLauncher, true, 6));
    assert!(!trail_due(Weapon::RocketLauncher, true, 7));
    assert!(!trail_due(Weapon::RocketLauncher, false, 6));
    assert_eq!(Weapon::BFG.slot(), 8);
    assert_eq!(Weapon::Gauntlet.slot(), 0);
}

#[test]
fn model_cycling_wraps() {
    assert_eq!(cycle_model_index(0, 3, true), 1);
    assert_eq!(cycle_model_index(2, 3, true), 0);
    assert_eq!(cycle_model_index(0, 3, false), 2);
    assert_eq!(cycle_model_index(2, 3, false), 1);
    assert_eq!(cycle_model_index(7, 3, true), 2);
}

#[test]
fn muzzle_flash_assets() {
    assert_eq!(muzzle_flash_paths(Weapon::Gauntlet), None);
    assert_eq!(
        muzzle_flash_paths(Weapon::BFG),
        Some(("q3-resources/models/weapons2/bfg/bfg_flash.md3", "q3-resources/models/weapons2/bfg/f_bfg.png"))
    );
    assert_eq!(
        muzzle_flash_paths(Weapon::Plasmagun).unwrap().1,
        "q3-resources/models/weapons2/plasma/f_plasma.png"
    );
}
