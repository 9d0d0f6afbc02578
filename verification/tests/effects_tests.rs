use sas_game::effects::{HitAnimation, HitEffectType, TeleportCooldown};
use sas_game::weapon::Weapon;

#[test]
fn impact_parameters_per_weapon() {
    let h = HitAnimation::new(Weapon::Railgun);
    assert_eq!(h.effect_type, HitEffectType::Rail);
    assert_eq!((h.max_frames, h.frame_duration, h.scale_tenths), (4, 4, 15));
    let g = HitAnimation::new(Weapon::Gauntlet);
    assert_eq!(g.effect_type, HitEffectType::Bullet);
    let r = HitAnimation::new(Weapon::RocketLauncher);
    assert_eq!((r.max_frames, r.frame_duration, r.scale_tenths), (8, 4, 18));
    let b = HitAnimation::new_blood();
    assert_eq!(b.effect_type, HitEffectType::Blood);
    assert_eq!((b.max_frames, b.frame_duration), (5, 3));
}

#[test]
fn frame_advances_every_duration() {
    let mut h = HitAnimation::new(Weapon::Railgun);
    for _ in 0..3 {
        assert!(h.update());
    }
    assert_eq!((h.frame, h.frame_time), (0, 3));
    assert!(h.update());
    assert_eq!((h.frame, h.frame_time, h.life), (1, 0, 4));
}

#[test]
fn animation_ends_after_all_pictures() {
    let mut h = HitAnimation::new(Weapon::Plasmagun);
    let mut alive = true;
    let mut frames = 0;
    while alive {
        alive = h.update();
        frames += 1;
    }
    assert_eq!(frames, 6);
    assert_eq!(h.frame, 1);
}

#[test]
fn picture_is_life_over_duration() {
    let mut h = HitAnimation::new_blood();
    for _ in 0..11 {
        h.update();
        assert_eq!(h.frame, h.life / h.frame_duration);
        assert_eq!(h.frame_time, h.life % h.frame_duration);
    }
}

#[test]
fn teleporter_rests_after_use() {
    let mut t = TeleportCooldown { cooldown: 0 };
    assert!(t.can_teleport());
    t.activate();
    assert_eq!(t.cooldown, 20);
    assert!(!t.can_teleport());
    for _ in 0..19 {
        t.update();
    }
    assert!(!t.can_teleport());
    t.update();
    assert!(t.can_teleport());
    t.update();
    assert_eq!(t.cooldown, 0);
}
