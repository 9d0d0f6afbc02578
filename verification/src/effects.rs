//! Frame counters of short-lived effects: the sprite animation of weapon
//! impacts and the cooldown of teleporters.
use vstd::prelude::*;
use crate::weapon::Weapon;

verus! {

#[derive(Clone, Copy, Debug, PartialEq, Eq, Structural)]
pub enum HitEffectType {
    Bullet,
    Plasma,
    Rail,
    Rocket,
    Grenade,
    BFG,
    Lightning,
    Blood,
}

/// The frame clock of an impact animation.  One `update` is one game
/// frame; each picture of the animation stays `frame_duration` frames.
pub struct HitAnimation {
    pub effect_type: HitEffectType,
    pub frame: u32,
    pub max_frames: u32,
    pub frame_duration: u32,
    pub life: u32,
    /// Drawing size relative to the texture, in tenths.
    pub scale_tenths: u32,
    pub frame_time: u32,
}

/// Kind, number of pictures, frames per picture and size (tenths) of the
/// impact of each weapon.
pub open spec fn hit_params(weapon: Weapon) -> (HitEffectType, u32, u32, u32) {
    match weapon {
        Weapon::MachineGun | Weapon::Shotgun => (HitEffectType::Bullet, 3, 4, 10),
        Weapon::Plasmagun => (HitEffectType::Plasma, 1, 6, 12),
        Weapon::Railgun => (HitEffectType::Rail, 4, 4, 15),
        Weapon::RocketLauncher => (HitEffectType::Rocket, 8, 4, 18),
        Weapon::GrenadeLauncher => (HitEffectType::Grenade, 3, 5, 15),
        Weapon::BFG => (HitEffectType::BFG, 3, 5, 20),
        Weapon::Lightning => (HitEffectType::Lightning, 3, 4, 13),
        _ => (HitEffectType::Bullet, 3, 4, 10),
    }
}

/// Number of pictures loaded for each kind of impact: the bullet, rail,
/// rocket, grenade, BFG, lightning and blood sprite series and the single
/// plasma picture.
pub open spec fn loaded_pictures(t: HitEffectType) -> u32 {
    match t {
        HitEffectType::Bullet => 3,
        HitEffectType::Plasma => 1,
        HitEffectType::Rail => 4,
        HitEffectType::Rocket => 8,
        HitEffectType::Grenade => 3,
        HitEffectType::BFG => 3,
        HitEffectType::Lightning => 3,
        HitEffectType::Blood => 5,
    }
}

/// Law: a hit of a weapon plays the impact of that weapon's own kind
/// (weapons without an impact of their own show bullet hits), different
/// projectile weapons play different impacts, and the animation has
/// exactly as many pictures as are loaded for its kind.
pub proof fn lemma_impact_of_weapon(w: Weapon, v: Weapon)
    ensures
        hit_params(w).0 == match w {
            Weapon::Plasmagun => HitEffectType::Plasma,
            Weapon::Railgun => HitEffectType::Rail,
            Weapon::RocketLauncher => HitEffectType::Rocket,
            Weapon::GrenadeLauncher => HitEffectType::Grenade,
            Weapon::BFG => HitEffectType::BFG,
            Weapon::Lightning => HitEffectType::Lightning,
            _ => HitEffectType::Bullet,
        },
        hit_params(w).0 != HitEffectType::Blood,
        hit_params(w).1 == loaded_pictures(hit_params(w).0),
        hit_params(w).2 > 0,
        (hit_params(w).0 != HitEffectType::Bullet && w != v) ==> hit_params(w).0 != hit_params(v).0,
{
}

impl HitAnimation {
    /// The clock is consistent: `life` frames have passed, which is
    /// `frame` whole pictures plus `frame_time` frames of the current one.
    pub open spec fn clock_ok(&self) -> bool {
        &&& self.frame_duration > 0
        &&& self.frame_time < self.frame_duration
        &&& self.frame * self.frame_duration + self.frame_time == self.life
    }

    /// The impact animation of a weapon, at its first frame.
    pub fn new(weapon: Weapon) -> (h: Self)
        ensures
            (h.effect_type, h.max_frames, h.frame_duration, h.scale_tenths) == hit_params(weapon),
            h.frame == 0,
            h.life == 0,
            h.frame_time == 0,
            h.clock_ok(),
    {
        let (effect_type, max_frames, frame_duration, scale_tenths) = match weapon {
            Weapon::MachineGun | Weapon::Shotgun => (HitEffectType::Bullet, 3, 4, 10),
            Weapon::Plasmagun => (HitEffectType::Plasma, 1, 6, 12),
            Weapon::Railgun => (HitEffectType::Rail, 4, 4, 15),
            Weapon::RocketLauncher => (HitEffectType::Rocket, 8, 4, 18),
            Weapon::GrenadeLauncher => (HitEffectType::Grenade, 3, 5, 15),
            Weapon::BFG => (HitEffectType::BFG, 3, 5, 20),
            Weapon::Lightning => (HitEffectType::Lightning, 3, 4, 13),
            _ => (HitEffectType::Bullet, 3, 4, 10),
        };
        HitAnimation {
            effect_type,
            frame: 0,
            max_frames,
            frame_duration,
            life: 0,
            scale_tenths,
            frame_time: 0,
        }
    }

    /// The blood splash animation, at its first frame.
    pub fn new_blood() -> (h: Self)
        ensures
            h.effect_type == HitEffectType::Blood,
            h.max_frames == 5,
            h.max_frames == loaded_pictures(h.effect_type),
            h.frame_duration == 3,
            h.scale_tenths == 10,
            h.frame == 0,
            h.life == 0,
            h.frame_time == 0,
            h.clock_ok(),
    {
        HitAnimation {
            effect_type: HitEffectType::Blood,
            frame: 0,
            max_frames: 5,
            frame_duration: 3,
            life: 0,
            scale_tenths: 10,
            frame_time: 0,
        }
    }

    /// One frame; returns whether the animation still has a picture to show.
    pub fn update(&mut self) -> (alive: bool)
        requires
            old(self).life < u32::MAX,
            old(self).clock_ok(),
        ensures
            final(self).life == old(self).life + 1,
            old(self).frame_time + 1 == old(self).frame_duration ==> final(self).frame == old(self).frame + 1
                && final(self).frame_time == 0,
            old(self).frame_time + 1 < old(self).frame_duration ==> final(self).frame == old(self).frame
                && final(self).frame_time == old(self).frame_time + 1,
            final(self).effect_type == old(self).effect_type,
            final(self).max_frames == old(self).max_frames,
            final(self).frame_duration == old(self).frame_duration,
            final(self).scale_tenths == old(self).scale_tenths,
            final(self).clock_ok(),
            alive == (final(self).frame < final(self).max_frames),
    {
        proof {
            assert(self.frame <= self.life) by (nonlinear_arith)
                requires
                    self.frame * self.frame_duration + self.frame_time == self.life,
                    self.frame_duration > 0,
            ;
        }
        self.life += 1;
        self.frame_time += 1;
        if self.frame_time >= self.frame_duration {
            let f = self.frame;
            let d = self.frame_duration;
            proof {
                assert((f + 1) * d == f * d + d) by (nonlinear_arith);
            }
            self.frame += 1;
            self.frame_time = 0;
        }
        self.frame < self.max_frames
    }
}

/// Law: the impact animation shows picture `life / frame_duration` after
/// `life` frames; it changes picture every `frame_duration` frames.
pub proof fn lemma_hit_frame_is_life_over_duration(h: HitAnimation)
    requires
        h.clock_ok(),
    ensures
        h.frame == h.life / h.frame_duration,
        h.frame_time == h.life % h.frame_duration,
{
    let d = h.frame_duration as int;
    let f = h.frame as int;
    let t = h.frame_time as int;
    vstd::arithmetic::div_mod::lemma_fundamental_div_mod_converse(h.life as int, d, f, t);
}

/// Law: an impact animation is shown for exactly `max_frames *
/// frame_duration` frames: `update` reports it alive while fewer frames
/// than that have passed.
pub proof fn lemma_hit_alive_while_frames_left(h: HitAnimation)
    requires
        h.clock_ok(),
    ensures
        (h.frame < h.max_frames) <==> (h.life < h.max_frames * h.frame_duration),
{
    let d = h.frame_duration as int;
    let f = h.frame as int;
    let m = h.max_frames as int;
    let t = h.frame_time as int;
    assert(f < m ==> f * d + t < m * d) by (nonlinear_arith)
        requires
            0 <= t < d,
            0 <= f,
    ;
    assert(f >= m ==> f * d + t >= m * d) by (nonlinear_arith)
        requires
            0 <= t < d,
            0 <= m,
    ;
}

/// Teleporter re-use delay, in frames.
pub struct TeleportCooldown {
    pub cooldown: u8,
}

impl TeleportCooldown {
    /// One frame of the delay.
    pub fn update(&mut self)
        ensures
            final(self).cooldown == if old(self).cooldown > 0 {
                (old(self).cooldown - 1) as u8
            } else {
                0
            },
            final(self).cooldown == cooldown_after(old(self).cooldown, 1),
    {
        assert(cooldown_after(self.cooldown, 0) == self.cooldown);
        if self.cooldown > 0 {
            self.cooldown -= 1;
        }
    }

    pub fn can_teleport(&self) -> (r: bool)
        ensures
            r == (self.cooldown == 0),
    {
        self.cooldown == 0
    }

    /// A player went through: the teleporter rests for 20 frames.
    pub fn activate(&mut self)
        ensures
            final(self).cooldown == 20,
    {
        self.cooldown = 20;
    }
}

/// The delay left after `k` frames, from `c`.
pub open spec fn cooldown_after(c: u8, k: nat) -> u8
    decreases k,
{
    if k == 0 {
        c
    } else {
        let prev = cooldown_after(c, (k - 1) as nat);
        if prev > 0 {
            (prev - 1) as u8
        } else {
            0
        }
    }
}

/// Law: a teleporter just used rests for exactly 20 frames: after `k`
/// frames of `update` it can be used again exactly when `k >= 20`.
pub proof fn lemma_teleport_rests_twenty_frames(k: nat)
    ensures
        (cooldown_after(20, k) == 0) <==> k >= 20,
        k <= 20 ==> cooldown_after(20, k) == 20 - k,
    decreases k,
{
    if k > 0 {
        lemma_teleport_rests_twenty_frames((k - 1) as nat);
    }
}

} // verus!
