//! Health, armor and death of a player; awards for frags; numbering of
//! projectiles.
use vstd::prelude::*;
use crate::weapon::Weapon;

verus! {

/// Health below which a body is blown apart.
pub const GIB_HEALTH: i32 = -150;

/// The health-and-death part of a player.
pub struct Vitals {
    pub health: i32,
    pub armor: i32,
    pub dead: bool,
    pub gibbed: bool,
    pub deaths: i32,
}

/// The result of a hit: the vitals after it, whether the player died of
/// it, and whether the body was blown apart by it.
pub struct HitOutcome {
    pub health: int,
    pub armor: int,
    pub dead: bool,
    pub gibbed: bool,
    pub deaths: int,
    pub died: bool,
    pub gibbed_now: bool,
}

/// A hit of `damage` on a player.  Armor, while there is any, takes
/// `armor_share` of the hit (`damage * 0.66` rounded toward zero, worked
/// out by the caller) and is used up by it, never below zero.  A living
/// player whose health falls to `GIB_HEALTH` or below dies blown apart; to
/// zero or below, dies with health set to zero.  A dead body keeps losing
/// health and is blown apart the first time it falls to `GIB_HEALTH`.
pub open spec fn hit(v: Vitals, damage: int, armor_share: int) -> HitOutcome {
    if v.dead {
        let h = v.health - damage;
        let gib = h <= GIB_HEALTH && !v.gibbed;
        HitOutcome {
            health: h,
            armor: v.armor as int,
            dead: true,
            gibbed: v.gibbed || gib,
            deaths: v.deaths as int,
            died: false,
            gibbed_now: gib,
        }
    } else {
        let (actual, armor) = if v.armor > 0 {
            let a = v.armor - armor_share;
            (damage - armor_share, if a < 0 {
                0
            } else {
                a
            })
        } else {
            (damage, v.armor as int)
        };
        let h = v.health - actual;
        if h <= GIB_HEALTH {
            HitOutcome {
                health: h,
                armor,
                dead: true,
                gibbed: true,
                deaths: v.deaths + 1,
                died: true,
                gibbed_now: true,
            }
        } else if h <= 0 {
            HitOutcome {
                health: 0,
                armor,
                dead: true,
                gibbed: v.gibbed,
                deaths: v.deaths + 1,
                died: true,
                gibbed_now: false,
            }
        } else {
            HitOutcome {
                health: h,
                armor,
                dead: false,
                gibbed: v.gibbed,
                deaths: v.deaths as int,
                died: false,
                gibbed_now: false,
            }
        }
    }
}

pub open spec fn fits_i32(x: int) -> bool {
    i32::MIN <= x <= i32::MAX
}

/// Every subtraction and count of a hit fits the integer fields: the
/// inputs on which the hit's arithmetic does not overflow.
pub open spec fn hit_fits(v: Vitals, damage: int, armor_share: int) -> bool {
    if v.dead {
        fits_i32(v.health - damage)
    } else {
        let actual = if v.armor > 0 {
            damage - armor_share
        } else {
            damage
        };
        &&& v.armor > 0 ==> fits_i32(v.armor - armor_share) && fits_i32(damage - armor_share)
        &&& fits_i32(v.health - actual)
        &&& v.health - actual <= 0 ==> fits_i32(v.deaths + 1)
    }
}

/// Health and armor make sense together with the death flags: a living
/// player has health, a blown-apart body is dead, armor is never negative.
pub open spec fn vitals_consistent(v: Vitals) -> bool {
    &&& !v.dead ==> v.health > 0
    &&& v.gibbed ==> v.dead
    &&& v.armor >= 0
}

/// Law: a hit keeps the vitals consistent, and a player dies at most once
/// per life: the death count grows by one exactly when the hit kills.
pub proof fn lemma_hit_consistent(v: Vitals, damage: int, armor_share: int)
    requires
        vitals_consistent(v),
        0 <= armor_share <= damage,
    ensures
        ({
            let o = hit(v, damage, armor_share);
            &&& (!o.dead ==> o.health > 0)
            &&& (o.gibbed ==> o.dead)
            &&& o.armor >= 0
            &&& (o.died <==> (!v.dead && o.dead))
            &&& o.deaths == v.deaths + (if o.died {
                1int
            } else {
                0int
            })
            &&& (o.gibbed_now ==> !v.gibbed && o.gibbed)
        }),
{
}

impl Vitals {
    /// A fresh player: full health, no armor, alive.
    pub fn new() -> (v: Self)
        ensures
            v.health == 100,
            v.armor == 0,
            !v.dead,
            !v.gibbed,
            v.deaths == 0,
            vitals_consistent(v),
    {
        Vitals { health: 100, armor: 0, dead: false, gibbed: false, deaths: 0 }
    }

    /// Applies a hit (see `hit`); returns whether the player died of it
    /// and whether the body was blown apart by it.
    pub fn take_damage(&mut self, damage: i32, armor_share: i32) -> (r: (bool, bool))
        requires
            hit_fits(*old(self), damage as int, armor_share as int),
        ensures
            ({
                let o = hit(*old(self), damage as int, armor_share as int);
                &&& final(self).health == o.health
                &&& final(self).armor == o.armor
                &&& final(self).dead == o.dead
                &&& final(self).gibbed == o.gibbed
                &&& final(self).deaths == o.deaths
                &&& r == (o.died, o.gibbed_now)
            }),
    {
        if self.dead {
            let was_gibbed = self.gibbed;
            self.health = self.health - damage;
            if self.health <= GIB_HEALTH && !was_gibbed {
                self.gibbed = true;
                return (false, true);
            }
            return (false, false);
        }
        let actual_damage = if self.armor > 0 {
            self.armor = self.armor - armor_share;
            if self.armor < 0 {
                self.armor = 0;
            }
            damage - armor_share
        } else {
            damage
        };
        self.health = self.health - actual_damage;
        if self.health <= GIB_HEALTH {
            self.dead = true;
            self.gibbed = true;
            self.deaths = self.deaths + 1;
            return (true, true);
        } else if self.health <= 0 {
            self.health = 0;
            self.dead = true;
            self.deaths = self.deaths + 1;
            return (true, false);
        }
        (false, false)
    }
}

#[derive(Clone, Copy, Debug, PartialEq, Eq, Structural)]
pub enum AwardType {
    Excellent,
    Impressive,
}

/// The award a frag earns: every railgun frag is impressive; otherwise a
/// frag soon after the previous one (`quick_second`) is excellent.
pub fn award_for_frag(weapon: Weapon, quick_second: bool) -> (a: Option<AwardType>)
    ensures
        a == (if weapon == Weapon::Railgun {
            Some(AwardType::Impressive)
        } else if quick_second {
            Some(AwardType::Excellent)
        } else {
            None::<AwardType>
        }),
{
    match weapon {
        Weapon::Railgun => Some(AwardType::Impressive),
        _ => if quick_second {
            Some(AwardType::Excellent)
        } else {
            None
        },
    }
}

/// Awards collected by one player.
pub struct AwardCounts {
    pub excellent_count: u32,
    pub impressive_count: u32,
}

impl AwardCounts {
    pub fn new() -> (c: Self)
        ensures
            c.excellent_count == 0,
            c.impressive_count == 0,
    {
        AwardCounts { excellent_count: 0, impressive_count: 0 }
    }

    /// Counts one more award of the given type.
    pub fn add(&mut self, award: AwardType)
        requires
            award == AwardType::Excellent ==> old(self).excellent_count < u32::MAX,
            award == AwardType::Impressive ==> old(self).impressive_count < u32::MAX,
        ensures
            final(self).excellent_count == old(self).excellent_count + (if award == AwardType::Excellent {
                1int
            } else {
                0int
            }),
            final(self).impressive_count == old(self).impressive_count + (if award
                == AwardType::Impressive {
                1int
            } else {
                0int
            }),
    {
        match award {
            AwardType::Excellent => self.excellent_count += 1,
            AwardType::Impressive => self.impressive_count += 1,
        }
    }
}

/// Hands out projectile numbers.
pub struct ProjectileIds {
    pub next_projectile_id: u32,
}

impl ProjectileIds {
    pub fn new() -> (p: Self)
        ensures
            p.next_projectile_id == 0,
    {
        ProjectileIds { next_projectile_id: 0 }
    }

    /// The number for a new projectile: the next one in turn.
    pub fn create_projectile_id(&mut self) -> (id: u32)
        requires
            old(self).next_projectile_id < u32::MAX,
        ensures
            id == old(self).next_projectile_id,
            final(self).next_projectile_id == id + 1,
    {
        let id = self.next_projectile_id;
        self.next_projectile_id += 1;
        id
    }
}

/// Law: projectile numbers handed out one after another are all different,
/// each one larger than the one before.
pub proof fn lemma_projectile_ids_increase(first: u32, second: u32, counter_between: u32)
    requires
        counter_between == first + 1,
        second >= counter_between,
    ensures
        first < second,
{
}

} // verus!
