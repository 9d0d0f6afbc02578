//! Where the models and skins of weapons and projectiles are found,
//! relative to the game's resource directory unless written in full.
use vstd::prelude::*;
use crate::weapon::Weapon;

verus! {

/// The projectiles drawn with a model of their own.
#[derive(Clone, Copy, Debug, PartialEq, Eq, Structural)]
pub enum ProjectileModelType {
    Rocket,
    Grenade,
}

impl ProjectileModelType {
    /// Model file of the projectile.
    pub fn model_path(self) -> (p: &'static str)
        ensures
            p@ == match self {
                ProjectileModelType::Rocket => "q3-resources/models/ammo/rocket/rocket.md3"@,
                ProjectileModelType::Grenade => "q3-resources/models/ammo/grenade1.md3"@,
            },
    {
        match self {
            ProjectileModelType::Rocket => "q3-resources/models/ammo/rocket/rocket.md3",
            ProjectileModelType::Grenade => "q3-resources/models/ammo/grenade1.md3",
        }
    }
}

/// Model of the weapon as held by a player.
pub fn weapon_path(weapon: Weapon) -> (p: &'static str)
    ensures
        p@ == match weapon {
            Weapon::Gauntlet => "models/weapons2/gauntlet/gauntlet.md3"@,
            Weapon::MachineGun => "models/weapons2/machinegun/machinegun.md3"@,
            Weapon::Shotgun => "models/weapons2/shotgun/shotgun.md3"@,
            Weapon::GrenadeLauncher => "models/weapons2/grenadel/grenadel.md3"@,
            Weapon::RocketLauncher => "models/weapons2/rocketl/rocketl.md3"@,
            Weapon::Lightning => "models/weapons2/lightning/lightning.md3"@,
            Weapon::Railgun => "models/weapons2/railgun/railgun.md3"@,
            Weapon::Plasmagun => "models/weapons2/plasma/plasma.md3"@,
            Weapon::BFG => "models/weapons2/bfg/bfg.md3"@,
        },
{
    match weapon {
        Weapon::Gauntlet => "models/weapons2/gauntlet/gauntlet.md3",
        Weapon::MachineGun => "models/weapons2/machinegun/machinegun.md3",
        Weapon::Shotgun => "models/weapons2/shotgun/shotgun.md3",
        Weapon::GrenadeLauncher => "models/weapons2/grenadel/grenadel.md3",
        Weapon::RocketLauncher => "models/weapons2/rocketl/rocketl.md3",
        Weapon::Lightning => "models/weapons2/lightning/lightning.md3",
        Weapon::Railgun => "models/weapons2/railgun/railgun.md3",
        Weapon::Plasmagun => "models/weapons2/plasma/plasma.md3",
        Weapon::BFG => "models/weapons2/bfg/bfg.md3",
    }
}

/// Extra model parts of the weapon (the spinning barrel of the machine
/// gun).
pub fn extra_paths(weapon: Weapon) -> (v: Vec<&'static str>)
    ensures
        weapon == Weapon::MachineGun ==> v@.len() == 1 && v@[0]@
            == "models/weapons2/machinegun/machinegun_barrel.md3"@,
        weapon != Weapon::MachineGun ==> v@.len() == 0,
{
    let mut v: Vec<&'static str> = Vec::new();
    match weapon {
        Weapon::MachineGun => v.push("models/weapons2/machinegun/machinegun_barrel.md3"),
        _ => {},
    }
    v
}

pub open spec fn weapon_textures_spec(weapon: Weapon) -> Seq<Seq<char>> {
    match weapon {
        Weapon::Gauntlet => seq!["models/weapons2/gauntlet/gauntlet1.png"@, "models/weapons2/gauntlet/gauntlet3.png"@, "models/weapons2/gauntlet/gauntlet4.png"@],
        Weapon::MachineGun => seq!["models/weapons2/machinegun/machinegun.png"@],
        Weapon::Shotgun => seq!["models/weapons2/shotgun/shotgun.png"@],
        Weapon::GrenadeLauncher => seq!["models/weapons2/grenadel/grenadel.png"@],
        Weapon::RocketLauncher => seq!["models/weapons2/rocketl/rocketl.png"@, "models/weapons2/rocketl/rocketl2.png"@],
        Weapon::Lightning => seq!["models/weapons2/lightning/lightning2.png"@, "models/weapons2/lightning/button.png"@, "models/weapons2/lightning/glass.png"@],
        Weapon::Railgun => seq!["models/weapons2/railgun/railgun1.png"@, "models/weapons2/railgun/railgun3.png"@, "models/weapons2/railgun/railgun4.png"@],
        Weapon::Plasmagun => seq!["models/weapons2/plasma/plasma.png"@],
        Weapon::BFG => seq!["models/weapons2/bfg/f_bfg.png"@, "models/weapons2/bfg/f_bfg2.png"@],
    }
}

/// Skins of the weapon model, in loading order.
pub fn weapon_textures(weapon: Weapon) -> (v: Vec<&'static str>)
    ensures
        v@.map_values(|p: &'static str| p@) == weapon_textures_spec(weapon),
{
    let mut v: Vec<&'static str> = Vec::new();
    match weapon {
        Weapon::Gauntlet => {
            v.push("models/weapons2/gauntlet/gauntlet1.png");
            v.push("models/weapons2/gauntlet/gauntlet3.png");
            v.push("models/weapons2/gauntlet/gauntlet4.png");
        },
        Weapon::MachineGun => {
            v.push("models/weapons2/machinegun/machinegun.png");
        },
        Weapon::Shotgun => {
            v.push("models/weapons2/shotgun/shotgun.png");
        },
        Weapon::GrenadeLauncher => {
            v.push("models/weapons2/grenadel/grenadel.png");
        },
        Weapon::RocketLauncher => {
            v.push("models/weapons2/rocketl/rocketl.png");
            v.push("models/weapons2/rocketl/rocketl2.png");
        },
        Weapon::Lightning => {
            v.push("models/weapons2/lightning/lightning2.png");
            v.push("models/weapons2/lightning/button.png");
            v.push("models/weapons2/lightning/glass.png");
        },
        Weapon::Railgun => {
            v.push("models/weapons2/railgun/railgun1.png");
            v.push("models/weapons2/railgun/railgun3.png");
            v.push("models/weapons2/railgun/railgun4.png");
        },
        Weapon::Plasmagun => {
            v.push("models/weapons2/plasma/plasma.png");
        },
        Weapon::BFG => {
            v.push("models/weapons2/bfg/f_bfg.png");
            v.push("models/weapons2/bfg/f_bfg2.png");
        },
    }
    assert(v@.map_values(|p: &'static str| p@) =~= weapon_textures_spec(weapon));
    v
}

/// Radius of the blast of the weapon's projectile, in world units; 0 for
/// weapons without a blast.
pub fn explosion_radius(weapon: Weapon) -> (r: u32)
    ensures
        r == match weapon {
            Weapon::RocketLauncher => 120u32,
            Weapon::GrenadeLauncher | Weapon::BFG => 150,
            Weapon::Plasmagun => 70,
            _ => 0,
        },
{
    match weapon {
        Weapon::RocketLauncher => 120,
        Weapon::GrenadeLauncher => 150,
        Weapon::BFG => 150,
        Weapon::Plasmagun => 70,
        Weapon::Railgun => 0,
        Weapon::Gauntlet => 0,
        Weapon::MachineGun => 0,
        Weapon::Shotgun => 0,
        Weapon::Lightning => 0,
    }
}

/// Side of the square a projectile occupies for hit tests, in world units.
pub fn projectile_size(weapon: Weapon) -> (s: u32)
    ensures
        s == match weapon {
            Weapon::GrenadeLauncher => 10u32,
            Weapon::Plasmagun => 12,
            Weapon::BFG => 16,
            Weapon::Railgun => 6,
            _ => 8,
        },
{
    match weapon {
        Weapon::RocketLauncher => 8,
        Weapon::GrenadeLauncher => 10,
        Weapon::Plasmagun => 12,
        Weapon::BFG => 16,
        Weapon::Railgun => 6,
        _ => 8,
    }
}

/// Only rockets leave a smoke trail.
pub fn should_create_trail(weapon: Weapon) -> (r: bool)
    ensures
        r == (weapon == Weapon::RocketLauncher),
{
    match weapon {
        Weapon::RocketLauncher => true,
        _ => false,
    }
}

/// A rocket drops a trail puff every third frame of its life.
pub fn trail_due(weapon: Weapon, active: bool, trail_time: u32) -> (r: bool)
    ensures
        r == (weapon == Weapon::RocketLauncher && active && trail_time % 3 == 0),
{
    should_create_trail(weapon) && active && trail_time % 3 == 0
}

/// Flash model and flash skin of each weapon that shows a muzzle flash
/// (all but the gauntlet).
pub open spec fn flash_paths_spec(weapon: Weapon) -> Option<(Seq<char>, Seq<char>)> {
    match weapon {
        Weapon::Gauntlet => None,
        Weapon::MachineGun => Some(("q3-resources/models/weapons2/machinegun/machinegun_flash.md3"@, "q3-resources/models/weapons2/machinegun/f_machinegun.png"@)),
        Weapon::Shotgun => Some(("q3-resources/models/weapons2/shotgun/shotgun_flash.md3"@, "q3-resources/models/weapons2/shotgun/f_shotgun.png"@)),
        Weapon::GrenadeLauncher => Some(("q3-resources/models/weapons2/grenadel/grenadel_flash.md3"@, "q3-resources/models/weapons2/grenadel/f_grenadel.png"@)),
        Weapon::RocketLauncher => Some(("q3-resources/models/weapons2/rocketl/rocketl_flash.md3"@, "q3-resources/models/weapons2/rocketl/f_rocketl.png"@)),
        Weapon::Lightning => Some(("q3-resources/models/weapons2/lightning/lightning_flash.md3"@, "q3-resources/models/weapons2/lightning/f_lightning.png"@)),
        Weapon::Railgun => Some(("q3-resources/models/weapons2/railgun/railgun_flash.md3"@, "q3-resources/models/weapons2/railgun/f_railgun.png"@)),
        Weapon::Plasmagun => Some(("q3-resources/models/weapons2/plasma/plasma_flash.md3"@, "q3-resources/models/weapons2/plasma/f_plasma.png"@)),
        Weapon::BFG => Some(("q3-resources/models/weapons2/bfg/bfg_flash.md3"@, "q3-resources/models/weapons2/bfg/f_bfg.png"@)),
    }
}

/// The muzzle-flash model and skin of a weapon, if it has a flash.
pub fn muzzle_flash_paths(weapon: Weapon) -> (r: Option<(&'static str, &'static str)>)
    ensures
        match r {
            Some((m, t)) => flash_paths_spec(weapon) == Some((m@, t@)),
            None => flash_paths_spec(weapon) is None,
        },
{
    match weapon {
        Weapon::Gauntlet => None,
        Weapon::MachineGun => Some(("q3-resources/models/weapons2/machinegun/machinegun_flash.md3", "q3-resources/models/weapons2/machinegun/f_machinegun.png")),
        Weapon::Shotgun => Some(("q3-resources/models/weapons2/shotgun/shotgun_flash.md3", "q3-resources/models/weapons2/shotgun/f_shotgun.png")),
        Weapon::GrenadeLauncher => Some(("q3-resources/models/weapons2/grenadel/grenadel_flash.md3", "q3-resources/models/weapons2/grenadel/f_grenadel.png")),
        Weapon::RocketLauncher => Some(("q3-resources/models/weapons2/rocketl/rocketl_flash.md3", "q3-resources/models/weapons2/rocketl/f_rocketl.png")),
        Weapon::Lightning => Some(("q3-resources/models/weapons2/lightning/lightning_flash.md3", "q3-resources/models/weapons2/lightning/f_lightning.png")),
        Weapon::Railgun => Some(("q3-resources/models/weapons2/railgun/railgun_flash.md3", "q3-resources/models/weapons2/railgun/f_railgun.png")),
        Weapon::Plasmagun => Some(("q3-resources/models/weapons2/plasma/plasma_flash.md3", "q3-resources/models/weapons2/plasma/f_plasma.png")),
        Weapon::BFG => Some(("q3-resources/models/weapons2/bfg/bfg_flash.md3", "q3-resources/models/weapons2/bfg/f_bfg.png")),
    }
}

} // verus!
