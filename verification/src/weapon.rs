//! The nine weapons, in the order of their inventory slots.
use vstd::prelude::*;

verus! {

#[derive(Clone, Copy, Debug, PartialEq, Eq, Structural)]
pub enum Weapon {
    Gauntlet,
    MachineGun,
    Shotgun,
    GrenadeLauncher,
    RocketLauncher,
    Lightning,
    Railgun,
    Plasmagun,
    BFG,
}

pub open spec fn slot_spec(w: Weapon) -> int {
    match w {
        Weapon::Gauntlet => 0,
        Weapon::MachineGun => 1,
        Weapon::Shotgun => 2,
        Weapon::GrenadeLauncher => 3,
        Weapon::RocketLauncher => 4,
        Weapon::Lightning => 5,
        Weapon::Railgun => 6,
        Weapon::Plasmagun => 7,
        Weapon::BFG => 8,
    }
}

impl Weapon {
    /// Inventory slot of the weapon: index into the `has_weapon` and `ammo`
    /// arrays of a player.
    pub fn slot(self) -> (s: usize)
        ensures
            s == slot_spec(self),
            s < 9,
    {
        match self {
            Weapon::Gauntlet => 0,
            Weapon::MachineGun => 1,
            Weapon::Shotgun => 2,
            Weapon::GrenadeLauncher => 3,
            Weapon::RocketLauncher => 4,
            Weapon::Lightning => 5,
            Weapon::Railgun => 6,
            Weapon::Plasmagun => 7,
            Weapon::BFG => 8,
        }
    }
}

} // verus!
