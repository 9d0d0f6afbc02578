//! What the client does with the messages of the server: which player a
//! message is about, and which effects it sets off.  The effects
//! themselves (positions, particles, sounds) are carried out by the caller.
use vstd::prelude::*;

verus! {

/// `i` is the first player with the given id.
pub open spec fn first_player(ids: Seq<u16>, id: u16, i: int) -> bool {
    &&& 0 <= i < ids.len()
    &&& ids[i] == id
    &&& forall|j: int| 0 <= j < i ==> ids[j] != id
}

pub open spec fn has_player(ids: Seq<u16>, id: u16) -> bool {
    exists|i: int| 0 <= i < ids.len() && #[trigger] ids[i] == id
}

/// The first player with the given id, if any.
pub fn find_player(ids: &Vec<u16>, id: u16) -> (r: Option<usize>)
    ensures
        match r {
            Some(i) => first_player(ids@, id, i as int),
            None => !has_player(ids@, id),
        },
{
    let mut i: usize = 0;
    while i < ids.len()
        invariant
            i <= ids@.len(),
            forall|j: int| 0 <= j < i ==> ids@[j] != id,
        decreases ids@.len() - i,
    {
        if ids[i] == id {
            return Some(i);
        }
        i += 1;
    }
    None
}

#[derive(Clone, Copy, Debug, PartialEq, Eq, Structural)]
pub enum RespawnAction {
    /// Add this client's own player.
    SpawnLocal,
    /// Put a known remote player back on its feet (by index).
    ResetRemote(usize),
    /// Add a remote player not seen before.
    SpawnRemote,
    Ignore,
}

/// The response to a respawn of `player_id`: without a connection nothing
/// happens; this client's own player is added unless it is there already;
/// a remote player is reset when known and added otherwise.
pub fn respawn_action(connected: bool, local_id: Option<u16>, ids: &Vec<u16>, player_id: u16) -> (a: RespawnAction)
    ensures
        !connected ==> a == RespawnAction::Ignore,
        connected && local_id == Some(player_id) ==> a == if has_player(ids@, player_id) {
            RespawnAction::Ignore
        } else {
            RespawnAction::SpawnLocal
        },
        connected && local_id != Some(player_id) ==> match a {
            RespawnAction::ResetRemote(i) => first_player(ids@, player_id, i as int),
            RespawnAction::SpawnRemote => !has_player(ids@, player_id),
            _ => false,
        },
{
    if !connected {
        return RespawnAction::Ignore;
    }
    let found = find_player(ids, player_id);
    if local_id == Some(player_id) {
        match found {
            Some(_) => RespawnAction::Ignore,
            None => RespawnAction::SpawnLocal,
        }
    } else {
        match found {
            Some(i) => RespawnAction::ResetRemote(i),
            None => RespawnAction::SpawnRemote,
        }
    }
}

/// Effects of a damage message about a known player.
#[derive(Clone, Copy, Debug, PartialEq, Eq, Structural)]
pub struct DamageReaction {
    /// The target is this client's player: its speed becomes the knockback.
    pub knockback: bool,
    pub pain_sound: bool,
    pub hit_sound: bool,
    pub damage_number: bool,
    /// A blood splash and three blood particles at the target.
    pub blood: bool,
}

/// The effects of a damage message: none when the target is unknown;
/// otherwise blood, and for this client's player as target knockback and a
/// pain sound, as attacker a hit sound, and either way a damage number.
pub fn damage_reaction(local_id: Option<u16>, target_known: bool, target_id: u16, attacker_id: u16) -> (r: DamageReaction)
    ensures
        r == (if target_known {
            DamageReaction {
                knockback: local_id == Some(target_id),
                pain_sound: local_id == Some(target_id),
                hit_sound: local_id == Some(attacker_id),
                damage_number: local_id == Some(target_id) || local_id == Some(attacker_id),
                blood: true,
            }
        } else {
            DamageReaction {
                knockback: false,
                pain_sound: false,
                hit_sound: false,
                damage_number: false,
                blood: false,
            }
        }),
{
    if !target_known {
        return DamageReaction {
            knockback: false,
            pain_sound: false,
            hit_sound: false,
            damage_number: false,
            blood: false,
        };
    }
    let is_target = local_id == Some(target_id);
    let is_attacker = local_id == Some(attacker_id);
    DamageReaction {
        knockback: is_target,
        pain_sound: is_target,
        hit_sound: is_attacker,
        damage_number: is_target || is_attacker,
        blood: true,
    }
}

/// Effects of a death message about a known player.
#[derive(Clone, Copy, Debug, PartialEq, Eq, Structural)]
pub struct DeathEffects {
    /// A corpse is left (the body was not blown apart).
    pub corpse: bool,
    pub gib_sound: bool,
    pub death_sound: bool,
    pub particles: u32,
    pub gibs: bool,
}

/// The effects of a death: a whole body leaves a corpse, a death sound and
/// ten particles; a body blown apart a gib sound, twenty particles and
/// gibs.  An unknown player sets off nothing.
pub fn death_effects(player_known: bool, gibbed: bool) -> (e: DeathEffects)
    ensures
        e == (if !player_known {
            DeathEffects { corpse: false, gib_sound: false, death_sound: false, particles: 0, gibs: false }
        } else if gibbed {
            DeathEffects { corpse: false, gib_sound: true, death_sound: false, particles: 20, gibs: true }
        } else {
            DeathEffects { corpse: true, gib_sound: false, death_sound: true, particles: 10, gibs: false }
        }),
{
    if !player_known {
        DeathEffects { corpse: false, gib_sound: false, death_sound: false, particles: 0, gibs: false }
    } else if gibbed {
        DeathEffects { corpse: false, gib_sound: true, death_sound: false, particles: 20, gibs: true }
    } else {
        DeathEffects { corpse: true, gib_sound: false, death_sound: true, particles: 10, gibs: false }
    }
}

#[derive(Clone, Copy, Debug, PartialEq, Eq, Structural)]
pub enum PlayerSyncAction {
    /// Take health, armor, frags, deaths and quad time from the server for
    /// this client's player (by index).
    UpdateLocal(usize),
    /// Take the server's state for a remote player (by index).
    UpdateRemote(usize),
    /// Add a remote player not seen before.
    Create,
    Skip,
}

/// What a snapshot entry for `player_id` does: this client's player is
/// updated if present; a known remote player is updated unless it or the
/// entry is dead; an unknown remote player is added.
pub fn player_sync_action(
    local_id: Option<u16>,
    ids: &Vec<u16>,
    dead: &Vec<bool>,
    player_id: u16,
    entry_dead: bool,
) -> (a: PlayerSyncAction)
    requires
        ids@.len() == dead@.len(),
    ensures
        local_id == Some(player_id) ==> match a {
            PlayerSyncAction::UpdateLocal(i) => first_player(ids@, player_id, i as int),
            PlayerSyncAction::Skip => !has_player(ids@, player_id),
            _ => false,
        },
        local_id != Some(player_id) ==> match a {
            PlayerSyncAction::UpdateRemote(i) => first_player(ids@, player_id, i as int) && !dead@[i as int]
                && !entry_dead,
            PlayerSyncAction::Skip => exists|i: int|
                first_player(ids@, player_id, i) && (dead@[i] || entry_dead),
            PlayerSyncAction::Create => !has_player(ids@, player_id),
            _ => false,
        },
{
    let found = find_player(ids, player_id);
    if local_id == Some(player_id) {
        match found {
            Some(i) => PlayerSyncAction::UpdateLocal(i),
            None => PlayerSyncAction::Skip,
        }
    } else {
        match found {
            Some(i) => {
                if dead[i] || entry_dead {
                    PlayerSyncAction::Skip
                } else {
                    PlayerSyncAction::UpdateRemote(i)
                }
            },
            None => PlayerSyncAction::Create,
        }
    }
}

/// The players that remain after `player_id` disconnects (by index, in
/// order): all the others.
pub fn remaining_after_disconnect(ids: &Vec<u16>, player_id: u16) -> (keep: Vec<usize>)
    ensures
        keep@.len() <= ids@.len(),
        forall|k: int| 0 <= k < keep@.len() ==> #[trigger] keep@[k] < ids@.len() && ids@[keep@[k] as int] != player_id,
        forall|k1: int, k2: int| 0 <= k1 < k2 < keep@.len() ==> #[trigger] keep@[k1] < #[trigger] keep@[k2],
        forall|i: int| 0 <= i < ids@.len() && ids@[i] != player_id ==> #[trigger] keep@.contains(i as usize),
{
    let mut keep: Vec<usize> = Vec::new();
    let mut i: usize = 0;
    while i < ids.len()
        invariant
            i <= ids@.len(),
            keep@.len() <= i,
            forall|k: int| 0 <= k < keep@.len() ==> #[trigger] keep@[k] < i && ids@[keep@[k] as int] != player_id,
            forall|k1: int, k2: int| 0 <= k1 < k2 < keep@.len() ==> #[trigger] keep@[k1] < #[trigger] keep@[k2],
            forall|j: int| 0 <= j < i && ids@[j] != player_id ==> #[trigger] keep@.contains(j as usize),
        decreases ids@.len() - i,
    {
        if ids[i] != player_id {
            let ghost before = keep@;
            keep.push(i);
            proof {
                assert forall|j: int| 0 <= j < i + 1 && ids@[j] != player_id implies #[trigger] keep@.contains(
                    j as usize,
                ) by {
                    if j < i {
                        assert(before.contains(j as usize));
                        let k = choose|k: int| 0 <= k < before.len() && before[k] == j as usize;
                        assert(keep@[k] == j as usize);
                    } else {
                        assert(keep@[before.len() as int] == j as usize);
                    }
                }
            }
        }
        i += 1;
    }
    keep
}

} // verus!
