//! Choice of the leg and torso animations of a player model and of the
//! frame shown within an animation.
use vstd::prelude::*;

verus! {

/// A run of frames of a model animation.
#[derive(Clone, Copy, Debug)]
pub struct AnimRange {
    pub first_frame: usize,
    pub num_frames: usize,
    /// Frames that repeat once the animation has played; 0 for none.
    pub looping_frames: usize,
    pub fps: usize,
}

/// The animations of a player model that the game plays.
#[derive(Clone, Copy, Debug)]
pub struct AnimConfig {
    pub death1: AnimRange,
    pub torso_attack: AnimRange,
    pub torso_stand: AnimRange,
    pub legs_walkcr: AnimRange,
    pub legs_run: AnimRange,
    pub legs_jump: AnimRange,
    pub legs_idle: AnimRange,
    pub legs_idlecr: AnimRange,
}

/// Last leg frame of the player models.
pub const MAX_LEGS_FRAME: usize = 190;
/// Last torso frame of the player models.
pub const MAX_TORSO_FRAME: usize = 152;

/// The leg animation for a player's state: dying wins over everything,
/// then being in the air, then crouch-walking, crouching, running, idling.
pub open spec fn legs_anim_spec(
    c: AnimConfig,
    is_walking: bool,
    on_ground: bool,
    is_dead: bool,
    is_crouching: bool,
) -> AnimRange {
    if is_dead {
        c.death1
    } else if !on_ground {
        c.legs_jump
    } else if is_crouching && is_walking {
        c.legs_walkcr
    } else if is_crouching {
        c.legs_idlecr
    } else if is_walking {
        c.legs_run
    } else {
        c.legs_idle
    }
}

/// The torso animation: dying, attacking, or standing.
pub open spec fn torso_anim_spec(c: AnimConfig, is_attacking: bool, is_dead: bool) -> AnimRange {
    if is_dead {
        c.death1
    } else if is_attacking {
        c.torso_attack
    } else {
        c.torso_stand
    }
}

/// Offset into the animation after `played` frames: looping animations
/// wrap around (except when dead), others stop at their last frame.
pub open spec fn frame_offset(a: AnimRange, played: usize, is_dead: bool) -> int {
    if a.looping_frames > 0 && !is_dead {
        (played % a.looping_frames) as int
    } else if played < a.num_frames - 1 {
        played as int
    } else if a.num_frames >= 1 {
        a.num_frames - 1
    } else {
        0
    }
}

pub fn legs_animation(c: &AnimConfig, is_walking: bool, on_ground: bool, is_dead: bool, is_crouching: bool) -> (a: AnimRange)
    ensures
        a == legs_anim_spec(*c, is_walking, on_ground, is_dead, is_crouching),
{
    if is_dead {
        c.death1
    } else if !on_ground {
        c.legs_jump
    } else if is_crouching && is_walking {
        c.legs_walkcr
    } else if is_crouching {
        c.legs_idlecr
    } else if is_walking {
        c.legs_run
    } else {
        c.legs_idle
    }
}

pub fn torso_animation(c: &AnimConfig, is_attacking: bool, is_dead: bool) -> (a: AnimRange)
    ensures
        a == torso_anim_spec(*c, is_attacking, is_dead),
{
    if is_dead {
        c.death1
    } else if is_attacking {
        c.torso_attack
    } else {
        c.torso_stand
    }
}

/// The model frame shown `played` frames into animation `a`, never past
/// `last`.
pub fn frame_in_range(a: &AnimRange, played: usize, is_dead: bool, last: usize) -> (f: usize)
    requires
        a.first_frame + frame_offset(*a, played, is_dead) <= usize::MAX,
    ensures
        f == if a.first_frame + frame_offset(*a, played, is_dead) < last {
            a.first_frame + frame_offset(*a, played, is_dead)
        } else {
            last as int
        },
{
    let offset = if a.looping_frames > 0 && !is_dead {
        played % a.looping_frames
    } else {
        let cap = a.num_frames.saturating_sub(1);
        if played < cap {
            played
        } else {
            cap
        }
    };
    let f = a.first_frame + offset;
    if f < last {
        f
    } else {
        last
    }
}

/// Leg and torso frames of a player model: `legs_played` and
/// `torso_played` are the frames played so far of the leg and torso
/// animations that `legs_animation` and `torso_animation` choose.
pub fn compute_frames(
    config: &AnimConfig,
    is_walking: bool,
    is_attacking: bool,
    on_ground: bool,
    is_dead: bool,
    is_crouching: bool,
    legs_played: usize,
    torso_played: usize,
) -> (r: (usize, usize))
    requires
        ({
            let la = legs_anim_spec(*config, is_walking, on_ground, is_dead, is_crouching);
            la.first_frame + frame_offset(la, legs_played, is_dead) <= usize::MAX
        }),
        ({
            let ta = torso_anim_spec(*config, is_attacking, is_dead);
            ta.first_frame + frame_offset(ta, torso_played, is_dead) <= usize::MAX
        }),
    ensures
        ({
            let la = legs_anim_spec(*config, is_walking, on_ground, is_dead, is_crouching);
            let ta = torso_anim_spec(*config, is_attacking, is_dead);
            let lf = la.first_frame + frame_offset(la, legs_played, is_dead);
            let tf = ta.first_frame + frame_offset(ta, torso_played, is_dead);
            &&& r.0 == if lf < MAX_LEGS_FRAME {
                lf
            } else {
                MAX_LEGS_FRAME as int
            }
            &&& r.1 == if tf < MAX_TORSO_FRAME {
                tf
            } else {
                MAX_TORSO_FRAME as int
            }
        }),
{
    let legs = legs_animation(config, is_walking, on_ground, is_dead, is_crouching);
    let torso = torso_animation(config, is_attacking, is_dead);
    let lower = frame_in_range(&legs, legs_played, is_dead, MAX_LEGS_FRAME);
    let upper = frame_in_range(&torso, torso_played, is_dead, MAX_TORSO_FRAME);
    (lower, upper)
}

} // verus!
