//! A player's command for one frame: strafe direction and buttons.  The aim
//! angle travels with it outside this crate.
use vstd::prelude::*;

verus! {

pub const BUTTON_ATTACK: u8 = 1;
pub const BUTTON_JUMP: u8 = 2;
pub const BUTTON_CROUCH: u8 = 4;

/// The keys a player holds this frame.
#[derive(Clone, Copy, Debug)]
pub struct InputState {
    pub move_left: bool,
    pub move_right: bool,
    pub jump: bool,
    pub crouch: bool,
    pub shoot: bool,
}

#[derive(Clone, Copy, Debug)]
pub struct UserCmd {
    /// -1 to strafe left, 1 to strafe right, 0 for neither or both.
    pub right: i8,
    pub buttons: u8,
    pub server_time: u32,
}

/// The button bits of a frame: attack, jump and crouch.
pub open spec fn buttons_spec(input: InputState) -> u8 {
    ((if input.shoot {
        1int
    } else {
        0int
    }) + (if input.jump {
        2int
    } else {
        0int
    }) + (if input.crouch {
        4int
    } else {
        0int
    })) as u8
}

pub open spec fn right_spec(input: InputState) -> i8 {
    ((if input.move_right {
        1int
    } else {
        0int
    }) - (if input.move_left {
        1int
    } else {
        0int
    })) as i8
}

impl UserCmd {
    pub fn new() -> (c: Self)
        ensures
            c.right == 0,
            c.buttons == 0,
            c.server_time == 0,
    {
        UserCmd { right: 0, buttons: 0, server_time: 0 }
    }

    /// The command for the keys held.
    pub fn from_input(input: &InputState) -> (c: Self)
        ensures
            c.right == right_spec(*input),
            c.buttons == buttons_spec(*input),
            c.server_time == 0,
    {
        let mut cmd = Self::new();
        if input.move_left {
            cmd.right -= 1;
        }
        if input.move_right {
            cmd.right += 1;
        }
        let mut b: u8 = 0;
        if input.jump {
            assert(0u8 | 2u8 == 2u8) by (bit_vector);
            b = b | BUTTON_JUMP;
        }
        if input.crouch {
            let b0 = b;
            assert(b0 == 0 || b0 == 2 ==> b0 | 4u8 == b0 + 4) by (bit_vector);
            b = b | BUTTON_CROUCH;
        }
        if input.shoot {
            let b1 = b;
            assert(b1 == 0 || b1 == 2 || b1 == 4 || b1 == 6 ==> b1 | 1u8 == b1 + 1) by (bit_vector);
            b = b | BUTTON_ATTACK;
        }
        cmd.buttons = b;
        cmd
    }

    /// The command of one of the local-multiplayer players (same keys, same
    /// command).
    pub fn from_player_input(input: &InputState) -> (c: Self)
        ensures
            c.right == right_spec(*input),
            c.buttons == buttons_spec(*input),
            c.server_time == 0,
    {
        Self::from_input(input)
    }

    /// Whether the command holds the given button bit.
    pub fn has_button(&self, button: u8) -> (r: bool)
        ensures
            r == (self.buttons & button != 0),
    {
        self.buttons & button != 0
    }
}

/// Law: a command holds the jump, crouch and attack buttons exactly when
/// the matching keys are held.
pub proof fn lemma_buttons_match_keys(input: InputState)
    ensures
        (buttons_spec(input) & BUTTON_JUMP != 0) == input.jump,
        (buttons_spec(input) & BUTTON_CROUCH != 0) == input.crouch,
        (buttons_spec(input) & BUTTON_ATTACK != 0) == input.shoot,
{
    let j: u8 = if input.jump { 2 } else { 0 };
    let c: u8 = if input.crouch { 4 } else { 0 };
    let s: u8 = if input.shoot { 1 } else { 0 };
    assert(buttons_spec(input) == j + c + s);
    assert(((j + c + s) as u8 & 2u8 != 0) == (j == 2) && ((j + c + s) as u8 & 4u8 != 0) == (c == 4) && ((j
        + c + s) as u8 & 1u8 != 0) == (s == 1)) by (bit_vector)
        requires
            j == 0 || j == 2,
            c == 0 || c == 4,
            s == 0 || s == 1,
    ;
}

/// Law: the strafe direction of a command is right (+1) when only the
/// right key is held, left (-1) when only the left key is held, and none
/// (0) when both or neither are held.
pub proof fn lemma_strafe_direction(input: InputState)
    ensures
        input.move_right && !input.move_left ==> right_spec(input) == 1,
        input.move_left && !input.move_right ==> right_spec(input) == -1,
        input.move_left == input.move_right ==> right_spec(input) == 0,
{
}

} // verus!
