//! Gamepad input: a bit per button, and edge detection against the
//! previous frame.

use vstd::prelude::*;

verus! {

/// Button bits, one per pad button.  The values match the bit order of the
/// NES input registers.
pub const BUTTON_A: u8 = 1;
pub const BUTTON_B: u8 = 2;
pub const BUTTON_SELECT: u8 = 4;
pub const BUTTON_START: u8 = 8;
pub const BUTTON_UP: u8 = 16;
pub const BUTTON_DOWN: u8 = 32;
pub const BUTTON_LEFT: u8 = 64;
pub const BUTTON_RIGHT: u8 = 128;

/// The current and previous frame's pressed-button bits.
#[derive(Clone, Copy, Default, Debug, PartialEq, Eq, Structural)]
pub struct Input {
    pub gamepad: u8,
    pub previous_gamepad: u8,
}

impl Input {
    /// No buttons pressed, on either frame.
    pub fn new() -> (input: Input)
        ensures
            input.gamepad == 0,
            input.previous_gamepad == 0,
    {
        Input { gamepad: 0, previous_gamepad: 0 }
    }

    /// Whether every button of `buttons` is down this frame without all of
    /// them having been down the previous frame: the press edge.
    pub fn pressed_this_frame(&self, buttons: u8) -> (pressed: bool)
        ensures
            pressed == (!((self.previous_gamepad & buttons) == buttons) && (self.gamepad & buttons)
                == buttons),
    {
        !((self.previous_gamepad & buttons) == buttons) && (self.gamepad & buttons) == buttons
    }
}

} // verus!
