//! The abstract input state read by the integrator.
use vstd::prelude::*;
use crate::fixed::SCALE;

verus! {

/// Movement intent for one frame: horizontal direction in fixed point (between
/// minus one and one unit) and the jump button.
#[derive(Clone, Copy, Debug, PartialEq, Eq, Structural)]
pub struct MovementState {
    pub input_direction_x: i64,
    pub pressing_jump: bool,
    pub just_pressed_jump: bool,
}

/// The horizontal direction held: left and right together cancel out.
pub open spec fn key_direction(pressing_left: bool, pressing_right: bool) -> int {
    if pressing_left && pressing_right {
        0
    } else if pressing_left {
        -SCALE as int
    } else if pressing_right {
        SCALE as int
    } else {
        0
    }
}

impl MovementState {
    /// The direction lies between minus one and one unit.
    pub open spec fn wf(self) -> bool {
        -SCALE <= self.input_direction_x <= SCALE
    }

    /// Whether the direction lies between minus one and one unit.
    pub fn is_wf(&self) -> (r: bool)
        ensures
            r == self.wf(),
    {
        -SCALE <= self.input_direction_x && self.input_direction_x <= SCALE
    }

    /// No input at all.
    pub fn new() -> (r: MovementState)
        ensures
            r == (MovementState { input_direction_x: 0, pressing_jump: false, just_pressed_jump: false }),
    {
        MovementState { input_direction_x: 0, pressing_jump: false, just_pressed_jump: false }
    }

    /// Clears every input.
    pub fn reset(&mut self)
        ensures
            *final(self) == (MovementState { input_direction_x: 0, pressing_jump: false, just_pressed_jump: false }),
    {
        self.input_direction_x = 0;
        self.pressing_jump = false;
        self.just_pressed_jump = false;
    }

    /// Refreshes the state from the keys held this frame. Left and right together
    /// cancel out; a jump is "just pressed" when held now but not in the previous frame.
    pub fn update_from_keys(&mut self, pressing_left: bool, pressing_right: bool, pressing_jump: bool)
        ensures
            final(self).input_direction_x == key_direction(pressing_left, pressing_right),
            final(self).pressing_jump == pressing_jump,
            final(self).just_pressed_jump == (pressing_jump && !old(self).pressing_jump),
            final(self).wf(),
    {
        let was_pressing_jump = self.pressing_jump;
        self.reset();
        self.input_direction_x = if pressing_left && pressing_right {
            0
        } else if pressing_left {
            -SCALE
        } else if pressing_right {
            SCALE
        } else {
            0
        };
        self.pressing_jump = pressing_jump;
        self.just_pressed_jump = pressing_jump && !was_pressing_jump;
    }
}

} // verus!
