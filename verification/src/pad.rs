use vstd::prelude::*;

verus! {

/// One controller's full state: a digital button bitmask, two analog
/// triggers, and four signed stick axes (left X/Y, right X/Y).
///
/// The same shape serves two roles: a raw sample read from one physical
/// controller, and the composed virtual state accumulated over all active
/// controllers within one poll tick.
#[derive(Clone, Copy, Debug, PartialEq, Eq, Structural)]
pub struct GamepadState {
    pub buttons: u16,
    pub left_trigger: u8,
    pub right_trigger: u8,
    pub thumb_lx: i16,
    pub thumb_ly: i16,
    pub thumb_rx: i16,
    pub thumb_ry: i16,
}

impl GamepadState {
    /// The all-zero state: no buttons pressed, triggers released, sticks
    /// centered. Every poll tick starts its accumulator from this value.
    pub open spec fn spec_neutral() -> GamepadState {
        GamepadState {
            buttons: 0,
            left_trigger: 0,
            right_trigger: 0,
            thumb_lx: 0,
            thumb_ly: 0,
            thumb_rx: 0,
            thumb_ry: 0,
        }
    }

    pub fn neutral() -> (r: GamepadState)
        ensures
            r == GamepadState::spec_neutral(),
    {
        GamepadState {
            buttons: 0,
            left_trigger: 0,
            right_trigger: 0,
            thumb_lx: 0,
            thumb_ly: 0,
            thumb_rx: 0,
            thumb_ry: 0,
        }
    }
}

} // verus!
