use vstd::prelude::*;

use crate::systems::input_system::InputState;

verus! {

/// One step of a signed axis: +1 for the positive key alone, -1 for the
/// negative key alone, 0 for both or neither.
pub open spec fn axis(positive: bool, negative: bool) -> int {
    (if positive { 1int } else { 0int }) - (if negative { 1int } else { 0int })
}

/// Moves the entities that have a player controller according to the held keys.
pub struct PlayerMovementSystem;

impl PlayerMovementSystem {
    /// Creates the system.
    pub fn new() -> Self {
        Self
    }

    /// The direction the player asks for, as (x, y): `right`/`left` on the x
    /// axis, `up`/`down` on the y axis, each axis in -1..=1.
    pub fn movement_direction(&self, input: &InputState, up: u32, down: u32, left: u32, right: u32) -> (direction: (i32, i32))
        ensures
            direction.0 == axis(input.held_keys@.contains(right), input.held_keys@.contains(left)),
            direction.1 == axis(input.held_keys@.contains(up), input.held_keys@.contains(down)),
    {
        let mut delta_x: i32 = 0;
        let mut delta_y: i32 = 0;
        if input.is_key_held(up) {
            delta_y = delta_y + 1;
        }
        if input.is_key_held(down) {
            delta_y = delta_y - 1;
        }
        if input.is_key_held(left) {
            delta_x = delta_x - 1;
        }
        if input.is_key_held(right) {
            delta_x = delta_x + 1;
        }
        (delta_x, delta_y)
    }
}

} // verus!
