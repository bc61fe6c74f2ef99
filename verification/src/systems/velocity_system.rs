use vstd::prelude::*;

verus! {

/// Moves every entity that has a velocity by that velocity, once per tick.
pub struct VelocitySystem;

impl VelocitySystem {
    /// Creates the system.
    pub fn new() -> Self {
        Self
    }
}

} // verus!
