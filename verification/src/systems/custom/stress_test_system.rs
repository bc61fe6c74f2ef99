use vstd::prelude::*;

verus! {

/// Spawns a number of entities every tick while it is active.
pub struct StressTestSystem {
    pub spawn_rate_per_frame: u32,
    pub active: bool,
}

impl StressTestSystem {
    /// A system that spawns `spawn_rate_per_frame` entities per tick, active from the start.
    pub fn new(spawn_rate_per_frame: u32) -> (system: Self)
        ensures
            system.spawn_rate_per_frame == spawn_rate_per_frame,
            system.active,
    {
        StressTestSystem { spawn_rate_per_frame, active: true }
    }
}

} // verus!
