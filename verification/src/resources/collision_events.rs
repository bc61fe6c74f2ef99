use vstd::prelude::*;

verus! {

/// Two entities found overlapping during one tick.
#[derive(Debug, Clone, Copy, PartialEq, Eq)]
pub struct CollisionEvent {
    pub entity_id_a: u32,
    pub entity_id_b: u32,
}

/// The overlaps found during the current tick.
pub struct CollisionEvents {
    pub events: Vec<CollisionEvent>,
}

impl Default for CollisionEvents {
    fn default() -> (events: Self)
        ensures
            events.events@ == Seq::<CollisionEvent>::empty(),
    {
        Self { events: Vec::new() }
    }
}

} // verus!
