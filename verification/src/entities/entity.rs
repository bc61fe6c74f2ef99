use vstd::prelude::*;

verus! {

/// A handle naming an entity by its numeric id.
#[derive(Debug, PartialEq, Eq, Hash, Clone, Copy)]
pub struct Entity {
    pub id: u32,
}

impl Entity {
    /// Wraps an id into an entity handle.
    pub fn new(id: u32) -> (entity: Self)
        ensures
            entity.id == id,
    {
        Self { id }
    }
}

} // verus!
