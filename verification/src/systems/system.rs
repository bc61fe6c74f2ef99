use vstd::prelude::*;

use crate::world::{world_snapshot, WorldSnapshot, WorldView};

verus! {

/// A unit of game logic run once per tick over the world.
pub trait System<C, R>: Sized {
    /// What one tick of this system may do: starting as `self` over a world in
    /// state `world_before`, it may end as `after` with the world in state
    /// `world_after`. A system that says nothing of itself may do anything.
    open spec fn tick(&self, world_before: WorldSnapshot<C, R>, after: Self, world_after: WorldSnapshot<C, R>) -> bool {
        true
    }

    /// Runs one tick of the system. It works on the world through the view
    /// and leaves the view's references pointing where they pointed.
    fn update(&mut self, world: &mut WorldView<C, R>)
        ensures
            old(self).tick(world_snapshot(&*old(world)), *final(self), world_snapshot(&*final(world))),
            *final(final(world).resources) == *final(old(world).resources),
            *final(final(world).components) == *final(old(world).components),
            *final(final(world).entity_manager) == *final(old(world).entity_manager),
    ;
}

} // verus!
