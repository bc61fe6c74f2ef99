//! The ordered list of systems run each tick.

use vstd::prelude::*;

use crate::systems::system::System;
use crate::world::{world_snapshot, WorldSnapshot, WorldView};

verus! {

/// `index` is the first position in `systems` whose kind is `kind`.
pub open spec fn is_first_of_kind<S>(systems: Seq<(u64, S)>, kind: u64, index: int) -> bool {
    &&& 0 <= index < systems.len()
    &&& systems[index].0 == kind
    &&& forall|j: int| 0 <= j < index ==> (#[trigger] systems[j]).0 != kind
}

/// No system in `systems` has kind `kind`.
pub open spec fn no_system_of_kind<S>(systems: Seq<(u64, S)>, kind: u64) -> bool {
    forall|j: int| 0 <= j < systems.len() ==> (#[trigger] systems[j]).0 != kind
}

/// The systems `before` ran once each, in order, as `after`: there are world
/// states `states[0]` (= `world_before`) through `states[n]` (= `world_after`)
/// such that system `i` took the world from `states[i]` to `states[i + 1]`
/// and itself from `before[i]` to `after[i]`, its kind unchanged.
pub open spec fn ran_in_order<C, R, S: System<C, R>>(
    before: Seq<(u64, S)>,
    after: Seq<(u64, S)>,
    world_before: WorldSnapshot<C, R>,
    world_after: WorldSnapshot<C, R>,
) -> bool {
    &&& after.len() == before.len()
    &&& forall|i: int| 0 <= i < before.len() ==> (#[trigger] after[i]).0 == before[i].0
    &&& exists|states: Seq<WorldSnapshot<C, R>>| {
        &&& states.len() == before.len() + 1
        &&& states[0] == world_before
        &&& states[before.len() as int] == world_after
        &&& forall|i: int| 0 <= i < before.len() ==> (#[trigger] before[i]).1.tick(states[i], after[i].1, states[i + 1])
    }
}

/// Systems in the order in which they were added, each with its kind.
pub struct SystemManager<S> {
    systems: Vec<(u64, S)>,
}

impl<S> View for SystemManager<S> {
    type V = Seq<(u64, S)>;

    closed spec fn view(&self) -> Seq<(u64, S)> {
        self.systems@
    }
}

impl<S> SystemManager<S> {
    /// A manager with no system.
    pub fn new() -> (manager: Self)
        ensures
            manager@ == Seq::<(u64, S)>::empty(),
    {
        Self { systems: Vec::new() }
    }

    /// Adds `system`, of kind `kind`, after the systems already there.
    pub fn add_system(&mut self, kind: u64, system: S)
        ensures
            final(self)@ == old(self)@.push((kind, system)),
    {
        self.systems.push((kind, system));
    }

    /// Runs every system once, in the order in which they were added, each
    /// on the world as the previous one left it. The list of systems and their
    /// kinds stay as they are.
    pub fn update<C, R>(&mut self, world: &mut WorldView<C, R>)
        where
            S: System<C, R>,
        ensures
            final(self)@.len() == old(self)@.len(),
            forall|i: int| 0 <= i < old(self)@.len() ==> (#[trigger] final(self)@[i]).0 == old(self)@[i].0,
            ran_in_order(old(self)@, final(self)@, world_snapshot(&*old(world)), world_snapshot(&*final(world))),
            *final(final(world).resources) == *final(old(world).resources),
            *final(final(world).components) == *final(old(world).components),
            *final(final(world).entity_manager) == *final(old(world).entity_manager),
    {
        let n = self.systems.len();
        let ghost states: Seq<WorldSnapshot<C, R>> = seq![world_snapshot(&*world)];
        for i in 0..n
            invariant
                n == old(self)@.len(),
                self.systems@.len() == n,
                forall|j: int| 0 <= j < n ==> (#[trigger] self.systems@[j]).0 == old(self)@[j].0,
                forall|j: int| i <= j < n ==> #[trigger] self.systems@[j] == old(self)@[j],
                states.len() == i + 1,
                states[0] == world_snapshot(&*old(world)),
                states[i as int] == world_snapshot(&*world),
                *final(world.resources) == *final(old(world).resources),
                *final(world.components) == *final(old(world).components),
                *final(world.entity_manager) == *final(old(world).entity_manager),
                forall|j: int| 0 <= j < i ==> (#[trigger] old(self)@[j]).1.tick(states[j], self.systems@[j].1, states[j + 1]),
        {
            let ghost before_systems = self.systems@;
            self.systems[i].1.update(world);
            proof {
                let ghost next = world_snapshot(&*world);
                let ghost prev_states = states;
                states = states.push(next);
                assert forall|j: int| 0 <= j < i + 1 implies (#[trigger] old(self)@[j]).1.tick(states[j], self.systems@[j].1, states[j + 1]) by {
                    if j < i {
                        assert(self.systems@[j] == before_systems[j]);
                        assert(states[j] == prev_states[j]);
                        assert(states[j + 1] == prev_states[j + 1]);
                    }
                }
            }
        }
        proof {
            assert(states[0] == world_snapshot(&*old(world)));
        }
    }

    proof fn lemma_first_unique(systems: Seq<(u64, S)>, kind: u64, i: int, j: int)
        requires
            is_first_of_kind(systems, kind, i),
            is_first_of_kind(systems, kind, j),
        ensures
            i == j,
    {
        if i < j {
            assert(systems[i].0 != kind);
        } else if j < i {
            assert(systems[j].0 != kind);
        }
    }

    fn position(&self, kind: u64) -> (r: Option<usize>)
        ensures
            match r {
                Some(i) => is_first_of_kind(self@, kind, i as int),
                None => no_system_of_kind(self@, kind),
            },
    {
        let n = self.systems.len();
        for i in 0..n
            invariant
                n == self.systems@.len(),
                forall|j: int| 0 <= j < i ==> (#[trigger] self.systems@[j]).0 != kind,
        {
            if self.systems[i].0 == kind {
                return Some(i);
            }
        }
        None
    }

    /// The first system of kind `kind`, if there is one.
    pub fn get_system(&self, kind: u64) -> (system: Option<&S>)
        ensures
            match system {
                Some(s) => {
                    &&& exists|i: int| is_first_of_kind(self@, kind, i)
                    &&& forall|i: int| is_first_of_kind(self@, kind, i) ==> *s == self@[i].1
                },
                None => no_system_of_kind(self@, kind),
            },
    {
        match self.position(kind) {
            Some(i) => {
                proof {
                    assert forall|j: int| is_first_of_kind(self@, kind, j) implies j == i by {
                        Self::lemma_first_unique(self@, kind, i as int, j);
                    }
                }
                Some(&self.systems[i].1)
            },
            None => None,
        }
    }

    /// Mutable access to the first system of kind `kind`, if there is one.
    pub fn get_system_mut(&mut self, kind: u64) -> (system: Option<&mut S>)
        ensures
            match system {
                Some(s) => {
                    &&& exists|i: int| is_first_of_kind(old(self)@, kind, i)
                    &&& forall|i: int| is_first_of_kind(old(self)@, kind, i) ==> {
                        &&& *s == old(self)@[i].1
                        &&& final(self)@ == old(self)@.update(i, (kind, *final(s)))
                    }
                },
                None => {
                    &&& no_system_of_kind(old(self)@, kind)
                    &&& final(self)@ == old(self)@
                },
            },
    {
        match self.position(kind) {
            Some(i) => {
                proof {
                    assert forall|j: int| is_first_of_kind(self@, kind, j) implies j == i by {
                        Self::lemma_first_unique(self@, kind, i as int, j);
                    }
                }
                let entry = &mut self.systems[i];
                Some(&mut entry.1)
            },
            None => None,
        }
    }
}

} // verus!

verus! {

/// A system added under a kind that no system had yet is the one found for
/// that kind; a kind that already had a system keeps finding the earlier one.
pub proof fn law_get_after_add<S>(before: Seq<(u64, S)>, after: Seq<(u64, S)>, kind: u64, system: S)
    requires
        after == before.push((kind, system)),
    ensures
        no_system_of_kind(before, kind) ==> is_first_of_kind(after, kind, before.len() as int)
            && after[before.len() as int].1 == system,
        forall|i: int| is_first_of_kind(before, kind, i) ==> #[trigger] is_first_of_kind(after, kind, i)
            && after[i] == before[i],
{
    assert forall|i: int| is_first_of_kind(before, kind, i) implies #[trigger] is_first_of_kind(after, kind, i)
        && after[i] == before[i] by {
        assert forall|j: int| 0 <= j < i implies (#[trigger] after[j]).0 != kind by {
            assert(after[j] == before[j]);
        }
    }
    if no_system_of_kind(before, kind) {
        assert forall|j: int| 0 <= j < before.len() implies (#[trigger] after[j]).0 != kind by {
            assert(after[j] == before[j]);
        }
    }
}

} // verus!
