//! Engine-wide resources (input state, camera state, collision events, ...),
//! at most one per resource kind.

use vstd::prelude::*;

use std::collections::hash_map::Entry;
use std::collections::HashMap;

verus! {

broadcast use vstd::std_specs::hash::group_hash_axioms;

/// Holds one resource per resource kind.
pub struct ResourceStore<R> {
    resources: HashMap<u64, R>,
}

impl<R> View for ResourceStore<R> {
    type V = Map<u64, R>;

    closed spec fn view(&self) -> Map<u64, R> {
        self.resources@
    }
}

impl<R> ResourceStore<R> {
    /// A store with no resource.
    pub fn new() -> (store: Self)
        ensures
            store@ == Map::<u64, R>::empty(),
    {
        ResourceStore { resources: HashMap::new() }
    }

    /// Files `resource` under `kind`, replacing the resource of that kind if there was one.
    pub fn insert(&mut self, kind: u64, resource: R)
        ensures
            final(self)@ == old(self)@.insert(kind, resource),
    {
        self.resources.insert(kind, resource);
    }

    /// The resource of kind `kind`, if there is one.
    pub fn get(&self, kind: u64) -> (resource: Option<&R>)
        ensures
            match resource {
                Some(r) => self@.contains_key(kind) && *r == self@[kind],
                None => !self@.contains_key(kind),
            },
    {
        self.resources.get(&kind)
    }

    /// Mutable access to the resource of kind `kind`, if there is one.
    pub fn get_mut(&mut self, kind: u64) -> (resource: Option<&mut R>)
        ensures
            match resource {
                Some(r) => {
                    &&& old(self)@.contains_key(kind)
                    &&& *r == old(self)@[kind]
                    &&& final(self)@ == old(self)@.insert(kind, *final(r))
                },
                None => {
                    &&& !old(self)@.contains_key(kind)
                    &&& final(self)@ == old(self)@
                },
            },
    {
        match self.resources.entry(kind) {
            Entry::Occupied(entry) => Some(entry.into_mut()),
            Entry::Vacant(_) => {
                proof {
                    assert(old(self)@.remove(kind) =~= old(self)@);
                }
                None
            },
        }
    }
}

/// A resource that was just inserted is the one found under its kind, and the
/// resources of the other kinds are untouched.
pub proof fn law_get_after_insert<R>(before: Map<u64, R>, after: Map<u64, R>, kind: u64, resource: R)
    requires
        after == before.insert(kind, resource),
    ensures
        after.contains_key(kind),
        after[kind] == resource,
        forall|other: u64| other != kind ==> (#[trigger] after.contains_key(other) == before.contains_key(other)),
        forall|other: u64| other != kind && before.contains_key(other) ==> #[trigger] after[other] == before[other],
{
}

} // verus!
