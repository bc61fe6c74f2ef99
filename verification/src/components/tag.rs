use vstd::prelude::*;

verus! {

/// A name attached to an entity.
#[derive(Debug)]
pub struct Tag {
    pub name: String,
}

} // verus!
