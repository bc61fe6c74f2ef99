use std::collections::HashMap;

use vstd::prelude::*;

verus! {

/// Components keyed by entity id.
pub struct ComponentManager<C> {
    components: HashMap<u32, C>,
}

} // verus!
