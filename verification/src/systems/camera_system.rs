use vstd::prelude::*;

use crate::components::component_store::has_both;

verus! {

/// Keeps the view of the main camera up to date.
pub struct CameraSystem;

impl CameraSystem {
    /// Creates the system.
    pub fn new() -> Self {
        Self {}
    }

    /// The main camera: the entity with the smallest id that has both a
    /// camera and a transform, if any entity has both.
    pub fn find_main_camera<A, B>(&self, cameras: &Vec<Option<A>>, transforms: &Vec<Option<B>>) -> (main: Option<usize>)
        ensures
            match main {
                Some(id) => {
                    &&& has_both(cameras@, transforms@, id as int)
                    &&& forall|other: int| 0 <= other < id ==> !has_both(cameras@, transforms@, other)
                },
                None => forall|other: int| !has_both(cameras@, transforms@, other),
            },
    {
        let n = if cameras.len() < transforms.len() { cameras.len() } else { transforms.len() };
        for i in 0..n
            invariant
                n <= cameras@.len(),
                n <= transforms@.len(),
                n == cameras@.len() || n == transforms@.len(),
                forall|other: int| 0 <= other < i ==> !has_both(cameras@, transforms@, other),
        {
            if cameras[i].is_some() && transforms[i].is_some() {
                return Some(i);
            }
        }
        None
    }
}

} // verus!
