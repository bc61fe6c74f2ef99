//! The index lists of the primitives the renderer draws. Each list names, in
//! groups of three (triangles) or two (lines), the vertices of the primitive's
//! vertex list.

use std::collections::HashSet;

use vstd::prelude::*;

verus! {

broadcast use vstd::std_specs::hash::group_hash_axioms;

/// The number of vertices of a circle drawn with `segments` segments: the
/// centre, then `segments + 1` points on the rim (the first point repeated last).
pub open spec fn circle_vertex_count(segments: int) -> int {
    segments + 2
}

/// Two triangles over the four corners of a rectangle: 0-1-2 and 0-2-3.
pub fn rectangle_indices() -> (indices: Vec<u16>)
    ensures
        indices@ == seq![0u16, 1, 2, 0, 2, 3],
{
    vec![0, 1, 2, 0, 2, 3]
}

/// One line between the two end points.
pub fn line_indices() -> (indices: Vec<u16>)
    ensures
        indices@ == seq![0u16, 1],
{
    vec![0, 1]
}

/// A fan of `segments` triangles around the centre (vertex 0): triangle `i`
/// joins the centre, rim point `i + 1` and the next rim point, the last one
/// closing the circle on rim point 1.
pub fn circle_indices(segments: u16) -> (indices: Vec<u16>)
    ensures
        indices@.len() == 3 * segments,
        forall|i: int| 0 <= i < segments ==> {
            &&& #[trigger] indices@[3 * i] == 0
            &&& indices@[3 * i + 1] == i + 1
            &&& indices@[3 * i + 2] == (i + 1) % (segments as int) + 1
        },
        forall|k: int| 0 <= k < indices@.len() ==> #[trigger] indices@[k] < circle_vertex_count(segments as int),
{
    let mut indices: Vec<u16> = Vec::new();
    let mut i: u16 = 0;
    while i < segments
        invariant
            i <= segments,
            indices@.len() == 3 * i,
            forall|j: int| 0 <= j < i ==> {
                &&& #[trigger] indices@[3 * j] == 0
                &&& indices@[3 * j + 1] == j + 1
                &&& indices@[3 * j + 2] == (j + 1) % (segments as int) + 1
            },
            forall|k: int| 0 <= k < indices@.len() ==> #[trigger] indices@[k] < circle_vertex_count(segments as int),
        decreases segments - i,
    {
        let next = (i + 1) % segments + 1;
        let ghost before = indices@;
        indices.push(0);
        indices.push(i + 1);
        indices.push(next);
        proof {
            assert forall|j: int| 0 <= j < i + 1 implies {
                &&& #[trigger] indices@[3 * j] == 0
                &&& indices@[3 * j + 1] == j + 1
                &&& indices@[3 * j + 2] == (j + 1) % (segments as int) + 1
            } by {
                if j < i {
                    assert(indices@[3 * j] == before[3 * j]);
                    assert(indices@[3 * j + 1] == before[3 * j + 1]);
                    assert(indices@[3 * j + 2] == before[3 * j + 2]);
                }
            }
            assert forall|k: int| 0 <= k < indices@.len() implies #[trigger] indices@[k] < circle_vertex_count(segments as int) by {
                if k < before.len() {
                    assert(indices@[k] == before[k]);
                }
            }
        }
        i = i + 1;
    }
    indices
}

/// What the renderer does with the GPU buffers of one drawn entity in a frame.
#[derive(Debug, Clone, Copy, PartialEq, Eq)]
pub enum BufferAction {
    /// The entity is not visible: nothing is drawn or written.
    Skip,
    /// The entity has no buffers yet: they are made from its vertices and indices.
    Create,
    /// The entity's buffers exist: only its vertices are written again.
    Rewrite,
}

/// The entities that have buffers when item `i` of `drawn` comes up: those
/// cached before the frame, and each visible entity drawn before it.
pub open spec fn buffered_before(drawn: Seq<(u32, bool)>, cached: Set<u32>, i: int) -> Set<u32> {
    cached.union(Set::new(|id: u32| exists|j: int| 0 <= j < i && drawn[j].1 && drawn[j].0 == id))
}

/// The action for item `i` of `drawn` (an entity id and whether it is visible).
pub open spec fn buffer_action(drawn: Seq<(u32, bool)>, cached: Set<u32>, i: int) -> BufferAction {
    if !drawn[i].1 {
        BufferAction::Skip
    } else if buffered_before(drawn, cached, i).contains(drawn[i].0) {
        BufferAction::Rewrite
    } else {
        BufferAction::Create
    }
}

/// Decides, for each drawn entity in order, whether its buffers are made,
/// only rewritten, or left alone, so that buffers are made once per entity and
/// not every frame. `cached` holds the entities whose buffers exist already.
pub fn plan_buffers(drawn: &Vec<(u32, bool)>, cached: &HashSet<u32>) -> (plan: Vec<BufferAction>)
    ensures
        plan@.len() == drawn@.len(),
        forall|i: int| 0 <= i < drawn@.len() ==> #[trigger] plan@[i] == buffer_action(drawn@, cached@, i),
        forall|i: int| 0 <= i < drawn@.len() && !drawn@[i].1 ==> #[trigger] plan@[i] == BufferAction::Skip,
        forall|i: int| 0 <= i < drawn@.len() && drawn@[i].1 ==> (#[trigger] plan@[i] == BufferAction::Create <==> (
            !cached@.contains(drawn@[i].0) && forall|j: int| 0 <= j < i ==> !(#[trigger] drawn@[j].1 && drawn@[j].0
                == drawn@[i].0))),
        forall|i: int| 0 <= i < drawn@.len() && drawn@[i].1 ==> #[trigger] plan@[i] != BufferAction::Skip,
{
    let mut plan: Vec<BufferAction> = Vec::new();
    let mut created: HashSet<u32> = HashSet::new();
    let mut i: usize = 0;
    while i < drawn.len()
        invariant
            i <= drawn@.len(),
            plan@.len() == i,
            forall|k: int| 0 <= k < i ==> #[trigger] plan@[k] == buffer_action(drawn@, cached@, k),
            cached@.union(created@) == buffered_before(drawn@, cached@, i as int),
        decreases drawn@.len() - i,
    {
        let (id, visible) = drawn[i];
        let action = if !visible {
            BufferAction::Skip
        } else if cached.contains(&id) || created.contains(&id) {
            BufferAction::Rewrite
        } else {
            BufferAction::Create
        };
        proof {
            assert(drawn@[i as int] == (id, visible));
        }
        if visible {
            created.insert(id);
        }
        plan.push(action);
        proof {
            let next = buffered_before(drawn@, cached@, i + 1);
            assert forall|x: u32| next.contains(x) <==> cached@.union(created@).contains(x) by {
                if exists|j: int| 0 <= j < i + 1 && drawn@[j].1 && drawn@[j].0 == x {
                    let j = choose|j: int| 0 <= j < i + 1 && drawn@[j].1 && drawn@[j].0 == x;
                    if j < i {
                        assert(buffered_before(drawn@, cached@, i as int).contains(x));
                    }
                }
                if buffered_before(drawn@, cached@, i as int).contains(x) && !cached@.contains(x) {
                    let j = choose|j: int| 0 <= j < i && drawn@[j].1 && drawn@[j].0 == x;
                    assert(0 <= j < i + 1 && drawn@[j].1 && drawn@[j].0 == x);
                }
            }
            assert(cached@.union(created@) =~= next);
        }
        i = i + 1;
    }
    proof {
        assert forall|i: int| 0 <= i < drawn@.len() && drawn@[i].1 implies (#[trigger] plan@[i] == BufferAction::Create <==> (
            !cached@.contains(drawn@[i].0) && forall|j: int| 0 <= j < i ==> !(#[trigger] drawn@[j].1 && drawn@[j].0
                == drawn@[i].0))) by {
            law_buffer_action(drawn@, cached@, i);
        }
    }
    plan
}

/// What the plan for item `i` is, in terms of the inputs: an invisible entity
/// is skipped whatever the cache holds; a visible one gets new buffers exactly
/// when it had none before the frame and no earlier visible item of the frame
/// was the same entity, and is otherwise rewritten.
pub proof fn law_buffer_action(drawn: Seq<(u32, bool)>, cached: Set<u32>, i: int)
    requires
        0 <= i < drawn.len(),
    ensures
        !drawn[i].1 ==> buffer_action(drawn, cached, i) == BufferAction::Skip,
        drawn[i].1 ==> buffer_action(drawn, cached, i) != BufferAction::Skip,
        drawn[i].1 ==> (buffer_action(drawn, cached, i) == BufferAction::Create <==> (!cached.contains(drawn[i].0)
            && forall|j: int| 0 <= j < i ==> !(#[trigger] drawn[j].1 && drawn[j].0 == drawn[i].0))),
{
    if drawn[i].1 && !cached.contains(drawn[i].0) {
        if buffered_before(drawn, cached, i).contains(drawn[i].0) {
            let j = choose|j: int| 0 <= j < i && drawn[j].1 && drawn[j].0 == drawn[i].0;
            assert(drawn[j].1 && drawn[j].0 == drawn[i].0);
        }
    }
}

/// Buffers are made at most once per entity in a frame, and never for an
/// entity that had them before the frame.
pub proof fn law_buffers_created_once(drawn: Seq<(u32, bool)>, cached: Set<u32>, i: int, j: int)
    requires
        0 <= i < j < drawn.len(),
        buffer_action(drawn, cached, i) == BufferAction::Create,
        buffer_action(drawn, cached, j) == BufferAction::Create,
    ensures
        drawn[i].0 != drawn[j].0,
        !cached.contains(drawn[i].0),
        !cached.contains(drawn[j].0),
{
    law_buffer_action(drawn, cached, i);
    law_buffer_action(drawn, cached, j);
    assert(drawn[i].1);
}

} // verus!
