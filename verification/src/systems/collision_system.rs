//! Detection of overlaps between entities that have both a transform and a collider.

use vstd::prelude::*;

use crate::components::component_store::{has_both, ids_with_both};
use crate::resources::collision_events::{CollisionEvent, CollisionEvents};

verus! {

/// Pair `(a1, b1)` comes strictly before pair `(a2, b2)` in lexicographic order.
pub open spec fn pair_before(a1: int, b1: int, a2: int, b2: int) -> bool {
    a1 < a2 || (a1 == a2 && b1 < b2)
}

/// `found` lists exactly the overlapping pairs of entities that have both a
/// transform (`first`) and a collider (`second`): each pair once, the smaller id
/// first, the pairs in increasing lexicographic order; a candidate pair that is
/// not listed is one for which `overlaps` answered `false`.
pub open spec fn reports_overlaps<A, B, F: Fn(usize, usize) -> bool>(
    first: Seq<Option<A>>,
    second: Seq<Option<B>>,
    overlaps: F,
    found: Seq<CollisionEvent>,
) -> bool {
    &&& forall|k: int| 0 <= k < found.len() ==> {
        let e = #[trigger] found[k];
        &&& e.entity_id_a < e.entity_id_b
        &&& has_both(first, second, e.entity_id_a as int)
        &&& has_both(first, second, e.entity_id_b as int)
        &&& overlaps.ensures((e.entity_id_a as usize, e.entity_id_b as usize), true)
    }
    &&& forall|k: int, l: int| 0 <= k < l < found.len() ==> pair_before(
        (#[trigger] found[k]).entity_id_a as int,
        found[k].entity_id_b as int,
        (#[trigger] found[l]).entity_id_a as int,
        found[l].entity_id_b as int,
    )
    &&& forall|a: int, b: int|
        0 <= a < b && has_both(first, second, a) && has_both(first, second, b) && !listed(found, a, b)
            ==> #[trigger] overlaps.ensures((a as usize, b as usize), false)
}

/// The pair `(a, b)` occurs in `found`.
pub open spec fn listed(found: Seq<CollisionEvent>, a: int, b: int) -> bool {
    exists|k: int| 0 <= k < found.len() && found[k].entity_id_a == a && found[k].entity_id_b == b
}

/// Finds the pairs of entities whose colliders overlap and reports them as collision events.
pub struct CollisionSystem;

impl CollisionSystem {
    /// Creates the system.
    pub fn new() -> Self {
        Self
    }

    /// Checks every pair of entities that have both a transform (`transforms`)
    /// and a collider (`colliders`), each pair once, and appends an event for
    /// each pair that `overlaps` reports as overlapping. The events already in
    /// `events` are kept.
    pub fn detect<A, B, F: Fn(usize, usize) -> bool>(
        &mut self,
        transforms: &Vec<Option<A>>,
        colliders: &Vec<Option<B>>,
        overlaps: &F,
        events: &mut CollisionEvents,
    )
        requires
            transforms@.len() <= u32::MAX as int + 1,
            forall|a: usize, b: usize| overlaps.requires((a, b)),
        ensures
            final(events).events@.len() >= old(events).events@.len(),
            final(events).events@.subrange(0, old(events).events@.len() as int) == old(events).events@,
            reports_overlaps(
                transforms@,
                colliders@,
                *overlaps,
                final(events).events@.subrange(old(events).events@.len() as int, final(events).events@.len() as int),
            ),
    {
        let active = ids_with_both(transforms, colliders);
        let m = active.len();
        let ghost start = events.events@;
        let ghost t = transforms@;
        let ghost c = colliders@;
        for i in 0..m
            invariant
                m == active@.len(),
                t == transforms@,
                c == colliders@,
                t.len() <= u32::MAX as int + 1,
                forall|a: usize, b: usize| overlaps.requires((a, b)),
                forall|k: int| 0 <= k < active@.len() ==> has_both(t, c, #[trigger] active@[k] as int),
                forall|k: int, l: int| 0 <= k < l < active@.len() ==> active@[k] < active@[l],
                forall|id: int| has_both(t, c, id) ==> #[trigger] active@.contains(id as usize),
                events.events@.len() >= start.len(),
                i == 0 ==> events.events@.len() == start.len(),
                events.events@.subrange(0, start.len() as int) == start,
                forall|k: int| start.len() <= k < events.events@.len() ==> {
                    let e = #[trigger] events.events@[k];
                    &&& e.entity_id_a < e.entity_id_b
                    &&& has_both(t, c, e.entity_id_a as int)
                    &&& has_both(t, c, e.entity_id_b as int)
                    &&& overlaps.ensures((e.entity_id_a as usize, e.entity_id_b as usize), true)
                    &&& (i > 0 ==> e.entity_id_a <= active@[i - 1])
                },
                forall|k: int, l: int| start.len() <= k < l < events.events@.len() ==> pair_before(
                    (#[trigger] events.events@[k]).entity_id_a as int,
                    events.events@[k].entity_id_b as int,
                    (#[trigger] events.events@[l]).entity_id_a as int,
                    events.events@[l].entity_id_b as int,
                ),
                forall|p: int, q: int| 0 <= p < i && p < q < m && !listed(
                    events.events@.subrange(start.len() as int, events.events@.len() as int),
                    active@[p] as int,
                    active@[q] as int,
                ) ==> #[trigger] overlaps.ensures((active@[p], active@[q]), false),
        {
            let ghost row_start = events.events@.len();
            for j in i + 1..m
                invariant
                    m == active@.len(),
                    i < m,
                    t == transforms@,
                    c == colliders@,
                    t.len() <= u32::MAX as int + 1,
                    forall|a: usize, b: usize| overlaps.requires((a, b)),
                    forall|k: int| 0 <= k < active@.len() ==> has_both(t, c, #[trigger] active@[k] as int),
                    forall|k: int, l: int| 0 <= k < l < active@.len() ==> active@[k] < active@[l],
                    start.len() <= row_start <= events.events@.len(),
                    i == 0 ==> row_start == start.len(),
                    i + 1 <= j <= m,
                    events.events@.subrange(0, start.len() as int) == start,
                    forall|k: int| start.len() <= k < events.events@.len() ==> {
                        let e = #[trigger] events.events@[k];
                        &&& e.entity_id_a < e.entity_id_b
                        &&& has_both(t, c, e.entity_id_a as int)
                        &&& has_both(t, c, e.entity_id_b as int)
                        &&& overlaps.ensures((e.entity_id_a as usize, e.entity_id_b as usize), true)
                        &&& (k < row_start && i > 0 ==> e.entity_id_a <= active@[i - 1])
                        &&& (k >= row_start ==> e.entity_id_a == active@[i as int] && e.entity_id_b < active@[j - 1] + 1)
                    },
                    forall|k: int, l: int| start.len() <= k < l < events.events@.len() ==> pair_before(
                        (#[trigger] events.events@[k]).entity_id_a as int,
                        events.events@[k].entity_id_b as int,
                        (#[trigger] events.events@[l]).entity_id_a as int,
                        events.events@[l].entity_id_b as int,
                    ),
                    forall|p: int, q: int| 0 <= p < i && p < q < m && !listed(
                        events.events@.subrange(start.len() as int, events.events@.len() as int),
                        active@[p] as int,
                        active@[q] as int,
                    ) ==> #[trigger] overlaps.ensures((active@[p], active@[q]), false),
                    forall|q: int| i < q < j && !listed(
                        events.events@.subrange(start.len() as int, events.events@.len() as int),
                        active@[i as int] as int,
                        active@[q] as int,
                    ) ==> #[trigger] overlaps.ensures((active@[i as int], active@[q]), false),
            {
                let a = active[i];
                let b = active[j];
                let hit = overlaps(a, b);
                let ghost before = events.events@;
                if hit {
                    events.events.push(CollisionEvent { entity_id_a: a as u32, entity_id_b: b as u32 });
                    proof {
                        let n = events.events@.len();
                        assert(events.events@[n - 1].entity_id_a == a);
                        assert(events.events@[n - 1].entity_id_b == b);
                        assert(events.events@.subrange(0, start.len() as int) =~= start);
                        let s0 = before.subrange(start.len() as int, before.len() as int);
                        let s1 = events.events@.subrange(start.len() as int, n as int);
                        assert forall|x: int, y: int| listed(s0, x, y) implies listed(s1, x, y) by {
                            let k = choose|k: int| 0 <= k < s0.len() && s0[k].entity_id_a == x && s0[k].entity_id_b == y;
                            assert(s1[k] == s0[k]);
                        }
                        assert forall|k: int| start.len() <= k < n - 1 implies pair_before(
                            events.events@[k].entity_id_a as int,
                            events.events@[k].entity_id_b as int,
                            a as int,
                            b as int,
                        ) by {
                            assert(events.events@[k] == before[k]);
                            if k < row_start {
                                assert(active@[i - 1] < active@[i as int]);
                            } else {
                                assert(active@[j - 1] < active@[j as int]);
                            }
                        }
                        assert(listed(s1, a as int, b as int)) by {
                            assert(s1[s1.len() - 1] == events.events@[n - 1]);
                        }
                    }
                }
            }
        }
        proof {
            let n = events.events@.len();
            let found = events.events@.subrange(start.len() as int, n as int);
            assert forall|x: int, y: int|
                0 <= x < y && has_both(t, c, x) && has_both(t, c, y) && !listed(found, x, y)
                implies #[trigger] overlaps.ensures((x as usize, y as usize), false) by {
                assert(active@.contains(x as usize));
                assert(active@.contains(y as usize));
                let p = choose|p: int| 0 <= p < m && active@[p] == x as usize;
                let q = choose|q: int| 0 <= q < m && active@[q] == y as usize;
                if q <= p {
                    if q < p {
                        assert(active@[q] < active@[p]);
                    }
                }
                assert(p < q);
                assert(overlaps.ensures((active@[p], active@[q]), false));
            }
            assert forall|k: int| 0 <= k < found.len() implies {
                let e = #[trigger] found[k];
                &&& e.entity_id_a < e.entity_id_b
                &&& has_both(t, c, e.entity_id_a as int)
                &&& has_both(t, c, e.entity_id_b as int)
                &&& overlaps.ensures((e.entity_id_a as usize, e.entity_id_b as usize), true)
            } by {
                assert(found[k] == events.events@[start.len() + k]);
            }
            assert forall|k: int, l: int| 0 <= k < l < found.len() implies pair_before(
                (#[trigger] found[k]).entity_id_a as int,
                found[k].entity_id_b as int,
                (#[trigger] found[l]).entity_id_a as int,
                found[l].entity_id_b as int,
            ) by {
                assert(found[k] == events.events@[start.len() + k]);
                assert(found[l] == events.events@[start.len() + l]);
            }
        }
    }
}

} // verus!
