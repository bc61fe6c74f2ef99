//! Hands out entity ids and takes them back for reuse.
//!
//! Ids come from a counter; an id that is given back goes onto a stack of free
//! ids, and the most recently freed id is the next one handed out.

use vstd::prelude::*;

verus! {

/// Source of entity ids.
pub struct EntityManager {
    next_id: u32,
    free_ids: Vec<u32>,
}

impl EntityManager {
    /// The id the counter hands out next, once no freed id is waiting.
    pub closed spec fn next_fresh(&self) -> u32 {
        self.next_id
    }

    /// The freed ids waiting to be handed out again; the last one goes first.
    pub closed spec fn free_list(&self) -> Seq<u32> {
        self.free_ids@
    }

    /// An id is live when the counter has handed it out and it has not been freed since.
    pub open spec fn is_live(&self, id: u32) -> bool {
        id < self.next_fresh() && !self.free_list().contains(id)
    }

    /// The ids that are live.
    pub open spec fn live_ids(&self) -> Set<u32> {
        Set::new(|id: u32| self.is_live(id))
    }

    /// The freed ids are distinct and all come from the counter.
    pub open spec fn wf(&self) -> bool {
        &&& self.free_list().no_duplicates()
        &&& forall|i: int| 0 <= i < self.free_list().len() ==> #[trigger] self.free_list()[i] < self.next_fresh()
    }

    /// `after` and `id` are the outcome of `create_entity` on `self`.
    pub open spec fn creates(&self, after: Self, id: u32) -> bool {
        if self.free_list().len() > 0 {
            &&& id == self.free_list().last()
            &&& after.free_list() == self.free_list().drop_last()
            &&& after.next_fresh() == self.next_fresh()
        } else {
            &&& id == self.next_fresh()
            &&& after.free_list() == self.free_list()
            &&& after.next_fresh() == self.next_fresh() + 1
        }
    }

    /// `after` is the outcome of `delete_entity(id)` on `self`.
    pub open spec fn deletes(&self, after: Self, id: u32) -> bool {
        &&& after.next_fresh() == self.next_fresh()
        &&& after.free_list() == (if self.free_list().contains(id) {
            self.free_list()
        } else {
            self.free_list().push(id)
        })
    }

    /// A manager that has handed out no id yet.
    pub fn new() -> (manager: Self)
        ensures
            manager.next_fresh() == 0,
            manager.free_list() == Seq::<u32>::empty(),
            manager.wf(),
    {
        EntityManager { next_id: 0, free_ids: Vec::new() }
    }

    /// The number of live entities: the ids handed out by the counter, less
    /// the ids waiting for reuse.
    pub fn entity_count(&self) -> (count: u32)
        ensures
            self.wf() ==> count == self.live_ids().len(),
            self.wf() ==> self.live_ids().finite(),
    {
        proof {
            if self.wf() {
                self.lemma_live_count();
            }
        }
        if self.free_ids.len() <= self.next_id as usize {
            self.next_id - self.free_ids.len() as u32
        } else {
            0
        }
    }

    /// For a well-formed manager, the live ids form a finite set whose size is
    /// the number of ids handed out by the counter less the freed ones.
    pub proof fn lemma_live_count(&self)
        requires
            self.wf(),
        ensures
            self.live_ids().finite(),
            self.live_ids().len() + self.free_list().len() == self.next_fresh(),
    {
        let all = Set::<u32>::range(0, self.next_fresh());
        let free = self.free_list().to_set();
        vstd::set_lib::range_set_properties::<u32>(0, self.next_fresh());
        self.free_list().unique_seq_to_set();
        assert(free.subset_of(all)) by {
            assert forall|id: u32| free.contains(id) implies all.contains(id) by {
                let j = choose|j: int| 0 <= j < self.free_list().len() && self.free_list()[j] == id;
            }
        }
        assert(all.intersect(free) =~= free);
        assert(all.difference(free) =~= self.live_ids());
        vstd::set_lib::lemma_set_subset_finite(all, free);
        vstd::set_lib::lemma_set_difference_len(all, free);
    }

    /// Whether `create_entity` can hand out an id: a freed id is waiting, or the
    /// counter has not reached its last value.
    pub fn can_create_entity(&self) -> (can: bool)
        ensures
            can == (self.free_list().len() > 0 || self.next_fresh() < u32::MAX),
    {
        self.free_ids.len() > 0 || self.next_id < u32::MAX
    }

    /// Hands out an id: the most recently freed one if there is one, else the next
    /// one of the counter. The id was not live, and is live afterwards.
    pub fn create_entity(&mut self) -> (id: u32)
        requires
            old(self).free_list().len() > 0 || old(self).next_fresh() < u32::MAX,
        ensures
            old(self).creates(*final(self), id),
            old(self).wf() ==> {
                &&& final(self).wf()
                &&& !old(self).is_live(id)
                &&& final(self).live_ids() == old(self).live_ids().insert(id)
            },
    {
        let ghost before = *self;
        match self.free_ids.pop() {
            Some(free_id) => {
                proof {
                    if before.wf() {
                        law_create_makes_one_id_live(before, *self, free_id);
                    }
                }
                free_id
            },
            None => {
                let id = self.next_id;
                self.next_id = self.next_id + 1;
                proof {
                    if before.wf() {
                        law_create_makes_one_id_live(before, *self, id);
                    }
                }
                id
            },
        }
    }

    /// Gives `id` back for reuse; an id that is already waiting is not added twice.
    pub fn delete_entity(&mut self, id: u32)
        ensures
            old(self).deletes(*final(self), id),
            final(self).live_ids() == old(self).live_ids().remove(id),
            old(self).wf() && id < old(self).next_fresh() ==> final(self).wf(),
    {
        let ghost before = *self;
        let n = self.free_ids.len();
        let mut i: usize = 0;
        let mut found = false;
        while i < n
            invariant
                n == self.free_ids@.len(),
                i <= n,
                found ==> self.free_ids@.contains(id),
                !found ==> forall|j: int| 0 <= j < i ==> self.free_ids@[j] != id,
            decreases n - i,
        {
            if self.free_ids[i] == id {
                found = true;
                assert(self.free_ids@[i as int] == id);
            }
            i = i + 1;
        }
        if !found {
            self.free_ids.push(id);
        }
        proof {
            law_delete_frees_id(before, *self, id);
        }
    }
}

/// An id that is freed and then handed out again is the one handed out next:
/// the manager reuses the most recently freed id first.
pub proof fn law_delete_then_create_reuses(
    before: EntityManager,
    after_delete: EntityManager,
    after_create: EntityManager,
    id: u32,
    created: u32,
)
    requires
        !before.free_list().contains(id),
        before.deletes(after_delete, id),
        after_delete.creates(after_create, created),
    ensures
        created == id,
        after_create.free_list() == before.free_list(),
        after_create.next_fresh() == before.next_fresh(),
{
    assert(after_create.free_list() =~= before.free_list());
}

/// Two ids handed out one after the other, with nothing freed in between, differ.
pub proof fn law_consecutive_ids_distinct(
    first: EntityManager,
    second: EntityManager,
    third: EntityManager,
    id1: u32,
    id2: u32,
)
    requires
        first.wf(),
        first.creates(second, id1),
        second.creates(third, id2),
    ensures
        id1 != id2,
{
    if first.free_list().len() > 0 {
        let s = first.free_list();
        if second.free_list().len() > 0 {
            assert(id2 == s[s.len() - 2]);
        } else {
            assert(s[s.len() - 1] < first.next_fresh());
        }
    }
}

} // verus!

verus! {

/// Handing out an id from a well-formed manager keeps it well formed and makes
/// exactly one more id live: the one handed out, which was not live before.
pub proof fn law_create_makes_one_id_live(before: EntityManager, after: EntityManager, id: u32)
    requires
        before.wf(),
        before.creates(after, id),
    ensures
        after.wf(),
        !before.is_live(id),
        after.is_live(id),
        forall|other: u32| other != id ==> (#[trigger] after.is_live(other) == before.is_live(other)),
        after.live_ids() == before.live_ids().insert(id),
        after.live_ids().finite(),
        after.live_ids().len() == before.live_ids().len() + 1,
{
    let s = before.free_list();
    let t = after.free_list();
    if s.len() > 0 {
        assert(s == t.push(id));
        assert(!t.contains(id)) by {
            if t.contains(id) {
                let j = choose|j: int| 0 <= j < t.len() && t[j] == id;
                assert(s[j] == s[s.len() - 1]);
            }
        }
        assert(s.contains(id)) by {
            assert(s[s.len() - 1] == id);
        }
        assert forall|other: u32| other != id implies (#[trigger] t.contains(other) == s.contains(other)) by {
            if s.contains(other) {
                let j = choose|j: int| 0 <= j < s.len() && s[j] == other;
                assert(j != s.len() - 1);
                assert(t[j] == other);
            }
            if t.contains(other) {
                let j = choose|j: int| 0 <= j < t.len() && t[j] == other;
                assert(s[j] == other);
            }
        }
        assert(s[s.len() - 1] < before.next_fresh());
        assert forall|i: int| 0 <= i < t.len() implies #[trigger] t[i] < after.next_fresh() by {
            assert(s[i] == t[i]);
        }
    }
    assert(after.live_ids() =~= before.live_ids().insert(id));
    before.lemma_live_count();
    after.lemma_live_count();
}

/// Giving an id back makes exactly that id not live. A well-formed manager stays
/// well formed when the id came from its counter, and then the number of live
/// ids drops by one if the id was live, and stays the same otherwise.
pub proof fn law_delete_frees_id(before: EntityManager, after: EntityManager, id: u32)
    requires
        before.deletes(after, id),
    ensures
        !after.is_live(id),
        forall|other: u32| other != id ==> (#[trigger] after.is_live(other) == before.is_live(other)),
        after.live_ids() == before.live_ids().remove(id),
        before.wf() && id < before.next_fresh() ==> after.wf(),
        before.wf() && id < before.next_fresh() ==> after.live_ids().len() == before.live_ids().len() - (if before.is_live(id) {
            1int
        } else {
            0int
        }),
{
    let s = before.free_list();
    let t = after.free_list();
    if !s.contains(id) {
        assert(t[s.len() as int] == id);
        assert forall|other: u32| other != id implies (#[trigger] t.contains(other) == s.contains(other)) by {
            if s.contains(other) {
                let j = choose|j: int| 0 <= j < s.len() && s[j] == other;
                assert(t[j] == other);
            }
            if t.contains(other) {
                let j = choose|j: int| 0 <= j < t.len() && t[j] == other;
                assert(j != s.len());
                assert(s[j] == other);
            }
        }
        if before.wf() && id < before.next_fresh() {
            assert forall|a: int, b: int| 0 <= a < t.len() && 0 <= b < t.len() && a != b implies t[a] != t[b] by {
                if a == s.len() {
                    assert(t[b] == s[b]);
                } else if b == s.len() {
                    assert(t[a] == s[a]);
                } else {
                    assert(t[a] == s[a] && t[b] == s[b]);
                }
            }
            assert forall|j: int| 0 <= j < t.len() implies #[trigger] t[j] < after.next_fresh() by {
                if j < s.len() {
                    assert(t[j] == s[j]);
                }
            }
        }
    }
    assert(after.live_ids() =~= before.live_ids().remove(id));
    if before.wf() && id < before.next_fresh() {
        before.lemma_live_count();
    }
}

} // verus!
