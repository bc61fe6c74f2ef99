//! Storage of components: one column per component kind, indexed by entity id.
//!
//! A column holds, for each entity id, either the entity's component of that
//! kind or nothing. Columns grow on demand when a component is added for an
//! entity beyond their current end.

use vstd::prelude::*;

use std::collections::HashMap;

use vstd::std_specs::iter::IteratorSpec;

verus! {

broadcast use vstd::std_specs::hash::group_hash_axioms;

/// `column` with the slot at `index` emptied, when that slot exists.
pub open spec fn cleared_slot<T>(column: Seq<Option<T>>, index: int) -> Seq<Option<T>> {
    if 0 <= index < column.len() {
        column.update(index, None)
    } else {
        column
    }
}

/// `column` padded with empty slots up to `index` (when it is shorter), then
/// with `value` in the slot at `index`.
pub open spec fn filled_slot<T>(column: Seq<Option<T>>, index: int, value: T) -> Seq<Option<T>> {
    let grown = if column.len() <= index {
        column + Seq::new((index + 1 - column.len()) as nat, |j: int| None::<T>)
    } else {
        column
    };
    grown.update(index, Some(value))
}

/// The column filed under `kind`, or an empty column when there is none.
pub open spec fn column_or_empty<T>(store: Map<u64, Seq<Option<T>>>, kind: u64) -> Seq<Option<T>> {
    if store.contains_key(kind) {
        store[kind]
    } else {
        Seq::empty()
    }
}

/// `after` is `before` with the slot of entity `id` emptied in every column.
pub open spec fn removes_entity<T>(
    before: Map<u64, Seq<Option<T>>>,
    after: Map<u64, Seq<Option<T>>>,
    id: int,
) -> bool {
    &&& after.dom() == before.dom()
    &&& forall|k: u64|
        #![trigger after[k]]
        #![trigger before.contains_key(k)]
        before.contains_key(k) ==> after[k] == cleared_slot(before[k], id)
}

/// Every component in `store` sits in the column of its own kind, where
/// `kind_of` gives the kind of a component.
pub open spec fn columns_hold_their_kind<C>(store: Map<u64, Seq<Option<C>>>, kind_of: spec_fn(C) -> u64) -> bool {
    forall|k: u64, e: int|
        store.contains_key(k) && 0 <= e < store[k].len() && (#[trigger] store[k][e]) is Some ==> kind_of(
            store[k][e]->0,
        ) == k
}

/// Every component in `column` has kind `kind`.
pub open spec fn column_holds_kind<C>(column: Seq<Option<C>>, kind: u64, kind_of: spec_fn(C) -> u64) -> bool {
    forall|e: int| 0 <= e < column.len() && (#[trigger] column[e]) is Some ==> kind_of(column[e]->0) == kind
}

proof fn lemma_holds_after_insert<C>(
    store: Map<u64, Seq<Option<C>>>,
    kind: u64,
    column: Seq<Option<C>>,
    kind_of: spec_fn(C) -> u64,
)
    requires
        columns_hold_their_kind(store, kind_of),
        column_holds_kind(column, kind, kind_of),
    ensures
        columns_hold_their_kind(store.insert(kind, column), kind_of),
{
    let after = store.insert(kind, column);
    assert forall|k: u64, e: int| after.contains_key(k) && 0 <= e < after[k].len() && (#[trigger] after[k][e]) is Some
        implies kind_of(after[k][e]->0) == k by {
        if k == kind {
            assert(column[e] is Some);
        } else {
            assert(store[k][e] is Some);
        }
    }
}

proof fn lemma_column_of_store<C>(store: Map<u64, Seq<Option<C>>>, kind: u64, kind_of: spec_fn(C) -> u64)
    requires
        columns_hold_their_kind(store, kind_of),
    ensures
        column_holds_kind(column_or_empty(store, kind), kind, kind_of),
{
    let column = column_or_empty(store, kind);
    assert forall|e: int| 0 <= e < column.len() && (#[trigger] column[e]) is Some implies kind_of(column[e]->0) == kind by {
        assert(store[kind][e] is Some);
    }
}

proof fn lemma_filled_slot_holds_kind<C>(
    column: Seq<Option<C>>,
    index: int,
    value: C,
    kind: u64,
    kind_of: spec_fn(C) -> u64,
)
    requires
        0 <= index,
        column_holds_kind(column, kind, kind_of),
        kind_of(value) == kind,
    ensures
        column_holds_kind(filled_slot(column, index, value), kind, kind_of),
{
    let after = filled_slot(column, index, value);
    assert forall|e: int| 0 <= e < after.len() && (#[trigger] after[e]) is Some implies kind_of(after[e]->0) == kind by {
        if e != index && e < column.len() {
            assert(column[e] is Some);
        }
    }
}

proof fn lemma_cleared_slot_holds_kind<C>(column: Seq<Option<C>>, index: int, kind: u64, kind_of: spec_fn(C) -> u64)
    requires
        column_holds_kind(column, kind, kind_of),
    ensures
        column_holds_kind(cleared_slot(column, index), kind, kind_of),
{
    let after = cleared_slot(column, index);
    assert forall|e: int| 0 <= e < after.len() && (#[trigger] after[e]) is Some implies kind_of(after[e]->0) == kind by {
        assert(column[e] is Some);
    }
}

/// A column of components of one kind, indexed by entity id.
pub trait ComponentVec<T>: View<V = Seq<Option<T>>> {
    /// Empties the slot of `entity_id`; a column too short to hold it is left as it is.
    fn remove_entity(&mut self, entity_id: usize)
        ensures
            final(self)@ == cleared_slot(old(self)@, entity_id as int),
    ;
}

impl<T> ComponentVec<T> for Vec<Option<T>> {
    fn remove_entity(&mut self, entity_id: usize) {
        if entity_id < self.len() {
            self.set(entity_id, None);
        }
    }
}

/// The kinds filed in `map`, each once.
fn kinds_of<V>(map: &HashMap<u64, V>) -> (kinds: Vec<u64>)
    ensures
        kinds@.to_set() == map@.dom(),
        kinds@.no_duplicates(),
{
    let mut kinds: Vec<u64> = Vec::new();
    for kind in iter: map.keys()
        invariant
            kinds@.len() == iter.index(),
            forall|j: int| 0 <= j < kinds@.len() ==> kinds@[j] == *iter.seq()[j],
    {
        kinds.push(*kind);
    }
    proof {
        assert(kinds@ =~= vstd::std_specs::hash::spec_keys_iter(map).remaining().unref());
    }
    kinds
}

/// All components of all entities, filed by component kind. As long as each
/// component is added under its own kind, every column holds components of its
/// kind only: each operation keeps `columns_hold_their_kind` for every kind function.
pub struct ComponentStore<C> {
    components: HashMap<u64, Vec<Option<C>>>,
}

impl<C> View for ComponentStore<C> {
    type V = Map<u64, Seq<Option<C>>>;

    closed spec fn view(&self) -> Map<u64, Seq<Option<C>>> {
        columns_view(self.components@)
    }
}

/// The contents of each column of `columns`.
pub open spec fn columns_view<C>(columns: Map<u64, Vec<Option<C>>>) -> Map<u64, Seq<Option<C>>> {
    Map::new(|k: u64| columns.contains_key(k), |k: u64| columns[k]@)
}

proof fn lemma_columns_view_insert<C>(columns: Map<u64, Vec<Option<C>>>, kind: u64)
    ensures
        forall|column: Vec<Option<C>>| #[trigger] columns_view(columns.insert(kind, column))
            == columns_view(columns).insert(kind, column@),
{
    assert forall|column: Vec<Option<C>>| #[trigger] columns_view(columns.insert(kind, column))
        == columns_view(columns).insert(kind, column@) by {
        assert(columns_view(columns.insert(kind, column)) =~= columns_view(columns).insert(kind, column@));
    }
}

impl<C> ComponentStore<C> {
    /// A store with no component kind registered.
    pub fn new() -> (store: Self)
        ensures
            store@ == Map::<u64, Seq<Option<C>>>::empty(),
            forall|kind_of: spec_fn(C) -> u64| #[trigger] columns_hold_their_kind(store@, kind_of),
    {
        let store = ComponentStore { components: HashMap::new() };
        assert(store@ =~= Map::<u64, Seq<Option<C>>>::empty());
        store
    }

    /// Makes sure a column exists for `kind`; an existing column is kept as it is.
    pub fn register_component(&mut self, kind: u64)
        ensures
            final(self)@ == (if old(self)@.contains_key(kind) {
                old(self)@
            } else {
                old(self)@.insert(kind, Seq::empty())
            }),
            forall|kind_of: spec_fn(C) -> u64| columns_hold_their_kind(old(self)@, kind_of)
                ==> #[trigger] columns_hold_their_kind(final(self)@, kind_of),
    {
        let column = self.components.entry(kind).or_insert(Vec::new());
        proof {
            assert forall|kind_of: spec_fn(C) -> u64| columns_hold_their_kind(old(self)@, kind_of)
                implies #[trigger] columns_hold_their_kind(final(self)@, kind_of) by {
                if !old(self)@.contains_key(kind) {
                    lemma_holds_after_insert(old(self)@, kind, Seq::empty(), kind_of);
                    assert(final(self)@ =~= old(self)@.insert(kind, Seq::empty()));
                } else {
                    assert(final(self)@ =~= old(self)@);
                }
            }
            if old(self)@.contains_key(kind) {
                assert(final(self)@ =~= old(self)@);
            } else {
                assert(final(self)@ =~= old(self)@.insert(kind, Seq::empty()));
            }
        }
    }

    /// Gives entity `entity_id` the component `component` of kind `kind`,
    /// registering the kind and growing its column as needed.
    pub fn add_component(&mut self, kind: u64, entity_id: u32, component: C)
        requires
            (entity_id as int) < usize::MAX,
        ensures
            final(self)@ == old(self)@.insert(
                kind,
                filled_slot(column_or_empty(old(self)@, kind), entity_id as int, component),
            ),
            forall|kind_of: spec_fn(C) -> u64| columns_hold_their_kind(old(self)@, kind_of) && kind_of(component) == kind
                ==> #[trigger] columns_hold_their_kind(final(self)@, kind_of),
    {
        let column = self.components.entry(kind).or_insert(Vec::new());
        let index = entity_id as usize;
        let ghost start = column@;
        assert(start == column_or_empty(old(self)@, kind));
        while column.len() <= index
            invariant
                index < usize::MAX,
                start.len() <= column@.len(),
                column@.len() <= index + 1 || column@ == start,
                column@ == start + Seq::new((column@.len() - start.len()) as nat, |j: int| None::<C>),
            decreases index + 1 - column@.len(),
        {
            column.push(None);
            assert(column@ =~= start + Seq::new((column@.len() - start.len()) as nat, |j: int| None::<C>));
        }
        column.set(index, Some(component));
        assert(column@ =~= filled_slot(start, index as int, component));
        proof {
            assert(final(self)@ =~= old(self)@.insert(
                kind,
                filled_slot(column_or_empty(old(self)@, kind), entity_id as int, component),
            ));
            assert forall|kind_of: spec_fn(C) -> u64| columns_hold_their_kind(old(self)@, kind_of) && kind_of(component) == kind
                implies #[trigger] columns_hold_their_kind(final(self)@, kind_of) by {
                lemma_column_of_store(old(self)@, kind, kind_of);
                lemma_filled_slot_holds_kind(column_or_empty(old(self)@, kind), entity_id as int, component, kind, kind_of);
                lemma_holds_after_insert(
                    old(self)@,
                    kind,
                    filled_slot(column_or_empty(old(self)@, kind), entity_id as int, component),
                    kind_of,
                );
            }
        }
    }

    /// Whether a column exists for `kind`.
    pub fn is_registered(&self, kind: u64) -> (registered: bool)
        ensures
            registered == self@.contains_key(kind),
    {
        self.components.contains_key(&kind)
    }

    /// The column of kind `kind`, which must be registered.
    pub fn get_component(&self, kind: u64) -> (column: &Vec<Option<C>>)
        requires
            self@.contains_key(kind),
        ensures
            column@ == self@[kind],
    {
        self.components.get(&kind).unwrap()
    }

    /// Mutable access to the column of kind `kind`, which must be registered.
    pub fn get_component_mut(&mut self, kind: u64) -> (column: &mut Vec<Option<C>>)
        requires
            old(self)@.contains_key(kind),
        ensures
            column@ == old(self)@[kind],
            final(self)@ == old(self)@.insert(kind, final(column)@),
    {
        proof {
            lemma_columns_view_insert(self.components@, kind);
        }
        self.components.entry(kind).or_insert(Vec::new())
    }

    /// Removes every component of entity `entity_id`; the other entities keep theirs.
    pub fn remove_entity(&mut self, entity_id: u32)
        ensures
            removes_entity(old(self)@, final(self)@, entity_id as int),
            forall|kind_of: spec_fn(C) -> u64| columns_hold_their_kind(old(self)@, kind_of)
                ==> #[trigger] columns_hold_their_kind(final(self)@, kind_of),
    {
        let index = entity_id as usize;
        let kinds = kinds_of(&self.components);
        let n = kinds.len();
        let ghost before = self@;
        proof {
            assert forall|k: u64| #[trigger] before.contains_key(k) <==> kinds@.contains(k) by {
                assert(kinds@.to_set().contains(k) == kinds@.contains(k));
            }
        }
        for i in 0..n
            invariant
                n == kinds@.len(),
                index as int == entity_id as int,
                kinds@.no_duplicates(),
                forall|k: u64| #[trigger] before.contains_key(k) <==> kinds@.contains(k),
                self@.dom() == before.dom(),
                forall|j: int| 0 <= j < i ==> #[trigger] self@[kinds@[j]] == cleared_slot(before[kinds@[j]], index as int),
                forall|j: int| i <= j < n ==> #[trigger] self@[kinds@[j]] == before[kinds@[j]],
        {
            let kind = kinds[i];
            assert(kinds@.contains(kind));
            let ghost prev = self@;
            proof {
                assert(prev[kinds@[i as int]] == before[kinds@[i as int]]);
                assert(before.contains_key(kind));
                assert(prev.contains_key(kind));
            }
            self.remove_component(kind, entity_id);
            proof {
                assert forall|j: int| 0 <= j < n && j != i implies #[trigger] kinds@[j] != kind by {}
                assert(self@ =~= prev.insert(kind, cleared_slot(before[kind], index as int)));
            }
        }
        proof {
            assert forall|k: u64| #[trigger] old(self)@.contains_key(k) implies
                final(self)@[k] == cleared_slot(old(self)@[k], entity_id as int) by {
                assert(kinds@.contains(k));
                let j = choose|j: int| 0 <= j < n && kinds@[j] == k;
                assert(self@[kinds@[j]] == cleared_slot(before[kinds@[j]], index as int));
            }
            assert forall|kind_of: spec_fn(C) -> u64| columns_hold_their_kind(old(self)@, kind_of)
                implies #[trigger] columns_hold_their_kind(final(self)@, kind_of) by {
                assert forall|k: u64, e: int|
                    final(self)@.contains_key(k) && 0 <= e < final(self)@[k].len() && (#[trigger] final(self)@[k][e]) is Some
                    implies kind_of(final(self)@[k][e]->0) == k by {
                    assert(old(self)@.contains_key(k));
                    assert(old(self)@[k][e] is Some);
                }
            }
        }
    }

    /// Removes entity `entity_id`'s component of kind `kind`, when the kind is registered.
    pub fn remove_component(&mut self, kind: u64, entity_id: u32)
        ensures
            final(self)@ == (if old(self)@.contains_key(kind) {
                old(self)@.insert(kind, cleared_slot(old(self)@[kind], entity_id as int))
            } else {
                old(self)@
            }),
            forall|kind_of: spec_fn(C) -> u64| columns_hold_their_kind(old(self)@, kind_of)
                ==> #[trigger] columns_hold_their_kind(final(self)@, kind_of),
    {
        if self.components.contains_key(&kind) {
            proof {
                lemma_columns_view_insert(self.components@, kind);
            }
            let column = self.components.entry(kind).or_insert(Vec::new());
            column.remove_entity(entity_id as usize);
            proof {
                assert(final(self)@ =~= old(self)@.insert(kind, cleared_slot(old(self)@[kind], entity_id as int)));
                assert forall|kind_of: spec_fn(C) -> u64| columns_hold_their_kind(old(self)@, kind_of)
                    implies #[trigger] columns_hold_their_kind(final(self)@, kind_of) by {
                    lemma_column_of_store(old(self)@, kind, kind_of);
                    lemma_cleared_slot_holds_kind(old(self)@[kind], entity_id as int, kind, kind_of);
                    lemma_holds_after_insert(old(self)@, kind, cleared_slot(old(self)@[kind], entity_id as int), kind_of);
                }
            }
        }
    }
}

} // verus!

verus! {

/// After an entity is removed from the store, no column holds a component for
/// it, every column keeps its length, and every other entity keeps exactly the
/// components it had.
pub proof fn law_remove_entity_clears_only_that_entity<T>(
    before: Map<u64, Seq<Option<T>>>,
    after: Map<u64, Seq<Option<T>>>,
    id: int,
)
    requires
        removes_entity(before, after, id),
    ensures
        after.dom() == before.dom(),
        forall|k: u64| #[trigger] before.contains_key(k) ==> after[k].len() == before[k].len(),
        forall|k: u64| after.contains_key(k) && 0 <= id < after[k].len() ==> (#[trigger] after[k][id]) is None,
        forall|k: u64, e: int|
            before.contains_key(k) && 0 <= e < before[k].len() && e != id ==> #[trigger] after[k][e] == before[k][e],
{
    assert forall|k: u64| after.contains_key(k) && 0 <= id < after[k].len() implies (#[trigger] after[k][id]) is None by {
        assert(before.contains_key(k));
    }
}

/// Removing the same entity a second time changes nothing.
pub proof fn law_remove_entity_idempotent<T>(
    first: Map<u64, Seq<Option<T>>>,
    second: Map<u64, Seq<Option<T>>>,
    third: Map<u64, Seq<Option<T>>>,
    id: int,
)
    requires
        removes_entity(first, second, id),
        removes_entity(second, third, id),
    ensures
        third == second,
{
    assert forall|k: u64| #[trigger] second.contains_key(k) implies third[k] == second[k] by {
        assert(first.contains_key(k));
        assert(cleared_slot(second[k], id) =~= second[k]);
    }
    assert(third =~= second);
}

/// Adding a component puts it in the entity's slot; the column becomes long
/// enough to hold that slot, slots it already had keep their contents, and
/// the slots that padding added are empty.
pub proof fn law_filled_slot<T>(column: Seq<Option<T>>, index: int, value: T)
    requires
        0 <= index,
    ensures
        filled_slot(column, index, value).len() == (if column.len() <= index { index + 1 } else { column.len() as int }),
        filled_slot(column, index, value)[index] == Some(value),
        forall|j: int|
            0 <= j < filled_slot(column, index, value).len() && j != index ==> #[trigger] filled_slot(column, index, value)[j]
                == (if j < column.len() { column[j] } else { None }),
{
}

/// A component that was added and then removed leaves its slot empty, and the
/// other slots as the addition left them.
pub proof fn law_add_then_remove<T>(column: Seq<Option<T>>, index: int, value: T)
    requires
        0 <= index,
    ensures
        cleared_slot(filled_slot(column, index, value), index)[index] is None,
        cleared_slot(filled_slot(column, index, value), index).len() == filled_slot(column, index, value).len(),
        forall|j: int|
            0 <= j < filled_slot(column, index, value).len() && j != index ==> #[trigger] cleared_slot(filled_slot(column, index, value), index)[j]
                == filled_slot(column, index, value)[j],
{
}

} // verus!

verus! {

/// Entity `id` has a slot filled in both columns.
pub open spec fn has_both<A, B>(first: Seq<Option<A>>, second: Seq<Option<B>>, id: int) -> bool {
    &&& 0 <= id < first.len()
    &&& 0 <= id < second.len()
    &&& first[id] is Some
    &&& second[id] is Some
}

/// The ids of the entities that have a component in both columns, in increasing order.
pub fn ids_with_both<A, B>(first: &Vec<Option<A>>, second: &Vec<Option<B>>) -> (ids: Vec<usize>)
    ensures
        forall|k: int| 0 <= k < ids@.len() ==> has_both(first@, second@, #[trigger] ids@[k] as int),
        forall|k: int, l: int| 0 <= k < l < ids@.len() ==> ids@[k] < ids@[l],
        forall|id: int| has_both(first@, second@, id) ==> #[trigger] ids@.contains(id as usize),
{
    let n = if first.len() < second.len() { first.len() } else { second.len() };
    let mut ids: Vec<usize> = Vec::new();
    for i in 0..n
        invariant
            n <= first@.len(),
            n <= second@.len(),
            n == first@.len() || n == second@.len(),
            forall|k: int| 0 <= k < ids@.len() ==> has_both(first@, second@, #[trigger] ids@[k] as int),
            forall|k: int| 0 <= k < ids@.len() ==> #[trigger] ids@[k] < i,
            forall|k: int, l: int| 0 <= k < l < ids@.len() ==> ids@[k] < ids@[l],
            forall|id: int| 0 <= id < i && has_both(first@, second@, id) ==> #[trigger] ids@.contains(id as usize),
    {
        if first[i].is_some() && second[i].is_some() {
            let ghost prev = ids@;
            ids.push(i);
            proof {
                assert(ids@[prev.len() as int] == i);
                assert forall|id: int| 0 <= id < i + 1 && has_both(first@, second@, id) implies #[trigger] ids@.contains(id as usize) by {
                    if id < i {
                        assert(prev.contains(id as usize));
                        let k = choose|k: int| 0 <= k < prev.len() && prev[k] == id as usize;
                        assert(ids@[k] == id as usize);
                    }
                }
            }
        }
    }
    ids
}

} // verus!
