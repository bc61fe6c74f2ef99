use vstd::prelude::*;

use crate::components::component_store::ComponentStore;
use crate::entities::entity_manager::EntityManager;
use crate::resources::resource_store::ResourceStore;
use crate::systems::system::System;
use crate::systems::system_manager::{ran_in_order, SystemManager};

verus! {

/// What a system may read and change during one tick: the resources, the
/// components and the entity ids.
pub struct WorldView<'a, C, R> {
    pub resources: &'a mut ResourceStore<R>,
    pub components: &'a mut ComponentStore<C>,
    pub entity_manager: &'a mut EntityManager,
}

/// The state of the world that a system sees: the resources, the component
/// columns, and the entity manager's counter and freed ids.
pub struct WorldSnapshot<C, R> {
    pub resources: Map<u64, R>,
    pub components: Map<u64, Seq<Option<C>>>,
    pub next_fresh: u32,
    pub free_list: Seq<u32>,
}

/// The state of the world that `world` gives access to.
pub open spec fn world_snapshot<'a, C, R>(world: &WorldView<'a, C, R>) -> WorldSnapshot<C, R> {
    WorldSnapshot {
        resources: (*world.resources)@,
        components: (*world.components)@,
        next_fresh: world.entity_manager.next_fresh(),
        free_list: world.entity_manager.free_list(),
    }
}

/// The state of a running game: its resources, systems, components and
/// entities, the frame-rate counter and the window title settings.
pub struct World<C, R, S> {
    pub running: bool,
    pub resources: ResourceStore<R>,
    pub systems: SystemManager<S>,
    pub next_id: u32,
    pub components: ComponentStore<C>,
    pub entity_manager: EntityManager,
    pub fps: u32,
    pub frame_count: u32,
    pub window_title: String,
    pub show_debug_title: bool,
}

impl<C, R, S> World<C, R, S> {
    /// The state of the world that its systems see.
    pub open spec fn snapshot(&self) -> WorldSnapshot<C, R> {
        WorldSnapshot {
            resources: self.resources@,
            components: self.components@,
            next_fresh: self.entity_manager.next_fresh(),
            free_list: self.entity_manager.free_list(),
        }
    }

    /// A running world with no resource, system, component or entity, the
    /// default title, and the frame-rate shown in the title.
    pub fn new() -> (world: Self)
        ensures
            world.running,
            world.resources@ == Map::<u64, R>::empty(),
            world.systems@ == Seq::<(u64, S)>::empty(),
            world.next_id == 0,
            world.components@ == Map::<u64, Seq<Option<C>>>::empty(),
            world.entity_manager.next_fresh() == 0,
            world.entity_manager.free_list() == Seq::<u32>::empty(),
            world.fps == 0,
            world.frame_count == 0,
            world.window_title@ == "Skalora 2D Game Engine"@,
            world.show_debug_title,
    {
        World {
            running: true,
            resources: ResourceStore::new(),
            systems: SystemManager::new(),
            next_id: 0,
            components: ComponentStore::new(),
            entity_manager: EntityManager::new(),
            fps: 0,
            frame_count: 0,
            window_title: "Skalora 2D Game Engine".to_owned(),
            show_debug_title: true,
        }
    }

    /// Runs one tick: every system once, in order, each on the world as the
    /// previous one left it, then counts the update.
    /// When a second has passed since the last measurement (`second_elapsed`),
    /// the count becomes the frame rate and counting starts over.
    pub fn update(&mut self, second_elapsed: bool)
        where
            S: System<C, R>,
        requires
            old(self).frame_count < u32::MAX,
        ensures
            ran_in_order(old(self).systems@, final(self).systems@, old(self).snapshot(), final(self).snapshot()),
            second_elapsed ==> final(self).fps == old(self).frame_count + 1 && final(self).frame_count == 0,
            !second_elapsed ==> final(self).fps == old(self).fps && final(self).frame_count == old(self).frame_count + 1,
            final(self).running == old(self).running,
            final(self).next_id == old(self).next_id,
            final(self).window_title == old(self).window_title,
            final(self).show_debug_title == old(self).show_debug_title,
    {
        let mut view = WorldView {
            resources: &mut self.resources,
            components: &mut self.components,
            entity_manager: &mut self.entity_manager,
        };
        let ghost start = world_snapshot(&view);
        self.systems.update(&mut view);
        let ghost end = world_snapshot(&view);
        proof {
            assert(start == old(self).snapshot());
            assert(end == self.snapshot());
        }
        self.frame_count = self.frame_count + 1;
        if second_elapsed {
            self.fps = self.frame_count;
            self.frame_count = 0;
        }
    }

    /// Deletes an entity: its id goes back to the entity manager and all its
    /// components are removed.
    pub fn delete_entity(&mut self, entity_id: u32)
        ensures
            old(self).entity_manager.deletes(final(self).entity_manager, entity_id),
            crate::components::component_store::removes_entity(old(self).components@, final(self).components@, entity_id as int),
            final(self).resources@ == old(self).resources@,
            final(self).systems@ == old(self).systems@,
            final(self).running == old(self).running,
            final(self).next_id == old(self).next_id,
            final(self).fps == old(self).fps,
            final(self).frame_count == old(self).frame_count,
            final(self).window_title == old(self).window_title,
            final(self).show_debug_title == old(self).show_debug_title,
    {
        self.entity_manager.delete_entity(entity_id);
        self.components.remove_entity(entity_id);
    }

    /// Sets the window title; returns whether the window must show it now,
    /// which it must unless the title shows the debug line.
    pub fn set_window_title(&mut self, title: String) -> (show_now: bool)
        ensures
            final(self).window_title == title,
            final(self).show_debug_title == old(self).show_debug_title,
            show_now == !old(self).show_debug_title,
    {
        self.window_title = title;
        !self.show_debug_title
    }

    /// Turns the debug line of the title on or off; returns whether the window
    /// must show the plain title now, which it must when the debug line goes off.
    pub fn set_debug_title(&mut self, enabled: bool) -> (show_title_now: bool)
        ensures
            final(self).show_debug_title == enabled,
            final(self).window_title == old(self).window_title,
            show_title_now == !enabled,
    {
        self.show_debug_title = enabled;
        !enabled
    }
}

} // verus!

verus! {

use crate::components::component_store::{cleared_slot, removes_entity};

/// Deleting an entity, that is giving its id back to the entity manager and
/// removing it from the component store, leaves the id not live and without
/// any component, while every other id keeps its liveness and its components.
pub proof fn law_deleted_entity_is_gone<C>(
    ids_before: EntityManager,
    ids_after: EntityManager,
    components_before: Map<u64, Seq<Option<C>>>,
    components_after: Map<u64, Seq<Option<C>>>,
    id: u32,
)
    requires
        ids_before.deletes(ids_after, id),
        removes_entity(components_before, components_after, id as int),
    ensures
        !ids_after.is_live(id),
        forall|other: u32| other != id ==> #[trigger] ids_after.is_live(other) == ids_before.is_live(other),
        forall|k: u64| components_after.contains_key(k) && (id as int) < components_after[k].len() ==> (
            #[trigger] components_after[k])[id as int] is None,
        forall|k: u64, e: int|
            components_before.contains_key(k) && 0 <= e < components_before[k].len() && e != id ==> #[trigger] components_after[k][e]
                == components_before[k][e],
{
    assert(ids_after.free_list().contains(id)) by {
        if !ids_before.free_list().contains(id) {
            assert(ids_after.free_list()[ids_before.free_list().len() as int] == id);
        }
    }
    assert forall|other: u32| other != id implies #[trigger] ids_after.is_live(other) == ids_before.is_live(other) by {
        let s = ids_before.free_list();
        let t = ids_after.free_list();
        if !s.contains(id) {
            if s.contains(other) {
                let j = choose|j: int| 0 <= j < s.len() && s[j] == other;
                assert(t[j] == other);
            }
            if t.contains(other) {
                let j = choose|j: int| 0 <= j < t.len() && t[j] == other;
                assert(j != s.len());
                assert(s[j] == other);
            }
        }
    }
    assert forall|k: u64| components_after.contains_key(k) && (id as int) < components_after[k].len() implies (
        #[trigger] components_after[k])[id as int] is None by {
        assert(components_before.contains_key(k));
        assert(components_after[k] == cleared_slot(components_before[k], id as int));
    }
    assert forall|k: u64, e: int|
        components_before.contains_key(k) && 0 <= e < components_before[k].len() && e != id implies #[trigger] components_after[k][e]
            == components_before[k][e] by {
        assert(components_after[k] == cleared_slot(components_before[k], id as int));
    }
}

} // verus!
