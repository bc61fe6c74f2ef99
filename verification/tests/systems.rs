use skalora_game_engine::components::component_store::ComponentStore;
use skalora_game_engine::components::renderable::{PrimitiveTopology, PrimitiveType};
use skalora_game_engine::entities::entity_manager::EntityManager;
use skalora_game_engine::resources::collision_events::{CollisionEvent, CollisionEvents};
use skalora_game_engine::resources::resource_store::ResourceStore;
use skalora_game_engine::systems::camera_system::CameraSystem;
use skalora_game_engine::systems::collision_system::CollisionSystem;
use skalora_game_engine::systems::custom::player_movement_system::PlayerMovementSystem;
use skalora_game_engine::systems::custom::stress_test_system::StressTestSystem;
use skalora_game_engine::systems::input_system::{ElementState, InputState, InputSystem, KeyEvent, PhysicalKey};
use skalora_game_engine::systems::system::System;
use skalora_game_engine::systems::system_manager::SystemManager;
use skalora_game_engine::world::WorldView;

struct Spawner {
    spawned: Vec<u32>,
}

impl System<u32, u32> for Spawner {
    fn update(&mut self, world: &mut WorldView<u32, u32>) {
        let id = world.entity_manager.create_entity();
        world.components.add_component(0, id, 100 + id);
        self.spawned.push(id);
    }
}

#[test]
fn system_manager_runs_systems_in_order() {
    let mut resources: ResourceStore<u32> = ResourceStore::new();
    let mut components: ComponentStore<u32> = ComponentStore::new();
    let mut entity_manager = EntityManager::new();
    let mut manager: SystemManager<Spawner> = SystemManager::new();
    manager.add_system(1, Spawner { spawned: Vec::new() });
    manager.add_system(2, Spawner { spawned: Vec::new() });
    {
        let mut view = WorldView {
            resources: &mut resources,
            components: &mut components,
            entity_manager: &mut entity_manager,
        };
        manager.update(&mut view);
        manager.update(&mut view);
    }
    assert_eq!(manager.get_system(1).unwrap().spawned, vec![0, 2]);
    assert_eq!(manager.get_system(2).unwrap().spawned, vec![1, 3]);
    assert_eq!(components.get_component(0), &vec![Some(100), Some(101), Some(102), Some(103)]);
}

#[test]
fn get_system_finds_first_of_kind() {
    let mut manager: SystemManager<u32> = SystemManager::new();
    manager.add_system(5, 50);
    manager.add_system(6, 60);
    manager.add_system(5, 55);
    assert_eq!(manager.get_system(5), Some(&50));
    assert_eq!(manager.get_system(6), Some(&60));
    assert_eq!(manager.get_system(7), None);
    *manager.get_system_mut(5).unwrap() = 51;
    assert_eq!(manager.get_system(5), Some(&51));
    assert!(manager.get_system_mut(8).is_none());
}

#[test]
fn collision_reports_each_overlapping_pair_once_in_order() {
    let transforms: Vec<Option<i32>> = vec![Some(0), Some(1), None, Some(2), Some(10)];
    let colliders: Vec<Option<i32>> = vec![Some(1), Some(1), Some(1), Some(1)];
    let overlaps = |a: usize, b: usize| {
        let pa = transforms[a].unwrap();
        let pb = transforms[b].unwrap();
        (pa - pb).abs() <= 1
    };
    let mut events = CollisionEvents { events: vec![CollisionEvent { entity_id_a: 9, entity_id_b: 10 }] };
    let mut system = CollisionSystem::new();
    system.detect(&transforms, &colliders, &overlaps, &mut events);
    assert_eq!(
        events.events,
        vec![
            CollisionEvent { entity_id_a: 9, entity_id_b: 10 },
            CollisionEvent { entity_id_a: 0, entity_id_b: 1 },
            CollisionEvent { entity_id_a: 1, entity_id_b: 3 },
        ]
    );
}

#[test]
fn collision_without_candidates_reports_nothing() {
    let transforms: Vec<Option<u8>> = vec![Some(0), None];
    let colliders: Vec<Option<u8>> = vec![None, Some(0)];
    let mut events = CollisionEvents { events: Vec::new() };
    let mut system = CollisionSystem::new();
    system.detect(&transforms, &colliders, &|_a: usize, _b: usize| true, &mut events);
    assert!(events.events.is_empty());
}

#[test]
fn main_camera_is_first_entity_with_both() {
    let system = CameraSystem::new();
    let cameras: Vec<Option<u8>> = vec![None, Some(1), Some(2)];
    let transforms: Vec<Option<u8>> = vec![Some(0), None, Some(2)];
    assert_eq!(system.find_main_camera(&cameras, &transforms), Some(2));
    let none: Vec<Option<u8>> = vec![Some(0), None];
    assert_eq!(system.find_main_camera(&none, &cameras), None);
}

#[test]
fn movement_direction_from_held_keys() {
    let system = PlayerMovementSystem::new();
    let mut input = InputState::new();
    let mut inputs = InputSystem::new();
    let (w, s, a, d) = (10, 11, 12, 13);
    assert_eq!(system.movement_direction(&input, w, s, a, d), (0, 0));
    inputs.handle_keyboard_input(&mut input, &KeyEvent { physical_key: PhysicalKey::Code(w), state: ElementState::Pressed });
    inputs.handle_keyboard_input(&mut input, &KeyEvent { physical_key: PhysicalKey::Code(a), state: ElementState::Pressed });
    assert_eq!(system.movement_direction(&input, w, s, a, d), (-1, 1));
    inputs.handle_keyboard_input(&mut input, &KeyEvent { physical_key: PhysicalKey::Code(s), state: ElementState::Pressed });
    inputs.handle_keyboard_input(&mut input, &KeyEvent { physical_key: PhysicalKey::Code(d), state: ElementState::Pressed });
    assert_eq!(system.movement_direction(&input, w, s, a, d), (0, 0));
}

#[test]
fn stress_test_system_starts_active() {
    let system = StressTestSystem::new(10);
    assert_eq!(system.spawn_rate_per_frame, 10);
    assert!(system.active);
}

#[test]
fn primitive_topologies() {
    assert_eq!(PrimitiveType::Rectangle.topology(), PrimitiveTopology::TriangleList);
    assert_eq!(PrimitiveType::Circle.topology(), PrimitiveTopology::TriangleList);
    assert_eq!(PrimitiveType::Line.topology(), PrimitiveTopology::LineList);
}

#[test]
fn world_counts_frames_and_measures_fps() {
    let mut world: skalora_game_engine::world::World<u32, u32, Spawner> = skalora_game_engine::world::World::new();
    assert!(world.running);
    assert_eq!(world.window_title, "Skalora 2D Game Engine");
    assert!(world.show_debug_title);
    world.systems.add_system(1, Spawner { spawned: Vec::new() });
    world.update(false);
    world.update(false);
    assert_eq!(world.frame_count, 2);
    assert_eq!(world.fps, 0);
    world.update(true);
    assert_eq!(world.fps, 3);
    assert_eq!(world.frame_count, 0);
    assert_eq!(world.components.get_component(0), &vec![Some(100), Some(101), Some(102)]);
}

#[test]
fn world_delete_entity_removes_id_and_components() {
    let mut world: skalora_game_engine::world::World<u32, u32, Spawner> = skalora_game_engine::world::World::new();
    world.systems.add_system(1, Spawner { spawned: Vec::new() });
    world.update(false);
    world.update(false);
    world.delete_entity(0);
    assert_eq!(world.components.get_component(0), &vec![None, Some(101)]);
    assert_eq!(world.entity_manager.entity_count(), 1);
    assert_eq!(world.entity_manager.create_entity(), 0);
}

#[test]
fn world_title_settings() {
    let mut world: skalora_game_engine::world::World<u32, u32, Spawner> = skalora_game_engine::world::World::new();
    assert!(!world.set_window_title("Ping Pong".to_string()));
    assert_eq!(world.window_title, "Ping Pong");
    assert!(world.set_debug_title(false));
    assert!(world.set_window_title("Pong".to_string()));
    assert!(!world.set_debug_title(true));
    assert_eq!(world.window_title, "Pong");
}
