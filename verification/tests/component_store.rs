use skalora_game_engine::components::component_store::{ids_with_both, ComponentStore, ComponentVec};

#[derive(Debug, PartialEq, Clone)]
struct Position {
    x: f32,
    y: f32,
}

#[derive(Debug, PartialEq, Clone)]
struct Health {
    current: i32,
}

#[derive(Debug, PartialEq, Clone)]
enum TestComponent {
    Position(Position),
    Health(Health),
}

const POSITION: u64 = 0;
const HEALTH: u64 = 1;

#[test]
fn test_component_store_remove_entity() {
    let mut store: ComponentStore<TestComponent> = ComponentStore::new();

    store.register_component(POSITION);
    store.register_component(HEALTH);

    let target_entity = 0;
    let bystander_entity = 1;

    store.add_component(POSITION, target_entity, TestComponent::Position(Position { x: 10.0, y: 20.0 }));
    store.add_component(HEALTH, target_entity, TestComponent::Health(Health { current: 100 }));

    store.add_component(POSITION, bystander_entity, TestComponent::Position(Position { x: 50.0, y: 50.0 }));
    store.add_component(HEALTH, bystander_entity, TestComponent::Health(Health { current: 50 }));

    {
        let positions = store.get_component(POSITION);
        assert!(positions[target_entity as usize].is_some(), "Target position should exist");
        assert!(positions[bystander_entity as usize].is_some(), "Bystander position should exist");
    }

    store.remove_entity(target_entity);

    {
        let positions = store.get_component(POSITION);
        let healths = store.get_component(HEALTH);

        assert_eq!(positions[target_entity as usize], None, "Target's Position was not removed");
        assert_eq!(healths[target_entity as usize], None, "Target's Health was not removed");

        assert_eq!(
            positions[bystander_entity as usize],
            Some(TestComponent::Position(Position { x: 50.0, y: 50.0 })),
            "Bystander's Position was modified unexpectedly!"
        );
        assert_eq!(
            healths[bystander_entity as usize],
            Some(TestComponent::Health(Health { current: 50 })),
            "Bystander's Health was modified unexpectedly!"
        );
    }
}

#[test]
fn test_remove_entity_out_of_bounds() {
    let mut store: ComponentStore<TestComponent> = ComponentStore::new();
    store.register_component(POSITION);
    store.add_component(POSITION, 0, TestComponent::Position(Position { x: 0.0, y: 0.0 }));

    store.remove_entity(999);

    let positions = store.get_component(POSITION);
    assert!(positions[0].is_some(), "Entity 0 should be unaffected by an out-of-bounds removal");
}

#[test]
fn test_remove_component_from_entity() {
    let mut store: ComponentStore<TestComponent> = ComponentStore::new();
    store.register_component(POSITION);
    store.add_component(POSITION, 0, TestComponent::Position(Position { x: 0.0, y: 0.0 }));
    store.add_component(POSITION, 1, TestComponent::Position(Position { x: 0.0, y: 0.0 }));

    store.remove_component(POSITION, 0);

    {
        let positions = store.get_component(POSITION);
        assert!(positions[0].is_none(), "Entity 0 should not have position component");
        assert!(positions[1].is_some(), "Entity 1 should have position component");
    }

    store.remove_component(POSITION, 99);
}

#[test]
fn add_component_pads_column_with_empty_slots() {
    let mut store: ComponentStore<u32> = ComponentStore::new();
    store.add_component(7, 3, 42);
    let column = store.get_component(7);
    assert_eq!(column, &vec![None, None, None, Some(42)]);
}

#[test]
fn add_component_replaces_existing_slot_and_keeps_length() {
    let mut store: ComponentStore<u32> = ComponentStore::new();
    store.add_component(1, 2, 5);
    store.add_component(1, 0, 6);
    store.add_component(1, 2, 9);
    assert_eq!(store.get_component(1), &vec![Some(6), None, Some(9)]);
}

#[test]
fn register_component_keeps_existing_column() {
    let mut store: ComponentStore<u32> = ComponentStore::new();
    store.add_component(4, 1, 11);
    store.register_component(4);
    assert_eq!(store.get_component(4), &vec![None, Some(11)]);
    store.register_component(5);
    assert_eq!(store.get_component(5), &Vec::<Option<u32>>::new());
}

#[test]
fn remove_entity_twice_changes_nothing_more() {
    let mut store: ComponentStore<u32> = ComponentStore::new();
    store.add_component(0, 0, 1);
    store.add_component(0, 1, 2);
    store.add_component(1, 1, 3);
    store.remove_entity(1);
    assert_eq!(store.get_component(0), &vec![Some(1), None]);
    assert_eq!(store.get_component(1), &vec![None, None]);
    store.remove_entity(1);
    assert_eq!(store.get_component(0), &vec![Some(1), None]);
    assert_eq!(store.get_component(1), &vec![None, None]);
}

#[test]
fn remove_component_of_unregistered_kind_changes_nothing() {
    let mut store: ComponentStore<u32> = ComponentStore::new();
    store.add_component(0, 0, 1);
    store.remove_component(3, 0);
    assert_eq!(store.get_component(0), &vec![Some(1)]);
}

#[test]
fn get_component_mut_changes_the_column() {
    let mut store: ComponentStore<u32> = ComponentStore::new();
    store.add_component(2, 0, 1);
    {
        let column = store.get_component_mut(2);
        column.push(Some(8));
    }
    assert_eq!(store.get_component(2), &vec![Some(1), Some(8)]);
}

#[test]
fn column_remove_entity_empties_slot() {
    let mut column: Vec<Option<u8>> = vec![Some(1), Some(2)];
    ComponentVec::remove_entity(&mut column, 1);
    assert_eq!(column, vec![Some(1), None]);
    ComponentVec::remove_entity(&mut column, 5);
    assert_eq!(column, vec![Some(1), None]);
}

#[test]
fn ids_with_both_stops_at_shorter_column() {
    let first: Vec<Option<u8>> = vec![Some(1), None, Some(3), Some(4)];
    let second: Vec<Option<u8>> = vec![Some(1), Some(2), Some(3)];
    assert_eq!(ids_with_both(&first, &second), vec![0, 2]);
}
