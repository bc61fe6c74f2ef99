use skalora_game_engine::entities::entity::Entity;
use skalora_game_engine::entities::entity_manager::EntityManager;

#[test]
fn entity_new_keeps_id() {
    assert_eq!(Entity::new(17).id, 17);
}

#[test]
fn fresh_ids_count_up_from_zero() {
    let mut manager = EntityManager::new();
    assert_eq!(manager.create_entity(), 0);
    assert_eq!(manager.create_entity(), 1);
    assert_eq!(manager.create_entity(), 2);
}

#[test]
fn deleted_id_is_reused_first() {
    let mut manager = EntityManager::new();
    let a = manager.create_entity();
    let b = manager.create_entity();
    let c = manager.create_entity();
    manager.delete_entity(b);
    assert_eq!(manager.create_entity(), b);
    assert_eq!(manager.create_entity(), c + 1);
    assert_eq!(a, 0);
}

#[test]
fn most_recently_deleted_id_comes_back_first() {
    let mut manager = EntityManager::new();
    for _ in 0..4 {
        manager.create_entity();
    }
    manager.delete_entity(1);
    manager.delete_entity(3);
    assert_eq!(manager.create_entity(), 3);
    assert_eq!(manager.create_entity(), 1);
    assert_eq!(manager.create_entity(), 4);
}

#[test]
fn deleting_twice_frees_once() {
    let mut manager = EntityManager::new();
    manager.create_entity();
    manager.create_entity();
    manager.delete_entity(0);
    manager.delete_entity(0);
    assert_eq!(manager.create_entity(), 0);
    assert_eq!(manager.create_entity(), 2);
}

#[test]
fn entity_count_follows_creation_and_deletion() {
    let mut manager = EntityManager::new();
    assert_eq!(manager.entity_count(), 0);
    let a = manager.create_entity();
    let b = manager.create_entity();
    manager.create_entity();
    assert_eq!(manager.entity_count(), 3);
    manager.delete_entity(b);
    assert_eq!(manager.entity_count(), 2);
    manager.delete_entity(b);
    assert_eq!(manager.entity_count(), 2);
    manager.delete_entity(a);
    assert_eq!(manager.entity_count(), 1);
    manager.create_entity();
    assert_eq!(manager.entity_count(), 2);
}

#[test]
fn can_create_entity_while_ids_remain() {
    let mut manager = EntityManager::new();
    assert!(manager.can_create_entity());
    manager.create_entity();
    assert!(manager.can_create_entity());
}
