use skalora_game_engine::resources::asset_manager::{AssetManager, Texture};
use skalora_game_engine::resources::collision_events::CollisionEvents;
use skalora_game_engine::resources::resource_store::ResourceStore;

#[test]
fn resource_insert_then_get() {
    let mut store: ResourceStore<String> = ResourceStore::new();
    assert_eq!(store.get(3), None);
    store.insert(3, "input".to_string());
    store.insert(5, "camera".to_string());
    assert_eq!(store.get(3), Some(&"input".to_string()));
    assert_eq!(store.get(5), Some(&"camera".to_string()));
}

#[test]
fn resource_insert_replaces() {
    let mut store: ResourceStore<u32> = ResourceStore::new();
    store.insert(1, 10);
    store.insert(1, 20);
    assert_eq!(store.get(1), Some(&20));
}

#[test]
fn resource_get_mut_changes_only_that_kind() {
    let mut store: ResourceStore<u32> = ResourceStore::new();
    store.insert(1, 10);
    store.insert(2, 30);
    if let Some(r) = store.get_mut(1) {
        *r += 5;
    }
    assert_eq!(store.get(1), Some(&15));
    assert_eq!(store.get(2), Some(&30));
    assert!(store.get_mut(9).is_none());
}

#[test]
fn collision_events_start_empty() {
    let events = CollisionEvents::default();
    assert!(events.events.is_empty());
}

#[test]
fn first_loaded_texture_stays() {
    let mut assets = AssetManager::new();
    assert!(assets.get_texture("ball.png").is_none());
    let stored = assets.add_texture("ball.png", Texture { image_data: vec![1, 2, 3, 4], width: 1, height: 1 });
    assert_eq!(stored.image_data, vec![1, 2, 3, 4]);
    let stored = assets.add_texture("ball.png", Texture { image_data: vec![9, 9, 9, 9], width: 1, height: 1 });
    assert_eq!(stored.image_data, vec![1, 2, 3, 4]);
    let texture = assets.get_texture("ball.png").unwrap();
    assert_eq!(texture.image_data, vec![1, 2, 3, 4]);
    assert_eq!((texture.width, texture.height), (1, 1));
    assert!(assets.get_texture("paddle.png").is_none());
}
