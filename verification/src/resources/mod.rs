pub mod asset_manager;
pub mod collision_events;
pub mod resource_store;
