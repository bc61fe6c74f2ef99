pub mod component_manager;
pub mod component_store;
pub mod renderable;
pub mod tag;
