pub mod camera_system;
pub mod collision_system;
pub mod custom;
pub mod input_system;
pub mod system;
pub mod system_manager;
pub mod velocity_system;
pub mod render_system;
