pub mod components;
pub mod entities;
pub mod frame_clock;
pub mod resources;
pub mod systems;
pub mod world;
