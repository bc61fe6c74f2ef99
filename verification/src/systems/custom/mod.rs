pub mod player_movement_system;
pub mod stress_test_system;
