use skalora_game_engine::frame_clock::{fixed_update_steps, FPS, FRAME_DURATION_NANOS};

#[test]
fn frame_duration_is_a_sixtieth_of_a_second() {
    assert_eq!(FPS, 60);
    assert_eq!(FRAME_DURATION_NANOS, 16_666_666);
    assert_eq!(FRAME_DURATION_NANOS, 1_000_000_000 / FPS as u64);
}

#[test]
fn no_update_before_a_whole_frame() {
    assert_eq!(fixed_update_steps(16_666_665, FRAME_DURATION_NANOS), (0, 16_666_665));
}

#[test]
fn whole_frames_are_run_and_the_rest_carries_over() {
    assert_eq!(fixed_update_steps(16_666_666, FRAME_DURATION_NANOS), (1, 0));
    assert_eq!(fixed_update_steps(50_000_000, FRAME_DURATION_NANOS), (3, 2));
    assert_eq!(fixed_update_steps(0, 7), (0, 0));
}
