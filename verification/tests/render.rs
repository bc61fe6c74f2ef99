use std::collections::HashSet;

use skalora_game_engine::systems::render_system::{
    circle_indices, line_indices, plan_buffers, rectangle_indices, BufferAction,
};

#[test]
fn rectangle_is_two_triangles() {
    assert_eq!(rectangle_indices(), vec![0, 1, 2, 0, 2, 3]);
}

#[test]
fn line_joins_two_points() {
    assert_eq!(line_indices(), vec![0, 1]);
}

#[test]
fn circle_fan_closes_on_first_rim_point() {
    assert_eq!(circle_indices(4), vec![0, 1, 2, 0, 2, 3, 0, 3, 4, 0, 4, 1]);
    let sixteen = circle_indices(16);
    assert_eq!(sixteen.len(), 48);
    assert!(sixteen.iter().all(|&k| k < 18));
    assert_eq!(&sixteen[45..], &[0, 16, 1]);
}

#[test]
fn circle_without_segments_has_no_triangles() {
    assert!(circle_indices(0).is_empty());
}

#[test]
fn buffers_are_made_once_and_then_rewritten() {
    let mut cached: HashSet<u32> = HashSet::new();
    cached.insert(9);
    let drawn: Vec<(u32, bool)> = vec![(3, true), (4, false), (9, true), (3, true), (4, true)];
    assert_eq!(
        plan_buffers(&drawn, &cached),
        vec![
            BufferAction::Create,
            BufferAction::Skip,
            BufferAction::Rewrite,
            BufferAction::Rewrite,
            BufferAction::Create,
        ]
    );
    assert_eq!(plan_buffers(&vec![], &cached), vec![]);
}
