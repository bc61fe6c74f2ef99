use skalora_game_engine::systems::input_system::{
    ElementState, InputState, InputSystem, KeyEvent, MouseButton, PhysicalKey,
};

fn key(code: u32, state: ElementState) -> KeyEvent {
    KeyEvent { physical_key: PhysicalKey::Code(code), state }
}

#[test]
fn press_marks_held_and_just_pressed() {
    let mut input = InputState::new();
    let mut system = InputSystem::new();
    system.handle_keyboard_input(&mut input, &key(7, ElementState::Pressed));
    assert!(input.is_key_held(7));
    assert!(input.is_key_just_pressed(7));
    assert!(!input.is_key_just_released(7));
}

#[test]
fn repeated_press_is_not_just_pressed_again() {
    let mut input = InputState::new();
    let mut system = InputSystem::new();
    system.handle_keyboard_input(&mut input, &key(7, ElementState::Pressed));
    system.update(&mut input);
    system.handle_keyboard_input(&mut input, &key(7, ElementState::Pressed));
    assert!(input.is_key_held(7));
    assert!(!input.is_key_just_pressed(7));
}

#[test]
fn press_and_release_in_one_frame() {
    let mut input = InputState::new();
    let mut system = InputSystem::new();
    system.handle_keyboard_input(&mut input, &key(3, ElementState::Pressed));
    system.handle_keyboard_input(&mut input, &key(3, ElementState::Released));
    assert!(!input.is_key_held(3));
    assert!(input.is_key_just_pressed(3));
    assert!(input.is_key_just_released(3));
}

#[test]
fn frame_end_keeps_held_keys_only() {
    let mut input = InputState::new();
    let mut system = InputSystem::new();
    system.handle_keyboard_input(&mut input, &key(1, ElementState::Pressed));
    system.handle_keyboard_input(&mut input, &key(2, ElementState::Released));
    system.handle_mouse_button(&mut input, ElementState::Pressed, MouseButton::Left);
    system.update(&mut input);
    assert!(input.is_key_held(1));
    assert!(!input.is_key_just_pressed(1));
    assert!(!input.is_key_just_released(2));
    assert!(input.is_mouse_button_held(MouseButton::Left));
    assert!(!input.is_mouse_button_just_pressed(MouseButton::Left));
}

#[test]
fn unidentified_key_changes_nothing() {
    let mut input = InputState::new();
    let mut system = InputSystem::new();
    system.handle_keyboard_input(
        &mut input,
        &KeyEvent { physical_key: PhysicalKey::Unidentified, state: ElementState::Pressed },
    );
    assert!(input.held_keys.is_empty());
    assert!(input.just_pressed_keys.is_empty());
}

#[test]
fn mouse_buttons_are_tracked_separately() {
    let mut input = InputState::new();
    let mut system = InputSystem::new();
    system.handle_mouse_button(&mut input, ElementState::Pressed, MouseButton::Other(2));
    assert!(input.is_mouse_button_held(MouseButton::Other(2)));
    assert!(!input.is_mouse_button_held(MouseButton::Other(1)));
    assert!(!input.is_mouse_button_held(MouseButton::Middle));
    system.handle_mouse_button(&mut input, ElementState::Released, MouseButton::Other(2));
    assert!(!input.is_mouse_button_held(MouseButton::Other(2)));
    assert!(input.is_mouse_button_just_released(MouseButton::Other(2)));
    assert!(input.is_mouse_button_just_pressed(MouseButton::Other(2)));
    assert!(!input.is_key_held(0));
}

#[test]
fn button_codes() {
    assert_eq!(MouseButton::Left.code(), 0);
    assert_eq!(MouseButton::Forward.code(), 4);
    assert_eq!(MouseButton::Other(0).code(), 5);
    assert_eq!(MouseButton::Other(10).code(), 15);
}

#[test]
fn just_pressed_only_for_a_press_while_up() {
    let mut input = InputState::new();
    let mut system = InputSystem::new();
    system.handle_keyboard_input(&mut input, &key(4, ElementState::Pressed));
    system.handle_keyboard_input(&mut input, &key(5, ElementState::Pressed));
    system.update(&mut input);
    // 4 is held and repeats: not a press while up.
    system.handle_keyboard_input(&mut input, &key(4, ElementState::Pressed));
    // 5 goes up and down again within the frame: a press while up.
    system.handle_keyboard_input(&mut input, &key(5, ElementState::Released));
    system.handle_keyboard_input(&mut input, &key(5, ElementState::Pressed));
    // 6 was never pressed.
    system.handle_keyboard_input(&mut input, &key(6, ElementState::Released));
    assert!(!input.is_key_just_pressed(4));
    assert!(input.is_key_just_pressed(5));
    assert!(!input.is_key_just_pressed(6));
    assert!(input.is_key_held(4));
    assert!(input.is_key_held(5));
    assert!(!input.is_key_held(6));
}
