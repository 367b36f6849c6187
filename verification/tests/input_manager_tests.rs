//! Input mapping and debounce scenarios.
use asterism::input_manager::{
    ElementState, GameAction, InputEvent, InputKey, InputManager, MouseButton, DEFAULT_DEBOUNCE_NANOS,
};

fn make_key_pressed(key: InputKey) -> InputEvent {
    InputEvent::KeyboardInput { key, state: ElementState::Pressed, repeat: false }
}

fn make_key_released(key: InputKey) -> InputEvent {
    InputEvent::KeyboardInput { key, state: ElementState::Released, repeat: false }
}

fn make_mouse_pressed(button: MouseButton) -> InputEvent {
    InputEvent::MouseInput { state: ElementState::Pressed, button }
}

#[test]
fn test_ac01_mouse_left_press_maps_to_advance() {
    let mut im = InputManager::new();
    assert_eq!(im.process_event(&make_mouse_pressed(MouseButton::Left)), GameAction::Advance);
}

#[test]
fn test_ac02_enter_press_maps_to_advance() {
    let mut im = InputManager::new();
    assert_eq!(im.process_event(&make_key_pressed(InputKey::Enter)), GameAction::Advance);
}

#[test]
fn test_ac02_space_press_maps_to_advance() {
    let mut im = InputManager::new();
    assert_eq!(im.process_event(&make_key_pressed(InputKey::Space)), GameAction::Advance);
}

#[test]
fn test_ac03_same_key_debounced() {
    let mut im = InputManager::new();
    assert_eq!(im.process_event(&make_key_pressed(InputKey::Enter)), GameAction::Advance);
    assert_eq!(im.process_event(&make_key_pressed(InputKey::Enter)), GameAction::NoOp);
}

#[test]
fn test_ac04_different_keys_not_debounced() {
    let mut im = InputManager::new();
    assert_eq!(im.process_event(&make_key_pressed(InputKey::Enter)), GameAction::Advance);
    assert_eq!(im.process_event(&make_key_pressed(InputKey::Space)), GameAction::Advance);
}

#[test]
fn test_ac04_keyboard_and_mouse_not_debounced() {
    let mut im = InputManager::new();
    assert_eq!(im.process_event(&make_key_pressed(InputKey::Enter)), GameAction::Advance);
    assert_eq!(im.process_event(&make_mouse_pressed(MouseButton::Left)), GameAction::Advance);
}

#[test]
fn test_ac05_close_requested_maps_to_quit() {
    let mut im = InputManager::new();
    assert_eq!(im.process_event(&InputEvent::CloseRequested), GameAction::Quit);
}

#[test]
fn test_escape_maps_to_open_menu() {
    let mut im = InputManager::new();
    assert_eq!(im.process_event(&make_key_pressed(InputKey::Escape)), GameAction::OpenMenu);
}

#[test]
fn test_key_release_returns_none() {
    let mut im = InputManager::new();
    assert_eq!(im.process_event(&make_key_released(InputKey::Enter)), GameAction::NoOp);
}

#[test]
fn test_mouse_release_returns_none() {
    let mut im = InputManager::new();
    let ev = InputEvent::MouseInput { state: ElementState::Released, button: MouseButton::Left };
    assert_eq!(im.process_event(&ev), GameAction::NoOp);
}

#[test]
fn test_key_repeat_returns_none() {
    let mut im = InputManager::new();
    let ev = InputEvent::KeyboardInput { key: InputKey::Enter, state: ElementState::Pressed, repeat: true };
    assert_eq!(im.process_event(&ev), GameAction::NoOp);
}

#[test]
fn test_unmapped_key_returns_none() {
    let mut im = InputManager::new();
    assert_eq!(im.process_event(&make_key_pressed(InputKey::Other)), GameAction::NoOp);
}

#[test]
fn test_close_requested_not_debounced() {
    let mut im = InputManager::new();
    assert_eq!(im.process_event(&InputEvent::CloseRequested), GameAction::Quit);
    assert_eq!(im.process_event(&InputEvent::CloseRequested), GameAction::Quit);
}

#[test]
fn test_input_manager_default() {
    let im = InputManager::new();
    assert_eq!(im.debounce_interval_nanos(), 200_000_000);
    assert_eq!(DEFAULT_DEBOUNCE_NANOS, 200_000_000);
}

#[test]
fn debounce_expires_after_interval() {
    let mut im = InputManager::new();
    let ev = make_key_pressed(InputKey::Enter);
    assert_eq!(im.process_event_at(&ev, 1_000), GameAction::Advance);
    assert_eq!(im.process_event_at(&ev, 1_000 + 199_999_999), GameAction::NoOp);
    assert_eq!(im.process_event_at(&ev, 1_000 + 200_000_000), GameAction::Advance);
    // a swallowed press does not restart the timer
    assert_eq!(im.process_event_at(&ev, 1_000 + 300_000_000), GameAction::NoOp);
    assert_eq!(im.process_event_at(&ev, 1_000 + 400_000_000), GameAction::Advance);
}

#[test]
fn right_button_is_unbound() {
    let mut im = InputManager::new();
    assert_eq!(im.process_event(&make_mouse_pressed(MouseButton::Right)), GameAction::NoOp);
    assert_eq!(im.process_event(&InputEvent::Other), GameAction::NoOp);
}

#[test]
fn same_mouse_button_is_debounced() {
    let mut im = InputManager::new();
    let ev = make_mouse_pressed(MouseButton::Left);
    assert_eq!(im.process_event_at(&ev, 0), GameAction::Advance);
    assert_eq!(im.process_event_at(&ev, 150_000_000), GameAction::NoOp);
    assert_eq!(im.process_event_at(&ev, 200_000_000), GameAction::Advance);
}

#[test]
fn mouse_then_key_within_interval_both_fire() {
    let mut im = InputManager::new();
    assert_eq!(im.process_event_at(&make_mouse_pressed(MouseButton::Left), 0), GameAction::Advance);
    assert_eq!(im.process_event_at(&make_key_pressed(InputKey::Space), 1), GameAction::Advance);
    assert_eq!(im.process_event_at(&make_mouse_pressed(MouseButton::Left), 2), GameAction::NoOp);
}
