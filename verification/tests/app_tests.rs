//! Top-level run decisions: resize, frames, input routing, command line.
use asterism::app::{
    clamp_frame_delta, menu_choice_from_key, parse_args, route_input, AppState, CliRequest, FrameFailure, LoopStep,
    SceneStatus, FIRST_FRAME_DELTA_NANOS, MAX_FRAME_DELTA_NANOS,
};
use asterism::input_manager::{ElementState, GameAction, InputEvent, InputKey, InputManager};

fn args(words: &[&str]) -> Vec<String> {
    words.iter().map(|w| w.to_string()).collect()
}

/// AC02 补充 — resize(0, 0) 触发最小化。
#[test]
fn ac02_resize_zero_sets_minimized() {
    let mut app = AppState::new();
    assert_eq!(app.handle_resize(0, 0), None);
    assert!(app.is_minimized(), "0×0 resize 应设置 is_minimized");
    assert_eq!(app.handle_resize(1920, 1080), Some((1920, 1080)));
    assert!(!app.is_minimized(), "恢复后 is_minimized 应为 false");
}

/// AC03 — 最小化时不执行渲染。
#[test]
fn ac03_minimized_skips_render() {
    let mut app = AppState::new();
    app.handle_resize(0, 720);
    assert!(app.begin_frame().is_none());
    app.handle_resize(1280, 720);
    assert!(app.begin_frame().is_some());
}

/// AC03 补充 — 首帧时间步长为 16ms。
#[test]
fn ac03_no_gpu_render_safe() {
    let mut app = AppState::new();
    let plan = app.begin_frame().expect("not minimized");
    assert_eq!(plan.delta_nanos, FIRST_FRAME_DELTA_NANOS);
    assert_eq!(plan.resize, None);
    let second = app.begin_frame().expect("not minimized");
    assert!(second.delta_nanos <= MAX_FRAME_DELTA_NANOS);
}

/// AC04 — 关闭窗口后 is_running 为 false。
#[test]
fn ac04_close_requested_sets_running_false() {
    let mut app = AppState::new();
    assert!(app.is_running(), "初始 is_running 应为 true");
    app.stop();
    assert!(!app.is_running());
    let app2 = AppState::new();
    assert!(app2.is_running());
    assert_eq!(app2.target_fps(), 60);
}

/// 验证 InputManager 可用：关闭窗口映射为 Quit。
#[test]
fn input_manager_available_after_open() {
    let mut input = InputManager::new();
    let result = route_input(&mut input, &InputEvent::CloseRequested, "");
    assert_eq!(result.0, GameAction::Quit);
}

/// 验证数字键菜单选择的特殊处理。
#[test]
fn process_input_handles_menu_keys() {
    let mut input = InputManager::new();
    let event = InputEvent::KeyboardInput { key: InputKey::Other, state: ElementState::Pressed, repeat: false };
    let result = route_input(&mut input, &event, "3");
    assert_eq!(result.0, GameAction::NoOp);
    assert_eq!(result.1, Some(2));
}

#[test]
fn menu_keys_read_as_whole_numbers() {
    assert_eq!(menu_choice_from_key(true, "1"), Some(0));
    assert_eq!(menu_choice_from_key(true, "9"), Some(8));
    assert_eq!(menu_choice_from_key(true, "+4"), Some(3));
    assert_eq!(menu_choice_from_key(true, "007"), Some(6));
    assert_eq!(menu_choice_from_key(true, "0"), None);
    assert_eq!(menu_choice_from_key(true, "10"), None);
    assert_eq!(menu_choice_from_key(true, "+"), None);
    assert_eq!(menu_choice_from_key(true, "a"), None);
    assert_eq!(menu_choice_from_key(true, ""), None);
    assert_eq!(menu_choice_from_key(false, "3"), None);
}

#[test]
fn enter_goes_through_the_input_mapping() {
    let mut input = InputManager::new();
    let event = InputEvent::KeyboardInput { key: InputKey::Enter, state: ElementState::Pressed, repeat: false };
    assert_eq!(route_input(&mut input, &event, ""), (GameAction::Advance, None));
    let released = InputEvent::KeyboardInput { key: InputKey::Other, state: ElementState::Released, repeat: false };
    assert_eq!(route_input(&mut input, &released, "3"), (GameAction::NoOp, None));
}

#[test]
fn frame_failures() {
    let mut app = AppState::new();
    app.frame_failed(FrameFailure::Timeout, Some((800, 600)));
    assert!(app.is_running());
    assert_eq!(app.take_pending_resize(), None);
    app.frame_failed(FrameFailure::Outdated, Some((800, 600)));
    let plan = app.begin_frame().expect("plan");
    assert_eq!(plan.resize, Some((800, 600)));
    assert_eq!(app.take_pending_resize(), None);
    app.frame_failed(FrameFailure::Lost, None);
    assert!(!app.is_running());
    let mut app2 = AppState::new();
    app2.frame_failed(FrameFailure::OutOfMemory, None);
    assert!(!app2.is_running());
}

#[test]
fn pending_zero_resize_minimizes() {
    let mut app = AppState::new();
    app.frame_failed(FrameFailure::Outdated, Some((0, 0)));
    let plan = app.begin_frame().expect("plan");
    assert_eq!(plan.resize, None);
    assert!(app.is_minimized());
    assert!(app.begin_frame().is_none());
}

#[test]
fn frame_delta_is_clamped() {
    assert_eq!(clamp_frame_delta(None), 16_000_000);
    assert_eq!(clamp_frame_delta(Some(5_000_000)), 5_000_000);
    assert_eq!(clamp_frame_delta(Some(100_000_000)), 100_000_000);
    assert_eq!(clamp_frame_delta(Some(3_000_000_000)), 100_000_000);
}

#[test]
fn actions_and_scene_states() {
    let mut app = AppState::new();
    assert_eq!(app.on_action(GameAction::Advance), LoopStep::AdvanceScene);
    assert_eq!(app.on_action(GameAction::Skip), LoopStep::Nothing);
    assert!(app.is_running());
    assert!(app.advance(SceneStatus::Playing));
    assert!(app.advance(SceneStatus::Paused));
    assert!(!app.advance(SceneStatus::AtMenu));
    assert!(app.is_running());
    assert!(!app.advance(SceneStatus::Ended));
    assert!(!app.is_running());
    let mut app2 = AppState::new();
    assert_eq!(app2.on_action(GameAction::OpenMenu), LoopStep::Exit);
    assert!(!app2.is_running());
}

#[test]
fn command_line_arguments() {
    assert_eq!(parse_args(&args(&["aster", "--project", "games/demo"])), CliRequest::Project("games/demo".to_string()));
    assert_eq!(parse_args(&args(&["aster", "-x", "-p", "p2"])), CliRequest::Project("p2".to_string()));
    assert_eq!(parse_args(&args(&["aster", "-h", "--project", "a"])), CliRequest::Help);
    assert_eq!(parse_args(&args(&["aster", "--project"])), CliRequest::UseDefault);
    assert_eq!(parse_args(&args(&["aster"])), CliRequest::UseDefault);
    assert_eq!(parse_args(&args(&[])), CliRequest::UseDefault);
    assert_eq!(parse_args(&args(&["--help"])), CliRequest::UseDefault);
}

#[test]
fn menu_choices_only_at_menus() {
    assert!(asterism::app::accepts_menu_choice(SceneStatus::AtMenu));
    assert!(!asterism::app::accepts_menu_choice(SceneStatus::Playing));
    assert!(!asterism::app::accepts_menu_choice(SceneStatus::Ended));
}
