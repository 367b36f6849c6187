//! Command bridge scenarios: the recording mock renderer and the calls that
//! engine commands turn into.
use asterism::command_bridge::{
    dispatch, resolve_audio_path, AudioCall, BridgeCall, EngineCommand, MockRenderer, RendererCall,
};
use asterism::game_context::GameContext;
use asterism::game_manifest::{
    AssetId, Character, Game, GameManifest, GameSettings, Position, Resolution, TextSpeed,
};
use asterism::ui_command::UiCommand;

fn make_empty_ctx() -> GameContext<()> {
    GameContext::new(
        GameManifest {
            project: Game {
                name: "t".into(),
                version: "0.1".into(),
                entry_scene: "p".into(),
                resolution: Resolution { width: 1920, height: 1080 },
                settings: GameSettings { language: "zh-CN".into(), text_speed: TextSpeed::Normal },
            },
            characters: vec![],
            scenes: vec![],
        },
        vec![],
        "p".into(),
    )
}

fn make_ctx_with_sayori() -> GameContext<()> {
    let mut ctx = make_empty_ctx();
    ctx.characters.push(Character {
        id: "sayori".into(),
        name: "小百合".into(),
        display_color: "#F8BBD0".into(),
        description: None,
        birthday: None,
        default_position: Position::Center,
        sprites: vec![("default".into(), AssetId(1)), ("smile".into(), AssetId(2))],
        has_voice: false,
    });
    ctx
}

/// Carries out a bridge call on an optional mock renderer, as the runtime's
/// dispatcher does, and returns the jump target of a `Goto`.
fn run(call: &BridgeCall, renderer: Option<&mut MockRenderer>) -> Option<(String, String)> {
    match call {
        BridgeCall::Renderer(rc) => {
            if let Some(r) = renderer {
                match rc {
                    RendererCall::SetBackground { path } => r.set_background(path),
                    RendererCall::ShowCharacter { char_id, sprite_path, position } => {
                        r.show_character(char_id, sprite_path, *position)
                    }
                    RendererCall::HideCharacter { char_id } => r.hide_character(char_id),
                    RendererCall::MoveCharacter { char_id, position } => r.move_character(char_id, *position),
                    RendererCall::SetEmotion { char_id, sprite_path } => r.set_emotion(char_id, sprite_path),
                    RendererCall::ShowSprite { path } => r.record_call(format!(
                        "show_sprite(\"{}\", x={}, y={}, s={}, a={})",
                        path, 0.5f32, 0.5f32, 1.0f32, 1.0f32
                    )),
                    RendererCall::HideSprite { path } => r.hide_sprite(path),
                    RendererCall::SetDialogue { speaker, text } => r.set_dialogue(speaker, text),
                    RendererCall::SetNarration { text } => r.set_narration(text),
                    RendererCall::Wait { duration_ms } => r.wait(*duration_ms),
                    RendererCall::Effect { effect_type, params } => r.effect(effect_type, params),
                }
            }
            None
        }
        BridgeCall::Goto { scene, label } => Some((scene.clone(), label.clone())),
        _ => None,
    }
}

#[test]
fn mock_records_calls() {
    let mut m = MockRenderer::new();
    m.set_background("b");
    m.set_dialogue("s", "t");
    assert_eq!(m.call_count(), 2);
}

#[test]
fn mock_clear() {
    let mut m = MockRenderer::new();
    m.set_background("b");
    m.clear();
    assert_eq!(m.call_count(), 0);
}

#[test]
fn dispatch_bg() {
    let ctx = make_empty_ctx();
    let mut m = MockRenderer::new();
    let cmd = EngineCommand::SetBg { asset: "bg.png".into(), trans_kind_idx: 0xFFFF, dur_reg: 0xFF };
    assert!(run(&dispatch(&cmd, &ctx), Some(&mut m)).is_none());
    assert!(m.has_call_containing("bg.png"));
    assert_eq!(m.last_call(), "set_background(\"assets/bg/bg.png.png\")");
}

#[test]
fn dispatch_dialogue() {
    let ctx = make_empty_ctx();
    let mut m = MockRenderer::new();
    let cmd = EngineCommand::SetDialogue { speaker: "S".into(), text: "hi".into(), voice: String::new() };
    run(&dispatch(&cmd, &ctx), Some(&mut m));
    assert!(m.has_call_containing("speaker=\"S\""));
}

#[test]
fn dispatch_narration() {
    let ctx = make_empty_ctx();
    let mut m = MockRenderer::new();
    run(&dispatch(&EngineCommand::SetNarration { text: "春".into() }, &ctx), Some(&mut m));
    assert!(m.has_call_containing("set_narration"));
}

#[test]
fn dispatch_hide() {
    let ctx = make_empty_ctx();
    let mut m = MockRenderer::new();
    let cmd = EngineCommand::HideChar { char_id: "s".into(), trans_kind_idx: 0, dur_reg: 0 };
    run(&dispatch(&cmd, &ctx), Some(&mut m));
    assert!(m.has_call_containing("hide_character"));
}

#[test]
fn dispatch_goto() {
    let ctx = make_empty_ctx();
    let mut m = MockRenderer::new();
    let cmd = EngineCommand::Goto { scene: "sc".into(), label: "lb".into() };
    let r = run(&dispatch(&cmd, &ctx), Some(&mut m));
    assert_eq!(r, Some(("sc".into(), "lb".into())));
}

#[test]
fn dispatch_goto_empty_label() {
    let ctx = make_empty_ctx();
    let mut m = MockRenderer::new();
    let cmd = EngineCommand::Goto { scene: "p".into(), label: String::new() };
    let r = run(&dispatch(&cmd, &ctx), Some(&mut m));
    assert_eq!(r, Some(("p".into(), String::new())));
}

/// AC01 — PlayBgm 路由到音频系统的 play_bgm。
#[test]
fn ac01_dispatch_play_bgm() {
    let ctx = make_empty_ctx();
    let cmd = EngineCommand::PlayBgm { asset: "bgm/theme.ogg".into(), fade_reg: 0xFF, looping: true };
    match dispatch(&cmd, &ctx) {
        BridgeCall::Audio(AudioCall::PlayBgm { path, looping, fade_reg }) => {
            assert!(path.contains("bgm/theme.ogg"));
            assert_eq!(path, "assets/bgm/bgm/theme.ogg");
            assert!(looping);
            assert_eq!(fade_reg, 0xFF);
        }
        other => panic!("应调用 play_bgm，实际: {:?}", other),
    }
}

/// AC02 — StopBgm 路由到 stop_bgm。
#[test]
fn ac02_dispatch_stop_bgm() {
    let ctx = make_empty_ctx();
    let call = dispatch(&EngineCommand::StopBgm { fade_reg: 0xFF }, &ctx);
    assert_eq!(call, BridgeCall::Audio(AudioCall::StopBgm { fade_reg: 0xFF }));
}

/// AC03 — PlaySe 路由到 play_se。
#[test]
fn ac03_dispatch_play_se() {
    let ctx = make_empty_ctx();
    let call = dispatch(&EngineCommand::PlaySe { asset: "se/click.ogg".into(), fade_reg: 0xFF }, &ctx);
    match call {
        BridgeCall::Audio(AudioCall::PlaySe { path, .. }) => assert!(path.contains("se/click.ogg")),
        other => panic!("应调用 play_se，实际: {:?}", other),
    }
}

/// AC04 — PlayVoice 不调用任何音频方法。
#[test]
fn ac04_play_voice_remains_stub() {
    let ctx = make_empty_ctx();
    let call = dispatch(&EngineCommand::PlayVoice { asset: "voice/line01.ogg".into() }, &ctx);
    assert!(!matches!(call, BridgeCall::Audio(_)), "PlayVoice 不应调用任何音频方法");
}

/// 音频命令不涉及渲染器。
#[test]
fn audio_no_panic_without_audio() {
    let ctx = make_empty_ctx();
    let mut m = MockRenderer::new();
    for cmd in [
        EngineCommand::PlayBgm { asset: "b.ogg".into(), fade_reg: 0, looping: true },
        EngineCommand::StopBgm { fade_reg: 0 },
        EngineCommand::PlaySe { asset: "s.ogg".into(), fade_reg: 0 },
        EngineCommand::PlayVoice { asset: "v.ogg".into() },
    ] {
        run(&dispatch(&cmd, &ctx), Some(&mut m));
    }
    assert_eq!(m.call_count(), 0);
}

#[test]
fn without_renderer() {
    let ctx = make_empty_ctx();
    let cmd = EngineCommand::SetBg { asset: "b.png".into(), trans_kind_idx: 0, dur_reg: 0 };
    run(&dispatch(&cmd, &ctx), None);
}

#[test]
fn error_no_panic() {
    let ctx = make_empty_ctx();
    let mut m = MockRenderer::new();
    run(&dispatch(&EngineCommand::Error { message: "e".into() }, &ctx), Some(&mut m));
    assert_eq!(m.call_count(), 0);
}

#[test]
fn wait_effect() {
    let ctx = make_empty_ctx();
    let mut m = MockRenderer::new();
    run(&dispatch(&EngineCommand::Wait { dur_reg: 3 }, &ctx), Some(&mut m));
    assert!(m.has_call_containing("wait"));
    assert_eq!(m.last_call(), "wait(0ms)");
    run(
        &dispatch(
            &EngineCommand::Effect { effect_type: "shake".into(), params: vec![("i".into(), 1)] },
            &ctx,
        ),
        Some(&mut m),
    );
    assert!(m.has_call_containing("shake"));
    assert_eq!(m.last_call(), "effect(type=\"shake\", params=[(\"i\", 1)])");
}

#[test]
fn ac09_capture_screenshot_returns_pixels() {
    let m = MockRenderer::new();
    let result = m.capture_screenshot();
    assert!(result.is_ok(), "Mock 应返回 Ok");
    let pixels = result.unwrap();
    assert_eq!(pixels.len(), 320 * 180 * 4, "应返回 320×180×4 字节");
    assert!(pixels.iter().all(|&p| p == 128));
}

#[test]
fn ac10_render_save_ui_no_panic() {
    let mut m = MockRenderer::new();
    let commands = vec![
        UiCommand::Overlay,
        UiCommand::Text { content: "存档".into(), selected: false },
    ];
    m.render_save_ui(&commands);
    assert!(m.has_call_containing("render_save_ui"));
    assert_eq!(m.last_call(), "render_save_ui(2 commands)");
    m.clear_save_ui();
    assert!(m.has_call_containing("clear_save_ui"));
}

#[test]
fn show_character_resolves_emotion_sprite() {
    let ctx = make_ctx_with_sayori();
    let mut m = MockRenderer::new();
    let cmd = EngineCommand::ShowChar {
        char_id: "sayori".into(),
        pos_byte: 2,
        emotion: "smile".into(),
        trans_kind_idx: 0,
        dur_reg: 0,
    };
    run(&dispatch(&cmd, &ctx), Some(&mut m));
    assert_eq!(m.last_call(), "show_character(\"sayori\", \"assets/sprites/sayori/smile.png\", pos=2)");
}

#[test]
fn empty_emotion_means_default_and_unknown_is_empty_path() {
    let ctx = make_ctx_with_sayori();
    let cmd = EngineCommand::Emotion { char_id: "sayori".into(), emotion: String::new() };
    assert_eq!(
        dispatch(&cmd, &ctx),
        BridgeCall::Renderer(RendererCall::SetEmotion {
            char_id: "sayori".into(),
            sprite_path: "assets/sprites/sayori/default.png".into()
        })
    );
    let cmd = EngineCommand::Emotion { char_id: "sayori".into(), emotion: "angry".into() };
    assert_eq!(
        dispatch(&cmd, &ctx),
        BridgeCall::Renderer(RendererCall::SetEmotion { char_id: "sayori".into(), sprite_path: String::new() })
    );
}

#[test]
fn resolve_audio_path_has_no_extension() {
    assert_eq!(resolve_audio_path("bgm_daily_life", "bgm"), "assets/bgm/bgm_daily_life");
}

#[test]
fn mock_formats_positions_and_ranges() {
    let mut m = MockRenderer::new();
    assert_eq!(m.last_call(), "");
    m.move_character("a", 10);
    assert_eq!(m.last_call(), "move_character(\"a\", pos=10)");
    m.set_visible_range(0, 123);
    assert_eq!(m.last_call(), "set_visible_range(start=0, end=123)");
    m.show_menu("选?", &["A".to_string(), "B".to_string()]);
    assert_eq!(m.last_call(), "show_menu(prompt=\"选?\", choices=[\"A\", \"B\"])");
    assert_eq!(m.calls().len(), 3);
    assert!(!m.has_call_containing("zzz"));
}
