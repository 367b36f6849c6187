//! Stage bookkeeping, frame downsampling and thumbnail scenarios.
use asterism::renderer_impl::{downsample_rgba, thumbnail_from_frame, KeyedTable, MoveDecision, Placement, Stage};
use asterism::sprite_layer::{pos_byte_to_sprite_position, StagePosition};

/// 验证位置编码→SpritePosition 映射。
#[test]
fn pos_byte_to_sprite_position_mapping() {
    assert!(matches!(pos_byte_to_sprite_position(0), StagePosition::Left));
    assert!(matches!(pos_byte_to_sprite_position(1), StagePosition::Center));
    assert!(matches!(pos_byte_to_sprite_position(2), StagePosition::Right));
    // 未知编码 → Center
    assert!(matches!(pos_byte_to_sprite_position(99), StagePosition::Center));
}

#[test]
fn keyed_table_insert_get_remove() {
    let mut t: KeyedTable<u64> = KeyedTable::new();
    assert_eq!(t.len(), 0);
    assert_eq!(t.insert("a", 1), None);
    assert_eq!(t.insert("b", 2), None);
    assert_eq!(t.insert("a", 3), Some(1));
    assert_eq!(t.len(), 2);
    assert_eq!(t.get("a"), Some(3));
    assert_eq!(t.get("c"), None);
    assert_eq!(t.remove("a"), Some(3));
    assert_eq!(t.remove("a"), None);
    assert_eq!(t.len(), 1);
    assert_eq!(t.values(), vec![2]);
    t.clear();
    assert_eq!(t.len(), 0);
}

#[test]
fn stage_show_replaces_previous_sprite() {
    let mut stage = Stage::new();
    assert_eq!(stage.show_character("sayori", 10, 0), None);
    let replaced = stage.show_character("sayori", 11, 2);
    assert_eq!(replaced, Some(Placement { sprite_id: 10, layer: 1, position: 0 }));
    assert_eq!(stage.placement("sayori"), Some(Placement { sprite_id: 11, layer: 1, position: 2 }));
}

#[test]
fn stage_hide_returns_sprite_to_remove() {
    let mut stage = Stage::new();
    stage.show_character("sayori", 7, 1);
    assert_eq!(stage.hide_character("sayori"), Some(Placement { sprite_id: 7, layer: 1, position: 1 }));
    assert_eq!(stage.hide_character("sayori"), None);
    assert_eq!(stage.placement("sayori"), None);
}

#[test]
fn stage_move_character_decisions() {
    let mut stage = Stage::new();
    assert_eq!(stage.move_character("nobody", 1), MoveDecision::NotShown);
    stage.show_character("sayori", 5, 0);
    assert_eq!(stage.move_character("sayori", 0), MoveDecision::Unchanged);
    assert_eq!(
        stage.move_character("sayori", 2),
        MoveDecision::Move(Placement { sprite_id: 5, layer: 1, position: 0 })
    );
    assert_eq!(stage.placement("sayori"), Some(Placement { sprite_id: 5, layer: 1, position: 2 }));
}

#[test]
fn stage_emotion_keeps_layer_and_position() {
    let mut stage = Stage::new();
    assert_eq!(stage.replace_character_sprite("sayori", 9), None);
    stage.show_character("sayori", 3, 2);
    let old = stage.replace_character_sprite("sayori", 4);
    assert_eq!(old, Some(Placement { sprite_id: 3, layer: 1, position: 2 }));
    assert_eq!(stage.placement("sayori"), Some(Placement { sprite_id: 4, layer: 1, position: 2 }));
}

#[test]
fn stage_sprites_and_clear_all() {
    let mut stage = Stage::new();
    assert_eq!(stage.show_sprite("fx/rain.png", 20), None);
    assert_eq!(stage.show_sprite("fx/rain.png", 21), Some(20));
    stage.show_character("a", 1, 0);
    stage.show_character("b", 2, 1);
    assert_eq!(stage.hide_sprite("fx/none.png"), None);
    let (placements, sprites) = stage.clear_all();
    let mut ids: Vec<u64> = placements.iter().map(|p| p.sprite_id).collect();
    ids.sort();
    assert_eq!(ids, vec![1, 2]);
    assert_eq!(sprites, vec![21]);
    assert_eq!(stage.placement("a"), None);
    assert_eq!(stage.hide_sprite("fx/rain.png"), None);
}

#[test]
fn downsample_picks_nearest_pixels() {
    // 4x2 image, pixel (x, y) = [x, y, 0, 255]
    let mut pixels = Vec::new();
    for y in 0..2u8 {
        for x in 0..4u8 {
            pixels.extend_from_slice(&[x, y, 0, 255]);
        }
    }
    let out = downsample_rgba(&pixels, 4, 2, 2, 1);
    assert_eq!(out, vec![0, 0, 0, 255, 2, 0, 0, 255]);
    let same = downsample_rgba(&pixels, 4, 2, 4, 2);
    assert_eq!(same, pixels);
    let empty = downsample_rgba(&pixels, 4, 2, 0, 5);
    assert!(empty.is_empty());
}

#[test]
fn thumbnail_from_frame_is_rgb_of_thumb_size() {
    let pixels = vec![200u8; 8 * 4 * 4];
    let rgb = thumbnail_from_frame(&pixels, 8, 4, 4, 2);
    assert_eq!(rgb, vec![200u8; 4 * 2 * 3]);
}

#[test]
fn thumbnail_from_frame_drops_alpha_of_sampled_pixels() {
    // 2x1 frame: red then green; a 1x1 thumbnail samples the first pixel
    let pixels = vec![255u8, 0, 0, 10, 0, 255, 0, 20];
    assert_eq!(thumbnail_from_frame(&pixels, 2, 1, 1, 1), vec![255, 0, 0]);
    assert_eq!(thumbnail_from_frame(&pixels, 2, 1, 2, 1), vec![255, 0, 0, 0, 255, 0]);
}

use asterism::renderer_impl::UiOverlays;
use asterism::ui_command::UiCommand;

#[test]
fn overlays_cover_the_dialogue() {
    let mut o = UiOverlays::new();
    assert!(!o.has_overlay());
    let passes = o.text_passes();
    assert!(passes.dialogue);
    assert!(passes.overlays.is_empty());
    assert!(!passes.restore_dialogue);

    o.render_save_ui(&[
        UiCommand::Overlay,
        UiCommand::Text { content: "槽位 1".to_string(), selected: true },
    ]);
    assert!(o.has_overlay());
    o.render_pause_menu(&[UiCommand::Text { content: "继续".to_string(), selected: false }]);
    let passes = o.text_passes();
    assert!(!passes.dialogue);
    assert!(passes.restore_dialogue);
    assert_eq!(passes.overlays, vec!["> 槽位 1\n".to_string(), "  继续\n".to_string()]);

    o.clear_save_ui();
    o.clear_pause_menu();
    assert!(!o.has_overlay());
}

#[test]
fn empty_overlay_text_does_not_cover_the_dialogue() {
    let mut o = UiOverlays::new();
    o.render_pause_menu(&[UiCommand::Overlay]);
    assert!(!o.has_overlay());
    assert!(o.text_passes().dialogue);
}
