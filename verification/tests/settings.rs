use tmj_app::about::AboutScene;
use tmj_app::settings::{character_spacing_spec, ConstInfo, GameSetting, Layout};
use tmj_app::stage::{AnimationState, CharactersStage};
use std::collections::HashMap;

#[test]
fn default_layout_values() {
    let l = Layout::default();
    assert_eq!(l.character_twh, (6, 80, 56));
    assert_eq!(l.vertical_dark_edge, 5);
    assert_eq!(l.two_character_spec, 20);
    assert_eq!(l.x_character_spec, 16);
    assert_eq!(l.frame_face_ltwh, (20, 47, 41, 22));
    assert_eq!(l.frame_name_ltwh, (60, 49, 10, 1));
    assert_eq!(l.frame_content_ltwh, (60, 50, 144, 16));
    assert_eq!(l.text_ltwh, (61, 51, 140, 15));
    assert_eq!(l.short_key_ltwh, (60, 66, 144, 1));
    assert_eq!(l.chapter_title_ltwh, (60, 27, 120, 5));
    assert_eq!(l.chapter_subtitle_ltwh, (60, 32, 120, 1));
}

#[test]
fn spacing_by_character_count() {
    let l = Layout::default();
    assert_eq!(character_spacing_spec(&l, 0), 0);
    assert_eq!(character_spacing_spec(&l, 1), 0);
    assert_eq!(character_spacing_spec(&l, 2), 20);
    assert_eq!(character_spacing_spec(&l, 3), 16);
    assert_eq!(character_spacing_spec(&l, 9), 16);
    let custom = Layout { two_character_spec: 7, x_character_spec: 3, ..Layout::default() };
    assert_eq!(character_spacing_spec(&custom, 2), 7);
    assert_eq!(character_spacing_spec(&custom, 4), 3);
}

#[test]
fn default_settings() {
    let s = GameSetting::default();
    assert_eq!(s.resolution, (240, 80));
    assert!(s.preprogress_script.is_empty());
    assert!(!s.is_force_skipable);
    assert_eq!(s.save_dir, "save");
    assert_eq!(s.entre_script, "resource/script.fs");
    assert_eq!(s.default_bg_img, "resource/default_background_img.png");
    assert_eq!(s.default_face_img, "resource/default_face_img.png");
}

#[test]
fn const_info_holds_its_strings() {
    let c = ConstInfo { module: "audio::FADE_IN", value: "fade_in" };
    assert_eq!(c.module, "audio::FADE_IN");
    assert_eq!(c.value, "fade_in");
}

#[test]
fn about_scene_text() {
    let mut args = HashMap::new();
    args.insert("x", "y");
    let scene = AboutScene::spawn(args);
    assert_eq!(scene.text(), "dev: frostar");
    assert_eq!(AboutScene::spawn(HashMap::new()).text(), "dev: frostar");
}

#[test]
fn characters_stage_active_anims() {
    let mut stage = CharactersStage::new();
    let name = "character_1".to_string();
    assert!(!stage.character_ve_has_active_anims(&name));
    stage.insert_anims(name.clone(), vec![AnimationState::Finished, AnimationState::NotStarted]);
    assert!(!stage.character_ve_has_active_anims(&name));
    stage.insert_anims(name.clone(), vec![AnimationState::Finished, AnimationState::Running]);
    assert!(stage.character_ve_has_active_anims(&name));
    assert!(!stage.character_ve_has_active_anims(&"character_2".to_string()));
    assert_eq!(AnimationState::default(), AnimationState::NotStarted);
}
