use tmj_app::behaviour::{
    frame_ves, AniImgTrans, BackgroundBehaviour, FrameBehaviour, ParagraphBehaviour, FRAME_TYPEWRITER_SPEED,
    PARAGRAPH_TYPEWRITER_SPEED,
};
use tmj_app::character::{character_say, say_text, SayError};
use tmj_app::history::HistoryLs;
use tmj_app::script_args::ScriptArg;
use tmj_app::stage::CharactersStage;

#[test]
fn background_set_and_transition() {
    let mut bg = BackgroundBehaviour::new();
    assert!(!bg.is_edge);
    bg.export_set("a.png".to_string());
    assert_eq!(bg.img_trans_ani.new_image.as_deref(), Some("a.png"));
    assert_eq!(bg.img_trans_ani.old_image, None);
    assert!(!bg.is_animating());
    bg.export_trans_to("b.png".to_string(), 1_000);
    assert_eq!(bg.img_trans_ani.old_image.as_deref(), Some("a.png"));
    assert_eq!(bg.img_trans_ani.new_image.as_deref(), Some("b.png"));
    assert!(bg.is_animating());
    bg.tick_update(400);
    assert_eq!(bg.img_trans_ani.run_nanos, 400);
    assert!(bg.is_animating());
    bg.tick_update(700);
    assert_eq!(bg.img_trans_ani.run_nanos, 1_000);
    assert!(!bg.is_animating());
}

#[test]
fn background_empty_path_is_no_image() {
    let mut bg = BackgroundBehaviour::new();
    bg.export_set("a.png".to_string());
    bg.export_set(String::new());
    assert_eq!(bg.img_trans_ani.new_image, None);
    assert_eq!(bg.img_trans_ani.old_image.as_deref(), Some("a.png"));
}

#[test]
fn background_edges() {
    let mut bg = BackgroundBehaviour::new();
    bg.export_show_edge();
    assert!(bg.is_edge);
    bg.export_hide_edge();
    assert!(!bg.is_edge);
    bg.on_scene_active(true, "c.png".to_string());
    assert!(bg.is_edge);
    assert_eq!(bg.img_trans_ani.new_image.as_deref(), Some("c.png"));
}

#[test]
fn background_force_over_and_end() {
    let mut bg = BackgroundBehaviour::new();
    bg.export_trans_to("b.png".to_string(), 500);
    bg.on_force_over_animation();
    assert_eq!(bg.img_trans_ani.run_nanos, 500);
    assert!(!bg.is_animating());
    bg.export_trans_to("c.png".to_string(), 500);
    bg.on_end_dialouge();
    assert_eq!(bg.img_trans_ani.anim_nanos, 0);
    assert_eq!(bg.img_trans_ani.run_nanos, 0);
    bg.export_trans_to("d.png".to_string(), 500);
    bg.on_end_session();
    assert_eq!(bg.img_trans_ani.anim_nanos, 0);
}

#[test]
fn img_trans_steps() {
    let mut a = AniImgTrans::new();
    assert!(!a.is_animing());
    a.anim_nanos = 10;
    a.update(3);
    assert_eq!(a.run_nanos, 3);
    a.force_over();
    assert_eq!(a.run_nanos, 10);
    a.reset();
    assert_eq!((a.run_nanos, a.anim_nanos), (0, 0));
}

#[test]
fn frame_text_and_say() {
    let mut f = FrameBehaviour::new();
    assert_eq!(f.typewriter.speed, FRAME_TYPEWRITER_SPEED);
    assert_eq!(FRAME_TYPEWRITER_SPEED, 30);
    f.export_say("Alice".to_string(), "alice.png".to_string(), "Hi".to_string());
    assert_eq!(f.speaker, "Alice");
    assert_eq!(f.face_img, "alice.png");
    assert_eq!(f.text, "Hi");
    assert_eq!(f.typewriter.target_text, "Hi");
    assert_eq!(f.typewriter.start_text, "");
    f.export_text("Narration".to_string());
    assert_eq!(f.speaker, "");
    assert_eq!(f.face_img, "");
    assert_eq!(f.text, "Narration");
    f.export_say("Bob".to_string(), "bob.png".to_string(), "Yo".to_string());
    f.on_end_dialouge();
    assert_eq!(f.text, "");
    assert_eq!(f.face_img, "");
    assert_eq!(f.speaker, "Bob");
    f.on_end_session();
    assert_eq!(f.typewriter.target_text, "");
}

#[test]
fn paragraph_print_appends() {
    let mut p = ParagraphBehaviour::new();
    assert_eq!(p.typewriter_ani.speed, 0);
    p.export_new(&"Once".to_string());
    assert_eq!(p.typewriter_ani.start_text, "");
    assert_eq!(p.typewriter_ani.target_text, "Once");
    assert_eq!(p.typewriter_ani.speed, PARAGRAPH_TYPEWRITER_SPEED);
    p.export_print(&" upon".to_string());
    assert_eq!(p.typewriter_ani.start_text, "Once");
    assert_eq!(p.typewriter_ani.target_text, "Once upon");
    p.on_end_session();
    assert_eq!(p.typewriter_ani.start_text, "Once upon");
    p.export_clear();
    assert_eq!(p.typewriter_ani.target_text, "");
    p.on_scene_active(&"kept".to_string());
    assert_eq!(p.typewriter_ani.start_text, "kept");
    assert_eq!(p.typewriter_ani.target_text, "kept");
    p.on_end_dialouge();
    assert_eq!(p.typewriter_ani.start_text, "");
    assert_eq!(p.typewriter_ani.target_text, "");
    assert_eq!(PARAGRAPH_TYPEWRITER_SPEED, 40);
}

#[test]
fn character_say_records_and_shows() {
    let mut history = HistoryLs::new(2);
    let mut frame = FrameBehaviour::new();
    character_say(&mut history, &mut frame, 5, "Alice".to_string(), "a.png".to_string(), "Hi".to_string());
    character_say(&mut history, &mut frame, 6, "Bob".to_string(), "".to_string(), "Yo".to_string());
    character_say(&mut history, &mut frame, 7, "Alice".to_string(), "a2.png".to_string(), "Bye".to_string());
    let ids: Vec<usize> = history.records().iter().map(|r| r.id).collect();
    assert_eq!(ids, vec![6, 7]);
    let last = history.records().back().unwrap();
    assert_eq!(last.speaker, "Alice");
    assert_eq!(last.content, "Bye");
    assert_eq!(frame.text, "Bye");
    assert_eq!(frame.face_img, "a2.png");
    assert_eq!(say_text(&vec![ScriptArg::Str("x".to_string())]).unwrap(), "x");
    assert_eq!(say_text(&vec![ScriptArg::Int(3)]).unwrap(), "");
    assert_eq!(say_text(&Vec::new()).unwrap_err(), SayError::NoText);
    history.clear();
    assert!(history.is_empty());
}

fn names(v: &[&str]) -> Vec<String> {
    v.iter().map(|s| s.to_string()).collect()
}

#[test]
fn frame_visibility_follows_dialogue_and_frame() {
    let mut frame = FrameBehaviour::new();
    let ves = names(&["bg", "frame.block", "frame.text", "frame.name", "frame.shortkey", "frame.face", "frame.text"]);
    let before = vec![true, false, false, true, false, true, false];
    // Hidden dialogue: every frame element is hidden, the rest keep their state.
    assert_eq!(
        frame.frame_visibility(&ves, &before, true, true),
        vec![true, false, false, false, false, false, false]
    );
    // Frame switched off by the script.
    assert_eq!(
        frame.frame_visibility(&ves, &before, false, false),
        vec![true, false, false, false, false, false, false]
    );
    // Shown with no face and no speaker: face and name stay hidden; only the
    // first element of a name is touched.
    assert_eq!(
        frame.frame_visibility(&ves, &before, false, true),
        vec![true, true, true, false, true, false, false]
    );
    frame.export_say("Alice".to_string(), "face.png".to_string(), "hi".to_string());
    assert_eq!(
        frame.frame_visibility(&ves, &before, false, true),
        vec![true, true, true, true, true, true, false]
    );
}

#[test]
fn character_plan_drops_and_spawns() {
    let current = names(&["bg", "character_1", "character_2", "character_3", "frame.text", "character_-4"]);
    // 1 stays listed, 2 loses its image, 3 and -4 are gone, 5 is new (twice
    // in the list), 6 has no image.
    let listed = vec![(1, true), (2, false), (5, true), (6, false), (5, true), (12, true)];
    let (dropped, spawned) = CharactersStage::character_element_plan(&current, &listed);
    assert_eq!(dropped, vec![2, 3, 5]);
    assert_eq!(spawned, vec![5, 12]);
    // Nothing listed: every character element goes, the others stay.
    let (dropped, spawned) = CharactersStage::character_element_plan(&current, &Vec::new());
    assert_eq!(dropped, vec![1, 2, 3, 5]);
    assert!(spawned.is_empty());
}

#[test]
fn frame_contents_follow_face_and_speaker() {
    let mut frame = FrameBehaviour::new();
    assert_eq!(frame.frame_contents(false, true), (None, Some(String::new())));
    frame.export_say("Alice".to_string(), "face.png".to_string(), "hi".to_string());
    assert_eq!(frame.frame_contents(false, true), (Some("face.png".to_string()), Some("Alice".to_string())));
    assert_eq!(frame.frame_contents(true, true), (None, None));
    assert_eq!(frame.frame_contents(false, false), (None, None));
}

#[test]
fn frame_is_laid_out_with_five_elements() {
    let ves = frame_ves();
    let got: Vec<(&str, i32, bool)> = ves.iter().map(|v| (v.name.as_str(), v.z_index, v.visible)).collect();
    assert_eq!(
        got,
        vec![
            ("frame.face", 230, true),
            ("frame.block", 200, true),
            ("frame.text", 210, true),
            ("frame.name", 220, false),
            ("frame.shortkey", 220, true),
        ]
    );
}
