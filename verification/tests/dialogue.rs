use tmj_app::dialogue::{
    decide_push, dialogue_key_action, dialogue_mouse_pushes, DialogueError, DialogueKey, DialogueKeyAction,
    DialogueSceneSave, DialogueSession, PushStep,
};
use tmj_app::popups::KeyKind;
use tmj_app::script_args::{parse_add_layer_args, parse_del_layer_args, LayerArgError, ScriptArg, TextObj};

#[test]
fn push_decisions() {
    assert_eq!(decide_push(true, true, 3, Some(9)), PushStep::SkipWaits);
    assert_eq!(decide_push(false, true, 3, Some(9)), PushStep::ForceOverAnimations);
    assert_eq!(decide_push(false, false, 3, Some(9)), PushStep::Advance { target: 9, validate: true });
    assert_eq!(decide_push(false, false, 3, None), PushStep::Advance { target: 4, validate: false });
}

#[test]
fn save_needs_a_started_session() {
    let mut d = DialogueSession::new();
    assert_eq!(d.session_id(), 1);
    assert_eq!(d.save_record().unwrap_err(), DialogueError::NoSessionSnapshot);
    d.freeze("{ctx}".to_string());
    let save = d.save_record().unwrap();
    assert_eq!(save.session_id, 1);
    assert_eq!(save.ctx_dump, "{ctx}");
}

#[test]
fn save_then_load_round_trip() {
    let mut d = DialogueSession::new();
    let prev = d.move_to(7);
    assert_eq!(prev, 1);
    d.freeze("state7".to_string());
    let save = d.save_record().unwrap();
    let mut other = DialogueSession::new();
    other.load_record(save);
    assert_eq!(other.session_id(), 7);
    assert_eq!(other.save_record().unwrap().ctx_dump, "state7");
    other.reset_to_begin();
    assert_eq!(other.session_id(), 1);
    assert!(other.save_record().is_err());
    let loaded = DialogueSceneSave { session_id: 2, ctx_dump: "x".to_string() };
    other.load_record(loaded);
    assert_eq!(other.session_id(), 2);
}

#[test]
fn text_obj_from_args() {
    let ok = vec![ScriptArg::Str("hello".to_string()), ScriptArg::Int(3), ScriptArg::Int(4)];
    let t = TextObj::from_script_command(&ok).unwrap();
    assert_eq!(t.content, "hello");
    assert_eq!(t.pos, (0, 0));
    let bad = vec![ScriptArg::Str("hello".to_string()), ScriptArg::Int(3)];
    assert_eq!(TextObj::from_script_command(&bad).unwrap_err(), "wrong args");
    let bad2 = vec![ScriptArg::Int(1), ScriptArg::Int(3), ScriptArg::Int(4)];
    assert_eq!(TextObj::from_script_command(&bad2).unwrap_err(), "wrong args");
    let bad3 = vec![ScriptArg::Str("a".to_string()), ScriptArg::Other, ScriptArg::Int(4)];
    assert!(TextObj::from_script_command(&bad3).is_err());
}

#[test]
fn add_layer_args() {
    let s = |x: &str| ScriptArg::Str(x.to_string());
    let three = vec![s("image"), s("sky"), s("res/sky.png")];
    let l = parse_add_layer_args(&three).unwrap();
    assert_eq!((l.layer_type.as_str(), l.name.as_str(), l.source.as_str()), ("image", "sky", "res/sky.png"));
    let two = vec![s("image"), s("res/cloud.big.png")];
    let l = parse_add_layer_args(&two).unwrap();
    assert_eq!(l.name, "cloud.big");
    assert_eq!(l.source, "res/cloud.big.png");
    let forest = vec![s("image"), s("bg/forest.png")];
    let l = parse_add_layer_args(&forest).unwrap();
    assert_eq!((l.layer_type.as_str(), l.name.as_str(), l.source.as_str()), ("image", "forest", "bg/forest.png"));
    assert_eq!(parse_add_layer_args(&vec![s("image"), s("bg/.hidden")]).unwrap().name, ".hidden");
    let plain = vec![s("image"), s("cloud")];
    assert_eq!(parse_add_layer_args(&plain).unwrap().name, "cloud");
    let two_empty = vec![s("image"), s("")];
    assert_eq!(parse_add_layer_args(&two_empty).unwrap().name, "layer");
    assert_eq!(parse_add_layer_args(&vec![s("image")]).unwrap_err(), LayerArgError::TooFewArgs);
    assert_eq!(parse_add_layer_args(&vec![ScriptArg::Nil, s("a")]).unwrap_err(), LayerArgError::NotAString(0));
    assert_eq!(parse_add_layer_args(&vec![s("a"), ScriptArg::Bool(true)]).unwrap_err(), LayerArgError::NotAString(1));
    assert_eq!(
        parse_add_layer_args(&vec![s("a"), s("b"), ScriptArg::Int(1)]).unwrap_err(),
        LayerArgError::NotAString(2)
    );
}

#[test]
fn dialogue_keys() {
    assert_eq!(dialogue_key_action(DialogueKey::Enter, KeyKind::Press, false), DialogueKeyAction::TryPush);
    assert_eq!(dialogue_key_action(DialogueKey::Enter, KeyKind::Repeat, false), DialogueKeyAction::Nothing);
    assert_eq!(dialogue_key_action(DialogueKey::Char(' '), KeyKind::Press, false), DialogueKeyAction::TryPush);
    assert_eq!(dialogue_key_action(DialogueKey::Char('a'), KeyKind::Repeat, false), DialogueKeyAction::TryPush);
    assert_eq!(dialogue_key_action(DialogueKey::Char('A'), KeyKind::Release, false), DialogueKeyAction::Nothing);
    assert_eq!(dialogue_key_action(DialogueKey::Char('.'), KeyKind::Press, true), DialogueKeyAction::OpenCmdLine);
    assert_eq!(dialogue_key_action(DialogueKey::Char('.'), KeyKind::Press, false), DialogueKeyAction::Nothing);
    assert_eq!(dialogue_key_action(DialogueKey::Esc, KeyKind::Press, false), DialogueKeyAction::LeaveToMain);
    assert_eq!(dialogue_key_action(DialogueKey::Char('q'), KeyKind::Repeat, false), DialogueKeyAction::Nothing);
    assert_eq!(dialogue_key_action(DialogueKey::Char('s'), KeyKind::Repeat, false), DialogueKeyAction::OpenSave);
    assert_eq!(dialogue_key_action(DialogueKey::Char('l'), KeyKind::Press, false), DialogueKeyAction::OpenLoad);
    assert_eq!(dialogue_key_action(DialogueKey::Char('c'), KeyKind::Press, false), DialogueKeyAction::OpenSetting);
    assert_eq!(dialogue_key_action(DialogueKey::Up, KeyKind::Press, false), DialogueKeyAction::OpenHistory);
    assert_eq!(dialogue_key_action(DialogueKey::Other, KeyKind::Press, false), DialogueKeyAction::Nothing);
    assert!(dialogue_mouse_pushes(false, true));
    assert!(!dialogue_mouse_pushes(true, true));
    assert!(!dialogue_mouse_pushes(false, false));
}

#[test]
fn del_layer_args() {
    let s = |x: &str| ScriptArg::Str(x.to_string());
    assert_eq!(parse_del_layer_args(&vec![s("forest"), ScriptArg::Int(1)]), Some("forest".to_string()));
    assert_eq!(parse_del_layer_args(&vec![]), None);
    assert_eq!(parse_del_layer_args(&vec![ScriptArg::Int(3)]), None);
}
