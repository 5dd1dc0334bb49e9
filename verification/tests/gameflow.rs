use tmj_app::gameflow::{Game, GameFlowMgr, NamedArgs, ScreenCall, ScreensOutcome, SCREEN_SWITCH_COOL_DOWN_MS};
use tmj_app::screens::{FlowError, UserScreen};

fn s(x: &str) -> String {
    x.to_string()
}

fn describe(calls: &[ScreenCall]) -> Vec<String> {
    calls
        .iter()
        .map(|c| match c {
            ScreenCall::Spawn(n, k) => format!("spawn {} {:?}", n, k),
            ScreenCall::Sleep(n) => format!("sleep {}", n),
            ScreenCall::Activate(n) => format!("activate {}", n),
            ScreenCall::CoolDown(ms) => format!("cool {}", ms),
        })
        .collect()
}

#[test]
fn new_manager_is_empty() {
    let m = GameFlowMgr::new();
    assert_eq!(m.cur_screen(), None);
    assert!(!m.is_ready_quit());
    assert_eq!(m.get_scene(&s("Main")), None);
}

#[test]
fn ensure_spawns_once() {
    let mut m = GameFlowMgr::new();
    let first = m.ensure(s("About")).unwrap();
    assert_eq!(first.kind, UserScreen::About);
    assert!(first.spawned);
    let second = m.ensure(s("About")).unwrap();
    assert_eq!(second.kind, UserScreen::About);
    assert!(!second.spawned);
    assert_eq!(m.get_scene(&s("About")), Some(UserScreen::About));
}

#[test]
fn ensure_errors() {
    let mut m = GameFlowMgr::new();
    assert_eq!(m.ensure(s("Nowhere")), Err(FlowError::UnknownScreen));
    assert_eq!(m.ensure(s("Gallery")), Err(FlowError::NoScreen));
    assert_eq!(m.get_scene(&s("Gallery")), None);
}

#[test]
fn go_screen_sleeps_previous_and_activates_next() {
    let mut m = GameFlowMgr::new();
    let c1 = m.go_screen(&s("Main")).unwrap();
    assert_eq!(describe(&c1), vec!["spawn Main Main", "activate Main", "cool 300"]);
    let c2 = m.go_screen(&s("About")).unwrap();
    assert_eq!(describe(&c2), vec!["spawn About About", "sleep Main", "activate About", "cool 300"]);
    assert_eq!(m.cur_screen(), Some(UserScreen::About));
    let c3 = m.go_screen(&s("About")).unwrap();
    assert_eq!(describe(&c3), vec!["cool 300"]);
    assert_eq!(SCREEN_SWITCH_COOL_DOWN_MS, 300);
}

#[test]
fn go_screen_to_unknown_changes_nothing() {
    let mut m = GameFlowMgr::new();
    m.go_screen(&s("Main")).unwrap();
    assert_eq!(m.go_screen(&s("Config")).unwrap_err(), FlowError::NoScreen);
    assert_eq!(m.go_screen(&s("bogus")).unwrap_err(), FlowError::UnknownScreen);
    assert_eq!(m.cur_screen(), Some(UserScreen::Main));
}

#[test]
fn go_back_pops_the_jump_path() {
    let mut m = GameFlowMgr::new();
    m.go_screen(&s("Main")).unwrap();
    m.go_screen(&s("Save")).unwrap();
    // The top of the jump path is the current screen itself.
    let (name, calls) = m.go_back_screen().unwrap();
    assert_eq!(name, "Save");
    assert_eq!(describe(&calls), vec!["cool 300"]);
    let (name, calls) = m.go_back_screen().unwrap();
    assert_eq!(name, "Main");
    assert_eq!(describe(&calls), vec!["sleep Save", "activate Main", "cool 300"]);
    // An empty jump path goes back to the main screen.
    let (name, _) = m.go_back_screen().unwrap();
    assert_eq!(name, "Main");
    assert_eq!(m.cur_screen(), Some(UserScreen::Main));
}

#[test]
fn clear_jump_path_then_back_goes_main() {
    let mut m = GameFlowMgr::new();
    m.go_screen(&s("Load")).unwrap();
    m.go_screen(&s("About")).unwrap();
    m.clear_jump_path();
    let (name, calls) = m.go_back_screen().unwrap();
    assert_eq!(name, "Main");
    assert_eq!(describe(&calls), vec!["spawn Main Main", "sleep About", "activate Main", "cool 300"]);
}

#[test]
fn active_states_are_kept() {
    let mut m = GameFlowMgr::new();
    let mut args = NamedArgs::new();
    args.insert(s("slot"), s("3"));
    m.pre_active_states_set(s("Dialogue"), args);
    let got = m.active_args(&s("Dialogue")).unwrap();
    assert_eq!(got.get(&s("slot")), Some(&s("3")));
    // Going to the screen keeps the arguments set before.
    m.go_screen(&s("Dialogue")).unwrap();
    assert_eq!(m.active_args(&s("Dialogue")).unwrap().get(&s("slot")), Some(&s("3")));
    // A screen gone to for the first time gets empty arguments.
    m.go_screen(&s("About")).unwrap();
    assert!(!m.active_args(&s("About")).unwrap().contains_key(&s("slot")));
    assert!(m.active_args(&s("Load")).is_none());
}

#[test]
fn set_scene_and_quit() {
    let mut m = GameFlowMgr::new();
    m.set_scene(s("x"), UserScreen::Review);
    assert_eq!(m.get_scene(&s("x")), Some(UserScreen::Review));
    m.force_quit();
    assert!(m.is_ready_quit());
}

#[test]
fn game_starts_on_main() {
    let (game, calls) = Game::new();
    assert_eq!(describe(&calls), vec!["spawn Main Main", "activate Main", "cool 300"]);
    assert_eq!(game.game_flow.cur_screen(), Some(UserScreen::Main));
}

#[test]
fn game_go_screen_command() {
    let (mut game, _) = Game::new();
    let (kind, calls) = game.on_cmd_go_screen(s("Dialogue")).unwrap();
    assert_eq!(kind, UserScreen::Dialogue);
    assert_eq!(
        describe(&calls),
        vec!["spawn Dialogue Dialogue", "sleep Main", "activate Dialogue", "cool 300"]
    );
    let (kind, calls) = game.on_cmd_go_screen(s("Main")).unwrap();
    assert_eq!(kind, UserScreen::Main);
    assert_eq!(describe(&calls), vec!["sleep Dialogue", "activate Main", "cool 300"]);
    // Going to the main screen forgot the jump path: going back stays on main.
    let (name, calls) = game.on_cmd_go_back_screen().unwrap();
    assert_eq!(name, "Main");
    assert_eq!(describe(&calls), vec!["cool 300"]);
    assert_eq!(game.on_cmd_go_screen(s("Review")).unwrap_err(), FlowError::NoScreen);
    assert_eq!(game.on_cmd_go_screen(s("?")).unwrap_err(), FlowError::UnknownScreen);
}

#[test]
fn navigation_keeps_the_quit_request() {
    let mut m = GameFlowMgr::new();
    m.go_screen(&s("Main")).unwrap();
    m.force_quit();
    m.go_screen(&s("About")).unwrap();
    assert!(m.is_ready_quit());
    m.go_back_screen().unwrap();
    assert!(m.is_ready_quit());
    assert_eq!(m.get_scene(&s("Main")), Some(UserScreen::Main));
    assert_eq!(m.get_scene(&s("About")), Some(UserScreen::About));
}

#[test]
fn failed_screen_calls_keep_current_screen_and_path() {
    let mut m = GameFlowMgr::new();
    m.go_screen(&s("Main")).unwrap();
    // The calls are known before the switch is made.
    let planned = m.switch_calls(&s("About")).unwrap();
    assert_eq!(describe(&planned), vec!["spawn About About", "sleep Main", "activate About", "cool 300"]);
    assert_eq!(m.cur_screen(), Some(UserScreen::Main));
    assert_eq!(m.get_scene(&s("About")), None);
    // Main fails to go to sleep: About is created, Main stays current.
    assert_eq!(m.go_screen_after(&s("About"), ScreensOutcome::SleepFailed).unwrap_err(), FlowError::ScreenFailed);
    assert_eq!(m.cur_screen(), Some(UserScreen::Main));
    assert_eq!(m.get_scene(&s("About")), Some(UserScreen::About));
    assert!(m.active_args(&s("About")).is_none());
    assert_eq!(m.back_target(), "Main");
    // About fails to become active: its arguments exist, Main stays current.
    assert_eq!(m.go_screen_after(&s("About"), ScreensOutcome::ActivateFailed).unwrap_err(), FlowError::ScreenFailed);
    assert_eq!(m.cur_screen(), Some(UserScreen::Main));
    assert!(m.active_args(&s("About")).is_some());
    assert_eq!(m.back_target(), "Main");
    // Both succeed: the switch is made and About joins the path.
    let calls = m.go_screen_after(&s("About"), ScreensOutcome::Done).unwrap();
    assert_eq!(describe(&calls), vec!["sleep Main", "activate About", "cool 300"]);
    assert_eq!(m.cur_screen(), Some(UserScreen::About));
    assert_eq!(m.back_target(), "About");
    assert_eq!(m.switch_calls(&s("Gallery")).unwrap_err(), FlowError::NoScreen);
}

#[test]
fn failed_go_back_pops_the_path_and_stays() {
    let mut m = GameFlowMgr::new();
    m.go_screen(&s("Main")).unwrap();
    m.go_screen(&s("About")).unwrap();
    m.go_screen(&s("Save")).unwrap();
    assert_eq!(m.back_target(), "Save");
    // The last entry is the current screen: going back to it needs no call.
    let (name, calls) = m.go_back_screen_after(ScreensOutcome::ActivateFailed).unwrap();
    assert_eq!(name, "Save");
    assert_eq!(describe(&calls), vec!["cool 300"]);
    assert_eq!(m.back_target(), "About");
    // About fails to become active: Save stays current, About is off the path.
    assert_eq!(m.go_back_screen_after(ScreensOutcome::ActivateFailed).unwrap_err(), FlowError::ScreenFailed);
    assert_eq!(m.cur_screen(), Some(UserScreen::Save));
    assert_eq!(m.back_target(), "Main");
}

#[test]
fn quit_request_survives_navigation() {
    let mut m = GameFlowMgr::new();
    assert!(!m.is_ready_quit());
    m.go_screen(&s("Main")).unwrap();
    m.force_quit();
    assert!(m.is_ready_quit());
    assert_eq!(m.cur_screen(), Some(UserScreen::Main));
    m.go_screen(&s("About")).unwrap();
    let _ = m.go_back_screen();
    let _ = m.go_screen_after(&s("Save"), ScreensOutcome::ActivateFailed);
    m.clear_jump_path();
    m.set_scene(s("Load"), UserScreen::Load);
    let _ = m.ensure(s("Dialogue"));
    assert!(m.is_ready_quit());
}
