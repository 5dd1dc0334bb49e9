use tmj_app::menu::{execute_selection, selection_at, MainSelections, MenuCommand, DEFAULT_SELECTION, SELECTION_LEN};
use tmj_app::popups::{CmdAction, CmdInputItem, CmdKey, HistoryAction, HistoryKey, DialogueHistoryLs, KeyKind};
use tmj_app::screens::UserScreen;

fn shown() -> DialogueHistoryLs {
    let mut h = DialogueHistoryLs::new();
    h.set_visual(true);
    h
}

#[test]
fn history_up_and_down() {
    let heights = vec![1u16; 4];
    let mut h = shown();
    for _ in 0..10 {
        h.on_key(HistoryKey::Up, KeyKind::Press, &heights, 10);
    }
    assert_eq!(h.scroll_offset(), 3);
    h.on_key(HistoryKey::Char('j'), KeyKind::Press, &heights, 10);
    assert_eq!(h.scroll_offset(), 2);
    // Repeats and releases of up/down do nothing.
    h.on_key(HistoryKey::Up, KeyKind::Repeat, &heights, 10);
    h.on_key(HistoryKey::Down, KeyKind::Release, &heights, 10);
    assert_eq!(h.scroll_offset(), 2);
    for _ in 0..5 {
        h.on_key(HistoryKey::Down, KeyKind::Press, &heights, 10);
    }
    assert_eq!(h.scroll_offset(), 0);
}

#[test]
fn history_paging() {
    // Oldest first; the newest record is at the end.
    let heights = vec![3u16, 3, 3, 3, 3, 3];
    let mut h = shown();
    // A page of height 7 holds two records of height 3.
    h.on_key(HistoryKey::PageUp, KeyKind::Release, &heights, 7);
    assert_eq!(h.scroll_offset(), 2);
    h.on_key(HistoryKey::PageUp, KeyKind::Release, &heights, 7);
    assert_eq!(h.scroll_offset(), 4);
    h.on_key(HistoryKey::PageUp, KeyKind::Release, &heights, 7);
    assert_eq!(h.scroll_offset(), 5);
    h.on_key(HistoryKey::PageDown, KeyKind::Release, &heights, 7);
    assert_eq!(h.scroll_offset(), 3);
    h.on_key(HistoryKey::PageDown, KeyKind::Release, &heights, 7);
    assert_eq!(h.scroll_offset(), 1);
    h.on_key(HistoryKey::PageDown, KeyKind::Release, &heights, 7);
    assert_eq!(h.scroll_offset(), 0);
    // Paging on press does nothing.
    h.on_key(HistoryKey::PageUp, KeyKind::Press, &heights, 7);
    assert_eq!(h.scroll_offset(), 0);
}

#[test]
fn history_tall_record_stops_paging() {
    let heights = vec![1u16, 50, 1];
    let mut h = shown();
    h.on_key(HistoryKey::PageUp, KeyKind::Release, &heights, 10);
    assert_eq!(h.scroll_offset(), 1);
    h.on_key(HistoryKey::PageUp, KeyKind::Release, &heights, 10);
    assert_eq!(h.scroll_offset(), 1);
}

#[test]
fn history_home_end_and_quit() {
    let heights = vec![2u16; 5];
    let mut h = shown();
    h.on_key(HistoryKey::Home, KeyKind::Release, &heights, 10);
    assert_eq!(h.scroll_offset(), 4);
    h.on_key(HistoryKey::End, KeyKind::Release, &heights, 10);
    assert_eq!(h.scroll_offset(), 0);
    h.on_key(HistoryKey::Home, KeyKind::Release, &heights, 10);
    assert_eq!(h.on_key(HistoryKey::Char('q'), KeyKind::Press, &heights, 10), HistoryAction::Nothing);
    assert_eq!(h.on_key(HistoryKey::Char('q'), KeyKind::Release, &heights, 10), HistoryAction::Hidden);
    assert!(!h.is_show());
    assert_eq!(h.scroll_offset(), 0);
}

#[test]
fn history_empty_or_hidden_ignores_keys() {
    let mut h = shown();
    assert_eq!(h.on_key(HistoryKey::Esc, KeyKind::Release, &Vec::new(), 10), HistoryAction::Nothing);
    assert!(h.is_show());
    let mut hidden = DialogueHistoryLs::new();
    hidden.on_key(HistoryKey::Up, KeyKind::Press, &vec![1, 1], 10);
    assert_eq!(hidden.scroll_offset(), 0);
}

#[test]
fn history_key_fits_detects_overflow() {
    let h = shown();
    let big = vec![u16::MAX, u16::MAX, 1];
    assert!(!h.key_fits(HistoryKey::PageUp, KeyKind::Release, &big, u16::MAX));
    assert!(h.key_fits(HistoryKey::PageUp, KeyKind::Release, &vec![1, 1, 1], u16::MAX));
    assert!(h.key_fits(HistoryKey::Up, KeyKind::Press, &big, 3));
    let mut h2 = shown();
    h2.on_key(HistoryKey::Home, KeyKind::Release, &big, 3);
    assert!(!h2.key_fits(HistoryKey::PageDown, KeyKind::Release, &vec![1, u16::MAX, u16::MAX], u16::MAX));
}

#[test]
fn cmd_line_editing() {
    let mut c = CmdInputItem::new();
    assert!(c.is_show());
    for ch in "say hi".chars() {
        c.on_key(CmdKey::Char(ch), KeyKind::Press);
    }
    c.on_key(CmdKey::Char('!'), KeyKind::Release);
    assert_eq!(c.current_input(), "say hi");
    c.on_key(CmdKey::Backspace, KeyKind::Repeat);
    assert_eq!(c.current_input(), "say h");
    assert_eq!(c.on_key(CmdKey::Enter, KeyKind::Press), CmdAction::Execute("say h".to_string()));
    assert_eq!(c.current_input(), "say h");
    c.clear_input();
    assert_eq!(c.current_input(), "");
}

#[test]
fn cmd_line_exit() {
    let mut c = CmdInputItem::new();
    for ch in "exit".chars() {
        c.on_key(CmdKey::Char(ch), KeyKind::Press);
    }
    assert_eq!(c.on_key(CmdKey::Enter, KeyKind::Press), CmdAction::Hidden);
    assert!(!c.is_show());
    assert_eq!(c.current_input(), "");
    assert_eq!(c.on_key(CmdKey::Char('x'), KeyKind::Press), CmdAction::Nothing);
    assert_eq!(c.current_input(), "");
    c.set_visual(true);
    for ch in "exits".chars() {
        c.on_key(CmdKey::Char(ch), KeyKind::Press);
    }
    assert_eq!(c.on_key(CmdKey::Enter, KeyKind::Press), CmdAction::Execute("exits".to_string()));
}

#[test]
fn main_menu_entries() {
    assert_eq!(SELECTION_LEN, 7);
    assert_eq!(selection_at(DEFAULT_SELECTION), Some(MainSelections::NewGame));
    assert_eq!(selection_at(0), Some(MainSelections::Continue));
    assert_eq!(selection_at(6), Some(MainSelections::Exit));
    assert_eq!(selection_at(7), None);
    assert_eq!(execute_selection(0), MenuCommand::ContinueGame);
    assert_eq!(execute_selection(1), MenuCommand::GoScene(UserScreen::Load));
    assert_eq!(execute_selection(2), MenuCommand::GoScene(UserScreen::Dialogue));
    assert_eq!(execute_selection(3), MenuCommand::GoScene(UserScreen::Gallery));
    assert_eq!(execute_selection(4), MenuCommand::GoScene(UserScreen::Setting));
    assert_eq!(execute_selection(5), MenuCommand::GoScene(UserScreen::About));
    assert_eq!(execute_selection(6), MenuCommand::QuitGame);
}
