use std::collections::HashMap;
use tmj_app::saving::{
    is_safe_filename_char, LoadScreen, SaveAction, SavePopItem, SaveKey, SaveScreenAction, SaveScreen,
    POP_COOL_DOWN_MS,
};

#[test]
fn safe_filename_chars() {
    for c in ['a', 'z', 'A', 'Z', '0', '9', ' ', '-', '_', '.'] {
        assert!(is_safe_filename_char(c), "{:?}", c);
    }
    for c in ['/', '\\', ':', '*', '?', 'é', '中', '\n', '#'] {
        assert!(!is_safe_filename_char(c), "{:?}", c);
    }
}

#[test]
fn hidden_editor_ignores_keys() {
    let mut e = SavePopItem::new();
    assert!(!e.is_show());
    assert_eq!(e.on_key(SaveKey::Enter, true, Some((1, true))), SaveAction::Nothing);
}

#[test]
fn enter_on_saved_slot_resaves() {
    let mut e = SavePopItem::new();
    e.set_visual(true);
    assert_eq!(e.on_key(SaveKey::Enter, true, Some((3, true))), SaveAction::Resave(3));
    assert!(!e.is_creating());
    // A repeated Enter goes to the slot list.
    assert_eq!(e.on_key(SaveKey::Enter, false, Some((3, true))), SaveAction::ToSlotList);
    assert_eq!(e.on_key(SaveKey::Other, true, None), SaveAction::ToSlotList);
}

#[test]
fn naming_an_empty_slot() {
    let mut e = SavePopItem::new();
    e.set_visual(true);
    assert_eq!(e.on_key(SaveKey::Enter, true, Some((4, false))), SaveAction::Nothing);
    assert!(e.is_creating());
    for c in "ab/c".chars() {
        e.on_key(SaveKey::Char(c), true, Some((4, false)));
    }
    assert_eq!(e.renaming(), "abc");
    e.on_key(SaveKey::Backspace, false, Some((4, false)));
    assert_eq!(e.renaming(), "ab");
    assert_eq!(e.on_key(SaveKey::Enter, true, Some((4, false))), SaveAction::SaveAs(4, "ab".to_string()));
    assert!(!e.is_creating());
    assert_eq!(e.renaming(), "");
}

#[test]
fn empty_name_is_unnamed() {
    let mut e = SavePopItem::new();
    e.set_visual(true);
    e.on_key(SaveKey::Enter, true, Some((9, false)));
    e.on_key(SaveKey::Backspace, true, Some((9, false)));
    assert_eq!(e.on_key(SaveKey::Enter, true, Some((9, false))), SaveAction::SaveAs(9, "unnamed".to_string()));
}

#[test]
fn esc_while_naming_drops_the_name() {
    let mut e = SavePopItem::new();
    e.set_visual(true);
    e.on_key(SaveKey::Enter, true, Some((1, false)));
    e.on_key(SaveKey::Char('x'), true, None);
    assert_eq!(e.on_key(SaveKey::Esc, true, None), SaveAction::Nothing);
    assert!(!e.is_creating());
    assert_eq!(e.renaming(), "");
    assert!(e.is_show());
}

#[test]
fn enter_without_slot_keeps_the_name() {
    let mut e = SavePopItem::new();
    e.set_visual(true);
    e.on_key(SaveKey::Enter, true, Some((1, false)));
    e.on_key(SaveKey::Char('k'), true, None);
    assert_eq!(e.on_key(SaveKey::Enter, true, None), SaveAction::Nothing);
    assert!(!e.is_creating());
    assert_eq!(e.renaming(), "k");
}

#[test]
fn q_and_esc_hide_while_choosing() {
    let mut e = SavePopItem::new();
    e.set_visual(true);
    assert_eq!(e.on_key(SaveKey::Char('q'), true, None), SaveAction::Hidden);
    assert!(!e.is_show());
    e.set_visual(true);
    assert_eq!(e.on_key(SaveKey::Esc, true, None), SaveAction::Hidden);
    assert!(!e.is_show());
    assert_eq!(POP_COOL_DOWN_MS, 100);
}

#[test]
fn showing_again_starts_over() {
    let mut e = SavePopItem::new();
    e.set_visual(true);
    e.on_key(SaveKey::Enter, true, Some((1, false)));
    e.on_key(SaveKey::Char('z'), true, None);
    e.set_visual(false);
    assert!(e.is_creating());
    e.set_visual(true);
    assert!(!e.is_creating());
    assert_eq!(e.renaming(), "");
}

#[test]
fn save_screen_naming_takes_any_character() {
    let mut e = SaveScreen::spawn(HashMap::new());
    assert_eq!(e.on_key(SaveKey::Enter, false, Some((2, false))), SaveScreenAction::ToSlotList);
    assert_eq!(e.on_key(SaveKey::Enter, true, Some((2, false))), SaveScreenAction::Nothing);
    assert!(e.is_creating());
    for c in "a/b".chars() {
        e.on_key(SaveKey::Char(c), false, Some((2, false)));
    }
    e.on_key(SaveKey::Char('z'), true, Some((2, false)));
    assert_eq!(e.renaming(), "a/b");
    e.on_key(SaveKey::Backspace, false, Some((2, false)));
    // Esc saves too, once released.
    assert_eq!(e.on_key(SaveKey::Esc, false, Some((2, false))), SaveScreenAction::Nothing);
    assert_eq!(e.on_key(SaveKey::Esc, true, Some((2, false))), SaveScreenAction::SaveAs(2, "a/".to_string()));
    assert!(!e.is_creating());
}

#[test]
fn save_screen_choosing() {
    let mut e = SaveScreen::spawn(HashMap::new());
    assert_eq!(e.on_key(SaveKey::Enter, true, Some((4, true))), SaveScreenAction::Resave(4));
    assert_eq!(e.on_key(SaveKey::Char('q'), false, None), SaveScreenAction::BackToDialogue);
    assert_eq!(e.on_key(SaveKey::Esc, true, None), SaveScreenAction::BackToDialogue);
    assert_eq!(e.on_key(SaveKey::Other, true, None), SaveScreenAction::Nothing);
    e.on_key(SaveKey::Enter, true, Some((5, false)));
    assert_eq!(e.on_key(SaveKey::Enter, true, Some((5, false))), SaveScreenAction::SaveAs(5, "unnamed".to_string()));
}

#[test]
fn load_quit_drops_confirmation() {
    let mut l = LoadScreen::spawn(HashMap::new());
    l.on_key(SaveKey::Enter, true, Some((1, true)));
    assert!(l.is_confirming());
    l.on_quit();
    assert!(!l.is_confirming());
}
