use std::collections::HashMap;
use tmj_app::gallery::{focus_next, focus_prev, is_gallery_image};
use tmj_app::saving::{LoadAction, LoadScreen, SaveKey};

#[test]
fn focus_wraps_around() {
    assert_eq!(focus_next(Some(0), 3), Some(1));
    assert_eq!(focus_next(Some(2), 3), Some(0));
    assert_eq!(focus_next(None, 3), Some(1));
    assert_eq!(focus_prev(Some(0), 3), Some(2));
    assert_eq!(focus_prev(Some(2), 3), Some(1));
    assert_eq!(focus_prev(None, 3), Some(2));
    assert_eq!(focus_next(Some(4), 0), Some(4));
    assert_eq!(focus_prev(None, 0), None);
    for i in 0..5 {
        assert_eq!(focus_prev(focus_next(Some(i), 5), 5), Some(i));
    }
}

#[test]
fn gallery_extensions() {
    assert!(is_gallery_image("png"));
    assert!(is_gallery_image("PNG"));
    assert!(is_gallery_image("Jpg"));
    assert!(!is_gallery_image("jpeg"));
    assert!(!is_gallery_image("gif"));
    assert!(!is_gallery_image(""));
    assert!(!is_gallery_image("pn"));
}

#[test]
fn load_asks_for_confirmation() {
    let mut l = LoadScreen::spawn(HashMap::new());
    assert_eq!(l.on_key(SaveKey::Enter, true, Some((2, true))), LoadAction::Nothing);
    assert!(l.is_confirming());
    assert_eq!(l.on_key(SaveKey::Char('x'), true, Some((2, true))), LoadAction::Nothing);
    assert!(l.is_confirming());
    assert_eq!(l.on_key(SaveKey::Char('y'), true, Some((2, true))), LoadAction::Load(2));
    assert!(!l.is_confirming());
}

#[test]
fn load_refusals_and_navigation() {
    let mut l = LoadScreen::spawn(HashMap::new());
    assert_eq!(l.on_key(SaveKey::Enter, true, Some((1, false))), LoadAction::Nothing);
    assert!(!l.is_confirming());
    assert_eq!(l.on_key(SaveKey::Other, false, Some((1, false))), LoadAction::ToSlotList);
    assert_eq!(l.on_key(SaveKey::Esc, true, Some((1, false))), LoadAction::GoBack);
    assert_eq!(l.on_key(SaveKey::Enter, true, None), LoadAction::Nothing);
    l.on_key(SaveKey::Enter, true, Some((3, true)));
    assert_eq!(l.on_key(SaveKey::Char('n'), true, Some((3, true))), LoadAction::Nothing);
    assert!(!l.is_confirming());
}
