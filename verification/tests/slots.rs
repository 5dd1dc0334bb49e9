use time::{Duration, OffsetDateTime};
use tmj_app::slots::{parse_slot_file_name, slot_name_from_match, SaveFile, Slot, SlotError, SlotManager, SLOT_PATTERN, SLOT_SIZE};

fn file(name: &str, t: OffsetDateTime) -> SaveFile {
    SaveFile { path: format!("save/{}", name), file_name: name.to_string(), modified: t }
}

#[test]
fn slot_pattern_value() {
    assert_eq!(Slot::slot_pattern(), r"^\d+_.*.save$");
    assert_eq!(SLOT_PATTERN, r"^\d+_.*.save$");
}

#[test]
fn parse_file_names() {
    assert_eq!(parse_slot_file_name("3_first.save"), Ok(Some((3, "first".to_string()))));
    assert_eq!(parse_slot_file_name("12_my_game.save"), Ok(Some((12, "my".to_string()))));
    assert_eq!(parse_slot_file_name("7_a.b.save"), Ok(Some((7, "a".to_string()))));
    assert_eq!(parse_slot_file_name("0_.save"), Ok(Some((0, "".to_string()))));
    assert_eq!(parse_slot_file_name("5_xsave"), Ok(Some((5, "xsave".to_string()))));
    assert_eq!(parse_slot_file_name("007_zero.save"), Ok(Some((7, "zero".to_string()))));
}

#[test]
fn non_matching_names_are_skipped() {
    assert_eq!(parse_slot_file_name("notes.txt"), Ok(None));
    assert_eq!(parse_slot_file_name("_1.save"), Ok(None));
    assert_eq!(parse_slot_file_name("1.save"), Ok(None));
    assert_eq!(parse_slot_file_name("a1_b.save"), Ok(None));
    assert_eq!(parse_slot_file_name("1_b.save.bak"), Ok(None));
}

#[test]
fn numbers_beyond_a_byte_are_malformed() {
    assert_eq!(parse_slot_file_name("256_x.save"), Err(SlotError::MalformedName));
    assert_eq!(parse_slot_file_name("255_x.save"), Ok(Some((255, "x".to_string()))));
    // Unicode digits match the pattern but are no number for `u8`.
    assert_eq!(parse_slot_file_name("\u{0663}_x.save"), Err(SlotError::MalformedName));
}

#[test]
fn file_name_of_slot() {
    let slot = Slot { path: None, time: OffsetDateTime::UNIX_EPOCH, name: "hero".to_string(), id: 14 };
    assert_eq!(slot.file_name(), "14_hero.save");
    assert_eq!(parse_slot_file_name(&slot.file_name()), Ok(Some((14, "hero".to_string()))));
    // A name holding `_` does not read back whole.
    let slot = Slot { path: None, time: OffsetDateTime::UNIX_EPOCH, name: "my_game".to_string(), id: 3 };
    assert_eq!(parse_slot_file_name(&slot.file_name()), Ok(Some((3, "my".to_string()))));
    let slot = Slot { path: None, time: OffsetDateTime::UNIX_EPOCH, name: String::new(), id: 0 };
    assert_eq!(slot.file_name(), "0_.save");
    let name = slot.file_name();
    assert_eq!(parse_slot_file_name(&name), Ok(Some((0, String::new()))));
}

#[test]
fn manager_fills_empty_slots() {
    let now = OffsetDateTime::UNIX_EPOCH + Duration::days(3);
    let t1 = OffsetDateTime::UNIX_EPOCH + Duration::hours(1);
    let files = vec![file("2_two.save", t1), file("readme.md", t1), file("25_far.save", t1)];
    let mgr = SlotManager::from_save_files(&files, now).unwrap();
    assert!(mgr.check_any_save_slot());
    let s2 = mgr.get(2).unwrap();
    assert_eq!(s2.name, "two");
    assert_eq!(s2.path.as_deref(), Some("save/2_two.save"));
    assert_eq!(s2.time, t1);
    let s25 = mgr.get(25).unwrap();
    assert_eq!(s25.name, "far");
    for id in 0..SLOT_SIZE as u8 {
        let s = mgr.get(id).unwrap();
        assert_eq!(s.id, id);
        if id != 2 {
            assert_eq!(s.path, None);
            assert_eq!(s.name, "");
            assert_eq!(s.time, now);
        }
    }
    assert!(mgr.get(20).is_none());
    assert!(mgr.get(26).is_none());
}

#[test]
fn later_file_with_same_number_wins() {
    let t = OffsetDateTime::UNIX_EPOCH;
    let files = vec![file("4_old.save", t), file("4_new.save", t)];
    let mgr = SlotManager::from_save_files(&files, t).unwrap();
    assert_eq!(mgr.get(4).unwrap().name, "new");
}

#[test]
fn manager_without_files_has_no_save() {
    let mgr = SlotManager::from_save_files(&Vec::new(), OffsetDateTime::UNIX_EPOCH).unwrap();
    assert!(!mgr.check_any_save_slot());
    assert_eq!(mgr.get(19).unwrap().name, "");
}

#[test]
fn malformed_file_fails_the_scan() {
    let t = OffsetDateTime::UNIX_EPOCH;
    let files = vec![file("1_a.save", t), file("999_b.save", t)];
    assert_eq!(SlotManager::from_save_files(&files, t).err(), Some(SlotError::MalformedName));
}

#[test]
fn get_slot_changes_in_place() {
    let t = OffsetDateTime::UNIX_EPOCH;
    let mut mgr = SlotManager::from_save_files(&Vec::new(), t).unwrap();
    {
        let slot = mgr.get_slot(5).unwrap();
        slot.name = "renamed".to_string();
    }
    assert_eq!(mgr.get(5).unwrap().name, "renamed");
    // The number is taken as a byte: 261 is slot 5.
    assert_eq!(mgr.get_slot(261).unwrap().name, "renamed");
    assert_eq!(mgr.get_slot(30).err(), Some(SlotError::NoSuchSlot));
    assert!(mgr.get_current_slot(None).is_none());
    assert_eq!(mgr.get_current_slot(Some(5)).unwrap().id, 5);
    assert!(mgr.get_current_slot(Some(40)).is_none());
}

#[test]
fn saved_slot_is_listed_again() {
    let t = OffsetDateTime::UNIX_EPOCH + Duration::minutes(7);
    let saved = Slot { path: None, time: t, name: "forest".to_string(), id: 9 };
    let files = vec![file("readme.md", t), file(&saved.file_name(), t), file("3_other.save", t)];
    let mgr = SlotManager::from_save_files(&files, OffsetDateTime::UNIX_EPOCH).unwrap();
    let slot = mgr.get(9).unwrap();
    assert_eq!(slot.id, 9);
    assert_eq!(slot.name, "forest");
    assert_eq!(slot.path.as_deref(), Some("save/9_forest.save"));
    assert_eq!(slot.time, t);
}

#[test]
fn slot_name_from_a_given_match() {
    assert_eq!(slot_name_from_match("7_hero_x.save", Some(true)), Ok(Some((7, "hero".to_string()))));
    assert_eq!(slot_name_from_match("+12_a.b.save", Some(true)), Ok(Some((12, "a".to_string()))));
    assert_eq!(slot_name_from_match("7_hero.save", Some(false)), Ok(None));
    assert_eq!(slot_name_from_match("7_hero.save", None), Err(SlotError::BadPattern));
    assert_eq!(slot_name_from_match("300_big.save", Some(true)), Err(SlotError::MalformedName));
    assert_eq!(slot_name_from_match("nounderscore.save", Some(true)), Err(SlotError::MalformedName));
}
