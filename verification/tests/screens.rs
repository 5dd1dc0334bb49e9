use tmj_app::screens::{FlowError, Tracks, UserScreen};

const ALL: [UserScreen; 9] = [
    UserScreen::Main,
    UserScreen::Dialogue,
    UserScreen::Config,
    UserScreen::Save,
    UserScreen::Load,
    UserScreen::About,
    UserScreen::Setting,
    UserScreen::Review,
    UserScreen::Gallery,
];

#[test]
fn screen_names_are_the_variant_names() {
    let names: Vec<String> = ALL.iter().map(|s| s.to_string()).collect();
    assert_eq!(
        names,
        vec!["Main", "Dialogue", "Config", "Save", "Load", "About", "Setting", "Review", "Gallery"]
    );
}

#[test]
fn screen_names_round_trip() {
    for s in ALL.iter() {
        assert_eq!(UserScreen::from_name(&s.to_string()), Some(*s));
    }
}

#[test]
fn unknown_screen_name_is_refused() {
    assert_eq!(UserScreen::from_name(&"main".to_string()), None);
    assert_eq!(UserScreen::from_name(&"".to_string()), None);
    assert_eq!(UserScreen::from_name(&"Mainx".to_string()), None);
}

#[test]
fn only_five_screens_can_be_spawned() {
    assert_eq!(UserScreen::Main.spawn(), Ok(UserScreen::Main));
    assert_eq!(UserScreen::Dialogue.spawn(), Ok(UserScreen::Dialogue));
    assert_eq!(UserScreen::About.spawn(), Ok(UserScreen::About));
    assert_eq!(UserScreen::Save.spawn(), Ok(UserScreen::Save));
    assert_eq!(UserScreen::Load.spawn(), Ok(UserScreen::Load));
    assert_eq!(UserScreen::Config.spawn(), Err(FlowError::NoScreen));
    assert_eq!(UserScreen::Setting.spawn(), Err(FlowError::NoScreen));
    assert_eq!(UserScreen::Review.spawn(), Err(FlowError::NoScreen));
    assert_eq!(UserScreen::Gallery.spawn(), Err(FlowError::NoScreen));
    assert!(UserScreen::Main.spawnable());
    assert!(!UserScreen::Gallery.spawnable());
}

#[test]
fn track_names() {
    assert_eq!(Tracks::Bgm.to_string(), "Bgm");
    assert_eq!(Tracks::Voice.to_string(), "Voice");
    assert_eq!(Tracks::Effect.to_string(), "Effect");
    assert_eq!(Tracks::Effect1.to_string(), "Effect1");
    assert_eq!(Tracks::Effect2.to_string(), "Effect2");
}
