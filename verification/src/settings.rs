use vstd::prelude::*;

verus! {

/// Where the parts of the dialogue screen are placed, in character cells.
/// A `ltwh` is (left, top, width, height); `character_twh` is (top, width, height).
#[derive(Debug, Clone, Copy)]
pub struct Layout {
    pub character_twh: (u16, u16, u16),
    pub frame_face_ltwh: (u16, u16, u16, u16),
    pub vertical_dark_edge: u16,
    pub two_character_spec: u16,
    pub x_character_spec: u16,
    pub frame_content_ltwh: (u16, u16, u16, u16),
    pub text_ltwh: (u16, u16, u16, u16),
    pub frame_name_ltwh: (u16, u16, u16, u16),
    pub short_key_ltwh: (u16, u16, u16, u16),
    pub chapter_title_ltwh: (u16, u16, u16, u16),
    pub chapter_subtitle_ltwh: (u16, u16, u16, u16),
}

/// The layout used when no layout file gives another.
pub open spec fn default_layout() -> Layout {
    Layout {
        character_twh: (6, 80, 56),
        frame_face_ltwh: (20, 47, 41, 22),
        vertical_dark_edge: 5,
        two_character_spec: 20,
        x_character_spec: 16,
        frame_content_ltwh: (60, 50, 144, 16),
        text_ltwh: (61, 51, 140, 15),
        frame_name_ltwh: (60, 49, 10, 1),
        short_key_ltwh: (60, 66, 144, 1),
        chapter_title_ltwh: (60, 27, 120, 5),
        chapter_subtitle_ltwh: (60, 32, 120, 1),
    }
}

impl Default for Layout {
    fn default() -> (r: Self)
        ensures
            r == default_layout(),
    {
        Layout {
            character_twh: (6, 80, 56),
            frame_face_ltwh: (20, 47, 41, 22),
            vertical_dark_edge: 5,
            two_character_spec: 20,
            x_character_spec: 16,
            frame_content_ltwh: (60, 50, 144, 16),
            text_ltwh: (61, 51, 140, 15),
            frame_name_ltwh: (60, 49, 10, 1),
            short_key_ltwh: (60, 66, 144, 1),
            chapter_title_ltwh: (60, 27, 120, 5),
            chapter_subtitle_ltwh: (60, 32, 120, 1),
        }
    }
}

/// The horizontal gap between characters on the stage when `character_num` stand there:
/// none for one or no character, the two-character gap for two, the general gap otherwise.
pub open spec fn spacing_spec(layout: Layout, character_num: nat) -> u16 {
    if character_num <= 1 {
        0
    } else if character_num == 2 {
        layout.two_character_spec
    } else {
        layout.x_character_spec
    }
}

/// The horizontal gap between standing characters; see `spacing_spec`.
pub fn character_spacing_spec(layout: &Layout, character_num: usize) -> (r: u16)
    ensures
        r == spacing_spec(*layout, character_num as nat),
{
    match character_num {
        0 | 1 => 0,
        2 => layout.two_character_spec,
        _ => layout.x_character_spec,
    }
}

/// The game's settings. Paths are kept as the text the settings file gives.
pub struct GameSetting {
    pub resolution: (u16, u16),
    pub preprogress_script: Vec<String>,
    pub is_force_skipable: bool,
    pub save_dir: String,
    pub entre_script: String,
    pub default_bg_img: String,
    pub default_face_img: String,
}

/// The settings used when no settings file gives others: 240 by 80 cells,
/// no script to preprocess, no forced skipping, and the default paths.
pub open spec fn is_default_setting(s: GameSetting) -> bool {
    &&& s.resolution == (240u16, 80u16)
    &&& s.preprogress_script@.len() == 0
    &&& !s.is_force_skipable
    &&& s.save_dir@ == "save"@
    &&& s.entre_script@ == "resource/script.fs"@
    &&& s.default_bg_img@ == "resource/default_background_img.png"@
    &&& s.default_face_img@ == "resource/default_face_img.png"@
}

impl Default for GameSetting {
    fn default() -> (r: Self)
        ensures
            is_default_setting(r),
    {
        GameSetting {
            resolution: (240, 160 / 2),
            is_force_skipable: false,
            save_dir: String::from_str("save"),
            preprogress_script: Vec::new(),
            entre_script: String::from_str("resource/script.fs"),
            default_bg_img: String::from_str("resource/default_background_img.png"),
            default_face_img: String::from_str("resource/default_face_img.png"),
        }
    }
}

/// A named constant exported to the script: its module path with its name, and its value.
pub struct ConstInfo {
    pub module: &'static str,
    pub value: &'static str,
}

} // verus!
