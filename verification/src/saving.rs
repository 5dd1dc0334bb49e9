use vstd::prelude::*;
use std::collections::HashMap;
use crate::text::{string_push, string_pop};

verus! {

/// Characters allowed in the name of a save slot: ASCII letters and digits,
/// space, `-`, `_` and `.`.
pub open spec fn safe_filename_char(c: char) -> bool {
    ('a' <= c && c <= 'z') || ('A' <= c && c <= 'Z') || ('0' <= c && c <= '9')
        || c == ' ' || c == '-' || c == '_' || c == '.'
}

/// Whether `c` may be typed into the name of a save slot.
pub fn is_safe_filename_char(c: char) -> (r: bool)
    ensures
        r == safe_filename_char(c),
{
    ('a' <= c && c <= 'z') || ('A' <= c && c <= 'Z') || ('0' <= c && c <= '9')
        || c == ' ' || c == '-' || c == '_' || c == '.'
}

/// Milliseconds for which input is held off after a pop-up is hidden.
pub const POP_COOL_DOWN_MS: u64 = 100;

/// The name given to a slot saved with an empty name.
pub open spec fn unnamed() -> Seq<char> {
    seq!['u', 'n', 'n', 'a', 'm', 'e', 'd']
}

/// A key as the save pop-up reads it.
#[derive(Debug, Clone, Copy, PartialEq, Eq, Structural)]
pub enum SaveKey {
    Enter,
    Esc,
    Backspace,
    Char(char),
    /// Any other key (arrows and the like); the slot list may use it.
    Other,
}

/// What the save pop-up asks of the game after a key.
#[derive(Debug, Clone, PartialEq, Eq)]
pub enum SaveAction {
    /// Nothing to do.
    Nothing,
    /// The pop-up was hidden: hold off input for `POP_COOL_DOWN_MS`.
    Hidden,
    /// Hand the key to the slot list (to move the selection).
    ToSlotList,
    /// Save again into the slot with this id, stamping it with the current time.
    Resave(u8),
    /// Save into the slot with this id under the given name.
    SaveAs(u8, String),
}

/// Abstract form of a `SaveAction`.
pub enum ActionModel {
    Nothing,
    Hidden,
    ToSlotList,
    Resave(u8),
    SaveAs(u8, Seq<char>),
}

pub open spec fn action_view(a: SaveAction) -> ActionModel {
    match a {
        SaveAction::Nothing => ActionModel::Nothing,
        SaveAction::Hidden => ActionModel::Hidden,
        SaveAction::ToSlotList => ActionModel::ToSlotList,
        SaveAction::Resave(id) => ActionModel::Resave(id),
        SaveAction::SaveAs(id, n) => ActionModel::SaveAs(id, n@),
    }
}

/// Abstract state of the save pop-up.
#[verifier::ext_equal]
pub struct EditorModel {
    pub shown: bool,
    pub creating: bool,
    pub renaming: Seq<char>,
}

/// The save pop-up's answer to a key (`is_press` is false for a repeat;
/// releases are not handed to it). `current` is the selected slot, with
/// whether it already has a file.
///
/// While choosing a slot: Enter on a slot with a file saves it again, on an
/// empty slot starts naming it; `q` or Esc hides the pop-up; other keys go to
/// the slot list. While naming: Backspace deletes the last character, an
/// allowed character is appended, Enter saves under the name (`unnamed` when
/// empty) and goes back to choosing, Esc drops the name and goes back.
pub open spec fn save_key_spec(m: EditorModel, key: SaveKey, is_press: bool, current: Option<(u8, bool)>)
    -> (EditorModel, ActionModel) {
    if !m.shown {
        (m, ActionModel::Nothing)
    } else if !m.creating {
        match key {
            SaveKey::Enter if is_press => match current {
                Some((id, has_file)) => if has_file {
                    (m, ActionModel::Resave(id))
                } else {
                    (EditorModel { creating: true, ..m }, ActionModel::Nothing)
                },
                None => (m, ActionModel::Nothing),
            },
            SaveKey::Esc if is_press => (EditorModel { shown: false, ..m }, ActionModel::Hidden),
            SaveKey::Char(c) if is_press && c == 'q' => (EditorModel { shown: false, ..m }, ActionModel::Hidden),
            _ => (m, ActionModel::ToSlotList),
        }
    } else {
        match key {
            SaveKey::Backspace => (
                EditorModel { renaming: if m.renaming.len() > 0 { m.renaming.drop_last() } else { m.renaming }, ..m },
                ActionModel::Nothing,
            ),
            SaveKey::Char(c) if safe_filename_char(c) => (
                EditorModel { renaming: m.renaming.push(c), ..m },
                ActionModel::Nothing,
            ),
            SaveKey::Enter if is_press => match current {
                Some((id, _)) => (
                    EditorModel { creating: false, renaming: Seq::empty(), ..m },
                    ActionModel::SaveAs(id, if m.renaming.len() == 0 { unnamed() } else { m.renaming }),
                ),
                None => (EditorModel { creating: false, ..m }, ActionModel::Nothing),
            },
            SaveKey::Esc if is_press => (
                EditorModel { creating: false, renaming: Seq::empty(), ..m },
                ActionModel::Nothing,
            ),
            _ => (m, ActionModel::Nothing),
        }
    }
}

/// The state of the save pop-up: whether it is shown, whether a slot is
/// being named, and the name typed so far.
pub struct SavePopItem {
    shown: bool,
    creating: bool,
    renaming: String,
}

impl SavePopItem {
    pub closed spec fn model(self) -> EditorModel {
        EditorModel { shown: self.shown, creating: self.creating, renaming: self.renaming@ }
    }

    /// A hidden pop-up, choosing a slot, with no name typed.
    pub fn new() -> (r: Self)
        ensures
            r.model() == (EditorModel { shown: false, creating: false, renaming: Seq::empty() }),
    {
        SavePopItem { shown: false, creating: false, renaming: String::new() }
    }

    /// Shows or hides the pop-up; showing it starts over at choosing a slot with no name typed.
    pub fn set_visual(&mut self, visual: bool)
        ensures
            final(self).model() == (if visual {
                EditorModel { shown: true, creating: false, renaming: Seq::empty() }
            } else {
                EditorModel { shown: false, ..old(self).model() }
            }),
    {
        self.shown = visual;
        if visual {
            self.creating = false;
            self.renaming = String::new();
        }
    }

    /// Whether the pop-up is shown.
    pub fn is_show(&self) -> (r: bool)
        ensures
            r == self.model().shown,
    {
        self.shown
    }

    /// Whether a slot is being named.
    pub fn is_creating(&self) -> (r: bool)
        ensures
            r == self.model().creating,
    {
        self.creating
    }

    /// The name typed so far.
    pub fn renaming(&self) -> (r: &str)
        ensures
            r@ == self.model().renaming,
    {
        self.renaming.as_str()
    }

    /// Answers a key; see `save_key_spec`.
    pub fn on_key(&mut self, key: SaveKey, is_press: bool, current: Option<(u8, bool)>) -> (r: SaveAction)
        ensures
            final(self).model() == save_key_spec(old(self).model(), key, is_press, current).0,
            action_view(r) == save_key_spec(old(self).model(), key, is_press, current).1,
    {
        if !self.shown {
            SaveAction::Nothing
        } else if !self.creating {
            self.choosing_key(key, is_press, current)
        } else {
            self.naming_key(key, is_press, current)
        }
    }

    fn choosing_key(&mut self, key: SaveKey, is_press: bool, current: Option<(u8, bool)>) -> (r: SaveAction)
        requires
            old(self).model().shown,
            !old(self).model().creating,
        ensures
            final(self).model() == save_key_spec(old(self).model(), key, is_press, current).0,
            action_view(r) == save_key_spec(old(self).model(), key, is_press, current).1,
    {
        let hides = is_press && match key {
            SaveKey::Esc => true,
            SaveKey::Char(c) => c == 'q',
            _ => false,
        };
        if is_press && key == SaveKey::Enter {
            match current {
                Some((id, has_file)) => {
                    if has_file {
                        SaveAction::Resave(id)
                    } else {
                        self.creating = true;
                        SaveAction::Nothing
                    }
                },
                None => SaveAction::Nothing,
            }
        } else if hides {
            self.shown = false;
            SaveAction::Hidden
        } else {
            SaveAction::ToSlotList
        }
    }

    fn naming_key(&mut self, key: SaveKey, is_press: bool, current: Option<(u8, bool)>) -> (r: SaveAction)
        requires
            old(self).model().shown,
            old(self).model().creating,
        ensures
            final(self).model() == save_key_spec(old(self).model(), key, is_press, current).0,
            action_view(r) == save_key_spec(old(self).model(), key, is_press, current).1,
    {
        let typed = match key {
            SaveKey::Char(c) => if is_safe_filename_char(c) { Some(c) } else { None },
            _ => None,
        };
        if key == SaveKey::Backspace {
            let _ = string_pop(&mut self.renaming);
            SaveAction::Nothing
        } else if let Some(c) = typed {
            string_push(&mut self.renaming, c);
            SaveAction::Nothing
        } else if is_press && key == SaveKey::Enter {
            self.creating = false;
            match current {
                Some((id, _)) => {
                    let mut name = String::new();
                    std::mem::swap(&mut name, &mut self.renaming);
                    if name.as_str().is_empty() {
                        proof { reveal_strlit("unnamed"); }
                        name = String::from_str("unnamed");
                        assert(name@ =~= unnamed());
                    }
                    SaveAction::SaveAs(id, name)
                },
                None => SaveAction::Nothing,
            }
        } else if is_press && key == SaveKey::Esc {
            self.creating = false;
            self.renaming = String::new();
            SaveAction::Nothing
        } else {
            SaveAction::Nothing
        }
    }
}

/// What the load screen asks of the game after a key.
#[derive(Debug, Clone, Copy, PartialEq, Eq, Structural)]
pub enum LoadAction {
    Nothing,
    /// Leave the screen: go back along the jump path.
    GoBack,
    /// Hand the key to the slot list.
    ToSlotList,
    /// Load the game saved in the slot with this id.
    Load(u8),
}

/// The load screen's answer to a key (`is_release` tells a release from a
/// press or repeat), given the selected slot with whether it has a file;
/// `confirming` is whether it waits for a yes or no. With no slot selected
/// nothing happens. While choosing: Enter on a slot with a file asks for
/// confirmation, `q` or Esc goes back, other pressed keys go to the slot
/// list. While confirming: `y` loads, `n`, `q` or Esc goes back to choosing.
/// Keys other than those listed are answered on release only.
pub open spec fn load_key_spec(confirming: bool, key: SaveKey, is_release: bool, current: Option<(u8, bool)>) -> (bool, LoadAction) {
    match current {
        None => (confirming, LoadAction::Nothing),
        Some((id, has_file)) => if !confirming {
            if key == SaveKey::Enter && is_release {
                (has_file, LoadAction::Nothing)
            } else if (key == SaveKey::Esc || key == SaveKey::Char('q')) && is_release {
                (false, LoadAction::GoBack)
            } else if !is_release {
                (false, LoadAction::ToSlotList)
            } else {
                (false, LoadAction::Nothing)
            }
        } else {
            if key == SaveKey::Char('y') && is_release {
                (false, LoadAction::Load(id))
            } else if (key == SaveKey::Char('n') || key == SaveKey::Char('q') || key == SaveKey::Esc) && is_release {
                (false, LoadAction::Nothing)
            } else {
                (true, LoadAction::Nothing)
            }
        },
    }
}

/// While the load screen asks for confirmation, releasing `n`, `q` or Esc
/// ends the confirmation without loading, so that a later `y` loads
/// nothing; only a released `y` loads, and it loads the selected slot.
pub proof fn law_load_confirmation(key: SaveKey, is_release: bool, id: u8, has_file: bool)
    ensures
        (key == SaveKey::Char('n') || key == SaveKey::Char('q') || key == SaveKey::Esc) && is_release ==> ({
            let (c, a) = load_key_spec(true, key, is_release, Some((id, has_file)));
            &&& !c
            &&& a == LoadAction::Nothing
            &&& !(load_key_spec(c, SaveKey::Char('y'), true, Some((id, has_file))).1 is Load)
        }),
        load_key_spec(true, key, is_release, Some((id, has_file))).1 is Load
            <==> (key == SaveKey::Char('y') && is_release),
        load_key_spec(true, key, is_release, Some((id, has_file))).1 is Load
            ==> load_key_spec(true, key, is_release, Some((id, has_file))).1 == LoadAction::Load(id),
{
}

/// Loading takes two released keys on a slot: Enter, then `y`. Only a slot
/// with a save file is loaded; on an empty slot the `y` does nothing.
pub proof fn law_enter_then_yes_loads(id: u8, has_file: bool)
    ensures
        ({
            let cur = Some((id, has_file));
            let (c, a) = load_key_spec(false, SaveKey::Enter, true, cur);
            &&& a == LoadAction::Nothing
            &&& c == has_file
            &&& load_key_spec(c, SaveKey::Char('y'), true, cur).1
                == (if has_file { LoadAction::Load(id) } else { LoadAction::Nothing })
        }),
{
}

/// The state of the load screen: whether it waits for the player to confirm.
pub struct LoadScreen {
    confirming: bool,
}

impl LoadScreen {
    pub closed spec fn is_confirming_spec(self) -> bool {
        self.confirming
    }

    /// Creates the screen, choosing a slot, whatever the arguments.
    pub fn spawn(name_args: HashMap<&str, &str>) -> (r: Self)
        ensures
            !r.is_confirming_spec(),
    {
        LoadScreen { confirming: false }
    }

    /// Whether the screen waits for a yes or no.
    pub fn is_confirming(&self) -> (r: bool)
        ensures
            r == self.is_confirming_spec(),
    {
        self.confirming
    }

    /// Leaving the screen drops a pending confirmation.
    pub fn on_quit(&mut self)
        ensures
            !final(self).is_confirming_spec(),
    {
        self.confirming = false;
    }

    /// Answers a key; see `load_key_spec`.
    pub fn on_key(&mut self, key: SaveKey, is_release: bool, current: Option<(u8, bool)>) -> (r: LoadAction)
        ensures
            final(self).is_confirming_spec() == load_key_spec(old(self).is_confirming_spec(), key, is_release, current).0,
            r == load_key_spec(old(self).is_confirming_spec(), key, is_release, current).1,
    {
        let (id, has_file) = match current {
            None => {
                return LoadAction::Nothing;
            },
            Some(c) => c,
        };
        if !self.confirming {
            if key == SaveKey::Enter && is_release {
                self.confirming = has_file;
                LoadAction::Nothing
            } else if (key == SaveKey::Esc || key == SaveKey::Char('q')) && is_release {
                LoadAction::GoBack
            } else if !is_release {
                LoadAction::ToSlotList
            } else {
                LoadAction::Nothing
            }
        } else {
            if key == SaveKey::Char('y') && is_release {
                self.confirming = false;
                LoadAction::Load(id)
            } else if (key == SaveKey::Char('n') || key == SaveKey::Char('q') || key == SaveKey::Esc) && is_release {
                self.confirming = false;
                LoadAction::Nothing
            } else {
                LoadAction::Nothing
            }
        }
    }
}

/// What the save screen asks of the game after a key.
#[derive(Debug, Clone, PartialEq, Eq)]
pub enum SaveScreenAction {
    Nothing,
    /// Go back to the dialogue screen.
    BackToDialogue,
    /// Hand the key to the slot list.
    ToSlotList,
    /// Save again into the slot with this id, stamping it with the current time.
    Resave(u8),
    /// Save into the slot with this id under the given name.
    SaveAs(u8, String),
}

/// Abstract form of a `SaveScreenAction`.
pub enum ScreenActionModel {
    Nothing,
    BackToDialogue,
    ToSlotList,
    Resave(u8),
    SaveAs(u8, Seq<char>),
}

pub open spec fn screen_action_view(a: SaveScreenAction) -> ScreenActionModel {
    match a {
        SaveScreenAction::Nothing => ScreenActionModel::Nothing,
        SaveScreenAction::BackToDialogue => ScreenActionModel::BackToDialogue,
        SaveScreenAction::ToSlotList => ScreenActionModel::ToSlotList,
        SaveScreenAction::Resave(id) => ScreenActionModel::Resave(id),
        SaveScreenAction::SaveAs(id, n) => ScreenActionModel::SaveAs(id, n@),
    }
}

/// Abstract state of the save screen: whether a slot is being named, and the name typed so far.
#[verifier::ext_equal]
pub struct NamingModel {
    pub creating: bool,
    pub renaming: Seq<char>,
}

/// The save screen's answer to a key (`is_release` tells a release from a
/// press or repeat), given the selected slot with whether it has a file.
/// While choosing: Enter (released) on a slot with a file saves it again,
/// on an empty slot starts naming it; `q` or Esc goes back to the dialogue;
/// other pressed keys go to the slot list. While naming: any character is
/// typed and Backspace deletes (on press or repeat); Enter or Esc (released)
/// saves under the name (`unnamed` when empty) and goes back to choosing.
pub open spec fn save_screen_key_spec(m: NamingModel, key: SaveKey, is_release: bool, current: Option<(u8, bool)>)
    -> (NamingModel, ScreenActionModel) {
    if !m.creating {
        if key == SaveKey::Enter && is_release {
            match current {
                Some((id, has_file)) => if has_file {
                    (m, ScreenActionModel::Resave(id))
                } else {
                    (NamingModel { creating: true, ..m }, ScreenActionModel::Nothing)
                },
                None => (m, ScreenActionModel::Nothing),
            }
        } else if key == SaveKey::Esc || key == SaveKey::Char('q') {
            (m, ScreenActionModel::BackToDialogue)
        } else if !is_release {
            (m, ScreenActionModel::ToSlotList)
        } else {
            (m, ScreenActionModel::Nothing)
        }
    } else {
        if key == SaveKey::Backspace && !is_release {
            (NamingModel { renaming: if m.renaming.len() > 0 { m.renaming.drop_last() } else { m.renaming }, ..m }, ScreenActionModel::Nothing)
        } else if key is Char && !is_release {
            (NamingModel { renaming: m.renaming.push(key->Char_0), ..m }, ScreenActionModel::Nothing)
        } else if (key == SaveKey::Enter || key == SaveKey::Esc) && is_release {
            match current {
                Some((id, _)) => (
                    NamingModel { creating: false, renaming: Seq::empty() },
                    ScreenActionModel::SaveAs(id, if m.renaming.len() == 0 { unnamed() } else { m.renaming }),
                ),
                None => (NamingModel { creating: false, ..m }, ScreenActionModel::Nothing),
            }
        } else {
            (m, ScreenActionModel::Nothing)
        }
    }
}

/// On the save screen, choosing a slot and releasing Enter saves again into
/// a slot that has a file and starts naming an empty one; Esc or `q` goes
/// back to the dialogue; while naming, a pressed or held Backspace deletes
/// the last typed character.
pub proof fn law_save_screen_keys(m: NamingModel, key: SaveKey, is_release: bool, id: u8, has_file: bool)
    ensures
        !m.creating ==> save_screen_key_spec(m, SaveKey::Enter, true, Some((id, has_file)))
            == (if has_file { (m, ScreenActionModel::Resave(id)) }
                else { (NamingModel { creating: true, ..m }, ScreenActionModel::Nothing) }),
        !m.creating && (key == SaveKey::Esc || key == SaveKey::Char('q'))
            ==> save_screen_key_spec(m, key, is_release, Some((id, has_file))) == (m, ScreenActionModel::BackToDialogue),
        m.creating && !is_release && m.renaming.len() > 0
            ==> save_screen_key_spec(m, SaveKey::Backspace, is_release, Some((id, has_file))).0.renaming
                == m.renaming.drop_last(),
{
}

/// The naming state after typing the characters `cs` (pressed) one by one.
pub open spec fn after_typing(m: NamingModel, cs: Seq<char>, current: Option<(u8, bool)>) -> NamingModel
    decreases cs.len(),
{
    if cs.len() == 0 {
        m
    } else {
        after_typing(save_screen_key_spec(m, SaveKey::Char(cs[0]), false, current).0, cs.drop_first(), current)
    }
}

/// While a slot is being named, each pressed character is appended to the
/// name; releasing Enter or Esc with a slot selected saves into that slot
/// under exactly the typed name when one was typed (`unnamed` otherwise)
/// and ends the naming with the name cleared.
pub proof fn law_typed_name_is_saved(m: NamingModel, cs: Seq<char>, key: SaveKey, id: u8, has_file: bool)
    requires
        m.creating,
        key == SaveKey::Enter || key == SaveKey::Esc,
    ensures
        after_typing(m, cs, Some((id, has_file))).creating,
        after_typing(m, cs, Some((id, has_file))).renaming == m.renaming + cs,
        ({
            let typed = after_typing(m, cs, Some((id, has_file)));
            let (m2, a) = save_screen_key_spec(typed, key, true, Some((id, has_file)));
            &&& typed.renaming.len() > 0 ==> a == ScreenActionModel::SaveAs(id, m.renaming + cs)
            &&& typed.renaming.len() == 0 ==> a == ScreenActionModel::SaveAs(id, unnamed())
            &&& !m2.creating
            &&& m2.renaming.len() == 0
        }),
    decreases cs.len(),
{
    if cs.len() > 0 {
        let m1 = save_screen_key_spec(m, SaveKey::Char(cs[0]), false, Some((id, has_file))).0;
        assert(m1.renaming == m.renaming.push(cs[0]));
        law_typed_name_is_saved(m1, cs.drop_first(), key, id, has_file);
        assert(m1.renaming + cs.drop_first() =~= m.renaming + cs);
    } else {
        assert(m.renaming + cs =~= m.renaming);
    }
}

/// The state of the save screen: whether a slot is being named, and the name typed so far.
pub struct SaveScreen {
    creating: bool,
    renaming: String,
}

impl SaveScreen {
    pub closed spec fn model(self) -> NamingModel {
        NamingModel { creating: self.creating, renaming: self.renaming@ }
    }

    /// Creates the screen, choosing a slot with no name typed, whatever the arguments.
    pub fn spawn(name_args: HashMap<&str, &str>) -> (r: Self)
        ensures
            r.model() == (NamingModel { creating: false, renaming: Seq::empty() }),
    {
        SaveScreen { creating: false, renaming: String::new() }
    }

    /// Whether a slot is being named.
    pub fn is_creating(&self) -> (r: bool)
        ensures
            r == self.model().creating,
    {
        self.creating
    }

    /// The name typed so far.
    pub fn renaming(&self) -> (r: &str)
        ensures
            r@ == self.model().renaming,
    {
        self.renaming.as_str()
    }

    /// Answers a key; see `save_screen_key_spec`.
    pub fn on_key(&mut self, key: SaveKey, is_release: bool, current: Option<(u8, bool)>) -> (r: SaveScreenAction)
        ensures
            final(self).model() == save_screen_key_spec(old(self).model(), key, is_release, current).0,
            screen_action_view(r) == save_screen_key_spec(old(self).model(), key, is_release, current).1,
    {
        if !self.creating {
            if key == SaveKey::Enter && is_release {
                match current {
                    Some((id, has_file)) => {
                        if has_file {
                            SaveScreenAction::Resave(id)
                        } else {
                            self.creating = true;
                            SaveScreenAction::Nothing
                        }
                    },
                    None => SaveScreenAction::Nothing,
                }
            } else if key == SaveKey::Esc || key == SaveKey::Char('q') {
                SaveScreenAction::BackToDialogue
            } else if !is_release {
                SaveScreenAction::ToSlotList
            } else {
                SaveScreenAction::Nothing
            }
        } else {
            let typed = match key {
                SaveKey::Char(c) => Some(c),
                _ => None,
            };
            if key == SaveKey::Backspace && !is_release {
                let _ = string_pop(&mut self.renaming);
                SaveScreenAction::Nothing
            } else if typed.is_some() && !is_release {
                let c = match typed {
                    Some(c) => c,
                    None => ' ',
                };
                string_push(&mut self.renaming, c);
                SaveScreenAction::Nothing
            } else if (key == SaveKey::Enter || key == SaveKey::Esc) && is_release {
                self.creating = false;
                match current {
                    Some((id, _)) => {
                        let mut name = String::new();
                        std::mem::swap(&mut name, &mut self.renaming);
                        if name.as_str().is_empty() {
                            proof { reveal_strlit("unnamed"); }
                            name = String::from_str("unnamed");
                            assert(name@ =~= unnamed());
                        }
                        SaveScreenAction::SaveAs(id, name)
                    },
                    None => SaveScreenAction::Nothing,
                }
            } else {
                SaveScreenAction::Nothing
            }
        }
    }
}

/// Every character of `s` may stand in a slot name.
pub open spec fn all_safe(s: Seq<char>) -> bool {
    forall|i: int| 0 <= i < s.len() ==> safe_filename_char(#[trigger] s[i])
}

/// The name being typed only ever holds characters allowed in slot names,
/// and so does every name a slot is saved under.
pub proof fn law_typed_names_are_safe(m: EditorModel, key: SaveKey, is_press: bool, current: Option<(u8, bool)>)
    requires
        all_safe(m.renaming),
    ensures
        all_safe(save_key_spec(m, key, is_press, current).0.renaming),
        save_key_spec(m, key, is_press, current).1 matches ActionModel::SaveAs(_, n) ==> all_safe(n),
{
    let r = m.renaming;
    if r.len() > 0 {
        assert forall|i: int| 0 <= i < r.drop_last().len() implies safe_filename_char(#[trigger] r.drop_last()[i]) by {
            assert(r.drop_last()[i] == r[i]);
        }
    }
    match key {
        SaveKey::Char(c) => {
            if safe_filename_char(c) {
                assert forall|i: int| 0 <= i < r.push(c).len() implies safe_filename_char(#[trigger] r.push(c)[i]) by {
                    if i < r.len() {
                        assert(r.push(c)[i] == r[i]);
                    }
                }
            }
        },
        _ => {},
    }
    assert(all_safe(unnamed()));
}

} // verus!
