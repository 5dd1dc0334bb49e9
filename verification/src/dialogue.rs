use vstd::prelude::*;
use crate::popups::KeyKind;

verus! {

/// What a save of the dialogue screen holds: the session being played and
/// the script state dumped when that session started.
#[derive(Debug, Clone)]
pub struct DialogueSceneSave {
    pub session_id: usize,
    pub ctx_dump: String,
}

/// Why the dialogue screen cannot be saved.
#[derive(Debug, Clone, Copy, PartialEq, Eq, Structural)]
pub enum DialogueError {
    /// No session has started since the last reset, so there is no snapshot to save.
    NoSessionSnapshot,
}

/// What the dialogue screen does when the player asks to go on.
#[derive(Debug, Clone, Copy, PartialEq, Eq, Structural)]
pub enum PushStep {
    /// The script waits: cut the waits short and end all animations.
    SkipWaits,
    /// Animations are running: end them.
    ForceOverAnimations,
    /// Go to the session `target`; `validate` when the script chose it, so
    /// that its existence is checked first.
    Advance { target: usize, validate: bool },
}

/// The answer to "go on": waits come first, then animations; otherwise the
/// session the script asked for, or the next one.
pub open spec fn push_step_spec(waiting: bool, animating: bool, current: usize, jump: Option<usize>) -> PushStep {
    if waiting {
        PushStep::SkipWaits
    } else if animating {
        PushStep::ForceOverAnimations
    } else {
        match jump {
            Some(t) => PushStep::Advance { target: t, validate: true },
            None => PushStep::Advance { target: (current + 1) as usize, validate: false },
        }
    }
}

/// Decides what "go on" does; see `push_step_spec`.
pub fn decide_push(waiting: bool, animating: bool, current: usize, jump: Option<usize>) -> (r: PushStep)
    requires
        !waiting && !animating && jump is None ==> current < usize::MAX,
    ensures
        r == push_step_spec(waiting, animating, current, jump),
{
    if waiting {
        PushStep::SkipWaits
    } else if animating {
        PushStep::ForceOverAnimations
    } else {
        match jump {
            Some(t) => PushStep::Advance { target: t, validate: true },
            None => PushStep::Advance { target: current + 1, validate: false },
        }
    }
}

/// A key as the dialogue screen reads it.
#[derive(Debug, Clone, Copy, PartialEq, Eq, Structural)]
pub enum DialogueKey {
    Enter,
    Backspace,
    Esc,
    Up,
    Char(char),
    Other,
}

/// What a key on the dialogue screen asks for.
#[derive(Debug, Clone, Copy, PartialEq, Eq, Structural)]
pub enum DialogueKeyAction {
    Nothing,
    /// Go on: skip waits, end animations, or move to the next session.
    TryPush,
    /// Open the script command line.
    OpenCmdLine,
    /// Save to the temporary slot and go to the main menu.
    LeaveToMain,
    OpenSave,
    OpenLoad,
    OpenSetting,
    OpenHistory,
}

/// The dialogue screen's answer to a key that no pop-up took (releases
/// are ignored): Enter, Backspace or space (pressed) and `a`/`A` (also held)
/// go on; Ctrl-`.` (pressed) opens the command line; Esc or `q` (pressed)
/// leave to the main menu; `s`, `l`, `c` and up open the save, load,
/// setting and history pop-ups.
pub open spec fn dialogue_key_spec(key: DialogueKey, kind: KeyKind, ctrl: bool) -> DialogueKeyAction {
    let press = kind == KeyKind::Press;
    if kind == KeyKind::Release {
        DialogueKeyAction::Nothing
    } else if (key == DialogueKey::Enter || key == DialogueKey::Backspace || key == DialogueKey::Char(' ')) && press {
        DialogueKeyAction::TryPush
    } else if key == DialogueKey::Char('a') || key == DialogueKey::Char('A') {
        DialogueKeyAction::TryPush
    } else if key == DialogueKey::Char('.') && ctrl && press {
        DialogueKeyAction::OpenCmdLine
    } else if (key == DialogueKey::Esc || key == DialogueKey::Char('q')) && press {
        DialogueKeyAction::LeaveToMain
    } else if key == DialogueKey::Char('s') {
        DialogueKeyAction::OpenSave
    } else if key == DialogueKey::Char('l') {
        DialogueKeyAction::OpenLoad
    } else if key == DialogueKey::Char('c') {
        DialogueKeyAction::OpenSetting
    } else if key == DialogueKey::Up {
        DialogueKeyAction::OpenHistory
    } else {
        DialogueKeyAction::Nothing
    }
}

/// On the dialogue screen `q` is a second Esc: pressing either leaves for
/// the main menu (saving to the temporary slot first), whatever the Ctrl key.
pub proof fn law_q_leaves_like_esc(ctrl: bool)
    ensures
        dialogue_key_spec(DialogueKey::Char('q'), KeyKind::Press, ctrl) == DialogueKeyAction::LeaveToMain,
        dialogue_key_spec(DialogueKey::Esc, KeyKind::Press, ctrl) == DialogueKeyAction::LeaveToMain,
        dialogue_key_spec(DialogueKey::Char('q'), KeyKind::Press, ctrl)
            == dialogue_key_spec(DialogueKey::Esc, KeyKind::Press, ctrl),
{
}

/// Only Esc and `q` leave for the main menu, and only when pressed.
pub proof fn law_only_esc_or_q_leaves(key: DialogueKey, kind: KeyKind, ctrl: bool)
    ensures
        dialogue_key_spec(key, kind, ctrl) == DialogueKeyAction::LeaveToMain
            <==> ((key == DialogueKey::Esc || key == DialogueKey::Char('q')) && kind == KeyKind::Press),
{
}

/// Decides what a key on the dialogue screen does; see `dialogue_key_spec`.
pub fn dialogue_key_action(key: DialogueKey, kind: KeyKind, ctrl: bool) -> (r: DialogueKeyAction)
    ensures
        r == dialogue_key_spec(key, kind, ctrl),
{
    let press = kind == KeyKind::Press;
    if kind == KeyKind::Release {
        DialogueKeyAction::Nothing
    } else if (key == DialogueKey::Enter || key == DialogueKey::Backspace || key == DialogueKey::Char(' ')) && press {
        DialogueKeyAction::TryPush
    } else if key == DialogueKey::Char('a') || key == DialogueKey::Char('A') {
        DialogueKeyAction::TryPush
    } else if key == DialogueKey::Char('.') && ctrl && press {
        DialogueKeyAction::OpenCmdLine
    } else if (key == DialogueKey::Esc || key == DialogueKey::Char('q')) && press {
        DialogueKeyAction::LeaveToMain
    } else if key == DialogueKey::Char('s') {
        DialogueKeyAction::OpenSave
    } else if key == DialogueKey::Char('l') {
        DialogueKeyAction::OpenLoad
    } else if key == DialogueKey::Char('c') {
        DialogueKeyAction::OpenSetting
    } else if key == DialogueKey::Up {
        DialogueKeyAction::OpenHistory
    } else {
        DialogueKeyAction::Nothing
    }
}

/// A mouse event goes on exactly when no pop-up is shown and the left button is released.
pub fn dialogue_mouse_pushes(popup_visible: bool, left_button_released: bool) -> (r: bool)
    ensures
        r == (!popup_visible && left_button_released),
{
    !popup_visible && left_button_released
}

/// Abstract state of a dialogue session.
#[verifier::ext_equal]
pub struct SessionModel {
    pub session: usize,
    pub snapshot: Option<Seq<char>>,
}

/// Abstract form of a save: the session and the snapshot.
pub open spec fn save_view(s: DialogueSceneSave) -> (usize, Seq<char>) {
    (s.session_id, s.ctx_dump@)
}

/// What saving gives: the session with its snapshot, or nothing before a session started.
pub open spec fn save_spec(m: SessionModel) -> Option<(usize, Seq<char>)> {
    match m.snapshot {
        Some(d) => Some((m.session, d)),
        None => None,
    }
}

/// The state after loading the save `s`.
pub open spec fn load_spec(s: (usize, Seq<char>)) -> SessionModel {
    SessionModel { session: s.0, snapshot: Some(s.1) }
}

/// The session the dialogue screen plays, and the script state dumped when
/// it started (none before the first session starts).
pub struct DialogueSession {
    session_id: usize,
    pre_session_ctx_dump: Option<String>,
}

pub open spec fn dump_view(d: Option<String>) -> Option<Seq<char>> {
    match d {
        Some(s) => Some(s@),
        None => None,
    }
}

impl DialogueSession {
    pub closed spec fn model(self) -> SessionModel {
        SessionModel { session: self.session_id, snapshot: dump_view(self.pre_session_ctx_dump) }
    }

    /// The first session, not started.
    pub fn new() -> (r: Self)
        ensures
            r.model() == (SessionModel { session: 1, snapshot: None }),
    {
        DialogueSession { session_id: 1, pre_session_ctx_dump: None }
    }

    /// The session being played.
    pub fn session_id(&self) -> (r: usize)
        ensures
            r == self.model().session,
    {
        self.session_id
    }

    /// Back to the first session, with no snapshot.
    pub fn reset_to_begin(&mut self)
        ensures
            final(self).model() == (SessionModel { session: 1, snapshot: None }),
    {
        self.session_id = 1;
        self.pre_session_ctx_dump = None;
    }

    /// The current session starts: `ctx_dump` is the script state at its start.
    pub fn freeze(&mut self, ctx_dump: String)
        ensures
            final(self).model() == (SessionModel { snapshot: Some(ctx_dump@), ..old(self).model() }),
    {
        self.pre_session_ctx_dump = Some(ctx_dump);
    }

    /// Moves to session `target`; returns the session left, to go back to if
    /// `target` cannot be started.
    pub fn move_to(&mut self, target: usize) -> (previous: usize)
        ensures
            previous == old(self).model().session,
            final(self).model() == (SessionModel { session: target, ..old(self).model() }),
    {
        let previous = self.session_id;
        self.session_id = target;
        previous
    }

    /// What a save holds: the session and its start snapshot; fails when no session has started.
    pub fn save_record(&self) -> (r: Result<DialogueSceneSave, DialogueError>)
        ensures
            match save_spec(self.model()) {
                Some(v) => r matches Ok(s) && save_view(s) == v,
                None => r == Err::<DialogueSceneSave, DialogueError>(DialogueError::NoSessionSnapshot),
            },
    {
        match &self.pre_session_ctx_dump {
            Some(d) => Ok(DialogueSceneSave { session_id: self.session_id, ctx_dump: d.clone() }),
            None => Err(DialogueError::NoSessionSnapshot),
        }
    }

    /// Takes the session and the start snapshot of a save.
    pub fn load_record(&mut self, save: DialogueSceneSave)
        ensures
            final(self).model() == load_spec(save_view(save)),
    {
        self.session_id = save.session_id;
        self.pre_session_ctx_dump = Some(save.ctx_dump);
    }
}

/// Loading what was saved gives back the session and its snapshot, whatever
/// state it is loaded into.
pub proof fn law_save_load_round_trip(m: SessionModel)
    requires
        m.snapshot is Some,
    ensures
        save_spec(m) is Some,
        load_spec(save_spec(m)->0) == m,
{
}

} // verus!
