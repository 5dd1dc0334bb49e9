use vstd::prelude::*;
use crate::text::{string_push, string_pop};

verus! {

/// How a key event came: pressed, held down (repeated), or released.
#[derive(Debug, Clone, Copy, PartialEq, Eq, Structural)]
pub enum KeyKind {
    Press,
    Repeat,
    Release,
}

/// A key as the dialogue history reads it.
#[derive(Debug, Clone, Copy, PartialEq, Eq, Structural)]
pub enum HistoryKey {
    Up,
    Down,
    PageUp,
    PageDown,
    Home,
    End,
    Esc,
    Char(char),
    Other,
}

/// What the history pop-up asks of the game after a key.
#[derive(Debug, Clone, Copy, PartialEq, Eq, Structural)]
pub enum HistoryAction {
    Nothing,
    /// The pop-up was hidden: hold off input for a moment.
    Hidden,
}

/// Abstract state of the history pop-up: shown or not, and how many records
/// the newest shown record lies above the newest one.
pub struct ScrollModel {
    pub shown: bool,
    pub offset: nat,
}

/// Paging up from offset `off` (the loop stops before `max_off`): records
/// are taken from the bottom while their heights, added up, stay within
/// `limit`. `None` when the running sum would leave the `u16` range.
pub open spec fn page_up_from(heights: Seq<u16>, total: nat, off: nat, max_off: nat, used: nat, limit: nat) -> Option<nat>
    decreases max_off - off,
{
    if off >= max_off {
        Some(off)
    } else {
        let h = heights[total - 1 - off] as nat;
        if used + h > u16::MAX {
            None
        } else if used + h > limit {
            Some(off)
        } else {
            page_up_from(heights, total, off + 1, max_off, used + h, limit)
        }
    }
}

/// Paging down from offset `off`: records newer than the bottom one are
/// taken while their heights, added up, stay within `limit`. `None` when the
/// running sum would leave the `u16` range.
pub open spec fn page_down_from(heights: Seq<u16>, total: nat, off: nat, used: nat, limit: nat) -> Option<nat>
    decreases off,
{
    if off == 0 {
        Some(0)
    } else {
        let h = heights[total - off] as nat;
        if used + h > u16::MAX {
            None
        } else if used + h > limit {
            Some(off)
        } else {
            page_down_from(heights, total, (off - 1) as nat, used + h, limit)
        }
    }
}

/// The inputs on which a key can be answered without leaving the ranges the
/// arithmetic works in: paging must not add heights past `u16::MAX`, and
/// paging down needs an offset within the history.
pub open spec fn history_key_ok(m: ScrollModel, key: HistoryKey, kind: KeyKind, heights: Seq<u16>, limit: nat) -> bool {
    let total = heights.len();
    !m.shown || total == 0 || kind != KeyKind::Release || match key {
        HistoryKey::PageUp => page_up_from(heights, total, m.offset, (total - 1) as nat, 0, limit) is Some,
        HistoryKey::PageDown => m.offset == 0 || (m.offset <= total
            && page_down_from(heights, total, m.offset, 0, limit) is Some),
        _ => true,
    }
}

/// The history pop-up's answer to a key, given the heights of the records
/// (oldest first) at the current width and the height of the list area.
/// Up or `k` (pressed) shows an older record, down or `j` a newer one; page
/// up and page down (released) move by as many records as fit; Home and End
/// (released) go to the oldest and newest; Esc or `q` (released) hide it.
pub open spec fn history_key_spec(m: ScrollModel, key: HistoryKey, kind: KeyKind, heights: Seq<u16>, limit: nat) -> (ScrollModel, HistoryAction) {
    let total = heights.len();
    if !m.shown || total == 0 {
        (m, HistoryAction::Nothing)
    } else {
        let max_off = (total - 1) as nat;
        let up = key == HistoryKey::Up || key == HistoryKey::Char('k');
        let down = key == HistoryKey::Down || key == HistoryKey::Char('j');
        let quit = key == HistoryKey::Esc || key == HistoryKey::Char('q');
        if up && kind == KeyKind::Press {
            (ScrollModel { offset: if m.offset < max_off { m.offset + 1 } else { m.offset }, ..m }, HistoryAction::Nothing)
        } else if down && kind == KeyKind::Press {
            (ScrollModel { offset: if m.offset > 0 { (m.offset - 1) as nat } else { 0 }, ..m }, HistoryAction::Nothing)
        } else if key == HistoryKey::PageUp && kind == KeyKind::Release {
            let n = page_up_from(heights, total, m.offset, max_off, 0, limit)->0;
            (ScrollModel { offset: if n < max_off { n } else { max_off }, ..m }, HistoryAction::Nothing)
        } else if key == HistoryKey::PageDown && kind == KeyKind::Release {
            if m.offset == 0 {
                (m, HistoryAction::Nothing)
            } else {
                (ScrollModel { offset: page_down_from(heights, total, m.offset, 0, limit)->0, ..m }, HistoryAction::Nothing)
            }
        } else if key == HistoryKey::Home && kind == KeyKind::Release {
            (ScrollModel { offset: max_off, ..m }, HistoryAction::Nothing)
        } else if key == HistoryKey::End && kind == KeyKind::Release {
            (ScrollModel { offset: 0, ..m }, HistoryAction::Nothing)
        } else if quit && kind == KeyKind::Release {
            (ScrollModel { shown: false, offset: 0 }, HistoryAction::Hidden)
        } else {
            (m, HistoryAction::Nothing)
        }
    }
}

/// The dialogue history pop-up: whether it is shown and how far it is scrolled back.
pub struct DialogueHistoryLs {
    shown: bool,
    scroll_offset: usize,
}

impl DialogueHistoryLs {
    pub closed spec fn model(self) -> ScrollModel {
        ScrollModel { shown: self.shown, offset: self.scroll_offset as nat }
    }

    /// Hidden, at the newest record.
    pub fn new() -> (r: Self)
        ensures
            r.model() == (ScrollModel { shown: false, offset: 0 }),
    {
        DialogueHistoryLs { shown: false, scroll_offset: 0 }
    }

    /// Shows or hides the pop-up; either way it goes back to the newest record.
    pub fn set_visual(&mut self, visual: bool)
        ensures
            final(self).model() == (ScrollModel { shown: visual, offset: 0 }),
    {
        self.scroll_offset = 0;
        self.shown = visual;
    }

    /// Whether the pop-up is shown.
    pub fn is_show(&self) -> (r: bool)
        ensures
            r == self.model().shown,
    {
        self.shown
    }

    /// How many records the newest shown record lies above the newest one.
    pub fn scroll_offset(&self) -> (r: usize)
        ensures
            r as nat == self.model().offset,
    {
        self.scroll_offset
    }

    /// Whether `on_key` can answer this key; see `history_key_ok`.
    pub fn key_fits(&self, key: HistoryKey, kind: KeyKind, heights: &Vec<u16>, list_height: u16) -> (r: bool)
        ensures
            r == history_key_ok(self.model(), key, kind, heights@, list_height as nat),
    {
        let total = heights.len();
        if !self.shown || total == 0 || kind != KeyKind::Release {
            return true;
        }
        if key == HistoryKey::PageUp {
            page_up(heights, self.scroll_offset, list_height).is_some()
        } else if key == HistoryKey::PageDown {
            self.scroll_offset == 0 || (self.scroll_offset <= total
                && page_down(heights, self.scroll_offset, list_height).is_some())
        } else {
            true
        }
    }

    /// Answers a key; see `history_key_spec`.
    pub fn on_key(&mut self, key: HistoryKey, kind: KeyKind, heights: &Vec<u16>, list_height: u16) -> (r: HistoryAction)
        requires
            history_key_ok(old(self).model(), key, kind, heights@, list_height as nat),
        ensures
            final(self).model() == history_key_spec(old(self).model(), key, kind, heights@, list_height as nat).0,
            r == history_key_spec(old(self).model(), key, kind, heights@, list_height as nat).1,
    {
        let total = heights.len();
        if !self.shown || total == 0 {
            return HistoryAction::Nothing;
        }
        let max_off = total - 1;
        let up = key == HistoryKey::Up || key == HistoryKey::Char('k');
        let down = key == HistoryKey::Down || key == HistoryKey::Char('j');
        let quit = key == HistoryKey::Esc || key == HistoryKey::Char('q');
        if up && kind == KeyKind::Press {
            if self.scroll_offset < max_off {
                self.scroll_offset = self.scroll_offset + 1;
            }
        } else if down && kind == KeyKind::Press {
            if self.scroll_offset > 0 {
                self.scroll_offset = self.scroll_offset - 1;
            }
        } else if key == HistoryKey::PageUp && kind == KeyKind::Release {
            let n = match page_up(heights, self.scroll_offset, list_height) {
                Some(n) => n,
                None => self.scroll_offset,
            };
            self.scroll_offset = if n < max_off { n } else { max_off };
        } else if key == HistoryKey::PageDown && kind == KeyKind::Release {
            if self.scroll_offset != 0 {
                self.scroll_offset = match page_down(heights, self.scroll_offset, list_height) {
                    Some(n) => n,
                    None => self.scroll_offset,
                };
            }
        } else if key == HistoryKey::Home && kind == KeyKind::Release {
            self.scroll_offset = max_off;
        } else if key == HistoryKey::End && kind == KeyKind::Release {
            self.scroll_offset = 0;
        } else if quit && kind == KeyKind::Release {
            self.set_visual(false);
            return HistoryAction::Hidden;
        }
        HistoryAction::Nothing
    }
}

/// The offset reached by paging up from `offset`; see `page_up_from`.
fn page_up(heights: &Vec<u16>, offset: usize, limit: u16) -> (r: Option<usize>)
    requires
        heights@.len() > 0,
    ensures
        r matches Some(n) ==> page_up_from(heights@, heights@.len(), offset as nat, (heights@.len() - 1) as nat, 0, limit as nat) == Some(n as nat),
        r is None ==> page_up_from(heights@, heights@.len(), offset as nat, (heights@.len() - 1) as nat, 0, limit as nat) is None,
{
    let total = heights.len();
    let max_off = total - 1;
    let mut used: u16 = 0;
    let mut off = offset;
    while off < max_off
        invariant
            total == heights@.len(),
            max_off == total - 1,
            used <= limit,
            page_up_from(heights@, total as nat, offset as nat, max_off as nat, 0, limit as nat)
                == page_up_from(heights@, total as nat, off as nat, max_off as nat, used as nat, limit as nat),
        decreases max_off - off,
    {
        let h = heights[total - 1 - off];
        if used as u32 + h as u32 > u16::MAX as u32 {
            return None;
        }
        if used + h > limit {
            return Some(off);
        }
        used = used + h;
        off = off + 1;
    }
    Some(off)
}

/// The offset reached by paging down from `offset`; see `page_down_from`.
fn page_down(heights: &Vec<u16>, offset: usize, limit: u16) -> (r: Option<usize>)
    requires
        offset <= heights@.len(),
    ensures
        r matches Some(n) ==> page_down_from(heights@, heights@.len(), offset as nat, 0, limit as nat) == Some(n as nat),
        r is None ==> page_down_from(heights@, heights@.len(), offset as nat, 0, limit as nat) is None,
{
    let total = heights.len();
    let mut used: u16 = 0;
    let mut off = offset;
    while off > 0
        invariant
            total == heights@.len(),
            off <= total,
            used <= limit,
            page_down_from(heights@, total as nat, offset as nat, 0, limit as nat)
                == page_down_from(heights@, total as nat, off as nat, used as nat, limit as nat),
        decreases off,
    {
        let h = heights[total - off];
        if used as u32 + h as u32 > u16::MAX as u32 {
            return None;
        }
        if used + h > limit {
            return Some(off);
        }
        used = used + h;
        off = off - 1;
    }
    Some(0)
}

proof fn lemma_page_down_le(heights: Seq<u16>, total: nat, off: nat, used: nat, limit: nat)
    requires
        page_down_from(heights, total, off, used, limit) is Some,
    ensures
        page_down_from(heights, total, off, used, limit)->0 <= off,
    decreases off,
{
    if off > 0 {
        let h = heights[total - off] as nat;
        if used + h <= u16::MAX && used + h <= limit {
            lemma_page_down_le(heights, total, (off - 1) as nat, used + h, limit);
        }
    }
}

/// Scrolling keeps the view inside the history: an offset that names a
/// record before a key still names one after it. While the pop-up is shown,
/// up or `k` (pressed) goes one record further back unless the oldest is
/// reached, down or `j` (pressed) one record forward, stopping at the
/// newest; Home (released) goes to the oldest record and End (released) to
/// the newest; page down (released) never goes further back; Esc or `q`
/// (released) hide the pop-up.
pub proof fn law_scroll_stays_in_history(m: ScrollModel, key: HistoryKey, kind: KeyKind, heights: Seq<u16>, limit: nat)
    requires
        history_key_ok(m, key, kind, heights, limit),
        heights.len() > 0,
        m.offset < heights.len(),
    ensures
        history_key_spec(m, key, kind, heights, limit).0.offset < heights.len(),
        m.shown && (key == HistoryKey::Up || key == HistoryKey::Char('k')) && kind == KeyKind::Press
            ==> history_key_spec(m, key, kind, heights, limit).0.offset
                == (if m.offset + 1 < heights.len() { m.offset + 1 } else { m.offset }),
        m.shown && (key == HistoryKey::Down || key == HistoryKey::Char('j')) && kind == KeyKind::Press
            ==> history_key_spec(m, key, kind, heights, limit).0.offset
                == (if m.offset > 0 { m.offset - 1 } else { 0 }),
        m.shown && key == HistoryKey::Home && kind == KeyKind::Release
            ==> history_key_spec(m, key, kind, heights, limit).0.offset == heights.len() - 1,
        m.shown && key == HistoryKey::End && kind == KeyKind::Release
            ==> history_key_spec(m, key, kind, heights, limit).0.offset == 0,
        m.shown && key == HistoryKey::PageDown && kind == KeyKind::Release
            ==> history_key_spec(m, key, kind, heights, limit).0.offset <= m.offset,
        m.shown && (key == HistoryKey::Esc || key == HistoryKey::Char('q')) && kind == KeyKind::Release
            ==> !history_key_spec(m, key, kind, heights, limit).0.shown
                && history_key_spec(m, key, kind, heights, limit).1 == HistoryAction::Hidden,
{
    let total = heights.len();
    if m.shown && key == HistoryKey::PageDown && kind == KeyKind::Release && m.offset != 0 {
        lemma_page_down_le(heights, total, m.offset, 0, limit);
    }
}

/// What the command line asks of the game after a key.
#[derive(Debug, Clone, PartialEq, Eq)]
pub enum CmdAction {
    Nothing,
    /// The command line was hidden (by the command `exit`): hold off input for a moment.
    Hidden,
    /// Run this text as a script session; clear the line if it ran.
    Execute(String),
}

/// A key as the command line reads it.
#[derive(Debug, Clone, Copy, PartialEq, Eq, Structural)]
pub enum CmdKey {
    Char(char),
    Backspace,
    Enter,
    Other,
}

/// Abstract state of the command line.
#[verifier::ext_equal]
pub struct CmdModel {
    pub shown: bool,
    pub input: Seq<char>,
}

pub open spec fn cmd_action_view(a: CmdAction) -> Option<Option<Seq<char>>> {
    match a {
        CmdAction::Nothing => None,
        CmdAction::Hidden => Some(None),
        CmdAction::Execute(s) => Some(Some(s@)),
    }
}

/// The command line's answer to a key (releases are ignored): characters are
/// typed, Backspace deletes the last one, Enter hides the line on `exit`
/// (clearing it) and otherwise asks to run what was typed.
/// The action is `None` for nothing, `Some(None)` for hidden, `Some(Some(t))` to run `t`.
pub open spec fn cmd_key_spec(m: CmdModel, key: CmdKey, kind: KeyKind) -> (CmdModel, Option<Option<Seq<char>>>) {
    if !m.shown || kind == KeyKind::Release {
        (m, None)
    } else {
        match key {
            CmdKey::Char(c) => (CmdModel { input: m.input.push(c), ..m }, None),
            CmdKey::Backspace => (CmdModel { input: if m.input.len() > 0 { m.input.drop_last() } else { m.input }, ..m }, None),
            CmdKey::Enter => if m.input == "exit"@ {
                (CmdModel { shown: false, input: Seq::empty() }, Some(None))
            } else {
                (m, Some(Some(m.input)))
            },
            CmdKey::Other => (m, None),
        }
    }
}

/// While the command line is shown, a Backspace that is pressed or held
/// (anything but a release) deletes the last typed character, if any, and
/// keeps the line shown; typing a character and deleting it again gives
/// back the line as it was.
pub proof fn law_backspace_deletes_last(m: CmdModel, kind: KeyKind, c: char, kind2: KeyKind)
    requires
        m.shown,
        kind != KeyKind::Release,
    ensures
        cmd_key_spec(m, CmdKey::Backspace, kind).0.shown,
        m.input.len() > 0 ==> cmd_key_spec(m, CmdKey::Backspace, kind).0.input == m.input.drop_last(),
        m.input.len() == 0 ==> cmd_key_spec(m, CmdKey::Backspace, kind).0.input.len() == 0,
        cmd_key_spec(m, CmdKey::Backspace, kind).1 is None,
        kind2 != KeyKind::Release ==> cmd_key_spec(cmd_key_spec(m, CmdKey::Char(c), kind2).0, CmdKey::Backspace, kind).0 == m,
{
    assert(m.input.push(c).drop_last() =~= m.input);
}

/// While the command line is shown, Enter (pressed or held) runs what is
/// typed and keeps it, except the command `exit`, which hides the line and
/// clears it; a release changes nothing.
pub proof fn law_enter_runs_input(m: CmdModel, kind: KeyKind, key: CmdKey)
    requires
        m.shown,
    ensures
        kind != KeyKind::Release && m.input != "exit"@
            ==> cmd_key_spec(m, CmdKey::Enter, kind) == (m, Some(Some(m.input))),
        kind != KeyKind::Release && m.input == "exit"@
            ==> cmd_key_spec(m, CmdKey::Enter, kind) == (CmdModel { shown: false, input: Seq::empty() }, Some(None::<Seq<char>>)),
        cmd_key_spec(m, key, KeyKind::Release) == (m, None::<Option<Seq<char>>>),
{
}

/// The script command line of the dialogue screen.
pub struct CmdInputItem {
    shown: bool,
    current_input: String,
}

impl CmdInputItem {
    pub closed spec fn model(self) -> CmdModel {
        CmdModel { shown: self.shown, input: self.current_input@ }
    }

    /// A shown command line with nothing typed.
    pub fn new() -> (r: Self)
        ensures
            r.model() == (CmdModel { shown: true, input: Seq::empty() }),
    {
        CmdInputItem { shown: true, current_input: String::new() }
    }

    /// Shows or hides the line.
    pub fn set_visual(&mut self, visual: bool)
        ensures
            final(self).model() == (CmdModel { shown: visual, ..old(self).model() }),
    {
        self.shown = visual;
    }

    /// Whether the line is shown.
    pub fn is_show(&self) -> (r: bool)
        ensures
            r == self.model().shown,
    {
        self.shown
    }

    /// What has been typed.
    pub fn current_input(&self) -> (r: &str)
        ensures
            r@ == self.model().input,
    {
        self.current_input.as_str()
    }

    /// Clears the line, once a command has run.
    pub fn clear_input(&mut self)
        ensures
            final(self).model() == (CmdModel { input: Seq::empty(), ..old(self).model() }),
    {
        self.current_input = String::new();
    }

    /// Answers a key; see `cmd_key_spec`.
    pub fn on_key(&mut self, key: CmdKey, kind: KeyKind) -> (r: CmdAction)
        ensures
            final(self).model() == cmd_key_spec(old(self).model(), key, kind).0,
            cmd_action_view(r) == cmd_key_spec(old(self).model(), key, kind).1,
    {
        if !self.shown || kind == KeyKind::Release {
            return CmdAction::Nothing;
        }
        match key {
            CmdKey::Char(c) => {
                string_push(&mut self.current_input, c);
                CmdAction::Nothing
            },
            CmdKey::Backspace => {
                let _ = string_pop(&mut self.current_input);
                CmdAction::Nothing
            },
            CmdKey::Enter => {
                if is_exit(self.current_input.as_str()) {
                    self.shown = false;
                    self.current_input = String::new();
                    CmdAction::Hidden
                } else {
                    CmdAction::Execute(self.current_input.clone())
                }
            },
            CmdKey::Other => CmdAction::Nothing,
        }
    }
}

/// Whether `s` is the command `exit`.
fn is_exit(s: &str) -> (r: bool)
    ensures
        r == (s@ == "exit"@),
{
    proof { reveal_strlit("exit"); }
    let n = s.unicode_len();
    if n != 4 {
        return false;
    }
    let r = s.get_char(0) == 'e' && s.get_char(1) == 'x' && s.get_char(2) == 'i' && s.get_char(3) == 't';
    proof {
        if r {
            assert(s@ =~= "exit"@);
        }
    }
    r
}

} // verus!
