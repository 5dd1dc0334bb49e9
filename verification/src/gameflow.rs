use vstd::prelude::*;
use crate::screens::{UserScreen, FlowError, screen_name, is_spawnable};
use crate::table::NameTable;

verus! {

/// Named arguments handed to a screen when it becomes active.
pub type NamedArgs = NameTable<String>;

/// Milliseconds for which input events are held off after a screen change.
pub const SCREEN_SWITCH_COOL_DOWN_MS: u64 = 300;

/// What the screens outside the flow manager must do after a flow decision, in order.
#[derive(Debug)]
pub enum ScreenCall {
    /// Create the screen object for the name, of the given kind.
    Spawn(String, UserScreen),
    /// Put the screen with this name to sleep.
    Sleep(String),
    /// Make the screen with this name active, with its active-state arguments.
    Activate(String),
    /// Hold off input events for this many milliseconds.
    CoolDown(u64),
}

/// Abstract form of a `ScreenCall`.
pub enum CallModel {
    Spawn(Seq<char>, UserScreen),
    Sleep(Seq<char>),
    Activate(Seq<char>),
    CoolDown(nat),
}

pub open spec fn call_view(c: ScreenCall) -> CallModel {
    match c {
        ScreenCall::Spawn(n, k) => CallModel::Spawn(n@, k),
        ScreenCall::Sleep(n) => CallModel::Sleep(n@),
        ScreenCall::Activate(n) => CallModel::Activate(n@),
        ScreenCall::CoolDown(ms) => CallModel::CoolDown(ms as nat),
    }
}

pub open spec fn calls_view(v: Seq<ScreenCall>) -> Seq<CallModel> {
    v.map_values(|c: ScreenCall| call_view(c))
}

/// What `ensure` found: the kind of the screen, and whether it was created just now.
#[derive(Debug, Clone, Copy, PartialEq, Eq, Structural)]
pub struct EnsureOutcome {
    pub kind: UserScreen,
    pub spawned: bool,
}

/// What the screens' own calls gave during a switch: the screen being left
/// is put to sleep first, then the screen being entered is activated.
#[derive(Debug, Clone, Copy, PartialEq, Eq, Structural)]
pub enum ScreensOutcome {
    /// Both calls succeeded.
    Done,
    /// The screen being left failed to go to sleep.
    SleepFailed,
    /// The screen being entered failed to become active.
    ActivateFailed,
}

/// Whether the game is running or has been asked to quit.
#[derive(Debug, Clone, Copy, PartialEq, Eq, Structural)]
pub enum FlowState {
    Initing,
    ReadyQuit,
}

/// Abstract state of the flow manager.
#[verifier::ext_equal]
pub struct FlowModel {
    pub cur: Seq<char>,
    pub scenes: Map<Seq<char>, UserScreen>,
    pub active_states: Map<Seq<char>, Map<Seq<char>, String>>,
    pub ready_quit: bool,
    pub stack: Seq<Seq<char>>,
}

/// The screen that `name` names, if any.
pub open spec fn parse_screen(name: Seq<char>) -> Option<UserScreen> {
    if exists|s: UserScreen| screen_name(s) == name {
        Some(choose|s: UserScreen| screen_name(s) == name)
    } else {
        None
    }
}

/// `ensure`: a known screen is found; an unknown name is parsed and, when the
/// screen can be created, recorded as created.
pub open spec fn ensure_spec(scenes: Map<Seq<char>, UserScreen>, name: Seq<char>)
    -> Result<(Map<Seq<char>, UserScreen>, EnsureOutcome), FlowError> {
    if scenes.contains_key(name) {
        Ok((scenes, EnsureOutcome { kind: scenes[name], spawned: false }))
    } else {
        match parse_screen(name) {
            None => Err(FlowError::UnknownScreen),
            Some(s) => if is_spawnable(s) {
                Ok((scenes.insert(name, s), EnsureOutcome { kind: s, spawned: true }))
            } else {
                Err(FlowError::NoScreen)
            },
        }
    }
}

pub open spec fn spawn_calls(name: Seq<char>, o: EnsureOutcome) -> Seq<CallModel> {
    if o.spawned { seq![CallModel::Spawn(name, o.kind)] } else { Seq::empty() }
}

/// Making `name` the current screen, given what the screens' own calls
/// gave: the new state and the calls to make, or the error. An unknown or
/// uncreatable screen changes nothing. Switching to another screen puts the
/// current one (if any) to sleep and activates the new one with its
/// arguments, which start out empty. When the sleep fails, only the newly
/// created screen is kept; when the activation fails, the new screen's
/// arguments are kept too; either way the current screen stays.
pub open spec fn switch_spec(m: FlowModel, name: Seq<char>, outcome: ScreensOutcome) -> (FlowModel, Result<Seq<CallModel>, FlowError>) {
    match ensure_spec(m.scenes, name) {
        Err(e) => (m, Err(e)),
        Ok((scenes, o)) => {
            if m.cur != name {
                let sleep = if m.cur.len() != 0 { seq![CallModel::Sleep(m.cur)] } else { Seq::empty() };
                let states = if m.active_states.contains_key(name) {
                    m.active_states
                } else {
                    m.active_states.insert(name, Map::empty())
                };
                if m.cur.len() != 0 && outcome == ScreensOutcome::SleepFailed {
                    (FlowModel { scenes, ..m }, Err(FlowError::ScreenFailed))
                } else if outcome == ScreensOutcome::ActivateFailed {
                    (FlowModel { scenes, active_states: states, ..m }, Err(FlowError::ScreenFailed))
                } else {
                    (
                        FlowModel { cur: name, scenes, active_states: states, ..m },
                        Ok(spawn_calls(name, o) + sleep
                            + seq![CallModel::Activate(name), CallModel::CoolDown(SCREEN_SWITCH_COOL_DOWN_MS as nat)]),
                    )
                }
            } else {
                (
                    FlowModel { scenes, ..m },
                    Ok(spawn_calls(name, o) + seq![CallModel::CoolDown(SCREEN_SWITCH_COOL_DOWN_MS as nat)]),
                )
            }
        },
    }
}

/// Making `name` the current screen when the screens' calls succeed.
pub open spec fn set_current_spec(m: FlowModel, name: Seq<char>) -> (FlowModel, Result<Seq<CallModel>, FlowError>) {
    switch_spec(m, name, ScreensOutcome::Done)
}

/// `go_screen` given what the screens' calls gave: switch to `name` and,
/// when that succeeds, remember it on the jump stack.
pub open spec fn go_screen_after_spec(m: FlowModel, name: Seq<char>, outcome: ScreensOutcome) -> (FlowModel, Result<Seq<CallModel>, FlowError>) {
    let (m1, r) = switch_spec(m, name, outcome);
    match r {
        Ok(calls) => (FlowModel { stack: m1.stack.push(name), ..m1 }, Ok(calls)),
        Err(e) => (m1, Err(e)),
    }
}

/// `go_screen`: switch to `name` and remember it on the jump stack.
pub open spec fn go_screen_spec(m: FlowModel, name: Seq<char>) -> (FlowModel, Result<Seq<CallModel>, FlowError>) {
    go_screen_after_spec(m, name, ScreensOutcome::Done)
}

/// The screen `go_back_screen` goes to: the last of the jump path, or the
/// main screen when the path is empty.
pub open spec fn go_back_target(m: FlowModel) -> Seq<char> {
    if m.stack.len() > 0 { m.stack.last() } else { screen_name(UserScreen::Main) }
}

/// `go_back_screen` given what the screens' calls gave: pop the jump stack
/// (the main screen when it is empty) and switch there; the popped entry
/// stays popped even when the switch fails.
pub open spec fn go_back_after_spec(m: FlowModel, outcome: ScreensOutcome) -> (FlowModel, Seq<char>, Result<Seq<CallModel>, FlowError>) {
    let stack = if m.stack.len() > 0 { m.stack.drop_last() } else { m.stack };
    let target = go_back_target(m);
    let (m1, r) = switch_spec(FlowModel { stack, ..m }, target, outcome);
    (m1, target, r)
}

/// `go_back_screen`: pop the jump stack (the main screen when it is empty) and switch there.
pub open spec fn go_back_spec(m: FlowModel) -> (FlowModel, Seq<char>, Result<Seq<CallModel>, FlowError>) {
    go_back_after_spec(m, ScreensOutcome::Done)
}

pub open spec fn result_view(r: Result<Vec<ScreenCall>, FlowError>) -> Result<Seq<CallModel>, FlowError> {
    match r {
        Ok(v) => Ok(calls_view(v@)),
        Err(e) => Err(e),
    }
}

/// After a successful screen command: going to the main screen forgets the jump path.
pub open spec fn finish_go_cmd(m: FlowModel, name: Seq<char>) -> FlowModel {
    if name == screen_name(UserScreen::Main) { FlowModel { stack: Seq::empty(), ..m } } else { m }
}

/// The game's `GoScene` command: the screen is created if it is not known,
/// made current and appended to the jump path; the kind of the screen is returned.
pub open spec fn go_cmd_spec(m: FlowModel, name: Seq<char>) -> (FlowModel, Result<(UserScreen, Seq<CallModel>), FlowError>) {
    if !m.scenes.contains_key(name) {
        match ensure_spec(m.scenes, name) {
            Err(e) => (m, Err(e)),
            Ok((sc, o)) => {
                let (m2, r) = go_screen_spec(FlowModel { scenes: sc, ..m }, name);
                match r {
                    Err(e) => (m2, Err(e)),
                    Ok(c) => (finish_go_cmd(m2, name), Ok((o.kind, spawn_calls(name, o) + c))),
                }
            },
        }
    } else {
        let (m1, r) = go_screen_spec(m, name);
        match r {
            Err(e) => (m1, Err(e)),
            Ok(c) => match ensure_spec(m1.scenes, name) {
                Err(e) => (m1, Err(e)),
                Ok((sc, o)) => (
                    finish_go_cmd(FlowModel { scenes: sc, ..m1 }, name),
                    Ok((o.kind, c + spawn_calls(name, o))),
                ),
            },
        }
    }
}

/// Navigation between screens: which screens exist, which one is current,
/// the path taken to it, and whether the game is quitting.
pub struct GameFlowMgr {
    cur_scene: String,
    scenes: NameTable<UserScreen>,
    active_states: NameTable<NamedArgs>,
    state: FlowState,
    jump_stack: Vec<String>,
}

impl GameFlowMgr {
    /// The current screen, when there is one, is a known screen.
    pub closed spec fn wf(self) -> bool {
        self.cur_scene@.len() == 0 || self.scenes.map().contains_key(self.cur_scene@)
    }

    pub closed spec fn model(self) -> FlowModel {
        FlowModel {
            cur: self.cur_scene@,
            scenes: self.scenes.map(),
            active_states: self.active_states.map().map_values(|t: NamedArgs| t.map()),
            ready_quit: self.state == FlowState::ReadyQuit,
            stack: self.jump_stack@.map_values(|s: String| s@),
        }
    }

    /// A manager with no screen yet, an empty jump path, not quitting.
    pub fn new() -> (r: GameFlowMgr)
        ensures
            r.wf(),
            r.model().cur == Seq::<char>::empty(),
            r.model().scenes == Map::<Seq<char>, UserScreen>::empty(),
            r.model().active_states == Map::<Seq<char>, Map<Seq<char>, String>>::empty(),
            !r.model().ready_quit,
            r.model().stack == Seq::<Seq<char>>::empty(),
    {
        let r = GameFlowMgr {
            cur_scene: String::new(),
            scenes: NameTable::new(),
            active_states: NameTable::new(),
            state: FlowState::Initing,
            jump_stack: Vec::new(),
        };
        assert(r.model().active_states =~= Map::<Seq<char>, Map<Seq<char>, String>>::empty());
        assert(r.model().stack =~= Seq::<Seq<char>>::empty());
        r
    }

    /// Sets the arguments the screen `screen_name` is activated with.
    pub fn pre_active_states_set(&mut self, screen_name: String, name_args: NamedArgs)
        ensures
            final(self).wf() == old(self).wf(),
            final(self).model() == (FlowModel {
                active_states: old(self).model().active_states.insert(screen_name@, name_args.map()),
                ..old(self).model()
            }),
    {
        let ghost k = screen_name@;
        let ghost v = name_args.map();
        self.active_states.insert(screen_name, name_args);
        assert(self.model().active_states =~= old(self).model().active_states.insert(k, v));
    }

    /// The arguments the screen `screen_name` is activated with.
    pub fn active_args(&self, screen_name: &String) -> (r: Option<&NamedArgs>)
        ensures
            r is Some <==> self.model().active_states.contains_key(screen_name@),
            r matches Some(a) ==> a.map() == self.model().active_states[screen_name@],
    {
        self.active_states.get(screen_name)
    }

    fn set_current(&mut self, screen_name: &String, outcome: ScreensOutcome) -> (r: Result<Vec<ScreenCall>, FlowError>)
        requires
            old(self).wf(),
        ensures
            final(self).wf(),
            final(self).model() == switch_spec(old(self).model(), screen_name@, outcome).0,
            result_view(r) == switch_spec(old(self).model(), screen_name@, outcome).1,
    {
        let ghost m0 = self.model();
        let mut calls: Vec<ScreenCall> = Vec::new();
        let o = match self.ensure(screen_name.clone()) {
            Ok(o) => o,
            Err(e) => {
                return Err(e);
            },
        };
        let ghost m1 = self.model();
        if o.spawned {
            calls.push(ScreenCall::Spawn(screen_name.clone(), o.kind));
        }
        proof {
            assert(calls_view(calls@) =~= spawn_calls(screen_name@, o));
        }
        if self.cur_scene != *screen_name {
            if !self.cur_scene.as_str().is_empty() {
                let pre = self.cur_scene.clone();
                let _ = self.ensure(pre.clone());
                if outcome == ScreensOutcome::SleepFailed {
                    proof {
                        assert(self.model() =~= switch_spec(m0, screen_name@, outcome).0);
                    }
                    return Err(FlowError::ScreenFailed);
                }
                let ghost before = calls_view(calls@);
                calls.push(ScreenCall::Sleep(pre));
                proof { assert(calls_view(calls@) =~= before.push(CallModel::Sleep(m0.cur))); }
            }
            if !self.active_states.contains_key(screen_name) {
                let ghost k = screen_name@;
                self.active_states.insert(screen_name.clone(), NameTable::new());
                proof {
                    assert(self.model().active_states =~= m1.active_states.insert(k, Map::empty()));
                }
            }
            if outcome == ScreensOutcome::ActivateFailed {
                proof {
                    assert(self.model() =~= switch_spec(m0, screen_name@, outcome).0);
                }
                return Err(FlowError::ScreenFailed);
            }
            let ghost before = calls_view(calls@);
            calls.push(ScreenCall::Activate(screen_name.clone()));
            proof { assert(calls_view(calls@) =~= before.push(CallModel::Activate(screen_name@))); }
        }
        let ghost before = calls_view(calls@);
        calls.push(ScreenCall::CoolDown(SCREEN_SWITCH_COOL_DOWN_MS));
        proof { assert(calls_view(calls@) =~= before.push(CallModel::CoolDown(SCREEN_SWITCH_COOL_DOWN_MS as nat))); }
        self.cur_scene = screen_name.clone();
        proof {
            let (mm, rr) = switch_spec(m0, screen_name@, outcome);
            assert(self.model() =~= mm);
            assert(calls_view(calls@) =~= rr.unwrap());
        }
        Ok(calls)
    }

    /// Goes back along the jump path: pops it and makes the popped screen
    /// current (the main screen when the path is empty). Returns its name.
    pub fn go_back_screen(&mut self) -> (r: Result<(String, Vec<ScreenCall>), FlowError>)
        requires
            old(self).wf(),
        ensures
            final(self).wf(),
            final(self).model() == go_back_spec(old(self).model()).0,
            match r {
                Ok((name, calls)) => name@ == go_back_spec(old(self).model()).1
                    && go_back_spec(old(self).model()).2 == Ok::<Seq<CallModel>, FlowError>(calls_view(calls@)),
                Err(e) => go_back_spec(old(self).model()).2 == Err::<Seq<CallModel>, FlowError>(e),
            },
    {
        self.go_back_screen_after(ScreensOutcome::Done)
    }

    /// `go_back_screen` once the screens' own calls for the switch have been
    /// made (see `switch_calls` and `back_target`): `outcome` is what they gave.
    pub fn go_back_screen_after(&mut self, outcome: ScreensOutcome) -> (r: Result<(String, Vec<ScreenCall>), FlowError>)
        requires
            old(self).wf(),
        ensures
            final(self).wf(),
            final(self).model() == go_back_after_spec(old(self).model(), outcome).0,
            match r {
                Ok((name, calls)) => name@ == go_back_after_spec(old(self).model(), outcome).1
                    && go_back_after_spec(old(self).model(), outcome).2 == Ok::<Seq<CallModel>, FlowError>(calls_view(calls@)),
                Err(e) => go_back_after_spec(old(self).model(), outcome).2 == Err::<Seq<CallModel>, FlowError>(e),
            },
    {
        let ghost m0 = self.model();
        let pre_screen = match self.jump_stack.pop() {
            Some(p) => p,
            None => UserScreen::Main.to_string(),
        };
        proof {
            assert(self.model().stack =~= (if m0.stack.len() > 0 { m0.stack.drop_last() } else { m0.stack }));
            assert(self.model() =~= FlowModel { stack: self.model().stack, ..m0 });
        }
        let calls = self.set_current(&pre_screen, outcome)?;
        Ok((pre_screen, calls))
    }

    /// The screen `go_back_screen` would go to: the last of the jump path, or
    /// the main screen when the path is empty.
    pub fn back_target(&self) -> (r: String)
        ensures
            r@ == go_back_target(self.model()),
    {
        let n = self.jump_stack.len();
        if n > 0 {
            self.jump_stack[n - 1].clone()
        } else {
            UserScreen::Main.to_string()
        }
    }

    /// Makes `screen_name` current and appends it to the jump path.
    pub fn go_screen(&mut self, screen_name: &String) -> (r: Result<Vec<ScreenCall>, FlowError>)
        requires
            old(self).wf(),
        ensures
            final(self).wf(),
            final(self).model() == go_screen_spec(old(self).model(), screen_name@).0,
            result_view(r) == go_screen_spec(old(self).model(), screen_name@).1,
    {
        self.go_screen_after(screen_name, ScreensOutcome::Done)
    }

    /// `go_screen` once the screens' own calls for the switch have been made
    /// (see `switch_calls`): `outcome` is what they gave. When a call failed,
    /// the current screen and the jump path stay as they were.
    pub fn go_screen_after(&mut self, screen_name: &String, outcome: ScreensOutcome) -> (r: Result<Vec<ScreenCall>, FlowError>)
        requires
            old(self).wf(),
        ensures
            final(self).wf(),
            final(self).model() == go_screen_after_spec(old(self).model(), screen_name@, outcome).0,
            result_view(r) == go_screen_after_spec(old(self).model(), screen_name@, outcome).1,
    {
        let calls = self.set_current(screen_name, outcome)?;
        let ghost m1 = self.model();
        self.jump_stack.push(screen_name.clone());
        proof {
            assert(self.model().stack =~= m1.stack.push(screen_name@));
            assert(self.model() =~= FlowModel { stack: m1.stack.push(screen_name@), ..m1 });
        }
        Ok(calls)
    }

    /// The calls a switch to `screen_name` asks of the screens, in order,
    /// without changing anything: they are the calls `go_screen` hands out.
    pub fn switch_calls(&self, screen_name: &String) -> (r: Result<Vec<ScreenCall>, FlowError>)
        requires
            self.wf(),
        ensures
            result_view(r) == set_current_spec(self.model(), screen_name@).1,
    {
        let o = match self.scenes.get(screen_name) {
            Some(k) => EnsureOutcome { kind: *k, spawned: false },
            None => match UserScreen::from_name(screen_name) {
                None => {
                    proof {
                        assert(!(exists|s: UserScreen| crate::screens::screen_name(s) == screen_name@));
                    }
                    return Err(FlowError::UnknownScreen);
                },
                Some(s) => {
                    proof {
                        crate::screens::law_screen_name_round_trip(s);
                        assert(parse_screen(screen_name@) == Some(s));
                    }
                    match s.spawn() {
                        Ok(kind) => EnsureOutcome { kind, spawned: true },
                        Err(e) => {
                            return Err(e);
                        },
                    }
                },
            },
        };
        let mut calls: Vec<ScreenCall> = Vec::new();
        if o.spawned {
            calls.push(ScreenCall::Spawn(screen_name.clone(), o.kind));
        }
        proof {
            assert(calls_view(calls@) =~= spawn_calls(screen_name@, o));
        }
        if self.cur_scene != *screen_name {
            if !self.cur_scene.as_str().is_empty() {
                let ghost before = calls_view(calls@);
                calls.push(ScreenCall::Sleep(self.cur_scene.clone()));
                proof { assert(calls_view(calls@) =~= before.push(CallModel::Sleep(self.model().cur))); }
            }
            let ghost before = calls_view(calls@);
            calls.push(ScreenCall::Activate(screen_name.clone()));
            proof { assert(calls_view(calls@) =~= before.push(CallModel::Activate(screen_name@))); }
        }
        let ghost before = calls_view(calls@);
        calls.push(ScreenCall::CoolDown(SCREEN_SWITCH_COOL_DOWN_MS));
        proof {
            assert(calls_view(calls@) =~= before.push(CallModel::CoolDown(SCREEN_SWITCH_COOL_DOWN_MS as nat)));
            assert(calls_view(calls@) =~= set_current_spec(self.model(), screen_name@).1.unwrap());
        }
        Ok(calls)
    }

    /// Forgets the jump path.
    pub fn clear_jump_path(&mut self)
        ensures
            final(self).wf() == old(self).wf(),
            final(self).model() == (FlowModel { stack: Seq::empty(), ..old(self).model() }),
    {
        self.jump_stack.clear();
        assert(self.model().stack =~= Seq::<Seq<char>>::empty());
        assert(self.model() =~= FlowModel { stack: Seq::empty(), ..old(self).model() });
    }

    /// Records `scene` as the screen named `screen_name`.
    pub fn set_scene(&mut self, screen_name: String, scene: UserScreen)
        ensures
            old(self).wf() ==> final(self).wf(),
            final(self).model() == (FlowModel {
                scenes: old(self).model().scenes.insert(screen_name@, scene),
                ..old(self).model()
            }),
    {
        self.scenes.insert(screen_name, scene);
    }

    /// The screen named `screen_name`, if it is known.
    pub fn get_scene(&self, screen_name: &String) -> (r: Option<UserScreen>)
        ensures
            r is Some <==> self.model().scenes.contains_key(screen_name@),
            r matches Some(k) ==> k == self.model().scenes[screen_name@],
    {
        match self.scenes.get(screen_name) {
            Some(k) => Some(*k),
            None => None,
        }
    }

    /// Asks the game to quit.
    pub fn force_quit(&mut self)
        ensures
            final(self).wf() == old(self).wf(),
            final(self).model() == (FlowModel { ready_quit: true, ..old(self).model() }),
    {
        self.state = FlowState::ReadyQuit;
    }

    /// Whether the game has been asked to quit.
    pub fn is_ready_quit(&self) -> (r: bool)
        ensures
            r == self.model().ready_quit,
    {
        self.state == FlowState::ReadyQuit
    }

    /// The current screen, if there is one.
    pub fn cur_screen(&self) -> (r: Option<UserScreen>)
        ensures
            r is Some <==> self.model().scenes.contains_key(self.model().cur),
            r matches Some(k) ==> k == self.model().scenes[self.model().cur],
    {
        self.get_scene(&self.cur_scene)
    }

    /// Finds the screen `screen_name`, creating it when it is not known yet:
    /// fails for a name that is no screen's, or for a screen the game cannot create.
    pub fn ensure(&mut self, screen_name: String) -> (r: Result<EnsureOutcome, FlowError>)
        ensures
            old(self).wf() ==> final(self).wf(),
            match ensure_spec(old(self).model().scenes, screen_name@) {
                Ok((scenes, o)) => r == Ok::<EnsureOutcome, FlowError>(o)
                    && final(self).model() == (FlowModel { scenes, ..old(self).model() }),
                Err(e) => r == Err::<EnsureOutcome, FlowError>(e) && final(self).model() == old(self).model(),
            },
    {
        match self.scenes.get(&screen_name) {
            Some(k) => {
                return Ok(EnsureOutcome { kind: *k, spawned: false });
            },
            None => {},
        }
        match UserScreen::from_name(&screen_name) {
            None => {
                proof {
                    assert(!(exists|s: UserScreen| crate::screens::screen_name(s) == screen_name@));
                }
                Err(FlowError::UnknownScreen)
            },
            Some(s) => {
                proof {
                    crate::screens::law_screen_name_round_trip(s);
                    assert(parse_screen(screen_name@) == Some(s));
                }
                match s.spawn() {
                    Ok(kind) => {
                        let ghost k = screen_name@;
                        self.scenes.insert(screen_name, kind);
                        Ok(EnsureOutcome { kind, spawned: true })
                    },
                    Err(e) => Err(e),
                }
            },
        }
    }
}

/// Ensuring a screen a second time finds it, unchanged, without creating it again.
pub proof fn law_ensure_idempotent(scenes: Map<Seq<char>, UserScreen>, name: Seq<char>)
    requires
        ensure_spec(scenes, name) is Ok,
    ensures
        ({
            let (sc1, o) = ensure_spec(scenes, name).unwrap();
            ensure_spec(sc1, name) == Ok::<(Map<Seq<char>, UserScreen>, EnsureOutcome), FlowError>(
                (sc1, EnsureOutcome { kind: o.kind, spawned: false }))
        }),
{
}

/// A successful `go_screen` makes the screen current, known, and the last
/// entry of the jump path; a failed one changes nothing.
pub proof fn law_go_screen_outcome(m: FlowModel, name: Seq<char>)
    ensures
        ({
            let (m1, r) = go_screen_spec(m, name);
            &&& r is Ok ==> m1.cur == name && m1.scenes.contains_key(name) && m1.stack == m.stack.push(name)
                && !m1.ready_quit == !m.ready_quit
            &&& r is Err ==> m1 == m
        }),
{
}

/// When a screen's own call fails during a switch to another screen, the
/// switch fails: the current screen and the jump path stay, every known
/// screen stays known, and at most the screen created for the switch is
/// added.
pub proof fn law_failed_switch_keeps_place(m: FlowModel, name: Seq<char>, outcome: ScreensOutcome)
    ensures
        ({
            let (m1, r) = go_screen_after_spec(m, name, outcome);
            &&& (m.cur != name && ensure_spec(m.scenes, name) is Ok
                && (outcome == ScreensOutcome::ActivateFailed
                    || (outcome == ScreensOutcome::SleepFailed && m.cur.len() != 0)))
                ==> r == Err::<Seq<CallModel>, FlowError>(FlowError::ScreenFailed)
            &&& r is Err ==> m1.cur == m.cur && m1.stack == m.stack && m1.ready_quit == m.ready_quit
            &&& r is Err ==> forall|k: Seq<char>| #[trigger] m1.scenes.contains_key(k)
                ==> (m.scenes.contains_key(k) && m1.scenes[k] == m.scenes[k]) || (k == name && !m.scenes.contains_key(k))
            &&& forall|k: Seq<char>| #[trigger] m.scenes.contains_key(k)
                ==> m1.scenes.contains_key(k) && m1.scenes[k] == m.scenes[k]
        }),
{
}

/// A name that is no screen's, and that the manager does not know, is
/// refused as unknown.
pub proof fn law_unknown_name_refused(m: FlowModel, name: Seq<char>)
    requires
        !m.scenes.contains_key(name),
        forall|s: UserScreen| screen_name(s) != name,
    ensures
        go_screen_spec(m, name) == (m, Err::<Seq<CallModel>, FlowError>(FlowError::UnknownScreen)),
{
}

/// Going back right after going to a screen stays on that screen, restores
/// the jump path, and only cools input down.
pub proof fn law_go_screen_then_back(m: FlowModel, name: Seq<char>)
    requires
        go_screen_spec(m, name).1 is Ok,
    ensures
        ({
            let m1 = go_screen_spec(m, name).0;
            let (m2, target, r) = go_back_spec(m1);
            &&& target == name
            &&& m2 == (FlowModel { stack: m.stack, ..m1 })
            &&& m2.cur == name
            &&& r == Ok::<Seq<CallModel>, FlowError>(seq![CallModel::CoolDown(SCREEN_SWITCH_COOL_DOWN_MS as nat)])
        }),
{
    let m1 = go_screen_spec(m, name).0;
    assert(m1.stack.drop_last() =~= m.stack);
    let mb = FlowModel { stack: m.stack, ..m1 };
    assert(ensure_spec(mb.scenes, name) == Ok::<(Map<Seq<char>, UserScreen>, EnsureOutcome), FlowError>(
        (mb.scenes, EnsureOutcome { kind: mb.scenes[name], spawned: false })));
    assert(spawn_calls(name, EnsureOutcome { kind: mb.scenes[name], spawned: false }) =~= Seq::<CallModel>::empty());
    assert(Seq::<CallModel>::empty() + seq![CallModel::CoolDown(SCREEN_SWITCH_COOL_DOWN_MS as nat)]
        =~= seq![CallModel::CoolDown(SCREEN_SWITCH_COOL_DOWN_MS as nat)]);
}

/// Navigation never changes whether the game has been asked to quit, and a
/// successful move never forgets a screen it knew.
pub proof fn law_navigation_keeps_quit_and_scenes(m: FlowModel, name: Seq<char>)
    ensures
        go_screen_spec(m, name).0.ready_quit == m.ready_quit,
        go_back_spec(m).0.ready_quit == m.ready_quit,
        go_cmd_spec(m, name).0.ready_quit == m.ready_quit,
        forall|k: Seq<char>| #[trigger] m.scenes.contains_key(k) ==> go_screen_spec(m, name).0.scenes.contains_key(k)
            && go_screen_spec(m, name).0.scenes[k] == m.scenes[k],
        forall|k: Seq<char>| #[trigger] m.scenes.contains_key(k) ==> go_back_spec(m).0.scenes.contains_key(k)
            && go_back_spec(m).0.scenes[k] == m.scenes[k],
{
}

/// The `GoScene` command to the main screen forgets the jump path: when it
/// succeeds, the main screen is current and the path is empty, so that
/// going back right after stays on the main screen and only cools input
/// down. Any other screen is appended to the path.
pub proof fn law_go_main_forgets_path(m: FlowModel, name: Seq<char>)
    requires
        go_cmd_spec(m, name).1 is Ok,
    ensures
        go_cmd_spec(m, name).0.cur == name,
        go_cmd_spec(m, name).0.scenes.contains_key(name),
        name == screen_name(UserScreen::Main) ==> go_cmd_spec(m, name).0.stack.len() == 0,
        name != screen_name(UserScreen::Main) ==> go_cmd_spec(m, name).0.stack == m.stack.push(name),
        name == screen_name(UserScreen::Main) ==> ({
            let (m2, target, r) = go_back_spec(go_cmd_spec(m, name).0);
            &&& target == name
            &&& m2.cur == name
            &&& m2.stack.len() == 0
            &&& r == Ok::<Seq<CallModel>, FlowError>(seq![CallModel::CoolDown(SCREEN_SWITCH_COOL_DOWN_MS as nat)])
        }),
{
    let m1 = go_cmd_spec(m, name).0;
    if name == screen_name(UserScreen::Main) {
        assert(ensure_spec(m1.scenes, name) == Ok::<(Map<Seq<char>, UserScreen>, EnsureOutcome), FlowError>(
            (m1.scenes, EnsureOutcome { kind: m1.scenes[name], spawned: false })));
        assert(spawn_calls(name, EnsureOutcome { kind: m1.scenes[name], spawned: false }) =~= Seq::<CallModel>::empty());
        assert(Seq::<CallModel>::empty() + seq![CallModel::CoolDown(SCREEN_SWITCH_COOL_DOWN_MS as nat)]
            =~= seq![CallModel::CoolDown(SCREEN_SWITCH_COOL_DOWN_MS as nat)]);
        let mb = FlowModel { stack: m1.stack, ..m1 };
        assert(mb == m1);
    }
}

/// A call on the flow manager, as far as it changes its state: the laws over
/// sequences of calls speak of these.
pub enum FlowCall {
    GoScreen(Seq<char>),
    GoScreenAfter(Seq<char>, ScreensOutcome),
    GoBack,
    GoBackAfter(ScreensOutcome),
    GoCmd(Seq<char>),
    ClearJumpPath,
    SetScene(Seq<char>, UserScreen),
    Ensure(Seq<char>),
    PreActiveStatesSet(Seq<char>, Map<Seq<char>, String>),
    ForceQuit,
}

/// The state after one call, as the call's contract gives it.
pub open spec fn flow_call_spec(m: FlowModel, c: FlowCall) -> FlowModel {
    match c {
        FlowCall::GoScreen(n) => go_screen_spec(m, n).0,
        FlowCall::GoScreenAfter(n, o) => go_screen_after_spec(m, n, o).0,
        FlowCall::GoBack => go_back_spec(m).0,
        FlowCall::GoBackAfter(o) => go_back_after_spec(m, o).0,
        FlowCall::GoCmd(n) => go_cmd_spec(m, n).0,
        FlowCall::ClearJumpPath => FlowModel { stack: Seq::empty(), ..m },
        FlowCall::SetScene(n, k) => FlowModel { scenes: m.scenes.insert(n, k), ..m },
        FlowCall::Ensure(n) => match ensure_spec(m.scenes, n) {
            Ok((scenes, _)) => FlowModel { scenes, ..m },
            Err(_) => m,
        },
        FlowCall::PreActiveStatesSet(n, a) => FlowModel { active_states: m.active_states.insert(n, a), ..m },
        FlowCall::ForceQuit => FlowModel { ready_quit: true, ..m },
    }
}

/// The state after the calls `cs`, in order.
pub open spec fn flow_calls_spec(m: FlowModel, cs: Seq<FlowCall>) -> FlowModel
    decreases cs.len(),
{
    if cs.len() == 0 {
        m
    } else {
        flow_calls_spec(flow_call_spec(m, cs[0]), cs.drop_first())
    }
}

proof fn lemma_call_keeps_quit(m: FlowModel, c: FlowCall)
    ensures
        m.ready_quit ==> flow_call_spec(m, c).ready_quit,
{
    law_navigation_keeps_quit_and_scenes(m, Seq::empty());
    match c {
        FlowCall::GoCmd(n) => law_navigation_keeps_quit_and_scenes(m, n),
        FlowCall::GoScreen(n) => law_navigation_keeps_quit_and_scenes(m, n),
        _ => {},
    }
}

/// Once the game has been asked to quit, it stays asked: no sequence of
/// calls on the flow manager resets the request, and asking to quit changes
/// nothing else.
pub proof fn law_quit_is_never_reset(m: FlowModel, cs: Seq<FlowCall>)
    ensures
        flow_calls_spec(flow_call_spec(m, FlowCall::ForceQuit), cs).ready_quit,
        flow_call_spec(m, FlowCall::ForceQuit) == (FlowModel { ready_quit: true, ..m }),
{
    lemma_calls_keep_quit(flow_call_spec(m, FlowCall::ForceQuit), cs);
}

proof fn lemma_calls_keep_quit(m: FlowModel, cs: Seq<FlowCall>)
    requires
        m.ready_quit,
    ensures
        flow_calls_spec(m, cs).ready_quit,
    decreases cs.len(),
{
    if cs.len() > 0 {
        lemma_call_keeps_quit(m, cs[0]);
        lemma_calls_keep_quit(flow_call_spec(m, cs[0]), cs.drop_first());
    }
}

/// The game as far as screen commands go: it owns the flow manager.
pub struct Game {
    pub game_flow: GameFlowMgr,
}

impl Game {
    pub open spec fn wf(self) -> bool {
        self.game_flow.wf()
    }

    /// A game whose flow has gone to the main screen; the calls create and activate it.
    pub fn new() -> (r: (Game, Vec<ScreenCall>))
        ensures
            r.0.wf(),
            r.0.game_flow.model() == (FlowModel {
                cur: screen_name(UserScreen::Main),
                scenes: Map::empty().insert(screen_name(UserScreen::Main), UserScreen::Main),
                active_states: Map::empty().insert(screen_name(UserScreen::Main), Map::empty()),
                ready_quit: false,
                stack: seq![screen_name(UserScreen::Main)],
            }),
            calls_view(r.1@) == seq![
                CallModel::Spawn(screen_name(UserScreen::Main), UserScreen::Main),
                CallModel::Activate(screen_name(UserScreen::Main)),
                CallModel::CoolDown(SCREEN_SWITCH_COOL_DOWN_MS as nat),
            ],
    {
        let mut gameflow = GameFlowMgr::new();
        let mut calls: Vec<ScreenCall> = Vec::new();
        proof {
            crate::screens::law_screen_name_round_trip(UserScreen::Main);
            assert(parse_screen(screen_name(UserScreen::Main)) == Some(UserScreen::Main));
        }
        match gameflow.ensure(UserScreen::Main.to_string()) {
            Ok(o) => {
                if o.spawned {
                    calls.push(ScreenCall::Spawn(UserScreen::Main.to_string(), o.kind));
                }
            },
            Err(_) => {},
        }
        let ghost c0 = calls_view(calls@);
        let main = UserScreen::Main.to_string();
        match gameflow.go_screen(&main) {
            Ok(mut c) => {
                let ghost c1 = calls_view(c@);
                calls.append(&mut c);
                proof { assert(calls_view(calls@) =~= c0 + c1); }
            },
            Err(_) => {},
        }
        proof {
            let m = gameflow.model();
            assert(m.stack =~= seq![screen_name(UserScreen::Main)]);
            assert(m.active_states =~= Map::empty().insert(screen_name(UserScreen::Main), Map::empty()));
            assert(m.scenes =~= Map::empty().insert(screen_name(UserScreen::Main), UserScreen::Main));
            assert(calls_view(calls@) =~= seq![
                CallModel::Spawn(screen_name(UserScreen::Main), UserScreen::Main),
                CallModel::Activate(screen_name(UserScreen::Main)),
                CallModel::CoolDown(SCREEN_SWITCH_COOL_DOWN_MS as nat),
            ]);
        }
        (Game { game_flow: gameflow }, calls)
    }

    /// The `GoScene` command: makes `name` current (creating it when needed)
    /// and returns the kind of that screen; going to the main screen forgets
    /// the jump path.
    pub fn on_cmd_go_screen(&mut self, name: String) -> (r: Result<(UserScreen, Vec<ScreenCall>), FlowError>)
        requires
            old(self).wf(),
        ensures
            final(self).wf(),
            final(self).game_flow.model() == go_cmd_spec(old(self).game_flow.model(), name@).0,
            match r {
                Ok((k, calls)) => go_cmd_spec(old(self).game_flow.model(), name@).1
                    == Ok::<(UserScreen, Seq<CallModel>), FlowError>((k, calls_view(calls@))),
                Err(e) => go_cmd_spec(old(self).game_flow.model(), name@).1
                    == Err::<(UserScreen, Seq<CallModel>), FlowError>(e),
            },
    {
        let ghost m0 = self.game_flow.model();
        let res = if self.game_flow.get_scene(&name).is_none() {
            let o = self.game_flow.ensure(name.clone())?;
            let mut calls = self.game_flow.go_screen(&name)?;
            let mut all: Vec<ScreenCall> = Vec::new();
            if o.spawned {
                all.push(ScreenCall::Spawn(name.clone(), o.kind));
            }
            let ghost a0 = calls_view(all@);
            let ghost c0 = calls_view(calls@);
            all.append(&mut calls);
            proof {
                assert(a0 =~= spawn_calls(name@, o));
                assert(calls_view(all@) =~= a0 + c0);
            }
            (o.kind, all)
        } else {
            let mut calls = self.game_flow.go_screen(&name)?;
            let o = self.game_flow.ensure(name.clone())?;
            if o.spawned {
                let ghost c0 = calls_view(calls@);
                calls.push(ScreenCall::Spawn(name.clone(), o.kind));
                proof { assert(calls_view(calls@) =~= c0 + spawn_calls(name@, o)); }
            } else {
                proof { assert(calls_view(calls@) =~= calls_view(calls@) + spawn_calls(name@, o)); }
            }
            (o.kind, calls)
        };
        if name == UserScreen::Main.to_string() {
            self.game_flow.clear_jump_path();
        }
        Ok(res)
    }

    /// The `GoBack` command: goes back along the jump path; returns the name of
    /// the screen gone back to.
    pub fn on_cmd_go_back_screen(&mut self) -> (r: Result<(String, Vec<ScreenCall>), FlowError>)
        requires
            old(self).wf(),
        ensures
            final(self).wf(),
            final(self).game_flow.model() == go_back_spec(old(self).game_flow.model()).0,
            match r {
                Ok((name, calls)) => name@ == go_back_spec(old(self).game_flow.model()).1
                    && go_back_spec(old(self).game_flow.model()).2 == Ok::<Seq<CallModel>, FlowError>(calls_view(calls@)),
                Err(e) => go_back_spec(old(self).game_flow.model()).2 == Err::<Seq<CallModel>, FlowError>(e),
            },
    {
        self.game_flow.go_back_screen()
    }
}

} // verus!
