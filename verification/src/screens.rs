use vstd::prelude::*;

verus! {

/// The screens of the game.
#[derive(Debug, Clone, Copy, PartialEq, Eq, Structural)]
pub enum UserScreen {
    Main,
    Dialogue,
    Config,
    Save,
    Load,
    About,
    Setting,
    Review,
    Gallery,
}

/// The name a screen is known by: its variant's name.
pub open spec fn screen_name(s: UserScreen) -> Seq<char> {
    match s {
        UserScreen::Main => seq!['M', 'a', 'i', 'n'],
        UserScreen::Dialogue => seq!['D', 'i', 'a', 'l', 'o', 'g', 'u', 'e'],
        UserScreen::Config => seq!['C', 'o', 'n', 'f', 'i', 'g'],
        UserScreen::Save => seq!['S', 'a', 'v', 'e'],
        UserScreen::Load => seq!['L', 'o', 'a', 'd'],
        UserScreen::About => seq!['A', 'b', 'o', 'u', 't'],
        UserScreen::Setting => seq!['S', 'e', 't', 't', 'i', 'n', 'g'],
        UserScreen::Review => seq!['R', 'e', 'v', 'i', 'e', 'w'],
        UserScreen::Gallery => seq!['G', 'a', 'l', 'l', 'e', 'r', 'y'],
    }
}

/// Screens that have an implementation the game can create.
pub open spec fn is_spawnable(s: UserScreen) -> bool {
    match s {
        UserScreen::Main | UserScreen::Dialogue | UserScreen::About | UserScreen::Save
        | UserScreen::Load => true,
        _ => false,
    }
}

/// Why a screen could not be reached.
#[derive(Debug, Clone, Copy, PartialEq, Eq, Structural)]
pub enum FlowError {
    /// The name is not the name of any screen.
    UnknownScreen,
    /// The screen exists by name but the game has no implementation for it.
    NoScreen,
    /// The screen being left failed to go to sleep, or the screen being
    /// entered failed to become active.
    ScreenFailed,
}

impl UserScreen {
    /// The screen's name.
    pub fn to_string(&self) -> (r: String)
        ensures
            r@ == screen_name(*self),
    {
        match self {
            UserScreen::Main => {
                proof { reveal_strlit("Main"); }
                String::from_str("Main")
            },
            UserScreen::Dialogue => {
                proof { reveal_strlit("Dialogue"); }
                String::from_str("Dialogue")
            },
            UserScreen::Config => {
                proof { reveal_strlit("Config"); }
                String::from_str("Config")
            },
            UserScreen::Save => {
                proof { reveal_strlit("Save"); }
                String::from_str("Save")
            },
            UserScreen::Load => {
                proof { reveal_strlit("Load"); }
                String::from_str("Load")
            },
            UserScreen::About => {
                proof { reveal_strlit("About"); }
                String::from_str("About")
            },
            UserScreen::Setting => {
                proof { reveal_strlit("Setting"); }
                String::from_str("Setting")
            },
            UserScreen::Review => {
                proof { reveal_strlit("Review"); }
                String::from_str("Review")
            },
            UserScreen::Gallery => {
                proof { reveal_strlit("Gallery"); }
                String::from_str("Gallery")
            },
        }
    }

    /// The screen named exactly `name`, if any.
    pub fn from_name(name: &String) -> (r: Option<UserScreen>)
        ensures
            r matches Some(s) ==> screen_name(s) == name@,
            r is None ==> forall|s: UserScreen| screen_name(s) != name@,
    {
        let all: [UserScreen; 9] = [
            UserScreen::Main,
            UserScreen::Dialogue,
            UserScreen::Config,
            UserScreen::Save,
            UserScreen::Load,
            UserScreen::About,
            UserScreen::Setting,
            UserScreen::Review,
            UserScreen::Gallery,
        ];
        let mut i: usize = 0;
        while i < 9
            invariant
                i <= 9,
                all@ == seq![UserScreen::Main, UserScreen::Dialogue, UserScreen::Config,
                    UserScreen::Save, UserScreen::Load, UserScreen::About, UserScreen::Setting,
                    UserScreen::Review, UserScreen::Gallery],
                forall|j: int| 0 <= j < i ==> screen_name(all@[j]) != name@,
            decreases 9 - i,
        {
            let candidate = all[i];
            if candidate.to_string() == *name {
                return Some(candidate);
            }
            i = i + 1;
        }
        proof {
            assert forall|s: UserScreen| screen_name(s) != name@ by {
                match s {
                    UserScreen::Main => assert(all@[0] == s),
                    UserScreen::Dialogue => assert(all@[1] == s),
                    UserScreen::Config => assert(all@[2] == s),
                    UserScreen::Save => assert(all@[3] == s),
                    UserScreen::Load => assert(all@[4] == s),
                    UserScreen::About => assert(all@[5] == s),
                    UserScreen::Setting => assert(all@[6] == s),
                    UserScreen::Review => assert(all@[7] == s),
                    UserScreen::Gallery => assert(all@[8] == s),
                }
            }
        }
        None
    }

    /// Whether the game can create this screen.
    pub fn spawnable(&self) -> (r: bool)
        ensures
            r == is_spawnable(*self),
    {
        match self {
            UserScreen::Main | UserScreen::Dialogue | UserScreen::About | UserScreen::Save
            | UserScreen::Load => true,
            _ => false,
        }
    }

    /// Decides whether this screen can be created: the kind of screen to build,
    /// or `NoScreen` for a screen the game has no implementation for.
    pub fn spawn(&self) -> (r: Result<UserScreen, FlowError>)
        ensures
            r == (if is_spawnable(*self) { Ok::<UserScreen, FlowError>(*self) } else { Err(FlowError::NoScreen) }),
    {
        if self.spawnable() {
            Ok(*self)
        } else {
            Err(FlowError::NoScreen)
        }
    }
}

/// Different screens have different names.
pub proof fn law_screen_names_distinct(a: UserScreen, b: UserScreen)
    ensures
        screen_name(a) == screen_name(b) <==> a == b,
{
    if a != b {
        let (x, y) = (screen_name(a), screen_name(b));
        assert(x.len() != y.len() || x[0] != y[0] || x[1] != y[1] || x[2] != y[2]);
    }
}

/// Reading a screen's name back gives the same screen.
pub proof fn law_screen_name_round_trip(s: UserScreen)
    ensures
        forall|t: UserScreen| screen_name(t) == screen_name(s) ==> t == s,
{
    assert forall|t: UserScreen| screen_name(t) == screen_name(s) implies t == s by {
        law_screen_names_distinct(t, s);
    }
}

/// The audio tracks of the game.
#[derive(Debug, Clone, Copy, PartialEq, Eq, Structural)]
pub enum Tracks {
    Bgm,
    Voice,
    Effect,
    Effect1,
    Effect2,
}

/// The name a track is known by: its variant's name.
pub open spec fn track_name(t: Tracks) -> Seq<char> {
    match t {
        Tracks::Bgm => seq!['B', 'g', 'm'],
        Tracks::Voice => seq!['V', 'o', 'i', 'c', 'e'],
        Tracks::Effect => seq!['E', 'f', 'f', 'e', 'c', 't'],
        Tracks::Effect1 => seq!['E', 'f', 'f', 'e', 'c', 't', '1'],
        Tracks::Effect2 => seq!['E', 'f', 'f', 'e', 'c', 't', '2'],
    }
}

impl Tracks {
    /// The track's name.
    pub fn to_string(&self) -> (r: String)
        ensures
            r@ == track_name(*self),
    {
        match self {
            Tracks::Bgm => {
                proof { reveal_strlit("Bgm"); }
                String::from_str("Bgm")
            },
            Tracks::Voice => {
                proof { reveal_strlit("Voice"); }
                String::from_str("Voice")
            },
            Tracks::Effect => {
                proof { reveal_strlit("Effect"); }
                String::from_str("Effect")
            },
            Tracks::Effect1 => {
                proof { reveal_strlit("Effect1"); }
                String::from_str("Effect1")
            },
            Tracks::Effect2 => {
                proof { reveal_strlit("Effect2"); }
                String::from_str("Effect2")
            },
        }
    }
}

} // verus!
