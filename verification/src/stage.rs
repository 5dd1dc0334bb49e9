use vstd::prelude::*;
use crate::table::NameTable;
use crate::decimal::{decimal, decimal_u64};
use crate::text::string_pop;

verus! {

/// Where an animation of a visual element stands.
#[derive(Debug, Clone, Copy, PartialEq, Eq, Structural, Default)]
pub enum AnimationState {
    #[default]
    NotStarted,
    Running,
    Finished,
}

/// `states` holds a running animation.
pub open spec fn any_running(states: Seq<AnimationState>) -> bool {
    exists|i: int| 0 <= i < states.len() && states[i] == AnimationState::Running
}

/// The stage of standing characters, as far as its animations go: for each
/// character's visual element, by name, the states of the animations put on it.
pub struct CharactersStage {
    character_ves_anim_map: NameTable<Vec<AnimationState>>,
}

impl CharactersStage {
    pub closed spec fn anims(self) -> Map<Seq<char>, Seq<AnimationState>> {
        self.character_ves_anim_map.map().map_values(|v: Vec<AnimationState>| v@)
    }

    /// A stage with no animation on any element.
    pub fn new() -> (r: Self)
        ensures
            r.anims() == Map::<Seq<char>, Seq<AnimationState>>::empty(),
    {
        let r = CharactersStage { character_ves_anim_map: NameTable::new() };
        assert(r.anims() =~= Map::<Seq<char>, Seq<AnimationState>>::empty());
        r
    }

    /// Puts the animations `states` on the element `ve_name`, in place of those it had.
    pub fn insert_anims(&mut self, ve_name: String, states: Vec<AnimationState>)
        ensures
            final(self).anims() == old(self).anims().insert(ve_name@, states@),
    {
        let ghost k = ve_name@;
        let ghost v = states@;
        self.character_ves_anim_map.insert(ve_name, states);
        assert(self.anims() =~= old(self).anims().insert(k, v));
    }

    /// Whether an animation on the element `ve_name` is running.
    pub fn character_ve_has_active_anims(&self, ve_name: &String) -> (r: bool)
        ensures
            r == (self.anims().contains_key(ve_name@) && any_running(self.anims()[ve_name@])),
    {
        match self.character_ves_anim_map.get(ve_name) {
            None => false,
            Some(states) => {
                assert(self.anims()[ve_name@] == states@);
                let mut i: usize = 0;
                while i < states.len()
                    invariant
                        self.anims().contains_key(ve_name@),
                        self.anims()[ve_name@] == states@,
                        i <= states@.len(),
                        forall|j: int| 0 <= j < i ==> states@[j] != AnimationState::Running,
                    decreases states@.len() - i,
                {
                    if states[i] == AnimationState::Running {
                        assert(any_running(states@));
                        return true;
                    }
                    i = i + 1;
                }
                false
            },
        }
    }
}

/// The prefix of the names of the characters' visual elements.
pub open spec fn character_prefix() -> Seq<char> {
    seq!['c', 'h', 'a', 'r', 'a', 'c', 't', 'e', 'r', '_']
}

/// The decimal spelling of an integer as characters, with `-` before a negative one.
pub open spec fn int_text(id: int) -> Seq<char> {
    let digits = if id < 0 { decimal((-id) as nat) } else { decimal(id as nat) };
    let chars = digits.map_values(|b: u8| b as char);
    if id < 0 { seq!['-'] + chars } else { chars }
}

/// The name of the visual element that shows the character listed under `id`.
pub open spec fn character_ve_name(id: int) -> Seq<char> {
    character_prefix() + int_text(id)
}

/// A name given to the visual element of a character.
pub open spec fn is_character_ve(name: Seq<char>) -> bool {
    name.len() >= 10 && name.take(10) == character_prefix()
}

/// The element `name` shows a listed character that has a stand image.
pub open spec fn is_listed_ve(listed: Seq<(i64, bool)>, name: Seq<char>) -> bool {
    exists|j: int| 0 <= j < listed.len() && listed[j].1 && name == character_ve_name(listed[j].0 as int)
}

/// Some element of `current` is called `name`.
pub open spec fn has_element(current: Seq<String>, name: Seq<char>) -> bool {
    exists|i: int| 0 <= i < current.len() && current[i]@ == name
}

/// The character at `j` of `listed` comes again, with a stand image, after
/// one at an earlier position.
pub open spec fn listed_before(listed: Seq<(i64, bool)>, j: int) -> bool {
    exists|k: int| 0 <= k < j && listed[k].1 && listed[k].0 == listed[j].0
}

/// The element `name` is a character's element that is no longer shown:
/// its character is not listed with a stand image.
pub open spec fn ve_dropped(listed: Seq<(i64, bool)>, name: Seq<char>) -> bool {
    is_character_ve(name) && !is_listed_ve(listed, name)
}

/// The positions, in increasing order, among the first `n` of `current`, of
/// the elements that are dropped.
pub open spec fn dropped_upto(current: Seq<String>, listed: Seq<(i64, bool)>, n: int) -> Seq<usize>
    decreases n,
{
    if n <= 0 {
        Seq::empty()
    } else if ve_dropped(listed, current[n - 1]@) {
        dropped_upto(current, listed, n - 1).push((n - 1) as usize)
    } else {
        dropped_upto(current, listed, n - 1)
    }
}

/// The characters, in list order, among the first `n` of `listed`, that
/// have a stand image and no element yet: each gets a new element.
pub open spec fn spawned_upto(current: Seq<String>, listed: Seq<(i64, bool)>, n: int) -> Seq<i64>
    decreases n,
{
    if n <= 0 {
        Seq::empty()
    } else if listed[n - 1].1 && !has_element(current, character_ve_name(listed[n - 1].0 as int))
        && !listed_before(listed, n - 1) {
        spawned_upto(current, listed, n - 1).push(listed[n - 1].0)
    } else {
        spawned_upto(current, listed, n - 1)
    }
}

/// The characters of `s` as a vector.
fn chars_of(s: &String) -> (r: Vec<char>)
    ensures
        r@ == s@,
{
    let mut t = s.clone();
    let mut rev: Vec<char> = Vec::new();
    loop
        invariant
            t@.len() + rev@.len() == s@.len(),
            t@ == s@.take(t@.len() as int),
            forall|k: int| 0 <= k < rev@.len() ==> rev@[k] == s@[s@.len() - 1 - k],
        ensures
            rev@.len() == s@.len(),
            forall|k: int| 0 <= k < rev@.len() ==> rev@[k] == s@[s@.len() - 1 - k],
        decreases t@.len(),
    {
        match string_pop(&mut t) {
            Some(c) => {
                proof {
                    assert(t@ =~= s@.take(t@.len() as int));
                }
                rev.push(c);
            },
            None => {
                break;
            },
        }
    }
    let n = rev.len();
    let mut r: Vec<char> = Vec::new();
    let mut i: usize = 0;
    while i < n
        invariant
            n == rev@.len(),
            n == s@.len(),
            i <= n,
            r@ == s@.take(i as int),
            forall|k: int| 0 <= k < rev@.len() ==> rev@[k] == s@[s@.len() - 1 - k],
        decreases n - i,
    {
        r.push(rev[n - 1 - i]);
        assert(s@.take(i + 1) =~= s@.take(i as int).push(s@[i as int]));
        i = i + 1;
    }
    assert(s@.take(n as int) =~= s@);
    r
}

/// The characters of the name of the element of the character listed under `id`.
fn character_ve_chars(id: i64) -> (r: Vec<char>)
    ensures
        r@ == character_ve_name(id as int),
{
    let mut r: Vec<char> = vec!['c', 'h', 'a', 'r', 'a', 'c', 't', 'e', 'r', '_'];
    let magnitude: u64 = if id < 0 { ((-(id + 1)) as u64) + 1 } else { id as u64 };
    if id < 0 {
        r.push('-');
    }
    let digits = decimal_u64(magnitude);
    let ghost head = r@;
    let mut i: usize = 0;
    while i < digits.len()
        invariant
            i <= digits@.len(),
            r@ == head + digits@.take(i as int).map_values(|b: u8| b as char),
        decreases digits@.len() - i,
    {
        let b = digits[i];
        r.push(b as char);
        assert(digits@.take(i + 1).map_values(|b: u8| b as char)
            =~= digits@.take(i as int).map_values(|b: u8| b as char).push(b as char));
        i = i + 1;
    }
    assert(digits@.take(digits@.len() as int) =~= digits@);
    assert(r@ =~= character_ve_name(id as int));
    r
}

fn same_chars(a: &Vec<char>, b: &Vec<char>) -> (r: bool)
    ensures
        r == (a@ == b@),
{
    if a.len() != b.len() {
        return false;
    }
    let mut i: usize = 0;
    while i < a.len()
        invariant
            a@.len() == b@.len(),
            i <= a@.len(),
            forall|k: int| 0 <= k < i ==> a@[k] == b@[k],
        decreases a@.len() - i,
    {
        if a[i] != b[i] {
            return false;
        }
        i = i + 1;
    }
    assert(a@ =~= b@);
    true
}

fn starts_with_prefix(name: &Vec<char>) -> (r: bool)
    ensures
        r == is_character_ve(name@),
{
    let prefix: Vec<char> = vec!['c', 'h', 'a', 'r', 'a', 'c', 't', 'e', 'r', '_'];
    if name.len() < 10 {
        return false;
    }
    let mut i: usize = 0;
    while i < 10
        invariant
            name@.len() >= 10,
            prefix@ == character_prefix(),
            i <= 10,
            forall|k: int| 0 <= k < i ==> name@[k] == prefix@[k],
        decreases 10 - i,
    {
        if name[i] != prefix[i] {
            assert(name@.take(10)[i as int] != character_prefix()[i as int]);
            return false;
        }
        i = i + 1;
    }
    assert(name@.take(10) =~= character_prefix());
    true
}

fn names_chars(current: &Vec<String>) -> (r: Vec<Vec<char>>)
    ensures
        r@.len() == current@.len(),
        forall|i: int| 0 <= i < current@.len() ==> r@[i]@ == current@[i]@,
{
    let mut r: Vec<Vec<char>> = Vec::new();
    let mut i: usize = 0;
    while i < current.len()
        invariant
            i <= current@.len(),
            r@.len() == i,
            forall|k: int| 0 <= k < i ==> r@[k]@ == current@[k]@,
        decreases current@.len() - i,
    {
        r.push(chars_of(&current[i]));
        i = i + 1;
    }
    r
}

fn listed_chars(listed: &Vec<(i64, bool)>) -> (r: Vec<Vec<char>>)
    ensures
        r@.len() == listed@.len(),
        forall|j: int| 0 <= j < listed@.len() ==> r@[j]@ == character_ve_name(listed@[j].0 as int),
{
    let mut r: Vec<Vec<char>> = Vec::new();
    let mut j: usize = 0;
    while j < listed.len()
        invariant
            j <= listed@.len(),
            r@.len() == j,
            forall|k: int| 0 <= k < j ==> r@[k]@ == character_ve_name(listed@[k].0 as int),
        decreases listed@.len() - j,
    {
        r.push(character_ve_chars(listed[j].0));
        j = j + 1;
    }
    r
}

fn is_listed(listed: &Vec<(i64, bool)>, listed_names: &Vec<Vec<char>>, name: &Vec<char>) -> (r: bool)
    requires
        listed_names@.len() == listed@.len(),
        forall|j: int| 0 <= j < listed@.len() ==> listed_names@[j]@ == character_ve_name(listed@[j].0 as int),
    ensures
        r == is_listed_ve(listed@, name@),
{
    let mut j: usize = 0;
    while j < listed.len()
        invariant
            listed_names@.len() == listed@.len(),
            forall|k: int| 0 <= k < listed@.len() ==> listed_names@[k]@ == character_ve_name(listed@[k].0 as int),
            j <= listed@.len(),
            forall|k: int| 0 <= k < j ==> !(listed@[k].1 && name@ == character_ve_name(listed@[k].0 as int)),
        decreases listed@.len() - j,
    {
        if listed[j].1 && same_chars(name, &listed_names[j]) {
            return true;
        }
        j = j + 1;
    }
    false
}

fn has_element_named(current: &Vec<String>, cur: &Vec<Vec<char>>, name: &Vec<char>) -> (r: bool)
    requires
        cur@.len() == current@.len(),
        forall|i: int| 0 <= i < current@.len() ==> cur@[i]@ == current@[i]@,
    ensures
        r == has_element(current@, name@),
{
    let mut i: usize = 0;
    while i < cur.len()
        invariant
            cur@.len() == current@.len(),
            forall|k: int| 0 <= k < current@.len() ==> cur@[k]@ == current@[k]@,
            i <= cur@.len(),
            forall|k: int| 0 <= k < i ==> current@[k]@ != name@,
        decreases cur@.len() - i,
    {
        if same_chars(&cur[i], name) {
            return true;
        }
        i = i + 1;
    }
    false
}

fn is_listed_before(listed: &Vec<(i64, bool)>, j: usize) -> (r: bool)
    requires
        j < listed@.len(),
    ensures
        r == listed_before(listed@, j as int),
{
    let mut k: usize = 0;
    while k < j
        invariant
            j < listed@.len(),
            k <= j,
            forall|m: int| 0 <= m < k ==> !(listed@[m].1 && listed@[m].0 == listed@[j as int].0),
        decreases j - k,
    {
        if listed[k].1 && listed[k].0 == listed[j].0 {
            return true;
        }
        k = k + 1;
    }
    false
}

impl CharactersStage {
    /// Which character elements the stage drops and which it adds when it
    /// is updated. `current` are the names of the visual elements on
    /// screen, in order; `listed` the listed characters in list order, each
    /// with whether it has a stand image. The first result holds, in
    /// increasing order, the positions in `current` of the elements to
    /// remove: the characters' elements (named `character_` and more) whose
    /// character is not listed with a stand image; with no character listed,
    /// every character's element goes. The second holds, in list order and once each, the characters
    /// listed with a stand image that have no element yet. Every other
    /// element stays, in its order.
    pub fn character_element_plan(current: &Vec<String>, listed: &Vec<(i64, bool)>) -> (r: (Vec<usize>, Vec<i64>))
        ensures
            r.0@ == dropped_upto(current@, listed@, current@.len() as int),
            r.1@ == spawned_upto(current@, listed@, listed@.len() as int),
    {
        let cur = names_chars(current);
        let listed_names = listed_chars(listed);
        let mut dropped: Vec<usize> = Vec::new();
        let mut i: usize = 0;
        while i < current.len()
            invariant
                cur@.len() == current@.len(),
                forall|k: int| 0 <= k < current@.len() ==> cur@[k]@ == current@[k]@,
                listed_names@.len() == listed@.len(),
                forall|k: int| 0 <= k < listed@.len() ==> listed_names@[k]@ == character_ve_name(listed@[k].0 as int),
                i <= current@.len(),
                dropped@ == dropped_upto(current@, listed@, i as int),
            decreases current@.len() - i,
        {
            let gone = starts_with_prefix(&cur[i]) && !is_listed(listed, &listed_names, &cur[i]);
            if gone {
                dropped.push(i);
            }
            i = i + 1;
        }
        let mut spawned: Vec<i64> = Vec::new();
        let mut j: usize = 0;
        while j < listed.len()
            invariant
                cur@.len() == current@.len(),
                forall|k: int| 0 <= k < current@.len() ==> cur@[k]@ == current@[k]@,
                listed_names@.len() == listed@.len(),
                forall|k: int| 0 <= k < listed@.len() ==> listed_names@[k]@ == character_ve_name(listed@[k].0 as int),
                j <= listed@.len(),
                spawned@ == spawned_upto(current@, listed@, j as int),
            decreases listed@.len() - j,
        {
            if listed[j].1 && !has_element_named(current, &cur, &listed_names[j]) && !is_listed_before(listed, j) {
                spawned.push(listed[j].0);
            }
            j = j + 1;
        }
        (dropped, spawned)
    }
}

} // verus!
