use vstd::prelude::*;
use time::OffsetDateTime;
use crate::decimal::{decimal, decimal_u64, lemma_decimal_digits};
use crate::text::string_push;

verus! {

#[verifier::external_type_specification]
#[verifier::external_body]
pub struct ExOffsetDateTime(time::OffsetDateTime);

/// Number of save slots offered.
pub const SLOT_SIZE: usize = 20;

/// The file names of save files: a number, `_`, anything, and `save` at the end.
pub const SLOT_PATTERN: &'static str = r"^\d+_.*.save$";

/// What `Regex::new(pattern)` and then `is_match(text)` give: `None` when the
/// pattern does not compile, else whether the text holds a match.
pub uninterp spec fn regex_is_match(pattern: Seq<char>, text: Seq<char>) -> Option<bool>;

/// Compiles `pattern` with the regex crate's `Regex::new` and tests `text`
/// with `Regex::is_match`. Both are functions of their arguments alone; the
/// result is named, not stated.
#[verifier::external_body]
fn regex_match(pattern: &str, text: &str) -> (r: Option<bool>)
    ensures
        r == regex_is_match(pattern@, text@),
{
    match regex::Regex::new(pattern) {
        Ok(re) => Some(re.is_match(text)),
        Err(_) => None,
    }
}

/// A save slot: its file, if it has one, when it was written, its name and number.
#[derive(Debug)]
pub struct Slot {
    pub path: Option<String>,
    pub time: OffsetDateTime,
    pub name: String,
    pub id: u8,
}

/// Abstract form of a slot.
pub struct SlotModel {
    pub path: Option<Seq<char>>,
    pub time: OffsetDateTime,
    pub name: Seq<char>,
    pub id: u8,
}

pub open spec fn opt_chars(o: Option<String>) -> Option<Seq<char>> {
    match o {
        Some(s) => Some(s@),
        None => None,
    }
}

pub open spec fn slot_view(s: Slot) -> SlotModel {
    SlotModel { path: opt_chars(s.path), time: s.time, name: s.name@, id: s.id }
}

/// `c` is an ASCII digit.
pub open spec fn is_ascii_digit(c: char) -> bool {
    '0' <= c && c <= '9'
}

/// The number spelled by the ASCII digits `s`.
pub open spec fn chars_value(s: Seq<char>) -> nat
    decreases s.len(),
{
    if s.len() == 0 {
        0
    } else {
        chars_value(s.drop_last()) * 10 + ((s.last() as u32) - 48) as nat
    }
}

/// `s` is a non-empty run of ASCII digits spelling a number that fits in a `u8`.
pub open spec fn fits_u8(s: Seq<char>) -> bool {
    s.len() > 0 && (forall|i: int| 0 <= i < s.len() ==> is_ascii_digit(#[trigger] s[i])) && chars_value(s) <= 255
}

/// What `str::parse::<u8>` gives: an optional `+`, then digits whose value fits.
pub open spec fn parse_u8_spec(s: Seq<char>) -> Option<u8> {
    let digits = if s.len() > 0 && s[0] == '+' { s.drop_first() } else { s };
    if fits_u8(digits) { Some(chars_value(digits) as u8) } else { None }
}

/// The index of the first `c` in `s`, or the length of `s` when there is none.
pub open spec fn first_index(s: Seq<char>, c: char) -> nat
    decreases s.len(),
{
    if s.len() == 0 {
        0
    } else if s[0] == c {
        0
    } else {
        1 + first_index(s.drop_first(), c)
    }
}

/// The part of a file name before its first `.`.
pub open spec fn file_prefix(name: Seq<char>) -> Seq<char> {
    name.take(first_index(name, '.') as int)
}

/// The part of `s` before its first `_`.
pub open spec fn first_field(s: Seq<char>) -> Seq<char> {
    s.take(first_index(s, '_') as int)
}

/// The part of `s` after its first `_`.
pub open spec fn after_first_field(s: Seq<char>) -> Seq<char> {
    s.skip(first_index(s, '_') as int + 1)
}

/// Why the save files could not be read into slots.
#[derive(Debug, Clone, Copy, PartialEq, Eq, Structural)]
pub enum SlotError {
    /// The file name pattern does not compile.
    BadPattern,
    /// A file name matches the pattern but its number is not a `u8`, or it has no `_`.
    MalformedName,
    /// No slot has the number asked for.
    NoSuchSlot,
}

/// The slot number and name a save file name stands for: `None` when the
/// name does not match `SLOT_PATTERN`. The number is the text before the
/// first `_` of the part before the first `.`; the name is the text between
/// that `_` and the next one.
pub open spec fn slot_name_spec(file_name: Seq<char>) -> Result<Option<(u8, Seq<char>)>, SlotError> {
    slot_name_given(regex_is_match(SLOT_PATTERN@, file_name), file_name)
}

/// What a file name stands for, given whether it matches `SLOT_PATTERN`
/// (`None` when the pattern could not be compiled).
pub open spec fn slot_name_given(matched: Option<bool>, file_name: Seq<char>) -> Result<Option<(u8, Seq<char>)>, SlotError> {
    match matched {
        None => Err(SlotError::BadPattern),
        Some(false) => Ok(None),
        Some(true) => {
            let prefix = file_prefix(file_name);
            if first_index(prefix, '_') >= prefix.len() {
                Err(SlotError::MalformedName)
            } else {
                match parse_u8_spec(first_field(prefix)) {
                    None => Err(SlotError::MalformedName),
                    Some(id) => Ok(Some((id, first_field(after_first_field(prefix))))),
                }
            }
        },
    }
}

proof fn lemma_first_index(s: Seq<char>, c: char, i: int)
    requires
        0 <= i <= s.len(),
        forall|j: int| 0 <= j < i ==> s[j] != c,
        i == s.len() || s[i] == c,
    ensures
        first_index(s, c) == i,
    decreases s.len(),
{
    if s.len() > 0 && s[0] != c {
        assert forall|j: int| 0 <= j < i - 1 implies s.drop_first()[j] != c by {
            assert(s.drop_first()[j] == s[j + 1]);
        }
        if i < s.len() {
            assert(s.drop_first()[i - 1] == s[i]);
        }
        lemma_first_index(s.drop_first(), c, i - 1);
    }
}

/// The characters of `s`.
fn chars_of(s: &str) -> (r: Vec<char>)
    ensures
        r@ == s@,
{
    let n = s.unicode_len();
    let mut r: Vec<char> = Vec::new();
    let mut i: usize = 0;
    while i < n
        invariant
            n == s@.len(),
            i <= n,
            r@ == s@.take(i as int),
        decreases n - i,
    {
        let c = s.get_char(i);
        r.push(c);
        assert(s@.take(i + 1) =~= s@.take(i as int).push(c));
        i = i + 1;
    }
    assert(s@.take(n as int) =~= s@);
    r
}

/// The index of the first `c` in `s[from..to]`, counted from `from`; `to - from` when there is none.
fn find_char(s: &Vec<char>, from: usize, to: usize, c: char) -> (r: usize)
    requires
        from <= to <= s@.len(),
    ensures
        r == first_index(s@.subrange(from as int, to as int), c),
        r <= to - from,
{
    let mut i: usize = from;
    while i < to && s[i] != c
        invariant
            from <= i <= to,
            to <= s@.len(),
            forall|j: int| from <= j < i ==> s@[j] != c,
        decreases to - i,
    {
        i = i + 1;
    }
    proof {
        let sub = s@.subrange(from as int, to as int);
        assert forall|j: int| 0 <= j < i - from implies sub[j] != c by {
            assert(sub[j] == s@[from + j]);
        }
        if i < to {
            assert(sub[i - from] == s@[i as int]);
        }
        lemma_first_index(sub, c, i - from);
    }
    i - from
}

/// The string made of `s[from..to]`.
fn string_of(s: &Vec<char>, from: usize, to: usize) -> (r: String)
    requires
        from <= to <= s@.len(),
    ensures
        r@ == s@.subrange(from as int, to as int),
{
    let mut r = String::new();
    let mut i: usize = from;
    while i < to
        invariant
            from <= i <= to,
            to <= s@.len(),
            r@ == s@.subrange(from as int, i as int),
        decreases to - i,
    {
        string_push(&mut r, s[i]);
        assert(s@.subrange(from as int, i + 1) =~= s@.subrange(from as int, i as int).push(s@[i as int]));
        i = i + 1;
    }
    r
}

/// Reads the ASCII digits of `s[from..to]` as a `u8`, as `str::parse::<u8>` does.
fn parse_u8(s: &Vec<char>, from: usize, to: usize) -> (r: Option<u8>)
    requires
        from <= to <= s@.len(),
    ensures
        r == parse_u8_spec(s@.subrange(from as int, to as int)),
{
    let ghost whole = s@.subrange(from as int, to as int);
    let mut start = from;
    if from < to && s[from] == '+' {
        start = from + 1;
        assert(whole[0] == '+');
        assert(whole.drop_first() =~= s@.subrange(start as int, to as int));
    } else {
        assert(whole.len() > 0 ==> whole[0] == s@[from as int]);
        assert(whole =~= s@.subrange(start as int, to as int));
    }
    let ghost digits = s@.subrange(start as int, to as int);
    assert(parse_u8_spec(whole) == (if fits_u8(digits) { Some(chars_value(digits) as u8) } else { None::<u8> }));
    if start == to {
        return None;
    }
    let mut acc: u32 = 0;
    let mut i: usize = start;
    assert(s@.subrange(start as int, start as int) =~= Seq::<char>::empty());
    while i < to
        invariant
            start < to <= s@.len(),
            start <= i <= to,
            digits == s@.subrange(start as int, to as int),
            parse_u8_spec(s@.subrange(from as int, to as int))
                == (if fits_u8(digits) { Some(chars_value(digits) as u8) } else { None::<u8> }),
            forall|j: int| start <= j < i ==> is_ascii_digit(#[trigger] s@[j]),
            acc == chars_value(s@.subrange(start as int, i as int)),
            acc <= 255,
        decreases to - i,
    {
        let c = s[i];
        if !('0' <= c && c <= '9') {
            proof {
                assert(digits[i - start] == c);
                assert(!fits_u8(digits));
            }
            return None;
        }
        let d: u32 = (c as u32) - 48;
        proof {
            assert(s@.subrange(start as int, i + 1).drop_last() =~= s@.subrange(start as int, i as int));
            assert(s@.subrange(start as int, i + 1).last() == c);
            assert(chars_value(s@.subrange(start as int, i + 1)) == acc * 10 + d);
        }
        if acc * 10 + d > 255 {
            proof {
                if fits_u8(digits) {
                    lemma_chars_value_prefix(digits, i + 1 - start);
                    assert(digits.take(i + 1 - start) =~= s@.subrange(start as int, i + 1));
                }
            }
            return None;
        }
        acc = acc * 10 + d;
        i = i + 1;
    }
    proof {
        assert(s@.subrange(start as int, i as int) =~= digits);
        assert forall|j: int| 0 <= j < digits.len() implies is_ascii_digit(#[trigger] digits[j]) by {
            assert(digits[j] == s@[start + j]);
        }
    }
    Some(acc as u8)
}

proof fn lemma_chars_value_prefix(s: Seq<char>, k: int)
    requires
        0 <= k <= s.len(),
        forall|i: int| 0 <= i < s.len() ==> is_ascii_digit(#[trigger] s[i]),
    ensures
        chars_value(s.take(k)) <= chars_value(s),
    decreases s.len(),
{
    if k < s.len() {
        assert(s.drop_last().take(k) =~= s.take(k));
        assert forall|i: int| 0 <= i < s.drop_last().len() implies is_ascii_digit(#[trigger] s.drop_last()[i]) by {
            assert(s.drop_last()[i] == s[i]);
        }
        lemma_chars_value_prefix(s.drop_last(), k);
    } else {
        assert(s.take(k) =~= s);
    }
}

/// The slot number and name of a save file name; see `slot_name_spec`.
pub fn parse_slot_file_name(file_name: &str) -> (r: Result<Option<(u8, String)>, SlotError>)
    ensures
        match (r, slot_name_spec(file_name@)) {
            (Ok(None), Ok(None)) => true,
            (Ok(Some((id, name))), Ok(Some((sid, sname)))) => id == sid && name@ == sname,
            (Err(e), Err(se)) => e == se,
            _ => false,
        },
{
    let matched = regex_match(SLOT_PATTERN, file_name);
    slot_name_from_match(file_name, matched)
}

/// The slot number and name of a save file name, given whether it matches
/// `SLOT_PATTERN`; see `slot_name_given`.
pub fn slot_name_from_match(file_name: &str, matched: Option<bool>) -> (r: Result<Option<(u8, String)>, SlotError>)
    ensures
        match (r, slot_name_given(matched, file_name@)) {
            (Ok(None), Ok(None)) => true,
            (Ok(Some((id, name))), Ok(Some((sid, sname)))) => id == sid && name@ == sname,
            (Err(e), Err(se)) => e == se,
            _ => false,
        },
{
    match matched {
        None => {
            return Err(SlotError::BadPattern);
        },
        Some(false) => {
            return Ok(None);
        },
        Some(true) => {},
    }
    let cs = chars_of(file_name);
    let n = cs.len();
    let plen = find_char(&cs, 0, n, '.');
    proof {
        assert(cs@.subrange(0, n as int) =~= file_name@);
    }
    let ghost prefix = file_prefix(file_name@);
    proof {
        assert(prefix =~= cs@.subrange(0, plen as int));
    }
    let k = find_char(&cs, 0, plen, '_');
    if k >= plen {
        return Err(SlotError::MalformedName);
    }
    proof {
        assert(first_field(prefix) =~= cs@.subrange(0, k as int));
    }
    let id = match parse_u8(&cs, 0, k) {
        Some(v) => v,
        None => {
            return Err(SlotError::MalformedName);
        },
    };
    let rest_len = find_char(&cs, k + 1, plen, '_');
    proof {
        assert(after_first_field(prefix) =~= cs@.subrange(k + 1, plen as int));
        assert(first_field(after_first_field(prefix)) =~= cs@.subrange(k + 1, k + 1 + rest_len));
    }
    let name = string_of(&cs, k + 1, k + 1 + rest_len);
    Ok(Some((id, name)))
}

/// A file found in the save directory: its path, its file name, and when it was last written.
#[derive(Debug)]
pub struct SaveFile {
    pub path: String,
    pub file_name: String,
    pub modified: OffsetDateTime,
}

/// The ASCII decimal spelling of `n`, as characters.
pub open spec fn decimal_chars(n: nat) -> Seq<char> {
    decimal(n).map_values(|b: u8| b as char)
}

/// The file name a slot is saved under: `<id>_<name>.save`.
pub open spec fn slot_file_name(id: u8, name: Seq<char>) -> Seq<char> {
    decimal_chars(id as nat) + seq!['_'] + name + ".save"@
}

impl Slot {
    /// The pattern that the names of save files match.
    pub fn slot_pattern() -> (r: &'static str)
        ensures
            r@ == SLOT_PATTERN@,
    {
        SLOT_PATTERN
    }

    /// The name of the file this slot is saved under; see `slot_file_name`.
    pub fn file_name(&self) -> (r: String)
        ensures
            r@ == slot_file_name(self.id, self.name@),
    {
        let digits = decimal_u64(self.id as u64);
        let mut r = String::new();
        let mut i: usize = 0;
        while i < digits.len()
            invariant
                digits@ == decimal(self.id as nat),
                i <= digits@.len(),
                r@ == digits@.take(i as int).map_values(|b: u8| b as char),
            decreases digits@.len() - i,
        {
            let c = digits[i] as char;
            string_push(&mut r, c);
            assert(digits@.take(i + 1).map_values(|b: u8| b as char)
                =~= digits@.take(i as int).map_values(|b: u8| b as char).push(c));
            i = i + 1;
        }
        assert(digits@.take(i as int) =~= digits@);
        string_push(&mut r, '_');
        r.append(self.name.as_str());
        r.append(".save");
        assert(r@ =~= slot_file_name(self.id, self.name@));
        r
    }
}

/// The slot of a save file, if its name is a slot file name; see `slot_name_spec`.
pub open spec fn file_slot_spec(f: SaveFile) -> Result<Option<SlotModel>, SlotError> {
    match slot_name_spec(f.file_name@) {
        Err(e) => Err(e),
        Ok(None) => Ok(None),
        Ok(Some((id, name))) => Ok(Some(SlotModel { path: Some(f.path@), time: f.modified, name, id })),
    }
}

/// The slots of the save files `files`, read in order into `acc`; a later
/// file with the same number replaces an earlier one.
pub open spec fn scan_spec(files: Seq<SaveFile>, acc: Map<u8, SlotModel>) -> Result<Map<u8, SlotModel>, SlotError>
    decreases files.len(),
{
    if files.len() == 0 {
        Ok(acc)
    } else {
        match file_slot_spec(files[0]) {
            Err(e) => Err(e),
            Ok(None) => scan_spec(files.drop_first(), acc),
            Ok(Some(m)) => scan_spec(files.drop_first(), acc.insert(m.id, m)),
        }
    }
}

/// An empty slot, stamped with `now`.
pub open spec fn empty_slot(id: u8, now: OffsetDateTime) -> SlotModel {
    SlotModel { path: None, time: now, name: Seq::empty(), id }
}

/// The slots `m`, with an empty one for each number below `upto` that has none.
pub open spec fn fill_spec(m: Map<u8, SlotModel>, now: OffsetDateTime, upto: nat) -> Map<u8, SlotModel> {
    Map::new(
        |k: u8| m.contains_key(k) || (k as nat) < upto,
        |k: u8| if m.contains_key(k) { m[k] } else { empty_slot(k, now) },
    )
}

/// The numbers in `s` are distinct.
pub open spec fn ids_unique(s: Seq<Slot>) -> bool {
    forall|i: int, j: int| 0 <= i < j < s.len() ==> s[i].id != s[j].id
}

/// The slots of `s` by number.
pub open spec fn slot_map(s: Seq<Slot>) -> Map<u8, SlotModel> {
    Map::new(
        |k: u8| exists|i: int| 0 <= i < s.len() && s[i].id == k,
        |k: u8| slot_view(s[choose|i: int| 0 <= i < s.len() && s[i].id == k]),
    )
}

proof fn lemma_slot_map_at(s: Seq<Slot>, i: int)
    requires
        ids_unique(s),
        0 <= i < s.len(),
    ensures
        slot_map(s).contains_key(s[i].id),
        slot_map(s)[s[i].id] == slot_view(s[i]),
{
    let k = s[i].id;
    assert(exists|j: int| 0 <= j < s.len() && s[j].id == k);
    let j = choose|j: int| 0 <= j < s.len() && s[j].id == k;
    if j < i {
        assert(s[j].id != s[i].id);
    } else if i < j {
        assert(s[i].id != s[j].id);
    }
}

proof fn lemma_replace_same_id(s: Seq<Slot>, i: int, ns: Slot)
    requires
        ids_unique(s),
        0 <= i < s.len(),
        ns.id == s[i].id,
    ensures
        ids_unique(s.update(i, ns)),
        slot_map(s.update(i, ns)) == slot_map(s).insert(ns.id, slot_view(ns)),
{
    let t = s.update(i, ns);
    assert forall|a: int, b: int| 0 <= a < b < t.len() implies t[a].id != t[b].id by {
        assert(t[a].id == s[a].id && t[b].id == s[b].id);
    }
    lemma_slot_map_at(t, i);
    assert forall|q: u8| #![trigger slot_map(t).contains_key(q)] q != ns.id implies
        (slot_map(t).contains_key(q) == slot_map(s).contains_key(q))
        && (slot_map(t).contains_key(q) ==> slot_map(t)[q] == slot_map(s)[q]) by {
        if slot_map(s).contains_key(q) {
            let j = choose|j: int| 0 <= j < s.len() && s[j].id == q;
            assert(j != i);
            assert(t[j] == s[j]);
            lemma_slot_map_at(s, j);
            lemma_slot_map_at(t, j);
        }
        if slot_map(t).contains_key(q) {
            let j = choose|j: int| 0 <= j < t.len() && t[j].id == q;
            assert(j != i);
            assert(t[j] == s[j]);
        }
    }
    assert(slot_map(t) =~= slot_map(s).insert(ns.id, slot_view(ns)));
}

/// The save slots, by number.
pub struct SlotManager {
    slots: Vec<Slot>,
}

impl SlotManager {
    /// No two slots share a number.
    pub closed spec fn wf(self) -> bool {
        ids_unique(self.slots@)
    }

    pub closed spec fn model(self) -> Map<u8, SlotModel> {
        slot_map(self.slots@)
    }

    fn position(&self, id: u8) -> (r: Option<usize>)
        ensures
            r matches Some(i) ==> i < self.slots@.len() && self.slots@[i as int].id == id,
            r is None ==> forall|i: int| 0 <= i < self.slots@.len() ==> self.slots@[i].id != id,
    {
        let mut i: usize = 0;
        while i < self.slots.len()
            invariant
                i <= self.slots@.len(),
                forall|j: int| 0 <= j < i ==> self.slots@[j].id != id,
            decreases self.slots@.len() - i,
        {
            if self.slots[i].id == id {
                return Some(i);
            }
            i = i + 1;
        }
        None
    }

    /// Keeps `slot` under its number, replacing the slot that had it.
    fn upsert(&mut self, slot: Slot)
        requires
            old(self).wf(),
        ensures
            final(self).wf(),
            final(self).model() == old(self).model().insert(slot.id, slot_view(slot)),
    {
        let ghost old_s = self.slots@;
        let ghost k = slot.id;
        let ghost v = slot_view(slot);
        let pos = self.position(slot.id);
        match pos {
            Some(i) => {
                self.slots.set(i, slot);
            },
            None => {
                self.slots.push(slot);
            },
        }
        let ghost s = self.slots@;
        proof {
            assert(ids_unique(s)) by {
                assert forall|a: int, b: int| 0 <= a < b < s.len() implies s[a].id != s[b].id by {
                    match pos {
                        Some(i) => {
                            if a != i && b != i {
                                assert(s[a] == old_s[a] && s[b] == old_s[b]);
                            }
                        },
                        None => {
                            if b < old_s.len() {
                                assert(s[a] == old_s[a] && s[b] == old_s[b]);
                            } else {
                                assert(s[a] == old_s[a]);
                            }
                        },
                    }
                }
            }
            let new_idx: int = match pos { Some(i) => i as int, None => old_s.len() as int };
            assert(s[new_idx].id == k && slot_view(s[new_idx]) == v);
            lemma_slot_map_at(s, new_idx);
            assert forall|q: u8| #![trigger slot_map(s).contains_key(q)] q != k implies
                (slot_map(s).contains_key(q) == slot_map(old_s).contains_key(q))
                && (slot_map(s).contains_key(q) ==> slot_map(s)[q] == slot_map(old_s)[q]) by {
                if slot_map(old_s).contains_key(q) {
                    let j = choose|j: int| 0 <= j < old_s.len() && old_s[j].id == q;
                    assert(j != new_idx);
                    assert(s[j] == old_s[j]);
                    lemma_slot_map_at(old_s, j);
                    lemma_slot_map_at(s, j);
                }
                if slot_map(s).contains_key(q) {
                    let j = choose|j: int| 0 <= j < s.len() && s[j].id == q;
                    assert(j != new_idx);
                    assert(s[j] == old_s[j]);
                    assert(slot_map(old_s).contains_key(q));
                }
            }
            assert(slot_map(s) =~= slot_map(old_s).insert(k, v));
        }
    }

    /// Reads the save files found in the save directory into slots, then
    /// adds an empty slot, stamped `now`, for each number below `SLOT_SIZE`
    /// that no file has. Fails where a matching file name has no valid number.
    pub fn from_save_files(files: &Vec<SaveFile>, now: OffsetDateTime) -> (r: Result<SlotManager, SlotError>)
        ensures
            match scan_spec(files@, Map::empty()) {
                Ok(m) => r matches Ok(mgr) && mgr.wf() && mgr.model() == fill_spec(m, now, SLOT_SIZE as nat),
                Err(e) => r matches Err(re) && re == e,
            },
    {
        let mut mgr = SlotManager { slots: Vec::new() };
        assert(mgr.model() =~= Map::<u8, SlotModel>::empty());
        assert(files@.skip(0) =~= files@);
        let mut i: usize = 0;
        while i < files.len()
            invariant
                i <= files@.len(),
                mgr.wf(),
                scan_spec(files@, Map::empty()) == scan_spec(files@.skip(i as int), mgr.model()),
            decreases files@.len() - i,
        {
            let ghost rest = files@.skip(i as int);
            assert(rest[0] == files@[i as int]);
            assert(rest.drop_first() =~= files@.skip(i + 1));
            match parse_slot_file_name(files[i].file_name.as_str()) {
                Err(e) => {
                    return Err(e);
                },
                Ok(None) => {},
                Ok(Some((id, name))) => {
                    let slot = Slot { path: Some(files[i].path.clone()), time: files[i].modified, name, id };
                    mgr.upsert(slot);
                },
            }
            i = i + 1;
        }
        assert(files@.skip(i as int) =~= Seq::<SaveFile>::empty());
        let ghost scanned = mgr.model();
        let mut id: u8 = 0;
        while (id as usize) < SLOT_SIZE
            invariant
                id as usize <= SLOT_SIZE,
                mgr.wf(),
                mgr.model() == fill_spec(scanned, now, id as nat),
            decreases SLOT_SIZE - id as usize,
        {
            match mgr.position(id) {
                Some(_) => {
                    proof {
                        assert(mgr.model() =~= fill_spec(scanned, now, id as nat + 1));
                    }
                },
                None => {
                    let ghost before = mgr.model();
                    let ghost before_slots = mgr.slots@;
                    proof {
                        assert(!before.contains_key(id)) by {
                            if before.contains_key(id) {
                                let j = choose|j: int| 0 <= j < before_slots.len() && before_slots[j].id == id;
                                assert(before_slots[j].id != id);
                            }
                        }
                    }
                    mgr.upsert(Slot { path: None, time: now, name: String::new(), id });
                    proof {
                        assert(mgr.model() =~= fill_spec(scanned, now, id as nat + 1));
                    }
                },
            }
            id = id + 1;
        }
        Ok(mgr)
    }

    /// Whether a slot has a save file.
    pub fn check_any_save_slot(&self) -> (r: bool)
        requires
            self.wf(),
        ensures
            r == exists|k: u8| self.model().contains_key(k) && self.model()[k].path is Some,
    {
        let mut i: usize = 0;
        while i < self.slots.len()
            invariant
                i <= self.slots@.len(),
                ids_unique(self.slots@),
                forall|j: int| 0 <= j < i ==> self.slots@[j].path is None,
            decreases self.slots@.len() - i,
        {
            if self.slots[i].path.is_some() {
                proof { lemma_slot_map_at(self.slots@, i as int); }
                return true;
            }
            i = i + 1;
        }
        proof {
            assert forall|k: u8| self.model().contains_key(k) implies self.model()[k].path is None by {
                let j = choose|j: int| 0 <= j < self.slots@.len() && self.slots@[j].id == k;
                lemma_slot_map_at(self.slots@, j);
            }
        }
        false
    }

    /// The slot numbered `slot_id`, taken as a `u8` (that is, modulo 256),
    /// to be changed in place. Changing its number is not foreseen: the
    /// contract says what holds when the number is kept.
    pub fn get_slot(&mut self, slot_id: usize) -> (r: Result<&mut Slot, SlotError>)
        requires
            old(self).wf(),
        ensures
            match r {
                Ok(s) => old(self).model().contains_key(slot_id as u8)
                    && slot_view(*s) == old(self).model()[slot_id as u8]
                    && (final(s).id == slot_id as u8 ==> final(self).wf()
                        && final(self).model() == old(self).model().insert(slot_id as u8, slot_view(*final(s)))),
                Err(e) => e == SlotError::NoSuchSlot && !old(self).model().contains_key(slot_id as u8)
                    && final(self).wf() && final(self).model() == old(self).model(),
            },
    {
        let id = slot_id as u8;
        match self.position(id) {
            Some(i) => {
                proof {
                    lemma_slot_map_at(self.slots@, i as int);
                }
                let ghost s0 = self.slots@;
                proof {
                    assert forall|ns: Slot| #![trigger s0.update(i as int, ns)] ns.id == id implies
                        ids_unique(s0.update(i as int, ns))
                        && slot_map(s0.update(i as int, ns)) == slot_map(s0).insert(id, slot_view(ns)) by {
                        lemma_replace_same_id(s0, i as int, ns);
                    }
                }
                Ok(&mut self.slots[i])
            },
            None => {
                proof {
                    if self.model().contains_key(id) {
                        let j = choose|j: int| 0 <= j < self.slots@.len() && self.slots@[j].id == id;
                        assert(self.slots@[j].id != id);
                    }
                }
                Err(SlotError::NoSuchSlot)
            },
        }
    }

    /// The slot at the list position `selected`, if a position is selected and a slot has that number.
    pub fn get_current_slot(&mut self, selected: Option<usize>) -> (r: Option<&mut Slot>)
        requires
            old(self).wf(),
        ensures
            match selected {
                None => r is None && final(self).model() == old(self).model() && final(self).wf(),
                Some(p) => match r {
                    Some(s) => old(self).model().contains_key(p as u8)
                        && slot_view(*s) == old(self).model()[p as u8]
                        && (final(s).id == p as u8 ==> final(self).wf()
                            && final(self).model() == old(self).model().insert(p as u8, slot_view(*final(s)))),
                    None => !old(self).model().contains_key(p as u8)
                        && final(self).wf() && final(self).model() == old(self).model(),
                },
            },
    {
        match selected {
            Some(p) => match self.get_slot(p) {
                Ok(s) => Some(s),
                Err(_) => None,
            },
            None => None,
        }
    }

    /// The slot numbered `id`, if any.
    pub fn get(&self, id: u8) -> (r: Option<&Slot>)
        requires
            self.wf(),
        ensures
            r is Some <==> self.model().contains_key(id),
            r matches Some(s) ==> slot_view(*s) == self.model()[id],
    {
        match self.position(id) {
            Some(i) => {
                proof { lemma_slot_map_at(self.slots@, i as int); }
                Some(&self.slots[i])
            },
            None => None,
        }
    }
}

/// The slot list always offers every number below `SLOT_SIZE`: a number
/// without a save file gets an empty slot, and a number with one keeps it.
pub proof fn law_every_slot_number_present(m: Map<u8, SlotModel>, now: OffsetDateTime)
    ensures
        forall|k: u8| (k as nat) < SLOT_SIZE ==> #[trigger] fill_spec(m, now, SLOT_SIZE as nat).contains_key(k),
        forall|k: u8| #[trigger] m.contains_key(k) ==> fill_spec(m, now, SLOT_SIZE as nat).contains_key(k)
            && fill_spec(m, now, SLOT_SIZE as nat)[k] == m[k],
        forall|k: u8| (k as nat) < SLOT_SIZE && !m.contains_key(k)
            ==> #[trigger] fill_spec(m, now, SLOT_SIZE as nat)[k] == empty_slot(k, now),
{
}

proof fn lemma_first_index_absent(s: Seq<char>, c: char)
    requires
        forall|i: int| 0 <= i < s.len() ==> s[i] != c,
    ensures
        first_index(s, c) == s.len(),
{
    lemma_first_index(s, c, s.len() as int);
}

proof fn lemma_first_index_concat(a: Seq<char>, b: Seq<char>, c: char)
    requires
        forall|i: int| 0 <= i < a.len() ==> a[i] != c,
    ensures
        first_index(a + b, c) == a.len() + first_index(b, c),
    decreases a.len(),
{
    if a.len() > 0 {
        assert((a + b).drop_first() =~= a.drop_first() + b);
        assert forall|i: int| 0 <= i < a.drop_first().len() implies a.drop_first()[i] != c by {
            assert(a.drop_first()[i] == a[i + 1]);
        }
        lemma_first_index_concat(a.drop_first(), b, c);
    } else {
        assert(a + b =~= b);
    }
}

proof fn lemma_decimal_chars(n: nat)
    ensures
        decimal_chars(n).len() > 0,
        forall|i: int| 0 <= i < decimal_chars(n).len() ==> is_ascii_digit(#[trigger] decimal_chars(n)[i]),
        chars_value(decimal_chars(n)) == n,
    decreases n,
{
    lemma_decimal_digits(n);
    let d = decimal(n);
    let s = decimal_chars(n);
    assert forall|i: int| 0 <= i < s.len() implies is_ascii_digit(#[trigger] s[i]) by {
        assert(crate::decimal::is_digit(d[i]));
        assert(s[i] == d[i] as char);
    }
    if n >= 10 {
        lemma_decimal_chars(n / 10);
        assert(s.drop_last() =~= decimal_chars(n / 10));
        assert((n / 10) * 10 + n % 10 == n) by (nonlinear_arith);
        assert(s.last() == ((48 + n % 10) as u8) as char);
        assert((((48 + n % 10) as u8) as char) as u32 == 48 + n % 10);
        assert(s.len() > 0);
        assert(chars_value(s) == chars_value(s.drop_last()) * 10 + ((s.last() as u32) - 48) as nat);
        assert(chars_value(s) == (n / 10) * 10 + n % 10);
    } else {
        assert(s.drop_last() =~= Seq::<char>::empty());
        assert(s.last() == ((48 + n) as u8) as char);
        assert((((48 + n) as u8) as char) as u32 == 48 + n);
        assert(chars_value(s.drop_last()) == 0);
        assert(chars_value(s) == chars_value(s.drop_last()) * 10 + ((s.last() as u32) - 48) as nat);
    }
}

/// The file a slot is saved under reads back as the slot's number and name,
/// when the name holds no `_` and no `.` and the file name matches the
/// pattern of save files.
pub proof fn law_slot_file_name_reads_back(id: u8, name: Seq<char>)
    requires
        forall|i: int| 0 <= i < name.len() ==> name[i] != '_' && name[i] != '.',
        regex_is_match(SLOT_PATTERN@, slot_file_name(id, name)) == Some(true),
    ensures
        slot_name_spec(slot_file_name(id, name)) == Ok::<Option<(u8, Seq<char>)>, SlotError>(Some((id, name))),
{
    reveal_strlit(".save");
    let d = decimal_chars(id as nat);
    lemma_decimal_chars(id as nat);
    let head = d + seq!['_'] + name;
    let f = slot_file_name(id, name);
    assert(f =~= head + ".save"@);
    assert forall|i: int| 0 <= i < head.len() implies head[i] != '.' by {
        if i < d.len() {
            assert(is_ascii_digit(d[i]));
        } else if i > d.len() {
            assert(head[i] == name[i - d.len() - 1]);
        }
    }
    lemma_first_index_concat(head, ".save"@, '.');
    assert(first_index(".save"@, '.') == 0);
    assert(file_prefix(f) =~= head);
    assert forall|i: int| 0 <= i < d.len() implies d[i] != '_' by {
        assert(is_ascii_digit(d[i]));
    }
    assert(head =~= d + (seq!['_'] + name));
    lemma_first_index_concat(d, seq!['_'] + name, '_');
    assert(first_index(seq!['_'] + name, '_') == 0);
    assert(first_field(head) =~= d);
    assert(after_first_field(head) =~= name);
    lemma_first_index_absent(name, '_');
    assert(first_field(name) =~= name);
    assert(d[0] != '+') by {
        assert(is_ascii_digit(d[0]));
    }
    assert(fits_u8(d));
    assert(parse_u8_spec(d) == Some(id));
}

proof fn lemma_scan_keeps(files: Seq<SaveFile>, acc: Map<u8, SlotModel>, id: u8)
    requires
        forall|j: int| 0 <= j < files.len() ==> !(file_slot_spec(#[trigger] files[j]) is Err),
        forall|j: int| 0 <= j < files.len()
            ==> !(file_slot_spec(#[trigger] files[j]) matches Ok(Some(m)) && m.id == id),
    ensures
        scan_spec(files, acc) is Ok,
        scan_spec(files, acc)->Ok_0.contains_key(id) == acc.contains_key(id),
        acc.contains_key(id) ==> scan_spec(files, acc)->Ok_0[id] == acc[id],
    decreases files.len(),
{
    if files.len() > 0 {
        let rest = files.drop_first();
        assert forall|j: int| 0 <= j < rest.len() implies !(file_slot_spec(#[trigger] rest[j]) is Err)
            && !(file_slot_spec(rest[j]) matches Ok(Some(m)) && m.id == id) by {
            assert(rest[j] == files[j + 1]);
        }
        assert(!(file_slot_spec(files[0]) is Err));
        match file_slot_spec(files[0]) {
            Ok(Some(m)) => {
                assert(m.id != id);
                lemma_scan_keeps(rest, acc.insert(m.id, m), id);
            },
            _ => {
                lemma_scan_keeps(rest, acc, id);
            },
        }
    }
}

proof fn lemma_scan_finds(files: Seq<SaveFile>, acc: Map<u8, SlotModel>, i: int, v: SlotModel)
    requires
        0 <= i < files.len(),
        forall|j: int| 0 <= j < files.len() ==> !(file_slot_spec(#[trigger] files[j]) is Err),
        file_slot_spec(files[i]) == Ok::<Option<SlotModel>, SlotError>(Some(v)),
        forall|j: int| i < j < files.len()
            ==> !(file_slot_spec(#[trigger] files[j]) matches Ok(Some(m)) && m.id == v.id),
    ensures
        scan_spec(files, acc) is Ok,
        scan_spec(files, acc)->Ok_0.contains_key(v.id),
        scan_spec(files, acc)->Ok_0[v.id] == v,
    decreases files.len(),
{
    let rest = files.drop_first();
    assert forall|j: int| 0 <= j < rest.len() implies !(file_slot_spec(#[trigger] rest[j]) is Err) by {
        assert(rest[j] == files[j + 1]);
    }
    if i == 0 {
        assert forall|j: int| 0 <= j < rest.len()
            implies !(file_slot_spec(#[trigger] rest[j]) matches Ok(Some(m)) && m.id == v.id) by {
            assert(rest[j] == files[j + 1]);
        }
        lemma_scan_keeps(rest, acc.insert(v.id, v), v.id);
    } else {
        assert forall|j: int| i - 1 < j < rest.len()
            implies !(file_slot_spec(#[trigger] rest[j]) matches Ok(Some(m)) && m.id == v.id) by {
            assert(rest[j] == files[j + 1]);
        }
        assert(rest[i - 1] == files[i]);
        assert(!(file_slot_spec(files[0]) is Err));
        match file_slot_spec(files[0]) {
            Ok(Some(m)) => lemma_scan_finds(rest, acc.insert(m.id, m), i - 1, v),
            _ => lemma_scan_finds(rest, acc, i - 1, v),
        }
    }
}

/// What is saved is listed again: when the listing of the save directory
/// holds the file a slot is saved under (its name without `_` or `.`), no
/// file name in it has a number that is not a valid slot number, and no file
/// listed after it stands for the same slot number, then the slots read from
/// the listing hold that slot with its number, its name, and the file's path
/// and time.
pub proof fn law_saved_slot_listed_again(files: Seq<SaveFile>, i: int, id: u8, name: Seq<char>, now: OffsetDateTime)
    requires
        0 <= i < files.len(),
        forall|j: int| 0 <= j < files.len() ==> !(file_slot_spec(#[trigger] files[j]) is Err),
        files[i].file_name@ == slot_file_name(id, name),
        forall|k: int| 0 <= k < name.len() ==> name[k] != '_' && name[k] != '.',
        regex_is_match(SLOT_PATTERN@, slot_file_name(id, name)) == Some(true),
        forall|j: int| i < j < files.len()
            ==> !(file_slot_spec(#[trigger] files[j]) matches Ok(Some(m)) && m.id == id),
    ensures
        scan_spec(files, Map::empty()) matches Ok(m)
            && fill_spec(m, now, SLOT_SIZE as nat).contains_key(id)
            && fill_spec(m, now, SLOT_SIZE as nat)[id]
                == (SlotModel { path: Some(files[i].path@), time: files[i].modified, name, id }),
{
    law_slot_file_name_reads_back(id, name);
    let v = SlotModel { path: Some(files[i].path@), time: files[i].modified, name, id };
    assert(file_slot_spec(files[i]) == Ok::<Option<SlotModel>, SlotError>(Some(v)));
    lemma_scan_finds(files, Map::empty(), i, v);
}

} // verus!
