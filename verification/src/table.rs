use vstd::prelude::*;

verus! {

/// A table keyed by name, each name at most once.
pub struct NameTable<V> {
    entries: Vec<(String, V)>,
}

/// The key sequence `s` holds each name at most once.
pub open spec fn keys_unique<V>(s: Seq<(String, V)>) -> bool {
    forall|i: int, j: int| 0 <= i < j < s.len() ==> s[i].0@ != s[j].0@
}

/// The map that a sequence of entries with unique keys stands for.
pub open spec fn entries_map<V>(s: Seq<(String, V)>) -> Map<Seq<char>, V> {
    Map::new(
        |k: Seq<char>| exists|i: int| 0 <= i < s.len() && s[i].0@ == k,
        |k: Seq<char>| s[choose|i: int| 0 <= i < s.len() && s[i].0@ == k].1,
    )
}

proof fn lemma_entries_map_at<V>(s: Seq<(String, V)>, i: int)
    requires
        keys_unique(s),
        0 <= i < s.len(),
    ensures
        entries_map(s).contains_key(s[i].0@),
        entries_map(s)[s[i].0@] == s[i].1,
{
    let k = s[i].0@;
    assert(exists|j: int| 0 <= j < s.len() && s[j].0@ == k);
    let j = choose|j: int| 0 <= j < s.len() && s[j].0@ == k;
    if j < i {
        assert(s[j].0@ != s[i].0@);
    } else if i < j {
        assert(s[i].0@ != s[j].0@);
    }
}

impl<V> NameTable<V> {
    #[verifier::type_invariant]
    spec fn unique(self) -> bool {
        keys_unique(self.entries@)
    }

    pub closed spec fn map(self) -> Map<Seq<char>, V> {
        entries_map(self.entries@)
    }

    /// An empty table.
    pub fn new() -> (t: Self)
        ensures
            t.map() == Map::<Seq<char>, V>::empty(),
    {
        let t = NameTable { entries: Vec::new() };
        assert(t.map() =~= Map::<Seq<char>, V>::empty());
        t
    }

    fn position(&self, key: &String) -> (r: Option<usize>)
        ensures
            r matches Some(i) ==> i < self.entries@.len() && self.entries@[i as int].0@ == key@,
            r is None ==> forall|i: int| 0 <= i < self.entries@.len() ==> self.entries@[i].0@ != key@,
    {
        let mut i: usize = 0;
        while i < self.entries.len()
            invariant
                i <= self.entries@.len(),
                forall|j: int| 0 <= j < i ==> self.entries@[j].0@ != key@,
            decreases self.entries@.len() - i,
        {
            if self.entries[i].0 == *key {
                return Some(i);
            }
            i = i + 1;
        }
        None
    }

    /// The value kept under `key`.
    pub fn get(&self, key: &String) -> (r: Option<&V>)
        ensures
            r is Some <==> self.map().contains_key(key@),
            r matches Some(v) ==> *v == self.map()[key@],
    {
        proof { use_type_invariant(self); }
        match self.position(key) {
            Some(i) => {
                proof { lemma_entries_map_at(self.entries@, i as int); }
                Some(&self.entries[i].1)
            },
            None => None,
        }
    }

    /// Whether a value is kept under `key`.
    pub fn contains_key(&self, key: &String) -> (r: bool)
        ensures
            r == self.map().contains_key(key@),
    {
        self.get(key).is_some()
    }

    /// Keeps `value` under `key`, replacing what was kept there.
    pub fn insert(&mut self, key: String, value: V)
        ensures
            final(self).map() == old(self).map().insert(key@, value),
    {
        proof { use_type_invariant(&*self); }
        let ghost old_s = self.entries@;
        let ghost k = key@;
        let pos = self.position(&key);
        let mut entries: Vec<(String, V)> = Vec::new();
        std::mem::swap(&mut entries, &mut self.entries);
        match pos {
            Some(i) => {
                entries.set(i, (key, value));
            },
            None => {
                entries.push((key, value));
            },
        }
        let ghost s = entries@;
        proof {
            assert(keys_unique(s)) by {
                assert forall|a: int, b: int| 0 <= a < b < s.len() implies s[a].0@ != s[b].0@ by {
                    match pos {
                        Some(i) => {
                            if a != i && b != i {
                                assert(s[a] == old_s[a] && s[b] == old_s[b]);
                            }
                        },
                        None => {
                            if b < old_s.len() {
                                assert(s[a] == old_s[a] && s[b] == old_s[b]);
                            } else {
                                assert(s[a] == old_s[a]);
                            }
                        },
                    }
                }
            }
            let new_idx: int = match pos { Some(i) => i as int, None => old_s.len() as int };
            assert(s[new_idx].0@ == k && s[new_idx].1 == value);
            lemma_entries_map_at(s, new_idx);
            assert forall|q: Seq<char>| #![trigger entries_map(s).contains_key(q)] q != k implies
                (entries_map(s).contains_key(q) == entries_map(old_s).contains_key(q))
                && (entries_map(s).contains_key(q) ==> entries_map(s)[q] == entries_map(old_s)[q]) by {
                if entries_map(old_s).contains_key(q) {
                    let j = choose|j: int| 0 <= j < old_s.len() && old_s[j].0@ == q;
                    assert(j != new_idx);
                    assert(s[j] == old_s[j]);
                    lemma_entries_map_at(old_s, j);
                    lemma_entries_map_at(s, j);
                }
                if entries_map(s).contains_key(q) {
                    let j = choose|j: int| 0 <= j < s.len() && s[j].0@ == q;
                    assert(j != new_idx);
                    assert(s[j] == old_s[j]);
                    assert(entries_map(old_s).contains_key(q));
                }
            }
            assert(entries_map(s) =~= entries_map(old_s).insert(k, value));
        }
        self.entries = entries;
    }
}

} // verus!
