use std::collections::VecDeque;
use vstd::prelude::*;

verus! {

/// Capacity of the process-wide dialogue history.
pub const HISTORY_CAPACITY: usize = 100;

/// One line of dialogue as it is kept in the history.
#[derive(Debug, Clone)]
pub struct DialogueRecord {
    pub id: usize,
    pub speaker: String,
    pub content: String,
}

/// A bounded history: pushing past the capacity drops the oldest record.
pub struct HistoryLs {
    max_capacity: usize,
    records: VecDeque<DialogueRecord>,
}

/// The records left after pushing `r` onto `s` with capacity `cap`: the
/// oldest record is dropped when the history is full, and a history of
/// capacity zero keeps nothing.
pub open spec fn push_spec(s: Seq<DialogueRecord>, cap: nat, r: DialogueRecord) -> Seq<DialogueRecord> {
    if cap == 0 {
        s
    } else if s.len() >= cap {
        s.drop_first().push(r)
    } else {
        s.push(r)
    }
}

/// The records left after pushing each of `rs`, in order, onto `s`.
pub open spec fn push_all_spec(s: Seq<DialogueRecord>, cap: nat, rs: Seq<DialogueRecord>) -> Seq<DialogueRecord>
    decreases rs.len(),
{
    if rs.len() == 0 {
        s
    } else {
        push_spec(push_all_spec(s, cap, rs.drop_last()), cap, rs.last())
    }
}

/// The newest `cap` elements of `rs` (all of them when there are fewer).
pub open spec fn newest(rs: Seq<DialogueRecord>, cap: nat) -> Seq<DialogueRecord> {
    if rs.len() <= cap {
        rs
    } else {
        rs.subrange(rs.len() - cap, rs.len() as int)
    }
}

impl HistoryLs {
    #[verifier::type_invariant]
    spec fn within_capacity(self) -> bool {
        self.records@.len() <= self.max_capacity
    }

    pub closed spec fn capacity(&self) -> nat {
        self.max_capacity as nat
    }

    pub closed spec fn view_records(&self) -> Seq<DialogueRecord> {
        self.records@
    }

    /// Creates an empty history holding at most `max_capacity` records.
    pub fn new(max_capacity: usize) -> (h: Self)
        ensures
            h.capacity() == max_capacity,
            h.view_records() == Seq::<DialogueRecord>::empty(),
    {
        HistoryLs { max_capacity, records: VecDeque::new() }
    }

    /// Appends a record; when the history is full the oldest record is
    /// dropped first. A history of capacity zero keeps no record.
    pub fn push(&mut self, record: DialogueRecord)
        ensures
            final(self).view_records().len() <= final(self).capacity(),
            final(self).capacity() == old(self).capacity(),
            final(self).view_records() == push_spec(old(self).view_records(), old(self).capacity(), record),
    {
        proof { use_type_invariant(&*self); }
        if self.max_capacity == 0 {
            return;
        }
        let mut records = VecDeque::new();
        std::mem::swap(&mut records, &mut self.records);
        if records.len() >= self.max_capacity {
            let _ = records.pop_front();
        }
        records.push_back(record);
        self.records = records;
    }

    /// Forgets every record, as a new game or a load does.
    pub fn clear(&mut self)
        ensures
            final(self).capacity() == old(self).capacity(),
            final(self).view_records() == Seq::<DialogueRecord>::empty(),
    {
        self.records = VecDeque::new();
    }

    /// The kept records, oldest first.
    pub fn records(&self) -> (r: &VecDeque<DialogueRecord>)
        ensures
            r@ == self.view_records(),
    {
        &self.records
    }

    /// Number of kept records.
    pub fn len(&self) -> (n: usize)
        ensures
            n == self.view_records().len(),
            n <= self.capacity(),
    {
        proof { use_type_invariant(self); }
        self.records.len()
    }

    /// Whether no record is kept.
    pub fn is_empty(&self) -> (b: bool)
        ensures
            b == (self.view_records().len() == 0),
    {
        self.records.len() == 0
    }
}

/// A history never holds more than its capacity.
pub proof fn law_push_stays_bounded(s: Seq<DialogueRecord>, cap: nat, r: DialogueRecord)
    requires
        s.len() <= cap,
    ensures
        push_spec(s, cap, r).len() <= cap,
{
}

/// Pushing records one by one onto an empty history keeps exactly the newest
/// ones, oldest first: the older ones are evicted in the order they came.
pub proof fn law_history_keeps_newest(cap: nat, rs: Seq<DialogueRecord>)
    ensures
        push_all_spec(Seq::empty(), cap, rs) == newest(rs, cap),
    decreases rs.len(),
{
    if rs.len() > 0 {
        let prev = rs.drop_last();
        law_history_keeps_newest(cap, prev);
        let lim = cap;
        let p = newest(prev, cap);
        if cap == 0 {
            assert(newest(rs, cap) =~= Seq::<DialogueRecord>::empty());
        } else if prev.len() < lim {
            assert(push_spec(p, cap, rs.last()) =~= newest(rs, cap));
        } else {
            assert(p.len() == lim);
            assert(push_spec(p, cap, rs.last()) =~= newest(rs, cap));
        }
    }
}

} // verus!
