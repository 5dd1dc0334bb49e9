use vstd::prelude::*;
use vstd::utf8::{valid_utf8, decode_utf8};
use crate::decimal::{is_digit, decimal, decimal_u64};

verus! {

/// `needle` occurs in `haystack` starting at index `i`.
pub open spec fn occurs_at(haystack: Seq<u8>, i: int, needle: Seq<u8>) -> bool {
    0 <= i && i + needle.len() <= haystack.len() && haystack.subrange(i, i + needle.len()) == needle
}

/// `marker` occurs at `i` and is not directly followed by another digit,
/// so `#1` is not taken for the start of `#12`.
pub open spec fn is_marker_boundary(buffer: Seq<u8>, i: int, marker: Seq<u8>) -> bool {
    occurs_at(buffer, i, marker) && !(i + marker.len() < buffer.len() && is_digit(buffer[i + marker.len()]))
}

fn bytes_match_at(haystack: &[u8], i: usize, needle: &[u8]) -> (b: bool)
    requires
        i + needle@.len() <= haystack@.len(),
    ensures
        b == occurs_at(haystack@, i as int, needle@),
{
    let hl = haystack.len();
    let mut k: usize = 0;
    while k < needle.len()
        invariant
            hl == haystack@.len(),
            i + needle@.len() <= haystack@.len(),
            0 <= k <= needle@.len(),
            forall|j: int| 0 <= j < k ==> haystack@[i + j] == needle@[j],
        decreases needle@.len() - k,
    {
        if haystack[i + k] != needle[k] {
            assert(haystack@.subrange(i as int, i + needle@.len())[k as int] != needle@[k as int]);
            return false;
        }
        k = k + 1;
    }
    assert(haystack@.subrange(i as int, i + needle@.len()) =~= needle@);
    true
}

/// The first index at or after `start` where `needle` occurs in `haystack`.
/// An empty needle, or a start at or past the end, finds nothing.
pub fn find_bytes(haystack: &[u8], start: usize, needle: &[u8]) -> (r: Option<usize>)
    ensures
        needle@.len() == 0 || start >= haystack@.len() ==> r is None,
        r is None ==> needle@.len() == 0 || forall|i: int| start <= i ==> !occurs_at(haystack@, i, needle@),
        r matches Some(p) ==> start <= p && occurs_at(haystack@, p as int, needle@)
            && forall|i: int| start <= i < p ==> !occurs_at(haystack@, i, needle@),
{
    if needle.len() == 0 || start >= haystack.len() {
        return None;
    }
    let mut i: usize = start;
    while i <= haystack.len() && needle.len() <= haystack.len() - i
        invariant
            start <= i,
            needle@.len() > 0,
            forall|j: int| start <= j < i ==> !occurs_at(haystack@, j, needle@),
        decreases haystack@.len() - i,
    {
        if bytes_match_at(haystack, i, needle) {
            return Some(i);
        }
        i = i + 1;
    }
    None
}

/// The first index where `marker` occurs and is not followed by a further digit.
pub fn find_marker_boundary(buffer: &[u8], marker: &[u8]) -> (r: Option<usize>)
    ensures
        marker@.len() == 0 ==> r is None,
        r is None ==> marker@.len() == 0 || forall|i: int| !is_marker_boundary(buffer@, i, marker@),
        r matches Some(p) ==> is_marker_boundary(buffer@, p as int, marker@)
            && forall|i: int| 0 <= i < p ==> !is_marker_boundary(buffer@, i, marker@),
{
    let bl = buffer.len();
    let mut search_start: usize = 0;
    loop
        invariant
            bl == buffer@.len(),
            search_start <= buffer@.len(),
            forall|i: int| 0 <= i < search_start ==> !is_marker_boundary(buffer@, i, marker@),
        decreases buffer@.len() - search_start,
    {
        match find_bytes(buffer, search_start, marker) {
            Some(pos) => {
                let next = pos + marker.len();
                if next < buffer.len() && is_digit_byte(buffer[next]) {
                    search_start = pos + 1;
                } else {
                    return Some(pos);
                }
            },
            None => {
                proof {
                    if marker@.len() > 0 {
                        assert forall|i: int| !is_marker_boundary(buffer@, i, marker@) by {
                            if search_start >= buffer@.len() && i >= search_start {
                                assert(!occurs_at(buffer@, i, marker@));
                            }
                        }
                    }
                }
                return None;
            },
        }
    }
}

fn is_digit_byte(b: u8) -> (r: bool)
    ensures
        r == is_digit(b),
{
    b >= 48 && b <= 57
}

/// The first marker boundary of `marker` in `buffer`, if any.
#[verifier::opaque]
pub open spec fn first_boundary(buffer: Seq<u8>, marker: Seq<u8>) -> Option<int> {
    if marker.len() > 0 && exists|i: int| is_marker_boundary(buffer, i, marker) {
        Some(choose|i: int| is_marker_boundary(buffer, i, marker)
            && forall|j: int| 0 <= j < i ==> !is_marker_boundary(buffer, j, marker))
    } else {
        None
    }
}

/// There is no first boundary exactly when there is no boundary (or no marker).
proof fn lemma_first_boundary_none(buffer: Seq<u8>, marker: Seq<u8>)
    ensures
        first_boundary(buffer, marker) is None
            <==> (marker.len() == 0 || forall|i: int| !is_marker_boundary(buffer, i, marker)),
{
    reveal(first_boundary);
}

proof fn lemma_first_boundary_some(buffer: Seq<u8>, marker: Seq<u8>, p: int)
    requires
        marker.len() > 0,
        is_marker_boundary(buffer, p, marker),
        forall|j: int| 0 <= j < p ==> !is_marker_boundary(buffer, j, marker),
    ensures
        first_boundary(buffer, marker) == Some(p),
{
    reveal(first_boundary);
    let q = choose|i: int| is_marker_boundary(buffer, i, marker)
        && forall|j: int| 0 <= j < i ==> !is_marker_boundary(buffer, j, marker);
    assert(is_marker_boundary(buffer, q, marker));
    if q < p {
        assert(!is_marker_boundary(buffer, q, marker));
    }
    if p < q {
        assert(p >= 0);
    }
}

/// Finds the first marker boundary, stated over `first_boundary`.
fn locate_marker(buffer: &[u8], marker: &[u8]) -> (r: Option<usize>)
    ensures
        r is None <==> first_boundary(buffer@, marker@) is None,
        r matches Some(q) ==> first_boundary(buffer@, marker@) == Some(q as int) && q <= buffer@.len(),
{
    reveal(first_boundary);
    let r = find_marker_boundary(buffer, marker);
    proof {
        match r {
            Some(p) => lemma_first_boundary_some(buffer@, marker@, p as int),
            None => {},
        }
    }
    r
}

/// Most bytes kept while searching for a start marker that has not shown up yet.
pub const MAX_MARKER_LEN: usize = 20;

/// Content of one script section and whether the file ended before the next marker.
#[derive(Debug)]
pub struct SectionReadResult {
    pub content: String,
    pub is_eof: bool,
}

/// Why a section could not be read.
#[derive(Debug, PartialEq, Eq)]
pub enum SectionError {
    /// The start marker did not occur before the end of the file.
    MarkerNotFound,
    /// The section's bytes are not valid UTF-8.
    InvalidUtf8,
}

/// The buffered, not yet consumed part of a script file that is read in chunks.
pub struct SectionBuffer {
    buffer: Vec<u8>,
    chunk_size: usize,
    eof_reached: bool,
}

/// The search for one section: its two markers and whether the first was found.
pub struct SectionScan {
    start_marker: Vec<u8>,
    end_marker: Vec<u8>,
    start_found: bool,
}

/// What to do next in a section search.
#[derive(Debug)]
pub enum ScanStep {
    /// Read the next chunk of the file and pass it to the next step (an
    /// empty chunk when the file has ended).
    NeedChunk,
    /// The search is over.
    Finished(Result<SectionReadResult, SectionError>),
}

/// The marker that opens section `n`: `#` followed by `n` in decimal.
pub open spec fn section_marker(n: nat) -> Seq<u8> {
    seq![35u8] + decimal(n)
}

/// Abstract state of a buffer.
pub struct BufferModel {
    pub bytes: Seq<u8>,
    pub chunk_size: nat,
    pub eof: bool,
}

/// Abstract outcome of one step.
pub enum StepOutcome {
    NeedChunk,
    Found(Seq<char>, bool),
    NotFound,
    BadUtf8,
}

/// Abstract result of one step: the new buffer, whether the start marker is found, the outcome.
pub struct StepModel {
    pub buf: BufferModel,
    pub found: bool,
    pub outcome: StepOutcome,
}

/// Before searching, a chunk is read when nothing is buffered, or while the
/// start marker is still sought and less than a chunk is buffered. (A search
/// that fails before the end of the file asks for a chunk as well.)
pub open spec fn wants_chunk(b: BufferModel, found: bool) -> bool {
    b.bytes.len() == 0 || (!found && b.bytes.len() < b.chunk_size)
}

/// The outcome when the file is exhausted and nothing is buffered.
pub open spec fn exhausted_outcome(found: bool) -> StepOutcome {
    if found { StepOutcome::Found(Seq::empty(), true) } else { StepOutcome::NotFound }
}

/// A marker found at `p` is taken as found unless it ends the buffer before
/// the end of the file: the next chunk may then carry a digit after it, so
/// that it is the start of a longer number (`#1` of `#12`), and a further
/// chunk is read before deciding.
pub open spec fn decided(b: BufferModel, p: int, marker: Seq<u8>) -> bool {
    b.eof || p + marker.len() < b.bytes.len()
}

/// Looking for the end marker once the start marker has been found
/// (the buffer then begins with the start marker).
pub open spec fn end_phase(b: BufferModel, end: Seq<u8>) -> StepModel {
    match first_boundary(b.bytes, end) {
        Some(p) => if !decided(b, p, end) {
            StepModel { buf: b, found: true, outcome: StepOutcome::NeedChunk }
        } else {
            let c = b.bytes.take(p);
            if valid_utf8(c) {
                StepModel {
                    buf: BufferModel { bytes: b.bytes.skip(p), ..b },
                    found: true,
                    outcome: StepOutcome::Found(decode_utf8(c), false),
                }
            } else {
                StepModel { buf: b, found: true, outcome: StepOutcome::BadUtf8 }
            }
        },
        None => {
            if b.eof {
                if valid_utf8(b.bytes) {
                    StepModel {
                        buf: BufferModel { bytes: Seq::empty(), ..b },
                        found: true,
                        outcome: StepOutcome::Found(decode_utf8(b.bytes), true),
                    }
                } else {
                    StepModel { buf: b, found: true, outcome: StepOutcome::BadUtf8 }
                }
            } else {
                StepModel { buf: b, found: true, outcome: StepOutcome::NeedChunk }
            }
        },
    }
}

/// Looking for the start marker (if not found yet), then for the end marker.
/// Without a start marker, all but the last `MAX_MARKER_LEN` bytes are dropped
/// once the buffer holds more than a chunk and that many bytes.
pub open spec fn search_phase(b: BufferModel, found: bool, start: Seq<u8>, end: Seq<u8>) -> StepModel {
    if found {
        end_phase(b, end)
    } else {
        match first_boundary(b.bytes, start) {
            Some(p) => if !decided(b, p, start) {
                StepModel { buf: b, found: false, outcome: StepOutcome::NeedChunk }
            } else {
                end_phase(BufferModel { bytes: b.bytes.skip(p), ..b }, end)
            },
            None => {
                let kept = if b.bytes.len() > b.chunk_size + MAX_MARKER_LEN {
                    b.bytes.skip(b.bytes.len() - MAX_MARKER_LEN)
                } else {
                    b.bytes
                };
                StepModel {
                    buf: BufferModel { bytes: kept, ..b },
                    found: false,
                    outcome: if b.eof { StepOutcome::NotFound } else { StepOutcome::NeedChunk },
                }
            },
        }
    }
}

/// The buffer after taking the chunk handed to a step: an empty chunk marks
/// the end of the file, and nothing is taken once the file has ended.
pub open spec fn take_chunk(b: BufferModel, chunk: Option<Seq<u8>>) -> BufferModel {
    match chunk {
        None => b,
        Some(c) => if b.eof {
            b
        } else if c.len() == 0 {
            BufferModel { eof: true, ..b }
        } else {
            BufferModel { bytes: b.bytes + c, ..b }
        },
    }
}

/// One step of the section search, given the chunk read for it (if any).
/// Without a chunk, a step that wants one before searching asks for it; a
/// search that cannot finish before the end of the file asks for the next
/// chunk too, so every step but the last reads more of the file.
pub open spec fn scan_step(b: BufferModel, found: bool, start: Seq<u8>, end: Seq<u8>, chunk: Option<Seq<u8>>) -> StepModel {
    let b1 = take_chunk(b, chunk);
    if b1.eof && b1.bytes.len() == 0 {
        StepModel { buf: b1, found, outcome: exhausted_outcome(found) }
    } else if chunk is None && !b1.eof && wants_chunk(b1, found) {
        StepModel { buf: b1, found, outcome: StepOutcome::NeedChunk }
    } else {
        search_phase(b1, found, start, end)
    }
}

/// A search asks for more only before the end of the file, and then the
/// buffer still says so.
pub proof fn lemma_search_needs_chunk_only_before_end(b: BufferModel, found: bool, start: Seq<u8>, end: Seq<u8>)
    ensures
        search_phase(b, found, start, end).outcome is NeedChunk ==> !b.eof && !search_phase(b, found, start, end).buf.eof,
        search_phase(b, found, start, end).buf.eof == b.eof,
        search_phase(b, found, start, end).buf.chunk_size == b.chunk_size,
{
}

/// A step asks for a chunk only before the end of the file; once the file
/// has ended (or an empty chunk says so) the step finishes the search.
pub proof fn lemma_step_finishes_at_end(b: BufferModel, found: bool, start: Seq<u8>, end: Seq<u8>, chunk: Option<Seq<u8>>)
    ensures
        scan_step(b, found, start, end, chunk).outcome is NeedChunk ==> !scan_step(b, found, start, end, chunk).buf.eof,
        b.eof ==> !(scan_step(b, found, start, end, chunk).outcome is NeedChunk),
        (chunk matches Some(c) && c.len() == 0) ==> !(scan_step(b, found, start, end, chunk).outcome is NeedChunk),
        scan_step(b, found, start, end, chunk).buf.chunk_size == b.chunk_size,
{
    lemma_search_needs_chunk_only_before_end(take_chunk(b, chunk), found, start, end);
}

/// The loop a reader runs for one section: steps are taken until one
/// finishes; each request for a chunk is answered with the next (at most)
/// `chunk_size` bytes of `rest`, the part of the file not read yet, which
/// is empty once the file has ended. `pending` is the chunk handed to the
/// first step.
pub open spec fn read_run(rest: Seq<u8>, chunk_size: nat, b: BufferModel, found: bool, start: Seq<u8>, end: Seq<u8>, pending: Option<Seq<u8>>) -> StepOutcome
    decreases rest.len(), (if pending matches Some(c) && c.len() == 0 { 0nat } else { 1nat }),
{
    let m = scan_step(b, found, start, end, pending);
    if m.outcome is NeedChunk {
        let k: nat = if chunk_size < rest.len() { chunk_size } else { rest.len() };
        proof {
            lemma_step_finishes_at_end(b, found, start, end, pending);
        }
        read_run(rest.skip(k as int), chunk_size, m.buf, m.found, start, end, Some(rest.take(k as int)))
    } else {
        m.outcome
    }
}

/// Reading a section always ends: whatever the file, the chunk size and the
/// state of the buffer, the loop of steps comes to a finished search (the
/// section, or the marker not found, or bytes that are not UTF-8) and never
/// waits on the file forever.
pub proof fn law_reader_finishes(rest: Seq<u8>, chunk_size: nat, b: BufferModel, found: bool, start: Seq<u8>, end: Seq<u8>, pending: Option<Seq<u8>>)
    ensures
        !(read_run(rest, chunk_size, b, found, start, end, pending) is NeedChunk),
    decreases rest.len(), (if pending matches Some(c) && c.len() == 0 { 0nat } else { 1nat }),
{
    let m = scan_step(b, found, start, end, pending);
    if m.outcome is NeedChunk {
        let k: nat = if chunk_size < rest.len() { chunk_size } else { rest.len() };
        lemma_step_finishes_at_end(b, found, start, end, pending);
        law_reader_finishes(rest.skip(k as int), chunk_size, m.buf, m.found, start, end, Some(rest.take(k as int)));
    }
}

proof fn lemma_minimal_boundary(buffer: Seq<u8>, marker: Seq<u8>, i: int)
    requires
        is_marker_boundary(buffer, i, marker),
    ensures
        exists|k: int| is_marker_boundary(buffer, k, marker)
            && forall|j: int| 0 <= j < k ==> !is_marker_boundary(buffer, j, marker),
    decreases i,
{
    if exists|j: int| 0 <= j < i && is_marker_boundary(buffer, j, marker) {
        let j = choose|j: int| 0 <= j < i && is_marker_boundary(buffer, j, marker);
        lemma_minimal_boundary(buffer, marker, j);
    } else {
        assert(is_marker_boundary(buffer, i, marker)
            && forall|j: int| 0 <= j < i ==> !is_marker_boundary(buffer, j, marker));
    }
}

proof fn lemma_first_boundary_is_boundary(buffer: Seq<u8>, marker: Seq<u8>)
    requires
        first_boundary(buffer, marker) is Some,
    ensures
        is_marker_boundary(buffer, first_boundary(buffer, marker)->0, marker),
{
    reveal(first_boundary);
    let i = choose|i: int| is_marker_boundary(buffer, i, marker);
    lemma_minimal_boundary(buffer, marker, i);
}

/// After a section has been read without reaching the end of the file, the
/// buffer begins with the marker that ended it, which is the marker of the
/// next section: reading that section finds its start at once, and nothing
/// between the two sections is lost.
#[verifier::rlimit(50)]
pub proof fn law_next_section_starts_at_head(b: BufferModel, end: Seq<u8>)
    requires
        end_phase(b, end).outcome matches StepOutcome::Found(_, false),
    ensures
        first_boundary(end_phase(b, end).buf.bytes, end) == Some(0int),
{
    reveal(first_boundary);
    assert(first_boundary(b.bytes, end) is Some);
    let p = first_boundary(b.bytes, end)->0;
    lemma_first_boundary_is_boundary(b.bytes, end);
    let rest = b.bytes.skip(p);
    assert(end_phase(b, end).buf.bytes == rest);
    assert(rest.subrange(0, end.len() as int) =~= b.bytes.subrange(p, p + end.len()));
    if end.len() < rest.len() {
        assert(rest[end.len() as int] == b.bytes[p + end.len()]);
    }
    assert(is_marker_boundary(rest, 0, end));
    lemma_first_boundary_some(rest, end, 0);
}

/// The section a reader gives once its start marker is found, when `t` is
/// the text from there to the end of the file: the text up to the first end
/// marker, or all of `t` when none follows (an error for bytes that are not
/// UTF-8).
#[verifier::opaque]
pub open spec fn section_outcome(t: Seq<u8>, end: Seq<u8>) -> StepOutcome {
    match first_boundary(t, end) {
        Some(q) => if valid_utf8(t.take(q)) {
            StepOutcome::Found(decode_utf8(t.take(q)), false)
        } else {
            StepOutcome::BadUtf8
        },
        None => if valid_utf8(t) {
            StepOutcome::Found(decode_utf8(t), true)
        } else {
            StepOutcome::BadUtf8
        },
    }
}

/// What reading a section gives, when `t` is the text of the file not yet
/// consumed: the marker not found when `start` does not occur in `t`, and
/// otherwise the section from the first start marker on.
pub open spec fn read_outcome(t: Seq<u8>, start: Seq<u8>, end: Seq<u8>) -> StepOutcome {
    match first_boundary(t, start) {
        None => StepOutcome::NotFound,
        Some(p) => section_outcome(t.skip(p), end),
    }
}

/// The bytes of a chunk handed to a step (none when no chunk was handed).
pub open spec fn pending_bytes(pending: Option<Seq<u8>>) -> Seq<u8> {
    match pending {
        Some(c) => c,
        None => Seq::empty(),
    }
}

/// The text not yet consumed, for a buffer and the chunk handed to a step.
pub open spec fn unread_text(b: BufferModel, pending: Option<Seq<u8>>, rest: Seq<u8>) -> Seq<u8> {
    b.bytes + pending_bytes(pending) + rest
}

proof fn lemma_first_boundary_minimal(buffer: Seq<u8>, marker: Seq<u8>)
    requires
        first_boundary(buffer, marker) is Some,
    ensures
        marker.len() > 0,
        is_marker_boundary(buffer, first_boundary(buffer, marker)->0, marker),
        forall|j: int| 0 <= j < first_boundary(buffer, marker)->0 ==> !is_marker_boundary(buffer, j, marker),
{
    reveal(first_boundary);
    let i = choose|i: int| is_marker_boundary(buffer, i, marker);
    lemma_minimal_boundary(buffer, marker, i);
}

/// What a prefix of `t` tells of the first boundary of `t`: a first boundary
/// of the prefix that ends before the prefix does is the first boundary of
/// `t`; when it ends the prefix, no boundary of `t` ends before the prefix
/// does; and when the prefix has none, every boundary of `t` ends beyond it.
proof fn lemma_prefix_boundary(t: Seq<u8>, marker: Seq<u8>, k: int)
    requires
        0 <= k <= t.len(),
        marker.len() > 0,
    ensures
        first_boundary(t.take(k), marker) matches Some(q)
            ==> (q + marker.len() < k ==> first_boundary(t, marker) == Some(q)),
        first_boundary(t.take(k), marker) matches Some(q)
            ==> (q + marker.len() >= k ==> forall|i: int| is_marker_boundary(t, i, marker) ==> i + marker.len() >= k),
        first_boundary(t.take(k), marker) is None
            ==> forall|i: int| is_marker_boundary(t, i, marker) ==> i + marker.len() > k,
{
    let p = t.take(k);
    let n = marker.len() as int;
    assert forall|i: int| is_marker_boundary(t, i, marker) && i + n <= k
        implies is_marker_boundary(p, i, marker) by {
        assert(p.subrange(i, i + n) =~= t.subrange(i, i + n));
        if i + n < k {
            assert(p[i + n] == t[i + n]);
        }
    }
    lemma_first_boundary_none(p, marker);
    match first_boundary(p, marker) {
        Some(q) => {
            lemma_first_boundary_minimal(p, marker);
            if q + n < k {
                assert(p.subrange(q, q + n) =~= t.subrange(q, q + n));
                assert(p[q + n] == t[q + n]);
                assert(is_marker_boundary(t, q, marker));
                assert forall|j: int| 0 <= j < q implies !is_marker_boundary(t, j, marker) by {
                    if is_marker_boundary(t, j, marker) {
                        assert(is_marker_boundary(p, j, marker));
                    }
                }
                lemma_first_boundary_some(t, marker, q);
            } else {
                assert forall|i: int| is_marker_boundary(t, i, marker) implies i + n >= k by {
                    if i + n < k {
                        assert(is_marker_boundary(p, i, marker));
                        assert(0 <= i < q);
                    }
                }
            }
        },
        None => {
            assert forall|i: int| is_marker_boundary(t, i, marker) implies i + n > k by {
                if i + n <= k {
                    assert(is_marker_boundary(p, i, marker));
                }
            }
        },
    }
}

proof fn lemma_step_searches(b: BufferModel, found: bool, start: Seq<u8>, end: Seq<u8>, pending: Option<Seq<u8>>)
    requires
        !(take_chunk(b, pending).eof && take_chunk(b, pending).bytes.len() == 0),
        !(pending is None && !take_chunk(b, pending).eof && wants_chunk(take_chunk(b, pending), found)),
    ensures
        scan_step(b, found, start, end, pending) == search_phase(take_chunk(b, pending), found, start, end),
{
}

/// The buffer after a step is what was buffered with the chunk appended,
/// and before the end of the file the rest follows it.
proof fn lemma_taken_prefix(b: BufferModel, pending: Option<Seq<u8>>, rest: Seq<u8>)
    requires
        !b.eof,
        (pending matches Some(c) && c.len() == 0) ==> rest.len() == 0,
    ensures
        take_chunk(b, pending).eof ==> unread_text(b, pending, rest) == take_chunk(b, pending).bytes,
        !take_chunk(b, pending).eof ==> unread_text(b, pending, rest) == take_chunk(b, pending).bytes + rest,
        take_chunk(b, pending).chunk_size == b.chunk_size,
{
    let t = unread_text(b, pending, rest);
    let b1 = take_chunk(b, pending);
    if b1.eof {
        assert(t =~= b1.bytes);
    } else {
        assert(t =~= b1.bytes + rest);
    }
}

proof fn lemma_end_run(rest: Seq<u8>, chunk_size: nat, b: BufferModel, start: Seq<u8>, end: Seq<u8>, pending: Option<Seq<u8>>)
    requires
        chunk_size >= 1,
        !b.eof,
        end.len() > 0,
        (pending matches Some(c) && c.len() == 0) ==> rest.len() == 0,
    ensures
        read_run(rest, chunk_size, b, true, start, end, pending) == section_outcome(unread_text(b, pending, rest), end),
    decreases rest.len(), (if pending matches Some(c) && c.len() == 0 { 0nat } else { 1nat }),
{
    reveal(section_outcome);
    let t = unread_text(b, pending, rest);
    let b1 = take_chunk(b, pending);
    let k: nat = if chunk_size < rest.len() { chunk_size } else { rest.len() };
    assert(rest.take(k as int) + rest.skip(k as int) =~= rest);
    lemma_taken_prefix(b, pending, rest);
    if b1.eof && b1.bytes.len() == 0 {
        assert(t =~= Seq::<u8>::empty());
        lemma_first_boundary_none(t, end);
        assert(decode_utf8(t) =~= Seq::<char>::empty());
    } else if pending is None && !b1.eof && wants_chunk(b1, true) {
        assert(unread_text(b, Some(rest.take(k as int)), rest.skip(k as int)) =~= t);
        lemma_end_run(rest.skip(k as int), chunk_size, b, start, end, Some(rest.take(k as int)));
    } else {
        lemma_step_searches(b, true, start, end, pending);
        if !b1.eof {
            let len = b1.bytes.len() as int;
            assert(t.take(len) =~= b1.bytes);
            lemma_prefix_boundary(t, end, len);
            let decided_here = match first_boundary(b1.bytes, end) {
                Some(q) => q + end.len() < len,
                None => false,
            };
            if decided_here {
                let q = first_boundary(b1.bytes, end)->0;
                lemma_first_boundary_minimal(b1.bytes, end);
                assert(t.take(q) =~= b1.bytes.take(q)) by {
                    assert(t == b1.bytes + rest);
                }
            } else {
                assert(unread_text(b1, Some(rest.take(k as int)), rest.skip(k as int)) =~= t);
                lemma_end_run(rest.skip(k as int), chunk_size, b1, start, end, Some(rest.take(k as int)));
            }
        }
    }
}

/// A section runs on over as many chunks as it takes: once its start marker
/// is found, with `b` holding the buffered text from that marker on and
/// `rest` the part of the file not read yet, the reader gives the text up to
/// the first end marker, or up to the end of the file when none follows,
/// for every chunk size of at least one byte.
pub proof fn law_section_spans_chunks(rest: Seq<u8>, chunk_size: nat, b: BufferModel, start: Seq<u8>, end: Seq<u8>)
    requires
        chunk_size >= 1,
        !b.eof,
        end.len() > 0,
    ensures
        read_run(rest, chunk_size, b, true, start, end, None) == section_outcome(b.bytes + rest, end),
{
    assert(unread_text(b, None, rest) =~= b.bytes + rest);
    lemma_end_run(rest, chunk_size, b, start, end, None);
}

/// Dropping a head of `t` in which no marker boundary begins moves the
/// first boundary back by as much.
proof fn lemma_skip_boundary(t: Seq<u8>, marker: Seq<u8>, d: int)
    requires
        0 <= d <= t.len(),
        marker.len() > 0,
        forall|i: int| 0 <= i < d ==> !is_marker_boundary(t, i, marker),
    ensures
        first_boundary(t.skip(d), marker) == (match first_boundary(t, marker) {
            Some(q) => Some(q - d),
            None => None,
        }),
{
    let u = t.skip(d);
    let n = marker.len() as int;
    assert forall|i: int| is_marker_boundary(u, i, marker) <==> is_marker_boundary(t, i + d, marker) by {
        if 0 <= i && i + n <= u.len() {
            assert(u.subrange(i, i + n) =~= t.subrange(i + d, i + d + n));
            if i + n < u.len() {
                assert(u[i + n] == t[i + d + n]);
            }
        }
    }
    lemma_first_boundary_none(t, marker);
    lemma_first_boundary_none(u, marker);
    match first_boundary(t, marker) {
        Some(q) => {
            lemma_first_boundary_minimal(t, marker);
            assert(q >= d);
            assert(is_marker_boundary(u, q - d, marker));
            assert forall|j: int| 0 <= j < q - d implies !is_marker_boundary(u, j, marker) by {
                assert(!is_marker_boundary(t, j + d, marker));
            }
            lemma_first_boundary_some(u, marker, q - d);
        },
        None => {
            assert forall|i: int| !is_marker_boundary(u, i, marker) by {
                if is_marker_boundary(u, i, marker) {
                    assert(is_marker_boundary(t, i + d, marker));
                }
            }
        },
    }
}

proof fn lemma_same_step_same_run(rest: Seq<u8>, chunk_size: nat, b: BufferModel, found: bool, pending: Option<Seq<u8>>,
    b2: BufferModel, found2: bool, pending2: Option<Seq<u8>>, start: Seq<u8>, end: Seq<u8>)
    requires
        scan_step(b, found, start, end, pending) == scan_step(b2, found2, start, end, pending2),
    ensures
        read_run(rest, chunk_size, b, found, start, end, pending) == read_run(rest, chunk_size, b2, found2, start, end, pending2),
{
}

proof fn lemma_found_step(b: BufferModel, start: Seq<u8>, end: Seq<u8>, pending: Option<Seq<u8>>, p: int)
    requires
        scan_step(b, false, start, end, pending) == search_phase(take_chunk(b, pending), false, start, end),
        first_boundary(take_chunk(b, pending).bytes, start) == Some(p),
        decided(take_chunk(b, pending), p, start),
        0 <= p < take_chunk(b, pending).bytes.len(),
    ensures
        scan_step(b, false, start, end, pending)
            == scan_step(BufferModel { bytes: take_chunk(b, pending).bytes.skip(p), ..take_chunk(b, pending) }, true, start, end, None),
{
    let b1 = take_chunk(b, pending);
    let b2 = BufferModel { bytes: b1.bytes.skip(p), ..b1 };
    assert(b2.bytes.len() > 0);
    assert(search_phase(b1, false, start, end) == end_phase(b2, end));
    assert(scan_step(b2, true, start, end, None) == search_phase(b2, true, start, end));
}

proof fn lemma_start_found_case(rest: Seq<u8>, chunk_size: nat, b: BufferModel, start: Seq<u8>, end: Seq<u8>, pending: Option<Seq<u8>>)
    requires
        chunk_size >= 1,
        !b.eof,
        start.len() > 0,
        end.len() > 0,
        (pending matches Some(c) && c.len() == 0) ==> rest.len() == 0,
        scan_step(b, false, start, end, pending) == search_phase(take_chunk(b, pending), false, start, end),
        first_boundary(take_chunk(b, pending).bytes, start) is Some,
        decided(take_chunk(b, pending), first_boundary(take_chunk(b, pending).bytes, start)->0, start),
    ensures
        read_run(rest, chunk_size, b, false, start, end, pending) == read_outcome(unread_text(b, pending, rest), start, end),
{
    let t = unread_text(b, pending, rest);
    let b1 = take_chunk(b, pending);
    let pb = b1.bytes;
    let len = pb.len() as int;
    lemma_taken_prefix(b, pending, rest);
    let p = first_boundary(pb, start)->0;
    lemma_first_boundary_minimal(pb, start);
    if b1.eof {
        assert(t == pb);
    } else {
        assert(t.take(len) =~= pb) by {
            assert(t == pb + rest);
        }
        lemma_prefix_boundary(t, start, len);
    }
    assert(first_boundary(t, start) == Some(p));
    let b2 = BufferModel { bytes: pb.skip(p), ..b1 };
    lemma_found_step(b, start, end, pending, p);
    lemma_same_step_same_run(rest, chunk_size, b, false, pending, b2, true, None, start, end);
    if b1.eof {
        assert(t.skip(p) =~= pb.skip(p)) by {
            assert(t == pb);
        }
        assert(scan_step(b2, true, start, end, None) == end_phase(b2, end));
        reveal(section_outcome);
    } else {
        assert(t.skip(p) =~= pb.skip(p) + rest) by {
            assert(t == pb + rest);
        }
        law_section_spans_chunks(rest, chunk_size, b2, start, end);
    }
}

proof fn lemma_missed_step(b: BufferModel, start: Seq<u8>, end: Seq<u8>, pending: Option<Seq<u8>>)
    requires
        scan_step(b, false, start, end, pending) == search_phase(take_chunk(b, pending), false, start, end),
        first_boundary(take_chunk(b, pending).bytes, start) is None,
        !take_chunk(b, pending).eof,
    ensures
        ({
            let b1 = take_chunk(b, pending);
            let d: int = if b1.bytes.len() > b1.chunk_size + MAX_MARKER_LEN { b1.bytes.len() - MAX_MARKER_LEN } else { 0 };
            scan_step(b, false, start, end, pending)
                == (StepModel { buf: BufferModel { bytes: b1.bytes.skip(d), ..b1 }, found: false, outcome: StepOutcome::NeedChunk })
        }),
{
    let b1 = take_chunk(b, pending);
    if b1.bytes.len() <= b1.chunk_size + MAX_MARKER_LEN {
        assert(b1.bytes.skip(0) =~= b1.bytes);
    }
}

/// No start marker begins in the head that is dropped: when the searched
/// prefix holds none, every marker in the text ends beyond the prefix.
proof fn lemma_dropped_head_unmarked(t: Seq<u8>, start: Seq<u8>, len: int, d: int)
    requires
        0 <= d <= len <= t.len(),
        d == 0 || d == len - MAX_MARKER_LEN,
        start.len() > 0,
        start.len() <= MAX_MARKER_LEN + 1,
        first_boundary(t.take(len), start) is None,
    ensures
        forall|i: int| 0 <= i < d ==> !is_marker_boundary(t, i, start),
{
    lemma_prefix_boundary(t, start, len);
}

/// Dropping the head of the text before the last `MAX_MARKER_LEN` bytes of
/// a prefix that holds no start marker loses no section.
proof fn lemma_drop_keeps_outcome(t: Seq<u8>, start: Seq<u8>, end: Seq<u8>, len: int, d: int)
    requires
        0 <= d <= len <= t.len(),
        d == 0 || d == len - MAX_MARKER_LEN,
        start.len() > 0,
        start.len() <= MAX_MARKER_LEN + 1,
        first_boundary(t.take(len), start) is None,
    ensures
        read_outcome(t.skip(d), start, end) == read_outcome(t, start, end),
{
    lemma_dropped_head_unmarked(t, start, len, d);
    lemma_skip_boundary(t, start, d);
    if first_boundary(t, start) is Some {
        let q = first_boundary(t, start)->0;
        lemma_first_boundary_minimal(t, start);
        assert(t.skip(d).skip(q - d) =~= t.skip(q));
    }
    lemma_outcome_after_skip(t, start, end, d);
}

proof fn lemma_outcome_after_skip(t: Seq<u8>, start: Seq<u8>, end: Seq<u8>, d: int)
    requires
        0 <= d <= t.len(),
        first_boundary(t.skip(d), start) == (match first_boundary(t, start) {
            Some(q) => Some(q - d),
            None => None,
        }),
        first_boundary(t, start) matches Some(q) ==> d <= q <= t.len(),
    ensures
        read_outcome(t.skip(d), start, end) == read_outcome(t, start, end),
{
    if first_boundary(t, start) is Some {
        let q = first_boundary(t, start)->0;
        assert(t.skip(d).skip(q - d) =~= t.skip(q));
    }
}

proof fn lemma_start_run(rest: Seq<u8>, chunk_size: nat, b: BufferModel, start: Seq<u8>, end: Seq<u8>, pending: Option<Seq<u8>>)
    requires
        chunk_size >= 1,
        !b.eof,
        start.len() > 0,
        start.len() <= MAX_MARKER_LEN + 1,
        end.len() > 0,
        (pending matches Some(c) && c.len() == 0) ==> rest.len() == 0,
    ensures
        read_run(rest, chunk_size, b, false, start, end, pending) == read_outcome(unread_text(b, pending, rest), start, end),
    decreases rest.len(), (if pending matches Some(c) && c.len() == 0 { 0nat } else { 1nat }),
{
    let t = unread_text(b, pending, rest);
    let b1 = take_chunk(b, pending);
    let k: nat = if chunk_size < rest.len() { chunk_size } else { rest.len() };
    assert(rest.take(k as int) + rest.skip(k as int) =~= rest);
    lemma_taken_prefix(b, pending, rest);
    if b1.eof && b1.bytes.len() == 0 {
        lemma_first_boundary_none(t, start);
        assert(first_boundary(t, start) is None);
    } else if pending is None && !b1.eof && wants_chunk(b1, false) {
        assert(unread_text(b, Some(rest.take(k as int)), rest.skip(k as int)) =~= t);
        lemma_start_run(rest.skip(k as int), chunk_size, b, start, end, Some(rest.take(k as int)));
    } else {
        lemma_step_searches(b, false, start, end, pending);
        let pb = b1.bytes;
        let len = pb.len() as int;
        if first_boundary(pb, start) is Some {
            let p = first_boundary(pb, start)->0;
            if decided(b1, p, start) {
                lemma_start_found_case(rest, chunk_size, b, start, end, pending);
            } else {
                assert(scan_step(b, false, start, end, pending)
                    == (StepModel { buf: b1, found: false, outcome: StepOutcome::NeedChunk }));
                assert(unread_text(b1, Some(rest.take(k as int)), rest.skip(k as int)) =~= t);
                lemma_start_run(rest.skip(k as int), chunk_size, b1, start, end, Some(rest.take(k as int)));
            }
        } else if b1.eof {
            assert(t == pb);
        } else {
            lemma_missed_step(b, start, end, pending);
            let d: int = if pb.len() > b1.chunk_size + MAX_MARKER_LEN { len - MAX_MARKER_LEN } else { 0 };
            let b2 = BufferModel { bytes: pb.skip(d), ..b1 };
            assert(t.take(len) =~= pb) by {
                assert(t == pb + rest);
            }
            lemma_drop_keeps_outcome(t, start, end, len, d);
            assert(unread_text(b2, Some(rest.take(k as int)), rest.skip(k as int)) =~= t.skip(d)) by {
                assert(t == pb + rest);
            }
            lemma_start_run(rest.skip(k as int), chunk_size, b2, start, end, Some(rest.take(k as int)));
        }
    }
}

/// Ten to the power `k`.
pub open spec fn pow10(k: nat) -> nat
    decreases k,
{
    if k == 0 { 1 } else { 10 * pow10((k - 1) as nat) }
}

proof fn lemma_decimal_len(n: nat, k: nat)
    requires
        k >= 1,
        n < pow10(k),
    ensures
        decimal(n).len() <= k,
    decreases k,
{
    if n >= 10 {
        if k == 1 {
            assert(pow10(0) == 1);
            assert(pow10(1) == 10);
        }
        let p = pow10((k - 1) as nat);
        assert(n < 10 * p);
        assert(n / 10 < p) by (nonlinear_arith)
            requires
                n < 10 * p,
        ;
        lemma_decimal_len(n / 10, (k - 1) as nat);
    }
}

/// The marker of a section of 64-bit number is short enough for the reader:
/// at most `MAX_MARKER_LEN + 1` bytes.
pub proof fn lemma_section_marker_len(n: nat)
    requires
        n <= u64::MAX,
    ensures
        section_marker(n).len() <= MAX_MARKER_LEN + 1,
{
    reveal_with_fuel(pow10, 21);
    assert(pow10(20) == 100000000000000000000nat);
    lemma_decimal_len(n, 20);
}

/// Reading a section from the start of a file finds it however the file
/// falls into chunks: from an empty buffer, with `file` the whole file, the
/// reader reports the start marker not found when it does not occur, and
/// otherwise gives the text from the first start marker up to the first end
/// marker after it, or up to the end of the file when none follows (an
/// error for bytes that are not UTF-8). This holds for every file, every
/// chunk size of at least one byte and every start marker of at most
/// `MAX_MARKER_LEN + 1` bytes (as `#n` is for every `n` of 64 bits).
pub proof fn law_read_section(file: Seq<u8>, chunk_size: nat, start: Seq<u8>, end: Seq<u8>)
    requires
        chunk_size >= 1,
        start.len() > 0,
        start.len() <= MAX_MARKER_LEN + 1,
        end.len() > 0,
    ensures
        read_run(file, chunk_size, BufferModel { bytes: Seq::empty(), chunk_size, eof: false }, false, start, end, None)
            == read_outcome(file, start, end),
{
    let b0 = BufferModel { bytes: Seq::empty(), chunk_size, eof: false };
    assert(unread_text(b0, None, file) =~= file);
    lemma_start_run(file, chunk_size, b0, start, end, None);
}

proof fn lemma_step_takes_first_chunk(b0: BufferModel, start: Seq<u8>, end: Seq<u8>, chunk: Seq<u8>)
    requires
        b0.bytes.len() == 0,
        !b0.eof,
        chunk.len() > 0,
    ensures
        scan_step(b0, false, start, end, None).outcome == StepOutcome::NeedChunk,
        scan_step(b0, false, start, end, Some(chunk)) == search_phase(BufferModel { bytes: chunk, ..b0 }, false, start, end),
{
    assert(b0.bytes + chunk =~= chunk);
}

proof fn lemma_start_found(b: BufferModel, start: Seq<u8>, end: Seq<u8>)
    requires
        first_boundary(b.bytes, start) is Some,
        decided(b, first_boundary(b.bytes, start)->0, start),
    ensures
        search_phase(b, false, start, end)
            == end_phase(BufferModel { bytes: b.bytes.skip(first_boundary(b.bytes, start)->0), ..b }, end),
{
}

proof fn lemma_end_found(b: BufferModel, end: Seq<u8>)
    requires
        first_boundary(b.bytes, end) is Some,
        decided(b, first_boundary(b.bytes, end)->0, end),
        valid_utf8(b.bytes.take(first_boundary(b.bytes, end)->0)),
    ensures
        end_phase(b, end).outcome == StepOutcome::Found(decode_utf8(b.bytes.take(first_boundary(b.bytes, end)->0)), false),
        end_phase(b, end).buf.bytes == b.bytes.skip(first_boundary(b.bytes, end)->0),
{
}

proof fn lemma_boundary_bounds(buffer: Seq<u8>, marker: Seq<u8>)
    requires
        first_boundary(buffer, marker) is Some,
    ensures
        0 <= first_boundary(buffer, marker)->0 <= buffer.len(),
{
    lemma_first_boundary_is_boundary(buffer, marker);
}

proof fn lemma_split_at(s: Seq<u8>, p: int, q: int)
    requires
        0 <= p <= s.len(),
        0 <= q <= s.len() - p,
    ensures
        s.skip(p).take(q) == s.subrange(p, p + q),
        s.skip(p).skip(q) == s.skip(p + q),
{
    assert(s.skip(p).take(q) =~= s.subrange(p, p + q));
    assert(s.skip(p).skip(q) =~= s.skip(p + q));
}

/// Reading a section from the start of a file: the first step asks for a
/// chunk, and when that chunk holds the section's marker and, after it, the
/// next section's marker, with more text after each of them, the second
/// step gives the text from the first up to the second, and the buffer
/// keeps the rest from the next marker on.
#[verifier::rlimit(30)]
pub proof fn law_first_chunk_section(chunk_size: nat, chunk: Seq<u8>, n: nat)
    requires
        chunk.len() > 0,
        first_boundary(chunk, section_marker(n)) is Some,
        first_boundary(chunk.skip(first_boundary(chunk, section_marker(n))->0), section_marker(n + 1)) is Some,
        valid_utf8(chunk.subrange(
            first_boundary(chunk, section_marker(n))->0,
            first_boundary(chunk, section_marker(n))->0
                + first_boundary(chunk.skip(first_boundary(chunk, section_marker(n))->0), section_marker(n + 1))->0,
        )),
        first_boundary(chunk, section_marker(n))->0 + section_marker(n).len() < chunk.len(),
        first_boundary(chunk, section_marker(n))->0
            + first_boundary(chunk.skip(first_boundary(chunk, section_marker(n))->0), section_marker(n + 1))->0
            + section_marker(n + 1).len() < chunk.len(),
    ensures
        ({
            let b0 = BufferModel { bytes: Seq::empty(), chunk_size, eof: false };
            let start = section_marker(n);
            let end = section_marker(n + 1);
            let p = first_boundary(chunk, start)->0;
            let q = first_boundary(chunk.skip(p), end)->0;
            &&& scan_step(b0, false, start, end, None).outcome == StepOutcome::NeedChunk
            &&& scan_step(b0, false, start, end, Some(chunk)).outcome
                == StepOutcome::Found(decode_utf8(chunk.subrange(p, p + q)), false)
            &&& scan_step(b0, false, start, end, Some(chunk)).buf.bytes == chunk.skip(p + q)
        }),
{
    let b0 = BufferModel { bytes: Seq::empty(), chunk_size, eof: false };
    let start = section_marker(n);
    let end = section_marker(n + 1);
    let p = first_boundary(chunk, start)->0;
    let q = first_boundary(chunk.skip(p), end)->0;
    let b1 = BufferModel { bytes: chunk, ..b0 };
    let b2 = BufferModel { bytes: chunk.skip(p), ..b1 };
    lemma_step_takes_first_chunk(b0, start, end, chunk);
    lemma_start_found(b1, start, end);
    lemma_boundary_bounds(chunk, start);
    lemma_boundary_bounds(chunk.skip(p), end);
    lemma_split_at(chunk, p, q);
    lemma_end_found(b2, end);
    assert(scan_step(b0, false, start, end, Some(chunk)) == end_phase(b2, end));
}

/// `String::from_utf8`, as std documents it: it fails exactly when the bytes
/// are not valid UTF-8, and otherwise holds the characters they encode.
#[verifier::external_body]
fn string_from_utf8(bytes: Vec<u8>) -> (r: Option<String>)
    ensures
        r is Some <==> valid_utf8(bytes@),
        r matches Some(s) ==> s@ == decode_utf8(bytes@),
{
    String::from_utf8(bytes).ok()
}

fn copy_prefix(v: &Vec<u8>, end: usize) -> (r: Vec<u8>)
    requires
        end <= v@.len(),
    ensures
        r@ == v@.take(end as int),
{
    let mut r: Vec<u8> = Vec::new();
    let mut i: usize = 0;
    while i < end
        invariant
            end <= v@.len(),
            i <= end,
            r@ == v@.take(i as int),
        decreases end - i,
    {
        r.push(v[i]);
        assert(v@.take(i + 1) =~= v@.take(i as int).push(v@[i as int]));
        i = i + 1;
    }
    r
}

impl SectionBuffer {
    pub closed spec fn model(&self) -> BufferModel {
        BufferModel { bytes: self.buffer@, chunk_size: self.chunk_size as nat, eof: self.eof_reached }
    }

    /// An empty buffer for a file read `chunk_size` bytes at a time.
    pub fn new(chunk_size: usize) -> (r: Self)
        requires
            chunk_size * 2 <= isize::MAX,
        ensures
            r.model() == (BufferModel { bytes: Seq::empty(), chunk_size: chunk_size as nat, eof: false }),
    {
        SectionBuffer { buffer: Vec::new(), chunk_size, eof_reached: false }
    }

    /// Forgets everything buffered, as when the file is read again from its start.
    pub fn reset(&mut self)
        ensures
            final(self).model() == (BufferModel { bytes: Seq::empty(), eof: false, ..old(self).model() }),
    {
        self.buffer = Vec::new();
        self.eof_reached = false;
    }

    /// Whether the next step, handed no chunk, asks for one before it
    /// searches the buffer.
    pub fn wants_chunk(&self, scan: &SectionScan) -> (r: bool)
        ensures
            r == (!self.model().eof && wants_chunk(self.model(), scan.start_found())),
    {
        !self.eof_reached
            && (self.buffer.len() == 0 || (!scan.start_found && self.buffer.len() < self.chunk_size))
    }
}

/// The abstract view of an optional chunk.
pub open spec fn chunk_view(chunk: Option<Vec<u8>>) -> Option<Seq<u8>> {
    match chunk {
        Some(v) => Some(v@),
        None => None,
    }
}

/// `r` is the concrete form of the abstract outcome `o`.
pub open spec fn step_is(r: ScanStep, o: StepOutcome) -> bool {
    match o {
        StepOutcome::NeedChunk => r is NeedChunk,
        StepOutcome::Found(c, e) => r matches ScanStep::Finished(Ok(res)) && res.content@ == c && res.is_eof == e,
        StepOutcome::NotFound => r matches ScanStep::Finished(Err(SectionError::MarkerNotFound)),
        StepOutcome::BadUtf8 => r matches ScanStep::Finished(Err(SectionError::InvalidUtf8)),
    }
}

impl SectionBuffer {
    /// Search for the end marker; the start marker has been found.
    fn end_step(&mut self, scan: &SectionScan) -> (r: ScanStep)
        requires
            scan.start_found(),
        ensures
            final(self).model() == end_phase(old(self).model(), scan.end_marker()).buf,
            step_is(r, end_phase(old(self).model(), scan.end_marker()).outcome),
    {
        let ghost b0 = self.model();
        let ghost m = end_phase(b0, scan.end_marker());
        match locate_marker(self.buffer.as_slice(), scan.end_marker.as_slice()) {
            Some(pos) => {
                proof {
                    lemma_first_boundary_is_boundary(b0.bytes, scan.end_marker());
                }
                if !self.eof_reached && self.buffer.len() - pos == scan.end_marker.len() {
                    return ScanStep::NeedChunk;
                }
                let content = copy_prefix(&self.buffer, pos);
                match string_from_utf8(content) {
                    Some(text) => {
                        let rest = self.buffer.split_off(pos);
                        self.buffer = rest;
                        proof {
                            assert(first_boundary(b0.bytes, scan.end_marker()) == Some(pos as int));
                            assert(self.buffer@ =~= b0.bytes.skip(pos as int));
                            assert(self.model() =~= m.buf);
                        }
                        ScanStep::Finished(Ok(SectionReadResult { content: text, is_eof: false }))
                    },
                    None => ScanStep::Finished(Err(SectionError::InvalidUtf8)),
                }
            },
            None => {
                if self.eof_reached {
                    let content = copy_prefix(&self.buffer, self.buffer.len());
                    proof { assert(self.buffer@.take(self.buffer@.len() as int) =~= self.buffer@); }
                    match string_from_utf8(content) {
                        Some(text) => {
                            self.buffer = Vec::new();
                            proof {
                                assert(first_boundary(b0.bytes, scan.end_marker()) is None);
                                assert(m.buf.bytes == Seq::<u8>::empty());
                                assert(self.buffer@ =~= Seq::<u8>::empty());
                                assert(self.model() =~= m.buf);
                            }
                            ScanStep::Finished(Ok(SectionReadResult { content: text, is_eof: true }))
                        },
                        None => ScanStep::Finished(Err(SectionError::InvalidUtf8)),
                    }
                } else {
                    ScanStep::NeedChunk
                }
            },
        }
    }

    /// Search for the start marker if needed, then for the end marker.
    fn search_step(&mut self, scan: &mut SectionScan) -> (r: ScanStep)
        requires
            old(self).model().chunk_size * 2 <= isize::MAX,
        ensures
            final(self).model() == search_phase(old(self).model(), old(scan).start_found(), old(scan).start_marker(), old(scan).end_marker()).buf,
            final(scan).start_found() == search_phase(old(self).model(), old(scan).start_found(), old(scan).start_marker(), old(scan).end_marker()).found,
            final(scan).start_marker() == old(scan).start_marker(),
            final(scan).end_marker() == old(scan).end_marker(),
            step_is(r, search_phase(old(self).model(), old(scan).start_found(), old(scan).start_marker(), old(scan).end_marker()).outcome),
    {
        if !scan.start_found {
            self.start_step(scan)
        } else {
            self.end_step(scan)
        }
    }

    #[verifier::rlimit(30)]
    fn start_step(&mut self, scan: &mut SectionScan) -> (r: ScanStep)
        requires
            old(self).model().chunk_size * 2 <= isize::MAX,
            !old(scan).start_found(),
        ensures
            final(self).model() == search_phase(old(self).model(), false, old(scan).start_marker(), old(scan).end_marker()).buf,
            final(scan).start_found() == search_phase(old(self).model(), false, old(scan).start_marker(), old(scan).end_marker()).found,
            final(scan).start_marker() == old(scan).start_marker(),
            final(scan).end_marker() == old(scan).end_marker(),
            step_is(r, search_phase(old(self).model(), false, old(scan).start_marker(), old(scan).end_marker()).outcome),
    {
        let ghost b0 = self.model();
        match locate_marker(self.buffer.as_slice(), scan.start_marker.as_slice()) {
            Some(pos) => {
                proof {
                    assert(first_boundary(b0.bytes, scan.start_marker()) == Some(pos as int));
                    lemma_first_boundary_is_boundary(b0.bytes, scan.start_marker());
                }
                if !self.eof_reached && self.buffer.len() - pos == scan.start_marker.len() {
                    return ScanStep::NeedChunk;
                }
                scan.start_found = true;
                let rest = self.buffer.split_off(pos);
                self.buffer = rest;
                let ghost b1 = BufferModel { bytes: b0.bytes.skip(pos as int), ..b0 };
                proof {
                    assert(self.model() =~= b1);
                    assert(search_phase(b0, false, scan.start_marker(), scan.end_marker()) == end_phase(b1, scan.end_marker()));
                }
                self.end_step(scan)
            },
            None => {
                if self.buffer.len() > self.chunk_size + MAX_MARKER_LEN {
                    let keep_from = self.buffer.len() - MAX_MARKER_LEN;
                    let rest = self.buffer.split_off(keep_from);
                    self.buffer = rest;
                    proof {
                        assert(self.buffer@ =~= b0.bytes.skip(b0.bytes.len() - MAX_MARKER_LEN));
                    }
                }
                proof {
                    assert(self.model() =~= search_phase(b0, false, scan.start_marker(), scan.end_marker()).buf);
                }
                if self.eof_reached {
                    return ScanStep::Finished(Err(SectionError::MarkerNotFound));
                }
                ScanStep::NeedChunk
            },
        }
    }

    /// One step of reading section `scan` out of the file: `chunk` carries the
    /// bytes read for this step when the previous step asked for them (an
    /// empty chunk means the file has ended).
    pub fn step(&mut self, scan: &mut SectionScan, chunk: Option<Vec<u8>>) -> (r: ScanStep)
        requires
            old(self).model().chunk_size * 2 <= isize::MAX,
        ensures
            final(self).model() == scan_step(old(self).model(), old(scan).start_found(), old(scan).start_marker(), old(scan).end_marker(), chunk_view(chunk)).buf,
            final(scan).start_found() == scan_step(old(self).model(), old(scan).start_found(), old(scan).start_marker(), old(scan).end_marker(), chunk_view(chunk)).found,
            final(scan).start_marker() == old(scan).start_marker(),
            final(scan).end_marker() == old(scan).end_marker(),
            step_is(r, scan_step(old(self).model(), old(scan).start_found(), old(scan).start_marker(), old(scan).end_marker(), chunk_view(chunk)).outcome),
            r is NeedChunk ==> !final(self).model().eof,
            old(self).model().eof ==> !(r is NeedChunk),
            (chunk_view(chunk) matches Some(c) && c.len() == 0) ==> !(r is NeedChunk),
    {
        proof {
            lemma_step_finishes_at_end(self.model(), scan.start_found(), scan.start_marker(), scan.end_marker(), chunk_view(chunk));
        }
        let given = chunk.is_some();
        if !self.eof_reached {
            match chunk {
                Some(c) => {
                    if c.len() == 0 {
                        self.eof_reached = true;
                    } else {
                        let mut c = c;
                        self.buffer.append(&mut c);
                    }
                },
                None => {},
            }
        }
        if self.eof_reached && self.buffer.len() == 0 {
            return if scan.start_found {
                ScanStep::Finished(Ok(SectionReadResult { content: String::new(), is_eof: true }))
            } else {
                ScanStep::Finished(Err(SectionError::MarkerNotFound))
            };
        }
        if !given && !self.eof_reached
            && (self.buffer.len() == 0 || (!scan.start_found && self.buffer.len() < self.chunk_size)) {
            return ScanStep::NeedChunk;
        }
        self.search_step(scan)
    }
}

impl SectionScan {
    pub closed spec fn start_marker(&self) -> Seq<u8> {
        self.start_marker@
    }

    pub closed spec fn end_marker(&self) -> Seq<u8> {
        self.end_marker@
    }

    pub closed spec fn start_found(&self) -> bool {
        self.start_found
    }

    /// Starts the search for section `n`, delimited by `#n` and `#n+1`.
    pub fn begin(n: u64) -> (r: Self)
        requires
            n < u64::MAX,
        ensures
            r.start_marker() == section_marker(n as nat),
            r.end_marker() == section_marker(n as nat + 1),
            !r.start_found(),
    {
        let mut start_marker: Vec<u8> = vec![35u8];
        let mut digits = decimal_u64(n);
        start_marker.append(&mut digits);
        let mut end_marker: Vec<u8> = vec![35u8];
        let mut digits2 = decimal_u64(n + 1);
        end_marker.append(&mut digits2);
        SectionScan { start_marker, end_marker, start_found: false }
    }
}

} // verus!
