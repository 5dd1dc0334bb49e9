use vstd::prelude::*;
use crate::decimal::{
    is_digit, decimal, digits_value, digit_prefix_len, decimal_u64, parse_digits_u32,
    lemma_decimal_digits, lemma_digit_prefix,
};

verus! {

/// A line that starts with `#` directly followed by a digit: it already carries a section number.
pub open spec fn is_numbered_marker(line: Seq<u8>) -> bool {
    line.len() >= 2 && line[0] == 35 && is_digit(line[1])
}

/// A line that starts with `#` not followed by a digit: it still needs a section number.
pub open spec fn is_plain_marker(line: Seq<u8>) -> bool {
    line.len() >= 1 && line[0] == 35 && !is_numbered_marker(line)
}

/// The number written after the `#` of a numbered marker, if it fits in a `u32`.
pub open spec fn marker_number(line: Seq<u8>) -> Option<nat> {
    let rest = line.drop_first();
    let v = digits_value(rest.take(digit_prefix_len(rest) as int));
    if v <= u32::MAX { Some(v) } else { None }
}

/// One line of preprocessing with counter `n`: the line written and the next counter.
/// A plain marker `#rest` becomes `#<n>rest` and the counter moves on;
/// a numbered marker is kept and sets the counter to its number (when it fits);
/// any other line is kept.
pub open spec fn preparse_line_spec(line: Seq<u8>, n: nat) -> (Seq<u8>, nat) {
    if is_plain_marker(line) {
        (seq![35u8] + decimal(n) + line.drop_first(), n + 1)
    } else if is_numbered_marker(line) {
        match marker_number(line) {
            Some(v) => (line, v),
            None => (line, n),
        }
    } else {
        (line, n)
    }
}

/// The lines written for `lines` when the counter starts at `n`.
pub open spec fn preparse_spec(lines: Seq<Seq<u8>>, n: nat) -> Seq<Seq<u8>>
    decreases lines.len(),
{
    if lines.len() == 0 {
        Seq::empty()
    } else {
        let (out, next) = preparse_line_spec(lines[0], n);
        seq![out] + preparse_spec(lines.drop_first(), next)
    }
}

/// The counter never has to move past `u32::MAX` while numbering `lines` from `n`.
pub open spec fn preparse_fits(lines: Seq<Seq<u8>>, n: nat) -> bool
    decreases lines.len(),
{
    if lines.len() == 0 {
        true
    } else {
        (is_plain_marker(lines[0]) ==> n < u32::MAX)
            && preparse_fits(lines.drop_first(), preparse_line_spec(lines[0], n).1)
    }
}

/// No line still needs a number.
pub open spec fn all_numbered(lines: Seq<Seq<u8>>) -> bool {
    forall|i: int| 0 <= i < lines.len() ==> !is_plain_marker(#[trigger] lines[i])
}

/// Preprocesses one line with counter `n`; see `preparse_line_spec`.
pub fn preparse_line(line: &[u8], n: u32) -> (r: (Vec<u8>, u32))
    requires
        is_plain_marker(line@) ==> n < u32::MAX,
    ensures
        r.0@ == preparse_line_spec(line@, n as nat).0,
        r.1 as nat == preparse_line_spec(line@, n as nat).1,
{
    if line.len() >= 1 && line[0] == 35 {
        if line.len() >= 2 && line[1] >= 48 && line[1] <= 57 {
            let rest = slice_tail(line);
            let k = digit_run(rest.as_slice());
            proof {
                lemma_digit_prefix(rest@);
                assert(rest@ =~= line@.drop_first());
            }
            let digits = copy_take(rest.as_slice(), k);
            let next = match parse_digits_u32(digits.as_slice()) {
                Some(v) => v,
                None => n,
            };
            (copy_take(line, line.len()), next)
        } else {
            let mut out: Vec<u8> = vec![35u8];
            let mut digits = decimal_u64(n as u64);
            out.append(&mut digits);
            let mut rest = slice_tail(line);
            out.append(&mut rest);
            proof {
                assert(out@ =~= seq![35u8] + decimal(n as nat) + line@.drop_first());
            }
            (out, n + 1)
        }
    } else {
        (copy_take(line, line.len()), n)
    }
}

/// The counter a script starts with: `origin_number`, or 1.
pub open spec fn start_counter(origin_number: Option<u32>) -> nat {
    match origin_number {
        Some(v) => v as nat,
        None => 1,
    }
}

/// Preprocesses the lines of a script: every marker line `#...` that carries
/// no number gets the current section number inserted after its `#`.
pub fn preparse_script_lines(lines: &Vec<Vec<u8>>, origin_number: Option<u32>) -> (r: Vec<Vec<u8>>)
    requires
        preparse_fits(lines.deep_view(), start_counter(origin_number)),
    ensures
        r.deep_view() == preparse_spec(lines.deep_view(), start_counter(origin_number)),
{
    let mut n: u32 = match origin_number {
        Some(v) => v,
        None => 1,
    };
    let ghost all = lines.deep_view();
    let mut out: Vec<Vec<u8>> = Vec::new();
    let mut i: usize = 0;
    proof {
        assert(all.skip(0) =~= all);
        assert(out.deep_view() + preparse_spec(all, n as nat) =~= preparse_spec(all, n as nat));
    }
    while i < lines.len()
        invariant
            all == lines.deep_view(),
            0 <= i <= all.len(),
            preparse_spec(all, start_counter(origin_number))
                == out.deep_view() + preparse_spec(all.skip(i as int), n as nat),
            preparse_fits(all.skip(i as int), n as nat),
        decreases all.len() - i,
    {
        let ghost tail = all.skip(i as int);
        assert(tail[0] == lines[i as int].deep_view());
        assert(lines[i as int].deep_view() =~= lines[i as int]@);
        assert(tail.drop_first() =~= all.skip(i + 1));
        let (line, next) = preparse_line(lines[i].as_slice(), n);
        proof {
            assert(preparse_spec(tail, n as nat) == seq![line@] + preparse_spec(all.skip(i + 1), next as nat));
            assert(out.deep_view().push(line@) + preparse_spec(all.skip(i + 1), next as nat)
                =~= out.deep_view() + preparse_spec(tail, n as nat));
        }
        let ghost before = out.deep_view();
        let ghost line_v = line@;
        proof { assert(line.deep_view() =~= line_v); }
        out.push(line);
        proof {
            assert(out.deep_view() =~= before.push(line_v));
        }
        n = next;
        i = i + 1;
    }
    proof {
        assert(all.skip(i as int) =~= Seq::<Seq<u8>>::empty());
        assert(out.deep_view() + Seq::<Seq<u8>>::empty() =~= out.deep_view());
    }
    out
}

/// Preprocessing keeps the number of lines, leaves every line that needs no
/// number as it was, and leaves no line that still needs one.
pub proof fn law_preparse_numbers_every_marker(lines: Seq<Seq<u8>>, n: nat)
    ensures
        preparse_spec(lines, n).len() == lines.len(),
        all_numbered(preparse_spec(lines, n)),
        forall|i: int| 0 <= i < lines.len() && !is_plain_marker(lines[i])
            ==> #[trigger] preparse_spec(lines, n)[i] == lines[i],
    decreases lines.len(),
{
    if lines.len() > 0 {
        let (out, next) = preparse_line_spec(lines[0], n);
        law_preparse_numbers_every_marker(lines.drop_first(), next);
        if is_plain_marker(lines[0]) {
            lemma_decimal_digits(n);
            assert(out[1] == decimal(n)[0]);
        }
        let r = preparse_spec(lines, n);
        assert(r == seq![out] + preparse_spec(lines.drop_first(), next));
        assert forall|i: int| 0 <= i < r.len() implies !is_plain_marker(#[trigger] r[i]) by {
            if i > 0 {
                assert(r[i] == preparse_spec(lines.drop_first(), next)[i - 1]);
            }
        }
        assert forall|i: int| 0 <= i < lines.len() && !is_plain_marker(lines[i])
            implies #[trigger] r[i] == lines[i] by {
            if i > 0 {
                assert(r[i] == preparse_spec(lines.drop_first(), next)[i - 1]);
                assert(lines[i] == lines.drop_first()[i - 1]);
            }
        }
    }
}

/// Lines that need no number pass through preprocessing unchanged, whatever the counter.
pub proof fn lemma_numbered_lines_fixed(lines: Seq<Seq<u8>>, m: nat)
    requires
        all_numbered(lines),
    ensures
        preparse_spec(lines, m) == lines,
    decreases lines.len(),
{
    if lines.len() > 0 {
        assert(!is_plain_marker(lines[0]));
        let next = preparse_line_spec(lines[0], m).1;
        assert(all_numbered(lines.drop_first())) by {
            assert forall|i: int| 0 <= i < lines.drop_first().len()
                implies !is_plain_marker(#[trigger] lines.drop_first()[i]) by {
                assert(lines.drop_first()[i] == lines[i + 1]);
            }
        }
        lemma_numbered_lines_fixed(lines.drop_first(), next);
        assert(seq![lines[0]] + lines.drop_first() =~= lines);
    }
}

/// Preprocessing a preprocessed script changes nothing, whatever counter the
/// second pass starts with (and it never has to count).
pub proof fn law_preparse_idempotent(lines: Seq<Seq<u8>>, n: nat, m: nat)
    ensures
        preparse_spec(preparse_spec(lines, n), m) == preparse_spec(lines, n),
{
    law_preparse_numbers_every_marker(lines, n);
    lemma_numbered_lines_fixed(preparse_spec(lines, n), m);
}

/// Copies all but the first byte.
fn slice_tail(line: &[u8]) -> (r: Vec<u8>)
    requires
        line@.len() >= 1,
    ensures
        r@ == line@.drop_first(),
{
    let mut r: Vec<u8> = Vec::new();
    let mut i: usize = 1;
    while i < line.len()
        invariant
            1 <= i <= line@.len(),
            r@ == line@.subrange(1, i as int),
        decreases line@.len() - i,
    {
        r.push(line[i]);
        assert(line@.subrange(1, i + 1) =~= line@.subrange(1, i as int).push(line@[i as int]));
        i = i + 1;
    }
    assert(line@.subrange(1, line@.len() as int) =~= line@.drop_first());
    r
}

/// Copies the first `k` bytes.
fn copy_take(v: &[u8], k: usize) -> (r: Vec<u8>)
    requires
        k <= v@.len(),
    ensures
        r@ == v@.take(k as int),
{
    let mut r: Vec<u8> = Vec::new();
    let mut i: usize = 0;
    while i < k
        invariant
            k <= v@.len(),
            i <= k,
            r@ == v@.take(i as int),
        decreases k - i,
    {
        r.push(v[i]);
        assert(v@.take(i + 1) =~= v@.take(i as int).push(v@[i as int]));
        i = i + 1;
    }
    r
}

/// Length of the leading run of ASCII digits.
fn digit_run(s: &[u8]) -> (k: usize)
    ensures
        k == digit_prefix_len(s@),
{
    let mut k: usize = 0;
    proof {
        lemma_digit_prefix(s@);
        let d = digit_prefix_len(s@) as int;
        assert forall|j: int| 0 <= j < d implies is_digit(#[trigger] s@[j]) by {
            assert(s@.take(d)[j] == s@[j]);
        }
    }
    while k < s.len() && s[k] >= 48 && s[k] <= 57
        invariant
            k <= digit_prefix_len(s@),
            digit_prefix_len(s@) <= s@.len(),
            forall|j: int| 0 <= j < digit_prefix_len(s@) ==> is_digit(#[trigger] s@[j]),
            digit_prefix_len(s@) < s@.len() ==> !is_digit(s@[digit_prefix_len(s@) as int]),
        decreases s@.len() - k,
    {
        proof {
            if k == digit_prefix_len(s@) {
                assert(k < s@.len());
            }
        }
        k = k + 1;
    }
    proof {
        if k < digit_prefix_len(s@) {
            assert(is_digit(s@[k as int]));
        }
    }
    k
}

} // verus!
