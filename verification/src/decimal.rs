use vstd::prelude::*;

verus! {

/// ASCII `'0'..='9'`.
pub open spec fn is_digit(b: u8) -> bool {
    48 <= b && b <= 57
}

/// The ASCII decimal spelling of `n`, without sign or leading zeros.
pub open spec fn decimal(n: nat) -> Seq<u8>
    decreases n,
{
    if n < 10 {
        seq![(48 + n) as u8]
    } else {
        decimal(n / 10).push((48 + n % 10) as u8)
    }
}

/// Every byte of `s` is an ASCII digit.
pub open spec fn all_digits(s: Seq<u8>) -> bool {
    forall|i: int| 0 <= i < s.len() ==> is_digit(#[trigger] s[i])
}

/// The number that the ASCII digits `s` spell (0 for the empty sequence).
pub open spec fn digits_value(s: Seq<u8>) -> nat
    decreases s.len(),
{
    if s.len() == 0 {
        0
    } else {
        digits_value(s.drop_last()) * 10 + (s.last() - 48) as nat
    }
}

/// The longest prefix of `s` made of ASCII digits.
pub open spec fn digit_prefix_len(s: Seq<u8>) -> nat
    decreases s.len(),
{
    if s.len() == 0 || !is_digit(s[0]) {
        0
    } else {
        1 + digit_prefix_len(s.drop_first())
    }
}

pub proof fn lemma_decimal_digits(n: nat)
    ensures
        all_digits(decimal(n)),
        decimal(n).len() >= 1,
        decimal(n)[0] != 48 || n == 0,
    decreases n,
{
    if n >= 10 {
        lemma_decimal_digits(n / 10);
    }
}

/// Reading back the decimal spelling of a number gives the number.
pub proof fn lemma_decimal_value(n: nat)
    ensures
        digits_value(decimal(n)) == n,
    decreases n,
{
    if n >= 10 {
        lemma_decimal_value(n / 10);
        assert(decimal(n).drop_last() =~= decimal(n / 10));
        assert((n / 10) * 10 + n % 10 == n) by (nonlinear_arith);
        let d = n % 10;
        assert(decimal(n).last() == (48 + d) as u8);
        assert(((48 + d) as u8) as int == 48 + d);
        assert(digits_value(decimal(n)) == digits_value(decimal(n / 10)) * 10 + d);
        assert(digits_value(decimal(n)) == n);
    } else {
        assert(decimal(n).drop_last() =~= Seq::<u8>::empty());
        assert(((48 + n) as u8) as int == 48 + n);
        assert(digits_value(Seq::<u8>::empty()) == 0);
        assert(digits_value(decimal(n)) == n);
    }
}

/// A prefix of a digit string never spells a larger number.
pub proof fn lemma_digits_value_prefix(s: Seq<u8>, k: int)
    requires
        0 <= k <= s.len(),
        all_digits(s),
    ensures
        digits_value(s.take(k)) <= digits_value(s),
    decreases s.len(),
{
    if k < s.len() {
        assert(s.drop_last().take(k) =~= s.take(k));
        lemma_digits_value_prefix(s.drop_last(), k);
    } else {
        assert(s.take(k) =~= s);
    }
}

pub proof fn lemma_digit_prefix(s: Seq<u8>)
    ensures
        digit_prefix_len(s) <= s.len(),
        all_digits(s.take(digit_prefix_len(s) as int)),
        digit_prefix_len(s) < s.len() ==> !is_digit(s[digit_prefix_len(s) as int]),
    decreases s.len(),
{
    if s.len() > 0 && is_digit(s[0]) {
        lemma_digit_prefix(s.drop_first());
        let k = digit_prefix_len(s.drop_first()) as int;
        assert forall|i: int| 0 <= i < k + 1 implies is_digit(#[trigger] s.take(k + 1)[i]) by {
            if i > 0 {
                assert(s.take(k + 1)[i] == s.drop_first().take(k)[i - 1]);
            }
        }
    }
}

/// The ASCII decimal spelling of `n`.
pub fn decimal_u64(n: u64) -> (r: Vec<u8>)
    ensures
        r@ == decimal(n as nat),
{
    let mut m: u64 = n;
    let mut r: Vec<u8> = Vec::new();
    while m >= 10
        invariant
            decimal(n as nat) == decimal(m as nat) + r@,
        decreases m,
    {
        let d: u8 = (m % 10) as u8;
        proof {
            assert(decimal(m as nat) == decimal((m / 10) as nat).push((48 + m % 10) as u8));
            assert(decimal((m / 10) as nat).push((48 + d) as u8) + r@ =~= decimal((m / 10) as nat) + seq![(48 + d) as u8].add(r@));
        }
        r.insert(0, 48 + d);
        m = m / 10;
    }
    let d: u8 = m as u8;
    r.insert(0, 48 + d);
    proof {
        assert(decimal(n as nat) =~= r@);
    }
    r
}

/// The number spelled by the ASCII digits `s`, or `None` when it exceeds `u32::MAX`.
pub fn parse_digits_u32(s: &[u8]) -> (r: Option<u32>)
    requires
        all_digits(s@),
    ensures
        r == (if digits_value(s@) <= u32::MAX { Some(digits_value(s@) as u32) } else { None::<u32> }),
{
    let mut acc: u32 = 0;
    let mut i: usize = 0;
    while i < s.len()
        invariant
            0 <= i <= s.len(),
            all_digits(s@),
            acc == digits_value(s@.take(i as int)),
        decreases s.len() - i,
    {
        assert(s@.take(i + 1).drop_last() =~= s@.take(i as int));
        let d: u32 = (s[i] - 48) as u32;
        match acc.checked_mul(10) {
            Some(t) => {
                match t.checked_add(d) {
                    Some(v) => {
                        acc = v;
                    },
                    None => {
                        proof { lemma_digits_value_prefix(s@, i + 1); }
                        return None;
                    },
                }
            },
            None => {
                proof { lemma_digits_value_prefix(s@, i + 1); }
                return None;
            },
        }
        i = i + 1;
    }
    assert(s@.take(i as int) =~= s@);
    Some(acc)
}

} // verus!
