//! Unsigned decimal integers as text.

use vstd::prelude::*;
use crate::text::push_range;

verus! {

/// Whether `c` is one of `0` to `9`.
pub open spec fn is_digit(c: char) -> bool {
    '0' <= c <= '9'
}

/// The number that the digit `c` stands for.
pub open spec fn digit_value(c: char) -> nat {
    (c as int - '0' as int) as nat
}

/// The digit that stands for `d`, for `d < 10`.
pub open spec fn digit_char(d: nat) -> char {
    (d + '0' as nat) as char
}

/// Whether every character of `s` is a digit.
pub open spec fn all_digits(s: Seq<char>) -> bool {
    forall|i: int| 0 <= i < s.len() ==> is_digit(#[trigger] s[i])
}

/// The number written by the digits `s`, most significant first.
pub open spec fn digits_value(s: Seq<char>) -> nat
    decreases s.len(),
{
    if s.len() == 0 {
        0
    } else {
        digits_value(s.drop_last()) * 10 + digit_value(s.last())
    }
}

/// The shortest decimal writing of `n`.
pub open spec fn nat_digits(n: nat) -> Seq<char>
    decreases n,
{
    if n < 10 {
        seq![digit_char(n)]
    } else {
        nat_digits(n / 10).push(digit_char(n % 10))
    }
}

/// What `s` denotes as an unsigned 64-bit integer: `s` must be a non-empty
/// run of digits, without sign, whose value fits.
pub open spec fn spec_parse_unsigned(s: Seq<char>) -> Option<u64> {
    if s.len() > 0 && all_digits(s) && digits_value(s) <= u64::MAX {
        Some(digits_value(s) as u64)
    } else {
        None
    }
}

/// A prefix of a digit string never denotes more than the whole string.
pub proof fn lemma_digits_value_prefix(s: Seq<char>, k: int)
    requires
        0 <= k <= s.len(),
    ensures
        digits_value(s.take(k)) <= digits_value(s),
    decreases s.len() - k,
{
    if k == s.len() {
        assert(s.take(k) == s);
    } else {
        lemma_digits_value_prefix(s, k + 1);
        assert(s.take(k + 1).drop_last() == s.take(k));
    }
}

/// The digits of a number are digits, at least one of them, and no comma,
/// quote, sign or letter is among them.
pub proof fn lemma_nat_digits_are_digits(n: nat)
    ensures
        nat_digits(n).len() > 0,
        all_digits(nat_digits(n)),
    decreases n,
{
    if n >= 10 {
        lemma_nat_digits_are_digits(n / 10);
    }
}

/// Reading back the digits of `n` gives `n`.
pub proof fn lemma_digits_value_of_nat_digits(n: nat)
    ensures
        digits_value(nat_digits(n)) == n,
    decreases n,
{
    if n < 10 {
        assert(nat_digits(n).drop_last() =~= Seq::<char>::empty());
        assert(digits_value(nat_digits(n).drop_last()) == 0);
        assert(digit_value(nat_digits(n).last()) == n);
    } else {
        lemma_digits_value_of_nat_digits(n / 10);
        assert(nat_digits(n).drop_last() =~= nat_digits(n / 10));
        assert(digit_value(nat_digits(n).last()) == n % 10);
    }
}

/// Parsing the canonical writing of `n` gives `n` back.
pub proof fn lemma_parse_unsigned_of_digits(n: u64)
    ensures
        spec_parse_unsigned(nat_digits(n as nat)) == Some(n),
{
    lemma_nat_digits_are_digits(n as nat);
    lemma_digits_value_of_nat_digits(n as nat);
}

/// Whether `c` is one of `0` to `9`.
pub fn char_is_digit(c: char) -> (r: bool)
    ensures
        r == is_digit(c),
{
    c >= '0' && c <= '9'
}

/// What the digits `t` denote when they follow the digits `prefix`: the
/// value of both together, where `t` holds digits only and the value fits.
pub open spec fn spec_accumulate(prefix: Seq<char>, t: Seq<char>) -> Option<u64> {
    if all_digits(t) && digits_value(prefix + t) <= u64::MAX {
        Some(digits_value(prefix + t) as u64)
    } else {
        None
    }
}

/// Continues reading a number: `acc` is the value of the digits read so far,
/// `s[from..to]` the digits that follow them.
pub(crate) fn accumulate_digits(
    acc: u64,
    s: &Vec<char>,
    from: usize,
    to: usize,
    Ghost(prefix): Ghost<Seq<char>>,
) -> (r: Option<u64>)
    requires
        from <= to <= s.len(),
        acc == digits_value(prefix),
    ensures
        r == spec_accumulate(prefix, s@.subrange(from as int, to as int)),
{
    let ghost t = s@.subrange(from as int, to as int);
    let mut acc: u64 = acc;
    let mut i: usize = from;
    assert(prefix + t.take(0) =~= prefix);
    while i < to
        invariant
            from <= i <= to <= s.len(),
            t == s@.subrange(from as int, to as int),
            all_digits(t.take(i - from)),
            acc == digits_value(prefix + t.take(i - from)),
        decreases to - i,
    {
        let c = s[i];
        if !char_is_digit(c) {
            assert(!is_digit(t[i - from]));
            return None;
        }
        let d: u64 = (c as u32 - '0' as u32) as u64;
        let ghost next = prefix + t.take(i - from + 1);
        assert(next.drop_last() =~= prefix + t.take(i - from));
        assert(next.last() == c);
        if acc > (u64::MAX - d) / 10 {
            proof {
                lemma_digits_value_prefix(prefix + t, prefix.len() + i - from + 1);
                assert((prefix + t).take(prefix.len() + i - from + 1) =~= next);
            }
            return None;
        }
        acc = acc * 10 + d;
        i += 1;
    }
    assert(t.take(to - from) =~= t);
    Some(acc)
}

/// Reads `s[from..to]` as an unsigned integer.
///
/// Succeeds exactly on a non-empty run of digits whose value fits in 64
/// bits. A sign, a blank or any other character makes it fail.
pub(crate) fn parse_unsigned(s: &Vec<char>, from: usize, to: usize) -> (r: Option<u64>)
    requires
        from <= to <= s.len(),
    ensures
        r == spec_parse_unsigned(s@.subrange(from as int, to as int)),
{
    if from == to {
        return None;
    }
    assert(Seq::<char>::empty() + s@.subrange(from as int, to as int) =~= s@.subrange(
        from as int,
        to as int,
    ));
    accumulate_digits(0, s, from, to, Ghost(Seq::empty()))
}

/// Whether `s[from..to]` holds digits only.
pub(crate) fn is_digit_run(s: &Vec<char>, from: usize, to: usize) -> (r: bool)
    requires
        from <= to <= s.len(),
    ensures
        r == all_digits(s@.subrange(from as int, to as int)),
{
    let ghost t = s@.subrange(from as int, to as int);
    let mut i: usize = from;
    while i < to
        invariant
            from <= i <= to <= s.len(),
            t == s@.subrange(from as int, to as int),
            forall|j: int| 0 <= j < i - from ==> is_digit(#[trigger] t[j]),
        decreases to - i,
    {
        if !char_is_digit(s[i]) {
            assert(!is_digit(t[i - from]));
            return false;
        }
        i += 1;
    }
    true
}

fn push_digits(out: &mut Vec<char>, n: u64)
    ensures
        final(out)@ == old(out)@ + nat_digits(n as nat),
    decreases n,
{
    if n >= 10 {
        push_digits(out, n / 10);
    }
    let d: u8 = (n % 10) as u8;
    out.push((d + 48u8) as char);
    assert(((d + 48u8) as char) == digit_char((n % 10) as nat));
    assert(final(out)@ =~= old(out)@ + nat_digits(n as nat));
}

/// The shortest decimal writing of `n`.
pub fn digits_of(n: u64) -> (v: Vec<char>)
    ensures
        v@ == nat_digits(n as nat),
{
    let mut v: Vec<char> = Vec::new();
    push_digits(&mut v, n);
    assert(v@ =~= nat_digits(n as nat));
    v
}

/// Appends the shortest decimal writing of `n` to `out`.
pub fn push_unsigned(out: &mut String, n: u64)
    ensures
        final(out)@ == old(out)@ + nat_digits(n as nat),
{
    let ds = digits_of(n);
    push_range(out, &ds, 0, ds.len());
    assert(ds@.subrange(0, ds.len() as int) =~= ds@);
}

/// A run of `k` zeros.
pub open spec fn zeros(k: nat) -> Seq<char> {
    Seq::new(k, |i: int| '0')
}

/// Zeros in front of a number do not change what it denotes.
pub proof fn lemma_leading_zeros(k: nat, s: Seq<char>)
    ensures
        digits_value(zeros(k) + s) == digits_value(s),
    decreases s.len(), k,
{
    if s.len() > 0 {
        lemma_leading_zeros(k, s.drop_last());
        assert((zeros(k) + s).drop_last() =~= zeros(k) + s.drop_last());
    } else if k > 0 {
        lemma_leading_zeros((k - 1) as nat, s);
        assert((zeros(k) + s).drop_last() =~= zeros((k - 1) as nat) + s);
    } else {
        assert(zeros(k) + s =~= s);
    }
}

} // verus!
