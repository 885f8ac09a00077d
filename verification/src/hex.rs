//! Hexadecimal sequences: `0x` and two digits for each byte.

use vstd::prelude::*;
use crate::number::is_digit;

verus! {

/// Whether `c` is a hexadecimal digit, in either case.
pub open spec fn is_hex_digit(c: char) -> bool {
    is_digit(c) || ('A' <= c <= 'F') || ('a' <= c <= 'f')
}

/// The number that the hexadecimal digit `c` stands for.
pub open spec fn hex_value(c: char) -> int {
    if is_digit(c) {
        c as int - '0' as int
    } else if 'A' <= c <= 'F' {
        c as int - 'A' as int + 10
    } else {
        c as int - 'a' as int + 10
    }
}

/// The upper-case hexadecimal digit that stands for `d`, for `d < 16`.
pub open spec fn hex_char(d: int) -> char {
    if d < 10 {
        (d + '0' as int) as char
    } else {
        (d - 10 + 'A' as int) as char
    }
}

/// Whether every character of `s` is a hexadecimal digit.
pub open spec fn all_hex_digits(s: Seq<char>) -> bool {
    forall|i: int| 0 <= i < s.len() ==> is_hex_digit(#[trigger] s[i])
}

/// The two digits of each of `bytes`, high digit first.
pub open spec fn hex_digits(bytes: Seq<u8>) -> Seq<char> {
    Seq::new(
        2 * bytes.len(),
        |i: int|
            if i % 2 == 0 {
                hex_char(bytes[i / 2] as int / 16)
            } else {
                hex_char(bytes[i / 2] as int % 16)
            },
    )
}

/// The bytes that pairs of hexadecimal digits denote.
pub open spec fn hex_bytes(digits: Seq<char>) -> Seq<u8> {
    Seq::new(
        digits.len() / 2,
        |i: int| (hex_value(digits[2 * i]) * 16 + hex_value(digits[2 * i + 1])) as u8,
    )
}

/// The text of a hexadecimal sequence.
pub open spec fn hex_text(bytes: Seq<u8>) -> Seq<char> {
    seq!['0', 'x'] + hex_digits(bytes)
}

/// What `s` denotes as a hexadecimal sequence: `0x` or `0X`, then an even
/// number of hexadecimal digits.
pub open spec fn spec_parse_hex(s: Seq<char>) -> Option<Seq<u8>> {
    if s.len() >= 2 && s[0] == '0' && (s[1] == 'x' || s[1] == 'X') && s.len() % 2 == 0
        && all_hex_digits(s.skip(2)) {
        Some(hex_bytes(s.skip(2)))
    } else {
        None
    }
}

/// The digits written for bytes are upper-case hexadecimal digits.
pub proof fn lemma_hex_digits(bytes: Seq<u8>)
    ensures
        hex_digits(bytes).len() == 2 * bytes.len(),
        all_hex_digits(hex_digits(bytes)),
        forall|i: int|
            0 <= i < hex_digits(bytes).len() ==> is_digit(#[trigger] hex_digits(bytes)[i]) || ('A'
                <= hex_digits(bytes)[i] <= 'F'),
{
    assert forall|i: int| 0 <= i < hex_digits(bytes).len() implies is_digit(
        #[trigger] hex_digits(bytes)[i],
    ) || ('A' <= hex_digits(bytes)[i] <= 'F') by {
        let b = bytes[i / 2] as int;
        assert(0 <= b / 16 < 16 && 0 <= b % 16 < 16);
    }
}

/// Reading the text of a hexadecimal sequence gives the bytes back.
pub proof fn lemma_parse_hex_text(bytes: Seq<u8>)
    ensures
        spec_parse_hex(hex_text(bytes)) == Some(bytes),
{
    let s = hex_text(bytes);
    let ds = hex_digits(bytes);
    lemma_hex_digits(bytes);
    assert(s.skip(2) =~= ds);
    assert forall|i: int| 0 <= i < bytes.len() implies #[trigger] hex_bytes(ds)[i] == bytes[i] by {
        let b = bytes[i] as int;
        assert(0 <= b / 16 < 16 && 0 <= b % 16 < 16);
        assert((2 * i) / 2 == i && (2 * i + 1) / 2 == i);
        assert(ds[2 * i] == hex_char(b / 16));
        assert(ds[2 * i + 1] == hex_char(b % 16));
        assert(hex_value(hex_char(b / 16)) == b / 16);
        assert(hex_value(hex_char(b % 16)) == b % 16);
    }
    assert(hex_bytes(ds) =~= bytes);
}

/// The value of the hexadecimal digit `c`, if it is one.
pub(crate) fn hex_digit_value(c: char) -> (r: Option<u8>)
    ensures
        r is Some == is_hex_digit(c),
        r matches Some(v) ==> v == hex_value(c),
{
    if c >= '0' && c <= '9' {
        Some((c as u32 - '0' as u32) as u8)
    } else if c >= 'A' && c <= 'F' {
        Some((c as u32 - 'A' as u32 + 10) as u8)
    } else if c >= 'a' && c <= 'f' {
        Some((c as u32 - 'a' as u32 + 10) as u8)
    } else {
        None
    }
}

/// The upper-case hexadecimal digit for `d`.
pub(crate) fn hex_digit_char(d: u8) -> (c: char)
    requires
        d < 16,
    ensures
        c == hex_char(d as int),
{
    if d < 10 {
        (d + 48u8) as char
    } else {
        (d + 55u8) as char
    }
}

/// Reads `s[from..to]` as pairs of hexadecimal digits.
pub(crate) fn parse_hex_digits(s: &Vec<char>, from: usize, to: usize) -> (r: Option<Vec<u8>>)
    requires
        from <= to <= s.len(),
    ensures
        ({
            let t = s@.subrange(from as int, to as int);
            &&& r is Some == (t.len() % 2 == 0 && all_hex_digits(t))
            &&& r matches Some(bytes) ==> bytes@ == hex_bytes(t)
        }),
{
    let ghost t = s@.subrange(from as int, to as int);
    if (to - from) % 2 != 0 {
        return None;
    }
    let mut bytes: Vec<u8> = Vec::new();
    let mut i: usize = from;
    while i < to
        invariant
            from <= i <= to <= s.len(),
            (i - from) % 2 == 0,
            (to - from) % 2 == 0,
            t == s@.subrange(from as int, to as int),
            forall|j: int| 0 <= j < i - from ==> is_hex_digit(#[trigger] t[j]),
            bytes.len() == (i - from) / 2,
            forall|j: int| 0 <= j < bytes.len() ==> #[trigger] bytes@[j] == hex_bytes(t)[j],
        decreases to - i,
    {
        let high = match hex_digit_value(s[i]) {
            Some(v) => v,
            None => {
                assert(!is_hex_digit(t[i - from]));
                return None;
            },
        };
        let low = match hex_digit_value(s[i + 1]) {
            Some(v) => v,
            None => {
                assert(!is_hex_digit(t[i - from + 1]));
                return None;
            },
        };
        let ghost k = bytes.len() as int;
        assert(2 * k == i - from);
        bytes.push(high * 16 + low);
        assert(t[2 * k] == s@[i as int] && t[2 * k + 1] == s@[i + 1]);
        i += 2;
    }
    assert(bytes@ =~= hex_bytes(t));
    Some(bytes)
}

/// Appends two hexadecimal digits for each of `bytes` to `out`.
pub(crate) fn push_hex_digits(out: &mut String, bytes: &Vec<u8>)
    ensures
        final(out)@ == old(out)@ + hex_digits(bytes@),
{
    let ghost digits = hex_digits(bytes@);
    let mut i: usize = 0;
    assert(digits.take(0) =~= Seq::<char>::empty());
    while i < bytes.len()
        invariant
            i <= bytes.len(),
            digits == hex_digits(bytes@),
            out@ == old(out)@ + digits.take(2 * i),
        decreases bytes.len() - i,
    {
        let b = bytes[i];
        let ghost k = i as int;
        assert((2 * k) / 2 == k && (2 * k + 1) / 2 == k);
        out.push(hex_digit_char(b / 16));
        out.push(hex_digit_char(b % 16));
        i += 1;
        assert(digits.take(2 * k + 2) =~= digits.take(2 * k).push(digits[2 * k]).push(
            digits[2 * k + 1],
        ));
    }
    assert(digits.take(2 * bytes.len()) =~= digits);
}

} // verus!
