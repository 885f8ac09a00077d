//! Decimal numbers, held exactly.

use vstd::prelude::*;
use crate::error::DecodeError;
use crate::number::{
    accumulate_digits, all_digits, digit_char, digit_value, digits_of, digits_value, is_digit,
    is_digit_run, lemma_digits_value_of_nat_digits, lemma_digits_value_prefix,
    lemma_leading_zeros, lemma_nat_digits_are_digits, nat_digits, zeros,
};
use crate::text::{chars_of, find_char, index_of_from, lemma_index_of_from_is, push_range};

verus! {

/// The mathematical value of a [`Decimal`]: `mantissa / 10^scale`, negated
/// where `negative` is set.
pub struct DecimalModel {
    pub negative: bool,
    pub mantissa: nat,
    pub scale: nat,
}

/// `s` without the zeros at its end.
pub open spec fn trim_zeros(s: Seq<char>) -> Seq<char>
    decreases s.len(),
{
    if s.len() > 0 && s.last() == '0' {
        trim_zeros(s.drop_last())
    } else {
        s
    }
}

/// What is left of `s` is its beginning, and does not end in a zero.
pub proof fn lemma_trim_zeros(s: Seq<char>)
    ensures
        trim_zeros(s).len() <= s.len(),
        trim_zeros(s) == s.take(trim_zeros(s).len() as int),
        trim_zeros(s).len() > 0 ==> trim_zeros(s).last() != '0',
    decreases s.len(),
{
    if s.len() > 0 && s.last() == '0' {
        lemma_trim_zeros(s.drop_last());
        assert(s.drop_last().take(trim_zeros(s).len() as int) =~= s.take(
            trim_zeros(s).len() as int,
        ));
    } else {
        assert(s.take(s.len() as int) =~= s);
    }
}

/// Whether the text `s` begins with a minus sign.
pub open spec fn has_sign(s: Seq<char>) -> bool {
    s.len() > 0 && s[0] == '-'
}

/// `s` without its minus sign, if it has one.
pub open spec fn unsigned_part(s: Seq<char>) -> Seq<char> {
    if has_sign(s) {
        s.skip(1)
    } else {
        s
    }
}

/// What stands before the first `.` of `body`: all of it where it has none.
pub open spec fn integer_part(body: Seq<char>) -> Seq<char> {
    body.take(index_of_from(body, '.', 0))
}

/// What stands after the first `.` of `body`: nothing where it has none.
pub open spec fn fraction_part(body: Seq<char>) -> Seq<char> {
    let dot = index_of_from(body, '.', 0);
    if dot < body.len() {
        body.skip(dot + 1)
    } else {
        Seq::<char>::empty()
    }
}

impl DecimalModel {
    /// Each number has one canonical form: no zero at the end of the fraction,
    /// no negative zero, and a mantissa and scale that fit their fields.
    pub open spec fn canonical(self) -> bool {
        &&& self.mantissa <= u64::MAX
        &&& self.scale <= u8::MAX
        &&& (self.scale > 0 ==> self.mantissa % 10 != 0)
        &&& (self.negative ==> self.mantissa > 0)
    }

    /// The digits before the point: those of the mantissa but its last
    /// `scale`, and `0` where none is left.
    pub open spec fn integer_digits(self) -> Seq<char> {
        let ds = nat_digits(self.mantissa);
        if ds.len() > self.scale {
            ds.take(ds.len() - self.scale)
        } else {
            seq!['0']
        }
    }

    /// The `scale` digits behind the point: the last of the mantissa, with
    /// zeros before them where the mantissa has fewer.
    pub open spec fn fraction_digits(self) -> Seq<char> {
        let ds = nat_digits(self.mantissa);
        if ds.len() > self.scale {
            ds.skip(ds.len() - self.scale)
        } else {
            zeros((self.scale - ds.len()) as nat) + ds
        }
    }

    /// The text of a decimal: a `-` where it is negative, the integer part,
    /// and, where the scale is not zero, a `.` and the fraction.
    pub open spec fn text(self) -> Seq<char> {
        let sign = if self.negative {
            seq!['-']
        } else {
            Seq::<char>::empty()
        };
        let tail = if self.scale > 0 {
            seq!['.'] + self.fraction_digits()
        } else {
            Seq::<char>::empty()
        };
        sign + self.integer_digits() + tail
    }

    /// The decimal that a sign, the digits before the point and the digits
    /// after it denote. Zeros at the end of the fraction do not count, and
    /// zero is never negative. There must be a digit, all must be digits, the
    /// value must fit in 64 bits, and the fraction in 255 digits.
    pub open spec fn from_digits(negative: bool, int_part: Seq<char>, frac_raw: Seq<char>) -> Option<
        DecimalModel,
    > {
        let frac = trim_zeros(frac_raw);
        let value = digits_value(int_part + frac);
        if all_digits(int_part) && all_digits(frac_raw) && int_part.len() + frac_raw.len() > 0
            && value <= u64::MAX && frac.len() <= u8::MAX {
            Some(DecimalModel { negative: negative && value > 0, mantissa: value, scale: frac.len() })
        } else {
            None
        }
    }

    /// What `s` denotes as a decimal: after an optional `-` come digits with
    /// at most one `.` among them.
    pub open spec fn spec_parse(s: Seq<char>) -> Option<DecimalModel> {
        let body = unsigned_part(s);
        Self::from_digits(has_sign(s), integer_part(body), fraction_part(body))
    }

    /// What a text denotes is canonical.
    pub proof fn lemma_from_digits_canonical(
        negative: bool,
        int_part: Seq<char>,
        frac_raw: Seq<char>,
    )
        ensures
            Self::from_digits(negative, int_part, frac_raw) matches Some(d) ==> d.canonical(),
    {
        if Self::from_digits(negative, int_part, frac_raw) is Some {
            let frac = trim_zeros(frac_raw);
            lemma_trim_zeros(frac_raw);
            if frac.len() > 0 {
                assert((int_part + frac).last() == frac.last());
                assert(frac.last() == frac_raw[frac.len() - 1]);
                assert(is_digit(frac.last()));
                assert(digit_value(frac.last()) != 0);
            }
        }
    }

    /// What a text denotes is canonical.
    pub proof fn lemma_parse_canonical(s: Seq<char>)
        ensures
            Self::spec_parse(s) matches Some(d) ==> d.canonical(),
    {
        let body = unsigned_part(s);
        Self::lemma_from_digits_canonical(has_sign(s), integer_part(body), fraction_part(body));
    }

    /// The two runs of digits in the text of a decimal.
    pub proof fn lemma_digit_runs(self)
        requires
            self.canonical(),
        ensures
            self.integer_digits().len() > 0,
            all_digits(self.integer_digits()),
            all_digits(self.fraction_digits()),
            self.fraction_digits().len() == self.scale,
            self.scale > 0 ==> self.fraction_digits().last() != '0',
            digits_value(self.integer_digits() + self.fraction_digits()) == self.mantissa,
    {
        let ds = nat_digits(self.mantissa);
        lemma_nat_digits_are_digits(self.mantissa);
        lemma_digits_value_of_nat_digits(self.mantissa);
        let k = ds.len() as int;
        if k > self.scale {
            assert(self.integer_digits() + self.fraction_digits() =~= ds);
            if self.scale > 0 {
                assert(self.fraction_digits().last() == ds.last());
            }
        } else {
            assert(self.integer_digits() + self.fraction_digits() =~= zeros(
                (self.scale - k + 1) as nat,
            ) + ds);
            lemma_leading_zeros((self.scale - k + 1) as nat, ds);
            assert(self.fraction_digits().last() == ds.last());
        }
        assert(ds.last() == digit_char(self.mantissa % 10));
    }

    /// Taking the text of a decimal apart gives its sign and its two runs of
    /// digits.
    pub proof fn lemma_text_parts(self)
        requires
            self.canonical(),
        ensures
            has_sign(self.text()) == self.negative,
            integer_part(unsigned_part(self.text())) == self.integer_digits(),
            fraction_part(unsigned_part(self.text())) == (if self.scale > 0 {
                self.fraction_digits()
            } else {
                Seq::<char>::empty()
            }),
    {
        self.lemma_digit_runs();
        let s = self.text();
        let int_part = self.integer_digits();
        let tail = if self.scale > 0 {
            seq!['.'] + self.fraction_digits()
        } else {
            Seq::<char>::empty()
        };
        let body = int_part + tail;
        assert(is_digit(int_part[0]));
        if self.negative {
            assert(s =~= seq!['-'] + body);
            assert(s.skip(1) =~= body);
        } else {
            assert(s =~= body);
            assert(s[0] == int_part[0]);
        }
        assert(unsigned_part(s) == body);
        assert forall|j: int| 0 <= j < int_part.len() implies body[j] != '.' by {
            assert(is_digit(int_part[j]));
        }
        lemma_index_of_from_is(body, '.', 0, int_part.len() as int);
        assert(body.take(int_part.len() as int) =~= int_part);
        if self.scale > 0 {
            assert(body.skip(int_part.len() as int + 1) =~= self.fraction_digits());
        }
    }

    /// Reading the text of a canonical decimal gives the decimal back.
    pub proof fn lemma_parse_text(self)
        requires
            self.canonical(),
        ensures
            Self::spec_parse(self.text()) == Some(self),
    {
        self.lemma_digit_runs();
        self.lemma_text_parts();
        let frac = self.fraction_digits();
        if self.scale > 0 {
            assert(trim_zeros(frac) == frac);
        } else {
            assert(frac =~= Seq::<char>::empty());
            assert(trim_zeros(Seq::<char>::empty()) == Seq::<char>::empty());
            assert(self.integer_digits() + Seq::<char>::empty() =~= self.integer_digits() + frac);
        }
    }

    /// The text of a decimal holds digits, `-` and `.` only.
    pub proof fn lemma_text_chars(self)
        requires
            self.canonical(),
        ensures
            forall|i: int|
                0 <= i < self.text().len() ==> is_digit(#[trigger] self.text()[i])
                    || self.text()[i] == '-' || self.text()[i] == '.',
    {
        self.lemma_digit_runs();
        let a = self.integer_digits();
        let b = self.fraction_digits();
        let t = self.text();
        let off: int = if self.negative { 1 } else { 0 };
        assert forall|i: int| 0 <= i < t.len() implies is_digit(#[trigger] t[i]) || t[i] == '-'
            || t[i] == '.' by {
            if i < off {
            } else if i < off + a.len() {
                assert(t[i] == a[i - off]);
            } else if i == off + a.len() {
            } else {
                assert(t[i] == b[i - off - a.len() - 1]);
            }
        }
    }
}

/// A decimal number: a sign, an unsigned mantissa and the number of its
/// digits that stand behind the point. It is kept canonical, so that two
/// decimals are equal exactly when they denote the same number.
#[derive(Debug, Clone, Copy, PartialEq, Eq, Hash)]
pub struct Decimal {
    negative: bool,
    mantissa: u64,
    scale: u8,
}

impl View for Decimal {
    type V = DecimalModel;

    closed spec fn view(&self) -> DecimalModel {
        DecimalModel {
            negative: self.negative,
            mantissa: self.mantissa as nat,
            scale: self.scale as nat,
        }
    }
}

impl Decimal {
    #[verifier::type_invariant]
    pub open spec fn well_formed(self) -> bool {
        self@.canonical()
    }

    /// The whole number `value`.
    pub fn from_u16(value: u16) -> (r: Decimal)
        ensures
            r@ == (DecimalModel { negative: false, mantissa: value as nat, scale: 0 }),
    {
        Decimal { negative: false, mantissa: value as u64, scale: 0 }
    }

    /// The whole number `value`.
    pub fn from_u64(value: u64) -> (r: Decimal)
        ensures
            r@ == (DecimalModel { negative: false, mantissa: value as nat, scale: 0 }),
    {
        Decimal { negative: false, mantissa: value, scale: 0 }
    }

    /// Whether the number is below zero.
    pub fn is_negative(&self) -> (r: bool)
        ensures
            r == self@.negative,
    {
        self.negative
    }

    /// The digits of the number, as one unsigned integer.
    pub fn mantissa(&self) -> (r: u64)
        ensures
            r == self@.mantissa,
    {
        self.mantissa
    }

    /// How many digits of the mantissa stand behind the point.
    pub fn scale(&self) -> (r: u8)
        ensures
            r == self@.scale,
    {
        self.scale
    }

    /// Appends the text of the number to `out`.
    pub fn write(&self, out: &mut String)
        ensures
            final(out)@ == old(out)@ + self@.text(),
    {
        proof {
            use_type_invariant(self);
            lemma_nat_digits_are_digits(self.mantissa as nat);
        }
        if self.negative {
            out.push('-');
        }
        let ds = digits_of(self.mantissa);
        let len = ds.len();
        let scale = self.scale as usize;
        if scale == 0 {
            push_range(out, &ds, 0, len);
            assert(ds@.subrange(0, len as int) =~= ds@);
        } else if len > scale {
            push_range(out, &ds, 0, len - scale);
            out.push('.');
            push_range(out, &ds, len - scale, len);
            assert(ds@.subrange(0, len - scale) =~= ds@.take(len - scale));
            assert(ds@.subrange(len - scale, len as int) =~= ds@.skip(len - scale));
        } else {
            out.push('0');
            out.push('.');
            let mut i: usize = 0;
            let ghost before = out@;
            while i < scale - len
                invariant
                    len <= scale,
                    i <= scale - len,
                    out@ == before + zeros(i as nat),
                decreases scale - len - i,
            {
                out.push('0');
                i += 1;
                assert(zeros(i as nat) =~= zeros((i - 1) as nat).push('0'));
            }
            push_range(out, &ds, 0, len);
            assert(ds@.subrange(0, len as int) =~= ds@);
        }
        assert(final(out)@ =~= old(out)@ + self@.text());
    }

    /// The text of the number, such as `12`, `-0.5` or `29.97`.
    pub fn to_string(&self) -> (s: String)
        ensures
            s@ == self@.text(),
    {
        let mut s = String::new();
        self.write(&mut s);
        assert(s@ =~= self@.text());
        s
    }

    /// The decimal that a sign and two runs of digits denote, the digits
    /// before the point in `chars[int_from..int_to]` and those after it in
    /// `chars[frac_from..frac_to]`.
    fn from_digit_runs(
        negative: bool,
        chars: &Vec<char>,
        int_from: usize,
        int_to: usize,
        frac_from: usize,
        frac_to: usize,
    ) -> (r: Option<Decimal>)
        requires
            int_from <= int_to <= chars.len(),
            frac_from <= frac_to <= chars.len(),
        ensures
            r matches Some(d) ==> DecimalModel::from_digits(
                negative,
                chars@.subrange(int_from as int, int_to as int),
                chars@.subrange(frac_from as int, frac_to as int),
            ) == Some(d@),
            r is None ==> DecimalModel::from_digits(
                negative,
                chars@.subrange(int_from as int, int_to as int),
                chars@.subrange(frac_from as int, frac_to as int),
            ) is None,
    {
        let ghost int_part = chars@.subrange(int_from as int, int_to as int);
        let ghost frac_raw = chars@.subrange(frac_from as int, frac_to as int);
        if (int_to - int_from == 0 && frac_to - frac_from == 0) || !is_digit_run(
            chars,
            frac_from,
            frac_to,
        ) {
            return None;
        }
        let end = Self::trimmed_end(chars, frac_from, frac_to);
        let ghost frac = chars@.subrange(frac_from as int, end as int);
        assert(all_digits(frac)) by {
            assert forall|j: int| 0 <= j < frac.len() implies is_digit(#[trigger] frac[j]) by {
                assert(frac[j] == frac_raw[j]);
            }
        }
        if end - frac_from > u8::MAX as usize {
            return None;
        }
        assert(Seq::<char>::empty() + int_part =~= int_part);
        let whole = match accumulate_digits(0, chars, int_from, int_to, Ghost(Seq::empty())) {
            Some(v) => v,
            None => {
                proof {
                    lemma_digits_value_prefix(int_part + frac, int_part.len() as int);
                    assert((int_part + frac).take(int_part.len() as int) =~= int_part);
                }
                return None;
            },
        };
        let mantissa = match accumulate_digits(whole, chars, frac_from, end, Ghost(int_part)) {
            Some(v) => v,
            None => {
                return None;
            },
        };
        proof {
            if frac.len() > 0 {
                assert((int_part + frac).last() == frac.last());
                assert(frac.last() == chars@[end - 1]);
                assert(is_digit(frac.last()));
                assert(digit_value(frac.last()) != 0);
            }
        }
        Some(Decimal { negative: negative && mantissa > 0, mantissa, scale: (end - frac_from) as u8 })
    }

    /// Where `chars[from..to]` ends once the zeros at its end are left out.
    fn trimmed_end(chars: &Vec<char>, from: usize, to: usize) -> (end: usize)
        requires
            from <= to <= chars.len(),
        ensures
            from <= end <= to,
            end > from ==> chars@[end - 1] != '0',
            chars@.subrange(from as int, end as int) == trim_zeros(
                chars@.subrange(from as int, to as int),
            ),
    {
        let mut end: usize = to;
        while end > from && chars[end - 1] == '0'
            invariant
                from <= end <= to <= chars.len(),
                trim_zeros(chars@.subrange(from as int, to as int)) == trim_zeros(
                    chars@.subrange(from as int, end as int),
                ),
            decreases end,
        {
            assert(chars@.subrange(from as int, end as int).drop_last() =~= chars@.subrange(
                from as int,
                end - 1,
            ));
            end -= 1;
        }
        end
    }

    /// Reads a decimal number.
    pub fn parse(input: &str) -> (r: Result<Decimal, DecodeError>)
        ensures
            r matches Ok(d) ==> DecimalModel::spec_parse(input@) == Some(d@) && d@.canonical(),
            r matches Err(e) ==> DecimalModel::spec_parse(input@) is None && e
                == DecodeError::InvalidDecimal,
    {
        let chars = chars_of(input);
        let n = chars.len();
        let negative = n > 0 && chars[0] == '-';
        let start: usize = if negative {
            1
        } else {
            0
        };
        let ghost body = unsigned_part(input@);
        assert(chars@.subrange(start as int, n as int) =~= body);
        let dot = find_char(&chars, '.', start, n);
        let frac_from: usize = if dot < n {
            dot + 1
        } else {
            n
        };
        assert(chars@.subrange(start as int, dot as int) =~= integer_part(body));
        assert(chars@.subrange(frac_from as int, n as int) =~= fraction_part(body));
        match Self::from_digit_runs(negative, &chars, start, dot, frac_from, n) {
            Some(d) => {
                proof {
                    use_type_invariant(&d);
                }
                Ok(d)
            },
            None => Err(DecodeError::InvalidDecimal),
        }
    }
}

} // verus!
