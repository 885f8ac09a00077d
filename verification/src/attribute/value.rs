//! Attribute values, their kinds, and the text of each.

use vstd::prelude::*;
use crate::attribute::tokenizer::is_value;
use crate::error::{DecodeError, DecodeErrorModel};
use crate::hex::{
    hex_text, lemma_parse_hex_text, parse_hex_digits, push_hex_digits, spec_parse_hex,
};
use crate::number::{
    lemma_parse_unsigned_of_digits, nat_digits, parse_unsigned, push_unsigned,
    spec_parse_unsigned,
};
use crate::text::{chars_of, same_text, string_of};
use crate::types::decimal::{Decimal, DecimalModel};
use crate::types::decimal_resolution::DecimalResolution;
use crate::types::timestamp::{Timestamp, TimestampModel};

verus! {

/// The kinds of value that a field can declare.
#[derive(Debug, Clone, PartialEq, Eq)]
pub enum ValueKind {
    /// An unsigned integer in decimal digits.
    UnsignedInteger,
    /// A decimal number with an optional sign and fraction.
    Decimal,
    /// Text between double quotes.
    QuotedString,
    /// One word of a fixed vocabulary, written without quotes.
    EnumeratedToken(Vec<String>),
    /// Bytes in hexadecimal digits after `0x`.
    HexSequence,
    /// Width and height around an `x`.
    Resolution,
    /// Date and time with an offset from UTC.
    Timestamp,
}

/// The mathematical value of a [`ValueKind`].
pub enum ValueKindModel {
    UnsignedInteger,
    Decimal,
    QuotedString,
    EnumeratedToken(Seq<Seq<char>>),
    HexSequence,
    Resolution,
    Timestamp,
}

impl View for ValueKind {
    type V = ValueKindModel;

    open spec fn view(&self) -> ValueKindModel {
        match self {
            ValueKind::UnsignedInteger => ValueKindModel::UnsignedInteger,
            ValueKind::Decimal => ValueKindModel::Decimal,
            ValueKind::QuotedString => ValueKindModel::QuotedString,
            ValueKind::EnumeratedToken(words) => ValueKindModel::EnumeratedToken(
                words.deep_view(),
            ),
            ValueKind::HexSequence => ValueKindModel::HexSequence,
            ValueKind::Resolution => ValueKindModel::Resolution,
            ValueKind::Timestamp => ValueKindModel::Timestamp,
        }
    }
}

/// A decoded attribute value.
#[derive(Debug, Clone, PartialEq, Eq)]
pub enum AttributeValue {
    UnsignedInteger(u64),
    Decimal(Decimal),
    /// The text between the quotes.
    QuotedString(String),
    EnumeratedToken(String),
    HexSequence(Vec<u8>),
    Resolution(DecimalResolution),
    Timestamp(Timestamp),
}

/// The mathematical value of an [`AttributeValue`].
pub enum AttributeValueModel {
    UnsignedInteger(u64),
    Decimal(DecimalModel),
    QuotedString(Seq<char>),
    EnumeratedToken(Seq<char>),
    HexSequence(Seq<u8>),
    Resolution(DecimalResolution),
    Timestamp(TimestampModel),
}

impl View for AttributeValue {
    type V = AttributeValueModel;

    open spec fn view(&self) -> AttributeValueModel {
        match self {
            AttributeValue::UnsignedInteger(v) => AttributeValueModel::UnsignedInteger(*v),
            AttributeValue::Decimal(d) => AttributeValueModel::Decimal(d@),
            AttributeValue::QuotedString(s) => AttributeValueModel::QuotedString(s@),
            AttributeValue::EnumeratedToken(s) => AttributeValueModel::EnumeratedToken(s@),
            AttributeValue::HexSequence(b) => AttributeValueModel::HexSequence(b@),
            AttributeValue::Resolution(r) => AttributeValueModel::Resolution(*r),
            AttributeValue::Timestamp(t) => AttributeValueModel::Timestamp(t@),
        }
    }
}

/// `s` between two double quotes.
pub open spec fn quoted_text(s: Seq<char>) -> Seq<char> {
    seq!['"'] + s + seq!['"']
}

/// What `s` denotes as a quoted string: the text between its first and its
/// last character, which must both be double quotes. Nothing inside is
/// unescaped or otherwise changed.
pub open spec fn spec_parse_quoted(s: Seq<char>) -> Option<Seq<char>> {
    if s.len() >= 2 && s[0] == '"' && s.last() == '"' {
        Some(s.subrange(1, s.len() - 1))
    } else {
        None
    }
}

impl AttributeValueModel {
    /// Whether the value is one that an [`AttributeValue`] can hold.
    pub open spec fn valid(self) -> bool {
        match self {
            AttributeValueModel::Decimal(d) => d.canonical(),
            AttributeValueModel::Timestamp(t) => t.in_range(),
            _ => true,
        }
    }

    /// Whether the value is of the kind `kind`; for a token, whether it is a
    /// word of the kind's vocabulary.
    pub open spec fn of_kind(self, kind: ValueKindModel) -> bool {
        match (self, kind) {
            (AttributeValueModel::UnsignedInteger(_), ValueKindModel::UnsignedInteger) => true,
            (AttributeValueModel::Decimal(_), ValueKindModel::Decimal) => true,
            (AttributeValueModel::QuotedString(_), ValueKindModel::QuotedString) => true,
            (AttributeValueModel::EnumeratedToken(w), ValueKindModel::EnumeratedToken(words)) => {
                words.contains(w)
            },
            (AttributeValueModel::HexSequence(_), ValueKindModel::HexSequence) => true,
            (AttributeValueModel::Resolution(_), ValueKindModel::Resolution) => true,
            (AttributeValueModel::Timestamp(_), ValueKindModel::Timestamp) => true,
            _ => false,
        }
    }

    /// What this crate cannot know of the text of a value, because another
    /// crate writes it: that the text of a timestamp can stand in an attribute
    /// list, and that reading it gives the timestamp back. It holds of every
    /// value that is no timestamp.
    pub open spec fn reads_back(self) -> bool {
        self matches AttributeValueModel::Timestamp(t) ==> t.reads_back() && is_value(t.text())
    }
}

/// The text of a value.
pub open spec fn spec_encode(value: AttributeValueModel) -> Seq<char> {
    match value {
        AttributeValueModel::UnsignedInteger(v) => nat_digits(v as nat),
        AttributeValueModel::Decimal(d) => d.text(),
        AttributeValueModel::QuotedString(s) => quoted_text(s),
        AttributeValueModel::EnumeratedToken(w) => w,
        AttributeValueModel::HexSequence(b) => hex_text(b),
        AttributeValueModel::Resolution(r) => r.spec_text(),
        AttributeValueModel::Timestamp(t) => t.text(),
    }
}

/// What `raw` denotes as a value of the kind `kind`, or why it denotes none.
pub open spec fn spec_decode(kind: ValueKindModel, raw: Seq<char>) -> Result<
    AttributeValueModel,
    DecodeErrorModel,
> {
    match kind {
        ValueKindModel::UnsignedInteger => match spec_parse_unsigned(raw) {
            Some(v) => Ok(AttributeValueModel::UnsignedInteger(v)),
            None => Err(DecodeErrorModel::InvalidInteger),
        },
        ValueKindModel::Decimal => match DecimalModel::spec_parse(raw) {
            Some(d) => Ok(AttributeValueModel::Decimal(d)),
            None => Err(DecodeErrorModel::InvalidDecimal),
        },
        ValueKindModel::QuotedString => match spec_parse_quoted(raw) {
            Some(s) => Ok(AttributeValueModel::QuotedString(s)),
            None => Err(DecodeErrorModel::UnterminatedQuote),
        },
        ValueKindModel::EnumeratedToken(words) => if words.contains(raw) {
            Ok(AttributeValueModel::EnumeratedToken(raw))
        } else {
            Err(DecodeErrorModel::UnknownToken { got: raw, expected: words })
        },
        ValueKindModel::HexSequence => match spec_parse_hex(raw) {
            Some(b) => Ok(AttributeValueModel::HexSequence(b)),
            None => Err(DecodeErrorModel::InvalidHex),
        },
        ValueKindModel::Resolution => match DecimalResolution::spec_parse(raw) {
            Some(r) => Ok(AttributeValueModel::Resolution(r)),
            None => Err(DecodeErrorModel::InvalidResolution),
        },
        ValueKindModel::Timestamp => match TimestampModel::spec_parse(raw) {
            Some(t) => Ok(AttributeValueModel::Timestamp(t)),
            None => Err(DecodeErrorModel::InvalidTimestamp),
        },
    }
}

/// Decoding is a left inverse of encoding: the text of a value of some kind
/// decodes, under that kind, to the value.
pub proof fn lemma_decode_encode(kind: ValueKindModel, value: AttributeValueModel)
    requires
        value.valid(),
        value.of_kind(kind),
        value.reads_back(),
    ensures
        spec_decode(kind, spec_encode(value)) == Ok::<AttributeValueModel, DecodeErrorModel>(
            value,
        ),
{
    match value {
        AttributeValueModel::UnsignedInteger(v) => {
            lemma_parse_unsigned_of_digits(v);
        },
        AttributeValueModel::Decimal(d) => {
            d.lemma_parse_text();
        },
        AttributeValueModel::QuotedString(s) => {
            assert(quoted_text(s).subrange(1, quoted_text(s).len() - 1) =~= s);
        },
        AttributeValueModel::EnumeratedToken(w) => {},
        AttributeValueModel::HexSequence(b) => {
            lemma_parse_hex_text(b);
        },
        AttributeValueModel::Resolution(r) => {
            r.lemma_parse_text();
        },
        AttributeValueModel::Timestamp(t) => {},
    }
}

/// A value that was decoded is valid, and of the kind it was decoded under.
pub proof fn lemma_decoded_is_of_kind(kind: ValueKindModel, raw: Seq<char>)
    requires
        spec_decode(kind, raw) is Ok,
    ensures
        spec_decode(kind, raw)->Ok_0.of_kind(kind),
        spec_decode(kind, raw)->Ok_0.valid(),
{
    if kind is Decimal {
        DecimalModel::lemma_parse_canonical(raw);
    }
}

/// Decoding is a left inverse of encoding on everything that decoding can
/// give: the text of a decoded value decodes to that value again. The text
/// itself may differ from the text that was decoded.
pub proof fn lemma_decoding_is_stable(kind: ValueKindModel, raw: Seq<char>)
    requires
        spec_decode(kind, raw) is Ok,
        spec_decode(kind, raw)->Ok_0.reads_back(),
    ensures
        spec_decode(kind, spec_encode(spec_decode(kind, raw)->Ok_0)) == spec_decode(kind, raw),
{
    lemma_decoded_is_of_kind(kind, raw);
    lemma_decode_encode(kind, spec_decode(kind, raw)->Ok_0);
}

/// A copy of `words`.
pub fn copy_words(words: &Vec<String>) -> (r: Vec<String>)
    ensures
        r.deep_view() == words.deep_view(),
{
    let mut r: Vec<String> = Vec::new();
    let mut i: usize = 0;
    while i < words.len()
        invariant
            i <= words.len(),
            r.len() == i,
            forall|j: int| 0 <= j < i ==> r@[j]@ == words@[j]@,
        decreases words.len() - i,
    {
        r.push(words[i].clone());
        i += 1;
    }
    assert(r.deep_view() =~= words.deep_view());
    r
}

/// Whether `word` is one of `words`.
pub fn is_word_of(words: &Vec<String>, word: &str) -> (r: bool)
    ensures
        r == words.deep_view().contains(word@),
{
    let mut i: usize = 0;
    while i < words.len()
        invariant
            i <= words.len(),
            forall|j: int| 0 <= j < i ==> words.deep_view()[j] != word@,
        decreases words.len() - i,
    {
        if same_text(words[i].as_str(), word) {
            assert(words.deep_view()[i as int] == word@);
            return true;
        }
        i += 1;
    }
    false
}

/// Decodes the raw text of an attribute under the kind that its field
/// declares.
pub fn decode(kind: &ValueKind, raw: &str) -> (r: Result<AttributeValue, DecodeError>)
    ensures
        r matches Ok(v) ==> spec_decode(kind@, raw@) == Ok::<
            AttributeValueModel,
            DecodeErrorModel,
        >(v@) && v@.valid() && v@.of_kind(kind@),
        r matches Err(e) ==> spec_decode(kind@, raw@) == Err::<
            AttributeValueModel,
            DecodeErrorModel,
        >(e@),
{
    match kind {
        ValueKind::UnsignedInteger => {
            let chars = chars_of(raw);
            assert(chars@.subrange(0, chars.len() as int) =~= raw@);
            match parse_unsigned(&chars, 0, chars.len()) {
                Some(v) => Ok(AttributeValue::UnsignedInteger(v)),
                None => Err(DecodeError::InvalidInteger),
            }
        },
        ValueKind::Decimal => match Decimal::parse(raw) {
            Ok(d) => Ok(AttributeValue::Decimal(d)),
            Err(e) => Err(e),
        },
        ValueKind::QuotedString => {
            let chars = chars_of(raw);
            let n = chars.len();
            if n >= 2 && chars[0] == '"' && chars[n - 1] == '"' {
                Ok(AttributeValue::QuotedString(string_of(&chars, 1, n - 1)))
            } else {
                Err(DecodeError::UnterminatedQuote)
            }
        },
        ValueKind::EnumeratedToken(words) => {
            if is_word_of(words, raw) {
                Ok(AttributeValue::EnumeratedToken(raw.to_owned()))
            } else {
                Err(DecodeError::UnknownToken { got: raw.to_owned(), expected: copy_words(words) })
            }
        },
        ValueKind::HexSequence => {
            let chars = chars_of(raw);
            let n = chars.len();
            if n >= 2 && chars[0] == '0' && (chars[1] == 'x' || chars[1] == 'X') {
                assert(chars@.subrange(2, n as int) =~= raw@.skip(2));
                match parse_hex_digits(&chars, 2, n) {
                    Some(bytes) => Ok(AttributeValue::HexSequence(bytes)),
                    None => Err(DecodeError::InvalidHex),
                }
            } else {
                Err(DecodeError::InvalidHex)
            }
        },
        ValueKind::Resolution => match DecimalResolution::parse(raw) {
            Ok(v) => Ok(AttributeValue::Resolution(v)),
            Err(e) => Err(e),
        },
        ValueKind::Timestamp => match Timestamp::parse(raw) {
            Ok(t) => Ok(AttributeValue::Timestamp(t)),
            Err(e) => Err(e),
        },
    }
}

/// Appends the text of `value` to `out`.
pub fn write_value(value: &AttributeValue, out: &mut String)
    ensures
        final(out)@ == old(out)@ + spec_encode(value@),
        value@.valid(),
{
    match value {
        AttributeValue::UnsignedInteger(v) => {
            push_unsigned(out, *v);
        },
        AttributeValue::Decimal(d) => {
            proof {
                use_type_invariant(d);
            }
            d.write(out);
        },
        AttributeValue::QuotedString(s) => {
            out.push('"');
            out.append(s.as_str());
            out.push('"');
            assert(final(out)@ =~= old(out)@ + quoted_text(s@));
        },
        AttributeValue::EnumeratedToken(w) => {
            out.append(w.as_str());
        },
        AttributeValue::HexSequence(bytes) => {
            out.push('0');
            out.push('x');
            push_hex_digits(out, bytes);
            assert(final(out)@ =~= old(out)@ + hex_text(bytes@));
        },
        AttributeValue::Resolution(r) => {
            r.write(out);
        },
        AttributeValue::Timestamp(t) => {
            proof {
                use_type_invariant(t);
            }
            t.write(out);
        },
    }
}

/// The text of `value`. Every value has one: encoding never fails.
pub fn encode(value: &AttributeValue) -> (s: String)
    ensures
        s@ == spec_encode(value@),
{
    let mut s = String::new();
    write_value(value, &mut s);
    assert(s@ =~= spec_encode(value@));
    s
}

} // verus!
