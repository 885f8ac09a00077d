//! The failures that decoding can end in.
//!
//! Every failure is a value: nothing in this crate panics on malformed text.

use vstd::prelude::*;

verus! {

/// Why an attribute list could not be split into `NAME=VALUE` pairs.
#[derive(Debug, Clone, Copy, PartialEq, Eq, Structural)]
pub enum TokenizeError {
    /// A pair holds no `=` outside quotes.
    MissingEquals,
    /// A name is empty or holds a character outside `A`-`Z`, `0`-`9`, `-`.
    EmptyName,
    /// A value opens a quote that the input never closes.
    UnterminatedQuote,
}

/// Why a raw value is not of the kind that its field declares.
#[derive(Debug, Clone, PartialEq, Eq)]
pub enum DecodeError {
    /// Not a run of digits that fits in 64 bits.
    InvalidInteger,
    /// Not a decimal number, or one with more digits than can be held.
    InvalidDecimal,
    /// Not text between two double quotes.
    UnterminatedQuote,
    /// Not `0x` followed by pairs of hexadecimal digits.
    InvalidHex,
    /// Not two unsigned integers around a single `x`.
    InvalidResolution,
    /// Not a date and time with an explicit offset.
    InvalidTimestamp,
    /// Not a word of the field's vocabulary.
    UnknownToken { got: String, expected: Vec<String> },
}

/// The mathematical value of a [`DecodeError`].
pub enum DecodeErrorModel {
    InvalidInteger,
    InvalidDecimal,
    UnterminatedQuote,
    InvalidHex,
    InvalidResolution,
    InvalidTimestamp,
    UnknownToken { got: Seq<char>, expected: Seq<Seq<char>> },
}

impl View for DecodeError {
    type V = DecodeErrorModel;

    open spec fn view(&self) -> DecodeErrorModel {
        match self {
            DecodeError::InvalidInteger => DecodeErrorModel::InvalidInteger,
            DecodeError::InvalidDecimal => DecodeErrorModel::InvalidDecimal,
            DecodeError::UnterminatedQuote => DecodeErrorModel::UnterminatedQuote,
            DecodeError::InvalidHex => DecodeErrorModel::InvalidHex,
            DecodeError::InvalidResolution => DecodeErrorModel::InvalidResolution,
            DecodeError::InvalidTimestamp => DecodeErrorModel::InvalidTimestamp,
            DecodeError::UnknownToken { got, expected } => DecodeErrorModel::UnknownToken {
                got: got@,
                expected: expected.deep_view(),
            },
        }
    }
}

/// Why a raw attribute list does not make a tag of a given schema.
#[derive(Debug, Clone, PartialEq, Eq)]
pub enum ProjectionError {
    /// The schema requires the field `name` and the list has no such attribute.
    MissingRequiredField { name: String },
    /// The attribute `name` is there, and its value is not of the field's kind.
    FieldDecodeError { name: String, cause: DecodeError },
}

/// The mathematical value of a [`ProjectionError`].
pub enum ProjectionErrorModel {
    MissingRequiredField { name: Seq<char> },
    FieldDecodeError { name: Seq<char>, cause: DecodeErrorModel },
}

impl View for ProjectionError {
    type V = ProjectionErrorModel;

    open spec fn view(&self) -> ProjectionErrorModel {
        match self {
            ProjectionError::MissingRequiredField { name } => {
                ProjectionErrorModel::MissingRequiredField { name: name@ }
            },
            ProjectionError::FieldDecodeError { name, cause } => {
                ProjectionErrorModel::FieldDecodeError { name: name@, cause: cause@ }
            },
        }
    }
}

/// Why a playlist line is not the tag it was read as.
#[derive(Debug, Clone, PartialEq, Eq)]
pub enum Error {
    /// The line does not begin with the tag's prefix.
    MissingTag,
    /// The attribute list after the prefix is malformed.
    Tokenize(TokenizeError),
    /// The attribute list does not fit the tag's schema.
    Projection(ProjectionError),
    /// The single value after the prefix is malformed.
    Decode(DecodeError),
}

/// The mathematical value of an [`Error`].
pub enum ErrorModel {
    MissingTag,
    Tokenize(TokenizeError),
    Projection(ProjectionErrorModel),
    Decode(DecodeErrorModel),
}

impl View for Error {
    type V = ErrorModel;

    open spec fn view(&self) -> ErrorModel {
        match self {
            Error::MissingTag => ErrorModel::MissingTag,
            Error::Tokenize(e) => ErrorModel::Tokenize(*e),
            Error::Projection(e) => ErrorModel::Projection(e@),
            Error::Decode(e) => ErrorModel::Decode(e@),
        }
    }
}

/// Why a builder cannot make its tag.
#[derive(Debug, Clone, Copy, PartialEq, Eq)]
pub enum BuilderError {
    /// The field of this name has no default, and no value was given for it.
    UninitializedField(&'static str),
}

} // verus!
