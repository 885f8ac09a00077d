//! Dates and times with an explicit offset from UTC.
//!
//! Reading and writing the text is left to the `chrono` crate. A timestamp is
//! held here as three plain numbers, so that the rest of the crate can reason
//! about it.

use vstd::prelude::*;
use vstd::pervasive::unreached;
use chrono::{DateTime, FixedOffset};
use crate::error::DecodeError;

verus! {

/// The error type of `chrono`'s parsers.
#[verifier::external_type_specification]
#[verifier::external_body]
pub struct ExParseError(chrono::ParseError);

/// What `chrono::DateTime::parse_from_rfc3339` makes of `text`: the seconds
/// since 1970-01-01T00:00:00 UTC, the nanoseconds within that second, and the
/// seconds that local time is ahead of UTC; or nothing where it rejects the
/// text.
pub uninterp spec fn rfc3339_parsed(text: Seq<char>) -> Option<(i64, u32, i32)>;

/// What `chrono::DateTime::to_rfc3339` writes for the instant `seconds` and
/// `nanos` after the epoch, seen at `offset` seconds east of UTC.
pub uninterp spec fn rfc3339_text(seconds: i64, nanos: u32, offset: i32) -> Seq<char>;

/// The first second that a timestamp can hold: a day before the year 0.
pub const MIN_SECONDS: i64 = -62_167_305_600;

/// The last second that a timestamp can hold: a day after the year 9999.
pub const MAX_SECONDS: i64 = 253_402_387_199;

/// The mathematical value of a [`Timestamp`].
pub struct TimestampModel {
    /// Seconds since 1970-01-01T00:00:00 UTC, leap seconds not counted.
    pub seconds: int,
    /// Nanoseconds since the last full second. During a leap second, which
    /// is held as the second before it, a thousand million are added.
    pub nanos: int,
    /// Seconds that local time is ahead of UTC.
    pub offset: int,
}

impl TimestampModel {
    /// The timestamps that can be held: years 0 to 9999 whatever the offset,
    /// nanoseconds below a second unless the second may be a leap second,
    /// and an offset of less than a day.
    pub open spec fn in_range(self) -> bool {
        &&& MIN_SECONDS <= self.seconds <= MAX_SECONDS
        &&& 0 <= self.nanos
        &&& (self.nanos < 1_000_000_000 || (self.nanos < 2_000_000_000 && self.seconds % 60
            == 59))
        &&& -86_400 < self.offset < 86_400
    }

    /// The text of the timestamp.
    pub open spec fn text(self) -> Seq<char> {
        rfc3339_text(self.seconds as i64, self.nanos as u32, self.offset as i32)
    }

    /// Whether reading the text of the timestamp gives the timestamp back.
    /// It should for every timestamp that was read from a text; nothing in
    /// this crate can prove it, since reading and writing are `chrono`'s.
    pub open spec fn reads_back(self) -> bool {
        Self::spec_parse(self.text()) == Some(self)
    }

    /// What `s` denotes as a timestamp.
    pub open spec fn spec_parse(s: Seq<char>) -> Option<TimestampModel> {
        match rfc3339_parsed(s) {
            Some((seconds, nanos, offset)) => {
                let t = TimestampModel {
                    seconds: seconds as int,
                    nanos: nanos as int,
                    offset: offset as int,
                };
                if t.in_range() {
                    Some(t)
                } else {
                    None
                }
            },
            None => None,
        }
    }
}

/// Calls `chrono::DateTime::parse_from_rfc3339` and takes the result apart
/// with `timestamp`, `timestamp_subsec_nanos` and `offset().local_minus_utc`.
/// Trusted: the three numbers are those that `rfc3339_parsed` names, and an
/// error comes exactly where it names none.
#[verifier::external_body]
fn parse_rfc3339(text: &str) -> (r: Result<(i64, u32, i32), chrono::ParseError>)
    ensures
        r matches Ok(parts) ==> rfc3339_parsed(text@) == Some(parts),
        r is Err ==> rfc3339_parsed(text@) is None,
{
    let t = DateTime::parse_from_rfc3339(text)?;
    Ok((t.timestamp(), t.timestamp_subsec_nanos(), t.offset().local_minus_utc()))
}

/// Builds the instant with `chrono::DateTime::from_timestamp`, moves it to
/// the offset made by `chrono::FixedOffset::east_opt`, and calls
/// `chrono::DateTime::to_rfc3339` on it. Trusted: the text is the one that
/// `rfc3339_text` names, and there is one for every timestamp in range, which
/// lies well inside the years that `chrono` can hold.
#[verifier::external_body]
fn format_rfc3339(seconds: i64, nanos: u32, offset: i32) -> (r: Option<String>)
    ensures
        (TimestampModel {
            seconds: seconds as int,
            nanos: nanos as int,
            offset: offset as int,
        }).in_range() ==> r is Some,
        r matches Some(s) ==> s@ == rfc3339_text(seconds, nanos, offset),
{
    let east = FixedOffset::east_opt(offset)?;
    let utc = DateTime::from_timestamp(seconds, nanos)?;
    Some(utc.with_timezone(&east).to_rfc3339())
}

/// An instant and the offset from UTC at which it is written.
#[derive(Debug, Clone, Copy, PartialEq, Eq, Hash)]
pub struct Timestamp {
    seconds: i64,
    nanos: u32,
    offset: i32,
}

impl View for Timestamp {
    type V = TimestampModel;

    closed spec fn view(&self) -> TimestampModel {
        TimestampModel {
            seconds: self.seconds as int,
            nanos: self.nanos as int,
            offset: self.offset as int,
        }
    }
}

impl Timestamp {
    #[verifier::type_invariant]
    pub open spec fn well_formed(self) -> bool {
        self@.in_range()
    }

    /// The timestamp of the given parts, where they are in range.
    pub fn new(seconds: i64, nanos: u32, offset: i32) -> (r: Option<Timestamp>)
        ensures
            ({
                let t = TimestampModel {
                    seconds: seconds as int,
                    nanos: nanos as int,
                    offset: offset as int,
                };
                &&& r is Some == t.in_range()
                &&& r matches Some(v) ==> v@ == t
            }),
    {
        if seconds < MIN_SECONDS || seconds > MAX_SECONDS || offset <= -86_400 || offset
            >= 86_400 {
            return None;
        }
        let since_min: u64 = (seconds - MIN_SECONDS) as u64;
        assert(since_min % 60 == (seconds as int) % 60);
        if nanos < 1_000_000_000 || (nanos < 2_000_000_000 && since_min % 60 == 59) {
            Some(Timestamp { seconds, nanos, offset })
        } else {
            None
        }
    }

    /// Seconds since 1970-01-01T00:00:00 UTC.
    pub fn seconds(&self) -> (r: i64)
        ensures
            r == self@.seconds,
    {
        self.seconds
    }

    /// Nanoseconds since the last full second.
    pub fn nanos(&self) -> (r: u32)
        ensures
            r == self@.nanos,
    {
        self.nanos
    }

    /// Seconds that local time is ahead of UTC.
    pub fn offset(&self) -> (r: i32)
        ensures
            r == self@.offset,
    {
        self.offset
    }

    /// The text of the timestamp, such as `2010-02-19T14:54:23.031+08:00`.
    pub fn to_string(&self) -> (s: String)
        ensures
            s@ == self@.text(),
    {
        proof {
            use_type_invariant(self);
        }
        match format_rfc3339(self.seconds, self.nanos, self.offset) {
            Some(s) => s,
            None => unreached(),
        }
    }

    /// Appends the text of the timestamp to `out`.
    pub fn write(&self, out: &mut String)
        ensures
            final(out)@ == old(out)@ + self@.text(),
    {
        let s = self.to_string();
        out.append(s.as_str());
    }

    /// Reads a date and time with an explicit offset.
    pub fn parse(input: &str) -> (r: Result<Timestamp, DecodeError>)
        ensures
            r matches Ok(t) ==> TimestampModel::spec_parse(input@) == Some(t@),
            r matches Err(e) ==> TimestampModel::spec_parse(input@) is None && e
                == DecodeError::InvalidTimestamp,
    {
        match parse_rfc3339(input) {
            Ok((seconds, nanos, offset)) => match Timestamp::new(seconds, nanos, offset) {
                Some(t) => Ok(t),
                None => Err(DecodeError::InvalidTimestamp),
            },
            Err(_) => Err(DecodeError::InvalidTimestamp),
        }
    }
}

} // verus!
