//! `#EXT-X-PROGRAM-DATE-TIME`.

use vstd::prelude::*;
use crate::error::{DecodeErrorModel, Error, ErrorModel};
use crate::types::protocol_version::ProtocolVersion;
use crate::types::timestamp::{Timestamp, TimestampModel};
use crate::utils::{spec_tag, tag};

verus! {

/// The date and time of the first sample of the media segment that follows.
/// The tag has no attribute list: a single timestamp follows its prefix.
#[derive(Debug, Copy, Clone, PartialEq, Eq, Hash)]
pub struct ExtXProgramDateTime(pub Timestamp);

impl ExtXProgramDateTime {
    pub const PREFIX: &'static str = "#EXT-X-PROGRAM-DATE-TIME:";

    /// The line of the tag: the prefix, then the text of the timestamp.
    pub open spec fn spec_text(self) -> Seq<char> {
        Self::PREFIX@ + self.0@.text()
    }

    /// The timestamp of the tag that the line `input` holds, or why it holds
    /// none.
    pub open spec fn spec_parse(input: Seq<char>) -> Result<TimestampModel, ErrorModel> {
        match spec_tag(input, Self::PREFIX@) {
            None => Err(ErrorModel::MissingTag),
            Some(rest) => match TimestampModel::spec_parse(rest) {
                Some(t) => Ok(t),
                None => Err(ErrorModel::Decode(DecodeErrorModel::InvalidTimestamp)),
            },
        }
    }

    /// Reading the line of a tag gives its timestamp back, where reading the
    /// text of the timestamp does.
    pub proof fn lemma_parse_text(self)
        requires
            self.0@.reads_back(),
        ensures
            Self::spec_parse(self.spec_text()) == Ok::<TimestampModel, ErrorModel>(self.0@),
    {
        let prefix = Self::PREFIX@;
        let line = self.spec_text();
        assert(line.take(prefix.len() as int) =~= prefix);
        assert(line.skip(prefix.len() as int) =~= self.0@.text());
    }

    /// Makes a new `ExtXProgramDateTime` tag.
    pub fn new(date_time: Timestamp) -> (r: Self)
        ensures
            r.0 == date_time,
    {
        ExtXProgramDateTime(date_time)
    }

    /// Returns the date-time of the first sample of the associated media
    /// segment.
    pub fn date_time(&self) -> (r: &Timestamp)
        ensures
            *r == self.0,
    {
        &self.0
    }

    /// Returns the protocol compatibility version that this tag requires.
    pub fn requires_version(&self) -> (r: ProtocolVersion)
        ensures
            r == ProtocolVersion::V1,
    {
        ProtocolVersion::V1
    }

    /// The line of the tag.
    pub fn to_string(&self) -> (s: String)
        ensures
            s@ == self.spec_text(),
    {
        let mut s = Self::PREFIX.to_owned();
        self.0.write(&mut s);
        s
    }

    /// Reads the tag from a line.
    pub fn parse(input: &str) -> (r: Result<Self, Error>)
        ensures
            r matches Ok(v) ==> Self::spec_parse(input@) == Ok::<TimestampModel, ErrorModel>(v.0@),
            r matches Err(e) ==> Self::spec_parse(input@) == Err::<TimestampModel, ErrorModel>(
                e@,
            ),
    {
        let rest = match tag(input, Self::PREFIX) {
            Ok(rest) => rest,
            Err(e) => {
                return Err(e);
            },
        };
        match Timestamp::parse(rest) {
            Ok(t) => Ok(ExtXProgramDateTime(t)),
            Err(e) => Err(Error::Decode(e)),
        }
    }
}

} // verus!
