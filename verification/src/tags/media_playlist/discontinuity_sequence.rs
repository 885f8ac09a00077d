//! `#EXT-X-DISCONTINUITY-SEQUENCE`.

use vstd::prelude::*;
use crate::error::{DecodeError, DecodeErrorModel, Error, ErrorModel};
use crate::number::{
    lemma_parse_unsigned_of_digits, nat_digits, parse_unsigned, push_unsigned,
    spec_parse_unsigned,
};
use crate::text::chars_of;
use crate::types::protocol_version::ProtocolVersion;
use crate::utils::{spec_tag, tag};

verus! {

/// The discontinuity sequence number of the first media segment of a
/// playlist. The tag has no attribute list: a single unsigned integer follows
/// its prefix.
#[derive(Debug, Clone, Copy, PartialEq, Eq, Structural, Hash)]
pub struct ExtXDiscontinuitySequence {
    pub seq_num: u64,
}

impl ExtXDiscontinuitySequence {
    pub const PREFIX: &'static str = "#EXT-X-DISCONTINUITY-SEQUENCE:";

    /// The line of the tag: the prefix, then the number in decimal digits.
    pub open spec fn spec_text(self) -> Seq<char> {
        Self::PREFIX@ + nat_digits(self.seq_num as nat)
    }

    /// The tag that the line `input` holds, or why it holds none.
    pub open spec fn spec_parse(input: Seq<char>) -> Result<ExtXDiscontinuitySequence, ErrorModel> {
        match spec_tag(input, Self::PREFIX@) {
            None => Err(ErrorModel::MissingTag),
            Some(rest) => match spec_parse_unsigned(rest) {
                Some(seq_num) => Ok(ExtXDiscontinuitySequence { seq_num }),
                None => Err(ErrorModel::Decode(DecodeErrorModel::InvalidInteger)),
            },
        }
    }

    /// Reading the line of a tag gives the tag back.
    pub proof fn lemma_parse_text(self)
        ensures
            Self::spec_parse(self.spec_text()) == Ok::<ExtXDiscontinuitySequence, ErrorModel>(
                self,
            ),
    {
        let prefix = Self::PREFIX@;
        let line = self.spec_text();
        assert(line.take(prefix.len() as int) =~= prefix);
        assert(line.skip(prefix.len() as int) =~= nat_digits(self.seq_num as nat));
        lemma_parse_unsigned_of_digits(self.seq_num);
    }

    /// Makes a new `ExtXDiscontinuitySequence` tag.
    pub fn new(seq_num: u64) -> (r: Self)
        ensures
            r == (ExtXDiscontinuitySequence { seq_num }),
    {
        ExtXDiscontinuitySequence { seq_num }
    }

    /// Returns the discontinuity sequence number of
    /// the first media segment that appears in the associated playlist.
    pub fn seq_num(self) -> (r: u64)
        ensures
            r == self.seq_num,
    {
        self.seq_num
    }

    /// Returns the protocol compatibility version that this tag requires.
    pub fn requires_version(self) -> (r: ProtocolVersion)
        ensures
            r == ProtocolVersion::V1,
    {
        ProtocolVersion::V1
    }

    /// The line of the tag. It reads back as the tag.
    pub fn to_string(&self) -> (s: String)
        ensures
            s@ == self.spec_text(),
            Self::spec_parse(s@) == Ok::<ExtXDiscontinuitySequence, ErrorModel>(*self),
    {
        proof {
            self.lemma_parse_text();
        }
        let mut s = Self::PREFIX.to_owned();
        push_unsigned(&mut s, self.seq_num);
        s
    }

    /// Reads the tag from a line.
    pub fn parse(input: &str) -> (r: Result<Self, Error>)
        ensures
            r matches Ok(v) ==> Self::spec_parse(input@) == Ok::<Self, ErrorModel>(v),
            r matches Err(e) ==> Self::spec_parse(input@) == Err::<Self, ErrorModel>(e@),
    {
        let rest = match tag(input, Self::PREFIX) {
            Ok(rest) => rest,
            Err(e) => {
                return Err(e);
            },
        };
        let chars = chars_of(rest);
        assert(chars@.subrange(0, chars.len() as int) =~= rest@);
        match parse_unsigned(&chars, 0, chars.len()) {
            Some(seq_num) => Ok(ExtXDiscontinuitySequence { seq_num }),
            None => Err(Error::Decode(DecodeError::InvalidInteger)),
        }
    }
}

} // verus!
