//! Any one of the tags, told apart by the prefix of its line.

use vstd::prelude::*;
use crate::attribute::tag::{spec_parse_tag, TagModel};
use crate::error::{Error, ErrorModel};
use crate::tags::media_playlist::discontinuity_sequence::ExtXDiscontinuitySequence;
use crate::tags::media_playlist::prefetch::ExtXPrefetch;
use crate::tags::media_playlist::server_control::ExtXServerControl;
use crate::tags::media_playlist::skip::ExtXSkip;
use crate::tags::media_segment::program_date_time::ExtXProgramDateTime;
use crate::text::{chars_of, spec_starts_with, starts_with};
use crate::traits::RequiredVersion;
use crate::types::protocol_version::ProtocolVersion;
use crate::types::timestamp::TimestampModel;

verus! {

/// One tag of any of the kinds that this crate knows.
#[derive(Debug, PartialEq, Eq)]
pub enum AnyTag<'a> {
    DiscontinuitySequence(ExtXDiscontinuitySequence),
    Prefetch(ExtXPrefetch<'a>),
    ProgramDateTime(ExtXProgramDateTime),
    ServerControl(ExtXServerControl),
    Skip(ExtXSkip),
}

/// Which kind of tag a line is, by its prefix.
#[derive(Debug, Clone, Copy, PartialEq, Eq, Structural, Hash)]
pub enum TagKind {
    DiscontinuitySequence,
    Prefetch,
    ProgramDateTime,
    ServerControl,
    Skip,
}

impl TagKind {
    /// The text that every line of a tag of this kind begins with.
    pub open spec fn prefix(self) -> Seq<char> {
        match self {
            TagKind::DiscontinuitySequence => ExtXDiscontinuitySequence::PREFIX@,
            TagKind::Prefetch => ExtXPrefetch::PREFIX@,
            TagKind::ProgramDateTime => ExtXProgramDateTime::PREFIX@,
            TagKind::ServerControl => ExtXServerControl::PREFIX@,
            TagKind::Skip => ExtXSkip::PREFIX@,
        }
    }

    /// No line begins with the prefixes of two kinds.
    pub proof fn lemma_one_kind_at_most(line: Seq<char>, a: TagKind, b: TagKind)
        requires
            spec_starts_with(line, a.prefix()),
            spec_starts_with(line, b.prefix()),
        ensures
            a == b,
    {
        reveal_strlit("#EXT-X-DISCONTINUITY-SEQUENCE:");
        reveal_strlit("#EXT-X-PREFETCH:");
        reveal_strlit("#EXT-X-PROGRAM-DATE-TIME:");
        reveal_strlit("#EXT-X-SERVER-CONTROL:");
        reveal_strlit("#EXT-X-SKIP:");
        let p = a.prefix();
        let q = b.prefix();
        assert(forall|i: int| 0 <= i < p.len() ==> line.take(p.len() as int)[i] == line[i]);
        assert(forall|i: int| 0 <= i < q.len() ==> line.take(q.len() as int)[i] == line[i]);
        assert(p[7] == line[7] && q[7] == line[7]);
        assert(p[8] == line[8] && q[8] == line[8]);
        assert(p[9] == line[9] && q[9] == line[9]);
    }
}

impl<'a> AnyTag<'a> {
    /// The kind of the tag.
    pub open spec fn kind(self) -> TagKind {
        match self {
            AnyTag::DiscontinuitySequence(_) => TagKind::DiscontinuitySequence,
            AnyTag::Prefetch(_) => TagKind::Prefetch,
            AnyTag::ProgramDateTime(_) => TagKind::ProgramDateTime,
            AnyTag::ServerControl(_) => TagKind::ServerControl,
            AnyTag::Skip(_) => TagKind::Skip,
        }
    }

    /// The line of the tag.
    pub open spec fn spec_text(self) -> Seq<char> {
        match self {
            AnyTag::DiscontinuitySequence(t) => t.spec_text(),
            AnyTag::Prefetch(t) => t.spec_text(),
            AnyTag::ProgramDateTime(t) => t.spec_text(),
            AnyTag::ServerControl(t) => t.model().text(),
            AnyTag::Skip(t) => t.model().text(),
        }
    }

    /// Whether `self` is what reading `line` as a tag of its own kind gives.
    pub open spec fn read_from(self, line: Seq<char>) -> bool {
        match self {
            AnyTag::DiscontinuitySequence(t) => ExtXDiscontinuitySequence::spec_parse(line) == Ok::<
                ExtXDiscontinuitySequence,
                ErrorModel,
            >(t),
            AnyTag::Prefetch(t) => ExtXPrefetch::spec_parse(line) == Ok::<Seq<char>, ErrorModel>(
                t.uri@,
            ),
            AnyTag::ProgramDateTime(t) => ExtXProgramDateTime::spec_parse(line) == Ok::<
                TimestampModel,
                ErrorModel,
            >(t.0@),
            AnyTag::ServerControl(t) => spec_parse_tag(ExtXServerControl::spec_schema(), line)
                == Ok::<TagModel, ErrorModel>(t.model()),
            AnyTag::Skip(t) => ExtXSkip::spec_parse(line) == Ok::<ExtXSkip, ErrorModel>(t),
        }
    }

    /// Whether reading `line` as a tag of kind `kind` fails with `e`.
    pub open spec fn fails_with(kind: TagKind, line: Seq<char>, e: ErrorModel) -> bool {
        match kind {
            TagKind::DiscontinuitySequence => ExtXDiscontinuitySequence::spec_parse(line) == Err::<
                ExtXDiscontinuitySequence,
                ErrorModel,
            >(e),
            TagKind::Prefetch => ExtXPrefetch::spec_parse(line) == Err::<Seq<char>, ErrorModel>(e),
            TagKind::ProgramDateTime => ExtXProgramDateTime::spec_parse(line) == Err::<
                TimestampModel,
                ErrorModel,
            >(e),
            TagKind::ServerControl => spec_parse_tag(ExtXServerControl::spec_schema(), line)
                == Err::<TagModel, ErrorModel>(e),
            TagKind::Skip => ExtXSkip::spec_parse(line) == Err::<ExtXSkip, ErrorModel>(e),
        }
    }

    /// The kind of tag that `line` is, if its prefix is that of any.
    pub fn kind_of(line: &str) -> (r: Option<TagKind>)
        ensures
            r matches Some(kind) ==> spec_starts_with(line@, kind.prefix()),
            r is None ==> forall|kind: TagKind| !spec_starts_with(line@, #[trigger] kind.prefix()),
    {
        let chars = chars_of(line);
        if starts_with(&chars, &chars_of(ExtXDiscontinuitySequence::PREFIX)) {
            Some(TagKind::DiscontinuitySequence)
        } else if starts_with(&chars, &chars_of(ExtXPrefetch::PREFIX)) {
            Some(TagKind::Prefetch)
        } else if starts_with(&chars, &chars_of(ExtXProgramDateTime::PREFIX)) {
            Some(TagKind::ProgramDateTime)
        } else if starts_with(&chars, &chars_of(ExtXServerControl::PREFIX)) {
            Some(TagKind::ServerControl)
        } else if starts_with(&chars, &chars_of(ExtXSkip::PREFIX)) {
            Some(TagKind::Skip)
        } else {
            assert forall|kind: TagKind| !spec_starts_with(line@, #[trigger] kind.prefix()) by {
                match kind {
                    TagKind::DiscontinuitySequence => {},
                    TagKind::Prefetch => {},
                    TagKind::ProgramDateTime => {},
                    TagKind::ServerControl => {},
                    TagKind::Skip => {},
                }
            }
            None
        }
    }

    /// Reads the tag that `line` holds.
    ///
    /// The prefix of the line decides of which kind the tag is, and the line
    /// is then read as a tag of that kind. A line with the prefix of no kind
    /// fails with `MissingTag`.
    pub fn parse(line: &'a str) -> (r: Result<AnyTag<'a>, Error>)
        ensures
            r matches Ok(tag) ==> spec_starts_with(line@, tag.kind().prefix()) && tag.read_from(
                line@,
            ),
            r matches Err(e) ==> (e == Error::MissingTag && forall|kind: TagKind|
                !spec_starts_with(line@, #[trigger] kind.prefix())) || exists|kind: TagKind|
                spec_starts_with(line@, #[trigger] kind.prefix()) && Self::fails_with(
                    kind,
                    line@,
                    e@,
                ),
    {
        match Self::kind_of(line) {
            None => Err(Error::MissingTag),
            Some(TagKind::DiscontinuitySequence) => match ExtXDiscontinuitySequence::parse(line) {
                Ok(t) => Ok(AnyTag::DiscontinuitySequence(t)),
                Err(e) => {
                    assert(Self::fails_with(TagKind::DiscontinuitySequence, line@, e@));
                    Err(e)
                },
            },
            Some(TagKind::Prefetch) => match ExtXPrefetch::parse(line) {
                Ok(t) => Ok(AnyTag::Prefetch(t)),
                Err(e) => {
                    assert(Self::fails_with(TagKind::Prefetch, line@, e@));
                    Err(e)
                },
            },
            Some(TagKind::ProgramDateTime) => match ExtXProgramDateTime::parse(line) {
                Ok(t) => Ok(AnyTag::ProgramDateTime(t)),
                Err(e) => {
                    assert(Self::fails_with(TagKind::ProgramDateTime, line@, e@));
                    Err(e)
                },
            },
            Some(TagKind::ServerControl) => match ExtXServerControl::parse(line) {
                Ok(t) => Ok(AnyTag::ServerControl(t)),
                Err(e) => {
                    assert(Self::fails_with(TagKind::ServerControl, line@, e@));
                    Err(e)
                },
            },
            Some(TagKind::Skip) => match ExtXSkip::parse(line) {
                Ok(t) => Ok(AnyTag::Skip(t)),
                Err(e) => {
                    assert(Self::fails_with(TagKind::Skip, line@, e@));
                    Err(e)
                },
            },
        }
    }

    /// The line of the tag.
    pub fn to_string(&self) -> (s: String)
        ensures
            s@ == self.spec_text(),
    {
        match self {
            AnyTag::DiscontinuitySequence(t) => t.to_string(),
            AnyTag::Prefetch(t) => t.to_string(),
            AnyTag::ProgramDateTime(t) => t.to_string(),
            AnyTag::ServerControl(t) => t.to_string(),
            AnyTag::Skip(t) => t.to_string(),
        }
    }
}

impl<'a> RequiredVersion for AnyTag<'a> {
    open spec fn spec_required_version(&self) -> ProtocolVersion {
        match self {
            AnyTag::DiscontinuitySequence(_) => ProtocolVersion::V1,
            AnyTag::Prefetch(_) => ProtocolVersion::V1,
            AnyTag::ProgramDateTime(_) => ProtocolVersion::V1,
            AnyTag::ServerControl(_) => ProtocolVersion::V8,
            AnyTag::Skip(_) => ProtocolVersion::V8,
        }
    }

    fn required_version(&self) -> (v: ProtocolVersion) {
        match self {
            AnyTag::DiscontinuitySequence(t) => t.requires_version(),
            AnyTag::Prefetch(t) => t.required_version(),
            AnyTag::ProgramDateTime(t) => t.requires_version(),
            AnyTag::ServerControl(t) => t.required_version(),
            AnyTag::Skip(t) => t.required_version(),
        }
    }
}

} // verus!
