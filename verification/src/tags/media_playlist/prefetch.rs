//! `#EXT-X-PREFETCH`.

use vstd::prelude::*;
use std::borrow::Cow;
use crate::error::{Error, ErrorModel};
use crate::traits::RequiredVersion;
use crate::types::protocol_version::ProtocolVersion;
use crate::utils::{spec_tag, tag};

verus! {

/// Specifies the path to a prefetch segment.
///
/// The path is either borrowed from the line that the tag was read from, or
/// owned by the tag: see [`ExtXPrefetch::into_owned`].
#[derive(Debug, PartialEq, Eq, Hash, PartialOrd, Ord)]
pub struct ExtXPrefetch<'a> {
    pub uri: Cow<'a, str>,
}

impl<'a> ExtXPrefetch<'a> {
    pub const PREFIX: &'static str = "#EXT-X-PREFETCH:";

    /// The line of the tag: the prefix, then the path as it is.
    pub open spec fn spec_text(self) -> Seq<char> {
        Self::PREFIX@ + self.uri@
    }

    /// The path of the tag that the line `input` holds, or why it holds none.
    pub open spec fn spec_parse(input: Seq<char>) -> Result<Seq<char>, ErrorModel> {
        match spec_tag(input, Self::PREFIX@) {
            None => Err(ErrorModel::MissingTag),
            Some(rest) => Ok(rest),
        }
    }

    /// Reading the line of a tag gives its path back.
    pub proof fn lemma_parse_text(self)
        ensures
            Self::spec_parse(self.spec_text()) == Ok::<Seq<char>, ErrorModel>(self.uri@),
    {
        let prefix = Self::PREFIX@;
        let line = self.spec_text();
        assert(line.take(prefix.len() as int) =~= prefix);
        assert(line.skip(prefix.len() as int) =~= self.uri@);
    }

    /// Makes a new [`ExtXPrefetch`] tag.
    #[must_use]
    pub fn new(uri: &'a str) -> (r: Self)
        ensures
            r.uri@ == uri@,
    {
        ExtXPrefetch { uri: Cow::Borrowed(uri) }
    }

    /// Makes the struct independent of its lifetime, by taking ownership of
    /// the path.
    #[must_use]
    pub fn into_owned(self) -> (r: ExtXPrefetch<'static>)
        ensures
            r.uri@ == self.uri@,
            r.uri is Owned,
    {
        match self.uri {
            Cow::Borrowed(b) => ExtXPrefetch { uri: Cow::Owned(b.to_owned()) },
            Cow::Owned(o) => ExtXPrefetch { uri: Cow::Owned(o) },
        }
    }

    /// The path to the prefetch segment.
    #[must_use]
    pub fn uri(&self) -> (r: &str)
        ensures
            r@ == self.uri@,
    {
        match &self.uri {
            Cow::Borrowed(b) => b,
            Cow::Owned(o) => o.as_str(),
        }
    }

    /// Sets the path to the prefetch segment.
    pub fn set_uri(&mut self, uri: &'a str) -> (ret: &mut Self)
        ensures
            ret.uri@ == uri@,
            *final(self) == *final(ret),
    {
        self.uri = Cow::Borrowed(uri);
        self
    }

    /// The line of the tag. It reads back as a tag with the same path.
    pub fn to_string(&self) -> (s: String)
        ensures
            s@ == self.spec_text(),
            Self::spec_parse(s@) == Ok::<Seq<char>, ErrorModel>(self.uri@),
    {
        proof {
            self.lemma_parse_text();
        }
        let mut s = Self::PREFIX.to_owned();
        s.append(self.uri());
        s
    }

    /// Reads the tag from a line. The path is borrowed from the line.
    pub fn parse(input: &'a str) -> (r: Result<Self, Error>)
        ensures
            r matches Ok(v) ==> Self::spec_parse(input@) == Ok::<Seq<char>, ErrorModel>(v.uri@),
            r matches Err(e) ==> Self::spec_parse(input@) == Err::<Seq<char>, ErrorModel>(e@),
    {
        match tag(input, Self::PREFIX) {
            Ok(rest) => Ok(ExtXPrefetch { uri: Cow::Borrowed(rest) }),
            Err(e) => Err(e),
        }
    }
}

impl<'a> Clone for ExtXPrefetch<'a> {
    /// A tag with the same path, borrowed where this one borrows it.
    fn clone(&self) -> (r: Self)
        ensures
            r.uri@ == self.uri@,
    {
        match &self.uri {
            Cow::Borrowed(b) => ExtXPrefetch { uri: Cow::Borrowed(*b) },
            Cow::Owned(o) => ExtXPrefetch { uri: Cow::Owned(o.clone()) },
        }
    }
}

/// This tag requires [`ProtocolVersion::V1`].
impl<'a> RequiredVersion for ExtXPrefetch<'a> {
    open spec fn spec_required_version(&self) -> ProtocolVersion {
        ProtocolVersion::V1
    }

    fn required_version(&self) -> (v: ProtocolVersion) {
        ProtocolVersion::V1
    }
}

} // verus!
