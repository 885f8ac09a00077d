//! Helpers shared by the tags.

use vstd::prelude::*;
use crate::error::Error;
use crate::text::{chars_of, spec_starts_with, starts_with};

verus! {

/// What follows `prefix` in `input`, where `input` begins with it.
pub open spec fn spec_tag(input: Seq<char>, prefix: Seq<char>) -> Option<Seq<char>> {
    if spec_starts_with(input, prefix) {
        Some(input.skip(prefix.len() as int))
    } else {
        None
    }
}

/// Takes the prefix of a tag off a line.
///
/// The line must begin with `prefix`, character for character; what follows
/// is returned as it stands. Any other line fails with `MissingTag`.
pub fn tag<'a>(input: &'a str, prefix: &str) -> (r: Result<&'a str, Error>)
    ensures
        r matches Ok(rest) ==> spec_tag(input@, prefix@) == Some(rest@),
        r matches Err(e) ==> spec_tag(input@, prefix@) is None && e == Error::MissingTag,
{
    let chars = chars_of(input);
    let head = chars_of(prefix);
    if starts_with(&chars, &head) {
        let rest = input.substring_char(head.len(), chars.len());
        assert(rest@ =~= input@.skip(prefix@.len() as int));
        Ok(rest)
    } else {
        Err(Error::MissingTag)
    }
}

} // verus!
