//! Protocol compatibility versions.

use vstd::prelude::*;

verus! {

/// The protocol version that a playlist has to declare before it may hold a
/// given tag or attribute. The versions are totally ordered, `V1` lowest.
#[derive(Debug, Clone, Copy, PartialEq, Eq, Structural, PartialOrd, Ord, Hash)]
pub enum ProtocolVersion {
    V1,
    V2,
    V3,
    V4,
    V5,
    V6,
    V7,
    V8,
}

impl ProtocolVersion {
    /// The version's number, from 1 for `V1` to 8 for `V8`. The order of the
    /// versions is the order of their numbers.
    pub open spec fn rank(self) -> nat {
        match self {
            ProtocolVersion::V1 => 1,
            ProtocolVersion::V2 => 2,
            ProtocolVersion::V3 => 3,
            ProtocolVersion::V4 => 4,
            ProtocolVersion::V5 => 5,
            ProtocolVersion::V6 => 6,
            ProtocolVersion::V7 => 7,
            ProtocolVersion::V8 => 8,
        }
    }

    /// The later of two versions.
    pub open spec fn spec_later(self, other: ProtocolVersion) -> ProtocolVersion {
        if self.rank() >= other.rank() {
            self
        } else {
            other
        }
    }

    /// The latest of `versions`, and `V1` where there are none.
    pub open spec fn spec_latest(versions: Seq<ProtocolVersion>) -> ProtocolVersion
        decreases versions.len(),
    {
        if versions.len() == 0 {
            ProtocolVersion::V1
        } else {
            Self::spec_latest(versions.drop_last()).spec_later(versions.last())
        }
    }

    /// The version's number.
    pub fn number(self) -> (n: u8)
        ensures
            n == self.rank(),
    {
        match self {
            ProtocolVersion::V1 => 1,
            ProtocolVersion::V2 => 2,
            ProtocolVersion::V3 => 3,
            ProtocolVersion::V4 => 4,
            ProtocolVersion::V5 => 5,
            ProtocolVersion::V6 => 6,
            ProtocolVersion::V7 => 7,
            ProtocolVersion::V8 => 8,
        }
    }

    /// The later of two versions.
    pub fn later(self, other: ProtocolVersion) -> (r: ProtocolVersion)
        ensures
            r == self.spec_later(other),
    {
        if self.number() >= other.number() {
            self
        } else {
            other
        }
    }

    /// Whether a playlist that declares this version may hold what requires
    /// `required`.
    pub fn covers(self, required: ProtocolVersion) -> (r: bool)
        ensures
            r == (self.rank() >= required.rank()),
    {
        self.number() >= required.number()
    }

    /// The version that a playlist requires whose tags require `versions`:
    /// the latest of them, and `V1` for a playlist without tags.
    pub fn latest(versions: &Vec<ProtocolVersion>) -> (r: ProtocolVersion)
        ensures
            r == Self::spec_latest(versions@),
    {
        let mut r = ProtocolVersion::V1;
        let mut i: usize = 0;
        while i < versions.len()
            invariant
                i <= versions.len(),
                r == Self::spec_latest(versions@.take(i as int)),
            decreases versions.len() - i,
        {
            assert(versions@.take(i + 1).drop_last() == versions@.take(i as int));
            r = r.later(versions[i]);
            i += 1;
        }
        assert(versions@.take(versions.len() as int) == versions@);
        r
    }

    /// The latest of a list is at least `V1`, at least each of its members,
    /// and is `V1` or one of them.
    pub proof fn lemma_latest_bounds(versions: Seq<ProtocolVersion>)
        ensures
            forall|i: int|
                0 <= i < versions.len() ==> (#[trigger] versions[i]).rank() <= Self::spec_latest(
                    versions,
                ).rank(),
            Self::spec_latest(versions) == ProtocolVersion::V1 || versions.contains(
                Self::spec_latest(versions),
            ),
        decreases versions.len(),
    {
        if versions.len() > 0 {
            let init = versions.drop_last();
            Self::lemma_latest_bounds(init);
            assert forall|i: int| 0 <= i < versions.len() implies (#[trigger] versions[i]).rank()
                <= Self::spec_latest(versions).rank() by {
                if i < init.len() {
                    assert(init[i] == versions[i]);
                }
            }
            if Self::spec_latest(versions) != ProtocolVersion::V1 {
                if Self::spec_latest(versions) == versions.last() {
                    assert(versions[versions.len() - 1] == versions.last());
                } else {
                    let j = choose|j: int| 0 <= j < init.len() && init[j] == Self::spec_latest(init);
                    assert(versions[j] == init[j]);
                }
            }
        }
    }
}

impl Default for ProtocolVersion {
    fn default() -> (r: ProtocolVersion)
        ensures
            r == ProtocolVersion::V1,
    {
        ProtocolVersion::V1
    }
}

} // verus!
