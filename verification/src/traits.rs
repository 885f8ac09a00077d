//! What every tag can say of itself.

use vstd::prelude::*;
use crate::types::protocol_version::ProtocolVersion;

verus! {

/// A tag knows the least protocol version that a playlist must declare to
/// hold it.
pub trait RequiredVersion {
    /// The least protocol version that the tag is valid in.
    spec fn spec_required_version(&self) -> ProtocolVersion;

    /// The least protocol version that the tag is valid in.
    fn required_version(&self) -> (v: ProtocolVersion)
        ensures
            v == self.spec_required_version(),
    ;
}

} // verus!
