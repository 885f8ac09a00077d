//! The tags themselves.

pub mod any_tag;
pub mod media_playlist;
pub mod media_segment;

pub use any_tag::AnyTag;
pub use media_playlist::discontinuity_sequence::ExtXDiscontinuitySequence;
pub use media_playlist::prefetch::ExtXPrefetch;
pub use media_playlist::server_control::{ExtXServerControl, ExtXServerControlBuilder};
pub use media_playlist::skip::{ExtXSkip, ExtXSkipBuilder};
pub use media_segment::program_date_time::ExtXProgramDateTime;
