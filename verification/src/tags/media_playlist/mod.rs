//! Tags that apply to a whole media playlist.

pub mod discontinuity_sequence;
pub mod prefetch;
pub mod server_control;
pub mod skip;
