//! Tags of HTTP Live Streaming playlists: the attribute-list codec they share,
//! the protocol version each of them requires, and a handful of concrete tags.

pub mod attribute;
pub mod error;
pub mod hex;
pub mod number;
pub mod tags;
pub mod text;
pub mod traits;
pub mod types;
pub mod utils;

pub use error::Error;
pub use traits::RequiredVersion;
