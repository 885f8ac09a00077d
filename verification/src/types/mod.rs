//! The value types that attributes and tags are made of.

pub mod decimal;
pub mod decimal_resolution;
pub mod protocol_version;
pub mod timestamp;

pub use decimal::Decimal;
pub use decimal_resolution::DecimalResolution;
pub use protocol_version::ProtocolVersion;
pub use timestamp::Timestamp;
