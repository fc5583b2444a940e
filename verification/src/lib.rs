//! A library for generating and inspecting UUIDs per RFC 4122.
//!
//! The codec half parses the four textual encodings (simple, hyphenated,
//! URN, Microsoft braces) into a 128-bit value and serializes such a value
//! back into any of them; the generator half produces nil, time-based (v1)
//! and random (v4) values.

pub mod codec;
pub mod error;
pub mod generate;
pub mod laws;
pub mod value;

pub use codec::format_uuid;
pub use codec::parse_uuid;
pub use codec::Format;
pub use error::Error;
pub use generate::check_requested_version;
pub use generate::counter_or_random;
pub use generate::generation_kind;
pub use generate::ticks_from_timestamp;
pub use generate::GenKind;
pub use value::Uuid;
pub use value::Variant;
pub use value::Version;
pub use value::VersionMode;
