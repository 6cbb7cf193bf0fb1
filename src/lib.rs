//! A validated offset from UTC: construction, display, a `%z` format and
//! parser, and the decisions behind finding the host's local offset.

pub mod offset;
pub mod resolver;
pub mod text;

pub use offset::{Component, ComponentRangeError, Duration, UtcOffset};
pub use resolver::{IndeterminateOffsetError, LocalTimeReport};
pub use text::{OffsetFormat, ParseError, ParsedItems};
