//! The SRTLA wire protocol: packet types, builders and parsers.

pub mod builders;
pub mod constants;
pub mod lists;
pub mod parsers;
pub mod types;

