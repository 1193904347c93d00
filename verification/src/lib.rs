//! A small, fully specified (de)serialization pipeline for a "stream offer"
//! record: one decodable wire format (a compact self-describing hierarchical
//! text), two additional encode-only formats (an indented human-oriented one
//! and a flat table-of-tables one), a human-readable duration grammar, and a
//! reversible per-field codec for date strings.

pub mod datecodec;
pub mod domain;
pub mod duration;
pub mod flat;
pub mod json;
pub mod lit;
pub mod trusted;
pub mod wire;
pub mod yaml;
