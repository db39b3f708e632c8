//! Relocation of line-pinned annotations across version-control history.
//!
//! Comments are pinned to a line of a file at a historical revision. As the
//! tracked history advances, this library decides, for each such tag,
//! whether it needs remapping, interprets the answers of an external
//! history oracle (current revision, ancestry, reverse line trace), parses
//! trace output into structured records, and selects the record that gives
//! the tag's present position — appending a fresh tag, never mutating an
//! existing one.
//!
//! The oracle itself, JSON persistence and the command line are external
//! collaborators; they live outside this library and exchange plain values
//! with it.

pub mod blame;
pub mod errors;
pub mod model;
pub mod oracle;
pub mod parse;
pub mod relocate;
pub mod scan;
