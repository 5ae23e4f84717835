//! Core logic of a Windows system manager: cleanup target discovery and
//! accounting, ranking of disk entries by size, file type breakdowns,
//! interactive input parsing and text layout for the terminal front end.
//!
//! Everything that touches the file system, the environment, the process
//! table or the terminal lives in the companion application crate; this
//! library receives plain values from it and hands plain values back.

pub mod types;
pub mod targets;
pub mod ranking;
pub mod text;
pub mod input;
pub mod breakdown;
pub mod cleanup;
pub mod display;
