//! Verified counting engine for a `wc`-style text tool, with the computing
//! parts of its sibling utilities.
//!
//! The library computes line, word, byte and character counts for a text
//! source in one pass, aggregates counts over several sources, and renders
//! the fixed-width output columns. All of that logic is verified; opening
//! files and printing is left to the thin binary around the library.

pub mod counting;
pub mod format;
pub mod report;
pub mod text;
pub mod tools;
