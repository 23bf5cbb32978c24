//! Core logic of a line-concatenation utility in the manner of `cat`:
//! a configuration chooses one of three numbering policies (plain output,
//! number every line, number only non-blank lines), and the processor
//! renders the lines of each input in order, numbering per file.
//!
//! All I/O (opening files, reading standard input, writing output) lives
//! outside this crate; the functions here work on plain line values.

pub mod config;
pub mod laws;
pub mod process;
pub mod render;
