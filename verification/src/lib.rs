//! Verified core of a pseudoterminal-driven subprocess session.
//!
//! The library covers the session's streaming and parsing logic: a line
//! buffer with newline/carriage-return semantics, an ANSI control-sequence
//! interpreter (stripping and styling modes), a heuristic prompt detector,
//! an input router, and the output-reader state machine. Pseudoterminal
//! allocation, process spawning and rendering are left to the surrounding
//! program, which drives these types with plain values.

pub mod ansi;
pub mod console;
pub mod input;
pub mod line_buffer;
pub mod prompt;
pub mod reader;
pub mod text;
