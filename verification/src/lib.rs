//! A small batch text-analysis library.
//!
//! The heart of the crate is a verified file analyzer: word, line and
//! character-frequency statistics over the text of a file, together with a
//! model of the worker pool that executes one analysis job per file and
//! delivers exactly one result per submitted job.  Directory-entry selection
//! and command-line parsing are verified here as well; the surrounding
//! process (reading files, spawning threads, printing) lives outside the
//! library and hands it plain values.
//!
//! A few small, self-contained verified pieces — a student roster and two
//! integer helpers — round out the crate.

pub mod analyzer;
pub mod args;
pub mod discovery;
pub mod freq;
pub mod numbers;
pub mod pool;
pub mod roster;
pub mod text;
