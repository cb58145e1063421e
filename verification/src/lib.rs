//! A usage-annotation compiler for script dispatchers.
//!
//! A script declares its argument contract in a one-line comment annotation
//! (`# Usage: {cmd} ...`). This library parses that line into an intermediate
//! representation, compiles the representation into an argument
//! specification, matches concrete invocation tokens against the
//! specification, serializes a successful match for hand-off to the invoked
//! process, and renders usage and help text.

pub mod argspec;
pub mod chars;
pub mod config;
pub mod export;
pub mod grammar;
pub mod lang;
pub mod matcher;
pub mod render;
pub mod usage;
