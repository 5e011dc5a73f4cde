//! A minimal make-like build tool, as a verified library.
//!
//! `parsing` turns line-grouped tokens into a syntax tree of assignments,
//! conditional blocks and job rules. `execution` decides, step by step, which
//! jobs of an expanded job list have to be rebuilt and which command lines
//! have to run for that; the caller performs the file system queries and runs
//! the commands.

pub mod text;
pub mod parsing;
pub mod execution;
