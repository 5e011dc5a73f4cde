//! Deciding what to rebuild and what to run.

pub mod model;
pub mod cmd;
pub mod idle;
