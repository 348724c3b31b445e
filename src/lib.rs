//! A verified core for a `cat`-like text utility: flag parsing, line
//! splitting and the per-line display pipeline.
pub mod args;
pub mod error;
pub mod laws;
pub mod render;
pub mod session;
pub mod text;
