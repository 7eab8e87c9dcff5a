//! Clip triage library: directory scanning with a system-path guard, a
//! persisted swipe-direction configuration with an atomic-write JSON codec,
//! and the move/undo planning of the triage engine.
//!
//! The library is pure: every function here computes decisions, catalogs,
//! paths and documents from plain values. The surrounding application performs
//! the filesystem calls those decisions ask for.

pub mod config_codec;
pub mod guard;
pub mod numfmt;
pub mod pathops;
pub mod scanner;
pub mod triage;
pub mod types;
pub mod validate;
