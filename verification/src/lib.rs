//! A bounded, deduplicated, most-recently-used registry of file references.
//!
//! The registry is a value: every operation takes what the durable record
//! held, and hands back the registry that is to replace it.

pub mod model;
pub mod recent_files;
pub mod laws;
pub mod commands;
