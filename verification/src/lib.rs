//! A depth-first "stack" todo manager's verified core.
//!
//! A single stack of todo items lives in a text file, one item per line,
//! with the last line holding the top (most recently pushed) item. This
//! crate holds the config-resolution and stack-file logic: resolving the
//! data path from a JSON config record, opening stack-file handles in
//! append or truncate mode, reading the top item, appending a new item,
//! and rewriting the file minus its last line.

pub mod config;
pub mod file;
pub mod json;
pub mod lines;
