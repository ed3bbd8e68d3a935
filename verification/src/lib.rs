//! Keeps a set of user-designated files ("dotfiles") consistent between a
//! local filesystem tree and a second, "remote", tree.
//!
//! The crate holds the decision logic alone: resolving a tracked file's two
//! locations, applying the truncation-marker convention to file contents,
//! classifying each tracked file into a status, grouping statuses into a
//! report, and planning the writes that a requested action implies. Reading
//! the configuration and touching the filesystem are left to the surrounding
//! binary, which hands this crate plain values and carries out the planned
//! writes.

pub mod cli;
pub mod config;
pub mod content;
pub mod laws;
pub mod manager;
pub mod paths;
pub mod resolve;
