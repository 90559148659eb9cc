//! A catalog over two trees of conversation logs and a store of tagged rule
//! files whose tags live in a shared configuration document.
//!
//! The library decides and computes; it reads no file. Its callers hand it
//! what they read of a directory tree (`listing`, `conversation`) or of the
//! configuration (`global_rules`), and carry out what it hands back: the
//! records to show, the directory to list or remove next, the
//! configuration text to write.
//!
//! - `backend`: the two kinds of tree, and where the tree of a backend
//!   lies.
//! - `conversation`: records of logs, the scan of the two kinds of tree,
//!   and search.
//! - `recency`: the order of records.
//! - `reclaim`: deletion of a log and the reclaiming of empty directories.
//! - `global_rules`: rule files, and the configuration as text.
//! - `rule_config`: the rule entries of the configuration document.
//! - `document`, `json`, `paths`, `text`: the calls into `toml`,
//!   `serde_json`, `dirs` and std that the library rests on, each behind a
//!   contract that is stated and not proved, and what is computed here on
//!   texts and file names.

pub mod backend;
pub mod conversation;
pub mod document;
pub mod error;
pub mod global_rules;
pub mod json;
pub mod listing;
pub mod paths;
pub mod recency;
pub mod reclaim;
pub mod rule_config;
pub mod text;
