//! Verified core of a small command-line tool that removes (or backs up)
//! another utility's configuration directory, guarded by a confirmation
//! prompt whose wording and strictness follow command-line flags and
//! persisted preferences.
//!
//! The pipeline: classify the arguments, load or create the persisted
//! preferences, resolve the message catalog and the confirmation policy,
//! dispatch the option flags, and judge the typed confirmation. Reading,
//! writing and prompting live outside this crate; every decision and the
//! preference file format itself are verified here.

pub mod args;
pub mod confirm;
pub mod dispatch;
pub mod messages;
pub mod parse;
pub mod paths;
pub mod policy;
pub mod prefs;
pub mod text;
pub mod write;
