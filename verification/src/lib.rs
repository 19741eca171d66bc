//! The core of a content-update client. Given a backend and a pack, it
//! decides whether the files installed locally are stale against the
//! version that the server holds and, where they are, how the server's
//! changelist is applied: which files are fetched, which are skipped
//! because their content is already right, which are removed, and when the
//! local version marker may be rewritten.
//!
//! The library performs no input or output. `sync::Sync` is a state
//! machine: it hands a driver one step at a time and takes the driver's
//! report of what came of it. `laws` states what holds of every pass.

pub mod client;
pub mod config;
pub mod digest;
pub mod error;
pub mod history;
pub mod laws;
pub mod status;
pub mod sync;
pub mod text;
pub mod version;
