//! One-time Jira -> Buzz backlog importer.
//!
//! Scope: open items only, one-way, idempotent, resumable. Closed history stays
//! in Jira. Pipeline: `jira` extract -> `transform` -> `emit` load -> `verify`.
//! All migrated events are signed by a single import key; ownership is carried
//! by a `p` tag, not the signer.

pub mod config;
pub mod emit;
pub mod error;
pub mod identity;
pub mod import_run;
pub mod jira;
pub mod ledger;
pub mod status_map;
pub mod text;
pub mod transform;
pub mod verify;

pub use config::Config;
pub use error::{ExitCode, ImportError};
