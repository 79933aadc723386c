//! Fetching and caching of per-day puzzle data.
//!
//! The library resolves a target year and session credential, decides through
//! a time gate whether a day's puzzle is unlocked, extracts description
//! fragments from a fetched page, persists records in a local cache, and
//! orchestrates the whole cache-then-fetch flow as an explicit state machine.
//! Network and file system effects are performed by the embedding program,
//! which drives the state machine action by action.

pub mod codec;
pub mod credentials;
pub mod endpoints;
pub mod error;
pub mod html;
pub mod record;
pub mod service;
pub mod solution;
pub mod strutil;
pub mod timegate;

pub use credentials::Config;
pub use error::Error;
pub use record::Day;
pub use service::Session;
