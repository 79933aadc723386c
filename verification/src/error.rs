//! The failure taxonomy of the puzzle-data subsystem.

use vstd::prelude::*;

verus! {

/// Everything that can go wrong while resolving credentials, gating access,
/// fetching, extracting or caching a day's puzzle data.
///
/// `Network` carries the HTTP status code of a non-success response, or
/// `None` when the transport itself failed before any status was received.
#[derive(Debug, PartialEq, Eq)]
pub enum Error {
    /// A required configuration value (the session token) is absent.
    Config,
    /// The time gate rejected the request: the day is not unlocked yet.
    AccessDenied,
    /// A non-success HTTP status, or a transport failure (`None`).
    Network(Option<u16>),
    /// The fetched page did not contain the expected marked description block.
    Parse,
    /// The cache file exists but could not be read, or could not be written.
    Cache,
    /// The cache file was read but its contents are not a valid record.
    Serialization,
}

impl Error {
    /// A short human-readable description of the error.
    pub fn describe(&self) -> (r: &'static str)
        ensures
            r@.len() > 0,
    {
        proof {
            reveal_strlit("required configuration is missing");
            reveal_strlit("the requested day is not accessible yet");
            reveal_strlit("the request to the service failed");
            reveal_strlit("the page did not have the expected structure");
            reveal_strlit("the cache file could not be read or written");
            reveal_strlit("the cache file does not hold a valid record");
        }
        match self {
            Error::Config => "required configuration is missing",
            Error::AccessDenied => "the requested day is not accessible yet",
            Error::Network(_) => "the request to the service failed",
            Error::Parse => "the page did not have the expected structure",
            Error::Cache => "the cache file could not be read or written",
            Error::Serialization => "the cache file does not hold a valid record",
        }
    }
}

} // verus!
