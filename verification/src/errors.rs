//! Error taxonomy of the session lifecycle.

use vstd::prelude::*;

verus! {

/// Session store failures.
#[derive(Clone, Copy, Debug, PartialEq, Eq, Structural)]
pub enum SessionError {
    /// No session document exists; the fresh-login path is taken.
    SessionMissing,
    /// The session document does not deserialize.
    SessionCorrupt,
    /// Reading or writing the document failed.
    IoError,
}

/// Outcomes of building the homeserver-bound client.
#[derive(Clone, Copy, Debug, PartialEq, Eq, Structural)]
pub enum BuildError {
    /// Server auto-discovery failed: transient, retried.
    AutoDiscoveryFailed,
    /// The homeserver URL did not parse: transient, retried.
    MalformedUrl,
    /// The discovery request failed: transient, retried.
    HttpError,
    /// Any other build failure: fatal, surfaced.
    Fatal,
}

} // verus!
