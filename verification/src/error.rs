//! Error kinds surfaced by resolution, fetching and the caches.

use vstd::prelude::*;

verus! {

/// Which kind of entity a failed name lookup was about.
#[derive(Debug, Clone, Copy, PartialEq, Eq, Structural)]
pub enum EntityKind {
    College,
    Campus,
    Group,
}

/// Failures of the disk schedule cache.
#[derive(Debug, Clone, Copy, PartialEq, Eq, Structural)]
pub enum CacheError {
    /// The backing store could not be read, written or aged.
    Io,
    /// A present entry could not be decoded.
    Decode,
    /// A value could not be encoded for storage.
    Encode,
}

/// What the transport reported when a remote schedule fetch failed: the
/// message text, and whether the transport recognized the failure as a
/// day with no schedule (a decodable-as-nothing payload) rather than a
/// hard failure.
#[derive(Debug)]
pub struct RemoteError {
    pub message: String,
    pub empty_result: bool,
}

/// Failures surfaced to consumers of the client.
#[derive(Debug)]
pub enum ApiError {
    /// A named college, campus or group had no match; fatal to
    /// resolution.
    NotFound { kind: EntityKind, name: String },
    /// Transport or remote-service failure, with its message.
    Network(String),
    /// A disk cache operation failed.
    Cache(CacheError),
    /// A schedule fetch was attempted before a group was resolved.
    GroupNotSet,
}

} // verus!
