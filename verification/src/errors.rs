//! Error taxonomy of the client core.

use vstd::prelude::*;

verus! {

/// Why a user-supplied session identifier failed to resolve against the
/// cached roster.
#[derive(Clone, Copy, Debug, PartialEq, Eq, Structural)]
pub enum ResolutionError {
    /// The roster is empty; no identifier can resolve.
    EmptyRoster,
    /// The identifier was the index `0`; indices are 1-based.
    NonPositiveIndex,
    /// The identifier was an index past the end of the roster.
    IndexOutOfBounds,
    /// The identifier named a session ID that is not in the roster.
    SessionNotFound,
    /// The identifier was an alias that is not in the alias map.
    AliasNotFound,
    /// The alias exists but its session is no longer in the roster.
    StaleAlias,
}

/// Why an alias-management command is refused.
#[derive(Clone, Copy, Debug, PartialEq, Eq, Structural)]
pub enum AliasCommandError {
    /// The name does not start with the `@` sigil.
    NotAnAlias,
    /// Deletion of a name that is not bound.
    UnknownAlias,
    /// The session number the alias should name does not resolve.
    BadSessionNumber { error: ResolutionError },
}

/// An error of the client as a whole.
#[derive(Clone, Debug, PartialEq, Eq)]
pub enum JulesError {
    /// No credential is configured.
    AuthMissing,
    /// The remote service was reachable but rejected or failed the call.
    RemoteError { status: u16, body: String },
    /// The remote service was unreachable.
    TransportError { message: String },
    /// A local cache record could not be read, written or parsed.
    CacheIoError { message: String },
    /// A user-supplied identifier did not resolve.
    Resolution { error: ResolutionError },
}

} // verus!
