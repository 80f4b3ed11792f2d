//! Authentication state, threaded explicitly through callers.
//!
//! Whether a credential is installed is a plain value handed to every
//! handler, not ambient global state.  Remote calls are the caller's
//! job; this module only decides whether they may be attempted.

use vstd::prelude::*;
use crate::errors::JulesError;

verus! {

/// Whether a credential is installed.
#[derive(Debug, PartialEq, Eq)]
pub enum AuthState {
    /// No credential yet; every remote call must be refused.
    Unauthenticated,
    /// A credential is installed and remote calls may proceed.
    Ready { api_key: String },
}

impl AuthState {
    /// Whether remote calls may proceed.
    pub open spec fn is_ready(self) -> bool {
        self is Ready
    }

    /// Builds the state from an optionally configured key.
    pub fn from_key(api_key: Option<String>) -> (r: AuthState)
        ensures
            r == match api_key {
                Some(k) => AuthState::Ready { api_key: k },
                None => AuthState::Unauthenticated,
            },
    {
        match api_key {
            Some(k) => AuthState::Ready { api_key: k },
            None => AuthState::Unauthenticated,
        }
    }

    /// The installed key, or the error reported when none is.
    pub fn require_key(&self) -> (r: Result<&String, JulesError>)
        ensures
            match r {
                Ok(k) => self matches AuthState::Ready { api_key } && *k == api_key,
                Err(e) => self is Unauthenticated && e == JulesError::AuthMissing,
            },
    {
        match self {
            AuthState::Ready { api_key } => Ok(api_key),
            AuthState::Unauthenticated => Err(JulesError::AuthMissing),
        }
    }
}

/// The decision at client construction: a key must be configured, or
/// the caller reports that authentication is missing.
pub fn require_api_key(api_key: Option<String>) -> (r: Result<String, JulesError>)
    ensures
        api_key is Some ==> r == Ok::<String, JulesError>(api_key->0),
        api_key is None ==> r == Err::<String, JulesError>(JulesError::AuthMissing),
{
    match api_key {
        Some(k) => Ok(k),
        None => Err(JulesError::AuthMissing),
    }
}

} // verus!
