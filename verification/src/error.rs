//! The typed failures a registry lookup can end in. All of them are
//! non-fatal to a batch: a failed lookup contributes no update decision and
//! is surfaced as a warning.

use vstd::prelude::*;

verus! {

/// Why a single registry lookup produced no latest version.
///
/// `Timeout` also stands for a lookup cancelled mid-flight; `NotFound` is a
/// response with a non-success status; `Malformed` is a response body that
/// does not carry a version; `Transport` is any other connection failure.
#[derive(Clone, Copy, Debug, PartialEq, Eq, Structural)]
pub enum FetchError {
    Timeout,
    NotFound,
    Malformed,
    Transport,
}

impl FetchError {
    /// A short human-readable reason, for warning lines.
    pub fn describe(&self) -> (r: String)
        ensures
            *self == FetchError::Timeout ==> r@ == "request timed out"@,
            *self == FetchError::NotFound ==> r@ == "package not found"@,
            *self == FetchError::Malformed ==> r@ == "malformed registry response"@,
            *self == FetchError::Transport ==> r@ == "transport failure"@,
    {
        match self {
            FetchError::Timeout => String::from_str("request timed out"),
            FetchError::NotFound => String::from_str("package not found"),
            FetchError::Malformed => String::from_str("malformed registry response"),
            FetchError::Transport => String::from_str("transport failure"),
        }
    }
}

} // verus!
