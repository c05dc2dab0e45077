//! Why the registry turned a request down.

use vstd::prelude::*;
use vstd::string::*;

verus! {

/// The ways in which a request to the registry can fail.
#[derive(Clone, Copy, Debug, PartialEq, Eq, Structural)]
pub enum RegistryError {
    /// The id names no session that the registry has started.
    SessionNotFound,
    /// The session exists, but the request is not legal in its current state.
    InvalidTransition,
    /// The registry has issued every id it can hold.
    ResourceExhausted,
}

impl RegistryError {
    /// The message shown to a person for this error.
    pub open spec fn message_text(self) -> Seq<char> {
        match self {
            RegistryError::SessionNotFound => "session not found"@,
            RegistryError::InvalidTransition => "transition not allowed in the session's current state"@,
            RegistryError::ResourceExhausted => "no more sessions can be started"@,
        }
    }

    /// Renders the error for display.
    pub fn message(&self) -> (text: String)
        ensures
            text@ == self.message_text(),
    {
        match self {
            RegistryError::SessionNotFound => String::from_str("session not found"),
            RegistryError::InvalidTransition => String::from_str(
                "transition not allowed in the session's current state",
            ),
            RegistryError::ResourceExhausted => String::from_str("no more sessions can be started"),
        }
    }
}

} // verus!
