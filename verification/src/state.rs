//! The lifecycle of one recording session.

use vstd::prelude::*;

verus! {

/// Where a session stands in its lifecycle.
#[derive(Clone, Copy, Debug, PartialEq, Eq, Structural)]
pub enum SessionState {
    /// Capture is running.
    Recording,
    /// Capture is suspended and can be resumed.
    Paused,
    /// The session has ended; it never changes again.
    Stopped,
}

/// A requested change of state.
#[derive(Clone, Copy, Debug, PartialEq, Eq, Structural)]
pub enum Transition {
    Pause,
    Resume,
    Stop,
}

impl SessionState {
    /// The lifecycle table: the state that `request` leads to from `self`,
    /// or `None` where the request is not legal.
    ///
    /// Pausing is legal only while recording, resuming only while paused, and
    /// stopping from either of the two. Nothing is legal once stopped.
    pub open spec fn after(self, request: Transition) -> Option<SessionState> {
        match (self, request) {
            (SessionState::Recording, Transition::Pause) => Some(SessionState::Paused),
            (SessionState::Paused, Transition::Resume) => Some(SessionState::Recording),
            (SessionState::Recording, Transition::Stop) => Some(SessionState::Stopped),
            (SessionState::Paused, Transition::Stop) => Some(SessionState::Stopped),
            _ => None,
        }
    }

    /// Where a session stands after the start that issues its id: a session
    /// that did not exist yet (`None`) is recording.
    pub open spec fn born(state: Option<SessionState>) -> Option<SessionState> {
        match state {
            None => Some(SessionState::Recording),
            Some(state) => Some(state),
        }
    }

    /// Where a session stands after `request` was made of it: in the state
    /// that the lifecycle table gives, or, where the request is not legal or
    /// there is no session, where it stood.
    pub open spec fn moved(state: Option<SessionState>, request: Transition) -> Option<
        SessionState,
    > {
        match state {
            None => None,
            Some(state) => match state.after(request) {
                Some(next) => Some(next),
                None => Some(state),
            },
        }
    }

    /// Looks `request` up in the lifecycle table.
    pub fn step(self, request: Transition) -> (next: Option<SessionState>)
        ensures
            next == self.after(request),
    {
        match (self, request) {
            (SessionState::Recording, Transition::Pause) => Some(SessionState::Paused),
            (SessionState::Paused, Transition::Resume) => Some(SessionState::Recording),
            (SessionState::Recording, Transition::Stop) => Some(SessionState::Stopped),
            (SessionState::Paused, Transition::Stop) => Some(SessionState::Stopped),
            _ => None,
        }
    }
}

} // verus!
