//! The session registry: the one authority over recording sessions.
//!
//! The registry starts sessions, keeps the state of each, and lets a session
//! change state only along the lifecycle table. A stopped session stays on
//! record in its final state: its id is never issued again and every later
//! request for it is turned down as an invalid transition, while an id that
//! was never issued is reported as not found.
//!
//! Every operation that changes the registry takes it by `&mut`, so two
//! requests can never overlap: a host that serves several threads keeps the
//! registry behind one lock, and each request sees the state that the
//! request before it left.

use crate::error::RegistryError;
use crate::session_id::{
    format_session_id, lemma_session_id_body, lemma_session_id_text_injective, parse_session_id,
    session_id_text, session_serial,
};
use crate::state::{SessionState, Transition};
use vstd::prelude::*;

verus! {

/// What a registry holds, as mathematics.
pub struct RegistryView {
    /// The state of every session started so far, by id.
    pub sessions: Map<Seq<char>, SessionState>,
    /// How many sessions have been started.
    pub issued: nat,
    /// How many sessions may be started in all.
    pub capacity: nat,
}

/// Whether `id` is the id of one of the first `issued` sessions.
pub open spec fn is_issued_id(id: Seq<char>, issued: nat) -> bool {
    exists|n: nat| 1 <= n <= issued && id == #[trigger] session_id_text(n)
}

impl RegistryView {
    /// The sessions on record are exactly those numbered from 1 to `issued`,
    /// and no more were started than the capacity allows.
    pub open spec fn wf(self) -> bool {
        &&& self.issued <= self.capacity
        &&& forall|id: Seq<char>| #[trigger]
            self.sessions.contains_key(id) <==> is_issued_id(id, self.issued)
    }

    /// The state of the session `id`, if there is such a session.
    pub open spec fn state_of(self, id: Seq<char>) -> Option<SessionState> {
        if self.sessions.contains_key(id) {
            Some(self.sessions[id])
        } else {
            None
        }
    }

    /// Whether one more session can be started.
    pub open spec fn has_room(self) -> bool {
        self.issued < self.capacity
    }

    /// The id that the next session gets.
    pub open spec fn next_id(self) -> Seq<char> {
        session_id_text(self.issued + 1)
    }

    /// The registry after a start: with room, the next id is on record as
    /// recording; without, nothing changes.
    pub open spec fn started(self) -> RegistryView {
        if self.has_room() {
            RegistryView {
                sessions: self.sessions.insert(self.next_id(), SessionState::Recording),
                issued: self.issued + 1,
                capacity: self.capacity,
            }
        } else {
            self
        }
    }

    /// The registry after `request` was made of the session `id`: where the
    /// session exists and the lifecycle table allows the request, the session
    /// is in its new state; in every other case nothing changes.
    pub open spec fn requested(self, id: Seq<char>, request: Transition) -> RegistryView {
        match self.state_of(id) {
            Some(state) => match state.after(request) {
                Some(next) => RegistryView {
                    sessions: self.sessions.insert(id, next),
                    issued: self.issued,
                    capacity: self.capacity,
                },
                None => self,
            },
            None => self,
        }
    }

    /// What `request`, made of the session `id`, answers.
    pub open spec fn request_outcome(self, id: Seq<char>, request: Transition) -> Result<
        (),
        RegistryError,
    > {
        match self.state_of(id) {
            Some(state) => match state.after(request) {
                Some(_) => Ok(()),
                None => Err(RegistryError::InvalidTransition),
            },
            None => Err(RegistryError::SessionNotFound),
        }
    }
}

/// The registry of recording sessions.
pub struct SessionRegistry {
    /// The state of session `n` stands at index `n - 1`.
    states: Vec<SessionState>,
    capacity: usize,
}

impl View for SessionRegistry {
    type V = RegistryView;

    closed spec fn view(&self) -> RegistryView {
        RegistryView {
            sessions: Map::new(
                |id: Seq<char>| is_issued_id(id, self.states@.len()),
                |id: Seq<char>| self.states@[session_serial(id) - 1],
            ),
            issued: self.states@.len(),
            capacity: self.capacity as nat,
        }
    }
}

impl SessionRegistry {
    #[verifier::type_invariant]
    spec fn within_capacity(&self) -> bool {
        self.states@.len() <= self.capacity
    }

    /// How the view reads the list of states.
    proof fn lemma_view(&self)
        requires
            self.within_capacity(),
        ensures
            self@.wf(),
            self@.issued == self.states@.len(),
            self@.capacity == self.capacity,
            forall|n: nat|
                1 <= n <= self.states@.len() ==> self@.state_of(#[trigger] session_id_text(n))
                    == Some(self.states@[n - 1]),
            forall|n: nat|
                !(1 <= n <= self.states@.len()) ==> self@.state_of(#[trigger] session_id_text(n))
                    is None,
    {
        assert forall|n: nat| 1 <= n <= self.states@.len() implies self@.state_of(
            #[trigger] session_id_text(n),
        ) == Some(self.states@[n - 1]) by {
            lemma_session_id_body(n);
        }
        assert forall|n: nat| !(1 <= n <= self.states@.len()) implies self@.state_of(
            #[trigger] session_id_text(n),
        ) is None by {
            if is_issued_id(session_id_text(n), self.states@.len()) {
                let m = choose|m: nat|
                    1 <= m <= self.states@.len() && session_id_text(n) == session_id_text(m);
                lemma_session_id_text_injective(n, m);
            }
        }
    }

    /// One more state at the end of the list is one more session on record.
    proof fn lemma_view_grown(&self, grown: &Self)
        requires
            self.within_capacity(),
            grown.within_capacity(),
            grown.capacity == self.capacity,
            grown.states@ == self.states@.push(SessionState::Recording),
        ensures
            self@.has_room(),
            grown@ == self@.started(),
    {
        self.lemma_view();
        grown.lemma_view();
        let issued = self.states@.len();
        assert forall|id: Seq<char>| #[trigger]
            grown@.sessions.contains_key(id) <==> self@.sessions.contains_key(id) || id
                == self@.next_id() by {
            if is_issued_id(id, issued + 1) {
                let n = choose|n: nat| 1 <= n <= issued + 1 && id == session_id_text(n);
                if n <= issued {
                    assert(is_issued_id(id, issued));
                }
            }
            if is_issued_id(id, issued) {
                let n = choose|n: nat| 1 <= n <= issued && id == session_id_text(n);
                assert(is_issued_id(id, issued + 1));
            }
        }
        assert forall|id: Seq<char>| self@.sessions.contains_key(id) implies grown@.sessions[id]
            == self@.sessions[id] by {
            let n = choose|n: nat| 1 <= n <= issued && id == session_id_text(n);
            lemma_session_id_body(n);
        }
        lemma_session_id_body(issued + 1);
        assert(grown@.sessions =~= self@.sessions.insert(
            self@.next_id(),
            SessionState::Recording,
        ));
    }

    /// Another state at one place of the list is another state for the
    /// session with that number, and for no other.
    proof fn lemma_view_changed(&self, changed: &Self, serial: nat, next: SessionState)
        requires
            self.within_capacity(),
            changed.capacity == self.capacity,
            1 <= serial <= self.states@.len(),
            changed.states@ == self.states@.update(serial - 1, next),
        ensures
            changed@ == (RegistryView {
                sessions: self@.sessions.insert(session_id_text(serial), next),
                issued: self@.issued,
                capacity: self@.capacity,
            }),
    {
        self.lemma_view();
        changed.lemma_view();
        assert forall|id: Seq<char>|
            self@.sessions.contains_key(id) && id != session_id_text(
                serial,
            ) implies changed@.sessions[id] == self@.sessions[id] by {
            let n = choose|n: nat| 1 <= n <= self.states@.len() && id == session_id_text(n);
            lemma_session_id_body(n);
        }
        lemma_session_id_body(serial);
        assert(changed@.sessions =~= self@.sessions.insert(session_id_text(serial), next));
    }

    /// A registry without sessions that can start as many as the machine can
    /// count.
    pub fn new() -> (registry: Self)
        ensures
            registry@.wf(),
            registry@.sessions == Map::<Seq<char>, SessionState>::empty(),
            registry@.issued == 0,
            registry@.capacity == usize::MAX,
    {
        Self::with_capacity(usize::MAX)
    }

    /// A registry without sessions that can start `capacity` sessions over
    /// its lifetime. Stopped sessions count: stopping a session makes no room
    /// for another.
    pub fn with_capacity(capacity: usize) -> (registry: Self)
        ensures
            registry@.wf(),
            registry@.sessions == Map::<Seq<char>, SessionState>::empty(),
            registry@.issued == 0,
            registry@.capacity == capacity,
    {
        let registry = SessionRegistry { states: Vec::new(), capacity };
        proof {
            registry.lemma_view();
            assert(registry@.sessions =~= Map::<Seq<char>, SessionState>::empty());
        }
        registry
    }

    /// Where in the list the state of the session `session_id` stands, or
    /// `None` where no such session is on record.
    fn slot_of(&self, session_id: &str) -> (slot: Option<usize>)
        ensures
            match slot {
                Some(index) => index < self.states@.len() && session_id@ == session_id_text(
                    (index + 1) as nat,
                ),
                None => !self@.sessions.contains_key(session_id@),
            },
    {
        proof {
            use_type_invariant(self);
            self.lemma_view();
        }
        match parse_session_id(session_id) {
            Some(serial) => {
                if 1 <= serial && serial <= self.states.len() {
                    Some(serial - 1)
                } else {
                    None
                }
            },
            None => {
                proof {
                    if is_issued_id(session_id@, self.states@.len()) {
                        let n = choose|n: nat|
                            1 <= n <= self.states@.len() && session_id@ == session_id_text(n);
                        assert(n <= usize::MAX);
                    }
                }
                None
            },
        }
    }

    /// Starts a session and answers its id.
    ///
    /// The new session is recording, and its id was never issued before.
    /// Fails with `ResourceExhausted`, and changes nothing, where the
    /// registry has started as many sessions as its capacity allows.
    pub fn start_recording(&mut self) -> (outcome: Result<String, RegistryError>)
        ensures
            final(self)@.wf(),
            final(self)@ == old(self)@.started(),
            match outcome {
                Ok(id) => old(self)@.has_room() && id@ == old(self)@.next_id()
                    && !old(self)@.sessions.contains_key(id@),
                Err(error) => !old(self)@.has_room() && error == RegistryError::ResourceExhausted,
            },
    {
        proof {
            use_type_invariant(&*self);
            self.lemma_view();
        }
        if self.states.len() >= self.capacity {
            return Err(RegistryError::ResourceExhausted);
        }
        let serial = self.states.len() + 1;
        let mut states = Vec::new();
        std::mem::swap(&mut states, &mut self.states);
        states.push(SessionState::Recording);
        self.states = states;
        proof {
            old(self).lemma_view_grown(self);
            self.lemma_view();
        }
        Ok(format_session_id(serial))
    }

    /// Makes `request` of the session `session_id`.
    ///
    /// Succeeds, and moves the session to its new state, where the session
    /// exists and the lifecycle table allows the request from its current
    /// state. Fails with `SessionNotFound` where `session_id` names no
    /// session, and with `InvalidTransition` where the table does not allow
    /// the request; a failed request changes nothing.
    pub fn request(&mut self, session_id: &str, request: Transition) -> (outcome: Result<
        (),
        RegistryError,
    >)
        ensures
            final(self)@.wf(),
            final(self)@ == old(self)@.requested(session_id@, request),
            outcome == old(self)@.request_outcome(session_id@, request),
    {
        proof {
            use_type_invariant(&*self);
            self.lemma_view();
        }
        let index = match self.slot_of(session_id) {
            Some(index) => index,
            None => {
                return Err(RegistryError::SessionNotFound);
            },
        };
        let next = match self.states[index].step(request) {
            Some(next) => next,
            None => {
                return Err(RegistryError::InvalidTransition);
            },
        };
        let mut states = Vec::new();
        std::mem::swap(&mut states, &mut self.states);
        states.set(index, next);
        self.states = states;
        proof {
            old(self).lemma_view_changed(self, (index + 1) as nat, next);
            self.lemma_view();
        }
        Ok(())
    }

    /// Pauses a recording session.
    ///
    /// Fails with `SessionNotFound` for an unknown id, and with
    /// `InvalidTransition` where the session is paused or stopped.
    pub fn pause_recording(&mut self, session_id: &str) -> (outcome: Result<(), RegistryError>)
        ensures
            final(self)@.wf(),
            final(self)@ == old(self)@.requested(session_id@, Transition::Pause),
            outcome == old(self)@.request_outcome(session_id@, Transition::Pause),
            !old(self)@.sessions.contains_key(session_id@) ==> outcome == Err::<(), RegistryError>(
                RegistryError::SessionNotFound,
            ) && final(self)@ == old(self)@,
    {
        self.request(session_id, Transition::Pause)
    }

    /// Resumes a paused session.
    ///
    /// Fails with `SessionNotFound` for an unknown id, and with
    /// `InvalidTransition` where the session is recording or stopped.
    pub fn resume_recording(&mut self, session_id: &str) -> (outcome: Result<(), RegistryError>)
        ensures
            final(self)@.wf(),
            final(self)@ == old(self)@.requested(session_id@, Transition::Resume),
            outcome == old(self)@.request_outcome(session_id@, Transition::Resume),
            !old(self)@.sessions.contains_key(session_id@) ==> outcome == Err::<(), RegistryError>(
                RegistryError::SessionNotFound,
            ) && final(self)@ == old(self)@,
    {
        self.request(session_id, Transition::Resume)
    }

    /// Stops a session that is recording or paused.
    ///
    /// The session stays on record as stopped, for good; what was captured
    /// for it is the host's to finish once this has succeeded. Fails with
    /// `SessionNotFound` for an unknown id, and with `InvalidTransition`
    /// where the session is already stopped.
    pub fn stop_recording(&mut self, session_id: &str) -> (outcome: Result<(), RegistryError>)
        ensures
            final(self)@.wf(),
            final(self)@ == old(self)@.requested(session_id@, Transition::Stop),
            outcome == old(self)@.request_outcome(session_id@, Transition::Stop),
            !old(self)@.sessions.contains_key(session_id@) ==> outcome == Err::<(), RegistryError>(
                RegistryError::SessionNotFound,
            ) && final(self)@ == old(self)@,
    {
        self.request(session_id, Transition::Stop)
    }

    /// The state of the session `session_id`, or `None` for an unknown id.
    pub fn state_of(&self, session_id: &str) -> (state: Option<SessionState>)
        ensures
            self@.wf(),
            state == self@.state_of(session_id@),
    {
        proof {
            use_type_invariant(self);
            self.lemma_view();
        }
        match self.slot_of(session_id) {
            Some(index) => Some(self.states[index]),
            None => None,
        }
    }

    /// How many sessions were started so far.
    pub fn issued(&self) -> (count: usize)
        ensures
            self@.wf(),
            count == self@.issued,
    {
        proof {
            use_type_invariant(self);
            self.lemma_view();
        }
        self.states.len()
    }

    /// How many sessions can be started in all.
    pub fn capacity(&self) -> (capacity: usize)
        ensures
            self@.wf(),
            capacity == self@.capacity,
    {
        proof {
            use_type_invariant(self);
            self.lemma_view();
        }
        self.capacity
    }
}

impl Default for SessionRegistry {
    /// The same as [`SessionRegistry::new`].
    fn default() -> (registry: Self)
        ensures
            registry@.wf(),
            registry@.sessions == Map::<Seq<char>, SessionState>::empty(),
            registry@.issued == 0,
            registry@.capacity == usize::MAX,
    {
        SessionRegistry::new()
    }
}

} // verus!
