//! What holds of every run of the registry.
//!
//! The operations of the registry are described by what they do to its view.
//! This module puts runs of operations together and proves what follows for
//! every registry, every id and every run.

use crate::error::RegistryError;
use crate::registry::{is_issued_id, RegistryView};
use crate::session_id::{lemma_session_id_text_injective, session_id_text};
use crate::state::{SessionState, Transition};
use vstd::prelude::*;

verus! {

/// One operation of the registry.
pub enum Operation {
    /// Start a session.
    Start,
    /// Make `request` of the session `id`.
    Request { id: Seq<char>, request: Transition },
}

impl RegistryView {
    /// The registry after `op`.
    pub open spec fn applied(self, op: Operation) -> RegistryView {
        match op {
            Operation::Start => self.started(),
            Operation::Request { id, request } => self.requested(id, request),
        }
    }

    /// The registry after the operations `ops`, made one after the other.
    pub open spec fn replayed(self, ops: Seq<Operation>) -> RegistryView
        decreases ops.len(),
    {
        if ops.len() == 0 {
            self
        } else {
            self.replayed(ops.drop_last()).applied(ops.last())
        }
    }
}

/// How many sessions have been started after `ops`, counting from `issued`
/// and never beyond `capacity`.
pub open spec fn issued_after(issued: nat, capacity: nat, ops: Seq<Operation>) -> nat
    decreases ops.len(),
{
    if ops.len() == 0 {
        issued
    } else {
        let before = issued_after(issued, capacity, ops.drop_last());
        if ops.last() is Start && before < capacity {
            before + 1
        } else {
            before
        }
    }
}

/// The state of the session `id` after `ops`, worked out from the lifecycle
/// of that one session: the start that issues `id` brings it into being, the
/// requests made of `id` move it along the lifecycle table, and nothing else
/// touches it. `state` is where the session stands before `ops` (`None`: not
/// started yet), `issued` and `capacity` say which start issues which id.
pub open spec fn lifecycle_of(
    id: Seq<char>,
    state: Option<SessionState>,
    issued: nat,
    capacity: nat,
    ops: Seq<Operation>,
) -> Option<SessionState>
    decreases ops.len(),
{
    if ops.len() == 0 {
        state
    } else {
        let before = lifecycle_of(id, state, issued, capacity, ops.drop_last());
        let count = issued_after(issued, capacity, ops.drop_last());
        match ops.last() {
            Operation::Start => if count < capacity && id == session_id_text(count + 1) {
                SessionState::born(before)
            } else {
                before
            },
            Operation::Request { id: target, request } => if target == id {
                SessionState::moved(before, request)
            } else {
                before
            },
        }
    }
}

/// A start keeps the registry well-formed, and the id it issues was not on
/// record before.
pub proof fn lemma_started(m: RegistryView)
    requires
        m.wf(),
    ensures
        m.started().wf(),
        !m.sessions.contains_key(m.next_id()),
{
    if m.sessions.contains_key(m.next_id()) {
        let n = choose|n: nat| 1 <= n <= m.issued && m.next_id() == session_id_text(n);
        lemma_session_id_text_injective(n, m.issued + 1);
    }
    if m.has_room() {
        let after = m.started();
        assert forall|id: Seq<char>| #[trigger]
            after.sessions.contains_key(id) <==> is_issued_id(id, after.issued) by {
            if is_issued_id(id, after.issued) {
                let n = choose|n: nat| 1 <= n <= after.issued && id == session_id_text(n);
                if n <= m.issued {
                    assert(is_issued_id(id, m.issued));
                }
            }
            if m.sessions.contains_key(id) {
                let n = choose|n: nat| 1 <= n <= m.issued && id == session_id_text(n);
                assert(is_issued_id(id, after.issued));
            }
        }
    }
}

/// A request keeps the registry well-formed.
pub proof fn lemma_requested(m: RegistryView, id: Seq<char>, request: Transition)
    requires
        m.wf(),
    ensures
        m.requested(id, request).wf(),
{
}

/// Replay and the lifecycle table agree: after any run of operations, every
/// session is in the state that its own lifecycle gives, taken one
/// transition at a time.
pub proof fn law_replay_follows_lifecycle(m: RegistryView, ops: Seq<Operation>, id: Seq<char>)
    requires
        m.wf(),
    ensures
        m.replayed(ops).wf(),
        m.replayed(ops).capacity == m.capacity,
        m.replayed(ops).issued == issued_after(m.issued, m.capacity, ops),
        m.replayed(ops).state_of(id) == lifecycle_of(id, m.state_of(id), m.issued, m.capacity, ops),
    decreases ops.len(),
{
    if ops.len() > 0 {
        let before = m.replayed(ops.drop_last());
        law_replay_follows_lifecycle(m, ops.drop_last(), id);
        match ops.last() {
            Operation::Start => {
                lemma_started(before);
            },
            Operation::Request { id: target, request } => {
                lemma_requested(before, target, request);
            },
        }
    }
}

/// Ids stay on record: whatever is done afterwards, a session that was
/// started is still known, and the number of sessions started never goes
/// down.
pub proof fn law_ids_stay_on_record(m: RegistryView, ops: Seq<Operation>, id: Seq<char>)
    requires
        m.wf(),
        m.sessions.contains_key(id),
    ensures
        m.replayed(ops).wf(),
        m.replayed(ops).sessions.contains_key(id),
        m.replayed(ops).issued >= m.issued,
    decreases ops.len(),
{
    law_replay_follows_lifecycle(m, ops, id);
    if ops.len() > 0 {
        law_ids_stay_on_record(m, ops.drop_last(), id);
    }
}

/// No id is issued twice: the id that a start issues differs from the id
/// that any later start issues, whatever was done in between.
pub proof fn law_ids_are_never_reissued(m: RegistryView, ops: Seq<Operation>)
    requires
        m.wf(),
        m.has_room(),
    ensures
        m.started().sessions.contains_key(m.next_id()),
        m.started().replayed(ops).sessions.contains_key(m.next_id()),
        m.started().replayed(ops).next_id() != m.next_id(),
{
    lemma_started(m);
    let later = m.started().replayed(ops);
    law_ids_stay_on_record(m.started(), ops, m.next_id());
    lemma_started(later);
}

/// A request for an id that is not on record fails with `SessionNotFound`
/// and leaves the registry as it was.
pub proof fn law_unknown_id_is_not_found(m: RegistryView, id: Seq<char>, request: Transition)
    requires
        !m.sessions.contains_key(id),
    ensures
        m.request_outcome(id, request) == Err::<(), RegistryError>(RegistryError::SessionNotFound),
        m.requested(id, request) == m,
{
}

/// Of two pauses in a row, the second is refused: it fails with
/// `InvalidTransition` and the session stays paused.
pub proof fn law_second_pause_is_refused(m: RegistryView, id: Seq<char>)
    requires
        m.state_of(id) == Some(SessionState::Recording) || m.state_of(id) == Some(
            SessionState::Paused,
        ),
    ensures
        ({
            let once = m.requested(id, Transition::Pause);
            &&& once.state_of(id) == Some(SessionState::Paused)
            &&& once.request_outcome(id, Transition::Pause) == Err::<(), RegistryError>(
                RegistryError::InvalidTransition,
            )
            &&& once.requested(id, Transition::Pause) == once
        }),
{
}

/// Of two stops in a row, the first succeeds and the second is refused: it
/// fails with `InvalidTransition`, and the session stays stopped.
pub proof fn law_second_stop_is_refused(m: RegistryView, id: Seq<char>)
    requires
        m.state_of(id) == Some(SessionState::Recording) || m.state_of(id) == Some(
            SessionState::Paused,
        ),
    ensures
        m.request_outcome(id, Transition::Stop) == Ok::<(), RegistryError>(()),
        ({
            let once = m.requested(id, Transition::Stop);
            &&& once.state_of(id) == Some(SessionState::Stopped)
            &&& once.request_outcome(id, Transition::Stop) == Err::<(), RegistryError>(
                RegistryError::InvalidTransition,
            )
            &&& once.requested(id, Transition::Stop) == once
        }),
{
}

/// A stopped session has ended: no run of operations changes its state.
pub proof fn law_stopped_is_final(m: RegistryView, ops: Seq<Operation>, id: Seq<char>)
    requires
        m.wf(),
        m.state_of(id) == Some(SessionState::Stopped),
    ensures
        m.replayed(ops).state_of(id) == Some(SessionState::Stopped),
    decreases ops.len(),
{
    if ops.len() > 0 {
        law_stopped_is_final(m, ops.drop_last(), id);
        law_replay_follows_lifecycle(m, ops.drop_last(), id);
        lemma_started(m.replayed(ops.drop_last()));
    }
}

/// The first and the second of a pause and a stop that reach the registry
/// at the same time: the registry serves them one after the other, in one
/// order or the other.
pub open spec fn in_turn(pause_first: bool) -> (Transition, Transition) {
    if pause_first {
        (Transition::Pause, Transition::Stop)
    } else {
        (Transition::Stop, Transition::Pause)
    }
}

/// A pause and a stop that race for a live session leave no state in
/// between: in either order the session ends stopped, every other session is
/// as it was, and the one served second is judged by the state that the first
/// one left.
pub proof fn law_pause_and_stop_end_stopped(m: RegistryView, id: Seq<char>, pause_first: bool)
    requires
        m.state_of(id) == Some(SessionState::Recording) || m.state_of(id) == Some(
            SessionState::Paused,
        ),
    ensures
        ({
            let (first, second) = in_turn(pause_first);
            let between = m.requested(id, first);
            let end = between.requested(id, second);
            &&& between.state_of(id) == SessionState::moved(m.state_of(id), first)
            &&& end.state_of(id) == SessionState::moved(between.state_of(id), second)
            &&& end.state_of(id) == Some(SessionState::Stopped)
            &&& end.sessions == m.sessions.insert(id, SessionState::Stopped)
            &&& end.issued == m.issued
            &&& end.capacity == m.capacity
        }),
{
    let (first, second) = in_turn(pause_first);
    let end = m.requested(id, first).requested(id, second);
    assert(end.sessions =~= m.sessions.insert(id, SessionState::Stopped));
}

/// Of a pause and a stop that race for a session, exactly one is applied,
/// and the other fails with `InvalidTransition`. This holds of a paused
/// session in either order, and of a recording session where the stop is
/// served first. (Where the pause of a recording session is served first,
/// both are legal in turn and both are applied.)
pub proof fn law_pause_and_stop_apply_one(m: RegistryView, id: Seq<char>, pause_first: bool)
    requires
        m.state_of(id) == Some(SessionState::Paused) || (m.state_of(id) == Some(
            SessionState::Recording,
        ) && !pause_first),
    ensures
        ({
            let (first, second) = in_turn(pause_first);
            let between = m.requested(id, first);
            let first_outcome = m.request_outcome(id, first);
            let second_outcome = between.request_outcome(id, second);
            &&& (first_outcome is Ok) != (second_outcome is Ok)
            &&& first_outcome is Err ==> first_outcome == Err::<(), RegistryError>(
                RegistryError::InvalidTransition,
            ) && between == m
            &&& second_outcome is Err ==> second_outcome == Err::<(), RegistryError>(
                RegistryError::InvalidTransition,
            ) && between.requested(id, second) == between
            &&& between.requested(id, second).state_of(id) == Some(SessionState::Stopped)
        }),
{
}

} // verus!
