//! The mathematical value of a session manager and the rules of its fair
//! polling.
//!
//! The manager keeps its sessions in a queue and polls from the front. A
//! session that has nothing to hand out moves to the back and the next one
//! is tried; the first session that is due is the one that the poll returns
//! from. It moves to the back too, or, where it is closed and drained,
//! leaves the manager with a HUP.

use crate::addr::SocketAddress;
use crate::context_state::ContextState;
use crate::error::ArrowError;
use crate::msg::{BodyView, MessageView, HUP_CONNECTION_ERROR, HUP_NO_ERROR};
use crate::session::{hup_view, SessionState};
use crate::svc_table::ServiceView;
use futures::task::Task;
use vstd::prelude::*;

verus! {

/// The serial number that follows `serial`.
pub open spec fn serial_after(serial: u64) -> u64 {
    if serial == u64::MAX {
        0
    } else {
        (serial + 1) as u64
    }
}

/// The socket address to connect to for the service `service_id`, given what
/// the service table resolves the id to, or the reason why there is none.
pub open spec fn resolve_address(lookup: Option<ServiceView>, service_id: u16) -> Result<
    SocketAddress,
    ArrowError,
> {
    match lookup {
        None => Err(ArrowError::UnknownService(service_id)),
        Some(service) => match service.address {
            None => Err(ArrowError::NoAddress(service_id)),
            Some(address) => Ok(address),
        },
    }
}

/// The mathematical value of a session manager.
#[verifier::ext_equal]
pub struct ManagerState {
    /// The sessions by session id.
    pub sessions: Map<u32, SessionState>,
    /// The ids of the sessions in the order in which they are polled next.
    pub poll_order: Seq<u32>,
    /// The serial number of the session that is opened next.
    pub next_serial: u64,
}

impl ManagerState {
    /// A manager without sessions.
    pub open spec fn empty() -> ManagerState {
        ManagerState { sessions: Map::empty(), poll_order: Seq::empty(), next_serial: 0 }
    }

    /// The queue holds exactly the ids of the sessions, each once, and each
    /// session is well formed and filed under its own id.
    pub open spec fn wf(self) -> bool {
        &&& self.poll_order.no_duplicates()
        &&& forall|i: int|
            0 <= i < self.poll_order.len() ==> self.sessions.contains_key(
                #[trigger] self.poll_order[i],
            )
        &&& forall|id: u32| #[trigger]
            self.sessions.contains_key(id) ==> self.poll_order.contains(id)
        &&& forall|id: u32| #[trigger]
            self.sessions.contains_key(id) ==> self.sessions[id].wf()
                && self.sessions[id].context.session_id == id
    }

    /// Whether the handle `(id, serial)` names a session of the manager.
    pub open spec fn live(self, id: u32, serial: u64) -> bool {
        self.sessions.contains_key(id) && self.sessions[id].serial == serial
    }

    /// Whether the session at place `index` of the queue is due: polling it
    /// yields a message or a HUP.
    pub open spec fn due(self, index: int) -> bool {
        self.sessions[self.poll_order[index]].context.input_due()
    }

    /// Whether no session is due.
    pub open spec fn none_due(self) -> bool {
        forall|index: int| 0 <= index < self.poll_order.len() ==> !#[trigger] self.due(index)
    }

    /// Whether `index` is the place of the first session in the queue that
    /// is due.
    pub open spec fn first_due(self, index: int) -> bool {
        &&& 0 <= index < self.poll_order.len()
        &&& self.due(index)
        &&& forall|earlier: int| 0 <= earlier < index ==> !#[trigger] self.due(earlier)
    }

    /// The manager after the first `count` sessions of the queue were polled
    /// on behalf of `task` and moved to the back.
    pub open spec fn rotated(self, count: int, task: Task) -> ManagerState {
        ManagerState {
            sessions: Map::new(
                |id: u32| self.sessions.contains_key(id),
                |id: u32|
                    if self.poll_order.take(count).contains(id) {
                        self.sessions[id].polled(task)
                    } else {
                        self.sessions[id]
                    },
            ),
            poll_order: self.poll_order.skip(count) + self.poll_order.take(count),
            ..self
        }
    }

    /// The manager with the session `id` holding `session`; a new id joins
    /// the back of the queue.
    pub open spec fn with_session(self, id: u32, session: SessionState) -> ManagerState {
        ManagerState {
            sessions: self.sessions.insert(id, session),
            poll_order: if self.sessions.contains_key(id) {
                self.poll_order
            } else {
                self.poll_order.push(id)
            },
            ..self
        }
    }

    /// The manager with `context` as the context of the session `id`.
    pub open spec fn with_context(self, id: u32, context: ContextState) -> ManagerState {
        self.with_session(id, self.sessions[id].with_context(context))
    }

    /// The context of the session `id`.
    pub open spec fn context(self, id: u32) -> ContextState {
        self.sessions[id].context
    }

    /// The manager after a new session for the service `service_id` was
    /// opened under `id` and handed `payload` from upstream.
    pub open spec fn opened(self, service_id: u16, id: u32, payload: Seq<u8>) -> ManagerState {
        let session = SessionState::fresh(service_id, id, self.next_serial);
        ManagerState {
            next_serial: serial_after(self.next_serial),
            ..self.with_session(id, session.with_context(session.context.push_output(payload)))
        }
    }

    /// The manager after `payload` from upstream was handed to the session
    /// `id`.
    pub open spec fn pushed(self, id: u32, payload: Seq<u8>) -> ManagerState {
        let session = self.sessions[id];
        self.with_session(id, session.with_context(session.context.push_output(payload)))
    }

    /// Whether the session at place `index` hands out data, not a HUP.
    pub open spec fn has_input(self, index: int) -> bool {
        self.sessions[self.poll_order[index]].context.input.len() > 0
    }

    /// What a poll returns where the first session that is due is at place
    /// `index`.
    pub open spec fn yields_at(self, index: int) -> MessageView {
        self.sessions[self.poll_order[index]].yields()
    }

    /// The manager after a poll on behalf of `task` returned from the
    /// session at place `index`: the sessions before it wait for input, and
    /// the session itself is at the back of the queue with its input taken,
    /// or, where it was drained, gone.
    pub open spec fn after_yield(self, index: int, task: Task) -> ManagerState {
        if self.has_input(index) {
            self.rotated(index + 1, task)
        } else {
            ManagerState {
                sessions: self.rotated(index, task).sessions.remove(self.poll_order[index]),
                poll_order: self.poll_order.skip(index + 1) + self.poll_order.take(index),
                ..self
            }
        }
    }
}

/// A manager stays well formed when a well-formed session is put under its
/// own id.
pub proof fn lemma_with_session_wf(state: ManagerState, id: u32, session: SessionState)
    requires
        state.wf(),
        session.wf(),
        session.context.session_id == id,
    ensures
        state.with_session(id, session).wf(),
{
    let after = state.with_session(id, session);
    if state.sessions.contains_key(id) {
        assert forall|other: u32| #[trigger]
            after.sessions.contains_key(other) implies after.poll_order.contains(other) by {
            if other != id {
                assert(state.sessions.contains_key(other));
            }
        }
    } else {
        assert(!state.poll_order.contains(id)) by {
            if state.poll_order.contains(id) {
                let i = choose|i: int| 0 <= i < state.poll_order.len() && state.poll_order[i] == id;
                assert(state.sessions.contains_key(state.poll_order[i]));
            }
        }
        assert(after.poll_order.no_duplicates());
        assert forall|other: u32| #[trigger]
            after.sessions.contains_key(other) implies after.poll_order.contains(other) by {
            if other == id {
                assert(after.poll_order[state.poll_order.len() as int] == id);
            } else {
                assert(state.sessions.contains_key(other));
                let i = choose|i: int|
                    0 <= i < state.poll_order.len() && state.poll_order[i] == other;
                assert(after.poll_order[i] == other);
            }
        }
        assert forall|i: int| 0 <= i < after.poll_order.len() implies after.sessions.contains_key(
            #[trigger] after.poll_order[i],
        ) by {
            if i < state.poll_order.len() {
                assert(state.sessions.contains_key(state.poll_order[i]));
            }
        }
    }
}

/// The first `count + 1` ids of a queue are its first `count` ids and the
/// one behind them.
pub proof fn lemma_take_contains(order: Seq<u32>, count: int, id: u32)
    requires
        0 <= count < order.len(),
    ensures
        order.take(count + 1).contains(id) <==> order.take(count).contains(id) || id
            == order[count],
{
    let shorter = order.take(count);
    let longer = order.take(count + 1);
    if longer.contains(id) {
        let i = choose|i: int| 0 <= i < longer.len() && longer[i] == id;
        if i < count {
            assert(shorter[i] == id);
        }
    }
    if shorter.contains(id) {
        let i = choose|i: int| 0 <= i < shorter.len() && shorter[i] == id;
        assert(longer[i] == id);
    }
    if id == order[count] {
        assert(longer[count] == id);
    }
}

/// In a queue without duplicates no id stands among those before it.
pub proof fn lemma_take_excludes(order: Seq<u32>, count: int)
    requires
        order.no_duplicates(),
        0 <= count < order.len(),
    ensures
        !order.take(count).contains(order[count]),
{
    let before = order.take(count);
    if before.contains(order[count]) {
        let i = choose|i: int| 0 <= i < before.len() && before[i] == order[count];
        assert(order[i] == order[count]);
    }
}

/// Polling a session keeps it well formed and under its id.
pub proof fn lemma_polled_wf(session: SessionState, task: Task)
    requires
        session.wf(),
    ensures
        session.polled(task).wf(),
        session.polled(task).context.session_id == session.context.session_id,
        session.polled(task).service_id == session.service_id,
        session.polled(task).serial == session.serial,
{
}

/// Moving polled sessions to the back keeps the manager well formed.
pub proof fn lemma_rotated_wf(state: ManagerState, count: int, task: Task)
    requires
        state.wf(),
        0 <= count <= state.poll_order.len(),
    ensures
        state.rotated(count, task).wf(),
        state.rotated(count, task).poll_order.len() == state.poll_order.len(),
{
    let after = state.rotated(count, task);
    let len = state.poll_order.len() as int;
    assert forall|i: int| 0 <= i < len implies #[trigger] after.poll_order[i] == state.poll_order[if i
        < len - count {
        i + count
    } else {
        i - (len - count)
    }] by {}
    assert forall|i: int, j: int|
        0 <= i < len && 0 <= j < len && i != j implies after.poll_order[i]
        != after.poll_order[j] by {}
    assert forall|i: int| 0 <= i < after.poll_order.len() implies after.sessions.contains_key(
        #[trigger] after.poll_order[i],
    ) by {}
    assert forall|id: u32| #[trigger]
        after.sessions.contains_key(id) implies after.poll_order.contains(id) by {
        assert(state.poll_order.contains(id));
        let i = choose|i: int| 0 <= i < len && state.poll_order[i] == id;
        if i < count {
            assert(after.poll_order[i + len - count] == id);
        } else {
            assert(after.poll_order[i - count] == id);
        }
    }
    assert forall|id: u32| #[trigger] after.sessions.contains_key(id) implies after.sessions[id].wf()
        && after.sessions[id].context.session_id == id by {
        lemma_polled_wf(state.sessions[id], task);
    }
}

/// A poll that returns from the session at place `index` keeps the manager
/// well formed; the session is then last in the queue, or gone after a HUP.
pub proof fn lemma_after_yield_wf(state: ManagerState, index: int, task: Task)
    requires
        state.wf(),
        0 <= index < state.poll_order.len(),
    ensures
        state.after_yield(index, task).wf(),
        state.has_input(index) ==> state.after_yield(index, task).poll_order.last()
            == state.poll_order[index] && state.after_yield(index, task).poll_order.len()
            == state.poll_order.len(),
        !state.has_input(index) ==> !state.after_yield(index, task).sessions.contains_key(
            state.poll_order[index],
        ) && !state.after_yield(index, task).poll_order.contains(state.poll_order[index]),
{
    let after = state.after_yield(index, task);
    let len = state.poll_order.len() as int;
    let gone = state.poll_order[index];
    if state.has_input(index) {
        lemma_rotated_wf(state, index + 1, task);
    } else {
        lemma_rotated_wf(state, index, task);
        let rotated = state.rotated(index, task);
        assert forall|i: int| 0 <= i < len - 1 implies #[trigger] after.poll_order[i]
            == state.poll_order[if i < len - index - 1 {
            i + index + 1
        } else {
            i - (len - index - 1)
        }] by {}
        assert forall|i: int, j: int|
            0 <= i < len - 1 && 0 <= j < len - 1 && i != j implies after.poll_order[i]
            != after.poll_order[j] by {}
        assert forall|i: int| 0 <= i < after.poll_order.len() implies after.sessions.contains_key(
            #[trigger] after.poll_order[i],
        ) by {}
        assert forall|id: u32| #[trigger]
            after.sessions.contains_key(id) implies after.poll_order.contains(id) by {
            assert(state.poll_order.contains(id));
            let i = choose|i: int| 0 <= i < len && state.poll_order[i] == id;
            if i < index {
                assert(after.poll_order[i + len - index - 1] == id);
            } else {
                assert(after.poll_order[i - index - 1] == id);
            }
        }
        assert forall|id: u32| #[trigger]
            after.sessions.contains_key(id) implies after.sessions[id].wf()
            && after.sessions[id].context.session_id == id by {
            lemma_polled_wf(state.sessions[id], task);
        }
        if after.poll_order.contains(gone) {
            let i = choose|i: int| 0 <= i < len - 1 && after.poll_order[i] == gone;
            assert(false);
        }
    }
}

/// At most one place is that of the first session that is due: the state of
/// the manager decides what a poll returns and what it leaves behind.
pub proof fn law_first_due_is_unique(state: ManagerState, a: int, b: int)
    requires
        state.first_due(a),
        state.first_due(b),
    ensures
        a == b,
{
    if a < b {
        assert(!state.due(a));
    } else if b < a {
        assert(!state.due(b));
    }
}

/// Where the session at `place` is due, some session at or before it is the
/// first that is due.
pub proof fn lemma_first_due_exists(state: ManagerState, place: int) -> (index: int)
    requires
        0 <= place < state.poll_order.len(),
        state.due(place),
    ensures
        state.first_due(index),
        index <= place,
    decreases place,
{
    if exists|earlier: int| 0 <= earlier < place && #[trigger] state.due(earlier) {
        let earlier = choose|earlier: int| 0 <= earlier < place && #[trigger] state.due(earlier);
        lemma_first_due_exists(state, earlier)
    } else {
        place
    }
}

/// Fairness. Take a poll that returned data from a session, and a later
/// poll that returns from the same session again, with the same sessions
/// queued in the same order in between. Then no other session was due at
/// the later poll: the session was tried last.
pub proof fn law_poll_is_fair(
    before: ManagerState,
    first: int,
    task: Task,
    later: ManagerState,
    second: int,
)
    requires
        before.wf(),
        before.first_due(first),
        before.has_input(first),
        later.wf(),
        later.poll_order == before.after_yield(first, task).poll_order,
        later.first_due(second),
        later.poll_order[second] == before.poll_order[first],
    ensures
        forall|id: u32| #[trigger]
            later.sessions.contains_key(id) && id != before.poll_order[first]
                ==> !later.sessions[id].context.input_due(),
{
    lemma_after_yield_wf(before, first, task);
    let len = later.poll_order.len() as int;
    assert(later.poll_order[len - 1] == later.poll_order[second]);
    assert(second == len - 1);
    assert forall|id: u32| #[trigger]
        later.sessions.contains_key(id) && id != before.poll_order[first]
        implies !later.sessions[id].context.input_due() by {
        assert(later.poll_order.contains(id));
        let place = choose|place: int| 0 <= place < len && later.poll_order[place] == id;
        assert(!later.due(place));
    }
}

/// No starvation. Where the session at `place` is due, a poll returns from
/// it or from a session before it; in the latter case the session is left
/// as it was and stands closer to the front of the queue afterwards. So it
/// is returned from after at most `place` other polls.
pub proof fn law_due_session_moves_up(state: ManagerState, place: int, task: Task) -> (index: int)
    requires
        state.wf(),
        0 <= place < state.poll_order.len(),
        state.due(place),
    ensures
        state.first_due(index),
        index <= place,
        index < place ==> {
            let after = state.after_yield(index, task);
            &&& after.poll_order[place - index - 1] == state.poll_order[place]
            &&& after.sessions.contains_key(state.poll_order[place])
            &&& after.sessions[state.poll_order[place]] == state.sessions[state.poll_order[place]]
        },
{
    let index = lemma_first_due_exists(state, place);
    if index < place {
        let id = state.poll_order[place];
        let shorter = state.poll_order.take(index);
        let longer = state.poll_order.take(index + 1);
        assert(!longer.contains(id)) by {
            if longer.contains(id) {
                let i = choose|i: int| 0 <= i < longer.len() && longer[i] == id;
                assert(state.poll_order[i] == state.poll_order[place]);
            }
        }
        assert(!shorter.contains(id)) by {
            if shorter.contains(id) {
                let i = choose|i: int| 0 <= i < shorter.len() && shorter[i] == id;
                assert(state.poll_order[i] == state.poll_order[place]);
            }
        }
        assert(state.sessions.contains_key(state.poll_order[place]));
    }
    index
}

/// A session that is not in the manager is not in the queue, and a poll
/// tries only sessions of the queue: once a session has left the manager,
/// no poll visits it again.
pub proof fn law_removed_session_is_not_polled(state: ManagerState, id: u32)
    requires
        state.wf(),
        !state.sessions.contains_key(id),
    ensures
        !state.poll_order.contains(id),
        forall|index: int| 0 <= index < state.poll_order.len() ==> state.poll_order[index] != id,
        forall|index: int| #[trigger] state.first_due(index) ==> state.poll_order[index] != id,
{
    assert forall|index: int| 0 <= index < state.poll_order.len() implies state.poll_order[index]
        != id by {
        assert(state.sessions.contains_key(state.poll_order[index]));
    }
}

/// A poll returns a HUP exactly where the first session that is due has no
/// input left: the session is then closed and drained. The HUP names the
/// session and its service, its error code is 0 if and only if no error was
/// recorded, and the session leaves the manager and the queue, so that no
/// later poll returns from it: one HUP ends a session. Where the session
/// has input, the poll returns data and the session stays.
pub proof fn law_hup_ends_session(state: ManagerState, index: int, task: Task)
    requires
        state.wf(),
        state.first_due(index),
    ensures
        state.after_yield(index, task).wf(),
        state.has_input(index) ==> {
            &&& state.yields_at(index).body is Data
            &&& state.after_yield(index, task).sessions.contains_key(state.poll_order[index])
        },
        !state.has_input(index) ==> {
            let id = state.poll_order[index];
            let session = state.sessions[id];
            let after = state.after_yield(index, task);
            &&& session.context.drained()
            &&& state.yields_at(index) == hup_view(
                session.service_id,
                id,
                if session.context.error is None {
                    HUP_NO_ERROR
                } else {
                    HUP_CONNECTION_ERROR
                },
            )
            &&& (state.yields_at(index).body matches BodyView::Control(hup) && (hup->error_code
                == 0 <==> session.context.error is None))
            &&& !after.sessions.contains_key(id)
            &&& !after.poll_order.contains(id)
        },
{
    lemma_after_yield_wf(state, index, task);
    assert(state.sessions.contains_key(state.poll_order[index]));
}

} // verus!
