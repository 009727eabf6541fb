//! The mathematical value of a session context, its operations as functions
//! from state to state, and what holds of every sequence of them.

use crate::context::{output_limit, INPUT_BUFFER_LIMIT, OUTPUT_BUFFER_LIMIT};
use crate::error::SessionError;
use futures::task::Task;
use vstd::prelude::*;

verus! {

/// The mathematical value of a session context.
#[verifier::ext_equal]
pub struct ContextState {
    pub service_id: u16,
    pub session_id: u32,
    /// Bytes from the socket that upstream has not taken yet.
    pub input: Seq<u8>,
    /// Bytes from upstream that the socket has not taken yet.
    pub output: Seq<u8>,
    /// The task that waits for input to arrive.
    pub input_ready: Option<Task>,
    /// The task that waits for the input buffer to be drained.
    pub input_empty: Option<Task>,
    /// The task that waits for output to arrive.
    pub output_ready: Option<Task>,
    pub closed: bool,
    pub error: Option<SessionError>,
}

impl ContextState {
    /// Both buffers are within their limits, an error is recorded only on a
    /// closed context, and no task waits for something that already holds.
    pub open spec fn wf(self) -> bool {
        &&& self.input.len() <= INPUT_BUFFER_LIMIT
        &&& self.output.len() <= output_limit() <= OUTPUT_BUFFER_LIMIT
        &&& (self.error is Some ==> self.closed)
        &&& (self.input_ready is Some ==> self.input.len() == 0)
        &&& (self.input_empty is Some ==> self.input.len() > 0)
        &&& (self.output_ready is Some ==> self.output.len() == 0)
    }

    /// An open context with empty buffers and nobody waiting.
    pub open spec fn fresh(service_id: u16, session_id: u32) -> ContextState {
        ContextState {
            service_id,
            session_id,
            input: Seq::empty(),
            output: Seq::empty(),
            input_ready: None,
            input_empty: None,
            output_ready: None,
            closed: false,
            error: None,
        }
    }

    /// Nothing is left to take upstream and nothing more will arrive.
    pub open spec fn drained(self) -> bool {
        self.closed && self.input.len() == 0
    }

    /// Taking upstream would yield a message, an error or the end of the
    /// stream, rather than make the caller wait.
    pub open spec fn input_due(self) -> bool {
        self.input.len() > 0 || self.closed
    }

    /// The context once closed.
    pub open spec fn close(self) -> ContextState {
        ContextState { closed: true, ..self }
    }

    /// The context after `error` was reported: the first report closes the
    /// context and is kept, later ones change nothing.
    pub open spec fn set_error(self, error: SessionError) -> ContextState {
        if self.closed {
            self
        } else {
            ContextState { closed: true, error: Some(error), ..self }
        }
    }

    /// Whether `payload` would take the output buffer of an open context over
    /// its limit.
    pub open spec fn output_overflows(self, payload: Seq<u8>) -> bool {
        self.output.len() + payload.len() > output_limit()
    }

    /// The context after upstream offered `payload`.
    pub open spec fn push_output(self, payload: Seq<u8>) -> ContextState {
        if self.closed {
            self
        } else if self.output_overflows(payload) {
            self.set_error(SessionError::OutputLimitExceeded)
        } else if (self.output + payload).len() > 0 {
            ContextState { output: self.output + payload, output_ready: None, ..self }
        } else {
            self
        }
    }

    /// The context after upstream tried to take a message on behalf of
    /// `task`.
    pub open spec fn take_input(self, task: Task) -> ContextState {
        if self.input.len() > 0 {
            ContextState { input: Seq::empty(), input_empty: None, ..self }
        } else if self.closed {
            ContextState { error: None, ..self }
        } else {
            ContextState { input_ready: Some(task), ..self }
        }
    }

    /// How many bytes of a chunk of `len` bytes the input buffer accepts.
    pub open spec fn input_room(self, len: nat) -> nat {
        if self.input.len() + len > INPUT_BUFFER_LIMIT {
            (INPUT_BUFFER_LIMIT - self.input.len()) as nat
        } else {
            len
        }
    }

    /// The bytes of `data` that the input buffer of an open context does not
    /// accept: what goes beyond its limit.
    pub open spec fn rejected(self, data: Seq<u8>) -> Seq<u8> {
        data.subrange(self.input_room(data.len()) as int, data.len() as int)
    }

    /// The context after the socket side offered `data` on behalf of `task`.
    pub open spec fn push_input(self, data: Seq<u8>, task: Task) -> ContextState {
        if self.closed {
            self
        } else {
            let accepted = data.subrange(0, self.input_room(data.len()) as int);
            let input = self.input + accepted;
            ContextState {
                input,
                input_ready: if input.len() > 0 {
                    None
                } else {
                    self.input_ready
                },
                input_empty: if accepted.len() < data.len() {
                    Some(task)
                } else {
                    self.input_empty
                },
                ..self
            }
        }
    }

    /// The context after the socket side asked on behalf of `task` whether
    /// the input buffer is drained.
    pub open spec fn flush_input(self, task: Task) -> ContextState {
        if self.input.len() > 0 {
            ContextState { input_empty: Some(task), ..self }
        } else {
            self
        }
    }

    /// The context after the socket side tried to take output on behalf of
    /// `task`.
    pub open spec fn take_output(self, task: Task) -> ContextState {
        if self.output.len() > 0 {
            ContextState { output: Seq::empty(), ..self }
        } else if self.closed {
            self
        } else {
            ContextState { output_ready: Some(task), ..self }
        }
    }

    /// The bytes that a take upstream hands out, if any: all the input.
    pub open spec fn yields_input(self) -> Option<Seq<u8>> {
        if self.input.len() > 0 {
            Some(self.input)
        } else {
            None
        }
    }

    /// The bytes that a take on the socket side hands out, if any: all the
    /// output.
    pub open spec fn yields_output(self) -> Option<Seq<u8>> {
        if self.output.len() > 0 {
            Some(self.output)
        } else {
            None
        }
    }

    /// The context after one operation.
    pub open spec fn apply(self, op: ContextOp) -> ContextState {
        match op {
            ContextOp::PushOutput(payload) => self.push_output(payload),
            ContextOp::TakeInput(task) => self.take_input(task),
            ContextOp::PushInput(data, task) => self.push_input(data, task),
            ContextOp::FlushInput(task) => self.flush_input(task),
            ContextOp::TakeOutput(task) => self.take_output(task),
            ContextOp::Close => self.close(),
            ContextOp::SetError(error) => self.set_error(error),
        }
    }

    /// The context after a sequence of operations, first to last.
    pub open spec fn run(self, ops: Seq<ContextOp>) -> ContextState
        decreases ops.len(),
    {
        if ops.len() == 0 {
            self
        } else {
            self.run(ops.drop_last()).apply(ops.last())
        }
    }
}

/// One operation on a session context, with its arguments.
pub enum ContextOp {
    PushOutput(Seq<u8>),
    TakeInput(Task),
    PushInput(Seq<u8>, Task),
    FlushInput(Task),
    TakeOutput(Task),
    Close,
    SetError(SessionError),
}

/// Every operation keeps a well-formed context well formed.
pub proof fn lemma_apply_wf(state: ContextState, op: ContextOp)
    requires
        state.wf(),
    ensures
        state.apply(op).wf(),
        state.apply(op).service_id == state.service_id,
        state.apply(op).session_id == state.session_id,
{
}

/// Whatever is done to a context from its creation on, and in whatever
/// order, its input buffer never holds more than `INPUT_BUFFER_LIMIT` bytes
/// and its output buffer never more than `OUTPUT_BUFFER_LIMIT`.
pub proof fn law_buffers_stay_within_limits(service_id: u16, session_id: u32, ops: Seq<ContextOp>)
    ensures
        ContextState::fresh(service_id, session_id).run(ops).wf(),
        ContextState::fresh(service_id, session_id).run(ops).input.len() <= INPUT_BUFFER_LIMIT,
        ContextState::fresh(service_id, session_id).run(ops).output.len() <= OUTPUT_BUFFER_LIMIT,
    decreases ops.len(),
{
    if ops.len() > 0 {
        law_buffers_stay_within_limits(service_id, session_id, ops.drop_last());
        lemma_apply_wf(ContextState::fresh(service_id, session_id).run(ops.drop_last()), ops.last());
    }
}

/// Closing touches neither buffer, so that the takes go on to hand out what
/// was there, in order. Whatever is done to a closed context afterwards, it
/// stays closed and neither buffer grows: each holds what it held or has
/// been emptied by a take.
pub proof fn law_closed_buffers_only_drain(state: ContextState, ops: Seq<ContextOp>)
    requires
        state.wf(),
    ensures
        state.close().yields_input() == state.yields_input(),
        state.close().yields_output() == state.yields_output(),
        state.closed ==> {
            let after = state.run(ops);
            &&& after.closed
            &&& after.wf()
            &&& (after.input == state.input || after.input.len() == 0)
            &&& (after.output == state.output || after.output.len() == 0)
        },
    decreases ops.len(),
{
    if state.closed && ops.len() > 0 {
        law_closed_buffers_only_drain(state, ops.drop_last());
        lemma_apply_wf(state.run(ops.drop_last()), ops.last());
    }
}

/// An open context splits what the socket side offers without loss: what it
/// appends to the input, followed by what it hands back, is what waited
/// before, followed by what was offered. It hands nothing back if and only
/// if all of it fits under `INPUT_BUFFER_LIMIT`.
pub proof fn law_offered_input_is_split_without_loss(state: ContextState, data: Seq<u8>, task: Task)
    requires
        state.wf(),
        !state.closed,
    ensures
        state.push_input(data, task).input + state.rejected(data) == state.input + data,
        state.rejected(data).len() == 0 <==> state.input.len() + data.len() <= INPUT_BUFFER_LIMIT,
        state.rejected(data).len() > 0 ==> state.push_input(data, task).input.len()
            == INPUT_BUFFER_LIMIT,
{
    let room = state.input_room(data.len()) as int;
    assert(data.subrange(0, room) + data.subrange(room, data.len() as int) =~= data);
    assert(state.push_input(data, task).input + state.rejected(data) =~= state.input + data);
}

/// Bytes that the input buffer accepted whole are handed out by the next
/// take upstream, in order and behind the bytes that waited before them.
/// That take empties the buffer, so that no later take hands them out
/// again.
pub proof fn law_accepted_input_is_taken_once(
    state: ContextState,
    data: Seq<u8>,
    pusher: Task,
    taker: Task,
)
    requires
        state.wf(),
        !state.closed,
        data.len() > 0,
        state.input.len() + data.len() <= INPUT_BUFFER_LIMIT,
    ensures
        state.push_input(data, pusher).yields_input() == Some(state.input + data),
        state.push_input(data, pusher).take_input(taker).yields_input() is None,
{
    assert(data.subrange(0, data.len() as int) =~= data);
}

} // verus!
