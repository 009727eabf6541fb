//! The session context: the bounded buffers between one TCP connection and
//! the upstream message stream.
//!
//! Bytes that arrive on the socket wait in the input buffer until the
//! upstream side takes them as an Arrow Message; payloads that arrive from
//! upstream wait in the output buffer until the socket side takes them. A
//! side that finds nothing to do leaves its task handle in one of three
//! slots, and the operation that changes what it waits for takes the handle
//! out and notifies it. So no handle stays in a slot while what it waits for
//! holds: that is part of [`ContextState::wf`], which holds of every context
//! at all times.
//!
//! Each slot holds one handle, that of the latest caller. A context expects
//! one task on each of its sides; a second task that waits for the same
//! thing takes the place of the first, which is then not notified.

use crate::buffer::{
    buffer_bytes, buffer_extend, buffer_freeze, buffer_len, buffer_take, buffer_with_capacity,
    chunk_bytes, chunk_len, chunk_slice, chunk_split_to,
};
use crate::context_state::ContextState;
use crate::error::SessionError;
use crate::msg::{ArrowMessage, ArrowMessageBody, BodyView, MessageView};
use crate::poll::{Async, AsyncSink};
use crate::task::{duplicate, notify};
use bytes::{Bytes, BytesMut};
use futures::task::Task;
use vstd::prelude::*;

verus! {

/// The most bytes that the input buffer holds.
pub const INPUT_BUFFER_LIMIT: usize = 32768;

/// The most bytes that the output buffer holds.
pub const OUTPUT_BUFFER_LIMIT: usize = 4_294_967_295;

/// The most bytes that the output buffer holds on this machine:
/// `OUTPUT_BUFFER_LIMIT`, or the largest buffer that the machine can have
/// where that is less, as it is with addresses of 32 bits.
pub open spec fn spec_output_limit() -> usize {
    if OUTPUT_BUFFER_LIMIT <= isize::MAX {
        OUTPUT_BUFFER_LIMIT
    } else {
        isize::MAX as usize
    }
}

/// The most bytes that the output buffer holds on this machine:
/// `OUTPUT_BUFFER_LIMIT`, or the largest buffer that the machine can have
/// where that is less, as it is with addresses of 32 bits.
#[verifier::when_used_as_spec(spec_output_limit)]
pub fn output_limit() -> (limit: usize)
    ensures
        limit == spec_output_limit(),
        limit <= OUTPUT_BUFFER_LIMIT,
        limit <= isize::MAX,
{
    let largest = isize::MAX as usize;
    if OUTPUT_BUFFER_LIMIT <= largest {
        OUTPUT_BUFFER_LIMIT
    } else {
        largest
    }
}

/// The initial capacity of either buffer.
const INITIAL_CAPACITY: usize = 8192;

/// The state of a session context and the operations on it. Nothing in the
/// type keeps the state well formed: the operations ask for it and keep it.
#[derive(Debug)]
struct ContextCore {
    service_id: u16,
    session_id: u32,
    input: BytesMut,
    output: BytesMut,
    input_ready: Option<Task>,
    input_empty: Option<Task>,
    output_ready: Option<Task>,
    closed: bool,
    error: Option<SessionError>,
}

impl View for ContextCore {
    type V = ContextState;

    closed spec fn view(&self) -> ContextState {
        ContextState {
            service_id: self.service_id,
            session_id: self.session_id,
            input: buffer_bytes(self.input),
            output: buffer_bytes(self.output),
            input_ready: self.input_ready,
            input_empty: self.input_empty,
            output_ready: self.output_ready,
            closed: self.closed,
            error: self.error,
        }
    }
}

impl ContextCore {
    /// A new context for a given service ID and session ID, with buffers of
    /// the given capacity.
    fn new(service_id: u16, session_id: u32, capacity: usize) -> (context: ContextCore)
        requires
            capacity <= isize::MAX,
        ensures
            context@ == ContextState::fresh(service_id, session_id),
            context@.wf(),
    {
        ContextCore {
            service_id,
            session_id,
            input: buffer_with_capacity(capacity),
            output: buffer_with_capacity(capacity),
            input_ready: None,
            input_empty: None,
            output_ready: None,
            closed: false,
            error: None,
        }
    }

    /// The service that the session talks to.
    fn service_id(&self) -> (id: u16)
        ensures
            id == self@.service_id,
    {
        self.service_id
    }

    /// The id of the session.
    fn session_id(&self) -> (id: u32)
        ensures
            id == self@.session_id,
    {
        self.session_id
    }

    /// Whether the context has been closed.
    fn is_closed(&self) -> (closed: bool)
        ensures
            closed == self@.closed,
    {
        self.closed
    }

    /// The number of bytes waiting in the input buffer.
    fn input_len(&self) -> (len: usize)
        ensures
            len == self@.input.len(),
    {
        buffer_len(&self.input)
    }

    /// The number of bytes waiting in the output buffer.
    fn output_len(&self) -> (len: usize)
        ensures
            len == self@.output.len(),
    {
        buffer_len(&self.output)
    }

    /// What [`SessionContext::push_output_message`] does.
    fn push_output_message(&mut self, msg: ArrowMessage)
        requires
            old(self)@.wf(),
        ensures
            final(self)@ == old(self)@.push_output(msg@.payload()),
            final(self)@.wf(),
    {
        // ignore all incoming messages after the connection gets closed
        if self.closed {
            return ;
        }
        let (_, body) = msg.into_parts();
        match body {
            ArrowMessageBody::Data(data) => {
                let len = chunk_len(&data);
                if len > output_limit() - buffer_len(&self.output) {
                    // we cannot backpressure here, so we'll set an error state
                    self.set_error(SessionError::OutputLimitExceeded);
                } else {
                    buffer_extend(&mut self.output, chunk_slice(&data));
                    // any task consuming the output buffer learns that there
                    // is some data available again
                    if buffer_len(&self.output) > 0 {
                        if let Some(task) = self.output_ready.take() {
                            notify(&task);
                        }
                    }
                }
            },
            ArrowMessageBody::Control(_) => {
                // nothing to append, and nobody waits for output that is
                // already there
                assert(old(self)@.output + Seq::<u8>::empty() =~= old(self)@.output);
            },
        }
    }

    /// What [`SessionContext::take_input_message`] does.
    fn take_input_message(&mut self, task: &Task) -> (res: Result<
        Async<Option<ArrowMessage>>,
        SessionError,
    >)
        requires
            old(self)@.wf(),
        ensures
            final(self)@ == old(self)@.take_input(*task),
            final(self)@.wf(),
            match res {
                Ok(Async::Ready(Some(msg))) => {
                    &&& old(self)@.yields_input() == Some(old(self)@.input)
                    &&& msg@ == (MessageView {
                        service: old(self)@.service_id,
                        session: old(self)@.session_id,
                        body: BodyView::Data(old(self)@.input),
                    })
                },
                Ok(Async::Ready(None)) => {
                    &&& old(self)@.drained()
                    &&& old(self)@.error is None
                },
                Err(error) => {
                    &&& old(self)@.drained()
                    &&& old(self)@.error == Some(error)
                },
                Ok(Async::NotReady) => !old(self)@.input_due(),
            },
    {
        let data = buffer_freeze(buffer_take(&mut self.input));
        if chunk_len(&data) > 0 {
            // any task feeding the input buffer learns that the buffer is
            // empty again
            if let Some(task) = self.input_empty.take() {
                notify(&task);
            }
            let message = ArrowMessage::new(self.service_id, self.session_id, data);
            Ok(Async::Ready(Some(message)))
        } else if self.closed {
            assert(buffer_bytes(self.input) =~= old(self)@.input);
            match self.error.take() {
                Some(err) => Err(err),
                None => Ok(Async::Ready(None)),
            }
        } else {
            assert(buffer_bytes(self.input) =~= old(self)@.input);
            // keep the current task until there is some data available in
            // the input buffer
            self.input_ready = Some(duplicate(task));
            Ok(Async::NotReady)
        }
    }

    /// What [`SessionContext::push_input_data`] does.
    fn push_input_data(&mut self, msg: Bytes, task: &Task) -> (res: Result<
        AsyncSink<Bytes>,
        SessionError,
    >)
        requires
            old(self)@.wf(),
        ensures
            final(self)@ == old(self)@.push_input(chunk_bytes(msg), *task),
            final(self)@.wf(),
            match res {
                Ok(AsyncSink::Ready) => {
                    &&& !old(self)@.closed
                    &&& old(self)@.rejected(chunk_bytes(msg)).len() == 0
                },
                Ok(AsyncSink::NotReady(rest)) => {
                    &&& !old(self)@.closed
                    &&& old(self)@.rejected(chunk_bytes(msg)).len() > 0
                    &&& chunk_bytes(rest) == old(self)@.rejected(chunk_bytes(msg))
                },
                Err(error) => old(self)@.closed && error is ConnectionReset,
            },
    {
        if self.closed {
            return Err(SessionError::ConnectionReset);
        }
        let mut msg = msg;
        let room: usize = INPUT_BUFFER_LIMIT - buffer_len(&self.input);
        let mut take: usize = chunk_len(&msg);
        if take > room {
            take = room;
        }
        let head = chunk_split_to(&mut msg, take);
        buffer_extend(&mut self.input, chunk_slice(&head));
        // any task consuming the input buffer learns that there is some data
        // available again
        if buffer_len(&self.input) > 0 {
            if let Some(task) = self.input_ready.take() {
                notify(&task);
            }
        }
        if chunk_len(&msg) > 0 {
            // keep the current task until there is some space in the input
            // buffer again
            self.input_empty = Some(duplicate(task));
            Ok(AsyncSink::NotReady(msg))
        } else {
            Ok(AsyncSink::Ready)
        }
    }

    /// What [`SessionContext::flush_input_buffer`] does.
    fn flush_input_buffer(&mut self, task: &Task) -> (res: Result<Async<()>, SessionError>)
        requires
            old(self)@.wf(),
        ensures
            final(self)@ == old(self)@.flush_input(*task),
            final(self)@.wf(),
            res is Ok,
            res matches Ok(Async::Ready(_)) <==> old(self)@.input.len() == 0,
    {
        if buffer_len(&self.input) > 0 {
            // keep the current task until the input buffer is empty
            self.input_empty = Some(duplicate(task));
            Ok(Async::NotReady)
        } else {
            Ok(Async::Ready(()))
        }
    }

    /// What [`SessionContext::take_output_data`] does.
    fn take_output_data(&mut self, task: &Task) -> (res: Result<
        Async<Option<Bytes>>,
        SessionError,
    >)
        requires
            old(self)@.wf(),
        ensures
            final(self)@ == old(self)@.take_output(*task),
            final(self)@.wf(),
            match res {
                Ok(Async::Ready(Some(data))) => old(self)@.yields_output() == Some(
                    chunk_bytes(data),
                ),
                Ok(Async::Ready(None)) => old(self)@.output.len() == 0 && old(self)@.closed,
                Ok(Async::NotReady) => old(self)@.output.len() == 0 && !old(self)@.closed,
                Err(_) => false,
            },
    {
        let data = buffer_freeze(buffer_take(&mut self.output));
        if chunk_len(&data) > 0 {
            Ok(Async::Ready(Some(data)))
        } else if self.closed {
            assert(buffer_bytes(self.output) =~= old(self)@.output);
            Ok(Async::Ready(None))
        } else {
            assert(buffer_bytes(self.output) =~= old(self)@.output);
            // keep the current task until there is some data in the output
            // buffer available again
            self.output_ready = Some(duplicate(task));
            Ok(Async::NotReady)
        }
    }

    /// What [`SessionContext::close`] does.
    fn close(&mut self)
        requires
            old(self)@.wf(),
        ensures
            final(self)@ == old(self)@.close(),
            final(self)@.wf(),
    {
        self.closed = true;
    }

    /// What [`SessionContext::set_error`] does.
    fn set_error(&mut self, err: SessionError)
        requires
            old(self)@.wf(),
        ensures
            final(self)@ == old(self)@.set_error(err),
            final(self)@.wf(),
    {
        // ignore all errors after the connection gets closed
        if !self.closed {
            self.closed = true;
            self.error = Some(err);
        }
    }
}

/// Session context.
#[derive(Debug)]
pub struct SessionContext {
    core: ContextCore,
}

impl View for SessionContext {
    type V = ContextState;

    closed spec fn view(&self) -> ContextState {
        self.core@
    }
}

impl SessionContext {
    /// Every session context is well formed, at all times.
    #[verifier::type_invariant]
    spec fn well_formed(self) -> bool {
        self.core@.wf()
    }

    /// Create a new session context for a given service ID and session ID.
    pub fn new(service_id: u16, session_id: u32) -> (context: SessionContext)
        ensures
            context@ == ContextState::fresh(service_id, session_id),
            context@.wf(),
    {
        SessionContext { core: ContextCore::new(service_id, session_id, INITIAL_CAPACITY) }
    }

    /// The service that the session talks to.
    pub fn service_id(&self) -> (id: u16)
        ensures
            id == self@.service_id,
    {
        self.core.service_id()
    }

    /// The id of the session.
    pub fn session_id(&self) -> (id: u32)
        ensures
            id == self@.session_id,
    {
        self.core.session_id()
    }

    /// Whether the context has been closed.
    pub fn is_closed(&self) -> (closed: bool)
        ensures
            closed == self@.closed,
    {
        self.core.is_closed()
    }

    /// The number of bytes waiting in the input buffer.
    pub fn input_len(&self) -> (len: usize)
        ensures
            len == self@.input.len(),
    {
        self.core.input_len()
    }

    /// The number of bytes waiting in the output buffer.
    pub fn output_len(&self) -> (len: usize)
        ensures
            len == self@.output.len(),
    {
        self.core.output_len()
    }

    /// Takes the state out for an operation to work on, and leaves an empty
    /// one in its place until the operation puts the state back.
    fn take_core(&mut self) -> (core: ContextCore)
        ensures
            core@ == old(self)@,
            core@.wf(),
    {
        proof {
            use_type_invariant(&*self);
        }
        let mut core = ContextCore::new(0, 0, 0);
        core::mem::swap(&mut self.core, &mut core);
        core
    }

    /// Extend the output buffer with the payload of a given Arrow Message.
    ///
    /// A closed context drops the message. A payload that would take the
    /// buffer over `output_limit()` is not appended: it closes the context
    /// with `SessionError::OutputLimitExceeded`, because there is no way to
    /// make upstream wait. Otherwise the payload is appended and the task
    /// that waits for output is notified. A control message carries no
    /// service bytes and appends nothing.
    pub fn push_output_message(&mut self, msg: ArrowMessage)
        ensures
            final(self)@ == old(self)@.push_output(msg@.payload()),
            final(self)@.wf(),
    {
        let mut core = self.take_core();
        core.push_output_message(msg);
        self.core = core;
    }

    /// Take all the data from the input buffer and return them as an Arrow
    /// Message. The method returns:
    /// * `Ok(Async::Ready(Some(_)))` if there was some data available; the
    ///   task that waits for the buffer to be drained is notified
    /// * `Ok(Async::Ready(None))` if there was no data available and the
    ///   context has been closed without an error
    /// * `Err(_)` with the recorded error if there was no data available and
    ///   the context has been closed with one; the error is handed out once
    /// * `Ok(Async::NotReady)` if there was no data available; `task` is kept
    ///   and notified when data arrives
    pub fn take_input_message(&mut self, task: &Task) -> (res: Result<
        Async<Option<ArrowMessage>>,
        SessionError,
    >)
        ensures
            final(self)@ == old(self)@.take_input(*task),
            final(self)@.wf(),
            match res {
                Ok(Async::Ready(Some(msg))) => {
                    &&& old(self)@.yields_input() == Some(old(self)@.input)
                    &&& msg@ == (MessageView {
                        service: old(self)@.service_id,
                        session: old(self)@.session_id,
                        body: BodyView::Data(old(self)@.input),
                    })
                },
                Ok(Async::Ready(None)) => {
                    &&& old(self)@.drained()
                    &&& old(self)@.error is None
                },
                Err(error) => {
                    &&& old(self)@.drained()
                    &&& old(self)@.error == Some(error)
                },
                Ok(Async::NotReady) => !old(self)@.input_due(),
            },
    {
        let mut core = self.take_core();
        let res = core.take_input_message(task);
        self.core = core;
        res
    }

    /// Extend the input buffer with given data. The method returns:
    /// * `Ok(AsyncSink::NotReady(_))` with the remaining data if the input
    ///   buffer is full; `task` is kept and notified when the buffer has
    ///   been drained
    /// * `Ok(AsyncSink::Ready)` if all the given data has been inserted into
    ///   the input buffer
    /// * `Err(SessionError::ConnectionReset)` if the context has been closed
    ///
    /// The task that waits for input is notified when the buffer holds data
    /// afterwards.
    pub fn push_input_data(&mut self, msg: Bytes, task: &Task) -> (res: Result<
        AsyncSink<Bytes>,
        SessionError,
    >)
        ensures
            final(self)@ == old(self)@.push_input(chunk_bytes(msg), *task),
            final(self)@.wf(),
            match res {
                Ok(AsyncSink::Ready) => {
                    &&& !old(self)@.closed
                    &&& old(self)@.rejected(chunk_bytes(msg)).len() == 0
                },
                Ok(AsyncSink::NotReady(rest)) => {
                    &&& !old(self)@.closed
                    &&& old(self)@.rejected(chunk_bytes(msg)).len() > 0
                    &&& chunk_bytes(rest) == old(self)@.rejected(chunk_bytes(msg))
                },
                Err(error) => old(self)@.closed && error is ConnectionReset,
            },
    {
        let mut core = self.take_core();
        let res = core.push_input_data(msg, task);
        self.core = core;
        res
    }

    /// Flush the input buffer. The method returns:
    /// * `Ok(Async::Ready(()))` if the input buffer is empty
    /// * `Ok(Async::NotReady)` if the buffer is not empty; `task` is kept and
    ///   notified when the buffer has been drained
    pub fn flush_input_buffer(&mut self, task: &Task) -> (res: Result<Async<()>, SessionError>)
        ensures
            final(self)@ == old(self)@.flush_input(*task),
            final(self)@.wf(),
            res is Ok,
            res matches Ok(Async::Ready(_)) <==> old(self)@.input.len() == 0,
    {
        let mut core = self.take_core();
        let res = core.flush_input_buffer(task);
        self.core = core;
        res
    }

    /// Take data from the output buffer. The method returns:
    /// * `Ok(Async::Ready(Some(_)))` with everything the buffer held if
    ///   there is some data available
    /// * `Ok(Async::Ready(None))` if the context has been closed and there
    ///   is no data in the output buffer
    /// * `Ok(Async::NotReady)` if there is no data available; `task` is kept
    ///   and notified when output arrives
    pub fn take_output_data(&mut self, task: &Task) -> (res: Result<
        Async<Option<Bytes>>,
        SessionError,
    >)
        ensures
            final(self)@ == old(self)@.take_output(*task),
            final(self)@.wf(),
            match res {
                Ok(Async::Ready(Some(data))) => old(self)@.yields_output() == Some(
                    chunk_bytes(data),
                ),
                Ok(Async::Ready(None)) => old(self)@.output.len() == 0 && old(self)@.closed,
                Ok(Async::NotReady) => old(self)@.output.len() == 0 && !old(self)@.closed,
                Err(_) => false,
            },
    {
        let mut core = self.take_core();
        let res = core.take_output_data(task);
        self.core = core;
        res
    }

    /// Mark the context as closed. Note that this method does not flush any
    /// buffer and notifies nobody.
    pub fn close(&mut self)
        ensures
            final(self)@ == old(self)@.close(),
            final(self)@.wf(),
    {
        let mut core = self.take_core();
        core.close();
        self.core = core;
    }

    /// Mark the context as closed and set a given error. Note that this
    /// method does not flush any buffer. On a closed context it does
    /// nothing: the first error stays.
    pub fn set_error(&mut self, err: SessionError)
        ensures
            final(self)@ == old(self)@.set_error(err),
            final(self)@.wf(),
    {
        let mut core = self.take_core();
        core.set_error(err);
        self.core = core;
    }
}

} // verus!
