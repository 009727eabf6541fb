//! Sessions and the handles of their socket side.
//!
//! A session pairs a context with the service it talks to. Upstream pushes
//! Arrow Messages into it and takes Arrow Messages from it; the TCP side
//! reaches the context through a [`SessionTransport`] and reports its end
//! through a [`SessionErrorHandler`].

use crate::context::SessionContext;
use crate::context_state::ContextState;
use crate::error::SessionError;
use crate::msg::{
    ArrowMessage, BodyView, ControlMessage, MessageView, HUP_CONNECTION_ERROR, HUP_NO_ERROR,
};
use crate::poll::Async;
use futures::task::Task;
use vstd::prelude::*;

verus! {

/// The control message id of every HUP that the manager makes. Whoever
/// frames the HUP for the Control Protocol gives it an id of its own
/// sequence.
pub const HUP_CONTROL_MSG_ID: u16 = 0;

/// The mathematical value of a session.
#[verifier::ext_equal]
pub struct SessionState {
    pub service_id: u16,
    /// Tells the session apart from earlier ones with the same id.
    pub serial: u64,
    pub context: ContextState,
}

impl SessionState {
    /// The context is well formed and belongs to the session's service.
    pub open spec fn wf(self) -> bool {
        &&& self.context.wf()
        &&& self.context.service_id == self.service_id
    }

    /// A new session with an open and empty context.
    pub open spec fn fresh(service_id: u16, session_id: u32, serial: u64) -> SessionState {
        SessionState { service_id, serial, context: ContextState::fresh(service_id, session_id) }
    }

    /// The session with another context.
    pub open spec fn with_context(self, context: ContextState) -> SessionState {
        SessionState { context, ..self }
    }

    /// The session after upstream tried to take a message on behalf of
    /// `task`.
    pub open spec fn polled(self, task: Task) -> SessionState {
        self.with_context(self.context.take_input(task))
    }

    /// What taking a message yields where the session is due: its input as
    /// one message, or, where it is drained, the HUP that ends it, with
    /// error code 0 if and only if no error was recorded.
    pub open spec fn yields(self) -> MessageView {
        if self.context.input.len() > 0 {
            MessageView {
                service: self.context.service_id,
                session: self.context.session_id,
                body: BodyView::Data(self.context.input),
            }
        } else {
            hup_view(
                self.service_id,
                self.context.session_id,
                if self.context.error is None {
                    HUP_NO_ERROR
                } else {
                    HUP_CONNECTION_ERROR
                },
            )
        }
    }
}

/// The HUP message for a session.
pub open spec fn hup_view(service_id: u16, session_id: u32, error_code: u32) -> MessageView {
    MessageView {
        service: service_id,
        session: session_id,
        body: BodyView::Control(
            ControlMessage::Hup { msg_id: HUP_CONTROL_MSG_ID, session_id, error_code },
        ),
    }
}

/// Arrow session (i.e. connection to an external service).
#[derive(Debug)]
pub struct Session {
    service_id: u16,
    serial: u64,
    context: SessionContext,
}

impl View for Session {
    type V = SessionState;

    closed spec fn view(&self) -> SessionState {
        SessionState { service_id: self.service_id, serial: self.serial, context: self.context@ }
    }
}

/// The socket side's handle on a session: it takes what the socket is to
/// write and hands in what the socket has read.
///
/// A handle names its session by id and serial number. The id alone would
/// not do: upstream may open a session under the id of one that has ended
/// while the TCP side of the ended one is still at work, and the serial
/// number keeps that one away from the new session.
#[derive(Clone, Copy, Debug, PartialEq, Eq, Structural)]
pub struct SessionTransport {
    pub session_id: u32,
    pub serial: u64,
}

/// The handle through which the TCP bridge reports the error that ended it.
#[derive(Clone, Copy, Debug, PartialEq, Eq, Structural)]
pub struct SessionErrorHandler {
    pub session_id: u32,
    pub serial: u64,
}

impl Session {
    /// Create a new session for a given service ID and session ID.
    pub fn new(service_id: u16, session_id: u32) -> (session: Session)
        ensures
            session@ == SessionState::fresh(service_id, session_id, 0),
            session@.wf(),
    {
        Session::numbered(service_id, session_id, 0)
    }

    /// Create a new session with a given serial number.
    pub fn numbered(service_id: u16, session_id: u32, serial: u64) -> (session: Session)
        ensures
            session@ == SessionState::fresh(service_id, session_id, serial),
            session@.wf(),
    {
        let context = SessionContext::new(service_id, session_id);
        Session { service_id, serial, context }
    }

    /// The service that the session talks to.
    pub fn service_id(&self) -> (id: u16)
        ensures
            id == self@.service_id,
    {
        self.service_id
    }

    /// The number that tells the session apart from earlier ones with the
    /// same id.
    pub fn serial(&self) -> (serial: u64)
        ensures
            serial == self@.serial,
    {
        self.serial
    }

    /// The context of the session.
    pub fn context(&self) -> (context: &SessionContext)
        ensures
            context@ == self@.context,
    {
        &self.context
    }

    /// The context of the session, for the socket side to work on.
    pub fn context_mut(&mut self) -> (context: &mut SessionContext)
        ensures
            context@ == old(self)@.context,
            final(self)@ == old(self)@.with_context(final(context)@),
    {
        &mut self.context
    }

    /// Push a given Arrow Message into the output buffer.
    pub fn push(&mut self, msg: ArrowMessage)
        ensures
            final(self)@ == old(self)@.with_context(old(self)@.context.push_output(msg@.payload())),
            final(self)@.context.wf(),
    {
        self.context.push_output_message(msg)
    }

    /// Take an Arrow Message from the input buffer. The method returns:
    /// * `Ok(Async::Ready(Some(_)))` if there was some data available
    /// * `Ok(Async::Ready(None))` if there was no data available and the
    ///   context has been closed without an error
    /// * `Err(_)` if there was no data available and the context has been
    ///   closed with an error
    /// * `Ok(Async::NotReady)` if there was no data available
    pub fn take(&mut self, task: &Task) -> (res: Result<Async<Option<ArrowMessage>>, SessionError>)
        ensures
            final(self)@ == old(self)@.polled(*task),
            final(self)@.context.wf(),
            match res {
                Ok(Async::Ready(Some(msg))) => {
                    &&& old(self)@.context.input.len() > 0
                    &&& msg@ == old(self)@.yields()
                },
                Ok(Async::Ready(None)) => {
                    &&& old(self)@.context.drained()
                    &&& old(self)@.context.error is None
                },
                Err(error) => {
                    &&& old(self)@.context.drained()
                    &&& old(self)@.context.error == Some(error)
                },
                Ok(Async::NotReady) => !old(self)@.context.input_due(),
            },
    {
        self.context.take_input_message(task)
    }

    /// Mark the session as closed. The session context won't accept any new
    /// data, however the buffered data can be still processed. It's up to
    /// the corresponding tasks to consume all remaining data.
    pub fn close(&mut self)
        ensures
            final(self)@ == old(self)@.with_context(old(self)@.context.close()),
            final(self)@.context.wf(),
    {
        self.context.close()
    }

    /// Get session transport.
    pub fn transport(&self) -> (transport: SessionTransport)
        ensures
            transport.session_id == self@.context.session_id,
            transport.serial == self@.serial,
    {
        SessionTransport { session_id: self.context.session_id(), serial: self.serial }
    }

    /// Get session error handler.
    pub fn error_handler(&self) -> (handler: SessionErrorHandler)
        ensures
            handler.session_id == self@.context.session_id,
            handler.serial == self@.serial,
    {
        SessionErrorHandler { session_id: self.context.session_id(), serial: self.serial }
    }
}

} // verus!
