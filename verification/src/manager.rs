//! The session manager: the registry of sessions, their fair polling and
//! the HUP that ends each of them.
//!
//! The manager owns one session per session id and polls them in turn, so
//! that no session can starve another. A session that is closed and drained
//! leaves the manager with a HUP message. The TCP side of a session works
//! through the handles of a [`Bridge`]; a handle whose session has left the
//! manager finds a closed and empty context.

use crate::addr::SocketAddress;
use crate::buffer::chunk_bytes;
use crate::error::{ArrowError, SessionError};
use crate::manager_state::{resolve_address, serial_after, ManagerState};
use crate::msg::ArrowMessage;
use crate::poll::{Async, AsyncSink};
use crate::registry::Registry;
use crate::session::{hup_view, Session, SessionErrorHandler, SessionState, SessionTransport};
use crate::svc_table::ServiceTable;
use bytes::Bytes;
use futures::task::Task;
use vstd::prelude::*;

verus! {

/// What the caller has to set up for a session that `send` has just opened:
/// a TCP connection to `address`, with what the socket reads handed to
/// `transport`, what `transport` yields written to the socket, and the error
/// that ends the connection, if any, reported to `error_handler`.
#[derive(Clone, Copy, Debug, PartialEq, Eq)]
pub struct Bridge {
    pub address: SocketAddress,
    pub transport: SessionTransport,
    pub error_handler: SessionErrorHandler,
}

impl Bridge {
    /// The bridge to `address` for the session `(session_id, serial)`.
    pub open spec fn for_session(address: SocketAddress, session_id: u32, serial: u64) -> Bridge {
        Bridge {
            address,
            transport: SessionTransport { session_id, serial },
            error_handler: SessionErrorHandler { session_id, serial },
        }
    }
}

/// Arrow session manager.
pub struct SessionManager<T: ServiceTable> {
    table: T,
    registry: Registry,
}

impl<T: ServiceTable> View for SessionManager<T> {
    type V = ManagerState;

    closed spec fn view(&self) -> ManagerState {
        self.registry@
    }
}

impl<T: ServiceTable> SessionManager<T> {
    /// Every session manager is well formed, at all times.
    #[verifier::type_invariant]
    spec fn well_formed(self) -> bool {
        self.registry@.wf()
    }

    /// The service table that the manager resolves service ids with.
    pub closed spec fn table(&self) -> T {
        self.table
    }

    /// Create a new session manager.
    pub fn new(table: T) -> (manager: SessionManager<T>)
        ensures
            manager@ == ManagerState::empty(),
            manager@.wf(),
            manager.table() == table,
    {
        SessionManager { table, registry: Registry::new() }
    }

    /// The number of sessions.
    pub fn session_count(&self) -> (count: usize)
        ensures
            count == self@.poll_order.len(),
    {
        self.registry.session_count()
    }

    /// Whether there is a session with the given id.
    pub fn contains(&self, session_id: u32) -> (found: bool)
        ensures
            found == self@.sessions.contains_key(session_id),
    {
        self.registry.contains(session_id)
    }

    /// Takes the registry out for an operation to work on, and leaves an
    /// empty one in its place until the operation puts the registry back.
    fn take_registry(&mut self) -> (registry: Registry)
        ensures
            registry@ == old(self)@,
            registry@.wf(),
            final(self).table == old(self).table,
    {
        proof {
            use_type_invariant(&*self);
        }
        let mut registry = Registry::new();
        core::mem::swap(&mut self.registry, &mut registry);
        registry
    }

    /// Connect to a given service and create an associated session object
    /// with a given ID: the service table resolves the service to the
    /// socket address that the returned bridge is to connect to. Fails, and
    /// opens nothing, where the table has no such service or the service has
    /// no address.
    pub fn connect(&mut self, service_id: u16, session_id: u32) -> (res: Result<
        (Session, Bridge),
        ArrowError,
    >)
        ensures
            final(self).table() == old(self).table(),
            match resolve_address(old(self).table().lookup(service_id), service_id) {
                Ok(address) => {
                    &&& res matches Ok((session, bridge))
                    &&& session@ == SessionState::fresh(
                        service_id,
                        session_id,
                        old(self)@.next_serial,
                    )
                    &&& bridge == Bridge::for_session(address, session_id, old(self)@.next_serial)
                    &&& final(self)@ == (ManagerState {
                        next_serial: serial_after(old(self)@.next_serial),
                        ..old(self)@
                    })
                },
                Err(error) => {
                    &&& res == Err::<(Session, Bridge), ArrowError>(error)
                    &&& final(self)@ == old(self)@
                },
            },
    {
        let mut registry = self.take_registry();
        let res = registry.connect(&self.table, service_id, session_id);
        self.registry = registry;
        res
    }

    /// Send a given Arrow Message to the corresponding service using a given
    /// session (as specified by the message). A message for a session that
    /// the manager does not have opens one: the new session joins the back
    /// of the polling queue and the returned bridge tells the caller what to
    /// connect. The method returns an error, and opens nothing, if the
    /// service table cannot resolve the service to a socket address.
    pub fn send(&mut self, msg: ArrowMessage) -> (res: Result<Option<Bridge>, ArrowError>)
        ensures
            final(self)@.wf(),
            final(self).table() == old(self).table(),
            if old(self)@.sessions.contains_key(msg@.session) {
                &&& res == Ok::<Option<Bridge>, ArrowError>(None)
                &&& final(self)@ == old(self)@.pushed(msg@.session, msg@.payload())
            } else {
                match resolve_address(old(self).table().lookup(msg@.service), msg@.service) {
                    Ok(address) => {
                        &&& res == Ok::<Option<Bridge>, ArrowError>(
                            Some(
                                Bridge::for_session(address, msg@.session, old(self)@.next_serial),
                            ),
                        )
                        &&& final(self)@ == old(self)@.opened(
                            msg@.service,
                            msg@.session,
                            msg@.payload(),
                        )
                    },
                    Err(error) => {
                        &&& res == Err::<Option<Bridge>, ArrowError>(error)
                        &&& final(self)@ == old(self)@
                    },
                }
            },
    {
        let mut registry = self.take_registry();
        let res = registry.send(&self.table, msg);
        self.registry = registry;
        res
    }

    /// Poll the sessions for the next message for upstream, fairly: the
    /// sessions are tried in the order of the queue, each at most once. One
    /// without input that is still open keeps `task`, moves to the back and
    /// the next is tried. The first session that is due ends the poll:
    /// * with input, it yields all of it as one Arrow Message and moves to
    ///   the back of the queue;
    /// * closed and drained, it leaves the manager and the poll yields its
    ///   HUP, with error code 0 if and only if no error was recorded.
    ///
    /// Where no session is due the method returns `Ok(Async::NotReady)`. It
    /// never fails and never reports the end of the stream.
    pub fn poll(&mut self, task: &Task) -> (res: Result<Async<Option<ArrowMessage>>, ArrowError>)
        ensures
            final(self)@.wf(),
            final(self).table() == old(self).table(),
            match res {
                Ok(Async::Ready(Some(msg))) => exists|index: int|
                    {
                        &&& #[trigger] old(self)@.first_due(index)
                        &&& msg@ == old(self)@.yields_at(index)
                        &&& final(self)@ == old(self)@.after_yield(index, *task)
                    },
                Ok(Async::NotReady) => {
                    &&& old(self)@.none_due()
                    &&& final(self)@ == old(self)@.rotated(
                        old(self)@.poll_order.len() as int,
                        *task,
                    )
                },
                Ok(Async::Ready(None)) => false,
                Err(_) => false,
            },
    {
        let mut registry = self.take_registry();
        let res = registry.poll(task);
        self.registry = registry;
        res
    }

    /// Create a new HUP message.
    pub fn create_hup_message(&mut self, service_id: u16, session_id: u32, error_code: u32) -> (msg:
        ArrowMessage)
        ensures
            msg@ == hup_view(service_id, session_id, error_code),
            *final(self) == *old(self),
    {
        Registry::hup_message(service_id, session_id, error_code)
    }
}

impl SessionTransport {
    /// Whether the handle names a session of `manager`.
    pub open spec fn live(self, manager: ManagerState) -> bool {
        manager.live(self.session_id, self.serial)
    }

    /// Take what the socket is to write next: everything that the output
    /// buffer holds. The method returns:
    /// * `Ok(Async::Ready(Some(_)))` if there is some data available
    /// * `Ok(Async::Ready(None))` if the session has been closed and there
    ///   is no data in the output buffer, or the session has left the
    ///   manager
    /// * `Ok(Async::NotReady)` if there is no data available; `task` is kept
    ///   and notified when output arrives
    pub fn poll<T: ServiceTable>(&self, manager: &mut SessionManager<T>, task: &Task) -> (res:
        Result<Async<Option<Bytes>>, SessionError>)
        ensures
            final(manager)@.wf(),
            final(manager).table() == old(manager).table(),
            if self.live(old(manager)@) {
                let context = old(manager)@.context(self.session_id);
                &&& final(manager)@ == old(manager)@.with_context(
                    self.session_id,
                    context.take_output(*task),
                )
                &&& match res {
                    Ok(Async::Ready(Some(data))) => context.yields_output() == Some(
                        chunk_bytes(data),
                    ),
                    Ok(Async::Ready(None)) => context.output.len() == 0 && context.closed,
                    Ok(Async::NotReady) => context.output.len() == 0 && !context.closed,
                    Err(_) => false,
                }
            } else {
                &&& final(manager)@ == old(manager)@
                &&& res matches Ok(Async::Ready(None))
            },
    {
        let mut registry = manager.take_registry();
        let res = registry.take_output(self.session_id, self.serial, task);
        manager.registry = registry;
        res
    }

    /// Hand in what the socket has read. The method returns:
    /// * `Ok(AsyncSink::Ready)` if all the given data has been inserted into
    ///   the input buffer
    /// * `Ok(AsyncSink::NotReady(_))` with the remaining data if the input
    ///   buffer is full; `task` is kept and notified when the buffer has
    ///   been drained
    /// * `Err(SessionError::ConnectionReset)` if the session has been closed
    ///   or has left the manager
    pub fn start_send<T: ServiceTable>(
        &self,
        manager: &mut SessionManager<T>,
        data: Bytes,
        task: &Task,
    ) -> (res: Result<AsyncSink<Bytes>, SessionError>)
        ensures
            final(manager)@.wf(),
            final(manager).table() == old(manager).table(),
            if self.live(old(manager)@) {
                let context = old(manager)@.context(self.session_id);
                &&& final(manager)@ == old(manager)@.with_context(
                    self.session_id,
                    context.push_input(chunk_bytes(data), *task),
                )
                &&& match res {
                    Ok(AsyncSink::Ready) => {
                        &&& !context.closed
                        &&& context.rejected(chunk_bytes(data)).len() == 0
                    },
                    Ok(AsyncSink::NotReady(rest)) => {
                        &&& !context.closed
                        &&& context.rejected(chunk_bytes(data)).len() > 0
                        &&& chunk_bytes(rest) == context.rejected(chunk_bytes(data))
                    },
                    Err(error) => context.closed && error is ConnectionReset,
                }
            } else {
                &&& final(manager)@ == old(manager)@
                &&& res matches Err(SessionError::ConnectionReset)
            },
    {
        let mut registry = manager.take_registry();
        let res = registry.push_input(self.session_id, self.serial, data, task);
        manager.registry = registry;
        res
    }

    /// Ask whether upstream has taken everything that was handed in. The
    /// method returns `Ok(Async::Ready(()))` if the input buffer is empty or
    /// the session has left the manager, else `Ok(Async::NotReady)`; `task`
    /// is then kept and notified when the buffer has been drained.
    pub fn poll_complete<T: ServiceTable>(&self, manager: &mut SessionManager<T>, task: &Task) -> (res:
        Result<Async<()>, SessionError>)
        ensures
            final(manager)@.wf(),
            final(manager).table() == old(manager).table(),
            res is Ok,
            if self.live(old(manager)@) {
                let context = old(manager)@.context(self.session_id);
                &&& final(manager)@ == old(manager)@.with_context(
                    self.session_id,
                    context.flush_input(*task),
                )
                &&& (res matches Ok(Async::Ready(_)) <==> context.input.len() == 0)
            } else {
                &&& final(manager)@ == old(manager)@
                &&& res matches Ok(Async::Ready(_))
            },
    {
        let mut registry = manager.take_registry();
        let res = registry.flush_input(self.session_id, self.serial, task);
        manager.registry = registry;
        res
    }

    /// Close the session from the socket side: mark the context as closed
    /// and wait until the input buffer is fully consumed. The method returns
    /// `Ok(Async::Ready(()))` if the input buffer is empty or the session
    /// has left the manager, else `Ok(Async::NotReady)`; `task` is then kept
    /// and notified when the buffer has been drained.
    pub fn close<T: ServiceTable>(&self, manager: &mut SessionManager<T>, task: &Task) -> (res:
        Result<Async<()>, SessionError>)
        ensures
            final(manager)@.wf(),
            final(manager).table() == old(manager).table(),
            res is Ok,
            if self.live(old(manager)@) {
                let context = old(manager)@.context(self.session_id);
                &&& final(manager)@ == old(manager)@.with_context(
                    self.session_id,
                    context.close().flush_input(*task),
                )
                &&& (res matches Ok(Async::Ready(_)) <==> context.input.len() == 0)
            } else {
                &&& final(manager)@ == old(manager)@
                &&& res matches Ok(Async::Ready(_))
            },
    {
        let mut registry = manager.take_registry();
        let res = registry.close_input(self.session_id, self.serial, task);
        manager.registry = registry;
        res
    }
}

impl SessionErrorHandler {
    /// Whether the handle names a session of `manager`.
    pub open spec fn live(self, manager: ManagerState) -> bool {
        manager.live(self.session_id, self.serial)
    }

    /// Save a given transport error into the session context. The first
    /// error closes the session and is kept; on a closed session, or one
    /// that has left the manager, the error is dropped.
    pub fn set_error<T: ServiceTable>(&self, manager: &mut SessionManager<T>, err: SessionError)
        ensures
            final(manager)@.wf(),
            final(manager).table() == old(manager).table(),
            if self.live(old(manager)@) {
                final(manager)@ == old(manager)@.with_context(
                    self.session_id,
                    old(manager)@.context(self.session_id).set_error(err),
                )
            } else {
                final(manager)@ == old(manager)@
            },
    {
        let mut registry = manager.take_registry();
        registry.set_error(self.session_id, self.serial, err);
        manager.registry = registry;
    }
}


} // verus!
