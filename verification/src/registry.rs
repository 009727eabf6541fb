//! The registry of sessions: the sessions by id and the queue in which they
//! are polled, with the operations of the session manager on them.
//!
//! Nothing in the type keeps a registry well formed: the operations ask for
//! it and keep it. The session manager holds a registry that is well formed
//! at all times.

use crate::buffer::chunk_bytes;
use crate::error::{ArrowError, SessionError};
use crate::manager::Bridge;
use crate::manager_state::{
    lemma_after_yield_wf, lemma_rotated_wf, lemma_take_contains, lemma_take_excludes,
    lemma_with_session_wf, resolve_address, serial_after, ManagerState,
};
use crate::msg::{ArrowMessage, ControlMessage, HUP_CONNECTION_ERROR, HUP_NO_ERROR};
use crate::poll::{Async, AsyncSink};
use crate::session::{hup_view, Session, SessionState, HUP_CONTROL_MSG_ID};
use crate::svc_table::ServiceTable;
use bytes::Bytes;
use futures::task::Task;
use std::collections::{HashMap, VecDeque};
use vstd::prelude::*;

verus! {

/// The sessions of a session manager and their polling queue.
pub(crate) struct Registry {
    sessions: HashMap<u32, Session>,
    poll_order: VecDeque<u32>,
    next_serial: u64,
}

impl View for Registry {
    type V = ManagerState;

    closed spec fn view(&self) -> ManagerState {
        ManagerState {
            sessions: Map::new(
                |id: u32| self.sessions@.contains_key(id),
                |id: u32| self.sessions@[id]@,
            ),
            poll_order: self.poll_order@,
            next_serial: self.next_serial,
        }
    }
}

impl Registry {
    /// A registry without sessions.
    pub(crate) fn new() -> (registry: Registry)
        ensures
            registry@ == ManagerState::empty(),
            registry@.wf(),
    {
        let registry = Registry {
            sessions: HashMap::new(),
            poll_order: VecDeque::new(),
            next_serial: 0,
        };
        assert(registry@.sessions =~= Map::empty());
        registry
    }

    /// The number of sessions.
    pub(crate) fn session_count(&self) -> (count: usize)
        ensures
            count == self@.poll_order.len(),
    {
        self.poll_order.len()
    }

    /// Whether there is a session with the given id.
    pub(crate) fn contains(&self, session_id: u32) -> (found: bool)
        ensures
            found == self@.sessions.contains_key(session_id),
    {
        self.sessions.contains_key(&session_id)
    }

    /// What [`SessionManager::connect`] does, with the service table as an
    /// argument.
    pub(crate) fn connect<T: ServiceTable>(
        &mut self,
        table: &T,
        service_id: u16,
        session_id: u32,
    ) -> (res: Result<(Session, Bridge), ArrowError>)
        ensures
            match resolve_address(table.lookup(service_id), service_id) {
                Ok(address) => {
                    &&& res matches Ok((session, bridge))
                    &&& session@ == SessionState::fresh(
                        service_id,
                        session_id,
                        old(self)@.next_serial,
                    )
                    &&& bridge == Bridge::for_session(address, session_id, old(self)@.next_serial)
                    &&& final(self)@ == (ManagerState {
                        next_serial: serial_after(old(self)@.next_serial),
                        ..old(self)@
                    })
                },
                Err(error) => {
                    &&& res == Err::<(Session, Bridge), ArrowError>(error)
                    &&& final(self)@ == old(self)@
                },
            },
    {
        let address = match table.get(service_id) {
            Some(service) => match service.address() {
                Some(address) => *address,
                None => {
                    return Err(ArrowError::NoAddress(service_id));
                },
            },
            None => {
                return Err(ArrowError::UnknownService(service_id));
            },
        };
        let serial = self.next_serial;
        self.next_serial = if serial == u64::MAX {
            0
        } else {
            serial + 1
        };
        let session = Session::numbered(service_id, session_id, serial);
        let bridge = Bridge {
            address,
            transport: session.transport(),
            error_handler: session.error_handler(),
        };
        Ok((session, bridge))
    }

    /// What [`SessionManager::send`] does, with the service table as an
    /// argument.
    pub(crate) fn send<T: ServiceTable>(&mut self, table: &T, msg: ArrowMessage) -> (res: Result<
        Option<Bridge>,
        ArrowError,
    >)
        requires
            old(self)@.wf(),
        ensures
            final(self)@.wf(),
            if old(self)@.sessions.contains_key(msg@.session) {
                &&& res == Ok::<Option<Bridge>, ArrowError>(None)
                &&& final(self)@ == old(self)@.pushed(msg@.session, msg@.payload())
            } else {
                match resolve_address(table.lookup(msg@.service), msg@.service) {
                    Ok(address) => {
                        &&& res == Ok::<Option<Bridge>, ArrowError>(
                            Some(
                                Bridge::for_session(address, msg@.session, old(self)@.next_serial),
                            ),
                        )
                        &&& final(self)@ == old(self)@.opened(
                            msg@.service,
                            msg@.session,
                            msg@.payload(),
                        )
                    },
                    Err(error) => {
                        &&& res == Err::<Option<Bridge>, ArrowError>(error)
                        &&& final(self)@ == old(self)@
                    },
                }
            },
    {
        let header = msg.header();
        let session_id = header.session;
        let (mut session, bridge) = match self.sessions.remove(&session_id) {
            Some(session) => {
                assert(old(self)@.sessions.contains_key(session_id));
                assert(session@ == old(self)@.sessions[session_id]);
                (session, None)
            },
            None => {
                assert(!old(self)@.sessions.contains_key(session_id));
                assert(self@.sessions =~= old(self)@.sessions);
                match self.connect(table, header.service, session_id) {
                    Ok((session, bridge)) => {
                        self.poll_order.push_back(session_id);
                        (session, Some(bridge))
                    },
                    Err(error) => {
                        return Err(error);
                    },
                }
            },
        };
        session.push(msg);
        let ghost pushed = session@;
        self.sessions.insert(session_id, session);
        proof {
            assert(self@.sessions =~= old(self)@.sessions.insert(session_id, pushed));
            lemma_with_session_wf(old(self)@, session_id, pushed);
        }
        Ok(bridge)
    }

    /// What [`SessionManager::poll`] does.
    pub(crate) fn poll(&mut self, task: &Task) -> (res: Result<
        Async<Option<ArrowMessage>>,
        ArrowError,
    >)
        requires
            old(self)@.wf(),
        ensures
            final(self)@.wf(),
            match res {
                Ok(Async::Ready(Some(msg))) => exists|index: int|
                    {
                        &&& #[trigger] old(self)@.first_due(index)
                        &&& msg@ == old(self)@.yields_at(index)
                        &&& final(self)@ == old(self)@.after_yield(index, *task)
                    },
                Ok(Async::NotReady) => {
                    &&& old(self)@.none_due()
                    &&& final(self)@ == old(self)@.rotated(
                        old(self)@.poll_order.len() as int,
                        *task,
                    )
                },
                Ok(Async::Ready(None)) => false,
                Err(_) => false,
            },
    {
        let ghost start = self@;
        let total = self.poll_order.len();
        let mut count = total;
        proof {
            assert(start.rotated(0, *task).sessions =~= start.sessions) by {
                assert(start.poll_order.take(0).len() == 0);
            }
            assert(start.rotated(0, *task).poll_order =~= start.poll_order);
        }
        while count > 0
            invariant
                start == old(self)@,
                start.wf(),
                total == start.poll_order.len(),
                count <= total,
                self@ == start.rotated(total - count, *task),
                forall|earlier: int| 0 <= earlier < total - count ==> !#[trigger] start.due(earlier),
            decreases count,
        {
            let ghost index = total - count;
            let ghost before = self@;
            proof {
                lemma_rotated_wf(start, index, *task);
                lemma_take_excludes(start.poll_order, index);
                assert(before.poll_order[0] == start.poll_order[index]);
                assert(before.sessions.contains_key(before.poll_order[0]));
            }
            if let Some(session_id) = self.poll_order.pop_front() {
                if let Some(mut session) = self.sessions.remove(&session_id) {
                    assert(session@ == start.sessions[session_id]);
                    let service_id = session.service_id();
                    match session.take(task) {
                        Ok(Async::NotReady) => {
                            self.sessions.insert(session_id, session);
                            self.poll_order.push_back(session_id);
                            proof {
                                assert forall|id: u32|
                                    start.poll_order.take(index + 1).contains(id)
                                    == (start.poll_order.take(index).contains(id) || id
                                    == session_id) by {
                                    lemma_take_contains(start.poll_order, index, id);
                                }
                                assert(self@.sessions =~= start.rotated(
                                    index + 1,
                                    *task,
                                ).sessions);
                                assert(self@.poll_order =~= start.rotated(
                                    index + 1,
                                    *task,
                                ).poll_order);
                            }
                        },
                        Ok(Async::Ready(None)) => {
                            let msg = Registry::hup_message(service_id, session_id, HUP_NO_ERROR);
                            proof {
                                assert(start.first_due(index));
                                assert(self@.sessions =~= start.after_yield(index, *task).sessions);
                                assert(self@.poll_order =~= start.after_yield(
                                    index,
                                    *task,
                                ).poll_order);
                                lemma_after_yield_wf(start, index, *task);
                            }
                            return Ok(Async::Ready(Some(msg)));
                        },
                        Ok(Async::Ready(Some(msg))) => {
                            self.sessions.insert(session_id, session);
                            self.poll_order.push_back(session_id);
                            proof {
                                assert(start.first_due(index));
                                assert forall|id: u32|
                                    start.poll_order.take(index + 1).contains(id)
                                    == (start.poll_order.take(index).contains(id) || id
                                    == session_id) by {
                                    lemma_take_contains(start.poll_order, index, id);
                                }
                                assert(self@.sessions =~= start.after_yield(index, *task).sessions);
                                assert(self@.poll_order =~= start.after_yield(
                                    index,
                                    *task,
                                ).poll_order);
                                lemma_after_yield_wf(start, index, *task);
                            }
                            return Ok(Async::Ready(Some(msg)));
                        },
                        Err(_) => {
                            let msg = Registry::hup_message(
                                service_id,
                                session_id,
                                HUP_CONNECTION_ERROR,
                            );
                            proof {
                                assert(start.first_due(index));
                                assert(self@.sessions =~= start.after_yield(index, *task).sessions);
                                assert(self@.poll_order =~= start.after_yield(
                                    index,
                                    *task,
                                ).poll_order);
                                lemma_after_yield_wf(start, index, *task);
                            }
                            return Ok(Async::Ready(Some(msg)));
                        },
                    }
                }
            }
            count -= 1;
        }
        proof {
            lemma_rotated_wf(start, total as int, *task);
        }
        Ok(Async::NotReady)
    }

    /// Takes the session that the handle `(id, serial)` names out of the
    /// registry, if there is one. The queue keeps the id: the caller puts
    /// the session back.
    fn detach(&mut self, id: u32, serial: u64) -> (session: Option<Session>)
        ensures
            final(self)@.poll_order == old(self)@.poll_order,
            final(self)@.next_serial == old(self)@.next_serial,
            match session {
                Some(session) => {
                    &&& old(self)@.live(id, serial)
                    &&& session@ == old(self)@.sessions[id]
                    &&& final(self)@.sessions == old(self)@.sessions.remove(id)
                },
                None => {
                    &&& !old(self)@.live(id, serial)
                    &&& final(self)@.sessions == old(self)@.sessions
                },
            },
    {
        match self.sessions.remove(&id) {
            Some(session) => {
                if session.serial() == serial {
                    assert(self@.sessions =~= old(self)@.sessions.remove(id));
                    Some(session)
                } else {
                    self.sessions.insert(id, session);
                    assert(self@.sessions =~= old(self)@.sessions);
                    None
                }
            },
            None => {
                assert(self@.sessions =~= old(self)@.sessions);
                None
            },
        }
    }

    /// Puts a session into the registry under `id`.
    fn attach(&mut self, id: u32, session: Session)
        ensures
            final(self)@.poll_order == old(self)@.poll_order,
            final(self)@.next_serial == old(self)@.next_serial,
            final(self)@.sessions == old(self)@.sessions.insert(id, session@),
    {
        self.sessions.insert(id, session);
        assert(self@.sessions =~= old(self)@.sessions.insert(id, session@));
    }

    /// The HUP message for a session.
    pub(crate) fn hup_message(service_id: u16, session_id: u32, error_code: u32) -> (msg:
        ArrowMessage)
        ensures
            msg@ == hup_view(service_id, session_id, error_code),
    {
        ArrowMessage::control(
            service_id,
            session_id,
            ControlMessage::hup(HUP_CONTROL_MSG_ID, session_id, error_code),
        )
    }

    /// What [`SessionTransport::poll`] does for the handle `(id, serial)`.
    pub(crate) fn take_output(&mut self, id: u32, serial: u64, task: &Task) -> (res: Result<
        Async<Option<Bytes>>,
        SessionError,
    >)
        requires
            old(self)@.wf(),
        ensures
            final(self)@.wf(),
            if old(self)@.live(id, serial) {
                let context = old(self)@.context(id);
                &&& final(self)@ == old(self)@.with_context(
                    id,
                    context.take_output(*task),
                )
                &&& match res {
                    Ok(Async::Ready(Some(data))) => context.yields_output() == Some(
                        chunk_bytes(data),
                    ),
                    Ok(Async::Ready(None)) => context.output.len() == 0 && context.closed,
                    Ok(Async::NotReady) => context.output.len() == 0 && !context.closed,
                    Err(_) => false,
                }
            } else {
                &&& final(self)@ == old(self)@
                &&& res matches Ok(Async::Ready(None))
            },
    {
        match self.detach(id, serial) {
            Some(mut session) => {
                let context = session.context_mut();
                let res = context.take_output_data(task);
                proof {
                    lemma_with_session_wf(old(self)@, id, session@);
                }
                self.attach(id, session);
                assert(self@.sessions =~= old(self)@.with_context(
                    id,
                    old(self)@.context(id).take_output(*task),
                ).sessions);
                res
            },
            None => Ok(Async::Ready(None)),
        }
    }

    /// What [`SessionTransport::start_send`] does for the handle
    /// `(id, serial)`.
    pub(crate) fn push_input(&mut self, id: u32, serial: u64, data: Bytes, task: &Task) -> (res:
        Result<AsyncSink<Bytes>, SessionError>)
        requires
            old(self)@.wf(),
        ensures
            final(self)@.wf(),
            if old(self)@.live(id, serial) {
                let context = old(self)@.context(id);
                &&& final(self)@ == old(self)@.with_context(
                    id,
                    context.push_input(chunk_bytes(data), *task),
                )
                &&& match res {
                    Ok(AsyncSink::Ready) => {
                        &&& !context.closed
                        &&& context.rejected(chunk_bytes(data)).len() == 0
                    },
                    Ok(AsyncSink::NotReady(rest)) => {
                        &&& !context.closed
                        &&& context.rejected(chunk_bytes(data)).len() > 0
                        &&& chunk_bytes(rest) == context.rejected(chunk_bytes(data))
                    },
                    Err(error) => context.closed && error is ConnectionReset,
                }
            } else {
                &&& final(self)@ == old(self)@
                &&& res matches Err(SessionError::ConnectionReset)
            },
    {
        match self.detach(id, serial) {
            Some(mut session) => {
                let context = session.context_mut();
                let res = context.push_input_data(data, task);
                proof {
                    lemma_with_session_wf(old(self)@, id, session@);
                }
                self.attach(id, session);
                assert(self@.sessions =~= old(self)@.with_context(
                    id,
                    old(self)@.context(id).push_input(chunk_bytes(data), *task),
                ).sessions);
                res
            },
            None => Err(SessionError::ConnectionReset),
        }
    }

    /// What [`SessionTransport::poll_complete`] does for the handle
    /// `(id, serial)`.
    pub(crate) fn flush_input(&mut self, id: u32, serial: u64, task: &Task) -> (res: Result<
        Async<()>,
        SessionError,
    >)
        requires
            old(self)@.wf(),
        ensures
            final(self)@.wf(),
            res is Ok,
            if old(self)@.live(id, serial) {
                let context = old(self)@.context(id);
                &&& final(self)@ == old(self)@.with_context(
                    id,
                    context.flush_input(*task),
                )
                &&& (res matches Ok(Async::Ready(_)) <==> context.input.len() == 0)
            } else {
                &&& final(self)@ == old(self)@
                &&& res matches Ok(Async::Ready(_))
            },
    {
        match self.detach(id, serial) {
            Some(mut session) => {
                let context = session.context_mut();
                let res = context.flush_input_buffer(task);
                proof {
                    lemma_with_session_wf(old(self)@, id, session@);
                }
                self.attach(id, session);
                assert(self@.sessions =~= old(self)@.with_context(
                    id,
                    old(self)@.context(id).flush_input(*task),
                ).sessions);
                res
            },
            None => Ok(Async::Ready(())),
        }
    }

    /// What [`SessionTransport::close`] does for the handle `(id, serial)`.
    pub(crate) fn close_input(&mut self, id: u32, serial: u64, task: &Task) -> (res: Result<
        Async<()>,
        SessionError,
    >)
        requires
            old(self)@.wf(),
        ensures
            final(self)@.wf(),
            res is Ok,
            if old(self)@.live(id, serial) {
                let context = old(self)@.context(id);
                &&& final(self)@ == old(self)@.with_context(
                    id,
                    context.close().flush_input(*task),
                )
                &&& (res matches Ok(Async::Ready(_)) <==> context.input.len() == 0)
            } else {
                &&& final(self)@ == old(self)@
                &&& res matches Ok(Async::Ready(_))
            },
    {
        match self.detach(id, serial) {
            Some(mut session) => {
                let context = session.context_mut();
                // mark the context as closed
                context.close();
                // and wait until the input buffer is fully consumed
                let res = context.flush_input_buffer(task);
                proof {
                    lemma_with_session_wf(old(self)@, id, session@);
                }
                self.attach(id, session);
                assert(self@.sessions =~= old(self)@.with_context(
                    id,
                    old(self)@.context(id).close().flush_input(*task),
                ).sessions);
                res
            },
            None => Ok(Async::Ready(())),
        }
    }

    /// What [`SessionErrorHandler::set_error`] does for the handle
    /// `(id, serial)`.
    pub(crate) fn set_error(&mut self, id: u32, serial: u64, err: SessionError)
        requires
            old(self)@.wf(),
        ensures
            final(self)@.wf(),
            if old(self)@.live(id, serial) {
                final(self)@ == old(self)@.with_context(
                    id,
                    old(self)@.context(id).set_error(err),
                )
            } else {
                final(self)@ == old(self)@
            },
    {
        match self.detach(id, serial) {
            Some(mut session) => {
                let context = session.context_mut();
                context.set_error(err);
                proof {
                    lemma_with_session_wf(old(self)@, id, session@);
                }
                self.attach(id, session);
                assert(self@.sessions =~= old(self)@.with_context(
                    id,
                    old(self)@.context(id).set_error(err),
                ).sessions);
            },
            None => {},
        }
    }
}


} // verus!
