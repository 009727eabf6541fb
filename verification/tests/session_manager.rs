use arrow_client::addr::{IpAddress, MacAddr, SocketAddress};
use arrow_client::error::{ArrowError, SessionError};
use arrow_client::manager::{Bridge, SessionManager};
use arrow_client::msg::{ArrowMessage, ArrowMessageBody, ControlMessage};
use arrow_client::poll::{Async, AsyncSink};
use arrow_client::session::{Session, SessionErrorHandler, SessionTransport};
use arrow_client::svc_table::{Service, SimpleServiceTable};
use bytes::Bytes;
use futures::future;
use futures::task::{self, Task};
use futures::Future;

const RTSP: u16 = 1;
const HTTP: u16 = 2;

fn a_task() -> Task {
    future::lazy(|| Ok::<Task, ()>(task::current())).wait().unwrap()
}

fn rtsp_address() -> SocketAddress {
    SocketAddress::new(IpAddress::V4([192, 0, 2, 1]), 554)
}

fn http_address() -> SocketAddress {
    SocketAddress::new(IpAddress::V4([192, 0, 2, 2]), 80)
}

fn table() -> SimpleServiceTable {
    let mac = MacAddr::new(1, 2, 3, 4, 5, 6);
    SimpleServiceTable::from(vec![
        Service::rtsp(RTSP, mac, rtsp_address(), String::from("stream")),
        Service::http(HTTP, mac, http_address()),
    ])
}

fn manager() -> SessionManager<SimpleServiceTable> {
    SessionManager::new(table())
}

fn open(manager: &mut SessionManager<SimpleServiceTable>, service: u16, session: u32) -> Bridge {
    match manager.send(ArrowMessage::new(service, session, Bytes::new())) {
        Ok(Some(bridge)) => bridge,
        other => panic!("no session opened: {:?}", other),
    }
}

fn feed(manager: &mut SessionManager<SimpleServiceTable>, bridge: &Bridge, data: &[u8]) {
    match bridge.transport.start_send(manager, Bytes::from(data.to_vec()), &a_task()) {
        Ok(AsyncSink::Ready) => {},
        other => panic!("input refused: {:?}", other),
    }
}

fn next(manager: &mut SessionManager<SimpleServiceTable>) -> Option<ArrowMessage> {
    match manager.poll(&a_task()) {
        Ok(Async::Ready(Some(msg))) => Some(msg),
        Ok(Async::NotReady) => None,
        other => panic!("unexpected poll result: {:?}", other),
    }
}

fn data_of(msg: &ArrowMessage) -> Vec<u8> {
    match msg.body() {
        ArrowMessageBody::Data(bytes) => bytes.to_vec(),
        ArrowMessageBody::Control(_) => panic!("control message"),
    }
}

fn hup_of(msg: &ArrowMessage) -> (u16, u32, u32) {
    match msg.body() {
        ArrowMessageBody::Control(ControlMessage::Hup { msg_id, session_id, error_code }) => {
            (*msg_id, *session_id, *error_code)
        },
        ArrowMessageBody::Data(_) => panic!("data message"),
    }
}

#[test]
fn new_manager_has_no_sessions() {
    let mut manager = manager();
    assert_eq!(manager.session_count(), 0);
    assert!(!manager.contains(1));
    assert!(next(&mut manager).is_none());
}

#[test]
fn send_opens_a_session_and_tells_what_to_connect() {
    let mut manager = manager();
    let bridge = match manager.send(ArrowMessage::new(RTSP, 10, Bytes::from(vec![1u8, 2, 3]))) {
        Ok(Some(bridge)) => bridge,
        other => panic!("no session opened: {:?}", other),
    };
    assert_eq!(bridge.address, rtsp_address());
    assert_eq!(bridge.transport.session_id, 10);
    assert_eq!(bridge.error_handler.session_id, 10);
    assert_eq!(bridge.transport.serial, bridge.error_handler.serial);
    assert!(manager.contains(10));
    assert_eq!(manager.session_count(), 1);

    match bridge.transport.poll(&mut manager, &a_task()) {
        Ok(Async::Ready(Some(data))) => assert_eq!(&data[..], &[1u8, 2, 3]),
        other => panic!("expected the payload: {:?}", other),
    }
}

#[test]
fn send_to_an_open_session_appends_output() {
    let mut manager = manager();
    let bridge = open(&mut manager, HTTP, 11);
    assert_eq!(bridge.address, http_address());
    let res = manager.send(ArrowMessage::new(HTTP, 11, Bytes::from(vec![1u8])));
    assert!(matches!(res, Ok(None)));
    let res = manager.send(ArrowMessage::new(HTTP, 11, Bytes::from(vec![2u8, 3])));
    assert!(matches!(res, Ok(None)));
    assert_eq!(manager.session_count(), 1);
    match bridge.transport.poll(&mut manager, &a_task()) {
        Ok(Async::Ready(Some(data))) => assert_eq!(&data[..], &[1u8, 2, 3]),
        other => panic!("expected the payloads: {:?}", other),
    }
    assert!(matches!(bridge.transport.poll(&mut manager, &a_task()), Ok(Async::NotReady)));
}

#[test]
fn send_is_not_echoed_back() {
    let mut manager = manager();
    let res = manager.send(ArrowMessage::new(RTSP, 12, Bytes::from(vec![1u8])));
    assert!(matches!(res, Ok(Some(_))));
    assert!(next(&mut manager).is_none());
}

#[test]
fn send_for_an_unknown_service_fails() {
    let mut manager = manager();
    match manager.send(ArrowMessage::new(77, 1, Bytes::from(vec![1u8]))) {
        Err(ArrowError::UnknownService(77)) => {},
        other => panic!("expected an error: {:?}", other),
    }
    assert!(!manager.contains(1));
    assert_eq!(manager.session_count(), 0);
}

#[test]
fn send_for_a_service_without_address_fails() {
    let mut manager = manager();
    match manager.send(ArrowMessage::new(0, 1, Bytes::from(vec![1u8]))) {
        Err(ArrowError::NoAddress(0)) => {},
        other => panic!("expected an error: {:?}", other),
    }
    assert!(!manager.contains(1));
    assert_eq!(manager.session_count(), 0);
}

#[test]
fn connect_resolves_the_address() {
    let mut manager = manager();
    let (session, bridge) = match manager.connect(HTTP, 5) {
        Ok(pair) => pair,
        Err(error) => panic!("connect failed: {:?}", error),
    };
    assert_eq!(session.service_id(), HTTP);
    assert_eq!(session.context().session_id(), 5);
    assert_eq!(bridge.address, http_address());
    assert_eq!(bridge.transport, session.transport());
    assert_eq!(bridge.error_handler, session.error_handler());
    assert!(!manager.contains(5));
    assert_eq!(manager.connect(9, 5).err(), Some(ArrowError::UnknownService(9)));
    assert_eq!(manager.connect(0, 5).err(), Some(ArrowError::NoAddress(0)));
}

#[test]
fn hup_message_carries_its_fields() {
    let mut manager = manager();
    let msg = manager.create_hup_message(3, 44, 0x03);
    assert_eq!(msg.header().service, 3);
    assert_eq!(msg.header().session, 44);
    assert_eq!(hup_of(&msg), (0, 44, 0x03));
}

#[test]
fn fairness() {
    let mut manager = manager();
    let a = open(&mut manager, RTSP, 100);
    let b = open(&mut manager, RTSP, 200);
    let c = open(&mut manager, HTTP, 300);
    feed(&mut manager, &a, b"from a");
    feed(&mut manager, &b, b"from b");
    feed(&mut manager, &c, b"from c");

    let first = next(&mut manager).unwrap();
    assert_eq!(first.header().session, 100);
    assert_eq!(first.header().service, RTSP);
    assert_eq!(data_of(&first), b"from a");
    let second = next(&mut manager).unwrap();
    assert_eq!(second.header().session, 200);
    assert_eq!(data_of(&second), b"from b");
    let third = next(&mut manager).unwrap();
    assert_eq!(third.header().session, 300);
    assert_eq!(third.header().service, HTTP);
    assert_eq!(data_of(&third), b"from c");
    assert!(next(&mut manager).is_none());
    assert_eq!(manager.session_count(), 3);
}

#[test]
fn a_busy_session_does_not_starve_the_others() {
    let mut manager = manager();
    let a = open(&mut manager, RTSP, 1);
    let b = open(&mut manager, RTSP, 2);
    feed(&mut manager, &a, b"a1");
    feed(&mut manager, &b, b"b1");
    assert_eq!(next(&mut manager).unwrap().header().session, 1);
    feed(&mut manager, &a, b"a2");
    assert_eq!(next(&mut manager).unwrap().header().session, 2);
    assert_eq!(data_of(&next(&mut manager).unwrap()), b"a2");
    assert!(next(&mut manager).is_none());
}

#[test]
fn the_only_session_with_input_is_polled_again() {
    let mut manager = manager();
    let a = open(&mut manager, RTSP, 1);
    let _b = open(&mut manager, RTSP, 2);
    feed(&mut manager, &a, b"a1");
    assert_eq!(next(&mut manager).unwrap().header().session, 1);
    feed(&mut manager, &a, b"a2");
    let again = next(&mut manager).unwrap();
    assert_eq!(again.header().session, 1);
    assert_eq!(data_of(&again), b"a2");
}

#[test]
fn hup_on_socket_close() {
    let mut manager = manager();
    let bridge = open(&mut manager, RTSP, 42);
    let sent: Vec<u8> = (0..100u8).collect();
    feed(&mut manager, &bridge, &sent);
    assert!(matches!(bridge.transport.close(&mut manager, &a_task()), Ok(Async::NotReady)));

    let mut received: Vec<u8> = Vec::new();
    let hup = loop {
        let msg = next(&mut manager).unwrap();
        assert_eq!(msg.header().session, 42);
        match msg.body() {
            ArrowMessageBody::Data(bytes) => received.extend_from_slice(&bytes[..]),
            ArrowMessageBody::Control(_) => break msg,
        }
    };
    assert_eq!(received, sent);
    assert_eq!(hup.header().service, RTSP);
    assert_eq!(hup_of(&hup), (0, 42, 0));
    assert!(!manager.contains(42));
    assert_eq!(manager.session_count(), 0);
    assert!(next(&mut manager).is_none());
    assert!(matches!(bridge.transport.close(&mut manager, &a_task()), Ok(Async::Ready(()))));
}

#[test]
fn hup_after_a_transport_error() {
    let mut manager = manager();
    let bridge = open(&mut manager, HTTP, 43);
    feed(&mut manager, &bridge, b"partial");
    let broken = std::io::Error::new(std::io::ErrorKind::BrokenPipe, "broken");
    bridge.error_handler.set_error(&mut manager, SessionError::Transport(broken));

    assert_eq!(data_of(&next(&mut manager).unwrap()), b"partial");
    let hup = next(&mut manager).unwrap();
    assert_eq!(hup.header().service, HTTP);
    assert_eq!(hup.header().session, 43);
    assert_eq!(hup_of(&hup), (0, 43, 0x03));
    assert!(!manager.contains(43));
    assert!(next(&mut manager).is_none());
}

#[test]
fn hup_leaves_the_other_sessions() {
    let mut manager = manager();
    let a = open(&mut manager, RTSP, 1);
    let b = open(&mut manager, RTSP, 2);
    let c = open(&mut manager, RTSP, 3);
    assert!(matches!(b.transport.close(&mut manager, &a_task()), Ok(Async::Ready(()))));
    feed(&mut manager, &c, b"c");
    assert_eq!(hup_of(&next(&mut manager).unwrap()), (0, 2, 0));
    assert_eq!(data_of(&next(&mut manager).unwrap()), b"c");
    feed(&mut manager, &a, b"a");
    assert_eq!(data_of(&next(&mut manager).unwrap()), b"a");
    assert_eq!(manager.session_count(), 2);
    assert!(manager.contains(1) && !manager.contains(2) && manager.contains(3));
}

#[test]
fn handle_of_a_gone_session_finds_it_closed() {
    let mut manager = manager();
    let bridge = open(&mut manager, RTSP, 7);
    assert!(matches!(bridge.transport.close(&mut manager, &a_task()), Ok(Async::Ready(()))));
    assert_eq!(hup_of(&next(&mut manager).unwrap()), (0, 7, 0));

    let task = a_task();
    assert!(matches!(bridge.transport.poll(&mut manager, &task), Ok(Async::Ready(None))));
    assert!(matches!(bridge.transport.poll_complete(&mut manager, &task), Ok(Async::Ready(()))));
    match bridge.transport.start_send(&mut manager, Bytes::from(vec![1u8]), &task) {
        Err(SessionError::ConnectionReset) => {},
        other => panic!("expected a reset: {:?}", other),
    }
    bridge.error_handler.set_error(&mut manager, SessionError::ConnectionReset);
    assert_eq!(manager.session_count(), 0);
}

#[test]
fn handle_of_an_earlier_session_does_not_reach_its_successor() {
    let mut manager = manager();
    let old = open(&mut manager, RTSP, 7);
    assert!(matches!(old.transport.close(&mut manager, &a_task()), Ok(Async::Ready(()))));
    assert_eq!(hup_of(&next(&mut manager).unwrap()), (0, 7, 0));

    let new = match manager.send(ArrowMessage::new(RTSP, 7, Bytes::from(vec![5u8]))) {
        Ok(Some(bridge)) => bridge,
        other => panic!("no session opened: {:?}", other),
    };
    assert_ne!(old.transport, new.transport);
    let task = a_task();
    assert!(matches!(old.transport.poll(&mut manager, &task), Ok(Async::Ready(None))));
    match old.transport.start_send(&mut manager, Bytes::from(vec![1u8]), &task) {
        Err(SessionError::ConnectionReset) => {},
        other => panic!("expected a reset: {:?}", other),
    }
    old.error_handler.set_error(&mut manager, SessionError::ConnectionReset);
    match new.transport.poll(&mut manager, &task) {
        Ok(Async::Ready(Some(data))) => assert_eq!(&data[..], &[5u8]),
        other => panic!("expected the payload: {:?}", other),
    }
    assert!(next(&mut manager).is_none());
    assert!(manager.contains(7));
}

#[test]
fn transport_delegates_to_the_context() {
    let mut manager = manager();
    let bridge = open(&mut manager, RTSP, 9);
    let task = a_task();
    assert!(matches!(bridge.transport.poll(&mut manager, &task), Ok(Async::NotReady)));
    assert!(matches!(bridge.transport.poll_complete(&mut manager, &task), Ok(Async::Ready(()))));
    feed(&mut manager, &bridge, b"x");
    assert!(matches!(bridge.transport.poll_complete(&mut manager, &task), Ok(Async::NotReady)));
    let big = vec![7u8; 40_000];
    match bridge.transport.start_send(&mut manager, Bytes::from(big), &task) {
        Ok(AsyncSink::NotReady(rest)) => assert_eq!(rest.len(), 40_000 - 32_767),
        other => panic!("expected backpressure: {:?}", other),
    }
    assert_eq!(data_of(&next(&mut manager).unwrap()).len(), 32_768);
    assert!(matches!(bridge.transport.poll_complete(&mut manager, &task), Ok(Async::Ready(()))));
}

#[test]
fn session_on_its_own() {
    let task = a_task();
    let mut session = Session::new(4, 8);
    assert_eq!(session.service_id(), 4);
    assert_eq!(session.serial(), 0);
    assert_eq!(session.transport(), SessionTransport { session_id: 8, serial: 0 });
    assert_eq!(session.error_handler(), SessionErrorHandler { session_id: 8, serial: 0 });

    session.push(ArrowMessage::new(4, 8, Bytes::from(vec![1u8])));
    assert_eq!(session.context().output_len(), 1);
    assert!(matches!(session.take(&task), Ok(Async::NotReady)));
    assert!(matches!(
        session.context_mut().push_input_data(Bytes::from(vec![2u8]), &task),
        Ok(AsyncSink::Ready)
    ));
    match session.take(&task) {
        Ok(Async::Ready(Some(msg))) => {
            assert_eq!(msg.header().service, 4);
            assert_eq!(msg.header().session, 8);
            assert_eq!(data_of(&msg), vec![2u8]);
        },
        other => panic!("expected a message: {:?}", other),
    }
    session.close();
    assert!(session.context().is_closed());
    assert!(matches!(session.take(&task), Ok(Async::Ready(None))));
}
