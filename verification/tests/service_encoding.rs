use arrow_client::addr::{IpAddress, MacAddr, SocketAddress};
use arrow_client::svc_table::{
    Service, ServiceHeader, ServiceTable, ServiceType, SimpleServiceTable, SERVICE_HEADER_SIZE,
};
use bytes::BytesMut;

fn mac() -> MacAddr {
    MacAddr::new(0x01, 0x02, 0x03, 0x04, 0x05, 0x06)
}

fn v4(a: u8, b: u8, c: u8, d: u8, port: u16) -> SocketAddress {
    SocketAddress::new(IpAddress::V4([a, b, c, d]), port)
}

fn encoded(service: &Service) -> Vec<u8> {
    let mut buf = BytesMut::new();
    service.encode(&mut buf);
    buf.to_vec()
}

fn rtsp_service_from(id: u16) -> Service {
    Service::rtsp(id, mac(), v4(192, 0, 2, 1, 554), String::from("stream"))
}

fn http_service_from(id: u16) -> Service {
    Service::http(id, mac(), v4(192, 0, 2, 2, 80))
}

#[test]
fn service_type_codes() {
    assert_eq!(ServiceType::ControlProtocol.code(), 0x0000);
    assert_eq!(ServiceType::RTSP.code(), 0x0001);
    assert_eq!(ServiceType::LockedRTSP.code(), 0x0002);
    assert_eq!(ServiceType::UnknownRTSP.code(), 0x0003);
    assert_eq!(ServiceType::UnsupportedRTSP.code(), 0x0004);
    assert_eq!(ServiceType::HTTP.code(), 0x0005);
    assert_eq!(ServiceType::MJPEG.code(), 0x0006);
    assert_eq!(ServiceType::LockedMJPEG.code(), 0x0007);
    assert_eq!(ServiceType::TCP.code(), 0xffff);
}

#[test]
fn service_type_from_code_inverts_code() {
    let all = [
        ServiceType::ControlProtocol,
        ServiceType::RTSP,
        ServiceType::LockedRTSP,
        ServiceType::UnknownRTSP,
        ServiceType::UnsupportedRTSP,
        ServiceType::HTTP,
        ServiceType::MJPEG,
        ServiceType::LockedMJPEG,
        ServiceType::TCP,
    ];
    for svc_type in all.iter() {
        assert_eq!(ServiceType::from_code(svc_type.code()), Some(*svc_type));
    }
    assert_eq!(ServiceType::from_code(0x0008), None);
    assert_eq!(ServiceType::from_code(0xfffe), None);
}

#[test]
fn encode_rtsp_service() {
    let service = Service::rtsp(0x1234, mac(), v4(192, 0, 2, 1, 554), String::from("stream"));
    let expected: Vec<u8> = vec![
        0x12, 0x34, // service id
        0x00, 0x01, // service type
        0x01, 0x02, 0x03, 0x04, 0x05, 0x06, // MAC
        0x04, // IP version
        0xC0, 0x00, 0x02, 0x01, 0x00, 0x00, 0x00, 0x00, 0x00, 0x00, 0x00, 0x00, 0x00, 0x00, 0x00,
        0x00, // IP address
        0x02, 0x2A, // port
        0x73, 0x74, 0x72, 0x65, 0x61, 0x6D, 0x00, // "stream\0"
    ];
    assert_eq!(encoded(&service), expected);
    assert_eq!(service.len(), 36);
    assert_eq!(service.len(), 29 + 7);
}

#[test]
fn encode_control_service() {
    let service = Service::control();
    let bytes = encoded(&service);
    assert_eq!(bytes.len(), 30);
    assert!(bytes.iter().all(|b| *b == 0));
    assert_eq!(service.len(), 30);
}

#[test]
fn encode_appends_to_what_the_buffer_holds() {
    let mut buf = BytesMut::new();
    buf.extend_from_slice(&[0xAA, 0xBB]);
    Service::control().encode(&mut buf);
    assert_eq!(buf.len(), 32);
    assert_eq!(&buf[..2], &[0xAA, 0xBB]);
    assert!(buf[2..].iter().all(|b| *b == 0));
}

#[test]
fn encode_ipv6_service() {
    let ip = [
        0x20, 0x01, 0x0d, 0xb8, 0x00, 0x00, 0x00, 0x00, 0x00, 0x00, 0x00, 0x00, 0x00, 0x00, 0x00,
        0x01,
    ];
    let service = Service::tcp(0xBEEF, mac(), SocketAddress::new(IpAddress::V6(ip), 0x1F90));
    let bytes = encoded(&service);
    assert_eq!(bytes.len(), 30);
    assert_eq!(&bytes[0..4], &[0xBE, 0xEF, 0xFF, 0xFF]);
    assert_eq!(&bytes[4..10], &[1, 2, 3, 4, 5, 6]);
    assert_eq!(bytes[10], 6);
    assert_eq!(&bytes[11..27], &ip);
    assert_eq!(&bytes[27..29], &[0x1F, 0x90]);
    assert_eq!(bytes[29], 0);
}

#[test]
fn encode_path_as_utf8() {
    let service = Service::mjpeg(7, mac(), v4(10, 0, 0, 1, 8080), String::from("caf\u{e9}"));
    let bytes = encoded(&service);
    assert_eq!(&bytes[29..], &[b'c', b'a', b'f', 0xC3, 0xA9, 0x00]);
    assert_eq!(service.len(), 29 + 5 + 1);
    assert_eq!(bytes.len(), service.len());
}

#[test]
fn locked_service_without_path_encodes_an_empty_path() {
    let without = Service::locked_rtsp(3, mac(), v4(10, 0, 0, 1, 554), None);
    let with_empty = Service::locked_rtsp(3, mac(), v4(10, 0, 0, 1, 554), Some(String::new()));
    assert_eq!(encoded(&without).len(), 30);
    assert_eq!(encoded(&without), encoded(&with_empty));
    assert_eq!(&encoded(&without)[2..4], &[0x00, 0x02]);
    let mjpeg = Service::locked_mjpeg(4, mac(), v4(10, 0, 0, 1, 80), Some(String::from("v")));
    assert_eq!(&encoded(&mjpeg)[2..4], &[0x00, 0x07]);
    assert_eq!(&encoded(&mjpeg)[29..], &[b'v', 0x00]);
}

#[test]
fn service_header_of_a_service() {
    let service = rtsp_service_from(0x0102);
    let header = ServiceHeader::from(&service);
    assert_eq!(header.svc_id, 0x0102);
    assert_eq!(header.svc_type, 0x0001);
    assert_eq!(header.mac_addr, [1, 2, 3, 4, 5, 6]);
    assert_eq!(header.ip_version, 4);
    assert_eq!(header.ip_addr, [192, 0, 2, 1, 0, 0, 0, 0, 0, 0, 0, 0, 0, 0, 0, 0]);
    assert_eq!(header.port, 554);
    assert_eq!(SERVICE_HEADER_SIZE, 29);
}

#[test]
fn service_header_of_the_control_service() {
    let header = ServiceHeader::from(&Service::control());
    assert_eq!(header.svc_id, 0);
    assert_eq!(header.svc_type, 0);
    assert_eq!(header.mac_addr, [0; 6]);
    assert_eq!(header.ip_version, 0);
    assert_eq!(header.ip_addr, [0; 16]);
    assert_eq!(header.port, 0);
}

#[test]
fn constructors_set_the_fields() {
    let address = v4(10, 1, 2, 3, 8554);
    let rtsp = Service::rtsp(1, mac(), address, String::from("a"));
    assert_eq!(rtsp.service_type(), ServiceType::RTSP);
    assert_eq!(rtsp.id(), 1);
    assert_eq!(rtsp.mac(), Some(&mac()));
    assert_eq!(rtsp.address(), Some(&address));
    assert_eq!(rtsp.path(), Some("a"));
    assert!(!rtsp.is_control());

    let locked = Service::locked_rtsp(2, mac(), address, None);
    assert_eq!(locked.service_type(), ServiceType::LockedRTSP);
    assert_eq!(locked.path(), None);

    let unknown = Service::unknown_rtsp(3, mac(), address);
    assert_eq!(unknown.service_type(), ServiceType::UnknownRTSP);
    assert_eq!(unknown.path(), None);

    let unsupported = Service::unsupported_rtsp(4, mac(), address, String::from("b"));
    assert_eq!(unsupported.service_type(), ServiceType::RTSP);
    assert_eq!(unsupported.path(), Some("b"));

    let http = Service::http(5, mac(), address);
    assert_eq!(http.service_type(), ServiceType::HTTP);
    assert_eq!(http.path(), None);

    let mjpeg = Service::mjpeg(6, mac(), address, String::from("c"));
    assert_eq!(mjpeg.service_type(), ServiceType::MJPEG);
    assert_eq!(mjpeg.path(), Some("c"));

    let locked_mjpeg = Service::locked_mjpeg(7, mac(), address, Some(String::from("d")));
    assert_eq!(locked_mjpeg.service_type(), ServiceType::LockedMJPEG);
    assert_eq!(locked_mjpeg.path(), Some("d"));

    let tcp = Service::tcp(8, mac(), address);
    assert_eq!(tcp.service_type(), ServiceType::TCP);
    assert_eq!(tcp.id(), 8);
    assert_eq!(tcp.path(), None);
}

#[test]
fn control_service_has_no_addresses() {
    let control = Service::control();
    assert!(control.is_control());
    assert_eq!(control.service_type(), ServiceType::ControlProtocol);
    assert_eq!(control.id(), 0);
    assert_eq!(control.mac(), None);
    assert_eq!(control.address(), None);
    assert_eq!(control.path(), None);
}

#[test]
fn new_replaces_the_id_only() {
    let service = rtsp_service_from(1);
    let renumbered = Service::new(0x4242, service.clone());
    assert_eq!(renumbered.id(), 0x4242);
    assert_eq!(renumbered.service_type(), service.service_type());
    assert_eq!(renumbered.mac(), service.mac());
    assert_eq!(renumbered.address(), service.address());
    assert_eq!(renumbered.path(), service.path());
    assert_eq!(Service::new(1, renumbered), service);
}

#[test]
fn clone_is_equal() {
    let service = Service::locked_mjpeg(9, mac(), v4(1, 2, 3, 4, 5), Some(String::from("x")));
    assert_eq!(service.clone(), service);
}

#[test]
fn table_encodes_services_then_control() {
    let table = SimpleServiceTable::from(vec![rtsp_service_from(1), http_service_from(2)]);
    let mut buf = BytesMut::new();
    table.encode(&mut buf);

    let mut expected = encoded(&rtsp_service_from(1));
    expected.extend(encoded(&http_service_from(2)));
    expected.extend(encoded(&Service::control()));
    assert_eq!(buf.to_vec(), expected);
    assert_eq!(table.len(), expected.len());
    assert_eq!(table.len(), 36 + 30 + 30);
}

#[test]
fn empty_table_encodes_control_only() {
    let table = SimpleServiceTable::from(Vec::new());
    let mut buf = BytesMut::new();
    table.encode(&mut buf);
    assert_eq!(buf.to_vec(), vec![0u8; 30]);
    assert_eq!(table.len(), 30);
}

#[test]
fn table_get_resolves_ids() {
    let table = SimpleServiceTable::from(vec![rtsp_service_from(1), http_service_from(2)]);
    assert_eq!(table.get(1), Some(rtsp_service_from(1)));
    assert_eq!(table.get(2), Some(http_service_from(2)));
    assert_eq!(table.get(3), None);
}

#[test]
fn table_get_zero_is_control() {
    let empty = SimpleServiceTable::from(Vec::new());
    assert_eq!(empty.get(0), Some(Service::control()));
    let zero_stored = SimpleServiceTable::from(vec![Service::tcp(0, mac(), v4(1, 1, 1, 1, 1))]);
    assert_eq!(zero_stored.get(0), Some(Service::control()));
}

#[test]
fn table_get_returns_first_of_equal_ids() {
    let first = Service::tcp(5, mac(), v4(1, 1, 1, 1, 1));
    let second = Service::http(5, mac(), v4(2, 2, 2, 2, 2));
    let table = SimpleServiceTable::from(vec![first.clone(), second]);
    assert_eq!(table.get(5), Some(first));
}

#[test]
fn try_encode_encodes_where_there_is_room() {
    let service = rtsp_service_from(0x1234);
    let mut buf = BytesMut::new();
    buf.extend_from_slice(&[0xEE]);
    assert!(service.try_encode(&mut buf));
    assert_eq!(&buf[1..], &encoded(&service)[..]);
    assert_eq!(service.checked_len(), Some(36));
    assert_eq!(Service::control().checked_len(), Some(30));

    let table = SimpleServiceTable::from(vec![rtsp_service_from(1), http_service_from(2)]);
    let mut expected = BytesMut::new();
    table.encode(&mut expected);
    let mut buf = BytesMut::new();
    assert!(table.try_encode(&mut buf));
    assert_eq!(buf, expected);
    assert_eq!(table.checked_len(), Some(96));
    assert_eq!(SimpleServiceTable::from(Vec::new()).checked_len(), Some(30));
}
