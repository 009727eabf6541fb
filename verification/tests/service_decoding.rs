use arrow_client::addr::{IpAddress, MacAddr, SocketAddress};
use arrow_client::svc_table::{Service, ServiceType, SimpleServiceTable};
use bytes::BytesMut;

fn mac() -> MacAddr {
    MacAddr::new(0x0a, 0x0b, 0x0c, 0x0d, 0x0e, 0x0f)
}

fn v4() -> SocketAddress {
    SocketAddress::new(IpAddress::V4([192, 0, 2, 1]), 554)
}

fn v6() -> SocketAddress {
    SocketAddress::new(
        IpAddress::V6([0xfe, 0x80, 0, 0, 0, 0, 0, 0, 1, 2, 3, 4, 5, 6, 7, 8]),
        8080,
    )
}

fn encoded(service: &Service) -> Vec<u8> {
    let mut buf = BytesMut::new();
    service.encode(&mut buf);
    buf.to_vec()
}

fn samples() -> Vec<Service> {
    vec![
        Service::control(),
        Service::rtsp(0x1234, mac(), v4(), String::from("stream")),
        Service::rtsp(1, mac(), v6(), String::new()),
        Service::locked_rtsp(2, mac(), v4(), None),
        Service::locked_rtsp(3, mac(), v4(), Some(String::from("locked"))),
        Service::unknown_rtsp(4, mac(), v6()),
        Service::unsupported_rtsp(5, mac(), v4(), String::from("caf\u{e9}/\u{1F3A5}")),
        Service::http(6, mac(), v4()),
        Service::mjpeg(7, mac(), v6(), String::from("video.mjpg")),
        Service::locked_mjpeg(8, mac(), v4(), None),
        Service::locked_mjpeg(0xffff, mac(), v6(), Some(String::from("m"))),
        Service::tcp(0, MacAddr::new(0, 0, 0, 0, 0, 0), SocketAddress::new(IpAddress::V4([0; 4]), 0)),
    ]
}

fn rtsp_bytes() -> Vec<u8> {
    encoded(&Service::rtsp(0x1234, mac(), v4(), String::from("stream")))
}

#[test]
fn decode_inverts_encode() {
    for service in samples() {
        let bytes = encoded(&service);
        assert_eq!(Service::decode(&bytes), Some((service.clone(), bytes.len())));
        assert_eq!(bytes.len(), service.len());
    }
}

#[test]
fn decode_reads_the_first_service_only() {
    for service in samples() {
        let mut bytes = encoded(&service);
        let len = bytes.len();
        bytes.extend_from_slice(&[0x00, 0x41, 0xff, 0x00]);
        assert_eq!(Service::decode(&bytes), Some((service, len)));
    }
}

#[test]
fn decode_walks_an_encoded_table() {
    let stored = vec![
        Service::rtsp(1, mac(), v4(), String::from("a")),
        Service::http(2, mac(), v6()),
    ];
    let table = SimpleServiceTable::from(stored.clone());
    let mut buf = BytesMut::new();
    table.encode(&mut buf);
    let bytes = buf.to_vec();

    let mut read = Vec::new();
    let mut at = 0;
    while at < bytes.len() {
        let (service, len) = Service::decode(&bytes[at..]).unwrap();
        read.push(service);
        at += len;
    }
    assert_eq!(at, table.len());
    let mut expected = stored;
    expected.push(Service::control());
    assert_eq!(read, expected);
}

#[test]
fn decode_reads_the_unsupported_rtsp_code() {
    let mut bytes = rtsp_bytes();
    bytes[3] = 0x04;
    let (service, len) = Service::decode(&bytes).unwrap();
    assert_eq!(service.service_type(), ServiceType::UnsupportedRTSP);
    assert_eq!(service.path(), Some("stream"));
    assert_eq!(len, 36);
    assert_eq!(encoded(&service), bytes);
}

#[test]
fn decode_reads_an_empty_locked_path_as_none() {
    let with_empty = Service::locked_rtsp(3, mac(), v4(), Some(String::new()));
    let without = Service::locked_rtsp(3, mac(), v4(), None);
    assert_eq!(Service::decode(&encoded(&with_empty)), Some((without, 30)));
}

#[test]
fn decode_stops_at_a_nul_inside_the_path() {
    let service = Service::rtsp(1, mac(), v4(), String::from("ab\u{0}cd"));
    let bytes = encoded(&service);
    assert_eq!(bytes.len(), 35);
    let short = Service::rtsp(1, mac(), v4(), String::from("ab"));
    assert_eq!(Service::decode(&bytes), Some((short, 32)));
}

#[test]
fn decode_rejects_short_input() {
    assert_eq!(Service::decode(&[]), None);
    assert_eq!(Service::decode(&[0u8; 29]), None);
    let bytes = rtsp_bytes();
    assert_eq!(Service::decode(&bytes[..29]), None);
    assert_eq!(Service::decode(&bytes[..35]), None);
    assert!(Service::decode(&bytes[..36]).is_some());
}

#[test]
fn decode_rejects_an_unknown_type() {
    let mut bytes = rtsp_bytes();
    bytes[3] = 0x08;
    assert_eq!(Service::decode(&bytes), None);
    bytes[2] = 0xff;
    bytes[3] = 0xfe;
    assert_eq!(Service::decode(&bytes), None);
}

#[test]
fn decode_rejects_a_bad_ip_version() {
    let mut bytes = rtsp_bytes();
    bytes[10] = 0;
    assert_eq!(Service::decode(&bytes), None);
    bytes[10] = 5;
    assert_eq!(Service::decode(&bytes), None);
}

#[test]
fn decode_rejects_ipv4_with_padding_that_is_not_zero() {
    let mut bytes = rtsp_bytes();
    bytes[26] = 1;
    assert_eq!(Service::decode(&bytes), None);
    bytes[10] = 6;
    assert!(Service::decode(&bytes).is_some());
}

#[test]
fn decode_rejects_a_path_that_is_not_utf8() {
    let mut bytes = rtsp_bytes();
    bytes[29] = 0xff;
    assert_eq!(Service::decode(&bytes), None);
    bytes[29] = 0xC3;
    bytes[30] = 0x28;
    assert_eq!(Service::decode(&bytes), None);
}

#[test]
fn decode_rejects_a_path_where_the_type_has_none() {
    let mut bytes = rtsp_bytes();
    for code in [0x03u8, 0x05].iter() {
        bytes[3] = *code;
        assert_eq!(Service::decode(&bytes), None);
    }
    bytes[2] = 0xff;
    bytes[3] = 0xff;
    assert_eq!(Service::decode(&bytes), None);
}

#[test]
fn decode_rejects_a_control_service_with_fields() {
    assert_eq!(Service::decode(&[0u8; 30]), Some((Service::control(), 30)));
    for at in [0usize, 1, 4, 9, 10, 11, 26, 27, 28].iter() {
        let mut bytes = vec![0u8; 30];
        bytes[*at] = 1;
        assert_eq!(Service::decode(&bytes), None);
    }
    let mut bytes = vec![0u8; 31];
    bytes[29] = b'x';
    assert_eq!(Service::decode(&bytes), None);
}
