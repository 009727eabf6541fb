//! Reading an encoded service back.
//!
//! Two services may share one encoding: a missing path is encoded as an
//! empty one, and a NUL inside a path ends it early for a reader. The
//! canonical services are those that a reader finds again from their
//! encoding, and they are what [`Service::decode`] returns.

use crate::addr::{IpAddress, MacAddr, SocketAddress};
use crate::svc_table::{
    be16, lemma_type_code_round_trip, lemma_wire_len, zeros, Service, ServiceType, ServiceView,
    SERVICE_HEADER_SIZE,
};
use vstd::prelude::*;
use vstd::slice::slice_subrange;
use vstd::string::StringSliceAdditionalSpecFns;
use vstd::utf8::{encode_utf8, encode_utf8_decode_utf8, encode_utf8_valid_utf8, valid_utf8};

verus! {

impl ServiceView {
    /// The service is well formed, its path holds no NUL, and where its type
    /// leaves the path open it has either none or one that is not empty.
    pub open spec fn canonical(self) -> bool {
        &&& self.wf()
        &&& forall|i: int| 0 <= i < self.path_bytes().len() ==> self.path_bytes()[i] != 0
        &&& (self.svc_type.may_have_path() ==> self.path != Some(Seq::<char>::empty()))
    }

    /// Whether `bytes` start with the encoding of the service.
    pub open spec fn is_encoded_at_start_of(self, bytes: Seq<u8>) -> bool {
        self.wire().is_prefix_of(bytes)
    }
}

/// Where the fields of a service stand in its encoded header.
pub proof fn lemma_header_layout(service: ServiceView)
    ensures
        service.header_wire().len() == SERVICE_HEADER_SIZE,
        service.header_wire().subrange(0, 2) == be16(service.id),
        service.header_wire().subrange(2, 4) == be16(service.svc_type.spec_code()),
        service.header_wire().subrange(4, 10) == service.mac_bytes(),
        service.header_wire()[10] == service.ip_version(),
        service.header_wire().subrange(11, 27) == service.ip_bytes(),
        service.header_wire().subrange(27, 29) == be16(service.port()),
        service.mac_bytes().len() == 6,
        service.ip_bytes().len() == 16,
{
    lemma_wire_len(service);
    let header = service.header_wire();
    match service.mac {
        Some(mac) => {
            assert(mac.octets@.len() == 6);
        },
        None => {},
    }
    match service.address {
        Some(address) => {
            match address.ip {
                IpAddress::V4(octets) => {
                    assert(octets@.len() == 4);
                },
                IpAddress::V6(octets) => {
                    assert(octets@.len() == 16);
                },
            }
        },
        None => {},
    }
    assert(header.subrange(0, 2) =~= be16(service.id));
    assert(header.subrange(2, 4) =~= be16(service.svc_type.spec_code()));
    assert(header.subrange(4, 10) =~= service.mac_bytes());
    assert(header.subrange(11, 27) =~= service.ip_bytes());
    assert(header.subrange(27, 29) =~= be16(service.port()));
}

/// Where the parts of a service stand in bytes that start with its
/// encoding: the header in the first 29 bytes, the path behind it, and the
/// first NUL from byte 29 on right behind the path.
pub proof fn lemma_encoded_layout(service: ServiceView, bytes: Seq<u8>)
    requires
        service.canonical(),
        service.is_encoded_at_start_of(bytes),
    ensures
        bytes.len() >= service.wire_len(),
        service.wire_len() == SERVICE_HEADER_SIZE + service.path_bytes().len() + 1,
        bytes.subrange(0, SERVICE_HEADER_SIZE as int) == service.header_wire(),
        bytes.subrange(
            SERVICE_HEADER_SIZE as int,
            SERVICE_HEADER_SIZE + service.path_bytes().len(),
        ) == service.path_bytes(),
        bytes[SERVICE_HEADER_SIZE + service.path_bytes().len()] == 0,
        forall|i: int|
            SERVICE_HEADER_SIZE <= i < SERVICE_HEADER_SIZE + service.path_bytes().len()
                ==> bytes[i] != 0,
{
    lemma_wire_len(service);
    let wire = service.wire();
    let path = service.path_bytes();
    let end = SERVICE_HEADER_SIZE as int + path.len();
    assert(wire == bytes.subrange(0, wire.len() as int));
    assert forall|i: int| 0 <= i < wire.len() implies bytes[i] == wire[i] by {
        assert(bytes.subrange(0, wire.len() as int)[i] == bytes[i]);
    }
    assert(bytes.subrange(0, SERVICE_HEADER_SIZE as int) =~= service.header_wire()) by {
        assert forall|i: int| 0 <= i < SERVICE_HEADER_SIZE implies bytes[i]
            == service.header_wire()[i] by {
            assert(wire[i] == service.header_wire()[i]);
        }
    }
    assert(bytes.subrange(SERVICE_HEADER_SIZE as int, end) =~= path) by {
        assert forall|i: int| 0 <= i < path.len() implies bytes[SERVICE_HEADER_SIZE + i]
            == path[i] by {
            assert(wire[SERVICE_HEADER_SIZE + i] == path[i]);
        }
    }
    assert(wire[end] == 0);
    assert forall|i: int| SERVICE_HEADER_SIZE <= i < end implies bytes[i] != 0 by {
        assert(wire[i] == path[i - SERVICE_HEADER_SIZE]);
    }
}

/// A number is found again from its two bytes.
pub proof fn lemma_be16_injective(a: u16, b: u16)
    requires
        be16(a) == be16(b),
    ensures
        a == b,
{
    assert(be16(a)[0] == be16(b)[0]);
    assert(be16(a)[1] == be16(b)[1]);
}

/// A text is found again from its UTF-8 bytes.
pub proof fn lemma_utf8_injective(a: Seq<char>, b: Seq<char>)
    requires
        encode_utf8(a) == encode_utf8(b),
    ensures
        a == b,
{
    encode_utf8_decode_utf8(a);
    encode_utf8_decode_utf8(b);
}

/// Round trip. A canonical service is the only canonical service whose
/// encoding stands at the start of its own encoding, whatever bytes follow:
/// a reader that goes by the layout finds the service again, equal to the
/// service field by field.
pub proof fn law_encoding_round_trip(service: ServiceView, rest: Seq<u8>, read: ServiceView)
    requires
        service.canonical(),
        read.canonical(),
        read.is_encoded_at_start_of(service.wire() + rest),
    ensures
        read == service,
{
    let bytes = service.wire() + rest;
    assert(service.wire().is_prefix_of(bytes)) by {
        assert(bytes.subrange(0, service.wire().len() as int) =~= service.wire());
    }
    lemma_encoded_layout(service, bytes);
    lemma_encoded_layout(read, bytes);
    lemma_header_layout(service);
    lemma_header_layout(read);
    // the header
    lemma_be16_injective(service.id, read.id);
    lemma_be16_injective(service.svc_type.spec_code(), read.svc_type.spec_code());
    lemma_be16_injective(service.port(), read.port());
    lemma_type_code_round_trip(service.svc_type);
    lemma_type_code_round_trip(read.svc_type);
    assert(service.svc_type == read.svc_type);
    // the path ends at the first NUL
    let mine = service.path_bytes().len() as int;
    let other = read.path_bytes().len() as int;
    if mine < other {
        assert(bytes[SERVICE_HEADER_SIZE + mine] == 0);
    } else if other < mine {
        assert(bytes[SERVICE_HEADER_SIZE + other] == 0);
    }
    assert(service.path_bytes() == read.path_bytes());
    if service.svc_type is ControlProtocol {
    } else {
        let a = service.mac->0;
        let b = read.mac->0;
        assert(a.octets@ == b.octets@);
        assert(a.octets =~= b.octets);
        lemma_same_address(service.address->0, read.address->0);
        lemma_same_path(service, read);
    }
}

/// Two socket addresses with the same version, bytes and port are one.
proof fn lemma_same_address(a: SocketAddress, b: SocketAddress)
    requires
        a.ip.spec_version() == b.ip.spec_version(),
        a.ip.spec_bytes() == b.ip.spec_bytes(),
        a.port == b.port,
    ensures
        a == b,
{
    match (a.ip, b.ip) {
        (IpAddress::V4(x), IpAddress::V4(y)) => {
            assert forall|i: int| 0 <= i < 4 implies x@[i] == y@[i] by {
                assert(a.ip.spec_bytes()[i] == x@[i]);
                assert(b.ip.spec_bytes()[i] == y@[i]);
            }
            assert(x =~= y);
        },
        (IpAddress::V6(x), IpAddress::V6(y)) => {
            assert(x =~= y);
        },
        _ => {},
    }
}

/// Two canonical services of one type with the same path bytes have the
/// same path.
proof fn lemma_same_path(a: ServiceView, b: ServiceView)
    requires
        a.canonical(),
        b.canonical(),
        a.svc_type == b.svc_type,
        a.path_bytes() == b.path_bytes(),
    ensures
        a.path == b.path,
{
    match (a.path, b.path) {
        (Some(x), Some(y)) => {
            lemma_utf8_injective(x, y);
        },
        (Some(x), None) => {
            lemma_utf8_injective(x, Seq::empty());
        },
        (None, Some(y)) => {
            lemma_utf8_injective(Seq::empty(), y);
        },
        (None, None) => {},
    }
}

/// The number that two bytes stand for, the high one first.
pub open spec fn from_be16(high: u8, low: u8) -> u16 {
    (high * 256 + low) as u16
}

/// Whether `end` is the place of the first NUL from byte 29 on.
pub open spec fn is_path_end(bytes: Seq<u8>, end: int) -> bool {
    &&& SERVICE_HEADER_SIZE <= end < bytes.len()
    &&& bytes[end] == 0
    &&& forall|i: int| SERVICE_HEADER_SIZE <= i < end ==> bytes[i] != 0
}

/// What a reader learns of a canonical service from bytes that start with
/// its encoding and whose first NUL from byte 29 on is at `end`.
pub proof fn lemma_reader_facts(service: ServiceView, bytes: Seq<u8>, end: int)
    requires
        service.canonical(),
        service.is_encoded_at_start_of(bytes),
        is_path_end(bytes, end),
    ensures
        end == SERVICE_HEADER_SIZE + service.path_bytes().len(),
        end + 1 == service.wire_len(),
        service.path_bytes() == bytes.subrange(SERVICE_HEADER_SIZE as int, end),
        valid_utf8(bytes.subrange(SERVICE_HEADER_SIZE as int, end)),
        service.id == from_be16(bytes[0], bytes[1]),
        service.svc_type.spec_code() == from_be16(bytes[2], bytes[3]),
        ServiceType::spec_from_code(from_be16(bytes[2], bytes[3])) == Some(service.svc_type),
        service.mac_bytes() == bytes.subrange(4, 10),
        service.ip_version() == bytes[10],
        service.ip_bytes() == bytes.subrange(11, 27),
        service.port() == from_be16(bytes[27], bytes[28]),
{
    lemma_encoded_layout(service, bytes);
    lemma_header_layout(service);
    lemma_type_code_round_trip(service.svc_type);
    let own = SERVICE_HEADER_SIZE + service.path_bytes().len();
    if own < end {
        assert(bytes[own] == 0);
    } else if end < own {
        assert(bytes[end] == 0);
    }
    match service.path {
        Some(path) => {
            encode_utf8_valid_utf8(path);
        },
        None => {
            encode_utf8_valid_utf8(Seq::empty());
            assert(encode_utf8(Seq::<char>::empty()) =~= Seq::<u8>::empty());
        },
    }
    let header = service.header_wire();
    assert(header == bytes.subrange(0, SERVICE_HEADER_SIZE as int));
    assert forall|i: int| 0 <= i < SERVICE_HEADER_SIZE implies header[i] == bytes[i] by {
        assert(bytes.subrange(0, SERVICE_HEADER_SIZE as int)[i] == bytes[i]);
    }
    assert(header.subrange(0, 2)[0] == bytes[0] && header.subrange(0, 2)[1] == bytes[1]);
    assert(header.subrange(2, 4)[0] == bytes[2] && header.subrange(2, 4)[1] == bytes[3]);
    assert(header.subrange(27, 29)[0] == bytes[27] && header.subrange(27, 29)[1] == bytes[28]);
    assert(header.subrange(4, 10) =~= bytes.subrange(4, 10));
    assert(header.subrange(11, 27) =~= bytes.subrange(11, 27));
}

/// Bytes that start with the encoding of a canonical service are at least
/// 30 bytes long and hold a NUL from byte 29 on.
pub proof fn lemma_reader_finds_end(service: ServiceView, bytes: Seq<u8>) -> (end: int)
    requires
        service.canonical(),
        service.is_encoded_at_start_of(bytes),
    ensures
        is_path_end(bytes, end),
        bytes.len() > SERVICE_HEADER_SIZE,
{
    lemma_encoded_layout(service, bytes);
    SERVICE_HEADER_SIZE + service.path_bytes().len()
}

/// `std::str::from_utf8`: the text whose UTF-8 encoding the bytes are, or
/// nothing where the bytes are not valid UTF-8.
#[verifier::external_body]
fn text_from_utf8(bytes: &[u8]) -> (text: Option<&str>)
    ensures
        match text {
            Some(text) => text.spec_bytes() == bytes@,
            None => !valid_utf8(bytes@),
        },
{
    std::str::from_utf8(bytes).ok()
}

/// Whether the bytes from `from` up to `to` are all zero.
fn all_zero(bytes: &[u8], from: usize, to: usize) -> (zero: bool)
    requires
        from <= to <= bytes@.len(),
    ensures
        zero == (forall|i: int| from <= i < to ==> bytes@[i] == 0),
{
    let mut i: usize = from;
    while i < to
        invariant
            from <= i <= to <= bytes@.len(),
            forall|j: int| from <= j < i ==> bytes@[j] == 0,
        decreases to - i,
    {
        if bytes[i] != 0 {
            return false;
        }
        i += 1;
    }
    true
}

/// The number that two bytes stand for, the high one first.
fn read_be16(high: u8, low: u8) -> (value: u16)
    ensures
        value == from_be16(high, low),
        be16(value) == seq![high, low],
{
    let value: u16 = high as u16 * 256 + low as u16;
    assert(be16(value) =~= seq![high, low]);
    value
}

/// Whether bytes whose first NUL from byte 29 on is at `end` pass every test
/// of the reader: the type code is known, the path is UTF-8 and stands only
/// where the type has one, a Control Protocol service is all zero, and
/// another service has IP version 6, or 4 with twelve zero bytes behind the
/// address.
pub open spec fn well_laid_out(bytes: Seq<u8>, end: int) -> bool {
    &&& is_path_end(bytes, end)
    &&& valid_utf8(bytes.subrange(SERVICE_HEADER_SIZE as int, end))
    &&& match ServiceType::spec_from_code(from_be16(bytes[2], bytes[3])) {
        None => false,
        Some(ServiceType::ControlProtocol) => {
            &&& end == SERVICE_HEADER_SIZE
            &&& bytes[0] == 0
            &&& bytes[1] == 0
            &&& forall|i: int| 4 <= i < SERVICE_HEADER_SIZE ==> bytes[i] == 0
        },
        Some(svc_type) => {
            &&& bytes[10] == 6 || (bytes[10] == 4 && forall|i: int| 15 <= i < 27 ==> bytes[i] == 0)
            &&& (svc_type.has_path() || svc_type.may_have_path() || end == SERVICE_HEADER_SIZE)
        },
    }
}

/// Bytes that start with the encoding of a canonical service pass every
/// test of the reader.
pub proof fn lemma_encoded_is_well_laid_out(service: ServiceView, bytes: Seq<u8>, end: int)
    requires
        service.canonical(),
        service.is_encoded_at_start_of(bytes),
        is_path_end(bytes, end),
    ensures
        well_laid_out(bytes, end),
{
    lemma_reader_facts(service, bytes, end);
    assert(encode_utf8(Seq::<char>::empty()) =~= Seq::<u8>::empty());
    if service.svc_type is ControlProtocol {
        assert(service == ServiceView::control());
        assert(be16(0)[0] == 0 && be16(0)[1] == 0);
        assert forall|i: int| 4 <= i < SERVICE_HEADER_SIZE implies bytes[i] == 0 by {
            if i < 10 {
                assert(bytes.subrange(4, 10)[i - 4] == 0);
            } else if i == 10 {
            } else if i < 27 {
                assert(bytes.subrange(11, 27)[i - 11] == 0);
            } else {
            }
        }
    } else {
        let address = service.address->0;
        match address.ip {
            IpAddress::V4(octets) => {
                assert forall|i: int| 15 <= i < 27 implies bytes[i] == 0 by {
                    assert(bytes.subrange(11, 27)[i - 11] == bytes[i]);
                }
            },
            IpAddress::V6(octets) => {},
        }
    }
}

/// Bytes that fail a test of the reader start with the encoding of no
/// canonical service.
pub proof fn lemma_badly_laid_out_is_not_encoded(bytes: Seq<u8>, end: int)
    requires
        is_path_end(bytes, end),
        !well_laid_out(bytes, end),
    ensures
        forall|service: ServiceView|
            service.canonical() ==> !#[trigger] service.is_encoded_at_start_of(bytes),
{
    assert forall|service: ServiceView|
        service.canonical() implies !#[trigger] service.is_encoded_at_start_of(bytes) by {
        if service.is_encoded_at_start_of(bytes) {
            lemma_encoded_is_well_laid_out(service, bytes, end);
        }
    }
}

/// Bytes without a NUL from byte 29 on start with the encoding of no
/// canonical service.
pub proof fn lemma_endless_is_not_encoded(bytes: Seq<u8>)
    requires
        forall|i: int| SERVICE_HEADER_SIZE <= i < bytes.len() ==> bytes[i] != 0,
    ensures
        forall|service: ServiceView|
            service.canonical() ==> !#[trigger] service.is_encoded_at_start_of(bytes),
{
    assert forall|service: ServiceView|
        service.canonical() implies !#[trigger] service.is_encoded_at_start_of(bytes) by {
        if service.is_encoded_at_start_of(bytes) {
            let end = lemma_reader_finds_end(service, bytes);
            assert(bytes[end] == 0);
        }
    }
}

/// The place of the first NUL from byte 29 on, if there is one.
fn find_path_end(bytes: &[u8]) -> (found: Option<usize>)
    ensures
        match found {
            Some(end) => is_path_end(bytes@, end as int),
            None => forall|i: int| SERVICE_HEADER_SIZE <= i < bytes@.len() ==> bytes@[i] != 0,
        },
{
    let len = bytes.len();
    let mut end: usize = SERVICE_HEADER_SIZE;
    while end < len
        invariant
            len == bytes@.len(),
            SERVICE_HEADER_SIZE <= end,
            forall|i: int| SERVICE_HEADER_SIZE <= i < end && i < len ==> bytes@[i] != 0,
        decreases len - end,
    {
        if bytes[end] == 0 {
            return Some(end);
        }
        end += 1;
    }
    None
}

/// The IP address of the header, if its version is 6, or 4 with twelve zero
/// bytes behind the address.
fn read_ip(bytes: &[u8]) -> (ip: Option<IpAddress>)
    requires
        bytes@.len() >= SERVICE_HEADER_SIZE,
    ensures
        match ip {
            Some(ip) => {
                &&& ip.spec_version() == bytes@[10]
                &&& ip.spec_bytes() == bytes@.subrange(11, 27)
            },
            None => !(bytes@[10] == 6 || (bytes@[10] == 4 && forall|i: int|
                15 <= i < 27 ==> bytes@[i] == 0)),
        },
{
    let version = bytes[10];
    if version == 4 {
        if !all_zero(bytes, 15, 27) {
            return None;
        }
        let ip = IpAddress::V4([bytes[11], bytes[12], bytes[13], bytes[14]]);
        assert(ip.spec_bytes() =~= bytes@.subrange(11, 27));
        Some(ip)
    } else if version == 6 {
        let ip = IpAddress::V6(
            [
                bytes[11],
                bytes[12],
                bytes[13],
                bytes[14],
                bytes[15],
                bytes[16],
                bytes[17],
                bytes[18],
                bytes[19],
                bytes[20],
                bytes[21],
                bytes[22],
                bytes[23],
                bytes[24],
                bytes[25],
                bytes[26],
            ],
        );
        assert(ip.spec_bytes() =~= bytes@.subrange(11, 27));
        Some(ip)
    } else {
        None
    }
}

/// The path of a service of the given type whose path field holds `text`:
/// the text where the type always has a path, the text or nothing where the
/// type leaves it open, and nothing where the type has none. Fails where
/// the type has no path and the text is not empty.
fn read_path(svc_type: ServiceType, text: &str) -> (path: Result<Option<String>, ()>)
    requires
        !(svc_type is ControlProtocol),
    ensures
        match path {
            Ok(Some(path)) => {
                &&& path@ == text@
                &&& svc_type.has_path() || (svc_type.may_have_path() && text@.len() > 0)
            },
            Ok(None) => text@.len() == 0 && !svc_type.has_path(),
            Err(_) => text@.len() > 0 && !svc_type.has_path() && !svc_type.may_have_path(),
        },
{
    match svc_type {
        ServiceType::RTSP | ServiceType::UnsupportedRTSP | ServiceType::MJPEG => Ok(
            Some(text.to_owned()),
        ),
        ServiceType::LockedRTSP | ServiceType::LockedMJPEG => {
            if text.is_empty() {
                Ok(None)
            } else {
                Ok(Some(text.to_owned()))
            }
        },
        _ => {
            if text.is_empty() {
                Ok(None)
            } else {
                Err(())
            }
        },
    }
}

/// A text is empty exactly if its UTF-8 encoding is.
pub proof fn lemma_utf8_empty(text: Seq<char>)
    ensures
        text.len() == 0 <==> encode_utf8(text).len() == 0,
{
    assert(encode_utf8(Seq::<char>::empty()) =~= Seq::<u8>::empty());
    if encode_utf8(text).len() == 0 {
        assert(encode_utf8(text) =~= encode_utf8(Seq::<char>::empty()));
        lemma_utf8_injective(text, Seq::empty());
    } else if text.len() == 0 {
        assert(text =~= Seq::<char>::empty());
    }
}

impl Service {
    /// Reads the service that `bytes` start with, by the layout of an
    /// encoded service, and tells how many bytes its encoding takes.
    ///
    /// The result is canonical: a locked service with an empty path is read
    /// as one without a path. The method returns `None` where the bytes
    /// start with the encoding of no canonical service: where they are too
    /// short or hold no NUL from byte 29 on, the type code is unknown, the
    /// path is not UTF-8 or stands where the type has none, a Control
    /// Protocol service has a field that is not zero, or another service an
    /// IP version other than 4 and 6 or an IPv4 address that is not followed
    /// by twelve zero bytes.
    pub fn decode(bytes: &[u8]) -> (res: Option<(Service, usize)>)
        ensures
            match res {
                Some((service, len)) => {
                    &&& service@.canonical()
                    &&& service@.is_encoded_at_start_of(bytes@)
                    &&& len == service@.wire_len()
                },
                None => forall|service: ServiceView|
                    service.canonical() ==> !#[trigger] service.is_encoded_at_start_of(bytes@),
            },
    {
        let end = match find_path_end(bytes) {
            Some(end) => end,
            None => {
                proof {
                    lemma_endless_is_not_encoded(bytes@);
                }
                return None;
            },
        };
        let text = text_from_utf8(slice_subrange(bytes, SERVICE_HEADER_SIZE, end));
        let svc_type = ServiceType::from_code(read_be16(bytes[2], bytes[3]));
        let id = read_be16(bytes[0], bytes[1]);
        let service = match (svc_type, text) {
            (Some(ServiceType::ControlProtocol), Some(_)) => {
                if id == 0 && end == SERVICE_HEADER_SIZE && all_zero(bytes, 4, SERVICE_HEADER_SIZE) {
                    proof {
                        assert(zeros(6) =~= bytes@.subrange(4, 10));
                        assert(zeros(16) =~= bytes@.subrange(11, 27));
                        assert(be16(0) =~= seq![bytes@[27], bytes@[28]]);
                        assert(be16(0) =~= seq![bytes@[2], bytes@[3]]);
                        assert(Seq::<u8>::empty() =~= bytes@.subrange(
                            SERVICE_HEADER_SIZE as int,
                            end as int,
                        ));
                    }
                    Some(Service::control())
                } else {
                    None
                }
            },
            (Some(svc_type), Some(text)) => {
                proof {
                    lemma_utf8_empty(text@);
                }
                match (read_ip(bytes), read_path(svc_type, text)) {
                    (Some(ip), Ok(path)) => {
                        let mac = MacAddr::new(
                            bytes[4],
                            bytes[5],
                            bytes[6],
                            bytes[7],
                            bytes[8],
                            bytes[9],
                        );
                        assert(mac.octets@ =~= bytes@.subrange(4, 10));
                        let port = read_be16(bytes[27], bytes[28]);
                        Some(
                            Service::from_parts(
                                svc_type,
                                id,
                                Some(mac),
                                Some(SocketAddress::new(ip, port)),
                                path,
                            ),
                        )
                    },
                    _ => None,
                }
            },
            _ => None,
        };
        match service {
            Some(service) => {
                proof {
                    lemma_decoded_is_encoded(service@, bytes@, end as int);
                }
                Some((service, end + 1))
            },
            None => {
                proof {
                    lemma_badly_laid_out_is_not_encoded(bytes@, end as int);
                }
                None
            },
        }
    }
}

/// A service whose fields were read from bytes by the layout is canonical
/// and encoded at the start of those bytes.
proof fn lemma_decoded_is_encoded(service: ServiceView, bytes: Seq<u8>, end: int)
    requires
        is_path_end(bytes, end),
        service.wf(),
        service.svc_type.may_have_path() ==> service.path != Some(Seq::<char>::empty()),
        be16(service.id) == seq![bytes[0], bytes[1]],
        be16(service.svc_type.spec_code()) == seq![bytes[2], bytes[3]],
        service.mac_bytes() == bytes.subrange(4, 10),
        service.ip_version() == bytes[10],
        service.ip_bytes() == bytes.subrange(11, 27),
        be16(service.port()) == seq![bytes[27], bytes[28]],
        service.path_bytes() == bytes.subrange(SERVICE_HEADER_SIZE as int, end),
    ensures
        service.canonical(),
        service.is_encoded_at_start_of(bytes),
        service.wire_len() == end + 1,
{
    lemma_wire_len(service);
    lemma_header_layout(service);
    assert(service.header_wire() =~= bytes.subrange(0, SERVICE_HEADER_SIZE as int));
    assert(service.wire() =~= bytes.subrange(0, end + 1));
}

} // verus!
