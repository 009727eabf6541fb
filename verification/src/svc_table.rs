//! Services and the service table, with their encoding for Control Protocol
//! frames.
//!
//! A service is encoded as a fixed header of 29 bytes and its path, closed by
//! a NUL byte. All integers are big-endian:
//!
//! ```text
//! offset  size  field
//!  0       2    service id
//!  2       2    service type code
//!  4       6    MAC address (zero if absent)
//! 10       1    IP version: 4 or 6 (0 if there is no address)
//! 11      16    IP address: IPv6 as it is, IPv4 in the first four bytes
//! 27       2    port (0 if there is no address)
//! 29       N    path (UTF-8)
//! 29+N     1    0x00
//! ```

use crate::addr::{IpAddress, MacAddr, SocketAddress};
use crate::buffer::{buffer_bytes, buffer_extend, buffer_len};
use bytes::BytesMut;
use vstd::prelude::*;
use vstd::utf8::encode_utf8;

verus! {

pub const SVC_TYPE_CONTROL_PROTOCOL: u16 = 0x0000;

pub const SVC_TYPE_RTSP: u16 = 0x0001;

pub const SVC_TYPE_LOCKED_RTSP: u16 = 0x0002;

pub const SVC_TYPE_UNKNOWN_RTSP: u16 = 0x0003;

pub const SVC_TYPE_UNSUPPORTED_RTSP: u16 = 0x0004;

pub const SVC_TYPE_HTTP: u16 = 0x0005;

pub const SVC_TYPE_MJPEG: u16 = 0x0006;

pub const SVC_TYPE_LOCKED_MJPEG: u16 = 0x0007;

pub const SVC_TYPE_TCP: u16 = 0xffff;

/// The size of the fixed part of an encoded service.
pub const SERVICE_HEADER_SIZE: usize = 29;

/// Service type.
#[derive(Copy, Clone, Eq, PartialEq, Hash, Debug, Structural)]
pub enum ServiceType {
    /// Control Protocol service.
    ControlProtocol,
    /// Remote RTSP service.
    RTSP,
    /// Remote RTSP service requiring authentication.
    LockedRTSP,
    /// Remote RTSP service without any known path.
    UnknownRTSP,
    /// Remote RTSP service without any supported stream.
    UnsupportedRTSP,
    /// Remote HTTP service.
    HTTP,
    /// Remote MJPEG service.
    MJPEG,
    /// Remote MJPEG service requiring authentication.
    LockedMJPEG,
    /// General purpose TCP service.
    TCP,
}

impl ServiceType {
    /// The code of the service type.
    pub open spec fn spec_code(self) -> u16 {
        match self {
            ServiceType::ControlProtocol => SVC_TYPE_CONTROL_PROTOCOL,
            ServiceType::RTSP => SVC_TYPE_RTSP,
            ServiceType::LockedRTSP => SVC_TYPE_LOCKED_RTSP,
            ServiceType::UnknownRTSP => SVC_TYPE_UNKNOWN_RTSP,
            ServiceType::UnsupportedRTSP => SVC_TYPE_UNSUPPORTED_RTSP,
            ServiceType::HTTP => SVC_TYPE_HTTP,
            ServiceType::MJPEG => SVC_TYPE_MJPEG,
            ServiceType::LockedMJPEG => SVC_TYPE_LOCKED_MJPEG,
            ServiceType::TCP => SVC_TYPE_TCP,
        }
    }

    /// The service type with the given code, if there is one.
    pub open spec fn spec_from_code(code: u16) -> Option<ServiceType> {
        if code == SVC_TYPE_CONTROL_PROTOCOL {
            Some(ServiceType::ControlProtocol)
        } else if code == SVC_TYPE_RTSP {
            Some(ServiceType::RTSP)
        } else if code == SVC_TYPE_LOCKED_RTSP {
            Some(ServiceType::LockedRTSP)
        } else if code == SVC_TYPE_UNKNOWN_RTSP {
            Some(ServiceType::UnknownRTSP)
        } else if code == SVC_TYPE_UNSUPPORTED_RTSP {
            Some(ServiceType::UnsupportedRTSP)
        } else if code == SVC_TYPE_HTTP {
            Some(ServiceType::HTTP)
        } else if code == SVC_TYPE_MJPEG {
            Some(ServiceType::MJPEG)
        } else if code == SVC_TYPE_LOCKED_MJPEG {
            Some(ServiceType::LockedMJPEG)
        } else if code == SVC_TYPE_TCP {
            Some(ServiceType::TCP)
        } else {
            None
        }
    }

    /// Whether services of this type always carry a path.
    pub open spec fn has_path(self) -> bool {
        self is RTSP || self is UnsupportedRTSP || self is MJPEG
    }

    /// Whether services of this type may carry a path or none.
    pub open spec fn may_have_path(self) -> bool {
        self is LockedRTSP || self is LockedMJPEG
    }

    /// Get code of the service type.
    pub fn code(&self) -> (code: u16)
        ensures
            code == self.spec_code(),
    {
        match self {
            ServiceType::ControlProtocol => SVC_TYPE_CONTROL_PROTOCOL,
            ServiceType::RTSP => SVC_TYPE_RTSP,
            ServiceType::LockedRTSP => SVC_TYPE_LOCKED_RTSP,
            ServiceType::UnknownRTSP => SVC_TYPE_UNKNOWN_RTSP,
            ServiceType::UnsupportedRTSP => SVC_TYPE_UNSUPPORTED_RTSP,
            ServiceType::HTTP => SVC_TYPE_HTTP,
            ServiceType::MJPEG => SVC_TYPE_MJPEG,
            ServiceType::LockedMJPEG => SVC_TYPE_LOCKED_MJPEG,
            ServiceType::TCP => SVC_TYPE_TCP,
        }
    }

    /// The service type with the given code, if there is one.
    pub fn from_code(code: u16) -> (svc_type: Option<ServiceType>)
        ensures
            svc_type == ServiceType::spec_from_code(code),
    {
        if code == SVC_TYPE_CONTROL_PROTOCOL {
            Some(ServiceType::ControlProtocol)
        } else if code == SVC_TYPE_RTSP {
            Some(ServiceType::RTSP)
        } else if code == SVC_TYPE_LOCKED_RTSP {
            Some(ServiceType::LockedRTSP)
        } else if code == SVC_TYPE_UNKNOWN_RTSP {
            Some(ServiceType::UnknownRTSP)
        } else if code == SVC_TYPE_UNSUPPORTED_RTSP {
            Some(ServiceType::UnsupportedRTSP)
        } else if code == SVC_TYPE_HTTP {
            Some(ServiceType::HTTP)
        } else if code == SVC_TYPE_MJPEG {
            Some(ServiceType::MJPEG)
        } else if code == SVC_TYPE_LOCKED_MJPEG {
            Some(ServiceType::LockedMJPEG)
        } else if code == SVC_TYPE_TCP {
            Some(ServiceType::TCP)
        } else {
            None
        }
    }
}

/// Every service type is found again from its code.
pub proof fn lemma_type_code_round_trip(svc_type: ServiceType)
    ensures
        ServiceType::spec_from_code(svc_type.spec_code()) == Some(svc_type),
{
}

/// The two bytes of `value`, the high one first.
pub open spec fn be16(value: u16) -> Seq<u8> {
    seq![(value / 256) as u8, (value % 256) as u8]
}

/// `count` zero bytes.
pub open spec fn zeros(count: nat) -> Seq<u8> {
    Seq::new(count, |i: int| 0u8)
}

/// The mathematical value of a service.
pub struct ServiceView {
    pub svc_type: ServiceType,
    pub id: u16,
    pub mac: Option<MacAddr>,
    pub address: Option<SocketAddress>,
    pub path: Option<Seq<char>>,
}

impl ServiceView {
    /// The Control Protocol service.
    pub open spec fn control() -> ServiceView {
        ServiceView {
            svc_type: ServiceType::ControlProtocol,
            id: 0,
            mac: None,
            address: None,
            path: None,
        }
    }

    /// The service with another id.
    pub open spec fn with_id(self, id: u16) -> ServiceView {
        ServiceView { id, ..self }
    }

    /// The Control Protocol service has id 0 and neither MAC, address nor
    /// path. Every other service has a MAC and an address, and a path where
    /// its type asks for one and none where its type has none.
    pub open spec fn wf(self) -> bool {
        if self.svc_type is ControlProtocol {
            self == ServiceView::control()
        } else {
            &&& self.mac is Some
            &&& self.address is Some
            &&& (self.svc_type.has_path() ==> self.path is Some)
            &&& (self.path is Some ==> self.svc_type.has_path() || self.svc_type.may_have_path())
        }
    }

    /// The six bytes of the MAC field.
    pub open spec fn mac_bytes(self) -> Seq<u8> {
        match self.mac {
            Some(mac) => mac.octets@,
            None => zeros(6),
        }
    }

    /// The byte of the IP version field.
    pub open spec fn ip_version(self) -> u8 {
        match self.address {
            Some(address) => address.ip.spec_version(),
            None => 0,
        }
    }

    /// The sixteen bytes of the IP address field.
    pub open spec fn ip_bytes(self) -> Seq<u8> {
        match self.address {
            Some(address) => address.ip.spec_bytes(),
            None => zeros(16),
        }
    }

    /// The value of the port field.
    pub open spec fn port(self) -> u16 {
        match self.address {
            Some(address) => address.port,
            None => 0,
        }
    }

    /// The bytes of the path field, without the closing NUL.
    pub open spec fn path_bytes(self) -> Seq<u8> {
        match self.path {
            Some(path) => encode_utf8(path),
            None => Seq::empty(),
        }
    }

    /// The 29 bytes of the encoded header.
    pub open spec fn header_wire(self) -> Seq<u8> {
        be16(self.id) + be16(self.svc_type.spec_code()) + self.mac_bytes() + seq![
            self.ip_version(),
        ] + self.ip_bytes() + be16(self.port())
    }

    /// The encoded service: the header, the path and a NUL byte.
    pub open spec fn wire(self) -> Seq<u8> {
        self.header_wire() + self.path_bytes() + seq![0u8]
    }

    /// The length of the encoded service.
    pub open spec fn wire_len(self) -> nat {
        SERVICE_HEADER_SIZE as nat + self.path_bytes().len() + 1
    }
}

/// The encoded service is as long as `wire_len` says.
pub proof fn lemma_wire_len(service: ServiceView)
    ensures
        service.header_wire().len() == SERVICE_HEADER_SIZE,
        service.wire().len() == service.wire_len(),
{
    match service.address {
        Some(address) => {
            match address.ip {
                IpAddress::V4(octets) => {
                    assert(octets@.len() == 4);
                },
                IpAddress::V6(octets) => {
                    assert(octets@.len() == 16);
                },
            }
        },
        None => {},
    }
    match service.mac {
        Some(mac) => {
            assert(mac.octets@.len() == 6);
        },
        None => {},
    }
}

/// Service Table item header.
#[derive(Clone, Copy, Debug)]
pub struct ServiceHeader {
    pub svc_id: u16,
    pub svc_type: u16,
    pub mac_addr: [u8; 6],
    pub ip_version: u8,
    pub ip_addr: [u8; 16],
    pub port: u16,
}

impl ServiceHeader {
    /// The 29 bytes that the header is encoded as.
    pub open spec fn wire(self) -> Seq<u8> {
        be16(self.svc_id) + be16(self.svc_type) + self.mac_addr@ + seq![self.ip_version]
            + self.ip_addr@ + be16(self.port)
    }

    /// The header of a given service: a null MAC address where the service
    /// has none, and IP version 0, a null IP address and port 0 where it has
    /// no socket address.
    pub fn from(service: &Service) -> (header: ServiceHeader)
        ensures
            header.svc_id == service@.id,
            header.svc_type == service@.svc_type.spec_code(),
            header.mac_addr@ == service@.mac_bytes(),
            header.ip_version == service@.ip_version(),
            header.ip_addr@ == service@.ip_bytes(),
            header.port == service@.port(),
            header.wire() == service@.header_wire(),
    {
        let service_type = service.service_type();
        let mac_addr = match service.mac() {
            Some(mac) => mac.octets(),
            None => {
                let null = [0u8;6];
                assert(null@ =~= zeros(6));
                null
            },
        };
        let (ip_version, ip_addr, port) = match service.address() {
            Some(address) => (address.ip().version(), address.ip().bytes(), address.port()),
            None => {
                let null = [0u8;16];
                assert(null@ =~= zeros(16));
                (0u8, null, 0u16)
            },
        };
        ServiceHeader {
            svc_id: service.id(),
            svc_type: service_type.code(),
            mac_addr,
            ip_version,
            ip_addr,
            port,
        }
    }

    /// Appends the encoded header to `buf`.
    pub(crate) fn encode(&self, buf: &mut BytesMut)
        requires
            buffer_bytes(*old(buf)).len() + SERVICE_HEADER_SIZE <= isize::MAX,
        ensures
            buffer_bytes(*final(buf)) == buffer_bytes(*old(buf)) + self.wire(),
            self.wire().len() == SERVICE_HEADER_SIZE,
    {
        let mut bytes: Vec<u8> = Vec::with_capacity(SERVICE_HEADER_SIZE);
        bytes.push((self.svc_id / 256) as u8);
        bytes.push((self.svc_id % 256) as u8);
        bytes.push((self.svc_type / 256) as u8);
        bytes.push((self.svc_type % 256) as u8);
        let mut i: usize = 0;
        while i < 6
            invariant
                i <= 6,
                bytes@ == be16(self.svc_id) + be16(self.svc_type) + self.mac_addr@.subrange(
                    0,
                    i as int,
                ),
            decreases 6 - i,
        {
            bytes.push(self.mac_addr[i]);
            i += 1;
        }
        assert(self.mac_addr@.subrange(0, 6) =~= self.mac_addr@);
        bytes.push(self.ip_version);
        let ghost prefix = bytes@;
        let mut i: usize = 0;
        while i < 16
            invariant
                i <= 16,
                prefix == be16(self.svc_id) + be16(self.svc_type) + self.mac_addr@ + seq![
                    self.ip_version,
                ],
                bytes@ == prefix + self.ip_addr@.subrange(0, i as int),
            decreases 16 - i,
        {
            bytes.push(self.ip_addr[i]);
            i += 1;
        }
        assert(self.ip_addr@.subrange(0, 16) =~= self.ip_addr@);
        bytes.push((self.port / 256) as u8);
        bytes.push((self.port % 256) as u8);
        assert(bytes@ =~= self.wire());
        buffer_extend(buf, bytes.as_slice());
    }
}

/// Arrow service.
#[derive(Eq, PartialEq, Hash, Debug)]
pub struct Service {
    svc_type: ServiceType,
    id: u16,
    mac: Option<MacAddr>,
    address: Option<SocketAddress>,
    path: Option<String>,
}

impl View for Service {
    type V = ServiceView;

    closed spec fn view(&self) -> ServiceView {
        ServiceView {
            svc_type: self.svc_type,
            id: self.id,
            mac: self.mac,
            address: self.address,
            path: match self.path {
                Some(path) => Some(path@),
                None => None,
            },
        }
    }
}

impl Clone for Service {
    fn clone(&self) -> (copy: Service)
        ensures
            copy == *self,
    {
        Service {
            svc_type: self.svc_type,
            id: self.id,
            mac: self.mac,
            address: self.address,
            path: match &self.path {
                Some(path) => Some(path.clone()),
                None => None,
            },
        }
    }
}

impl Service {
    /// The service with the given fields.
    pub(crate) fn from_parts(
        svc_type: ServiceType,
        id: u16,
        mac: Option<MacAddr>,
        address: Option<SocketAddress>,
        path: Option<String>,
    ) -> (service: Service)
        ensures
            service@ == (ServiceView {
                svc_type,
                id,
                mac,
                address,
                path: match path {
                    Some(path) => Some(path@),
                    None => None,
                },
            }),
    {
        Service { svc_type, id, mac, address, path }
    }

    /// Convert a given service into a new one with another id.
    pub fn new(id: u16, svc: Service) -> (service: Service)
        ensures
            service@ == svc@.with_id(id),
    {
        Service { svc_type: svc.svc_type, id, mac: svc.mac, address: svc.address, path: svc.path }
    }

    /// Create a new Control Protocol service.
    pub fn control() -> (service: Service)
        ensures
            service@ == ServiceView::control(),
            service@.wf(),
    {
        Service { svc_type: ServiceType::ControlProtocol, id: 0, mac: None, address: None, path: None }
    }

    /// Create a new RTSP service.
    pub fn rtsp(id: u16, mac: MacAddr, address: SocketAddress, path: String) -> (service: Service)
        ensures
            service@ == (ServiceView {
                svc_type: ServiceType::RTSP,
                id,
                mac: Some(mac),
                address: Some(address),
                path: Some(path@),
            }),
            service@.wf(),
    {
        Service {
            svc_type: ServiceType::RTSP,
            id,
            mac: Some(mac),
            address: Some(address),
            path: Some(path),
        }
    }

    /// Create a new Locked RTSP service.
    pub fn locked_rtsp(id: u16, mac: MacAddr, address: SocketAddress, path: Option<String>) -> (service:
        Service)
        ensures
            service@ == (ServiceView {
                svc_type: ServiceType::LockedRTSP,
                id,
                mac: Some(mac),
                address: Some(address),
                path: match path {
                    Some(path) => Some(path@),
                    None => None,
                },
            }),
            service@.wf(),
    {
        Service {
            svc_type: ServiceType::LockedRTSP,
            id,
            mac: Some(mac),
            address: Some(address),
            path,
        }
    }

    /// Create a new Unknown RTSP service.
    pub fn unknown_rtsp(id: u16, mac: MacAddr, address: SocketAddress) -> (service: Service)
        ensures
            service@ == (ServiceView {
                svc_type: ServiceType::UnknownRTSP,
                id,
                mac: Some(mac),
                address: Some(address),
                path: None,
            }),
            service@.wf(),
    {
        Service {
            svc_type: ServiceType::UnknownRTSP,
            id,
            mac: Some(mac),
            address: Some(address),
            path: None,
        }
    }

    /// Create a new Unsupported RTSP service. Such a service is announced
    /// under the type `ServiceType::RTSP`.
    pub fn unsupported_rtsp(id: u16, mac: MacAddr, address: SocketAddress, path: String) -> (service:
        Service)
        ensures
            service@ == (ServiceView {
                svc_type: ServiceType::RTSP,
                id,
                mac: Some(mac),
                address: Some(address),
                path: Some(path@),
            }),
            service@.wf(),
    {
        Service {
            svc_type: ServiceType::RTSP,
            id,
            mac: Some(mac),
            address: Some(address),
            path: Some(path),
        }
    }

    /// Create a new HTTP service.
    pub fn http(id: u16, mac: MacAddr, address: SocketAddress) -> (service: Service)
        ensures
            service@ == (ServiceView {
                svc_type: ServiceType::HTTP,
                id,
                mac: Some(mac),
                address: Some(address),
                path: None,
            }),
            service@.wf(),
    {
        Service {
            svc_type: ServiceType::HTTP,
            id,
            mac: Some(mac),
            address: Some(address),
            path: None,
        }
    }

    /// Create a new MJPEG service.
    pub fn mjpeg(id: u16, mac: MacAddr, address: SocketAddress, path: String) -> (service: Service)
        ensures
            service@ == (ServiceView {
                svc_type: ServiceType::MJPEG,
                id,
                mac: Some(mac),
                address: Some(address),
                path: Some(path@),
            }),
            service@.wf(),
    {
        Service {
            svc_type: ServiceType::MJPEG,
            id,
            mac: Some(mac),
            address: Some(address),
            path: Some(path),
        }
    }

    /// Create a new Locked MJPEG service.
    pub fn locked_mjpeg(id: u16, mac: MacAddr, address: SocketAddress, path: Option<String>) -> (service:
        Service)
        ensures
            service@ == (ServiceView {
                svc_type: ServiceType::LockedMJPEG,
                id,
                mac: Some(mac),
                address: Some(address),
                path: match path {
                    Some(path) => Some(path@),
                    None => None,
                },
            }),
            service@.wf(),
    {
        Service {
            svc_type: ServiceType::LockedMJPEG,
            id,
            mac: Some(mac),
            address: Some(address),
            path,
        }
    }

    /// Create a new TCP service.
    pub fn tcp(id: u16, mac: MacAddr, address: SocketAddress) -> (service: Service)
        ensures
            service@ == (ServiceView {
                svc_type: ServiceType::TCP,
                id,
                mac: Some(mac),
                address: Some(address),
                path: None,
            }),
            service@.wf(),
    {
        Service {
            svc_type: ServiceType::TCP,
            id,
            mac: Some(mac),
            address: Some(address),
            path: None,
        }
    }

    /// Check if this is the Control Protocol service.
    pub fn is_control(&self) -> (control: bool)
        ensures
            control == (self@.svc_type is ControlProtocol),
    {
        self.svc_type == ServiceType::ControlProtocol
    }

    /// Get service type.
    pub fn service_type(&self) -> (svc_type: ServiceType)
        ensures
            svc_type == self@.svc_type,
    {
        self.svc_type
    }

    /// Get service ID.
    pub fn id(&self) -> (id: u16)
        ensures
            id == self@.id,
    {
        self.id
    }

    /// Get service MAC address.
    pub fn mac(&self) -> (mac: Option<&MacAddr>)
        ensures
            match mac {
                Some(mac) => self@.mac == Some(*mac),
                None => self@.mac is None,
            },
    {
        self.mac.as_ref()
    }

    /// Get service IP address and port.
    pub fn address(&self) -> (address: Option<&SocketAddress>)
        ensures
            match address {
                Some(address) => self@.address == Some(*address),
                None => self@.address is None,
            },
    {
        self.address.as_ref()
    }

    /// Get service path.
    pub fn path(&self) -> (path: Option<&str>)
        ensures
            match path {
                Some(path) => self@.path == Some(path@),
                None => self@.path is None,
            },
    {
        match &self.path {
            Some(path) => Some(path.as_str()),
            None => None,
        }
    }

    /// Appends the encoded service to `buf`: the header, the path and a NUL
    /// byte.
    pub fn encode(&self, buf: &mut BytesMut)
        requires
            buffer_bytes(*old(buf)).len() + self@.wire_len() <= isize::MAX,
        ensures
            buffer_bytes(*final(buf)) == buffer_bytes(*old(buf)) + self@.wire(),
    {
        ServiceHeader::from(self).encode(buf);
        let path = match self.path() {
            Some(path) => path,
            None => "",
        };
        proof {
            reveal_strlit("");
            assert(encode_utf8(Seq::<char>::empty()) =~= Seq::<u8>::empty()) by {
                reveal_with_fuel(encode_utf8, 1);
            }
        }
        buffer_extend(buf, path.as_bytes());
        let nul: [u8; 1] = [0u8];
        assert(nul@ =~= seq![0u8]);
        buffer_extend(buf, nul.as_slice());
        assert(buffer_bytes(*buf) =~= buffer_bytes(*old(buf)) + self@.wire());
    }

    /// The length of the encoded service: 29 bytes of header, the path and
    /// one NUL byte.
    pub fn len(&self) -> (len: usize)
        requires
            self@.wire_len() <= usize::MAX,
        ensures
            len == self@.wire_len(),
            len == self@.wire().len(),
    {
        proof {
            lemma_wire_len(self@);
            reveal_strlit("");
            assert(encode_utf8(Seq::<char>::empty()) =~= Seq::<u8>::empty()) by {
                reveal_with_fuel(encode_utf8, 1);
            }
        }
        let path = match self.path() {
            Some(path) => path,
            None => "",
        };
        let plen = path.as_bytes().len() + 1;
        SERVICE_HEADER_SIZE + plen
    }

    /// The length of the encoded service, or `None` where it does not fit
    /// in `usize`.
    pub fn checked_len(&self) -> (len: Option<usize>)
        ensures
            match len {
                Some(len) => len == self@.wire_len(),
                None => self@.wire_len() > usize::MAX,
            },
    {
        proof {
            reveal_strlit("");
            assert(encode_utf8(Seq::<char>::empty()) =~= Seq::<u8>::empty()) by {
                reveal_with_fuel(encode_utf8, 1);
            }
        }
        let path = match self.path() {
            Some(path) => path,
            None => "",
        };
        path.as_bytes().len().checked_add(SERVICE_HEADER_SIZE + 1)
    }

    /// Appends the encoded service to `buf` and returns `true`, where the
    /// buffer can hold the result. Where it cannot, because the result has
    /// more than `isize::MAX` bytes, the buffer stays as it is and the
    /// method returns `false`.
    pub fn try_encode(&self, buf: &mut BytesMut) -> (done: bool)
        ensures
            done == (buffer_bytes(*old(buf)).len() + self@.wire_len() <= isize::MAX),
            done ==> buffer_bytes(*final(buf)) == buffer_bytes(*old(buf)) + self@.wire(),
            !done ==> *final(buf) == *old(buf),
    {
        let most = isize::MAX as usize;
        let held = buffer_len(buf);
        match self.checked_len() {
            Some(len) => {
                if held <= most && len <= most - held {
                    self.encode(buf);
                    true
                } else {
                    false
                }
            },
            None => false,
        }
    }
}

/// Whether `index` is the place of the first service with the given id.
pub open spec fn first_with_id(services: Seq<ServiceView>, id: u16, index: int) -> bool {
    &&& 0 <= index < services.len()
    &&& services[index].id == id
    &&& forall|earlier: int| 0 <= earlier < index ==> (#[trigger] services[earlier]).id != id
}

/// The service that a table of `services` resolves `id` to: the Control
/// Protocol service for id 0, else the first stored service with that id.
pub open spec fn resolve(services: Seq<ServiceView>, id: u16) -> Option<ServiceView> {
    if id == 0 {
        Some(ServiceView::control())
    } else if exists|index: int| first_with_id(services, id, index) {
        Some(services[choose|index: int| first_with_id(services, id, index)])
    } else {
        None
    }
}

/// The encodings of `services`, one after the other.
pub open spec fn services_wire(services: Seq<ServiceView>) -> Seq<u8>
    decreases services.len(),
{
    if services.len() == 0 {
        Seq::empty()
    } else {
        services_wire(services.drop_last()) + services.last().wire()
    }
}

/// The sum of the encoded lengths of `services`.
pub open spec fn services_wire_len(services: Seq<ServiceView>) -> nat
    decreases services.len(),
{
    if services.len() == 0 {
        0
    } else {
        services_wire_len(services.drop_last()) + services.last().wire_len()
    }
}

/// The encoded table: every stored service in order, then the Control
/// Protocol service.
pub open spec fn table_wire(services: Seq<ServiceView>) -> Seq<u8> {
    services_wire(services) + ServiceView::control().wire()
}

/// The length of the encoded table.
pub open spec fn table_wire_len(services: Seq<ServiceView>) -> nat {
    services_wire_len(services) + ServiceView::control().wire_len()
}

/// The encoded services are as long as `services_wire_len` says.
pub proof fn lemma_services_wire_len(services: Seq<ServiceView>)
    ensures
        services_wire(services).len() == services_wire_len(services),
        table_wire(services).len() == table_wire_len(services),
    decreases services.len(),
{
    lemma_wire_len(ServiceView::control());
    if services.len() > 0 {
        lemma_services_wire_len(services.drop_last());
        lemma_wire_len(services.last());
    }
}

/// The first services of a table take no more room than all of them.
pub proof fn lemma_services_wire_len_prefix(services: Seq<ServiceView>, count: int)
    requires
        0 <= count <= services.len(),
    ensures
        services_wire_len(services.take(count)) <= services_wire_len(services),
    decreases services.len(),
{
    if count < services.len() {
        lemma_services_wire_len_prefix(services.drop_last(), count);
        assert(services.drop_last().take(count) =~= services.take(count));
    } else {
        assert(services.take(count) =~= services);
    }
}

/// Common trait for service table implementations.
pub trait ServiceTable {
    /// The service that the table resolves `id` to.
    spec fn lookup(&self, id: u16) -> Option<ServiceView>;

    /// Get service with a given ID. The Control Protocol service is the
    /// answer for id 0, whatever the table holds.
    fn get(&self, id: u16) -> (service: Option<Service>)
        ensures
            match service {
                Some(service) => self.lookup(id) == Some(service@),
                None => self.lookup(id) is None,
            },
            id == 0 ==> self.lookup(id) == Some(ServiceView::control()),
    ;
}

/// Simple service table implementation.
#[derive(Debug)]
pub struct SimpleServiceTable {
    services: Vec<Service>,
}

impl View for SimpleServiceTable {
    type V = Seq<ServiceView>;

    closed spec fn view(&self) -> Seq<ServiceView> {
        Seq::new(self.services@.len(), |i: int| self.services@[i]@)
    }
}

impl SimpleServiceTable {
    /// The table that holds `services` in the given order.
    pub fn from(services: Vec<Service>) -> (table: SimpleServiceTable)
        ensures
            table@ == services@.map_values(|service: Service| service@),
    {
        let table = SimpleServiceTable { services };
        assert(table@ =~= services@.map_values(|service: Service| service@));
        table
    }

    /// Appends the encoded table to `buf`: every stored service in order,
    /// then the Control Protocol service.
    pub fn encode(&self, buf: &mut BytesMut)
        requires
            buffer_bytes(*old(buf)).len() + table_wire_len(self@) <= isize::MAX,
        ensures
            buffer_bytes(*final(buf)) == buffer_bytes(*old(buf)) + table_wire(self@),
    {
        let mut i: usize = 0;
        while i < self.services.len()
            invariant
                i <= self.services@.len(),
                self@.len() == self.services@.len(),
                buffer_bytes(*old(buf)).len() + table_wire_len(self@) <= isize::MAX,
                buffer_bytes(*buf) == buffer_bytes(*old(buf)) + services_wire(self@.take(i as int)),
            decreases self.services@.len() - i,
        {
            proof {
                lemma_services_wire_len(self@.take(i as int));
                lemma_services_wire_len_prefix(self@, i as int + 1);
                assert(self@.take(i as int + 1).drop_last() =~= self@.take(i as int));
            }
            self.services[i].encode(buf);
            i += 1;
        }
        proof {
            assert(self@.take(i as int) =~= self@);
            lemma_services_wire_len(self@);
        }
        Service::control().encode(buf);
    }

    /// The length of the encoded table: the sum of the stored services'
    /// lengths and the length of the Control Protocol service.
    pub fn len(&self) -> (len: usize)
        requires
            table_wire_len(self@) <= usize::MAX,
        ensures
            len == table_wire_len(self@),
            len == table_wire(self@).len(),
    {
        let mut len: usize = 0;
        let mut i: usize = 0;
        while i < self.services.len()
            invariant
                i <= self.services@.len(),
                self@.len() == self.services@.len(),
                table_wire_len(self@) <= usize::MAX,
                len == services_wire_len(self@.take(i as int)),
            decreases self.services@.len() - i,
        {
            proof {
                lemma_services_wire_len_prefix(self@, i as int + 1);
                assert(self@.take(i as int + 1).drop_last() =~= self@.take(i as int));
            }
            len += self.services[i].len();
            i += 1;
        }
        proof {
            assert(self@.take(i as int) =~= self@);
            lemma_services_wire_len(self@);
        }
        let control = Service::control();
        len + control.len()
    }

    /// The length of the encoded table, or `None` where it does not fit in
    /// `usize`.
    pub fn checked_len(&self) -> (len: Option<usize>)
        ensures
            match len {
                Some(len) => len == table_wire_len(self@),
                None => table_wire_len(self@) > usize::MAX,
            },
    {
        let mut len: usize = SERVICE_HEADER_SIZE + 1;
        let mut i: usize = 0;
        proof {
            assert(self@.take(0) =~= Seq::<ServiceView>::empty());
            assert(encode_utf8(Seq::<char>::empty()) =~= Seq::<u8>::empty()) by {
                reveal_with_fuel(encode_utf8, 1);
            }
        }
        while i < self.services.len()
            invariant
                i <= self.services@.len(),
                self@.len() == self.services@.len(),
                len == table_wire_len(self@.take(i as int)),
            decreases self.services@.len() - i,
        {
            proof {
                lemma_services_wire_len_prefix(self@, i as int + 1);
                assert(self@.take(i as int + 1).drop_last() =~= self@.take(i as int));
            }
            let more = match self.services[i].checked_len() {
                Some(more) => len.checked_add(more),
                None => None,
            };
            match more {
                Some(more) => {
                    len = more;
                },
                None => {
                    return None;
                },
            }
            i += 1;
        }
        proof {
            assert(self@.take(i as int) =~= self@);
        }
        Some(len)
    }

    /// Appends the encoded table to `buf` and returns `true`, where the
    /// buffer can hold the result. Where it cannot, because the result has
    /// more than `isize::MAX` bytes, the buffer stays as it is and the
    /// method returns `false`.
    pub fn try_encode(&self, buf: &mut BytesMut) -> (done: bool)
        ensures
            done == (buffer_bytes(*old(buf)).len() + table_wire_len(self@) <= isize::MAX),
            done ==> buffer_bytes(*final(buf)) == buffer_bytes(*old(buf)) + table_wire(self@),
            !done ==> *final(buf) == *old(buf),
    {
        let most = isize::MAX as usize;
        let held = buffer_len(buf);
        match self.checked_len() {
            Some(len) => {
                if held <= most && len <= most - held {
                    self.encode(buf);
                    true
                } else {
                    false
                }
            },
            None => false,
        }
    }
}

impl ServiceTable for SimpleServiceTable {
    open spec fn lookup(&self, id: u16) -> Option<ServiceView> {
        resolve(self@, id)
    }

    fn get(&self, id: u16) -> (service: Option<Service>)
        ensures
            match service {
                Some(service) => resolve(self@, id) == Some(service@),
                None => resolve(self@, id) is None,
            },
    {
        if id == 0 {
            return Some(Service::control());
        }
        let mut i: usize = 0;
        while i < self.services.len()
            invariant
                id != 0,
                i <= self.services@.len(),
                self@.len() == self.services@.len(),
                forall|earlier: int| 0 <= earlier < i ==> (#[trigger] self@[earlier]).id != id,
            decreases self.services@.len() - i,
        {
            if id == self.services[i].id() {
                proof {
                    assert(first_with_id(self@, id, i as int));
                    let first = choose|index: int| first_with_id(self@, id, index);
                    assert(first == i) by {
                        if first < i {
                            assert(self@[first].id != id);
                        } else if i < first {
                            assert(self@[i as int].id != id);
                        }
                    }
                }
                let found = self.services[i].clone();
                assert(found@ == self@[i as int]);
                return Some(found);
            }
            i += 1;
        }
        None
    }
}

} // verus!
