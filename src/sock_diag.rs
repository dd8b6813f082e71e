//! Socket-diagnostics messages: inet requests built bit by bit and encoded,
//! inet responses decoded with their socket identity and attributes, and a
//! dispatcher on the message type and address family.
use vstd::prelude::*;
use crate::bytes::{
    be16, be16_bytes, copy_range, le32, le32_bytes, le64, le64_bytes, push_be16, push_le32,
    push_le64, push_slice, push_zeros, read_be16, read_le32, read_le64, zeros,
};
use crate::bitflags::{is_extension, is_tcp_state, Extension, TcpStates};
use crate::error::DecodeError;
use crate::nla::{nla_models, parse_nlas, parse_nlas_spec, DefaultNla};

verus! {

/// The sock-diag message type of requests and responses by address family.
pub const SOCK_DIAG_BY_FAMILY: u16 = 20;

pub const AF_INET: u8 = 2;
pub const AF_INET6: u8 = 10;

/// The cookie value that says "no cookie".
pub const INET_DIAG_NOCOOKIE: u64 = 0xffff_ffff_ffff_ffff;

/// Size of `inet_diag_sockid`: ports, two 16-byte addresses, interface, cookie.
pub const SOCK_ID_LEN: usize = 48;
/// Size of the fixed part of `inet_diag_msg`; attributes follow it.
pub const INET_DIAG_MSG_LEN: usize = 72;
/// Size of `inet_diag_req_v2`.
pub const INET_DIAG_REQ_V2_LEN: usize = 56;

/// One end of a socket: the address bytes (four for IPv4, sixteen for IPv6,
/// in wire order) and the port.
#[derive(Debug, Clone, PartialEq, Eq)]
pub struct SocketAddress {
    pub ip: Vec<u8>,
    pub port: u16,
}

pub open spec fn addr_wf(a: Option<SocketAddress>) -> bool {
    match a {
        Some(a) => a.ip@.len() == 4 || a.ip@.len() == 16,
        None => true,
    }
}

/// The address bytes and port of an endpoint, or `None`.
pub open spec fn addr_model(a: Option<SocketAddress>) -> Option<(Seq<u8>, u16)> {
    match a {
        Some(a) => Some((a.ip@, a.port)),
        None => None,
    }
}

/// The identity of a socket.
#[derive(Debug, Clone, PartialEq, Eq)]
pub struct SockId {
    pub src: Option<SocketAddress>,
    pub dst: Option<SocketAddress>,
    pub interface: u32,
    pub cookie: Option<u64>,
}

impl SockId {
    pub open spec fn wf(&self) -> bool {
        addr_wf(self.src) && addr_wf(self.dst)
    }

    /// No endpoints, interface 0, no cookie.
    pub fn empty() -> (r: SockId)
        ensures
            r.src is None,
            r.dst is None,
            r.interface == 0,
            r.cookie is None,
    {
        SockId { src: None, dst: None, interface: 0, cookie: None }
    }
}

pub open spec fn port_of(a: Option<SocketAddress>) -> u16 {
    match a {
        Some(a) => a.port,
        None => 0,
    }
}

/// The sixteen address bytes of an endpoint on the wire, zero-filled.
pub open spec fn addr_field(a: Option<SocketAddress>) -> Seq<u8> {
    match a {
        Some(a) => a.ip@ + zeros((16 - a.ip@.len()) as nat),
        None => zeros(16),
    }
}

/// The wire form of a socket identity in a request.
pub open spec fn sock_id_bytes(id: SockId) -> Seq<u8> {
    be16_bytes(port_of(id.src)) + be16_bytes(port_of(id.dst)) + addr_field(id.src) + addr_field(
        id.dst,
    ) + le32_bytes(id.interface) + match id.cookie {
        Some(c) => le64_bytes(c),
        None => zeros(8),
    }
}

/// A request for the inet sockets of one family and protocol.
#[derive(Debug, Clone, PartialEq, Eq)]
pub struct InetDiagRequest {
    pub family: u8,
    pub protocol: u8,
    pub extensions: Extension,
    pub states: TcpStates,
    pub id: SockId,
}

/// The wire form of a request.
pub open spec fn request_bytes(r: InetDiagRequest) -> Seq<u8> {
    seq![r.family, r.protocol, r.extensions.bits, 0u8] + le32_bytes(r.states.bits) + sock_id_bytes(r.id)
}

/// A request for IPv4 sockets of `protocol`.
pub fn inet(protocol: u8) -> (r: InetDiagRequest)
    ensures
        r.family == AF_INET,
        r.protocol == protocol,
        r.extensions.bits == 0,
        r.states.bits == crate::bitflags::TCP_STATES_ALL,
        r.id.src is None && r.id.dst is None && r.id.interface == 0 && r.id.cookie is None,
{
    InetDiagRequest::new(AF_INET, protocol)
}

/// A request for IPv6 sockets of `protocol`.
pub fn inet6(protocol: u8) -> (r: InetDiagRequest)
    ensures
        r.family == AF_INET6,
        r.protocol == protocol,
        r.extensions.bits == 0,
        r.states.bits == crate::bitflags::TCP_STATES_ALL,
        r.id.src is None && r.id.dst is None && r.id.interface == 0 && r.id.cookie is None,
{
    InetDiagRequest::new(AF_INET6, protocol)
}

impl InetDiagRequest {
    /// A request for every state, no extension, and any socket.
    pub fn new(family: u8, protocol: u8) -> (r: InetDiagRequest)
        ensures
            r.family == family,
            r.protocol == protocol,
            r.extensions.bits == 0,
            r.states.bits == crate::bitflags::TCP_STATES_ALL,
            r.id.src is None && r.id.dst is None && r.id.interface == 0 && r.id.cookie is None,
    {
        InetDiagRequest {
            family,
            protocol,
            extensions: Extension::empty(),
            states: TcpStates::all(),
            id: SockId::empty(),
        }
    }

    /// The same request with `state` selected.
    pub fn with_state(self, state: u8) -> (r: InetDiagRequest)
        requires
            is_tcp_state(state),
        ensures
            r.states.bits == self.states.bits | (1u32 << state),
            r.family == self.family && r.protocol == self.protocol,
            r.extensions == self.extensions && r.id == self.id,
    {
        let mut r = self;
        r.states.insert(TcpStates::from_state(state));
        r
    }

    /// The same request with `state` no longer selected.
    pub fn without_state(self, state: u8) -> (r: InetDiagRequest)
        requires
            is_tcp_state(state),
        ensures
            r.states.bits == self.states.bits & !(1u32 << state),
            r.family == self.family && r.protocol == self.protocol,
            r.extensions == self.extensions && r.id == self.id,
    {
        let mut r = self;
        r.states.remove(TcpStates::from_state(state));
        r
    }

    /// The same request with extension `ext` asked for.
    pub fn with_extension(self, ext: u8) -> (r: InetDiagRequest)
        requires
            is_extension(ext),
        ensures
            r.extensions.bits == self.extensions.bits | (1u8 << (ext - 1) as u8),
            r.family == self.family && r.protocol == self.protocol,
            r.states == self.states && r.id == self.id,
    {
        let mut r = self;
        r.extensions.insert(Extension::from_extension(ext));
        r
    }

    /// Length of the encoded request: the fixed layout, no attributes.
    pub fn buffer_len(&self) -> (r: usize)
        ensures
            r == INET_DIAG_REQ_V2_LEN,
            self.id.wf() ==> r == request_bytes(*self).len(),
    {
        assert(self.id.wf() ==> addr_field(self.id.src).len() == 16 && addr_field(self.id.dst).len() == 16);
        INET_DIAG_REQ_V2_LEN
    }

    /// Appends the encoded request. Absent endpoints and cookie are written
    /// as zeros.
    pub fn emit(&self, buf: &mut Vec<u8>)
        requires
            self.id.wf(),
        ensures
            final(buf)@ == old(buf)@ + request_bytes(*self),
    {
        buf.push(self.family);
        buf.push(self.protocol);
        buf.push(self.extensions.bits);
        buf.push(0u8);
        push_le32(buf, self.states.bits);
        emit_sock_id(&self.id, buf);
        assert(final(buf)@ =~= old(buf)@ + request_bytes(*self));
    }
}

fn emit_addr(a: &Option<SocketAddress>, buf: &mut Vec<u8>)
    requires
        addr_wf(*a),
    ensures
        final(buf)@ == old(buf)@ + addr_field(*a),
{
    match a {
        Some(a) => {
            push_slice(buf, a.ip.as_slice());
            push_zeros(buf, 16 - a.ip.len());
        },
        None => push_zeros(buf, 16),
    }
}

fn port(a: &Option<SocketAddress>) -> (r: u16)
    ensures
        r == port_of(*a),
{
    match a {
        Some(a) => a.port,
        None => 0,
    }
}

fn emit_sock_id(id: &SockId, buf: &mut Vec<u8>)
    requires
        id.wf(),
    ensures
        final(buf)@ == old(buf)@ + sock_id_bytes(*id),
{
    push_be16(buf, port(&id.src));
    push_be16(buf, port(&id.dst));
    emit_addr(&id.src, buf);
    emit_addr(&id.dst, buf);
    push_le32(buf, id.interface);
    match id.cookie {
        Some(c) => push_le64(buf, c),
        None => push_zeros(buf, 8),
    }
    assert(final(buf)@ =~= old(buf)@ + sock_id_bytes(*id));
}

/// The endpoint at address offset `a` and port offset `p` of `b`, for
/// `family`: `None` where address and port are all zero, and for a family
/// other than IPv4 and IPv6.
pub open spec fn endpoint(family: u8, b: Seq<u8>, p: int, a: int) -> Option<(Seq<u8>, u16)> {
    let n: int = if family == AF_INET { 4 } else { 16 };
    if family != AF_INET && family != AF_INET6 {
        None
    } else if b.subrange(a, a + n) == zeros(n as nat) && be16(b, p) == 0 {
        None
    } else {
        Some((b.subrange(a, a + n), be16(b, p)))
    }
}

/// A decoded inet socket: state, identity, timers and queues, and the
/// attributes that followed.
#[derive(Debug, Clone, PartialEq, Eq)]
pub struct InetDiagResponse {
    pub family: u8,
    pub state: u8,
    pub timer: u8,
    pub retrans: u8,
    pub id: SockId,
    /// Time to the timer's expiry, in milliseconds; `None` where no timer runs.
    pub expires: Option<u32>,
    pub rqueue: u32,
    pub wqueue: u32,
    pub uid: u32,
    pub inode: u32,
    pub attrs: Vec<DefaultNla>,
}

/// `b` holds a whole response: the fixed part, then well-formed attributes.
pub open spec fn response_parses(b: Seq<u8>) -> bool {
    b.len() >= INET_DIAG_MSG_LEN && parse_nlas_spec(b.subrange(INET_DIAG_MSG_LEN as int, b.len() as int)) is Some
}

/// `m` is the response that `b` holds.
pub open spec fn response_of(b: Seq<u8>, m: InetDiagResponse) -> bool {
    &&& m.family == b[0] && m.state == b[1] && m.timer == b[2] && m.retrans == b[3]
    &&& addr_model(m.id.src) == endpoint(b[0], b, 4, 8)
    &&& addr_model(m.id.dst) == endpoint(b[0], b, 6, 24)
    &&& m.id.interface == le32(b, 40)
    &&& m.id.cookie == (if le64(b, 44) == INET_DIAG_NOCOOKIE { None } else { Some(le64(b, 44)) })
    &&& m.expires == (if le32(b, 52) == 0 { None } else { Some(le32(b, 52)) })
    &&& m.rqueue == le32(b, 56) && m.wqueue == le32(b, 60)
    &&& m.uid == le32(b, 64) && m.inode == le32(b, 68)
    &&& parse_nlas_spec(b.subrange(INET_DIAG_MSG_LEN as int, b.len() as int)) == Some(nla_models(m.attrs@))
}

/// `buf[start..end]` is all zero.
fn all_zero(buf: &[u8], start: usize, end: usize) -> (r: bool)
    requires
        start <= end <= buf@.len(),
    ensures
        r == (buf@.subrange(start as int, end as int) == zeros((end - start) as nat)),
{
    let mut k: usize = start;
    while k < end
        invariant
            start <= k <= end <= buf@.len(),
            buf@.subrange(start as int, k as int) == zeros((k - start) as nat),
        decreases end - k,
    {
        if buf[k] != 0 {
            assert(buf@.subrange(start as int, end as int)[k - start] != zeros((end - start) as nat)[k - start]);
            return false;
        }
        k = k + 1;
        assert(buf@.subrange(start as int, k as int) =~= zeros((k - start) as nat));
    }
    true
}

/// Decodes the endpoint whose port is at `p` and address at `a`.
fn parse_endpoint(buf: &[u8], family: u8, p: usize, a: usize) -> (r: Option<SocketAddress>)
    requires
        a + 16 <= buf@.len(),
        p + 2 <= buf@.len(),
    ensures
        addr_model(r) == endpoint(family, buf@, p as int, a as int),
{
    if family != AF_INET && family != AF_INET6 {
        return None;
    }
    let _len = buf.len();
    let n: usize = if family == AF_INET { 4 } else { 16 };
    let port = read_be16(buf, p);
    if port == 0 && all_zero(buf, a, a + n) {
        None
    } else {
        let ip = copy_range(buf, a, a + n);
        Some(SocketAddress { ip, port })
    }
}

impl InetDiagResponse {
    /// Decodes an `inet_diag_msg` and the attributes after it. A buffer
    /// shorter than the fixed part, or an attribute cut short, is refused.
    pub fn parse(buf: &[u8]) -> (r: Result<InetDiagResponse, DecodeError>)
        ensures
            r is Ok <==> response_parses(buf@),
            r matches Ok(m) ==> response_of(buf@, m),
            r matches Err(e) ==> e == DecodeError::Truncated,
    {
        if buf.len() < INET_DIAG_MSG_LEN {
            return Err(DecodeError::Truncated);
        }
        let family = buf[0];
        let src = parse_endpoint(buf, family, 4, 8);
        let dst = parse_endpoint(buf, family, 6, 24);
        let cookie = read_le64(buf, 44);
        let expires = read_le32(buf, 52);
        let attrs = match parse_nlas(buf, INET_DIAG_MSG_LEN) {
            Ok(v) => v,
            Err(e) => {
                return Err(e);
            },
        };
        Ok(InetDiagResponse {
            family,
            state: buf[1],
            timer: buf[2],
            retrans: buf[3],
            id: SockId {
                src,
                dst,
                interface: read_le32(buf, 40),
                cookie: if cookie == INET_DIAG_NOCOOKIE { None } else { Some(cookie) },
            },
            expires: if expires == 0 { None } else { Some(expires) },
            rqueue: read_le32(buf, 56),
            wqueue: read_le32(buf, 60),
            uid: read_le32(buf, 64),
            inode: read_le32(buf, 68),
            attrs,
        })
    }
}

/// A request for unix-domain sockets; no layout is defined for it yet.
#[derive(Debug, Clone, PartialEq, Eq, Structural)]
pub struct UnixDiagRequest {}

impl UnixDiagRequest {
    pub fn buffer_len(&self) -> (r: Result<usize, DecodeError>)
        ensures
            r == Err::<usize, DecodeError>(DecodeError::Unimplemented),
    {
        Err(DecodeError::Unimplemented)
    }

    pub fn emit(&self, buf: &mut Vec<u8>) -> (r: Result<(), DecodeError>)
        ensures
            r == Err::<(), DecodeError>(DecodeError::Unimplemented),
            final(buf)@ == old(buf)@,
    {
        Err(DecodeError::Unimplemented)
    }
}

/// A decoded unix-domain socket; no layout is defined for it yet.
#[derive(Debug, Clone, PartialEq, Eq, Structural)]
pub struct UnixDiagResponse {}

impl UnixDiagResponse {
    pub fn parse(buf: &[u8]) -> (r: Result<UnixDiagResponse, DecodeError>)
        ensures
            r == Err::<UnixDiagResponse, DecodeError>(DecodeError::Unimplemented),
    {
        Err(DecodeError::Unimplemented)
    }
}

/// A sock-diag message: a request or a response, for inet or unix sockets.
#[derive(Debug, Clone, PartialEq, Eq)]
pub enum SockDiagMessage {
    InetDiag(InetDiagRequest),
    InetSocks(InetDiagResponse),
    UnixDiag(UnixDiagRequest),
    UnixSocks(UnixDiagResponse),
}

/// A message of this type and payload goes to the inet response decoder.
pub open spec fn is_inet_response(message_type: u16, b: Seq<u8>) -> bool {
    message_type == SOCK_DIAG_BY_FAMILY && b.len() > 0 && (b[0] == AF_INET || b[0] == AF_INET6)
}

impl SockDiagMessage {
    /// Decodes a received message: by-family messages whose first byte is an
    /// inet family are inet responses; anything else is an unknown type.
    pub fn parse(message_type: u16, buffer: &[u8]) -> (r: Result<SockDiagMessage, DecodeError>)
        ensures
            !is_inet_response(message_type, buffer@) ==> r == Err::<SockDiagMessage, DecodeError>(
                DecodeError::UnknownMessageType(message_type),
            ),
            is_inet_response(message_type, buffer@) ==> {
                &&& r is Ok <==> response_parses(buffer@)
                &&& r matches Ok(m) ==> m matches SockDiagMessage::InetSocks(resp) && response_of(
                    buffer@,
                    resp,
                )
                &&& r matches Err(e) ==> e == DecodeError::Truncated
            },
    {
        if message_type == SOCK_DIAG_BY_FAMILY && buffer.len() > 0 && (buffer[0] == AF_INET
            || buffer[0] == AF_INET6) {
            match InetDiagResponse::parse(buffer) {
                Ok(m) => Ok(SockDiagMessage::InetSocks(m)),
                Err(e) => Err(e),
            }
        } else {
            Err(DecodeError::UnknownMessageType(message_type))
        }
    }

    pub fn message_type(&self) -> (r: u16)
        ensures
            r == SOCK_DIAG_BY_FAMILY,
    {
        SOCK_DIAG_BY_FAMILY
    }

    /// Length of the encoded message; only requests of inet sockets can be
    /// encoded.
    pub fn buffer_len(&self) -> (r: Result<usize, DecodeError>)
        ensures
            match self {
                SockDiagMessage::InetDiag(req) => r == Ok::<usize, DecodeError>(INET_DIAG_REQ_V2_LEN),
                _ => r == Err::<usize, DecodeError>(DecodeError::Unimplemented),
            },
    {
        match self {
            SockDiagMessage::InetDiag(req) => Ok(req.buffer_len()),
            SockDiagMessage::UnixDiag(req) => req.buffer_len(),
            _ => Err(DecodeError::Unimplemented),
        }
    }

    /// Appends the encoded message; only requests of inet sockets can be
    /// encoded, anything else leaves `buf` as it was.
    pub fn emit(&self, buf: &mut Vec<u8>) -> (r: Result<(), DecodeError>)
        requires
            self matches SockDiagMessage::InetDiag(req) ==> req.id.wf(),
        ensures
            match self {
                SockDiagMessage::InetDiag(req) => r is Ok && final(buf)@ == old(buf)@ + request_bytes(*req),
                _ => r == Err::<(), DecodeError>(DecodeError::Unimplemented) && final(buf)@ == old(buf)@,
            },
    {
        match self {
            SockDiagMessage::InetDiag(req) => {
                req.emit(buf);
                Ok(())
            },
            SockDiagMessage::UnixDiag(req) => req.emit(buf),
            _ => Err(DecodeError::Unimplemented),
        }
    }
}

/// Bytes of an address of `family` on the wire.
pub open spec fn addr_len(family: u8) -> int {
    if family == AF_INET { 4 } else { 16 }
}

/// In a decoded inet response an endpoint is absent exactly when its address
/// bytes are all zero and its port is zero.
pub proof fn lemma_address_sentinel(b: Seq<u8>, m: InetDiagResponse)
    requires
        b.len() >= INET_DIAG_MSG_LEN,
        b[0] == AF_INET || b[0] == AF_INET6,
        response_of(b, m),
    ensures
        m.id.src is None <==> (b.subrange(8, 8 + addr_len(b[0])) == zeros(addr_len(b[0]) as nat)
            && be16(b, 4) == 0),
        m.id.dst is None <==> (b.subrange(24, 24 + addr_len(b[0])) == zeros(addr_len(b[0]) as nat)
            && be16(b, 6) == 0),
        m.id.src matches Some(a) ==> a.ip@ == b.subrange(8, 8 + addr_len(b[0])) && a.port == be16(b, 4),
        m.id.dst matches Some(a) ==> a.ip@ == b.subrange(24, 24 + addr_len(b[0])) && a.port == be16(b, 6),
{
}

/// Selecting a state sets bit `state`, where a bit check finds it; deselecting
/// it again gives back a mask that did not hold it.
pub proof fn lemma_state_bit(req: InetDiagRequest, state: u8)
    requires
        is_tcp_state(state),
    ensures
        (req.states.bits | (1u32 << state)) & (1u32 << state) == (1u32 << state),
        1u32 << state != 0,
        req.states.bits & (1u32 << state) == 0 ==> (req.states.bits | (1u32 << state)) & !(1u32
            << state) == req.states.bits,
{
    let x = req.states.bits;
    let k = state as u32;
    assert(1u32 << state == 1u32 << k);
    assert((x | (1u32 << k)) & (1u32 << k) == (1u32 << k)) by (bit_vector);
    assert(k < 32 ==> 1u32 << k != 0) by (bit_vector);
    assert(x & (1u32 << k) == 0 ==> (x | (1u32 << k)) & !(1u32 << k) == x) by (bit_vector);
}

/// Asking for extension `ext` sets bit `ext - 1`, where a bit check finds it.
pub proof fn lemma_extension_bit(req: InetDiagRequest, ext: u8)
    requires
        is_extension(ext),
    ensures
        (req.extensions.bits | (1u8 << (ext - 1) as u8)) & (1u8 << (ext - 1) as u8) == (1u8 << (ext
            - 1) as u8),
        1u8 << (ext - 1) as u8 != 0,
{
    let x = req.extensions.bits;
    let k = (ext - 1) as u8;
    assert((x | (1u8 << k)) & (1u8 << k) == (1u8 << k)) by (bit_vector);
    assert(k < 8 ==> 1u8 << k != 0) by (bit_vector);
}

} // verus!
