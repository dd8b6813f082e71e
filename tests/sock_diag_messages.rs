use netlink_packet::bitflags::{TcpStates, INET_DIAG_INFO, INET_DIAG_MEMINFO, INET_DIAG_SHUTDOWN, TCP_ESTABLISHED, TCP_LISTEN, TCP_STATES_ALL};
use netlink_packet::error::DecodeError;
use netlink_packet::nla::DefaultNla;
use netlink_packet::sock_diag::{inet, inet6, InetDiagRequest, InetDiagResponse, SockDiagMessage, SocketAddress, UnixDiagRequest, UnixDiagResponse, AF_INET, AF_INET6, SOCK_DIAG_BY_FAMILY};

fn message(family: u8) -> Vec<u8> {
    let mut b = vec![0u8; 72];
    b[0] = family;
    b[1] = 10;
    b[2] = 1;
    b[3] = 2;
    b[44..52].copy_from_slice(&[0xff; 8]);
    b
}

#[test]
fn request_defaults() {
    let r = inet(6);
    assert_eq!(r.family, AF_INET);
    assert_eq!(r.protocol, 6);
    assert_eq!(r.extensions.bits, 0);
    assert_eq!(r.states.bits, TCP_STATES_ALL);
    assert_eq!(inet6(17).family, AF_INET6);
}

#[test]
fn state_and_extension_bits() {
    let mut r = InetDiagRequest::new(AF_INET, 6);
    r.states = TcpStates::empty();
    let r = r.with_state(TCP_LISTEN);
    assert_eq!(r.states.bits, 1 << 10);
    let r = r.with_state(TCP_ESTABLISHED);
    assert_eq!(r.states.bits, (1 << 10) | (1 << 1));
    let r = r.without_state(TCP_ESTABLISHED);
    assert_eq!(r.states.bits, 1 << 10);
    let r = r.with_extension(INET_DIAG_MEMINFO);
    assert_eq!(r.extensions.bits, 1);
    let r = r.with_extension(INET_DIAG_INFO);
    assert_eq!(r.extensions.bits, 0b11);
    let r = r.with_extension(INET_DIAG_SHUTDOWN);
    assert_eq!(r.extensions.bits, 0b1000_0011);
}

#[test]
fn request_encoding() {
    let mut r = inet(6).with_extension(INET_DIAG_INFO);
    r.id.src = Some(SocketAddress { ip: vec![127, 0, 0, 1], port: 0x1f90 });
    r.id.interface = 3;
    r.id.cookie = Some(0x0102_0304_0506_0708);
    let mut buf = Vec::new();
    r.emit(&mut buf);
    assert_eq!(buf.len(), r.buffer_len());
    assert_eq!(buf.len(), 56);
    assert_eq!(&buf[0..4], &[AF_INET, 6, 2, 0]);
    assert_eq!(&buf[4..8], &TCP_STATES_ALL.to_le_bytes());
    assert_eq!(&buf[8..12], &[0x1f, 0x90, 0, 0]);
    assert_eq!(&buf[12..16], &[127, 0, 0, 1]);
    assert!(buf[16..44].iter().all(|b| *b == 0));
    assert_eq!(&buf[44..48], &[3, 0, 0, 0]);
    assert_eq!(&buf[48..56], &[8, 7, 6, 5, 4, 3, 2, 1]);
}

#[test]
fn message_emit_directions() {
    let mut buf = Vec::new();
    let m = SockDiagMessage::InetDiag(inet6(6));
    assert_eq!(m.buffer_len(), Ok(56));
    assert_eq!(m.emit(&mut buf), Ok(()));
    assert_eq!(buf.len(), 56);
    assert_eq!(m.message_type(), SOCK_DIAG_BY_FAMILY);
    let u = SockDiagMessage::UnixDiag(UnixDiagRequest {});
    let mut other = Vec::new();
    assert_eq!(u.buffer_len(), Err(DecodeError::Unimplemented));
    assert_eq!(u.emit(&mut other), Err(DecodeError::Unimplemented));
    assert!(other.is_empty());
    assert_eq!(UnixDiagResponse::parse(&[1, 2, 3]), Err(DecodeError::Unimplemented));
}

#[test]
fn zero_endpoints_are_absent() {
    let r = InetDiagResponse::parse(&message(AF_INET)).unwrap();
    assert_eq!(r.id.src, None);
    assert_eq!(r.id.dst, None);
    assert_eq!(r.id.cookie, None);
    assert_eq!(r.expires, None);
    assert_eq!((r.family, r.state, r.timer, r.retrans), (AF_INET, 10, 1, 2));
    assert!(r.attrs.is_empty());
}

#[test]
fn nonzero_port_or_address_is_present() {
    let mut b = message(AF_INET);
    b[4] = 0x00;
    b[5] = 0x50;
    b[24..28].copy_from_slice(&[10, 0, 0, 2]);
    let r = InetDiagResponse::parse(&b).unwrap();
    assert_eq!(r.id.src, Some(SocketAddress { ip: vec![0, 0, 0, 0], port: 80 }));
    assert_eq!(r.id.dst, Some(SocketAddress { ip: vec![10, 0, 0, 2], port: 0 }));
}

#[test]
fn ipv6_response_fields() {
    let mut b = message(AF_INET6);
    b[6] = 0x01;
    b[7] = 0xbb;
    b[24] = 0xfe;
    b[25] = 0x80;
    b[39] = 1;
    b[40..44].copy_from_slice(&7u32.to_le_bytes());
    b[44..52].copy_from_slice(&42u64.to_le_bytes());
    b[52..56].copy_from_slice(&1500u32.to_le_bytes());
    b[56..60].copy_from_slice(&1u32.to_le_bytes());
    b[60..64].copy_from_slice(&2u32.to_le_bytes());
    b[64..68].copy_from_slice(&1000u32.to_le_bytes());
    b[68..72].copy_from_slice(&123456u32.to_le_bytes());
    let r = InetDiagResponse::parse(&b).unwrap();
    assert_eq!(r.id.src, None);
    let mut ip = vec![0u8; 16];
    ip[0] = 0xfe;
    ip[1] = 0x80;
    ip[15] = 1;
    assert_eq!(r.id.dst, Some(SocketAddress { ip, port: 443 }));
    assert_eq!(r.id.interface, 7);
    assert_eq!(r.id.cookie, Some(42));
    assert_eq!(r.expires, Some(1500));
    assert_eq!((r.rqueue, r.wqueue, r.uid, r.inode), (1, 2, 1000, 123456));
}

#[test]
fn other_family_has_no_endpoints() {
    let mut b = message(1);
    b[4] = 1;
    b[8] = 9;
    let r = InetDiagResponse::parse(&b).unwrap();
    assert_eq!(r.id.src, None);
    assert_eq!(r.id.dst, None);
}

#[test]
fn response_attributes() {
    let mut b = message(AF_INET);
    b.extend_from_slice(&[5, 0, 4, 0, b'c', 0, 0, 0]);
    b.extend_from_slice(&[8, 0, 1, 0, 1, 2, 3, 4]);
    let r = InetDiagResponse::parse(&b).unwrap();
    assert_eq!(
        r.attrs,
        vec![DefaultNla { kind: 4, value: vec![b'c'] }, DefaultNla { kind: 1, value: vec![1, 2, 3, 4] }]
    );
    let mut bad = message(AF_INET);
    bad.extend_from_slice(&[12, 0, 1, 0, 1, 2]);
    assert_eq!(InetDiagResponse::parse(&bad), Err(DecodeError::Truncated));
    assert_eq!(InetDiagResponse::parse(&[AF_INET; 71]), Err(DecodeError::Truncated));
}

#[test]
fn dispatch_by_type_and_family() {
    let b = message(AF_INET);
    match SockDiagMessage::parse(SOCK_DIAG_BY_FAMILY, &b) {
        Ok(SockDiagMessage::InetSocks(r)) => assert_eq!(r.family, AF_INET),
        other => panic!("unexpected {:?}", other),
    }
    assert!(matches!(SockDiagMessage::parse(SOCK_DIAG_BY_FAMILY, &message(AF_INET6)), Ok(SockDiagMessage::InetSocks(_))));
    assert_eq!(SockDiagMessage::parse(99, &b), Err(DecodeError::UnknownMessageType(99)));
    assert_eq!(SockDiagMessage::parse(SOCK_DIAG_BY_FAMILY, &message(1)), Err(DecodeError::UnknownMessageType(SOCK_DIAG_BY_FAMILY)));
    assert_eq!(SockDiagMessage::parse(SOCK_DIAG_BY_FAMILY, &[]), Err(DecodeError::UnknownMessageType(SOCK_DIAG_BY_FAMILY)));
    assert_eq!(SockDiagMessage::parse(SOCK_DIAG_BY_FAMILY, &[AF_INET, 0, 0]), Err(DecodeError::Truncated));
}
