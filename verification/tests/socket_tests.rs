use safa_api::sockets::socket::{
    DOMAIN_INETV4, DOMAIN_LOCAL, KIND_DGRAM, KIND_NON_BLOCKING_FLAG, KIND_SEQPACKET, KIND_STREAM,
};
use safa_api::errors::{ERR_CONNECTION_CLOSED, ERR_TIMEOUT};
use safa_api::sockets::udp::{POLL_DATA_AVAILABLE, POLL_DISCONNECTED};
use safa_api::sockets::{Socket, SocketBuilder, SocketDomain, SocketKind, SocketOpt, UDPSocket};
use safa_api::backtrace::{StackFrame, StackTrace};
use safa_api::sockets::{UnixListener, UnixSockConnection, UnixSockKind};
use safa_api::syscalls::{SysArg, SYS_IO_COMMAND, SYS_SOCK_ACCEPT, SYS_SOCK_CREATE};

fn imm(arg: &SysArg) -> usize {
    match arg {
        SysArg::Imm(v) => *v,
        _ => panic!("expected an immediate"),
    }
}

#[test]
fn kind_and_domain_round_trip_through_raw() {
    assert_eq!(SocketKind::Stream.into_raw(), KIND_STREAM);
    assert_eq!(SocketKind::SeqPacket.into_raw(), KIND_SEQPACKET);
    assert_eq!(SocketKind::Datagram.into_raw(), KIND_DGRAM);
    assert_eq!(SocketKind::from_raw(KIND_DGRAM), Some((SocketKind::Datagram, true)));
    assert_eq!(
        SocketKind::from_raw(KIND_DGRAM | KIND_NON_BLOCKING_FLAG),
        Some((SocketKind::Datagram, false))
    );
    assert_eq!(SocketKind::from_raw(u16::MAX), None);
    assert_eq!(SocketKind::from_raw(9), None);

    assert_eq!(SocketDomain::Local.into_raw(), DOMAIN_LOCAL);
    assert_eq!(SocketDomain::Ipv4.into_raw(), DOMAIN_INETV4);
    assert_eq!(SocketDomain::from_raw(0), Some(SocketDomain::Local));
    assert_eq!(SocketDomain::from_raw(1), Some(SocketDomain::Ipv4));
    assert_eq!(SocketDomain::from_raw(0xFF), None);
}

#[test]
fn builder_describes_the_creation_call() {
    let mut b = Socket::builder(SocketDomain::Ipv4, SocketKind::Datagram, 0);
    b.set_non_blocking(true);
    b.set_protocol(6);
    let c = b.build();
    assert_eq!(c.num, SYS_SOCK_CREATE);
    assert_eq!(imm(&c.args[0]), DOMAIN_INETV4 as usize);
    assert_eq!(imm(&c.args[1]), (KIND_DGRAM | KIND_NON_BLOCKING_FLAG) as usize);
    assert_eq!(imm(&c.args[2]), 6);

    let mut b2 = SocketBuilder::new(SocketDomain::Local, SocketKind::Stream, 0);
    b2.set_kind(SocketKind::SeqPacket);
    let c2 = b2.build();
    assert_eq!(imm(&c2.args[0]), DOMAIN_LOCAL as usize);
    assert_eq!(imm(&c2.args[1]), KIND_SEQPACKET as usize);
}

#[test]
fn socket_requests_use_the_socket_resource() {
    let s = Socket::from_ri(33);
    assert_eq!(s.ri(), 33);
    let c = s.listen(4);
    assert_eq!(imm(&c.args[0]), 33);
    let c = s.set_sock_opt(SocketOpt::ReadTimeout, 300);
    assert_eq!(c.num, SYS_IO_COMMAND);
    assert_eq!(imm(&c.args[1]), 1);
    assert_eq!(imm(&c.args[2]), 300);
    let c = s.set_blocking(false);
    assert_eq!(imm(&c.args[1]), 0);
    assert_eq!(imm(&c.args[2]), 0);
    let c = s.write(b"xy");
    assert_eq!(imm(&c.args[0]), 33);
}

#[test]
fn udp_socket_tracks_timeouts_in_milliseconds() {
    let mut u = UDPSocket::from_ri(9);
    assert_eq!(u.ri(), 9);
    assert_eq!(u.read_timeout(), None);
    u.set_read_timeout(Some(250));
    assert_eq!(u.read_timeout(), Some(250));
    u.set_read_timeout(Some(0));
    assert_eq!(u.read_timeout(), None, "a zero timeout means none");
    u.set_write_timeout(Some(75));
    assert_eq!(u.write_timeout(), Some(75));
    u.set_write_timeout(None);
    assert_eq!(u.write_timeout(), None);
    let c = u.set_can_block(false);
    assert_eq!(c.num, SYS_IO_COMMAND);
    assert_eq!(imm(&c.args[0]), 9);
    assert_eq!(imm(&c.args[1]), 0);
    assert_eq!(imm(&c.args[2]), 0);
    u.confirm_can_block(false);
}

#[test]
fn unix_wrappers_forward_to_their_socket() {
    let conn = UnixSockConnection::from_socket(Socket::from_ri(5));
    assert_eq!(conn.ri(), 5);
    assert_eq!(conn.raw_socket().ri(), 5);
    let c = conn.read(32);
    assert_eq!(imm(&c.args[0]), 5);
    let c = conn.write(b"abc");
    assert_eq!(imm(&c.args[0]), 5);
    let c = conn.set_can_block(true);
    assert_eq!(imm(&c.args[1]), 0);
    assert_eq!(imm(&c.args[2]), 1);

    let l = UnixListener::from_socket(Socket::from_ri(6));
    assert_eq!(l.ri(), 6);
    let c = l.accept();
    assert_eq!(c.num, SYS_SOCK_ACCEPT);
    assert_eq!(imm(&c.args[0]), 6);

    assert!(matches!(UnixSockKind::Stream.as_socket_kind(), SocketKind::Stream));
    assert!(matches!(UnixSockKind::SeqPacket.as_socket_kind(), SocketKind::SeqPacket));
}

#[test]
fn poll_events_decide_the_timed_receive() {
    let u = UDPSocket::from_ri(1);
    assert!(u.interpret_poll(POLL_DATA_AVAILABLE).is_ok());
    assert!(u.interpret_poll(POLL_DATA_AVAILABLE | 2).is_ok());
    let e = u.interpret_poll(0).unwrap_err();
    assert_eq!(e.code(), ERR_TIMEOUT);
    let e = u.interpret_poll(POLL_DISCONNECTED | POLL_DATA_AVAILABLE).unwrap_err();
    assert_eq!(e.code(), ERR_CONNECTION_CLOSED);
}

#[test]
fn backtrace_frames_report_their_return_addresses() {
    let f1 = StackFrame::new(0x2000, 0x1111);
    let f2 = StackFrame::new(0, 0x2222);
    assert_eq!(f1.return_ptr(), 0x1111);
    assert!(f1.prev_is_walkable());
    assert!(!f2.prev_is_walkable());
    let t = StackTrace::from_frames(vec![f1, f2]);
    assert_eq!(t.len(), 2);
    assert_eq!(t.return_ptr_at(0), 0x1111);
    assert_eq!(t.return_ptr_at(1), 0x2222);
}
