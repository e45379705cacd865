use layer_socket::address::{IpAddr, SocketAddr};
use layer_socket::detour::Bypass;
use layer_socket::protocol::Protocol;
use layer_socket::queue::SocketId;
use layer_socket::socket::{
    Bound, Connected, HookMessage, SocketAddress, SocketKind, SocketState, TcpIncoming, UnixAddr,
    UserSocket,
};

fn bound() -> Bound {
    Bound {
        requested_address: SocketAddr::new(IpAddr::V4(0), 80),
        address: SocketAddr::new(IpAddr::V4(0x7f00_0001), 34567),
    }
}

fn connected() -> Connected {
    Connected {
        remote_address: SocketAddress::Ip(SocketAddr::new(IpAddr::V4(9), 443)),
        local_address: SocketAddress::Ip(SocketAddr::new(IpAddr::V4(8), 1234)),
        layer_address: Some(SocketAddress::Unix(UnixAddr::Unnamed)),
    }
}

fn socket(state: SocketState, kind: SocketKind) -> UserSocket {
    UserSocket::new(SocketId(1), libc::AF_INET, libc::SOCK_STREAM, 0, state, kind)
}

#[test]
fn stream_and_datagram_types() {
    let stream = libc::SOCK_STREAM;
    let dgram = libc::SOCK_DGRAM;
    assert_eq!(SocketKind::try_from(stream), Ok(SocketKind::Tcp(stream)));
    assert_eq!(SocketKind::try_from(dgram), Ok(SocketKind::Udp(dgram)));
    assert_eq!(SocketKind::try_from(libc::SOCK_RAW), Ok(SocketKind::Tcp(libc::SOCK_RAW)));
    assert_eq!(SocketKind::try_from(0), Err(Bypass::Type(0)));
    assert_eq!(SocketKind::try_from(libc::SOCK_RDM), Err(Bypass::Type(libc::SOCK_RDM)));
}

#[test]
fn flags_do_not_change_the_kind() {
    let flagged = libc::SOCK_DGRAM | libc::SOCK_NONBLOCK | libc::SOCK_CLOEXEC;
    assert_eq!(SocketKind::try_from(flagged), Ok(SocketKind::Udp(flagged)));
    assert_eq!(SocketKind::kind_of(i32::MIN | 1, 1, 2), Ok(SocketKind::Tcp(i32::MIN | 1)));
    assert_eq!(SocketKind::kind_of(i32::MIN, 1, 2), Err(Bypass::Type(i32::MIN)));
    assert_eq!(SocketKind::kind_of(1, 2, 1), Ok(SocketKind::Udp(1)));
}

#[test]
fn udp_is_udp() {
    assert!(SocketKind::Udp(2).is_udp());
    assert!(!SocketKind::Tcp(1).is_udp());
}

#[test]
fn udp_means_no_stream_bit() {
    for type_ in -70..70 {
        if let Ok(kind) = SocketKind::try_from(type_) {
            assert_eq!(kind.is_udp(), type_ & libc::SOCK_STREAM == 0);
        }
        for (stream, dgram) in [(1, 2), (2, 1)] {
            if let Ok(kind) = SocketKind::kind_of(type_, stream, dgram) {
                assert_eq!(kind.is_udp(), type_ & stream == 0);
            }
        }
    }
}

#[test]
fn sockets_start_initialized() {
    assert!(matches!(SocketState::default(), SocketState::Initialized));
}

#[test]
fn new_socket_holds_what_it_was_given() {
    let socket = UserSocket::new(SocketId(4), 2, 1, 6, SocketState::Bound(bound()), SocketKind::Tcp(1));
    assert_eq!(socket.id, SocketId(4));
    assert_eq!((socket.domain, socket.type_, socket.protocol), (2, 1, 6));
    assert_eq!(socket.kind, SocketKind::Tcp(1));
    assert!(matches!(socket.state, SocketState::Bound(b) if b == bound()));
}

#[test]
fn bound_port_is_the_requested_one() {
    let kind = SocketKind::Tcp(1);
    assert_eq!(socket(SocketState::Bound(bound()), kind).get_bound_port(), Some(80));
    assert_eq!(socket(SocketState::Listening(bound()), kind).get_bound_port(), Some(80));
    assert_eq!(socket(SocketState::Initialized, kind).get_bound_port(), None);
    assert_eq!(socket(SocketState::Connected(connected()), kind).get_bound_port(), None);
}

#[test]
fn closing_tells_the_tcp_handler() {
    let message = Some(HookMessage::Tcp(TcpIncoming::Close(80)));
    assert_eq!(socket(SocketState::Bound(bound()), SocketKind::Tcp(1)).close(), message);
    assert_eq!(socket(SocketState::Listening(bound()), SocketKind::Tcp(1)).close(), message);
    assert_eq!(socket(SocketState::Initialized, SocketKind::Tcp(1)).close(), None);
    assert_eq!(socket(SocketState::Connected(connected()), SocketKind::Tcp(1)).close(), None);
    assert_eq!(socket(SocketState::Bound(bound()), SocketKind::Udp(2)).close(), None);
}

#[test]
fn protocol_numbers() {
    assert_eq!(Protocol::try_from_raw(libc::IPPROTO_UDP).unwrap(), Protocol::Udp);
    assert_eq!(Protocol::try_from_raw(libc::IPPROTO_TCP).unwrap(), Protocol::Tcp);
    assert_eq!(Protocol::try_from_raw(0).unwrap(), Protocol::Tcp);
    assert_eq!(Protocol::try_from_raw(-1).unwrap(), Protocol::Tcp);
    assert_eq!(Protocol::Udp.try_into_raw().unwrap(), 17);
    assert_eq!(Protocol::Tcp.try_into_raw().unwrap(), 6);
}
