//! Intercepted sockets and the state that they are in.
use crate::address::SocketAddr;
use crate::detour::Bypass;
use crate::queue::SocketId;
use vstd::prelude::*;

verus! {

/// The address of a Unix domain socket.
#[derive(Debug)]
pub enum UnixAddr {
    /// A path in the file system.
    Pathname(Vec<u8>),
    /// A name outside the file system.
    Abstract(Vec<u8>),
    /// No name at all.
    Unnamed,
}

/// The address of a socket of either family.
#[derive(Debug)]
pub enum SocketAddress {
    Ip(SocketAddr),
    Unix(UnixAddr),
}

/// Contains the addresses of a connected socket.
#[derive(Debug)]
pub struct Connected {
    /// The address requested by the user that we're "connected" to.
    ///
    /// Whenever the user asks for the name of the peer, this is the address we return to them.
    pub remote_address: SocketAddress,
    /// Local address, as seen on the remote side.
    pub local_address: SocketAddress,
    /// The address of the interceptor socket, which is what we're really connected to when the
    /// connection is an outgoing one.
    pub layer_address: Option<SocketAddress>,
}

/// The addresses of a socket that the user bound.
///
/// The socket is not bound to the address that the user asked for, but to one on the local host
/// that the system picked.
#[derive(Debug, Clone, Copy, PartialEq, Eq, Structural)]
pub struct Bound {
    /// Address originally requested by the user. The user sees this one.
    pub requested_address: SocketAddr,
    /// Actual bound address, over which the user's listener and the interceptor communicate.
    pub address: SocketAddr,
}

/// How far a socket has come.
#[derive(Debug)]
pub enum SocketState {
    Initialized,
    Bound(Bound),
    Listening(Bound),
    Connected(Connected),
}

impl Default for SocketState {
    fn default() -> (state: Self)
        ensures
            state == SocketState::Initialized,
    {
        SocketState::Initialized
    }
}

/// The transport of a socket, with the type that the user asked for.
#[derive(Debug, Clone, Copy, PartialEq, Eq, Structural)]
pub enum SocketKind {
    Tcp(i32),
    Udp(i32),
}

/// `libc::SOCK_STREAM` and `libc::SOCK_DGRAM`: on Unix, the two lowest bits of a socket type, one
/// each. Which of them is which depends on the machine, and nothing is said of that.
#[verifier::external_body]
fn socket_types() -> (types: (i32, i32))
    ensures
        types == (1i32, 2i32) || types == (2i32, 1i32),
{
    (libc::SOCK_STREAM, libc::SOCK_DGRAM)
}

/// `types` are the types of stream and of datagram sockets on this machine, in this order.
pub closed spec fn machine_types(types: (i32, i32)) -> bool {
    call_ensures(socket_types, (), types)
}

/// The types of stream and of datagram sockets are the two lowest bits of a socket type, one each.
pub proof fn law_machine_types(types: (i32, i32))
    requires
        machine_types(types),
    ensures
        types == (1i32, 2i32) || types == (2i32, 1i32),
{
}

/// The kind of a socket of type `type_`, on a machine where `stream` and `dgram` are the types of
/// stream and datagram sockets.
pub open spec fn spec_kind_of(type_: i32, stream: i32, dgram: i32) -> Result<SocketKind, Bypass> {
    if (type_ & stream) > 0 {
        Ok(SocketKind::Tcp(type_))
    } else if (type_ & dgram) > 0 {
        Ok(SocketKind::Udp(type_))
    } else {
        Err(Bypass::Type(type_))
    }
}

impl SocketKind {
    /// Tells whether the transport is UDP.
    pub fn is_udp(&self) -> (udp: bool)
        ensures
            udp == (*self is Udp),
    {
        match self {
            SocketKind::Tcp(_) => false,
            SocketKind::Udp(_) => true,
        }
    }

    /// The kind of a socket of type `type_`, on a machine where `stream` and `dgram` are the types
    /// of stream and datagram sockets.
    pub fn kind_of(type_: i32, stream: i32, dgram: i32) -> (kind: Result<SocketKind, Bypass>)
        ensures
            kind == spec_kind_of(type_, stream, dgram),
    {
        if (type_ & stream) > 0 {
            Ok(SocketKind::Tcp(type_))
        } else if (type_ & dgram) > 0 {
            Ok(SocketKind::Udp(type_))
        } else {
            Err(Bypass::Type(type_))
        }
    }

    /// The kind of a socket of type `type_` on this machine. Types that are neither stream nor
    /// datagram types are left to the system.
    pub fn try_from(type_: i32) -> (kind: Result<SocketKind, Bypass>)
        ensures
            exists|types: (i32, i32)| #[trigger]
                machine_types(types) && kind == spec_kind_of(type_, types.0, types.1),
            kind == spec_kind_of(type_, 1, 2) || kind == spec_kind_of(type_, 2, 1),
    {
        let (stream, dgram) = socket_types();
        assert(machine_types((stream, dgram)));
        SocketKind::kind_of(type_, stream, dgram)
    }
}

/// Only the two lowest bits of a socket type matter for its kind, so that flags which travel in the
/// others, such as the one for a socket that does not block, change nothing. The kind holds the type
/// as it was given.
pub proof fn law_flags_do_not_change_the_kind(type_: i32, flagged: i32, stream: i32, dgram: i32)
    requires
        stream == 1 && dgram == 2 || stream == 2 && dgram == 1,
        type_ & 3 == flagged & 3,
    ensures
        spec_kind_of(flagged, stream, dgram) == (match spec_kind_of(type_, stream, dgram) {
            Ok(SocketKind::Tcp(_)) => Ok(SocketKind::Tcp(flagged)),
            Ok(SocketKind::Udp(_)) => Ok(SocketKind::Udp(flagged)),
            Err(_) => Err(Bypass::Type(flagged)),
        }),
{
    assert((type_ & 1 > 0) == (flagged & 1 > 0) && (type_ & 2 > 0) == (flagged & 2 > 0))
        by (bit_vector)
        requires
            type_ & 3 == flagged & 3,
    ;
}

/// A socket that has a kind is a UDP socket exactly if the stream bit of its type is not set.
pub proof fn law_udp_means_no_stream_bit(type_: i32, types: (i32, i32), kind: SocketKind)
    requires
        machine_types(types) || types == (1i32, 2i32) || types == (2i32, 1i32),
        spec_kind_of(type_, types.0, types.1) == Ok::<SocketKind, Bypass>(kind),
    ensures
        kind is Udp <==> type_ & types.0 == 0,
{
    if machine_types(types) {
        law_machine_types(types);
    }
    assert((type_ & 1 > 0) == (type_ & 1 != 0) && (type_ & 2 > 0) == (type_ & 2 != 0))
        by (bit_vector);
}

/// A message to the handler of incoming TCP traffic.
#[derive(Debug, Clone, Copy, PartialEq, Eq, Structural)]
pub enum TcpIncoming {
    /// The user no longer listens on this port.
    Close(u16),
}

/// A message from a hook to the layer.
#[derive(Debug, Clone, Copy, PartialEq, Eq, Structural)]
pub enum HookMessage {
    Tcp(TcpIncoming),
}

/// A socket of the user.
#[derive(Debug)]
pub struct UserSocket {
    pub id: SocketId,
    pub domain: i32,
    pub type_: i32,
    pub protocol: i32,
    pub state: SocketState,
    pub kind: SocketKind,
}

impl UserSocket {
    /// The port that the user believes the socket to be bound to.
    pub open spec fn spec_bound_port(self) -> Option<u16> {
        match self.state {
            SocketState::Bound(bound) => Some(bound.requested_address.spec_port()),
            SocketState::Listening(bound) => Some(bound.requested_address.spec_port()),
            _ => None,
        }
    }

    /// A socket that goes by `id`. To give every socket an id of its own is up to the caller.
    pub fn new(
        id: SocketId,
        domain: i32,
        type_: i32,
        protocol: i32,
        state: SocketState,
        kind: SocketKind,
    ) -> (socket: Self)
        ensures
            socket == (UserSocket { id, domain, type_, protocol, state, kind }),
    {
        UserSocket { id, domain, type_, protocol, state, kind }
    }

    /// Return the local (requested) port that a bound or listening socket is conceptually bound to.
    ///
    /// So if the app tried to bind port 80, return `Some(80)`, even if we actually mapped it to some
    /// other port.
    ///
    /// `None` if the socket is not bound yet, or if it is a connection socket.
    pub fn get_bound_port(&self) -> (port: Option<u16>)
        ensures
            port == self.spec_bound_port(),
    {
        match &self.state {
            SocketState::Bound(bound) => Some(bound.requested_address.port()),
            SocketState::Listening(bound) => Some(bound.requested_address.port()),
            _ => None,
        }
    }

    /// The message to send when the socket is closed, if there is one to send: the TCP handler is
    /// told of a port that is no longer bound or listened on. There is no incoming UDP traffic, so
    /// nobody is told of a UDP socket.
    pub fn close(&self) -> (message: Option<HookMessage>)
        ensures
            message == (match (self.spec_bound_port(), self.kind) {
                (Some(port), SocketKind::Tcp(_)) => Some(
                    HookMessage::Tcp(TcpIncoming::Close(port)),
                ),
                _ => None,
            }),
    {
        match self.get_bound_port() {
            Some(port) => match self.kind {
                SocketKind::Tcp(_) => Some(HookMessage::Tcp(TcpIncoming::Close(port))),
                SocketKind::Udp(_) => None,
            },
            None => None,
        }
    }
}

/// The bit for streams decides before the bit for datagrams does, and a type with neither is left to
/// the system. The outcome holds the type as it was given.
pub proof fn law_kind_by_bits(
    type_: i32,
    stream: i32,
    dgram: i32,
    kind: Result<SocketKind, Bypass>,
)
    requires
        call_ensures(SocketKind::kind_of, (type_, stream, dgram), kind),
    ensures
        type_ & stream > 0 ==> kind == Ok::<SocketKind, Bypass>(SocketKind::Tcp(type_)),
        type_ & stream <= 0 && type_ & dgram > 0 ==> kind == Ok::<SocketKind, Bypass>(
            SocketKind::Udp(type_),
        ),
        type_ & stream <= 0 && type_ & dgram <= 0 ==> kind == Err::<SocketKind, Bypass>(
            Bypass::Type(type_),
        ),
        kind == spec_kind_of(type_, stream, dgram),
{
}

/// On every machine a type with neither of the two lowest bits has no kind, a type with both is a
/// stream type, and a type with one of them has a kind. The outcome holds the type as it was given.
pub proof fn law_kind_on_every_machine(type_: i32, kind: Result<SocketKind, Bypass>)
    requires
        call_ensures(SocketKind::try_from, (type_,), kind),
    ensures
        type_ & 3 == 0 ==> kind == Err::<SocketKind, Bypass>(Bypass::Type(type_)),
        type_ & 3 == 3 ==> kind == Ok::<SocketKind, Bypass>(SocketKind::Tcp(type_)),
        type_ & 3 != 0 ==> kind == Ok::<SocketKind, Bypass>(SocketKind::Tcp(type_)) || kind == Ok::<
            SocketKind,
            Bypass,
        >(SocketKind::Udp(type_)),
{
    assert(type_ & 3 == 0 ==> type_ & 1 == 0 && type_ & 2 == 0) by (bit_vector);
    assert(type_ & 3 == 3 ==> type_ & 1 > 0 && type_ & 2 > 0) by (bit_vector);
    assert(type_ & 3 != 0 ==> type_ & 1 > 0 || type_ & 2 > 0) by (bit_vector);
}

/// The bits that decide are those that the machine has, that for streams first.
proof fn law_kind_by_the_bits_of_the_machine(type_: i32, kind: Result<SocketKind, Bypass>)
    requires
        call_ensures(SocketKind::try_from, (type_,), kind),
    ensures
        exists|types: (i32, i32)| #[trigger]
            call_ensures(socket_types, (), types) && kind == (if type_ & types.0 > 0 {
                Ok(SocketKind::Tcp(type_))
            } else if type_ & types.1 > 0 {
                Ok(SocketKind::Udp(type_))
            } else {
                Err(Bypass::Type(type_))
            }),
{
    let types = choose|types: (i32, i32)| #[trigger]
        machine_types(types) && kind == spec_kind_of(type_, types.0, types.1);
    assert(call_ensures(socket_types, (), types));
}

/// The port that a socket is taken to be bound to is that of the address that the user asked for,
/// not of the one that the system picked. Only a socket that is bound or listens has one.
pub proof fn law_bound_port_is_the_requested_port(socket: UserSocket, port: Option<u16>)
    requires
        call_ensures(UserSocket::get_bound_port, (&socket,), port),
    ensures
        match socket.state {
            SocketState::Initialized => port is None,
            SocketState::Connected(_) => port is None,
            SocketState::Bound(bound) => match bound.requested_address {
                SocketAddr::V4 { port: number, .. } => port == Some(number),
                SocketAddr::V6 { port: number, .. } => port == Some(number),
            },
            SocketState::Listening(bound) => match bound.requested_address {
                SocketAddr::V4 { port: number, .. } => port == Some(number),
                SocketAddr::V6 { port: number, .. } => port == Some(number),
            },
        },
        port == socket.spec_bound_port(),
{
}

/// The TCP handler is told of a closed socket exactly if that is a TCP socket which is bound or
/// listens, and it is told the port that the user asked for.
pub proof fn law_closing_tells_of_the_port(
    socket: UserSocket,
    port: Option<u16>,
    message: Option<HookMessage>,
)
    requires
        call_ensures(UserSocket::get_bound_port, (&socket,), port),
        call_ensures(UserSocket::close, (&socket,), message),
    ensures
        message is Some <==> socket.kind is Tcp && (socket.state is Bound
            || socket.state is Listening),
        message matches Some(HookMessage::Tcp(TcpIncoming::Close(closed))) ==> port == Some(closed),
        socket.kind is Udp ==> message is None,
{
}

} // verus!
