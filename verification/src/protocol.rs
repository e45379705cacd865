//! The transport protocols of name resolution, and the numbers that stand for them.
use crate::detour::HookError;
use vstd::prelude::*;

verus! {

/// A transport protocol.
#[derive(Debug, Clone, Copy, PartialEq, Eq, Structural)]
pub enum Protocol {
    Udp,
    Tcp,
    /// Any other transport, for which there is no number.
    Other,
}

/// The number of TCP.
pub const PROTOCOL_TCP: i32 = 6;

/// The number of UDP.
pub const PROTOCOL_UDP: i32 = 17;

/// The number of SCTP.
pub const PROTOCOL_SCTP: i32 = 132;

/// `libc::IPPROTO_TCP`: the number that the internet standards assign to TCP.
#[verifier::external_body]
fn ipproto_tcp() -> (number: i32)
    ensures
        number == PROTOCOL_TCP,
{
    libc::IPPROTO_TCP
}

/// `libc::IPPROTO_UDP`: the number that the internet standards assign to UDP.
#[verifier::external_body]
fn ipproto_udp() -> (number: i32)
    ensures
        number == PROTOCOL_UDP,
{
    libc::IPPROTO_UDP
}

impl Protocol {
    /// The protocol with this number: TCP, unless it is the number of UDP.
    pub open spec fn spec_from_raw(ai_protocol: i32) -> Protocol {
        if ai_protocol == PROTOCOL_UDP {
            Protocol::Udp
        } else {
            Protocol::Tcp
        }
    }

    /// The number of this protocol, which is UDP or TCP.
    pub open spec fn spec_into_raw(self) -> i32
        recommends
            !(self is Other),
    {
        if self is Udp {
            PROTOCOL_UDP
        } else {
            PROTOCOL_TCP
        }
    }

    /// The protocol with this number. Numbers other than those of UDP and TCP are taken for TCP;
    /// SCTP is not supported.
    pub fn try_from_raw(ai_protocol: i32) -> (protocol: Result<Protocol, HookError>)
        requires
            ai_protocol != PROTOCOL_SCTP,
        ensures
            protocol == Ok::<Protocol, HookError>(Protocol::spec_from_raw(ai_protocol)),
    {
        if ai_protocol == ipproto_udp() {
            Ok(Protocol::Udp)
        } else {
            Ok(Protocol::Tcp)
        }
    }

    /// The number of this protocol, which is UDP or TCP.
    pub fn try_into_raw(self) -> (ai_protocol: Result<i32, HookError>)
        requires
            !(self is Other),
        ensures
            ai_protocol == Ok::<i32, HookError>(self.spec_into_raw()),
    {
        match self {
            Protocol::Udp => Ok(ipproto_udp()),
            _ => Ok(ipproto_tcp()),
        }
    }
}

/// UDP and TCP come back from their numbers, and their numbers come back from them. Every number
/// but that of UDP comes back as that of TCP.
pub proof fn law_protocol_numbers_round_trip(protocol: Protocol, ai_protocol: i32)
    ensures
        !(protocol is Other) ==> Protocol::spec_from_raw(protocol.spec_into_raw()) == protocol,
        Protocol::spec_from_raw(ai_protocol).spec_into_raw() == (if ai_protocol == PROTOCOL_UDP {
            PROTOCOL_UDP
        } else {
            PROTOCOL_TCP
        }),
{
}

/// 17 is UDP, and every other number is taken for TCP. The number of UDP is 17 and that of TCP is 6.
pub proof fn law_protocols_by_numbers(
    number: i32,
    read: Result<Protocol, HookError>,
    udp: Result<i32, HookError>,
    tcp: Result<i32, HookError>,
)
    requires
        call_ensures(Protocol::try_from_raw, (number,), read),
        call_ensures(Protocol::try_into_raw, (Protocol::Udp,), udp),
        call_ensures(Protocol::try_into_raw, (Protocol::Tcp,), tcp),
    ensures
        number == 17 ==> read == Ok::<Protocol, HookError>(Protocol::Udp),
        number != 17 ==> read == Ok::<Protocol, HookError>(Protocol::Tcp),
        udp == Ok::<i32, HookError>(17),
        tcp == Ok::<i32, HookError>(6),
        PROTOCOL_SCTP == 132,
{
}

} // verus!
