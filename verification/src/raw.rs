//! Socket addresses in the form in which they cross the boundary to the program.
use crate::address::SocketAddr;
use crate::detour::{Bypass, Detour, HookError};
use socket2::SockAddr as SystemAddress;
use vstd::prelude::*;

verus! {

/// A socket address of any family, as the bytes of its C structure.
#[derive(Debug)]
pub struct SockAddr {
    pub bytes: Vec<u8>,
}

/// The number of bytes that are copied: no more than the program has room for, and no more than
/// there are.
pub open spec fn filled_len(room: u32, address: Seq<u8>) -> int {
    if (room as int) < address.len() {
        room as int
    } else {
        address.len() as int
    }
}

/// Fills in the address that the program asked for.
///
/// `address` is the program's buffer and `address_len` says how much room it has; either is absent
/// where the program passed a null pointer. A program that passes no buffer wants no address. The
/// address is cut off where the room ends, and its whole length is reported all the same.
pub fn fill_address(
    address: Option<&mut [u8]>,
    address_len: Option<&mut u32>,
    new_address: &SockAddr,
) -> (detour: Detour<i32>)
    requires
        new_address.bytes@.len() <= u32::MAX,
        match (address, address_len) {
            (Some(buffer), Some(room)) => filled_len(*room, new_address.bytes@) <= buffer@.len(),
            _ => true,
        },
    ensures
        match (address, address_len) {
            (None, None) => detour == Detour::<i32>::Success(0),
            (None, Some(room)) => {
                &&& detour == Detour::<i32>::Success(0)
                &&& *final(room) == *room
            },
            (Some(buffer), None) => {
                &&& detour == Detour::<i32>::Error(HookError::NullPointer)
                &&& final(buffer)@ == buffer@
            },
            (Some(buffer), Some(room)) => {
                let len = filled_len(*room, new_address.bytes@);
                &&& detour == Detour::<i32>::Success(0)
                &&& final(buffer)@ == new_address.bytes@.take(len) + buffer@.skip(len)
                &&& *final(room) == new_address.bytes@.len()
            },
        },
{
    match (address, address_len) {
        (None, _) => Detour::Success(0),
        (Some(_), None) => Detour::Error(HookError::NullPointer),
        (Some(buffer), Some(room)) => {
            let ghost before = buffer@;
            let total: u32 = new_address.bytes.len() as u32;
            let len: u32 = if *room < total {
                *room
            } else {
                total
            };
            let mut index: u32 = 0;
            assert(buffer@ =~= new_address.bytes@.take(0) + before.skip(0));
            while index < len
                invariant
                    index <= len <= new_address.bytes@.len(),
                    len <= before.len(),
                    buffer@ == new_address.bytes@.take(index as int) + before.skip(index as int),
                decreases len - index,
            {
                buffer[index as usize] = new_address.bytes[index as usize];
                index += 1;
                assert(buffer@ =~= new_address.bytes@.take(index as int) + before.skip(
                    index as int,
                ));
            }
            *room = total;
            Detour::Success(0)
        },
    }
}

/// `socket2::SockAddr`, the address of a socket as the system keeps it.
#[verifier::external_type_specification]
#[verifier::external_body]
pub struct ExSockAddr(SystemAddress);

/// The IP and the port of an address of the IPv4 family.
pub uninterp spec fn ipv4_of(address: SystemAddress) -> Option<(u32, u16)>;

/// The IP, the port, the flow information and the scope of an address of the IPv6 family.
pub uninterp spec fn ipv6_of(address: SystemAddress) -> Option<(u128, u16, u32, u32)>;

/// `socket2::SockAddr::as_socket_ipv4`: what the address holds, if its family is IPv4.
#[verifier::external_body]
fn as_ipv4(address: &SystemAddress) -> (found: Option<(u32, u16)>)
    ensures
        found == ipv4_of(*address),
{
    address.as_socket_ipv4().map(|found| (u32::from(*found.ip()), found.port()))
}

/// `socket2::SockAddr::as_socket_ipv6`: what the address holds, if its family is IPv6.
#[verifier::external_body]
fn as_ipv6(address: &SystemAddress) -> (found: Option<(u128, u16, u32, u32)>)
    ensures
        found == ipv6_of(*address),
{
    address.as_socket_ipv6().map(
        |found| (u128::from(*found.ip()), found.port(), found.flowinfo(), found.scope_id()),
    )
}

/// The internet address that the system keeps: the IPv4 form where it has one, else the IPv6 form
/// where it has one, and none for an address of another family.
pub open spec fn internet_address(address: SystemAddress) -> Option<SocketAddr> {
    match ipv4_of(address) {
        Some((ip, port)) => Some(SocketAddr::V4 { ip, port }),
        None => match ipv6_of(address) {
            Some((ip, port, flowinfo, scope_id)) => Some(
                SocketAddr::V6 { ip, port, flowinfo, scope_id },
            ),
            None => None,
        },
    }
}

fn as_socket(address: &SystemAddress) -> (found: Option<SocketAddr>)
    ensures
        found == internet_address(*address),
{
    match as_ipv4(address) {
        Some((ip, port)) => Some(SocketAddr::V4 { ip, port }),
        None => match as_ipv6(address) {
            Some((ip, port, flowinfo, scope_id)) => Some(
                SocketAddr::V6 { ip, port, flowinfo, scope_id },
            ),
            None => None,
        },
    }
}

impl SockAddr {
    /// Takes the address that was copied from the program, if the copy succeeded.
    pub fn try_from_raw(copied: Option<SystemAddress>) -> (detour: Detour<SystemAddress>)
        ensures
            detour == Detour::<SystemAddress>::spec_or_bypass(copied, Bypass::AddressConversion),
    {
        Detour::or_bypass(copied, Bypass::AddressConversion)
    }
}

/// Reads the address that was taken from the program as an internet address: the layer steps aside
/// for an address of another family, and where no address was taken it ends as the taking ended.
pub fn internet_from_raw(read: Detour<SystemAddress>) -> (detour: Detour<SocketAddr>)
    ensures
        detour == (match read {
            Detour::Success(address) => Detour::<SocketAddr>::spec_or_bypass(
                internet_address(address),
                Bypass::AddressConversion,
            ),
            Detour::Bypass(reason) => Detour::Bypass(reason),
            Detour::Error(error) => Detour::Error(error),
        }),
{
    SocketAddr::try_from_raw(
        match read {
            Detour::Success(address) => Detour::Success(as_socket(&address)),
            Detour::Bypass(reason) => Detour::Bypass(reason),
            Detour::Error(error) => Detour::Error(error),
        },
    )
}

impl SocketAddr {
    /// Takes the internet address that was read, if there was one: the layer steps aside for an
    /// address of another family, and where there was no address to read it ends as the reading
    /// ended.
    pub fn try_from_raw(read: Detour<Option<SocketAddr>>) -> (detour: Detour<SocketAddr>)
        ensures
            detour == (match read {
                Detour::Success(address) => Detour::<SocketAddr>::spec_or_bypass(
                    address,
                    Bypass::AddressConversion,
                ),
                Detour::Bypass(reason) => Detour::Bypass(reason),
                Detour::Error(error) => Detour::Error(error),
            }),
    {
        match read {
            Detour::Success(address) => Detour::or_bypass(address, Bypass::AddressConversion),
            Detour::Bypass(reason) => Detour::Bypass(reason),
            Detour::Error(error) => Detour::Error(error),
        }
    }
}

/// What is copied fits the room and is no longer than the address, and it is as long as that allows.
pub proof fn law_copied_length(room: u32, address: Seq<u8>)
    ensures
        0 <= filled_len(room, address) <= room,
        filled_len(room, address) <= address.len(),
        filled_len(room, address) == room || filled_len(room, address) == address.len(),
{
}

/// An address of the IPv4 family is read as such, one of the IPv6 family too, and the layer steps
/// aside for all others. Where there was no address, the reason or the error is handed on.
pub proof fn law_internet_addresses_are_read(
    read: Detour<SystemAddress>,
    detour: Detour<SocketAddr>,
)
    requires
        call_ensures(internet_from_raw, (read,), detour),
    ensures
        match read {
            Detour::Success(address) => match (ipv4_of(address), ipv6_of(address)) {
                (Some((ip, port)), _) => detour == Detour::Success(SocketAddr::V4 { ip, port }),
                (None, Some((ip, port, flowinfo, scope_id))) => detour == Detour::Success(
                    SocketAddr::V6 { ip, port, flowinfo, scope_id },
                ),
                (None, None) => detour == Detour::<SocketAddr>::Bypass(Bypass::AddressConversion),
            },
            Detour::Bypass(reason) => detour == Detour::<SocketAddr>::Bypass(reason),
            Detour::Error(error) => detour == Detour::<SocketAddr>::Error(error),
        },
{
}

/// An address that was copied, or read, is handed on as it is, and the layer steps aside where there
/// is none. Where there was nothing to read, the reason or the error is handed on.
pub proof fn law_addresses_are_handed_on(
    copied: Option<SystemAddress>,
    taken: Detour<SystemAddress>,
    read: Detour<Option<SocketAddr>>,
    detour: Detour<SocketAddr>,
)
    requires
        call_ensures(SockAddr::try_from_raw, (copied,), taken),
        call_ensures(SocketAddr::try_from_raw, (read,), detour),
    ensures
        match copied {
            Some(address) => taken == Detour::Success(address),
            None => taken == Detour::<SystemAddress>::Bypass(Bypass::AddressConversion),
        },
        match read {
            Detour::Success(Some(address)) => detour == Detour::Success(address),
            Detour::Success(None) => detour == Detour::<SocketAddr>::Bypass(
                Bypass::AddressConversion,
            ),
            Detour::Bypass(reason) => detour == Detour::<SocketAddr>::Bypass(reason),
            Detour::Error(error) => detour == Detour::<SocketAddr>::Error(error),
        },
{
}

/// The program's buffer gets the bytes of the address from the front, as many as it says that it has
/// room for, and keeps its other bytes. The length that is reported is that of the whole address.
pub proof fn law_address_is_filled_in(new_address: SockAddr, detour: Detour<i32>)
    ensures
        forall|buffer: &mut [u8], room: &mut u32| #[trigger]
            call_ensures(fill_address, (Some(buffer), Some(room), &new_address), detour)
                && (*room <= buffer@.len() || new_address.bytes@.len() <= buffer@.len()) ==> {
                &&& detour == Detour::<i32>::Success(0)
                &&& *final(room) == new_address.bytes@.len()
                &&& final(buffer)@.len() == buffer@.len()
                &&& forall|i: int|
                    0 <= i < buffer@.len() ==> #[trigger] final(buffer)@[i] == (if i < *room && i
                        < new_address.bytes@.len() {
                        new_address.bytes@[i]
                    } else {
                        buffer@[i]
                    })
            },
        forall|buffer: &mut [u8]| #[trigger]
            call_ensures(fill_address, (Some(buffer), None, &new_address), detour) ==> {
                &&& detour == Detour::<i32>::Error(HookError::NullPointer)
                &&& final(buffer)@ == buffer@
            },
        forall|room: &mut u32| #[trigger]
            call_ensures(fill_address, (None, Some(room), &new_address), detour) ==> {
                &&& detour == Detour::<i32>::Success(0)
                &&& *final(room) == *room
            },
        call_ensures(fill_address, (None, None, &new_address), detour) ==> detour == Detour::<
            i32,
        >::Success(0),
{
}

} // verus!
