//! Filters over outgoing connections, and the rules by which they match.
use crate::address::{IpAddr, SocketAddr, Subnet};
use vstd::prelude::*;

verus! {

/// The protocol of a connection, as a value that can stand in a const generic.
pub type ConnectProtocol = bool;

/// The connection is made over TCP.
pub const TCP: ConnectProtocol = false;

/// The connection is made over UDP.
pub const UDP: ConnectProtocol = true;

/// The protocols that a filter speaks of.
#[derive(Debug, Clone, Copy, PartialEq, Eq, Structural)]
pub enum ProtocolFilter {
    Any,
    Tcp,
    Udp,
}

/// The destinations that a filter speaks of.
#[derive(Debug)]
pub enum AddressFilter {
    /// One socket address, in which `0.0.0.0` (or `::`) means any IP and `:0` means any port.
    Socket(SocketAddr),
    /// A host name with a port. It matches nothing until the name is resolved.
    Name(String, u16),
    /// The addresses of a subnet with a port, in which `:0` means any port.
    Subnet(Subnet, u16),
}

/// A rule that singles out outgoing connections.
#[derive(Debug)]
pub struct OutgoingFilter {
    pub protocol: ProtocolFilter,
    pub address: AddressFilter,
}

/// What an [`AddressFilter`] says.
pub enum AddressModel {
    Socket(SocketAddr),
    Name(Seq<char>, u16),
    Subnet(Subnet, u16),
}

/// What an [`OutgoingFilter`] says.
pub struct FilterModel {
    pub protocol: ProtocolFilter,
    pub address: AddressModel,
}

impl View for AddressFilter {
    type V = AddressModel;

    open spec fn view(&self) -> AddressModel {
        match *self {
            AddressFilter::Socket(address) => AddressModel::Socket(address),
            AddressFilter::Name(name, port) => AddressModel::Name(name@, port),
            AddressFilter::Subnet(subnet, port) => AddressModel::Subnet(subnet, port),
        }
    }
}

impl View for OutgoingFilter {
    type V = FilterModel;

    open spec fn view(&self) -> FilterModel {
        FilterModel { protocol: self.protocol, address: self.address@ }
    }
}

impl ProtocolFilter {
    /// The filter speaks of connections made over `protocol`.
    pub open spec fn spec_admits(self, protocol: ConnectProtocol) -> bool {
        match self {
            ProtocolFilter::Any => true,
            ProtocolFilter::Tcp => protocol == TCP,
            ProtocolFilter::Udp => protocol == UDP,
        }
    }

    /// Some protocol that the filter speaks of is enabled for outgoing traffic.
    pub open spec fn spec_is_enabled(self, enabled_tcp: bool, enabled_udp: bool) -> bool {
        match self {
            ProtocolFilter::Any => enabled_tcp || enabled_udp,
            ProtocolFilter::Tcp => enabled_tcp,
            ProtocolFilter::Udp => enabled_udp,
        }
    }

    /// Tells whether the filter speaks of connections made over `protocol`.
    pub fn admits(&self, protocol: ConnectProtocol) -> (admitted: bool)
        ensures
            admitted == self.spec_admits(protocol),
    {
        match *self {
            ProtocolFilter::Any => true,
            ProtocolFilter::Tcp => protocol == TCP,
            ProtocolFilter::Udp => protocol == UDP,
        }
    }

    /// Tells whether some protocol that the filter speaks of is enabled for outgoing traffic.
    pub fn is_enabled(&self, enabled_tcp: bool, enabled_udp: bool) -> (enabled: bool)
        ensures
            enabled == self.spec_is_enabled(enabled_tcp, enabled_udp),
    {
        match *self {
            ProtocolFilter::Any => enabled_tcp || enabled_udp,
            ProtocolFilter::Tcp => enabled_tcp,
            ProtocolFilter::Udp => enabled_udp,
        }
    }
}

/// The socket address `select` of a filter matches `address`: its IP is a wildcard and its port is
/// one too or agrees, its port is a wildcard and the IPs agree, or the two are the same socket
/// address.
pub open spec fn socket_matches(select: SocketAddr, address: SocketAddr) -> bool {
    let any_ip = select.spec_ip().spec_is_unspecified();
    let any_port = select.spec_port() == 0;
    ||| any_ip && (any_port || select.spec_port() == address.spec_port())
    ||| any_port && select.spec_ip() == address.spec_ip()
    ||| select == address
}

impl AddressModel {
    /// The filter matches `address`. A name matches nothing: it has to be resolved first.
    pub open spec fn matches_address(self, address: SocketAddr) -> bool {
        match self {
            AddressModel::Socket(select) => socket_matches(select, address),
            AddressModel::Name(_, _) => false,
            AddressModel::Subnet(subnet, port) => subnet.spec_contains(address.spec_ip()) && (port
                == 0 || port == address.spec_port()),
        }
    }
}

impl FilterModel {
    /// The filter singles out a connection to `address` over `protocol`.
    pub open spec fn selects(self, protocol: ConnectProtocol, address: SocketAddr) -> bool {
        self.protocol.spec_admits(protocol) && self.address.matches_address(address)
    }
}

impl AddressFilter {
    /// Tells whether the filter matches `address`.
    pub fn matches(&self, address: &SocketAddr) -> (matched: bool)
        ensures
            matched == self@.matches_address(*address),
    {
        match self {
            AddressFilter::Socket(select) => {
                (select.ip().is_unspecified() && select.port() == 0) || (
                select.ip().is_unspecified() && select.port() == address.port()) || (select.port()
                    == 0 && select.ip() == address.ip()) || *select == *address
            },
            AddressFilter::Name(_, _) => false,
            AddressFilter::Subnet(subnet, port) => {
                subnet.contains(&address.ip()) && (*port == 0 || *port == address.port())
            },
        }
    }
}

impl OutgoingFilter {
    /// Tells whether the filter singles out a connection to `address` over `protocol`.
    pub fn selects(&self, protocol: ConnectProtocol, address: &SocketAddr) -> (selected: bool)
        ensures
            selected == self@.selects(protocol, *address),
    {
        self.protocol.admits(protocol) && self.address.matches(address)
    }
}

impl Clone for AddressFilter {
    fn clone(&self) -> (copy: Self)
        ensures
            copy@ == self@,
    {
        match self {
            AddressFilter::Socket(address) => AddressFilter::Socket(*address),
            AddressFilter::Name(name, port) => AddressFilter::Name(name.clone(), *port),
            AddressFilter::Subnet(subnet, port) => AddressFilter::Subnet(*subnet, *port),
        }
    }
}

impl Clone for OutgoingFilter {
    fn clone(&self) -> (copy: Self)
        ensures
            copy@ == self@,
    {
        OutgoingFilter { protocol: self.protocol, address: self.address.clone() }
    }
}

/// `0.0.0.0` and `::` mean any IP: such a filter matches exactly the addresses with its port, and
/// every address if its port is 0.
pub proof fn law_unspecified_ip_means_any_ip(select: SocketAddr, address: SocketAddr)
    requires
        select.spec_ip().spec_is_unspecified(),
    ensures
        AddressModel::Socket(select).matches_address(address) <==> (select.spec_port() == 0
            || select.spec_port() == address.spec_port()),
{
}

/// `:0` means any port: such a filter matches exactly the addresses with its IP, and every address
/// if its IP is unspecified.
pub proof fn law_port_zero_means_any_port(select: SocketAddr, address: SocketAddr)
    requires
        select.spec_port() == 0,
    ensures
        AddressModel::Socket(select).matches_address(address) <==> (
        select.spec_ip().spec_is_unspecified() || select.spec_ip() == address.spec_ip()),
{
}

/// A filter with an IP and a port of its own matches the one socket address that it holds.
pub proof fn law_specific_socket_matches_itself_alone(select: SocketAddr, address: SocketAddr)
    requires
        select.spec_port() != 0,
        !select.spec_ip().spec_is_unspecified(),
    ensures
        AddressModel::Socket(select).matches_address(address) <==> select == address,
{
}

/// A subnet filter with a port of its own matches exactly the addresses of the subnet with that very
/// port, neither a lower nor a higher one.
pub proof fn law_subnet_filter_with_a_port_matches_that_port(
    subnet: Subnet,
    port: u16,
    address: SocketAddr,
)
    requires
        port != 0,
    ensures
        AddressModel::Subnet(subnet, port).matches_address(address) <==> match address {
            SocketAddr::V4 { ip, port: number } => number == port && subnet.spec_contains(
                IpAddr::V4(ip),
            ),
            SocketAddr::V6 { ip, port: number, .. } => number == port && subnet.spec_contains(
                IpAddr::V6(ip),
            ),
        },
{
}

/// A subnet filter with port 0 matches every address of the subnet, whatever its port, and no other
/// address.
pub proof fn law_subnet_filter_with_port_zero_matches_every_port(
    subnet: Subnet,
    address: SocketAddr,
)
    ensures
        AddressModel::Subnet(subnet, 0).matches_address(address) <==> match address {
            SocketAddr::V4 { ip, .. } => subnet.spec_contains(IpAddr::V4(ip)),
            SocketAddr::V6 { ip, .. } => subnet.spec_contains(IpAddr::V6(ip)),
        },
{
}

/// A name matches no address, whatever its port.
pub proof fn law_name_filter_matches_nothing(name: Seq<char>, port: u16, address: SocketAddr)
    ensures
        !AddressModel::Name(name, port).matches_address(address),
{
}

/// What a filter says is what it holds.
pub proof fn law_models_of_filters(
    protocol: ProtocolFilter,
    socket: SocketAddr,
    name: String,
    subnet: Subnet,
    port: u16,
)
    ensures
        (OutgoingFilter { protocol, address: AddressFilter::Socket(socket) })@ == (FilterModel {
            protocol,
            address: AddressModel::Socket(socket),
        }),
        (OutgoingFilter { protocol, address: AddressFilter::Name(name, port) })@ == (FilterModel {
            protocol,
            address: AddressModel::Name(name@, port),
        }),
        (OutgoingFilter { protocol, address: AddressFilter::Subnet(subnet, port) })@ == (
        FilterModel { protocol, address: AddressModel::Subnet(subnet, port) }),
        AddressFilter::Socket(socket)@ == AddressModel::Socket(socket),
        AddressFilter::Name(name, port)@ == AddressModel::Name(name@, port),
        AddressFilter::Subnet(subnet, port)@ == AddressModel::Subnet(subnet, port),
{
}

/// Of two IPv4 socket addresses, the first matches the second if each of its two parts is 0 or the
/// same. An IPv4 filter reaches IPv6 addresses by its wildcard alone, and the other way round. Of
/// two IPv6 socket addresses with an IP and a port of their own, the flow information and the scope
/// count too.
pub proof fn law_socket_filter_in_parts(select: SocketAddr, address: SocketAddr, matched: bool)
    requires
        call_ensures(AddressFilter::matches, (&AddressFilter::Socket(select), &address), matched),
    ensures
        match (select, address) {
            (SocketAddr::V4 { ip, port }, SocketAddr::V4 { ip: to, port: at }) => matched <==> (ip
                == 0 || ip == to) && (port == 0 || port == at),
            (SocketAddr::V4 { ip, port }, SocketAddr::V6 { port: at, .. }) => matched <==> ip == 0
                && (port == 0 || port == at),
            (SocketAddr::V6 { ip, port, .. }, SocketAddr::V4 { port: at, .. }) => matched <==> ip
                == 0 && (port == 0 || port == at),
            (
                SocketAddr::V6 { ip, port, flowinfo, scope_id },
                SocketAddr::V6 { ip: to, port: at, flowinfo: flow, scope_id: scope },
            ) => matched <==> if ip == 0 {
                port == 0 || port == at
            } else if port == 0 {
                ip == to
            } else {
                ip == to && port == at && flowinfo == flow && scope_id == scope
            },
        },
        matched == AddressModel::Socket(select).matches_address(address),
{
}

/// The answer for a subnet or a name is that of what the filter says, in the parts of the address: a
/// name is never matched, and a subnet is by its addresses and its port.
pub proof fn law_subnets_and_names_in_parts(
    subnet: Subnet,
    name: String,
    port: u16,
    address: SocketAddr,
    subnet_matched: bool,
    name_matched: bool,
    contained: bool,
)
    requires
        call_ensures(
            AddressFilter::matches,
            (&AddressFilter::Subnet(subnet, port), &address),
            subnet_matched,
        ),
        call_ensures(
            AddressFilter::matches,
            (&AddressFilter::Name(name, port), &address),
            name_matched,
        ),
        match address {
            SocketAddr::V4 { ip, .. } => call_ensures(
                Subnet::contains,
                (&subnet, &IpAddr::V4(ip)),
                contained,
            ),
            SocketAddr::V6 { ip, .. } => call_ensures(
                Subnet::contains,
                (&subnet, &IpAddr::V6(ip)),
                contained,
            ),
        },
    ensures
        !name_matched,
        match address {
            SocketAddr::V4 { port: at, .. } => subnet_matched <==> contained && (port == 0 || port
                == at),
            SocketAddr::V6 { port: at, .. } => subnet_matched <==> contained && (port == 0 || port
                == at),
        },
{
}

/// A filter for any protocol speaks of TCP and of UDP, and every other filter of its own protocol
/// alone. `false` stands for TCP and `true` for UDP.
pub proof fn law_protocols_that_filters_admit(
    filter: ProtocolFilter,
    protocol: ConnectProtocol,
    admitted: bool,
)
    requires
        call_ensures(ProtocolFilter::admits, (&filter, protocol), admitted),
    ensures
        TCP == false,
        UDP == true,
        filter is Any ==> admitted,
        filter is Tcp ==> (admitted <==> !protocol),
        filter is Udp ==> (admitted <==> protocol),
        admitted == filter.spec_admits(protocol),
{
}

/// A filter for one protocol is kept if that protocol is enabled, whatever the other, and a filter
/// for any protocol unless both are disabled.
pub proof fn law_protocols_that_keep_filters(
    filter: ProtocolFilter,
    enabled_tcp: bool,
    enabled_udp: bool,
    enabled: bool,
)
    requires
        call_ensures(ProtocolFilter::is_enabled, (&filter, enabled_tcp, enabled_udp), enabled),
    ensures
        filter is Tcp ==> enabled == enabled_tcp,
        filter is Udp ==> enabled == enabled_udp,
        filter is Any ==> (!enabled <==> !enabled_tcp && !enabled_udp),
        enabled == filter.spec_is_enabled(enabled_tcp, enabled_udp),
{
}

/// A filter is kept exactly if some connection over an enabled protocol is one that it speaks of.
pub proof fn law_kept_filters_can_be_used(
    filter: ProtocolFilter,
    enabled_tcp: bool,
    enabled_udp: bool,
)
    ensures
        filter.spec_is_enabled(enabled_tcp, enabled_udp) <==> (enabled_tcp && filter.spec_admits(
            false,
        ) || enabled_udp && filter.spec_admits(true)),
{
}

/// A filter singles out a connection if it matches the address, over both protocols if it is for any
/// of them, and over its own protocol alone otherwise.
pub proof fn law_filters_select_by_protocol_and_address(
    filter: OutgoingFilter,
    address: SocketAddr,
    over_tcp: bool,
    over_udp: bool,
    matched: bool,
)
    requires
        call_ensures(OutgoingFilter::selects, (&filter, false, &address), over_tcp),
        call_ensures(OutgoingFilter::selects, (&filter, true, &address), over_udp),
        call_ensures(AddressFilter::matches, (&filter.address, &address), matched),
    ensures
        filter.protocol is Any ==> over_tcp == matched && over_udp == matched,
        filter.protocol is Tcp ==> over_tcp == matched && !over_udp,
        filter.protocol is Udp ==> !over_tcp && over_udp == matched,
        over_tcp == filter@.selects(false, address),
        over_udp == filter@.selects(true, address),
{
}

/// The same of what a filter says.
pub proof fn law_models_select_by_protocol_and_address(filter: FilterModel, address: SocketAddr)
    ensures
        filter.selects(false, address) <==> !(filter.protocol is Udp)
            && filter.address.matches_address(address),
        filter.selects(true, address) <==> !(filter.protocol is Tcp)
            && filter.address.matches_address(address),
{
}

} // verus!
