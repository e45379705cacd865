//! Internet addresses, socket addresses and subnets as plain values.
use vstd::arithmetic::power2::pow2;
use vstd::prelude::*;

verus! {

/// The address `127.0.0.1`.
pub const IPV4_LOCALHOST: u32 = 0x7f00_0001;

/// The address `::1`.
pub const IPV6_LOCALHOST: u128 = 1;

/// An IP address, as the number that its bytes spell in network order.
#[derive(Debug, Clone, Copy, PartialEq, Eq, Structural)]
pub enum IpAddr {
    V4(u32),
    V6(u128),
}

impl IpAddr {
    /// `0.0.0.0` or `::`, the address that stands for any address.
    pub open spec fn spec_is_unspecified(self) -> bool {
        match self {
            IpAddr::V4(bits) => bits == 0,
            IpAddr::V6(bits) => bits == 0,
        }
    }

    /// `127.0.0.1` or `::1`.
    pub open spec fn spec_is_localhost(self) -> bool {
        self == IpAddr::V4(IPV4_LOCALHOST) || self == IpAddr::V6(IPV6_LOCALHOST)
    }

    /// Tells whether this is `0.0.0.0` or `::`.
    pub fn is_unspecified(&self) -> (unspecified: bool)
        ensures
            unspecified == self.spec_is_unspecified(),
    {
        match *self {
            IpAddr::V4(bits) => bits == 0,
            IpAddr::V6(bits) => bits == 0,
        }
    }
}

/// An IP address with a port. The IPv6 form also has the flow information and the scope that belong
/// to its socket address.
#[allow(inconsistent_fields)]
#[derive(Debug, Clone, Copy, PartialEq, Eq, Structural)]
pub enum SocketAddr {
    V4 { ip: u32, port: u16 },
    V6 { ip: u128, port: u16, flowinfo: u32, scope_id: u32 },
}

impl SocketAddr {
    /// The IP address.
    pub open spec fn spec_ip(self) -> IpAddr {
        match self {
            SocketAddr::V4 { ip, .. } => IpAddr::V4(ip),
            SocketAddr::V6 { ip, .. } => IpAddr::V6(ip),
        }
    }

    /// The port.
    pub open spec fn spec_port(self) -> u16 {
        match self {
            SocketAddr::V4 { port, .. } => port,
            SocketAddr::V6 { port, .. } => port,
        }
    }

    /// The socket address of `ip` and `port`, with no flow information and no scope.
    pub open spec fn spec_new(ip: IpAddr, port: u16) -> SocketAddr {
        match ip {
            IpAddr::V4(ip) => SocketAddr::V4 { ip, port },
            IpAddr::V6(ip) => SocketAddr::V6 { ip, port, flowinfo: 0, scope_id: 0 },
        }
    }

    /// Joins `ip` and `port`, with no flow information and no scope.
    pub fn new(ip: IpAddr, port: u16) -> (address: SocketAddr)
        ensures
            address == Self::spec_new(ip, port),
    {
        match ip {
            IpAddr::V4(ip) => SocketAddr::V4 { ip, port },
            IpAddr::V6(ip) => SocketAddr::V6 { ip, port, flowinfo: 0, scope_id: 0 },
        }
    }

    /// The IP address.
    pub fn ip(&self) -> (ip: IpAddr)
        ensures
            ip == self.spec_ip(),
    {
        match *self {
            SocketAddr::V4 { ip, .. } => IpAddr::V4(ip),
            SocketAddr::V6 { ip, .. } => IpAddr::V6(ip),
        }
    }

    /// The port.
    pub fn port(&self) -> (port: u16)
        ensures
            port == self.spec_port(),
    {
        match *self {
            SocketAddr::V4 { port, .. } => port,
            SocketAddr::V6 { port, .. } => port,
        }
    }

    /// Tells whether the IP address is an IPv4 address.
    pub fn is_ipv4(&self) -> (v4: bool)
        ensures
            v4 == (self is V4),
    {
        match *self {
            SocketAddr::V4 { .. } => true,
            SocketAddr::V6 { .. } => false,
        }
    }
}

/// The addresses whose first `prefix` bits are those of `ip`. The bits of `ip` behind the prefix
/// carry no meaning, and a prefix longer than the address is as good as the whole address.
#[allow(inconsistent_fields)]
#[derive(Debug, Clone, Copy, PartialEq, Eq, Structural)]
pub enum Subnet {
    V4 { ip: u32, prefix: u8 },
    V6 { ip: u128, prefix: u8 },
}

/// The number of bits behind a prefix of `prefix` bits in an address of `width` bits.
pub open spec fn host_bits(width: int, prefix: u8) -> nat {
    if prefix < width {
        (width - prefix) as nat
    } else {
        0
    }
}

impl Subnet {
    /// The address is of the subnet's family, and the two agree once the bits behind the prefix
    /// are dropped.
    pub open spec fn spec_contains(self, address: IpAddr) -> bool {
        match (self, address) {
            (Subnet::V4 { ip, prefix }, IpAddr::V4(bits)) => {
                let host = pow2(host_bits(32, prefix)) as int;
                ip as int / host == bits as int / host
            },
            (Subnet::V6 { ip, prefix }, IpAddr::V6(bits)) => {
                let host = pow2(host_bits(128, prefix)) as int;
                ip as int / host == bits as int / host
            },
            _ => false,
        }
    }

    /// Tells whether `address` lies in the subnet.
    pub fn contains(&self, address: &IpAddr) -> (contained: bool)
        ensures
            contained == self.spec_contains(*address),
    {
        match (*self, *address) {
            (Subnet::V4 { ip, prefix }, IpAddr::V4(bits)) => contains_v4(ip, prefix, bits),
            (Subnet::V6 { ip, prefix }, IpAddr::V6(bits)) => contains_v6(ip, prefix, bits),
            _ => false,
        }
    }
}

fn contains_v4(ip: u32, prefix: u8, bits: u32) -> (contained: bool)
    ensures
        contained == (Subnet::V4 { ip, prefix }).spec_contains(IpAddr::V4(bits)),
{
    if prefix == 0 {
        proof {
            vstd::arithmetic::power2::lemma2_to64();
            vstd::arithmetic::div_mod::lemma_basic_div(ip as int, pow2(32) as int);
            vstd::arithmetic::div_mod::lemma_basic_div(bits as int, pow2(32) as int);
        }
        true
    } else if prefix >= 32 {
        proof {
            vstd::arithmetic::power2::lemma2_to64();
            vstd::arithmetic::div_mod::lemma_div_basics(ip as int);
            vstd::arithmetic::div_mod::lemma_div_basics(bits as int);
        }
        ip == bits
    } else {
        let shift: u32 = 32 - prefix as u32;
        proof {
            vstd::bits::lemma_u32_shr_is_div(ip, shift);
            vstd::bits::lemma_u32_shr_is_div(bits, shift);
        }
        (ip >> shift) == (bits >> shift)
    }
}

fn contains_v6(ip: u128, prefix: u8, bits: u128) -> (contained: bool)
    ensures
        contained == (Subnet::V6 { ip, prefix }).spec_contains(IpAddr::V6(bits)),
{
    if prefix == 0 {
        proof {
            lemma_u128_below_pow2();
            vstd::arithmetic::div_mod::lemma_basic_div(ip as int, pow2(128) as int);
            vstd::arithmetic::div_mod::lemma_basic_div(bits as int, pow2(128) as int);
        }
        true
    } else if prefix >= 128 {
        proof {
            vstd::arithmetic::power2::lemma2_to64();
            vstd::arithmetic::div_mod::lemma_div_basics(ip as int);
            vstd::arithmetic::div_mod::lemma_div_basics(bits as int);
        }
        ip == bits
    } else {
        let shift: u128 = 128 - prefix as u128;
        proof {
            vstd::bits::lemma_u128_shr_is_div(ip, shift);
            vstd::bits::lemma_u128_shr_is_div(bits, shift);
        }
        (ip >> shift) == (bits >> shift)
    }
}

proof fn lemma_u128_below_pow2()
    ensures
        pow2(128) == u128::MAX + 1,
{
    vstd::arithmetic::power2::lemma2_to64();
    vstd::arithmetic::power2::lemma_pow2_adds(64, 64);
}

/// Ports that belong to the layer itself or to nobody: port 0, and the ports between 50000 and
/// 60000 of the local host.
pub open spec fn spec_is_ignored_port(address: SocketAddr) -> bool {
    ||| address.spec_port() == 0
    ||| address.spec_ip().spec_is_localhost() && 50000 < address.spec_port() < 60000
}

/// Tells whether connections to `addr` are none of the layer's business.
pub fn is_ignored_port(addr: &SocketAddr) -> (ignored: bool)
    ensures
        ignored == spec_is_ignored_port(*addr),
{
    let (ip, port) = (addr.ip(), addr.port());
    let ignored_ip = ip == IpAddr::V4(IPV4_LOCALHOST) || ip == IpAddr::V6(IPV6_LOCALHOST);
    port == 0 || ignored_ip && (port > 50000 && port < 60000)
}

/// A subnet with an empty prefix holds every address of its family, and only those.
pub proof fn law_empty_prefix_holds_the_family(ip4: u32, ip6: u128, address: IpAddr)
    ensures
        (Subnet::V4 { ip: ip4, prefix: 0 }).spec_contains(address) <==> address is V4,
        (Subnet::V6 { ip: ip6, prefix: 0 }).spec_contains(address) <==> address is V6,
{
    vstd::arithmetic::power2::lemma2_to64();
    lemma_u128_below_pow2();
    match address {
        IpAddr::V4(bits) => {
            vstd::arithmetic::div_mod::lemma_basic_div(ip4 as int, pow2(32) as int);
            vstd::arithmetic::div_mod::lemma_basic_div(bits as int, pow2(32) as int);
        },
        IpAddr::V6(bits) => {
            vstd::arithmetic::div_mod::lemma_basic_div(ip6 as int, pow2(128) as int);
            vstd::arithmetic::div_mod::lemma_basic_div(bits as int, pow2(128) as int);
        },
    }
}

/// A subnet whose prefix is the whole address holds that address alone.
pub proof fn law_full_prefix_holds_one_address(ip4: u32, ip6: u128, address: IpAddr)
    ensures
        (Subnet::V4 { ip: ip4, prefix: 32 }).spec_contains(address) <==> address == IpAddr::V4(ip4),
        (Subnet::V6 { ip: ip6, prefix: 128 }).spec_contains(address) <==> address == IpAddr::V6(
            ip6,
        ),
{
    vstd::arithmetic::power2::lemma2_to64();
    vstd::arithmetic::div_mod::lemma_div_basics(ip4 as int);
    vstd::arithmetic::div_mod::lemma_div_basics(ip6 as int);
    match address {
        IpAddr::V4(bits) => {
            vstd::arithmetic::div_mod::lemma_div_basics(bits as int);
        },
        IpAddr::V6(bits) => {
            vstd::arithmetic::div_mod::lemma_div_basics(bits as int);
        },
    }
}

/// The parts of a socket address are those that it is made of, and an address that is made of an IP
/// and a port has nothing else to it.
pub proof fn law_parts_of_addresses(
    ip4: u32,
    ip6: u128,
    port: u16,
    flowinfo: u32,
    scope_id: u32,
)
    ensures
        (SocketAddr::V4 { ip: ip4, port }).spec_ip() == IpAddr::V4(ip4),
        (SocketAddr::V4 { ip: ip4, port }).spec_port() == port,
        (SocketAddr::V6 { ip: ip6, port, flowinfo, scope_id }).spec_ip() == IpAddr::V6(ip6),
        (SocketAddr::V6 { ip: ip6, port, flowinfo, scope_id }).spec_port() == port,
        SocketAddr::spec_new(IpAddr::V4(ip4), port) == (SocketAddr::V4 { ip: ip4, port }),
        SocketAddr::spec_new(IpAddr::V6(ip6), port) == (SocketAddr::V6 {
            ip: ip6,
            port,
            flowinfo: 0,
            scope_id: 0,
        }),
{
}

/// The parts that the accessors give make up the address again, save for the flow information and
/// the scope.
pub proof fn law_accessors(
    address: SocketAddr,
    ip: IpAddr,
    port: u16,
    v4: bool,
    rebuilt: SocketAddr,
    unspecified: bool,
)
    requires
        call_ensures(SocketAddr::ip, (&address,), ip),
        call_ensures(SocketAddr::port, (&address,), port),
        call_ensures(SocketAddr::is_ipv4, (&address,), v4),
        call_ensures(SocketAddr::new, (ip, port), rebuilt),
        call_ensures(IpAddr::is_unspecified, (&ip,), unspecified),
    ensures
        match address {
            SocketAddr::V4 { ip: bits, port: number } => {
                &&& ip == IpAddr::V4(bits)
                &&& port == number
                &&& v4
                &&& rebuilt == address
                &&& unspecified == (bits == 0)
            },
            SocketAddr::V6 { ip: bits, port: number, .. } => {
                &&& ip == IpAddr::V6(bits)
                &&& port == number
                &&& !v4
                &&& rebuilt == (SocketAddr::V6 {
                    ip: bits,
                    port: number,
                    flowinfo: 0,
                    scope_id: 0,
                })
                &&& unspecified == (bits == 0)
            },
        },
{
}

/// No address but `0.0.0.0` and `::` is unspecified, and no address but `127.0.0.1` and `::1` is the
/// local host.
pub proof fn law_special_addresses(ip4: u32, ip6: u128)
    ensures
        IpAddr::V4(ip4).spec_is_unspecified() <==> ip4 == 0,
        IpAddr::V6(ip6).spec_is_unspecified() <==> ip6 == 0,
        IpAddr::V4(ip4).spec_is_localhost() <==> ip4 == 127 * 0x100_0000 + 1,
        IpAddr::V6(ip6).spec_is_localhost() <==> ip6 == 1,
{
}

/// Port 0 is ignored at every address, and the ports from 50001 to 59999 at `127.0.0.1` and at `::1`.
/// Every other port is the layer's business at every address: those up to 50000 and those from
/// 60000 on, and all but port 0 away from the local host.
pub proof fn law_ignored_ports(address: SocketAddr, ignored: bool)
    requires
        call_ensures(is_ignored_port, (&address,), ignored),
    ensures
        match address {
            SocketAddr::V4 { ip, port } => {
                &&& port == 0 ==> ignored
                &&& 1 <= port <= 50000 ==> !ignored
                &&& 50001 <= port <= 59999 ==> (ignored <==> ip == 0x7f00_0001)
                &&& 60000 <= port ==> !ignored
            },
            SocketAddr::V6 { ip, port, .. } => {
                &&& port == 0 ==> ignored
                &&& 1 <= port <= 50000 ==> !ignored
                &&& 50001 <= port <= 59999 ==> (ignored <==> ip == 1)
                &&& 60000 <= port ==> !ignored
            },
        },
        ignored == spec_is_ignored_port(address),
{
}

proof fn lemma_same_quotient_is_a_range(a: int, b: int, d: int)
    requires
        0 <= a,
        0 <= b,
        0 < d,
    ensures
        a / d == b / d <==> a - a % d <= b < a - a % d + d,
{
    vstd::arithmetic::div_mod::lemma_fundamental_div_mod(a, d);
    vstd::arithmetic::div_mod::lemma_fundamental_div_mod(b, d);
    vstd::arithmetic::div_mod::lemma_mod_bound(a, d);
    vstd::arithmetic::div_mod::lemma_mod_bound(b, d);
    let p = a / d;
    let q = b / d;
    assert(a - a % d == d * p);
    assert(b - b % d == d * q);
    if p < q {
        assert(d * p + d <= d * q) by (nonlinear_arith)
            requires
                p < q,
                0 < d,
        ;
    } else if q < p {
        assert(d * q + d <= d * p) by (nonlinear_arith)
            requires
                q < p,
                0 < d,
        ;
    }
}

/// A subnet of IPv4 addresses with a prefix of `prefix` bits holds the block of 2 to the power of
/// `32 - prefix` addresses in which its own IP lies, counted from a multiple of the size of the
/// block. It holds no IPv6 address.
pub proof fn law_ipv4_subnet_is_a_block(ip: u32, prefix: u8, address: IpAddr, contained: bool)
    requires
        prefix <= 32,
        call_ensures(Subnet::contains, (&(Subnet::V4 { ip, prefix }), &address), contained),
    ensures
        ({
            let size = pow2((32 - prefix) as nat) as int;
            let first = ip - ip as int % size;
            contained <==> (address matches IpAddr::V4(bits) && first <= bits < first + size)
        }),
        contained == (Subnet::V4 { ip, prefix }).spec_contains(address),
{
    vstd::arithmetic::power2::lemma_pow2_pos((32 - prefix) as nat);
    if let IpAddr::V4(bits) = address {
        lemma_same_quotient_is_a_range(
            ip as int,
            bits as int,
            pow2((32 - prefix) as nat) as int,
        );
    }
}

/// The same of a subnet of IPv6 addresses: it holds the block of 2 to the power of `128 - prefix`
/// addresses in which its own IP lies, and no IPv4 address.
pub proof fn law_ipv6_subnet_is_a_block(ip: u128, prefix: u8, address: IpAddr, contained: bool)
    requires
        prefix <= 128,
        call_ensures(Subnet::contains, (&(Subnet::V6 { ip, prefix }), &address), contained),
    ensures
        ({
            let size = pow2((128 - prefix) as nat) as int;
            let first = ip - ip as int % size;
            contained <==> (address matches IpAddr::V6(bits) && first <= bits < first + size)
        }),
        contained == (Subnet::V6 { ip, prefix }).spec_contains(address),
{
    vstd::arithmetic::power2::lemma_pow2_pos((128 - prefix) as nat);
    if let IpAddr::V6(bits) = address {
        lemma_same_quotient_is_a_range(
            ip as int,
            bits as int,
            pow2((128 - prefix) as nat) as int,
        );
    }
}

/// A prefix that is longer than the address is as good as the whole address.
pub proof fn law_overlong_prefix_is_the_whole_address(
    ip4: u32,
    ip6: u128,
    prefix: u8,
    address: IpAddr,
)
    ensures
        prefix >= 32 ==> ((Subnet::V4 { ip: ip4, prefix }).spec_contains(address) <==> address
            == IpAddr::V4(ip4)),
        prefix >= 128 ==> ((Subnet::V6 { ip: ip6, prefix }).spec_contains(address) <==> address
            == IpAddr::V6(ip6)),
{
    law_full_prefix_holds_one_address(ip4, ip6, address);
}

} // verus!
