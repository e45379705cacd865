use layer_socket::address::{is_ignored_port, IpAddr, SocketAddr, Subnet};

fn v4(ip: [u8; 4], port: u16) -> SocketAddr {
    SocketAddr::V4 { ip: u32::from_be_bytes(ip), port }
}

fn ip4(ip: [u8; 4]) -> IpAddr {
    IpAddr::V4(u32::from_be_bytes(ip))
}

fn net4(ip: [u8; 4], prefix: u8) -> Subnet {
    Subnet::V4 { ip: u32::from_be_bytes(ip), prefix }
}

#[test]
fn socket_address_parts() {
    let address = SocketAddr::new(IpAddr::V6(1), 80);
    assert_eq!(address, SocketAddr::V6 { ip: 1, port: 80, flowinfo: 0, scope_id: 0 });
    assert_eq!(address.ip(), IpAddr::V6(1));
    assert_eq!(address.port(), 80);
    assert!(!address.is_ipv4());
    assert!(v4([1, 2, 3, 4], 5).is_ipv4());
    assert_eq!(v4([1, 2, 3, 4], 5).port(), 5);
    assert_eq!(v4([1, 2, 3, 4], 5).ip(), ip4([1, 2, 3, 4]));
    assert_eq!(SocketAddr::new(ip4([1, 2, 3, 4]), 5), v4([1, 2, 3, 4], 5));
}

#[test]
fn unspecified_addresses() {
    assert!(IpAddr::V4(0).is_unspecified());
    assert!(IpAddr::V6(0).is_unspecified());
    assert!(!ip4([127, 0, 0, 1]).is_unspecified());
    assert!(!IpAddr::V6(0xffff_0000_0000).is_unspecified());
}

#[test]
fn port_zero_is_ignored() {
    assert!(is_ignored_port(&v4([10, 0, 0, 1], 0)));
    assert!(is_ignored_port(&SocketAddr::new(IpAddr::V6(7), 0)));
}

#[test]
fn high_ports_of_localhost_are_ignored() {
    assert!(!is_ignored_port(&v4([127, 0, 0, 1], 50000)));
    assert!(is_ignored_port(&v4([127, 0, 0, 1], 50001)));
    assert!(is_ignored_port(&v4([127, 0, 0, 1], 59999)));
    assert!(!is_ignored_port(&v4([127, 0, 0, 1], 60000)));
    assert!(is_ignored_port(&SocketAddr::new(IpAddr::V6(1), 55555)));
    assert!(!is_ignored_port(&v4([127, 0, 0, 2], 55555)));
    assert!(!is_ignored_port(&v4([10, 0, 0, 1], 80)));
}

#[test]
fn subnet_by_prefix() {
    let net = net4([10, 1, 2, 3], 8);
    assert!(net.contains(&ip4([10, 255, 0, 1])));
    assert!(!net.contains(&ip4([11, 1, 2, 3])));
    let odd = net4([192, 168, 4, 0], 23);
    assert!(odd.contains(&ip4([192, 168, 5, 255])));
    assert!(!odd.contains(&ip4([192, 168, 6, 0])));
    assert!(!net.contains(&IpAddr::V6(u32::from_be_bytes([10, 1, 2, 3]) as u128)));
}

#[test]
fn subnet_with_empty_prefix_holds_its_family() {
    assert!(net4([10, 0, 0, 0], 0).contains(&ip4([255, 1, 2, 3])));
    assert!(!net4([10, 0, 0, 0], 0).contains(&IpAddr::V6(9)));
    let net = Subnet::V6 { ip: 5, prefix: 0 };
    assert!(net.contains(&IpAddr::V6(u128::MAX)));
    assert!(!net.contains(&IpAddr::V4(5)));
}

#[test]
fn subnet_with_full_prefix_holds_one_address() {
    assert!(net4([10, 0, 0, 1], 32).contains(&ip4([10, 0, 0, 1])));
    assert!(!net4([10, 0, 0, 1], 32).contains(&ip4([10, 0, 0, 0])));
    assert!(Subnet::V6 { ip: 6, prefix: 128 }.contains(&IpAddr::V6(6)));
    assert!(!Subnet::V6 { ip: 6, prefix: 128 }.contains(&IpAddr::V6(7)));
}

#[test]
fn subnet_of_ipv6() {
    let net = Subnet::V6 { ip: 0xfe80_0000_0000_0000_0000_0000_0000_0001, prefix: 64 };
    assert!(net.contains(&IpAddr::V6(0xfe80_0000_0000_0000_ffff_0000_0000_0002)));
    assert!(!net.contains(&IpAddr::V6(0xfe80_0000_0000_0001_0000_0000_0000_0001)));
}
