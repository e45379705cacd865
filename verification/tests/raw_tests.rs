use layer_socket::address::{IpAddr, SocketAddr};
use layer_socket::detour::{Bypass, Detour, HookError};
use layer_socket::raw::{fill_address, internet_from_raw, SockAddr};

fn address() -> SockAddr {
    SockAddr { bytes: vec![1, 2, 3, 4] }
}

#[test]
fn address_that_fits_is_copied_whole() {
    let mut buffer = [9u8; 6];
    let mut len: u32 = 6;
    let detour = fill_address(Some(&mut buffer[..]), Some(&mut len), &address());
    assert!(matches!(detour, Detour::Success(0)));
    assert_eq!(buffer, [1, 2, 3, 4, 9, 9]);
    assert_eq!(len, 4);
}

#[test]
fn address_is_cut_where_the_room_ends() {
    let mut buffer = [9u8; 6];
    let mut len: u32 = 3;
    let detour = fill_address(Some(&mut buffer[..]), Some(&mut len), &address());
    assert!(matches!(detour, Detour::Success(0)));
    assert_eq!(buffer, [1, 2, 3, 9, 9, 9]);
    assert_eq!(len, 4);
}

#[test]
fn no_room_gets_no_bytes() {
    let mut len: u32 = 0;
    let detour = fill_address(Some(&mut []), Some(&mut len), &address());
    assert!(matches!(detour, Detour::Success(0)));
    assert_eq!(len, 4);
}

#[test]
fn null_address_wants_nothing() {
    let mut len: u32 = 6;
    assert!(matches!(fill_address(None, Some(&mut len), &address()), Detour::Success(0)));
    assert_eq!(len, 6);
    assert!(matches!(fill_address(None, None, &address()), Detour::Success(0)));
}

#[test]
fn null_length_is_an_error() {
    let mut buffer = [9u8; 6];
    let detour = fill_address(Some(&mut buffer[..]), None, &address());
    assert!(matches!(detour, Detour::Error(HookError::NullPointer)));
    assert_eq!(buffer, [9; 6]);
}

fn parse_like<T: std::str::FromStr>(_: Option<T>, text: &str) -> Option<T> {
    text.parse().ok()
}

fn unix() -> socket2::SockAddr {
    socket2::SockAddr::unix("/tmp/socket").unwrap()
}

fn system(text: &str) -> socket2::SockAddr {
    socket2::SockAddr::from(parse_like(unix().as_socket(), text).unwrap())
}

#[test]
fn raw_address_that_was_not_copied() {
    assert!(matches!(SockAddr::try_from_raw(None), Detour::Bypass(Bypass::AddressConversion)));
    let system = system("1.2.3.4:80");
    match SockAddr::try_from_raw(Some(system.clone())) {
        Detour::Success(copied) => assert_eq!(copied, system),
        _ => panic!("the copy is there"),
    }
}

#[test]
fn internet_address_of_either_family() {
    assert!(matches!(
        internet_from_raw(Detour::Success(system("1.2.3.4:8080"))),
        Detour::Success(address) if address == SocketAddr::V4 { ip: 0x0102_0304, port: 8080 }
    ));
    let expected = SocketAddr::V6 { ip: 0xfe80 << 112 | 7, port: 443, flowinfo: 0, scope_id: 3 };
    assert!(matches!(
        internet_from_raw(Detour::Success(system("[fe80::7%3]:443"))),
        Detour::Success(address) if address == expected
    ));
}

#[test]
fn address_of_the_file_system_is_left_to_the_system() {
    assert!(matches!(
        internet_from_raw(Detour::Success(unix())),
        Detour::Bypass(Bypass::AddressConversion)
    ));
}

#[test]
fn reading_ends_as_the_taking_ended() {
    assert!(matches!(
        internet_from_raw(SockAddr::try_from_raw(None)),
        Detour::Bypass(Bypass::AddressConversion)
    ));
    assert!(matches!(
        internet_from_raw(Detour::Bypass(Bypass::EmptyOption)),
        Detour::Bypass(Bypass::EmptyOption)
    ));
    assert!(matches!(
        internet_from_raw(Detour::Error(HookError::NullPointer)),
        Detour::Error(HookError::NullPointer)
    ));
}

#[test]
fn raw_address_of_another_family() {
    let ip = SocketAddr::new(IpAddr::V4(1), 80);
    assert!(matches!(
        SocketAddr::try_from_raw(Detour::Success(Some(ip))),
        Detour::Success(address) if address == ip
    ));
    assert!(matches!(
        SocketAddr::try_from_raw(Detour::Success(None)),
        Detour::Bypass(Bypass::AddressConversion)
    ));
    assert!(matches!(
        SocketAddr::try_from_raw(Detour::Bypass(Bypass::EmptyOption)),
        Detour::Bypass(Bypass::EmptyOption)
    ));
    assert!(matches!(
        SocketAddr::try_from_raw(Detour::Error(HookError::NullPointer)),
        Detour::Error(HookError::NullPointer)
    ));
}
