use layer_socket::address::{IpAddr, SocketAddr, Subnet};
use layer_socket::connect::{Connecting, ConnectionThrough};
use layer_socket::detour::{Bypass, Detour, HookError};
use layer_socket::filter::{AddressFilter, OutgoingFilter, ProtocolFilter, TCP, UDP};
use layer_socket::filter_set::FilterSet;
use layer_socket::resolve::{Query, Reply, Resolving};
use layer_socket::selector::OutgoingSelector;
use layer_socket::text::host_port;
use std::cell::RefCell;
use std::io::{Error, ErrorKind};

fn v4(ip: [u8; 4], port: u16) -> SocketAddr {
    SocketAddr::V4 { ip: u32::from_be_bytes(ip), port }
}

fn socket_filter(protocol: ProtocolFilter, address: SocketAddr) -> OutgoingFilter {
    OutgoingFilter { protocol, address: AddressFilter::Socket(address) }
}

fn name_filter(name: &str, port: u16) -> OutgoingFilter {
    OutgoingFilter {
        protocol: ProtocolFilter::Any,
        address: AddressFilter::Name(name.to_string(), port),
    }
}

fn set(filters: Vec<OutgoingFilter>) -> FilterSet {
    let mut set = FilterSet::new();
    for filter in filters {
        set.insert(filter);
    }
    set
}

/// A world in which one name is known, and which remembers what it was asked.
struct World {
    host: SocketAddr,
    hostname: Option<String>,
    local: Vec<SocketAddr>,
    asked: RefCell<Vec<String>>,
}

impl World {
    fn new() -> World {
        World {
            host: v4([9, 9, 9, 9], 1),
            hostname: None,
            local: vec![],
            asked: RefCell::new(vec![]),
        }
    }

    fn resolve(&self, query: Query) -> Reply {
        match query {
            Query::Remote { name, port } => {
                self.asked.borrow_mut().push(format!("remote {name} {port}"));
                if name == "missing" {
                    Reply::Remote(Err(HookError::Agent("no such host".to_string())))
                } else {
                    Reply::Remote(Ok(vec![(name, self.host)]))
                }
            }
            Query::Local { target } => {
                self.asked.borrow_mut().push(format!("local {target}"));
                if target.starts_with("missing") {
                    Reply::Local(Err(Error::from(ErrorKind::NotFound)))
                } else {
                    Reply::Local(Ok(vec![self.host]))
                }
            }
        }
    }

    fn lead<'a>(&self, connecting: Connecting<'a>) -> Detour<ConnectionThrough> {
        connecting.lead(
            |query| self.resolve(query),
            |key| {
                self.asked.borrow_mut().push(format!("lookup {key:?}"));
                self.hostname.clone()
            },
            |target| {
                self.asked.borrow_mut().push(format!("redirect {target}"));
                if self.local.is_empty() {
                    Err(Error::from(ErrorKind::NotFound))
                } else {
                    Ok(self.local.clone())
                }
            },
        )
    }

    fn tcp(&self, selector: &OutgoingSelector, address: SocketAddr) -> ConnectionThrough {
        match self.lead(selector.get_connection_through::<TCP>(address, true)) {
            Detour::Success(through) => through,
            _ => panic!("the connection failed"),
        }
    }

    fn udp(&self, selector: &OutgoingSelector, address: SocketAddr) -> ConnectionThrough {
        match self.lead(selector.get_connection_through::<UDP>(address, true)) {
            Detour::Success(through) => through,
            _ => panic!("the connection failed"),
        }
    }
}

#[test]
fn unfiltered_goes_through_the_agent() {
    let world = World::new();
    let address = v4([1, 2, 3, 4], 80);
    assert_eq!(world.tcp(&OutgoingSelector::Unfiltered, address), ConnectionThrough::Remote(address));
    assert!(world.asked.borrow().is_empty());
}

#[test]
fn remote_filter_on_a_port() {
    let world = World::new();
    let selector =
        OutgoingSelector::Remote(set(vec![socket_filter(ProtocolFilter::Any, v4([0; 4], 7777))]));
    let matching = v4([1, 2, 3, 4], 7777);
    let other = v4([1, 2, 3, 4], 7778);
    assert_eq!(world.tcp(&selector, matching), ConnectionThrough::Remote(matching));
    assert_eq!(world.tcp(&selector, other), ConnectionThrough::Local(other));
}

#[test]
fn local_filter_reverses_the_result() {
    let world = World::new();
    let selector =
        OutgoingSelector::Local(set(vec![socket_filter(ProtocolFilter::Any, v4([0; 4], 7777))]));
    let matching = v4([1, 2, 3, 4], 7777);
    let other = v4([1, 2, 3, 4], 7778);
    assert_eq!(world.tcp(&selector, matching), ConnectionThrough::Local(matching));
    assert_eq!(world.tcp(&selector, other), ConnectionThrough::Remote(other));
}

#[test]
fn wildcard_matches_every_connection() {
    let world = World::new();
    let wildcard = || set(vec![socket_filter(ProtocolFilter::Any, v4([0; 4], 0))]);
    for address in [v4([1, 2, 3, 4], 80), SocketAddr::new(IpAddr::V6(7), 1)] {
        let remote = OutgoingSelector::Remote(wildcard());
        assert_eq!(world.tcp(&remote, address), ConnectionThrough::Remote(address));
        assert_eq!(world.udp(&remote, address), ConnectionThrough::Remote(address));
        let local = OutgoingSelector::Local(wildcard());
        assert_eq!(world.tcp(&local, address), ConnectionThrough::Local(address));
    }
}

#[test]
fn filters_speak_of_their_protocol_alone() {
    let world = World::new();
    let address = v4([1, 2, 3, 4], 53);
    let selector =
        OutgoingSelector::Remote(set(vec![socket_filter(ProtocolFilter::Udp, v4([0; 4], 53))]));
    assert_eq!(world.udp(&selector, address), ConnectionThrough::Remote(address));
    assert_eq!(world.tcp(&selector, address), ConnectionThrough::Local(address));
}

#[test]
fn subnet_filter() {
    let world = World::new();
    let selector = OutgoingSelector::Remote(set(vec![OutgoingFilter {
        protocol: ProtocolFilter::Tcp,
        address: AddressFilter::Subnet(
            Subnet::V4 { ip: u32::from_be_bytes([10, 0, 0, 0]), prefix: 8 },
            0,
        ),
    }]));
    let inside = v4([10, 1, 2, 3], 80);
    let outside = v4([11, 1, 2, 3], 80);
    assert_eq!(world.tcp(&selector, inside), ConnectionThrough::Remote(inside));
    assert_eq!(world.tcp(&selector, outside), ConnectionThrough::Local(outside));
}

#[test]
fn names_are_resolved_with_the_port_of_the_filter() {
    let world = World::new();
    let selector = OutgoingSelector::Remote(set(vec![name_filter("service", 8080)]));
    let matching = v4([9, 9, 9, 9], 8080);
    let other_port = v4([9, 9, 9, 9], 1);
    assert_eq!(world.tcp(&selector, matching), ConnectionThrough::Remote(matching));
    assert_eq!(world.tcp(&selector, other_port), ConnectionThrough::Local(other_port));
    assert_eq!(world.asked.borrow()[0], "remote service 8080");
}

#[test]
fn names_are_resolved_locally_without_remote_dns() {
    let world = World::new();
    let address = v4([9, 9, 9, 9], 8080);
    let remote = OutgoingSelector::Remote(set(vec![name_filter("service", 8080)]));
    let decision = world.lead(remote.get_connection_through::<TCP>(address, false));
    assert!(matches!(decision, Detour::Success(ConnectionThrough::Remote(a)) if a == address));
    let local = OutgoingSelector::Local(set(vec![name_filter("service", 8080)]));
    let decision = world.lead(local.get_connection_through::<TCP>(address, true));
    assert!(matches!(decision, Detour::Success(ConnectionThrough::Local(a)) if a == address));
    let asked = world.asked.borrow();
    assert_eq!(asked[0], "local service:8080");
    assert_eq!(asked[1], "local service:8080");
}

#[test]
fn every_name_is_asked_for_once() {
    let world = World::new();
    let selector = OutgoingSelector::Remote(set(vec![
        name_filter("a", 1),
        name_filter("b", 2),
        name_filter("a", 1),
        name_filter("a", 3),
        socket_filter(ProtocolFilter::Any, v4([0; 4], 0)),
    ]));
    let address = v4([1, 2, 3, 4], 80);
    assert_eq!(world.tcp(&selector, address), ConnectionThrough::Remote(address));
    let mut asked = world.asked.borrow().clone();
    asked.sort();
    assert_eq!(asked, vec!["remote a 1", "remote a 3", "remote b 2"]);
}

#[test]
fn unresolved_name_fails_the_connection() {
    let world = World::new();
    let filters = || {
        set(vec![name_filter("missing", 80), socket_filter(ProtocolFilter::Any, v4([0; 4], 0))])
    };
    let address = v4([1, 2, 3, 4], 80);
    let remote = OutgoingSelector::Remote(filters());
    assert!(matches!(
        world.lead(remote.get_connection_through::<TCP>(address, true)),
        Detour::Error(HookError::Agent(message)) if message == "no such host"
    ));
    let local = OutgoingSelector::Local(filters());
    assert!(matches!(
        world.lead(local.get_connection_through::<TCP>(address, true)),
        Detour::Error(HookError::IO(error)) if error.kind() == ErrorKind::NotFound
    ));
}

#[test]
fn resolution_collects_sockets() {
    let selector = OutgoingSelector::Local(set(vec![OutgoingFilter {
        protocol: ProtocolFilter::Udp,
        address: AddressFilter::Name("dns".to_string(), 53),
    }]));
    let resolution = match selector.resolve_dns::<true>(true) {
        Resolving::Ask(resolution) => resolution,
        Resolving::Done(_) => panic!("there is a name to resolve"),
    };
    assert!(matches!(
        resolution.query(),
        Query::Remote { name, port: 53 } if name == "dns"
    ));
    let v6 = SocketAddr::V6 { ip: 5, port: 9, flowinfo: 8, scope_id: 7 };
    let reply = Reply::Remote(Ok(vec![
        ("dns".to_string(), v4([1, 1, 1, 1], 0)),
        ("alias".to_string(), v6),
        ("dns".to_string(), v4([1, 1, 1, 1], 6)),
    ]));
    let resolved = match resolution.answer(reply) {
        Ok(Resolving::Done(resolved)) => resolved,
        _ => panic!("the only name is resolved"),
    };
    let mut expected = FilterSet::new();
    expected.insert(socket_filter(ProtocolFilter::Udp, v4([1, 1, 1, 1], 53)));
    expected.insert(socket_filter(ProtocolFilter::Udp, SocketAddr::new(IpAddr::V6(5), 53)));
    assert!(resolved.equals(&expected));
}

#[test]
fn led_resolution_collects_or_fails() {
    let world = World::new();
    let found = OutgoingSelector::Remote(set(vec![name_filter("a", 1), name_filter("b", 2)]));
    let resolved = found.resolve_dns::<true>(true).lead(|query| world.resolve(query)).unwrap();
    let mut expected = FilterSet::new();
    expected.insert(socket_filter(ProtocolFilter::Any, v4([9, 9, 9, 9], 1)));
    expected.insert(socket_filter(ProtocolFilter::Any, v4([9, 9, 9, 9], 2)));
    assert!(resolved.equals(&expected));
    let missing = OutgoingSelector::Remote(set(vec![name_filter("a", 1), name_filter("missing", 2)]));
    let failed = missing.resolve_dns::<false>(true).lead(|query| world.resolve(query));
    assert!(matches!(
        failed,
        Err(HookError::IO(error)) if error.kind() == ErrorKind::NotFound
    ));
}

#[test]
fn nothing_to_resolve() {
    let selectors = [
        OutgoingSelector::Unfiltered,
        OutgoingSelector::Remote(set(vec![socket_filter(ProtocolFilter::Any, v4([0; 4], 1))])),
    ];
    for selector in selectors {
        match selector.resolve_dns::<true>(true) {
            Resolving::Done(resolved) => assert!(resolved.equals(&FilterSet::new())),
            Resolving::Ask(_) => panic!("there is no name to resolve"),
        }
    }
}

#[test]
fn known_name_is_resolved_on_the_local_machine() {
    let mut world = World::new();
    world.hostname = Some("service".to_string());
    world.local = vec![
        SocketAddr::new(IpAddr::V6(1), 7778),
        v4([127, 0, 0, 1], 7778),
        v4([127, 0, 0, 2], 7778),
    ];
    let selector =
        OutgoingSelector::Remote(set(vec![socket_filter(ProtocolFilter::Any, v4([0; 4], 7777))]));
    let address = v4([10, 0, 0, 1], 7778);
    assert_eq!(world.tcp(&selector, address), ConnectionThrough::Local(v4([127, 0, 0, 1], 7778)));
    let asked = world.asked.borrow();
    assert_eq!(asked[0], format!("lookup {:?}", v4([10, 0, 0, 1], 0)));
    assert_eq!(asked[1], "redirect service:7778");
}

#[test]
fn agent_and_system_may_know_a_host_by_different_addresses() {
    let selector = OutgoingSelector::Remote(set(vec![name_filter("service", 80)]));
    let resolve = |query: Query| match query {
        Query::Remote { name, .. } => Reply::Remote(Ok(vec![(name, v4([10, 0, 0, 1], 0))])),
        Query::Local { .. } => Reply::Local(Ok(vec![v4([127, 0, 0, 1], 0)])),
    };
    let remote = selector.resolve_dns::<true>(true).lead(resolve).unwrap();
    let local = selector.resolve_dns::<true>(false).lead(resolve).unwrap();
    let only = |address| set(vec![socket_filter(ProtocolFilter::Any, address)]);
    assert!(remote.equals(&only(v4([10, 0, 0, 1], 80))));
    assert!(local.equals(&only(v4([127, 0, 0, 1], 80))));
}

#[test]
fn known_name_without_ipv4_address() {
    let mut world = World::new();
    world.hostname = Some("service".to_string());
    world.local = vec![SocketAddr::new(IpAddr::V6(1), 80)];
    let next = OutgoingSelector::get_local_address_to_connect(v4([10, 0, 0, 1], 80));
    assert!(matches!(
        world.lead(Connecting::Lookup(next)),
        Detour::Bypass(Bypass::EmptyOption)
    ));
}

#[test]
fn known_name_that_the_system_cannot_resolve() {
    let mut world = World::new();
    world.hostname = Some("service".to_string());
    let next = OutgoingSelector::get_local_address_to_connect(v4([10, 0, 0, 1], 80));
    assert!(matches!(
        world.lead(Connecting::Lookup(next)),
        Detour::Error(HookError::IO(error)) if error.kind() == ErrorKind::NotFound
    ));
}

#[test]
fn unknown_name_leaves_the_address() {
    let world = World::new();
    let address = SocketAddr::V6 { ip: 3, port: 80, flowinfo: 1, scope_id: 2 };
    let next = OutgoingSelector::get_local_address_to_connect(address);
    assert_eq!(next.key(), SocketAddr::V6 { ip: 3, port: 0, flowinfo: 0, scope_id: 0 });
    assert!(matches!(
        world.lead(Connecting::Lookup(next)),
        Detour::Success(ConnectionThrough::Local(a)) if a == address
    ));
}

#[test]
fn host_with_port_as_text() {
    assert_eq!(host_port(&"service".to_string(), 0), "service:0");
    assert_eq!(host_port(&"service".to_string(), 9), "service:9");
    assert_eq!(host_port(&"service".to_string(), 10), "service:10");
    assert_eq!(host_port(&"service".to_string(), 65535), "service:65535");
    assert_eq!(host_port(&"".to_string(), 8080), ":8080");
}
