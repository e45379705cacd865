use layer_socket::address::{IpAddr, SocketAddr, Subnet};
use layer_socket::detour::LayerError;
use layer_socket::filter::{AddressFilter, OutgoingFilter, ProtocolFilter, TCP, UDP};
use layer_socket::filter_set::FilterSet;
use layer_socket::selector::{build_filters, OutgoingFilterConfig, OutgoingSelector, ParsedFilter};

fn port_filter(protocol: ProtocolFilter, port: u16) -> OutgoingFilter {
    OutgoingFilter {
        protocol,
        address: AddressFilter::Socket(SocketAddr::new(IpAddr::V4(0), port)),
    }
}

/// Understands `tcp:PORT`, `udp:PORT`, `any:PORT` and `host:NAME`.
fn parse(entry: &String) -> ParsedFilter {
    let invalid = || LayerError::InvalidConfig(format!("cannot read {entry}"));
    let (kind, rest) = entry.split_once(':').ok_or_else(invalid)?;
    let protocol = match kind {
        "tcp" => ProtocolFilter::Tcp,
        "udp" => ProtocolFilter::Udp,
        "any" => ProtocolFilter::Any,
        "host" => {
            return Ok(OutgoingFilter {
                protocol: ProtocolFilter::Any,
                address: AddressFilter::Name(rest.to_string(), 80),
            });
        }
        _ => return Err(invalid()),
    };
    let port: u16 = rest.parse().map_err(|_| invalid())?;
    Ok(port_filter(protocol, port))
}

fn list(entries: &[&str]) -> Vec<String> {
    entries.iter().map(|entry| entry.to_string()).collect()
}

fn set(filters: Vec<OutgoingFilter>) -> FilterSet {
    let mut set = FilterSet::new();
    for filter in filters {
        set.insert(filter);
    }
    set
}

#[test]
fn no_configuration_means_no_filters() {
    let selector = OutgoingSelector::try_from(None, true, true, parse).unwrap();
    assert!(selector == OutgoingSelector::Unfiltered);
    assert!(selector == OutgoingSelector::default());
}

#[test]
fn empty_list_is_an_error() {
    for config in [OutgoingFilterConfig::Remote(vec![]), OutgoingFilterConfig::Local(vec![])] {
        match OutgoingSelector::try_from(Some(config), true, true, parse) {
            Err(LayerError::MissingConfigValue(message)) => {
                assert_eq!(message, "Outgoing traffic filter cannot be empty!")
            }
            _ => panic!("a list without entries was accepted"),
        }
    }
}

#[test]
fn first_entry_that_is_not_understood_decides() {
    let config = OutgoingFilterConfig::Remote(list(&["tcp:80", "tcp:x", "what"]));
    match OutgoingSelector::try_from(Some(config), true, true, parse) {
        Err(LayerError::InvalidConfig(message)) => assert_eq!(message, "cannot read tcp:x"),
        _ => panic!("an entry that makes no sense was accepted"),
    }
}

#[test]
fn filters_of_disabled_protocols_are_left_out() {
    let entries = list(&["tcp:1", "udp:2", "any:3"]);
    let tcp = || port_filter(ProtocolFilter::Tcp, 1);
    let udp = || port_filter(ProtocolFilter::Udp, 2);
    let any = || port_filter(ProtocolFilter::Any, 3);
    let cases = vec![
        (true, true, set(vec![tcp(), udp(), any()])),
        (true, false, set(vec![tcp(), any()])),
        (false, true, set(vec![udp(), any()])),
        (false, false, set(vec![])),
    ];
    for (enabled_tcp, enabled_udp, kept) in cases {
        let remote = OutgoingSelector::try_from(
            Some(OutgoingFilterConfig::Remote(entries.clone())),
            enabled_tcp,
            enabled_udp,
            parse,
        );
        assert!(remote.unwrap() == OutgoingSelector::Remote(kept.clone()));
        let local = OutgoingSelector::try_from(
            Some(OutgoingFilterConfig::Local(entries.clone())),
            enabled_tcp,
            enabled_udp,
            parse,
        );
        assert!(local.unwrap() == OutgoingSelector::Local(kept));
    }
}

#[test]
fn duplicates_count_once() {
    let entries = vec![
        Ok(port_filter(ProtocolFilter::Tcp, 1)),
        Ok(port_filter(ProtocolFilter::Udp, 1)),
        Ok(port_filter(ProtocolFilter::Tcp, 1)),
    ];
    let filters = build_filters(entries, true, true).unwrap();
    assert_eq!(filters.to_vec().len(), 2);
}

#[test]
fn selectors_are_equal_if_they_hold_the_same() {
    let filters = || set(vec![port_filter(ProtocolFilter::Tcp, 1), port_filter(ProtocolFilter::Any, 2)]);
    let other = set(vec![port_filter(ProtocolFilter::Any, 2), port_filter(ProtocolFilter::Tcp, 1)]);
    let fewer = set(vec![port_filter(ProtocolFilter::Tcp, 1)]);
    let selector = OutgoingSelector::Remote(filters());
    assert!(selector == OutgoingSelector::Remote(other));
    assert!(selector != OutgoingSelector::Remote(fewer));
    assert!(selector != OutgoingSelector::Local(filters()));
    assert!(selector.clone() == selector);
}

#[test]
fn set_keeps_every_form_of_filter_apart() {
    let forms = || {
        vec![
            AddressFilter::Socket(SocketAddr::V4 { ip: 1, port: 2 }),
            AddressFilter::Socket(SocketAddr::V6 { ip: 1, port: 2, flowinfo: 0, scope_id: 0 }),
            AddressFilter::Socket(SocketAddr::V6 { ip: 1, port: 2, flowinfo: 0, scope_id: 3 }),
            AddressFilter::Name("host".to_string(), 2),
            AddressFilter::Name("host".to_string(), 3),
            AddressFilter::Subnet(Subnet::V4 { ip: 1, prefix: 8 }, 2),
            AddressFilter::Subnet(Subnet::V6 { ip: 1, prefix: 8 }, 2),
        ]
    };
    let mut filters = FilterSet::new();
    for protocol in [ProtocolFilter::Any, ProtocolFilter::Tcp, ProtocolFilter::Udp] {
        for address in forms() {
            assert!(filters.insert(OutgoingFilter { protocol, address }));
        }
        for address in forms() {
            assert!(!filters.insert(OutgoingFilter { protocol, address }));
        }
    }
    let listed: Vec<String> =
        filters.to_vec().iter().map(|filter| format!("{filter:?}")).collect();
    assert_eq!(listed.len(), 21);
    for protocol in [ProtocolFilter::Any, ProtocolFilter::Tcp, ProtocolFilter::Udp] {
        for address in forms() {
            let text = format!("{:?}", OutgoingFilter { protocol, address });
            assert!(listed.contains(&text));
        }
    }
}

#[test]
fn protocols_that_filters_admit() {
    assert!(ProtocolFilter::Any.admits(TCP) && ProtocolFilter::Any.admits(UDP));
    assert!(ProtocolFilter::Tcp.admits(TCP) && !ProtocolFilter::Tcp.admits(UDP));
    assert!(!ProtocolFilter::Udp.admits(TCP) && ProtocolFilter::Udp.admits(UDP));
}

#[test]
fn wildcards_in_socket_filters() {
    let address = SocketAddr::new(IpAddr::V4(0x0a00_0001), 7777);
    let matches = |ip: u32, port: u16| {
        AddressFilter::Socket(SocketAddr::V4 { ip, port }).matches(&address)
    };
    assert!(matches(0, 0));
    assert!(matches(0, 7777));
    assert!(!matches(0, 7778));
    assert!(matches(0x0a00_0001, 0));
    assert!(!matches(0x0a00_0002, 0));
    assert!(matches(0x0a00_0001, 7777));
    assert!(!matches(0x0a00_0001, 7778));
    assert!(!matches(0x0a00_0002, 7777));
}

#[test]
fn scopes_count_where_nothing_is_a_wildcard() {
    let address = SocketAddr::V6 { ip: 5, port: 80, flowinfo: 0, scope_id: 2 };
    assert!(!AddressFilter::Socket(SocketAddr::new(IpAddr::V6(5), 80)).matches(&address));
    assert!(AddressFilter::Socket(SocketAddr::new(IpAddr::V6(5), 0)).matches(&address));
    assert!(AddressFilter::Socket(SocketAddr::new(IpAddr::V6(0), 80)).matches(&address));
    assert!(AddressFilter::Socket(address).matches(&address));
    assert!(AddressFilter::Socket(SocketAddr::new(IpAddr::V4(0), 80)).matches(&address));
}

#[test]
fn subnets_and_names_in_filters() {
    let address = SocketAddr::new(IpAddr::V4(0x0a01_0203), 80);
    let subnet = Subnet::V4 { ip: 0x0a00_0000, prefix: 8 };
    assert!(AddressFilter::Subnet(subnet, 0).matches(&address));
    assert!(AddressFilter::Subnet(subnet, 80).matches(&address));
    assert!(!AddressFilter::Subnet(subnet, 81).matches(&address));
    assert!(!AddressFilter::Subnet(Subnet::V4 { ip: 0, prefix: 8 }, 0).matches(&address));
    assert!(!AddressFilter::Name("host".to_string(), 80).matches(&address));
}
