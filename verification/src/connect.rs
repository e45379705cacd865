//! Where an outgoing connection goes: from the local machine, or through the agent.
use crate::address::{IpAddr, SocketAddr};
use crate::detour::{Bypass, Detour, HookError};
use crate::filter::{AddressModel, ConnectProtocol, FilterModel, ProtocolFilter, TCP, UDP};
use crate::filter_set::{filter_models, FilterSet};
use crate::resolve::{
    answers_with, law_lists_of_hosts, law_models_of_resolutions,
    law_resolution_collects_every_answer, law_resolution_stops_at_the_first_error, lists_hosts,
    named_hosts, resolved_hosts, HostModel, Query, Replies, Reply, Resolution, ResolutionModel,
    Resolving, ResolvingModel,
};
use crate::selector::{enabled_filters, OutgoingSelector, ParsedFilter, SelectorModel};
use crate::text::{decimal, host_port, spec_host_port};
use vstd::prelude::*;

verus! {

/// Holds the address that a connection is to be made to, and from where.
#[derive(Debug, Clone, Copy, PartialEq, Eq, Structural)]
pub enum ConnectionThrough {
    /// Connect from the local machine.
    Local(SocketAddr),
    /// Connect through the agent.
    Remote(SocketAddr),
}

/// Some filter, of the selector or resolved from one of its names, singles out the connection.
pub open spec fn any_selects(
    filters: Set<FilterModel>,
    resolved: Set<FilterModel>,
    protocol: ConnectProtocol,
    address: SocketAddr,
) -> bool {
    exists|filter: FilterModel|
        (filters.contains(filter) || resolved.contains(filter)) && #[trigger] filter.selects(
            protocol,
            address,
        )
}

fn set_selects(filters: &FilterSet, protocol: ConnectProtocol, address: &SocketAddr) -> (selected:
    bool)
    ensures
        selected == any_selects(filters@, Set::empty(), protocol, *address),
{
    let list = filters.to_vec();
    let ghost models = filter_models(list@);
    let mut index: usize = 0;
    while index < list.len()
        invariant
            index <= list@.len(),
            models == filter_models(list@),
            models.to_set() == filters@,
            forall|i: int| 0 <= i < index ==> !(#[trigger] models[i]).selects(protocol, *address),
        decreases list@.len() - index,
    {
        assert(models[index as int] == list@[index as int]@);
        if list[index].selects(protocol, address) {
            assert(models.to_set().contains(models[index as int]));
            return true;
        }
        index += 1;
    }
    proof {
        assert forall|filter: FilterModel|
            filters@.contains(filter) implies !(#[trigger] filter.selects(protocol, *address)) by {
            assert(models.to_set().contains(filter));
            let i = choose|i: int| 0 <= i < models.len() && models[i] == filter;
            assert(!models[i].selects(protocol, *address));
        }
    }
    false
}

/// A connection that is on its way to a decision.
#[derive(Debug)]
pub enum Connecting<'a> {
    /// The addresses of a host are needed.
    Resolve(HostsNeeded<'a>),
    /// The name under which the address was handed out is needed, if it was handed out under one.
    Lookup(HostnameNeeded),
    /// The addresses that a name has on the local machine are needed.
    Redirect(LocalAddressNeeded),
    /// The decision is made.
    Done(Detour<ConnectionThrough>),
}

/// A connection that waits for the addresses of a host that a filter speaks of.
#[derive(Debug)]
pub struct HostsNeeded<'a> {
    pub selector: &'a OutgoingSelector,
    pub protocol: ConnectProtocol,
    pub address: SocketAddr,
    pub resolution: Resolution,
}

/// A connection that stays local, and waits for the name behind its address.
#[derive(Debug)]
pub struct HostnameNeeded {
    pub address: SocketAddr,
}

/// A connection that stays local, and waits for the local addresses of a name.
#[derive(Debug)]
pub struct LocalAddressNeeded {
    /// What the system is to resolve, in the form `name:port`.
    pub target: String,
}

/// What a [`Connecting`] says.
pub enum ConnectingModel {
    Resolve {
        selector: SelectorModel,
        protocol: ConnectProtocol,
        address: SocketAddr,
        resolution: ResolutionModel,
    },
    Lookup { address: SocketAddr },
    Redirect { target: Seq<char> },
    Done(Detour<ConnectionThrough>),
}

impl<'a> View for Connecting<'a> {
    type V = ConnectingModel;

    open spec fn view(&self) -> ConnectingModel {
        match *self {
            Connecting::Resolve(state) => ConnectingModel::Resolve {
                selector: state.selector@,
                protocol: state.protocol,
                address: state.address,
                resolution: state.resolution@,
            },
            Connecting::Lookup(state) => ConnectingModel::Lookup { address: state.address },
            Connecting::Redirect(state) => ConnectingModel::Redirect { target: state.target@ },
            Connecting::Done(decision) => ConnectingModel::Done(decision),
        }
    }
}

/// The decision once the names are resolved. A `remote` selector sends what it matches through the
/// agent, a `local` selector sends everything else through the agent, and what stays local may have
/// an address that only the remote side knows, so its name is looked up.
pub open spec fn decide(
    selector: SelectorModel,
    protocol: ConnectProtocol,
    address: SocketAddr,
    resolved: Set<FilterModel>,
) -> ConnectingModel {
    let through_agent = match selector {
        SelectorModel::Unfiltered => true,
        SelectorModel::Remote(filters) => any_selects(filters, resolved, protocol, address),
        SelectorModel::Local(filters) => !any_selects(filters, resolved, protocol, address),
    };
    if through_agent {
        ConnectingModel::Done(Detour::Success(ConnectionThrough::Remote(address)))
    } else {
        ConnectingModel::Lookup { address }
    }
}

/// Where a connection stands when the resolution of its names stands at `step`.
pub open spec fn connecting_at(
    selector: SelectorModel,
    protocol: ConnectProtocol,
    address: SocketAddr,
    step: ResolvingModel,
) -> ConnectingModel {
    match step {
        ResolvingModel::Ask(resolution) => ConnectingModel::Resolve {
            selector,
            protocol,
            address,
            resolution,
        },
        ResolvingModel::Done(resolved) => decide(selector, protocol, address, resolved),
    }
}

/// Where a connection stands after an answer for a host that a filter speaks of. An error is the end
/// of the connection.
pub open spec fn after_host(
    selector: SelectorModel,
    protocol: ConnectProtocol,
    address: SocketAddr,
    resolution: ResolutionModel,
    reply: Result<Seq<IpAddr>, HookError>,
) -> ConnectingModel {
    match resolution.answer(reply) {
        Ok(step) => connecting_at(selector, protocol, address, step),
        Err(error) => ConnectingModel::Done(Detour::Error(error)),
    }
}

/// Where a connection that stays local stands once it is known whether its address was handed out
/// for a name: a name is resolved on the local machine, and an address without one is taken as it
/// is.
pub open spec fn after_lookup(
    address: SocketAddr,
    hostname: Option<Seq<char>>,
) -> ConnectingModel {
    match hostname {
        None => ConnectingModel::Done(Detour::Success(ConnectionThrough::Local(address))),
        Some(hostname) => ConnectingModel::Redirect {
            target: spec_host_port(hostname, address.spec_port()),
        },
    }
}

/// The key under which the name of an address is found: its IP, with port 0.
pub open spec fn spec_key(address: SocketAddr) -> SocketAddr {
    SocketAddr::spec_new(address.spec_ip(), 0)
}

/// The names of the selector are resolved remotely: the user wants DNS resolved remotely, and the
/// selector is for what goes through the agent.
pub open spec fn resolves_remotely(selector: SelectorModel, remote_dns: bool) -> bool {
    remote_dns && selector is Remote
}

fn connect_at<'a>(
    selector: &'a OutgoingSelector,
    protocol: ConnectProtocol,
    address: SocketAddr,
    step: Resolving,
) -> (next: Connecting<'a>)
    ensures
        next@ == connecting_at(selector@, protocol, address, step@),
{
    let resolved = match step {
        Resolving::Ask(resolution) => {
            return Connecting::Resolve(HostsNeeded { selector, protocol, address, resolution });
        },
        Resolving::Done(resolved) => resolved,
    };
    match selector {
        OutgoingSelector::Unfiltered => Connecting::Done(
            Detour::Success(ConnectionThrough::Remote(address)),
        ),
        OutgoingSelector::Remote(filters) => {
            if selects(filters, &resolved, protocol, &address) {
                Connecting::Done(Detour::Success(ConnectionThrough::Remote(address)))
            } else {
                Connecting::Lookup(OutgoingSelector::get_local_address_to_connect(address))
            }
        },
        OutgoingSelector::Local(filters) => {
            if selects(filters, &resolved, protocol, &address) {
                Connecting::Lookup(OutgoingSelector::get_local_address_to_connect(address))
            } else {
                Connecting::Done(Detour::Success(ConnectionThrough::Remote(address)))
            }
        },
    }
}

/// Tells whether some filter of either set singles out the connection.
pub fn selects(
    filters: &FilterSet,
    resolved: &FilterSet,
    protocol: ConnectProtocol,
    address: &SocketAddr,
) -> (selected: bool)
    ensures
        selected == any_selects(filters@, resolved@, protocol, *address),
{
    let listed = set_selects(filters, protocol, address);
    let found = listed || set_selects(resolved, protocol, address);
    proof {
        let none = Set::<FilterModel>::empty();
        if any_selects(filters@, none, protocol, *address) {
            let filter = choose|filter: FilterModel|
                (filters@.contains(filter) || none.contains(filter)) && #[trigger] filter.selects(
                    protocol,
                    *address,
                );
            assert(filter.selects(protocol, *address));
        }
        if any_selects(resolved@, none, protocol, *address) {
            let filter = choose|filter: FilterModel|
                (resolved@.contains(filter) || none.contains(filter)) && #[trigger] filter.selects(
                    protocol,
                    *address,
                );
            assert(filter.selects(protocol, *address));
        }
    }
    found
}

impl OutgoingSelector {
    /// Starts to decide where a connection to `address` goes.
    ///
    /// ## `remote`
    ///
    /// With a list such as `remote = [":7777"]`, a connection goes through the agent if its port is
    /// 7777, and stays local otherwise. The other forms of a filter, such as a subnet, a host name,
    /// an IP and their combinations, work alike.
    ///
    /// ## `local`
    ///
    /// The same with the result reversed: with `local = [":7777"]`, a connection stays local if its
    /// port is 7777.
    ///
    /// ## Rules
    ///
    /// 1. `0.0.0.0` means any IP;
    /// 2. `:0` means any port;
    ///
    /// so a selector with `0.0.0.0:0` matches every connection.
    pub fn get_connection_through<const PROTOCOL: bool>(
        &self,
        address: SocketAddr,
        remote_dns: bool,
    ) -> (next: Connecting<'_>)
        ensures
            exists|hosts: Seq<HostModel>| #[trigger]
                lists_hosts(hosts, self@.filters()) && next@ == connecting_at(
                    self@,
                    PROTOCOL,
                    address,
                    ResolvingModel::at(resolves_remotely(self@, remote_dns), hosts, Set::empty()),
                ),
    {
        let step = match self {
            OutgoingSelector::Remote(_) => self.resolve_dns::<true>(remote_dns),
            _ => self.resolve_dns::<false>(remote_dns),
        };
        connect_at(self, PROTOCOL, address, step)
    }

    /// Starts to find the local address for a connection to `address` that stays local.
    ///
    /// The address may be one under which a host is known on the remote side only. If it was handed
    /// out for a name, that name is resolved on the local machine; otherwise the address is taken
    /// as it is.
    pub fn get_local_address_to_connect(address: SocketAddr) -> (next: HostnameNeeded)
        ensures
            next.address == address,
    {
        HostnameNeeded { address }
    }
}

impl<'a> HostsNeeded<'a> {
    /// Takes the answer to the resolution's question. An error is the end of the connection.
    pub fn answer(self, reply: Reply) -> (next: Connecting<'a>)
        ensures
            next@ == after_host(
                self.selector@,
                self.protocol,
                self.address,
                self.resolution@,
                reply@,
            ),
    {
        match self.resolution.answer(reply) {
            Ok(step) => connect_at(self.selector, self.protocol, self.address, step),
            Err(error) => Connecting::Done(Detour::Error(error)),
        }
    }
}

impl HostnameNeeded {
    /// The key under which the name is found: the IP of the connection, with port 0.
    pub fn key(&self) -> (key: SocketAddr)
        ensures
            key == spec_key(self.address),
    {
        SocketAddr::new(self.address.ip(), 0)
    }

    /// Takes the name that was found, if there was one.
    pub fn answer(self, hostname: Option<String>) -> (next: Connecting<'static>)
        ensures
            next@ == after_lookup(self.address, name_view(hostname)),
    {
        match hostname {
            None => Connecting::Done(Detour::Success(ConnectionThrough::Local(self.address))),
            Some(hostname) => Connecting::Redirect(
                LocalAddressNeeded { target: host_port(&hostname, self.address.port()) },
            ),
        }
    }
}

/// The first IPv4 address of `addresses`, if there is one.
pub open spec fn first_ipv4(addresses: Seq<SocketAddr>) -> Option<SocketAddr>
    decreases addresses.len(),
{
    if addresses.len() == 0 {
        None
    } else if addresses[0] is V4 {
        Some(addresses[0])
    } else {
        first_ipv4(addresses.drop_first())
    }
}

/// The decision for a connection that stays local, once the system answered for its name.
pub open spec fn decide_local(reply: Result<Seq<SocketAddr>, std::io::Error>) -> Detour<
    ConnectionThrough,
> {
    match reply {
        Err(error) => Detour::Error(HookError::IO(error)),
        Ok(addresses) => match first_ipv4(addresses) {
            Some(address) => Detour::Success(ConnectionThrough::Local(address)),
            None => Detour::Bypass(Bypass::EmptyOption),
        },
    }
}

impl LocalAddressNeeded {
    /// Takes the addresses that the system gave. The first IPv4 address among them is the one to
    /// connect to; without one the layer steps aside.
    pub fn answer(self, reply: Result<Vec<SocketAddr>, std::io::Error>) -> (decision: Detour<
        ConnectionThrough,
    >)
        ensures
            decision == decide_local(addresses_view(reply)),
    {
        let addresses = match reply {
            Ok(addresses) => addresses,
            Err(error) => {
                return Detour::Error(HookError::IO(error));
            },
        };
        let mut index: usize = 0;
        assert(addresses@.skip(0) =~= addresses@);
        while index < addresses.len()
            invariant
                reply == Ok::<Vec<SocketAddr>, std::io::Error>(addresses),
                index <= addresses@.len(),
                first_ipv4(addresses@) == first_ipv4(addresses@.skip(index as int)),
            decreases addresses@.len() - index,
        {
            assert(addresses@.skip(index as int).drop_first() =~= addresses@.skip(index + 1));
            if addresses[index].is_ipv4() {
                return Detour::Success(ConnectionThrough::Local(addresses[index]));
            }
            index += 1;
        }
        Detour::Bypass(Bypass::EmptyOption)
    }
}

/// What the characters of a name are, if there is a name.
pub open spec fn name_view(name: Option<String>) -> Option<Seq<char>> {
    match name {
        None => None,
        Some(name) => Some(name@),
    }
}

/// What a list of addresses holds, if there is a list.
pub open spec fn addresses_view(reply: Result<Vec<SocketAddr>, std::io::Error>) -> Result<
    Seq<SocketAddr>,
    std::io::Error,
> {
    match reply {
        Ok(addresses) => Ok(addresses@),
        Err(error) => Err(error),
    }
}

impl ConnectingModel {
    /// The number of questions that may still be asked.
    pub open spec fn open_questions(self) -> nat {
        match self {
            ConnectingModel::Resolve { resolution, .. } => 3 + resolution.rest.len(),
            ConnectingModel::Lookup { .. } => 2,
            ConnectingModel::Redirect { .. } => 1,
            ConnectingModel::Done(_) => 0,
        }
    }

    /// A connection that puts its questions to `resolve`, `hostname` and `local` may end with
    /// `decision`.
    pub open spec fn leads_to<
        R: Fn(Query) -> Reply,
        H: Fn(SocketAddr) -> Option<String>,
        L: Fn(String) -> Result<Vec<SocketAddr>, std::io::Error>,
    >(self, resolve: R, hostname: H, local: L, decision: Detour<ConnectionThrough>) -> bool
        decreases self.open_questions(),
    {
        match self {
            ConnectingModel::Resolve { selector, protocol, address, resolution } => exists|
                query: Query,
                reply: Reply,
            |
                resolution.asks(query) && #[trigger] call_ensures(resolve, (query,), reply)
                    && after_host(selector, protocol, address, resolution, reply@).leads_to(
                    resolve,
                    hostname,
                    local,
                    decision,
                ),
            ConnectingModel::Lookup { address } => exists|name: Option<String>| #[trigger]
                call_ensures(hostname, (spec_key(address),), name) && after_lookup(
                    address,
                    name_view(name),
                ).leads_to(resolve, hostname, local, decision),
            ConnectingModel::Redirect { target } => exists|
                text: String,
                reply: Result<Vec<SocketAddr>, std::io::Error>,
            |
                text@ == target && #[trigger] call_ensures(local, (text,), reply) && decision
                    == decide_local(addresses_view(reply)),
            ConnectingModel::Done(made) => decision == made,
        }
    }
}

impl<'a> Connecting<'a> {
    /// Leads the connection to its decision: `resolve` answers for the hosts that filters speak of,
    /// `hostname` finds the name for which an address was handed out, and `local` resolves
    /// `name:port` on the local machine.
    pub fn lead<
        R: Fn(Query) -> Reply,
        H: Fn(SocketAddr) -> Option<String>,
        L: Fn(String) -> Result<Vec<SocketAddr>, std::io::Error>,
    >(self, resolve: R, hostname: H, local: L) -> (decision: Detour<ConnectionThrough>)
        requires
            forall|query: Query| call_requires(resolve, (query,)),
            forall|key: SocketAddr| call_requires(hostname, (key,)),
            forall|target: String| call_requires(local, (target,)),
        ensures
            self@.leads_to(resolve, hostname, local, decision),
    {
        let mut next = self;
        loop
            invariant
                forall|query: Query| call_requires(resolve, (query,)),
                forall|key: SocketAddr| call_requires(hostname, (key,)),
                forall|target: String| call_requires(local, (target,)),
                forall|decision: Detour<ConnectionThrough>| #[trigger]
                    next@.leads_to(resolve, hostname, local, decision) ==> self@.leads_to(
                        resolve,
                        hostname,
                        local,
                        decision,
                    ),
            decreases next@.open_questions(),
        {
            let ghost before = next@;
            match next {
                Connecting::Resolve(state) => {
                    let query = state.resolution.query();
                    let ghost asked = query;
                    let reply = resolve(query);
                    let ghost told = reply;
                    assert(state.resolution@.asks(asked) && call_ensures(resolve, (asked,), told));
                    next = state.answer(reply);
                },
                Connecting::Lookup(state) => {
                    let name = hostname(state.key());
                    let ghost told = name;
                    assert(call_ensures(hostname, (spec_key(state.address),), told));
                    next = state.answer(name);
                },
                Connecting::Redirect(state) => {
                    let reply = local(state.target.clone());
                    let ghost told = reply;
                    assert(call_ensures(local, (state.target,), told));
                    let decision = state.answer(reply);
                    assert(before.leads_to(resolve, hostname, local, decision));
                    return decision;
                },
                Connecting::Done(decision) => {
                    assert(before.leads_to(resolve, hostname, local, decision));
                    return decision;
                },
            }
            proof {
                assert forall|decision: Detour<ConnectionThrough>| #[trigger]
                    next@.leads_to(resolve, hostname, local, decision) implies self@.leads_to(
                    resolve,
                    hostname,
                    local,
                    decision,
                ) by {
                    assert(before.leads_to(resolve, hostname, local, decision));
                }
            }
        }
    }
}

/// What the world answers to the questions of a connection.
pub struct World {
    /// The addresses of a host that a filter speaks of.
    pub replies: Replies,
    /// The name for which an address was handed out.
    pub hostname: spec_fn(SocketAddr) -> Option<Seq<char>>,
    /// The addresses that `name:port` has on the local machine.
    pub local: spec_fn(Seq<char>) -> Result<Seq<SocketAddr>, std::io::Error>,
}

impl ConnectingModel {
    /// The questions for hosts that are still open are put to the agent (`remote`), or to the system.
    pub open spec fn puts_questions_to(self, remote: bool) -> bool {
        match self {
            ConnectingModel::Resolve { resolution, .. } => resolution.remote == remote,
            _ => true,
        }
    }

    /// The decision that a connection comes to if it is led to its end in this world.
    pub open spec fn run(self, world: World) -> Detour<ConnectionThrough>
        decreases self.open_questions(),
    {
        match self {
            ConnectingModel::Resolve { selector, protocol, address, resolution } => after_host(
                selector,
                protocol,
                address,
                resolution,
                (world.replies)(resolution.host),
            ).run(world),
            ConnectingModel::Lookup { address } => after_lookup(
                address,
                (world.hostname)(spec_key(address)),
            ).run(world),
            ConnectingModel::Redirect { target } => decide_local((world.local)(target)),
            ConnectingModel::Done(decision) => decision,
        }
    }
}

/// `resolve`, `hostname` and `local` answer as this world does. Of `resolve` that is said for the
/// questions that are put to the agent (`remote`), or for those that are put to the system.
pub open spec fn answer_as<
    R: Fn(Query) -> Reply,
    H: Fn(SocketAddr) -> Option<String>,
    L: Fn(String) -> Result<Vec<SocketAddr>, std::io::Error>,
>(resolve: R, hostname: H, local: L, remote: bool, world: World) -> bool {
    &&& answers_with(resolve, remote, world.replies)
    &&& forall|key: SocketAddr, name: Option<String>| #[trigger]
        call_ensures(hostname, (key,), name) ==> name_view(name) == (world.hostname)(key)
    &&& forall|text: String, reply: Result<Vec<SocketAddr>, std::io::Error>| #[trigger]
        call_ensures(local, (text,), reply) ==> addresses_view(reply) == (world.local)(text@)
}

/// A connection that is led by somebody who answers as this world does ends as it would in this
/// world.
pub proof fn law_led_connection_ends_as_answered<
    R: Fn(Query) -> Reply,
    H: Fn(SocketAddr) -> Option<String>,
    L: Fn(String) -> Result<Vec<SocketAddr>, std::io::Error>,
>(
    connecting: ConnectingModel,
    resolve: R,
    hostname: H,
    local: L,
    remote: bool,
    world: World,
    decision: Detour<ConnectionThrough>,
)
    requires
        answer_as(resolve, hostname, local, remote, world),
        connecting.puts_questions_to(remote),
        connecting.leads_to(resolve, hostname, local, decision),
    ensures
        decision == connecting.run(world),
    decreases connecting.open_questions(),
{
    match connecting {
        ConnectingModel::Resolve { selector, protocol, address, resolution } => {
            let (query, reply) = choose|query: Query, reply: Reply|
                resolution.asks(query) && #[trigger] call_ensures(resolve, (query,), reply)
                    && after_host(selector, protocol, address, resolution, reply@).leads_to(
                    resolve,
                    hostname,
                    local,
                    decision,
                );
            assert(resolution.asks(query) && call_ensures(resolve, (query,), reply));
            law_led_connection_ends_as_answered(
                after_host(selector, protocol, address, resolution, reply@),
                resolve,
                hostname,
                local,
                remote,
                world,
                decision,
            );
        },
        ConnectingModel::Lookup { address } => {
            let name = choose|name: Option<String>| #[trigger]
                call_ensures(hostname, (spec_key(address),), name) && after_lookup(
                    address,
                    name_view(name),
                ).leads_to(resolve, hostname, local, decision);
            law_led_connection_ends_as_answered(
                after_lookup(address, name_view(name)),
                resolve,
                hostname,
                local,
                remote,
                world,
                decision,
            );
        },
        _ => {},
    }
}

/// A connection follows its resolution: it ends with the resolution's error, or with the decision
/// for the filters that the resolution collects.
pub proof fn law_connection_follows_resolution(
    selector: SelectorModel,
    protocol: ConnectProtocol,
    address: SocketAddr,
    step: ResolvingModel,
    world: World,
)
    ensures
        connecting_at(selector, protocol, address, step).run(world) == (match step.run(
            world.replies,
        ) {
            Ok(resolved) => decide(selector, protocol, address, resolved).run(world),
            Err(error) => Detour::Error(error),
        }),
    decreases step.open_questions(),
{
    reveal_with_fuel(ConnectingModel::run, 2);
    if let ResolvingModel::Ask(resolution) = step {
        match resolution.answer((world.replies)(resolution.host)) {
            Ok(next) => {
                law_connection_follows_resolution(selector, protocol, address, next, world);
            },
            Err(_) => {},
        }
    }
}

/// If every name of a selector can be resolved, then the decision depends on the filters and on
/// what stands for their names, and not on the order in which the names were resolved.
pub proof fn law_decision_is_independent_of_order(
    selector: SelectorModel,
    protocol: ConnectProtocol,
    address: SocketAddr,
    remote: bool,
    hosts: Seq<HostModel>,
    world: World,
)
    requires
        lists_hosts(hosts, selector.filters()),
        forall|host: HostModel|
            named_hosts(selector.filters()).contains(host) ==> (#[trigger] (world.replies)(
                host,
            )) is Ok,
    ensures
        connecting_at(
            selector,
            protocol,
            address,
            ResolvingModel::at(remote, hosts, Set::empty()),
        ).run(world) == decide(
            selector,
            protocol,
            address,
            resolved_hosts(named_hosts(selector.filters()), world.replies),
        ).run(world),
{
    let none = Set::<FilterModel>::empty();
    let found = resolved_hosts(hosts.to_set(), world.replies);
    law_connection_follows_resolution(
        selector,
        protocol,
        address,
        ResolvingModel::at(remote, hosts, none),
        world,
    );
    assert forall|host: HostModel| hosts.contains(host) implies (#[trigger] (world.replies)(
        host,
    )) is Ok by {
        assert(hosts.to_set().contains(host));
    }
    law_resolution_collects_every_answer(remote, hosts, none, world.replies);
    assert(none.union(found) =~= found);
}

/// A name that cannot be resolved is the end of the connection, whatever the other filters say: the
/// first error becomes the outcome.
pub proof fn law_unresolved_name_fails_the_connection(
    selector: SelectorModel,
    protocol: ConnectProtocol,
    address: SocketAddr,
    remote: bool,
    hosts: Seq<HostModel>,
    world: World,
    index: int,
)
    requires
        0 <= index < hosts.len(),
        (world.replies)(hosts[index]) is Err,
        forall|i: int| 0 <= i < index ==> (world.replies)(#[trigger] hosts[i]) is Ok,
    ensures
        connecting_at(
            selector,
            protocol,
            address,
            ResolvingModel::at(remote, hosts, Set::empty()),
        ).run(world) == Detour::<ConnectionThrough>::Error(
            (world.replies)(hosts[index])->Err_0,
        ),
{
    law_connection_follows_resolution(
        selector,
        protocol,
        address,
        ResolvingModel::at(remote, hosts, Set::empty()),
        world,
    );
    law_resolution_stops_at_the_first_error(remote, hosts, Set::empty(), world.replies, index);
}

/// Without filters every connection goes through the agent, and no question is asked.
pub proof fn law_unfiltered_goes_through_the_agent(
    protocol: ConnectProtocol,
    address: SocketAddr,
    remote: bool,
    hosts: Seq<HostModel>,
)
    requires
        lists_hosts(hosts, SelectorModel::Unfiltered.filters()),
    ensures
        connecting_at(
            SelectorModel::Unfiltered,
            protocol,
            address,
            ResolvingModel::at(remote, hosts, Set::empty()),
        ) == ConnectingModel::Done(Detour::Success(ConnectionThrough::Remote(address))),
{
    if hosts.len() > 0 {
        assert(hosts.to_set().contains(hosts[0]));
    }
}

/// A `local` selector reverses a `remote` selector with the same filters: what one sends through
/// the agent, the other keeps local.
pub proof fn law_local_reverses_remote(
    filters: Set<FilterModel>,
    protocol: ConnectProtocol,
    address: SocketAddr,
    resolved: Set<FilterModel>,
)
    ensures
        decide(SelectorModel::Remote(filters), protocol, address, resolved) is Done <==> decide(
            SelectorModel::Local(filters),
            protocol,
            address,
            resolved,
        ) is Lookup,
        decide(SelectorModel::Remote(filters), protocol, address, resolved) is Lookup <==> decide(
            SelectorModel::Local(filters),
            protocol,
            address,
            resolved,
        ) is Done,
{
}

/// A selector with `0.0.0.0:0` matches every connection over a protocol that the filter speaks of: a
/// `remote` one sends them all through the agent, and a `local` one keeps them all local.
pub proof fn law_wildcard_matches_every_connection(
    filters: Set<FilterModel>,
    wildcard: SocketAddr,
    speaks_of: ProtocolFilter,
    protocol: ConnectProtocol,
    address: SocketAddr,
    resolved: Set<FilterModel>,
)
    requires
        wildcard.spec_ip().spec_is_unspecified(),
        wildcard.spec_port() == 0,
        speaks_of.spec_admits(protocol),
        filters.contains(
            (FilterModel {
                protocol: speaks_of,
                address: AddressModel::Socket(wildcard),
            }),
        ),
    ensures
        decide(SelectorModel::Remote(filters), protocol, address, resolved)
            == ConnectingModel::Done(Detour::Success(ConnectionThrough::Remote(address))),
        decide(SelectorModel::Local(filters), protocol, address, resolved)
            == (ConnectingModel::Lookup { address }),
{
    let filter = FilterModel {
        protocol: speaks_of,
        address: AddressModel::Socket(wildcard),
    };
    assert(filter.selects(protocol, address));
}

/// The filters that are left out when a selector is built change no decision on a connection over
/// an enabled protocol.
pub proof fn law_disabled_filters_change_no_decision(
    parsed: Seq<ParsedFilter>,
    enabled_tcp: bool,
    enabled_udp: bool,
    protocol: ConnectProtocol,
    address: SocketAddr,
    replies: Replies,
)
    requires
        protocol == TCP ==> enabled_tcp,
        protocol == UDP ==> enabled_udp,
    ensures
        ({
            let kept = enabled_filters(parsed, enabled_tcp, enabled_udp);
            let all = enabled_filters(parsed, true, true);
            let kept_names = resolved_hosts(named_hosts(kept), replies);
            let all_names = resolved_hosts(named_hosts(all), replies);
            &&& decide(SelectorModel::Remote(kept), protocol, address, kept_names) == decide(
                SelectorModel::Remote(all),
                protocol,
                address,
                all_names,
            )
            &&& decide(SelectorModel::Local(kept), protocol, address, kept_names) == decide(
                SelectorModel::Local(all),
                protocol,
                address,
                all_names,
            )
        }),
{
    let kept = enabled_filters(parsed, enabled_tcp, enabled_udp);
    let all = enabled_filters(parsed, true, true);
    let kept_names = resolved_hosts(named_hosts(kept), replies);
    let all_names = resolved_hosts(named_hosts(all), replies);
    assert forall|filter: FilterModel| #[trigger]
        filter.selects(protocol, address) implies (kept.contains(filter) || kept_names.contains(
        filter,
    )) == (all.contains(filter) || all_names.contains(filter)) by {
        assert(filter.protocol.spec_is_enabled(enabled_tcp, enabled_udp));
        if kept_names.contains(filter) {
            let host = choose|host: HostModel| #[trigger]
                named_hosts(kept).contains(host) && replies(host) is Ok && host.resolved_filters(
                    replies(host)->Ok_0,
                ).contains(filter);
            assert(named_hosts(all).contains(host));
        }
        if all_names.contains(filter) {
            let host = choose|host: HostModel| #[trigger]
                named_hosts(all).contains(host) && replies(host) is Ok && host.resolved_filters(
                    replies(host)->Ok_0,
                ).contains(filter);
            assert(host.filter().protocol == filter.protocol);
            assert(named_hosts(kept).contains(host));
        }
    }
    assert(any_selects(kept, kept_names, protocol, address) == any_selects(
        all,
        all_names,
        protocol,
        address,
    ));
}

/// What the system answers for the name under which `address` was handed out carries the port of
/// `address`, which is the port that it was asked with.
pub open spec fn local_answer_carries_the_port(world: World, address: SocketAddr) -> bool {
    forall|hostname: Seq<char>, addresses: Seq<SocketAddr>, i: int|
        (world.hostname)(spec_key(address)) == Some(hostname) && #[trigger] (world.local)(
            spec_host_port(hostname, address.spec_port()),
        ) == Ok::<Seq<SocketAddr>, std::io::Error>(addresses) && 0 <= i < addresses.len()
            ==> (#[trigger] addresses[i]).spec_port() == address.spec_port()
}

/// A connection that goes through the agent keeps its address. One that stays local keeps it too,
/// unless the address was handed out for a name: then it may get an IPv4 address in its place. It
/// keeps its port if the system answers with the port that it was asked with.
pub proof fn law_addresses_of_decisions(
    selector: SelectorModel,
    protocol: ConnectProtocol,
    address: SocketAddr,
    step: ResolvingModel,
    world: World,
    chosen: SocketAddr,
)
    ensures
        connecting_at(selector, protocol, address, step).run(world) == Detour::Success(
            ConnectionThrough::Remote(chosen),
        ) ==> chosen == address,
        connecting_at(selector, protocol, address, step).run(world) == Detour::Success(
            ConnectionThrough::Local(chosen),
        ) ==> {
            &&& chosen == address || ((world.hostname)(spec_key(address)) is Some && chosen is V4)
            &&& local_answer_carries_the_port(world, address) ==> chosen.spec_port()
                == address.spec_port()
        },
{
    reveal_with_fuel(ConnectingModel::run, 3);
    law_connection_follows_resolution(selector, protocol, address, step, world);
    if let Some(hostname) = (world.hostname)(spec_key(address)) {
        if let Ok(addresses) = (world.local)(spec_host_port(hostname, address.spec_port())) {
            law_first_ipv4(addresses);
        }
    }
}

/// Where `hostname` may give a name for `address`, `local` answers for that name with the port of
/// `address`, which is the port that it is asked with.
pub open spec fn resolves_with_the_port<
    H: Fn(SocketAddr) -> Option<String>,
    L: Fn(String) -> Result<Vec<SocketAddr>, std::io::Error>,
>(hostname: H, local: L, address: SocketAddr) -> bool {
    forall|name: String, target: String, addresses: Vec<SocketAddr>, i: int|
        #[trigger] call_ensures(hostname, (spec_key(address),), Some(name)) && target@
            == spec_host_port(name@, address.spec_port()) && #[trigger] call_ensures(
            local,
            (target,),
            Ok(addresses),
        ) && 0 <= i < addresses@.len() ==> (#[trigger] addresses@[i]).spec_port()
            == address.spec_port()
}

/// The same of a connection that is led to its decision, whoever answers its questions: through the
/// agent it keeps its address, and it stays local with another address only if `hostname` gave a
/// name for its IP with port 0. It keeps its port if `local` answers with the port that it is asked
/// with.
pub proof fn law_addresses_of_led_decisions<
    R: Fn(Query) -> Reply,
    H: Fn(SocketAddr) -> Option<String>,
    L: Fn(String) -> Result<Vec<SocketAddr>, std::io::Error>,
>(
    selector: SelectorModel,
    protocol: ConnectProtocol,
    address: SocketAddr,
    step: ResolvingModel,
    resolve: R,
    hostname: H,
    local: L,
    decision: Detour<ConnectionThrough>,
)
    requires
        connecting_at(selector, protocol, address, step).leads_to(
            resolve,
            hostname,
            local,
            decision,
        ),
    ensures
        match decision {
            Detour::Success(ConnectionThrough::Remote(chosen)) => chosen == address,
            Detour::Success(ConnectionThrough::Local(chosen)) => {
                &&& chosen == address || exists|name: String| #[trigger]
                    call_ensures(hostname, (spec_key(address),), Some(name))
                &&& resolves_with_the_port(hostname, local, address) ==> chosen.spec_port()
                    == address.spec_port()
            },
            _ => true,
        },
    decreases step.open_questions(),
{
    reveal_with_fuel(ConnectingModel::leads_to, 3);
    match connecting_at(selector, protocol, address, step) {
        ConnectingModel::Resolve { resolution, .. } => {
            let (query, reply) = choose|query: Query, reply: Reply|
                resolution.asks(query) && #[trigger] call_ensures(resolve, (query,), reply)
                    && after_host(selector, protocol, address, resolution, reply@).leads_to(
                    resolve,
                    hostname,
                    local,
                    decision,
                );
            if let Ok(next) = resolution.answer(reply@) {
                law_addresses_of_led_decisions(
                    selector,
                    protocol,
                    address,
                    next,
                    resolve,
                    hostname,
                    local,
                    decision,
                );
            }
        },
        ConnectingModel::Lookup { .. } => {
            let name = choose|name: Option<String>| #[trigger]
                call_ensures(hostname, (spec_key(address),), name) && after_lookup(
                    address,
                    name_view(name),
                ).leads_to(resolve, hostname, local, decision);
            if let Some(found) = name {
                let target = spec_host_port(found@, address.spec_port());
                let (text, reply) = choose|
                    text: String,
                    reply: Result<Vec<SocketAddr>, std::io::Error>,
                |
                    text@ == target && #[trigger] call_ensures(local, (text,), reply) && decision
                        == decide_local(addresses_view(reply));
                assert(call_ensures(hostname, (spec_key(address),), Some(found)));
                if let Ok(addresses) = reply {
                    law_first_ipv4(addresses@);
                    assert(call_ensures(local, (text,), Ok(addresses)));
                }
            }
        },
        _ => {},
    }
}

/// A connection that stays local goes to the address as it is if that was handed out for no name,
/// and otherwise to what the system resolves the name to.
pub proof fn law_local_connection_follows_the_name(address: SocketAddr, world: World)
    ensures
        (ConnectingModel::Lookup { address }).run(world) == (match (world.hostname)(
            spec_key(address),
        ) {
            None => Detour::Success(ConnectionThrough::Local(address)),
            Some(hostname) => decide_local(
                (world.local)(spec_host_port(hostname, address.spec_port())),
            ),
        }),
{
    reveal_with_fuel(ConnectingModel::run, 2);
}

/// The address that a name is given on the local machine is the first IPv4 address among those
/// that the system knows, and it lacks one exactly if there is none among them.
pub proof fn law_first_ipv4(addresses: Seq<SocketAddr>)
    ensures
        match first_ipv4(addresses) {
            Some(address) => address is V4 && exists|i: int|
                0 <= i < addresses.len() && #[trigger] addresses[i] == address && forall|j: int|
                    0 <= j < i ==> !((#[trigger] addresses[j]) is V4),
            None => forall|i: int| 0 <= i < addresses.len() ==> !((#[trigger] addresses[i]) is V4),
        },
    decreases addresses.len(),
{
    if addresses.len() > 0 && !(addresses[0] is V4) {
        let rest = addresses.drop_first();
        law_first_ipv4(rest);
        match first_ipv4(rest) {
            Some(address) => {
                let i = choose|i: int|
                    0 <= i < rest.len() && #[trigger] rest[i] == address && forall|j: int|
                        0 <= j < i ==> !((#[trigger] rest[j]) is V4);
                assert(addresses[i + 1] == address);
                assert forall|j: int| 0 <= j < i + 1 implies !((#[trigger] addresses[j]) is V4) by {
                    if j > 0 {
                        assert(rest[j - 1] == addresses[j]);
                    }
                }
            },
            None => {
                assert forall|j: int| 0 <= j < addresses.len() implies !((
                #[trigger] addresses[j]) is V4) by {
                    if j > 0 {
                        assert(rest[j - 1] == addresses[j]);
                    }
                }
            },
        }
    } else if addresses.len() > 0 {
        assert(addresses[0] is V4);
    }
}

/// Some filter singles out a connection exactly if one of the two sets has such a filter.
pub proof fn law_any_filter_suffices(
    filters: FilterSet,
    resolved: FilterSet,
    protocol: ConnectProtocol,
    address: SocketAddr,
    selected: bool,
)
    requires
        call_ensures(selects, (&filters, &resolved, protocol, &address), selected),
    ensures
        forall|filter: FilterModel|
            (filters@.contains(filter) || resolved@.contains(filter)) && #[trigger] filter.selects(
                protocol,
                address,
            ) ==> selected,
        selected ==> exists|filter: FilterModel|
            (filters@.contains(filter) || resolved@.contains(filter)) && #[trigger] filter.selects(
                protocol,
                address,
            ),
        selected == any_selects(filters@, resolved@, protocol, address),
{
}

/// The decision, once the names are resolved. Without filters the connection goes through the agent.
/// With filters for remote connections it does if one of them matches, and with filters for local
/// connections if none does. Otherwise the name behind the address is looked up.
pub proof fn law_decision_by_the_filters(
    filters: Set<FilterModel>,
    resolved: Set<FilterModel>,
    protocol: ConnectProtocol,
    address: SocketAddr,
)
    ensures
        decide(SelectorModel::Unfiltered, protocol, address, resolved) == ConnectingModel::Done(
            Detour::Success(ConnectionThrough::Remote(address)),
        ),
        if exists|filter: FilterModel|
            (filters.contains(filter) || resolved.contains(filter)) && #[trigger] filter.selects(
                protocol,
                address,
            ) {
            &&& decide(SelectorModel::Remote(filters), protocol, address, resolved)
                == ConnectingModel::Done(Detour::Success(ConnectionThrough::Remote(address)))
            &&& decide(SelectorModel::Local(filters), protocol, address, resolved) == (
            ConnectingModel::Lookup { address })
        } else {
            &&& decide(SelectorModel::Remote(filters), protocol, address, resolved) == (
            ConnectingModel::Lookup { address })
            &&& decide(SelectorModel::Local(filters), protocol, address, resolved)
                == ConnectingModel::Done(Detour::Success(ConnectionThrough::Remote(address)))
        },
{
}

/// A connection of which no filter is a name is decided at once: it goes through the agent without
/// filters, with a matching filter for remote connections, or with no matching filter for local
/// connections, and has the name behind its address looked up otherwise.
pub proof fn law_connection_without_names_is_decided<const PROTOCOL: bool>(
    selector: OutgoingSelector,
    filters: Set<FilterModel>,
    address: SocketAddr,
    remote_dns: bool,
    next: Connecting,
)
    requires
        call_ensures(
            OutgoingSelector::get_connection_through::<PROTOCOL>,
            (&selector, address, remote_dns),
            next,
        ),
        match selector {
            OutgoingSelector::Unfiltered => filters == Set::<FilterModel>::empty(),
            OutgoingSelector::Remote(set) => filters == set@,
            OutgoingSelector::Local(set) => filters == set@,
        },
        forall|filter: FilterModel| #[trigger]
            filters.contains(filter) ==> !(filter.address is Name),
    ensures
        match selector {
            OutgoingSelector::Unfiltered => next == Connecting::Done(
                Detour::Success(ConnectionThrough::Remote(address)),
            ),
            OutgoingSelector::Remote(_) => if exists|filter: FilterModel|
                filters.contains(filter) && #[trigger] filter.selects(PROTOCOL, address) {
                next == Connecting::Done(Detour::Success(ConnectionThrough::Remote(address)))
            } else {
                next matches Connecting::Lookup(state) && state.address == address
            },
            OutgoingSelector::Local(_) => if exists|filter: FilterModel|
                filters.contains(filter) && #[trigger] filter.selects(PROTOCOL, address) {
                next matches Connecting::Lookup(state) && state.address == address
            } else {
                next == Connecting::Done(Detour::Success(ConnectionThrough::Remote(address)))
            },
        },
{
    assert(selector@.filters() == filters);
    let hosts = choose|hosts: Seq<HostModel>| #[trigger]
        lists_hosts(hosts, filters) && next@ == connecting_at(
            selector@,
            PROTOCOL,
            address,
            ResolvingModel::at(resolves_remotely(selector@, remote_dns), hosts, Set::empty()),
        );
    law_lists_of_hosts(hosts, filters);
    if hosts.len() > 0 {
        assert(filters.contains(hosts[0].filter()));
    }
    let none = Set::<FilterModel>::empty();
    law_decision_by_the_filters(filters, none, PROTOCOL, address);
    assert((exists|filter: FilterModel|
        filters.contains(filter) && #[trigger] filter.selects(PROTOCOL, address)) == (exists|
        filter: FilterModel,
    |
        (filters.contains(filter) || none.contains(filter)) && #[trigger] filter.selects(
            PROTOCOL,
            address,
        ))) by {
        if exists|filter: FilterModel|
            (filters.contains(filter) || none.contains(filter)) && #[trigger] filter.selects(
                PROTOCOL,
                address,
            ) {
            let filter = choose|filter: FilterModel|
                (filters.contains(filter) || none.contains(filter)) && #[trigger] filter.selects(
                    PROTOCOL,
                    address,
                );
            assert(filters.contains(filter));
        }
    }
}

/// A connection of which some filter is a name asks for the names first, whatever the other filters
/// say: for every name among the filters, once, and for nothing else. The agent is asked if the user
/// wants that and the filters are for remote connections, and the system otherwise.
pub proof fn law_connection_with_names_asks_for_them<const PROTOCOL: bool>(
    selector: OutgoingSelector,
    filters: Set<FilterModel>,
    named: FilterModel,
    address: SocketAddr,
    remote_dns: bool,
    next: Connecting,
)
    requires
        call_ensures(
            OutgoingSelector::get_connection_through::<PROTOCOL>,
            (&selector, address, remote_dns),
            next,
        ),
        match selector {
            OutgoingSelector::Unfiltered => false,
            OutgoingSelector::Remote(set) => filters == set@,
            OutgoingSelector::Local(set) => filters == set@,
        },
        filters.contains(named),
        named.address is Name,
    ensures
        next matches Connecting::Resolve(state) && {
            &&& state.selector@ == selector@
            &&& state.protocol == PROTOCOL
            &&& state.address == address
            &&& state.resolution.remote == (remote_dns && selector is Remote)
            &&& state.resolution.resolved@ == Set::<FilterModel>::empty()
            &&& filters.contains(
                (FilterModel {
                    protocol: state.resolution.host.protocol,
                    address: AddressModel::Name(
                        state.resolution.host.name@,
                        state.resolution.host.port,
                    ),
                }),
            )
            &&& forall|i: int|
                0 <= i < state.resolution.rest@.len() ==> filters.contains(
                    (FilterModel {
                        protocol: (#[trigger] state.resolution.rest@[i]).protocol,
                        address: AddressModel::Name(
                            state.resolution.rest@[i].name@,
                            state.resolution.rest@[i].port,
                        ),
                    }),
                )
            &&& forall|protocol: ProtocolFilter, name: Seq<char>, port: u16| #[trigger]
                filters.contains(
                    (FilterModel { protocol, address: AddressModel::Name(name, port) }),
                ) ==> {
                    ||| state.resolution.host@ == (HostModel { protocol, name, port })
                    ||| exists|i: int|
                        0 <= i < state.resolution.rest@.len() && (
                        #[trigger] state.resolution.rest@[i])@ == (HostModel {
                            protocol,
                            name,
                            port,
                        })
                }
            &&& forall|i: int|
                0 <= i < state.resolution.rest@.len() ==> (#[trigger] state.resolution.rest@[i])@
                    != state.resolution.host@
            &&& forall|i: int, j: int|
                0 <= i < j < state.resolution.rest@.len() ==> (
                #[trigger] state.resolution.rest@[i])@ != (#[trigger] state.resolution.rest@[j])@
        },
{
    assert(selector@.filters() == filters);
    let hosts = choose|hosts: Seq<HostModel>| #[trigger]
        lists_hosts(hosts, filters) && next@ == connecting_at(
            selector@,
            PROTOCOL,
            address,
            ResolvingModel::at(resolves_remotely(selector@, remote_dns), hosts, Set::empty()),
        );
    law_lists_of_hosts(hosts, filters);
    if let AddressModel::Name(name, port) = named.address {
        assert(filters.contains(
            (FilterModel { protocol: named.protocol, address: AddressModel::Name(name, port) }),
        ));
    }
    assert(hosts.len() > 0);
    if let Connecting::Resolve(state) = next {
        let resolution = state.resolution;
        law_models_of_resolutions(resolution, resolution.resolved);
        assert(resolution.rest@.len() == hosts.len() - 1);
        assert forall|i: int| 0 <= i < resolution.rest@.len() implies (
        #[trigger] resolution.rest@[i])@ == hosts[i + 1] by {
            assert(resolution@.rest[i] == resolution.rest@[i]@);
        }
        assert(filters.contains(hosts[0].filter()));
        assert forall|i: int| 0 <= i < resolution.rest@.len() implies filters.contains(
            (FilterModel {
                protocol: (#[trigger] resolution.rest@[i]).protocol,
                address: AddressModel::Name(resolution.rest@[i].name@, resolution.rest@[i].port),
            }),
        ) by {
            assert(filters.contains(
                (FilterModel {
                    protocol: hosts[i + 1].protocol,
                    address: AddressModel::Name(hosts[i + 1].name, hosts[i + 1].port),
                }),
            ));
        }
        assert forall|protocol: ProtocolFilter, name: Seq<char>, port: u16| #[trigger]
            filters.contains(
                (FilterModel { protocol, address: AddressModel::Name(name, port) }),
            ) implies {
            ||| resolution.host@ == (HostModel { protocol, name, port })
            ||| exists|i: int|
                0 <= i < resolution.rest@.len() && (#[trigger] resolution.rest@[i])@ == (
                HostModel { protocol, name, port })
        } by {
            let i = choose|i: int|
                0 <= i < hosts.len() && #[trigger] hosts[i] == (HostModel { protocol, name, port });
            if i > 0 {
                assert(resolution.rest@[i - 1]@ == hosts[i]);
            }
        }
        assert forall|i: int| 0 <= i < resolution.rest@.len() implies (
        #[trigger] resolution.rest@[i])@ != resolution.host@ by {
            assert(resolution.rest@[i]@ == hosts[i + 1]);
        }
        assert forall|i: int, j: int| 0 <= i < j < resolution.rest@.len() implies (
        #[trigger] resolution.rest@[i])@ != (#[trigger] resolution.rest@[j])@ by {
            assert(resolution.rest@[i]@ == hosts[i + 1]);
            assert(resolution.rest@[j]@ == hosts[j + 1]);
        }
    }
}

/// An answer for a host takes a connection where it takes the resolution: to the error, to the next
/// host, or, after the last host, to the decision by the filters of the selector and by those that
/// were collected.
pub proof fn law_connection_follows_the_answer(
    state: HostsNeeded,
    reply: Reply,
    step: Result<Resolving, HookError>,
    next: Connecting,
)
    requires
        call_ensures(HostsNeeded::answer, (state, reply), next),
        call_ensures(Resolution::answer, (state.resolution, reply), step),
    ensures
        match step {
            Err(error) => next == Connecting::Done(Detour::Error(error)),
            Ok(Resolving::Ask(resolution)) => next matches Connecting::Resolve(later) && {
                &&& later.selector@ == state.selector@
                &&& later.protocol == state.protocol
                &&& later.address == state.address
                &&& later.resolution@ == resolution@
            },
            Ok(Resolving::Done(found)) => match *state.selector {
                OutgoingSelector::Unfiltered => next == Connecting::Done(
                    Detour::Success(ConnectionThrough::Remote(state.address)),
                ),
                OutgoingSelector::Remote(filters) => if exists|filter: FilterModel|
                    (filters@.contains(filter) || found@.contains(filter))
                        && #[trigger] filter.selects(state.protocol, state.address) {
                    next == Connecting::Done(
                        Detour::Success(ConnectionThrough::Remote(state.address)),
                    )
                } else {
                    next matches Connecting::Lookup(later) && later.address == state.address
                },
                OutgoingSelector::Local(filters) => if exists|filter: FilterModel|
                    (filters@.contains(filter) || found@.contains(filter))
                        && #[trigger] filter.selects(state.protocol, state.address) {
                    next matches Connecting::Lookup(later) && later.address == state.address
                } else {
                    next == Connecting::Done(
                        Detour::Success(ConnectionThrough::Remote(state.address)),
                    )
                },
            },
        },
{
}

/// The name behind an address is looked up by the IP of the address with port 0, so that it does not
/// depend on the port.
pub proof fn law_names_are_kept_by_ip(state: HostnameNeeded, key: SocketAddr)
    requires
        call_ensures(HostnameNeeded::key, (&state,), key),
    ensures
        key == match state.address {
            SocketAddr::V4 { ip, .. } => SocketAddr::V4 { ip, port: 0 },
            SocketAddr::V6 { ip, .. } => SocketAddr::V6 { ip, port: 0, flowinfo: 0, scope_id: 0 },
        },
        key == spec_key(state.address),
{
}

/// Without a name the connection is made from the local machine, to the address as it is. With one
/// the system is to resolve `name:port`, with the port of the address.
pub proof fn law_lookup_leads_to_the_name(
    address: SocketAddr,
    start: HostnameNeeded,
    hostname: Option<String>,
    next: Connecting,
)
    requires
        call_ensures(OutgoingSelector::get_local_address_to_connect, (address,), start),
        call_ensures(HostnameNeeded::answer, (start, hostname), next),
    ensures
        start.address == address,
        match hostname {
            None => next == Connecting::Done(Detour::Success(ConnectionThrough::Local(address))),
            Some(name) => next matches Connecting::Redirect(state) && state.target@ == name@
                + seq![':'] + decimal(
                match address {
                    SocketAddr::V4 { port, .. } => port as nat,
                    SocketAddr::V6 { port, .. } => port as nat,
                },
            ),
        },
{
    if let Some(name) = hostname {
        assert(spec_host_port(name@, address.spec_port()) =~= name@ + seq![':'] + decimal(
            address.spec_port() as nat,
        ));
    }
}

/// If there is an IPv4 address among those that the system gave, then the connection is made from
/// the local machine to the first of them. The layer steps aside only if there is none, and fails
/// only if the system did.
pub proof fn law_local_connection_takes_the_first_ipv4(
    state: LocalAddressNeeded,
    reply: Result<Vec<SocketAddr>, std::io::Error>,
    decision: Detour<ConnectionThrough>,
)
    requires
        call_ensures(LocalAddressNeeded::answer, (state, reply), decision),
    ensures
        match reply {
            Err(error) => decision == Detour::<ConnectionThrough>::Error(HookError::IO(error)),
            Ok(addresses) => {
                &&& forall|i: int|
                    {
                        &&& 0 <= i < addresses@.len()
                        &&& (#[trigger] addresses@[i]) is V4
                        &&& forall|j: int| 0 <= j < i ==> !((#[trigger] addresses@[j]) is V4)
                    } ==> decision == Detour::Success(ConnectionThrough::Local(addresses@[i]))
                &&& (forall|i: int| 0 <= i < addresses@.len() ==> !((#[trigger] addresses@[i]) is V4))
                    ==> decision == Detour::<ConnectionThrough>::Bypass(Bypass::EmptyOption)
                &&& decision is Bypass ==> forall|i: int|
                    0 <= i < addresses@.len() ==> !((#[trigger] addresses@[i]) is V4)
                &&& !(decision is Error)
            },
        },
{
    if let Ok(addresses) = reply {
        law_first_ipv4(addresses@);
        if let Some(address) = first_ipv4(addresses@) {
            let k = choose|i: int|
                0 <= i < addresses@.len() && #[trigger] addresses@[i] == address && forall|j: int|
                    0 <= j < i ==> !((#[trigger] addresses@[j]) is V4);
            assert(addresses@[k] is V4);
            assert forall|i: int|
                {
                    &&& 0 <= i < addresses@.len()
                    &&& (#[trigger] addresses@[i]) is V4
                    &&& forall|j: int| 0 <= j < i ==> !((#[trigger] addresses@[j]) is V4)
                } implies decision == Detour::Success(ConnectionThrough::Local(addresses@[i])) by {
                if i < k {
                    assert(!(addresses@[i] is V4));
                } else if k < i {
                    assert(!(addresses@[k] is V4));
                }
            }
        }
    }
}

/// The same of what the decision is made of: the first IPv4 address of a list, however long, and
/// whatever stands around it.
pub proof fn law_first_ipv4_is_taken(addresses: Seq<SocketAddr>, error: std::io::Error)
    ensures
        forall|i: int|
            {
                &&& 0 <= i < addresses.len()
                &&& (#[trigger] addresses[i]) is V4
                &&& forall|j: int| 0 <= j < i ==> !((#[trigger] addresses[j]) is V4)
            } ==> decide_local(Ok(addresses)) == Detour::Success(
                ConnectionThrough::Local(addresses[i]),
            ),
        (forall|i: int| 0 <= i < addresses.len() ==> !((#[trigger] addresses[i]) is V4))
            ==> decide_local(Ok(addresses)) == Detour::<ConnectionThrough>::Bypass(
            Bypass::EmptyOption,
        ),
        decide_local(Err(error)) == Detour::<ConnectionThrough>::Error(HookError::IO(error)),
{
    law_first_ipv4(addresses);
    if let Some(address) = first_ipv4(addresses) {
        let k = choose|i: int|
            0 <= i < addresses.len() && #[trigger] addresses[i] == address && forall|j: int|
                0 <= j < i ==> !((#[trigger] addresses[j]) is V4);
        assert(addresses[k] is V4);
        assert forall|i: int|
            {
                &&& 0 <= i < addresses.len()
                &&& (#[trigger] addresses[i]) is V4
                &&& forall|j: int| 0 <= j < i ==> !((#[trigger] addresses[j]) is V4)
            } implies decide_local(Ok(addresses)) == Detour::Success(
            ConnectionThrough::Local(addresses[i]),
        ) by {
            if i < k {
                assert(!(addresses[i] is V4));
            } else if k < i {
                assert(!(addresses[k] is V4));
            }
        }
    }
}

/// What a connection says is what it holds.
pub proof fn law_models_of_connections(
    hosts: HostsNeeded,
    lookup: HostnameNeeded,
    redirect: LocalAddressNeeded,
    decision: Detour<ConnectionThrough>,
)
    ensures
        Connecting::Resolve(hosts)@ == (ConnectingModel::Resolve {
            selector: hosts.selector@,
            protocol: hosts.protocol,
            address: hosts.address,
            resolution: hosts.resolution@,
        }),
        Connecting::Lookup(lookup)@ == (ConnectingModel::Lookup { address: lookup.address }),
        Connecting::Redirect(redirect)@ == (ConnectingModel::Redirect {
            target: redirect.target@,
        }),
        Connecting::Done(decision)@ == ConnectingModel::Done(decision),
{
}

/// A connection that is led to its decision follows a resolution that is led to its end. An error of
/// the resolution is its decision. Otherwise the filters of the selector and those that the
/// resolution collected decide, as the law on the decision by the filters says. A connection that
/// then stays local has `hostname` asked for the name behind its IP with port 0. Without a name it
/// is made to the address as it is. With one, `local` is asked for `name:port`, and its answer is
/// decided on as the law on the first IPv4 address says.
pub proof fn law_led_connection_follows_a_led_resolution<
    R: Fn(Query) -> Reply,
    H: Fn(SocketAddr) -> Option<String>,
    L: Fn(String) -> Result<Vec<SocketAddr>, std::io::Error>,
>(
    selector: SelectorModel,
    protocol: ConnectProtocol,
    address: SocketAddr,
    step: ResolvingModel,
    resolve: R,
    hostname: H,
    local: L,
    key: SocketAddr,
    decision: Detour<ConnectionThrough>,
)
    requires
        connecting_at(selector, protocol, address, step).leads_to(
            resolve,
            hostname,
            local,
            decision,
        ),
        key == match address {
            SocketAddr::V4 { ip, .. } => SocketAddr::V4 { ip, port: 0 },
            SocketAddr::V6 { ip, .. } => SocketAddr::V6 { ip, port: 0, flowinfo: 0, scope_id: 0 },
        },
    ensures
        exists|outcome: Result<Set<FilterModel>, HookError>| #[trigger]
            step.leads_to(resolve, outcome) && match outcome {
                Err(error) => decision == Detour::<ConnectionThrough>::Error(error),
                Ok(found) => match decide(selector, protocol, address, found) {
                    ConnectingModel::Done(made) => decision == made,
                    _ => exists|name: Option<String>| #[trigger]
                        call_ensures(hostname, (key,), name) && match name {
                            None => decision == Detour::Success(ConnectionThrough::Local(address)),
                            Some(name) => exists|
                                target: String,
                                reply: Result<Vec<SocketAddr>, std::io::Error>,
                            | #[trigger]
                                call_ensures(local, (target,), reply) && target@ == name@ + seq![
                                    ':',
                                ] + decimal(address.spec_port() as nat) && match reply {
                                    Err(error) => decision
                                        == Detour::<ConnectionThrough>::Error(
                                        HookError::IO(error),
                                    ),
                                    Ok(addresses) => decision == decide_local(Ok(addresses@)),
                                },
                        },
                },
            },
    decreases step.open_questions(),
{
    reveal_with_fuel(ConnectingModel::leads_to, 3);
    match step {
        ResolvingModel::Ask(resolution) => {
            let (query, reply) = choose|query: Query, reply: Reply|
                resolution.asks(query) && #[trigger] call_ensures(resolve, (query,), reply)
                    && after_host(selector, protocol, address, resolution, reply@).leads_to(
                    resolve,
                    hostname,
                    local,
                    decision,
                );
            match resolution.answer(reply@) {
                Err(error) => {
                    assert(step.leads_to(resolve, Err(error)));
                },
                Ok(next) => {
                    law_led_connection_follows_a_led_resolution(
                        selector,
                        protocol,
                        address,
                        next,
                        resolve,
                        hostname,
                        local,
                        key,
                        decision,
                    );
                    assert forall|outcome: Result<Set<FilterModel>, HookError>| #[trigger]
                        next.leads_to(resolve, outcome) implies step.leads_to(
                        resolve,
                        outcome,
                    ) by {
                    }
                },
            }
        },
        ResolvingModel::Done(found) => {
            assert(step.leads_to(resolve, Ok(found)));
            if let ConnectingModel::Lookup { .. } = decide(selector, protocol, address, found) {
                let name = choose|name: Option<String>| #[trigger]
                    call_ensures(hostname, (spec_key(address),), name) && after_lookup(
                        address,
                        name_view(name),
                    ).leads_to(resolve, hostname, local, decision);
                assert(spec_key(address) == key);
                assert(call_ensures(hostname, (key,), name));
                if let Some(found_name) = name {
                    let text = spec_host_port(found_name@, address.spec_port());
                    assert(text =~= found_name@ + seq![':'] + decimal(
                        address.spec_port() as nat,
                    ));
                    let (target, reply) = choose|
                        target: String,
                        reply: Result<Vec<SocketAddr>, std::io::Error>,
                    |
                        target@ == text && #[trigger] call_ensures(local, (target,), reply)
                            && decision == decide_local(addresses_view(reply));
                    assert(call_ensures(local, (target,), reply));
                }
            }
        },
    }
}

/// Leading a connection that was started for a selector is following the resolution of the names
/// among its filters, as the law on led connections says.
pub proof fn law_lead_decides_what_was_started<
    const PROTOCOL: bool,
    R: Fn(Query) -> Reply,
    H: Fn(SocketAddr) -> Option<String>,
    L: Fn(String) -> Result<Vec<SocketAddr>, std::io::Error>,
>(
    selector: OutgoingSelector,
    filters: Set<FilterModel>,
    address: SocketAddr,
    remote_dns: bool,
    next: Connecting,
    resolve: R,
    hostname: H,
    local: L,
    decision: Detour<ConnectionThrough>,
)
    requires
        call_ensures(
            OutgoingSelector::get_connection_through::<PROTOCOL>,
            (&selector, address, remote_dns),
            next,
        ),
        call_ensures(Connecting::lead::<R, H, L>, (next, resolve, hostname, local), decision),
        match selector {
            OutgoingSelector::Unfiltered => filters == Set::<FilterModel>::empty(),
            OutgoingSelector::Remote(set) => filters == set@,
            OutgoingSelector::Local(set) => filters == set@,
        },
    ensures
        exists|hosts: Seq<HostModel>| #[trigger]
            lists_hosts(hosts, filters) && connecting_at(
                selector@,
                PROTOCOL,
                address,
                ResolvingModel::at(remote_dns && selector is Remote, hosts, Set::empty()),
            ).leads_to(resolve, hostname, local, decision),
{
    assert(selector@.filters() == filters);
}

/// A connection whose names are resolved stands at the decision by the filters, and one that has
/// names left asks for them.
pub proof fn law_connection_stands_where_its_resolution_stands(
    selector: SelectorModel,
    protocol: ConnectProtocol,
    address: SocketAddr,
    resolution: ResolutionModel,
    resolved: Set<FilterModel>,
    remote: bool,
)
    ensures
        connecting_at(selector, protocol, address, ResolvingModel::Ask(resolution)) == (
        ConnectingModel::Resolve { selector, protocol, address, resolution }),
        connecting_at(selector, protocol, address, ResolvingModel::Done(resolved)) == decide(
            selector,
            protocol,
            address,
            resolved,
        ),
        connecting_at(
            selector,
            protocol,
            address,
            ResolvingModel::Ask(resolution),
        ).puts_questions_to(remote) <==> resolution.remote == remote,
        connecting_at(
            selector,
            protocol,
            address,
            ResolvingModel::Done(resolved),
        ).puts_questions_to(remote),
{
}

/// Somebody answers as a world does exactly if every name and every list of addresses that they give
/// is the one that the world has, and their answers for hosts are those of the world.
pub proof fn law_answers_of_a_world<
    R: Fn(Query) -> Reply,
    H: Fn(SocketAddr) -> Option<String>,
    L: Fn(String) -> Result<Vec<SocketAddr>, std::io::Error>,
>(resolve: R, hostname: H, local: L, remote: bool, world: World)
    ensures
        answer_as(resolve, hostname, local, remote, world) <==> {
            &&& answers_with(resolve, remote, world.replies)
            &&& forall|key: SocketAddr, name: Option<String>| #[trigger]
                call_ensures(hostname, (key,), name) ==> match name {
                    None => (world.hostname)(key) == None::<Seq<char>>,
                    Some(name) => (world.hostname)(key) == Some(name@),
                }
            &&& forall|text: String, reply: Result<Vec<SocketAddr>, std::io::Error>| #[trigger]
                call_ensures(local, (text,), reply) ==> match reply {
                    Ok(addresses) => (world.local)(text@) == Ok::<Seq<SocketAddr>, std::io::Error>(
                        addresses@,
                    ),
                    Err(error) => (world.local)(text@) == Err::<Seq<SocketAddr>, std::io::Error>(
                        error,
                    ),
                }
        },
{
}

} // verus!
