//! Resolution of the host names among the filters, one question at a time.
use crate::address::{IpAddr, SocketAddr};
use crate::detour::HookError;
use crate::filter::{AddressFilter, AddressModel, FilterModel, OutgoingFilter, ProtocolFilter};
use crate::filter_set::{filter_models, FilterSet};
use crate::selector::OutgoingSelector;
use crate::text::{decimal, host_port, spec_host_port};
use std::collections::VecDeque;
use vstd::prelude::*;

verus! {

/// A host name that a filter speaks of.
#[derive(Debug)]
pub struct Host {
    pub protocol: ProtocolFilter,
    pub name: String,
    pub port: u16,
}

/// What a [`Host`] says.
pub struct HostModel {
    pub protocol: ProtocolFilter,
    pub name: Seq<char>,
    pub port: u16,
}

impl View for Host {
    type V = HostModel;

    open spec fn view(&self) -> HostModel {
        HostModel { protocol: self.protocol, name: self.name@, port: self.port }
    }
}

impl HostModel {
    /// The filter that speaks of this host.
    pub open spec fn filter(self) -> FilterModel {
        FilterModel {
            protocol: self.protocol,
            address: AddressModel::Name(self.name, self.port),
        }
    }

    /// The filter that stands for this host once it is known to have the address `ip`.
    pub open spec fn resolved_filter(self, ip: IpAddr) -> FilterModel {
        FilterModel {
            protocol: self.protocol,
            address: AddressModel::Socket(SocketAddr::spec_new(ip, self.port)),
        }
    }

    /// The filters that stand for this host once it is known to have the addresses `ips`.
    pub open spec fn resolved_filters(self, ips: Seq<IpAddr>) -> Set<FilterModel> {
        Set::new(
            |filter: FilterModel|
                exists|i: int|
                    0 <= i < ips.len() && filter == self.resolved_filter(#[trigger] ips[i]),
        )
    }
}

/// The host names among `filters`.
pub open spec fn named_hosts(filters: Set<FilterModel>) -> Set<HostModel> {
    Set::new(|host: HostModel| filters.contains(host.filter()))
}

/// What the hosts of a list say.
pub open spec fn host_models(hosts: Seq<Host>) -> Seq<HostModel> {
    hosts.map_values(|host: Host| host@)
}

/// A question that somebody with access to the network has to answer.
#[derive(Debug)]
pub enum Query {
    /// The agent is to resolve `name`, with `port`.
    Remote { name: String, port: u16 },
    /// The system is to resolve `target`, which has the form `name:port`.
    Local { target: String },
}

/// The answer to a [`Query`].
#[derive(Debug)]
pub enum Reply {
    /// The names and addresses that the agent gave, or its error.
    Remote(Result<Vec<(String, SocketAddr)>, HookError>),
    /// The addresses that the system gave, or its error.
    Local(Result<Vec<SocketAddr>, std::io::Error>),
}

impl View for Reply {
    type V = Result<Seq<IpAddr>, HookError>;

    /// The IP addresses in the answer, or the error. The names and the ports in it carry no meaning.
    open spec fn view(&self) -> Result<Seq<IpAddr>, HookError> {
        match *self {
            Reply::Remote(Ok(list)) => Ok(
                list@.map_values(|entry: (String, SocketAddr)| entry.1.spec_ip()),
            ),
            Reply::Remote(Err(error)) => Err(error),
            Reply::Local(Ok(list)) => Ok(list@.map_values(|address: SocketAddr| address.spec_ip())),
            Reply::Local(Err(error)) => Err(HookError::IO(error)),
        }
    }
}

impl Reply {
    /// The IP addresses in the answer, or the error.
    pub fn into_ips(self) -> (ips: Result<Vec<IpAddr>, HookError>)
        ensures
            match ips {
                Ok(ips) => self@ == Ok::<Seq<IpAddr>, HookError>(ips@),
                Err(error) => self@ == Err::<Seq<IpAddr>, HookError>(error),
            },
    {
        match self {
            Reply::Remote(Ok(list)) => {
                let mut ips: Vec<IpAddr> = Vec::new();
                let mut index: usize = 0;
                while index < list.len()
                    invariant
                        index <= list@.len(),
                        ips@.len() == index,
                        forall|i: int| 0 <= i < index ==> #[trigger] ips@[i] == list@[i].1.spec_ip(),
                    decreases list@.len() - index,
                {
                    ips.push(list[index].1.ip());
                    index += 1;
                }
                assert(ips@ =~= list@.map_values(
                    |entry: (String, SocketAddr)| entry.1.spec_ip(),
                ));
                Ok(ips)
            },
            Reply::Remote(Err(error)) => Err(error),
            Reply::Local(Ok(list)) => {
                let mut ips: Vec<IpAddr> = Vec::new();
                let mut index: usize = 0;
                while index < list.len()
                    invariant
                        index <= list@.len(),
                        ips@.len() == index,
                        forall|i: int| 0 <= i < index ==> #[trigger] ips@[i] == list@[i].spec_ip(),
                    decreases list@.len() - index,
                {
                    ips.push(list[index].ip());
                    index += 1;
                }
                assert(ips@ =~= list@.map_values(|address: SocketAddr| address.spec_ip()));
                Ok(ips)
            },
            Reply::Local(Err(error)) => Err(HookError::IO(error)),
        }
    }
}

/// A resolution that waits for the addresses of `host`.
#[derive(Debug)]
pub struct Resolution {
    /// The agent resolves the names, in place of the system.
    pub remote: bool,
    /// The host whose addresses are asked for.
    pub host: Host,
    /// The hosts that come after it.
    pub rest: VecDeque<Host>,
    /// The filters that stand for the hosts before it.
    pub resolved: FilterSet,
}

/// How far a resolution has come.
#[derive(Debug)]
pub enum Resolving {
    /// The addresses of a host are needed.
    Ask(Resolution),
    /// Every name is resolved; these filters stand for them.
    Done(FilterSet),
}

/// What a [`Resolution`] says.
pub struct ResolutionModel {
    pub remote: bool,
    pub host: HostModel,
    pub rest: Seq<HostModel>,
    pub resolved: Set<FilterModel>,
}

/// What a [`Resolving`] says.
pub enum ResolvingModel {
    Ask(ResolutionModel),
    Done(Set<FilterModel>),
}

impl View for Resolution {
    type V = ResolutionModel;

    open spec fn view(&self) -> ResolutionModel {
        ResolutionModel {
            remote: self.remote,
            host: self.host@,
            rest: host_models(self.rest@),
            resolved: self.resolved@,
        }
    }
}

impl View for Resolving {
    type V = ResolvingModel;

    open spec fn view(&self) -> ResolvingModel {
        match *self {
            Resolving::Ask(resolution) => ResolvingModel::Ask(resolution@),
            Resolving::Done(resolved) => ResolvingModel::Done(resolved@),
        }
    }
}

impl ResolvingModel {
    /// The resolution that has `hosts` before it and `resolved` behind it.
    pub open spec fn at(
        remote: bool,
        hosts: Seq<HostModel>,
        resolved: Set<FilterModel>,
    ) -> ResolvingModel {
        if hosts.len() == 0 {
            ResolvingModel::Done(resolved)
        } else {
            ResolvingModel::Ask(
                ResolutionModel { remote, host: hosts[0], rest: hosts.drop_first(), resolved },
            )
        }
    }
}

impl ResolutionModel {
    /// `query` is the question that the resolution asks: its host, put to the agent or to the
    /// system.
    pub open spec fn asks(self, query: Query) -> bool {
        match query {
            Query::Remote { name, port } => self.remote && name@ == self.host.name && port
                == self.host.port,
            Query::Local { target } => !self.remote && target@ == spec_host_port(
                self.host.name,
                self.host.port,
            ),
        }
    }

    /// What comes of an answer: an error ends the resolution, and addresses take it to the next
    /// host.
    pub open spec fn answer(self, reply: Result<Seq<IpAddr>, HookError>) -> Result<
        ResolvingModel,
        HookError,
    > {
        match reply {
            Ok(ips) => Ok(
                ResolvingModel::at(
                    self.remote,
                    self.rest,
                    self.resolved.union(self.host.resolved_filters(ips)),
                ),
            ),
            Err(error) => Err(error),
        }
    }
}

/// Goes to the first of `hosts`, if there is one.
fn resolving_at(remote: bool, hosts: VecDeque<Host>, resolved: FilterSet) -> (step: Resolving)
    ensures
        step@ == ResolvingModel::at(remote, host_models(hosts@), resolved@),
{
    let ghost all = hosts@;
    let mut hosts = hosts;
    match hosts.pop_front() {
        None => Resolving::Done(resolved),
        Some(host) => {
            assert(host_models(hosts@) =~= host_models(all).drop_first());
            Resolving::Ask(Resolution { remote, host, rest: hosts, resolved })
        },
    }
}

impl Resolution {
    /// The question whose answer the resolution waits for.
    pub fn query(&self) -> (query: Query)
        ensures
            self@.asks(query),
    {
        if self.remote {
            Query::Remote { name: self.host.name.clone(), port: self.host.port }
        } else {
            Query::Local { target: host_port(&self.host.name, self.host.port) }
        }
    }

    /// Takes the answer to the question, and goes on to the next host.
    pub fn answer(self, reply: Reply) -> (step: Result<Resolving, HookError>)
        ensures
            match step {
                Ok(step) => self@.answer(reply@) == Ok::<ResolvingModel, HookError>(step@),
                Err(error) => self@.answer(reply@) == Err::<ResolvingModel, HookError>(error),
            },
    {
        let ips = match reply.into_ips() {
            Ok(ips) => ips,
            Err(error) => {
                return Err(error);
            },
        };
        let ghost host = self.host@;
        let ghost before = self.resolved@;
        let Resolution { remote, host: Host { protocol, name: _, port }, rest, resolved } = self;
        let mut resolved = resolved;
        let mut index: usize = 0;
        assert(resolved@ =~= before.union(host.resolved_filters(ips@.take(0))));
        while index < ips.len()
            invariant
                index <= ips@.len(),
                protocol == host.protocol,
                port == host.port,
                resolved@ == before.union(host.resolved_filters(ips@.take(index as int))),
            decreases ips@.len() - index,
        {
            let ghost seen = ips@.take(index as int);
            let ghost now = ips@.take(index + 1);
            resolved.insert(
                OutgoingFilter {
                    protocol,
                    address: AddressFilter::Socket(SocketAddr::new(ips[index], port)),
                },
            );
            proof {
                assert forall|filter: FilterModel|
                    resolved@.contains(filter) == before.union(
                        host.resolved_filters(now),
                    ).contains(filter) by {
                    assert(now[index as int] == ips@[index as int]);
                    if host.resolved_filters(seen).contains(filter) {
                        let i = choose|i: int|
                            0 <= i < seen.len() && filter == host.resolved_filter(
                                #[trigger] seen[i],
                            );
                        assert(now[i] == seen[i]);
                    }
                    if host.resolved_filters(now).contains(filter) {
                        let i = choose|i: int|
                            0 <= i < now.len() && filter == host.resolved_filter(#[trigger] now[i]);
                        if i < index {
                            assert(seen[i] == now[i]);
                        }
                    }
                }
                assert(resolved@ =~= before.union(host.resolved_filters(now)));
            }
            index += 1;
        }
        assert(ips@.take(ips@.len() as int) =~= ips@);
        Ok(resolving_at(remote, rest, resolved))
    }
}

/// Lists the host names among `filters`, each of them once, in no particular order.
pub fn unresolved_hosts(filters: &FilterSet) -> (hosts: VecDeque<Host>)
    ensures
        host_models(hosts@).no_duplicates(),
        host_models(hosts@).to_set() == named_hosts(filters@),
{
    let list = filters.to_vec();
    let ghost models = filter_models(list@);
    let mut hosts: VecDeque<Host> = VecDeque::new();
    let mut index: usize = 0;
    while index < list.len()
        invariant
            index <= list@.len(),
            models == filter_models(list@),
            models.no_duplicates(),
            host_models(hosts@).no_duplicates(),
            forall|host: HostModel|
                host_models(hosts@).contains(host) <==> models.take(index as int).contains(
                    host.filter(),
                ),
        decreases list@.len() - index,
    {
        let ghost seen = models.take(index as int);
        let ghost now = models.take(index + 1);
        let ghost before = host_models(hosts@);
        let filter = &list[index];
        assert(models[index as int] == filter@);
        assert(now =~= seen.push(filter@));
        if let AddressFilter::Name(name, port) = &filter.address {
            let host = Host { protocol: filter.protocol, name: name.clone(), port: *port };
            let ghost model = host@;
            hosts.push_back(host);
            proof {
                assert(host_models(hosts@) =~= before.push(model));
                assert(model.filter() == filter@);
                assert(!seen.contains(filter@));
                assert(!before.contains(model));
            }
        }
        proof {
            assert forall|host: HostModel|
                host_models(hosts@).contains(host) <==> now.contains(host.filter()) by {
                vstd::seq_lib::lemma_seq_contains_after_push(seen, filter@, host.filter());
                if let AddressFilter::Name(name, port) = filter.address {
                    let model = HostModel { protocol: filter.protocol, name: name@, port };
                    assert(host_models(hosts@) =~= before.push(model));
                    vstd::seq_lib::lemma_seq_contains_after_push(before, model, host);
                } else {
                    assert(host_models(hosts@) == before);
                }
            }
        }
        index += 1;
    }
    proof {
        assert(models.take(models.len() as int) =~= models);
        assert(host_models(hosts@).to_set() =~= named_hosts(filters@)) by {
            assert forall|host: HostModel|
                host_models(hosts@).to_set().contains(host) == named_hosts(filters@).contains(
                    host,
                ) by {
                assert(models.to_set().contains(host.filter()) == models.contains(host.filter()));
            }
        }
    }
    hosts
}

/// `hosts` lists the host names among `filters`, each of them once, in some order.
pub open spec fn lists_hosts(hosts: Seq<HostModel>, filters: Set<FilterModel>) -> bool {
    hosts.no_duplicates() && hosts.to_set() == named_hosts(filters)
}

impl OutgoingSelector {
    /// Starts to resolve the filters that are host names.
    ///
    /// The agent resolves them if `REMOTE` is set and the user has DNS resolved remotely
    /// (`remote_dns`), and the system does otherwise. The filters that come out stand for socket
    /// addresses.
    pub fn resolve_dns<const REMOTE: bool>(&self, remote_dns: bool) -> (step: Resolving)
        ensures
            exists|hosts: Seq<HostModel>| #[trigger]
                lists_hosts(hosts, self@.filters()) && step@ == ResolvingModel::at(
                    remote_dns && REMOTE,
                    hosts,
                    Set::empty(),
                ),
    {
        let hosts = match self {
            OutgoingSelector::Unfiltered => unresolved_hosts(&FilterSet::new()),
            OutgoingSelector::Remote(filters) => unresolved_hosts(filters),
            OutgoingSelector::Local(filters) => unresolved_hosts(filters),
        };
        assert(lists_hosts(host_models(hosts@), self@.filters()));
        resolving_at(remote_dns && REMOTE, hosts, FilterSet::new())
    }
}

impl ResolvingModel {
    /// A resolution that puts its questions to `resolve` may end with `outcome`.
    pub open spec fn leads_to<R: Fn(Query) -> Reply>(
        self,
        resolve: R,
        outcome: Result<Set<FilterModel>, HookError>,
    ) -> bool
        decreases self.open_questions(),
    {
        match self {
            ResolvingModel::Done(resolved) => outcome == Ok::<Set<FilterModel>, HookError>(
                resolved,
            ),
            ResolvingModel::Ask(resolution) => exists|query: Query, reply: Reply|
                resolution.asks(query) && #[trigger] call_ensures(resolve, (query,), reply) && (
                match resolution.answer(reply@) {
                    Ok(next) => next.leads_to(resolve, outcome),
                    Err(error) => outcome == Err::<Set<FilterModel>, HookError>(error),
                }),
        }
    }
}

impl Resolving {
    /// Leads the resolution to its end: puts each question to `resolve` in turn.
    pub fn lead<R: Fn(Query) -> Reply>(self, resolve: R) -> (resolved: Result<
        FilterSet,
        HookError,
    >)
        requires
            forall|query: Query| call_requires(resolve, (query,)),
        ensures
            self@.leads_to(
                resolve,
                match resolved {
                    Ok(filters) => Ok(filters@),
                    Err(error) => Err(error),
                },
            ),
    {
        let mut step = self;
        loop
            invariant
                forall|query: Query| call_requires(resolve, (query,)),
                forall|outcome: Result<Set<FilterModel>, HookError>| #[trigger]
                    step@.leads_to(resolve, outcome) ==> self@.leads_to(resolve, outcome),
            decreases step@.open_questions(),
        {
            match step {
                Resolving::Done(resolved) => {
                    assert(step@.leads_to(resolve, Ok(resolved@)));
                    return Ok(resolved);
                },
                Resolving::Ask(resolution) => {
                    let ghost before = resolution@;
                    let query = resolution.query();
                    let ghost asked = query;
                    let reply = resolve(query);
                    let ghost told = reply;
                    assert(before.asks(asked) && call_ensures(resolve, (asked,), told));
                    match resolution.answer(reply) {
                        Ok(next) => {
                            proof {
                                assert forall|outcome: Result<Set<FilterModel>, HookError>|
                                    #[trigger] next@.leads_to(
                                        resolve,
                                        outcome,
                                    ) implies self@.leads_to(resolve, outcome) by {
                                    assert(ResolvingModel::Ask(before).leads_to(resolve, outcome));
                                }
                            }
                            step = next;
                        },
                        Err(error) => {
                            assert(ResolvingModel::Ask(before).leads_to(resolve, Err(error)));
                            return Err(error);
                        },
                    }
                },
            }
        }
    }
}

/// The answers that the world gives, by the host that is asked for.
pub type Replies = spec_fn(HostModel) -> Result<Seq<IpAddr>, HookError>;

impl ResolvingModel {
    /// The number of questions that are still open.
    pub open spec fn open_questions(self) -> nat {
        match self {
            ResolvingModel::Done(_) => 0,
            ResolvingModel::Ask(resolution) => 1 + resolution.rest.len(),
        }
    }

    /// The questions that are still open are put to the agent (`remote`), or to the system.
    pub open spec fn puts_questions_to(self, remote: bool) -> bool {
        match self {
            ResolvingModel::Done(_) => true,
            ResolvingModel::Ask(resolution) => resolution.remote == remote,
        }
    }

    /// What a resolution ends with if it is led to its end with these answers.
    pub open spec fn run(self, replies: Replies) -> Result<Set<FilterModel>, HookError>
        decreases self.open_questions(),
    {
        match self {
            ResolvingModel::Done(resolved) => Ok(resolved),
            ResolvingModel::Ask(resolution) => match resolution.answer(replies(resolution.host)) {
                Ok(next) => next.run(replies),
                Err(error) => Err(error),
            },
        }
    }
}

/// `resolve` gives these answers to the questions that are put to the agent (`remote`), or to those
/// that are put to the system. Of the others nothing is said, so that the two may know a host by
/// different addresses.
pub open spec fn answers_with<R: Fn(Query) -> Reply>(
    resolve: R,
    remote: bool,
    replies: Replies,
) -> bool {
    forall|resolution: ResolutionModel, query: Query, reply: Reply|
        resolution.remote == remote && #[trigger] resolution.asks(query)
            && #[trigger] call_ensures(resolve, (query,), reply) ==> reply@ == replies(
            resolution.host,
        )
}

/// A resolution that puts its questions to somebody who gives these answers ends as they say.
pub proof fn law_led_resolution_ends_as_answered<R: Fn(Query) -> Reply>(
    step: ResolvingModel,
    resolve: R,
    remote: bool,
    replies: Replies,
    outcome: Result<Set<FilterModel>, HookError>,
)
    requires
        answers_with(resolve, remote, replies),
        step.puts_questions_to(remote),
        step.leads_to(resolve, outcome),
    ensures
        outcome == step.run(replies),
    decreases step.open_questions(),
{
    if let ResolvingModel::Ask(resolution) = step {
        let (query, reply) = choose|query: Query, reply: Reply|
            resolution.asks(query) && #[trigger] call_ensures(resolve, (query,), reply) && (
            match resolution.answer(reply@) {
                Ok(next) => next.leads_to(resolve, outcome),
                Err(error) => outcome == Err::<Set<FilterModel>, HookError>(error),
            });
        assert(resolution.asks(query) && call_ensures(resolve, (query,), reply));
        if let Ok(next) = resolution.answer(reply@) {
            law_led_resolution_ends_as_answered(next, resolve, remote, replies, outcome);
        }
    }
}

/// The filters that stand for `hosts` if the world gives these answers.
pub open spec fn resolved_hosts(hosts: Set<HostModel>, replies: Replies) -> Set<FilterModel> {
    Set::new(
        |filter: FilterModel|
            exists|host: HostModel| #[trigger]
                hosts.contains(host) && replies(host) is Ok && host.resolved_filters(
                    replies(host)->Ok_0,
                ).contains(filter),
    )
}

/// A resolution whose questions are all answered collects exactly the filters that stand for its
/// hosts.
pub proof fn law_resolution_collects_every_answer(
    remote: bool,
    hosts: Seq<HostModel>,
    resolved: Set<FilterModel>,
    replies: Replies,
)
    requires
        forall|host: HostModel| hosts.contains(host) ==> (#[trigger] replies(host)) is Ok,
    ensures
        ResolvingModel::at(remote, hosts, resolved).run(replies) == Ok::<
            Set<FilterModel>,
            HookError,
        >(resolved.union(resolved_hosts(hosts.to_set(), replies))),
    decreases hosts.len(),
{
    if hosts.len() == 0 {
        assert(resolved.union(resolved_hosts(hosts.to_set(), replies)) =~= resolved);
    } else {
        let host = hosts[0];
        let rest = hosts.drop_first();
        assert(hosts.contains(host));
        assert(replies(host) is Ok);
        let next = resolved.union(host.resolved_filters(replies(host)->Ok_0));
        assert forall|other: HostModel| rest.contains(other) implies (#[trigger] replies(
            other,
        )) is Ok by {
            let i = choose|i: int| 0 <= i < rest.len() && rest[i] == other;
            assert(hosts[i + 1] == other);
        }
        law_resolution_collects_every_answer(remote, rest, next, replies);
        assert(next.union(resolved_hosts(rest.to_set(), replies)) =~= resolved.union(
            resolved_hosts(hosts.to_set(), replies),
        )) by {
            assert forall|filter: FilterModel|
                next.union(resolved_hosts(rest.to_set(), replies)).contains(filter)
                    == resolved.union(resolved_hosts(hosts.to_set(), replies)).contains(filter) by {
                if resolved_hosts(rest.to_set(), replies).contains(filter) {
                    let other = choose|other: HostModel| #[trigger]
                        rest.to_set().contains(other) && replies(other) is Ok
                            && other.resolved_filters(replies(other)->Ok_0).contains(filter);
                    let i = choose|i: int| 0 <= i < rest.len() && rest[i] == other;
                    assert(hosts[i + 1] == other);
                    assert(hosts.to_set().contains(other));
                }
                if host.resolved_filters(replies(host)->Ok_0).contains(filter) {
                    assert(hosts.to_set().contains(host));
                }
                if resolved_hosts(hosts.to_set(), replies).contains(filter) {
                    let other = choose|other: HostModel| #[trigger]
                        hosts.to_set().contains(other) && replies(other) is Ok
                            && other.resolved_filters(replies(other)->Ok_0).contains(filter);
                    let i = choose|i: int| 0 <= i < hosts.len() && hosts[i] == other;
                    if i > 0 {
                        assert(rest[i - 1] == other);
                        assert(rest.to_set().contains(other));
                    }
                }
            }
        }
    }
}

/// A resolution with a question that cannot be answered ends with the error of the first such
/// question.
pub proof fn law_resolution_stops_at_the_first_error(
    remote: bool,
    hosts: Seq<HostModel>,
    resolved: Set<FilterModel>,
    replies: Replies,
    index: int,
)
    requires
        0 <= index < hosts.len(),
        replies(hosts[index]) is Err,
        forall|i: int| 0 <= i < index ==> replies(#[trigger] hosts[i]) is Ok,
    ensures
        ResolvingModel::at(remote, hosts, resolved).run(replies) == Err::<
            Set<FilterModel>,
            HookError,
        >(replies(hosts[index])->Err_0),
    decreases index,
{
    if index > 0 {
        let rest = hosts.drop_first();
        assert(replies(hosts[0]) is Ok);
        assert(rest[index - 1] == hosts[index]);
        law_resolution_stops_at_the_first_error(
            remote,
            rest,
            resolved.union(hosts[0].resolved_filters(replies(hosts[0])->Ok_0)),
            replies,
            index - 1,
        );
    }
}

/// What stands for a resolved name is a socket address with the port of the filter, for the
/// protocol of the filter. No name is among it.
pub proof fn law_resolved_filters_are_sockets(
    filters: Set<FilterModel>,
    replies: Replies,
    filter: FilterModel,
)
    requires
        resolved_hosts(named_hosts(filters), replies).contains(filter),
    ensures
        filter.address is Socket,
        exists|host: HostModel| #[trigger]
            named_hosts(filters).contains(host) && filter.protocol == host.protocol
                && filter.address->Socket_0.spec_port() == host.port,
{
    let host = choose|host: HostModel| #[trigger]
        named_hosts(filters).contains(host) && replies(host) is Ok && host.resolved_filters(
            replies(host)->Ok_0,
        ).contains(filter);
    assert(named_hosts(filters).contains(host));
}

/// What a host and a list of hosts say is what they hold.
pub proof fn law_models_of_hosts(host: Host, hosts: Seq<Host>)
    ensures
        host@ == (HostModel { protocol: host.protocol, name: host.name@, port: host.port }),
        host_models(hosts).len() == hosts.len(),
        forall|i: int| 0 <= i < hosts.len() ==> #[trigger] host_models(hosts)[i] == (HostModel {
            protocol: hosts[i].protocol,
            name: hosts[i].name@,
            port: hosts[i].port,
        }),
{
}

/// A host is among the names of a set of filters exactly if the set has a filter with its protocol,
/// its name and its port.
pub proof fn law_named_hosts_are_the_names(
    filters: Set<FilterModel>,
    protocol: ProtocolFilter,
    name: Seq<char>,
    port: u16,
)
    ensures
        named_hosts(filters).contains((HostModel { protocol, name, port })) <==> filters.contains(
            (FilterModel { protocol, address: AddressModel::Name(name, port) }),
        ),
        (HostModel { protocol, name, port }).filter() == (FilterModel {
            protocol,
            address: AddressModel::Name(name, port),
        }),
{
}

/// What stands for a host with some addresses: one socket address with the port of the host for
/// each of them, IPv4 or IPv6, for the protocol of the host.
pub proof fn law_filters_for_addresses(host: HostModel, ips: Seq<IpAddr>)
    ensures
        forall|i: int|
            0 <= i < ips.len() ==> host.resolved_filters(ips).contains(
                (FilterModel {
                    protocol: host.protocol,
                    address: AddressModel::Socket(
                        match #[trigger] ips[i] {
                            IpAddr::V4(ip) => SocketAddr::V4 { ip, port: host.port },
                            IpAddr::V6(ip) => SocketAddr::V6 {
                                ip,
                                port: host.port,
                                flowinfo: 0,
                                scope_id: 0,
                            },
                        },
                    ),
                }),
            ),
        forall|filter: FilterModel| #[trigger]
            host.resolved_filters(ips).contains(filter) ==> exists|i: int|
                0 <= i < ips.len() && filter == (FilterModel {
                    protocol: host.protocol,
                    address: AddressModel::Socket(
                        match #[trigger] ips[i] {
                            IpAddr::V4(ip) => SocketAddr::V4 { ip, port: host.port },
                            IpAddr::V6(ip) => SocketAddr::V6 {
                                ip,
                                port: host.port,
                                flowinfo: 0,
                                scope_id: 0,
                            },
                        },
                    ),
                }),
{
    assert forall|i: int| 0 <= i < ips.len() implies host.resolved_filters(ips).contains(
        (FilterModel {
            protocol: host.protocol,
            address: AddressModel::Socket(
                match #[trigger] ips[i] {
                    IpAddr::V4(ip) => SocketAddr::V4 { ip, port: host.port },
                    IpAddr::V6(ip) => SocketAddr::V6 {
                        ip,
                        port: host.port,
                        flowinfo: 0,
                        scope_id: 0,
                    },
                },
            ),
        }),
    ) by {
        assert(host.resolved_filters(ips).contains(host.resolved_filter(ips[i])));
    }
}

/// An answer of the system holds the IP of every address in it, in the same place, and so does an
/// answer of the agent. An error is handed on: that of the agent as it is, and that of the system as
/// one of input and output.
pub proof fn law_reply_gives_every_address(reply: Reply, ips: Result<Vec<IpAddr>, HookError>)
    requires
        call_ensures(Reply::into_ips, (reply,), ips),
    ensures
        match reply {
            Reply::Local(Ok(list)) => ips matches Ok(ips) && ips@.len() == list@.len() && reply@
                == Ok::<Seq<IpAddr>, HookError>(ips@) && forall|i: int|
                0 <= i < list@.len() ==> #[trigger] ips@[i] == match list@[i] {
                    SocketAddr::V4 { ip, .. } => IpAddr::V4(ip),
                    SocketAddr::V6 { ip, .. } => IpAddr::V6(ip),
                },
            Reply::Remote(Ok(list)) => ips matches Ok(ips) && ips@.len() == list@.len() && reply@
                == Ok::<Seq<IpAddr>, HookError>(ips@) && forall|i: int|
                0 <= i < list@.len() ==> #[trigger] ips@[i] == match list@[i].1 {
                    SocketAddr::V4 { ip, .. } => IpAddr::V4(ip),
                    SocketAddr::V6 { ip, .. } => IpAddr::V6(ip),
                },
            Reply::Local(Err(error)) => ips == Err::<Vec<IpAddr>, HookError>(HookError::IO(error))
                && reply@ == Err::<Seq<IpAddr>, HookError>(HookError::IO(error)),
            Reply::Remote(Err(error)) => ips == Err::<Vec<IpAddr>, HookError>(error) && reply@
                == Err::<Seq<IpAddr>, HookError>(error),
        },
{
}

/// What an answer says, in the addresses that it holds.
pub proof fn law_models_of_replies(reply: Reply)
    ensures
        match reply {
            Reply::Local(Ok(list)) => reply@ matches Ok(ips) && ips.len() == list@.len() && forall|
                i: int,
            |
                0 <= i < list@.len() ==> #[trigger] ips[i] == match list@[i] {
                    SocketAddr::V4 { ip, .. } => IpAddr::V4(ip),
                    SocketAddr::V6 { ip, .. } => IpAddr::V6(ip),
                },
            Reply::Remote(Ok(list)) => reply@ matches Ok(ips) && ips.len() == list@.len() && forall|
                i: int,
            |
                0 <= i < list@.len() ==> #[trigger] ips[i] == match list@[i].1 {
                    SocketAddr::V4 { ip, .. } => IpAddr::V4(ip),
                    SocketAddr::V6 { ip, .. } => IpAddr::V6(ip),
                },
            Reply::Local(Err(error)) => reply@ == Err::<Seq<IpAddr>, HookError>(
                HookError::IO(error),
            ),
            Reply::Remote(Err(error)) => reply@ == Err::<Seq<IpAddr>, HookError>(error),
        },
{
}

/// What a resolution says is what it holds.
pub proof fn law_models_of_resolutions(resolution: Resolution, resolved: FilterSet)
    ensures
        resolution@.remote == resolution.remote,
        resolution@.host == resolution.host@,
        resolution@.rest.len() == resolution.rest@.len(),
        forall|i: int|
            0 <= i < resolution.rest@.len() ==> #[trigger] resolution@.rest[i]
                == resolution.rest@[i]@,
        resolution@.resolved == resolution.resolved@,
        Resolving::Ask(resolution)@ == ResolvingModel::Ask(resolution@),
        Resolving::Done(resolved)@ == ResolvingModel::Done(resolved@),
{
}

/// After an answer with addresses, of the system or of the agent, the resolution has every filter
/// that it had, and for every address in the answer the socket address of that IP with the port of
/// the host, for the protocol of the host. It has nothing else.
pub proof fn law_answer_adds_every_address(
    resolution: Resolution,
    reply: Reply,
    addresses: Seq<SocketAddr>,
    step: Resolving,
    resolved: Set<FilterModel>,
)
    requires
        call_ensures(Resolution::answer, (resolution, reply), Ok(step)),
        match reply {
            Reply::Local(Ok(list)) => list@ == addresses,
            Reply::Remote(Ok(list)) => list@.len() == addresses.len() && forall|i: int|
                0 <= i < addresses.len() ==> list@[i].1 == #[trigger] addresses[i],
            _ => false,
        },
        match step {
            Resolving::Ask(next) => next.resolved@ == resolved,
            Resolving::Done(found) => found@ == resolved,
        },
    ensures
        forall|filter: FilterModel| #[trigger]
            resolution.resolved@.contains(filter) ==> resolved.contains(filter),
        forall|i: int|
            0 <= i < addresses.len() ==> resolved.contains(
                (FilterModel {
                    protocol: resolution.host.protocol,
                    address: AddressModel::Socket(
                        match #[trigger] addresses[i] {
                            SocketAddr::V4 { ip, .. } => SocketAddr::V4 {
                                ip,
                                port: resolution.host.port,
                            },
                            SocketAddr::V6 { ip, .. } => SocketAddr::V6 {
                                ip,
                                port: resolution.host.port,
                                flowinfo: 0,
                                scope_id: 0,
                            },
                        },
                    ),
                }),
            ),
        forall|filter: FilterModel| #[trigger]
            resolved.contains(filter) ==> resolution.resolved@.contains(filter) || exists|
                i: int,
            |
                0 <= i < addresses.len() && filter == (FilterModel {
                    protocol: resolution.host.protocol,
                    address: AddressModel::Socket(
                        match #[trigger] addresses[i] {
                            SocketAddr::V4 { ip, .. } => SocketAddr::V4 {
                                ip,
                                port: resolution.host.port,
                            },
                            SocketAddr::V6 { ip, .. } => SocketAddr::V6 {
                                ip,
                                port: resolution.host.port,
                                flowinfo: 0,
                                scope_id: 0,
                            },
                        },
                    ),
                }),
{
    law_models_of_replies(reply);
    let ips = reply@->Ok_0;
    let host = resolution.host@;
    law_filters_for_addresses(host, ips);
    assert(ips.len() == addresses.len());
    assert forall|i: int| 0 <= i < addresses.len() implies #[trigger] ips[i] == match addresses[i] {
        SocketAddr::V4 { ip, .. } => IpAddr::V4(ip),
        SocketAddr::V6 { ip, .. } => IpAddr::V6(ip),
    } by {
    }
    assert(resolved == resolution.resolved@.union(host.resolved_filters(ips)));
    assert forall|i: int| 0 <= i < addresses.len() implies resolved.contains(
        (FilterModel {
            protocol: resolution.host.protocol,
            address: AddressModel::Socket(
                match #[trigger] addresses[i] {
                    SocketAddr::V4 { ip, .. } => SocketAddr::V4 { ip, port: resolution.host.port },
                    SocketAddr::V6 { ip, .. } => SocketAddr::V6 {
                        ip,
                        port: resolution.host.port,
                        flowinfo: 0,
                        scope_id: 0,
                    },
                },
            ),
        }),
    ) by {
        assert(host.resolved_filters(ips).contains(host.resolved_filter(ips[i])));
    }
    assert forall|filter: FilterModel| #[trigger] resolved.contains(
        filter,
    ) implies resolution.resolved@.contains(filter) || exists|i: int|
        0 <= i < addresses.len() && filter == (FilterModel {
            protocol: resolution.host.protocol,
            address: AddressModel::Socket(
                match #[trigger] addresses[i] {
                    SocketAddr::V4 { ip, .. } => SocketAddr::V4 { ip, port: resolution.host.port },
                    SocketAddr::V6 { ip, .. } => SocketAddr::V6 {
                        ip,
                        port: resolution.host.port,
                        flowinfo: 0,
                        scope_id: 0,
                    },
                },
            ),
        }) by {
        if host.resolved_filters(ips).contains(filter) {
            let i = choose|i: int|
                0 <= i < ips.len() && filter == host.resolved_filter(#[trigger] ips[i]);
            assert(addresses[i] == addresses[i]);
        }
    }
}

/// After an answer with addresses the resolution goes to the host that comes next, with the hosts
/// behind it left in their order and put to the same side, and it is done after the last host. After
/// an error it ends with that error.
pub proof fn law_answer_goes_to_the_next_host(
    resolution: Resolution,
    reply: Reply,
    step: Result<Resolving, HookError>,
)
    requires
        call_ensures(Resolution::answer, (resolution, reply), step),
    ensures
        match reply {
            Reply::Remote(Err(error)) => step == Err::<Resolving, HookError>(error),
            Reply::Local(Err(error)) => step == Err::<Resolving, HookError>(HookError::IO(error)),
            _ => match step {
                Ok(Resolving::Done(_)) => resolution.rest@.len() == 0,
                Ok(Resolving::Ask(next)) => {
                    &&& next.remote == resolution.remote
                    &&& resolution.rest@.len() == next.rest@.len() + 1
                    &&& next.host.protocol == resolution.rest@[0].protocol
                    &&& next.host.name@ == resolution.rest@[0].name@
                    &&& next.host.port == resolution.rest@[0].port
                    &&& forall|i: int|
                        0 <= i < next.rest@.len() ==> (#[trigger] next.rest@[i])@
                            == resolution.rest@[i + 1]@
                },
                Err(_) => false,
            },
        },
{
    let rest = host_models(resolution.rest@);
    if let Ok(Resolving::Ask(next)) = step {
        assert(next@.host == rest[0]);
        assert(next@.rest == rest.drop_first());
        assert(next@.rest.len() == next.rest@.len());
        assert forall|i: int| 0 <= i < next.rest@.len() implies (#[trigger] next.rest@[i])@
            == resolution.rest@[i + 1]@ by {
            assert(next@.rest[i] == next.rest@[i]@);
            assert(rest[i + 1] == resolution.rest@[i + 1]@);
        }
    }
}

/// The question is for the host that the resolution waits for: by its name and its port to the
/// agent, or as `name:port` to the system.
pub proof fn law_query_names_the_host(resolution: Resolution, query: Query)
    requires
        call_ensures(Resolution::query, (&resolution,), query),
    ensures
        match query {
            Query::Remote { name, port } => resolution.remote && name@ == resolution.host.name@
                && port == resolution.host.port,
            Query::Local { target } => !resolution.remote && target@ == resolution.host.name@
                + seq![':'] + decimal(resolution.host.port as nat),
        },
{
    if let Query::Local { target } = query {
        assert(target@ =~= resolution.host.name@ + seq![':'] + decimal(
            resolution.host.port as nat,
        ));
    }
}

/// The same of what a resolution says.
pub proof fn law_models_of_questions(resolution: ResolutionModel, query: Query)
    ensures
        resolution.asks(query) <==> match query {
            Query::Remote { name, port } => resolution.remote && name@ == resolution.host.name
                && port == resolution.host.port,
            Query::Local { target } => !resolution.remote && target@ == resolution.host.name
                + seq![':'] + decimal(resolution.host.port as nat),
        },
{
    assert(spec_host_port(resolution.host.name, resolution.host.port) =~= resolution.host.name
        + seq![':'] + decimal(resolution.host.port as nat));
}

/// The hosts that are listed are those that filters of the set name, each with the protocol and the
/// port of its filter, and none is listed twice.
pub proof fn law_hosts_are_listed_once(filters: FilterSet, hosts: VecDeque<Host>)
    requires
        call_ensures(unresolved_hosts, (&filters,), hosts),
    ensures
        forall|i: int|
            0 <= i < hosts@.len() ==> filters@.contains(
                (FilterModel {
                    protocol: (#[trigger] hosts@[i]).protocol,
                    address: AddressModel::Name(hosts@[i].name@, hosts@[i].port),
                }),
            ),
        forall|protocol: ProtocolFilter, name: Seq<char>, port: u16| #[trigger]
            filters@.contains(
                (FilterModel { protocol, address: AddressModel::Name(name, port) }),
            ) ==> exists|i: int|
                0 <= i < hosts@.len() && (#[trigger] hosts@[i]).protocol == protocol
                    && hosts@[i].name@ == name && hosts@[i].port == port,
        forall|i: int, j: int|
            0 <= i < j < hosts@.len() ==> (#[trigger] hosts@[i])@ != (#[trigger] hosts@[j])@,
{
    let models = host_models(hosts@);
    assert forall|i: int| 0 <= i < hosts@.len() implies filters@.contains(
        (FilterModel {
            protocol: (#[trigger] hosts@[i]).protocol,
            address: AddressModel::Name(hosts@[i].name@, hosts@[i].port),
        }),
    ) by {
        assert(models[i] == hosts@[i]@);
        assert(models.to_set().contains(models[i]));
        assert(named_hosts(filters@).contains(models[i]));
    }
    assert forall|protocol: ProtocolFilter, name: Seq<char>, port: u16| #[trigger]
        filters@.contains(
            (FilterModel { protocol, address: AddressModel::Name(name, port) }),
        ) implies exists|i: int|
        0 <= i < hosts@.len() && (#[trigger] hosts@[i]).protocol == protocol && hosts@[i].name@
            == name && hosts@[i].port == port by {
        let host = HostModel { protocol, name, port };
        assert(named_hosts(filters@).contains(host));
        assert(models.to_set().contains(host));
        let i = choose|i: int| 0 <= i < models.len() && models[i] == host;
        assert(hosts@[i]@ == host);
    }
    assert forall|i: int, j: int| 0 <= i < j < hosts@.len() implies (#[trigger] hosts@[i])@ != (
    #[trigger] hosts@[j])@ by {
        assert(models[i] == hosts@[i]@);
        assert(models[j] == hosts@[j]@);
    }
}

/// A list of the host names among some filters names what filters name, and nothing twice.
pub proof fn law_lists_of_hosts(hosts: Seq<HostModel>, filters: Set<FilterModel>)
    ensures
        lists_hosts(hosts, filters) <==> {
            &&& forall|i: int|
                0 <= i < hosts.len() ==> filters.contains(
                    (FilterModel {
                        protocol: (#[trigger] hosts[i]).protocol,
                        address: AddressModel::Name(hosts[i].name, hosts[i].port),
                    }),
                )
            &&& forall|protocol: ProtocolFilter, name: Seq<char>, port: u16| #[trigger]
                filters.contains(
                    (FilterModel { protocol, address: AddressModel::Name(name, port) }),
                ) ==> exists|i: int|
                    0 <= i < hosts.len() && #[trigger] hosts[i] == (HostModel {
                        protocol,
                        name,
                        port,
                    })
            &&& forall|i: int, j: int|
                0 <= i < j < hosts.len() ==> #[trigger] hosts[i] != #[trigger] hosts[j]
        },
{
    if lists_hosts(hosts, filters) {
        assert forall|i: int| 0 <= i < hosts.len() implies filters.contains(
            (FilterModel {
                protocol: (#[trigger] hosts[i]).protocol,
                address: AddressModel::Name(hosts[i].name, hosts[i].port),
            }),
        ) by {
            assert(hosts.to_set().contains(hosts[i]));
            assert(named_hosts(filters).contains(hosts[i]));
        }
        assert forall|protocol: ProtocolFilter, name: Seq<char>, port: u16| #[trigger]
            filters.contains(
                (FilterModel { protocol, address: AddressModel::Name(name, port) }),
            ) implies exists|i: int|
            0 <= i < hosts.len() && #[trigger] hosts[i] == (HostModel { protocol, name, port }) by {
            let host = HostModel { protocol, name, port };
            assert(named_hosts(filters).contains(host));
            assert(hosts.to_set().contains(host));
        }
    }
    if {
        &&& forall|i: int|
            0 <= i < hosts.len() ==> filters.contains(
                (FilterModel {
                    protocol: (#[trigger] hosts[i]).protocol,
                    address: AddressModel::Name(hosts[i].name, hosts[i].port),
                }),
            )
        &&& forall|protocol: ProtocolFilter, name: Seq<char>, port: u16| #[trigger]
            filters.contains(
                (FilterModel { protocol, address: AddressModel::Name(name, port) }),
            ) ==> exists|i: int|
                0 <= i < hosts.len() && #[trigger] hosts[i] == (HostModel { protocol, name, port })
        &&& forall|i: int, j: int|
            0 <= i < j < hosts.len() ==> #[trigger] hosts[i] != #[trigger] hosts[j]
    } {
        assert(hosts.no_duplicates());
        assert forall|host: HostModel|
            hosts.to_set().contains(host) == named_hosts(filters).contains(host) by {
            if hosts.contains(host) {
                let i = choose|i: int| 0 <= i < hosts.len() && hosts[i] == host;
                assert(filters.contains(host.filter()));
            }
            if named_hosts(filters).contains(host) {
                assert(filters.contains(
                    (FilterModel {
                        protocol: host.protocol,
                        address: AddressModel::Name(host.name, host.port),
                    }),
                ));
                let i = choose|i: int|
                    0 <= i < hosts.len() && #[trigger] hosts[i] == (HostModel {
                        protocol: host.protocol,
                        name: host.name,
                        port: host.port,
                    });
                assert(hosts[i] == host);
            }
        }
        assert(hosts.to_set() =~= named_hosts(filters));
    }
}

/// A resolution with hosts before it asks for the first of them and keeps the others in their order,
/// and one without is done. It keeps what it has, and puts its questions to the side that it is to
/// ask.
pub proof fn law_resolution_takes_hosts_in_order(
    remote: bool,
    hosts: Seq<HostModel>,
    resolved: Set<FilterModel>,
)
    ensures
        match ResolvingModel::at(remote, hosts, resolved) {
            ResolvingModel::Done(found) => hosts.len() == 0 && found == resolved,
            ResolvingModel::Ask(resolution) => {
                &&& hosts.len() == resolution.rest.len() + 1
                &&& resolution.remote == remote
                &&& resolution.host == hosts[0]
                &&& resolution.resolved == resolved
                &&& forall|i: int|
                    0 <= i < resolution.rest.len() ==> #[trigger] resolution.rest[i] == hosts[i + 1]
            },
        },
        ResolvingModel::at(remote, hosts, resolved).open_questions() == hosts.len(),
        ResolvingModel::at(remote, hosts, resolved).puts_questions_to(remote),
        hosts.len() > 0 ==> !ResolvingModel::at(remote, hosts, resolved).puts_questions_to(!remote),
{
}

/// The resolution of a selector starts without filters, and it asks for every name among the filters
/// of the selector, once, and for nothing else. The agent is asked if both the caller and the user
/// want that, and the system otherwise. A selector without names is resolved at once.
pub proof fn law_resolution_starts_with_the_names<const REMOTE: bool>(
    selector: OutgoingSelector,
    filters: Set<FilterModel>,
    remote_dns: bool,
    step: Resolving,
)
    requires
        call_ensures(OutgoingSelector::resolve_dns::<REMOTE>, (&selector, remote_dns), step),
        match selector {
            OutgoingSelector::Unfiltered => filters == Set::<FilterModel>::empty(),
            OutgoingSelector::Remote(set) => filters == set@,
            OutgoingSelector::Local(set) => filters == set@,
        },
    ensures
        match step {
            Resolving::Done(resolved) => {
                &&& resolved@ == Set::<FilterModel>::empty()
                &&& forall|filter: FilterModel| #[trigger]
                    filters.contains(filter) ==> !(filter.address is Name)
            },
            Resolving::Ask(resolution) => {
                &&& resolution.remote == (REMOTE && remote_dns)
                &&& resolution.resolved@ == Set::<FilterModel>::empty()
                &&& filters.contains(
                    (FilterModel {
                        protocol: resolution.host.protocol,
                        address: AddressModel::Name(resolution.host.name@, resolution.host.port),
                    }),
                )
                &&& forall|i: int|
                    0 <= i < resolution.rest@.len() ==> filters.contains(
                        (FilterModel {
                            protocol: (#[trigger] resolution.rest@[i]).protocol,
                            address: AddressModel::Name(
                                resolution.rest@[i].name@,
                                resolution.rest@[i].port,
                            ),
                        }),
                    )
                &&& forall|protocol: ProtocolFilter, name: Seq<char>, port: u16| #[trigger]
                    filters.contains(
                        (FilterModel { protocol, address: AddressModel::Name(name, port) }),
                    ) ==> {
                        ||| resolution.host@ == (HostModel { protocol, name, port })
                        ||| exists|i: int|
                            0 <= i < resolution.rest@.len() && (#[trigger] resolution.rest@[i])@
                                == (HostModel { protocol, name, port })
                    }
                &&& forall|i: int|
                    0 <= i < resolution.rest@.len() ==> (#[trigger] resolution.rest@[i])@
                        != resolution.host@
                &&& forall|i: int, j: int|
                    0 <= i < j < resolution.rest@.len() ==> (#[trigger] resolution.rest@[i])@ != (
                    #[trigger] resolution.rest@[j])@
            },
        },
{
    assert(selector@.filters() == filters);
    let hosts = choose|hosts: Seq<HostModel>| #[trigger]
        lists_hosts(hosts, filters) && step@ == ResolvingModel::at(
            remote_dns && REMOTE,
            hosts,
            Set::empty(),
        );
    law_lists_of_hosts(hosts, filters);
    match step {
        Resolving::Done(_) => {
            assert(hosts.len() == 0);
            assert forall|filter: FilterModel| #[trigger] filters.contains(filter) implies !(
            filter.address is Name) by {
                if let AddressModel::Name(name, port) = filter.address {
                    assert(filters.contains(
                        (FilterModel {
                            protocol: filter.protocol,
                            address: AddressModel::Name(name, port),
                        }),
                    ));
                }
            }
        },
        Resolving::Ask(resolution) => {
            lemma_hosts_of_a_resolution(resolution, hosts);
            assert(filters.contains(hosts[0].filter()));
            assert forall|i: int| 0 <= i < resolution.rest@.len() implies filters.contains(
                (FilterModel {
                    protocol: (#[trigger] resolution.rest@[i]).protocol,
                    address: AddressModel::Name(
                        resolution.rest@[i].name@,
                        resolution.rest@[i].port,
                    ),
                }),
            ) by {
                assert(filters.contains(
                    (FilterModel {
                        protocol: hosts[i + 1].protocol,
                        address: AddressModel::Name(hosts[i + 1].name, hosts[i + 1].port),
                    }),
                ));
            }
            assert forall|protocol: ProtocolFilter, name: Seq<char>, port: u16| #[trigger]
                filters.contains(
                    (FilterModel { protocol, address: AddressModel::Name(name, port) }),
                ) implies {
                ||| resolution.host@ == (HostModel { protocol, name, port })
                ||| exists|i: int|
                    0 <= i < resolution.rest@.len() && (#[trigger] resolution.rest@[i])@ == (
                    HostModel { protocol, name, port })
            } by {
                let i = choose|i: int|
                    0 <= i < hosts.len() && #[trigger] hosts[i] == (HostModel {
                        protocol,
                        name,
                        port,
                    });
                if i > 0 {
                    assert(resolution.rest@[i - 1]@ == hosts[i]);
                }
            }
            assert forall|i: int| 0 <= i < resolution.rest@.len() implies (
            #[trigger] resolution.rest@[i])@ != resolution.host@ by {
                assert(resolution.rest@[i]@ == hosts[i + 1]);
            }
            assert forall|i: int, j: int| 0 <= i < j < resolution.rest@.len() implies (
            #[trigger] resolution.rest@[i])@ != (#[trigger] resolution.rest@[j])@ by {
                assert(resolution.rest@[i]@ == hosts[i + 1]);
                assert(resolution.rest@[j]@ == hosts[j + 1]);
            }
        },
    }
}

proof fn lemma_hosts_of_a_resolution(resolution: Resolution, hosts: Seq<HostModel>)
    requires
        hosts.len() > 0,
        resolution@.host == hosts[0],
        resolution@.rest == hosts.drop_first(),
    ensures
        resolution.host@ == hosts[0],
        resolution.rest@.len() == hosts.len() - 1,
        forall|i: int|
            0 <= i < resolution.rest@.len() ==> (#[trigger] resolution.rest@[i])@ == hosts[i + 1],
        seq![resolution.host@] + host_models(resolution.rest@) == hosts,
{
    assert(resolution@.rest.len() == resolution.rest@.len());
    assert forall|i: int| 0 <= i < resolution.rest@.len() implies (#[trigger] resolution.rest@[i])@
        == hosts[i + 1] by {
        assert(resolution@.rest[i] == resolution.rest@[i]@);
    }
    assert(seq![resolution.host@] + host_models(resolution.rest@) =~= hosts);
}

/// A resolution that is led to its end asks for its hosts in their order, one question for each, of
/// the side that it is to ask. It collects what it had and every address of every answer, and
/// nothing else. It ends early at an answer that is an error, and only there, with that error.
pub proof fn law_led_resolution_asks_for_every_host<R: Fn(Query) -> Reply>(
    remote: bool,
    hosts: Seq<HostModel>,
    resolved: Set<FilterModel>,
    resolve: R,
    outcome: Result<Set<FilterModel>, HookError>,
)
    requires
        ResolvingModel::at(remote, hosts, resolved).leads_to(resolve, outcome),
    ensures
        exists|queries: Seq<Query>, replies: Seq<Reply>|
            {
                &&& #[trigger] queries.len() == #[trigger] replies.len()
                &&& replies.len() <= hosts.len()
                &&& forall|i: int|
                    0 <= i < replies.len() ==> call_ensures(
                        resolve,
                        (queries[i],),
                        #[trigger] replies[i],
                    )
                &&& forall|i: int|
                    0 <= i < queries.len() ==> match #[trigger] queries[i] {
                        Query::Remote { name, port } => remote && name@ == hosts[i].name && port
                            == hosts[i].port,
                        Query::Local { target } => !remote && target@ == hosts[i].name + seq![':']
                            + decimal(hosts[i].port as nat),
                    }
                &&& match outcome {
                    Ok(found) => {
                        &&& replies.len() == hosts.len()
                        &&& forall|i: int|
                            0 <= i < replies.len() ==> (#[trigger] replies[i])@ is Ok
                        &&& forall|filter: FilterModel| #[trigger]
                            found.contains(filter) <==> {
                                ||| resolved.contains(filter)
                                ||| exists|i: int|
                                    0 <= i < replies.len() && hosts[i].resolved_filters(
                                        (#[trigger] replies[i])@->Ok_0,
                                    ).contains(filter)
                            }
                    },
                    Err(error) => {
                        &&& replies.len() > 0
                        &&& replies.last()@ == Err::<Seq<IpAddr>, HookError>(error)
                        &&& forall|i: int|
                            0 <= i < replies.len() - 1 ==> (#[trigger] replies[i])@ is Ok
                    },
                }
            },
    decreases hosts.len(),
{
    if hosts.len() == 0 {
        let queries = Seq::<Query>::empty();
        let replies = Seq::<Reply>::empty();
        assert(queries.len() == replies.len());
    } else {
        let host = hosts[0];
        let rest = hosts.drop_first();
        let resolution = ResolutionModel { remote, host, rest, resolved };
        let (query, reply) = choose|query: Query, reply: Reply|
            resolution.asks(query) && #[trigger] call_ensures(resolve, (query,), reply) && (
            match resolution.answer(reply@) {
                Ok(next) => next.leads_to(resolve, outcome),
                Err(error) => outcome == Err::<Set<FilterModel>, HookError>(error),
            });
        law_models_of_questions(resolution, query);
        match reply@ {
            Err(error) => {
                let queries = seq![query];
                let replies = seq![reply];
                assert(queries.len() == replies.len());
            },
            Ok(ips) => {
                let more = resolved.union(host.resolved_filters(ips));
                law_led_resolution_asks_for_every_host(remote, rest, more, resolve, outcome);
                let (later, told) = choose|queries: Seq<Query>, replies: Seq<Reply>|
                    {
                        &&& #[trigger] queries.len() == #[trigger] replies.len()
                        &&& replies.len() <= rest.len()
                        &&& forall|i: int|
                            0 <= i < replies.len() ==> call_ensures(
                                resolve,
                                (queries[i],),
                                #[trigger] replies[i],
                            )
                        &&& forall|i: int|
                            0 <= i < queries.len() ==> match #[trigger] queries[i] {
                                Query::Remote { name, port } => remote && name@ == rest[i].name
                                    && port == rest[i].port,
                                Query::Local { target } => !remote && target@ == rest[i].name
                                    + seq![':'] + decimal(rest[i].port as nat),
                            }
                        &&& match outcome {
                            Ok(found) => {
                                &&& replies.len() == rest.len()
                                &&& forall|i: int|
                                    0 <= i < replies.len() ==> (#[trigger] replies[i])@ is Ok
                                &&& forall|filter: FilterModel| #[trigger]
                                    found.contains(filter) <==> {
                                        ||| more.contains(filter)
                                        ||| exists|i: int|
                                            0 <= i < replies.len() && rest[i].resolved_filters(
                                                (#[trigger] replies[i])@->Ok_0,
                                            ).contains(filter)
                                    }
                            },
                            Err(error) => {
                                &&& replies.len() > 0
                                &&& replies.last()@ == Err::<Seq<IpAddr>, HookError>(error)
                                &&& forall|i: int|
                                    0 <= i < replies.len() - 1 ==> (#[trigger] replies[i])@ is Ok
                            },
                        }
                    };
                let queries = seq![query] + later;
                let replies = seq![reply] + told;
                assert(queries.len() == replies.len());
                assert forall|i: int| 0 <= i < replies.len() implies call_ensures(
                    resolve,
                    (queries[i],),
                    #[trigger] replies[i],
                ) by {
                    if i > 0 {
                        assert(replies[i] == told[i - 1]);
                        assert(queries[i] == later[i - 1]);
                    }
                }
                assert forall|i: int| 0 <= i < queries.len() implies match #[trigger] queries[i] {
                    Query::Remote { name, port } => remote && name@ == hosts[i].name && port
                        == hosts[i].port,
                    Query::Local { target } => !remote && target@ == hosts[i].name + seq![':']
                        + decimal(hosts[i].port as nat),
                } by {
                    if i > 0 {
                        assert(queries[i] == later[i - 1]);
                        assert(rest[i - 1] == hosts[i]);
                    }
                }
                match outcome {
                    Ok(found) => {
                        assert forall|i: int| 0 <= i < replies.len() implies (
                        #[trigger] replies[i])@ is Ok by {
                            if i > 0 {
                                assert(replies[i] == told[i - 1]);
                            }
                        }
                        assert forall|filter: FilterModel| #[trigger] found.contains(filter) == ({
                            ||| resolved.contains(filter)
                            ||| exists|i: int|
                                0 <= i < replies.len() && hosts[i].resolved_filters(
                                    (#[trigger] replies[i])@->Ok_0,
                                ).contains(filter)
                        }) by {
                            if exists|i: int|
                                0 <= i < told.len() && rest[i].resolved_filters(
                                    (#[trigger] told[i])@->Ok_0,
                                ).contains(filter) {
                                let i = choose|i: int|
                                    0 <= i < told.len() && rest[i].resolved_filters(
                                        (#[trigger] told[i])@->Ok_0,
                                    ).contains(filter);
                                assert(replies[i + 1] == told[i]);
                                assert(hosts[i + 1] == rest[i]);
                            }
                            if host.resolved_filters(ips).contains(filter) {
                                assert(replies[0] == reply);
                            }
                            if exists|i: int|
                                0 <= i < replies.len() && hosts[i].resolved_filters(
                                    (#[trigger] replies[i])@->Ok_0,
                                ).contains(filter) {
                                let i = choose|i: int|
                                    0 <= i < replies.len() && hosts[i].resolved_filters(
                                        (#[trigger] replies[i])@->Ok_0,
                                    ).contains(filter);
                                if i > 0 {
                                    assert(told[i - 1] == replies[i]);
                                    assert(rest[i - 1] == hosts[i]);
                                }
                            }
                        }
                    },
                    Err(_) => {
                        assert(replies.last() == told.last());
                        assert forall|i: int| 0 <= i < replies.len() - 1 implies (
                        #[trigger] replies[i])@ is Ok by {
                            if i > 0 {
                                assert(replies[i] == told[i - 1]);
                            }
                        }
                    },
                }
            },
        }
    }
}

/// Leading a resolution is asking for the host that it waits for and then for those behind it, as
/// the law on hosts in their order says. A resolution that is done gives what it has.
pub proof fn law_lead_asks_for_every_host<R: Fn(Query) -> Reply>(
    step: Resolving,
    hosts: Seq<HostModel>,
    resolve: R,
    resolved: Result<FilterSet, HookError>,
)
    requires
        call_ensures(Resolving::lead::<R>, (step, resolve), resolved),
        step matches Resolving::Ask(resolution) ==> hosts == seq![resolution.host@] + Seq::new(
            resolution.rest@.len(),
            |i: int| resolution.rest@[i]@,
        ),
    ensures
        match step {
            Resolving::Done(found) => resolved matches Ok(set) && set@ == found@,
            Resolving::Ask(resolution) => ResolvingModel::at(
                resolution.remote,
                hosts,
                resolution.resolved@,
            ).leads_to(
                resolve,
                match resolved {
                    Ok(set) => Ok(set@),
                    Err(error) => Err(error),
                },
            ),
        },
{
    if let Resolving::Ask(resolution) = step {
        assert(hosts.drop_first() =~= resolution@.rest);
    }
}

/// Somebody answers with these answers exactly if they are what every question for a host is answered
/// with: a question with the name and the port of the host, or one in the form `name:port`.
pub proof fn law_answers_by_host<R: Fn(Query) -> Reply>(resolve: R, remote: bool, replies: Replies)
    ensures
        answers_with(resolve, remote, replies) <==> forall|
            host: HostModel,
            query: Query,
            reply: Reply,
        |
            #![trigger call_ensures(resolve, (query,), reply), replies(host)]
            call_ensures(resolve, (query,), reply) && (match query {
                Query::Remote { name, port } => remote && name@ == host.name && port == host.port,
                Query::Local { target } => !remote && target@ == host.name + seq![':'] + decimal(
                    host.port as nat,
                ),
            }) ==> reply@ == replies(host),
{
    if answers_with(resolve, remote, replies) {
        assert forall|host: HostModel, query: Query, reply: Reply|
            #![trigger call_ensures(resolve, (query,), reply), replies(host)]
            call_ensures(resolve, (query,), reply) && (match query {
                Query::Remote { name, port } => remote && name@ == host.name && port == host.port,
                Query::Local { target } => !remote && target@ == host.name + seq![':'] + decimal(
                    host.port as nat,
                ),
            }) implies reply@ == replies(host) by {
            let resolution = ResolutionModel {
                remote,
                host,
                rest: Seq::empty(),
                resolved: Set::empty(),
            };
            law_models_of_questions(resolution, query);
            assert(resolution.asks(query));
        }
    }
    if forall|host: HostModel, query: Query, reply: Reply|
        #![trigger call_ensures(resolve, (query,), reply), replies(host)]
        call_ensures(resolve, (query,), reply) && (match query {
            Query::Remote { name, port } => remote && name@ == host.name && port == host.port,
            Query::Local { target } => !remote && target@ == host.name + seq![':'] + decimal(
                host.port as nat,
            ),
        }) ==> reply@ == replies(host) {
        assert forall|resolution: ResolutionModel, query: Query, reply: Reply|
            resolution.remote == remote && #[trigger] resolution.asks(query)
                && #[trigger] call_ensures(resolve, (query,), reply) implies reply@ == replies(
            resolution.host,
        ) by {
            law_models_of_questions(resolution, query);
        }
    }
}

/// What stands for some hosts is what stands for each of them that was answered.
pub proof fn law_filters_for_hosts(
    hosts: Set<HostModel>,
    replies: Replies,
    filter: FilterModel,
)
    ensures
        resolved_hosts(hosts, replies).contains(filter) <==> exists|host: HostModel, i: int|
            {
                &&& hosts.contains(host)
                &&& replies(host) is Ok
                &&& 0 <= i < replies(host)->Ok_0.len()
                &&& filter == (FilterModel {
                    protocol: host.protocol,
                    address: AddressModel::Socket(
                        match #[trigger] replies(host)->Ok_0[i] {
                            IpAddr::V4(ip) => SocketAddr::V4 { ip, port: host.port },
                            IpAddr::V6(ip) => SocketAddr::V6 {
                                ip,
                                port: host.port,
                                flowinfo: 0,
                                scope_id: 0,
                            },
                        },
                    ),
                })
            },
{
    if resolved_hosts(hosts, replies).contains(filter) {
        let host = choose|host: HostModel| #[trigger]
            hosts.contains(host) && replies(host) is Ok && host.resolved_filters(
                replies(host)->Ok_0,
            ).contains(filter);
        law_filters_for_addresses(host, replies(host)->Ok_0);
        let ips = replies(host)->Ok_0;
        let i = choose|i: int|
            0 <= i < ips.len() && filter == host.resolved_filter(#[trigger] ips[i]);
        assert(replies(host)->Ok_0[i] == ips[i]);
    }
    if exists|host: HostModel, i: int|
        {
            &&& hosts.contains(host)
            &&& replies(host) is Ok
            &&& 0 <= i < replies(host)->Ok_0.len()
            &&& filter == (FilterModel {
                protocol: host.protocol,
                address: AddressModel::Socket(
                    match #[trigger] replies(host)->Ok_0[i] {
                        IpAddr::V4(ip) => SocketAddr::V4 { ip, port: host.port },
                        IpAddr::V6(ip) => SocketAddr::V6 {
                            ip,
                            port: host.port,
                            flowinfo: 0,
                            scope_id: 0,
                        },
                    },
                ),
            })
        } {
        let (host, i) = choose|host: HostModel, i: int|
            {
                &&& hosts.contains(host)
                &&& replies(host) is Ok
                &&& 0 <= i < replies(host)->Ok_0.len()
                &&& filter == (FilterModel {
                    protocol: host.protocol,
                    address: AddressModel::Socket(
                        match #[trigger] replies(host)->Ok_0[i] {
                            IpAddr::V4(ip) => SocketAddr::V4 { ip, port: host.port },
                            IpAddr::V6(ip) => SocketAddr::V6 {
                                ip,
                                port: host.port,
                                flowinfo: 0,
                                scope_id: 0,
                            },
                        },
                    ),
                })
            };
        assert(filter == host.resolved_filter(replies(host)->Ok_0[i]));
        assert(hosts.contains(host));
    }
}

} // verus!
