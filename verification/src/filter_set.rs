//! Sets of outgoing filters, kept in a hash set.
//!
//! The hash set holds each filter as a [`Row`]: the same value, written in types of the standard
//! library alone, whose equality and hash are documented.
use crate::address::{SocketAddr, Subnet};
use crate::filter::{
    AddressFilter, AddressModel, FilterModel, OutgoingFilter, ProtocolFilter, TCP, UDP,
};
use vstd::prelude::*;

verus! {

/// A socket address: the IPv4 form, or else the IPv6 form.
pub type SocketRow = Result<(u32, u16), (u128, u16, u32, u32)>;

/// A subnet with a port: the address, IPv4 or else IPv6, then the prefix and the port.
pub type SubnetRow = (Result<u32, u128>, u8, u16);

/// A filter: its protocol, if it speaks of one, then a socket address, or else a name with a port,
/// or else a subnet with a port.
pub type Row = (Option<bool>, Result<SocketRow, Result<(String, u16), SubnetRow>>);

/// What a [`Row`] says.
pub type RowModel = (Option<bool>, Result<SocketRow, Result<(Seq<char>, u16), SubnetRow>>);

/// What `row` says: the same value, with the characters of the name in place of the string.
pub open spec fn row_model(row: Row) -> RowModel {
    (
        row.0,
        match row.1 {
            Ok(socket) => Ok(socket),
            Err(Ok((name, port))) => Err(Ok((name@, port))),
            Err(Err(subnet)) => Err(Err(subnet)),
        },
    )
}

/// A hash set of rows.
#[verifier::external_body]
#[derive(Debug)]
pub struct RowSet {
    rows: hashbrown::HashSet<Row>,
}

/// What the rows of a hash set say.
pub uninterp spec fn row_set(rows: RowSet) -> Set<RowModel>;

/// `hashbrown::HashSet::new`: the set is empty.
#[verifier::external_body]
fn new_row_set() -> (rows: RowSet)
    ensures
        row_set(rows) == Set::<RowModel>::empty(),
{
    RowSet { rows: hashbrown::HashSet::new() }
}

/// `hashbrown::HashSet::insert`: the row is in the set afterwards, every other row stays as it was,
/// and the result tells whether the row is new.
#[verifier::external_body]
fn insert_row(rows: &mut RowSet, row: Row) -> (fresh: bool)
    ensures
        row_set(*final(rows)) == row_set(*old(rows)).insert(row_model(row)),
        fresh == !row_set(*old(rows)).contains(row_model(row)),
{
    rows.rows.insert(row)
}

/// `hashbrown::HashSet::iter`, collected: each row of the set once, in an order of which nothing is
/// said.
#[verifier::external_body]
fn list_rows(rows: &RowSet) -> (list: Vec<Row>)
    ensures
        list@.map_values(|row: Row| row_model(row)).no_duplicates(),
        list@.map_values(|row: Row| row_model(row)).to_set() == row_set(*rows),
{
    rows.rows.iter().cloned().collect()
}

/// `hashbrown::HashSet::clone`: the copy holds the same rows.
#[verifier::external_body]
fn clone_rows(rows: &RowSet) -> (copy: RowSet)
    ensures
        row_set(copy) == row_set(*rows),
{
    RowSet { rows: rows.rows.clone() }
}

/// `hashbrown::HashSet::eq`: two sets are equal if they hold the same rows.
#[verifier::external_body]
fn same_rows(left: &RowSet, right: &RowSet) -> (same: bool)
    ensures
        same == (row_set(*left) == row_set(*right)),
{
    left.rows == right.rows
}

/// The row that stands for a socket address.
pub open spec fn socket_row(address: SocketAddr) -> SocketRow {
    match address {
        SocketAddr::V4 { ip, port } => Ok((ip, port)),
        SocketAddr::V6 { ip, port, flowinfo, scope_id } => Err((ip, port, flowinfo, scope_id)),
    }
}

/// The row that stands for a filter.
pub open spec fn filter_row(filter: FilterModel) -> RowModel {
    (
        match filter.protocol {
            ProtocolFilter::Any => None,
            ProtocolFilter::Tcp => Some(TCP),
            ProtocolFilter::Udp => Some(UDP),
        },
        match filter.address {
            AddressModel::Socket(address) => Ok(socket_row(address)),
            AddressModel::Name(name, port) => Err(Ok((name, port))),
            AddressModel::Subnet(Subnet::V4 { ip, prefix }, port) => Err(
                Err((Ok(ip), prefix, port)),
            ),
            AddressModel::Subnet(Subnet::V6 { ip, prefix }, port) => Err(
                Err((Err(ip), prefix, port)),
            ),
        },
    )
}

/// The filter that a row stands for.
pub open spec fn row_filter(row: RowModel) -> FilterModel {
    FilterModel {
        protocol: match row.0 {
            None => ProtocolFilter::Any,
            Some(protocol) => if protocol == TCP {
                ProtocolFilter::Tcp
            } else {
                ProtocolFilter::Udp
            },
        },
        address: match row.1 {
            Ok(Ok((ip, port))) => AddressModel::Socket(SocketAddr::V4 { ip, port }),
            Ok(Err((ip, port, flowinfo, scope_id))) => AddressModel::Socket(
                SocketAddr::V6 { ip, port, flowinfo, scope_id },
            ),
            Err(Ok((name, port))) => AddressModel::Name(name, port),
            Err(Err((Ok(ip), prefix, port))) => AddressModel::Subnet(
                Subnet::V4 { ip, prefix },
                port,
            ),
            Err(Err((Err(ip), prefix, port))) => AddressModel::Subnet(
                Subnet::V6 { ip, prefix },
                port,
            ),
        },
    }
}

/// Rows and filters stand for one another, one for one.
pub proof fn law_rows_are_filters(filter: FilterModel, row: RowModel)
    ensures
        row_filter(filter_row(filter)) == filter,
        filter_row(row_filter(row)) == row,
{
}

fn to_row(filter: OutgoingFilter) -> (row: Row)
    ensures
        row_model(row) == filter_row(filter@),
{
    let protocol = match filter.protocol {
        ProtocolFilter::Any => None,
        ProtocolFilter::Tcp => Some(TCP),
        ProtocolFilter::Udp => Some(UDP),
    };
    let address = match filter.address {
        AddressFilter::Socket(SocketAddr::V4 { ip, port }) => Ok(Ok((ip, port))),
        AddressFilter::Socket(SocketAddr::V6 { ip, port, flowinfo, scope_id }) => Ok(
            Err((ip, port, flowinfo, scope_id)),
        ),
        AddressFilter::Name(name, port) => Err(Ok((name, port))),
        AddressFilter::Subnet(Subnet::V4 { ip, prefix }, port) => Err(
            Err((Ok(ip), prefix, port)),
        ),
        AddressFilter::Subnet(Subnet::V6 { ip, prefix }, port) => Err(
            Err((Err(ip), prefix, port)),
        ),
    };
    (protocol, address)
}

fn from_row(row: &Row) -> (filter: OutgoingFilter)
    ensures
        filter@ == row_filter(row_model(*row)),
{
    let protocol = match &row.0 {
        None => ProtocolFilter::Any,
        Some(protocol) => if *protocol == TCP {
            ProtocolFilter::Tcp
        } else {
            ProtocolFilter::Udp
        },
    };
    let address = match &row.1 {
        Ok(Ok((ip, port))) => AddressFilter::Socket(SocketAddr::V4 { ip: *ip, port: *port }),
        Ok(Err((ip, port, flowinfo, scope_id))) => AddressFilter::Socket(
            SocketAddr::V6 { ip: *ip, port: *port, flowinfo: *flowinfo, scope_id: *scope_id },
        ),
        Err(Ok((name, port))) => AddressFilter::Name(name.clone(), *port),
        Err(Err((Ok(ip), prefix, port))) => AddressFilter::Subnet(
            Subnet::V4 { ip: *ip, prefix: *prefix },
            *port,
        ),
        Err(Err((Err(ip), prefix, port))) => AddressFilter::Subnet(
            Subnet::V6 { ip: *ip, prefix: *prefix },
            *port,
        ),
    };
    OutgoingFilter { protocol, address }
}

/// What the filters of a list say.
pub open spec fn filter_models(filters: Seq<OutgoingFilter>) -> Seq<FilterModel> {
    filters.map_values(|filter: OutgoingFilter| filter@)
}

/// A set of outgoing filters.
#[derive(Debug)]
pub struct FilterSet {
    rows: RowSet,
}

impl View for FilterSet {
    type V = Set<FilterModel>;

    closed spec fn view(&self) -> Set<FilterModel> {
        Set::new(|filter: FilterModel| row_set(self.rows).contains(filter_row(filter)))
    }
}

impl FilterSet {
    /// The set without filters.
    pub fn new() -> (set: FilterSet)
        ensures
            set@ == Set::<FilterModel>::empty(),
    {
        FilterSet { rows: new_row_set() }
    }

    /// Adds `filter`, and tells whether it is new.
    pub fn insert(&mut self, filter: OutgoingFilter) -> (fresh: bool)
        ensures
            final(self)@ == old(self)@.insert(filter@),
            fresh == !old(self)@.contains(filter@),
    {
        let row = to_row(filter);
        let fresh = insert_row(&mut self.rows, row);
        proof {
            assert forall|other: FilterModel|
                self@.contains(other) == old(self)@.insert(filter@).contains(other) by {
                law_rows_are_filters(other, filter_row(other));
                law_rows_are_filters(filter@, filter_row(filter@));
            }
        }
        fresh
    }

    /// Lists the filters of the set, each of them once, in no particular order.
    pub fn to_vec(&self) -> (filters: Vec<OutgoingFilter>)
        ensures
            filter_models(filters@).no_duplicates(),
            filter_models(filters@).to_set() == self@,
    {
        let rows = list_rows(&self.rows);
        let ghost models = rows@.map_values(|row: Row| row_model(row));
        let mut filters: Vec<OutgoingFilter> = Vec::new();
        let mut index: usize = 0;
        while index < rows.len()
            invariant
                index <= rows@.len(),
                models == rows@.map_values(|row: Row| row_model(row)),
                filters@.len() == index,
                forall|i: int| 0 <= i < index ==> (#[trigger] filters@[i])@ == row_filter(models[i]),
            decreases rows@.len() - index,
        {
            filters.push(from_row(&rows[index]));
            index += 1;
        }
        proof {
            let listed = filter_models(filters@);
            assert(listed.len() == models.len());
            assert forall|i: int| 0 <= i < listed.len() implies #[trigger] listed[i] == row_filter(
                models[i],
            ) && models[i] == filter_row(listed[i]) by {
                law_rows_are_filters(listed[i], models[i]);
            }
            assert forall|filter: FilterModel| listed.to_set().contains(filter) == self@.contains(
                filter,
            ) by {
                law_rows_are_filters(filter, filter_row(filter));
                if listed.contains(filter) {
                    let i = choose|i: int| 0 <= i < listed.len() && listed[i] == filter;
                    assert(models.contains(models[i]));
                }
                if self@.contains(filter) {
                    assert(models.to_set().contains(filter_row(filter)));
                    let i = choose|i: int| 0 <= i < models.len() && models[i] == filter_row(filter);
                    assert(listed[i] == filter);
                }
            }
        }
        filters
    }
}

impl Clone for FilterSet {
    fn clone(&self) -> (copy: Self)
        ensures
            copy@ == self@,
    {
        FilterSet { rows: clone_rows(&self.rows) }
    }
}

impl FilterSet {
    /// Tells whether the two sets hold the same filters.
    pub fn equals(&self, other: &FilterSet) -> (same: bool)
        ensures
            same == (self@ == other@),
    {
        let same = same_rows(&self.rows, &other.rows);
        proof {
            if self@ == other@ {
                assert forall|row: RowModel|
                    row_set(self.rows).contains(row) == row_set(other.rows).contains(row) by {
                    law_rows_are_filters(row_filter(row), row);
                    assert(self@.contains(row_filter(row)) == other@.contains(row_filter(row)));
                }
                assert(row_set(self.rows) =~= row_set(other.rows));
            }
        }
        same
    }
}

/// The list of a set names every filter of the set once, and no other filter.
pub proof fn law_list_names_each_filter_once(set: FilterSet, filters: Vec<OutgoingFilter>)
    requires
        call_ensures(FilterSet::to_vec, (&set,), filters),
    ensures
        forall|i: int| 0 <= i < filters@.len() ==> set@.contains((#[trigger] filters@[i])@),
        forall|filter: FilterModel| #[trigger]
            set@.contains(filter) ==> exists|i: int|
                0 <= i < filters@.len() && (#[trigger] filters@[i])@ == filter,
        forall|i: int, j: int|
            0 <= i < j < filters@.len() ==> (#[trigger] filters@[i])@ != (#[trigger] filters@[j])@,
{
    let listed = filter_models(filters@);
    assert forall|i: int| 0 <= i < filters@.len() implies set@.contains(
        (#[trigger] filters@[i])@,
    ) by {
        assert(listed[i] == filters@[i]@);
        assert(listed.to_set().contains(listed[i]));
    }
    assert forall|filter: FilterModel| #[trigger] set@.contains(filter) implies exists|i: int|
        0 <= i < filters@.len() && (#[trigger] filters@[i])@ == filter by {
        assert(listed.to_set().contains(filter));
        let i = choose|i: int| 0 <= i < listed.len() && listed[i] == filter;
        assert(filters@[i]@ == filter);
    }
    assert forall|i: int, j: int| 0 <= i < j < filters@.len() implies (#[trigger] filters@[i])@ != (
    #[trigger] filters@[j])@ by {
        assert(listed[i] == filters@[i]@);
        assert(listed[j] == filters@[j]@);
    }
}

/// A new set has no filters, and inserting a filter puts that filter into a set and nothing else.
/// It is new exactly if the set did not have it.
pub proof fn law_insert_adds_one_filter(
    empty: FilterSet,
    filter: OutgoingFilter,
    fresh: bool,
    other: FilterModel,
)
    requires
        call_ensures(FilterSet::new, (), empty),
    ensures
        !empty@.contains(other),
        forall|set: &mut FilterSet| #[trigger]
            call_ensures(FilterSet::insert, (set, filter), fresh) ==> {
                &&& final(set)@.contains(other) <==> set@.contains(other) || other == filter@
                &&& fresh <==> !set@.contains(filter@)
            },
{
}

} // verus!
