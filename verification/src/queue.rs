//! Connections that wait to be accepted.
use crate::address::SocketAddr;
use dashmap::DashMap;
use std::collections::VecDeque;
use vstd::prelude::*;

verus! {

/// The number by which a socket goes.
#[derive(Debug, Clone, Copy, PartialEq, Eq, Structural, Hash)]
pub struct SocketId(pub u64);

/// What is known of a connection once it is made.
#[derive(Debug, Clone, Copy, PartialEq, Eq, Structural)]
pub struct SocketInformation {
    /// Address of the incoming peer.
    pub remote_address: SocketAddr,
    /// Address of the local peer (our IP).
    pub local_address: SocketAddr,
}

impl SocketInformation {
    /// Joins the two addresses of a connection.
    pub fn new(remote_address: SocketAddr, local_address: SocketAddr) -> (info: Self)
        ensures
            info == (SocketInformation { remote_address, local_address }),
    {
        SocketInformation { remote_address, local_address }
    }
}

/// `dashmap::DashMap`, a hash map.
#[verifier::external_type_specification]
#[verifier::external_body]
#[verifier::reject_recursive_types(K)]
#[verifier::reject_recursive_types(V)]
#[verifier::reject_recursive_types(S)]
pub struct ExDashMap<K, V, S>(DashMap<K, V, S>);

/// The queues in a map, by the number of the socket.
pub uninterp spec fn queues(map: DashMap<u64, VecDeque<SocketInformation>>) -> Map<
    u64,
    Seq<SocketInformation>,
>;

/// `dashmap::DashMap::new`: the map is empty.
#[verifier::external_body]
fn new_map() -> (connections: DashMap<u64, VecDeque<SocketInformation>>)
    ensures
        queues(connections) == (Map::<u64, Seq<SocketInformation>>::empty()),
{
    DashMap::new()
}

/// `dashmap::DashMap::insert`: the queue is found under the key afterwards, in place of the one that
/// was there before, and every other key keeps its queue. The earlier queue is handed back.
#[verifier::external_body]
fn insert_queue(
    map: &mut DashMap<u64, VecDeque<SocketInformation>>,
    key: u64,
    queue: VecDeque<SocketInformation>,
) -> (earlier: Option<VecDeque<SocketInformation>>)
    ensures
        queues(*final(map)) == queues(*old(map)).insert(key, queue@),
        match earlier {
            Some(earlier) => queues(*old(map)).dom().contains(key) && earlier@ == queues(
                *old(map),
            )[key],
            None => !queues(*old(map)).dom().contains(key),
        },
{
    map.insert(key, queue)
}

/// `dashmap::DashMap::remove`: nothing is found under the key afterwards, and every other key keeps
/// its queue. The queue that was there is handed back.
#[verifier::external_body]
fn remove_queue(map: &mut DashMap<u64, VecDeque<SocketInformation>>, key: u64) -> (queue: Option<
    VecDeque<SocketInformation>,
>)
    ensures
        queues(*final(map)) == queues(*old(map)).remove(key),
        match queue {
            Some(queue) => queues(*old(map)).dom().contains(key) && queue@ == queues(
                *old(map),
            )[key],
            None => !queues(*old(map)).dom().contains(key),
        },
{
    map.remove(&key).map(|entry| entry.1)
}

/// The connections that wait at each socket, in the order in which they came.
///
/// Whoever learns of a connection adds it, and whoever accepts takes it from the front. The queue of
/// a socket goes away when the socket is closed. Threads that share the queues take turns: whoever
/// changes them has them alone.
#[derive(Debug)]
pub struct ConnectionQueue {
    connections: DashMap<u64, VecDeque<SocketInformation>>,
}

impl View for ConnectionQueue {
    type V = Map<SocketId, Seq<SocketInformation>>;

    closed spec fn view(&self) -> Map<SocketId, Seq<SocketInformation>> {
        Map::new(
            |id: SocketId| queues(self.connections).dom().contains(id.0),
            |id: SocketId| queues(self.connections)[id.0],
        )
    }
}

/// The connections that wait at a socket: none where it has no queue.
pub open spec fn waiting(
    connections: Map<SocketId, Seq<SocketInformation>>,
    id: SocketId,
) -> Seq<SocketInformation> {
    if connections.dom().contains(id) {
        connections[id]
    } else {
        Seq::empty()
    }
}

/// The queues after a connection was added behind those that wait at a socket.
pub open spec fn added(
    connections: Map<SocketId, Seq<SocketInformation>>,
    id: SocketId,
    info: SocketInformation,
) -> Map<SocketId, Seq<SocketInformation>> {
    connections.insert(id, waiting(connections, id).push(info))
}

/// The connection that has waited longest at a socket.
pub open spec fn front(
    connections: Map<SocketId, Seq<SocketInformation>>,
    id: SocketId,
) -> Option<SocketInformation> {
    if waiting(connections, id).len() > 0 {
        Some(waiting(connections, id)[0])
    } else {
        None
    }
}

/// The queues after the connection that has waited longest at a socket was taken.
pub open spec fn popped(
    connections: Map<SocketId, Seq<SocketInformation>>,
    id: SocketId,
) -> Map<SocketId, Seq<SocketInformation>> {
    if waiting(connections, id).len() > 0 {
        connections.insert(id, waiting(connections, id).drop_first())
    } else {
        connections
    }
}

impl Default for ConnectionQueue {
    fn default() -> (queue: Self)
        ensures
            queue@ == Map::<SocketId, Seq<SocketInformation>>::empty(),
    {
        let queue = ConnectionQueue { connections: new_map() };
        assert(queue@ =~= Map::<SocketId, Seq<SocketInformation>>::empty());
        queue
    }
}

impl ConnectionQueue {
    /// Adds a connection behind those that wait at the socket.
    pub fn add(&mut self, id: SocketId, info: SocketInformation)
        ensures
            final(self)@ == added(old(self)@, id, info),
    {
        let mut queue = match remove_queue(&mut self.connections, id.0) {
            Some(queue) => queue,
            None => VecDeque::new(),
        };
        queue.push_back(info);
        let _ = insert_queue(&mut self.connections, id.0, queue);
        assert(self@ =~= added(old(self)@, id, info));
    }

    /// Takes the connection that has waited longest at the socket. A socket without a queue gets
    /// none by this.
    pub fn pop_front(&mut self, id: SocketId) -> (info: Option<SocketInformation>)
        ensures
            info == front(old(self)@, id),
            final(self)@ == popped(old(self)@, id),
    {
        let mut queue = match remove_queue(&mut self.connections, id.0) {
            Some(queue) => queue,
            None => {
                assert(self@ =~= old(self)@);
                return None;
            },
        };
        let info = queue.pop_front();
        let _ = insert_queue(&mut self.connections, id.0, queue);
        assert(waiting(old(self)@, id) == old(self)@[id]);
        assert(self@ =~= old(self)@.insert(id, queue@));
        proof {
            if old(self)@[id].len() == 0 {
                assert(queue@ =~= old(self)@[id]);
                assert(self@ =~= old(self)@);
            } else {
                assert(queue@ =~= old(self)@[id].drop_first());
            }
        }
        info
    }

    /// Removes the queue of a socket, and hands back the connections that waited in it.
    pub fn remove(&mut self, id: SocketId) -> (queue: Option<VecDeque<SocketInformation>>)
        ensures
            final(self)@ == old(self)@.remove(id),
            match queue {
                Some(queue) => old(self)@.dom().contains(id) && queue@ == old(self)@[id],
                None => !old(self)@.dom().contains(id),
            },
    {
        let queue = remove_queue(&mut self.connections, id.0);
        assert(self@ =~= old(self)@.remove(id));
        queue
    }
}

/// The queues after each of `infos` was added in turn.
pub open spec fn added_all(
    connections: Map<SocketId, Seq<SocketInformation>>,
    id: SocketId,
    infos: Seq<SocketInformation>,
) -> Map<SocketId, Seq<SocketInformation>>
    decreases infos.len(),
{
    if infos.len() == 0 {
        connections
    } else {
        added(added_all(connections, id, infos.drop_last()), id, infos.last())
    }
}

/// The queues after `count` connections were taken in turn.
pub open spec fn popped_times(
    connections: Map<SocketId, Seq<SocketInformation>>,
    id: SocketId,
    count: nat,
) -> Map<SocketId, Seq<SocketInformation>>
    decreases count,
{
    if count == 0 {
        connections
    } else {
        popped(popped_times(connections, id, (count - 1) as nat), id)
    }
}

/// Connections wait behind those that came before them.
pub proof fn law_connections_wait_in_order(
    connections: Map<SocketId, Seq<SocketInformation>>,
    id: SocketId,
    infos: Seq<SocketInformation>,
)
    ensures
        waiting(added_all(connections, id, infos), id) == waiting(connections, id) + infos,
    decreases infos.len(),
{
    if infos.len() == 0 {
        assert(waiting(connections, id) + infos =~= waiting(connections, id));
    } else {
        law_connections_wait_in_order(connections, id, infos.drop_last());
        assert(waiting(connections, id) + infos =~= (waiting(connections, id)
            + infos.drop_last()).push(infos.last()));
    }
}

/// Connections leave in the order in which they wait: taking one after another gives the waiting
/// connections from the front on, and nothing once they are all gone.
pub proof fn law_connections_leave_in_order(
    connections: Map<SocketId, Seq<SocketInformation>>,
    id: SocketId,
    count: nat,
)
    ensures
        count <= waiting(connections, id).len() ==> waiting(
            popped_times(connections, id, count),
            id,
        ) == waiting(connections, id).skip(count as int),
        front(popped_times(connections, id, count), id) == (if count < waiting(
            connections,
            id,
        ).len() {
            Some(waiting(connections, id)[count as int])
        } else {
            None
        }),
    decreases count,
{
    let all = waiting(connections, id);
    if count == 0 {
        assert(all.skip(0) =~= all);
    } else {
        let before = (count - 1) as nat;
        law_connections_leave_in_order(connections, id, before);
        if count <= all.len() {
            assert(all.skip(before as int).drop_first() =~= all.skip(count as int));
        }
    }
}

/// What happens at one socket leaves the connections that wait at another untouched.
pub proof fn law_sockets_do_not_share_connections(
    connections: Map<SocketId, Seq<SocketInformation>>,
    id: SocketId,
    other: SocketId,
    info: SocketInformation,
)
    requires
        id != other,
    ensures
        waiting(added(connections, id, info), other) == waiting(connections, other),
        waiting(popped(connections, id), other) == waiting(connections, other),
        waiting(connections.remove(id), other) == waiting(connections, other),
{
}

/// Once the queue of a socket is removed, no connection waits there.
pub proof fn law_removed_queue_is_empty(
    connections: Map<SocketId, Seq<SocketInformation>>,
    id: SocketId,
)
    ensures
        waiting(connections.remove(id), id) == Seq::<SocketInformation>::empty(),
        front(connections.remove(id), id) is None,
{
}

/// The connections that wait at a socket are those of its queue, and none where it has no queue.
pub proof fn law_waiting_is_the_queue(
    connections: Map<SocketId, Seq<SocketInformation>>,
    id: SocketId,
)
    ensures
        connections.dom().contains(id) ==> waiting(connections, id) == connections[id],
        !connections.dom().contains(id) ==> waiting(connections, id).len() == 0,
{
}

/// An added connection stands last in the queue of its socket, behind all that were there, or alone
/// in a new queue. No other queue comes, goes or changes.
pub proof fn law_added_connection_stands_last(
    connections: Map<SocketId, Seq<SocketInformation>>,
    id: SocketId,
    info: SocketInformation,
    other: SocketId,
)
    ensures
        ({
            let after = added(connections, id, info);
            let before = if connections.dom().contains(id) {
                connections[id]
            } else {
                Seq::<SocketInformation>::empty()
            };
            &&& after.dom().contains(id)
            &&& after[id].len() == before.len() + 1
            &&& after[id][before.len() as int] == info
            &&& forall|i: int| 0 <= i < before.len() ==> #[trigger] after[id][i] == before[i]
            &&& other != id ==> (after.dom().contains(other) <==> connections.dom().contains(other))
            &&& other != id && connections.dom().contains(other) ==> after[other]
                == connections[other]
        }),
{
}

/// The connection that is taken is the first of the queue of its socket, and those behind it move up
/// by one place. Where none waits, none is taken and nothing changes. No other queue comes, goes or
/// changes.
pub proof fn law_taken_connection_stood_first(
    connections: Map<SocketId, Seq<SocketInformation>>,
    id: SocketId,
    other: SocketId,
)
    ensures
        ({
            let after = popped(connections, id);
            if connections.dom().contains(id) && connections[id].len() > 0 {
                &&& front(connections, id) == Some(connections[id][0])
                &&& after.dom().contains(id)
                &&& after[id].len() == connections[id].len() - 1
                &&& forall|i: int|
                    0 <= i < after[id].len() ==> #[trigger] after[id][i] == connections[id][i + 1]
            } else {
                &&& front(connections, id) is None
                &&& after == connections
            }
        }),
        other != id ==> (popped(connections, id).dom().contains(other)
            <==> connections.dom().contains(other)),
        other != id && connections.dom().contains(other) ==> popped(connections, id)[other]
            == connections[other],
{
}

/// Of a connection that is added where none waits, taking the first gives that connection, and
/// leaves none.
pub proof fn law_lone_connection_is_taken(
    connections: Map<SocketId, Seq<SocketInformation>>,
    id: SocketId,
    info: SocketInformation,
)
    requires
        !connections.dom().contains(id) || connections[id].len() == 0,
    ensures
        front(added(connections, id, info), id) == Some(info),
        front(popped(added(connections, id, info), id), id) is None,
{
}

/// Adding a connection puts it last at its socket and leaves the other sockets as they are.
pub proof fn law_add_puts_last(id: SocketId, info: SocketInformation, other: SocketId)
    requires
        other != id,
    ensures
        forall|queue: &mut ConnectionQueue| #[trigger]
            call_ensures(ConnectionQueue::add, (queue, id, info), ()) ==> {
                &&& final(queue)@.dom().contains(id)
                &&& queue@.dom().contains(id) ==> final(queue)@[id] == queue@[id].push(info)
                &&& !queue@.dom().contains(id) ==> final(queue)@[id] == seq![info]
                &&& final(queue)@.dom().contains(other) == queue@.dom().contains(other)
                &&& queue@.dom().contains(other) ==> final(queue)@[other] == queue@[other]
            },
{
    assert forall|queue: &mut ConnectionQueue| #[trigger]
        call_ensures(ConnectionQueue::add, (queue, id, info), ()) && !queue@.dom().contains(
            id,
        ) implies final(queue)@[id] == seq![info] by {
        assert(final(queue)@[id] =~= seq![info]);
    }
}

/// Taking a connection gives the first of its socket and leaves the rest of the queue, in its order.
/// Where none waits, it gives none and changes nothing. The other sockets stay as they are.
pub proof fn law_pop_front_takes_the_first(
    id: SocketId,
    info: Option<SocketInformation>,
    other: SocketId,
)
    requires
        other != id,
    ensures
        forall|queue: &mut ConnectionQueue| #[trigger]
            call_ensures(ConnectionQueue::pop_front, (queue, id), info) ==> {
                &&& info is None <==> !queue@.dom().contains(id) || queue@[id].len() == 0
                &&& info is None ==> final(queue)@ == queue@
                &&& info is Some ==> {
                    &&& final(queue)@.dom().contains(id)
                    &&& queue@[id] == seq![info->0] + final(queue)@[id]
                    &&& final(queue)@.dom().contains(other) == queue@.dom().contains(other)
                    &&& queue@.dom().contains(other) ==> final(queue)@[other] == queue@[other]
                }
            },
{
    assert forall|queue: &mut ConnectionQueue| #[trigger]
        call_ensures(ConnectionQueue::pop_front, (queue, id), info) && info is Some implies queue@[id]
        == seq![info->0] + final(queue)@[id] by {
        assert(queue@[id] =~= seq![info->0] + final(queue)@[id]);
    }
}

/// Removing the queue of a socket gives it back whole, leaves the socket without one, and leaves the
/// other sockets as they are. At first no socket has a queue.
pub proof fn law_remove_takes_the_queue(
    id: SocketId,
    removed: Option<VecDeque<SocketInformation>>,
    other: SocketId,
    fresh: ConnectionQueue,
)
    requires
        other != id,
        call_ensures(ConnectionQueue::default, (), fresh),
    ensures
        !fresh@.dom().contains(id),
        forall|queue: &mut ConnectionQueue| #[trigger]
            call_ensures(ConnectionQueue::remove, (queue, id), removed) ==> {
                &&& removed is Some <==> queue@.dom().contains(id)
                &&& removed matches Some(list) ==> list@ == queue@[id]
                &&& !final(queue)@.dom().contains(id)
                &&& final(queue)@.dom().contains(other) == queue@.dom().contains(other)
                &&& queue@.dom().contains(other) ==> final(queue)@[other] == queue@[other]
            },
{
}

} // verus!
