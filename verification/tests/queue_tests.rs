use layer_socket::address::{IpAddr, SocketAddr};
use layer_socket::queue::{ConnectionQueue, SocketId, SocketInformation};

fn connection(number: u32) -> SocketInformation {
    SocketInformation::new(
        SocketAddr::new(IpAddr::V4(number), 1000),
        SocketAddr::new(IpAddr::V4(1), 80),
    )
}

#[test]
fn information_holds_both_addresses() {
    let info = connection(7);
    assert_eq!(info.remote_address, SocketAddr::V4 { ip: 7, port: 1000 });
    assert_eq!(info.local_address, SocketAddr::V4 { ip: 1, port: 80 });
}

#[test]
fn connections_leave_in_the_order_they_came() {
    let mut queue = ConnectionQueue::default();
    for number in 1..4 {
        queue.add(SocketId(5), connection(number));
    }
    assert_eq!(queue.pop_front(SocketId(5)), Some(connection(1)));
    assert_eq!(queue.pop_front(SocketId(5)), Some(connection(2)));
    queue.add(SocketId(5), connection(4));
    assert_eq!(queue.pop_front(SocketId(5)), Some(connection(3)));
    assert_eq!(queue.pop_front(SocketId(5)), Some(connection(4)));
    assert_eq!(queue.pop_front(SocketId(5)), None);
}

#[test]
fn sockets_do_not_share_connections() {
    let mut queue = ConnectionQueue::default();
    queue.add(SocketId(1), connection(1));
    queue.add(SocketId(2), connection(2));
    assert_eq!(queue.pop_front(SocketId(2)), Some(connection(2)));
    assert_eq!(queue.pop_front(SocketId(2)), None);
    assert_eq!(queue.pop_front(SocketId(1)), Some(connection(1)));
}

#[test]
fn removed_queue_is_handed_back_and_gone() {
    let mut queue = ConnectionQueue::default();
    queue.add(SocketId(1), connection(1));
    queue.add(SocketId(1), connection(2));
    queue.add(SocketId(9), connection(3));
    let removed: Vec<SocketInformation> = queue.remove(SocketId(1)).unwrap().into_iter().collect();
    assert_eq!(removed, vec![connection(1), connection(2)]);
    assert_eq!(queue.pop_front(SocketId(1)), None);
    assert!(queue.remove(SocketId(1)).is_none());
    assert_eq!(queue.pop_front(SocketId(9)), Some(connection(3)));
}

#[test]
fn taking_from_a_socket_without_queue_makes_none() {
    let mut queue = ConnectionQueue::default();
    assert_eq!(queue.pop_front(SocketId(3)), None);
    assert!(queue.remove(SocketId(3)).is_none());
}

#[test]
fn emptied_queue_stays_until_removed() {
    let mut queue = ConnectionQueue::default();
    queue.add(SocketId(3), connection(1));
    assert_eq!(queue.pop_front(SocketId(3)), Some(connection(1)));
    assert_eq!(queue.remove(SocketId(3)).map(|left| left.len()), Some(0));
}
