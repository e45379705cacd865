# layer_socket

The socket rules of a network layer: a library that sits under hooks on `connect`, `bind`, `accept`
and their kin, and decides what they do. It is written in Verus: the functions of `src/` state what
they return and are proved to, save for a few that call an outside crate and are trusted (see below).

- `src/address.rs`: addresses, subnets, ignored ports
- `src/filter.rs`, `src/filter_set.rs`: filters over outgoing connections, and sets of them
- `src/selector.rs`: the selector built from the user's list of filters
- `src/resolve.rs`, `src/connect.rs`: where an outgoing connection goes, question by question
- `src/queue.rs`: connections that wait to be accepted
- `src/socket.rs`, `src/protocol.rs`: sockets, their kinds and states, protocol numbers
- `src/raw.rs`: addresses on their way to and from the program
- `src/text.rs`, `src/detour.rs`: hosts with ports as text, and the outcomes of a hook
- `app/`: shared state, pointers and network access around the library

What the hash maps of `dashmap` and `hashbrown`, the addresses of `socket2` and the constants of
`libc` do is stated, without proof, in the few functions marked `external_body`. Each says in its doc comment what it relies on.
