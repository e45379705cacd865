//! Socket bookkeeping for a layer that sits between a program and its network.
//!
//! The crate decides; it performs no I/O of its own. It says whether an outgoing connection
//! leaves locally or through the remote agent, keeps the connections that wait to be accepted,
//! tracks the state of intercepted sockets, and fills in the addresses that are handed back to the
//! program.
pub mod address;
pub mod detour;
pub mod filter;
pub mod filter_set;
pub mod text;
pub mod selector;
pub mod resolve;
pub mod connect;
pub mod queue;
pub mod raw;
pub mod protocol;
pub mod socket;
