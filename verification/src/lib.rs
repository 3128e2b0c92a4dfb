//! A simple rendezvous protocol to help with NAT traversal or hole punching.
//!
//! To reach a node behind a firewall or NAT, which only lets traffic out, one has to know its
//! address as it is seen from outside, and the node has to send traffic first. A publicly reachable
//! server sees the addresses of all peers and forwards their connection requests:
//!
//! - A peer has an identity, with which the server associates the address that it sees.
//! - A listening peer keeps pinging the server.
//! - A connecting peer asks the server to forward a request. The listening peer, told of it, sends
//!   something to the connecting one, which opens the way, and says so to the server, which then
//!   tells the connecting peer where to turn to.
//!
//! All of this needs one port for the server and for the peers.
//!
//! The library decides: it reads and writes messages, keeps the state of servers and clients, and
//! says what to send, to whom and when. It does no input or output. Whoever runs it owns the
//! sockets and the clock. [`udp`] and [`tcp`] are the two transports. [`client`] and [`server`]
//! are a simpler UDP pair, and [`async_tcp`] a simpler TCP client. [`laws`] says what holds of both
//! ends together, [`udp::laws`] and [`tcp::laws`] what holds of each by itself.

pub mod addr;
pub mod async_tcp;
pub mod client;
pub mod envelope;
pub mod error;
pub mod frame;
pub mod idmap;
pub mod laws;
pub mod proto;
pub mod server;
pub mod tcp;
pub mod time;
pub mod udp;
pub mod unknown;
pub mod wire;
