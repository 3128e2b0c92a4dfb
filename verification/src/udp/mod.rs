//! UDP connection.
//!
//! Use [`client::Listener`] and [`client::Connector`] to reach peers, [`server::Server`] to serve
//! as their rendezvous point.

pub mod client;
pub mod laws;
pub mod server;
pub mod util;
