//! TCP connection.
//!
//! Use [`client::Client`], or [`client_async::Client`] in an async runtime, to reach peers and
//! [`server::Server`] to serve as their rendezvous point.

pub mod client;
pub mod client_async;
pub mod laws;
pub mod server;
pub mod session;
