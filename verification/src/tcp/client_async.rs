//! TCP connection builder for an async runtime.
use crate::addr::SocketAddr;
use crate::error::Failure;
use crate::proto::ReqCmd;
use crate::tcp::session::{choose_bind_addr, first_request, isync_frame};
use vstd::prelude::*;

verus! {

/// TCP connection builder, as [`crate::tcp::client::Client`], for an async runtime.
pub struct Client {
    server_addr: String,
    id: String,
    local_addr: Option<SocketAddr>,
    listening: Option<SocketAddr>,
}

impl View for Client {
    type V = crate::tcp::session::ClientView;

    closed spec fn view(&self) -> crate::tcp::session::ClientView {
        crate::tcp::session::ClientView {
            server_addr: self.server_addr@,
            id: self.id@,
            local_addr: self.local_addr,
            listening: self.listening,
        }
    }
}

impl Client {
    /// Sets the rendezvous server, the identity and the local address to bind to.
    ///
    /// If no local address is given, one is chosen according to the server's address family.
    pub fn new(server_addr: &str, id: &str, local_addr: Option<SocketAddr>) -> (r: Result<
        Client,
        Failure,
    >)
        ensures
            r matches Ok(c) && c@ == crate::tcp::session::ClientView::start(
                server_addr@,
                id@,
                local_addr,
            ),
    {
        Ok(
            Client {
                server_addr: server_addr.to_owned(),
                id: id.to_owned(),
                local_addr,
                listening: None,
            },
        )
    }

    /// The name of the server.
    pub fn server_addr(&self) -> (r: &str)
        ensures
            r@ == self@.server_addr,
    {
        self.server_addr.as_str()
    }

    /// The identity of this client.
    pub fn id(&self) -> (r: &String)
        ensures
            r@ == self@.id,
    {
        &self.id
    }

    /// The address that was asked for.
    pub fn local_addr(&self) -> (r: Option<SocketAddr>)
        ensures
            r == self@.local_addr,
    {
        self.local_addr
    }

    /// The address to bind to. `resolved` is the first address that the server's name stands for;
    /// it need not be looked up where an address was asked for.
    pub fn choose_bind_addr(&self, resolved: Option<SocketAddr>) -> (r: Result<SocketAddr, Failure>)
        ensures
            r == self@.bind_addr(resolved),
    {
        choose_bind_addr(self.local_addr, resolved)
    }

    /// What to send to the rendezvous server to request a connection to the target.
    pub fn connect(&self, target_id: &str) -> (r: Vec<u8>)
        ensures
            r@ == crate::tcp::session::request_frame(
                self@.id,
                crate::proto::ReqCmdView::Isync { id: target_id@ },
            ),
    {
        isync_frame(&self.id, target_id)
    }

    /// The client has a listening socket, bound to `bound`, and from there a connection with the
    /// server. The result is what to send on that connection first.
    pub fn listen(&mut self, bound: SocketAddr) -> (r: ReqCmd)
        ensures
            final(self)@ == old(self)@.listening_at(bound),
            r@ == crate::proto::ReqCmdView::Ping,
    {
        self.listening = Some(bound);
        first_request()
    }

    /// Whether connections of peers can be accepted. `exited` tells that the client was shut down
    /// meanwhile.
    pub fn accept(&self, exited: bool) -> (r: Result<(), Failure>)
        ensures
            r == self@.accepting(exited),
    {
        if self.listening.is_none() {
            Err(Failure::NotListening)
        } else if exited {
            Err(Failure::Exit)
        } else {
            Ok(())
        }
    }
}

} // verus!
