//! TCP connection builder.
use crate::addr::SocketAddr;
use crate::error::Failure;
use crate::proto::ReqCmd;
use crate::tcp::session::{choose_bind_addr, first_request, isync_frame, Signal};
use vstd::prelude::*;

verus! {

/// TCP connection builder.
///
/// Binds to a port and connects to a rendezvous server. Waits for connection requests of peers,
/// or sends one.
pub struct Client {
    server_addr: String,
    id: String,
    local_addr: Option<SocketAddr>,
    listening: Option<SocketAddr>,
    signal: Signal,
}

#[verifier::ext_equal]
pub struct TcpClientView {
    pub client: crate::tcp::session::ClientView,
    pub signal: Signal,
}

impl View for Client {
    type V = TcpClientView;

    closed spec fn view(&self) -> TcpClientView {
        TcpClientView {
            client: crate::tcp::session::ClientView {
                server_addr: self.server_addr@,
                id: self.id@,
                local_addr: self.local_addr,
                listening: self.listening,
            },
            signal: self.signal,
        }
    }
}

impl TcpClientView {
    /// The client has a listening socket, bound to `bound`.
    pub open spec fn listening_at(self, bound: SocketAddr) -> TcpClientView {
        TcpClientView { client: self.client.listening_at(bound), ..self }
    }

    /// The client listens no longer.
    pub open spec fn shut(self) -> TcpClientView {
        TcpClientView {
            client: crate::tcp::session::ClientView { listening: None, ..self.client },
            signal: Signal { exit: true, ..self.signal },
        }
    }
}

impl Client {
    /// Sets the rendezvous server, the identity and the local address to bind to.
    ///
    /// If no local address is given, one is chosen according to the server's address family.
    pub fn new(server_addr: &str, id: &str, local_addr: Option<SocketAddr>) -> (r: Result<
        Client,
        Failure,
    >)
        ensures
            r matches Ok(c) && c@ == (TcpClientView {
                client: crate::tcp::session::ClientView::start(server_addr@, id@, local_addr),
                signal: Signal { exit: false, broken: false },
            }),
    {
        Ok(
            Client {
                server_addr: server_addr.to_owned(),
                id: id.to_owned(),
                local_addr,
                listening: None,
                signal: Signal { exit: false, broken: false },
            },
        )
    }

    /// The name of the server.
    pub fn server_addr(&self) -> (r: &str)
        ensures
            r@ == self@.client.server_addr,
    {
        self.server_addr.as_str()
    }

    /// The identity of this client.
    pub fn id(&self) -> (r: &String)
        ensures
            r@ == self@.client.id,
    {
        &self.id
    }

    /// The address that was asked for.
    pub fn local_addr(&self) -> (r: Option<SocketAddr>)
        ensures
            r == self@.client.local_addr,
    {
        self.local_addr
    }

    /// The address to bind to. `resolved` is the first address that the server's name stands for;
    /// it need not be looked up where an address was asked for.
    pub fn choose_bind_addr(&self, resolved: Option<SocketAddr>) -> (r: Result<SocketAddr, Failure>)
        ensures
            r == self@.client.bind_addr(resolved),
    {
        choose_bind_addr(self.local_addr, resolved)
    }

    /// What to send to the rendezvous server to request a connection to the target.
    ///
    /// The server answers where the target is. From the address that the connection with the
    /// server is bound to, the target is then reached.
    pub fn connect(&self, target_id: &str) -> (r: Vec<u8>)
        ensures
            r@ == crate::tcp::session::request_frame(
                self@.client.id,
                crate::proto::ReqCmdView::Isync { id: target_id@ },
            ),
    {
        isync_frame(&self.id, target_id)
    }

    /// The client has a listening socket, bound to `bound`, and from there a connection with the
    /// server. The result is what to send on that connection first.
    pub fn listen(&mut self, bound: SocketAddr) -> (r: ReqCmd)
        ensures
            final(self)@ == old(self)@.listening_at(bound),
            r@ == crate::proto::ReqCmdView::Ping,
    {
        self.listening = Some(bound);
        first_request()
    }

    /// Whether connections of peers can be accepted.
    pub fn accept(&self) -> (r: Result<(), Failure>)
        ensures
            r == self@.client.accepting(false),
    {
        if self.listening.is_some() {
            Ok(())
        } else {
            Err(Failure::NotListening)
        }
    }

    /// What whoever watches over the connection with the server has been told.
    pub fn signal(&self) -> (r: Signal)
        ensures
            r == self@.signal,
    {
        self.signal
    }

    /// Stops to listen.
    pub fn shutdown(&mut self)
        ensures
            final(self)@ == old(self)@.shut(),
    {
        self.listening = None;
        self.signal.exit = true;
    }
}

} // verus!
