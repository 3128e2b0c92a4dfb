//! What the TCP clients have in common: how they talk to the rendezvous server.
use crate::addr::{Dial, SocketAddr};
use crate::error::Failure;
use crate::frame::frame;
use crate::proto::{Isync, Ping, ReqCmd, Request, RespCmd, Response, Rsync};
use crate::time::{MICROSECOND, SECOND};
use vstd::prelude::*;

verus! {

/// How long a listening client stays silent towards its server before it sends a ping.
pub const PING_INTERVAL: u64 = 10 * SECOND;

/// How long the attempt to connect may take that opens the way for a peer. It need not succeed, so
/// this is very short.
pub const PUNCH_TIMEOUT: u64 = 1 * MICROSECOND;

/// How long to wait after the server could not be reached before trying again.
pub const RETRY_INTERVAL: u64 = 120 * SECOND;

// ---------------------------------------------------------------------------------------------
// Clients
// ---------------------------------------------------------------------------------------------

/// What a client is told, and where it listens, if it does.
#[verifier::ext_equal]
pub struct ClientView {
    pub server_addr: Seq<char>,
    pub id: Seq<char>,
    pub local_addr: Option<SocketAddr>,
    pub listening: Option<SocketAddr>,
}

impl ClientView {
    /// A client that does not listen yet.
    pub open spec fn start(
        server_addr: Seq<char>,
        id: Seq<char>,
        local_addr: Option<SocketAddr>,
    ) -> ClientView {
        ClientView { server_addr, id, local_addr, listening: None }
    }

    /// The client has a listening socket, bound to `bound`.
    pub open spec fn listening_at(self, bound: SocketAddr) -> ClientView {
        ClientView { listening: Some(bound), ..self }
    }

    /// Whether connections of peers can be accepted. `exited` tells that the client was shut down.
    pub open spec fn accepting(self, exited: bool) -> Result<(), Failure> {
        if self.listening is None {
            Err(Failure::NotListening)
        } else if exited {
            Err(Failure::Exit)
        } else {
            Ok(())
        }
    }

    /// The address to bind to: the one that was asked for, else any of the server's family.
    pub open spec fn bind_addr(self, resolved: Option<SocketAddr>) -> Result<SocketAddr, Failure> {
        match self.local_addr {
            Some(addr) => Ok(addr),
            None => match resolved {
                Some(server) => Ok(server.unspecified()),
                None => Err(Failure::ResolveFailed),
            },
        }
    }
}

/// The address to bind to. `resolved` is the first address that the server's name stands for;
/// it does not matter where an address was asked for.
pub(crate) fn choose_bind_addr(local: Option<SocketAddr>, resolved: Option<SocketAddr>) -> (r:
    Result<SocketAddr, Failure>)
    ensures
        match local {
            Some(addr) => r == Ok::<SocketAddr, Failure>(addr),
            None => match resolved {
                Some(server) => r == Ok::<SocketAddr, Failure>(server.unspecified()),
                None => r == Err::<SocketAddr, Failure>(Failure::ResolveFailed),
            },
        },
{
    if let Some(addr) = local {
        return Ok(addr);
    }
    match resolved {
        Some(server) => Ok(server.unspecified()),
        None => Err(Failure::ResolveFailed),
    }
}

/// How to reach the server from `local`. Its name has to stand for an address.
pub fn server_dial(local: SocketAddr, resolved: Option<SocketAddr>) -> (r: Result<Dial, Failure>)
    ensures
        match resolved {
            Some(remote) => r == Ok::<Dial, Failure>(Dial { local, remote }),
            None => r == Err::<Dial, Failure>(Failure::ResolveFailed),
        },
{
    match resolved {
        Some(remote) => Ok(Dial { local, remote }),
        None => Err(Failure::ResolveFailed),
    }
}

// ---------------------------------------------------------------------------------------------
// Messages
// ---------------------------------------------------------------------------------------------

/// A request without unknown fields as it is put on the stream.
pub open spec fn request_frame(id: Seq<char>, cmd: crate::proto::ReqCmdView) -> Seq<u8> {
    crate::frame::framed(crate::proto::request(id, cmd).bytes())
}

/// A request without a command yet.
pub fn new_req(id: String) -> (r: Request)
    ensures
        r@ == (crate::proto::RequestView { id: id@, cmd: None }),
{
    let mut req = Request::new();
    req.id = id;
    req
}

/// These bytes are a request as it is put on the stream, its unknown fields in some order.
pub open spec fn request_written(
    id: Seq<char>,
    cmd: crate::proto::ReqCmdView,
    buf: Seq<u8>,
) -> bool {
    exists|order: Seq<u32>|
        crate::wire::in_order(crate::proto::request(id, cmd).unknown(), order) && buf
            == crate::frame::framed(#[trigger] crate::proto::request(id, cmd).bytes_in(order))
}

/// A request as it is put on the stream.
pub fn write_req(id: String, cmd: ReqCmd) -> (r: Vec<u8>)
    ensures
        request_written(id@, cmd@, r@),
        crate::proto::request(id@, cmd@).plain() ==> r@ == request_frame(id@, cmd@),
{
    let mut req = new_req(id);
    req.cmd = Some(cmd);
    let buf = req.write_to_bytes();
    frame(buf.as_slice())
}

/// The request of `id` for a connection to `target_id`, as it is put on the stream.
pub(crate) fn isync_frame(id: &String, target_id: &str) -> (r: Vec<u8>)
    ensures
        r@ == request_frame(id@, crate::proto::ReqCmdView::Isync { id: target_id@ }),
{
    write_req(id.clone(), ReqCmd::Isync(Isync { id: target_id.to_owned() }))
}

// ---------------------------------------------------------------------------------------------
// Connecting
// ---------------------------------------------------------------------------------------------

/// Where the server's answer to a connection request sends the client.
pub open spec fn redirect_of(buf: Seq<u8>) -> Result<Seq<char>, Failure> {
    match crate::proto::parse_response(buf) {
        Some(resp) => match resp.cmd {
            Some(crate::proto::RespCmdView::Redirect { addr, .. }) => Ok(addr),
            _ => Err(Failure::InvalidResponse),
        },
        None => Err(Failure::InvalidMessage),
    }
}

/// Reads the server's answer to a connection request: where the target is, as text.
pub fn redirected(buf: &[u8]) -> (r: Result<String, Failure>)
    ensures
        match r {
            Ok(addr) => redirect_of(buf@) == Ok::<Seq<char>, Failure>(addr@),
            Err(e) => redirect_of(buf@) == Err::<Seq<char>, Failure>(e),
        },
{
    let resp = match Response::parse_from_bytes(buf) {
        Ok(resp) => resp,
        Err(e) => {
            return Err(e);
        },
    };
    match resp.cmd {
        Some(RespCmd::Redirect(rdr)) => Ok(rdr.addr),
        _ => Err(Failure::InvalidResponse),
    }
}

/// How to reach the target: from the address `local` of the connection with the server. The
/// server's text has to be an address.
pub fn target_dial(local: SocketAddr, parsed: Option<SocketAddr>) -> (r: Result<Dial, Failure>)
    ensures
        match parsed {
            Some(remote) => r == Ok::<Dial, Failure>(Dial { local, remote }),
            None => r == Err::<Dial, Failure>(Failure::TargetIdNotFound),
        },
{
    match parsed {
        Some(remote) => Ok(Dial { local, remote }),
        None => Err(Failure::TargetIdNotFound),
    }
}

// ---------------------------------------------------------------------------------------------
// Listening
// ---------------------------------------------------------------------------------------------

/// What is owed for what the server sent.
#[derive(Debug, PartialEq, Eq)]
pub enum Reaction {
    Nothing,
    /// Try to connect to `addr`, for [`PUNCH_TIMEOUT`] at most, so that the way is open for the
    /// peer, then send `rsync`.
    Punch { addr: String, rsync: ReqCmd },
}

#[verifier::ext_equal]
pub enum ReactionView {
    Nothing,
    Punch { addr: Seq<char>, rsync: crate::proto::ReqCmdView },
}

impl View for Reaction {
    type V = ReactionView;

    open spec fn view(&self) -> ReactionView {
        match *self {
            Reaction::Nothing => ReactionView::Nothing,
            Reaction::Punch { addr, rsync } => ReactionView::Punch { addr: addr@, rsync: rsync@ },
        }
    }
}

/// What is owed for a message of the server: a forwarded connection request is acted on.
pub open spec fn reaction_to(buf: Seq<u8>) -> Result<ReactionView, Failure> {
    match crate::proto::parse_response(buf) {
        Some(resp) => match resp.cmd {
            Some(crate::proto::RespCmdView::Fsync { id, addr, .. }) => Ok(
                ReactionView::Punch { addr, rsync: crate::proto::ReqCmdView::Rsync { id } },
            ),
            _ => Ok(ReactionView::Nothing),
        },
        None => Err(Failure::InvalidMessage),
    }
}

/// Decides what to do about a message of the server. The connection ends on a failure.
pub fn handle_resp(buf: &[u8]) -> (r: Result<Reaction, Failure>)
    ensures
        match r {
            Ok(reaction) => reaction_to(buf@) == Ok::<ReactionView, Failure>(reaction@),
            Err(e) => reaction_to(buf@) == Err::<ReactionView, Failure>(e),
        },
{
    let resp = match Response::parse_from_bytes(buf) {
        Ok(resp) => resp,
        Err(e) => {
            return Err(e);
        },
    };
    match resp.cmd {
        Some(RespCmd::Fsync(fsync)) => Ok(
            Reaction::Punch { addr: fsync.addr, rsync: ReqCmd::Rsync(Rsync { id: fsync.id }) },
        ),
        _ => Ok(Reaction::Nothing),
    }
}

/// How to open the way for a peer that wants to connect: from the address `local` that the client
/// listens at. The server's text has to be an address; the connection with the server ends where it
/// is not.
pub fn punch_dial(local: SocketAddr, parsed: Option<SocketAddr>) -> (r: Result<Dial, Failure>)
    ensures
        match parsed {
            Some(remote) => r == Ok::<Dial, Failure>(Dial { local, remote }),
            None => r == Err::<Dial, Failure>(Failure::InvalidFsyncAddr),
        },
{
    match parsed {
        Some(remote) => Ok(Dial { local, remote }),
        None => Err(Failure::InvalidFsyncAddr),
    }
}

/// What the writing half of a server connection waits for.
#[derive(Debug, PartialEq, Eq)]
pub enum WriteEvent {
    /// There is something to send.
    Queued(ReqCmd),
    /// There was nothing to send for [`PING_INTERVAL`].
    Idle,
    /// There will be nothing more to send.
    Closed,
}

/// What the writing half of a server connection puts on the stream: what it is asked to, and a
/// ping now and then. Nothing means that it is done.
pub fn next_write(id: &String, event: WriteEvent) -> (r: Option<Vec<u8>>)
    ensures
        match event {
            WriteEvent::Queued(cmd) => {
                &&& r matches Some(buf)
                &&& request_written(id@, cmd@, buf@)
                &&& crate::proto::request(id@, cmd@).plain() ==> buf@ == request_frame(id@, cmd@)
            },
            WriteEvent::Idle => r matches Some(buf) && buf@ == request_frame(
                id@,
                crate::proto::ReqCmdView::Ping,
            ),
            WriteEvent::Closed => r is None,
        },
{
    let cmd = match event {
        WriteEvent::Queued(cmd) => cmd,
        WriteEvent::Idle => ReqCmd::Ping(Ping {  }),
        WriteEvent::Closed => {
            return None;
        },
    };
    Some(write_req(id.clone(), cmd))
}

/// What a client sends first on a connection on which it listens: the ping that makes it known.
pub fn first_request() -> (r: ReqCmd)
    ensures
        r@ == crate::proto::ReqCmdView::Ping,
{
    ReqCmd::Ping(Ping {  })
}

// ---------------------------------------------------------------------------------------------
// Staying connected
// ---------------------------------------------------------------------------------------------

/// What whoever watches over the connection with the server has been told.
#[derive(Clone, Copy, Debug, PartialEq, Eq, Structural)]
pub struct Signal {
    /// The client is shut down.
    pub exit: bool,
    /// The connection has ended.
    pub broken: bool,
}

/// What happened to whoever watches over the connection.
#[derive(Clone, Copy, Debug, PartialEq, Eq, Structural)]
pub enum Event {
    /// There may be a new signal.
    Woken,
    /// There is a new connection.
    Connected,
    /// The server could not be reached.
    ConnectFailed,
    /// [`RETRY_INTERVAL`] has passed, or there may be a new signal.
    Rested,
}

/// What to do about the connection.
#[derive(Clone, Copy, Debug, PartialEq, Eq, Structural)]
pub enum Step {
    /// Wait for a signal.
    Wait,
    /// Connect to the server.
    Connect,
    /// Wait for a signal, for [`RETRY_INTERVAL`] at most.
    Rest,
    /// Stop watching.
    Stop,
}

/// The decision, and the signal as it is left: once a broken connection is being replaced, it is
/// no longer told of.
pub open spec fn supervised(signal: Signal, event: Event) -> (Signal, Step) {
    if signal.exit {
        (signal, Step::Stop)
    } else {
        match event {
            Event::Woken | Event::Connected => if signal.broken {
                (Signal { exit: false, broken: false }, Step::Connect)
            } else {
                (signal, Step::Wait)
            },
            Event::ConnectFailed => (signal, Step::Rest),
            Event::Rested => (signal, Step::Connect),
        }
    }
}

/// Decides what to do about the connection with the server.
pub fn supervise(signal: &mut Signal, event: Event) -> (r: Step)
    ensures
        (*final(signal), r) == supervised(*old(signal), event),
{
    if signal.exit {
        return Step::Stop;
    }
    match event {
        Event::Woken | Event::Connected => {
            if signal.broken {
                signal.broken = false;
                Step::Connect
            } else {
                Step::Wait
            }
        },
        Event::ConnectFailed => Step::Rest,
        Event::Rested => Step::Connect,
    }
}

/// A broken connection is replaced: at once, and as long as that fails, again after each rest.
/// Only a shutdown ends it.
pub proof fn law_reconnects(signal: Signal)
    requires
        !signal.exit,
    ensures
        signal.broken ==> supervised(signal, Event::Woken).1 == Step::Connect && supervised(
            signal,
            Event::Connected,
        ).1 == Step::Connect,
        supervised(signal, Event::ConnectFailed) == (signal, Step::Rest),
        supervised(signal, Event::Rested) == (signal, Step::Connect),
        forall|event: Event| (#[trigger] supervised(signal, event)).1 != Step::Stop,
{
}

/// Once the client is shut down nothing else happens to the connection.
pub proof fn law_shutdown_stops(signal: Signal, event: Event)
    requires
        signal.exit,
    ensures
        supervised(signal, event) == (signal, Step::Stop),
{
}

} // verus!
