//! A TCP connection builder for an async runtime that gives up when its server connection ends.
//!
//! It opens the way for a peer but does not tell the server so.
use crate::addr::{Dial, SocketAddr};
use crate::error::Failure;
use crate::proto::{Ping, ReqCmd, RespCmd, Response};
use crate::tcp::session::{choose_bind_addr, isync_frame, punch_dial, write_req};
use crate::time::SECOND;
use vstd::prelude::*;

verus! {

/// How long the attempt to connect may take that opens the way for a peer.
pub const OPEN_TIMEOUT: u64 = 1 * SECOND;

/// TCP connection builder.
pub struct Client {
    server_addr: String,
    id: String,
    local_addr: Option<SocketAddr>,
    listening: Option<SocketAddr>,
}

impl View for Client {
    type V = crate::tcp::session::ClientView;

    closed spec fn view(&self) -> crate::tcp::session::ClientView {
        crate::tcp::session::ClientView {
            server_addr: self.server_addr@,
            id: self.id@,
            local_addr: self.local_addr,
            listening: self.listening,
        }
    }
}

/// Where a message of the server asks to open the way to, if it does.
pub open spec fn opened_by(buf: Seq<u8>) -> Result<Option<Seq<char>>, Failure> {
    match crate::proto::parse_response(buf) {
        Some(resp) => match resp.cmd {
            Some(crate::proto::RespCmdView::Fsync { addr, .. }) => Ok(Some(addr)),
            _ => Ok(None),
        },
        None => Err(Failure::InvalidMessage),
    }
}

impl Client {
    /// Sets the rendezvous server, the identity and the local address to bind to.
    pub fn new(server_addr: &str, id: &str, local_addr: Option<SocketAddr>) -> (r: Result<
        Client,
        Failure,
    >)
        ensures
            r matches Ok(c) && c@ == crate::tcp::session::ClientView::start(
                server_addr@,
                id@,
                local_addr,
            ),
    {
        Ok(
            Client {
                server_addr: server_addr.to_owned(),
                id: id.to_owned(),
                local_addr,
                listening: None,
            },
        )
    }

    /// The name of the server.
    pub fn server_addr(&self) -> (r: &str)
        ensures
            r@ == self@.server_addr,
    {
        self.server_addr.as_str()
    }

    /// The address to bind to, from the first address that the server's name stands for.
    pub fn choose_bind_addr(&self, resolved: Option<SocketAddr>) -> (r: Result<SocketAddr, Failure>)
        ensures
            r == self@.bind_addr(resolved),
    {
        choose_bind_addr(self.local_addr, resolved)
    }

    /// The address that a connection with the server is bound to: `local` where it is given, which
    /// does not make up for a server without an address.
    pub fn connect_server(
        &self,
        local: Option<SocketAddr>,
        resolved: Option<SocketAddr>,
    ) -> (r: Result<SocketAddr, Failure>)
        ensures
            match self@.bind_addr(resolved) {
                Ok(chosen) => r == Ok::<SocketAddr, Failure>(
                    match local {
                        Some(addr) => addr,
                        None => chosen,
                    },
                ),
                Err(e) => r == Err::<SocketAddr, Failure>(e),
            },
    {
        let chosen = match self.choose_bind_addr(resolved) {
            Ok(addr) => addr,
            Err(e) => {
                return Err(e);
            },
        };
        match local {
            Some(addr) => Ok(addr),
            None => Ok(chosen),
        }
    }

    /// What to send to the rendezvous server to request a connection to the target.
    pub fn connect(&self, target_id: &str) -> (r: Vec<u8>)
        ensures
            r@ == crate::tcp::session::request_frame(
                self@.id,
                crate::proto::ReqCmdView::Isync { id: target_id@ },
            ),
    {
        isync_frame(&self.id, target_id)
    }

    /// What to send at once, and then again and again, on a connection on which the client
    /// listens.
    pub fn ping(&self) -> (r: Vec<u8>)
        ensures
            r@ == crate::tcp::session::request_frame(self@.id, crate::proto::ReqCmdView::Ping),
    {
        write_req(self.id.clone(), ReqCmd::Ping(Ping {  }))
    }

    /// Where a message of the server asks to open the way to, as text. The client stops to listen
    /// on a failure.
    pub fn received(buf: &[u8]) -> (r: Result<Option<String>, Failure>)
        ensures
            match r {
                Ok(Some(addr)) => opened_by(buf@) == Ok::<Option<Seq<char>>, Failure>(Some(addr@)),
                Ok(None) => opened_by(buf@) == Ok::<Option<Seq<char>>, Failure>(None),
                Err(e) => opened_by(buf@) == Err::<Option<Seq<char>>, Failure>(e),
            },
    {
        let resp = match Response::parse_from_bytes(buf) {
            Ok(resp) => resp,
            Err(e) => {
                return Err(e);
            },
        };
        match resp.cmd {
            Some(RespCmd::Fsync(fsync)) => Ok(Some(fsync.addr)),
            _ => Ok(None),
        }
    }

    /// The client has a listening socket, bound to `bound`, and from there a connection with the
    /// server.
    pub fn listen(&mut self, bound: SocketAddr)
        ensures
            final(self)@ == old(self)@.listening_at(bound),
    {
        self.listening = Some(bound);
    }

    /// Whether connections of peers can be accepted. `exited` tells that the client has stopped to
    /// listen meanwhile.
    pub fn accept(&self, exited: bool) -> (r: Result<(), Failure>)
        ensures
            r == self@.accepting(exited),
    {
        if self.listening.is_none() {
            Err(Failure::NotListening)
        } else if exited {
            Err(Failure::Exit)
        } else {
            Ok(())
        }
    }
}

// ---------------------------------------------------------------------------------------------
// Reading
// ---------------------------------------------------------------------------------------------

/// What the reading half of the server connection waits for.
#[derive(Debug, PartialEq, Eq)]
pub enum RecvEvent {
    /// The client is to stop.
    Exit,
    /// Nothing more can be read.
    Failed,
    /// The server sent a message.
    Message(Vec<u8>),
}

/// What the reading half does then.
#[derive(Debug, PartialEq, Eq)]
pub enum RecvStep {
    /// Read on.
    Continue,
    /// Open the way to the address that this text is, see [`open_step`].
    Open(String),
    /// End well.
    Stop,
    /// Tell those who wait for the client to stop, and end well.
    StopAndTell,
}

/// What the reading half does once the text it was given is looked at.
#[derive(Clone, Copy, Debug, PartialEq, Eq, Structural)]
pub enum OpenStep {
    /// Try to connect, for [`OPEN_TIMEOUT`] at most, and read on meanwhile.
    Connect(Dial),
    /// End with this failure, and tell nobody.
    Fail(Failure),
}

#[verifier::ext_equal]
pub enum RecvStepView {
    Continue,
    Open(Seq<char>),
    Stop,
    StopAndTell,
}

impl View for RecvStep {
    type V = RecvStepView;

    open spec fn view(&self) -> RecvStepView {
        match *self {
            RecvStep::Continue => RecvStepView::Continue,
            RecvStep::Open(addr) => RecvStepView::Open(addr@),
            RecvStep::Stop => RecvStepView::Stop,
            RecvStep::StopAndTell => RecvStepView::StopAndTell,
        }
    }
}

/// What the reading half does.
pub open spec fn on_received(event: RecvEvent) -> RecvStepView {
    match event {
        RecvEvent::Exit => RecvStepView::Stop,
        RecvEvent::Failed => RecvStepView::StopAndTell,
        RecvEvent::Message(buf) => match opened_by(buf@) {
            Ok(Some(addr)) => RecvStepView::Open(addr),
            Ok(None) => RecvStepView::Continue,
            Err(_) => RecvStepView::StopAndTell,
        },
    }
}

/// What it does about a text.
pub open spec fn on_text(local: SocketAddr, parsed: Option<SocketAddr>) -> OpenStep {
    match parsed {
        Some(remote) => OpenStep::Connect(Dial { local, remote }),
        None => OpenStep::Fail(Failure::InvalidFsyncAddr),
    }
}

/// Decides what the reading half does. What is no message ends the reading like a failure to read.
pub fn recv_step(event: RecvEvent) -> (r: RecvStep)
    ensures
        r@ == on_received(event),
{
    match event {
        RecvEvent::Exit => RecvStep::Stop,
        RecvEvent::Failed => RecvStep::StopAndTell,
        RecvEvent::Message(buf) => match Client::received(buf.as_slice()) {
            Ok(Some(addr)) => RecvStep::Open(addr),
            Ok(None) => RecvStep::Continue,
            Err(_) => RecvStep::StopAndTell,
        },
    }
}

/// Decides what the reading half does about a text, from the address that the client listens at:
/// where the text is no address, the reading ends.
pub fn open_step(local: SocketAddr, parsed: Option<SocketAddr>) -> (r: OpenStep)
    ensures
        r == on_text(local, parsed),
{
    match punch_dial(local, parsed) {
        Ok(dial) => OpenStep::Connect(dial),
        Err(e) => OpenStep::Fail(e),
    }
}

// ---------------------------------------------------------------------------------------------
// Pinging
// ---------------------------------------------------------------------------------------------

/// What happened to the writing half of the server connection.
#[derive(Clone, Copy, Debug, PartialEq, Eq, Structural)]
pub enum PingEvent {
    /// It has begun.
    Started,
    /// A ping went out.
    Written,
    /// A ping could not be written.
    WriteFailed,
    /// [`crate::tcp::session::PING_INTERVAL`] has passed.
    Rested,
    /// The client is to stop.
    Exit,
}

/// What the writing half does then.
#[derive(Clone, Copy, Debug, PartialEq, Eq, Structural)]
pub enum PingStep {
    /// Write a ping.
    Ping,
    /// Wait for [`crate::tcp::session::PING_INTERVAL`] or for the client to stop.
    Rest,
    /// End.
    Stop,
    /// Tell those who wait for the client to stop, and end.
    StopAndTell,
}

/// What the writing half does.
pub open spec fn on_ping_event(event: PingEvent) -> PingStep {
    match event {
        PingEvent::Started | PingEvent::Rested => PingStep::Ping,
        PingEvent::Written => PingStep::Rest,
        PingEvent::WriteFailed => PingStep::StopAndTell,
        PingEvent::Exit => PingStep::Stop,
    }
}

/// Decides what the writing half does.
pub fn ping_step(event: PingEvent) -> (r: PingStep)
    ensures
        r == on_ping_event(event),
{
    match event {
        PingEvent::Started | PingEvent::Rested => PingStep::Ping,
        PingEvent::Written => PingStep::Rest,
        PingEvent::WriteFailed => PingStep::StopAndTell,
        PingEvent::Exit => PingStep::Stop,
    }
}

// ---------------------------------------------------------------------------------------------
// Laws
// ---------------------------------------------------------------------------------------------

/// What has come of the reading so far.
#[verifier::ext_equal]
pub struct Reading {
    /// How it ended, if it did.
    pub result: Option<Result<(), Failure>>,
    /// Those who wait for the client to stop were told.
    pub told: bool,
    /// The attempts to connect, in their order.
    pub opened: Seq<Dial>,
}

impl Reading {
    /// After one more event, as [`recv_step`] and [`open_step`] decide. `parsed` is what address a
    /// text is, if it is one.
    pub open spec fn after(
        self,
        event: RecvEvent,
        local: SocketAddr,
        parsed: spec_fn(Seq<char>) -> Option<SocketAddr>,
    ) -> Reading {
        if self.result is Some {
            self
        } else {
            match on_received(event) {
                RecvStepView::Continue => self,
                RecvStepView::Open(addr) => match on_text(local, parsed(addr)) {
                    OpenStep::Connect(dial) => Reading { opened: self.opened.push(dial), ..self },
                    OpenStep::Fail(e) => Reading { result: Some(Err(e)), ..self },
                },
                RecvStepView::Stop => Reading { result: Some(Ok(())), ..self },
                RecvStepView::StopAndTell => Reading { result: Some(Ok(())), told: true, ..self },
            }
        }
    }

    /// After all of these events.
    pub open spec fn of(
        events: Seq<RecvEvent>,
        local: SocketAddr,
        parsed: spec_fn(Seq<char>) -> Option<SocketAddr>,
    ) -> Reading
        decreases events.len(),
    {
        if events.len() == 0 {
            Reading { result: None, told: false, opened: Seq::empty() }
        } else {
            Reading::of(events.drop_last(), local, parsed).after(events.last(), local, parsed)
        }
    }
}

/// The event is a message that can be read.
pub open spec fn readable(event: RecvEvent) -> bool {
    event matches RecvEvent::Message(buf) && opened_by(buf@) is Ok
}

/// The event asks to open the way to what is no address.
pub open spec fn misleading(
    event: RecvEvent,
    parsed: spec_fn(Seq<char>) -> Option<SocketAddr>,
) -> bool {
    event matches RecvEvent::Message(buf) && opened_by(buf@) matches Ok(Some(addr)) && parsed(
        addr,
    ) is None
}

/// The attempts to connect that these messages ask for, in their order.
pub open spec fn openings(
    events: Seq<RecvEvent>,
    local: SocketAddr,
    parsed: spec_fn(Seq<char>) -> Option<SocketAddr>,
) -> Seq<Dial>
    decreases events.len(),
{
    if events.len() == 0 {
        Seq::empty()
    } else {
        let before = openings(events.drop_last(), local, parsed);
        match events.last() {
            RecvEvent::Message(buf) => match opened_by(buf@) {
                Ok(Some(addr)) => match parsed(addr) {
                    Some(remote) => before.push(Dial { local, remote }),
                    None => before,
                },
                _ => before,
            },
            _ => before,
        }
    }
}

/// While messages can be read, the reading goes on until one asks for what is no address. Nobody
/// is told anything, and there is one attempt to connect for each other message that asks for one.
pub proof fn law_reading_goes_on(
    messages: Seq<RecvEvent>,
    local: SocketAddr,
    parsed: spec_fn(Seq<char>) -> Option<SocketAddr>,
)
    requires
        forall|k: int| 0 <= k < messages.len() ==> readable(#[trigger] messages[k]),
    ensures
        ({
            let r = Reading::of(messages, local, parsed);
            let misled = exists|k: int|
                0 <= k < messages.len() && misleading(#[trigger] messages[k], parsed);
            &&& !r.told
            &&& misled ==> r.result == Some(Err::<(), Failure>(Failure::InvalidFsyncAddr))
            &&& !misled ==> r.result is None && r.opened == openings(messages, local, parsed)
        }),
    decreases messages.len(),
{
    if messages.len() > 0 {
        let less = messages.drop_last();
        let n = less.len() as int;
        assert forall|k: int| 0 <= k < less.len() implies readable(#[trigger] less[k]) by {
            assert(less[k] == messages[k]);
        }
        law_reading_goes_on(less, local, parsed);
        assert(readable(messages[n]));
        if exists|k: int| 0 <= k < less.len() && misleading(#[trigger] less[k], parsed) {
            let k = choose|k: int| 0 <= k < less.len() && misleading(#[trigger] less[k], parsed);
            assert(misleading(messages[k], parsed));
        } else {
            assert forall|k: int| 0 <= k < n implies !misleading(
                #[trigger] messages[k],
                parsed,
            ) by {
                assert(!misleading(less[k], parsed));
            }
        }
    }
}

/// How the reading ends: with a failure where a message asked for what is no address before the
/// end, else well. Those who wait for the client to stop are told where it ends because nothing
/// more can be read, or what was read is no message, and only then.
pub proof fn law_reading_ends(
    messages: Seq<RecvEvent>,
    end: RecvEvent,
    local: SocketAddr,
    parsed: spec_fn(Seq<char>) -> Option<SocketAddr>,
)
    requires
        forall|k: int| 0 <= k < messages.len() ==> readable(#[trigger] messages[k]),
        !readable(end),
    ensures
        ({
            let r = Reading::of(messages.push(end), local, parsed);
            let misled = exists|k: int|
                0 <= k < messages.len() && misleading(#[trigger] messages[k], parsed);
            &&& r.result == Some(
                if misled {
                    Err::<(), Failure>(Failure::InvalidFsyncAddr)
                } else {
                    Ok::<(), Failure>(())
                },
            )
            &&& r.told <==> !misled && end !is Exit
            &&& !misled ==> r.opened == openings(messages, local, parsed)
        }),
{
    law_reading_goes_on(messages, local, parsed);
    assert(messages.push(end).drop_last() =~= messages);
}

/// The writing half pings at once and after each rest, and rests after each ping. It ends when the
/// client is to stop or a ping cannot be written, and tells those who wait only in the latter case.
pub proof fn law_pinging(event: PingEvent)
    ensures
        on_ping_event(event) == PingStep::Ping <==> event == PingEvent::Started || event
            == PingEvent::Rested,
        on_ping_event(event) == PingStep::Rest <==> event == PingEvent::Written,
        on_ping_event(event) == PingStep::Stop <==> event == PingEvent::Exit,
        on_ping_event(event) == PingStep::StopAndTell <==> event == PingEvent::WriteFailed,
{
}

/// The way is opened from where the client listens to the address that was told, and where that is
/// no address, the reading fails.
pub proof fn law_opened_from(local: SocketAddr, parsed: Option<SocketAddr>)
    ensures
        match on_text(local, parsed) {
            OpenStep::Connect(dial) => dial.local == local && parsed == Some(dial.remote),
            OpenStep::Fail(e) => parsed is None && e == Failure::InvalidFsyncAddr,
        },
{
}

} // verus!
