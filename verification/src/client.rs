//! A UDP client that uses one socket for its server and for its peers.
//!
//! The peers greet each other: who connects asks the target itself once the server has told where
//! it is, and the target answers.
use crate::addr::{Endpoint, SocketAddr};
use crate::error::Failure;
use crate::proto::{Isync, Ping, ReqCmd, Request, RespCmd, Response, Rsync};
use crate::time::SECOND;
use vstd::prelude::*;

verus! {

/// How often the server, and then the target, is asked.
pub const TRIES: u8 = 3;

/// How long to wait for an answer.
pub const READ_TIMEOUT: u64 = 10 * SECOND;

/// How long after a ping the next one is due.
pub const KEEPALIVE: u64 = 10 * SECOND;

/// A peer and its server.
pub struct Client {
    pub server_addr: SocketAddr,
    pub id: String,
}

// ---------------------------------------------------------------------------------------------
// Connecting
// ---------------------------------------------------------------------------------------------

/// Who is being asked, and how often it was.
#[derive(Debug, PartialEq, Eq)]
pub enum Stage {
    Server { tries: u8 },
    Peer { addr: String, tries: u8 },
    Done(Result<(), Failure>),
}

#[verifier::ext_equal]
pub enum StageView {
    Server { tries: nat },
    Peer { addr: Seq<char>, tries: nat },
    Done(Result<(), Failure>),
}

impl View for Stage {
    type V = StageView;

    open spec fn view(&self) -> StageView {
        match *self {
            Stage::Server { tries } => StageView::Server { tries: tries as nat },
            Stage::Peer { addr, tries } => StageView::Peer { addr: addr@, tries: tries as nat },
            Stage::Done(r) => StageView::Done(r),
        }
    }
}

/// A connection attempt under way.
pub struct Connecting {
    server_addr: SocketAddr,
    id: String,
    target_id: String,
    request: Vec<u8>,
    stage: Stage,
}

#[verifier::ext_equal]
pub struct ConnectingView {
    pub server_addr: SocketAddr,
    pub id: Seq<char>,
    pub target_id: Seq<char>,
    /// What is sent to the server and to the target.
    pub request: Seq<u8>,
    pub stage: StageView,
}

impl View for Connecting {
    type V = ConnectingView;

    closed spec fn view(&self) -> ConnectingView {
        ConnectingView {
            server_addr: self.server_addr,
            id: self.id@,
            target_id: self.target_id@,
            request: self.request@,
            stage: self.stage@,
        }
    }
}

/// What a connection attempt wants done next.
#[derive(Debug, PartialEq, Eq)]
pub enum ConnectAction {
    /// Send the request to the server, and wait for [`READ_TIMEOUT`] for one datagram.
    AskServer,
    /// The same with the target, whose address is this text.
    AskPeer(String),
    /// There is a connection, or there will be none.
    Finish(Result<(), Failure>),
}

#[verifier::ext_equal]
pub enum ConnectActionView {
    AskServer,
    AskPeer(Seq<char>),
    Finish(Result<(), Failure>),
}

impl View for ConnectAction {
    type V = ConnectActionView;

    open spec fn view(&self) -> ConnectActionView {
        match *self {
            ConnectAction::AskServer => ConnectActionView::AskServer,
            ConnectAction::AskPeer(addr) => ConnectActionView::AskPeer(addr@),
            ConnectAction::Finish(r) => ConnectActionView::Finish(r),
        }
    }
}

impl ConnectingView {
    pub open spec fn start(
        server_addr: SocketAddr,
        id: Seq<char>,
        target_id: Seq<char>,
    ) -> ConnectingView {
        ConnectingView {
            server_addr,
            id,
            target_id,
            request: crate::proto::request(
                id,
                crate::proto::ReqCmdView::Isync { id: target_id },
            ).bytes(),
            stage: StageView::Server { tries: 0 },
        }
    }

    /// What is done next: the one who is being asked is asked again, but not too often.
    pub open spec fn next(self) -> (ConnectingView, ConnectActionView) {
        let lost = Err::<(), Failure>(Failure::NotConnected);
        match self.stage {
            StageView::Server { tries } => if tries < TRIES {
                (
                    ConnectingView { stage: StageView::Server { tries: tries + 1 }, ..self },
                    ConnectActionView::AskServer,
                )
            } else {
                (
                    ConnectingView { stage: StageView::Done(lost), ..self },
                    ConnectActionView::Finish(lost),
                )
            },
            StageView::Peer { addr, tries } => if tries < TRIES {
                (
                    ConnectingView { stage: StageView::Peer { addr, tries: tries + 1 }, ..self },
                    ConnectActionView::AskPeer(addr),
                )
            } else {
                (
                    ConnectingView { stage: StageView::Done(lost), ..self },
                    ConnectActionView::Finish(lost),
                )
            },
            StageView::Done(r) => (self, ConnectActionView::Finish(r)),
        }
    }

    /// A datagram came in. It counts where it is for this client and comes from the one who was
    /// asked: the server tells where the target is, or that it is not known, and the target tells
    /// that it is there.
    pub open spec fn received(
        self,
        buf: Seq<u8>,
        from: crate::addr::EndpointView,
    ) -> ConnectingView {
        match crate::proto::parse_response(buf) {
            Some(resp) => if resp.id != self.id {
                self
            } else {
                match (self.stage, resp.cmd) {
                    (
                        StageView::Server { .. },
                        Some(crate::proto::RespCmdView::Redirect { addr, .. }),
                    ) => if from.addr != self.server_addr {
                        self
                    } else if addr.len() > 0 {
                        ConnectingView { stage: StageView::Peer { addr, tries: 0 }, ..self }
                    } else {
                        ConnectingView {
                            stage: StageView::Done(Err(Failure::UnknownTarget)),
                            ..self
                        }
                    },
                    (
                        StageView::Peer { addr, .. },
                        Some(crate::proto::RespCmdView::Rsync { id }),
                    ) => if from.text == addr && id == self.target_id {
                        ConnectingView { stage: StageView::Done(Ok(())), ..self }
                    } else {
                        self
                    },
                    _ => self,
                }
            },
            None => self,
        }
    }
}

impl Client {
    /// Sets the rendezvous server and the identity.
    pub fn new(server_addr: SocketAddr, id: &str) -> (r: Client)
        ensures
            r.server_addr == server_addr,
            r.id@ == id@,
    {
        Client { server_addr, id: id.to_owned() }
    }

    fn new_req(&self) -> (r: Request)
        ensures
            r@ == (crate::proto::RequestView { id: self.id@, cmd: None }),
    {
        let mut req = Request::new();
        req.id = self.id.clone();
        req
    }

    /// Begin to ask for a connection to the target.
    pub fn connect(&self, target_id: &str) -> (r: Connecting)
        ensures
            r@ == ConnectingView::start(self.server_addr, self.id@, target_id@),
    {
        let mut req = self.new_req();
        req.cmd = Some(ReqCmd::Isync(Isync { id: target_id.to_owned() }));
        Connecting {
            server_addr: self.server_addr,
            id: self.id.clone(),
            target_id: target_id.to_owned(),
            request: req.write_to_bytes(),
            stage: Stage::Server { tries: 0 },
        }
    }

    /// Begin to ping the server and to answer peers.
    pub fn listen(&self) -> (r: Listening)
        ensures
            r@ == ListeningView::start(self.server_addr, self.id@),
    {
        let mut req = self.new_req();
        req.cmd = Some(ReqCmd::Ping(Ping {  }));
        Listening {
            server_addr: self.server_addr,
            id: self.id.clone(),
            ping: req.write_to_bytes(),
            last_ping: None,
        }
    }
}

impl Connecting {
    /// What to send, to the server and to the target.
    pub fn request(&self) -> (r: &[u8])
        ensures
            r@ == self@.request,
    {
        self.request.as_slice()
    }

    /// Decides what to do next.
    pub fn next(&mut self) -> (r: ConnectAction)
        ensures
            (final(self)@, r@) == old(self)@.next(),
    {
        match &self.stage {
            Stage::Server { tries } => {
                if *tries < TRIES {
                    self.stage = Stage::Server { tries: *tries + 1 };
                    return ConnectAction::AskServer;
                }
            },
            Stage::Peer { addr, tries } => {
                if *tries < TRIES {
                    let to = addr.clone();
                    self.stage = Stage::Peer { addr: addr.clone(), tries: *tries + 1 };
                    return ConnectAction::AskPeer(to);
                }
            },
            Stage::Done(r) => {
                return ConnectAction::Finish(*r);
            },
        }
        self.stage = Stage::Done(Err(Failure::NotConnected));
        ConnectAction::Finish(Err(Failure::NotConnected))
    }

    /// Takes in a datagram that came from `from`.
    pub fn received(&mut self, buf: &[u8], from: &Endpoint)
        ensures
            final(self)@ == old(self)@.received(buf@, from@),
    {
        let resp = match Response::parse_from_bytes(buf) {
            Ok(resp) => resp,
            Err(_) => {
                return ;
            },
        };
        if resp.id != self.id {
            return ;
        }
        match (&self.stage, resp.cmd) {
            (Stage::Server { .. }, Some(RespCmd::Redirect(rdr))) => {
                if from.addr == self.server_addr {
                    if !rdr.addr.as_str().is_empty() {
                        self.stage = Stage::Peer { addr: rdr.addr, tries: 0 };
                    } else {
                        self.stage = Stage::Done(Err(Failure::UnknownTarget));
                    }
                }
            },
            (Stage::Peer { addr, .. }, Some(RespCmd::Rsync(rsync))) => {
                if from.text == *addr && rsync.id == self.target_id {
                    self.stage = Stage::Done(Ok(()));
                }
            },
            _ => {},
        }
    }
}

// ---------------------------------------------------------------------------------------------
// Listening
// ---------------------------------------------------------------------------------------------

/// A client that waits for peers.
pub struct Listening {
    server_addr: SocketAddr,
    id: String,
    ping: Vec<u8>,
    last_ping: Option<u64>,
}

#[verifier::ext_equal]
pub struct ListeningView {
    pub server_addr: SocketAddr,
    pub id: Seq<char>,
    /// What is sent to the server as a ping.
    pub ping: Seq<u8>,
    pub last_ping: Option<u64>,
}

impl View for Listening {
    type V = ListeningView;

    closed spec fn view(&self) -> ListeningView {
        ListeningView {
            server_addr: self.server_addr,
            id: self.id@,
            ping: self.ping@,
            last_ping: self.last_ping,
        }
    }
}

/// Where an answer goes.
#[derive(Debug, PartialEq, Eq)]
pub enum Destination {
    Addr(SocketAddr),
    /// To the address that this text is, if it is one.
    Text(String),
}

/// An answer and where it goes.
#[derive(Debug, PartialEq, Eq)]
pub struct Answer {
    pub to: Destination,
    pub bytes: Vec<u8>,
}

#[verifier::ext_equal]
pub enum DestinationView {
    Addr(SocketAddr),
    Text(Seq<char>),
}

#[verifier::ext_equal]
pub struct AnswerView {
    pub to: DestinationView,
    pub bytes: Seq<u8>,
}

impl View for Answer {
    type V = AnswerView;

    open spec fn view(&self) -> AnswerView {
        AnswerView {
            to: match self.to {
                Destination::Addr(a) => DestinationView::Addr(a),
                Destination::Text(s) => DestinationView::Text(s@),
            },
            bytes: self.bytes@,
        }
    }
}

impl ListeningView {
    pub open spec fn start(server_addr: SocketAddr, id: Seq<char>) -> ListeningView {
        ListeningView {
            server_addr,
            id,
            ping: crate::proto::request(id, crate::proto::ReqCmdView::Ping).bytes(),
            last_ping: None,
        }
    }

    /// A ping is due: there was none yet, or the last one is too long ago.
    pub open spec fn ping_due(self, now: u64) -> bool {
        match self.last_ping {
            Some(t) => crate::time::elapsed(t as int, now as int) > KEEPALIVE,
            None => true,
        }
    }

    /// A ping went out.
    pub open spec fn pinged(self, now: u64) -> ListeningView {
        ListeningView { last_ping: Some(now), ..self }
    }

    /// The greeting for the peer `id`.
    pub open spec fn greeting(self, id: Seq<char>) -> Seq<u8> {
        crate::proto::response(id, crate::proto::RespCmdView::Rsync { id: self.id }).bytes()
    }

    /// What is answered to a datagram: a peer is greeted, when the server tells of it or when it
    /// asks for this client itself.
    pub open spec fn answer(
        self,
        buf: Seq<u8>,
        from: crate::addr::EndpointView,
    ) -> Option<AnswerView> {
        if from.addr == self.server_addr {
            match crate::proto::parse_response(buf) {
                Some(resp) => if resp.id != self.id {
                    None
                } else {
                    match resp.cmd {
                        Some(crate::proto::RespCmdView::Fsync { id, addr, .. }) => Some(
                            AnswerView {
                                to: DestinationView::Text(addr),
                                bytes: self.greeting(id),
                            },
                        ),
                        _ => None,
                    }
                },
                None => None,
            }
        } else {
            match crate::proto::parse_request(buf) {
                Some(req) => match req.cmd {
                    Some(crate::proto::ReqCmdView::Isync { id }) => if id == self.id {
                        Some(
                            AnswerView {
                                to: DestinationView::Addr(from.addr),
                                bytes: self.greeting(req.id),
                            },
                        )
                    } else {
                        None
                    },
                    _ => None,
                },
                None => None,
            }
        }
    }
}

impl Listening {
    /// What to send as a ping.
    pub fn ping(&self) -> (r: &[u8])
        ensures
            r@ == self@.ping,
    {
        self.ping.as_slice()
    }

    /// Whether a ping is due.
    pub fn ping_due(&self, now: u64) -> (r: bool)
        ensures
            r == self@.ping_due(now),
    {
        match self.last_ping {
            Some(t) => t < now && now - t > KEEPALIVE,
            None => true,
        }
    }

    /// A ping went out.
    pub fn pinged(&mut self, now: u64)
        ensures
            final(self)@ == old(self)@.pinged(now),
    {
        self.last_ping = Some(now);
    }

    /// Decides what to answer to a datagram that came from `from`.
    pub fn received(&self, buf: &[u8], from: &Endpoint) -> (r: Option<Answer>)
        ensures
            match r {
                Some(answer) => self@.answer(buf@, from@) == Some(answer@),
                None => self@.answer(buf@, from@) is None,
            },
    {
        if from.addr == self.server_addr {
            let resp = match Response::parse_from_bytes(buf) {
                Ok(resp) => resp,
                Err(_) => {
                    return None;
                },
            };
            if resp.id != self.id {
                return None;
            }
            match resp.cmd {
                Some(RespCmd::Fsync(fsync)) => Some(
                    Answer {
                        to: Destination::Text(fsync.addr),
                        bytes: self.rsync_message(fsync.id),
                    },
                ),
                _ => None,
            }
        } else {
            let req = match Request::parse_from_bytes(buf) {
                Ok(req) => req,
                Err(_) => {
                    return None;
                },
            };
            match req.cmd {
                Some(ReqCmd::Isync(isync)) => {
                    if isync.id != self.id {
                        return None;
                    }
                    Some(
                        Answer {
                            to: Destination::Addr(from.addr),
                            bytes: self.rsync_message(req.id),
                        },
                    )
                },
                _ => None,
            }
        }
    }

    fn rsync_message(&self, id: String) -> (r: Vec<u8>)
        ensures
            r@ == self@.greeting(id@),
    {
        let resp = Response { id, cmd: Some(RespCmd::Rsync(Rsync { id: self.id.clone() })) };
        resp.write_to_bytes()
    }
}

// ---------------------------------------------------------------------------------------------
// Laws
// ---------------------------------------------------------------------------------------------

/// What can happen to a connection attempt.
pub enum ConnectEvent {
    /// It is asked what to do next.
    Asked,
    /// These bytes came from there.
    Received(Seq<u8>, crate::addr::EndpointView),
}

impl ConnectingView {
    /// The attempt after all of this happened to it.
    pub open spec fn after_all(self, events: Seq<ConnectEvent>) -> ConnectingView
        decreases events.len(),
    {
        if events.len() == 0 {
            self
        } else {
            let before = self.after_all(events.drop_last());
            match events.last() {
                ConnectEvent::Asked => before.next().0,
                ConnectEvent::Received(buf, from) => before.received(buf, from),
            }
        }
    }

    /// How often the server was asked meanwhile, and how often the target.
    pub open spec fn asked(self, events: Seq<ConnectEvent>) -> (nat, nat)
        decreases events.len(),
    {
        if events.len() == 0 {
            (0, 0)
        } else {
            let (server, peer) = self.asked(events.drop_last());
            match (events.last(), self.after_all(events.drop_last()).next().1) {
                (ConnectEvent::Asked, ConnectActionView::AskServer) => (server + 1, peer),
                (ConnectEvent::Asked, ConnectActionView::AskPeer(_)) => (server, peer + 1),
                _ => (server, peer),
            }
        }
    }
}

/// Whatever happens to a connection attempt, the server is asked three times at most, and so is
/// the target.
pub proof fn law_three_tries(
    server_addr: SocketAddr,
    id: Seq<char>,
    target_id: Seq<char>,
    events: Seq<ConnectEvent>,
)
    ensures
        ({
            let start = ConnectingView::start(server_addr, id, target_id);
            let (server, peer) = start.asked(events);
            &&& server <= 3
            &&& peer <= 3
            &&& match start.after_all(events).stage {
                StageView::Server { tries } => server == tries && peer == 0,
                StageView::Peer { tries, .. } => peer == tries,
                StageView::Done(_) => true,
            }
        }),
    decreases events.len(),
{
    if events.len() > 0 {
        law_three_tries(server_addr, id, target_id, events.drop_last());
    }
}

/// An attempt begins with the server, and what it sends is its request for the target.
pub proof fn law_attempt_begins(
    server_addr: SocketAddr,
    id: Seq<char>,
    target_id: Seq<char>,
)
    ensures
        ({
            let v = ConnectingView::start(server_addr, id, target_id);
            &&& v.server_addr == server_addr
            &&& v.id == id
            &&& v.target_id == target_id
            &&& v.stage == (StageView::Server { tries: 0 })
            &&& crate::proto::request(id, crate::proto::ReqCmdView::Isync { id: target_id }).fits()
                ==> crate::proto::parse_request(v.request) == Some(
                crate::proto::RequestView {
                    id,
                    cmd: Some(crate::proto::ReqCmdView::Isync { id: target_id }),
                },
            )
        }),
{
    if crate::proto::request(id, crate::proto::ReqCmdView::Isync { id: target_id }).fits() {
        crate::proto::law_plain_request_round_trip(
            crate::proto::request(id, crate::proto::ReqCmdView::Isync { id: target_id }),
        );
    }
}

/// Who is being asked is asked, and that is counted, up to three times. After that there is no
/// connection. How an attempt has ended stays so.
pub proof fn law_asked_up_to_three_times(v: ConnectingView)
    ensures
        ({
            let (w, action) = v.next();
            &&& w.server_addr == v.server_addr
            &&& w.id == v.id
            &&& w.target_id == v.target_id
            &&& w.request == v.request
            &&& match v.stage {
                StageView::Server { tries } => {
                    &&& tries < 3 ==> action == ConnectActionView::AskServer && w.stage
                        == (StageView::Server { tries: tries + 1 })
                    &&& tries >= 3 ==> action == ConnectActionView::Finish(
                        Err(Failure::NotConnected),
                    ) && w.stage == StageView::Done(Err(Failure::NotConnected))
                },
                StageView::Peer { addr, tries } => {
                    &&& tries < 3 ==> action == ConnectActionView::AskPeer(addr) && w.stage
                        == (StageView::Peer { addr, tries: tries + 1 })
                    &&& tries >= 3 ==> action == ConnectActionView::Finish(
                        Err(Failure::NotConnected),
                    ) && w.stage == StageView::Done(Err(Failure::NotConnected))
                },
                StageView::Done(r) => action == ConnectActionView::Finish(r) && w == v,
            }
        }),
{
}

/// What comes in changes nothing but who is asked next.
pub proof fn law_received_keeps(
    v: ConnectingView,
    buf: Seq<u8>,
    from: crate::addr::EndpointView,
)
    ensures
        v.received(buf, from).server_addr == v.server_addr,
        v.received(buf, from).id == v.id,
        v.received(buf, from).target_id == v.target_id,
        v.received(buf, from).request == v.request,
{
}

/// What the server tells, while it is being asked, counts: the target is asked next where an
/// address was told, and the attempt fails where none was. What others tell does not.
pub proof fn law_server_tells(
    v: ConnectingView,
    buf: Seq<u8>,
    from: crate::addr::EndpointView,
    tries: nat,
    about: Seq<char>,
    addr: Seq<char>,
)
    requires
        v.stage == (StageView::Server { tries }),
        crate::proto::parse_response(buf) == Some(
            crate::proto::ResponseView {
                id: v.id,
                cmd: Some(crate::proto::RespCmdView::Redirect { id: about, addr }),
            },
        ),
    ensures
        from.addr == v.server_addr && addr.len() > 0 ==> v.received(buf, from).stage == (
        StageView::Peer { addr, tries: 0 }),
        from.addr == v.server_addr && addr.len() == 0 ==> v.received(buf, from).stage
            == StageView::Done(Err(Failure::UnknownTarget)),
        from.addr != v.server_addr ==> v.received(buf, from) == v,
{
}

/// The target's word, while it is being asked, makes the connection, where it comes from the
/// address that is asked and names the target, and only there.
pub proof fn law_target_tells(
    v: ConnectingView,
    buf: Seq<u8>,
    from: crate::addr::EndpointView,
    addr: Seq<char>,
    tries: nat,
    name: Seq<char>,
)
    requires
        v.stage == (StageView::Peer { addr, tries }),
        crate::proto::parse_response(buf) == Some(
            crate::proto::ResponseView {
                id: v.id,
                cmd: Some(crate::proto::RespCmdView::Rsync { id: name }),
            },
        ),
    ensures
        from.text == addr && name == v.target_id ==> v.received(buf, from).stage == StageView::Done(
            Ok(()),
        ),
        from.text != addr || name != v.target_id ==> v.received(buf, from) == v,
{
}

/// Nothing else counts: no message for somebody else, no other command, and nothing at all once
/// the attempt has ended.
pub proof fn law_otherwise_ignored(
    v: ConnectingView,
    buf: Seq<u8>,
    from: crate::addr::EndpointView,
)
    requires
        match crate::proto::parse_response(buf) {
            Some(resp) => resp.id != v.id || match v.stage {
                StageView::Server { .. } => !(resp.cmd matches Some(
                    crate::proto::RespCmdView::Redirect { .. },
                )),
                StageView::Peer { .. } => !(resp.cmd matches Some(
                    crate::proto::RespCmdView::Rsync { .. },
                )),
                StageView::Done(_) => true,
            },
            None => true,
        },
    ensures
        v.received(buf, from) == v,
{
}

/// A listener begins with a ping that is due, and what it sends is its ping.
pub proof fn law_listening_begins(server_addr: SocketAddr, id: Seq<char>, now: u64)
    ensures
        ({
            let k = ListeningView::start(server_addr, id);
            &&& k.server_addr == server_addr
            &&& k.id == id
            &&& k.ping_due(now)
            &&& crate::proto::request(id, crate::proto::ReqCmdView::Ping).fits()
                ==> crate::proto::parse_request(k.ping) == Some(
                crate::proto::RequestView { id, cmd: Some(crate::proto::ReqCmdView::Ping) },
            )
        }),
{
    if crate::proto::request(id, crate::proto::ReqCmdView::Ping).fits() {
        crate::proto::law_plain_request_round_trip(
            crate::proto::request(id, crate::proto::ReqCmdView::Ping),
        );
    }
}

/// After a ping the next one is due when more than ten seconds have passed, and not before.
pub proof fn law_ping_interval(k: ListeningView, sent: u64, now: u64)
    ensures
        k.pinged(sent).ping_due(now) <==> now - sent > 10_000_000_000,
        k.pinged(sent).server_addr == k.server_addr,
        k.pinged(sent).id == k.id,
        k.pinged(sent).ping == k.ping,
{
}

/// A peer that the server tells of is greeted at the address that the server tells.
pub proof fn law_greets_who_is_told_of(
    k: ListeningView,
    buf: Seq<u8>,
    from: crate::addr::EndpointView,
    peer: Seq<char>,
    addr: Seq<char>,
    unknown: Map<u32, Seq<crate::wire::UnknownValue>>,
)
    requires
        from.addr == k.server_addr,
        crate::proto::parse_response(buf) == Some(
            crate::proto::ResponseView {
                id: k.id,
                cmd: Some(crate::proto::RespCmdView::Fsync { id: peer, addr, unknown }),
            },
        ),
        crate::proto::response(peer, crate::proto::RespCmdView::Rsync { id: k.id }).fits(),
    ensures
        k.answer(buf, from) matches Some(answer) && answer.to == DestinationView::Text(addr)
            && crate::proto::parse_response(answer.bytes) == Some(
            crate::proto::ResponseView {
                id: peer,
                cmd: Some(crate::proto::RespCmdView::Rsync { id: k.id }),
            },
        ),
{
    crate::proto::law_plain_response_round_trip(
        crate::proto::response(peer, crate::proto::RespCmdView::Rsync { id: k.id }),
    );
}

/// A peer that asks for this client is greeted where it asks from.
pub proof fn law_greets_who_asks(
    k: ListeningView,
    buf: Seq<u8>,
    from: crate::addr::EndpointView,
    peer: Seq<char>,
)
    requires
        from.addr != k.server_addr,
        crate::proto::parse_request(buf) == Some(
            crate::proto::RequestView {
                id: peer,
                cmd: Some(crate::proto::ReqCmdView::Isync { id: k.id }),
            },
        ),
        crate::proto::response(peer, crate::proto::RespCmdView::Rsync { id: k.id }).fits(),
    ensures
        k.answer(buf, from) matches Some(answer) && answer.to == DestinationView::Addr(from.addr)
            && crate::proto::parse_response(answer.bytes) == Some(
            crate::proto::ResponseView {
                id: peer,
                cmd: Some(crate::proto::RespCmdView::Rsync { id: k.id }),
            },
        ),
{
    crate::proto::law_plain_response_round_trip(
        crate::proto::response(peer, crate::proto::RespCmdView::Rsync { id: k.id }),
    );
}

/// Nobody else is answered: not the server, unless it tells this client of a peer, and no peer,
/// unless it asks for this client.
pub proof fn law_nobody_else_answered(
    k: ListeningView,
    buf: Seq<u8>,
    from: crate::addr::EndpointView,
)
    requires
        from.addr == k.server_addr ==> match crate::proto::parse_response(buf) {
            Some(resp) => resp.id != k.id || !(resp.cmd matches Some(
                crate::proto::RespCmdView::Fsync { .. },
            )),
            None => true,
        },
        from.addr != k.server_addr ==> match crate::proto::parse_request(buf) {
            Some(req) => req.cmd != Some(crate::proto::ReqCmdView::Isync { id: k.id }),
            None => true,
        },
    ensures
        k.answer(buf, from) is None,
{
}

} // verus!
