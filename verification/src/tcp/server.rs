//! TCP rendezvous server.
//!
//! Every connection has a handler of its own. They share what is known of the peers, and hand each
//! other requests.
use crate::addr::Endpoint;
use crate::error::Failure;
use crate::frame::{frame, payload_len};
use crate::idmap::IdMap;
use crate::proto::{
    Bye, Fsync, Isync, Ping, Pong, Redirect, ReqCmd, Request, RespCmd, Response, Rsync,
};
use crate::time::SECOND;
use vstd::prelude::*;

verus! {

/// How long a connection may stay silent.
pub const READ_TIMEOUT: u64 = 30 * SECOND;

/// How long a request may be at most.
pub const MAX_REQUEST: usize = 1500;

/// A peer: over which connection it was heard last, when, and from where.
#[derive(Debug, PartialEq, Eq)]
pub struct PeerState {
    pub id: u64,
    pub last_ping: u64,
    pub addr: Endpoint,
}

#[verifier::ext_equal]
pub struct PeerStateView {
    pub id: u64,
    pub last_ping: u64,
    pub addr: crate::addr::EndpointView,
}

impl View for PeerState {
    type V = PeerStateView;

    open spec fn view(&self) -> PeerStateView {
        PeerStateView { id: self.id, last_ping: self.last_ping, addr: self.addr@ }
    }
}

/// TCP rendezvous server.
///
/// Keeps track of all peers and forwards connection requests.
pub struct Server {
    /// The peers by their identities.
    pub peers: IdMap<PeerState>,
    /// How many connections there have been.
    pub count: u64,
}

/// What serves one connection.
#[derive(Debug, PartialEq, Eq)]
pub struct PeerHandler {
    /// Who is at the other end, as far as it told.
    pub peer_id: String,
    /// The number of the connection.
    pub id: u64,
    /// Where the other end is.
    pub addr: Endpoint,
}

#[verifier::ext_equal]
pub struct PeerHandlerView {
    pub peer_id: Seq<char>,
    pub id: u64,
    pub addr: crate::addr::EndpointView,
}

impl View for PeerHandler {
    type V = PeerHandlerView;

    open spec fn view(&self) -> PeerHandlerView {
        PeerHandlerView { peer_id: self.peer_id@, id: self.id, addr: self.addr@ }
    }
}

/// What a handler has to do for a request.
#[derive(Debug, PartialEq, Eq)]
pub enum Effect {
    Nothing,
    /// Send this response over the connection.
    Respond(Response),
    /// Hand the request to the handler of connection `to`, if there still is one.
    Forward { to: u64, req: Request },
    /// The same, and then note that the peer `src_id` is at this connection.
    Introduce { to: u64, req: Request, src_id: String },
}

#[verifier::ext_equal]
pub enum EffectView {
    Nothing,
    Respond(crate::proto::ResponseView),
    Forward { to: u64, req: crate::proto::RequestView },
    Introduce { to: u64, req: crate::proto::RequestView, src_id: Seq<char> },
}

impl View for Effect {
    type V = EffectView;

    open spec fn view(&self) -> EffectView {
        match *self {
            Effect::Nothing => EffectView::Nothing,
            Effect::Respond(resp) => EffectView::Respond(resp@),
            Effect::Forward { to, req } => EffectView::Forward { to, req: req@ },
            Effect::Introduce { to, req, src_id } => EffectView::Introduce {
                to,
                req: req@,
                src_id: src_id@,
            },
        }
    }
}

// ---------------------------------------------------------------------------------------------
// What a handler does
// ---------------------------------------------------------------------------------------------

/// The response that goes over the connection. It names nobody: there is one peer at the other end.
pub open spec fn respond(cmd: crate::proto::RespCmdView) -> EffectView {
    EffectView::Respond(crate::proto::response(Seq::empty(), cmd))
}

impl PeerHandlerView {
    /// The peer at the other end is `id`.
    pub open spec fn named(self, id: Seq<char>) -> PeerHandlerView {
        PeerHandlerView { peer_id: id, ..self }
    }

    /// The peer `id` was heard over this connection. Whatever other connection it had is no
    /// longer its own.
    pub open spec fn joined(
        self,
        peers: Map<Seq<char>, PeerStateView>,
        id: Seq<char>,
        now: u64,
    ) -> Map<Seq<char>, PeerStateView> {
        peers.insert(
            id,
            if peers.contains_key(id) && peers[id].id == self.id {
                PeerStateView { last_ping: now, ..peers[id] }
            } else {
                PeerStateView { id: self.id, last_ping: now, addr: self.addr }
            },
        )
    }

    /// The connection has ended: its peer is forgotten, unless it has another one by now.
    pub open spec fn left(self, peers: Map<Seq<char>, PeerStateView>) -> Map<
        Seq<char>,
        PeerStateView,
    > {
        if peers.contains_key(self.peer_id) && peers[self.peer_id].id == self.id {
            peers.remove(self.peer_id)
        } else {
            peers
        }
    }

    /// What is done for a request, read from the connection or handed over by another handler.
    ///
    /// - A request for a connection is handed to the handler of its target. If the target is not
    ///   known, the sender is told so.
    /// - Such a request, handed over, is passed on to the target, with the fields of it that are
    ///   not known.
    /// - A peer that expects another one has this handed to that one's handler, which then tells
    ///   where the peer is.
    pub open spec fn effect(
        self,
        peers: Map<Seq<char>, PeerStateView>,
        req: crate::proto::RequestView,
    ) -> Result<EffectView, Failure> {
        match req.cmd {
            Some(crate::proto::ReqCmdView::Ping) => Ok(respond(crate::proto::RespCmdView::Pong)),
            Some(crate::proto::ReqCmdView::Isync { id: dst }) => if peers.contains_key(dst) {
                Ok(
                    EffectView::Introduce {
                        to: peers[dst].id,
                        req: crate::proto::request(
                            Seq::empty(),
                            crate::proto::ReqCmdView::fsync(req.id, self.addr.text),
                        ),
                        src_id: req.id,
                    },
                )
            } else {
                Ok(
                    respond(
                        crate::proto::RespCmdView::Redirect { id: dst, addr: Seq::empty() },
                    ),
                )
            },
            Some(crate::proto::ReqCmdView::Fsync { id, addr, unknown }) => Ok(
                respond(crate::proto::RespCmdView::Fsync { id, addr, unknown }),
            ),
            Some(crate::proto::ReqCmdView::Rsync { id: dst }) => if dst == self.peer_id {
                if peers.contains_key(req.id) {
                    Ok(
                        respond(
                            crate::proto::RespCmdView::Redirect {
                                id: req.id,
                                addr: peers[req.id].addr.text,
                            },
                        ),
                    )
                } else {
                    Ok(EffectView::Nothing)
                }
            } else if peers.contains_key(dst) {
                Ok(
                    EffectView::Forward {
                        to: peers[dst].id,
                        req: crate::proto::request(
                            req.id,
                            crate::proto::ReqCmdView::Rsync { id: dst },
                        ),
                    },
                )
            } else {
                Ok(EffectView::Nothing)
            },
            Some(crate::proto::ReqCmdView::Bye) => Err(Failure::ByeReceived),
            None => Err(Failure::UnknownCommand),
        }
    }

    /// The handler after a request: a ping tells who is at the other end.
    pub open spec fn after(self, req: crate::proto::RequestView) -> PeerHandlerView {
        if req.cmd == Some(crate::proto::ReqCmdView::Ping) {
            self.named(req.id)
        } else {
            self
        }
    }

    /// The known peers after a request: a ping makes its sender known.
    pub open spec fn peers_after(
        self,
        peers: Map<Seq<char>, PeerStateView>,
        req: crate::proto::RequestView,
        now: u64,
    ) -> Map<Seq<char>, PeerStateView> {
        if req.cmd == Some(crate::proto::ReqCmdView::Ping) {
            self.joined(peers, req.id, now)
        } else {
            peers
        }
    }
}

// ---------------------------------------------------------------------------------------------
// The server
// ---------------------------------------------------------------------------------------------

impl Server {
    /// A server that knows no peer yet.
    pub fn new() -> (r: Server)
        ensures
            r.peers@ == Map::<Seq<char>, PeerStateView>::empty(),
            r.count == 0,
    {
        Server { peers: IdMap::new(), count: 0 }
    }

    /// The number of the next connection.
    pub fn next_id(&mut self) -> (r: u64)
        requires
            old(self).count < u64::MAX,
        ensures
            r == old(self).count + 1,
            final(self).count == r,
            final(self).peers@ == old(self).peers@,
    {
        self.count = self.count + 1;
        self.count
    }

    /// The handler for a new connection from `addr`.
    pub fn accepted(&mut self, addr: Endpoint) -> (r: PeerHandler)
        requires
            old(self).count < u64::MAX,
        ensures
            r@ == (PeerHandlerView {
                peer_id: Seq::empty(),
                id: (old(self).count + 1) as u64,
                addr: addr@,
            }),
            final(self).count == old(self).count + 1,
            final(self).peers@ == old(self).peers@,
    {
        let id: u64 = self.next_id();
        PeerHandler { peer_id: String::new(), id, addr }
    }
}

impl PeerHandler {
    /// Decides what to do for the next request: `None` where there will be no more.
    ///
    /// The connection ends on a failure.
    pub fn handle_cmds(
        &mut self,
        peers: &mut IdMap<PeerState>,
        req: Option<Request>,
        now: u64,
    ) -> (r: Result<Effect, Failure>)
        ensures
            match req {
                Some(req) => {
                    &&& final(self)@ == old(self)@.after(req@)
                    &&& final(peers)@ == old(self)@.peers_after(old(peers)@, req@, now)
                    &&& match r {
                        Ok(effect) => old(self)@.effect(old(peers)@, req@) == Ok::<
                            EffectView,
                            Failure,
                        >(effect@),
                        Err(e) => old(self)@.effect(old(peers)@, req@) == Err::<
                            EffectView,
                            Failure,
                        >(e),
                    }
                },
                None => {
                    &&& final(self)@ == old(self)@
                    &&& final(peers)@ == old(peers)@
                    &&& r matches Err(e) && e == Failure::HandlerClosed
                },
            },
    {
        let req = match req {
            Some(req) => req,
            None => {
                return Err(Failure::HandlerClosed);
            },
        };
        let src_id = req.id;
        match req.cmd {
            Some(ReqCmd::Ping(ping)) => Ok(self.handle_ping(peers, src_id, ping, now)),
            Some(ReqCmd::Isync(isync)) => Ok(self.handle_isync(peers, src_id, isync)),
            Some(ReqCmd::Fsync(fsync)) => Ok(self.handle_fsync(fsync)),
            Some(ReqCmd::Rsync(rsync)) => Ok(self.handle_rsync(peers, src_id, rsync)),
            Some(ReqCmd::Bye(_)) => Err(Failure::ByeReceived),
            None => Err(Failure::UnknownCommand),
        }
    }

    fn response(cmd: RespCmd) -> (r: Effect)
        ensures
            r@ == respond(cmd@),
    {
        let mut resp = Response::new();
        resp.cmd = Some(cmd);
        Effect::Respond(resp)
    }

    /// Notes that the peer `id` is at this connection.
    pub fn insert_peerstate(&mut self, peers: &mut IdMap<PeerState>, id: String, now: u64)
        ensures
            final(self)@ == old(self)@.named(id@),
            final(peers)@ == old(self)@.joined(old(peers)@, id@, now),
    {
        let addr = match peers.get(&id) {
            Some(p) => if p.id == self.id {
                p.addr.duplicate()
            } else {
                self.addr.duplicate()
            },
            None => self.addr.duplicate(),
        };
        peers.insert(id.clone(), PeerState { id: self.id, last_ping: now, addr });
        self.peer_id = id;
    }

    fn handle_ping(
        &mut self,
        peers: &mut IdMap<PeerState>,
        src_id: String,
        _ping: Ping,
        now: u64,
    ) -> (r: Effect)
        ensures
            final(self)@ == old(self)@.named(src_id@),
            final(peers)@ == old(self)@.joined(old(peers)@, src_id@, now),
            r@ == respond(crate::proto::RespCmdView::Pong),
    {
        self.insert_peerstate(peers, src_id, now);
        Self::response(RespCmd::Pong(Pong {  }))
    }

    fn handle_isync(&self, peers: &IdMap<PeerState>, src_id: String, isync: Isync) -> (r: Effect)
        ensures
            r@ == if peers@.contains_key(isync.id@) {
                EffectView::Introduce {
                    to: peers@[isync.id@].id,
                    req: crate::proto::request(
                        Seq::empty(),
                        crate::proto::ReqCmdView::fsync(src_id@, self@.addr.text),
                    ),
                    src_id: src_id@,
                }
            } else {
                respond(
                    crate::proto::RespCmdView::Redirect { id: isync.id@, addr: Seq::empty() },
                )
            },
    {
        match peers.get(&isync.id) {
            Some(peer) => {
                let mut req = Request::new();
                req.cmd = Some(
                    ReqCmd::Fsync(Fsync::new(src_id.clone(), self.addr.text.clone())),
                );
                Effect::Introduce { to: peer.id, req, src_id }
            },
            None => Self::response(
                RespCmd::Redirect(Redirect { id: isync.id, addr: String::new() }),
            ),
        }
    }

    fn handle_fsync(&self, fsync: Fsync) -> (r: Effect)
        ensures
            r@ == respond(
                crate::proto::RespCmdView::Fsync {
                    id: fsync.id@,
                    addr: fsync.addr@,
                    unknown: fsync.unknown@,
                },
            ),
    {
        Self::response(RespCmd::Fsync(fsync))
    }

    fn handle_rsync(&self, peers: &IdMap<PeerState>, src_id: String, rsync: Rsync) -> (r: Effect)
        ensures
            r@ == if rsync.id@ == self@.peer_id {
                if peers@.contains_key(src_id@) {
                    respond(
                        crate::proto::RespCmdView::Redirect {
                            id: src_id@,
                            addr: peers@[src_id@].addr.text,
                        },
                    )
                } else {
                    EffectView::Nothing
                }
            } else if peers@.contains_key(rsync.id@) {
                EffectView::Forward {
                    to: peers@[rsync.id@].id,
                    req: crate::proto::request(
                        src_id@,
                        crate::proto::ReqCmdView::Rsync { id: rsync.id@ },
                    ),
                }
            } else {
                EffectView::Nothing
            },
    {
        if rsync.id == self.peer_id {
            return match peers.get(&src_id) {
                Some(peer) => {
                    let addr = peer.addr.text.clone();
                    Self::response(RespCmd::Redirect(Redirect { id: src_id, addr }))
                },
                None => Effect::Nothing,
            };
        }
        match peers.get(&rsync.id) {
            Some(peer) => {
                let to: u64 = peer.id;
                Effect::Forward {
                    to,
                    req: Request { id: src_id, cmd: Some(ReqCmd::Rsync(rsync)) },
                }
            },
            None => Effect::Nothing,
        }
    }

    /// The connection has ended.
    pub fn disconnected(&self, peers: &mut IdMap<PeerState>)
        ensures
            final(peers)@ == self@.left(old(peers)@),
    {
        let own = match peers.get(&self.peer_id) {
            Some(p) => p.id == self.id,
            None => false,
        };
        if own {
            peers.remove(&self.peer_id);
        }
    }
}

// ---------------------------------------------------------------------------------------------
// The stream
// ---------------------------------------------------------------------------------------------

/// How long the request is that follows this header: one that is too long is not read.
pub fn request_len(header: [u8; 2]) -> (r: Result<usize, Failure>)
    ensures
        r == if crate::frame::number_of(header[0], header[1]) > MAX_REQUEST {
            Err::<usize, Failure>(Failure::InvalidSize)
        } else {
            Ok::<usize, Failure>(crate::frame::number_of(header[0], header[1]) as usize)
        },
{
    let size: usize = payload_len(header);
    if size > MAX_REQUEST {
        return Err(Failure::InvalidSize);
    }
    Ok(size)
}

/// Reads a request.
pub fn read_req(buf: &[u8]) -> (r: Result<Request, Failure>)
    ensures
        match r {
            Ok(req) => crate::proto::parse_request(buf@) == Some(req@),
            Err(e) => e == Failure::InvalidRequest && crate::proto::parse_request(buf@) is None,
        },
{
    match Request::parse_from_bytes(buf) {
        Ok(req) => Ok(req),
        Err(_) => Err(Failure::InvalidRequest),
    }
}

/// What came of reading from a connection.
#[derive(Debug, PartialEq, Eq)]
pub enum ReadEvent {
    /// A request.
    Request(Request),
    /// No request: the connection ended, or what came was none.
    Failed,
    /// Nothing for [`READ_TIMEOUT`].
    Elapsed,
}

/// What to do then.
#[derive(Debug, PartialEq, Eq)]
pub enum ReadStep {
    /// Hand the request to the handler and go on reading.
    Queue(Request),
    /// Hand the request to the handler and stop reading.
    QueueAndStop(Request, Failure),
    /// Stop reading.
    Stop(Failure),
}

#[verifier::ext_equal]
pub enum ReadStepView {
    Queue(crate::proto::RequestView),
    QueueAndStop(crate::proto::RequestView, Failure),
    Stop(Failure),
}

impl View for ReadStep {
    type V = ReadStepView;

    open spec fn view(&self) -> ReadStepView {
        match *self {
            ReadStep::Queue(req) => ReadStepView::Queue(req@),
            ReadStep::QueueAndStop(req, e) => ReadStepView::QueueAndStop(req@, e),
            ReadStep::Stop(e) => ReadStepView::Stop(e),
        }
    }
}

/// What is done with what came of reading.
pub open spec fn read_step(event: ReadEvent) -> ReadStepView {
    match event {
        ReadEvent::Request(req) => ReadStepView::Queue(req@),
        ReadEvent::Failed => ReadStepView::QueueAndStop(
            crate::proto::request(Seq::empty(), crate::proto::ReqCmdView::Bye),
            Failure::ReadFailed,
        ),
        ReadEvent::Elapsed => ReadStepView::Stop(Failure::TimedOut),
    }
}

/// Decides what to do with what came of reading from a connection. Where reading fails, the
/// handler gets a leave that names nobody; where nothing comes, it gets nothing more. Reading never
/// ends but with a failure.
pub fn read_reqs(event: ReadEvent) -> (r: ReadStep)
    ensures
        r@ == read_step(event),
{
    match event {
        ReadEvent::Request(req) => ReadStep::Queue(req),
        ReadEvent::Failed => {
            let mut bye = Request::new();
            bye.cmd = Some(ReqCmd::Bye(Bye {  }));
            ReadStep::QueueAndStop(bye, Failure::ReadFailed)
        },
        ReadEvent::Elapsed => ReadStep::Stop(Failure::TimedOut),
    }
}

/// Whether to go on reading after a request was handed over, or could not be.
pub fn queued(accepted: bool) -> (r: Result<(), Failure>)
    ensures
        r == if accepted {
            Ok::<(), Failure>(())
        } else {
            Err::<(), Failure>(Failure::QueueClosed)
        },
{
    if accepted {
        Ok(())
    } else {
        Err(Failure::QueueClosed)
    }
}

/// These bytes are the response as it is put on the stream, its unknown fields in some order.
pub open spec fn sent(resp: crate::proto::ResponseView, buf: Seq<u8>) -> bool {
    exists|order: Seq<u32>|
        crate::wire::in_order(resp.unknown(), order) && buf == crate::frame::framed(
            #[trigger] resp.bytes_in(order),
        )
}

/// A response as it is put on the stream.
pub fn send_response(resp: Response) -> (r: Vec<u8>)
    ensures
        sent(resp@, r@),
        resp@.plain() ==> r@ == crate::frame::framed(resp@.bytes()),
{
    let buf = resp.write_to_bytes();
    frame(buf.as_slice())
}

// ---------------------------------------------------------------------------------------------
// Laws
// ---------------------------------------------------------------------------------------------

/// What has come of reading from a connection so far.
#[verifier::ext_equal]
pub struct Reading {
    /// What the handler got, in its order.
    pub queue: Seq<crate::proto::RequestView>,
    /// How the reading ended, if it did.
    pub failure: Option<Failure>,
}

impl Reading {
    /// After one more event, as [`read_reqs`] decides, where the handler takes what it gets.
    pub open spec fn after(self, event: ReadEvent) -> Reading {
        if self.failure is Some {
            self
        } else {
            match read_step(event) {
                ReadStepView::Queue(req) => Reading { queue: self.queue.push(req), ..self },
                ReadStepView::QueueAndStop(req, e) => Reading {
                    queue: self.queue.push(req),
                    failure: Some(e),
                },
                ReadStepView::Stop(e) => Reading { failure: Some(e), ..self },
            }
        }
    }

    /// After all of these events.
    pub open spec fn of(events: Seq<ReadEvent>) -> Reading
        decreases events.len(),
    {
        if events.len() == 0 {
            Reading { queue: Seq::empty(), failure: None }
        } else {
            Reading::of(events.drop_last()).after(events.last())
        }
    }
}

proof fn lemma_requests_queued(reqs: Seq<Request>)
    ensures
        Reading::of(reqs.map_values(|req: Request| ReadEvent::Request(req))) == (Reading {
            queue: reqs.map_values(|req: Request| req@),
            failure: None,
        }),
    decreases reqs.len(),
{
    let events = reqs.map_values(|req: Request| ReadEvent::Request(req));
    if reqs.len() > 0 {
        lemma_requests_queued(reqs.drop_last());
        assert(events.drop_last() =~= reqs.drop_last().map_values(
            |req: Request| ReadEvent::Request(req),
        ));
        assert(reqs.map_values(|req: Request| req@) =~= reqs.drop_last().map_values(
            |req: Request| req@,
        ).push(reqs.last()@));
    } else {
        assert(reqs.map_values(|req: Request| req@) =~= Seq::empty());
    }
}

/// The handler gets the requests in the order in which they come. Reading ends with a failure:
/// where no request can be read, after one more leave that names nobody; where nothing comes, at
/// once.
pub proof fn law_reading(reqs: Seq<Request>, end: ReadEvent)
    requires
        end !is Request,
    ensures
        ({
            let events = reqs.map_values(|req: Request| ReadEvent::Request(req)).push(end);
            let queue = reqs.map_values(|req: Request| req@);
            Reading::of(events) == if end is Failed {
                Reading {
                    queue: queue.push(
                        crate::proto::RequestView {
                            id: Seq::empty(),
                            cmd: Some(crate::proto::ReqCmdView::Bye),
                        },
                    ),
                    failure: Some(Failure::ReadFailed),
                }
            } else {
                Reading { queue, failure: Some(Failure::TimedOut) }
            }
        }),
{
    let events = reqs.map_values(|req: Request| ReadEvent::Request(req));
    lemma_requests_queued(reqs);
    assert(events.push(end).drop_last() =~= events);
}

/// Every peer is known with the address of the connection over which it was heard.
pub open spec fn faithful(
    peers: Map<Seq<char>, PeerStateView>,
    addrs: Map<u64, crate::addr::EndpointView>,
) -> bool {
    forall|id: Seq<char>| #[trigger]
        peers.contains_key(id) ==> addrs.contains_key(peers[id].id) && addrs[peers[id].id]
            == peers[id].addr
}

/// Whatever a handler is asked, and when its connection ends: every peer stays known with the
/// address of its connection.
pub proof fn law_faithful(
    h: PeerHandlerView,
    peers: Map<Seq<char>, PeerStateView>,
    addrs: Map<u64, crate::addr::EndpointView>,
    req: crate::proto::RequestView,
    id: Seq<char>,
    now: u64,
)
    requires
        faithful(peers, addrs),
        addrs.contains_key(h.id),
        addrs[h.id] == h.addr,
    ensures
        faithful(h.peers_after(peers, req, now), addrs),
        faithful(h.joined(peers, id, now), addrs),
        faithful(h.left(peers), addrs),
        h.joined(peers, id, now)[id] == (PeerStateView { id: h.id, last_ping: now, addr: h.addr }),
{
}

/// A request changes nothing but what is known of its sender.
pub proof fn law_others_untouched(
    h: PeerHandlerView,
    peers: Map<Seq<char>, PeerStateView>,
    req: crate::proto::RequestView,
    other: Seq<char>,
    now: u64,
)
    requires
        other != req.id,
    ensures
        h.peers_after(peers, req, now).contains_key(other) <==> peers.contains_key(other),
        h.peers_after(peers, req, now)[other] == peers[other],
        h.joined(peers, req.id, now).contains_key(other) <==> peers.contains_key(other),
        h.joined(peers, req.id, now)[other] == peers[other],
{
}

/// When a connection ends that its peer has left for a newer one, the peer stays known with the
/// newer one.
pub proof fn law_takeover(
    old_one: PeerHandlerView,
    new_one: PeerHandlerView,
    peers: Map<Seq<char>, PeerStateView>,
    id: Seq<char>,
    now: u64,
)
    requires
        old_one.id != new_one.id,
        old_one.peer_id == id,
    ensures
        old_one.left(new_one.joined(peers, id, now)) == new_one.joined(peers, id, now),
        new_one.joined(peers, id, now)[id].id == new_one.id,
{
}

/// When a connection ends over which no other identity was used, nothing of it stays known.
pub proof fn law_nothing_left(h: PeerHandlerView, peers: Map<Seq<char>, PeerStateView>)
    requires
        forall|id: Seq<char>| #[trigger]
            peers.contains_key(id) && peers[id].id == h.id ==> id == h.peer_id,
    ensures
        forall|id: Seq<char>| #[trigger] h.left(peers).contains_key(id) ==> h.left(peers)[id].id
            != h.id,
{
}

} // verus!
