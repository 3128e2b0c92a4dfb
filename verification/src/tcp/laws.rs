//! What holds of the TCP server and of the clients, each by itself.
use crate::addr::SocketAddr;
use crate::error::Failure;
use crate::proto::{ReqCmdView, RequestView, RespCmdView, ResponseView};
use crate::tcp::client::TcpClientView;
use crate::tcp::server::{EffectView, PeerHandlerView, PeerStateView};
use crate::tcp::session::{ClientView, Event, ReactionView, Signal, Step};
use vstd::prelude::*;

verus! {

// ---------------------------------------------------------------------------------------------
// The server: what it knows
// ---------------------------------------------------------------------------------------------

/// A request that is no ping leaves the known peers and the handler as they were.
pub proof fn law_only_pings_register(
    h: PeerHandlerView,
    peers: Map<Seq<char>, PeerStateView>,
    req: RequestView,
    now: u64,
)
    requires
        req.cmd != Some(ReqCmdView::Ping),
    ensures
        h.peers_after(peers, req, now) == peers,
        h.after(req) == h,
{
}

/// Who pings is known from then on with the connection and the time of the ping, and with the
/// address of the connection, unless it was known with one over that connection already. The
/// handler knows whom it serves. Nothing else changes.
pub proof fn law_ping_registers(
    h: PeerHandlerView,
    peers: Map<Seq<char>, PeerStateView>,
    id: Seq<char>,
    now: u64,
    other: Seq<char>,
)
    ensures
        ({
            let ping = RequestView { id, cmd: Some(ReqCmdView::Ping) };
            let after = h.peers_after(peers, ping, now);
            &&& after.contains_key(id)
            &&& after[id].id == h.id
            &&& after[id].last_ping == now
            &&& !peers.contains_key(id) || peers[id].id != h.id || peers[id].addr == h.addr
                ==> after[id].addr == h.addr
            &&& peers.contains_key(id) && peers[id].id == h.id ==> after[id].addr == peers[id].addr
            &&& other != id ==> (after.contains_key(other) <==> peers.contains_key(other))
                && after[other] == peers[other]
            &&& h.after(ping).peer_id == id
            &&& h.after(ping).id == h.id
            &&& h.after(ping).addr == h.addr
        }),
{
}

/// The same holds of who asked for a connection, once its request was handed over.
pub proof fn law_asking_registers(
    h: PeerHandlerView,
    peers: Map<Seq<char>, PeerStateView>,
    id: Seq<char>,
    now: u64,
    other: Seq<char>,
)
    ensures
        h.joined(peers, id, now).contains_key(id),
        h.joined(peers, id, now)[id].id == h.id,
        h.joined(peers, id, now)[id].last_ping == now,
        !peers.contains_key(id) || peers[id].id != h.id || peers[id].addr == h.addr ==> h.joined(
            peers,
            id,
            now,
        )[id].addr == h.addr,
        peers.contains_key(id) && peers[id].id == h.id ==> h.joined(peers, id, now)[id].addr
            == peers[id].addr,
        other != id ==> (h.joined(peers, id, now).contains_key(other) <==> peers.contains_key(
            other,
        )),
        other != id ==> h.joined(peers, id, now)[other] == peers[other],
        h.named(id).peer_id == id,
        h.named(id).id == h.id,
        h.named(id).addr == h.addr,
{
}

/// A peer that is known stays known, whoever asks for whatever, until its own connection ends.
pub proof fn law_stays_known(
    h: PeerHandlerView,
    peers: Map<Seq<char>, PeerStateView>,
    req: RequestView,
    joining: Seq<char>,
    now: u64,
    id: Seq<char>,
)
    requires
        peers.contains_key(id),
    ensures
        h.peers_after(peers, req, now).contains_key(id),
        h.joined(peers, joining, now).contains_key(id),
        peers[id].id != h.id || h.peer_id != id ==> h.left(peers).contains_key(id),
{
}

/// The end of a connection makes the server forget the peer that was at it, unless that one has
/// another connection by now, and nothing else.
pub proof fn law_end_forgets(
    h: PeerHandlerView,
    peers: Map<Seq<char>, PeerStateView>,
    other: Seq<char>,
)
    ensures
        peers.contains_key(h.peer_id) && peers[h.peer_id].id == h.id ==> !h.left(
            peers,
        ).contains_key(h.peer_id),
        peers.contains_key(h.peer_id) && peers[h.peer_id].id != h.id ==> h.left(
            peers,
        ).contains_key(h.peer_id) && h.left(peers)[h.peer_id] == peers[h.peer_id],
        other != h.peer_id ==> (h.left(peers).contains_key(other) <==> peers.contains_key(other)),
        other != h.peer_id ==> h.left(peers)[other] == peers[other],
        !peers.contains_key(h.peer_id) ==> h.left(peers) == peers,
{
}

/// Who pings and then loses the connection is not known any more.
pub proof fn law_ping_then_end(
    h: PeerHandlerView,
    peers: Map<Seq<char>, PeerStateView>,
    id: Seq<char>,
    now: u64,
)
    ensures
        ({
            let ping = RequestView { id, cmd: Some(ReqCmdView::Ping) };
            !h.after(ping).left(h.peers_after(peers, ping, now)).contains_key(id)
        }),
{
}

// ---------------------------------------------------------------------------------------------
// The server: whom it tells what
// ---------------------------------------------------------------------------------------------

/// A ping is answered with a pong.
pub proof fn law_pong(h: PeerHandlerView, peers: Map<Seq<char>, PeerStateView>, id: Seq<char>)
    ensures
        h.effect(peers, RequestView { id, cmd: Some(ReqCmdView::Ping) }) == Ok::<
            EffectView,
            Failure,
        >(
            EffectView::Respond(
                ResponseView { id: Seq::empty(), cmd: Some(RespCmdView::Pong) },
            ),
        ),
{
}

/// Who asks for a peer that is known has that peer's handler told of the asker and of the asker's
/// address.
pub proof fn law_forwarded(
    h: PeerHandlerView,
    peers: Map<Seq<char>, PeerStateView>,
    id: Seq<char>,
    target: Seq<char>,
)
    requires
        peers.contains_key(target),
    ensures
        h.effect(peers, RequestView { id, cmd: Some(ReqCmdView::Isync { id: target }) }) == Ok::<
            EffectView,
            Failure,
        >(
            EffectView::Introduce {
                to: peers[target].id,
                req: RequestView {
                    id: Seq::empty(),
                    cmd: Some(
                        ReqCmdView::Fsync { id, addr: h.addr.text, unknown: Map::empty() },
                    ),
                },
                src_id: id,
            },
        ),
{
}

/// Who asks for a peer that is not known is told no address.
pub proof fn law_not_found(
    h: PeerHandlerView,
    peers: Map<Seq<char>, PeerStateView>,
    id: Seq<char>,
    target: Seq<char>,
)
    requires
        !peers.contains_key(target),
    ensures
        h.effect(peers, RequestView { id, cmd: Some(ReqCmdView::Isync { id: target }) }) == Ok::<
            EffectView,
            Failure,
        >(
            EffectView::Respond(
                ResponseView {
                    id: Seq::empty(),
                    cmd: Some(RespCmdView::Redirect { id: target, addr: Seq::empty() }),
                },
            ),
        ),
{
}

/// What a handler is told of an asker it passes on over its connection, as it is.
pub proof fn law_passed_on(
    h: PeerHandlerView,
    peers: Map<Seq<char>, PeerStateView>,
    from: Seq<char>,
    id: Seq<char>,
    addr: Seq<char>,
    unknown: Map<u32, Seq<crate::wire::UnknownValue>>,
)
    ensures
        h.effect(
            peers,
            RequestView { id: from, cmd: Some(ReqCmdView::Fsync { id, addr, unknown }) },
        ) == Ok::<EffectView, Failure>(
            EffectView::Respond(
                ResponseView {
                    id: Seq::empty(),
                    cmd: Some(RespCmdView::Fsync { id, addr, unknown }),
                },
            ),
        ),
{
}

/// A peer that expects another one has this handed to that one's handler, which tells that one
/// where the peer is. Where the one or the other is not known, nothing happens.
pub proof fn law_expected(
    h: PeerHandlerView,
    peers: Map<Seq<char>, PeerStateView>,
    id: Seq<char>,
    target: Seq<char>,
)
    ensures
        ({
            let req = RequestView { id, cmd: Some(ReqCmdView::Rsync { id: target }) };
            let effect = h.effect(peers, req);
            &&& target != h.peer_id && peers.contains_key(target) ==> effect == Ok::<
                EffectView,
                Failure,
            >(EffectView::Forward { to: peers[target].id, req })
            &&& target != h.peer_id && !peers.contains_key(target) ==> effect == Ok::<
                EffectView,
                Failure,
            >(EffectView::Nothing)
            &&& target == h.peer_id && peers.contains_key(id) ==> effect == Ok::<
                EffectView,
                Failure,
            >(
                EffectView::Respond(
                    ResponseView {
                        id: Seq::empty(),
                        cmd: Some(RespCmdView::Redirect { id, addr: peers[id].addr.text }),
                    },
                ),
            )
            &&& target == h.peer_id && !peers.contains_key(id) ==> effect == Ok::<
                EffectView,
                Failure,
            >(EffectView::Nothing)
        }),
{
}

/// A connection ends on a leave and on a request without a command, and on no other request.
pub proof fn law_connection_ends(
    h: PeerHandlerView,
    peers: Map<Seq<char>, PeerStateView>,
    req: RequestView,
)
    ensures
        h.effect(peers, req) is Err <==> req.cmd is None || req.cmd == Some(ReqCmdView::Bye),
        req.cmd == Some(ReqCmdView::Bye) ==> h.effect(peers, req) == Err::<EffectView, Failure>(
            Failure::ByeReceived,
        ),
        req.cmd is None ==> h.effect(peers, req) == Err::<EffectView, Failure>(
            Failure::UnknownCommand,
        ),
{
}

/// A peer that is known can be asked for again and again: whatever was asked before, the next one
/// who asks for it has the handler told that the peer was last heard at.
pub proof fn law_reached_again(
    h: PeerHandlerView,
    peers: Map<Seq<char>, PeerStateView>,
    req: RequestView,
    now: u64,
    l: Seq<char>,
    hd: PeerHandlerView,
    d: Seq<char>,
)
    requires
        peers.contains_key(l),
    ensures
        ({
            let after = h.peers_after(peers, req, now);
            let asked = RequestView { id: d, cmd: Some(ReqCmdView::Isync { id: l }) };
            &&& hd.effect(after, asked) matches Ok(EffectView::Introduce { to, req: fsync, src_id })
            &&& to == peers[l].id || (req.id == l && to == h.id)
            &&& fsync.cmd == Some(
                ReqCmdView::Fsync { id: d, addr: hd.addr.text, unknown: Map::empty() },
            )
            &&& src_id == d
        }),
{
}

// ---------------------------------------------------------------------------------------------
// Clients
// ---------------------------------------------------------------------------------------------

/// A client is as it was told to be, and does not listen yet.
pub proof fn law_client_begins(
    server_addr: Seq<char>,
    id: Seq<char>,
    local_addr: Option<SocketAddr>,
)
    ensures
        ({
            let c = ClientView::start(server_addr, id, local_addr);
            &&& c.server_addr == server_addr
            &&& c.id == id
            &&& c.local_addr == local_addr
            &&& c.listening is None
        }),
{
}

/// A client accepts connections once it listens, until it is shut down, and not before.
pub proof fn law_accepts_while_listening(c: ClientView, bound: SocketAddr)
    ensures
        c.listening_at(bound).accepting(false) == Ok::<(), Failure>(()),
        c.listening_at(bound).accepting(true) == Err::<(), Failure>(Failure::Exit),
        c.listening is None ==> c.accepting(false) == Err::<(), Failure>(Failure::NotListening),
        c.listening is None ==> c.accepting(true) == Err::<(), Failure>(Failure::NotListening),
        c.listening is Some ==> c.accepting(false) == Ok::<(), Failure>(()),
        c.listening is Some ==> c.accepting(true) == Err::<(), Failure>(Failure::Exit),
        c.listening_at(bound).listening == Some(bound),
        c.listening_at(bound).server_addr == c.server_addr,
        c.listening_at(bound).id == c.id,
        c.listening_at(bound).local_addr == c.local_addr,
{
}

/// Once a client is shut down it accepts nothing, and its connection with the server is no longer
/// watched over. To listen leaves the watching as it is.
pub proof fn law_shutdown(c: TcpClientView, event: Event, bound: SocketAddr)
    ensures
        c.shut().client.accepting(false) == Err::<(), Failure>(Failure::NotListening),
        crate::tcp::session::supervised(c.shut().signal, event) == (c.shut().signal, Step::Stop),
        c.shut().signal.broken == c.signal.broken,
        c.shut().client.server_addr == c.client.server_addr,
        c.shut().client.id == c.client.id,
        c.shut().client.local_addr == c.client.local_addr,
        c.listening_at(bound).client == c.client.listening_at(bound),
        c.listening_at(bound).signal == c.signal,
{
}

/// A client binds to the address that was asked for. Where none was, it binds to any address and
/// port of the server's family; where the server has no address either, it fails.
pub proof fn law_bind_addr(c: ClientView, resolved: Option<SocketAddr>)
    ensures
        c.local_addr matches Some(addr) ==> c.bind_addr(resolved) == Ok::<SocketAddr, Failure>(
            addr,
        ),
        c.local_addr is None && resolved is None ==> c.bind_addr(resolved) == Err::<
            SocketAddr,
            Failure,
        >(Failure::ResolveFailed),
        c.local_addr is None && resolved is Some ==> {
            &&& c.bind_addr(resolved) matches Ok(any)
            &&& any is V4 <==> resolved.unwrap() is V4
            &&& any is V4 ==> any->V4_0.ip == 0 && any->V4_0.port == 0
            &&& any is V6 ==> any->V6_0.ip == 0 && any->V6_0.port == 0 && any->V6_0.flowinfo == 0
                && any->V6_0.scope_id == 0
        },
{
}

/// The address that a redirect tells is where the client turns to. What is no message and what is
/// no redirect are failures.
pub proof fn law_redirect_followed(buf: Seq<u8>)
    ensures
        match crate::proto::parse_response(buf) {
            Some(ResponseView { id, cmd: Some(RespCmdView::Redirect { id: about, addr }) }) =>
                crate::tcp::session::redirect_of(buf) == Ok::<Seq<char>, Failure>(addr),
            Some(_) => crate::tcp::session::redirect_of(buf) == Err::<Seq<char>, Failure>(
                Failure::InvalidResponse,
            ),
            None => crate::tcp::session::redirect_of(buf) == Err::<Seq<char>, Failure>(
                Failure::InvalidMessage,
            ),
        },
{
}

/// A listening client that is told of a peer opens the way to the address that it is told, and
/// says to the server that it expects that peer. Other messages ask nothing of it, and what is no
/// message is a failure.
pub proof fn law_way_opened(buf: Seq<u8>)
    ensures
        match crate::proto::parse_response(buf) {
            Some(ResponseView { id, cmd: Some(RespCmdView::Fsync { id: peer, addr, unknown }) }) =>
                crate::tcp::session::reaction_to(buf) == Ok::<ReactionView, Failure>(
                ReactionView::Punch { addr, rsync: ReqCmdView::Rsync { id: peer } },
            ),
            Some(_) => crate::tcp::session::reaction_to(buf) == Ok::<ReactionView, Failure>(
                ReactionView::Nothing,
            ),
            None => crate::tcp::session::reaction_to(buf) == Err::<ReactionView, Failure>(
                Failure::InvalidMessage,
            ),
        },
{
}

/// The client that tells the server nothing opens the way to the same addresses, and fails on the
/// same bytes.
pub proof fn law_same_way_opened(buf: Seq<u8>)
    ensures
        match crate::tcp::session::reaction_to(buf) {
            Ok(ReactionView::Punch { addr, rsync }) => crate::async_tcp::opened_by(buf) == Ok::<
                Option<Seq<char>>,
                Failure,
            >(Some(addr)),
            Ok(ReactionView::Nothing) => crate::async_tcp::opened_by(buf) == Ok::<
                Option<Seq<char>>,
                Failure,
            >(None),
            Err(e) => crate::async_tcp::opened_by(buf) == Err::<Option<Seq<char>>, Failure>(e),
        },
{
}

/// Requests follow each other on a stream: the first one is got back, whatever follows it.
pub proof fn law_request_got_back(id: Seq<char>, cmd: ReqCmdView, rest: Seq<u8>)
    requires
        (RequestView { id, cmd: Some(cmd) }).plain(),
        (RequestView { id, cmd: Some(cmd) }).fits(),
        (RequestView { id, cmd: Some(cmd) }).bytes().len() <= 0xffff,
    ensures
        crate::frame::unframed(crate::tcp::session::request_frame(id, cmd) + rest) matches Some(
            payload,
        ) && crate::proto::parse_request(payload) == Some(RequestView { id, cmd: Some(cmd) }),
{
    let req = RequestView { id, cmd: Some(cmd) };
    crate::frame::law_frame_round_trip(req.bytes(), rest);
    crate::proto::law_plain_request_round_trip(req);
}

/// The same with unknown fields, in whatever order these were put on the stream.
pub proof fn law_written_got_back(
    id: Seq<char>,
    cmd: ReqCmdView,
    resp: ResponseView,
    buf: Seq<u8>,
    rest: Seq<u8>,
)
    requires
        buf.len() <= 0xffff,
    ensures
        (RequestView { id, cmd: Some(cmd) }).valid() && crate::tcp::session::request_written(
            id,
            cmd,
            buf,
        ) ==> {
            &&& crate::frame::unframed(buf + rest) matches Some(payload)
            &&& crate::proto::parse_request(payload) == Some(RequestView { id, cmd: Some(cmd) })
        },
        resp.valid() && crate::tcp::server::sent(resp, buf) ==> {
            &&& crate::frame::unframed(buf + rest) matches Some(payload)
            &&& crate::proto::parse_response(payload) == Some(resp)
        },
{
    let req = RequestView { id, cmd: Some(cmd) };
    if req.valid() && crate::tcp::session::request_written(id, cmd, buf) {
        let order = choose|order: Seq<u32>|
            crate::wire::in_order(req.unknown(), order) && buf == crate::frame::framed(
                #[trigger] crate::proto::request(id, cmd).bytes_in(order),
            );
        let payload = req.bytes_in(order);
        assert(req.written(payload));
        crate::frame::law_header(payload);
        crate::frame::law_frame_round_trip(payload, rest);
        crate::proto::law_written_request_read(req, payload);
    }
    if resp.valid() && crate::tcp::server::sent(resp, buf) {
        let order = choose|order: Seq<u32>|
            crate::wire::in_order(resp.unknown(), order) && buf == crate::frame::framed(
                #[trigger] resp.bytes_in(order),
            );
        let payload = resp.bytes_in(order);
        assert(resp.written(payload));
        crate::frame::law_header(payload);
        crate::frame::law_frame_round_trip(payload, rest);
        crate::proto::law_written_response_read(resp, payload);
    }
}

/// Whoever watches over a connection that is not broken waits; over one that is, connects, and
/// counts it as broken no longer. After a failed attempt comes a rest, and after the rest another
/// attempt. A shutdown ends all of it.
pub proof fn law_watched(signal: Signal, event: Event)
    ensures
        ({
            let (after, step) = crate::tcp::session::supervised(signal, event);
            &&& step == Step::Stop <==> signal.exit
            &&& step == Step::Wait <==> !signal.exit && !signal.broken && (event == Event::Woken
                || event == Event::Connected)
            &&& step == Step::Rest <==> !signal.exit && event == Event::ConnectFailed
            &&& step == Step::Connect <==> !signal.exit && (event == Event::Rested || (
            signal.broken && event != Event::ConnectFailed))
            &&& after.exit == signal.exit
            &&& after.broken == (signal.broken && (signal.exit || event == Event::ConnectFailed
                || event == Event::Rested))
        }),
{
}

} // verus!
