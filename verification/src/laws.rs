//! What holds of clients and servers together.
//!
//! Each law follows the messages of one conversation, byte for byte, through both ends.
use crate::error::Failure;
use vstd::prelude::*;

verus! {

// ---------------------------------------------------------------------------------------------
// UDP
// ---------------------------------------------------------------------------------------------

/// The messages by which `c`, seen at `ce`, gets to know of `l`, seen at `le`, fit the wire.
pub open spec fn udp_messages_fit(
    l: Seq<char>,
    le: crate::addr::EndpointView,
    c: Seq<char>,
    ce: crate::addr::EndpointView,
) -> bool {
    &&& crate::proto::request(c, crate::proto::ReqCmdView::Isync { id: l }).fits()
    &&& crate::proto::response(l, crate::proto::RespCmdView::fsync(c, ce.text)).fits()
    &&& crate::proto::request(l, crate::proto::ReqCmdView::Rsync { id: c }).fits()
    &&& crate::proto::response(
        c,
        crate::proto::RespCmdView::Redirect { id: l, addr: le.text },
    ).fits()
}

/// The ping of a listener makes it known to the server, with the address that it is seen at.
pub proof fn law_udp_listener_known(
    s: crate::udp::server::ServerView,
    l: Seq<char>,
    n: nat,
    le: crate::addr::EndpointView,
    now: u64,
)
    requires
        crate::proto::request(l, crate::proto::ReqCmdView::Ping).fits(),
    ensures
        ({
            let ping = crate::udp::client::KeepaliveView::start(l, n).ping;
            let after = s.on_datagram(ping, le, now).0;
            after.clients.contains_key(l) && after.clients[l].addr == le
        }),
{
    crate::proto::law_plain_request_round_trip(
        crate::proto::request(l, crate::proto::ReqCmdView::Ping),
    );
}

/// The server answers a listener's ping, and the listener takes the answer as one.
pub proof fn law_udp_pong(
    s: crate::udp::server::ServerView,
    k: crate::udp::client::KeepaliveView,
    le: crate::addr::EndpointView,
    now: u64,
)
    requires
        k.ping == crate::proto::request(k.id, crate::proto::ReqCmdView::Ping).bytes(),
        crate::proto::request(k.id, crate::proto::ReqCmdView::Ping).fits(),
        crate::proto::response(k.id, crate::proto::RespCmdView::Pong).fits(),
    ensures
        ({
            let r = s.on_datagram(k.ping, le, now).1;
            &&& r is Some
            &&& r.unwrap().to == le.addr
            &&& k.reaction(r.unwrap().resp.bytes()) == crate::udp::client::ReactionView::Pong
        }),
{
    crate::proto::law_plain_request_round_trip(
        crate::proto::request(k.id, crate::proto::ReqCmdView::Ping),
    );
    crate::proto::law_plain_response_round_trip(
        crate::proto::response(k.id, crate::proto::RespCmdView::Pong),
    );
}

/// A connector that asks for a listener which the server knows gets to know where the server sees
/// it, and the listener where the server sees the connector:
///
/// - the request of the connector is forwarded to the listener, which is told the connector's
///   address, and the connector is known from then on;
/// - what the listener then sends back to the server reaches the connector, at whatever state the
///   server is in by then, as long as it still knows the connector;
/// - and there the connector finds the listener's address.
pub proof fn law_udp_rendezvous<E>(
    s: crate::udp::server::ServerView,
    later: crate::udp::server::ServerView,
    k: crate::udp::client::KeepaliveView,
    le: crate::addr::EndpointView,
    v: crate::udp::client::ConnectingView<E>,
    ce: crate::addr::EndpointView,
    i: int,
    t1: u64,
    t2: u64,
)
    requires
        v.request == crate::proto::request(
            v.id,
            crate::proto::ReqCmdView::Isync { id: k.id },
        ).bytes(),
        s.clients.contains_key(k.id),
        s.clients[k.id].addr == le,
        le.text.len() > 0,
        udp_messages_fit(k.id, le, v.id, ce),
        later.clients.contains_key(v.id),
        later.clients[v.id].addr == ce,
    ensures
        ({
            let (after, forwarded) = s.on_datagram(v.request, ce, t1);
            &&& after.clients.contains_key(v.id)
            &&& after.clients[v.id].addr == ce
            &&& forwarded is Some
            &&& forwarded.unwrap().to == le.addr
            &&& k.reaction(forwarded.unwrap().resp.bytes()) matches
                crate::udp::client::ReactionView::Fsync { rsync, peer }
            &&& peer == ce.text
            &&& {
                let told = later.on_datagram(rsync, le, t2).1;
                &&& told is Some
                &&& told.unwrap().to == ce.addr
                &&& v.received(i, told.unwrap().resp.bytes()) == (v, Some(le.text))
            }
        }),
{
    let l = k.id;
    let c = v.id;
    crate::proto::law_plain_request_round_trip(
        crate::proto::request(c, crate::proto::ReqCmdView::Isync { id: l }),
    );
    crate::proto::law_plain_response_round_trip(
        crate::proto::response(l, crate::proto::RespCmdView::fsync(c, ce.text)),
    );
    crate::proto::law_plain_request_round_trip(
        crate::proto::request(l, crate::proto::ReqCmdView::Rsync { id: c }),
    );
    crate::proto::law_plain_response_round_trip(
        crate::proto::response(c, crate::proto::RespCmdView::Redirect { id: l, addr: le.text }),
    );
}

/// A connector that asks server `i` for a peer which that server does not know is told so: it
/// counts the server as failed, and that the target was not found.
pub proof fn law_udp_refused<E>(
    s: crate::udp::server::ServerView,
    target: Seq<char>,
    v: crate::udp::client::ConnectingView<E>,
    ce: crate::addr::EndpointView,
    i: int,
    now: u64,
)
    requires
        v.request == crate::proto::request(
            v.id,
            crate::proto::ReqCmdView::Isync { id: target },
        ).bytes(),
        !s.clients.contains_key(target),
        crate::proto::request(v.id, crate::proto::ReqCmdView::Isync { id: target }).fits(),
        crate::proto::response(
            v.id,
            crate::proto::RespCmdView::Redirect { id: target, addr: Seq::empty() },
        ).fits(),
    ensures
        ({
            let (after, told) = s.on_datagram(v.request, ce, now);
            &&& after == s
            &&& told is Some
            &&& told.unwrap().to == ce.addr
            &&& v.received(i, told.unwrap().resp.bytes()) == (
                crate::udp::client::ConnectingView::<E> {
                    failed: v.failed.update(i, true),
                    last_error: Some(
                        crate::udp::client::SyncError::Protocol(Failure::TargetNotFound),
                    ),
                    ..v
                },
                None::<Seq<char>>,
            )
        }),
{
    crate::proto::law_plain_request_round_trip(
        crate::proto::request(v.id, crate::proto::ReqCmdView::Isync { id: target }),
    );
    crate::proto::law_plain_response_round_trip(
        crate::proto::response(
            v.id,
            crate::proto::RespCmdView::Redirect { id: target, addr: Seq::empty() },
        ),
    );
}

/// A listener stays known: until its next ping is due, whatever the variation, the server does not
/// take it for gone.
pub proof fn law_udp_keepalive_outlasts_expiry(
    c: crate::udp::server::ClientView,
    millis: u64,
    now: u64,
)
    requires
        millis < crate::udp::client::VARIATION_MILLIS,
        !crate::udp::client::ping_due(
            Some((c.last_ping + millis * crate::time::MILLISECOND) as u128),
            now,
        ),
    ensures
        crate::udp::server::alive(c, now),
{
}

// ---------------------------------------------------------------------------------------------
// TCP
// ---------------------------------------------------------------------------------------------

/// A request of at most 1500 bytes that a client puts on the stream is read by the server as it
/// was, whatever follows it, and in whatever order its unknown fields come.
pub proof fn law_tcp_request_read(
    req: crate::proto::RequestView,
    order: Seq<u32>,
    rest: Seq<u8>,
)
    requires
        req.valid(),
        crate::wire::in_order(req.unknown(), order),
        req.bytes_in(order).len() <= crate::tcp::server::MAX_REQUEST,
    ensures
        ({
            let s = crate::frame::framed(req.bytes_in(order)) + rest;
            &&& s.len() >= 2
            &&& crate::frame::number_of(s[0], s[1]) <= crate::tcp::server::MAX_REQUEST
            &&& crate::frame::unframed(s) is Some
            &&& crate::proto::parse_request(crate::frame::unframed(s).unwrap()) == Some(req)
        }),
{
    crate::frame::law_frame_round_trip(req.bytes_in(order), rest);
    crate::envelope::lemma_short_fits(req.envelope(), order);
    crate::proto::law_request_round_trip(req, order);
}

/// A response of at most 65535 bytes that the server puts on the stream is read by the client as it
/// was, whatever follows it, and in whatever order its unknown fields come.
pub proof fn law_tcp_response_read(
    resp: crate::proto::ResponseView,
    order: Seq<u32>,
    rest: Seq<u8>,
)
    requires
        resp.valid(),
        crate::wire::in_order(resp.unknown(), order),
        resp.bytes_in(order).len() < 0x1_0000,
    ensures
        crate::frame::unframed(crate::frame::framed(resp.bytes_in(order)) + rest) == Some(
            resp.bytes_in(order),
        ),
        crate::proto::parse_response(resp.bytes_in(order)) == Some(resp),
{
    crate::frame::law_frame_round_trip(resp.bytes_in(order), rest);
    crate::envelope::lemma_short_fits(resp.envelope(), order);
    crate::proto::law_response_round_trip(resp, order);
}

/// A forwarded connection request is passed on with the fields of it that are not known: whatever
/// the handler puts on the stream for it, if it is not too long, is read with those fields.
pub proof fn law_tcp_unknown_passed_on(
    h: crate::tcp::server::PeerHandlerView,
    peers: Map<Seq<char>, crate::tcp::server::PeerStateView>,
    from: Seq<char>,
    id: Seq<char>,
    addr: Seq<char>,
    unknown: Map<u32, Seq<crate::wire::UnknownValue>>,
    buf: Seq<u8>,
)
    requires
        crate::unknown::valid(unknown),
        crate::unknown::foreign(unknown),
        ({
            let asked = crate::proto::request(
                from,
                crate::proto::ReqCmdView::Fsync { id, addr, unknown },
            );
            &&& h.effect(peers, asked) matches Ok(
                crate::tcp::server::EffectView::Respond(resp),
            )
            &&& crate::tcp::server::sent(resp, buf)
        }),
        buf.len() <= 0xffff,
    ensures
        crate::frame::unframed(buf) matches Some(payload) && crate::proto::parse_response(payload)
            == Some(
            crate::proto::response(
                Seq::empty(),
                crate::proto::RespCmdView::Fsync { id, addr, unknown },
            ),
        ),
{
    let resp = crate::proto::response(
        Seq::empty(),
        crate::proto::RespCmdView::Fsync { id, addr, unknown },
    );
    assert(crate::tcp::server::sent(resp, buf));
    let order = choose|order: Seq<u32>|
        crate::wire::in_order(resp.unknown(), order) && buf == crate::frame::framed(
            #[trigger] resp.bytes_in(order),
        );
    law_tcp_response_read(resp, order, Seq::empty());
    assert(buf + Seq::<u8>::empty() =~= buf);
}

/// A listening client stays known: it pings its server when it has nothing else to send, and that
/// is before the server gives up a connection that stays silent. `silent` is for how long nothing
/// was sent when the ping goes out, `late` how much later than before it arrives: there is room for
/// some.
pub proof fn law_tcp_keepalive_outlasts_silence(silent: u64, late: u64)
    requires
        silent <= crate::tcp::session::PING_INTERVAL,
        late < crate::tcp::server::READ_TIMEOUT - crate::tcp::session::PING_INTERVAL,
    ensures
        crate::tcp::session::PING_INTERVAL < crate::tcp::server::READ_TIMEOUT,
        silent + late < crate::tcp::server::READ_TIMEOUT,
{
}

/// A client `c` that asks for a listening one which the server knows gets to know where the server
/// sees it, and the listening one where the server sees the client. `hl` and `hc` serve their
/// connections; what is known of the peers may change meanwhile, but the two stay known:
///
/// - the request is handed to the listening one's handler, and the client is known from then on;
/// - that handler passes the request on;
/// - the listening one opens the way to the address that it is told, and says so;
/// - that is handed to the client's handler, which tells the client the listening one's address.
pub proof fn law_tcp_rendezvous(
    peers: Map<Seq<char>, crate::tcp::server::PeerStateView>,
    forwarding: Map<Seq<char>, crate::tcp::server::PeerStateView>,
    expecting: Map<Seq<char>, crate::tcp::server::PeerStateView>,
    telling: Map<Seq<char>, crate::tcp::server::PeerStateView>,
    hl: crate::tcp::server::PeerHandlerView,
    hc: crate::tcp::server::PeerHandlerView,
    c: Seq<char>,
    now: u64,
)
    requires
        peers.contains_key(hl.peer_id),
        peers[hl.peer_id].id == hl.id,
        expecting.contains_key(c),
        expecting[c].id == hc.id,
        telling.contains_key(hl.peer_id),
        telling[hl.peer_id].addr == hl.addr,
        c != hl.peer_id,
        crate::proto::response(
            Seq::empty(),
            crate::proto::RespCmdView::fsync(c, hc.addr.text),
        ).fits(),
        crate::proto::response(
            Seq::empty(),
            crate::proto::RespCmdView::Redirect { id: hl.peer_id, addr: hl.addr.text },
        ).fits(),
    ensures
        ({
            let l = hl.peer_id;
            let asked = hc.effect(
                peers,
                crate::proto::request(c, crate::proto::ReqCmdView::Isync { id: l }),
            );
            &&& asked matches Ok(crate::tcp::server::EffectView::Introduce { to, req, src_id })
            &&& to == hl.id
            &&& src_id == c
            &&& hc.joined(peers, c, now).contains_key(c)
            &&& hc.joined(peers, c, now)[c].id == hc.id
            &&& hl.effect(forwarding, req) matches Ok(
                crate::tcp::server::EffectView::Respond(fsync),
            )
            &&& crate::tcp::session::reaction_to(fsync.bytes()) matches Ok(
                crate::tcp::session::ReactionView::Punch { addr, rsync },
            )
            &&& addr == hc.addr.text
            &&& hl.effect(expecting, crate::proto::request(l, rsync)) matches Ok(
                crate::tcp::server::EffectView::Forward { to: back, req: handed },
            )
            &&& back == hc.id
            &&& hc.named(c).effect(telling, handed) matches Ok(
                crate::tcp::server::EffectView::Respond(redirect),
            )
            &&& crate::tcp::session::redirect_of(redirect.bytes()) == Ok::<Seq<char>, Failure>(
                hl.addr.text,
            )
        }),
{
    crate::proto::law_plain_response_round_trip(
        crate::proto::response(
            Seq::empty(),
            crate::proto::RespCmdView::fsync(c, hc.addr.text),
        ),
    );
    crate::proto::law_plain_response_round_trip(
        crate::proto::response(
            Seq::empty(),
            crate::proto::RespCmdView::Redirect { id: hl.peer_id, addr: hl.addr.text },
        ),
    );
}

/// A client that asks for one which the server does not know is redirected to no address at all.
pub proof fn law_tcp_refused(
    peers: Map<Seq<char>, crate::tcp::server::PeerStateView>,
    h: crate::tcp::server::PeerHandlerView,
    c: Seq<char>,
    target: Seq<char>,
)
    requires
        !peers.contains_key(target),
        crate::proto::response(
            Seq::empty(),
            crate::proto::RespCmdView::Redirect { id: target, addr: Seq::empty() },
        ).fits(),
    ensures
        h.effect(
            peers,
            crate::proto::request(c, crate::proto::ReqCmdView::Isync { id: target }),
        ) matches Ok(crate::tcp::server::EffectView::Respond(redirect))
            && crate::tcp::session::redirect_of(redirect.bytes()) == Ok::<Seq<char>, Failure>(
            Seq::empty(),
        ),
{
    crate::proto::law_plain_response_round_trip(
        crate::proto::response(
            Seq::empty(),
            crate::proto::RespCmdView::Redirect { id: target, addr: Seq::empty() },
        ),
    );
}

// ---------------------------------------------------------------------------------------------
// One socket for server and peers
// ---------------------------------------------------------------------------------------------

/// A client that asks for one which the server knows is told where that one is, and asks it there.
/// The one that is asked, and sees the client at another address than the server's, answers, and
/// the answer makes the connection.
#[verifier::spinoff_prover]
#[verifier::rlimit(30)]
pub proof fn law_greeting(
    clients: Map<Seq<char>, crate::udp::server::ClientView>,
    k: crate::client::ListeningView,
    le: crate::addr::EndpointView,
    v: crate::client::ConnectingView,
    ce: crate::addr::EndpointView,
    server: crate::addr::EndpointView,
    asked_from: crate::addr::EndpointView,
    tries: nat,
)
    requires
        v.target_id == k.id,
        v.request == crate::proto::request(
            v.id,
            crate::proto::ReqCmdView::Isync { id: k.id },
        ).bytes(),
        v.stage == (crate::client::StageView::Server { tries }),
        server.addr == v.server_addr,
        clients.contains_key(k.id),
        clients[k.id].addr == le,
        le.text.len() > 0,
        asked_from.addr != k.server_addr,
        crate::proto::request(v.id, crate::proto::ReqCmdView::Isync { id: k.id }).fits(),
        crate::proto::response(
            v.id,
            crate::proto::RespCmdView::Redirect { id: k.id, addr: le.text },
        ).fits(),
        crate::proto::response(v.id, crate::proto::RespCmdView::Rsync { id: k.id }).fits(),
    ensures
        ({
            let told = crate::server::replies(
                clients,
                crate::proto::request(v.id, crate::proto::ReqCmdView::Isync { id: k.id }),
                ce,
            );
            &&& crate::proto::parse_request(v.request) == Some(
                crate::proto::request(v.id, crate::proto::ReqCmdView::Isync { id: k.id }),
            )
            &&& told.len() == 2
            &&& told[0].to == ce.addr
            &&& told[1].to == le.addr
            &&& {
                let v1 = v.received(told[0].resp.bytes(), server);
                let (v2, action) = v1.next();
                &&& action == crate::client::ConnectActionView::AskPeer(le.text)
                &&& k.answer(v2.request, asked_from) matches Some(answer)
                &&& answer.to == crate::client::DestinationView::Addr(asked_from.addr)
                &&& v2.received(answer.bytes, le).next().1
                    == crate::client::ConnectActionView::Finish(Ok(()))
            }
        }),
{
    crate::proto::law_plain_request_round_trip(
        crate::proto::request(v.id, crate::proto::ReqCmdView::Isync { id: k.id }),
    );
    crate::proto::law_plain_response_round_trip(
        crate::proto::response(
            v.id,
            crate::proto::RespCmdView::Redirect { id: k.id, addr: le.text },
        ),
    );
    crate::proto::law_plain_response_round_trip(
        crate::proto::response(v.id, crate::proto::RespCmdView::Rsync { id: k.id }),
    );
    let told = crate::server::replies(
        clients,
        crate::proto::request(v.id, crate::proto::ReqCmdView::Isync { id: k.id }),
        ce,
    );
    let v1 = v.received(told[0].resp.bytes(), server);
    assert(v1 == (crate::client::ConnectingView {
        stage: crate::client::StageView::Peer { addr: le.text, tries: 0 },
        ..v
    }));
    let v2 = v1.next().0;
    assert(v2.stage == (crate::client::StageView::Peer { addr: le.text, tries: 1 }));
    let answer = k.answer(v2.request, asked_from);
    assert(answer == Some(
        crate::client::AnswerView {
            to: crate::client::DestinationView::Addr(asked_from.addr),
            bytes: k.greeting(v.id),
        },
    ));
    assert(v2.received(k.greeting(v.id), le).stage == crate::client::StageView::Done(Ok(())));
}

/// Meanwhile the one that is asked for is told by the server who wants to connect, and greets it
/// at the address that the server sees it at.
pub proof fn law_greeting_forwarded(
    clients: Map<Seq<char>, crate::udp::server::ClientView>,
    k: crate::client::ListeningView,
    c: Seq<char>,
    ce: crate::addr::EndpointView,
    server: crate::addr::EndpointView,
)
    requires
        clients.contains_key(k.id),
        server.addr == k.server_addr,
        crate::proto::response(
            k.id,
            crate::proto::RespCmdView::fsync(c, ce.text),
        ).fits(),
    ensures
        ({
            let told = crate::server::replies(
                clients,
                crate::proto::request(c, crate::proto::ReqCmdView::Isync { id: k.id }),
                ce,
            );
            k.answer(told[1].resp.bytes(), server) == Some(
                crate::client::AnswerView {
                    to: crate::client::DestinationView::Text(ce.text),
                    bytes: k.greeting(c),
                },
            )
        }),
{
    crate::proto::law_plain_response_round_trip(
        crate::proto::response(
            k.id,
            crate::proto::RespCmdView::fsync(c, ce.text),
        ),
    );
}

/// A client that asks for one which the server does not know is told so, and gives up.
pub proof fn law_greeting_refused(
    clients: Map<Seq<char>, crate::udp::server::ClientView>,
    v: crate::client::ConnectingView,
    ce: crate::addr::EndpointView,
    server: crate::addr::EndpointView,
    tries: nat,
)
    requires
        v.stage == (crate::client::StageView::Server { tries }),
        server.addr == v.server_addr,
        !clients.contains_key(v.target_id),
        crate::proto::response(
            v.id,
            crate::proto::RespCmdView::Redirect { id: v.target_id, addr: Seq::empty() },
        ).fits(),
    ensures
        ({
            let told = crate::server::replies(
                clients,
                crate::proto::request(v.id, crate::proto::ReqCmdView::Isync { id: v.target_id }),
                ce,
            );
            &&& told.len() == 1
            &&& told[0].to == ce.addr
            &&& v.received(told[0].resp.bytes(), server).next().1
                == crate::client::ConnectActionView::Finish(Err(Failure::UnknownTarget))
        }),
{
    crate::proto::law_plain_response_round_trip(
        crate::proto::response(
            v.id,
            crate::proto::RespCmdView::Redirect { id: v.target_id, addr: Seq::empty() },
        ),
    );
}

} // verus!
