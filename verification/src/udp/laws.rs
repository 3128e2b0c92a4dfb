//! What holds of the UDP server, connector and listener, each by itself.
use crate::addr::{EndpointView, SocketAddr};
use crate::error::Failure;
use crate::proto::{ReqCmdView, RequestView, RespCmdView, ResponseView};
use crate::udp::client::{
    ConfigView, ConnectActionView, ConnectingView, KeepaliveView, ListenerView, Phase, ReactionView,
    SyncError,
};
use crate::udp::server::{ReplyView, ServerView};
use crate::udp::util::Dialer;
use vstd::prelude::*;

verus! {

// ---------------------------------------------------------------------------------------------
// The server: what it knows
// ---------------------------------------------------------------------------------------------

/// A peer that is known stays known, whoever asks for whatever, until it takes its leave itself.
pub proof fn law_only_bye_forgets(
    s: ServerView,
    req: RequestView,
    from: EndpointView,
    now: u64,
    id: Seq<char>,
)
    requires
        s.clients.contains_key(id),
        req.id != id || req.cmd != Some(ReqCmdView::Bye),
    ensures
        s.on_request(req, from, now).0.clients.contains_key(id),
{
}

/// A leave makes the server forget who takes it, and nothing else; nobody is told.
pub proof fn law_bye_forgets_its_sender(
    s: ServerView,
    id: Seq<char>,
    from: EndpointView,
    now: u64,
    other: Seq<char>,
)
    ensures
        ({
            let (after, r) = s.on_request(
                RequestView { id, cmd: Some(ReqCmdView::Bye) },
                from,
                now,
            );
            &&& !after.clients.contains_key(id)
            &&& other != id ==> (after.clients.contains_key(other) <==> s.clients.contains_key(
                other,
            )) && after.clients[other] == s.clients[other]
            &&& after.next_gc == s.next_gc
            &&& r is None
        }),
{
}

/// What is known of a peer is what it was before, or what was seen of the peer right now.
pub proof fn law_known_as_seen(
    s: ServerView,
    req: RequestView,
    from: EndpointView,
    now: u64,
    id: Seq<char>,
)
    requires
        s.on_request(req, from, now).0.clients.contains_key(id),
    ensures
        ({
            let c = s.on_request(req, from, now).0.clients[id];
            ||| s.clients.contains_key(id) && c == s.clients[id]
            ||| id == req.id && c.addr == from && c.last_ping == now
        }),
{
}

/// Who pings, or asks for a peer that is known, is known from then on with the address and the
/// time of that, whether it was known before or not.
pub proof fn law_sign_of_life(
    s: ServerView,
    req: RequestView,
    from: EndpointView,
    now: u64,
    target: Seq<char>,
)
    requires
        req.cmd == Some(ReqCmdView::Ping) || (req.cmd == Some(ReqCmdView::Isync { id: target })
            && s.clients.contains_key(target)),
    ensures
        ({
            let after = s.on_request(req, from, now).0;
            &&& after.clients.contains_key(req.id)
            &&& after.clients[req.id].addr == from
            &&& after.clients[req.id].last_ping == now
        }),
{
}

/// Other requests leave the server as it was: an expectation, a forwarded request, one without a
/// command, and one for a peer that is not known.
pub proof fn law_changes_nothing(
    s: ServerView,
    req: RequestView,
    from: EndpointView,
    now: u64,
)
    requires
        match req.cmd {
            Some(ReqCmdView::Rsync { .. }) => true,
            Some(ReqCmdView::Fsync { .. }) => true,
            Some(ReqCmdView::Isync { id }) => !s.clients.contains_key(id),
            Some(ReqCmdView::Bye) => !s.clients.contains_key(req.id),
            Some(ReqCmdView::Ping) => false,
            None => true,
        },
    ensures
        s.on_request(req, from, now).0 == s,
{
    assert(s.clients.remove(req.id) =~= s.clients || s.clients.contains_key(req.id));
}

// ---------------------------------------------------------------------------------------------
// The server: whom it tells what
// ---------------------------------------------------------------------------------------------

/// A ping is answered with a pong, to its sender.
pub proof fn law_pong(s: ServerView, id: Seq<char>, from: EndpointView, now: u64)
    ensures
        s.on_request(RequestView { id, cmd: Some(ReqCmdView::Ping) }, from, now).1 == Some(
            ReplyView {
                to: from.addr,
                resp: ResponseView { id, cmd: Some(RespCmdView::Pong) },
            },
        ),
{
}

/// Who asks for a peer that is known has that peer told, where it was seen last, of the asker and
/// of the asker's address.
pub proof fn law_forwarded(
    s: ServerView,
    id: Seq<char>,
    target: Seq<char>,
    from: EndpointView,
    now: u64,
)
    requires
        s.clients.contains_key(target),
    ensures
        s.on_request(RequestView { id, cmd: Some(ReqCmdView::Isync { id: target }) }, from, now).1
            == Some(
            ReplyView {
                to: s.clients[target].addr.addr,
                resp: ResponseView {
                    id: target,
                    cmd: Some(
                        RespCmdView::Fsync { id, addr: from.text, unknown: Map::empty() },
                    ),
                },
            },
        ),
{
}

/// Who asks for a peer that is not known is told so: no address comes back.
pub proof fn law_not_found(
    s: ServerView,
    id: Seq<char>,
    target: Seq<char>,
    from: EndpointView,
    now: u64,
)
    requires
        !s.clients.contains_key(target),
    ensures
        s.on_request(RequestView { id, cmd: Some(ReqCmdView::Isync { id: target }) }, from, now).1
            == Some(
            ReplyView {
                to: from.addr,
                resp: ResponseView {
                    id,
                    cmd: Some(RespCmdView::Redirect { id: target, addr: Seq::empty() }),
                },
            },
        ),
{
}

/// Who is expected is told, where it was seen last, who expects it and at which address.
pub proof fn law_expected(
    s: ServerView,
    id: Seq<char>,
    target: Seq<char>,
    from: EndpointView,
    now: u64,
)
    ensures
        ({
            let r = s.on_request(
                RequestView { id, cmd: Some(ReqCmdView::Rsync { id: target }) },
                from,
                now,
            ).1;
            &&& s.clients.contains_key(target) ==> r == Some(
                ReplyView {
                    to: s.clients[target].addr.addr,
                    resp: ResponseView {
                        id: target,
                        cmd: Some(RespCmdView::Redirect { id, addr: from.text }),
                    },
                },
            )
            &&& !s.clients.contains_key(target) ==> r is None
        }),
{
}

/// Other requests are not answered.
pub proof fn law_not_answered(s: ServerView, req: RequestView, from: EndpointView, now: u64)
    requires
        match req.cmd {
            Some(ReqCmdView::Fsync { .. }) => true,
            Some(ReqCmdView::Bye) => true,
            None => true,
            _ => false,
        },
    ensures
        s.on_request(req, from, now).1 is None,
{
}

/// A peer that is known can be reached again and again: whatever was asked before, short of its own
/// leave, the next one who asks for it has it told, at the address that it was last seen at.
pub proof fn law_reached_again(
    s: ServerView,
    l: Seq<char>,
    req: RequestView,
    from: EndpointView,
    t1: u64,
    d: Seq<char>,
    de: EndpointView,
    t2: u64,
)
    requires
        s.clients.contains_key(l),
        req.id != l || req.cmd != Some(ReqCmdView::Bye),
    ensures
        ({
            let after = s.on_request(req, from, t1).0;
            let r = after.on_request(
                RequestView { id: d, cmd: Some(ReqCmdView::Isync { id: l }) },
                de,
                t2,
            ).1;
            &&& r is Some
            &&& r.unwrap().to == s.clients[l].addr.addr || (req.id == l && r.unwrap().to
                == from.addr)
            &&& r.unwrap().resp.id == l
            &&& r.unwrap().resp.cmd == Some(
                RespCmdView::Fsync { id: d, addr: de.text, unknown: Map::empty() },
            )
        }),
{
}

/// Bytes that are a request have the effect of that request, and others have none.
pub proof fn law_datagram(s: ServerView, buf: Seq<u8>, from: EndpointView, now: u64)
    ensures
        match crate::proto::parse_request(buf) {
            Some(req) => s.on_datagram(buf, from, now) == s.on_request(req, from, now),
            None => s.on_datagram(buf, from, now) == (s, None::<ReplyView>),
        },
{
}

// ---------------------------------------------------------------------------------------------
// The server: over time
// ---------------------------------------------------------------------------------------------

/// A request, from where it came and when.
pub struct Incoming {
    pub req: RequestView,
    pub from: EndpointView,
    pub now: u64,
}

/// The server after these requests.
pub open spec fn after_requests(s: ServerView, seen: Seq<Incoming>) -> ServerView
    decreases seen.len(),
{
    if seen.len() == 0 {
        s
    } else {
        let last = seen.last();
        after_requests(s, seen.drop_last()).on_request(last.req, last.from, last.now).0
    }
}

/// Over any requests: a peer is known as its last ping left it, if it sent nothing since.
pub proof fn law_last_ping_counts(s: ServerView, seen: Seq<Incoming>, k: int)
    requires
        0 <= k < seen.len(),
        seen[k].req.cmd == Some(ReqCmdView::Ping),
        forall|j: int| k < j < seen.len() ==> (#[trigger] seen[j]).req.id != seen[k].req.id,
    ensures
        after_requests(s, seen).clients.contains_key(seen[k].req.id),
        after_requests(s, seen).clients[seen[k].req.id].addr == seen[k].from,
        after_requests(s, seen).clients[seen[k].req.id].last_ping == seen[k].now,
    decreases seen.len(),
{
    let less = seen.drop_last();
    let n = less.len() as int;
    assert(seen.last() == seen[n]);
    if k < n {
        assert(less[k] == seen[k]);
        assert forall|j: int| k < j < less.len() implies (#[trigger] less[j]).req.id
            != less[k].req.id by {
            assert(less[j] == seen[j]);
        }
        law_last_ping_counts(s, less, k);
    }
}

/// Over any requests: a peer that is known stays known as long as it does not take its leave.
pub proof fn law_stays_known(s: ServerView, seen: Seq<Incoming>, id: Seq<char>)
    requires
        s.clients.contains_key(id),
        forall|j: int|
            0 <= j < seen.len() ==> (#[trigger] seen[j]).req.id != id || seen[j].req.cmd != Some(
                ReqCmdView::Bye,
            ),
    ensures
        after_requests(s, seen).clients.contains_key(id),
    decreases seen.len(),
{
    if seen.len() > 0 {
        let less = seen.drop_last();
        assert forall|j: int| 0 <= j < less.len() implies (#[trigger] less[j]).req.id != id
            || less[j].req.cmd != Some(ReqCmdView::Bye) by {
            assert(less[j] == seen[j]);
        }
        law_stays_known(s, less, id);
        assert(seen.last() == seen[seen.len() - 1]);
    }
}

/// When the server looks for peers that are gone, those stay as they are that gave a sign of life
/// within the last minute, and the others go. It looks again a minute later.
pub proof fn law_a_minute(s: ServerView, now: u64, id: Seq<char>)
    ensures
        s.gc(now).clients.contains_key(id) <==> s.clients.contains_key(id) && now
            < s.clients[id].last_ping + 60_000_000_000,
        s.gc(now).clients.contains_key(id) ==> s.gc(now).clients[id] == s.clients[id],
        s.gc(now).next_gc == now + 60_000_000_000,
{
}

/// The server looks no earlier than when it is time to, and then it does.
pub proof fn law_looks_in_time(s: ServerView, now: u64, id: Seq<char>)
    ensures
        now <= s.next_gc ==> s.tick(now) == s,
        now > s.next_gc ==> s.tick(now).next_gc == now + 60_000_000_000,
        now > s.next_gc ==> (s.tick(now).clients.contains_key(id) <==> s.clients.contains_key(id)
            && now < s.clients[id].last_ping + 60_000_000_000),
        s.tick(now).clients.contains_key(id) ==> s.clients.contains_key(id)
            && s.tick(now).clients[id] == s.clients[id],
{
}

// ---------------------------------------------------------------------------------------------
// The connector: what it does next
// ---------------------------------------------------------------------------------------------

/// An attempt begins without any failure, and what it sends is its request for the target.
pub proof fn law_attempt_begins<E>(id: Seq<char>, target: Seq<char>, n: nat, i: int)
    ensures
        ({
            let v = ConnectingView::<E>::start(id, target, n);
            &&& v.id == id
            &&& v.failed.len() == n
            &&& 0 <= i < n ==> !v.failed[i]
            &&& v.rounds == 0
            &&& v.phase == Phase::Between
            &&& v.last_error is None
            &&& crate::proto::request(id, ReqCmdView::Isync { id: target }).fits()
                ==> crate::proto::parse_request(v.request) == Some(
                RequestView { id, cmd: Some(ReqCmdView::Isync { id: target }) },
            )
        }),
{
    if crate::proto::request(id, ReqCmdView::Isync { id: target }).fits() {
        crate::proto::law_plain_request_round_trip(
            crate::proto::request(id, ReqCmdView::Isync { id: target }),
        );
    }
}

/// An attempt is given up only after three rounds, or once every server has failed, however many
/// servers there are. It ends with what was reported last, or with the word that nobody answered.
pub proof fn law_given_up_at_the_end<E>(v: ConnectingView<E>, now: u64)
    requires
        v.next(now).1 is GiveUp,
    ensures
        v.rounds >= 3 || forall|i: int| 0 <= i < v.failed.len() ==> #[trigger] v.failed[i],
        match v.last_error {
            Some(e) => v.next(now).1 == ConnectActionView::GiveUp(e),
            None => v.next(now).1 == ConnectActionView::GiveUp(
                SyncError::<E>::Protocol(Failure::NoResponse),
            ),
        },
{
}

/// As long as a server has not failed, the rounds follow each other: a request, then up to five
/// seconds of waiting, then the next request, three times.
pub proof fn law_rounds_follow<E>(v: ConnectingView<E>, now: u64, j: int)
    requires
        0 <= j < v.failed.len(),
        !v.failed[j],
    ensures
        ({
            let (w, action) = v.next(now);
            &&& v.phase == Phase::Sending ==> action is Wait && w.phase == Phase::Waiting(now)
                && w.rounds == v.rounds
            &&& v.phase matches Phase::Waiting(t) ==> (now < t + 5_000_000_000 ==> action is Wait
                && w.phase == v.phase && w.rounds == v.rounds)
            &&& v.phase matches Phase::Waiting(t) ==> (now >= t + 5_000_000_000 && v.rounds < 3
                ==> action is Send && w.phase == Phase::Sending && w.rounds == v.rounds + 1)
            &&& v.phase matches Phase::Waiting(t) ==> (now >= t + 5_000_000_000 && v.rounds >= 3
                ==> action is GiveUp)
            &&& v.phase == Phase::Between && v.rounds < 3 ==> action is Send && w.phase
                == Phase::Sending && w.rounds == v.rounds + 1
            &&& v.phase == Phase::Between && v.rounds >= 3 ==> action is GiveUp
        }),
{
}

/// The clock is looked at fifty times in a round that nothing ends earlier.
pub proof fn law_polls()
    ensures
        50 * crate::udp::client::POLL_TIMEOUT == 5_000_000_000,
{
}

/// Once every server has failed the attempt is given up, whatever it was doing.
pub proof fn law_hopeless<E>(v: ConnectingView<E>, now: u64)
    requires
        forall|i: int| 0 <= i < v.failed.len() ==> #[trigger] v.failed[i],
    ensures
        v.next(now).1 is GiveUp,
{
}

/// Asked and waited for are exactly the servers that have not failed, each once and in their order.
pub proof fn law_others_asked<E>(v: ConnectingView<E>, now: u64, i: usize)
    requires
        i < v.failed.len() <= usize::MAX,
    ensures
        match v.next(now).1 {
            ConnectActionView::Send(to) => (to.contains(i) <==> !v.failed[i as int])
                && increasing(to),
            ConnectActionView::Wait(on) => (on.contains(i) <==> !v.failed[i as int])
                && increasing(on),
            ConnectActionView::GiveUp(_) => true,
        },
{
    crate::udp::util::law_targets(v.failed);
    crate::udp::util::law_targets_increase(v.failed);
    let to = crate::udp::util::targets(v.failed);
    if !v.failed[i as int] {
        assert(to[crate::udp::util::rank(v.failed, i as int)] == i);
    }
}

/// Each number is greater than those before it.
pub open spec fn increasing(s: Seq<usize>) -> bool {
    forall|k: int, l: int| 0 <= k < l < s.len() ==> #[trigger] s[k] < #[trigger] s[l]
}

/// To decide what is next changes nothing of who asks, of what is sent, and of who has failed.
pub proof fn law_next_keeps<E>(v: ConnectingView<E>, now: u64)
    ensures
        ({
            let (w, action) = v.next(now);
            &&& w.id == v.id
            &&& w.request == v.request
            &&& w.failed == v.failed
            &&& action is Send ==> w.rounds == v.rounds + 1
            &&& !(action is Send) ==> w.rounds == v.rounds
            &&& !(action is GiveUp) ==> w.last_error == v.last_error
            &&& action is GiveUp ==> w.last_error is None && w.phase == Phase::Between
        }),
{
}

// ---------------------------------------------------------------------------------------------
// The connector: what it takes in
// ---------------------------------------------------------------------------------------------

/// An address that a server tells is what the attempt yields, and changes nothing.
pub proof fn law_address_told<E>(
    v: ConnectingView<E>,
    i: int,
    buf: Seq<u8>,
    about: Seq<char>,
    addr: Seq<char>,
)
    requires
        crate::proto::parse_response(buf) == Some(
            ResponseView { id: v.id, cmd: Some(RespCmdView::Redirect { id: about, addr }) },
        ),
        addr.len() > 0,
    ensures
        v.received(i, buf) == (v, Some(addr)),
{
}

/// A server that tells no address has failed, and no other; that is what is reported.
pub proof fn law_no_address_told<E>(
    v: ConnectingView<E>,
    i: int,
    buf: Seq<u8>,
    about: Seq<char>,
    j: int,
)
    requires
        0 <= i < v.failed.len(),
        0 <= j < v.failed.len(),
        crate::proto::parse_response(buf) == Some(
            ResponseView {
                id: v.id,
                cmd: Some(RespCmdView::Redirect { id: about, addr: Seq::empty() }),
            },
        ),
    ensures
        ({
            let (w, told) = v.received(i, buf);
            &&& told is None
            &&& w.failed.len() == v.failed.len()
            &&& w.failed[j] == (v.failed[j] || j == i)
            &&& w.last_error == Some(SyncError::<E>::Protocol(Failure::TargetNotFound))
            &&& w.id == v.id
            &&& w.request == v.request
            &&& w.rounds == v.rounds
            &&& w.phase == v.phase
        }),
{
}

/// What is no redirect for this client changes nothing and yields nothing.
pub proof fn law_not_a_redirect<E>(v: ConnectingView<E>, i: int, buf: Seq<u8>)
    requires
        match crate::proto::parse_response(buf) {
            Some(resp) => resp.id != v.id || !(resp.cmd matches Some(RespCmdView::Redirect { .. })),
            None => true,
        },
    ensures
        v.received(i, buf) == (v, None::<Seq<char>>),
{
}

/// A server that cannot be reached has failed, and no other; that is what is reported.
pub proof fn law_unreachable<E>(v: ConnectingView<E>, i: int, e: SyncError<E>, j: int)
    requires
        0 <= i < v.failed.len(),
        0 <= j < v.failed.len(),
    ensures
        ({
            let w = v.unreachable(i, e);
            &&& w.failed.len() == v.failed.len()
            &&& w.failed[j] == (v.failed[j] || j == i)
            &&& w.last_error == Some(e)
            &&& w.id == v.id
            &&& w.request == v.request
            &&& w.rounds == v.rounds
            &&& w.phase == v.phase
        }),
{
}

/// Where reading or waiting fails, that is reported. A failed wait ends the round, and neither is
/// held against a server.
pub proof fn law_io_failures<E>(v: ConnectingView<E>, e: E)
    ensures
        v.recv_failed(e).last_error == Some(SyncError::Io(e)),
        v.recv_failed(e).phase == v.phase,
        v.recv_failed(e).failed == v.failed,
        v.recv_failed(e).rounds == v.rounds,
        v.recv_failed(e).id == v.id,
        v.recv_failed(e).request == v.request,
        v.poll_failed(e).last_error == Some(SyncError::Io(e)),
        v.poll_failed(e).phase == Phase::Between,
        v.poll_failed(e).failed == v.failed,
        v.poll_failed(e).rounds == v.rounds,
        v.poll_failed(e).id == v.id,
        v.poll_failed(e).request == v.request,
{
}

// ---------------------------------------------------------------------------------------------
// The listener
// ---------------------------------------------------------------------------------------------

/// A listener begins with no ping sent to any server and none failed, and what it sends is its
/// ping.
pub proof fn law_listening_begins(id: Seq<char>, n: nat, i: int, now: u64)
    ensures
        ({
            let k = KeepaliveView::start(id, n);
            &&& k.id == id
            &&& k.ping_times.len() == n
            &&& k.failed.len() == n
            &&& 0 <= i < n ==> !k.failed[i] && crate::udp::client::ping_due(k.ping_times[i], now)
            &&& crate::proto::request(id, ReqCmdView::Ping).fits() ==> crate::proto::parse_request(
                k.ping,
            ) == Some(RequestView { id, cmd: Some(ReqCmdView::Ping) })
        }),
{
    if crate::proto::request(id, ReqCmdView::Ping).fits() {
        crate::proto::law_plain_request_round_trip(
            crate::proto::request(id, ReqCmdView::Ping),
        );
    }
}

/// A ping to a server is noted for that server and no other: its next one is not due for ten
/// seconds, and due after fifteen, whatever the variation; the others are due as they were.
pub proof fn law_ping_noted(
    k: KeepaliveView,
    i: int,
    sent: u64,
    millis: u64,
    j: int,
    now: u64,
)
    requires
        0 <= i < k.ping_times.len(),
        0 <= j < k.ping_times.len(),
        millis < crate::udp::client::VARIATION_MILLIS,
    ensures
        ({
            let after = k.pinged(i, sent, millis);
            &&& after.ping_times.len() == k.ping_times.len()
            &&& now - sent <= 10_000_000_000 ==> !crate::udp::client::ping_due(
                after.ping_times[i],
                now,
            )
            &&& now - sent >= 15_000_000_000 ==> crate::udp::client::ping_due(
                after.ping_times[i],
                now,
            )
            &&& j != i ==> after.ping_times[j] == k.ping_times[j]
            &&& after.id == k.id
            &&& after.ping == k.ping
            &&& after.failed == k.failed
        }),
{
}

/// When a ping is due exactly: more than ten seconds and the variation after it was sent.
pub proof fn law_variation_counts(k: KeepaliveView, i: int, sent: u64, millis: u64, now: u64)
    requires
        0 <= i < k.ping_times.len(),
    ensures
        crate::udp::client::ping_due(k.pinged(i, sent, millis).ping_times[i], now) <==> now - sent
            > 10_000_000_000 + millis * 1_000_000,
{
}

/// A server that nothing can be read from has failed, and no other; one that has sent nothing yet
/// has not. When pings are due does not change.
pub proof fn law_unreadable(k: KeepaliveView, i: int, would_block: bool, j: int)
    requires
        0 <= i < k.failed.len(),
        0 <= j < k.failed.len(),
    ensures
        ({
            let after = k.recv_failed(i, would_block);
            &&& after.failed.len() == k.failed.len()
            &&& after.failed[j] == (k.failed[j] || (j == i && !would_block))
            &&& after.ping_times == k.ping_times
            &&& after.id == k.id
            &&& after.ping == k.ping
        }),
{
}

/// That a server answered a ping is noted for that server and no other, with the time of it.
pub proof fn law_pong_noted(l: ListenerView, i: int, now: u64, j: int)
    requires
        0 <= i < l.last_pong.len(),
        0 <= j < l.last_pong.len(),
    ensures
        ({
            let after = l.pong(i, now);
            &&& after.last_pong.len() == l.last_pong.len()
            &&& after.last_pong[i] == Some(now)
            &&& j != i ==> after.last_pong[j] == l.last_pong[j]
            &&& after.cfg == l.cfg
        }),
{
}

/// What a listener owes for what a server sends it: for a pong to remember it, for a forwarded
/// request to say to the server and to the peer that it expects the peer; for all else nothing.
pub proof fn law_listener_owes(k: KeepaliveView, buf: Seq<u8>, resp: ResponseView)
    requires
        crate::proto::parse_response(buf) == Some(resp),
        resp.id == k.id,
    ensures
        match resp.cmd {
            Some(RespCmdView::Pong) => k.reaction(buf) == ReactionView::Pong,
            Some(RespCmdView::Fsync { id, addr, .. }) => {
                &&& k.reaction(buf) matches ReactionView::Fsync { rsync, peer }
                &&& peer == addr
                &&& crate::proto::request(k.id, ReqCmdView::Rsync { id }).fits()
                    ==> crate::proto::parse_request(rsync) == Some(
                    RequestView { id: k.id, cmd: Some(ReqCmdView::Rsync { id }) },
                )
            },
            _ => k.reaction(buf) == ReactionView::Nothing,
        },
{
    if let Some(RespCmdView::Fsync { id, .. }) = resp.cmd {
        if crate::proto::request(k.id, ReqCmdView::Rsync { id }).fits() {
            crate::proto::law_plain_request_round_trip(
                crate::proto::request(k.id, ReqCmdView::Rsync { id }),
            );
        }
    }
}

/// What comes for somebody else, or is no response, is owed nothing.
pub proof fn law_listener_owes_nothing(k: KeepaliveView, buf: Seq<u8>)
    requires
        match crate::proto::parse_response(buf) {
            Some(resp) => resp.id != k.id,
            None => true,
        },
    ensures
        k.reaction(buf) == ReactionView::Nothing,
{
}

/// A listener that goes away is forgotten by the servers that it tells, and nobody else is.
pub proof fn law_listener_goes(
    l: ListenerView,
    s: ServerView,
    from: EndpointView,
    now: u64,
    other: Seq<char>,
)
    requires
        (RequestView { id: l.cfg.id, cmd: Some(ReqCmdView::Bye) }).fits(),
    ensures
        ({
            let (after, r) = s.on_datagram(l.bye(), from, now);
            &&& !after.clients.contains_key(l.cfg.id)
            &&& other != l.cfg.id ==> (after.clients.contains_key(other)
                <==> s.clients.contains_key(other)) && after.clients[other] == s.clients[other]
            &&& r is None
        }),
{
    crate::proto::law_plain_request_round_trip(
        RequestView { id: l.cfg.id, cmd: Some(ReqCmdView::Bye) },
    );
}

/// To listen changes nothing of a listener but the address that it uses from then on.
pub proof fn law_listening_keeps(l: ListenerView, bound: SocketAddr)
    ensures
        l.listening(bound).cfg.local_addr == Some(bound),
        l.listening(bound).cfg.id == l.cfg.id,
        l.listening(bound).cfg.server_addrs == l.cfg.server_addrs,
        l.listening(bound).last_pong == l.last_pong,
{
}

// ---------------------------------------------------------------------------------------------
// Sockets
// ---------------------------------------------------------------------------------------------

/// The servers are reached from the address that was asked for, if one was.
pub proof fn law_dialed_from_asked(cfg: ConfigView, server: SocketAddr)
    ensures
        cfg.dialer().initial == cfg.local_addr,
        cfg.dialer().local is None,
        match cfg.local_addr {
            Some(addr) => crate::udp::util::dial_of(cfg.dialer().from(), server).local == addr,
            None => crate::udp::util::dial_of(cfg.dialer().from(), server)
                == crate::udp::util::dial_of(None, server),
        },
{
}

/// How a server is reached, for each pair of families: from a given address, or from any address
/// and port of the server's family; at its own address, which is mapped where the local one is IPv6
/// and the server's is not.
pub proof fn law_dial(local: Option<SocketAddr>, server: SocketAddr)
    ensures
        ({
            let d = crate::udp::util::dial_of(local, server);
            &&& local matches Some(addr) ==> d.local == addr
            &&& local is None && server is V4 ==> d.local is V4 && d.local->V4_0.ip == 0
                && d.local->V4_0.port == 0
            &&& local is None && server is V6 ==> d.local is V6 && d.local->V6_0.ip == 0
                && d.local->V6_0.port == 0 && d.local->V6_0.flowinfo == 0
                && d.local->V6_0.scope_id == 0
            &&& local is None || local.unwrap() is V4 || server is V6 ==> d.remote == server
            &&& local is Some && local.unwrap() is V6 && server is V4 ==> d.remote is V6
                && d.remote->V6_0.ip == 0xffff_0000_0000 + server->V4_0.ip && d.remote->V6_0.port
                == server->V4_0.port && d.remote->V6_0.flowinfo == 0 && d.remote->V6_0.scope_id == 0
        }),
{
}

/// The address that is used once sockets are bound: what was asked for, with the port of the first
/// socket; or what the first socket got, if nothing was asked for.
pub proof fn law_settled_address(initial: Option<SocketAddr>, actual: Seq<SocketAddr>)
    requires
        actual.len() > 0,
    ensures
        ({
            let d = (Dialer { initial, local: None }).after_all(actual);
            &&& d.initial == initial
            &&& d.local is Some
            &&& initial is None ==> d.local == Some(actual[0])
            &&& initial matches Some(addr) ==> same_but_port(d.local.unwrap(), addr)
            &&& crate::udp::util::dial_of(d.from(), actual[0]).local == d.local.unwrap()
            &&& (Dialer { initial, local: None }).from() == initial
        }),
    decreases actual.len(),
{
    let start = Dialer { initial, local: None };
    if actual.len() == 1 {
        assert(actual.drop_last() =~= Seq::empty());
        assert(start.after_all(actual.drop_last()) == start);
    } else {
        law_settled_address(initial, actual.drop_last());
    }
}

/// The two addresses differ in their ports at most.
pub open spec fn same_but_port(a: SocketAddr, b: SocketAddr) -> bool {
    match (a, b) {
        (SocketAddr::V4(x), SocketAddr::V4(y)) => x.ip == y.ip,
        (SocketAddr::V6(x), SocketAddr::V6(y)) => x.ip == y.ip && x.flowinfo == y.flowinfo
            && x.scope_id == y.scope_id,
        _ => false,
    }
}

/// Another port changes the port and nothing else; the port of an address is the one it was made
/// with.
pub proof fn law_with_port(a: SocketAddr, port: u16)
    ensures
        a.with_port(port).port() == port,
        same_but_port(a.with_port(port), a),
        a.with_port(a.port()) == a,
        a.with_port(port) is V4 <==> a is V4,
        a matches SocketAddr::V4(x) ==> a.port() == x.port,
        a matches SocketAddr::V6(x) ==> a.port() == x.port,
{
}

/// No two IPv4 addresses are mapped to one, and what is IPv6 stays as it is.
pub proof fn law_mapped_apart(a: SocketAddr, b: SocketAddr)
    ensures
        a.to_v6() is V6,
        a is V6 ==> a.to_v6() == a,
        a is V4 && b is V4 && a.to_v6() == b.to_v6() ==> a == b,
        a.to_v6().port() == a.port(),
{
}

} // verus!
