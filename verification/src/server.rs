//! The rendezvous server for [`crate::client::Client`].
//!
//! It tells both sides where the other one is as soon as one asks, and never forgets a peer.
use crate::addr::{Endpoint, SocketAddr};
use crate::idmap::IdMap;
use crate::proto::{Fsync, Isync, Ping, Pong, Redirect, ReqCmd, Request, RespCmd, Response};
use crate::udp::server::{Client, Datagram, Reply};
use vstd::prelude::*;

verus! {

/// The server: which peers it knows.
pub struct Server {
    clients: IdMap<Client>,
}

impl View for Server {
    type V = Map<Seq<char>, crate::udp::server::ClientView>;

    closed spec fn view(&self) -> Map<Seq<char>, crate::udp::server::ClientView> {
        self.clients@
    }
}

/// The peers that are known after a request from `from`: who pings is known from then on.
pub open spec fn clients_after(
    clients: Map<Seq<char>, crate::udp::server::ClientView>,
    req: crate::proto::RequestView,
    from: crate::addr::EndpointView,
    now: u64,
) -> Map<Seq<char>, crate::udp::server::ClientView> {
    if req.cmd == Some(crate::proto::ReqCmdView::Ping) {
        clients.insert(
            req.id,
            crate::udp::server::ClientView { addr: from, last_ping: now },
        )
    } else {
        clients
    }
}

/// What is sent for a request from `from`.
///
/// - A ping is answered.
/// - Who wants a connection is told where the target is, or gets no address where it is not known.
///   A target that is known is told who wants to connect.
pub open spec fn replies(
    clients: Map<Seq<char>, crate::udp::server::ClientView>,
    req: crate::proto::RequestView,
    from: crate::addr::EndpointView,
) -> Seq<crate::udp::server::ReplyView> {
    match req.cmd {
        Some(crate::proto::ReqCmdView::Ping) => seq![
            crate::udp::server::reply(from.addr, req.id, crate::proto::RespCmdView::Pong),
        ],
        Some(crate::proto::ReqCmdView::Isync { id: target }) => if clients.contains_key(target) {
            seq![
                crate::udp::server::reply(
                    from.addr,
                    req.id,
                    crate::proto::RespCmdView::Redirect {
                        id: target,
                        addr: clients[target].addr.text,
                    },
                ),
                crate::udp::server::reply(
                    clients[target].addr.addr,
                    target,
                    crate::proto::RespCmdView::fsync(req.id, from.text),
                ),
            ]
        } else {
            seq![
                crate::udp::server::reply(
                    from.addr,
                    req.id,
                    crate::proto::RespCmdView::Redirect { id: target, addr: Seq::empty() },
                ),
            ]
        },
        _ => Seq::empty(),
    }
}

impl Server {
    /// A server that knows no peer yet.
    pub fn new() -> (r: Server)
        ensures
            r@ == Map::<Seq<char>, crate::udp::server::ClientView>::empty(),
    {
        Server { clients: IdMap::new() }
    }

    /// Takes in a datagram that came from `from`, and says what to send. What is no request
    /// changes nothing.
    pub fn handle_datagram(&mut self, buf: &[u8], from: Endpoint, now: u64) -> (r: Vec<Datagram>)
        ensures
            match crate::proto::parse_request(buf@) {
                Some(req) => {
                    &&& final(self)@ == clients_after(old(self)@, req, from@, now)
                    &&& r@.len() == replies(old(self)@, req, from@).len()
                    &&& forall|i: int|
                        0 <= i < r@.len() ==> (#[trigger] r@[i]).to == replies(
                            old(self)@,
                            req,
                            from@,
                        )[i].to && r@[i].bytes@ == replies(old(self)@, req, from@)[i].resp.bytes()
                },
                None => final(self)@ == old(self)@ && r@.len() == 0,
            },
    {
        let req = match Request::parse_from_bytes(buf) {
            Ok(req) => req,
            Err(_) => {
                return Vec::new();
            },
        };
        let ghost told = replies(self@, req@, from@);
        let mut answers = self.handle_request(req, from, now);
        let ghost expected = answers@;
        proof {
            let views = expected.map_values(|reply: Reply| reply@);
            assert(views == told);
            assert forall|i: int| 0 <= i < expected.len() implies (
            #[trigger] expected[i])@.resp.plain() by {
                assert(views[i] == expected[i]@);
                assert(told[i].resp.plain());
            }
        }
        let mut r: Vec<Datagram> = Vec::new();
        while answers.len() > 0
            invariant
                r@.len() + answers@.len() == expected.len(),
                answers@ == expected.skip(r@.len() as int),
                forall|i: int| 0 <= i < expected.len() ==> (#[trigger] expected[i])@.resp.plain(),
                forall|i: int|
                    0 <= i < r@.len() ==> (#[trigger] r@[i]).to == expected[i].to && r@[i].bytes@
                        == expected[i]@.resp.bytes(),
            decreases answers@.len(),
        {
            let reply = answers.remove(0);
            r.push(Datagram { to: reply.to, bytes: reply.resp.write_to_bytes() });
        }
        r
    }

    /// Takes in a request that came from `from`, and says what to answer, and to whom.
    pub fn handle_request(&mut self, req: Request, from: Endpoint, now: u64) -> (r: Vec<Reply>)
        ensures
            final(self)@ == clients_after(old(self)@, req@, from@, now),
            r@.map_values(|reply: Reply| reply@) == replies(old(self)@, req@, from@),
    {
        match req.cmd {
            Some(ReqCmd::Ping(ping)) => self.handle_ping(req.id, ping, from, now),
            Some(ReqCmd::Isync(isync)) => self.handle_isync(req.id, isync, from),
            _ => {
                let r: Vec<Reply> = Vec::new();
                assert(r@.map_values(|reply: Reply| reply@) =~= Seq::empty());
                r
            },
        }
    }

    fn response(cmd: RespCmd, id: String, to: SocketAddr) -> (r: Reply)
        ensures
            r@ == crate::udp::server::reply(to, id@, cmd@),
    {
        Reply { to, resp: Response { id, cmd: Some(cmd) } }
    }

    fn handle_ping(&mut self, id: String, _ping: Ping, from: Endpoint, now: u64) -> (r: Vec<Reply>)
        ensures
            final(self)@ == old(self)@.insert(
                id@,
                crate::udp::server::ClientView { addr: from@, last_ping: now },
            ),
            r@.map_values(|reply: Reply| reply@) == seq![
                crate::udp::server::reply(from@.addr, id@, crate::proto::RespCmdView::Pong),
            ],
    {
        let to = from.addr;
        self.clients.insert(id.clone(), Client { addr: from, last_ping: now });
        let mut r: Vec<Reply> = Vec::new();
        r.push(Self::response(RespCmd::Pong(Pong {  }), id, to));
        r
    }

    fn handle_isync(&self, id: String, isync: Isync, from: Endpoint) -> (r: Vec<Reply>)
        ensures
            r@.map_values(|reply: Reply| reply@) == replies(
                self@,
                crate::proto::request(id@, crate::proto::ReqCmdView::Isync { id: isync.id@ }),
                from@,
            ),
    {
        let target_id = isync.id;
        let mut rdr = Redirect { id: target_id.clone(), addr: String::new() };
        let target = match self.clients.get(&target_id) {
            Some(c) => {
                rdr.addr = c.addr.text.clone();
                Some(c.addr.addr)
            },
            None => None,
        };
        let mut r: Vec<Reply> = Vec::new();
        r.push(Self::response(RespCmd::Redirect(rdr), id.clone(), from.addr));
        if let Some(to) = target {
            let fsync = Fsync::new(id, from.text);
            r.push(Self::response(RespCmd::Fsync(fsync), target_id, to));
        }
        r
    }
}

// ---------------------------------------------------------------------------------------------
// Laws
// ---------------------------------------------------------------------------------------------

/// Who pings is known from then on where the ping came from, whether it was known before or not,
/// and nothing else changes.
pub proof fn law_ping_registers(
    clients: Map<Seq<char>, crate::udp::server::ClientView>,
    id: Seq<char>,
    from: crate::addr::EndpointView,
    now: u64,
    other: Seq<char>,
)
    ensures
        ({
            let after = clients_after(
                clients,
                crate::proto::RequestView { id, cmd: Some(crate::proto::ReqCmdView::Ping) },
                from,
                now,
            );
            &&& after.contains_key(id)
            &&& after[id].addr == from
            &&& after[id].last_ping == now
            &&& other != id ==> (after.contains_key(other) <==> clients.contains_key(other))
                && after[other] == clients[other]
        }),
{
}

/// No other request changes what is known.
pub proof fn law_only_pings_register(
    clients: Map<Seq<char>, crate::udp::server::ClientView>,
    req: crate::proto::RequestView,
    from: crate::addr::EndpointView,
    now: u64,
)
    requires
        req.cmd != Some(crate::proto::ReqCmdView::Ping),
    ensures
        clients_after(clients, req, from, now) == clients,
{
}

/// A ping is answered with a pong, to its sender and to nobody else.
pub proof fn law_pong(
    clients: Map<Seq<char>, crate::udp::server::ClientView>,
    id: Seq<char>,
    from: crate::addr::EndpointView,
)
    ensures
        ({
            let told = replies(
                clients,
                crate::proto::RequestView { id, cmd: Some(crate::proto::ReqCmdView::Ping) },
                from,
            );
            &&& told.len() == 1
            &&& told[0].to == from.addr
            &&& told[0].resp.id == id
            &&& told[0].resp.cmd == Some(crate::proto::RespCmdView::Pong)
        }),
{
}

/// Who asks for a peer that is known is told where it is, and that one where the asker is.
pub proof fn law_both_told(
    clients: Map<Seq<char>, crate::udp::server::ClientView>,
    id: Seq<char>,
    target: Seq<char>,
    from: crate::addr::EndpointView,
)
    requires
        clients.contains_key(target),
    ensures
        ({
            let told = replies(
                clients,
                crate::proto::RequestView {
                    id,
                    cmd: Some(crate::proto::ReqCmdView::Isync { id: target }),
                },
                from,
            );
            &&& told.len() == 2
            &&& told[0].to == from.addr
            &&& told[0].resp.id == id
            &&& told[0].resp.cmd == Some(
                crate::proto::RespCmdView::Redirect {
                    id: target,
                    addr: clients[target].addr.text,
                },
            )
            &&& told[1].to == clients[target].addr.addr
            &&& told[1].resp.id == target
            &&& told[1].resp.cmd == Some(
                crate::proto::RespCmdView::Fsync { id, addr: from.text, unknown: Map::empty() },
            )
        }),
{
}

/// Who asks for a peer that is not known is told no address, and nobody else is told anything.
pub proof fn law_not_found(
    clients: Map<Seq<char>, crate::udp::server::ClientView>,
    id: Seq<char>,
    target: Seq<char>,
    from: crate::addr::EndpointView,
)
    requires
        !clients.contains_key(target),
    ensures
        ({
            let told = replies(
                clients,
                crate::proto::RequestView {
                    id,
                    cmd: Some(crate::proto::ReqCmdView::Isync { id: target }),
                },
                from,
            );
            &&& told.len() == 1
            &&& told[0].to == from.addr
            &&& told[0].resp.id == id
            &&& told[0].resp.cmd == Some(
                crate::proto::RespCmdView::Redirect { id: target, addr: Seq::empty() },
            )
        }),
{
}

/// Nothing is said about requests that are neither pings nor ask for a peer.
pub proof fn law_not_answered(
    clients: Map<Seq<char>, crate::udp::server::ClientView>,
    req: crate::proto::RequestView,
    from: crate::addr::EndpointView,
)
    requires
        match req.cmd {
            Some(crate::proto::ReqCmdView::Ping) => false,
            Some(crate::proto::ReqCmdView::Isync { .. }) => false,
            _ => true,
        },
    ensures
        replies(clients, req, from).len() == 0,
{
}

/// A request, from where it came and when.
pub struct Incoming {
    pub req: crate::proto::RequestView,
    pub from: crate::addr::EndpointView,
    pub now: u64,
}

/// The peers that are known after these requests.
pub open spec fn after_requests(
    clients: Map<Seq<char>, crate::udp::server::ClientView>,
    seen: Seq<Incoming>,
) -> Map<Seq<char>, crate::udp::server::ClientView>
    decreases seen.len(),
{
    if seen.len() == 0 {
        clients
    } else {
        let last = seen.last();
        clients_after(after_requests(clients, seen.drop_last()), last.req, last.from, last.now)
    }
}

/// Over any requests, what counts is the last ping of a peer: who asks for the peer then is sent
/// to where that ping came from, and the peer is told there.
pub proof fn law_last_ping_counts(
    clients: Map<Seq<char>, crate::udp::server::ClientView>,
    seen: Seq<Incoming>,
    k: int,
    asker: Seq<char>,
    from: crate::addr::EndpointView,
)
    requires
        0 <= k < seen.len(),
        seen[k].req.cmd == Some(crate::proto::ReqCmdView::Ping),
        forall|j: int|
            k < j < seen.len() ==> (#[trigger] seen[j]).req.id != seen[k].req.id
                || seen[j].req.cmd != Some(crate::proto::ReqCmdView::Ping),
    ensures
        ({
            let known = after_requests(clients, seen);
            let told = replies(
                known,
                crate::proto::RequestView {
                    id: asker,
                    cmd: Some(crate::proto::ReqCmdView::Isync { id: seen[k].req.id }),
                },
                from,
            );
            &&& known.contains_key(seen[k].req.id)
            &&& known[seen[k].req.id].addr == seen[k].from
            &&& known[seen[k].req.id].last_ping == seen[k].now
            &&& told.len() == 2
            &&& told[0].to == from.addr
            &&& told[0].resp.cmd == Some(
                crate::proto::RespCmdView::Redirect {
                    id: seen[k].req.id,
                    addr: seen[k].from.text,
                },
            )
            &&& told[1].to == seen[k].from.addr
        }),
    decreases seen.len(),
{
    let less = seen.drop_last();
    let n = less.len() as int;
    assert(seen.last() == seen[n]);
    if k < n {
        assert(less[k] == seen[k]);
        assert forall|j: int| k < j < less.len() implies (#[trigger] less[j]).req.id
            != less[k].req.id || less[j].req.cmd != Some(crate::proto::ReqCmdView::Ping) by {
            assert(less[j] == seen[j]);
        }
        law_last_ping_counts(clients, less, k, asker, from);
    }
}

/// A peer that is known is never forgotten, whatever is asked.
pub proof fn law_never_forgotten(
    clients: Map<Seq<char>, crate::udp::server::ClientView>,
    seen: Seq<Incoming>,
    id: Seq<char>,
)
    requires
        clients.contains_key(id),
    ensures
        after_requests(clients, seen).contains_key(id),
    decreases seen.len(),
{
    if seen.len() > 0 {
        law_never_forgotten(clients, seen.drop_last(), id);
    }
}

} // verus!
