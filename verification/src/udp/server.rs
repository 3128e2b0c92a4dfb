//! UDP rendezvous server.
use crate::addr::{Endpoint, SocketAddr};
use crate::idmap::IdMap;
use crate::proto::{
    Fsync, Isync, Ping, Pong, Redirect, ReqCmd, Request, RespCmd, Response, Rsync,
};
use crate::time::SECOND;
use vstd::prelude::*;

verus! {

/// How long a peer stays known without a sign of life, and how long the server waits before it
/// looks for peers that gave none.
pub const EXPIRY: u64 = 60 * SECOND;

/// A peer: where it was seen last, and when.
#[derive(Debug, PartialEq, Eq)]
pub struct Client {
    pub addr: Endpoint,
    pub last_ping: u64,
}

#[verifier::ext_equal]
pub struct ClientView {
    pub addr: crate::addr::EndpointView,
    pub last_ping: u64,
}

impl View for Client {
    type V = ClientView;

    open spec fn view(&self) -> ClientView {
        ClientView { addr: self.addr@, last_ping: self.last_ping }
    }
}

/// UDP rendezvous server.
///
/// Keeps track of all peers and forwards connection requests.
pub struct Server {
    clients: IdMap<Client>,
    next_gc: u128,
}

#[verifier::ext_equal]
pub struct ServerView {
    /// The peers by their identities.
    pub clients: Map<Seq<char>, ClientView>,
    /// After this time the server looks for peers that are gone.
    pub next_gc: int,
}

impl View for Server {
    type V = ServerView;

    closed spec fn view(&self) -> ServerView {
        ServerView { clients: self.clients@, next_gc: self.next_gc as int }
    }
}

/// A response and where it goes.
#[derive(Debug, PartialEq, Eq)]
pub struct Reply {
    pub to: SocketAddr,
    pub resp: Response,
}

#[verifier::ext_equal]
pub struct ReplyView {
    pub to: SocketAddr,
    pub resp: crate::proto::ResponseView,
}

impl View for Reply {
    type V = ReplyView;

    open spec fn view(&self) -> ReplyView {
        ReplyView { to: self.to, resp: self.resp@ }
    }
}

/// Bytes and where they go.
#[derive(Debug, PartialEq, Eq)]
pub struct Datagram {
    pub to: SocketAddr,
    pub bytes: Vec<u8>,
}

// ---------------------------------------------------------------------------------------------
// What the server does
// ---------------------------------------------------------------------------------------------

/// The response that the peer `id`, at the address `to`, is sent.
pub open spec fn reply(
    to: SocketAddr,
    id: Seq<char>,
    cmd: crate::proto::RespCmdView,
) -> ReplyView {
    ReplyView { to, resp: crate::proto::response(id, cmd) }
}

impl ServerView {
    /// The peer `id` was seen at `addr`.
    pub open spec fn seen(
        self,
        id: Seq<char>,
        addr: crate::addr::EndpointView,
        now: u64,
    ) -> ServerView {
        ServerView {
            clients: self.clients.insert(id, ClientView { addr, last_ping: now }),
            ..self
        }
    }

    /// A request came in from `from`: the server's new state, and what it sends.
    ///
    /// - A ping is answered, and its sender is known from then on.
    /// - A request for a connection is forwarded to its target, and its sender is known from then
    ///   on. If the target is not known, the sender is told so.
    /// - A peer that expects another one is made known to that one.
    /// - A peer that takes its leave is forgotten.
    pub open spec fn on_request(
        self,
        req: crate::proto::RequestView,
        from: crate::addr::EndpointView,
        now: u64,
    ) -> (ServerView, Option<ReplyView>) {
        match req.cmd {
            Some(crate::proto::ReqCmdView::Ping) => (
                self.seen(req.id, from, now),
                Some(reply(from.addr, req.id, crate::proto::RespCmdView::Pong)),
            ),
            Some(crate::proto::ReqCmdView::Isync { id: target }) => if self.clients.contains_key(
                target,
            ) {
                (
                    self.seen(req.id, from, now),
                    Some(
                        reply(
                            self.clients[target].addr.addr,
                            target,
                            crate::proto::RespCmdView::fsync(req.id, from.text),
                        ),
                    ),
                )
            } else {
                (
                    self,
                    Some(
                        reply(
                            from.addr,
                            req.id,
                            crate::proto::RespCmdView::Redirect { id: target, addr: Seq::empty() },
                        ),
                    ),
                )
            },
            Some(crate::proto::ReqCmdView::Rsync { id: target }) => if self.clients.contains_key(
                target,
            ) {
                (
                    self,
                    Some(
                        reply(
                            self.clients[target].addr.addr,
                            target,
                            crate::proto::RespCmdView::Redirect { id: req.id, addr: from.text },
                        ),
                    ),
                )
            } else {
                (self, None)
            },
            Some(crate::proto::ReqCmdView::Bye) => (
                ServerView { clients: self.clients.remove(req.id), ..self },
                None,
            ),
            _ => (self, None),
        }
    }

    /// The same for the bytes of a datagram: what is no request changes nothing.
    pub open spec fn on_datagram(
        self,
        buf: Seq<u8>,
        from: crate::addr::EndpointView,
        now: u64,
    ) -> (ServerView, Option<ReplyView>) {
        match crate::proto::parse_request(buf) {
            Some(req) => self.on_request(req, from, now),
            None => (self, None),
        }
    }

    /// The peers that gave a sign of life less than [`EXPIRY`] ago stay, the others go.
    pub open spec fn gc(self, now: u64) -> ServerView {
        ServerView {
            clients: self.clients.restrict(
                self.clients.dom().filter(|id: Seq<char>| alive(self.clients[id], now)),
            ),
            next_gc: now + EXPIRY,
        }
    }

    /// Looks for peers that are gone, if it is time to.
    pub open spec fn tick(self, now: u64) -> ServerView {
        if now > self.next_gc {
            self.gc(now)
        } else {
            self
        }
    }
}

/// The peer gave a sign of life less than [`EXPIRY`] ago.
pub open spec fn alive(c: ClientView, now: u64) -> bool {
    now - EXPIRY < c.last_ping
}

// ---------------------------------------------------------------------------------------------
// The server
// ---------------------------------------------------------------------------------------------

impl Server {
    /// A server that knows no peer yet.
    pub fn new(now: u64) -> (r: Server)
        ensures
            r@ == (ServerView { clients: Map::empty(), next_gc: now + EXPIRY }),
    {
        Server { clients: IdMap::new(), next_gc: Self::next_gc(now) }
    }

    /// One turn of the server: takes in what was received at `now`, if anything was, and says what
    /// to send. Then, at `later`, it looks for peers that are gone, if it is time to.
    pub fn run_step(
        &mut self,
        received: Option<(&[u8], Endpoint)>,
        now: u64,
        later: u64,
    ) -> (r: Option<Datagram>)
        ensures
            match received {
                Some((buf, from)) => {
                    &&& final(self)@ == old(self)@.on_datagram(buf@, from@, now).0.tick(later)
                    &&& match old(self)@.on_datagram(buf@, from@, now).1 {
                        Some(reply) => r matches Some(d) && d.to == reply.to && d.bytes@
                            == reply.resp.bytes(),
                        None => r is None,
                    }
                },
                None => final(self)@ == old(self)@.tick(later) && r is None,
            },
    {
        let r = match received {
            Some((buf, from)) => self.handle_datagram(buf, from, now),
            None => None,
        };
        self.tick(later);
        r
    }

    /// Takes in a datagram that came from `from`, and says what to send.
    pub fn handle_datagram(&mut self, buf: &[u8], from: Endpoint, now: u64) -> (r: Option<Datagram>)
        ensures
            final(self)@ == old(self)@.on_datagram(buf@, from@, now).0,
            match old(self)@.on_datagram(buf@, from@, now).1 {
                Some(reply) => r matches Some(d) && d.to == reply.to && d.bytes@
                    == reply.resp.bytes(),
                None => r is None,
            },
    {
        let req = match Request::parse_from_bytes(buf) {
            Ok(req) => req,
            Err(_) => {
                return None;
            },
        };
        match self.handle_request(req, from, now) {
            Some(reply) => Some(Datagram { to: reply.to, bytes: reply.resp.write_to_bytes() }),
            None => None,
        }
    }

    /// Takes in a request that came from `from`, and says what to answer, and to whom.
    pub fn handle_request(&mut self, req: Request, from: Endpoint, now: u64) -> (r: Option<Reply>)
        ensures
            final(self)@ == old(self)@.on_request(req@, from@, now).0,
            match r {
                Some(reply) => old(self)@.on_request(req@, from@, now).1 == Some(reply@),
                None => old(self)@.on_request(req@, from@, now).1 is None,
            },
    {
        match req.cmd {
            Some(ReqCmd::Ping(ping)) => Some(self.handle_ping(req.id, ping, from, now)),
            Some(ReqCmd::Isync(isync)) => Some(self.handle_isync(req.id, isync, from, now)),
            Some(ReqCmd::Rsync(rsync)) => self.handle_rsync(req.id, rsync, from),
            Some(ReqCmd::Bye(_)) => {
                self.handle_bye(req.id);
                None
            },
            _ => None,
        }
    }

    fn response(cmd: RespCmd, id: String, to: SocketAddr) -> (r: Reply)
        ensures
            r@ == reply(to, id@, cmd@),
    {
        Reply { to, resp: Response { id, cmd: Some(cmd) } }
    }

    fn handle_ping(&mut self, id: String, _ping: Ping, from: Endpoint, now: u64) -> (r: Reply)
        ensures
            final(self)@ == old(self)@.seen(id@, from@, now),
            r@ == reply(from@.addr, id@, crate::proto::RespCmdView::Pong),
    {
        let to = from.addr;
        self.clients.insert(id.clone(), Client { addr: from, last_ping: now });
        Self::response(RespCmd::Pong(Pong {  }), id, to)
    }

    fn handle_isync(&mut self, id: String, isync: Isync, from: Endpoint, now: u64) -> (r: Reply)
        ensures
            old(self)@.clients.contains_key(isync.id@) ==> final(self)@ == old(self)@.seen(
                id@,
                from@,
                now,
            ) && r@ == reply(
                old(self)@.clients[isync.id@].addr.addr,
                isync.id@,
                crate::proto::RespCmdView::fsync(id@, from@.text),
            ),
            !old(self)@.clients.contains_key(isync.id@) ==> final(self)@ == old(self)@ && r@
                == reply(
                from@.addr,
                id@,
                crate::proto::RespCmdView::Redirect { id: isync.id@, addr: Seq::empty() },
            ),
    {
        let target_id = isync.id;
        let target_addr = match self.clients.get(&target_id) {
            Some(t) => Some(t.addr.addr),
            None => None,
        };
        match target_addr {
            Some(to) => {
                let text = from.text.clone();
                self.clients.insert(id.clone(), Client { addr: from, last_ping: now });
                Self::response(RespCmd::Fsync(Fsync::new(id, text)), target_id, to)
            },
            None => {
                let rdr = Redirect { id: target_id, addr: String::new() };
                Self::response(RespCmd::Redirect(rdr), id, from.addr)
            },
        }
    }

    fn handle_rsync(&self, id: String, rsync: Rsync, from: Endpoint) -> (r: Option<Reply>)
        ensures
            match r {
                Some(reply) => self@.clients.contains_key(rsync.id@) && reply@ == self::reply(
                    self@.clients[rsync.id@].addr.addr,
                    rsync.id@,
                    crate::proto::RespCmdView::Redirect { id: id@, addr: from@.text },
                ),
                None => !self@.clients.contains_key(rsync.id@),
            },
    {
        let target_id = rsync.id;
        match self.clients.get(&target_id) {
            Some(c) => {
                let rdr = Redirect { id, addr: from.text };
                let to = c.addr.addr;
                Some(Self::response(RespCmd::Redirect(rdr), target_id, to))
            },
            None => None,
        }
    }

    fn handle_bye(&mut self, id: String)
        ensures
            final(self)@ == (ServerView {
                clients: old(self)@.clients.remove(id@),
                ..old(self)@
            }),
    {
        self.clients.remove(&id);
    }

    fn next_gc(now: u64) -> (r: u128)
        ensures
            r == now + EXPIRY,
    {
        now as u128 + EXPIRY as u128
    }

    /// Looks for peers that are gone, if it is time to.
    pub fn tick(&mut self, now: u64)
        ensures
            final(self)@ == old(self)@.tick(now),
    {
        if now as u128 > self.next_gc {
            self.gc(now);
        }
    }

    fn gc(&mut self, now: u64)
        ensures
            final(self)@ == old(self)@.gc(now),
    {
        let ghost before = self@.clients;
        let mut kept: IdMap<Client> = IdMap::new();
        loop
            invariant
                forall|id: Seq<char>|
                    #![trigger before.contains_key(id)]
                    #![trigger kept@.contains_key(id)]
                    #![trigger self.clients@.contains_key(id)]
                    {
                        &&& kept@.contains_key(id) || self.clients@.contains_key(id)
                            ==> before.contains_key(id)
                        &&& before.contains_key(id) && !self.clients@.contains_key(id) ==> (
                        kept@.contains_key(id) <==> alive(before[id], now))
                        &&& kept@.contains_key(id) ==> !self.clients@.contains_key(id) && kept@[id]
                            == before[id]
                        &&& self.clients@.contains_key(id) ==> self.clients@[id] == before[id]
                    },
            ensures
                self.clients@ == Map::<Seq<char>, ClientView>::empty(),
            decreases self.clients.size(),
        {
            match self.clients.pop() {
                Some((id, c)) => {
                    if (now as u128) < c.last_ping as u128 + EXPIRY as u128 {
                        kept.insert(id, c);
                    }
                },
                None => {
                    break ;
                },
            }
        }
        assert(kept@ =~= before.restrict(
            before.dom().filter(|id: Seq<char>| alive(before[id], now)),
        ));
        self.clients = kept;
        self.next_gc = Self::next_gc(now);
    }
}

// ---------------------------------------------------------------------------------------------
// Laws
// ---------------------------------------------------------------------------------------------

/// Who pings is known from then on, with the address that it was seen at, and is answered there.
pub proof fn law_ping_registers(
    s: ServerView,
    id: Seq<char>,
    from: crate::addr::EndpointView,
    now: u64,
)
    ensures
        ({
            let (after, r) = s.on_request(
                crate::proto::request(id, crate::proto::ReqCmdView::Ping),
                from,
                now,
            );
            &&& after.clients.contains_key(id)
            &&& after.clients[id] == (ClientView { addr: from, last_ping: now })
            &&& r == Some(reply(from.addr, id, crate::proto::RespCmdView::Pong))
        }),
{
}

/// A request changes nothing but what is known of its sender.
pub proof fn law_others_untouched(
    s: ServerView,
    req: crate::proto::RequestView,
    from: crate::addr::EndpointView,
    now: u64,
    other: Seq<char>,
)
    requires
        other != req.id,
    ensures
        s.on_request(req, from, now).0.clients.contains_key(other) <==> s.clients.contains_key(
            other,
        ),
        s.on_request(req, from, now).0.clients[other] == s.clients[other],
        s.on_request(req, from, now).0.next_gc == s.next_gc,
{
}

/// Who asks for a connection is told nothing by the server itself, unless the target is not known:
/// then it is told so, and nobody else is told anything.
pub proof fn law_isync_answered(
    s: ServerView,
    id: Seq<char>,
    target: Seq<char>,
    from: crate::addr::EndpointView,
    now: u64,
)
    ensures
        ({
            let (after, r) = s.on_request(
                crate::proto::request(id, crate::proto::ReqCmdView::Isync { id: target }),
                from,
                now,
            );
            &&& s.clients.contains_key(target) ==> r == Some(
                reply(
                    s.clients[target].addr.addr,
                    target,
                    crate::proto::RespCmdView::fsync(id, from.text),
                ),
            ) && after.clients.contains_key(id) && after.clients[id].addr == from
            &&& !s.clients.contains_key(target) ==> r == Some(
                reply(
                    from.addr,
                    id,
                    crate::proto::RespCmdView::Redirect { id: target, addr: Seq::empty() },
                ),
            ) && after == s
        }),
{
}

/// A peer that took its leave is not known any more: who asks for it is told so.
pub proof fn law_bye_forgets(
    s: ServerView,
    id: Seq<char>,
    from: crate::addr::EndpointView,
    asker: Seq<char>,
    asked_from: crate::addr::EndpointView,
    t1: u64,
    t2: u64,
)
    ensures
        ({
            let after = s.on_request(
                crate::proto::request(id, crate::proto::ReqCmdView::Bye),
                from,
                t1,
            ).0;
            &&& !after.clients.contains_key(id)
            &&& after.on_request(
                crate::proto::request(asker, crate::proto::ReqCmdView::Isync { id }),
                asked_from,
                t2,
            ) == (
                after,
                Some(
                    reply(
                        asked_from.addr,
                        asker,
                        crate::proto::RespCmdView::Redirect { id, addr: Seq::empty() },
                    ),
                ),
            )
        }),
{
}

/// Looking for peers that are gone forgets those that gave no sign of life for [`EXPIRY`], and
/// changes nothing of the others.
pub proof fn law_gc(s: ServerView, now: u64, id: Seq<char>)
    ensures
        s.gc(now).clients.contains_key(id) <==> s.clients.contains_key(id) && now
            - s.clients[id].last_ping < EXPIRY,
        s.gc(now).clients.contains_key(id) ==> s.gc(now).clients[id] == s.clients[id],
{
}

/// To take one's leave twice is to take it once, whatever the second time is.
pub proof fn law_bye_twice(
    s: ServerView,
    id: Seq<char>,
    from: crate::addr::EndpointView,
    again: crate::addr::EndpointView,
    t1: u64,
    t2: u64,
)
    ensures
        ({
            let bye = crate::proto::request(id, crate::proto::ReqCmdView::Bye);
            let after = s.on_request(bye, from, t1).0;
            after.on_request(bye, again, t2) == (after, None::<ReplyView>)
        }),
{
    let after = s.clients.remove(id);
    assert(after.remove(id) =~= after);
}

/// A peer that was not known, pings and takes its leave leaves nothing behind.
pub proof fn law_ping_then_bye(
    s: ServerView,
    id: Seq<char>,
    from: crate::addr::EndpointView,
    again: crate::addr::EndpointView,
    t1: u64,
    t2: u64,
)
    requires
        !s.clients.contains_key(id),
    ensures
        ({
            let ping = crate::proto::request(id, crate::proto::ReqCmdView::Ping);
            let bye = crate::proto::request(id, crate::proto::ReqCmdView::Bye);
            s.on_request(ping, from, t1).0.on_request(bye, again, t2) == (s, None::<ReplyView>)
        }),
{
    let c = ClientView { addr: from, last_ping: t1 };
    assert(s.clients.insert(id, c).remove(id) =~= s.clients);
}

/// What one turn of the server is about: the bytes that were received and from where, if any were,
/// and the times of [`Server::run_step`].
pub struct Turn {
    pub received: Option<(Seq<u8>, crate::addr::EndpointView)>,
    pub now: u64,
    pub later: u64,
}

impl Turn {
    /// A request was received.
    pub open spec fn is_request(self) -> bool {
        self.received matches Some((buf, _)) && crate::proto::parse_request(buf) is Some
    }
}

impl ServerView {
    /// The server once it has taken in what was received, and what it sends.
    pub open spec fn on_received(self, turn: Turn) -> (ServerView, Option<ReplyView>) {
        match turn.received {
            Some((buf, from)) => self.on_datagram(buf, from, turn.now),
            None => (self, None),
        }
    }

    /// The server after these turns.
    pub open spec fn after_turns(self, turns: Seq<Turn>) -> ServerView
        decreases turns.len(),
    {
        if turns.len() == 0 {
            self
        } else {
            let before = self.after_turns(turns.drop_last());
            before.on_received(turns.last()).0.tick(turns.last().later)
        }
    }

    /// The server after it only looked for peers that are gone, at the times of these turns.
    pub open spec fn after_ticks(self, turns: Seq<Turn>) -> ServerView
        decreases turns.len(),
    {
        if turns.len() == 0 {
            self
        } else {
            self.after_ticks(turns.drop_last()).tick(turns.last().later)
        }
    }
}

/// In whatever turns the server has taken: a turn without a request sends nothing and changes no
/// more than a look for peers that are gone, and that look comes exactly when it is time to.
pub proof fn law_turn(s: ServerView, turns: Seq<Turn>, turn: Turn)
    ensures
        ({
            let before = s.after_turns(turns);
            let (taken_in, sent) = before.on_received(turn);
            let after = s.after_turns(turns.push(turn));
            &&& !turn.is_request() ==> taken_in == before && sent is None
            &&& turn.later > before.next_gc ==> after == taken_in.gc(turn.later)
            &&& turn.later <= before.next_gc ==> after == taken_in
        }),
{
    assert(turns.push(turn).drop_last() =~= turns);
}

/// Over any turns without a request the server does nothing but look for peers that are gone.
pub proof fn law_turns_without_requests(s: ServerView, turns: Seq<Turn>)
    requires
        forall|k: int| 0 <= k < turns.len() ==> !(#[trigger] turns[k]).is_request(),
    ensures
        s.after_turns(turns) == s.after_ticks(turns),
    decreases turns.len(),
{
    if turns.len() > 0 {
        let less = turns.drop_last();
        assert forall|k: int| 0 <= k < less.len() implies !(#[trigger] less[k]).is_request() by {
            assert(less[k] == turns[k]);
        }
        law_turns_without_requests(s, less);
        assert(!turns[turns.len() - 1].is_request());
    }
}

/// Over turns without a request, before it is time to look for peers that are gone, nothing
/// changes.
pub proof fn law_quiet_turns(s: ServerView, turns: Seq<Turn>)
    requires
        forall|k: int|
            0 <= k < turns.len() ==> !(#[trigger] turns[k]).is_request() && turns[k].later
                <= s.next_gc,
    ensures
        s.after_turns(turns) == s,
    decreases turns.len(),
{
    if turns.len() > 0 {
        let less = turns.drop_last();
        assert forall|k: int| 0 <= k < less.len() implies !(#[trigger] less[k]).is_request()
            && less[k].later <= s.next_gc by {
            assert(less[k] == turns[k]);
        }
        law_quiet_turns(s, less);
        assert(!turns[turns.len() - 1].is_request());
    }
}

} // verus!
