//! UDP client for a rendezvous service.
//!
//! Use [`Listener`] to wait for peers and [`Connector`] to turn to one. Neither owns a socket:
//! they say what to send and to whom, and take in what was received.
use crate::addr::SocketAddr;
use crate::error::Failure;
use crate::proto::{Bye, Isync, Ping, ReqCmd, RespCmd, Response};
use crate::time::{MILLISECOND, SECOND};
use crate::udp::util::{
    cmd_message, no_failures, none_left, poll_targets, random_below, rsync_message, Dialer,
};
use vstd::prelude::*;

verus! {

/// How long one round of requests waits for an answer.
pub const ROUND_TIMEOUT: u64 = 5 * SECOND;

/// How many rounds of requests there are at most.
pub const ROUNDS: u8 = 3;

/// How long to wait for any server to have something to read, before looking at the clock again.
pub const POLL_TIMEOUT: u64 = 100 * MILLISECOND;

/// How long after a ping the next one is due.
pub const KEEPALIVE: u64 = 10 * SECOND;

/// A ping is counted as this many milliseconds later than it was sent, less one, at most.
pub const VARIATION_MILLIS: u64 = 5_000;

// ---------------------------------------------------------------------------------------------
// Configuration
// ---------------------------------------------------------------------------------------------

/// What connector and listener are told to begin with.
#[derive(Debug, PartialEq, Eq)]
pub struct CommonConfig {
    pub id: String,
    pub local_addr: Option<SocketAddr>,
    pub server_addrs: Vec<String>,
}

#[verifier::ext_equal]
pub struct ConfigView {
    pub id: Seq<char>,
    pub local_addr: Option<SocketAddr>,
    pub server_addrs: Seq<Seq<char>>,
}

impl View for CommonConfig {
    type V = ConfigView;

    open spec fn view(&self) -> ConfigView {
        ConfigView {
            id: self.id@,
            local_addr: self.local_addr,
            server_addrs: self.server_addrs@.map_values(|s: String| s@),
        }
    }
}

impl ConfigView {
    /// How the servers are reached, before any of them is.
    pub open spec fn dialer(self) -> Dialer {
        Dialer { initial: self.local_addr, local: None }
    }
}

impl CommonConfig {
    /// There has to be a server.
    pub fn new(server_addrs: &[&str], id: &str, local_addr: Option<SocketAddr>) -> (r: Result<
        CommonConfig,
        Failure,
    >)
        ensures
            match r {
                Ok(cfg) => server_addrs@.len() > 0 && cfg@ == (ConfigView {
                    id: id@,
                    local_addr,
                    server_addrs: server_addrs@.map_values(|s: &str| s@),
                }),
                Err(e) => server_addrs@.len() == 0 && e == Failure::NoServers,
            },
    {
        if server_addrs.len() == 0 {
            return Err(Failure::NoServers);
        }
        let mut names: Vec<String> = Vec::new();
        let mut i: usize = 0;
        while i < server_addrs.len()
            invariant
                i <= server_addrs.len(),
                names@.len() == i,
                forall|j: int| 0 <= j < i ==> #[trigger] names@[j]@ == server_addrs@[j]@,
            decreases server_addrs.len() - i,
        {
            names.push(server_addrs[i].to_owned());
            i += 1;
        }
        let cfg = CommonConfig { id: id.to_owned(), local_addr, server_addrs: names };
        assert(cfg@.server_addrs =~= server_addrs@.map_values(|s: &str| s@));
        Ok(cfg)
    }
}

// ---------------------------------------------------------------------------------------------
// Connector
// ---------------------------------------------------------------------------------------------

/// A client that can connect to a specific peer.
pub struct Connector {
    pub cfg: CommonConfig,
}

impl View for Connector {
    type V = ConfigView;

    open spec fn view(&self) -> ConfigView {
        self.cfg@
    }
}

/// Why no connection came about: what the operating system reported last, or what the servers
/// did.
#[derive(Debug, PartialEq, Eq)]
pub enum SyncError<E> {
    Io(E),
    Protocol(Failure),
}

/// Where in its rounds a connection attempt is.
#[derive(Clone, Copy, Debug, PartialEq, Eq, Structural)]
pub enum Phase {
    /// Before a round.
    Between,
    /// The requests of a round are being sent.
    Sending,
    /// They were sent at this time, and an answer is waited for.
    Waiting(u64),
}

/// A connection attempt under way.
pub struct Connecting<E> {
    id: String,
    request: Vec<u8>,
    failed: Vec<bool>,
    rounds: u8,
    phase: Phase,
    last_error: Option<SyncError<E>>,
}

#[verifier::ext_equal]
pub struct ConnectingView<E> {
    /// Who wants to connect.
    pub id: Seq<char>,
    /// What is sent to the servers.
    pub request: Seq<u8>,
    /// Which servers cannot be reached or do not know the target.
    pub failed: Seq<bool>,
    /// How many rounds have begun.
    pub rounds: nat,
    pub phase: Phase,
    pub last_error: Option<SyncError<E>>,
}

impl<E> View for Connecting<E> {
    type V = ConnectingView<E>;

    closed spec fn view(&self) -> ConnectingView<E> {
        ConnectingView {
            id: self.id@,
            request: self.request@,
            failed: self.failed@,
            rounds: self.rounds as nat,
            phase: self.phase,
            last_error: self.last_error,
        }
    }
}

/// What a connection attempt wants done next.
#[derive(Debug, PartialEq, Eq)]
pub enum ConnectAction<E> {
    /// Send the request to these servers, then ask again.
    Send(Vec<usize>),
    /// Wait for these servers, for [`POLL_TIMEOUT`] at most, take in what they sent, then ask
    /// again.
    Wait(Vec<usize>),
    /// Stop: there is no connection.
    GiveUp(SyncError<E>),
}

#[verifier::ext_equal]
pub enum ConnectActionView<E> {
    Send(Seq<usize>),
    Wait(Seq<usize>),
    GiveUp(SyncError<E>),
}

impl<E> View for ConnectAction<E> {
    type V = ConnectActionView<E>;

    open spec fn view(&self) -> ConnectActionView<E> {
        match *self {
            ConnectAction::Send(to) => ConnectActionView::Send(to@),
            ConnectAction::Wait(on) => ConnectActionView::Wait(on@),
            ConnectAction::GiveUp(e) => ConnectActionView::GiveUp(e),
        }
    }
}

impl<E> ConnectingView<E> {
    /// The attempt of `id` to reach `target` over `n` servers, before its first round.
    pub open spec fn start(id: Seq<char>, target: Seq<char>, n: nat) -> ConnectingView<E> {
        ConnectingView {
            id,
            request: crate::proto::request(
                id,
                crate::proto::ReqCmdView::Isync { id: target },
            ).bytes(),
            failed: Seq::new(n, |i: int| false),
            rounds: 0,
            phase: Phase::Between,
            last_error: None,
        }
    }

    /// When the requests of the current round went out, if they did.
    pub open spec fn round_start(self, now: u64) -> Option<u64> {
        match self.phase {
            Phase::Between => None,
            Phase::Sending => Some(now),
            Phase::Waiting(t) => Some(t),
        }
    }

    /// Whether an answer to the current round may still come.
    pub open spec fn in_round(self, now: u64) -> bool {
        match self.round_start(now) {
            Some(t) => crate::time::elapsed(t as int, now as int) < ROUND_TIMEOUT,
            None => false,
        }
    }

    /// What is done next: wait while the round lasts, else begin another one while there are any
    /// left. It ends as well once every server has failed.
    pub open spec fn next(self, now: u64) -> (ConnectingView<E>, ConnectActionView<E>) {
        let to = crate::udp::util::targets(self.failed);
        let hopeless = crate::udp::util::all_failed(self.failed);
        if self.in_round(now) && !hopeless {
            (
                ConnectingView { phase: Phase::Waiting(self.round_start(now).unwrap()), ..self },
                ConnectActionView::Wait(to),
            )
        } else if self.rounds < ROUNDS && !hopeless {
            (
                ConnectingView { rounds: self.rounds + 1, phase: Phase::Sending, ..self },
                ConnectActionView::Send(to),
            )
        } else {
            (
                ConnectingView { phase: Phase::Between, last_error: None, ..self },
                ConnectActionView::GiveUp(
                    match self.last_error {
                        Some(e) => e,
                        None => SyncError::Protocol(Failure::NoResponse),
                    },
                ),
            )
        }
    }

    /// What server `i` sent: where it tells the address of the target, that is what the attempt
    /// was for; where it knows none, the server has failed.
    pub open spec fn received(self, i: int, buf: Seq<u8>) -> (
        ConnectingView<E>,
        Option<Seq<char>>,
    ) {
        match crate::proto::parse_response(buf) {
            Some(resp) => if resp.id != self.id {
                (self, None)
            } else {
                match resp.cmd {
                    Some(crate::proto::RespCmdView::Redirect { addr, .. }) => if addr.len() > 0 {
                        (self, Some(addr))
                    } else {
                        (
                            ConnectingView {
                                failed: self.failed.update(i, true),
                                last_error: Some(SyncError::Protocol(Failure::TargetNotFound)),
                                ..self
                            },
                            None,
                        )
                    },
                    _ => (self, None),
                }
            },
            None => (self, None),
        }
    }

    /// Server `i` cannot be reached.
    pub open spec fn unreachable(self, i: int, e: SyncError<E>) -> ConnectingView<E> {
        ConnectingView { failed: self.failed.update(i, true), last_error: Some(e), ..self }
    }

    /// Reading from a server failed.
    pub open spec fn recv_failed(self, e: E) -> ConnectingView<E> {
        ConnectingView { last_error: Some(SyncError::Io(e)), ..self }
    }

    /// Waiting failed: the round is over.
    pub open spec fn poll_failed(self, e: E) -> ConnectingView<E> {
        ConnectingView { phase: Phase::Between, last_error: Some(SyncError::Io(e)), ..self }
    }
}

impl Connector {
    /// Create a new connector to initiate a connection to a peer.
    ///
    /// If no local address is given, one is chosen according to the server's address family.
    pub fn new(server_addrs: &[&str], id: &str, local_addr: Option<SocketAddr>) -> (r: Result<
        Connector,
        Failure,
    >)
        ensures
            match r {
                Ok(c) => server_addrs@.len() > 0 && c@ == (ConfigView {
                    id: id@,
                    local_addr,
                    server_addrs: server_addrs@.map_values(|s: &str| s@),
                }),
                Err(e) => server_addrs@.len() == 0 && e == Failure::NoServers,
            },
    {
        match CommonConfig::new(server_addrs, id, local_addr) {
            Ok(cfg) => Ok(Connector { cfg }),
            Err(e) => Err(e),
        }
    }

    /// How to reach the servers.
    pub fn dialer(&self) -> (r: Dialer)
        ensures
            r == self@.dialer(),
    {
        Dialer::new(self.cfg.local_addr)
    }

    /// Begin to ask the servers for a connection to the target peer.
    ///
    /// Each server is tried until a connection is established. All that can be reached are asked
    /// at once; the first one that tells an address decides.
    pub fn connect<E>(&self, target_id: &str) -> (r: Connecting<E>)
        ensures
            r@ == ConnectingView::<E>::start(self@.id, target_id@, self@.server_addrs.len()),
    {
        let request = cmd_message(
            self.cfg.id.as_str(),
            ReqCmd::Isync(Isync { id: target_id.to_owned() }),
        );
        Connecting {
            id: self.cfg.id.clone(),
            request,
            failed: no_failures(self.cfg.server_addrs.len()),
            rounds: 0,
            phase: Phase::Between,
            last_error: None,
        }
    }
}

impl<E> Connecting<E> {
    /// What to send to the servers.
    pub fn request(&self) -> (r: &[u8])
        ensures
            r@ == self@.request,
    {
        self.request.as_slice()
    }

    /// Which servers cannot be reached or do not know the target.
    pub fn failed(&self) -> (r: &[bool])
        ensures
            r@ == self@.failed,
    {
        self.failed.as_slice()
    }

    /// Decides what to do next.
    pub fn next(&mut self, now: u64) -> (r: ConnectAction<E>)
        ensures
            (final(self)@, r@) == old(self)@.next(now),
    {
        let hopeless = none_left(&self.failed);
        let start = match self.phase {
            Phase::Between => None,
            Phase::Sending => Some(now),
            Phase::Waiting(t) => Some(t),
        };
        if let Some(t) = start {
            if (t > now || now - t < ROUND_TIMEOUT) && !hopeless {
                self.phase = Phase::Waiting(t);
                return ConnectAction::Wait(poll_targets(self.failed.as_slice()));
            }
        }
        if self.rounds < ROUNDS && !hopeless {
            self.rounds = self.rounds + 1;
            self.phase = Phase::Sending;
            return ConnectAction::Send(poll_targets(self.failed.as_slice()));
        }
        self.phase = Phase::Between;
        match self.last_error.take() {
            Some(e) => ConnectAction::GiveUp(e),
            None => ConnectAction::GiveUp(SyncError::Protocol(Failure::NoResponse)),
        }
    }

    /// Takes in what server `i` sent. The result is where the target is, as the server tells it:
    /// the socket of that server is then to be bound once more and connected there. A text that is
    /// no address is as good as no answer.
    pub fn received(&mut self, i: usize, buf: &[u8]) -> (r: Option<String>)
        requires
            i < old(self)@.failed.len(),
        ensures
            final(self)@ == old(self)@.received(i as int, buf@).0,
            match r {
                Some(addr) => old(self)@.received(i as int, buf@).1 == Some(addr@),
                None => old(self)@.received(i as int, buf@).1 is None,
            },
    {
        let resp = match Response::parse_from_bytes(buf) {
            Ok(resp) => resp,
            Err(_) => {
                return None;
            },
        };
        if resp.id != self.id {
            return None;
        }
        match resp.cmd {
            Some(RespCmd::Redirect(rdr)) => {
                if !rdr.addr.as_str().is_empty() {
                    Some(rdr.addr)
                } else {
                    self.last_error = Some(SyncError::Protocol(Failure::TargetNotFound));
                    self.failed.set(i, true);
                    None
                }
            },
            _ => None,
        }
    }

    /// Server `i` cannot be reached: its name stands for no address, or there is no way there. The
    /// others are tried.
    pub fn unreachable(&mut self, i: usize, e: SyncError<E>)
        requires
            i < old(self)@.failed.len(),
        ensures
            final(self)@ == old(self)@.unreachable(i as int, e),
    {
        self.last_error = Some(e);
        self.failed.set(i, true);
    }

    /// Reading from a server failed.
    pub fn recv_failed(&mut self, e: E)
        ensures
            final(self)@ == old(self)@.recv_failed(e),
    {
        self.last_error = Some(SyncError::Io(e));
    }

    /// Waiting for the servers failed.
    pub fn poll_failed(&mut self, e: E)
        ensures
            final(self)@ == old(self)@.poll_failed(e),
    {
        self.last_error = Some(SyncError::Io(e));
        self.phase = Phase::Between;
    }
}

// ---------------------------------------------------------------------------------------------
// Listener
// ---------------------------------------------------------------------------------------------

/// A client that listens for incoming connections from peers.
pub struct Listener {
    cfg: CommonConfig,
    last_pong: Vec<Option<u64>>,
}

#[verifier::ext_equal]
pub struct ListenerView {
    pub cfg: ConfigView,
    /// When each server last answered.
    pub last_pong: Seq<Option<u64>>,
}

impl View for Listener {
    type V = ListenerView;

    closed spec fn view(&self) -> ListenerView {
        ListenerView { cfg: self.cfg@, last_pong: self.last_pong@ }
    }
}

impl ListenerView {
    /// The listener uses the address `bound`, and will.
    pub open spec fn listening(self, bound: SocketAddr) -> ListenerView {
        ListenerView { cfg: ConfigView { local_addr: Some(bound), ..self.cfg }, ..self }
    }

    /// What is sent to the servers when the listener goes away.
    pub open spec fn bye(self) -> Seq<u8> {
        crate::proto::request(self.cfg.id, crate::proto::ReqCmdView::Bye).bytes()
    }

    /// Server `i` answered a ping.
    pub open spec fn pong(self, i: int, now: u64) -> ListenerView {
        ListenerView { last_pong: self.last_pong.update(i, Some(now)), ..self }
    }
}

impl Listener {
    /// Create a new listener to accept connections from peers.
    ///
    /// If no local address is given, one is chosen according to the server's address family.
    pub fn new(server_addrs: &[&str], id: &str, local_addr: Option<SocketAddr>) -> (r: Result<
        Listener,
        Failure,
    >)
        ensures
            match r {
                Ok(l) => server_addrs@.len() > 0 && l@ == (ListenerView {
                    cfg: ConfigView {
                        id: id@,
                        local_addr,
                        server_addrs: server_addrs@.map_values(|s: &str| s@),
                    },
                    last_pong: Seq::new(server_addrs@.len(), |i: int| None::<u64>),
                }),
                Err(e) => server_addrs@.len() == 0 && e == Failure::NoServers,
            },
    {
        let cfg = match CommonConfig::new(server_addrs, id, local_addr) {
            Ok(cfg) => cfg,
            Err(e) => {
                return Err(e);
            },
        };
        let mut last_pong: Vec<Option<u64>> = Vec::new();
        while last_pong.len() < server_addrs.len()
            invariant
                last_pong@.len() <= server_addrs@.len(),
                forall|i: int| 0 <= i < last_pong@.len() ==> last_pong@[i] is None,
            decreases server_addrs@.len() - last_pong@.len(),
        {
            last_pong.push(None);
        }
        assert(last_pong@ =~= Seq::new(server_addrs@.len(), |i: int| None::<u64>));
        Ok(Listener { cfg, last_pong })
    }

    /// What the listener was told, and which address it is bound to by now.
    pub fn config(&self) -> (r: &CommonConfig)
        ensures
            r@ == self@.cfg,
    {
        &self.cfg
    }

    /// How to reach the servers.
    pub fn dialer(&self) -> (r: Dialer)
        ensures
            r == self@.cfg.dialer(),
    {
        Dialer::new(self.cfg.local_addr)
    }

    /// When each server last answered a ping.
    pub fn last_pong(&self) -> (r: Vec<Option<u64>>)
        ensures
            r@ == self@.last_pong,
    {
        let mut r: Vec<Option<u64>> = Vec::new();
        let mut i: usize = 0;
        while i < self.last_pong.len()
            invariant
                i <= self.last_pong@.len(),
                r@ == self.last_pong@.take(i as int),
            decreases self.last_pong@.len() - i,
        {
            r.push(self.last_pong[i]);
            i += 1;
        }
        assert(r@ =~= self.last_pong@);
        r
    }

    /// Begin to ping the servers and to wait for what they forward.
    ///
    /// `bound` is the address from which the servers are reached. The socket for the peers is
    /// bound to it too, and so is every socket of a later call.
    pub fn listen(&mut self, bound: SocketAddr) -> (r: Keepalive)
        ensures
            final(self)@ == old(self)@.listening(bound),
            r@ == KeepaliveView::start(old(self)@.cfg.id, old(self)@.cfg.server_addrs.len()),
    {
        self.cfg.local_addr = Some(bound);
        let n: usize = self.cfg.server_addrs.len();
        let ping = cmd_message(self.cfg.id.as_str(), ReqCmd::Ping(Ping {  }));
        let mut ping_times: Vec<Option<u128>> = Vec::new();
        while ping_times.len() < n
            invariant
                ping_times@.len() <= n,
                forall|i: int| 0 <= i < ping_times@.len() ==> ping_times@[i] is None,
            decreases n - ping_times@.len(),
        {
            ping_times.push(None);
        }
        assert(ping_times@ =~= Seq::new(n as nat, |i: int| None::<u128>));
        Keepalive { id: self.cfg.id.clone(), ping, ping_times, failed: no_failures(n) }
    }

    /// Server `i` answered a ping.
    pub fn pong(&mut self, i: usize, now: u64)
        requires
            i < old(self)@.last_pong.len(),
        ensures
            final(self)@ == old(self)@.pong(i as int, now),
    {
        self.last_pong.set(i, Some(now));
    }

    /// What to send to the servers when the listener goes away.
    pub fn bye(&self) -> (r: Vec<u8>)
        ensures
            r@ == self@.bye(),
    {
        cmd_message(self.cfg.id.as_str(), ReqCmd::Bye(Bye {  }))
    }
}

/// What keeps a listener known to its servers and answers what they forward.
pub struct Keepalive {
    id: String,
    ping: Vec<u8>,
    ping_times: Vec<Option<u128>>,
    failed: Vec<bool>,
}

#[verifier::ext_equal]
pub struct KeepaliveView {
    pub id: Seq<char>,
    /// What is sent to the servers as a ping.
    pub ping: Seq<u8>,
    /// When the last ping to each server counts as sent.
    pub ping_times: Seq<Option<u128>>,
    /// Which servers nothing can be read from.
    pub failed: Seq<bool>,
}

impl View for Keepalive {
    type V = KeepaliveView;

    closed spec fn view(&self) -> KeepaliveView {
        KeepaliveView {
            id: self.id@,
            ping: self.ping@,
            ping_times: self.ping_times@,
            failed: self.failed@,
        }
    }
}

/// A ping is due: there was none yet, or the last one is too long ago.
pub open spec fn ping_due(last: Option<u128>, now: u64) -> bool {
    match last {
        Some(t) => crate::time::elapsed(t as int, now as int) > KEEPALIVE,
        None => true,
    }
}

impl KeepaliveView {
    pub open spec fn start(id: Seq<char>, n: nat) -> KeepaliveView {
        KeepaliveView {
            id,
            ping: crate::proto::request(id, crate::proto::ReqCmdView::Ping).bytes(),
            ping_times: Seq::new(n, |i: int| None::<u128>),
            failed: Seq::new(n, |i: int| false),
        }
    }

    /// A ping went out to server `i` that counts as sent `millis` later than `now`.
    pub open spec fn pinged(self, i: int, now: u64, millis: u64) -> KeepaliveView {
        KeepaliveView {
            ping_times: self.ping_times.update(i, Some((now + millis * MILLISECOND) as u128)),
            ..self
        }
    }

    /// Reading from server `i` failed. That there was nothing to read is no failure.
    pub open spec fn recv_failed(self, i: int, would_block: bool) -> KeepaliveView {
        if would_block {
            self
        } else {
            KeepaliveView { failed: self.failed.update(i, true), ..self }
        }
    }

    /// What is owed for what a server sent.
    pub open spec fn reaction(self, buf: Seq<u8>) -> ReactionView {
        match crate::proto::parse_response(buf) {
            Some(resp) => if resp.id != self.id {
                ReactionView::Nothing
            } else {
                match resp.cmd {
                    Some(crate::proto::RespCmdView::Pong) => ReactionView::Pong,
                    Some(crate::proto::RespCmdView::Fsync { id, addr, .. }) => ReactionView::Fsync {
                        rsync: crate::proto::request(
                            self.id,
                            crate::proto::ReqCmdView::Rsync { id },
                        ).bytes(),
                        peer: addr,
                    },
                    _ => ReactionView::Nothing,
                }
            },
            None => ReactionView::Nothing,
        }
    }
}

/// What is owed for what a server sent.
#[derive(Debug, PartialEq, Eq)]
pub enum Reaction {
    Nothing,
    /// Remember that the server answered.
    Pong,
    /// Send `rsync` to whom [`crate::udp::util::rsync_targets`] says: to the server, and to `peer`
    /// where that is an address.
    Fsync { rsync: Vec<u8>, peer: String },
}

#[verifier::ext_equal]
pub enum ReactionView {
    Nothing,
    Pong,
    Fsync { rsync: Seq<u8>, peer: Seq<char> },
}

impl View for Reaction {
    type V = ReactionView;

    open spec fn view(&self) -> ReactionView {
        match *self {
            Reaction::Nothing => ReactionView::Nothing,
            Reaction::Pong => ReactionView::Pong,
            Reaction::Fsync { rsync, peer } => ReactionView::Fsync { rsync: rsync@, peer: peer@ },
        }
    }
}

impl Keepalive {
    /// What to send as a ping.
    pub fn ping(&self) -> (r: &[u8])
        ensures
            r@ == self@.ping,
    {
        self.ping.as_slice()
    }

    /// Which servers nothing can be read from.
    pub fn failed(&self) -> (r: &[bool])
        ensures
            r@ == self@.failed,
    {
        self.failed.as_slice()
    }

    /// Whether a ping to server `i` is due.
    pub fn ping_due(&self, i: usize, now: u64) -> (r: bool)
        requires
            i < self@.ping_times.len(),
        ensures
            r == ping_due(self@.ping_times[i as int], now),
    {
        match self.ping_times[i] {
            Some(t) => t < now as u128 && now as u128 - t > KEEPALIVE as u128,
            None => true,
        }
    }

    /// A ping went out to server `i`. When it counts as sent is varied by chance, so that the
    /// servers are not all pinged at once.
    pub fn pinged(&mut self, i: usize, now: u64)
        requires
            i < old(self)@.ping_times.len(),
        ensures
            exists|millis: u64|
                millis < VARIATION_MILLIS && final(self)@ == #[trigger] old(self)@.pinged(
                    i as int,
                    now,
                    millis,
                ),
    {
        let millis: u64 = random_below(VARIATION_MILLIS);
        self.pinged_with(i, now, millis);
    }

    /// The same with a given variation.
    pub fn pinged_with(&mut self, i: usize, now: u64, millis: u64)
        requires
            i < old(self)@.ping_times.len(),
        ensures
            final(self)@ == old(self)@.pinged(i as int, now, millis),
    {
        let t: u128 = now as u128 + millis as u128 * MILLISECOND as u128;
        self.ping_times.set(i, Some(t));
    }

    /// Decides what to do about what a server sent.
    pub fn received(&self, buf: &[u8]) -> (r: Reaction)
        ensures
            r@ == self@.reaction(buf@),
    {
        let resp = match Response::parse_from_bytes(buf) {
            Ok(resp) => resp,
            Err(_) => {
                return Reaction::Nothing;
            },
        };
        if resp.id != self.id {
            return Reaction::Nothing;
        }
        match resp.cmd {
            Some(RespCmd::Pong(_)) => Reaction::Pong,
            Some(RespCmd::Fsync(fsync)) => Reaction::Fsync {
                rsync: rsync_message(self.id.as_str(), fsync.id.as_str()),
                peer: fsync.addr,
            },
            _ => Reaction::Nothing,
        }
    }

    /// Reading from server `i` failed. That there was nothing to read is no failure.
    pub fn recv_failed(&mut self, i: usize, would_block: bool)
        requires
            i < old(self)@.failed.len(),
        ensures
            final(self)@ == old(self)@.recv_failed(i as int, would_block),
    {
        if !would_block {
            self.failed.set(i, true);
        }
    }
}

// ---------------------------------------------------------------------------------------------
// Laws
// ---------------------------------------------------------------------------------------------

/// What can happen to a connection attempt.
pub enum ConnectEvent<E> {
    /// It is asked what to do next.
    Asked(u64),
    /// Server `i` sent these bytes.
    Received(int, Seq<u8>),
    /// Server `i` cannot be reached.
    Unreachable(int, SyncError<E>),
    RecvFailed(E),
    PollFailed(E),
}

impl<E> ConnectingView<E> {
    /// The attempt after something happened to it.
    pub open spec fn after(self, event: ConnectEvent<E>) -> ConnectingView<E> {
        match event {
            ConnectEvent::Asked(now) => self.next(now).0,
            ConnectEvent::Received(i, buf) => self.received(i, buf).0,
            ConnectEvent::Unreachable(i, e) => self.unreachable(i, e),
            ConnectEvent::RecvFailed(e) => self.recv_failed(e),
            ConnectEvent::PollFailed(e) => self.poll_failed(e),
        }
    }

    /// The attempt after all of this happened to it.
    pub open spec fn after_all(self, events: Seq<ConnectEvent<E>>) -> ConnectingView<E>
        decreases events.len(),
    {
        if events.len() == 0 {
            self
        } else {
            self.after_all(events.drop_last()).after(events.last())
        }
    }

    /// How often requests were sent meanwhile.
    pub open spec fn sends(self, events: Seq<ConnectEvent<E>>) -> nat
        decreases events.len(),
    {
        if events.len() == 0 {
            0
        } else {
            let before = self.after_all(events.drop_last());
            self.sends(events.drop_last()) + match events.last() {
                ConnectEvent::Asked(now) => if before.next(now).1 is Send {
                    1nat
                } else {
                    0nat
                },
                _ => 0nat,
            }
        }
    }
}

/// The event is about one of the `n` servers, if it is about any.
pub open spec fn of_servers<E>(event: ConnectEvent<E>, n: nat) -> bool {
    match event {
        ConnectEvent::Received(i, _) => 0 <= i < n,
        ConnectEvent::Unreachable(i, _) => 0 <= i < n,
        _ => true,
    }
}

/// Every event is about one of the `n` servers, if it is about any.
pub open spec fn from_servers<E>(events: Seq<ConnectEvent<E>>, n: nat) -> bool {
    forall|k: int| 0 <= k < events.len() ==> of_servers(#[trigger] events[k], n)
}

proof fn lemma_sends_are_rounds<E>(v: ConnectingView<E>, events: Seq<ConnectEvent<E>>)
    requires
        v.rounds <= ROUNDS,
    ensures
        v.after_all(events).rounds == v.rounds + v.sends(events),
        v.after_all(events).rounds <= ROUNDS,
    decreases events.len(),
{
    if events.len() > 0 {
        lemma_sends_are_rounds(v, events.drop_last());
    }
}

/// Whatever happens to a connection attempt, requests are sent in three rounds at most.
pub proof fn law_three_rounds<E>(
    id: Seq<char>,
    target: Seq<char>,
    n: nat,
    events: Seq<ConnectEvent<E>>,
)
    ensures
        ConnectingView::<E>::start(id, target, n).sends(events) <= 3,
{
    lemma_sends_are_rounds(ConnectingView::<E>::start(id, target, n), events);
}

/// Whatever happens to a connection attempt, requests have been sent in three rounds when it is
/// given up, unless every server has failed.
pub proof fn law_three_rounds_before_giving_up<E>(
    id: Seq<char>,
    target: Seq<char>,
    n: nat,
    events: Seq<ConnectEvent<E>>,
    now: u64,
)
    requires
        ConnectingView::<E>::start(id, target, n).after_all(events).next(now).1 is GiveUp,
    ensures
        ConnectingView::<E>::start(id, target, n).sends(events) == 3 || forall|i: int|
            0 <= i < ConnectingView::<E>::start(id, target, n).after_all(events).failed.len()
                ==> #[trigger] ConnectingView::<E>::start(id, target, n).after_all(
                events,
            ).failed[i],
{
    lemma_sends_are_rounds(ConnectingView::<E>::start(id, target, n), events);
}

/// Whatever happens, what is sent stays the same, and a server that has failed stays failed.
proof fn lemma_failed_stays<E>(v: ConnectingView<E>, events: Seq<ConnectEvent<E>>, i: int)
    requires
        0 <= i < v.failed.len(),
        v.failed[i],
        from_servers(events, v.failed.len()),
    ensures
        v.after_all(events).failed.len() == v.failed.len(),
        v.after_all(events).failed[i],
    decreases events.len(),
{
    if events.len() > 0 {
        let less = events.drop_last();
        assert forall|k: int| 0 <= k < less.len() implies of_servers(
            #[trigger] less[k],
            v.failed.len(),
        ) by {
            assert(less[k] == events[k]);
        }
        lemma_failed_stays(v, less, i);
        assert(events.last() == events[events.len() - 1]);
    }
}

/// These servers cannot be reached.
pub open spec fn all_unreachable<E>(
    v: ConnectingView<E>,
    bad: Seq<(int, SyncError<E>)>,
) -> ConnectingView<E>
    decreases bad.len(),
{
    if bad.len() == 0 {
        v
    } else {
        all_unreachable(v, bad.drop_last()).unreachable(bad.last().0, bad.last().1)
    }
}

proof fn lemma_reachable_stays<E>(
    v: ConnectingView<E>,
    bad: Seq<(int, SyncError<E>)>,
    j: int,
)
    requires
        0 <= j < v.failed.len(),
        !v.failed[j],
        forall|k: int|
            0 <= k < bad.len() ==> 0 <= (#[trigger] bad[k]).0 < v.failed.len() && bad[k].0 != j,
    ensures
        ({
            let w = all_unreachable(v, bad);
            w == (ConnectingView { failed: w.failed, last_error: w.last_error, ..v })
                && w.failed.len() == v.failed.len() && !w.failed[j]
        }),
    decreases bad.len(),
{
    if bad.len() > 0 {
        assert forall|k: int| 0 <= k < bad.drop_last().len() implies 0 <= (
        #[trigger] bad.drop_last()[k]).0 < v.failed.len() && bad.drop_last()[k].0 != j by {
            assert(bad.drop_last()[k] == bad[k]);
        }
        lemma_reachable_stays(v, bad.drop_last(), j);
        assert(bad.last() == bad[bad.len() - 1]);
    }
}

/// Each server is tried: whichever others cannot be reached, the first round asks every server that
/// can, and the address that any of them tells is what the attempt yields.
pub proof fn law_each_server_tried<E>(
    id: Seq<char>,
    target: Seq<char>,
    n: nat,
    bad: Seq<(int, SyncError<E>)>,
    j: usize,
    now: u64,
    buf: Seq<u8>,
    addr: Seq<char>,
)
    requires
        j < n <= usize::MAX,
        forall|k: int| 0 <= k < bad.len() ==> 0 <= (#[trigger] bad[k]).0 < n && bad[k].0 != j,
        crate::proto::parse_response(buf) == Some(
            crate::proto::response(id, crate::proto::RespCmdView::Redirect { id: target, addr }),
        ),
        addr.len() > 0,
    ensures
        ({
            let v = all_unreachable(ConnectingView::<E>::start(id, target, n), bad);
            let (w, action) = v.next(now);
            &&& action matches ConnectActionView::Send(to)
            &&& to.contains(j)
            &&& w.received(j as int, buf).1 == Some(addr)
        }),
{
    let v = all_unreachable(ConnectingView::<E>::start(id, target, n), bad);
    lemma_reachable_stays(ConnectingView::<E>::start(id, target, n), bad, j as int);
    crate::udp::util::law_targets(v.failed);
    let rank = crate::udp::util::rank(v.failed, j as int);
    assert(crate::udp::util::targets(v.failed)[rank] == j);
}

/// Where no server can be reached, the attempt ends with what was reported last.
pub proof fn law_none_reachable<E>(v: ConnectingView<E>, i: int, e: SyncError<E>, now: u64)
    requires
        0 <= i < v.failed.len(),
        forall|j: int| 0 <= j < v.failed.len() && j != i ==> v.failed[j],
    ensures
        v.unreachable(i, e).next(now).1 == ConnectActionView::GiveUp(e),
{
}

/// A server that cannot be reached or does not know the target is not asked again, and not waited
/// for.
pub proof fn law_failed_left_alone<E>(
    v: ConnectingView<E>,
    events: Seq<ConnectEvent<E>>,
    i: usize,
    now: u64,
)
    requires
        i < v.failed.len() <= usize::MAX,
        v.failed[i as int],
        from_servers(events, v.failed.len()),
    ensures
        match v.after_all(events).next(now).1 {
            ConnectActionView::Send(to) => !to.contains(i),
            ConnectActionView::Wait(on) => !on.contains(i),
            ConnectActionView::GiveUp(_) => true,
        },
{
    lemma_failed_stays(v, events, i as int);
    crate::udp::util::law_targets(v.after_all(events).failed);
}

/// A message for somebody else, or one that is no message, changes nothing.
pub proof fn law_foreign_ignored<E>(
    v: ConnectingView<E>,
    k: KeepaliveView,
    i: int,
    buf: Seq<u8>,
)
    requires
        crate::proto::parse_response(buf) matches Some(resp) ==> resp.id != v.id && resp.id != k.id,
    ensures
        v.received(i, buf) == (v, None::<Seq<char>>),
        k.reaction(buf) == ReactionView::Nothing,
{
}

/// Where every server has said that it does not know the target, the attempt ends, and that is
/// what it ends with.
pub proof fn law_refused_by_all<E>(v: ConnectingView<E>, now: u64)
    requires
        crate::udp::util::all_failed(v.failed),
        v.last_error == Some(SyncError::<E>::Protocol(Failure::TargetNotFound)),
    ensures
        v.next(now).1 == ConnectActionView::<E>::GiveUp(
            SyncError::Protocol(Failure::TargetNotFound),
        ),
{
}

/// The address of the first time that a listener listens is that of every later time: the sockets
/// are bound to it, given that a socket which is bound to a port gets that port.
pub proof fn law_listens_at_one_address(
    l: ListenerView,
    first: Seq<SocketAddr>,
    later: Seq<SocketAddr>,
    server: SocketAddr,
)
    requires
        first.len() > 0,
        later.len() > 0,
        later[0].port() == first[0].port(),
    ensures
        ({
            let bound = l.cfg.dialer().after_all(first).local;
            let again = l.listening(bound.unwrap()).cfg.dialer();
            &&& bound is Some
            &&& crate::udp::util::dial_of(again.from(), server).local == bound.unwrap()
            &&& again.after_all(later).local == bound
            &&& l.listening(bound.unwrap()).listening(again.after_all(later).local.unwrap())
                == l.listening(bound.unwrap())
        }),
{
    crate::udp::util::law_one_port(l.cfg.local_addr, first, server);
    let bound = l.cfg.dialer().after_all(first).local.unwrap();
    lemma_kept_address(bound, later);
}

proof fn lemma_kept_address(bound: SocketAddr, actual: Seq<SocketAddr>)
    requires
        actual.len() > 0,
        actual[0].port() == bound.port(),
    ensures
        (Dialer { initial: Some(bound), local: None }).after_all(actual).local == Some(bound),
    decreases actual.len(),
{
    let start = Dialer { initial: Some(bound), local: None };
    if actual.len() == 1 {
        assert(actual.drop_last() =~= Seq::empty());
        assert(start.after_all(actual.drop_last()) == start);
    } else {
        lemma_kept_address(bound, actual.drop_last());
    }
}

/// Pings follow each other: a ping is not due again for ten seconds, and due again after fifteen,
/// whatever the variation.
pub proof fn law_ping_interval(sent: u64, millis: u64, now: u64)
    requires
        millis < VARIATION_MILLIS,
    ensures
        ({
            let last = Some((sent + millis * MILLISECOND) as u128);
            &&& now - sent <= 10 * SECOND ==> !ping_due(last, now)
            &&& now - sent >= 15 * SECOND ==> ping_due(last, now)
        }),
{
}

} // verus!
