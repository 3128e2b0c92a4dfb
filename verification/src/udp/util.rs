//! What connector and listener have in common.
use crate::addr::{Dial, SocketAddr};
use crate::error::Failure;
use crate::proto::{ReqCmd, Request, Rsync};
use rand::Rng;
use vstd::prelude::*;

verus! {

// ---------------------------------------------------------------------------------------------
// Messages
// ---------------------------------------------------------------------------------------------

/// A request from `myid`, without a command yet.
pub fn new_req(myid: &str) -> (r: Request)
    ensures
        r@ == (crate::proto::RequestView { id: myid@, cmd: None }),
{
    let mut req = Request::new();
    req.id = myid.to_owned();
    req
}

/// The bytes by which `myid` sends a command. The order of unknown fields, where there are any, is
/// left open.
pub fn cmd_message(myid: &str, cmd: ReqCmd) -> (r: Vec<u8>)
    ensures
        crate::proto::request(myid@, cmd@).written(r@),
        crate::proto::request(myid@, cmd@).plain() ==> r@ == crate::proto::request(
            myid@,
            cmd@,
        ).bytes(),
{
    let mut req = new_req(myid);
    req.cmd = Some(cmd);
    req.write_to_bytes()
}

/// The bytes by which `myid` tells that it expects the peer `target_id`.
pub fn rsync_message(myid: &str, target_id: &str) -> (r: Vec<u8>)
    ensures
        r@ == crate::proto::request(
            myid@,
            crate::proto::ReqCmdView::Rsync { id: target_id@ },
        ).bytes(),
{
    cmd_message(myid, ReqCmd::Rsync(Rsync { id: target_id.to_owned() }))
}

// ---------------------------------------------------------------------------------------------
// Sockets towards the servers
// ---------------------------------------------------------------------------------------------

/// How to reach a server: from `local`, or from any port of the server's family. From an IPv6
/// address an IPv4 server is reached through its mapped address.
pub open spec fn dial_of(local: Option<SocketAddr>, server: SocketAddr) -> Dial {
    match local {
        Some(addr) => Dial {
            local: addr,
            remote: if addr is V6 {
                server.to_v6()
            } else {
                server
            },
        },
        None => Dial { local: server.unspecified(), remote: server },
    }
}

/// Decides how to reach a server. `resolved` is the first address that its name stands for.
pub fn connect_server(local: Option<SocketAddr>, resolved: Option<SocketAddr>) -> (r: Result<
    Dial,
    Failure,
>)
    ensures
        match resolved {
            Some(server) => r == Ok::<Dial, Failure>(dial_of(local, server)),
            None => r == Err::<Dial, Failure>(Failure::NoAddress),
        },
{
    let mut server = match resolved {
        Some(addr) => addr,
        None => {
            return Err(Failure::NoAddress);
        },
    };
    if let Some(SocketAddr::V6(_)) = local {
        server = server.to_v6();
    }
    let local = match local {
        Some(addr) => addr,
        None => server.unspecified(),
    };
    Ok(Dial { local, remote: server })
}

/// Connects to several servers, one after the other, all from one port.
#[derive(Clone, Copy, Debug, PartialEq, Eq, Structural)]
pub struct Dialer {
    /// The address that was asked for.
    pub initial: Option<SocketAddr>,
    /// The address to use, known once the first socket is bound.
    pub local: Option<SocketAddr>,
}

impl Dialer {
    /// The state once a socket got bound to `actual`: the first one settles the port, and the
    /// address as well where none was asked for.
    pub open spec fn after(self, actual: SocketAddr) -> Dialer {
        Dialer {
            initial: self.initial,
            local: match self.local {
                Some(addr) => Some(addr),
                None => match self.initial {
                    Some(addr) => Some(addr.with_port(actual.port())),
                    None => Some(actual),
                },
            },
        }
    }

    /// The state once sockets got bound to these addresses.
    pub open spec fn after_all(self, actual: Seq<SocketAddr>) -> Dialer
        decreases actual.len(),
    {
        if actual.len() == 0 {
            self
        } else {
            self.after_all(actual.drop_last()).after(actual.last())
        }
    }

    /// The address that the next socket is to be bound to, if that is settled.
    pub open spec fn from(self) -> Option<SocketAddr> {
        match self.local {
            Some(addr) => Some(addr),
            None => self.initial,
        }
    }

    pub fn new(initial: Option<SocketAddr>) -> (r: Dialer)
        ensures
            r == (Dialer { initial, local: None }),
    {
        Dialer { initial, local: None }
    }

    /// Decides how to reach the next server.
    pub fn dial(&self, resolved: Option<SocketAddr>) -> (r: Result<Dial, Failure>)
        ensures
            match resolved {
                Some(server) => r == Ok::<Dial, Failure>(dial_of(self.from(), server)),
                None => r == Err::<Dial, Failure>(Failure::NoAddress),
            },
    {
        let local = match self.local {
            Some(addr) => Some(addr),
            None => self.initial,
        };
        connect_server(local, resolved)
    }

    /// Takes in what a socket got bound to.
    pub fn bound(&mut self, actual: SocketAddr)
        ensures
            *final(self) == old(self).after(actual),
    {
        if self.local.is_none() {
            self.local = Some(
                match self.initial {
                    Some(addr) => addr.with_port(actual.port()),
                    None => actual,
                },
            );
        }
    }
}

/// How to reach the target of a connection attempt, whose address a server has told: from the
/// address of the socket with which the server was asked. A text that is no address leads nowhere.
pub fn peer_dial(local: SocketAddr, parsed: Option<SocketAddr>) -> (r: Option<Dial>)
    ensures
        r == match parsed {
            Some(remote) => Some(Dial { local, remote }),
            None => None,
        },
{
    match parsed {
        Some(remote) => Some(Dial { local, remote }),
        None => None,
    }
}

/// Whatever address was asked for: once the first socket is bound, every further one towards a
/// server is bound to the port of that first one, and so is the address that is left for peers.
pub proof fn law_one_port(initial: Option<SocketAddr>, actual: Seq<SocketAddr>, server: SocketAddr)
    requires
        actual.len() > 0,
    ensures
        ({
            let d = (Dialer { initial, local: None }).after_all(actual);
            &&& d.local is Some
            &&& d.local.unwrap().port() == actual[0].port()
            &&& dial_of(d.from(), server).local == d.local.unwrap()
        }),
    decreases actual.len(),
{
    let start = Dialer { initial, local: None };
    if actual.len() == 1 {
        assert(actual.drop_last() =~= Seq::empty());
        assert(start.after_all(actual.drop_last()) == start);
    } else {
        law_one_port(initial, actual.drop_last(), server);
    }
}

/// Where no address was asked for, the first socket is bound to any port of the server's family.
pub proof fn law_local_family(server: SocketAddr)
    ensures
        dial_of(None, server).remote == server,
        dial_of(None, server).local.port() == 0,
        dial_of(None, server).local is V4 <==> server is V4,
{
}

/// From an IPv6 address every server is reached over IPv6, and at its own port.
pub proof fn law_v6_reaches_v4(local: SocketAddr, server: SocketAddr)
    requires
        local is V6,
    ensures
        dial_of(Some(local), server).remote is V6,
        dial_of(Some(local), server).remote.port() == server.port(),
{
}

/// To whom a listener tells that it expects a peer: to the server that forwarded the request, and
/// then to the peer itself, whose way this opens. Where the text for the peer is no address, to the
/// server alone.
pub fn rsync_targets(server: SocketAddr, parsed: Option<SocketAddr>) -> (r: Vec<SocketAddr>)
    ensures
        r@ == match parsed {
            Some(peer) => seq![server, peer],
            None => seq![server],
        },
{
    let mut r: Vec<SocketAddr> = Vec::new();
    r.push(server);
    if let Some(peer) = parsed {
        r.push(peer);
    }
    assert(r@ =~= match parsed {
        Some(peer) => seq![server, peer],
        None => seq![server],
    });
    r
}

// ---------------------------------------------------------------------------------------------
// Waiting for the servers
// ---------------------------------------------------------------------------------------------

/// The servers to turn to, in their order: all that have not failed.
pub open spec fn targets(failed: Seq<bool>) -> Seq<usize>
    decreases failed.len(),
{
    if failed.len() == 0 {
        Seq::empty()
    } else if failed.last() {
        targets(failed.drop_last())
    } else {
        targets(failed.drop_last()).push((failed.len() - 1) as usize)
    }
}

/// The place of server `i` among those that have not failed.
pub open spec fn rank(failed: Seq<bool>, i: int) -> int {
    targets(failed.take(i)).len() as int
}

proof fn lemma_rank_step(failed: Seq<bool>, i: int)
    requires
        0 <= i < failed.len(),
    ensures
        targets(failed.take(i + 1)) == if failed[i] {
            targets(failed.take(i))
        } else {
            targets(failed.take(i)).push(i as usize)
        },
{
    assert(failed.take(i + 1).drop_last() =~= failed.take(i));
}

proof fn lemma_rank_monotone(failed: Seq<bool>, i: int, j: int)
    requires
        0 <= i <= j <= failed.len(),
    ensures
        rank(failed, i) <= rank(failed, j),
        forall|k: int|
            0 <= k < rank(failed, i) ==> targets(failed.take(j))[k] == targets(failed.take(i))[k],
    decreases j - i,
{
    if i < j {
        lemma_rank_step(failed, j - 1);
        lemma_rank_monotone(failed, i, j - 1);
    }
}

/// A server that has not failed stands among the targets, at its rank; one that has does not.
pub proof fn law_targets(failed: Seq<bool>)
    requires
        failed.len() <= usize::MAX,
    ensures
        forall|i: int|
            0 <= i < failed.len() && !failed[i] ==> 0 <= #[trigger] rank(failed, i) < targets(
                failed,
            ).len() && targets(failed)[rank(failed, i)] == i,
        forall|k: int|
            0 <= k < targets(failed).len() ==> (#[trigger] targets(failed)[k]) < failed.len()
                && !failed[targets(failed)[k] as int],
    decreases failed.len(),
{
    let n = failed.len() as int;
    assert(failed.take(n) =~= failed);
    assert forall|i: int| 0 <= i < n && !failed[i] implies 0 <= #[trigger] rank(failed, i)
        < targets(failed).len() && targets(failed)[rank(failed, i)] == i by {
        lemma_rank_step(failed, i);
        lemma_rank_monotone(failed, i + 1, n);
        assert(targets(failed.take(i + 1))[rank(failed, i)] == i);
    }
    if n > 0 {
        let less = failed.drop_last();
        law_targets(less);
        assert forall|k: int| 0 <= k < targets(failed).len() implies (#[trigger] targets(failed)[k])
            < failed.len() && !failed[targets(failed)[k] as int] by {
            if k < targets(less).len() {
                assert(targets(failed)[k] == targets(less)[k]);
                assert(less[targets(less)[k] as int] == failed[targets(less)[k] as int]);
            }
        }
    }
}

/// The targets come in their order, each once.
pub proof fn law_targets_increase(failed: Seq<bool>)
    requires
        failed.len() <= usize::MAX,
    ensures
        forall|k: int, l: int|
            0 <= k < l < targets(failed).len() ==> #[trigger] targets(failed)[k]
                < #[trigger] targets(failed)[l],
    decreases failed.len(),
{
    if failed.len() > 0 {
        let less = failed.drop_last();
        law_targets_increase(less);
        law_targets(less);
        assert forall|k: int, l: int| 0 <= k < l < targets(failed).len() implies #[trigger] targets(
            failed,
        )[k] < #[trigger] targets(failed)[l] by {
            assert(targets(failed)[k] == targets(less)[k]);
            if l < targets(less).len() {
                assert(targets(failed)[l] == targets(less)[l]);
            }
        }
    }
}

/// The servers to turn to, in their order: all that have not failed.
pub fn poll_targets(failed: &[bool]) -> (r: Vec<usize>)
    ensures
        r@ == targets(failed@),
{
    let mut r: Vec<usize> = Vec::new();
    let mut i: usize = 0;
    assert(failed@.take(0) =~= Seq::empty());
    while i < failed.len()
        invariant
            i <= failed.len(),
            r@ == targets(failed@.take(i as int)),
        decreases failed.len() - i,
    {
        proof {
            lemma_rank_step(failed@, i as int);
        }
        if !failed[i] {
            r.push(i);
        }
        i += 1;
    }
    assert(failed@.take(failed@.len() as int) =~= failed@);
    r
}

/// Which of all servers have something to read, from which of those that were waited for have.
pub fn ready_servers(failed: &[bool], readable: &[bool]) -> (r: Vec<bool>)
    requires
        readable@.len() == targets(failed@).len(),
    ensures
        r@.len() == failed@.len(),
        forall|i: int|
            0 <= i < failed@.len() ==> #[trigger] r@[i] == (!failed@[i] && readable@[rank(
                failed@,
                i,
            )]),
{
    let mut r: Vec<bool> = Vec::new();
    let mut next: usize = 0;
    let mut i: usize = 0;
    assert(failed@.take(0) =~= Seq::empty());
    assert(failed@.take(failed@.len() as int) =~= failed@);
    while i < failed.len()
        invariant
            i <= failed.len(),
            r@.len() == i,
            next == rank(failed@, i as int),
            readable@.len() == rank(failed@, failed@.len() as int),
            forall|j: int|
                0 <= j < i ==> #[trigger] r@[j] == (!failed@[j] && readable@[rank(failed@, j)]),
        decreases failed.len() - i,
    {
        proof {
            lemma_rank_step(failed@, i as int);
            lemma_rank_monotone(failed@, i + 1, failed@.len() as int);
        }
        if failed[i] {
            r.push(false);
        } else {
            r.push(readable[next]);
            next += 1;
        }
        i += 1;
    }
    r
}

/// Every server has failed.
pub open spec fn all_failed(failed: Seq<bool>) -> bool {
    forall|i: int| 0 <= i < failed.len() ==> failed[i]
}

/// Whether every server has failed.
pub(crate) fn none_left(failed: &Vec<bool>) -> (r: bool)
    ensures
        r == all_failed(failed@),
{
    let mut i: usize = 0;
    while i < failed.len()
        invariant
            i <= failed.len(),
            forall|j: int| 0 <= j < i ==> failed@[j],
        decreases failed.len() - i,
    {
        if !failed[i] {
            return false;
        }
        i += 1;
    }
    true
}

/// A list of `n` times `false`.
pub(crate) fn no_failures(n: usize) -> (r: Vec<bool>)
    ensures
        r@ == Seq::new(n as nat, |i: int| false),
{
    let mut r: Vec<bool> = Vec::new();
    while r.len() < n
        invariant
            r@.len() <= n,
            forall|i: int| 0 <= i < r@.len() ==> !r@[i],
        decreases n - r@.len(),
    {
        r.push(false);
    }
    r
}

// ---------------------------------------------------------------------------------------------
// Chance
// ---------------------------------------------------------------------------------------------

/// Draws a number with `rand::Rng::gen_range` from `rand::thread_rng`. It is below `bound`, and
/// that is all that is known of it.
#[verifier::external_body]
pub(crate) fn random_below(bound: u64) -> (r: u64)
    requires
        bound > 0,
    ensures
        r < bound,
{
    rand::thread_rng().gen_range(0..bound)
}

} // verus!
