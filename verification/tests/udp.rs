use rndz::addr::{Dial, Endpoint, SocketAddr, SocketAddrV4, SocketAddrV6};
use rndz::error::Failure;
use rndz::idmap::IdMap;
use rndz::proto::{
    Bye, Fsync, Isync, Ping, Pong, Redirect, ReqCmd, Request, RespCmd, Response, Rsync,
};
use rndz::time::{MILLISECOND, SECOND};
use rndz::udp::client::{ConnectAction, Connecting, Connector, Keepalive, Listener, Reaction, SyncError};
use rndz::udp::server::{Client, Reply, Server};
use rndz::udp::util::{
    cmd_message, connect_server, new_req, poll_targets, ready_servers, rsync_message, peer_dial, rsync_targets, Dialer,
};

fn v4(ip: [u8; 4], port: u16) -> SocketAddr {
    SocketAddr::V4(SocketAddrV4 { ip: u32::from_be_bytes(ip), port })
}

fn v6(ip: u128, port: u16) -> SocketAddr {
    SocketAddr::V6(SocketAddrV6 { ip, port, flowinfo: 0, scope_id: 0 })
}

fn at(port: u16) -> Endpoint {
    Endpoint { addr: v4([10, 0, 0, 1], port), text: format!("10.0.0.1:{}", port) }
}

fn req(id: &str, cmd: ReqCmd) -> Request {
    Request { id: id.to_string(), cmd: Some(cmd) }
}

fn ping(id: &str) -> Request {
    req(id, ReqCmd::Ping(Ping {}))
}

fn isync(id: &str, target: &str) -> Request {
    req(id, ReqCmd::Isync(Isync { id: target.to_string() }))
}

fn rsync(id: &str, target: &str) -> Request {
    req(id, ReqCmd::Rsync(Rsync { id: target.to_string() }))
}

fn reply(to: &Endpoint, id: &str, cmd: RespCmd) -> Option<Reply> {
    Some(Reply { to: to.addr, resp: Response { id: id.to_string(), cmd: Some(cmd) } })
}

fn redirect(id: &str, addr: &str) -> RespCmd {
    RespCmd::Redirect(Redirect { id: id.to_string(), addr: addr.to_string() })
}

fn fsync(id: &str, addr: &str) -> RespCmd {
    RespCmd::Fsync(Fsync::new(id.to_string(), addr.to_string()))
}

// Addresses and sockets

#[test]
fn addresses() {
    let a = v4([127, 0, 0, 1], 80);
    assert_eq!(a.port(), 80);
    assert_eq!(a.with_port(8080), v4([127, 0, 0, 1], 8080));
    assert_eq!(a.unspecified(), v4([0, 0, 0, 0], 0));
    assert_eq!(a.to_v6(), v6(0xffff_7f00_0001, 80));
    let b = SocketAddr::V6(SocketAddrV6 { ip: 1, port: 5, flowinfo: 6, scope_id: 7 });
    assert_eq!(b.port(), 5);
    assert_eq!(
        b.with_port(9),
        SocketAddr::V6(SocketAddrV6 { ip: 1, port: 9, flowinfo: 6, scope_id: 7 })
    );
    assert_eq!(b.unspecified(), v6(0, 0));
    assert_eq!(b.to_v6(), b);
}

#[test]
fn a_server_is_reached_from_its_own_family() {
    let s4 = v4([1, 2, 3, 4], 1234);
    let s6 = v6(7, 1234);
    assert_eq!(connect_server(None, Some(s4)), Ok(Dial { local: v4([0, 0, 0, 0], 0), remote: s4 }));
    assert_eq!(connect_server(None, Some(s6)), Ok(Dial { local: v6(0, 0), remote: s6 }));
    let local = v4([9, 9, 9, 9], 99);
    assert_eq!(connect_server(Some(local), Some(s4)), Ok(Dial { local, remote: s4 }));
    assert_eq!(connect_server(Some(local), Some(s6)), Ok(Dial { local, remote: s6 }));
    assert_eq!(connect_server(Some(local), None), Err(Failure::NoAddress));
}

#[test]
fn from_ipv6_an_ipv4_server_is_mapped() {
    let local = v6(0, 99);
    assert_eq!(
        connect_server(Some(local), Some(v4([1, 2, 3, 4], 1234))),
        Ok(Dial { local, remote: v6(0xffff_0102_0304, 1234) })
    );
}

#[test]
fn all_sockets_share_the_port_of_the_first_one() {
    let server = v4([1, 2, 3, 4], 1234);
    let mut d = Dialer::new(None);
    assert_eq!(d.dial(Some(server)).unwrap().local, v4([0, 0, 0, 0], 0));
    d.bound(v4([192, 168, 0, 2], 40000));
    assert_eq!(d.dial(Some(server)).unwrap().local, v4([192, 168, 0, 2], 40000));
    d.bound(v4([192, 168, 0, 3], 40001));
    assert_eq!(d.local, Some(v4([192, 168, 0, 2], 40000)));
    assert_eq!(d.dial(None), Err(Failure::NoAddress));
}

#[test]
fn a_given_address_is_kept_but_for_its_port() {
    let mut d = Dialer::new(Some(v6(0, 0)));
    assert_eq!(d.dial(Some(v6(5, 6))).unwrap().local, v6(0, 0));
    d.bound(v6(77, 40000));
    assert_eq!(d.local, Some(v6(0, 40000)));
    assert_eq!(d.dial(Some(v6(5, 6))).unwrap().local, v6(0, 40000));
}

#[test]
fn a_peer_is_reached_from_the_socket_of_the_server() {
    let local = v4([192, 168, 0, 2], 40000);
    let remote = v4([1, 2, 3, 4], 5);
    assert_eq!(peer_dial(local, Some(remote)), Some(Dial { local, remote }));
    assert_eq!(peer_dial(local, None), None);
}

#[test]
fn only_servers_that_have_not_failed_are_waited_for() {
    let failed = [false, true, false, true, false];
    assert_eq!(poll_targets(&failed), vec![0, 2, 4]);
    assert_eq!(
        ready_servers(&failed, &[true, false, true]),
        vec![true, false, false, false, true]
    );
    assert_eq!(poll_targets(&[true, true]), Vec::<usize>::new());
    assert_eq!(ready_servers(&[true, true], &[]), vec![false, false]);
}

// Messages

#[test]
fn messages_of_a_client() {
    assert_eq!(new_req("c1"), Request { id: "c1".to_string(), cmd: None });
    assert_eq!(cmd_message("c1", ReqCmd::Bye(Bye {})), req("c1", ReqCmd::Bye(Bye {})).write_to_bytes());
    assert_eq!(rsync_message("c1", "c2"), rsync("c1", "c2").write_to_bytes());
}

// The map of peers

#[test]
fn a_map_holds_the_last_value_of_an_identity() {
    let mut m: IdMap<Client> = IdMap::new();
    let key = |s: &str| s.to_string();
    assert!(m.get(&key("a")).is_none());
    m.insert(key("a"), Client { addr: at(1), last_ping: 1 });
    m.insert(key("b"), Client { addr: at(2), last_ping: 2 });
    m.insert(key("a"), Client { addr: at(3), last_ping: 3 });
    assert_eq!(m.get(&key("a")), Some(&Client { addr: at(3), last_ping: 3 }));
    assert_eq!(m.get(&key("b")), Some(&Client { addr: at(2), last_ping: 2 }));
    m.remove(&key("a"));
    m.remove(&key("c"));
    assert!(m.get(&key("a")).is_none());
    assert_eq!(m.pop(), Some((key("b"), Client { addr: at(2), last_ping: 2 })));
    assert_eq!(m.pop(), None);
}

// The server

#[test]
fn a_turn_takes_in_and_then_looks() {
    let mut s = Server::new(0);
    let pong = s.run_step(Some((&ping("l").write_to_bytes(), at(1))), 5, 6).unwrap();
    assert_eq!(pong.to, at(1).addr);
    let known = |s: &mut Server| {
        s.handle_request(isync("c", "l"), at(2), 0).unwrap().to == at(1).addr
    };
    // Nothing received, and nothing that is a request.
    assert!(s.run_step(None, 7, 8).is_none());
    assert!(s.run_step(Some((b"\x0a", at(3))), 9, 60 * SECOND).is_none());
    assert!(known(&mut s));
    // Time to look, but not too late for the peer.
    assert!(s.run_step(None, 9, 60 * SECOND + 1).is_none());
    assert!(known(&mut s));
    assert!(s.run_step(None, 9, 120 * SECOND + 2).is_none());
    assert!(!known(&mut s));
}

#[test]
fn to_leave_twice_is_to_leave_once() {
    let bye = || req("l", ReqCmd::Bye(Bye {}));
    let mut s = Server::new(0);
    s.handle_request(ping("m"), at(5), 0);
    s.handle_request(ping("l"), at(1), 0);
    for _ in 0..2 {
        assert_eq!(s.handle_request(bye(), at(1), 0), None);
        assert_eq!(s.handle_request(isync("c", "l"), at(2), 0), reply(&at(2), "c", redirect("l", "")));
        assert_eq!(s.handle_request(isync("m", "m"), at(5), 0).unwrap().to, at(5).addr);
    }
}

#[test]
fn a_ping_is_answered_where_it_came_from() {
    let mut s = Server::new(0);
    let got = s.handle_request(ping("l"), at(1), 0);
    assert_eq!(got, reply(&at(1), "l", RespCmd::Pong(Pong {})));
}

#[test]
fn an_unknown_target_is_told_to_the_asker() {
    let mut s = Server::new(0);
    let got = s.handle_request(isync("c", "l"), at(2), 0);
    assert_eq!(got, reply(&at(2), "c", redirect("l", "")));
    // The asker is not known for that.
    let got = s.handle_request(isync("x", "c"), at(3), 0);
    assert_eq!(got, reply(&at(3), "x", redirect("c", "")));
}

#[test]
fn a_known_target_is_told_of_the_asker() {
    let mut s = Server::new(0);
    s.handle_request(ping("l"), at(1), 0);
    let got = s.handle_request(isync("c", "l"), at(2), 0);
    assert_eq!(got, reply(&at(1), "l", fsync("c", "10.0.0.1:2")));
    // The asker is known from then on.
    let got = s.handle_request(isync("x", "c"), at(3), 0);
    assert_eq!(got, reply(&at(2), "c", fsync("x", "10.0.0.1:3")));
}

#[test]
fn a_peer_is_known_by_its_last_address() {
    let mut s = Server::new(0);
    s.handle_request(ping("l"), at(1), 0);
    s.handle_request(ping("l"), at(9), 1);
    let got = s.handle_request(isync("c", "l"), at(2), 2);
    assert_eq!(got, reply(&at(9), "l", fsync("c", "10.0.0.1:2")));
}

#[test]
fn who_is_expected_is_redirected() {
    let mut s = Server::new(0);
    assert_eq!(s.handle_request(rsync("l", "c"), at(1), 0), None);
    s.handle_request(ping("c"), at(2), 0);
    let got = s.handle_request(rsync("l", "c"), at(1), 0);
    assert_eq!(got, reply(&at(2), "c", redirect("l", "10.0.0.1:1")));
}

#[test]
fn a_leave_is_final() {
    let mut s = Server::new(0);
    s.handle_request(ping("l"), at(1), 0);
    s.handle_request(ping("m"), at(5), 0);
    assert_eq!(s.handle_request(req("l", ReqCmd::Bye(Bye {})), at(1), 0), None);
    assert_eq!(s.handle_request(isync("c", "l"), at(2), 0), reply(&at(2), "c", redirect("l", "")));
    assert_eq!(
        s.handle_request(isync("c", "m"), at(2), 0),
        reply(&at(5), "m", fsync("c", "10.0.0.1:2"))
    );
}

#[test]
fn other_requests_are_not_answered() {
    let mut s = Server::new(0);
    let fsync = ReqCmd::Fsync(Fsync::new("a".to_string(), "b".to_string()));
    assert_eq!(s.handle_request(req("l", fsync), at(1), 0), None);
    assert_eq!(s.handle_request(Request { id: "l".to_string(), cmd: None }, at(1), 0), None);
    assert!(s.handle_datagram(b"\x0a", at(1), 0).is_none());
}

#[test]
fn silent_peers_are_forgotten() {
    let mut s = Server::new(0);
    s.handle_request(ping("old"), at(1), 1);
    s.handle_request(ping("young"), at(2), 2);
    // Not yet time to look.
    s.tick(60 * SECOND);
    assert!(s.handle_request(isync("c", "old"), at(3), 0).unwrap().to == at(1).addr);
    // Exactly a minute old is too old.
    s.tick(60 * SECOND + 1);
    assert_eq!(
        s.handle_request(isync("c", "old"), at(3), 61 * SECOND),
        reply(&at(3), "c", redirect("old", ""))
    );
    assert_eq!(
        s.handle_request(isync("c", "young"), at(3), 61 * SECOND),
        reply(&at(2), "young", fsync("c", "10.0.0.1:3"))
    );
    // The next look is a minute later.
    s.tick(120 * SECOND + 1);
    assert!(s.handle_request(isync("c", "young"), at(3), 0).unwrap().to == at(2).addr);
    s.tick(120 * SECOND + 2);
    assert!(s.handle_request(isync("c", "young"), at(3), 0).unwrap().to == at(3).addr);
}

// The connector

fn connector() -> Connector {
    Connector::new(&["s1:1", "s2:1"], "c", None).unwrap()
}

fn response(id: &str, cmd: RespCmd) -> Vec<u8> {
    Response { id: id.to_string(), cmd: Some(cmd) }.write_to_bytes()
}

#[test]
fn there_has_to_be_a_server() {
    assert!(matches!(Connector::new(&[], "c", None), Err(Failure::NoServers)));
    assert!(matches!(Listener::new(&[], "c", None), Err(Failure::NoServers)));
    let c = Connector::new(&["a", "b"], "c", Some(v4([1, 2, 3, 4], 5))).unwrap();
    assert_eq!(c.cfg.id, "c");
    assert_eq!(c.cfg.local_addr, Some(v4([1, 2, 3, 4], 5)));
    assert_eq!(c.cfg.server_addrs, vec!["a".to_string(), "b".to_string()]);
}

#[test]
fn three_rounds_of_five_seconds() {
    let mut k: Connecting<String> = connector().connect("l");
    assert_eq!(k.request(), &isync("c", "l").write_to_bytes()[..]);
    let mut now: u64 = 1000;
    for _ in 0..3 {
        assert_eq!(k.next(now), ConnectAction::Send(vec![0, 1]));
        assert_eq!(k.next(now), ConnectAction::Wait(vec![0, 1]));
        now += 5 * SECOND - 1;
        assert_eq!(k.next(now), ConnectAction::Wait(vec![0, 1]));
        now += 1;
    }
    let end = ConnectAction::GiveUp(SyncError::Protocol(Failure::NoResponse));
    assert_eq!(k.next(now), end);
}

#[test]
fn a_redirect_ends_the_search() {
    let mut k: Connecting<String> = connector().connect("l");
    k.next(0);
    k.next(0);
    assert_eq!(
        k.received(1, &response("c", redirect("l", "10.0.0.1:7"))),
        Some("10.0.0.1:7".to_string())
    );
}

#[test]
fn a_server_without_the_target_is_left_alone() {
    let mut k: Connecting<String> = connector().connect("l");
    assert_eq!(k.next(0), ConnectAction::Send(vec![0, 1]));
    assert_eq!(k.next(0), ConnectAction::Wait(vec![0, 1]));
    assert_eq!(k.received(0, &response("c", redirect("l", ""))), None);
    assert_eq!(k.failed(), &[true, false]);
    assert_eq!(k.next(1), ConnectAction::Wait(vec![1]));
    assert_eq!(k.next(5 * SECOND), ConnectAction::Send(vec![1]));
    assert_eq!(k.next(5 * SECOND), ConnectAction::Wait(vec![1]));
    assert_eq!(k.received(1, &response("c", redirect("l", ""))), None);
    let end = ConnectAction::GiveUp(SyncError::Protocol(Failure::TargetNotFound));
    assert_eq!(k.next(5 * SECOND), end);
}

#[test]
fn foreign_and_broken_datagrams_change_nothing() {
    let mut k: Connecting<String> = connector().connect("l");
    k.next(0);
    assert_eq!(k.received(0, &response("other", redirect("l", ""))), None);
    assert_eq!(k.received(0, &response("other", redirect("l", "1.1.1.1:1"))), None);
    assert_eq!(k.received(0, &response("c", RespCmd::Pong(Pong {}))), None);
    assert_eq!(k.received(0, b"\x0a"), None);
    assert_eq!(k.failed(), &[false, false]);
    assert_eq!(k.next(0), ConnectAction::Wait(vec![0, 1]));
}

#[test]
fn a_failed_wait_ends_the_round() {
    let mut k: Connecting<String> = connector().connect("l");
    for _ in 0..3 {
        assert_eq!(k.next(0), ConnectAction::Send(vec![0, 1]));
        assert_eq!(k.next(0), ConnectAction::Wait(vec![0, 1]));
        k.poll_failed("poll".to_string());
    }
    assert_eq!(k.next(0), ConnectAction::GiveUp(SyncError::Io("poll".to_string())));
}

#[test]
fn a_failed_read_is_told_if_nothing_else_is() {
    let mut k: Connecting<String> = connector().connect("l");
    k.next(0);
    k.next(0);
    k.recv_failed("refused".to_string());
    assert_eq!(k.next(0), ConnectAction::Wait(vec![0, 1]));
    for round in 1..3 {
        assert_eq!(k.next(round * 5 * SECOND), ConnectAction::Send(vec![0, 1]));
        k.next(round * 5 * SECOND);
    }
    assert_eq!(k.next(15 * SECOND), ConnectAction::GiveUp(SyncError::Io("refused".to_string())));
}

#[test]
fn each_server_is_tried() {
    let mut k: Connecting<String> = connector().connect("l");
    k.unreachable(0, SyncError::Io("nocolon".to_string()));
    assert_eq!(k.failed(), &[true, false]);
    assert_eq!(k.next(0), ConnectAction::Send(vec![1]));
    assert_eq!(k.next(0), ConnectAction::Wait(vec![1]));
    assert_eq!(
        k.received(1, &response("c", redirect("l", "127.0.0.1:6000"))),
        Some("127.0.0.1:6000".to_string())
    );
}

#[test]
fn without_any_server_there_is_no_connection() {
    let mut k: Connecting<String> = connector().connect("l");
    k.unreachable(0, SyncError::Io("nocolon".to_string()));
    k.unreachable(1, SyncError::Protocol(Failure::NoAddress));
    let end = ConnectAction::GiveUp(SyncError::Protocol(Failure::NoAddress));
    assert_eq!(k.next(0), end);
}

// The listener

#[test]
fn a_peer_is_expected_by_server_and_peer() {
    let server = v4([127, 0, 0, 1], 8888);
    let peer = v4([127, 0, 0, 1], 6000);
    assert_eq!(rsync_targets(server, Some(peer)), vec![server, peer]);
    assert_eq!(rsync_targets(server, None), vec![server]);
}

#[test]
fn a_listener_listens_at_one_address() {
    let server = v4([127, 0, 0, 1], 8888);
    let mut l = Listener::new(&["s1"], "l", None).unwrap();
    let mut d = l.dialer();
    assert_eq!(d.dial(Some(server)).unwrap().local, v4([0, 0, 0, 0], 0));
    d.bound(v4([192, 168, 0, 2], 40000));
    l.listen(d.local.unwrap());
    let mut d = l.dialer();
    assert_eq!(d.dial(Some(server)).unwrap().local, v4([192, 168, 0, 2], 40000));
    d.bound(v4([192, 168, 0, 2], 40000));
    assert_eq!(d.local, Some(v4([192, 168, 0, 2], 40000)));
    let c = Connector::new(&["s1"], "c", Some(server)).unwrap();
    assert_eq!(c.dialer().dial(Some(server)).unwrap().local, server);
}

fn keepalive() -> Keepalive {
    Listener::new(&["s1", "s2"], "l", None).unwrap().listen(v4([0, 0, 0, 0], 4000))
}

#[test]
fn a_listener_remembers_its_address_and_its_pongs() {
    let mut l = Listener::new(&["s1", "s2"], "l", None).unwrap();
    assert_eq!(l.config().local_addr, None);
    assert_eq!(l.last_pong(), vec![None, None]);
    let k = l.listen(v4([0, 0, 0, 0], 4000));
    assert_eq!(k.ping(), &ping("l").write_to_bytes()[..]);
    assert_eq!(k.failed(), &[false, false]);
    assert_eq!(l.config().local_addr, Some(v4([0, 0, 0, 0], 4000)));
    l.pong(1, 77);
    assert_eq!(l.last_pong(), vec![None, Some(77)]);
    assert_eq!(l.bye(), req("l", ReqCmd::Bye(Bye {})).write_to_bytes());
}

#[test]
fn pings_are_due_after_ten_seconds_and_the_variation() {
    let mut k = keepalive();
    assert!(k.ping_due(0, 0) && k.ping_due(1, 0));
    k.pinged_with(0, 100, 3000);
    assert!(!k.ping_due(0, 100));
    assert!(!k.ping_due(0, 100 + 13 * SECOND));
    assert!(k.ping_due(0, 101 + 13 * SECOND));
    assert!(k.ping_due(1, 100));
}

#[test]
fn the_variation_is_below_five_seconds() {
    for i in 0..300u64 {
        let mut k = keepalive();
        k.pinged(0, i * MILLISECOND);
        assert!(!k.ping_due(0, i * MILLISECOND + 10 * SECOND));
        assert!(k.ping_due(0, i * MILLISECOND + 15 * SECOND));
    }
}

#[test]
fn a_listener_answers_its_servers() {
    let k = keepalive();
    assert_eq!(k.received(&response("l", RespCmd::Pong(Pong {}))), Reaction::Pong);
    assert_eq!(
        k.received(&response("l", fsync("c", "10.0.0.1:2"))),
        Reaction::Fsync {
            rsync: rsync("l", "c").write_to_bytes(),
            peer: "10.0.0.1:2".to_string()
        }
    );
    assert_eq!(k.received(&response("x", RespCmd::Pong(Pong {}))), Reaction::Nothing);
    assert_eq!(k.received(&response("x", fsync("c", "10.0.0.1:2"))), Reaction::Nothing);
    assert_eq!(k.received(&response("l", redirect("c", "10.0.0.1:2"))), Reaction::Nothing);
    assert_eq!(k.received(b"\x0a"), Reaction::Nothing);
}

#[test]
fn a_server_that_cannot_be_read_has_failed() {
    let mut k = keepalive();
    k.recv_failed(0, true);
    assert_eq!(k.failed(), &[false, false]);
    k.recv_failed(0, false);
    assert_eq!(k.failed(), &[true, false]);
}

// All together

#[test]
fn a_rendezvous() {
    let mut s = Server::new(0);
    let k = keepalive();
    let pong = s.handle_datagram(k.ping(), at(1), 0).unwrap();
    assert_eq!(pong.to, at(1).addr);
    assert_eq!(k.received(&pong.bytes), Reaction::Pong);

    let mut c: Connecting<String> = connector().connect("l");
    let forwarded = s.handle_datagram(c.request(), at(2), 1).unwrap();
    assert_eq!(forwarded.to, at(1).addr);
    let rsync = match k.received(&forwarded.bytes) {
        Reaction::Fsync { rsync, peer } => {
            assert_eq!(peer, at(2).text);
            rsync
        }
        other => panic!("{:?}", other),
    };
    let told = s.handle_datagram(&rsync, at(1), 2).unwrap();
    assert_eq!(told.to, at(2).addr);
    assert_eq!(c.received(0, &told.bytes), Some(at(1).text));
}

#[test]
fn a_refused_rendezvous() {
    let mut s = Server::new(0);
    let mut c: Connecting<String> = connector().connect("l");
    c.next(0);
    for i in 0..2 {
        let told = s.handle_datagram(c.request(), at(2), 1).unwrap();
        assert_eq!(told.to, at(2).addr);
        assert_eq!(c.received(i, &told.bytes), None);
    }
    let end = ConnectAction::GiveUp(SyncError::Protocol(Failure::TargetNotFound));
    assert_eq!(c.next(0), end);
}

#[test]
fn a_listener_that_keeps_pinging_stays_known() {
    let mut s = Server::new(0);
    let mut k = keepalive();
    let mut now = 0;
    while now < 600 * SECOND {
        if k.ping_due(0, now) {
            s.handle_datagram(k.ping(), at(1), now);
            k.pinged(0, now);
        }
        s.tick(now);
        assert_eq!(s.handle_request(isync("c", "l"), at(2), now).unwrap().to, at(1).addr);
        now += 100 * MILLISECOND;
    }
}
