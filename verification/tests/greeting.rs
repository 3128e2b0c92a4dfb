use rndz::addr::{Endpoint, SocketAddr, SocketAddrV4};
use rndz::client::{Answer, Client, ConnectAction, Connecting, Destination};
use rndz::error::Failure;
use rndz::proto::{
    Fsync, Isync, Ping, Pong, Redirect, ReqCmd, Request, RespCmd, Response, Rsync,
};
use rndz::server::Server;
use rndz::time::SECOND;
use rndz::udp::server::Reply;

fn at(port: u16) -> Endpoint {
    Endpoint {
        addr: SocketAddr::V4(SocketAddrV4 { ip: 0x0a00_0001, port }),
        text: format!("10.0.0.1:{}", port),
    }
}

/// Where the server is.
fn home() -> Endpoint {
    at(8888)
}

fn req(id: &str, cmd: ReqCmd) -> Request {
    Request { id: id.to_string(), cmd: Some(cmd) }
}

fn isync(id: &str, target: &str) -> Request {
    req(id, ReqCmd::Isync(Isync { id: target.to_string() }))
}

fn bytes(id: &str, cmd: RespCmd) -> Vec<u8> {
    Response { id: id.to_string(), cmd: Some(cmd) }.write_to_bytes()
}

fn reply(to: &Endpoint, id: &str, cmd: RespCmd) -> Reply {
    Reply { to: to.addr, resp: Response { id: id.to_string(), cmd: Some(cmd) } }
}

fn redirect(id: &str, addr: &str) -> RespCmd {
    RespCmd::Redirect(Redirect { id: id.to_string(), addr: addr.to_string() })
}

fn rsync(id: &str) -> RespCmd {
    RespCmd::Rsync(Rsync { id: id.to_string() })
}

fn fsync(id: &str, addr: &str) -> RespCmd {
    RespCmd::Fsync(Fsync::new(id.to_string(), addr.to_string()))
}

fn connecting() -> Connecting {
    Client::new(home().addr, "c").connect("l")
}

fn lost() -> ConnectAction {
    ConnectAction::Finish(Err(Failure::NotConnected))
}

#[test]
fn a_server_answers_pings_and_tells_both_sides() {
    let mut s = Server::new();
    let r = s.handle_request(req("l", ReqCmd::Ping(Ping {})), at(1), 0);
    assert_eq!(r, vec![reply(&at(1), "l", RespCmd::Pong(Pong {}))]);
    let r = s.handle_request(isync("c", "l"), at(2), 0);
    assert_eq!(
        r,
        vec![
            reply(&at(2), "c", redirect("l", "10.0.0.1:1")),
            reply(&at(1), "l", fsync("c", "10.0.0.1:2")),
        ]
    );
    let r = s.handle_request(isync("c", "x"), at(2), 0);
    assert_eq!(r, vec![reply(&at(2), "c", redirect("x", ""))]);
    let bye = req("l", ReqCmd::Rsync(Rsync { id: "c".to_string() }));
    assert_eq!(s.handle_request(bye, at(1), 0), vec![]);
    assert!(s.handle_datagram(b"\x0a", at(1), 0).is_empty());
}

#[test]
fn the_server_is_asked_three_times() {
    let mut k = connecting();
    assert_eq!(k.request(), &isync("c", "l").write_to_bytes()[..]);
    for _ in 0..3 {
        assert_eq!(k.next(), ConnectAction::AskServer);
    }
    assert_eq!(k.next(), lost());
    assert_eq!(k.next(), lost());
}

#[test]
fn the_target_is_asked_three_times() {
    let mut k = connecting();
    assert_eq!(k.next(), ConnectAction::AskServer);
    k.received(&bytes("c", redirect("l", "10.0.0.1:1")), &home());
    for _ in 0..3 {
        assert_eq!(k.next(), ConnectAction::AskPeer("10.0.0.1:1".to_string()));
    }
    assert_eq!(k.next(), lost());
}

#[test]
fn only_the_one_that_was_asked_counts() {
    let mut k = connecting();
    k.next();
    k.received(&bytes("c", redirect("l", "10.0.0.1:1")), &at(5)); // not the server
    k.received(&bytes("x", redirect("l", "10.0.0.1:1")), &home()); // not for this client
    k.received(&bytes("c", rsync("l")), &home()); // not yet
    k.received(b"\x0a", &home());
    assert_eq!(k.next(), ConnectAction::AskServer);
    k.received(&bytes("c", redirect("l", "10.0.0.1:1")), &home());
    assert_eq!(k.next(), ConnectAction::AskPeer("10.0.0.1:1".to_string()));
    k.received(&bytes("c", rsync("l")), &at(5)); // not the target
    k.received(&bytes("c", rsync("x")), &at(1)); // not its identity
    k.received(&bytes("x", rsync("l")), &at(1)); // not for this client
    k.received(&bytes("c", redirect("l", "")), &home()); // too late
    assert_eq!(k.next(), ConnectAction::AskPeer("10.0.0.1:1".to_string()));
    k.received(&bytes("c", rsync("l")), &at(1));
    assert_eq!(k.next(), ConnectAction::Finish(Ok(())));
}

#[test]
fn an_unknown_target_ends_the_attempt() {
    let mut s = Server::new();
    let mut k = connecting();
    k.next();
    let told = s.handle_datagram(k.request(), at(2), 0);
    assert_eq!(told.len(), 1);
    assert_eq!(told[0].to, at(2).addr);
    k.received(&told[0].bytes, &home());
    assert_eq!(k.next(), ConnectAction::Finish(Err(Failure::UnknownTarget)));
}

#[test]
fn a_listening_client_pings() {
    let mut l = Client::new(home().addr, "l").listen();
    assert_eq!(l.ping(), &req("l", ReqCmd::Ping(Ping {})).write_to_bytes()[..]);
    assert!(l.ping_due(0));
    l.pinged(5);
    assert!(!l.ping_due(0));
    assert!(!l.ping_due(5 + 10 * SECOND));
    assert!(l.ping_due(6 + 10 * SECOND));
}

#[test]
fn a_listening_client_greets() {
    let l = Client::new(home().addr, "l").listen();
    // As the server tells.
    assert_eq!(
        l.received(&bytes("l", fsync("c", "10.0.0.1:2")), &home()),
        Some(Answer {
            to: Destination::Text("10.0.0.1:2".to_string()),
            bytes: bytes("c", rsync("l"))
        })
    );
    assert_eq!(l.received(&bytes("x", fsync("c", "10.0.0.1:2")), &home()), None);
    assert_eq!(l.received(&bytes("l", RespCmd::Pong(Pong {})), &home()), None);
    assert_eq!(l.received(b"\x0a", &home()), None);
    // As the peer asks.
    assert_eq!(
        l.received(&isync("c", "l").write_to_bytes(), &at(2)),
        Some(Answer { to: Destination::Addr(at(2).addr), bytes: bytes("c", rsync("l")) })
    );
    assert_eq!(l.received(&isync("c", "x").write_to_bytes(), &at(2)), None);
    assert_eq!(l.received(&req("c", ReqCmd::Ping(Ping {})).write_to_bytes(), &at(2)), None);
    assert_eq!(l.received(b"\x0a", &at(2)), None);
}

#[test]
fn a_greeting_makes_the_connection() {
    let mut s = Server::new();
    let l = Client::new(home().addr, "l").listen();
    s.handle_datagram(l.ping(), at(1), 0);

    let mut k = connecting();
    assert_eq!(k.next(), ConnectAction::AskServer);
    let told = s.handle_datagram(k.request(), at(2), 1);
    assert_eq!(told.len(), 2);
    assert_eq!(told[0].to, at(2).addr);
    assert_eq!(told[1].to, at(1).addr);
    let early = l.received(&told[1].bytes, &home()).unwrap();
    assert_eq!(early.to, Destination::Text(at(2).text));

    k.received(&told[0].bytes, &home());
    assert_eq!(k.next(), ConnectAction::AskPeer(at(1).text));
    let answer = l.received(k.request(), &at(2)).unwrap();
    assert_eq!(answer.to, Destination::Addr(at(2).addr));
    k.received(&answer.bytes, &at(1));
    assert_eq!(k.next(), ConnectAction::Finish(Ok(())));
}
