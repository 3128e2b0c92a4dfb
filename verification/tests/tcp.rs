use rndz::addr::{Dial, Endpoint, SocketAddr, SocketAddrV4, SocketAddrV6};
use rndz::async_tcp;
use rndz::async_tcp::{
    open_step, ping_step, recv_step, OpenStep, PingEvent, PingStep, RecvEvent, RecvStep,
    OPEN_TIMEOUT,
};
use rndz::error::Failure;
use rndz::proto::{
    Bye, Fsync, Isync, Ping, Pong, Redirect, ReqCmd, Request, RespCmd, Response, Rsync,
};
use rndz::tcp::client;
use rndz::tcp::client_async;
use rndz::tcp::server::{
    queued, read_req, read_reqs, request_len, send_response, Effect, PeerHandler, ReadEvent,
    ReadStep, Server, READ_TIMEOUT,
};
use rndz::tcp::session::{
    first_request, handle_resp, new_req, next_write, punch_dial, redirected, server_dial,
    supervise, target_dial, write_req, Event, Reaction, Signal, Step, WriteEvent, PING_INTERVAL,
    PUNCH_TIMEOUT, RETRY_INTERVAL,
};

fn v4(port: u16) -> SocketAddr {
    SocketAddr::V4(SocketAddrV4 { ip: 0x0a00_0001, port })
}

fn v6(port: u16) -> SocketAddr {
    SocketAddr::V6(SocketAddrV6 { ip: 1, port, flowinfo: 0, scope_id: 0 })
}

fn any_v4() -> SocketAddr {
    SocketAddr::V4(SocketAddrV4 { ip: 0, port: 0 })
}

fn any_v6() -> SocketAddr {
    SocketAddr::V6(SocketAddrV6 { ip: 0, port: 0, flowinfo: 0, scope_id: 0 })
}

fn at(port: u16) -> Endpoint {
    Endpoint { addr: v4(port), text: format!("10.0.0.1:{}", port) }
}

fn req(id: &str, cmd: ReqCmd) -> Request {
    Request { id: id.to_string(), cmd: Some(cmd) }
}

fn ping(id: &str) -> Request {
    req(id, ReqCmd::Ping(Ping {}))
}

fn isync_cmd(target: &str) -> ReqCmd {
    ReqCmd::Isync(Isync { id: target.to_string() })
}

fn rsync_cmd(target: &str) -> ReqCmd {
    ReqCmd::Rsync(Rsync { id: target.to_string() })
}

fn resp(cmd: RespCmd) -> Response {
    Response { id: String::new(), cmd: Some(cmd) }
}

fn redirect(id: &str, addr: &str) -> RespCmd {
    RespCmd::Redirect(Redirect { id: id.to_string(), addr: addr.to_string() })
}

fn fsync(id: &str, addr: &str) -> RespCmd {
    RespCmd::Fsync(Fsync::new(id.to_string(), addr.to_string()))
}

/// What follows the header of a frame.
fn payload(frame: &[u8]) -> &[u8] {
    assert_eq!(frame.len() - 2, frame[0] as usize * 256 + frame[1] as usize);
    &frame[2..]
}

// The clients

#[test]
fn a_bind_address_follows_the_server() {
    let c = client::Client::new("s:1", "c", None).unwrap();
    assert_eq!(c.server_addr(), "s:1");
    assert_eq!(c.id(), "c");
    assert_eq!(c.local_addr(), None);
    assert_eq!(c.choose_bind_addr(Some(v4(9))), Ok(any_v4()));
    assert_eq!(c.choose_bind_addr(Some(v6(9))), Ok(any_v6()));
    assert_eq!(c.choose_bind_addr(None), Err(Failure::ResolveFailed));
    let c = client::Client::new("s:1", "c", Some(v4(7))).unwrap();
    assert_eq!(c.choose_bind_addr(None), Ok(v4(7)));
    assert_eq!(c.choose_bind_addr(Some(v6(9))), Ok(v4(7)));
    assert_eq!(server_dial(v4(7), Some(v4(9))), Ok(Dial { local: v4(7), remote: v4(9) }));
    assert_eq!(server_dial(v4(7), None), Err(Failure::ResolveFailed));
}

#[test]
fn an_async_bind_address_follows_the_server() {
    let c = client_async::Client::new("s:1", "c", None).unwrap();
    assert_eq!((c.server_addr(), c.id().as_str(), c.local_addr()), ("s:1", "c", None));
    assert_eq!(c.choose_bind_addr(Some(v4(9))), Ok(any_v4()));
    assert_eq!(c.choose_bind_addr(Some(v6(9))), Ok(any_v6()));
    assert_eq!(c.choose_bind_addr(None), Err(Failure::ResolveFailed));
    let c = client_async::Client::new("s:1", "c", Some(v6(7))).unwrap();
    assert_eq!(c.choose_bind_addr(None), Ok(v6(7)));
}

#[test]
fn a_connection_request_is_framed() {
    let expected = b"\x00\x09\x0a\x01c\x1a\x04\x0a\x02l1".to_vec();
    let c = client::Client::new("s:1", "c", None).unwrap();
    assert_eq!(c.connect("l1"), expected);
    let c = client_async::Client::new("s:1", "c", None).unwrap();
    assert_eq!(c.connect("l1"), expected);
    let c = async_tcp::Client::new("s:1", "c", None).unwrap();
    assert_eq!(c.connect("l1"), expected);
    assert_eq!(write_req("c".to_string(), isync_cmd("l1")), expected);
    assert_eq!(new_req("c".to_string()), Request { id: "c".to_string(), cmd: None });
}

#[test]
fn a_redirect_tells_where_the_target_is() {
    let buf = resp(redirect("l", "10.0.0.1:7")).write_to_bytes();
    assert_eq!(redirected(&buf), Ok("10.0.0.1:7".to_string()));
    let buf = resp(RespCmd::Pong(Pong {})).write_to_bytes();
    assert_eq!(redirected(&buf), Err(Failure::InvalidResponse));
    assert_eq!(redirected(b""), Err(Failure::InvalidResponse));
    assert_eq!(redirected(b"\x0a"), Err(Failure::InvalidMessage));
    assert_eq!(target_dial(v4(5), Some(v4(7))), Ok(Dial { local: v4(5), remote: v4(7) }));
    assert_eq!(target_dial(v4(5), None), Err(Failure::TargetIdNotFound));
}

#[test]
fn a_forwarded_request_is_acted_on() {
    let buf = resp(fsync("c", "10.0.0.1:2")).write_to_bytes();
    assert_eq!(
        handle_resp(&buf),
        Ok(Reaction::Punch { addr: "10.0.0.1:2".to_string(), rsync: rsync_cmd("c") })
    );
    let buf = resp(RespCmd::Pong(Pong {})).write_to_bytes();
    assert_eq!(handle_resp(&buf), Ok(Reaction::Nothing));
    let buf = resp(redirect("l", "x")).write_to_bytes();
    assert_eq!(handle_resp(&buf), Ok(Reaction::Nothing));
    assert_eq!(handle_resp(b"\x0a"), Err(Failure::InvalidMessage));
    assert_eq!(punch_dial(v4(1), Some(v4(2))), Ok(Dial { local: v4(1), remote: v4(2) }));
    assert_eq!(punch_dial(v4(1), None), Err(Failure::InvalidFsyncAddr));
}

#[test]
fn the_writer_pings_when_there_is_nothing_else() {
    let id = "l".to_string();
    let ping = write_req("l".to_string(), ReqCmd::Ping(Ping {}));
    assert_eq!(ping, b"\x00\x05\x0a\x01l\x12\x00".to_vec());
    assert_eq!(first_request(), ReqCmd::Ping(Ping {}));
    assert_eq!(next_write(&id, WriteEvent::Idle), Some(ping));
    assert_eq!(
        next_write(&id, WriteEvent::Queued(rsync_cmd("c"))),
        Some(write_req("l".to_string(), rsync_cmd("c")))
    );
    assert_eq!(next_write(&id, WriteEvent::Closed), None);
}

#[test]
fn only_a_listening_client_accepts() {
    let mut c = client::Client::new("s:1", "c", None).unwrap();
    assert_eq!(c.accept(), Err(Failure::NotListening));
    assert_eq!(c.listen(v4(40000)), ReqCmd::Ping(Ping {}));
    assert_eq!(c.accept(), Ok(()));
    assert_eq!(c.signal(), Signal { exit: false, broken: false });
    c.shutdown();
    assert_eq!(c.accept(), Err(Failure::NotListening));
    assert_eq!(c.signal(), Signal { exit: true, broken: false });
}

#[test]
fn only_a_listening_async_client_accepts() {
    let mut c = client_async::Client::new("s:1", "c", None).unwrap();
    assert_eq!(c.accept(false), Err(Failure::NotListening));
    assert_eq!(c.accept(true), Err(Failure::NotListening));
    assert_eq!(c.listen(v4(40000)), ReqCmd::Ping(Ping {}));
    assert_eq!(c.accept(false), Ok(()));
    assert_eq!(c.accept(true), Err(Failure::Exit));
}

#[test]
fn a_broken_connection_is_replaced() {
    let mut s = Signal { exit: false, broken: false };
    assert_eq!(supervise(&mut s, Event::Woken), Step::Wait);
    s.broken = true;
    assert_eq!(supervise(&mut s, Event::Woken), Step::Connect);
    assert!(!s.broken);
    assert_eq!(supervise(&mut s, Event::ConnectFailed), Step::Rest);
    assert_eq!(supervise(&mut s, Event::Rested), Step::Connect);
    assert_eq!(supervise(&mut s, Event::Connected), Step::Wait);
    s.broken = true;
    assert_eq!(supervise(&mut s, Event::Connected), Step::Connect);
    assert!(!s.broken);
}

#[test]
fn a_shutdown_ends_it() {
    for event in [Event::Woken, Event::Connected, Event::ConnectFailed, Event::Rested] {
        let mut s = Signal { exit: true, broken: true };
        assert_eq!(supervise(&mut s, event), Step::Stop);
        assert_eq!(s, Signal { exit: true, broken: true });
    }
}

#[test]
fn a_client_that_gives_up_with_its_connection() {
    let mut c = async_tcp::Client::new("s:1", "l", None).unwrap();
    assert_eq!(c.server_addr(), "s:1");
    assert_eq!(c.choose_bind_addr(Some(v6(1))), Ok(any_v6()));
    assert_eq!(c.connect_server(None, Some(v4(1))), Ok(any_v4()));
    assert_eq!(c.connect_server(Some(v4(5)), Some(v4(1))), Ok(v4(5)));
    assert_eq!(c.connect_server(Some(v4(5)), None), Err(Failure::ResolveFailed));
    assert_eq!(c.ping(), b"\x00\x05\x0a\x01l\x12\x00".to_vec());
    let buf = resp(fsync("c", "10.0.0.1:2")).write_to_bytes();
    assert_eq!(async_tcp::Client::received(&buf), Ok(Some("10.0.0.1:2".to_string())));
    assert_eq!(async_tcp::Client::received(b""), Ok(None));
    assert_eq!(async_tcp::Client::received(b"\x0a"), Err(Failure::InvalidMessage));
    assert_eq!(c.accept(false), Err(Failure::NotListening));
    c.listen(v4(40000));
    assert_eq!(c.accept(false), Ok(()));
    assert_eq!(c.accept(true), Err(Failure::Exit));
}

#[test]
fn reading_ends_when_nothing_can_be_read() {
    let message = |cmd: RespCmd| RecvEvent::Message(resp(cmd).write_to_bytes());
    assert_eq!(recv_step(RecvEvent::Exit), RecvStep::Stop);
    assert_eq!(recv_step(RecvEvent::Failed), RecvStep::StopAndTell);
    assert_eq!(recv_step(RecvEvent::Message(b"\x0a".to_vec())), RecvStep::StopAndTell);
    assert_eq!(recv_step(message(RespCmd::Pong(Pong {}))), RecvStep::Continue);
    assert_eq!(recv_step(message(redirect("l", "x"))), RecvStep::Continue);
    assert_eq!(recv_step(RecvEvent::Message(Vec::new())), RecvStep::Continue);
    assert_eq!(recv_step(message(fsync("c", "nowhere"))), RecvStep::Open("nowhere".to_string()));
    assert_eq!(open_step(v4(1), None), OpenStep::Fail(Failure::InvalidFsyncAddr));
    let dial = Dial { local: v4(1), remote: v4(2) };
    assert_eq!(open_step(v4(1), Some(v4(2))), OpenStep::Connect(dial));
}

#[test]
fn pinging_ends_when_nothing_can_be_written() {
    assert_eq!(ping_step(PingEvent::Started), PingStep::Ping);
    assert_eq!(ping_step(PingEvent::Written), PingStep::Rest);
    assert_eq!(ping_step(PingEvent::Rested), PingStep::Ping);
    assert_eq!(ping_step(PingEvent::WriteFailed), PingStep::StopAndTell);
    assert_eq!(ping_step(PingEvent::Exit), PingStep::Stop);
}

#[test]
fn intervals() {
    assert_eq!(PING_INTERVAL, 10_000_000_000);
    assert_eq!(READ_TIMEOUT, 30_000_000_000);
    assert_eq!(RETRY_INTERVAL, 120_000_000_000);
    assert_eq!(PUNCH_TIMEOUT, 1_000);
    assert_eq!(OPEN_TIMEOUT, 1_000_000_000);
}

// The server

/// A server with a handler for each of two connections.
fn two_handlers() -> (Server, PeerHandler, PeerHandler) {
    let mut s = Server::new();
    let a = s.accepted(at(1));
    let b = s.accepted(at(2));
    (s, a, b)
}

#[test]
fn connections_are_numbered() {
    let mut s = Server::new();
    assert_eq!(s.next_id(), 1);
    let h = s.accepted(at(7));
    assert_eq!(h, PeerHandler { peer_id: String::new(), id: 2, addr: at(7) });
    assert_eq!(s.count, 2);
}

#[test]
fn a_ping_names_the_peer() {
    let (mut s, mut a, _) = two_handlers();
    let r = a.handle_cmds(&mut s.peers, Some(ping("l")), 5);
    assert_eq!(r, Ok(Effect::Respond(resp(RespCmd::Pong(Pong {})))));
    assert_eq!(a.peer_id, "l");
    let p = s.peers.get(&"l".to_string()).unwrap();
    assert_eq!((p.id, p.last_ping, &p.addr), (1, 5, &at(1)));
    a.handle_cmds(&mut s.peers, Some(ping("l")), 8).unwrap();
    let p = s.peers.get(&"l".to_string()).unwrap();
    assert_eq!((p.id, p.last_ping, &p.addr), (1, 8, &at(1)));
}

#[test]
fn an_unknown_target_is_told_over_the_connection() {
    let (mut s, _, mut b) = two_handlers();
    let r = b.handle_cmds(&mut s.peers, Some(req("c", isync_cmd("l"))), 0);
    assert_eq!(r, Ok(Effect::Respond(resp(redirect("l", "")))));
    assert!(s.peers.get(&"c".to_string()).is_none());
    assert_eq!(b.peer_id, "");
}

#[test]
fn a_connection_request_is_handed_over() {
    let (mut s, mut a, mut b) = two_handlers();
    a.handle_cmds(&mut s.peers, Some(ping("l")), 0).unwrap();
    let r = b.handle_cmds(&mut s.peers, Some(req("c", isync_cmd("l"))), 0);
    let forwarded =
        ReqCmd::Fsync(Fsync::new("c".to_string(), "10.0.0.1:2".to_string()));
    assert_eq!(
        r,
        Ok(Effect::Introduce { to: 1, req: req("", forwarded), src_id: "c".to_string() })
    );
    b.insert_peerstate(&mut s.peers, "c".to_string(), 3);
    assert_eq!(b.peer_id, "c");
    let p = s.peers.get(&"c".to_string()).unwrap();
    assert_eq!((p.id, p.last_ping, &p.addr), (2, 3, &at(2)));
}

#[test]
fn a_forwarded_request_is_passed_on_as_it_came() {
    let (mut s, mut a, _) = two_handlers();
    // Besides its own fields a string, a number and four bytes with one number, and a group.
    let mut buf = b"\x0a\x01x\x22\x17\x3a\x01z\x0a\x01c\x38\x96\x01\x3d\x01\x02\x03\x04".to_vec();
    buf.extend_from_slice(b"\x3b\x08\x01\x3c\x12\x031:2");
    let req = read_req(&buf).unwrap();
    let sent = match a.handle_cmds(&mut s.peers, Some(req), 0).unwrap() {
        Effect::Respond(resp) => send_response(resp),
        other => panic!("{:?}", other),
    };
    assert_eq!(
        sent,
        b"\x00\x15\x22\x13\x0a\x01c\x12\x031:2\x3d\x01\x02\x03\x04\x38\x96\x01\x3a\x01z".to_vec()
    );
}

#[test]
fn unknown_fields_are_passed_on_in_whatever_order() {
    let (mut s, mut a, _) = two_handlers();
    // Fields with the numbers 1, 7, 8 and 9, and one of them twice.
    let fsync = b"\x08\x05\x0a\x01c\x38\x01\x42\x02hi\x12\x031:2\x38\x02\x49\x01\x02\x03\x04\x05\x06\x07\x08";
    let mut buf = vec![0x22, fsync.len() as u8];
    buf.extend_from_slice(fsync);
    let asked = read_req(&buf).unwrap();
    let sent = match a.handle_cmds(&mut s.peers, Some(asked), 0).unwrap() {
        Effect::Respond(resp) => send_response(resp),
        other => panic!("{:?}", other),
    };
    assert_eq!(sent.len(), 2 + buf.len());
    // The response has the field number of the request.
    let asked = read_req(&buf).unwrap().cmd;
    let told = Response::parse_from_bytes(payload(&sent)).unwrap().cmd;
    match (asked, told) {
        (Some(ReqCmd::Fsync(asked)), Some(RespCmd::Fsync(told))) => {
            assert_eq!(told, asked);
            assert_ne!(told, Fsync::new("c".to_string(), "1:2".to_string()));
        }
        other => panic!("{:?}", other),
    }
}

#[test]
fn an_expectation_finds_its_way() {
    let (mut s, mut a, mut b) = two_handlers();
    // Nobody is known.
    let r = a.handle_cmds(&mut s.peers, Some(req("l", rsync_cmd("c"))), 0);
    assert_eq!(r, Ok(Effect::Nothing));
    b.handle_cmds(&mut s.peers, Some(ping("c")), 0).unwrap();
    // Handed to the handler of the one that is expected.
    let r = a.handle_cmds(&mut s.peers, Some(req("l", rsync_cmd("c"))), 0);
    assert_eq!(r, Ok(Effect::Forward { to: 2, req: req("l", rsync_cmd("c")) }));
    // There, the one that expects is not known.
    let r = b.handle_cmds(&mut s.peers, Some(req("l", rsync_cmd("c"))), 0);
    assert_eq!(r, Ok(Effect::Nothing));
    a.handle_cmds(&mut s.peers, Some(ping("l")), 0).unwrap();
    let r = b.handle_cmds(&mut s.peers, Some(req("l", rsync_cmd("c"))), 0);
    assert_eq!(r, Ok(Effect::Respond(resp(redirect("l", "10.0.0.1:1")))));
}

#[test]
fn the_end_of_the_requests() {
    let (mut s, mut a, _) = two_handlers();
    let r = a.handle_cmds(&mut s.peers, Some(req("l", ReqCmd::Bye(Bye {}))), 0);
    assert_eq!(r, Err(Failure::ByeReceived));
    let r = a.handle_cmds(&mut s.peers, Some(Request::new()), 0);
    assert_eq!(r, Err(Failure::UnknownCommand));
    assert_eq!(a.handle_cmds(&mut s.peers, None, 0), Err(Failure::HandlerClosed));
}

#[test]
fn a_peer_leaves_with_its_connection() {
    let (mut s, mut a, b) = two_handlers();
    a.handle_cmds(&mut s.peers, Some(ping("l")), 0).unwrap();
    b.disconnected(&mut s.peers);
    assert!(s.peers.get(&"l".to_string()).is_some());
    a.disconnected(&mut s.peers);
    assert!(s.peers.get(&"l".to_string()).is_none());
}

#[test]
fn a_newer_connection_takes_over() {
    let (mut s, mut a, mut b) = two_handlers();
    a.handle_cmds(&mut s.peers, Some(ping("l")), 0).unwrap();
    b.handle_cmds(&mut s.peers, Some(ping("l")), 1).unwrap();
    a.disconnected(&mut s.peers);
    let p = s.peers.get(&"l".to_string()).unwrap();
    assert_eq!((p.id, p.last_ping, &p.addr), (2, 1, &at(2)));
}

#[test]
fn a_connection_with_two_identities_leaves_the_first_one_behind() {
    let (mut s, mut a, _) = two_handlers();
    a.handle_cmds(&mut s.peers, Some(ping("x")), 0).unwrap();
    a.handle_cmds(&mut s.peers, Some(ping("y")), 0).unwrap();
    a.disconnected(&mut s.peers);
    assert!(s.peers.get(&"x".to_string()).is_some());
    assert!(s.peers.get(&"y".to_string()).is_none());
}

#[test]
fn requests_of_a_server_are_short() {
    assert_eq!(request_len([0, 0]), Ok(0));
    assert_eq!(request_len([5, 220]), Ok(1500));
    assert_eq!(request_len([5, 221]), Err(Failure::InvalidSize));
    assert_eq!(read_req(&ping("l").write_to_bytes()), Ok(ping("l")));
    assert_eq!(read_req(b"\x0a"), Err(Failure::InvalidRequest));
}

#[test]
fn reading_ends_with_a_leave_or_in_silence() {
    assert_eq!(read_reqs(ReadEvent::Request(ping("l"))), ReadStep::Queue(ping("l")));
    assert_eq!(
        read_reqs(ReadEvent::Failed),
        ReadStep::QueueAndStop(req("", ReqCmd::Bye(Bye {})), Failure::ReadFailed)
    );
    assert_eq!(read_reqs(ReadEvent::Elapsed), ReadStep::Stop(Failure::TimedOut));
    assert_eq!(queued(true), Ok(()));
    assert_eq!(queued(false), Err(Failure::QueueClosed));
}

// All together

#[test]
fn a_rendezvous_over_streams() {
    let (mut s, mut a, mut b) = two_handlers();
    let id = "l".to_string();

    let ping = next_write(&id, WriteEvent::Queued(first_request())).unwrap();
    assert_eq!(request_len([ping[0], ping[1]]), Ok(ping.len() - 2));
    let ping = read_req(payload(&ping)).unwrap();
    a.handle_cmds(&mut s.peers, Some(ping), 0).unwrap();

    let c = client::Client::new("s:1", "c", None).unwrap();
    let isync = read_req(payload(&c.connect("l"))).unwrap();
    let forwarded = match b.handle_cmds(&mut s.peers, Some(isync), 1).unwrap() {
        Effect::Introduce { to, req, src_id } => {
            assert_eq!(to, 1);
            b.insert_peerstate(&mut s.peers, src_id, 1);
            req
        }
        other => panic!("{:?}", other),
    };
    let fsync = match a.handle_cmds(&mut s.peers, Some(forwarded), 2).unwrap() {
        Effect::Respond(resp) => send_response(resp),
        other => panic!("{:?}", other),
    };
    let rsync = match handle_resp(payload(&fsync)).unwrap() {
        Reaction::Punch { addr, rsync } => {
            assert_eq!(addr, at(2).text);
            next_write(&id, WriteEvent::Queued(rsync)).unwrap()
        }
        other => panic!("{:?}", other),
    };
    let rsync = read_req(payload(&rsync)).unwrap();
    let handed = match a.handle_cmds(&mut s.peers, Some(rsync), 3).unwrap() {
        Effect::Forward { to, req } => {
            assert_eq!(to, 2);
            req
        }
        other => panic!("{:?}", other),
    };
    let redirect = match b.handle_cmds(&mut s.peers, Some(handed), 4).unwrap() {
        Effect::Respond(resp) => send_response(resp),
        other => panic!("{:?}", other),
    };
    assert_eq!(redirected(payload(&redirect)), Ok(at(1).text));
}

#[test]
fn a_refused_rendezvous_over_streams() {
    let (mut s, _, mut b) = two_handlers();
    let c = client_async::Client::new("s:1", "c", None).unwrap();
    let isync = read_req(payload(&c.connect("l"))).unwrap();
    let redirect = match b.handle_cmds(&mut s.peers, Some(isync), 1).unwrap() {
        Effect::Respond(resp) => send_response(resp),
        other => panic!("{:?}", other),
    };
    assert_eq!(redirected(payload(&redirect)), Ok(String::new()));
}
