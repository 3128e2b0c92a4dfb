use rndz::error::Failure;
use rndz::frame::{frame, payload_len};
use rndz::proto::{
    Bye, Fsync, Isync, Ping, Pong, Redirect, ReqCmd, Request, RespCmd, Response, Rsync,
};

fn req(id: &str, cmd: Option<ReqCmd>) -> Request {
    Request { id: id.to_string(), cmd }
}

fn resp(id: &str, cmd: Option<RespCmd>) -> Response {
    Response { id: id.to_string(), cmd }
}

fn isync(id: &str) -> ReqCmd {
    ReqCmd::Isync(Isync { id: id.to_string() })
}

#[test]
fn requests_have_the_expected_bytes() {
    assert_eq!(Request::new().write_to_bytes(), Vec::<u8>::new());
    assert_eq!(req("c1", None).write_to_bytes(), b"\x0a\x02c1".to_vec());
    assert_eq!(
        req("c1", Some(ReqCmd::Ping(Ping {}))).write_to_bytes(),
        b"\x0a\x02c1\x12\x00".to_vec()
    );
    assert_eq!(
        req("c2", Some(isync("c1"))).write_to_bytes(),
        b"\x0a\x02c2\x1a\x04\x0a\x02c1".to_vec()
    );
    assert_eq!(
        req("", Some(ReqCmd::Fsync(Fsync::new("c".to_string(), "1:2".to_string()))))
            .write_to_bytes(),
        b"\x22\x08\x0a\x01c\x12\x031:2".to_vec()
    );
    assert_eq!(
        req("a", Some(ReqCmd::Rsync(Rsync { id: "b".to_string() }))).write_to_bytes(),
        b"\x0a\x01a\x2a\x03\x0a\x01b".to_vec()
    );
    assert_eq!(
        req("a", Some(ReqCmd::Bye(Bye {}))).write_to_bytes(),
        b"\x0a\x01a\x32\x00".to_vec()
    );
}

#[test]
fn responses_have_the_expected_bytes() {
    assert_eq!(Response::new().write_to_bytes(), Vec::<u8>::new());
    assert_eq!(
        resp("c1", Some(RespCmd::Pong(Pong {}))).write_to_bytes(),
        b"\x0a\x02c1\x12\x00".to_vec()
    );
    assert_eq!(
        resp("c", Some(RespCmd::Redirect(Redirect { id: "t".to_string(), addr: String::new() })))
            .write_to_bytes(),
        b"\x0a\x01c\x1a\x03\x0a\x01t".to_vec()
    );
    assert_eq!(
        resp("c", Some(RespCmd::Fsync(Fsync::new(String::new(), "x".to_string()))))
            .write_to_bytes(),
        b"\x0a\x01c\x22\x03\x12\x01x".to_vec()
    );
    assert_eq!(
        resp("c", Some(RespCmd::Rsync(Rsync { id: "l".to_string() }))).write_to_bytes(),
        b"\x0a\x01c\x2a\x03\x0a\x01l".to_vec()
    );
}

#[test]
fn requests_are_read_back() {
    let long = "x".repeat(300);
    for r in [
        req("", None),
        req("c1", None),
        req("c1", Some(ReqCmd::Ping(Ping {}))),
        req(&long, Some(isync(&long))),
        req("grüße", Some(isync("世界"))),
        req("", Some(ReqCmd::Fsync(Fsync::new(long.clone(), "[::1]:80".to_string())))),
        req("a", Some(ReqCmd::Fsync(Fsync::new(String::new(), String::new())))),
        req("a", Some(ReqCmd::Rsync(Rsync { id: "b".to_string() }))),
        req("a", Some(ReqCmd::Bye(Bye {}))),
    ] {
        let copy = Request::parse_from_bytes(&Request { ..duplicate(&r) }.write_to_bytes());
        assert_eq!(copy, Ok(r));
    }
}

fn duplicate(r: &Request) -> Request {
    let cmd = match &r.cmd {
        None => None,
        Some(ReqCmd::Ping(_)) => Some(ReqCmd::Ping(Ping {})),
        Some(ReqCmd::Isync(m)) => Some(isync(&m.id)),
        Some(ReqCmd::Fsync(m)) => {
            Some(ReqCmd::Fsync(Fsync::new(m.id.clone(), m.addr.clone())))
        }
        Some(ReqCmd::Rsync(m)) => Some(ReqCmd::Rsync(Rsync { id: m.id.clone() })),
        Some(ReqCmd::Bye(_)) => Some(ReqCmd::Bye(Bye {})),
    };
    req(&r.id, cmd)
}

#[test]
fn responses_are_read_back() {
    let buf = resp("c", Some(RespCmd::Pong(Pong {}))).write_to_bytes();
    assert_eq!(Response::parse_from_bytes(&buf), Ok(resp("c", Some(RespCmd::Pong(Pong {})))));
    let rdr = || RespCmd::Redirect(Redirect { id: "l".to_string(), addr: "1.2.3.4:5".to_string() });
    let buf = resp("c", Some(rdr())).write_to_bytes();
    assert_eq!(Response::parse_from_bytes(&buf), Ok(resp("c", Some(rdr()))));
    let fsync = || RespCmd::Fsync(Fsync::new("c".to_string(), "1.2.3.4:5".to_string()));
    let buf = resp("l", Some(fsync())).write_to_bytes();
    assert_eq!(Response::parse_from_bytes(&buf), Ok(resp("l", Some(fsync()))));
    let rsync = || RespCmd::Rsync(Rsync { id: "l".to_string() });
    let buf = resp("c", Some(rsync())).write_to_bytes();
    assert_eq!(Response::parse_from_bytes(&buf), Ok(resp("c", Some(rsync()))));
}

#[test]
fn the_last_of_each_field_counts() {
    // Two identities and two commands.
    let buf = b"\x0a\x01a\x1a\x03\x0a\x01x\x0a\x01b\x12\x00";
    assert_eq!(Request::parse_from_bytes(buf), Ok(req("b", Some(ReqCmd::Ping(Ping {})))));
    // Twice the same command: nothing of the first one is kept.
    let buf = b"\x22\x06\x0a\x01x\x12\x01y\x22\x03\x12\x01z";
    assert_eq!(
        Request::parse_from_bytes(buf),
        Ok(req("", Some(ReqCmd::Fsync(Fsync::new(String::new(), "z".to_string())))))
    );
}

#[test]
fn unknown_fields_are_skipped() {
    // A varint, eight bytes, a string, a group and four bytes, before and inside the command.
    let before = b"\x38\x96\x01\x41\x01\x02\x03\x04\x05\x06\x07\x08\x52\x02hi\x63\x08\x01\x64\x6d\x01\x02\x03\x04";
    let mut buf = b"\x0a\x02c1".to_vec();
    buf.extend_from_slice(before);
    buf.extend_from_slice(b"\x1a\x09\x18\x05\x0a\x02c2\x22\x01z");
    assert_eq!(Request::parse_from_bytes(&buf), Ok(req("c1", Some(isync("c2")))));
    // Other commands do not keep them.
    let read = Request::parse_from_bytes(b"\x0a\x02c1\x12\x02\x38\x01").unwrap();
    assert_eq!(read.write_to_bytes(), b"\x0a\x02c1\x12\x00".to_vec());
    // A leave is no command of a response.
    assert_eq!(Response::parse_from_bytes(b"\x0a\x01c\x32\x00"), Ok(resp("c", None)));
}

#[test]
fn unknown_groups_may_nest_but_not_too_deep() {
    let nested = |depth: usize| {
        let mut buf = vec![0x0b; depth];
        buf.extend(vec![0x0c; depth]);
        buf.extend_from_slice(b"\x0a\x02c1");
        buf
    };
    assert_eq!(Request::parse_from_bytes(&nested(50)), Ok(req("c1", None)));
    assert_eq!(Request::parse_from_bytes(&nested(1000)), Err(Failure::InvalidMessage));
    assert_eq!(Request::parse_from_bytes(&vec![0x0b; 1_000_000]), Err(Failure::InvalidMessage));
}

#[test]
fn a_command_that_ends_too_early_is_taken_as_far_as_it_goes() {
    assert_eq!(Request::parse_from_bytes(b"\x0a\x01a\x1a\x7f\x0a\x01x"), Ok(req("a", Some(isync("x")))));
    assert_eq!(Request::parse_from_bytes(b"\x12\x05"), Ok(req("", Some(ReqCmd::Ping(Ping {})))));
}

#[test]
fn what_is_no_message_is_refused() {
    for buf in [
        &b"\x0a"[..],                   // no length
        b"\x0a\x05ab",                  // a string that is cut
        b"\x0a\x01\xff",                // a string that is no UTF-8
        b"\xff\xff\xff\xff\xff\x01",    // a tag that is too long
        b"\x0f",                        // a wire type that does not exist
        b"\x00\x00",                    // a field that does not exist
        b"\x0c",                        // the end of a group that did not begin
        b"\x1a",                        // a command without a length
        b"\x1a\x03\x0a\x05a",           // a string that is cut in a command
        b"\x12\xff\xff\xff\xff\xff\xff\xff\xff\xff\x01", // a command beyond all bounds
        b"\x38",                        // an unknown field without a value
        b"\x52\x05ab",                  // an unknown field that is cut
    ] {
        assert_eq!(Request::parse_from_bytes(buf), Err(Failure::InvalidMessage), "{:?}", buf);
        assert_eq!(Response::parse_from_bytes(buf), Err(Failure::InvalidMessage), "{:?}", buf);
    }
}

#[test]
fn frames_begin_with_their_length() {
    assert_eq!(frame(b""), vec![0, 0]);
    assert_eq!(frame(b"abc"), vec![0, 3, b'a', b'b', b'c']);
    let f = frame(&[7; 0x0234]);
    assert_eq!(f[..3], [2, 0x34, 7]);
    assert_eq!(f.len(), 2 + 0x0234);
    assert_eq!(payload_len([2, 0x34]), 0x0234);
    assert_eq!(payload_len([0xff, 0xff]), 65535);
}

#[test]
fn a_frame_keeps_its_payload() {
    let payload: Vec<u8> = (0..1000u32).map(|i| (i % 251) as u8).collect();
    let f = frame(&payload);
    let n = payload_len([f[0], f[1]]);
    assert_eq!(f[2..2 + n], payload[..]);
}

#[test]
fn a_length_is_cut_to_sixteen_bits() {
    let f = frame(&[9; 65537]);
    assert_eq!(f.len(), 65539);
    assert_eq!(payload_len([f[0], f[1]]), 1);
}

#[test]
fn failures_are_told_in_words() {
    assert_eq!(Failure::NoServers.message(), "No server addresses provided");
    assert_eq!(Failure::ResolveFailed.message(), "server name resolve fail");
    assert_eq!(Failure::NoAddress.message(), "No address found");
    assert_eq!(Failure::InvalidResponse.message(), "invalid server response");
    assert_eq!(Failure::TargetIdNotFound.message(), "target id not found");
    assert_eq!(Failure::InvalidMessage.message(), "invalid message");
    assert_eq!(Failure::InvalidSize.message(), "invalid message size");
    assert_eq!(Failure::InvalidRequest.message(), "failed to parse request");
    assert_eq!(Failure::InvalidFsyncAddr.message(), "invalid fsync addr");
    assert_eq!(Failure::NotListening.message(), "not listening");
    assert_eq!(Failure::Exit.message(), "exit");
    assert_eq!(Failure::TargetNotFound.message(), "Target not found");
    assert_eq!(Failure::UnknownTarget.message(), "target not found");
    assert_eq!(Failure::NoResponse.message(), "No response from any server");
    assert_eq!(Failure::ByeReceived.message(), "received bye command");
    assert_eq!(Failure::UnknownCommand.message(), "unknown command received");
    assert_eq!(Failure::HandlerClosed.message(), "cmd handler channel closed");
    assert_eq!(Failure::QueueClosed.message(), "mpsc channel closed");
    assert_eq!(Failure::ReadFailed.message(), "timeout reading request");
    assert_eq!(Failure::TimedOut.message(), "timed out");
    assert_eq!(Failure::NotConnected.message(), "not connected");
}
