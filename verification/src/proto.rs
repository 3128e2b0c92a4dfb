//! The messages of the protocol.
//!
//! A peer sends a [`Request`], a server answers with a [`Response`]. Each names a peer and holds
//! one command.
use crate::envelope::{
    Envelope, EnvelopeView, Kind, Payload, PayloadView, REQ_BYE, REQ_FSYNC, REQ_ISYNC, REQ_PING,
    REQ_RSYNC, RESP_FSYNC, RESP_PONG, RESP_REDIRECT, RESP_RSYNC,
};
use crate::error::Failure;
use crate::unknown::Unknown;
use vstd::prelude::*;

verus! {

/// Keeps a registration alive.
#[derive(Debug, PartialEq, Eq)]
pub struct Ping {}

/// Answers a [`Ping`].
#[derive(Debug, PartialEq, Eq)]
pub struct Pong {}

/// Asks for a connection to the peer `id`.
#[derive(Debug, PartialEq, Eq)]
pub struct Isync {
    pub id: String,
}

/// Tells where the peer `id` is; `addr` is empty where it is not known.
#[derive(Debug, PartialEq, Eq)]
pub struct Redirect {
    pub id: String,
    pub addr: String,
}

/// Tells that the peer `id`, seen at `addr`, asks for a connection.
///
/// A server passes it on as it came, with the fields that it does not know.
#[derive(Debug, PartialEq, Eq)]
pub struct Fsync {
    pub id: String,
    pub addr: String,
    pub unknown: Unknown,
}

/// Tells that the connection which the peer `id` asked for is expected.
#[derive(Debug, PartialEq, Eq)]
pub struct Rsync {
    pub id: String,
}

/// Ends a registration.
#[derive(Debug, PartialEq, Eq)]
pub struct Bye {}

/// What a request asks for.
#[derive(Debug, PartialEq, Eq)]
pub enum ReqCmd {
    Ping(Ping),
    Isync(Isync),
    Fsync(Fsync),
    Rsync(Rsync),
    Bye(Bye),
}

/// What a response tells.
#[derive(Debug, PartialEq, Eq)]
pub enum RespCmd {
    Pong(Pong),
    Redirect(Redirect),
    Fsync(Fsync),
    Rsync(Rsync),
}

/// A message from the peer `id`.
#[derive(Debug, PartialEq, Eq)]
pub struct Request {
    pub id: String,
    pub cmd: Option<ReqCmd>,
}

/// A message for the peer `id`.
#[derive(Debug, PartialEq, Eq)]
pub struct Response {
    pub id: String,
    pub cmd: Option<RespCmd>,
}

// ---------------------------------------------------------------------------------------------
// The model
// ---------------------------------------------------------------------------------------------

#[verifier::ext_equal]
pub enum ReqCmdView {
    Ping,
    Isync { id: Seq<char> },
    Fsync {
        id: Seq<char>,
        addr: Seq<char>,
        unknown: Map<u32, Seq<crate::wire::UnknownValue>>,
    },
    Rsync { id: Seq<char> },
    Bye,
}

#[verifier::ext_equal]
pub enum RespCmdView {
    Pong,
    Redirect { id: Seq<char>, addr: Seq<char> },
    Fsync {
        id: Seq<char>,
        addr: Seq<char>,
        unknown: Map<u32, Seq<crate::wire::UnknownValue>>,
    },
    Rsync { id: Seq<char> },
}

#[verifier::ext_equal]
pub struct RequestView {
    pub id: Seq<char>,
    pub cmd: Option<ReqCmdView>,
}

#[verifier::ext_equal]
pub struct ResponseView {
    pub id: Seq<char>,
    pub cmd: Option<RespCmdView>,
}

impl View for ReqCmd {
    type V = ReqCmdView;

    open spec fn view(&self) -> ReqCmdView {
        match self {
            ReqCmd::Ping(_) => ReqCmdView::Ping,
            ReqCmd::Isync(m) => ReqCmdView::Isync { id: m.id@ },
            ReqCmd::Fsync(m) => ReqCmdView::Fsync {
                id: m.id@,
                addr: m.addr@,
                unknown: m.unknown@,
            },
            ReqCmd::Rsync(m) => ReqCmdView::Rsync { id: m.id@ },
            ReqCmd::Bye(_) => ReqCmdView::Bye,
        }
    }
}

impl View for RespCmd {
    type V = RespCmdView;

    open spec fn view(&self) -> RespCmdView {
        match self {
            RespCmd::Pong(_) => RespCmdView::Pong,
            RespCmd::Redirect(m) => RespCmdView::Redirect { id: m.id@, addr: m.addr@ },
            RespCmd::Fsync(m) => RespCmdView::Fsync {
                id: m.id@,
                addr: m.addr@,
                unknown: m.unknown@,
            },
            RespCmd::Rsync(m) => RespCmdView::Rsync { id: m.id@ },
        }
    }
}

impl View for Request {
    type V = RequestView;

    open spec fn view(&self) -> RequestView {
        RequestView {
            id: self.id@,
            cmd: match self.cmd {
                Some(c) => Some(c@),
                None => None,
            },
        }
    }
}

impl View for Response {
    type V = ResponseView;

    open spec fn view(&self) -> ResponseView {
        ResponseView {
            id: self.id@,
            cmd: match self.cmd {
                Some(c) => Some(c@),
                None => None,
            },
        }
    }
}

// ---------------------------------------------------------------------------------------------
// On the wire
// ---------------------------------------------------------------------------------------------

impl ReqCmdView {
    /// The peer `id`, seen at `addr`, asks for a connection; nothing unknown comes with it.
    pub open spec fn fsync(id: Seq<char>, addr: Seq<char>) -> ReqCmdView {
        ReqCmdView::Fsync { id, addr, unknown: crate::wire::no_fields() }
    }

    /// The field that this command is.
    pub open spec fn payload(self) -> PayloadView {
        match self {
            ReqCmdView::Ping => PayloadView {
                field: REQ_PING as nat,
                first: Seq::empty(),
                second: Seq::empty(),
                unknown: crate::wire::no_fields(),
            },
            ReqCmdView::Isync { id } => PayloadView {
                field: REQ_ISYNC as nat,
                first: id,
                second: Seq::empty(),
                unknown: crate::wire::no_fields(),
            },
            ReqCmdView::Fsync { id, addr, unknown } => PayloadView {
                field: REQ_FSYNC as nat,
                first: id,
                second: addr,
                unknown,
            },
            ReqCmdView::Rsync { id } => PayloadView {
                field: REQ_RSYNC as nat,
                first: id,
                second: Seq::empty(),
                unknown: crate::wire::no_fields(),
            },
            ReqCmdView::Bye => PayloadView {
                field: REQ_BYE as nat,
                first: Seq::empty(),
                second: Seq::empty(),
                unknown: crate::wire::no_fields(),
            },
        }
    }

    /// The command that a field of a request is.
    pub open spec fn of(p: PayloadView) -> ReqCmdView {
        if p.field == REQ_PING {
            ReqCmdView::Ping
        } else if p.field == REQ_ISYNC {
            ReqCmdView::Isync { id: p.first }
        } else if p.field == REQ_FSYNC {
            ReqCmdView::Fsync { id: p.first, addr: p.second, unknown: p.unknown }
        } else if p.field == REQ_RSYNC {
            ReqCmdView::Rsync { id: p.first }
        } else {
            ReqCmdView::Bye
        }
    }
}

impl RespCmdView {
    /// The peer `id`, seen at `addr`, asks for a connection; nothing unknown comes with it.
    pub open spec fn fsync(id: Seq<char>, addr: Seq<char>) -> RespCmdView {
        RespCmdView::Fsync { id, addr, unknown: crate::wire::no_fields() }
    }

    /// The field that this command is.
    pub open spec fn payload(self) -> PayloadView {
        match self {
            RespCmdView::Pong => PayloadView {
                field: RESP_PONG as nat,
                first: Seq::empty(),
                second: Seq::empty(),
                unknown: crate::wire::no_fields(),
            },
            RespCmdView::Redirect { id, addr } => PayloadView {
                field: RESP_REDIRECT as nat,
                first: id,
                second: addr,
                unknown: crate::wire::no_fields(),
            },
            RespCmdView::Fsync { id, addr, unknown } => PayloadView {
                field: RESP_FSYNC as nat,
                first: id,
                second: addr,
                unknown,
            },
            RespCmdView::Rsync { id } => PayloadView {
                field: RESP_RSYNC as nat,
                first: id,
                second: Seq::empty(),
                unknown: crate::wire::no_fields(),
            },
        }
    }

    /// The command that a field of a response is.
    pub open spec fn of(p: PayloadView) -> RespCmdView {
        if p.field == RESP_PONG {
            RespCmdView::Pong
        } else if p.field == RESP_REDIRECT {
            RespCmdView::Redirect { id: p.first, addr: p.second }
        } else if p.field == RESP_FSYNC {
            RespCmdView::Fsync { id: p.first, addr: p.second, unknown: p.unknown }
        } else {
            RespCmdView::Rsync { id: p.first }
        }
    }
}

impl RequestView {
    pub open spec fn envelope(self) -> EnvelopeView {
        EnvelopeView {
            id: self.id,
            cmd: match self.cmd {
                Some(c) => Some(c.payload()),
                None => None,
            },
        }
    }

    pub open spec fn of(e: EnvelopeView) -> RequestView {
        RequestView {
            id: e.id,
            cmd: match e.cmd {
                Some(p) => Some(ReqCmdView::of(p)),
                None => None,
            },
        }
    }

    /// The unknown fields that the request holds.
    pub open spec fn unknown(self) -> Map<u32, Seq<crate::wire::UnknownValue>> {
        self.envelope().unknown()
    }

    /// The request holds no unknown fields.
    pub open spec fn plain(self) -> bool {
        self.unknown() == crate::wire::no_fields()
    }

    /// The unknown fields are such as a reader can have come upon.
    pub open spec fn valid(self) -> bool {
        crate::unknown::valid(self.unknown()) && crate::unknown::foreign(self.unknown())
    }

    /// Every length in the request fits the 32 bits that it gets on the wire, with the unknown
    /// fields in this order.
    pub open spec fn fits_in(self, order: Seq<u32>) -> bool {
        self.envelope().fits(order)
    }

    /// The request as bytes, its unknown fields in this order.
    pub open spec fn bytes_in(self, order: Seq<u32>) -> Seq<u8> {
        crate::envelope::bytes_of(self.envelope(), order)
    }

    /// The same for a request without unknown fields.
    pub open spec fn fits(self) -> bool {
        self.fits_in(Seq::empty())
    }

    /// The same for a request without unknown fields.
    pub open spec fn bytes(self) -> Seq<u8> {
        self.bytes_in(Seq::empty())
    }

    /// These bytes are the request, its unknown fields in some order.
    pub open spec fn written(self, buf: Seq<u8>) -> bool {
        exists|order: Seq<u32>|
            crate::wire::in_order(self.unknown(), order) && buf == #[trigger] self.bytes_in(order)
    }
}

impl ResponseView {
    pub open spec fn envelope(self) -> EnvelopeView {
        EnvelopeView {
            id: self.id,
            cmd: match self.cmd {
                Some(c) => Some(c.payload()),
                None => None,
            },
        }
    }

    pub open spec fn of(e: EnvelopeView) -> ResponseView {
        ResponseView {
            id: e.id,
            cmd: match e.cmd {
                Some(p) => Some(RespCmdView::of(p)),
                None => None,
            },
        }
    }

    /// The unknown fields that the response holds.
    pub open spec fn unknown(self) -> Map<u32, Seq<crate::wire::UnknownValue>> {
        self.envelope().unknown()
    }

    /// The response holds no unknown fields.
    pub open spec fn plain(self) -> bool {
        self.unknown() == crate::wire::no_fields()
    }

    /// The unknown fields are such as a reader can have come upon.
    pub open spec fn valid(self) -> bool {
        crate::unknown::valid(self.unknown()) && crate::unknown::foreign(self.unknown())
    }

    /// Every length in the response fits the 32 bits that it gets on the wire, with the unknown
    /// fields in this order.
    pub open spec fn fits_in(self, order: Seq<u32>) -> bool {
        self.envelope().fits(order)
    }

    /// The response as bytes, its unknown fields in this order.
    pub open spec fn bytes_in(self, order: Seq<u32>) -> Seq<u8> {
        crate::envelope::bytes_of(self.envelope(), order)
    }

    /// The same for a response without unknown fields.
    pub open spec fn fits(self) -> bool {
        self.fits_in(Seq::empty())
    }

    /// The same for a response without unknown fields.
    pub open spec fn bytes(self) -> Seq<u8> {
        self.bytes_in(Seq::empty())
    }

    /// These bytes are the response, its unknown fields in some order.
    pub open spec fn written(self, buf: Seq<u8>) -> bool {
        exists|order: Seq<u32>|
            crate::wire::in_order(self.unknown(), order) && buf == #[trigger] self.bytes_in(order)
    }
}

/// A request of the peer `id`.
pub open spec fn request(id: Seq<char>, cmd: ReqCmdView) -> RequestView {
    RequestView { id, cmd: Some(cmd) }
}

/// A response for the peer `id`.
pub open spec fn response(id: Seq<char>, cmd: RespCmdView) -> ResponseView {
    ResponseView { id, cmd: Some(cmd) }
}

/// The request that these bytes are, or `None` where they are none.
pub open spec fn parse_request(s: Seq<u8>) -> Option<RequestView> {
    match crate::envelope::parse(Kind::Request, s) {
        Some(e) => Some(RequestView::of(e)),
        None => None,
    }
}

/// The response that these bytes are, or `None` where they are none.
pub open spec fn parse_response(s: Seq<u8>) -> Option<ResponseView> {
    match crate::envelope::parse(Kind::Response, s) {
        Some(e) => Some(ResponseView::of(e)),
        None => None,
    }
}

impl Fsync {
    /// The peer `id`, seen at `addr`, asks for a connection.
    pub fn new(id: String, addr: String) -> (r: Fsync)
        ensures
            r.id@ == id@,
            r.addr@ == addr@,
            r.unknown@ == crate::wire::no_fields(),
    {
        Fsync { id, addr, unknown: Unknown::none() }
    }
}

impl Request {
    /// An empty request.
    pub fn new() -> (r: Request)
        ensures
            r@ == (RequestView { id: Seq::empty(), cmd: None }),
    {
        Request { id: String::new(), cmd: None }
    }

    /// Reads a request. Fields that no request has are skipped.
    pub fn parse_from_bytes(buf: &[u8]) -> (r: Result<Request, Failure>)
        ensures
            match r {
                Ok(req) => parse_request(buf@) == Some(req@),
                Err(e) => e == Failure::InvalidMessage && parse_request(buf@) is None,
            },
    {
        let e = match Envelope::parse_from_bytes(Kind::Request, buf) {
            Ok(e) => e,
            Err(e) => {
                return Err(e);
            },
        };
        let cmd = match e.cmd {
            None => None,
            Some(p) => Some(
                match p.field {
                    REQ_PING => ReqCmd::Ping(Ping {  }),
                    REQ_ISYNC => ReqCmd::Isync(Isync { id: p.first }),
                    REQ_FSYNC => ReqCmd::Fsync(
                        Fsync { id: p.first, addr: p.second, unknown: p.unknown },
                    ),
                    REQ_RSYNC => ReqCmd::Rsync(Rsync { id: p.first }),
                    _ => ReqCmd::Bye(Bye {  }),
                },
            ),
        };
        Ok(Request { id: e.id, cmd })
    }

    /// Writes a request. The order of unknown fields, where there are any, is left open.
    pub fn write_to_bytes(self) -> (r: Vec<u8>)
        ensures
            self@.written(r@),
            self@.plain() ==> r@ == self@.bytes(),
    {
        let cmd = match self.cmd {
            None => None,
            Some(c) => Some(
                match c {
                    ReqCmd::Ping(_) => Payload {
                        field: REQ_PING,
                        first: String::new(),
                        second: String::new(),
                        unknown: Unknown::none(),
                    },
                    ReqCmd::Isync(m) => Payload {
                        field: REQ_ISYNC,
                        first: m.id,
                        second: String::new(),
                        unknown: Unknown::none(),
                    },
                    ReqCmd::Fsync(m) => {
                        proof {
                            use_type_invariant(&m.unknown);
                        }
                        Payload {
                            field: REQ_FSYNC,
                            first: m.id,
                            second: m.addr,
                            unknown: m.unknown,
                        }
                    },
                    ReqCmd::Rsync(m) => Payload {
                        field: REQ_RSYNC,
                        first: m.id,
                        second: String::new(),
                        unknown: Unknown::none(),
                    },
                    ReqCmd::Bye(_) => Payload {
                        field: REQ_BYE,
                        first: String::new(),
                        second: String::new(),
                        unknown: Unknown::none(),
                    },
                },
            ),
        };
        let e = Envelope { id: self.id, cmd };
        assert(e@ =~= self@.envelope());
        let r = e.write_to_bytes(Kind::Request);
        proof {
            let order = choose|order: Seq<u32>|
                crate::wire::in_order(e@.unknown(), order) && r@
                    == #[trigger] crate::envelope::bytes_of(e@, order);
            assert(r@ == self@.bytes_in(order));
            if self@.plain() {
                crate::unknown::lemma_no_order(order);
            }
        }
        r
    }
}

impl Response {
    /// An empty response.
    pub fn new() -> (r: Response)
        ensures
            r@ == (ResponseView { id: Seq::empty(), cmd: None }),
    {
        Response { id: String::new(), cmd: None }
    }

    /// Reads a response. Fields that no response has are skipped.
    pub fn parse_from_bytes(buf: &[u8]) -> (r: Result<Response, Failure>)
        ensures
            match r {
                Ok(resp) => parse_response(buf@) == Some(resp@),
                Err(e) => e == Failure::InvalidMessage && parse_response(buf@) is None,
            },
    {
        let e = match Envelope::parse_from_bytes(Kind::Response, buf) {
            Ok(e) => e,
            Err(e) => {
                return Err(e);
            },
        };
        let cmd = match e.cmd {
            None => None,
            Some(p) => Some(
                match p.field {
                    RESP_PONG => RespCmd::Pong(Pong {  }),
                    RESP_REDIRECT => RespCmd::Redirect(Redirect { id: p.first, addr: p.second }),
                    RESP_FSYNC => RespCmd::Fsync(
                        Fsync { id: p.first, addr: p.second, unknown: p.unknown },
                    ),
                    _ => RespCmd::Rsync(Rsync { id: p.first }),
                },
            ),
        };
        Ok(Response { id: e.id, cmd })
    }

    /// Writes a response. The order of unknown fields, where there are any, is left open.
    pub fn write_to_bytes(self) -> (r: Vec<u8>)
        ensures
            self@.written(r@),
            self@.plain() ==> r@ == self@.bytes(),
    {
        let cmd = match self.cmd {
            None => None,
            Some(c) => Some(
                match c {
                    RespCmd::Pong(_) => Payload {
                        field: RESP_PONG,
                        first: String::new(),
                        second: String::new(),
                        unknown: Unknown::none(),
                    },
                    RespCmd::Redirect(m) => Payload {
                        field: RESP_REDIRECT,
                        first: m.id,
                        second: m.addr,
                        unknown: Unknown::none(),
                    },
                    RespCmd::Fsync(m) => {
                        proof {
                            use_type_invariant(&m.unknown);
                        }
                        Payload {
                            field: RESP_FSYNC,
                            first: m.id,
                            second: m.addr,
                            unknown: m.unknown,
                        }
                    },
                    RespCmd::Rsync(m) => Payload {
                        field: RESP_RSYNC,
                        first: m.id,
                        second: String::new(),
                        unknown: Unknown::none(),
                    },
                },
            ),
        };
        let e = Envelope { id: self.id, cmd };
        assert(e@ =~= self@.envelope());
        let r = e.write_to_bytes(Kind::Response);
        proof {
            let order = choose|order: Seq<u32>|
                crate::wire::in_order(e@.unknown(), order) && r@
                    == #[trigger] crate::envelope::bytes_of(e@, order);
            assert(r@ == self@.bytes_in(order));
            if self@.plain() {
                crate::unknown::lemma_no_order(order);
            }
        }
        r
    }
}

// ---------------------------------------------------------------------------------------------
// Laws
// ---------------------------------------------------------------------------------------------

/// A request whose lengths fit the wire is read back as it was written, with its unknown fields, in
/// whatever order these come.
pub proof fn law_request_round_trip(req: RequestView, order: Seq<u32>)
    requires
        req.valid(),
        crate::wire::in_order(req.unknown(), order),
        req.fits_in(order),
    ensures
        parse_request(req.bytes_in(order)) == Some(req),
{
    crate::envelope::lemma_round_trip(Kind::Request, req.envelope(), order);
    assert(RequestView::of(req.envelope()) =~= req);
}

/// The same for a request without unknown fields.
pub proof fn law_plain_request_round_trip(req: RequestView)
    requires
        req.plain(),
        req.fits(),
    ensures
        parse_request(req.bytes()) == Some(req),
{
    crate::unknown::lemma_no_order(Seq::empty());
    law_request_round_trip(req, Seq::empty());
}

/// A response whose lengths fit the wire is read back as it was written, with its unknown fields,
/// in whatever order these come.
pub proof fn law_response_round_trip(resp: ResponseView, order: Seq<u32>)
    requires
        resp.valid(),
        crate::wire::in_order(resp.unknown(), order),
        resp.fits_in(order),
    ensures
        parse_response(resp.bytes_in(order)) == Some(resp),
{
    crate::envelope::lemma_round_trip(Kind::Response, resp.envelope(), order);
    assert(ResponseView::of(resp.envelope()) =~= resp);
}

/// The same for a response without unknown fields.
pub proof fn law_plain_response_round_trip(resp: ResponseView)
    requires
        resp.plain(),
        resp.fits(),
    ensures
        parse_response(resp.bytes()) == Some(resp),
{
    crate::unknown::lemma_no_order(Seq::empty());
    law_response_round_trip(resp, Seq::empty());
}

/// The lengths of a request fit the wire, unless it holds gigabytes of text.
pub proof fn law_requests_fit(req: RequestView)
    requires
        req.plain(),
        vstd::utf8::encode_utf8(req.id).len() < 0x7fff_ff00,
        match req.cmd {
            Some(ReqCmdView::Isync { id }) => vstd::utf8::encode_utf8(id).len() < 0x7fff_ff00,
            Some(ReqCmdView::Fsync { id, addr, .. }) => vstd::utf8::encode_utf8(id).len()
                < 0x7fff_ff00 && vstd::utf8::encode_utf8(addr).len() < 0x7fff_ff00,
            Some(ReqCmdView::Rsync { id }) => vstd::utf8::encode_utf8(id).len() < 0x7fff_ff00,
            _ => true,
        },
    ensures
        req.fits(),
{
    crate::wire::lemma_varint_bytes_len(8);
    crate::wire::lemma_varint_bytes_len(16);
    crate::wire::lemma_varint_bytes_len(vstd::utf8::encode_utf8(req.id).len());
    if let Some(c) = req.cmd {
        let p = c.payload();
        if p.first.len() > 0 {
            crate::wire::lemma_varint_bytes_len(vstd::utf8::encode_utf8(p.first).len());
        }
        if p.second.len() > 0 {
            crate::wire::lemma_varint_bytes_len(vstd::utf8::encode_utf8(p.second).len());
        }
    }
}

/// The lengths of a response fit the wire, unless it holds gigabytes of text.
pub proof fn law_responses_fit(resp: ResponseView)
    requires
        resp.plain(),
        vstd::utf8::encode_utf8(resp.id).len() < 0x7fff_ff00,
        match resp.cmd {
            Some(RespCmdView::Redirect { id, addr }) => vstd::utf8::encode_utf8(id).len()
                < 0x7fff_ff00 && vstd::utf8::encode_utf8(addr).len() < 0x7fff_ff00,
            Some(RespCmdView::Fsync { id, addr, .. }) => vstd::utf8::encode_utf8(id).len()
                < 0x7fff_ff00 && vstd::utf8::encode_utf8(addr).len() < 0x7fff_ff00,
            Some(RespCmdView::Rsync { id }) => vstd::utf8::encode_utf8(id).len() < 0x7fff_ff00,
            _ => true,
        },
    ensures
        resp.fits(),
{
    crate::wire::lemma_varint_bytes_len(8);
    crate::wire::lemma_varint_bytes_len(16);
    crate::wire::lemma_varint_bytes_len(vstd::utf8::encode_utf8(resp.id).len());
    if let Some(c) = resp.cmd {
        let p = c.payload();
        if p.first.len() > 0 {
            crate::wire::lemma_varint_bytes_len(vstd::utf8::encode_utf8(p.first).len());
        }
        if p.second.len() > 0 {
            crate::wire::lemma_varint_bytes_len(vstd::utf8::encode_utf8(p.second).len());
        }
    }
}

/// Which messages hold no unknown fields: all but a forwarded request that came with some.
pub proof fn law_plain(req: RequestView, resp: ResponseView)
    ensures
        req.plain() <==> (req.cmd matches Some(ReqCmdView::Fsync { unknown, .. }) ==> unknown
            == Map::<u32, Seq<crate::wire::UnknownValue>>::empty()),
        resp.plain() <==> (resp.cmd matches Some(RespCmdView::Fsync { unknown, .. }) ==> unknown
            == Map::<u32, Seq<crate::wire::UnknownValue>>::empty()),
{
}

/// A text behind the byte that says which one it is, or nothing where there is none.
pub open spec fn text_field(tag: u8, s: Seq<char>) -> Seq<u8> {
    if s.len() == 0 {
        Seq::empty()
    } else {
        seq![tag] + crate::wire::varint_bytes(vstd::utf8::encode_utf8(s).len())
            + vstd::utf8::encode_utf8(s)
    }
}

/// A command behind the byte that says which one it is and its length.
pub open spec fn command_field(tag: u8, body: Seq<u8>) -> Seq<u8> {
    seq![tag] + crate::wire::varint_bytes(body.len()) + body
}

/// How a request is laid out on the wire.
pub proof fn law_request_layout(req: RequestView)
    requires
        req.plain(),
        req.fits(),
    ensures
        req.bytes() == text_field(10, req.id) + match req.cmd {
            Some(ReqCmdView::Ping) => command_field(18, Seq::empty()),
            Some(ReqCmdView::Isync { id }) => command_field(26, text_field(10, id)),
            Some(ReqCmdView::Fsync { id, addr, .. }) => command_field(
                34,
                text_field(10, id) + text_field(18, addr),
            ),
            Some(ReqCmdView::Rsync { id }) => command_field(42, text_field(10, id)),
            Some(ReqCmdView::Bye) => command_field(50, Seq::empty()),
            None => Seq::empty(),
        },
{
    crate::envelope::lemma_field_size(1, req.id);
    assert(req.bytes() =~= text_field(10, req.id) + crate::envelope::cmd_bytes(
        req.envelope().cmd,
        Seq::empty(),
    ));
    if let Some(c) = req.cmd {
        let p = c.payload();
        lemma_command_layout(p);
        assert(p.second.len() == 0 ==> text_field(10, p.first) + text_field(18, p.second)
            =~= text_field(10, p.first));
    }
}

/// How a response is laid out on the wire.
pub proof fn law_response_layout(resp: ResponseView)
    requires
        resp.plain(),
        resp.fits(),
    ensures
        resp.bytes() == text_field(10, resp.id) + match resp.cmd {
            Some(RespCmdView::Pong) => command_field(18, Seq::empty()),
            Some(RespCmdView::Redirect { id, addr }) => command_field(
                26,
                text_field(10, id) + text_field(18, addr),
            ),
            Some(RespCmdView::Fsync { id, addr, .. }) => command_field(
                34,
                text_field(10, id) + text_field(18, addr),
            ),
            Some(RespCmdView::Rsync { id }) => command_field(42, text_field(10, id)),
            None => Seq::empty(),
        },
{
    crate::envelope::lemma_field_size(1, resp.id);
    assert(resp.bytes() =~= text_field(10, resp.id) + crate::envelope::cmd_bytes(
        resp.envelope().cmd,
        Seq::empty(),
    ));
    if let Some(c) = resp.cmd {
        let p = c.payload();
        lemma_command_layout(p);
        assert(p.second.len() == 0 ==> text_field(10, p.first) + text_field(18, p.second)
            =~= text_field(10, p.first));
    }
}

proof fn lemma_command_layout(p: PayloadView)
    requires
        0 < p.field < 16,
        crate::envelope::payload_size(p, Seq::empty()) < 0x1_0000_0000,
    ensures
        crate::envelope::cmd_bytes(Some(p), Seq::empty()) == command_field(
            (p.field * 8 + 2) as u8,
            text_field(10, p.first) + text_field(18, p.second),
        ),
{
    let body = text_field(10, p.first) + text_field(18, p.second);
    let tag = crate::wire::tag_of(p.field);
    crate::envelope::lemma_field_size(1, p.first);
    crate::envelope::lemma_field_size(2, p.second);
    assert(crate::envelope::payload_bytes(p, Seq::empty()) =~= body);
    assert(crate::wire::varint_bytes(tag) =~= seq![tag as u8]);
    assert(crate::envelope::cmd_bytes(Some(p), Seq::empty()) =~= command_field(tag as u8, body));
}

/// Two requests one behind the other are read as one: who it is from, and what it asks for, is what
/// the later one says, if it says so. Fields in between that a request does not have do not matter.
pub proof fn law_requests_follow(
    a: RequestView,
    number: u32,
    v: crate::wire::UnknownValue,
    b: RequestView,
)
    requires
        a.plain(),
        a.fits(),
        b.plain(),
        b.fits(),
        0 < number <= 0x1fff_ffff,
        v matches crate::wire::UnknownValue::Bytes(text) ==> text.len() < 0xffff_ff00 && number > 6,
    ensures
        parse_request(a.bytes() + (v.bytes(number) + b.bytes())) == Some(
            RequestView {
                id: if b.id.len() > 0 {
                    b.id
                } else {
                    a.id
                },
                cmd: if b.cmd is Some {
                    b.cmd
                } else {
                    a.cmd
                },
            },
        ),
{
    let rest = v.bytes(number) + b.bytes();
    let nothing = EnvelopeView { id: Seq::empty(), cmd: None };
    let (ea, eb) = (a.envelope(), b.envelope());
    let none = Seq::<u32>::empty();
    crate::unknown::lemma_no_order(none);
    lemma_value_len(number, v);
    crate::envelope::lemma_read_message(Kind::Request, ea, none, rest, 0, nothing);
    if a.id.len() == 0 {
        assert(a.id =~= Seq::empty());
    }
    assert(crate::envelope::followed(nothing, ea) == ea);
    let pos = a.bytes().len();
    crate::envelope::lemma_skip_value(Kind::Request, number, v, b.bytes(), pos, ea);
    let later = pos + v.bytes(number).len();
    crate::envelope::lemma_read_message(Kind::Request, eb, none, Seq::empty(), later, ea);
    assert(b.bytes() + Seq::empty() =~= b.bytes());
    lemma_followed_request(a, b);
}

/// Two responses one behind the other are read as one: whom it is for, and what it tells, is what
/// the later one says, if it says so. Fields in between that a response does not have do not
/// matter.
pub proof fn law_responses_follow(
    a: ResponseView,
    number: u32,
    v: crate::wire::UnknownValue,
    b: ResponseView,
)
    requires
        a.plain(),
        a.fits(),
        b.plain(),
        b.fits(),
        0 < number <= 0x1fff_ffff,
        v matches crate::wire::UnknownValue::Bytes(text) ==> text.len() < 0xffff_ff00 && number > 5,
    ensures
        parse_response(a.bytes() + (v.bytes(number) + b.bytes())) == Some(
            ResponseView {
                id: if b.id.len() > 0 {
                    b.id
                } else {
                    a.id
                },
                cmd: if b.cmd is Some {
                    b.cmd
                } else {
                    a.cmd
                },
            },
        ),
{
    let rest = v.bytes(number) + b.bytes();
    let nothing = EnvelopeView { id: Seq::empty(), cmd: None };
    let (ea, eb) = (a.envelope(), b.envelope());
    let none = Seq::<u32>::empty();
    crate::unknown::lemma_no_order(none);
    lemma_value_len(number, v);
    crate::envelope::lemma_read_message(Kind::Response, ea, none, rest, 0, nothing);
    if a.id.len() == 0 {
        assert(a.id =~= Seq::empty());
    }
    assert(crate::envelope::followed(nothing, ea) == ea);
    let pos = a.bytes().len();
    crate::envelope::lemma_skip_value(Kind::Response, number, v, b.bytes(), pos, ea);
    let later = pos + v.bytes(number).len();
    crate::envelope::lemma_read_message(Kind::Response, eb, none, Seq::empty(), later, ea);
    assert(b.bytes() + Seq::empty() =~= b.bytes());
    lemma_followed_response(a, b);
}

proof fn lemma_value_len(number: u32, v: crate::wire::UnknownValue)
    requires
        crate::wire::short(v),
    ensures
        v.bytes(number).len() < 0x1_0000_0100,
{
    crate::wire::lemma_varint_bytes_len(number as nat * 8 + v.wire_type());
    match v {
        crate::wire::UnknownValue::Fixed32(x) => {
            vstd::bytes::lemma_auto_spec_u32_to_from_le_bytes();
        },
        crate::wire::UnknownValue::Fixed64(x) => {
            vstd::bytes::lemma_auto_spec_u64_to_from_le_bytes();
        },
        crate::wire::UnknownValue::Varint(x) => {
            crate::wire::lemma_varint_bytes_len(x as nat);
        },
        crate::wire::UnknownValue::Bytes(b) => {
            crate::wire::lemma_varint_bytes_len(b.len());
        },
    }
}

proof fn lemma_followed_request(a: RequestView, b: RequestView)
    ensures
        RequestView::of(crate::envelope::followed(a.envelope(), b.envelope())) == (RequestView {
            id: if b.id.len() > 0 {
                b.id
            } else {
                a.id
            },
            cmd: if b.cmd is Some {
                b.cmd
            } else {
                a.cmd
            },
        }),
{
}

proof fn lemma_followed_response(a: ResponseView, b: ResponseView)
    ensures
        ResponseView::of(crate::envelope::followed(a.envelope(), b.envelope())) == (ResponseView {
            id: if b.id.len() > 0 {
                b.id
            } else {
                a.id
            },
            cmd: if b.cmd is Some {
                b.cmd
            } else {
                a.cmd
            },
        }),
{
}

/// Of several targets in one command the last one counts. Fields of the command that are not known
/// do not matter, nor does it that the length tells of more than is there.
pub proof fn law_last_target_counts(
    a: Seq<char>,
    number: u32,
    v: crate::wire::UnknownValue,
    b: Seq<char>,
    len: nat,
)
    requires
        a.len() > 0,
        b.len() > 0,
        vstd::utf8::encode_utf8(a).len() < 0x1000_0000,
        vstd::utf8::encode_utf8(b).len() < 0x1000_0000,
        0 < number <= 0x1fff_ffff,
        v matches crate::wire::UnknownValue::Bytes(text) ==> text.len() < 0x1000_0000 && number > 1,
        text_field(10, a).len() + v.bytes(number).len() + text_field(10, b).len() <= len
            <= 0xffff_ffff_ffff_fff0,
    ensures
        ({
            let body = crate::wire::varint_bytes(len) + (text_field(10, a) + (v.bytes(number)
                + text_field(10, b)));
            &&& parse_request(seq![26u8] + body) == Some(
                RequestView { id: Seq::empty(), cmd: Some(ReqCmdView::Isync { id: b }) },
            )
            &&& parse_request(seq![42u8] + body) == Some(
                RequestView { id: Seq::empty(), cmd: Some(ReqCmdView::Rsync { id: b }) },
            )
            &&& parse_response(seq![42u8] + body) == Some(
                ResponseView { id: Seq::empty(), cmd: Some(RespCmdView::Rsync { id: b }) },
            )
        }),
{
    crate::wire::lemma_varint_bytes_len(8);
    crate::wire::lemma_varint_bytes_len(vstd::utf8::encode_utf8(a).len());
    crate::wire::lemma_varint_bytes_len(vstd::utf8::encode_utf8(b).len());
    crate::envelope::lemma_field_size(1, a);
    crate::envelope::lemma_field_size(1, b);
    let texts = text_field(10, a) + (v.bytes(number) + text_field(10, b));
    let more = crate::wire::with_field(crate::wire::no_fields(), number, v);
    let none = Seq::<char>::empty();
    crate::envelope::lemma_read_last(1, a, number, v, b);
    crate::envelope::lemma_read_field_of(Kind::Request, 3, len, texts, b, none, more);
    crate::envelope::lemma_read_field_of(Kind::Request, 5, len, texts, b, none, more);
    crate::envelope::lemma_read_field_of(Kind::Response, 5, len, texts, b, none, more);
    let head = crate::wire::varint_bytes(len);
    assert(seq![26u8] + head + texts =~= seq![26u8] + (head + texts));
    assert(seq![42u8] + head + texts =~= seq![42u8] + (head + texts));
}

/// A command that names a peer and an address does so in either order, and of several values the
/// last one counts. It does not matter that the length tells of more than is there.
pub proof fn law_last_address_counts(a: Seq<char>, b: Seq<char>, c: Seq<char>, len: nat)
    requires
        a.len() > 0,
        b.len() > 0,
        c.len() > 0,
        vstd::utf8::encode_utf8(a).len() < 0x1000_0000,
        vstd::utf8::encode_utf8(b).len() < 0x1000_0000,
        vstd::utf8::encode_utf8(c).len() < 0x1000_0000,
        text_field(18, a).len() + text_field(10, b).len() + text_field(18, c).len() <= len
            <= 0xffff_ffff_ffff_fff0,
    ensures
        ({
            let body = crate::wire::varint_bytes(len) + (text_field(18, a) + (text_field(10, b)
                + text_field(18, c)));
            &&& parse_request(seq![34u8] + body) == Some(
                RequestView {
                    id: Seq::empty(),
                    cmd: Some(ReqCmdView::Fsync { id: b, addr: c, unknown: Map::empty() }),
                },
            )
            &&& parse_response(seq![34u8] + body) == Some(
                ResponseView {
                    id: Seq::empty(),
                    cmd: Some(RespCmdView::Fsync { id: b, addr: c, unknown: Map::empty() }),
                },
            )
            &&& parse_response(seq![26u8] + body) == Some(
                ResponseView {
                    id: Seq::empty(),
                    cmd: Some(RespCmdView::Redirect { id: b, addr: c }),
                },
            )
        }),
{
    crate::wire::lemma_varint_bytes_len(8);
    crate::wire::lemma_varint_bytes_len(16);
    crate::wire::lemma_varint_bytes_len(vstd::utf8::encode_utf8(a).len());
    crate::wire::lemma_varint_bytes_len(vstd::utf8::encode_utf8(b).len());
    crate::wire::lemma_varint_bytes_len(vstd::utf8::encode_utf8(c).len());
    crate::envelope::lemma_field_size(2, a);
    crate::envelope::lemma_field_size(1, b);
    crate::envelope::lemma_field_size(2, c);
    let texts = text_field(18, a) + (text_field(10, b) + text_field(18, c));
    let none = crate::wire::no_fields();
    crate::envelope::lemma_read_both(a, b, c);
    crate::envelope::lemma_read_field_of(Kind::Request, 4, len, texts, b, c, none);
    crate::envelope::lemma_read_field_of(Kind::Response, 4, len, texts, b, c, none);
    crate::envelope::lemma_read_field_of(Kind::Response, 3, len, texts, b, c, none);
    let head = crate::wire::varint_bytes(len);
    assert(seq![26u8] + head + texts =~= seq![26u8] + (head + texts));
    assert(seq![34u8] + head + texts =~= seq![34u8] + (head + texts));
}

/// A command that says nothing but what it is stays that, whatever field comes with it.
pub proof fn law_bare_commands(number: u32, v: crate::wire::UnknownValue)
    requires
        0 < number <= 0x1fff_ffff,
        v matches crate::wire::UnknownValue::Bytes(text) ==> text.len() < 0x1000_0000,
    ensures
        parse_request(command_field(18, v.bytes(number))) == Some(
            RequestView { id: Seq::empty(), cmd: Some(ReqCmdView::Ping) },
        ),
        parse_request(command_field(50, v.bytes(number))) == Some(
            RequestView { id: Seq::empty(), cmd: Some(ReqCmdView::Bye) },
        ),
        parse_response(command_field(18, v.bytes(number))) == Some(
            ResponseView { id: Seq::empty(), cmd: Some(RespCmdView::Pong) },
        ),
{
    let body = v.bytes(number);
    let none = Seq::<char>::empty();
    let more = crate::wire::with_field(crate::wire::no_fields(), number, v);
    lemma_value_len(number, v);
    crate::envelope::lemma_read_none(number, v);
    crate::envelope::lemma_read_field_of(Kind::Request, 2, body.len(), body, none, none, more);
    crate::envelope::lemma_read_field_of(Kind::Request, 6, body.len(), body, none, none, more);
    crate::envelope::lemma_read_field_of(Kind::Response, 2, body.len(), body, none, none, more);
}

/// What is no message is neither a request nor a response: what is cut off within the identity that
/// it begins with, or has one that is no text.
pub proof fn law_refused(id: Seq<char>, k: int, b: Seq<u8>, rest: Seq<u8>)
    ensures
        id.len() > 0 && vstd::utf8::encode_utf8(id).len() < 0xffff_ff00 && 0 < k < text_field(
            10,
            id,
        ).len() ==> parse_request(text_field(10, id).take(k)) is None && parse_response(
            text_field(10, id).take(k),
        ) is None,
        b.len() < 0x1_0000_0000 && !vstd::utf8::valid_utf8(b) ==> parse_request(
            command_field(10, b) + rest,
        ) is None && parse_response(command_field(10, b) + rest) is None,
{
    if id.len() > 0 && vstd::utf8::encode_utf8(id).len() < 0xffff_ff00 && 0 < k < text_field(
        10,
        id,
    ).len() {
        crate::envelope::law_cut_identity(Kind::Request, id, k);
        crate::envelope::law_cut_identity(Kind::Response, id, k);
    }
    if b.len() < 0x1_0000_0000 && !vstd::utf8::valid_utf8(b) {
        crate::envelope::law_identity_is_text(Kind::Request, b, rest);
        crate::envelope::law_identity_is_text(Kind::Response, b, rest);
    }
}

/// Bytes that a request was written as, in whatever order its unknown fields came, are read as that
/// request, up to 65535 of them.
pub proof fn law_written_request_read(req: RequestView, buf: Seq<u8>)
    requires
        req.valid(),
        req.written(buf),
        buf.len() <= 0xffff,
    ensures
        parse_request(buf) == Some(req),
{
    let order = choose|order: Seq<u32>|
        crate::wire::in_order(req.unknown(), order) && buf == #[trigger] req.bytes_in(order);
    crate::envelope::lemma_short_fits(req.envelope(), order);
    law_request_round_trip(req, order);
}

/// Bytes that a response was written as, in whatever order its unknown fields came, are read as
/// that response, up to 65535 of them.
pub proof fn law_written_response_read(resp: ResponseView, buf: Seq<u8>)
    requires
        resp.valid(),
        resp.written(buf),
        buf.len() <= 0xffff,
    ensures
        parse_response(buf) == Some(resp),
{
    let order = choose|order: Seq<u32>|
        crate::wire::in_order(resp.unknown(), order) && buf == #[trigger] resp.bytes_in(order);
    crate::envelope::lemma_short_fits(resp.envelope(), order);
    law_response_round_trip(resp, order);
}

/// Without unknown fields there is one way to write a message.
pub proof fn law_written_one_way(req: RequestView, resp: ResponseView, buf: Seq<u8>)
    ensures
        req.plain() ==> (req.written(buf) <==> buf == req.bytes()),
        resp.plain() ==> (resp.written(buf) <==> buf == resp.bytes()),
{
    crate::unknown::lemma_no_order(Seq::empty());
    if req.plain() && req.written(buf) {
        let order = choose|order: Seq<u32>|
            crate::wire::in_order(req.unknown(), order) && buf == #[trigger] req.bytes_in(order);
        crate::unknown::lemma_no_order(order);
    }
    if req.plain() && buf == req.bytes() {
        assert(buf == req.bytes_in(Seq::empty()));
    }
    if resp.plain() && resp.written(buf) {
        let order = choose|order: Seq<u32>|
            crate::wire::in_order(resp.unknown(), order) && buf == #[trigger] resp.bytes_in(order);
        crate::unknown::lemma_no_order(order);
    }
    if resp.plain() && buf == resp.bytes() {
        assert(buf == resp.bytes_in(Seq::empty()));
    }
}

} // verus!
