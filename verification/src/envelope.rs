//! The one shape that requests and responses share on the wire.
//!
//! Field 1 holds the identity of a peer. The other fields are alternatives of which a message
//! keeps the last one: each is a nested message of at most two strings, its fields 1 and 2.
//!
//! A field that the reader does not know is skipped. Of a command that is passed on such fields are
//! kept, and come last when it is written.
use crate::error::Failure;
use crate::unknown::Unknown;
use crate::wire::{
    no_unknown, read_len, read_string, read_tag, read_unknown, string_size, write_string,
    write_tag, write_varint32, NESTED_RECURSION_LIMIT, RECURSION_LIMIT,
};
use vstd::prelude::*;
use vstd::slice::slice_subrange;

verus! {

/// Which of the two messages is meant: they know different commands.
#[derive(Clone, Copy, Debug, PartialEq, Eq, Structural)]
pub enum Kind {
    Request,
    Response,
}

/// The field numbers of the commands of a request.
pub const REQ_PING: u32 = 2;

pub const REQ_ISYNC: u32 = 3;

pub const REQ_FSYNC: u32 = 4;

pub const REQ_RSYNC: u32 = 5;

pub const REQ_BYE: u32 = 6;

/// The field numbers of the commands of a response.
pub const RESP_PONG: u32 = 2;

pub const RESP_REDIRECT: u32 = 3;

pub const RESP_FSYNC: u32 = 4;

pub const RESP_RSYNC: u32 = 5;

/// How many strings the command with this field number holds; `None` where it is no command.
pub open spec fn arity(kind: Kind, field: nat) -> Option<nat> {
    match kind {
        Kind::Request => if field == REQ_PING || field == REQ_BYE {
            Some(0)
        } else if field == REQ_ISYNC || field == REQ_RSYNC {
            Some(1)
        } else if field == REQ_FSYNC {
            Some(2)
        } else {
            None
        },
        Kind::Response => if field == RESP_PONG {
            Some(0)
        } else if field == RESP_RSYNC {
            Some(1)
        } else if field == RESP_REDIRECT || field == RESP_FSYNC {
            Some(2)
        } else {
            None
        },
    }
}

/// The command with this field number is passed on, with the fields of it that are not known.
pub open spec fn passed_on(kind: Kind, field: nat) -> bool {
    match kind {
        Kind::Request => field == REQ_FSYNC,
        Kind::Response => field == RESP_FSYNC,
    }
}

/// A command: its field number, its strings, empty where it has none, and its unknown fields.
pub struct Payload {
    pub field: u32,
    pub first: String,
    pub second: String,
    pub unknown: Unknown,
}

#[verifier::ext_equal]
pub struct PayloadView {
    pub field: nat,
    pub first: Seq<char>,
    pub second: Seq<char>,
    pub unknown: Map<u32, Seq<crate::wire::UnknownValue>>,
}

impl View for Payload {
    type V = PayloadView;

    open spec fn view(&self) -> PayloadView {
        PayloadView {
            field: self.field as nat,
            first: self.first@,
            second: self.second@,
            unknown: self.unknown@,
        }
    }
}

/// A message: whom it is from or for, and its command.
pub struct Envelope {
    pub id: String,
    pub cmd: Option<Payload>,
}

#[verifier::ext_equal]
pub struct EnvelopeView {
    pub id: Seq<char>,
    pub cmd: Option<PayloadView>,
}

impl View for Envelope {
    type V = EnvelopeView;

    open spec fn view(&self) -> EnvelopeView {
        EnvelopeView {
            id: self.id@,
            cmd: match self.cmd {
                Some(p) => Some(p@),
                None => None,
            },
        }
    }
}

impl PayloadView {
    /// The command is one of this kind, and has no string and no unknown field that it could not
    /// have been read with.
    pub open spec fn known(self, kind: Kind) -> bool {
        &&& match arity(kind, self.field) {
            Some(n) => (n < 1 ==> self.first.len() == 0) && (n < 2 ==> self.second.len() == 0),
            None => false,
        }
        &&& !passed_on(kind, self.field) ==> self.unknown == crate::wire::no_fields()
        &&& crate::unknown::valid(self.unknown)
        &&& crate::unknown::foreign(self.unknown)
    }
}

impl EnvelopeView {
    /// The command, if there is one, is one of this kind.
    pub open spec fn known(self, kind: Kind) -> bool {
        self.cmd matches Some(p) ==> p.known(kind)
    }

    /// The unknown fields of the command.
    pub open spec fn unknown(self) -> Map<u32, Seq<crate::wire::UnknownValue>> {
        match self.cmd {
            Some(p) => p.unknown,
            None => crate::wire::no_fields(),
        }
    }

    /// Every length in the message fits the 32 bits that it gets on the wire, with the unknown
    /// fields in this order.
    pub open spec fn fits(self, order: Seq<u32>) -> bool {
        &&& crate::wire::string_field_size(1, self.id) < 0x1_0000_0000
        &&& self.cmd matches Some(p) ==> payload_size(p, order) < 0x1_0000_0000
    }
}

// ---------------------------------------------------------------------------------------------
// The format
// ---------------------------------------------------------------------------------------------

/// What the strings and the unknown fields of a nested message are once `s`, the rest of it, is
/// read.
pub open spec fn merge_strings(
    s: Seq<u8>,
    arity: nat,
    first: Seq<char>,
    second: Seq<char>,
    unknown: Map<u32, Seq<crate::wire::UnknownValue>>,
) -> Option<(Seq<char>, Seq<char>, Map<u32, Seq<crate::wire::UnknownValue>>)>
    decreases s.len(),
{
    if s.len() == 0 {
        Some((first, second, unknown))
    } else {
        proof {
            crate::wire::lemma_varint_len(s, 5, 0x0f);
        }
        match crate::wire::varint32(s) {
            Some((tag, n)) => {
                let rest = s.skip(n as int);
                proof {
                    crate::wire::lemma_varint_len(rest, 5, 0x0f);
                }
                if (tag == 10 && arity >= 1) || (tag == 18 && arity >= 2) {
                    match crate::wire::string_at(rest) {
                        Some((v, k)) => if tag == 10 {
                            merge_strings(rest.skip(k as int), arity, v, second, unknown)
                        } else {
                            merge_strings(rest.skip(k as int), arity, first, v, unknown)
                        },
                        None => None,
                    }
                } else {
                    match crate::wire::unknown_step(
                        tag as u32,
                        rest,
                        NESTED_RECURSION_LIMIT,
                        unknown,
                    ) {
                        Some((more, k)) => if k <= rest.len() {
                            merge_strings(rest.skip(k as int), arity, first, second, more)
                        } else {
                            None
                        },
                        None => None,
                    }
                }
            },
            None => None,
        }
    }
}

/// The smaller of two numbers.
pub open spec fn least(a: nat, b: nat) -> nat {
    if a <= b {
        a
    } else {
        b
    }
}

/// What a message is once `s`, the rest of it, is read; `pos` bytes of it came before, and had
/// made it `sofar`.
///
/// A nested message ends where its length says or where the bytes end, whichever comes first.
pub open spec fn merge(
    kind: Kind,
    s: Seq<u8>,
    pos: nat,
    sofar: EnvelopeView,
) -> Option<EnvelopeView>
    decreases s.len(),
{
    if s.len() == 0 {
        Some(sofar)
    } else {
        proof {
            crate::wire::lemma_varint_len(s, 5, 0x0f);
        }
        match crate::wire::varint32(s) {
            Some((tag, n)) => {
                let rest = s.skip(n as int);
                proof {
                    crate::wire::lemma_varint_len(rest, 5, 0x0f);
                    crate::wire::lemma_varint_len(rest, 10, 0x01);
                }
                if tag == 10 {
                    match crate::wire::string_at(rest) {
                        Some((v, k)) => merge(
                            kind,
                            rest.skip(k as int),
                            pos + n + k,
                            EnvelopeView { id: v, ..sofar },
                        ),
                        None => None,
                    }
                } else if tag % 8 == 2 && arity(kind, tag / 8) is Some {
                    match crate::wire::varint64(rest) {
                        Some((len, m)) => {
                            let body = rest.skip(m as int);
                            let end = least(len, body.len());
                            if pos + n + m + len > u64::MAX {
                                None
                            } else {
                                match merge_strings(
                                    body.take(end as int),
                                    arity(kind, tag / 8).unwrap(),
                                    Seq::empty(),
                                    Seq::empty(),
                                    crate::wire::no_fields(),
                                ) {
                                    Some((first, second, unknown)) => merge(
                                        kind,
                                        body.skip(end as int),
                                        pos + n + m + end,
                                        EnvelopeView {
                                            id: sofar.id,
                                            cmd: Some(
                                                PayloadView {
                                                    field: tag / 8,
                                                    first,
                                                    second,
                                                    unknown: if passed_on(kind, tag / 8) {
                                                        unknown
                                                    } else {
                                                        crate::wire::no_fields()
                                                    },
                                                },
                                            ),
                                        },
                                    ),
                                    None => None,
                                }
                            }
                        },
                        None => None,
                    }
                } else {
                    match crate::wire::unknown_step(
                        tag as u32,
                        rest,
                        RECURSION_LIMIT,
                        crate::wire::no_fields(),
                    ) {
                        Some((_, k)) => if k <= rest.len() {
                            merge(kind, rest.skip(k as int), pos + n + k, sofar)
                        } else {
                            None
                        },
                        None => None,
                    }
                }
            },
            None => None,
        }
    }
}

/// The message that these bytes are, or `None` where they are none.
pub open spec fn parse(kind: Kind, s: Seq<u8>) -> Option<EnvelopeView> {
    merge(kind, s, 0, EnvelopeView { id: Seq::empty(), cmd: None })
}

/// A string as a field: nothing at all where it is empty.
pub open spec fn optional_field(field: nat, s: Seq<char>) -> Seq<u8> {
    if s.len() == 0 {
        Seq::empty()
    } else {
        crate::wire::string_field(field, s)
    }
}

/// The size that is computed for such a field.
pub open spec fn optional_size(field: nat, s: Seq<char>) -> nat {
    if s.len() == 0 {
        0
    } else {
        crate::wire::string_field_size(field, s)
    }
}

/// The strings and the unknown fields of a command, the latter in this order.
pub open spec fn payload_bytes(p: PayloadView, order: Seq<u32>) -> Seq<u8> {
    optional_field(1, p.first) + optional_field(2, p.second) + crate::wire::fields_bytes(
        p.unknown,
        order,
    )
}

/// The size that is computed for them.
pub open spec fn payload_size(p: PayloadView, order: Seq<u32>) -> nat {
    optional_size(1, p.first) + optional_size(2, p.second) + crate::wire::fields_bytes(
        p.unknown,
        order,
    ).len()
}

/// A command with its size in front.
pub open spec fn sized_payload(p: PayloadView, order: Seq<u32>) -> Seq<u8> {
    crate::wire::varint_bytes(crate::wire::low32(payload_size(p, order))) + payload_bytes(p, order)
}

/// A command as a field of its message.
pub open spec fn cmd_bytes(cmd: Option<PayloadView>, order: Seq<u32>) -> Seq<u8> {
    match cmd {
        Some(p) => crate::wire::varint_bytes(crate::wire::tag_of(p.field)) + sized_payload(
            p,
            order,
        ),
        None => Seq::empty(),
    }
}

/// A message as bytes, its unknown fields in this order.
pub open spec fn bytes_of(e: EnvelopeView, order: Seq<u32>) -> Seq<u8> {
    optional_field(1, e.id) + cmd_bytes(e.cmd, order)
}

// ---------------------------------------------------------------------------------------------
// Reading and writing
// ---------------------------------------------------------------------------------------------

fn arity_of(kind: Kind, field: u32) -> (r: Option<u32>)
    ensures
        match r {
            Some(n) => arity(kind, field as nat) == Some(n as nat),
            None => arity(kind, field as nat) is None,
        },
{
    match kind {
        Kind::Request => match field {
            REQ_PING | REQ_BYE => Some(0),
            REQ_ISYNC | REQ_RSYNC => Some(1),
            REQ_FSYNC => Some(2),
            _ => None,
        },
        Kind::Response => match field {
            RESP_PONG => Some(0),
            RESP_RSYNC => Some(1),
            RESP_REDIRECT | RESP_FSYNC => Some(2),
            _ => None,
        },
    }
}

fn is_passed_on(kind: Kind, field: u32) -> (r: bool)
    ensures
        r == passed_on(kind, field as nat),
{
    match kind {
        Kind::Request => field == REQ_FSYNC,
        Kind::Response => field == RESP_FSYNC,
    }
}

/// Reads the strings and the unknown fields of a nested message.
fn parse_strings(buf: &[u8], arity: u32) -> (r: Result<
    (String, String, protobuf::UnknownFields),
    Failure,
>)
    ensures
        match r {
            Ok((first, second, unknown)) => {
                &&& merge_strings(
                    buf@,
                    arity as nat,
                    Seq::empty(),
                    Seq::empty(),
                    crate::wire::no_fields(),
                ) == Some((first@, second@, crate::wire::unknown_contents(unknown)))
                &&& arity < 1 ==> first@.len() == 0
                &&& arity < 2 ==> second@.len() == 0
                &&& crate::unknown::valid(crate::wire::unknown_contents(unknown))
                &&& arity >= 2 ==> crate::unknown::foreign(crate::wire::unknown_contents(unknown))
            },
            Err(e) => e == Failure::InvalidMessage && merge_strings(
                buf@,
                arity as nat,
                Seq::empty(),
                Seq::empty(),
                crate::wire::no_fields(),
            ) is None,
        },
{
    let ghost whole = merge_strings(
        buf@,
        arity as nat,
        Seq::empty(),
        Seq::empty(),
        crate::wire::no_fields(),
    );
    let mut first = String::new();
    let mut second = String::new();
    let mut unknown = no_unknown();
    let mut left: &[u8] = buf;
    loop
        invariant
            whole == merge_strings(
                buf@,
                arity as nat,
                Seq::empty(),
                Seq::empty(),
                crate::wire::no_fields(),
            ),
            whole == merge_strings(
                left@,
                arity as nat,
                first@,
                second@,
                crate::wire::unknown_contents(unknown),
            ),
            arity < 1 ==> first@.len() == 0,
            arity < 2 ==> second@.len() == 0,
            crate::unknown::valid(crate::wire::unknown_contents(unknown)),
            arity >= 2 ==> crate::unknown::foreign(crate::wire::unknown_contents(unknown)),
        decreases left@.len(),
    {
        proof {
            crate::wire::lemma_varint_len(left@, 5, 0x0f);
        }
        match read_tag(left) {
            Err(_) => {
                return Err(Failure::InvalidMessage);
            },
            Ok(None) => {
                return Ok((first, second, unknown));
            },
            Ok(Some((tag, n))) => {
                let rest = slice_subrange(left, n, left.len());
                proof {
                    assert(rest@ =~= left@.skip(n as int));
                    crate::wire::lemma_varint_len(rest@, 5, 0x0f);
                }
                if (tag == 10 && arity >= 1) || (tag == 18 && arity >= 2) {
                    match read_string(rest) {
                        Err(_) => {
                            return Err(Failure::InvalidMessage);
                        },
                        Ok((v, k)) => {
                            left = slice_subrange(rest, k, rest.len());
                            assert(left@ =~= rest@.skip(k as int));
                            if tag == 10 {
                                first = v;
                            } else {
                                second = v;
                            }
                        },
                    }
                } else {
                    let ghost before = crate::wire::unknown_contents(unknown);
                    match read_unknown(tag, rest, NESTED_RECURSION_LIMIT, &mut unknown) {
                        Err(_) => {
                            return Err(Failure::InvalidMessage);
                        },
                        Ok(k) => {
                            proof {
                                if tag % 8 != 3 {
                                    crate::unknown::lemma_field_added(before, tag, rest@);
                                }
                            }
                            left = slice_subrange(rest, k, rest.len());
                            assert(left@ =~= rest@.skip(k as int));
                        },
                    }
                }
            },
        }
    }
}

impl Envelope {
    /// Reads a message.
    pub(crate) fn parse_from_bytes(kind: Kind, buf: &[u8]) -> (r: Result<Envelope, Failure>)
        ensures
            match r {
                Ok(e) => parse(kind, buf@) == Some(e@) && e@.known(kind),
                Err(e) => e == Failure::InvalidMessage && parse(kind, buf@) is None,
            },
    {
        let mut sofar = Envelope { id: String::new(), cmd: None };
        let mut left: &[u8] = buf;
        let mut pos: usize = 0;
        let total: usize = buf.len();
        proof {
            assert(sofar@ =~= EnvelopeView { id: Seq::empty(), cmd: None });
        }
        loop
            invariant
                pos + left@.len() == total,
                parse(kind, buf@) == merge(kind, left@, pos as nat, sofar@),
                sofar@.known(kind),
            decreases left@.len(),
        {
            proof {
                crate::wire::lemma_varint_len(left@, 5, 0x0f);
            }
            match read_tag(left) {
                Err(_) => {
                    return Err(Failure::InvalidMessage);
                },
                Ok(None) => {
                    return Ok(sofar);
                },
                Ok(Some((tag, n))) => {
                    let rest = slice_subrange(left, n, left.len());
                    proof {
                        assert(rest@ =~= left@.skip(n as int));
                        crate::wire::lemma_varint_len(rest@, 5, 0x0f);
                        crate::wire::lemma_varint_len(rest@, 10, 0x01);
                    }
                    let known: Option<u32> = if tag % 8 == 2 {
                        arity_of(kind, tag / 8)
                    } else {
                        None
                    };
                    if tag == 10 {
                        match read_string(rest) {
                            Err(_) => {
                                return Err(Failure::InvalidMessage);
                            },
                            Ok((v, k)) => {
                                left = slice_subrange(rest, k, rest.len());
                                pos = pos + n + k;
                                assert(left@ =~= rest@.skip(k as int));
                                let ghost before = sofar@;
                                sofar.id = v;
                                assert(sofar@ =~= EnvelopeView { id: v@, ..before });
                            },
                        }
                    } else if let Some(strings) = known {
                        match read_len(rest) {
                            Err(_) => {
                                return Err(Failure::InvalidMessage);
                            },
                            Ok((len, m)) => {
                                let body = slice_subrange(rest, m, rest.len());
                                assert(body@ =~= rest@.skip(m as int));
                                if len > u64::MAX - (pos + n + m) as u64 {
                                    return Err(Failure::InvalidMessage);
                                }
                                let end: usize = if len <= body.len() as u64 {
                                    len as usize
                                } else {
                                    body.len()
                                };
                                let content = slice_subrange(body, 0, end);
                                assert(content@ =~= body@.take(end as int));
                                match parse_strings(content, strings) {
                                    Err(_) => {
                                        return Err(Failure::InvalidMessage);
                                    },
                                    Ok((first, second, fields)) => {
                                        left = slice_subrange(body, end, body.len());
                                        pos = pos + n + m + end;
                                        assert(left@ =~= body@.skip(end as int));
                                        let field: u32 = tag / 8;
                                        let unknown = if is_passed_on(kind, field) {
                                            Unknown::of(fields)
                                        } else {
                                            Unknown::none()
                                        };
                                        sofar.cmd = Some(
                                            Payload { field, first, second, unknown },
                                        );
                                        assert(sofar@ == EnvelopeView {
                                            id: sofar.id@,
                                            cmd: Some(
                                                PayloadView {
                                                    field: (tag / 8) as nat,
                                                    first: first@,
                                                    second: second@,
                                                    unknown: unknown@,
                                                },
                                            ),
                                        });
                                    },
                                }
                            },
                        }
                    } else {
                        let mut dropped = no_unknown();
                        match read_unknown(tag, rest, RECURSION_LIMIT, &mut dropped) {
                            Err(_) => {
                                return Err(Failure::InvalidMessage);
                            },
                            Ok(k) => {
                                left = slice_subrange(rest, k, rest.len());
                                pos = pos + n + k;
                                assert(left@ =~= rest@.skip(k as int));
                            },
                        }
                    }
                },
            }
        }
    }

    /// Writes a message. The order of its unknown fields is left open.
    pub(crate) fn write_to_bytes(&self, kind: Kind) -> (r: Vec<u8>)
        requires
            self@.known(kind),
        ensures
            exists|order: Seq<u32>|
                crate::wire::in_order(self@.unknown(), order) && r@ == #[trigger] bytes_of(
                    self@,
                    order,
                ),
    {
        let mut buf: Vec<u8> = Vec::new();
        if !self.id.as_str().is_empty() {
            write_string(&mut buf, 1, self.id.as_str());
        }
        assert(buf@ =~= optional_field(1, self.id@));
        let ghost id = buf@;
        if let Some(p) = &self.cmd {
            write_tag(&mut buf, p.field);
            let ghost before = buf@;
            p.write(&mut buf);
            proof {
                let order = choose|order: Seq<u32>|
                    crate::wire::in_order(p@.unknown, order) && buf@ == before
                        + #[trigger] sized_payload(p@, order);
                assert(buf@ =~= id + cmd_bytes(Some(p@), order));
                assert(buf@ == bytes_of(self@, order));
            }
        } else {
            proof {
                crate::unknown::lemma_no_order(Seq::empty());
                assert(buf@ =~= bytes_of(self@, Seq::empty()));
            }
        }
        buf
    }
}

impl Payload {
    /// Appends the size of a command and the command.
    fn write(&self, buf: &mut Vec<u8>)
        ensures
            exists|order: Seq<u32>|
                crate::wire::in_order(self@.unknown, order) && final(buf)@ == old(buf)@
                    + #[trigger] sized_payload(self@, order),
    {
        let mut size: u128 = self.unknown.size() as u128;
        if !self.first.as_str().is_empty() {
            size = size + string_size(1, self.first.as_str()) as u128;
        }
        if !self.second.as_str().is_empty() {
            size = size + string_size(2, self.second.as_str()) as u128;
        }
        let cut: u32 = (size % 0x1_0000_0000) as u32;
        let ghost start = buf@;
        write_varint32(buf, cut);
        let ghost head = crate::wire::varint_bytes(cut as nat);
        if !self.first.as_str().is_empty() {
            write_string(buf, 1, self.first.as_str());
        }
        assert(buf@ =~= start + head + optional_field(1, self.first@));
        if !self.second.as_str().is_empty() {
            write_string(buf, 2, self.second.as_str());
        }
        let ghost before = buf@;
        assert(before =~= start + head + optional_field(1, self.first@) + optional_field(
            2,
            self.second@,
        ));
        self.unknown.write(buf);
        proof {
            let order = choose|order: Seq<u32>|
                crate::wire::in_order(self@.unknown, order) && buf@ == before
                    + #[trigger] crate::wire::fields_bytes(self@.unknown, order);
            assert(size == payload_size(self@, order));
            assert(cut == crate::wire::low32(payload_size(self@, order)));
            assert(buf@ =~= start + sized_payload(self@, order));
        }
    }
}

// ---------------------------------------------------------------------------------------------
// Reading gives back what was written
// ---------------------------------------------------------------------------------------------

/// The size that is computed for a field that fits is the number of its bytes.
pub(crate) proof fn lemma_field_size(field: nat, s: Seq<char>)
    requires
        0 < field < 16,
        optional_size(field, s) < 0x1_0000_0000,
    ensures
        optional_field(field, s).len() == optional_size(field, s),
        s.len() > 0 ==> optional_field(field, s) =~= seq![tag_byte(field)]
            + crate::wire::varint_bytes(vstd::utf8::encode_utf8(s).len())
            + vstd::utf8::encode_utf8(s),
        s.len() > 0 ==> vstd::utf8::encode_utf8(s).len() < 0x1_0000_0000,
        tag_byte(field) == field * 8 + 2,
{
    assert(crate::wire::varint_bytes(crate::wire::tag_of(field)) =~= seq![tag_byte(field)]);
    assert(crate::wire::varint_bytes(field * 8) =~= seq![(field * 8) as u8]);
}

/// The one byte that the tag of a low field number takes.
pub(crate) open spec fn tag_byte(field: nat) -> u8 {
    crate::wire::tag_of(field) as u8
}

/// One step of the reader over a string field that was just written.
proof fn lemma_read_field(field: nat, s: Seq<char>, rest: Seq<u8>)
    requires
        0 < field < 16,
        s.len() > 0,
        optional_size(field, s) < 0x1_0000_0000,
    ensures
        ({
            let all = optional_field(field, s) + rest;
            let after = all.skip(1);
            &&& crate::wire::varint32(all) == Some((crate::wire::tag_of(field), 1nat))
            &&& crate::wire::string_at(after) == Some(
                (s, (optional_size(field, s) - 1) as nat),
            )
            &&& after.skip(optional_size(field, s) - 1) =~= rest
        }),
{
    lemma_field_size(field, s);
    let body = vstd::utf8::encode_utf8(s);
    let head = crate::wire::varint_bytes(body.len());
    let all = optional_field(field, s) + rest;
    assert(all =~= seq![tag_byte(field)] + (head + body + rest));
    assert(all.skip(1) =~= head + body + rest);
    assert(crate::wire::varint_bytes(crate::wire::tag_of(field)) =~= seq![tag_byte(field)]);
    crate::wire::lemma_varint32_round_trip(crate::wire::tag_of(field), head + body + rest);
    crate::wire::lemma_string_round_trip(s, rest);
}

/// A value that was written is read back.
proof fn lemma_read_value(number: u32, v: crate::wire::UnknownValue, rest: Seq<u8>)
    requires
        0 < number <= 0x1fff_ffff,
        crate::wire::short(v),
    ensures
        ({
            let tag = number as nat * 8 + v.wire_type();
            let head = crate::wire::varint_bytes(tag);
            let all = v.bytes(number) + rest;
            &&& all.len() > 0
            &&& crate::wire::varint32(all) == Some((tag, head.len()))
            &&& all.skip(head.len() as int) == v.body() + rest
            &&& crate::wire::plain_value(tag as u32, v.body() + rest) == Some(
                (v, v.body().len()),
            )
            &&& (v.body() + rest).skip(v.body().len() as int) == rest
            &&& tag as u32 / 8 == number
            &&& tag as u32 % 8 == v.wire_type()
        }),
{
    let tag = number as nat * 8 + v.wire_type();
    let head = crate::wire::varint_bytes(tag);
    let body = v.body();
    let all = v.bytes(number) + rest;
    assert(all =~= head + (body + rest));
    crate::wire::lemma_varint32_round_trip(tag, body + rest);
    assert(all.skip(head.len() as int) =~= body + rest);
    assert((body + rest).skip(body.len() as int) =~= rest);
    match v {
        crate::wire::UnknownValue::Fixed32(x) => {
            vstd::bytes::lemma_auto_spec_u32_to_from_le_bytes();
            assert((body + rest).take(4) =~= body);
        },
        crate::wire::UnknownValue::Fixed64(x) => {
            vstd::bytes::lemma_auto_spec_u64_to_from_le_bytes();
            assert((body + rest).take(8) =~= body);
        },
        crate::wire::UnknownValue::Varint(x) => {
            crate::wire::lemma_varint64_round_trip(x as nat, rest);
        },
        crate::wire::UnknownValue::Bytes(b) => {
            let len = crate::wire::varint_bytes(b.len());
            assert(body + rest =~= len + (b + rest));
            crate::wire::lemma_varint32_round_trip(b.len(), b + rest);
            assert((body + rest).subrange(len.len() as int, (len.len() + b.len()) as int) =~= b);
        },
    }
}

/// Unknown fields with these values of one field more.
spec fn with_values(
    m: Map<u32, Seq<crate::wire::UnknownValue>>,
    number: u32,
    q: Seq<crate::wire::UnknownValue>,
) -> Map<u32, Seq<crate::wire::UnknownValue>>
    decreases q.len(),
{
    if q.len() == 0 {
        m
    } else {
        with_values(crate::wire::with_field(m, number, q[0]), number, q.skip(1))
    }
}

proof fn lemma_with_values(
    m: Map<u32, Seq<crate::wire::UnknownValue>>,
    number: u32,
    sofar: Seq<crate::wire::UnknownValue>,
    q: Seq<crate::wire::UnknownValue>,
)
    requires
        if m.contains_key(number) {
            m[number] == sofar
        } else {
            sofar.len() == 0
        },
        crate::unknown::sorted(sofar + q),
        q.len() > 0,
    ensures
        with_values(m, number, q) == m.insert(number, sofar + q),
    decreases q.len(),
{
    let more = sofar.push(q[0]);
    if sofar.len() > 0 {
        let i = sofar.len() - 1;
        assert((sofar + q)[i] == sofar.last());
        assert((sofar + q)[i + 1] == q[0]);
    } else {
        assert(sofar =~= Seq::empty());
    }
    reveal_with_fuel(with_values, 2);
    let after = crate::wire::with_field(m, number, q[0]);
    assert(after == m.insert(number, more));
    assert(more + q.skip(1) =~= sofar + q);
    if q.len() > 1 {
        lemma_with_values(after, number, more, q.skip(1));
        assert(after.insert(number, sofar + q) =~= m.insert(number, sofar + q));
    } else {
        assert(q.skip(1).len() == 0);
        assert(more =~= sofar + q);
    }
}

/// The reader moves past the values of one field, and has them.
proof fn lemma_read_values(
    number: u32,
    q: Seq<crate::wire::UnknownValue>,
    rest: Seq<u8>,
    first: Seq<char>,
    second: Seq<char>,
    m: Map<u32, Seq<crate::wire::UnknownValue>>,
)
    requires
        0 < number <= 0x1fff_ffff,
        forall|i: int|
            0 <= i < q.len() ==> crate::wire::short(#[trigger] q[i]) && (number <= 2 ==> !(
            q[i] is Bytes)),
    ensures
        merge_strings(crate::wire::values_bytes(number, q) + rest, 2, first, second, m)
            == merge_strings(rest, 2, first, second, with_values(m, number, q)),
    decreases q.len(),
{
    if q.len() == 0 {
        assert(crate::wire::values_bytes(number, q) + rest =~= rest);
    } else {
        let v = q[0];
        let tail = crate::wire::values_bytes(number, q.skip(1)) + rest;
        assert forall|i: int| 0 <= i < q.skip(1).len() implies crate::wire::short(
            #[trigger] q.skip(1)[i],
        ) && (number <= 2 ==> !(q.skip(1)[i] is Bytes)) by {
            assert(q.skip(1)[i] == q[i + 1]);
        }
        assert(crate::wire::values_bytes(number, q) + rest =~= v.bytes(number) + tail);
        lemma_read_value(number, v, tail);
        lemma_read_values(
            number,
            q.skip(1),
            rest,
            first,
            second,
            crate::wire::with_field(m, number, v),
        );
    }
}

/// Unknown fields with these fields of `all` more.
spec fn with_fields(
    m: Map<u32, Seq<crate::wire::UnknownValue>>,
    all: Map<u32, Seq<crate::wire::UnknownValue>>,
    order: Seq<u32>,
) -> Map<u32, Seq<crate::wire::UnknownValue>>
    decreases order.len(),
{
    if order.len() == 0 {
        m
    } else {
        with_fields(m.insert(order[0], all[order[0]]), all, order.skip(1))
    }
}

proof fn lemma_with_fields(
    m: Map<u32, Seq<crate::wire::UnknownValue>>,
    all: Map<u32, Seq<crate::wire::UnknownValue>>,
    order: Seq<u32>,
    n: u32,
)
    ensures
        with_fields(m, all, order).contains_key(n) <==> m.contains_key(n) || order.contains(n),
        order.contains(n) ==> with_fields(m, all, order)[n] == all[n],
        !order.contains(n) && m.contains_key(n) ==> with_fields(m, all, order)[n] == m[n],
    decreases order.len(),
{
    if order.len() > 0 {
        let more = m.insert(order[0], all[order[0]]);
        let tail = order.skip(1);
        lemma_with_fields(more, all, tail, n);
        assert(order.contains(n) <==> n == order[0] || tail.contains(n)) by {
            if tail.contains(n) {
                let k = choose|k: int| 0 <= k < tail.len() && tail[k] == n;
                assert(order[k + 1] == n);
            }
            if order.contains(n) && n != order[0] {
                let k = choose|k: int| 0 <= k < order.len() && order[k] == n;
                assert(tail[k - 1] == n);
            }
        }
    }
}

/// The reader reads unknown fields that were written, and has them.
proof fn lemma_read_fields(
    all: Map<u32, Seq<crate::wire::UnknownValue>>,
    order: Seq<u32>,
    first: Seq<char>,
    second: Seq<char>,
    m: Map<u32, Seq<crate::wire::UnknownValue>>,
)
    requires
        crate::unknown::valid(all),
        crate::unknown::foreign(all),
        order.no_duplicates(),
        forall|i: int|
            0 <= i < order.len() ==> all.contains_key(#[trigger] order[i]) && !m.contains_key(
                order[i],
            ),
    ensures
        merge_strings(crate::wire::fields_bytes(all, order), 2, first, second, m) == Some(
            (first, second, with_fields(m, all, order)),
        ),
    decreases order.len(),
{
    if order.len() > 0 {
        let n = order[0];
        let tail = order.skip(1);
        let rest = crate::wire::fields_bytes(all, tail);
        let more = m.insert(n, all[n]);
        assert(all.contains_key(n));
        assert forall|i: int| 0 <= i < all[n].len() implies crate::wire::short(
            #[trigger] all[n][i],
        ) && (n <= 2 ==> !(all[n][i] is Bytes)) by {}
        lemma_read_values(n, all[n], rest, first, second, m);
        assert(Seq::<crate::wire::UnknownValue>::empty() + all[n] =~= all[n]);
        lemma_with_values(m, n, Seq::empty(), all[n]);
        assert forall|i: int| 0 <= i < tail.len() implies all.contains_key(#[trigger] tail[i])
            && !more.contains_key(tail[i]) by {
            assert(tail[i] == order[i + 1]);
            assert(order[i + 1] != order[0]);
        }
        assert(tail.no_duplicates()) by {
            assert forall|i: int, j: int|
                0 <= i < tail.len() && 0 <= j < tail.len() && i != j implies tail[i] != tail[j] by {
                assert(tail[i] == order[i + 1] && tail[j] == order[j + 1]);
            }
        }
        lemma_read_fields(all, tail, first, second, more);
    }
}

/// Unknown fields that were written are read back as they were.
proof fn lemma_unknown_round_trip(
    all: Map<u32, Seq<crate::wire::UnknownValue>>,
    order: Seq<u32>,
    first: Seq<char>,
    second: Seq<char>,
)
    requires
        crate::unknown::valid(all),
        crate::unknown::foreign(all),
        crate::wire::in_order(all, order),
    ensures
        merge_strings(
            crate::wire::fields_bytes(all, order),
            2,
            first,
            second,
            crate::wire::no_fields(),
        ) == Some((first, second, all)),
{
    assert forall|i: int| 0 <= i < order.len() implies all.contains_key(#[trigger] order[i]) by {
        assert(order.contains(order[i]));
    }
    lemma_read_fields(all, order, first, second, crate::wire::no_fields());
    let got = with_fields(crate::wire::no_fields(), all, order);
    assert forall|n: u32| #[trigger] got.contains_key(n) <==> all.contains_key(n) by {
        lemma_with_fields(crate::wire::no_fields(), all, order, n);
    }
    assert forall|n: u32| got.contains_key(n) implies #[trigger] got[n] == all[n] by {
        lemma_with_fields(crate::wire::no_fields(), all, order, n);
    }
    assert(got =~= all);
}

proof fn lemma_payload_round_trip(kind: Kind, p: PayloadView, order: Seq<u32>)
    requires
        p.known(kind),
        crate::wire::in_order(p.unknown, order),
        payload_size(p, order) < 0x1_0000_0000,
    ensures
        payload_bytes(p, order).len() == payload_size(p, order),
        merge_strings(
            payload_bytes(p, order),
            arity(kind, p.field).unwrap(),
            Seq::empty(),
            Seq::empty(),
            crate::wire::no_fields(),
        ) == Some((p.first, p.second, p.unknown)),
{
    let n = arity(kind, p.field).unwrap();
    let last = crate::wire::fields_bytes(p.unknown, order);
    let second = optional_field(2, p.second) + last;
    lemma_field_size(1, p.first);
    lemma_field_size(2, p.second);
    assert(payload_bytes(p, order) =~= optional_field(1, p.first) + second);
    assert(merge_strings(last, n, p.first, p.second, crate::wire::no_fields()) == Some(
        (p.first, p.second, p.unknown),
    )) by {
        if passed_on(kind, p.field) {
            lemma_unknown_round_trip(p.unknown, order, p.first, p.second);
        } else {
            crate::unknown::lemma_no_order(order);
        }
    }
    assert(merge_strings(second, n, p.first, Seq::empty(), crate::wire::no_fields()) == Some(
        (p.first, p.second, p.unknown),
    )) by {
        if p.second.len() > 0 {
            lemma_read_field(2, p.second, last);
        } else {
            assert(p.second =~= Seq::empty());
            assert(second =~= last);
        }
    }
    if p.first.len() > 0 {
        lemma_read_field(1, p.first, second);
    } else {
        assert(p.first =~= Seq::empty());
        assert(payload_bytes(p, order) =~= second);
    }
}

/// One step of the reader over a command of the length `len`, of which `body` is there.
proof fn lemma_cmd_step(
    kind: Kind,
    s: Seq<u8>,
    len: nat,
    body: Seq<u8>,
    rest: Seq<u8>,
    pos: nat,
    n: nat,
    m: nat,
    p: PayloadView,
    unknown: Map<u32, Seq<crate::wire::UnknownValue>>,
    sofar: EnvelopeView,
)
    requires
        s.len() > 0,
        arity(kind, p.field) is Some,
        crate::wire::varint32(s) == Some((crate::wire::tag_of(p.field), n)),
        crate::wire::varint64(s.skip(n as int)) == Some((len, m)),
        len == body.len() || (len > body.len() && rest.len() == 0),
        s.skip(n as int).skip(m as int) == body + rest,
        pos + n + m + len <= u64::MAX,
        merge_strings(
            body,
            arity(kind, p.field).unwrap(),
            Seq::empty(),
            Seq::empty(),
            crate::wire::no_fields(),
        ) == Some((p.first, p.second, unknown)),
        p.unknown == if passed_on(kind, p.field) {
            unknown
        } else {
            crate::wire::no_fields()
        },
    ensures
        merge(kind, s, pos, sofar) == merge(
            kind,
            rest,
            pos + n + m + body.len(),
            EnvelopeView { id: sofar.id, cmd: Some(p) },
        ),
{
    assert((body + rest).take(body.len() as int) =~= body);
    assert((body + rest).skip(body.len() as int) =~= rest);
    assert(crate::wire::tag_of(p.field) / 8 == p.field);
}

/// The last step of the reader, over a command that takes all that is left.
proof fn lemma_last_step(
    kind: Kind,
    s: Seq<u8>,
    len: nat,
    body: Seq<u8>,
    pos: nat,
    n: nat,
    m: nat,
    p: PayloadView,
    unknown: Map<u32, Seq<crate::wire::UnknownValue>>,
    id: Seq<char>,
)
    requires
        s.len() > 0,
        arity(kind, p.field) is Some,
        crate::wire::varint32(s) == Some((crate::wire::tag_of(p.field), n)),
        crate::wire::varint64(s.skip(n as int)) == Some((len, m)),
        body.len() <= len,
        s.skip(n as int).skip(m as int) == body,
        pos + n + m + len <= u64::MAX,
        merge_strings(
            body,
            arity(kind, p.field).unwrap(),
            Seq::empty(),
            Seq::empty(),
            crate::wire::no_fields(),
        ) == Some((p.first, p.second, unknown)),
        p.unknown == if passed_on(kind, p.field) {
            unknown
        } else {
            crate::wire::no_fields()
        },
    ensures
        merge(kind, s, pos, EnvelopeView { id, cmd: None }) == Some(
            EnvelopeView { id, cmd: Some(p) },
        ),
{
    let sofar = EnvelopeView { id, cmd: None };
    let done = EnvelopeView { id, cmd: Some(p) };
    assert(body + Seq::empty() =~= body);
    lemma_cmd_step(kind, s, len, body, Seq::empty(), pos, n, m, p, unknown, sofar);
    assert(merge(kind, Seq::empty(), pos + n + m + body.len(), done) == Some(done));
}

/// Where the parts of a command are that was just written.
proof fn lemma_cmd_parts(kind: Kind, p: PayloadView, order: Seq<u32>, rest: Seq<u8>)
    requires
        p.known(kind),
        payload_size(p, order) < 0x1_0000_0000,
    ensures
        ({
            let cmd = cmd_bytes(Some(p), order) + rest;
            let head = crate::wire::varint_bytes(payload_size(p, order));
            &&& cmd.len() > 0
            &&& crate::wire::varint32(cmd) == Some((crate::wire::tag_of(p.field), 1nat))
            &&& crate::wire::varint64(cmd.skip(1)) == Some((payload_size(p, order), head.len()))
            &&& cmd.skip(1).skip(head.len() as int) == payload_bytes(p, order) + rest
            &&& head.len() <= 10
            &&& cmd_bytes(Some(p), order).len() == 1 + head.len() + payload_bytes(p, order).len()
        }),
{
    let body = payload_bytes(p, order) + rest;
    let cmd = cmd_bytes(Some(p), order) + rest;
    let head = crate::wire::varint_bytes(payload_size(p, order));
    let tag = crate::wire::tag_of(p.field);
    assert(crate::wire::varint_bytes(tag) =~= seq![tag as u8]);
    assert(cmd =~= crate::wire::varint_bytes(tag) + (head + body));
    crate::wire::lemma_varint32_round_trip(tag, head + body);
    crate::wire::lemma_varint64_round_trip(payload_size(p, order), body);
    crate::wire::lemma_varint_len(head + body, 10, 0x01);
    assert(cmd.skip(1) =~= head + body);
    assert(cmd.skip(1).skip(head.len() as int) =~= body);
}

/// The reader moves past a command that was just written, and has it.
proof fn lemma_read_cmd(
    kind: Kind,
    p: PayloadView,
    order: Seq<u32>,
    rest: Seq<u8>,
    pos: nat,
    sofar: EnvelopeView,
)
    requires
        p.known(kind),
        crate::wire::in_order(p.unknown, order),
        payload_size(p, order) < 0x1_0000_0000,
        pos < 0x1_0000_0000_0000,
    ensures
        merge(kind, cmd_bytes(Some(p), order) + rest, pos, sofar) == merge(
            kind,
            rest,
            pos + cmd_bytes(Some(p), order).len(),
            EnvelopeView { id: sofar.id, cmd: Some(p) },
        ),
{
    lemma_cmd_parts(kind, p, order, rest);
    lemma_payload_round_trip(kind, p, order);
    lemma_cmd_step(
        kind,
        cmd_bytes(Some(p), order) + rest,
        payload_bytes(p, order).len(),
        payload_bytes(p, order),
        rest,
        pos,
        1,
        crate::wire::varint_bytes(payload_size(p, order)).len(),
        p,
        p.unknown,
        sofar,
    );
}

/// A message that another one follows: what the later one has counts.
pub open spec fn followed(first: EnvelopeView, later: EnvelopeView) -> EnvelopeView {
    EnvelopeView {
        id: if later.id.len() > 0 {
            later.id
        } else {
            first.id
        },
        cmd: if later.cmd is Some {
            later.cmd
        } else {
            first.cmd
        },
    }
}

/// The reader moves past an identity that was just written, and has it.
proof fn lemma_read_id(
    kind: Kind,
    id: Seq<char>,
    rest: Seq<u8>,
    pos: nat,
    sofar: EnvelopeView,
)
    requires
        crate::wire::string_field_size(1, id) < 0x1_0000_0000,
    ensures
        merge(kind, optional_field(1, id) + rest, pos, sofar) == merge(
            kind,
            rest,
            pos + optional_field(1, id).len(),
            followed(sofar, EnvelopeView { id, cmd: None }),
        ),
{
    lemma_field_size(1, id);
    if id.len() > 0 {
        lemma_read_field(1, id, rest);
    } else {
        assert(optional_field(1, id) + rest =~= rest);
    }
}

/// A message that fits is not longer than this.
proof fn lemma_message_len(kind: Kind, e: EnvelopeView, order: Seq<u32>)
    requires
        e.known(kind),
        crate::wire::in_order(e.unknown(), order),
        e.fits(order),
    ensures
        optional_field(1, e.id).len() < 0x1_0000_0000,
        bytes_of(e, order).len() < 0x10_0000_0000,
{
    lemma_field_size(1, e.id);
    if let Some(p) = e.cmd {
        lemma_cmd_parts(kind, p, order, Seq::empty());
        lemma_payload_round_trip(kind, p, order);
    }
}

/// The reader moves past a message that was just written, and has it.
pub proof fn lemma_read_message(
    kind: Kind,
    e: EnvelopeView,
    order: Seq<u32>,
    rest: Seq<u8>,
    pos: nat,
    sofar: EnvelopeView,
)
    requires
        e.known(kind),
        crate::wire::in_order(e.unknown(), order),
        e.fits(order),
        pos < 0x1000_0000_0000,
    ensures
        merge(kind, bytes_of(e, order) + rest, pos, sofar) == merge(
            kind,
            rest,
            pos + bytes_of(e, order).len(),
            followed(sofar, e),
        ),
        bytes_of(e, order).len() < 0x10_0000_0000,
{
    let with_id = followed(sofar, EnvelopeView { id: e.id, cmd: None });
    let cmd = cmd_bytes(e.cmd, order) + rest;
    let size = optional_field(1, e.id).len();
    lemma_message_len(kind, e, order);
    lemma_read_id(kind, e.id, cmd, pos, sofar);
    assert(bytes_of(e, order) + rest =~= optional_field(1, e.id) + cmd);
    if let Some(p) = e.cmd {
        lemma_read_cmd(kind, p, order, rest, pos + size, with_id);
    } else {
        assert(cmd =~= rest);
    }
}

/// A message whose lengths fit the wire is read back as it was written.
pub proof fn lemma_round_trip(kind: Kind, e: EnvelopeView, order: Seq<u32>)
    requires
        e.known(kind),
        crate::wire::in_order(e.unknown(), order),
        e.fits(order),
    ensures
        parse(kind, bytes_of(e, order)) == Some(e),
{
    let nothing = EnvelopeView { id: Seq::empty(), cmd: None };
    lemma_read_message(kind, e, order, Seq::empty(), 0, nothing);
    assert(bytes_of(e, order) + Seq::empty() =~= bytes_of(e, order));
    if e.id.len() == 0 {
        assert(e.id =~= Seq::empty());
    }
    assert(followed(nothing, e) == e);
}

// ---------------------------------------------------------------------------------------------
// Reading what others may write
// ---------------------------------------------------------------------------------------------

/// The reader moves past a field that a message does not have.
pub(crate) proof fn lemma_skip_value(
    kind: Kind,
    number: u32,
    v: crate::wire::UnknownValue,
    rest: Seq<u8>,
    pos: nat,
    sofar: EnvelopeView,
)
    requires
        0 < number <= 0x1fff_ffff,
        crate::wire::short(v),
        v is Bytes ==> number != 1 && arity(kind, number as nat) is None,
    ensures
        merge(kind, v.bytes(number) + rest, pos, sofar) == merge(
            kind,
            rest,
            pos + v.bytes(number).len(),
            sofar,
        ),
{
    lemma_read_value(number, v, rest);
    let tag = number as nat * 8 + v.wire_type();
    assert(tag / 8 == number && tag % 8 == v.wire_type());
}

/// Of several values of one string the last one is read, and fields in between that are not known
/// do not matter.
pub(crate) proof fn lemma_read_last(
    n: nat,
    a: Seq<char>,
    number: u32,
    v: crate::wire::UnknownValue,
    b: Seq<char>,
)
    requires
        n >= 1,
        a.len() > 0,
        b.len() > 0,
        optional_size(1, a) < 0x1_0000_0000,
        optional_size(1, b) < 0x1_0000_0000,
        0 < number <= 0x1fff_ffff,
        crate::wire::short(v),
        v is Bytes ==> number > n,
    ensures
        merge_strings(
            optional_field(1, a) + (v.bytes(number) + optional_field(1, b)),
            n,
            Seq::empty(),
            Seq::empty(),
            crate::wire::no_fields(),
        ) == Some(
            (b, Seq::<char>::empty(), crate::wire::with_field(crate::wire::no_fields(), number, v)),
        ),
{
    let none = Seq::<char>::empty();
    let more = crate::wire::with_field(crate::wire::no_fields(), number, v);
    let last = optional_field(1, b);
    assert(merge_strings(last, n, a, none, more) == Some((b, none, more))) by {
        lemma_read_field(1, b, Seq::empty());
        assert(last + Seq::empty() =~= last);
        assert(merge_strings(Seq::empty(), n, b, none, more) == Some((b, none, more)));
    }
    assert(merge_strings(v.bytes(number) + last, n, a, none, crate::wire::no_fields())
        == merge_strings(last, n, a, none, more)) by {
        lemma_read_value(number, v, last);
        let tag = number as nat * 8 + v.wire_type();
        assert(tag / 8 == number && tag % 8 == v.wire_type());
    }
    lemma_read_field(1, a, v.bytes(number) + last);
}

/// Both strings are read, whichever comes first, and of several values the last one.
pub(crate) proof fn lemma_read_both(a: Seq<char>, b: Seq<char>, c: Seq<char>)
    requires
        a.len() > 0,
        b.len() > 0,
        c.len() > 0,
        optional_size(2, a) < 0x1_0000_0000,
        optional_size(1, b) < 0x1_0000_0000,
        optional_size(2, c) < 0x1_0000_0000,
    ensures
        merge_strings(
            optional_field(2, a) + (optional_field(1, b) + optional_field(2, c)),
            2,
            Seq::empty(),
            Seq::empty(),
            crate::wire::no_fields(),
        ) == Some((b, c, crate::wire::no_fields())),
{
    let none = Seq::<char>::empty();
    let fields = crate::wire::no_fields();
    let last = optional_field(2, c);
    assert(merge_strings(last, 2, b, a, fields) == Some((b, c, fields))) by {
        lemma_read_field(2, c, Seq::empty());
        assert(last + Seq::empty() =~= last);
        assert(merge_strings(Seq::empty(), 2, b, c, fields) == Some((b, c, fields)));
    }
    assert(merge_strings(optional_field(1, b) + last, 2, none, a, fields) == merge_strings(
        last,
        2,
        b,
        a,
        fields,
    )) by {
        lemma_read_field(1, b, last);
    }
    lemma_read_field(2, a, optional_field(1, b) + last);
}

/// A field of a nested message without strings is not known, whatever its number.
pub(crate) proof fn lemma_read_none(number: u32, v: crate::wire::UnknownValue)
    requires
        0 < number <= 0x1fff_ffff,
        crate::wire::short(v),
    ensures
        merge_strings(
            v.bytes(number),
            0,
            Seq::empty(),
            Seq::empty(),
            crate::wire::no_fields(),
        ) == Some(
            (
                Seq::<char>::empty(),
                Seq::<char>::empty(),
                crate::wire::with_field(crate::wire::no_fields(), number, v),
            ),
        ),
{
    let none = Seq::<char>::empty();
    let more = crate::wire::with_field(crate::wire::no_fields(), number, v);
    lemma_read_value(number, v, Seq::empty());
    assert(v.bytes(number) + Seq::empty() =~= v.bytes(number));
    let tag = number as nat * 8 + v.wire_type();
    assert(tag / 8 == number && tag % 8 == v.wire_type());
    assert(merge_strings(Seq::empty(), 0, none, none, more) == Some((none, none, more)));
}

/// A command is read as what its strings are read as, as far as they are there.
pub(crate) proof fn lemma_read_field_of(
    kind: Kind,
    field: nat,
    len: nat,
    body: Seq<u8>,
    first: Seq<char>,
    second: Seq<char>,
    unknown: Map<u32, Seq<crate::wire::UnknownValue>>,
)
    requires
        0 < field < 16,
        arity(kind, field) is Some,
        body.len() <= len <= 0xffff_ffff_ffff_fff0,
        merge_strings(
            body,
            arity(kind, field).unwrap(),
            Seq::empty(),
            Seq::empty(),
            crate::wire::no_fields(),
        ) == Some((first, second, unknown)),
    ensures
        parse(
            kind,
            seq![(field * 8 + 2) as u8] + crate::wire::varint_bytes(len) + body,
        ) == Some(
            EnvelopeView {
                id: Seq::empty(),
                cmd: Some(
                    PayloadView {
                        field,
                        first,
                        second,
                        unknown: if passed_on(kind, field) {
                            unknown
                        } else {
                            crate::wire::no_fields()
                        },
                    },
                ),
            },
        ),
{
    let tag = crate::wire::tag_of(field);
    let head = crate::wire::varint_bytes(len);
    let s = seq![tag as u8] + head + body;
    let p = PayloadView {
        field,
        first,
        second,
        unknown: if passed_on(kind, field) {
            unknown
        } else {
            crate::wire::no_fields()
        },
    };
    assert(crate::wire::varint_bytes(tag) =~= seq![tag as u8]);
    assert(s =~= crate::wire::varint_bytes(tag) + (head + body));
    crate::wire::lemma_varint32_round_trip(tag, head + body);
    crate::wire::lemma_varint64_round_trip(len, body);
    crate::wire::lemma_varint_len(head + body, 10, 0x01);
    assert(s.skip(1) =~= head + body);
    assert(s.skip(1).skip(head.len() as int) =~= body);
    lemma_last_step(kind, s, len, body, 0, 1, head.len(), p, unknown, Seq::empty());
}

/// What is cut off within the identity that it begins with is no message.
pub proof fn law_cut_identity(kind: Kind, id: Seq<char>, k: int)
    requires
        id.len() > 0,
        vstd::utf8::encode_utf8(id).len() < 0xffff_ff00,
        0 < k < 1 + crate::wire::varint_bytes(vstd::utf8::encode_utf8(id).len()).len()
            + vstd::utf8::encode_utf8(id).len(),
    ensures
        parse(
            kind,
            (seq![10u8] + crate::wire::varint_bytes(vstd::utf8::encode_utf8(id).len())
                + vstd::utf8::encode_utf8(id)).take(k),
        ) is None,
{
    let body = vstd::utf8::encode_utf8(id);
    let head = crate::wire::varint_bytes(body.len());
    let s = (seq![10u8] + head + body).take(k);
    let rest = s.skip(1);
    assert(s[0] == 10);
    assert(crate::wire::varint32(s) == Some((10nat, 1nat)));
    if k - 1 < head.len() {
        assert(rest =~= head.take(k - 1));
        crate::wire::lemma_varint_cut(body.len(), 5, 0x0f, k - 1);
    } else {
        let part = body.take(k - 1 - head.len());
        assert(rest =~= head + part);
        crate::wire::lemma_varint32_round_trip(body.len(), part);
    }
    assert(crate::wire::string_at(rest) is None);
}

/// What has an identity that is no text is no message, whatever follows.
pub proof fn law_identity_is_text(kind: Kind, b: Seq<u8>, rest: Seq<u8>)
    requires
        b.len() < 0x1_0000_0000,
        !vstd::utf8::valid_utf8(b),
    ensures
        parse(kind, seq![10u8] + crate::wire::varint_bytes(b.len()) + b + rest) is None,
{
    let head = crate::wire::varint_bytes(b.len());
    let s = seq![10u8] + head + b + rest;
    assert(s[0] == 10);
    assert(crate::wire::varint32(s) == Some((10nat, 1nat)));
    assert(s.skip(1) =~= head + (b + rest));
    crate::wire::lemma_varint32_round_trip(b.len(), b + rest);
    assert(s.skip(1).subrange(head.len() as int, (head.len() + b.len()) as int) =~= b);
    assert(crate::wire::string_at(s.skip(1)) is None);
}

/// What begins with a command that would end beyond 64 bits is no message.
pub proof fn law_endless_command(kind: Kind, field: nat, len: nat, body: Seq<u8>)
    requires
        0 < field < 16,
        arity(kind, field) is Some,
        len <= u64::MAX,
        1 + crate::wire::varint_bytes(len).len() + len > u64::MAX,
    ensures
        parse(kind, seq![(field * 8 + 2) as u8] + crate::wire::varint_bytes(len) + body) is None,
{
    let tag = crate::wire::tag_of(field);
    let head = crate::wire::varint_bytes(len);
    let s = seq![tag as u8] + head + body;
    assert(crate::wire::varint_bytes(tag) =~= seq![tag as u8]);
    assert(s =~= crate::wire::varint_bytes(tag) + (head + body));
    crate::wire::lemma_varint32_round_trip(tag, head + body);
    crate::wire::lemma_varint64_round_trip(len, body);
    assert(s.skip(1) =~= head + body);
    assert(tag / 8 == field && tag % 8 == 2);
}

/// What begins with a field whose value has no kind, or, unless it is a group, whose number is 0,
/// is no message.
pub proof fn law_bad_tag(kind: Kind, s: Seq<u8>)
    requires
        s.len() > 0,
        s[0] < 0x80,
        s[0] % 8 == 4 || s[0] % 8 == 6 || s[0] % 8 == 7 || (s[0] < 8 && s[0] % 8 != 3),
    ensures
        parse(kind, s) is None,
{
    assert(crate::wire::varint32(s) == Some((s[0] as nat, 1nat)));
}

/// What a string takes where its field is short.
proof fn lemma_short_field(field: nat, s: Seq<char>)
    requires
        0 < field < 16,
        optional_field(field, s).len() <= 0xffff,
    ensures
        crate::wire::string_field_size(field, s) <= optional_field(field, s).len() + 20,
{
    let len = vstd::utf8::encode_utf8(s).len();
    if s.len() == 0 {
        assert(s =~= Seq::empty());
        assert(len == 0);
    } else {
        assert(len <= optional_field(field, s).len());
    }
    crate::wire::lemma_varint_bytes_len(len);
    crate::wire::lemma_varint_bytes_len(field * 8);
}

/// The lengths of a message of at most 65535 bytes fit the wire.
pub proof fn lemma_short_fits(e: EnvelopeView, order: Seq<u32>)
    requires
        bytes_of(e, order).len() <= 0xffff,
    ensures
        e.fits(order),
{
    lemma_short_field(1, e.id);
    if let Some(p) = e.cmd {
        assert(payload_bytes(p, order).len() <= cmd_bytes(e.cmd, order).len());
        lemma_short_field(1, p.first);
        lemma_short_field(2, p.second);
    }
}

} // verus!
