//! The protobuf wire format, as far as the messages of this crate need it.
//!
//! The bytes are read and written by the `protobuf` crate. Every function that calls into it is
//! a small wrapper here, and its contract says over byte sequences what the call does.
use vstd::bytes::{
    spec_u32_from_le_bytes, spec_u32_to_le_bytes, spec_u64_from_le_bytes, spec_u64_to_le_bytes,
};
use vstd::prelude::*;
use vstd::utf8::{decode_utf8, encode_utf8, valid_utf8};

verus! {

/// The error type of the `protobuf` crate. Nothing is read out of it.
#[verifier::external_type_specification]
#[verifier::external_body]
pub struct ExProtobufError(protobuf::Error);

/// The collection of unknown fields of the `protobuf` crate.
#[verifier::external_type_specification]
#[verifier::external_body]
pub struct ExUnknownFields(protobuf::UnknownFields);

/// How deep groups may nest in a top level message before the reader gives up.
pub const RECURSION_LIMIT: u32 = 100;

/// The same for a message that is a field of another one.
pub const NESTED_RECURSION_LIMIT: u32 = 99;

// ---------------------------------------------------------------------------------------------
// The format
// ---------------------------------------------------------------------------------------------

/// The base 128 number, low digits first, that `s` begins with, and how many bytes it takes.
///
/// A byte of 128 or more says that another one follows. The number takes `max_len` bytes at most,
/// and a byte at that last place is at most `last`.
pub open spec fn varint(s: Seq<u8>, max_len: nat, last: u8) -> Option<(nat, nat)>
    decreases max_len,
{
    if s.len() == 0 || max_len == 0 {
        None
    } else if max_len == 1 {
        if s[0] <= last {
            Some((s[0] as nat, 1nat))
        } else {
            None
        }
    } else if s[0] < 0x80 {
        Some((s[0] as nat, 1nat))
    } else {
        match varint(s.skip(1), (max_len - 1) as nat, last) {
            Some((v, n)) => Some(((s[0] - 0x80 + 0x80 * v) as nat, n + 1)),
            None => None,
        }
    }
}

/// The 32 bit number that `s` begins with.
pub open spec fn varint32(s: Seq<u8>) -> Option<(nat, nat)> {
    varint(s, 5, 0x0f)
}

/// The 64 bit number that `s` begins with.
pub open spec fn varint64(s: Seq<u8>) -> Option<(nat, nat)> {
    varint(s, 10, 0x01)
}

/// The shortest base 128 form of `v`.
pub open spec fn varint_bytes(v: nat) -> Seq<u8>
    decreases v,
{
    if v < 0x80 {
        seq![v as u8]
    } else {
        seq![(v % 0x80 + 0x80) as u8] + varint_bytes(v / 0x80)
    }
}

/// The tag of a length delimited field.
pub open spec fn tag_of(field: nat) -> nat {
    field * 8 + 2
}

/// The low 32 bits of `v`: the lengths on the wire are cut to that.
pub open spec fn low32(v: nat) -> nat {
    v % 0x1_0000_0000
}

/// The string that `s` begins with, its length in front, and how many bytes that takes.
pub open spec fn string_at(s: Seq<u8>) -> Option<(Seq<char>, nat)> {
    match varint32(s) {
        Some((len, n)) => if n + len <= s.len() && valid_utf8(
            s.subrange(n as int, (n + len) as int),
        ) {
            Some((decode_utf8(s.subrange(n as int, (n + len) as int)), n + len))
        } else {
            None
        },
        None => None,
    }
}

/// A string as the field with the given number.
pub open spec fn string_field(field: nat, s: Seq<char>) -> Seq<u8> {
    varint_bytes(tag_of(field)) + varint_bytes(low32(encode_utf8(s).len())) + encode_utf8(s)
}

/// The size that is computed for such a field.
pub open spec fn string_field_size(field: nat, s: Seq<char>) -> nat {
    varint_bytes(field * 8).len() + varint_bytes(encode_utf8(s).len()).len() + encode_utf8(s).len()
}

/// The value of a field that a message does not have.
#[verifier::ext_equal]
pub enum UnknownValue {
    Fixed32(u32),
    Fixed64(u64),
    Varint(u64),
    Bytes(Seq<u8>),
}

impl UnknownValue {
    /// The values of one field are kept in the order of their kinds.
    pub open spec fn rank(self) -> int {
        match self {
            UnknownValue::Fixed32(_) => 0,
            UnknownValue::Fixed64(_) => 1,
            UnknownValue::Varint(_) => 2,
            UnknownValue::Bytes(_) => 3,
        }
    }

    /// The low three bits of a tag, which say how the value is written.
    pub open spec fn wire_type(self) -> nat {
        match self {
            UnknownValue::Fixed32(_) => 5,
            UnknownValue::Fixed64(_) => 1,
            UnknownValue::Varint(_) => 0,
            UnknownValue::Bytes(_) => 2,
        }
    }

    /// The value without its tag.
    pub open spec fn body(self) -> Seq<u8> {
        match self {
            UnknownValue::Fixed32(v) => spec_u32_to_le_bytes(v),
            UnknownValue::Fixed64(v) => spec_u64_to_le_bytes(v),
            UnknownValue::Varint(v) => varint_bytes(v as nat),
            UnknownValue::Bytes(b) => varint_bytes(low32(b.len())) + b,
        }
    }

    /// The value as the field with the given number.
    pub open spec fn bytes(self, number: u32) -> Seq<u8> {
        varint_bytes(number as nat * 8 + self.wire_type()) + self.body()
    }
}

/// The value of a field with this tag that `s` begins with, where it is no group, and how many
/// bytes it takes; `None` where there is no such value. The field number, which is the tag without its
/// low three bits, is not 0.
pub open spec fn plain_value(tag: u32, s: Seq<u8>) -> Option<(UnknownValue, nat)> {
    if tag < 8 {
        None
    } else if tag % 8 == 0 {
        match varint64(s) {
            Some((v, n)) => Some((UnknownValue::Varint(v as u64), n)),
            None => None,
        }
    } else if tag % 8 == 1 && s.len() >= 8 {
        Some((UnknownValue::Fixed64(spec_u64_from_le_bytes(s.take(8))), 8))
    } else if tag % 8 == 2 {
        match varint32(s) {
            Some((len, n)) => if n + len <= s.len() {
                Some((UnknownValue::Bytes(s.subrange(n as int, (n + len) as int)), n + len))
            } else {
                None
            },
            None => None,
        }
    } else if tag % 8 == 5 && s.len() >= 4 {
        Some((UnknownValue::Fixed32(spec_u32_from_le_bytes(s.take(4))), 4))
    } else {
        None
    }
}

/// How many bytes a group with this tag takes after the tag, where `s` begins with what follows it
/// and groups inside may nest `limit` deep; `None` where there is no such group.
pub uninterp spec fn group_value_len(tag: u32, s: Seq<u8>, limit: u32) -> Option<nat>;

/// What `f` holds: the values of each field, those of one kind in the order in which they came.
pub uninterp spec fn unknown_contents(f: protobuf::UnknownFields) -> Map<u32, Seq<UnknownValue>>;

/// No unknown fields.
pub open spec fn no_fields() -> Map<u32, Seq<UnknownValue>> {
    Map::empty()
}

/// The values of a field with one more: it comes last of its kind.
pub open spec fn with_value(q: Seq<UnknownValue>, v: UnknownValue) -> Seq<UnknownValue>
    decreases q.len(),
{
    if q.len() == 0 || q.last().rank() <= v.rank() {
        q.push(v)
    } else {
        with_value(q.drop_last(), v).push(q.last())
    }
}

/// Unknown fields with one more.
pub open spec fn with_field(
    m: Map<u32, Seq<UnknownValue>>,
    number: u32,
    v: UnknownValue,
) -> Map<u32, Seq<UnknownValue>> {
    m.insert(
        number,
        with_value(
            if m.contains_key(number) {
                m[number]
            } else {
                Seq::empty()
            },
            v,
        ),
    )
}

/// What the value of an unknown field makes of the unknown fields so far, and how many bytes it
/// takes. A group is not kept.
pub open spec fn unknown_step(
    tag: u32,
    s: Seq<u8>,
    limit: u32,
    m: Map<u32, Seq<UnknownValue>>,
) -> Option<(Map<u32, Seq<UnknownValue>>, nat)> {
    if tag % 8 == 3 {
        match group_value_len(tag, s, limit) {
            Some(n) => Some((m, n)),
            None => None,
        }
    } else {
        match plain_value(tag, s) {
            Some((v, n)) => Some((with_field(m, tag / 8, v), n)),
            None => None,
        }
    }
}

/// The values of a field as bytes.
pub open spec fn values_bytes(number: u32, q: Seq<UnknownValue>) -> Seq<u8>
    decreases q.len(),
{
    if q.len() == 0 {
        Seq::empty()
    } else {
        q[0].bytes(number) + values_bytes(number, q.skip(1))
    }
}

/// Unknown fields as bytes, in the given order of their numbers.
pub open spec fn fields_bytes(m: Map<u32, Seq<UnknownValue>>, order: Seq<u32>) -> Seq<u8>
    decreases order.len(),
{
    if order.len() == 0 {
        Seq::empty()
    } else {
        values_bytes(order[0], m[order[0]]) + fields_bytes(m, order.skip(1))
    }
}

/// These are the numbers of the unknown fields, each once.
pub open spec fn in_order(m: Map<u32, Seq<UnknownValue>>, order: Seq<u32>) -> bool {
    &&& order.no_duplicates()
    &&& forall|n: u32| #[trigger] m.contains_key(n) <==> order.contains(n)
}

/// The unknown fields were appended, in some order.
pub open spec fn appended(
    m: Map<u32, Seq<UnknownValue>>,
    before: Seq<u8>,
    after: Seq<u8>,
) -> bool {
    exists|order: Seq<u32>|
        in_order(m, order) && after == before + #[trigger] fields_bytes(m, order)
}

/// The field numbers and lengths are such that the fields can be written.
pub open spec fn writable(m: Map<u32, Seq<UnknownValue>>) -> bool {
    forall|n: u32| #[trigger]
        m.contains_key(n) ==> 0 < n <= 0x1fff_ffff && forall|i: int|
            0 <= i < m[n].len() ==> short(#[trigger] m[n][i])
}

/// The length of the value, if it has one, fits 32 bits.
pub open spec fn short(v: UnknownValue) -> bool {
    v matches UnknownValue::Bytes(b) ==> b.len() < 0x1_0000_0000
}

// ---------------------------------------------------------------------------------------------
// Reading
// ---------------------------------------------------------------------------------------------

/// Reads a tag with `protobuf::CodedInputStream::read_raw_tag_or_eof`.
///
/// Nothing is there to read at the end of the input; else the input begins with a 32 bit number
/// or the call fails. The second value is how far the stream has moved.
#[verifier::external_body]
pub(crate) fn read_tag(buf: &[u8]) -> (r: Result<Option<(u32, usize)>, protobuf::Error>)
    ensures
        match r {
            Ok(None) => buf@.len() == 0,
            Ok(Some((tag, n))) => buf@.len() > 0 && varint32(buf@) == Some((tag as nat, n as nat)),
            Err(_) => buf@.len() > 0 && varint32(buf@) is None,
        },
{
    let mut is = protobuf::CodedInputStream::from_bytes(buf);
    let tag = is.read_raw_tag_or_eof()?;
    Ok(tag.map(|t| (t, is.pos() as usize)))
}

/// Reads the length of a nested message with `protobuf::CodedInputStream::read_raw_varint64`.
///
/// The input begins with a 64 bit number or the call fails.
#[verifier::external_body]
pub(crate) fn read_len(buf: &[u8]) -> (r: Result<(u64, usize), protobuf::Error>)
    ensures
        match r {
            Ok((len, n)) => varint64(buf@) == Some((len as nat, n as nat)),
            Err(_) => varint64(buf@) is None,
        },
{
    let mut is = protobuf::CodedInputStream::from_bytes(buf);
    let len = is.read_raw_varint64()?;
    Ok((len, is.pos() as usize))
}

/// Reads a string with `protobuf::CodedInputStream::read_string`.
///
/// A 32 bit length comes first. The call fails where there is none, where fewer bytes than that
/// follow, or where they are not UTF-8.
#[verifier::external_body]
pub(crate) fn read_string(buf: &[u8]) -> (r: Result<(String, usize), protobuf::Error>)
    ensures
        match r {
            Ok((s, n)) => string_at(buf@) == Some((s@, n as nat)),
            Err(_) => string_at(buf@) is None,
        },
{
    let mut is = protobuf::CodedInputStream::from_bytes(buf);
    let s = is.read_string()?;
    Ok((s, is.pos() as usize))
}

/// No unknown fields, by `protobuf::UnknownFields::new`.
#[verifier::external_body]
pub(crate) fn no_unknown() -> (r: protobuf::UnknownFields)
    ensures
        unknown_contents(r) == no_fields(),
{
    protobuf::UnknownFields::new()
}

/// Reads the value of a field that a message does not have, with
/// `protobuf::rt::read_unknown_or_skip_group`, and adds it to the unknown fields.
///
/// What the value is and how far it goes, the tag and the bytes say. A group is only moved past;
/// how far that is depends on the recursion limit too, and is only named. The call nests as deep as
/// the groups do, so the limit is to be a small one. Where the call fails, nothing is added.
#[verifier::external_body]
pub(crate) fn read_unknown(
    tag: u32,
    buf: &[u8],
    limit: u32,
    unknown: &mut protobuf::UnknownFields,
) -> (r: Result<usize, protobuf::Error>)
    requires
        limit <= RECURSION_LIMIT,
    ensures
        r matches Ok(n) ==> n <= buf@.len() && unknown_step(
            tag,
            buf@,
            limit,
            unknown_contents(*old(unknown)),
        ) == Some((unknown_contents(*final(unknown)), n as nat)),
        r is Err ==> unknown_step(tag, buf@, limit, unknown_contents(*old(unknown))) is None
            && unknown_contents(*final(unknown)) == unknown_contents(*old(unknown)),
        tag % 8 == 3 ==> match r {
            Ok(n) => group_value_len(tag, buf@, limit) == Some(n as nat),
            Err(_) => group_value_len(tag, buf@, limit) is None,
        },
{
    let mut is = protobuf::CodedInputStream::from_bytes(buf);
    is.set_recursion_limit(limit);
    protobuf::rt::read_unknown_or_skip_group(tag, &mut is, unknown)?;
    Ok(is.pos() as usize)
}

// ---------------------------------------------------------------------------------------------
// Writing
// ---------------------------------------------------------------------------------------------

/// Appends a string field with `protobuf::CodedOutputStream::write_string`.
///
/// A stream over a `Vec` grows it as needed, so the call does not fail. Field numbers outside the
/// range of the format make it panic.
#[verifier::external_body]
pub(crate) fn write_string(buf: &mut Vec<u8>, field: u32, s: &str)
    requires
        0 < field <= 0x1fff_ffff,
    ensures
        final(buf)@ == old(buf)@ + string_field(field as nat, s@),
{
    let mut os = protobuf::CodedOutputStream::vec(buf);
    os.write_string(field, s).unwrap();
    os.flush().unwrap();
}

/// Appends the tag of a length delimited field with `protobuf::CodedOutputStream::write_tag`.
#[verifier::external_body]
pub(crate) fn write_tag(buf: &mut Vec<u8>, field: u32)
    requires
        0 < field <= 0x1fff_ffff,
    ensures
        final(buf)@ == old(buf)@ + varint_bytes(tag_of(field as nat)),
{
    let mut os = protobuf::CodedOutputStream::vec(buf);
    os.write_tag(field, protobuf::rt::WireType::LengthDelimited).unwrap();
    os.flush().unwrap();
}

/// Appends a number with `protobuf::CodedOutputStream::write_raw_varint32`.
#[verifier::external_body]
pub(crate) fn write_varint32(buf: &mut Vec<u8>, v: u32)
    ensures
        final(buf)@ == old(buf)@ + varint_bytes(v as nat),
{
    let mut os = protobuf::CodedOutputStream::vec(buf);
    os.write_raw_varint32(v).unwrap();
    os.flush().unwrap();
}

/// The size of a string field by `protobuf::rt::string_size`.
///
/// It counts the tag, the length and the bytes, each in full.
#[verifier::external_body]
pub(crate) fn string_size(field: u32, s: &str) -> (r: u64)
    ensures
        r as nat == string_field_size(field as nat, s@),
{
    protobuf::rt::string_size(field, s)
}

/// Appends unknown fields with `protobuf::CodedOutputStream::write_unknown_fields`.
///
/// The fields come in the order in which a hash map is walked, which is left open. Field numbers
/// outside the range of the format make the call panic.
#[verifier::external_body]
pub(crate) fn write_unknown(buf: &mut Vec<u8>, unknown: &protobuf::UnknownFields)
    requires
        writable(unknown_contents(*unknown)),
    ensures
        appended(unknown_contents(*unknown), old(buf)@, final(buf)@),
{
    let mut os = protobuf::CodedOutputStream::vec(buf);
    os.write_unknown_fields(unknown).unwrap();
    os.flush().unwrap();
}

/// The size of unknown fields by `protobuf::rt::unknown_fields_size`: how many bytes they take,
/// in whatever order.
#[verifier::external_body]
pub(crate) fn unknown_size(unknown: &protobuf::UnknownFields) -> (r: u64)
    requires
        writable(unknown_contents(*unknown)),
    ensures
        forall|order: Seq<u32>|
            in_order(unknown_contents(*unknown), order) ==> r as nat == #[trigger] fields_bytes(
                unknown_contents(*unknown),
                order,
            ).len(),
{
    protobuf::rt::unknown_fields_size(unknown)
}

// ---------------------------------------------------------------------------------------------
// Reading moves on, and gives back what was written
// ---------------------------------------------------------------------------------------------

/// A number takes at least one byte, and no more than there are.
pub proof fn lemma_varint_len(s: Seq<u8>, max_len: nat, last: u8)
    ensures
        varint(s, max_len, last) matches Some((v, n)) ==> 0 < n <= s.len() && n <= max_len,
    decreases max_len,
{
    if s.len() > 0 && max_len > 1 && s[0] >= 0x80 {
        lemma_varint_len(s.skip(1), (max_len - 1) as nat, last);
    }
}

/// The first number that does not fit `max_len` bytes with `last` at the last place.
spec fn varint_bound(max_len: nat, last: u8) -> nat
    decreases max_len,
{
    if max_len <= 1 {
        last as nat + 1
    } else {
        0x80 * varint_bound((max_len - 1) as nat, last)
    }
}

proof fn lemma_varint_any(v: nat, max_len: nat, last: u8, rest: Seq<u8>)
    requires
        max_len > 0,
        last < 0x80,
        v < varint_bound(max_len, last),
    ensures
        varint(varint_bytes(v) + rest, max_len, last) == Some((v, varint_bytes(v).len())),
        varint_bytes(v).len() > 0,
    decreases max_len,
{
    let s = varint_bytes(v) + rest;
    if v < 0x80 {
        assert(s[0] == v as u8);
    } else {
        lemma_varint_any(v / 0x80, (max_len - 1) as nat, last, rest);
        assert(s.skip(1) =~= varint_bytes(v / 0x80) + rest);
        assert(s[0] == (v % 0x80 + 0x80) as u8);
    }
}

/// A number that was written and is cut off is not read.
pub(crate) proof fn lemma_varint_cut(v: nat, max_len: nat, last: u8, k: int)
    requires
        last < 0x80,
        0 <= k < varint_bytes(v).len(),
    ensures
        varint(varint_bytes(v).take(k), max_len, last) is None,
    decreases v,
{
    let s = varint_bytes(v).take(k);
    if k > 0 {
        assert(v >= 0x80);
        assert(s[0] == (v % 0x80 + 0x80) as u8);
        if max_len > 1 {
            lemma_varint_cut(v / 0x80, (max_len - 1) as nat, last, k - 1);
            assert(s.skip(1) =~= varint_bytes(v / 0x80).take(k - 1));
        }
    }
}

/// What is read as a 32 bit number is one.
pub(crate) proof fn lemma_varint32_value(s: Seq<u8>)
    ensures
        varint32(s) matches Some((v, _)) ==> v < 0x1_0000_0000,
{
    reveal_with_fuel(varint_bound, 6);
    lemma_varint_value(s, 5, 0x0f);
}

proof fn lemma_varint_value(s: Seq<u8>, max_len: nat, last: u8)
    ensures
        varint(s, max_len, last) matches Some((v, _)) ==> v < varint_bound(max_len, last),
        varint_bound(max_len, last) > 0,
    decreases max_len,
{
    if max_len > 1 {
        if s.len() > 0 {
            lemma_varint_value(s.skip(1), (max_len - 1) as nat, last);
        } else {
            lemma_varint_value(s, (max_len - 1) as nat, last);
        }
    }
}

/// A number below 2^32 is read back as it was written, whatever follows it.
pub proof fn lemma_varint32_round_trip(v: nat, rest: Seq<u8>)
    requires
        v < 0x1_0000_0000,
    ensures
        varint32(varint_bytes(v) + rest) == Some((v, varint_bytes(v).len())),
        varint_bytes(v).len() > 0,
{
    reveal_with_fuel(varint_bound, 6);
    lemma_varint_any(v, 5, 0x0f, rest);
}

/// A number below 2^64 takes ten bytes at most.
pub(crate) proof fn lemma_varint_bytes_len(v: nat)
    requires
        v < 0x1_0000_0000_0000_0000,
    ensures
        0 < varint_bytes(v).len() <= 10,
{
    lemma_varint64_round_trip(v, Seq::empty());
    lemma_varint_len(varint_bytes(v) + Seq::empty(), 10, 0x01);
}

/// So is one below 2^64 by the wider reader.
pub proof fn lemma_varint64_round_trip(v: nat, rest: Seq<u8>)
    requires
        v < 0x1_0000_0000_0000_0000,
    ensures
        varint64(varint_bytes(v) + rest) == Some((v, varint_bytes(v).len())),
        varint_bytes(v).len() > 0,
{
    reveal_with_fuel(varint_bound, 11);
    lemma_varint_any(v, 10, 0x01, rest);
}

/// A string whose length fits 32 bits is read back as it was written, whatever follows it.
pub proof fn lemma_string_round_trip(s: Seq<char>, rest: Seq<u8>)
    requires
        encode_utf8(s).len() < 0x1_0000_0000,
    ensures
        string_at(varint_bytes(encode_utf8(s).len()) + encode_utf8(s) + rest) == Some(
            (s, varint_bytes(encode_utf8(s).len()).len() + encode_utf8(s).len()),
        ),
{
    let body = encode_utf8(s);
    let head = varint_bytes(body.len());
    let all = head + body + rest;
    assert(all =~= head + (body + rest));
    lemma_varint32_round_trip(body.len(), body + rest);
    assert(all.subrange(head.len() as int, (head.len() + body.len()) as int) =~= body);
    vstd::utf8::encode_utf8_valid_utf8(s);
    vstd::utf8::encode_utf8_decode_utf8(s);
}

} // verus!
