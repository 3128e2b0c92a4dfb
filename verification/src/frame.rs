//! Messages on a stream: each one has its length in front, as two bytes, the high one first.
use vstd::prelude::*;

verus! {

/// The number that two bytes are, the high one first.
pub open spec fn number_of(high: u8, low: u8) -> nat {
    (high * 256 + low) as nat
}

/// A message with its length in front. The length is cut to the 16 bits that it gets.
pub open spec fn framed(payload: Seq<u8>) -> Seq<u8> {
    let n = payload.len() % 0x1_0000;
    seq![(n / 256) as u8, (n % 256) as u8] + payload
}

/// The payload of the frame that `s` begins with, if all of it is there.
pub open spec fn unframed(s: Seq<u8>) -> Option<Seq<u8>> {
    if s.len() < 2 || s.len() < 2 + number_of(s[0], s[1]) {
        None
    } else {
        Some(s.subrange(2, 2 + number_of(s[0], s[1]) as int))
    }
}

/// Puts the length of a message in front of it.
pub fn frame(payload: &[u8]) -> (r: Vec<u8>)
    ensures
        r@ == framed(payload@),
{
    let n: usize = payload.len() % 0x1_0000;
    let mut r: Vec<u8> = Vec::new();
    r.push((n / 256) as u8);
    r.push((n % 256) as u8);
    r.extend_from_slice(payload);
    assert(r@ =~= framed(payload@));
    r
}

/// The length of the payload that follows a header.
pub fn payload_len(header: [u8; 2]) -> (r: usize)
    ensures
        r == number_of(header[0], header[1]),
{
    header[0] as usize * 256 + header[1] as usize
}

/// A message of at most 65535 bytes, framed, is got back from the stream, whatever follows it.
pub proof fn law_frame_round_trip(payload: Seq<u8>, rest: Seq<u8>)
    requires
        payload.len() < 0x1_0000,
    ensures
        unframed(framed(payload) + rest) == Some(payload),
{
    let s = framed(payload) + rest;
    assert(number_of(s[0], s[1]) == payload.len());
    assert(s.subrange(2, 2 + payload.len() as int) =~= payload);
}

/// A message is put on the stream behind two bytes, of which the high one comes first: its length,
/// or the low 16 bits of that.
pub proof fn law_header(payload: Seq<u8>)
    ensures
        framed(payload).len() == payload.len() + 2,
        framed(payload)[0] * 256 + framed(payload)[1] == payload.len() % 65_536,
        framed(payload).skip(2) == payload,
{
    assert(framed(payload).skip(2) =~= payload);
}

/// As long as a part of it is missing, a message is not got back from the stream.
pub proof fn law_incomplete(payload: Seq<u8>, k: int)
    requires
        payload.len() < 0x1_0000,
        0 <= k < payload.len() + 2,
    ensures
        unframed(framed(payload).take(k)) is None,
{
    let s = framed(payload).take(k);
    if k >= 2 {
        assert(s[0] == framed(payload)[0] && s[1] == framed(payload)[1]);
    }
}

} // verus!
