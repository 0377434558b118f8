//! Framing. Every message travels behind its own length, so that a reader takes
//! two bytes, learns from them how many more to take, and then holds exactly one
//! message. All integers are little-endian.

use vstd::prelude::*;

verus! {

/// The byte that parts the text fields of a message. No text-safe field holds it.
pub const DATA_SEPARATOR: u8 = 0x24;

/// The longest payload that the two-byte length field can announce.
pub const MAX_PAYLOAD_LEN: usize = 0xffff;

/// The two bytes that stand for `x` on the wire, low byte first.
pub open spec fn le16(x: u16) -> Seq<u8> {
    seq![(x % 256) as u8, (x / 256) as u8]
}

/// The number that the bytes `lo`, `hi` stand for.
pub open spec fn from_le16(lo: u8, hi: u8) -> u16 {
    (lo + 256 * hi) as u16
}

/// A payload behind its length.
pub open spec fn frame(payload: Seq<u8>) -> Seq<u8>
    recommends
        payload.len() <= MAX_PAYLOAD_LEN,
{
    le16(payload.len() as u16) + payload
}

/// Reading a number back from its two bytes gives the number.
pub proof fn lemma_le16_round_trip(x: u16)
    ensures
        le16(x).len() == 2,
        from_le16(le16(x)[0], le16(x)[1]) == x,
{
}

/// The first two bytes of a frame announce the length of the rest, and the rest
/// is the payload.
pub proof fn lemma_frame_parts(payload: Seq<u8>)
    requires
        payload.len() <= MAX_PAYLOAD_LEN,
    ensures
        frame(payload).len() == 2 + payload.len(),
        from_le16(frame(payload)[0], frame(payload)[1]) == payload.len(),
        frame(payload).skip(2) == payload,
{
    lemma_le16_round_trip(payload.len() as u16);
    assert(frame(payload).skip(2) =~= payload);
}

/// Appends the two bytes of `x`.
pub fn put_u16_le(buf: &mut Vec<u8>, x: u16)
    ensures
        final(buf)@ == old(buf)@ + le16(x),
{
    buf.push((x % 256) as u8);
    buf.push((x / 256) as u8);
    assert(buf@ =~= old(buf)@ + le16(x));
}

/// The number that two received bytes stand for: for a frame's header, the
/// length of the payload that follows it.
pub fn u16_from_le(lo: u8, hi: u8) -> (x: u16)
    ensures
        x == from_le16(lo, hi),
{
    lo as u16 + 256 * (hi as u16)
}

/// Appends `bytes`.
pub fn put_bytes(buf: &mut Vec<u8>, bytes: &[u8])
    ensures
        final(buf)@ == old(buf)@ + bytes@,
{
    let n: usize = bytes.len();
    let mut i: usize = 0;
    while i < n
        invariant
            n == bytes@.len(),
            i <= n,
            buf@ == old(buf)@ + bytes@.take(i as int),
        decreases n - i,
    {
        buf.push(bytes[i]);
        assert(bytes@.take(i + 1) =~= bytes@.take(i as int).push(bytes@[i as int]));
        i = i + 1;
    }
    assert(bytes@.take(n as int) =~= bytes@);
}

/// Puts `payload` behind its length, unless it is too long for the length field.
pub fn seal(payload: &Vec<u8>) -> (sealed: Option<Vec<u8>>)
    ensures
        sealed is Some <==> payload@.len() <= MAX_PAYLOAD_LEN,
        sealed matches Some(bytes) ==> bytes@ == frame(payload@),
{
    let n: usize = payload.len();
    if n > MAX_PAYLOAD_LEN {
        return None;
    }
    let mut bytes: Vec<u8> = Vec::new();
    put_u16_le(&mut bytes, n as u16);
    put_bytes(&mut bytes, payload.as_slice());
    Some(bytes)
}

} // verus!
