//! Length-prefixed wire frames: a four-byte big-endian length followed by
//! that many bytes of payload.

use vstd::prelude::*;

verus! {

/// Number of bytes in the length prefix of a frame.
pub const PREFIX_LEN: usize = 4;

/// Why bytes could not be read as a frame.
#[derive(Clone, Copy, Debug, PartialEq, Eq, Structural)]
pub enum FrameError {
    /// The length prefix, or the payload that it announces, is not there in
    /// full.
    MalformedFrame,
}

/// The number that four bytes spell, most significant byte first.
pub open spec fn be_value(b: Seq<u8>) -> nat {
    (b[0] as nat) * 0x100_0000 + (b[1] as nat) * 0x1_0000 + (b[2] as nat) * 0x100 + (b[3] as nat)
}

/// The four bytes that spell `n`, most significant byte first.
pub open spec fn be_bytes(n: nat) -> Seq<u8> {
    seq![
        ((n / 0x100_0000) % 0x100) as u8,
        ((n / 0x1_0000) % 0x100) as u8,
        ((n / 0x100) % 0x100) as u8,
        (n % 0x100) as u8,
    ]
}

/// The frame that carries `payload`.
pub open spec fn encoded(payload: Seq<u8>) -> Seq<u8> {
    be_bytes(payload.len()) + payload
}

/// The payload of the frame at the start of `bytes` and the bytes behind it,
/// or `None` where the prefix or the payload is cut short.
pub open spec fn decoded(bytes: Seq<u8>) -> Option<(Seq<u8>, Seq<u8>)> {
    if bytes.len() < PREFIX_LEN {
        None
    } else {
        let n = be_value(bytes.take(PREFIX_LEN as int));
        if bytes.len() < PREFIX_LEN + n {
            None
        } else {
            Some((bytes.subrange(PREFIX_LEN as int, PREFIX_LEN + n), bytes.skip(PREFIX_LEN + n)))
        }
    }
}

/// Four bytes spell the number that they were made from.
pub proof fn lemma_be_round_trip(n: nat)
    requires
        n <= u32::MAX,
    ensures
        be_bytes(n).len() == PREFIX_LEN,
        be_value(be_bytes(n)) == n,
{
}

/// Decoding the frame of a payload gives the payload back and nothing
/// else, whatever follows the frame.
pub proof fn lemma_decode_encode(payload: Seq<u8>, rest: Seq<u8>)
    requires
        payload.len() <= u32::MAX,
    ensures
        decoded(encoded(payload) + rest) == Some((payload, rest)),
        decoded(encoded(payload)) == Some((payload, Seq::<u8>::empty())),
{
    lemma_be_round_trip(payload.len());
    let prefix = be_bytes(payload.len());
    let whole = encoded(payload) + rest;
    assert(whole.take(PREFIX_LEN as int) =~= prefix);
    assert(whole.subrange(PREFIX_LEN as int, PREFIX_LEN + payload.len()) =~= payload);
    assert(whole.skip(PREFIX_LEN + payload.len()) =~= rest);
    let alone = encoded(payload);
    assert(alone.take(PREFIX_LEN as int) =~= prefix);
    assert(alone.subrange(PREFIX_LEN as int, PREFIX_LEN + payload.len()) =~= payload);
    assert(alone.skip(PREFIX_LEN + payload.len()) =~= Seq::<u8>::empty());
}

/// The bytes made from the number that four bytes spell are those bytes.
pub proof fn lemma_be_value_round_trip(b: Seq<u8>)
    requires
        b.len() == PREFIX_LEN,
    ensures
        be_value(b) <= u32::MAX,
        be_bytes(be_value(b)) == b,
{
    let b0 = b[0] as nat;
    let b1 = b[1] as nat;
    let b2 = b[2] as nat;
    let b3 = b[3] as nat;
    let v = be_value(b);
    assert(v == ((b0 * 0x100 + b1) * 0x100 + b2) * 0x100 + b3);
    let v1 = (b0 * 0x100 + b1) * 0x100 + b2;
    assert(v % 0x100 == b3 && v / 0x100 == v1);
    let v2 = b0 * 0x100 + b1;
    assert(v1 % 0x100 == b2 && v1 / 0x100 == v2);
    assert(v2 % 0x100 == b1 && v2 / 0x100 == b0);
    assert(v / 0x1_0000 == v2);
    assert(v / 0x100_0000 == b0);
    assert(be_bytes(v) =~= b);
}

/// Encoding what was decoded gives back the bytes of the frame.
pub proof fn lemma_encode_decode(bytes: Seq<u8>)
    requires
        decoded(bytes) is Some,
    ensures
        decoded(bytes) matches Some((payload, rest)) && encoded(payload) + rest == bytes,
{
    let p = bytes.take(PREFIX_LEN as int);
    lemma_be_value_round_trip(p);
    let (payload, rest) = decoded(bytes)->0;
    assert(encoded(payload) + rest =~= bytes);
}

/// The length that the four bytes at the start of `bytes` announce.
pub fn read_length(bytes: &Vec<u8>) -> (length: Result<u32, FrameError>)
    ensures
        bytes.len() < PREFIX_LEN ==> length == Err::<u32, FrameError>(FrameError::MalformedFrame),
        bytes.len() >= PREFIX_LEN ==> length is Ok && length->Ok_0 as nat == be_value(
            bytes@.take(PREFIX_LEN as int),
        ),
{
    if bytes.len() < PREFIX_LEN {
        return Err(FrameError::MalformedFrame);
    }
    let hi: u32 = (bytes[0] as u32) * 0x100_0000 + (bytes[1] as u32) * 0x1_0000;
    let lo: u32 = (bytes[2] as u32) * 0x100 + (bytes[3] as u32);
    Ok(hi + lo)
}

/// Puts `payload` in a frame. A payload too long for the prefix has no
/// frame.
pub fn encode(payload: &Vec<u8>) -> (frame: Option<Vec<u8>>)
    ensures
        payload.len() > u32::MAX ==> frame is None,
        payload.len() <= u32::MAX ==> frame is Some && frame->0@ == encoded(payload@),
{
    let n = payload.len();
    if n > 0xFFFF_FFFF {
        return None;
    }
    let mut frame: Vec<u8> = Vec::new();
    frame.push(((n / 0x100_0000) % 0x100) as u8);
    frame.push(((n / 0x1_0000) % 0x100) as u8);
    frame.push(((n / 0x100) % 0x100) as u8);
    frame.push((n % 0x100) as u8);
    assert(frame@ =~= be_bytes(n as nat));
    let mut i: usize = 0;
    while i < n
        invariant
            i <= n == payload.len(),
            frame@ == be_bytes(n as nat) + payload@.take(i as int),
        decreases n - i,
    {
        frame.push(payload[i]);
        assert(frame@ =~= be_bytes(n as nat) + payload@.take(i + 1));
        i += 1;
    }
    assert(payload@.take(n as int) =~= payload@);
    Some(frame)
}

/// Takes the frame at the start of `bytes` apart: its payload, and the
/// number of bytes that the frame takes up.
pub fn decode(bytes: &Vec<u8>) -> (frame: Result<(Vec<u8>, usize), FrameError>)
    ensures
        match decoded(bytes@) {
            None => frame == Err::<(Vec<u8>, usize), FrameError>(FrameError::MalformedFrame),
            Some((payload, rest)) => frame matches Ok((got, used)) && got@ == payload && used
                == bytes.len() - rest.len(),
        },
{
    let n = match read_length(bytes) {
        Ok(n) => n as usize,
        Err(e) => {
            return Err(e);
        },
    };
    if bytes.len() - PREFIX_LEN < n {
        return Err(FrameError::MalformedFrame);
    }
    let mut payload: Vec<u8> = Vec::new();
    let mut i: usize = 0;
    while i < n
        invariant
            i <= n,
            PREFIX_LEN + n <= bytes.len(),
            payload@ == bytes@.subrange(PREFIX_LEN as int, PREFIX_LEN + i),
        decreases n - i,
    {
        payload.push(bytes[PREFIX_LEN + i]);
        assert(payload@ =~= bytes@.subrange(PREFIX_LEN as int, PREFIX_LEN + i + 1));
        i += 1;
    }
    Ok((payload, PREFIX_LEN + n))
}

} // verus!
