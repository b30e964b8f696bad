//! Wire framing: a 4-byte little-endian length prefix followed by that many
//! bytes of JSON, with a cap so a hostile peer cannot make the daemon
//! allocate without bound.

use crate::errors::{other_err, NetworkError};
use crate::text::{decimal, u64_to_string};
use vstd::prelude::*;

verus! {

/// 16 MiB: generous, but not "a hostile peer can OOM us".
pub const MAX_MESSAGE_LEN: u32 = 16777216;

/// The little-endian bytes of `n`.
pub open spec fn le_bytes(n: u32) -> Seq<u8> {
    seq![
        (n & 0xff) as u8,
        ((n >> 8u32) & 0xff) as u8,
        ((n >> 16u32) & 0xff) as u8,
        ((n >> 24u32) & 0xff) as u8,
    ]
}

/// The `u32` whose little-endian bytes are `b`.
pub open spec fn from_le(b: Seq<u8>) -> u32 {
    (b[0] as u32) | ((b[1] as u32) << 8u32) | ((b[2] as u32) << 16u32) | ((b[3] as u32) << 24u32)
}

proof fn lemma_le_round_trip(n: u32)
    ensures
        from_le(le_bytes(n)) == n,
{
    let b0 = (n & 0xff) as u8;
    let b1 = ((n >> 8u32) & 0xff) as u8;
    let b2 = ((n >> 16u32) & 0xff) as u8;
    let b3 = ((n >> 24u32) & 0xff) as u8;
    assert((b0 as u32) | ((b1 as u32) << 8u32) | ((b2 as u32) << 16u32) | ((b3 as u32) << 24u32)
        == n) by (bit_vector)
        requires
            b0 == (n & 0xff) as u8,
            b1 == ((n >> 8u32) & 0xff) as u8,
            b2 == ((n >> 16u32) & 0xff) as u8,
            b3 == ((n >> 24u32) & 0xff) as u8,
    ;
}

/// The frame carrying `payload`: its length as 4 little-endian bytes, then
/// the payload itself.
pub open spec fn frame_spec(payload: Seq<u8>) -> Seq<u8> {
    le_bytes(payload.len() as u32) + payload
}

/// Frames an already-serialized message for sending; a payload longer than
/// `MAX_MESSAGE_LEN` is refused.
pub fn frame_message(payload: &[u8]) -> (r: Result<Vec<u8>, NetworkError>)
    ensures
        payload@.len() <= MAX_MESSAGE_LEN ==> (r matches Ok(f) && f@ == frame_spec(payload@)),
        payload@.len() > MAX_MESSAGE_LEN ==> other_err(r, "outgoing IPC message too large"@),
{
    if payload.len() > MAX_MESSAGE_LEN as usize {
        return Err(NetworkError::Other(String::from_str("outgoing IPC message too large")));
    }
    let n = payload.len() as u32;
    let mut out: Vec<u8> = Vec::new();
    out.push((n & 0xff) as u8);
    out.push(((n >> 8u32) & 0xff) as u8);
    out.push(((n >> 16u32) & 0xff) as u8);
    out.push(((n >> 24u32) & 0xff) as u8);
    let mut i: usize = 0;
    while i < payload.len()
        invariant
            n == payload@.len(),
            i <= payload.len(),
            out@ == le_bytes(n) + payload@.subrange(0, i as int),
        decreases payload.len() - i,
    {
        out.push(payload[i]);
        i += 1;
        assert(out@ =~= le_bytes(n) + payload@.subrange(0, i as int));
    }
    assert(payload@.subrange(0, payload.len() as int) =~= payload@);
    Ok(out)
}

/// The payload length announced by a received 4-byte header; a length
/// above `MAX_MESSAGE_LEN` is refused before anything is allocated for it.
pub fn decode_length(header: [u8; 4]) -> (r: Result<u32, NetworkError>)
    ensures
        from_le(header@) <= MAX_MESSAGE_LEN ==> r == Ok::<u32, NetworkError>(from_le(header@)),
        from_le(header@) > MAX_MESSAGE_LEN ==> other_err(
            r,
            "incoming IPC message too large ("@ + decimal(from_le(header@) as nat) + " bytes)"@,
        ),
{
    let len = (header[0] as u32) | ((header[1] as u32) << 8u32) | ((header[2] as u32) << 16u32) | ((
    header[3] as u32) << 24u32);
    if len > MAX_MESSAGE_LEN {
        let mut msg = String::from_str("incoming IPC message too large (");
        let digits = u64_to_string(len as u64);
        msg.append(digits.as_str());
        msg.append(" bytes)");
        return Err(NetworkError::Other(msg));
    }
    Ok(len)
}

/// Reading back a frame yields the length it was written with: framing
/// then decoding the header round-trips every payload within the cap, and
/// the payload follows the header unchanged.
pub proof fn lemma_frame_round_trip(payload: Seq<u8>)
    requires
        payload.len() <= MAX_MESSAGE_LEN,
    ensures
        from_le(frame_spec(payload).subrange(0, 4)) == payload.len(),
        frame_spec(payload).subrange(4, frame_spec(payload).len() as int) == payload,
{
    let f = frame_spec(payload);
    assert(f.subrange(0, 4) =~= le_bytes(payload.len() as u32));
    lemma_le_round_trip(payload.len() as u32);
    assert(f.subrange(4, f.len() as int) =~= payload);
}

} // verus!
