//! Telemetry framing: each message is a two-byte big-endian length followed
//! by that many bytes.
use vstd::prelude::*;

verus! {

/// The largest payload a frame can carry.
pub const MAX_FRAME: usize = 65535;

/// The framed bytes of a payload that fits.
pub open spec fn frame_spec(payload: Seq<u8>) -> Seq<u8> {
    seq![(payload.len() / 256) as u8, (payload.len() % 256) as u8] + payload
}

/// The length that a prefix announces.
pub open spec fn announced(buf: Seq<u8>) -> int {
    buf[0] as int * 256 + buf[1] as int
}

/// What reading a frame from the front of a buffer gives.
#[derive(Debug)]
pub enum Decoded {
    /// The buffer does not yet hold the whole frame; nothing is consumed.
    Incomplete,
    /// A frame's payload, and the number of bytes it took.
    Frame(Vec<u8>, usize),
    /// A frame longer than the reader accepts, to be skipped: the number of
    /// bytes it takes.
    Oversized(usize),
}

/// The frame around `payload`, or `None` where it is too long for the
/// two-byte prefix.
pub fn encode_frame(payload: &Vec<u8>) -> (r: Option<Vec<u8>>)
    ensures
        r is Some <==> payload@.len() <= MAX_FRAME,
        r matches Some(f) ==> f@ == frame_spec(payload@),
{
    let n = payload.len();
    if n > MAX_FRAME {
        return None;
    }
    let mut out: Vec<u8> = Vec::new();
    out.push((n / 256) as u8);
    out.push((n % 256) as u8);
    let mut i: usize = 0;
    while i < n
        invariant
            n == payload@.len(),
            n <= MAX_FRAME,
            0 <= i <= n,
            out@ == seq![(n / 256) as u8, (n % 256) as u8] + payload@.subrange(0, i as int),
        decreases n - i,
    {
        out.push(payload[i]);
        i += 1;
        assert(out@ =~= seq![(n / 256) as u8, (n % 256) as u8] + payload@.subrange(0, i as int));
    }
    assert(payload@.subrange(0, n as int) =~= payload@);
    Some(out)
}

/// Reads the frame at the front of `buf`, accepting payloads of at most
/// `max_len` bytes.
pub fn decode_frame(buf: &Vec<u8>, max_len: usize) -> (r: Decoded)
    ensures
        buf@.len() < 2 ==> r is Incomplete,
        buf@.len() >= 2 ==> {
            let n = announced(buf@);
            &&& n > max_len ==> (r matches Decoded::Oversized(k) && k == n + 2)
            &&& n <= max_len && buf@.len() < n + 2 ==> r is Incomplete
            &&& n <= max_len && buf@.len() >= n + 2 ==> (r matches Decoded::Frame(p, k)
                && p@ == buf@.subrange(2, n + 2) && k == n + 2)
        },
{
    if buf.len() < 2 {
        return Decoded::Incomplete;
    }
    let n: usize = buf[0] as usize * 256 + buf[1] as usize;
    if n > max_len {
        return Decoded::Oversized(n + 2);
    }
    if buf.len() < n + 2 {
        return Decoded::Incomplete;
    }
    let mut payload: Vec<u8> = Vec::new();
    let mut i: usize = 2;
    while i < n + 2
        invariant
            n == announced(buf@),
            buf@.len() >= n + 2,
            2 <= i <= n + 2,
            payload@ == buf@.subrange(2, i as int),
        decreases n + 2 - i,
    {
        payload.push(buf[i]);
        i += 1;
        assert(payload@ =~= buf@.subrange(2, i as int));
    }
    Decoded::Frame(payload, n + 2)
}

/// A framed payload, followed by any bytes, reads back as that payload, and
/// the reader consumes exactly the frame.
pub proof fn lemma_frame_round_trip(payload: Seq<u8>, rest: Seq<u8>)
    requires
        payload.len() <= MAX_FRAME,
    ensures
        announced(frame_spec(payload) + rest) == payload.len(),
        (frame_spec(payload) + rest).len() >= payload.len() + 2,
        (frame_spec(payload) + rest).subrange(2, payload.len() as int + 2) == payload,
{
    let buf = frame_spec(payload) + rest;
    assert(buf[0] == (payload.len() / 256) as u8);
    assert(buf[1] == (payload.len() % 256) as u8);
    assert(buf.subrange(2, payload.len() as int + 2) =~= payload);
}


/// The longest wait between attempts to bring the link up, in units of
/// [`BACKOFF_UNIT_MS`].
pub const MAX_BACKOFF: u64 = 8;

/// The unit of the wait between attempts: 500 ms.
pub const BACKOFF_UNIT_MS: u64 = 500;

/// The wait before the next attempt after one that waited `wait` units and
/// failed: twice as long, at most [`MAX_BACKOFF`].
pub fn next_backoff(wait: u64) -> (r: u64)
    ensures
        r == (if 2 * wait < MAX_BACKOFF { 2 * wait } else { MAX_BACKOFF as int }),
{
    if wait < MAX_BACKOFF / 2 {
        wait * 2
    } else {
        MAX_BACKOFF
    }
}

} // verus!
