//! The stdio frame layout: a four-byte little-endian length prefix, then
//! the JSON payload bytes.
//!
//! The shell reads and writes the stream; the prefix arithmetic and its
//! round trip live here. A frame whose prefix or payload cannot be read is
//! fatal to the process by design: the stream offers no way to
//! resynchronize, so the supervising extension restarts the connector.

use vstd::prelude::*;
use vstd::slice::slice_index_get;

verus! {

/// The little-endian bytes of a 32-bit length.
pub open spec fn le_len_bytes(len: int) -> Seq<u8> {
    seq![
        (len % 256) as u8,
        ((len / 256) % 256) as u8,
        ((len / 0x10000) % 256) as u8,
        ((len / 0x1000000) % 256) as u8,
    ]
}

/// A whole frame: the payload's length, then the payload.
pub open spec fn frame_of(payload: Seq<u8>) -> Seq<u8> {
    le_len_bytes(payload.len() as int) + payload
}

/// Builds the frame for a payload.
pub fn encode_frame(payload: &[u8]) -> (r: Vec<u8>)
    requires
        payload@.len() < 0x100000000,
    ensures
        r@ == frame_of(payload@),
{
    let n = payload.len();
    let len32 = n as u64;
    let mut out: Vec<u8> = Vec::new();
    out.push((len32 % 256) as u8);
    out.push(((len32 / 256) % 256) as u8);
    out.push(((len32 / 0x10000) % 256) as u8);
    out.push(((len32 / 0x1000000) % 256) as u8);
    proof {
        assert(out@ =~= le_len_bytes(payload@.len() as int));
    }
    let ghost mid = out@;
    let mut i: usize = 0;
    while i < n
        invariant
            0 <= i <= n,
            n == payload@.len(),
            out@ == mid + payload@.take(i as int),
        decreases n - i,
    {
        out.push(*slice_index_get(payload, i));
        proof {
            assert(out@ =~= mid + payload@.take(i + 1));
        }
        i = i + 1;
    }
    proof {
        assert(payload@.take(n as int) =~= payload@);
        assert(out@ =~= frame_of(payload@));
    }
    out
}

/// Reads a length prefix back; inverse of the prefix `encode_frame` wrote.
pub fn decode_frame_len(header: &[u8]) -> (r: u32)
    requires
        header@.len() == 4,
    ensures
        forall|payload: Seq<u8>|
            payload.len() < 0x100000000 && header@ == le_len_bytes(payload.len() as int)
                ==> r == payload.len(),
{
    let b0 = *slice_index_get(header, 0) as u32;
    let b1 = *slice_index_get(header, 1) as u32;
    let b2 = *slice_index_get(header, 2) as u32;
    let b3 = *slice_index_get(header, 3) as u32;
    let r = b0 + b1 * 256 + b2 * 0x10000 + b3 * 0x1000000;
    proof {
        assert forall|payload: Seq<u8>|
            payload.len() < 0x100000000 && header@ == le_len_bytes(payload.len() as int)
                implies r == payload.len() by {
            let l = payload.len() as int;
            assert(header@[0] == (l % 256) as u8);
            assert(header@[1] == ((l / 256) % 256) as u8);
            assert(header@[2] == ((l / 0x10000) % 256) as u8);
            assert(header@[3] == ((l / 0x1000000) % 256) as u8);
            assert(l == (l % 256) + ((l / 256) % 256) * 256 + ((l / 0x10000) % 256) * 0x10000 + (
            (l / 0x1000000) % 256) * 0x1000000) by (nonlinear_arith)
                requires
                    0 <= l < 0x100000000,
            ;
        }
    }
    r
}

/// Round trip: the length read from a frame's prefix is the length of the
/// payload the frame was built from.
pub proof fn lemma_frame_roundtrip(payload: Seq<u8>)
    requires
        payload.len() < 0x100000000,
    ensures
        frame_of(payload).len() == payload.len() + 4,
        frame_of(payload).subrange(4, frame_of(payload).len() as int) == payload,
        frame_of(payload).subrange(0, 4) == le_len_bytes(payload.len() as int),
{
    assert(frame_of(payload).subrange(4, frame_of(payload).len() as int) =~= payload);
    assert(frame_of(payload).subrange(0, 4) =~= le_len_bytes(payload.len() as int));
}

} // verus!
