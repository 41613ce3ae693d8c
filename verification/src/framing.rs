//! Length-prefixed framing of messages: a 32-bit little-endian length
//! followed by the message bytes. Encoding the messages themselves and
//! moving frames over a transport are the process's business; the frame
//! layout is decided and checked here.

use vstd::prelude::*;

verus! {

/// The four little-endian bytes of `n`.
pub open spec fn le32_bytes(n: u32) -> Seq<u8> {
    seq![
        (n & 0xFF) as u8,
        ((n >> 8) & 0xFF) as u8,
        ((n >> 16) & 0xFF) as u8,
        ((n >> 24) & 0xFF) as u8,
    ]
}

/// The value of four little-endian bytes.
pub open spec fn le32_value(b: Seq<u8>) -> int {
    b[0] + 256 * (b[1] as int) + 65536 * (b[2] as int) + 16777216 * (b[3] as int)
}

/// Reading back the little-endian bytes of `n` yields `n`.
pub proof fn lemma_le32_round_trip(n: u32)
    ensures
        le32_value(le32_bytes(n)) == n,
{
    assert((n & 0xFF) + 256 * ((n >> 8) & 0xFF) + 65536 * ((n >> 16) & 0xFF) + 16777216 * ((n
        >> 24) & 0xFF) == n) by (bit_vector);
    assert((n & 0xFF) <= 0xFF) by (bit_vector);
    assert(((n >> 8) & 0xFF) <= 0xFF) by (bit_vector);
    assert(((n >> 16) & 0xFF) <= 0xFF) by (bit_vector);
    assert(((n >> 24) & 0xFF) <= 0xFF) by (bit_vector);
}

/// Prefix a message with its length as four little-endian bytes.
pub fn frame_message(body: &[u8]) -> (r: Vec<u8>)
    requires
        body@.len() <= u32::MAX,
    ensures
        r@ == le32_bytes(body@.len() as u32) + body@,
{
    let n = body.len() as u32;
    let mut out: Vec<u8> = Vec::new();
    out.push((n & 0xFF) as u8);
    out.push(((n >> 8) & 0xFF) as u8);
    out.push(((n >> 16) & 0xFF) as u8);
    out.push(((n >> 24) & 0xFF) as u8);
    out.extend_from_slice(body);
    proof {
        assert(out@ =~= le32_bytes(body@.len() as u32) + body@);
    }
    out
}

/// Whether `buf` begins with one complete frame.
pub open spec fn has_frame(buf: Seq<u8>) -> bool {
    buf.len() >= 4 && 4 + le32_value(buf.subrange(0, 4)) <= buf.len()
}

/// Read one frame off the front of `buf`: the message bytes and the
/// number of bytes consumed. `None` when no complete frame is there.
#[verifier::loop_isolation(false)]
pub fn read_frame(buf: &[u8]) -> (r: Option<(Vec<u8>, usize)>)
    ensures
        !has_frame(buf@) ==> r is None,
        has_frame(buf@) ==> (r matches Some((body, consumed)) && {
            let n = le32_value(buf@.subrange(0, 4));
            body@ == buf@.subrange(4, 4 + n) && consumed == 4 + n
        }),
{
    let total = buf.len();
    if total < 4 {
        return None;
    }
    let n_u64: u64 = (buf[0] as u64) + 256 * (buf[1] as u64) + 65536 * (buf[2] as u64) + 16777216
        * (buf[3] as u64);
    proof {
        assert(buf@.subrange(0, 4)[0] == buf@[0]);
        assert(buf@.subrange(0, 4)[1] == buf@[1]);
        assert(buf@.subrange(0, 4)[2] == buf@[2]);
        assert(buf@.subrange(0, 4)[3] == buf@[3]);
    }
    if n_u64 > (total as u64) - 4 {
        return None;
    }
    let n = n_u64 as usize;
    let mut body: Vec<u8> = Vec::new();
    for i in 0..n
        invariant
            body@ =~= buf@.subrange(4, 4 + i as int),
    {
        body.push(buf[4 + i]);
        proof {
            assert(body@ =~= buf@.subrange(4, 4 + (i + 1)));
        }
    }
    Some((body, 4 + n))
}

/// A framed message parses back to itself: the frame built for `body`
/// begins with a length prefix reading `body`'s length, and the bytes
/// after the prefix are exactly `body`.
pub proof fn lemma_frame_round_trip(body: Seq<u8>)
    requires
        body.len() <= u32::MAX,
    ensures
        ({
            let t = le32_bytes(body.len() as u32) + body;
            has_frame(t) && le32_value(t.subrange(0, 4)) == body.len() && t.subrange(
                4,
                t.len() as int,
            ) == body
        }),
{
    let t = le32_bytes(body.len() as u32) + body;
    lemma_le32_round_trip(body.len() as u32);
    assert(t.subrange(0, 4) =~= le32_bytes(body.len() as u32));
    assert(t.subrange(4, t.len() as int) =~= body);
}

} // verus!
