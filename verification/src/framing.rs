//! Length-prefixed framing of the signaling channel: each message is a
//! 4-byte big-endian length followed by that many bytes of UTF-8 JSON.
//! The reader rejects bodies over one MiB.

use vstd::prelude::*;
use crate::dlnk::spec_be32;

verus! {

/// Largest body the signaling reader accepts.
pub const MAX_SIGNALING_BODY_BYTES: usize = 1_048_576;

/// A framed message: the body's length in four big-endian bytes, then the
/// body itself.
pub open spec fn spec_frame(body: Seq<u8>) -> Seq<u8> {
    seq![
        ((body.len() as int / 0x100_0000) % 0x100) as u8,
        ((body.len() as int / 0x1_0000) % 0x100) as u8,
        ((body.len() as int / 0x100) % 0x100) as u8,
        (body.len() as int % 0x100) as u8,
    ] + body
}

/// Frame one message body for the wire.
pub fn encode_frame(body: &[u8]) -> (out: Vec<u8>)
    requires
        body@.len() <= u32::MAX,
    ensures
        out@ == spec_frame(body@),
        out@.len() == body@.len() + 4,
{
    let len = body.len() as u32;
    let mut out: Vec<u8> = Vec::new();
    out.push(((len / 0x100_0000) % 0x100) as u8);
    out.push(((len / 0x1_0000) % 0x100) as u8);
    out.push(((len / 0x100) % 0x100) as u8);
    out.push((len % 0x100) as u8);
    let ghost header = out@;
    out.extend_from_slice(body);
    proof {
        assert(out@ =~= spec_frame(body@));
    }
    out
}

/// Read the body length from a 4-byte prefix.
pub fn decode_length(prefix: &[u8]) -> (len: u32)
    requires
        prefix@.len() == 4,
    ensures
        len == spec_be32(prefix@[0], prefix@[1], prefix@[2], prefix@[3]),
{
    let b0 = *vstd::slice::slice_index_get(prefix, 0);
    let b1 = *vstd::slice::slice_index_get(prefix, 1);
    let b2 = *vstd::slice::slice_index_get(prefix, 2);
    let b3 = *vstd::slice::slice_index_get(prefix, 3);
    (b0 as u32) * 0x100_0000 + (b1 as u32) * 0x1_0000 + (b2 as u32) * 0x100 + (b3 as u32)
}

/// Whether a body length announced on the wire is acceptable to the reader.
pub fn length_accepted(len: u32) -> (ok: bool)
    ensures
        ok == (len <= MAX_SIGNALING_BODY_BYTES),
{
    len as usize <= MAX_SIGNALING_BODY_BYTES
}

/// Law: framing round-trips.  The length prefix of a framed body decodes to
/// the body's length, and the rest of the frame is the body itself.
pub proof fn lemma_frame_round_trip(body: Seq<u8>)
    requires
        body.len() <= u32::MAX,
    ensures
        ({
            let framed = spec_frame(body);
            &&& framed.len() == body.len() + 4
            &&& spec_be32(framed[0], framed[1], framed[2], framed[3]) == body.len()
            &&& framed.subrange(4, framed.len() as int) == body
        }),
{
    let framed = spec_frame(body);
    let n = body.len() as int;
    assert(spec_be32(framed[0], framed[1], framed[2], framed[3]) == ((n / 0x100_0000) % 0x100)
        * 0x100_0000 + ((n / 0x1_0000) % 0x100) * 0x1_0000 + ((n / 0x100) % 0x100) * 0x100 + n
        % 0x100);
    assert(((n / 0x100_0000) % 0x100) * 0x100_0000 + ((n / 0x1_0000) % 0x100) * 0x1_0000 + ((n
        / 0x100) % 0x100) * 0x100 + n % 0x100 == n) by (nonlinear_arith)
        requires
            0 <= n <= u32::MAX,
    ;
    assert(framed.subrange(4, framed.len() as int) =~= body);
}

} // verus!
