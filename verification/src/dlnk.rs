//! The DLNK wire codec: a 20-byte big-endian header in front of each UDP
//! video datagram, and the packetiser that splits an encoded frame into
//! datagrams of at most `HEADER_SIZE + MAX_PAYLOAD_BYTES` bytes.
//!
//! Header layout, all fields big-endian:
//! bytes 0..4 magic `0x444C4E4B`, 4..8 frame sequence, 8..10 fragment index,
//! 10..12 fragment count, 12..16 presentation timestamp in ms, 16 flags
//! (bit 0 = keyframe), 17 display index, 18..20 reserved zero.

use vstd::prelude::*;
use vstd::slice::{slice_index_get, slice_subrange, slice_to_vec};

verus! {

/// The DLNK magic number, "DLNK" in ASCII.
pub const DLNK_MAGIC: u32 = 0x444C_4E4B;

/// Size of the DLNK header in bytes.
pub const HEADER_SIZE: usize = 20;

/// Maximum payload bytes per fragment, so that one datagram stays at or
/// below 1404 bytes.
pub const MAX_PAYLOAD_BYTES: usize = 1384;

/// The big-endian value of two bytes.
pub open spec fn spec_be16(b0: u8, b1: u8) -> int {
    b0 * 0x100 + b1
}

/// The big-endian value of four bytes.
pub open spec fn spec_be32(b0: u8, b1: u8, b2: u8, b3: u8) -> int {
    b0 * 0x100_0000 + b1 * 0x1_0000 + b2 * 0x100 + b3
}

/// A parsed DLNK packet.
#[derive(Debug, Clone)]
pub struct DualLinkPacket {
    pub frame_seq: u32,
    pub frag_index: u16,
    pub frag_count: u16,
    pub pts_ms: u32,
    pub is_keyframe: bool,
    pub display_index: u8,
    pub payload: Vec<u8>,
}

/// A datagram is a DLNK packet when it holds a full header, the magic
/// matches, and the fragment count is nonzero.
pub open spec fn spec_is_dlnk_packet(buf: Seq<u8>) -> bool {
    &&& buf.len() >= HEADER_SIZE
    &&& spec_be32(buf[0], buf[1], buf[2], buf[3]) == DLNK_MAGIC
    &&& spec_be16(buf[10], buf[11]) != 0
}

/// The packet a valid DLNK datagram carries.  Field by field, over the raw
/// bytes; the payload is everything after the header.
pub open spec fn spec_packet_fields(buf: Seq<u8>, p: DualLinkPacket) -> bool {
    &&& p.frame_seq == spec_be32(buf[4], buf[5], buf[6], buf[7])
    &&& p.frag_index == spec_be16(buf[8], buf[9])
    &&& p.frag_count == spec_be16(buf[10], buf[11])
    &&& p.pts_ms == spec_be32(buf[12], buf[13], buf[14], buf[15])
    &&& p.is_keyframe == (buf[16] & 1 != 0)
    &&& p.display_index == buf[17]
    &&& p.payload@ == buf.subrange(HEADER_SIZE as int, buf.len() as int)
}

pub(crate) fn read_be16(buf: &[u8], i: usize) -> (v: u16)
    requires
        i + 2 <= buf@.len(),
        buf@.len() <= usize::MAX,
    ensures
        v == spec_be16(buf@[i as int], buf@[i + 1]),
{
    let b0 = *slice_index_get(buf, i);
    let b1 = *slice_index_get(buf, i + 1);
    (b0 as u16) * 0x100 + (b1 as u16)
}

pub(crate) fn read_be32(buf: &[u8], i: usize) -> (v: u32)
    requires
        i + 4 <= buf@.len(),
        buf@.len() <= usize::MAX,
    ensures
        v == spec_be32(buf@[i as int], buf@[i + 1], buf@[i + 2], buf@[i + 3]),
{
    let b0 = *slice_index_get(buf, i);
    let b1 = *slice_index_get(buf, i + 1);
    let b2 = *slice_index_get(buf, i + 2);
    let b3 = *slice_index_get(buf, i + 3);
    (b0 as u32) * 0x100_0000 + (b1 as u32) * 0x1_0000 + (b2 as u32) * 0x100 + (b3 as u32)
}

/// Parse one datagram.  Returns `None` exactly on a short buffer, a wrong
/// magic, or a zero fragment count; otherwise the parsed packet, whose
/// payload is the trailing slice (possibly empty).
pub fn parse_packet(buf: &[u8]) -> (r: Option<DualLinkPacket>)
    ensures
        r is Some <==> spec_is_dlnk_packet(buf@),
        r is Some ==> spec_packet_fields(buf@, r->Some_0),
        r is Some ==> r->Some_0.frag_count >= 1,
{
    if buf.len() < HEADER_SIZE {
        return None;
    }
    let magic = read_be32(buf, 0);
    if magic != DLNK_MAGIC {
        return None;
    }
    let frag_count = read_be16(buf, 10);
    if frag_count == 0 {
        return None;
    }
    let frame_seq = read_be32(buf, 4);
    let frag_index = read_be16(buf, 8);
    let pts_ms = read_be32(buf, 12);
    let flags = *slice_index_get(buf, 16);
    let display_index = *slice_index_get(buf, 17);
    let payload = slice_to_vec(slice_subrange(buf, HEADER_SIZE, buf.len()));
    Some(
        DualLinkPacket {
            frame_seq,
            frag_index,
            frag_count,
            pts_ms,
            is_keyframe: flags & 1 != 0,
            display_index,
            payload,
        },
    )
}

fn push_be16(out: &mut Vec<u8>, v: u16)
    ensures
        final(out)@.len() == old(out)@.len() + 2,
        final(out)@ == old(out)@ + seq![(v / 0x100) as u8, (v % 0x100) as u8],
        spec_be16(final(out)@[old(out)@.len() as int], final(out)@[old(out)@.len() as int + 1]) == v,
{
    out.push((v / 0x100) as u8);
    out.push((v % 0x100) as u8);
}

fn push_be32(out: &mut Vec<u8>, v: u32)
    ensures
        final(out)@.len() == old(out)@.len() + 4,
        final(out)@ == old(out)@ + seq![
            (v / 0x100_0000) as u8,
            ((v / 0x1_0000) % 0x100) as u8,
            ((v / 0x100) % 0x100) as u8,
            (v % 0x100) as u8,
        ],
        spec_be32(
            final(out)@[old(out)@.len() as int],
            final(out)@[old(out)@.len() as int + 1],
            final(out)@[old(out)@.len() as int + 2],
            final(out)@[old(out)@.len() as int + 3],
        ) == v,
{
    out.push((v / 0x100_0000) as u8);
    out.push(((v / 0x1_0000) % 0x100) as u8);
    out.push(((v / 0x100) % 0x100) as u8);
    out.push((v % 0x100) as u8);
}

/// Build one DLNK datagram from header fields and a payload slice.
pub fn build_packet(
    frame_seq: u32,
    frag_index: u16,
    frag_count: u16,
    pts_ms: u32,
    is_keyframe: bool,
    display_index: u8,
    payload: &[u8],
) -> (d: Vec<u8>)
    requires
        frag_count >= 1,
        payload@.len() + HEADER_SIZE <= usize::MAX,
    ensures
        d@.len() == HEADER_SIZE + payload@.len(),
        spec_is_dlnk_packet(d@),
        spec_be32(d@[4], d@[5], d@[6], d@[7]) == frame_seq,
        spec_be16(d@[8], d@[9]) == frag_index,
        spec_be16(d@[10], d@[11]) == frag_count,
        spec_be32(d@[12], d@[13], d@[14], d@[15]) == pts_ms,
        (d@[16] & 1 != 0) == is_keyframe,
        d@[17] == display_index,
        d@.subrange(HEADER_SIZE as int, d@.len() as int) == payload@,
{
    let mut d: Vec<u8> = Vec::new();
    push_be32(&mut d, DLNK_MAGIC);
    push_be32(&mut d, frame_seq);
    push_be16(&mut d, frag_index);
    push_be16(&mut d, frag_count);
    push_be32(&mut d, pts_ms);
    d.push(if is_keyframe { 1 } else { 0 });
    d.push(display_index);
    d.push(0);
    d.push(0);
    let ghost header = d@;
    assert(header.len() == HEADER_SIZE);
    d.extend_from_slice(payload);
    proof {
        assert(d@.subrange(HEADER_SIZE as int, d@.len() as int) =~= payload@);
        assert(d@[16] == (if is_keyframe { 1u8 } else { 0u8 }));
        assert((1u8 & 1 != 0) == true) by (bit_vector);
        assert((0u8 & 1 != 0) == false) by (bit_vector);
    }
    d
}

/// How many fragments a frame of `n` payload bytes is split into: one for an
/// empty frame, else the number of `MAX_PAYLOAD_BYTES` slices rounded up.
pub open spec fn spec_frag_count(n: nat) -> int {
    if n == 0 {
        1
    } else {
        (n + (MAX_PAYLOAD_BYTES - 1)) / (MAX_PAYLOAD_BYTES as int)
    }
}

/// The payload slice of fragment `i` of `data`.
pub open spec fn spec_frag_payload(data: Seq<u8>, i: int) -> Seq<u8> {
    let lo = i * MAX_PAYLOAD_BYTES;
    let hi = if lo + MAX_PAYLOAD_BYTES <= data.len() {
        lo + MAX_PAYLOAD_BYTES
    } else {
        data.len() as int
    };
    data.subrange(lo, hi)
}

/// Largest frame the packetiser accepts: the fragment count must fit u16.
pub const MAX_FRAME_BYTES: usize = 90_699_840;

/// The bytes covered by the first `k` fragment payloads.
proof fn lemma_fragment_payloads_prefix(data: Seq<u8>, k: int)
    requires
        0 <= k <= spec_frag_count(data.len()),
    ensures
        crate::reassembler::spec_concat(
            Seq::new(k as nat, |i: int| spec_frag_payload(data, i)),
        ) == data.take(
            if k * MAX_PAYLOAD_BYTES <= data.len() {
                k * MAX_PAYLOAD_BYTES
            } else {
                data.len() as int
            },
        ),
    decreases k,
{
    let len = data.len() as int;
    if k == 0 {
        assert(Seq::new(0, |i: int| spec_frag_payload(data, i)) =~= Seq::<Seq<u8>>::empty());
        assert(data.take(0) =~= Seq::<u8>::empty());
    } else {
        lemma_fragment_payloads_prefix(data, k - 1);
        let s = Seq::new(k as nat, |i: int| spec_frag_payload(data, i));
        let pre = Seq::new((k - 1) as nat, |i: int| spec_frag_payload(data, i));
        assert(s.drop_last() =~= pre);
        assert(s.last() == spec_frag_payload(data, k - 1));
        if len > 0 {
            assert((k - 1) * MAX_PAYLOAD_BYTES < len) by (nonlinear_arith)
                requires
                    k - 1 < spec_frag_count(data.len()),
                    spec_frag_count(data.len()) == (len + 1383) / 1384,
                    len > 0,
                    MAX_PAYLOAD_BYTES == 1384,
                    k >= 1,
            ;
        }
        let lo = (k - 1) * MAX_PAYLOAD_BYTES;
        let hi = if k * MAX_PAYLOAD_BYTES <= len {
            k * MAX_PAYLOAD_BYTES
        } else {
            len
        };
        assert(k * MAX_PAYLOAD_BYTES == lo + MAX_PAYLOAD_BYTES) by (nonlinear_arith)
            requires
                lo == (k - 1) * MAX_PAYLOAD_BYTES,
                MAX_PAYLOAD_BYTES == 1384,
        ;
        assert(spec_frag_payload(data, k - 1) == data.subrange(lo, hi));
        assert(data.take(lo) + data.subrange(lo, hi) =~= data.take(hi));
    }
}

/// Law: the payload slices the packetiser cuts one frame into concatenate,
/// in index order, back to the frame's exact bytes.
pub proof fn lemma_fragment_payloads_concat(data: Seq<u8>)
    ensures
        crate::reassembler::spec_concat(
            Seq::new(
                spec_frag_count(data.len()) as nat,
                |i: int| spec_frag_payload(data, i),
            ),
        ) == data,
{
    let count = spec_frag_count(data.len());
    let len = data.len() as int;
    lemma_fragment_payloads_prefix(data, count);
    if len > 0 {
        assert(count * MAX_PAYLOAD_BYTES >= len) by (nonlinear_arith)
            requires
                count == (len + 1383) / 1384,
                len > 0,
                MAX_PAYLOAD_BYTES == 1384,
        ;
    }
    assert(data.take(len) =~= data);
}

/// Split one encoded frame into DLNK datagrams, at least one even for an
/// empty frame.  Fragment `i` carries the `i`-th `MAX_PAYLOAD_BYTES` slice of
/// the frame; every datagram repeats the frame header fields and the total
/// fragment count.
pub fn packetize(
    frame_seq: u32,
    pts_ms: u32,
    is_keyframe: bool,
    display_index: u8,
    data: &[u8],
) -> (packets: Vec<Vec<u8>>)
    requires
        data@.len() <= MAX_FRAME_BYTES,
    ensures
        packets@.len() == spec_frag_count(data@.len()),
        forall|i: int|
            0 <= i < packets@.len() ==> {
                let d = #[trigger] packets@[i]@;
                &&& spec_is_dlnk_packet(d)
                &&& spec_be32(d[4], d[5], d[6], d[7]) == frame_seq
                &&& spec_be16(d[8], d[9]) == i
                &&& spec_be16(d[10], d[11]) == packets@.len()
                &&& spec_be32(d[12], d[13], d[14], d[15]) == pts_ms
                &&& (d[16] & 1 != 0) == is_keyframe
                &&& d[17] == display_index
                &&& d.subrange(HEADER_SIZE as int, d.len() as int) == spec_frag_payload(data@, i)
            },
{
    let len = data.len();
    let num_fragments: usize = if len == 0 {
        1
    } else {
        (len + (MAX_PAYLOAD_BYTES - 1)) / MAX_PAYLOAD_BYTES
    };
    assert(num_fragments <= 0xffff);
    let frag_count = num_fragments as u16;
    let mut packets: Vec<Vec<u8>> = Vec::new();
    for i in 0..num_fragments
        invariant
            len == data@.len(),
            len <= MAX_FRAME_BYTES,
            num_fragments == spec_frag_count(data@.len()),
            num_fragments <= 0xffff,
            frag_count == num_fragments,
            packets@.len() == i,
            forall|j: int|
                0 <= j < i ==> {
                    let d = #[trigger] packets@[j]@;
                    &&& spec_is_dlnk_packet(d)
                    &&& spec_be32(d[4], d[5], d[6], d[7]) == frame_seq
                    &&& spec_be16(d[8], d[9]) == j
                    &&& spec_be16(d[10], d[11]) == num_fragments
                    &&& spec_be32(d[12], d[13], d[14], d[15]) == pts_ms
                    &&& (d[16] & 1 != 0) == is_keyframe
                    &&& d[17] == display_index
                    &&& d.subrange(HEADER_SIZE as int, d.len() as int) == spec_frag_payload(
                        data@,
                        j,
                    )
                },
    {
        let offset = i * MAX_PAYLOAD_BYTES;
        proof {
            assert(offset == i * MAX_PAYLOAD_BYTES);
            assert(i < num_fragments);
            if len > 0 {
                assert(i * MAX_PAYLOAD_BYTES < len) by (nonlinear_arith)
                    requires
                        i < num_fragments,
                        num_fragments == (len + 1383) / 1384,
                        len > 0,
                        MAX_PAYLOAD_BYTES == 1384,
                ;
            }
        }
        let end = if offset + MAX_PAYLOAD_BYTES <= len {
            offset + MAX_PAYLOAD_BYTES
        } else {
            len
        };
        let payload = slice_subrange(data, offset, end);
        let d = build_packet(
            frame_seq,
            i as u16,
            frag_count,
            pts_ms,
            is_keyframe,
            display_index,
            payload,
        );
        packets.push(d);
    }
    packets
}

} // verus!
