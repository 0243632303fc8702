//! Reassembler tests: single-packet frames, out-of-order delivery,
//! duplicates, loss with eviction, and untouched state on bad packets.

use duallink::config::VideoCodec;
use duallink::dlnk::{build_packet, parse_packet, DualLinkPacket};
use duallink::reassembler::Reassembler;

fn packet(
    frame_seq: u32,
    frag_index: u16,
    frag_count: u16,
    pts_ms: u32,
    is_keyframe: bool,
    payload: &[u8],
) -> DualLinkPacket {
    let buf = build_packet(frame_seq, frag_index, frag_count, pts_ms, is_keyframe, 0, payload);
    parse_packet(&buf).expect("constructed packet parses")
}

#[test]
fn single_packet_frame() {
    let payload = [0x00u8, 0x00, 0x00, 0x01, 0x65, 0x88];
    let mut r = Reassembler::new();
    let frame = r
        .push(packet(7, 0, 1, 1000, true, &payload), 0)
        .expect("one fragment completes the frame");
    assert_eq!(frame.data, payload.to_vec());
    assert_eq!(frame.timestamp_us, 1_000_000);
    assert!(frame.is_keyframe);
    assert_eq!(frame.codec, VideoCodec::H264);
    assert_eq!(r.outstanding(), 0);
}

#[test]
fn three_fragments_out_of_order() {
    let a = [1u8, 1, 1];
    let b = [2u8, 2];
    let c = [3u8];
    let mut r = Reassembler::new();
    assert!(r.push(packet(12, 2, 3, 50, false, &c), 0).is_none());
    assert!(r.push(packet(12, 0, 3, 50, false, &a), 1).is_none());
    let frame = r.push(packet(12, 1, 3, 50, false, &b), 2).expect("last fragment completes");
    assert_eq!(frame.data, vec![1, 1, 1, 2, 2, 3]);
    assert!(!frame.is_keyframe);
    assert_eq!(frame.timestamp_us, 50_000);
    assert_eq!(r.outstanding(), 0);
}

#[test]
fn duplicate_fragments_are_idempotent() {
    let a = [10u8, 11];
    let b = [20u8];
    let mut r = Reassembler::new();
    assert!(r.push(packet(3, 0, 2, 0, false, &a), 0).is_none());
    // The same fragment again: no frame, nothing overwritten.
    assert!(r.push(packet(3, 0, 2, 0, false, &a), 1).is_none());
    assert_eq!(r.outstanding(), 1);
    let frame = r.push(packet(3, 1, 2, 0, false, &b), 2).expect("frame completes");
    assert_eq!(frame.data, vec![10, 11, 20]);
}

#[test]
fn duplicate_with_different_bytes_does_not_overwrite() {
    let mut r = Reassembler::new();
    assert!(r.push(packet(4, 0, 2, 0, false, &[1, 2, 3]), 0).is_none());
    assert!(r.push(packet(4, 0, 2, 0, false, &[9, 9, 9]), 1).is_none());
    let frame = r.push(packet(4, 1, 2, 0, false, &[4]), 2).expect("frame completes");
    assert_eq!(frame.data, vec![1, 2, 3, 4]);
}

#[test]
fn lost_fragment_frame_is_evicted_after_two_seconds() {
    let mut r = Reassembler::new();
    assert!(r.push(packet(20, 0, 2, 0, false, &[1]), 0).is_none());
    assert_eq!(r.outstanding(), 1);
    // 2.1 s later another frame's packet arrives: slot 20 is reclaimed and
    // no frame for it is ever emitted.
    let frame = r.push(packet(21, 0, 1, 7, false, &[5]), 2100).expect("frame 21 completes");
    assert_eq!(frame.data, vec![5]);
    assert_eq!(r.outstanding(), 0);
    // The late fragment of 20 starts a fresh slot rather than completing.
    assert!(r.push(packet(20, 1, 2, 0, false, &[2]), 2200).is_none());
    assert_eq!(r.outstanding(), 1);
}

#[test]
fn slot_survives_within_two_seconds() {
    let mut r = Reassembler::new();
    assert!(r.push(packet(30, 0, 2, 0, false, &[1]), 0).is_none());
    let frame = r.push(packet(30, 1, 2, 0, false, &[2]), 2000).expect("still within timeout");
    assert_eq!(frame.data, vec![1, 2]);
}

#[test]
fn out_of_range_fragment_index_is_dropped() {
    let mut r = Reassembler::new();
    assert!(r.push(packet(40, 5, 2, 0, false, &[1]), 0).is_none());
    // The malformed fragment created the slot but filled nothing.
    assert_eq!(r.outstanding(), 1);
    assert!(r.push(packet(40, 0, 2, 0, false, &[1]), 1).is_none());
    let frame = r.push(packet(40, 1, 2, 0, false, &[2]), 2).expect("frame completes");
    assert_eq!(frame.data, vec![1, 2]);
}

#[test]
fn bad_datagrams_leave_state_untouched() {
    let mut r = Reassembler::new();
    assert!(r.push(packet(50, 0, 2, 0, false, &[1]), 0).is_none());
    assert_eq!(r.outstanding(), 1);

    // Too short.
    assert!(r.ingest(&[0u8; 10], 1).is_none());
    assert_eq!(r.outstanding(), 1);

    // Wrong magic.
    let mut bad_magic = build_packet(50, 1, 2, 0, false, 0, &[2]);
    bad_magic[0] = 0x13;
    assert!(r.ingest(&bad_magic, 1).is_none());
    assert_eq!(r.outstanding(), 1);

    // Zero fragment count.
    let mut zero_count = build_packet(50, 1, 2, 0, false, 0, &[2]);
    zero_count[10] = 0;
    zero_count[11] = 0;
    assert!(r.ingest(&zero_count, 1).is_none());
    assert_eq!(r.outstanding(), 1);

    // The real fragment still completes the frame.
    let good = build_packet(50, 1, 2, 0, false, 0, &[2]);
    let frame = r.ingest(&good, 1).expect("frame completes");
    assert_eq!(frame.data, vec![1, 2]);
}

#[test]
fn packetize_then_reassemble_round_trips() {
    let mut data = Vec::new();
    for i in 0..4000u32 {
        data.push((i % 251) as u8);
    }
    let packets = duallink::dlnk::packetize(77, 123, true, 0, &data);
    assert_eq!(packets.len(), 3);
    let mut r = Reassembler::new();
    let mut emitted = Vec::new();
    // Deliver the fragments last-first.
    for buf in packets.iter().rev() {
        if let Some(frame) = r.ingest(buf, 0) {
            emitted.push(frame);
        }
    }
    assert_eq!(emitted.len(), 1);
    assert_eq!(emitted[0].data, data);
    assert_eq!(emitted[0].timestamp_us, 123_000);
    assert!(emitted[0].is_keyframe);
    assert_eq!(r.outstanding(), 0);
}
