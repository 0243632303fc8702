//! Wire-level tests: the DLNK codec, the packetiser, signaling framing,
//! text rendering, SHA-256, the TLS identity, and port arithmetic.

use duallink::config::clamp_display_count;
use duallink::dlnk::{build_packet, packetize, parse_packet, HEADER_SIZE, MAX_PAYLOAD_BYTES};
use duallink::fmt::{decimal_string, hex_colon_bytes, hex_plain_bytes};
use duallink::framing::{decode_length, encode_frame, length_accepted, MAX_SIGNALING_BODY_BYTES};
use duallink::identity::{fingerprint_of, format_pin, generate_pairing_pin, generate_tls_identity};
use duallink::discovery::{discovered_from_txt, fingerprint_short, service_type, txt_properties};
use duallink::fmt::parse_decimal_u64;
use duallink::sha256::sha256_digest;
use duallink::{signaling_port, video_port, SIGNALING_PORT, VIDEO_PORT};

#[test]
fn port_arithmetic_for_first_displays() {
    assert_eq!(VIDEO_PORT, 7878);
    assert_eq!(SIGNALING_PORT, 7879);
    assert_eq!(video_port(0), 7878);
    assert_eq!(video_port(1), 7880);
    assert_eq!(video_port(2), 7882);
    assert_eq!(signaling_port(0), 7879);
    assert_eq!(signaling_port(1), 7881);
    assert_eq!(signaling_port(2), 7883);
}

#[test]
fn parse_rejects_short_buffer() {
    assert!(parse_packet(&[0u8; 19]).is_none());
}

#[test]
fn parse_rejects_bad_magic() {
    let mut buf = build_packet(1, 0, 1, 0, false, 0, &[1, 2, 3]);
    buf[0] = 0x00;
    assert!(parse_packet(&buf).is_none());
}

#[test]
fn parse_rejects_zero_fragment_count() {
    let mut buf = build_packet(1, 0, 1, 0, false, 0, &[1, 2, 3]);
    buf[10] = 0;
    buf[11] = 0;
    assert!(parse_packet(&buf).is_none());
}

#[test]
fn header_round_trip() {
    let payload = [0x00u8, 0x00, 0x00, 0x01, 0x65, 0x88];
    let buf = build_packet(7, 0, 1, 1000, true, 3, &payload);
    assert_eq!(buf.len(), HEADER_SIZE + payload.len());
    assert_eq!(&buf[0..4], &[0x44, 0x4C, 0x4E, 0x4B]);
    let p = parse_packet(&buf).expect("valid packet");
    assert_eq!(p.frame_seq, 7);
    assert_eq!(p.frag_index, 0);
    assert_eq!(p.frag_count, 1);
    assert_eq!(p.pts_ms, 1000);
    assert!(p.is_keyframe);
    assert_eq!(p.display_index, 3);
    assert_eq!(p.payload, payload.to_vec());
}

#[test]
fn empty_payload_is_permitted() {
    let buf = build_packet(9, 0, 1, 5, false, 0, &[]);
    let p = parse_packet(&buf).expect("header-only packet");
    assert!(p.payload.is_empty());
}

#[test]
fn packetize_empty_frame_sends_one_fragment() {
    let packets = packetize(1, 0, false, 0, &[]);
    assert_eq!(packets.len(), 1);
    assert_eq!(packets[0].len(), HEADER_SIZE);
}

#[test]
fn packetize_splits_at_payload_limit() {
    let data = vec![0xABu8; MAX_PAYLOAD_BYTES + 1];
    let packets = packetize(5, 40, true, 1, &data);
    assert_eq!(packets.len(), 2);
    let p0 = parse_packet(&packets[0]).unwrap();
    let p1 = parse_packet(&packets[1]).unwrap();
    assert_eq!(p0.frag_index, 0);
    assert_eq!(p1.frag_index, 1);
    assert_eq!(p0.frag_count, 2);
    assert_eq!(p1.frag_count, 2);
    assert_eq!(p0.payload.len(), MAX_PAYLOAD_BYTES);
    assert_eq!(p1.payload.len(), 1);
    let mut joined = p0.payload.clone();
    joined.extend_from_slice(&p1.payload);
    assert_eq!(joined, data);
}

#[test]
fn frame_prefix_encodes_length_big_endian() {
    let framed = encode_frame(&[9, 8, 7]);
    assert_eq!(framed, vec![0, 0, 0, 3, 9, 8, 7]);
    assert_eq!(decode_length(&framed[0..4]), 3);
}

#[test]
fn reader_caps_body_length_at_one_mib() {
    assert!(length_accepted(0));
    assert!(length_accepted(MAX_SIGNALING_BODY_BYTES as u32));
    assert!(!length_accepted(MAX_SIGNALING_BODY_BYTES as u32 + 1));
}

#[test]
fn decimal_rendering() {
    assert_eq!(decimal_string(0), "0");
    assert_eq!(decimal_string(7), "7");
    assert_eq!(decimal_string(12345), "12345");
    assert_eq!(decimal_string(u64::MAX), "18446744073709551615");
}

#[test]
fn hex_rendering() {
    assert_eq!(hex_colon_bytes(&[]), b"".to_vec());
    assert_eq!(hex_colon_bytes(&[0xBE, 0xEF]), b"BE:EF".to_vec());
    assert_eq!(hex_plain_bytes(&[0x01, 0xA0, 0xFF]), b"01A0FF".to_vec());
}

#[test]
fn sha256_known_answers() {
    let empty = sha256_digest(&[]);
    assert_eq!(
        hex_plain_bytes(&empty),
        b"E3B0C44298FC1C149AFBF4C8996FB92427AE41E4649B934CA495991B7852B855".to_vec()
    );
    let abc = sha256_digest(b"abc");
    assert_eq!(
        hex_plain_bytes(&abc),
        b"BA7816BF8F01CFEA414140DE5DAE2223B00361A396177A9CB410FF61F20015AD".to_vec()
    );
    // Two blocks: 56 bytes forces the length field into a second block.
    let two = sha256_digest(b"abcdbcdecdefdefgefghfghighijhijkijkljklmklmnlmnomnopnopq");
    assert_eq!(
        hex_plain_bytes(&two),
        b"248D6A61D20638B8E5C026930C3E6039A33CE45964FF2167F6ECEDD419DB06C1".to_vec()
    );
}

#[test]
fn fingerprint_is_colon_separated_uppercase_hex() {
    let fp = fingerprint_of(&[]);
    assert_eq!(
        fp,
        "E3:B0:C4:42:98:FC:1C:14:9A:FB:F4:C8:99:6F:B9:24:27:AE:41:E4:64:9B:93:4C:A4:95:99:1B:78:52:B8:55"
    );
    assert_eq!(fp.len(), 32 * 2 + 31);
}

#[test]
fn pin_is_six_zero_padded_digits() {
    assert_eq!(format_pin(0), "000000");
    assert_eq!(format_pin(5), "000005");
    assert_eq!(format_pin(123_456_789), "456789");
    assert_eq!(format_pin(999_999), "999999");
}

#[test]
fn generated_pin_is_six_digits() {
    let pin = generate_pairing_pin();
    assert_eq!(pin.len(), 6);
    assert!(pin.chars().all(|c| c.is_ascii_digit()));
}

#[test]
fn generated_identity_has_matching_fingerprint() {
    let identity = generate_tls_identity().expect("identity generation");
    assert!(!identity.cert_der.is_empty());
    assert!(!identity.key_der.is_empty());
    assert_eq!(identity.fingerprint.len(), 32 * 2 + 31);
    assert_eq!(identity.fingerprint, fingerprint_of(&identity.cert_der));
}

#[test]
fn txt_record_advertises_the_receiver() {
    let digest = [0xABu8; 32];
    let props = txt_properties(2, 7879, "192.168.1.42".to_string(), &digest);
    assert_eq!(props.len(), 5);
    assert_eq!(props[0], ("version".to_string(), "1".to_string()));
    assert_eq!(props[1], ("displays".to_string(), "2".to_string()));
    assert_eq!(props[2], ("port".to_string(), "7879".to_string()));
    assert_eq!(props[3], ("host".to_string(), "192.168.1.42".to_string()));
    assert_eq!(props[4], ("fp".to_string(), "ABABABABABABABAB".to_string()));
    assert_eq!(service_type(), "_duallink._tcp.local.");
}

#[test]
fn short_fingerprint_takes_first_eight_bytes() {
    let mut digest = vec![0u8; 32];
    digest[0] = 0x12;
    digest[7] = 0x9F;
    digest[8] = 0xFF;
    assert_eq!(fingerprint_short(&digest), "120000000000009F");
}

#[test]
fn packetize_exact_payload_limit_is_one_fragment() {
    let data = vec![1u8; MAX_PAYLOAD_BYTES];
    let packets = packetize(1, 0, false, 0, &data);
    assert_eq!(packets.len(), 1);
    assert_eq!(packets[0].len(), HEADER_SIZE + MAX_PAYLOAD_BYTES);
}

#[test]
fn display_count_is_clamped_to_supported_range() {
    assert_eq!(clamp_display_count(0), 1);
    assert_eq!(clamp_display_count(1), 1);
    assert_eq!(clamp_display_count(8), 8);
    assert_eq!(clamp_display_count(200), 8);
}

#[test]
fn decimal_parsing() {
    assert_eq!(parse_decimal_u64("0"), Some(0));
    assert_eq!(parse_decimal_u64("7879"), Some(7879));
    assert_eq!(parse_decimal_u64("007"), Some(7));
    assert_eq!(parse_decimal_u64("18446744073709551615"), Some(u64::MAX));
    assert_eq!(parse_decimal_u64("18446744073709551616"), None);
    assert_eq!(parse_decimal_u64(""), None);
    assert_eq!(parse_decimal_u64("12a"), None);
    assert_eq!(parse_decimal_u64("-3"), None);
}

#[test]
fn printed_numbers_parse_back() {
    for n in [0u64, 9, 10, 7879, 123_456_789] {
        assert_eq!(parse_decimal_u64(&decimal_string(n)), Some(n));
    }
}

#[test]
fn discovered_receiver_reads_txt_with_defaults() {
    let props = vec![
        ("host".to_string(), "192.168.1.42".to_string()),
        ("port".to_string(), "7881".to_string()),
        ("displays".to_string(), "2".to_string()),
    ];
    let r = discovered_from_txt("living-room".to_string(), "10.0.0.9".to_string(), &props);
    assert_eq!(r.name, "living-room");
    assert_eq!(r.host, "192.168.1.42");
    assert_eq!(r.port, 7881);
    assert_eq!(r.displays, 2);

    // Missing or unusable entries fall back.
    let sparse = vec![("port".to_string(), "notanumber".to_string())];
    let r = discovered_from_txt("x".to_string(), "10.0.0.9".to_string(), &sparse);
    assert_eq!(r.host, "10.0.0.9");
    assert_eq!(r.port, 7879);
    assert_eq!(r.displays, 1);

    let oversized = vec![("port".to_string(), "99999".to_string())];
    let r = discovered_from_txt("x".to_string(), "h".to_string(), &oversized);
    assert_eq!(r.port, 7879);
}
