use lib::wire::varint::{decode_varint, encode_varint};

#[test]
fn varint_decodes_two_bytes() {
    let d = [0x96u8, 0x01, 0xff];
    let mut off = 0usize;
    assert_eq!(decode_varint(&d, &mut off), Some(150));
    assert_eq!(off, 2);
}

#[test]
fn varint_decodes_from_offset() {
    let d = [9u8, 9, 0x05];
    let mut off = 2usize;
    assert_eq!(decode_varint(&d, &mut off), Some(5));
    assert_eq!(off, 3);
}

#[test]
fn varint_truncated_consumes_rest() {
    let d = [0x80u8, 0x80];
    let mut off = 0usize;
    assert_eq!(decode_varint(&d, &mut off), None);
    assert_eq!(off, 2);
}

#[test]
fn varint_too_long_stops_after_ten() {
    let d = [0x80u8; 12];
    let mut off = 0usize;
    assert_eq!(decode_varint(&d, &mut off), None);
    assert_eq!(off, 10);
}

#[test]
fn varint_offset_past_end() {
    let d = [1u8];
    let mut off = 1usize;
    assert_eq!(decode_varint(&d, &mut off), None);
    assert_eq!(off, 1);
    let mut off = 5usize;
    assert_eq!(decode_varint(&d, &mut off), None);
    assert_eq!(off, 5);
}

#[test]
fn varint_tenth_byte_keeps_low_bit_only() {
    let mut d = vec![0x80u8; 9];
    d.push(0x03);
    let mut off = 0usize;
    assert_eq!(decode_varint(&d, &mut off), Some(1u64 << 63));
    assert_eq!(off, 10);
}

#[test]
fn varint_encode_values() {
    let mut out = vec![7u8];
    encode_varint(300, &mut out);
    assert_eq!(out, vec![7, 0xAC, 0x02]);
    let mut out = Vec::new();
    encode_varint(0, &mut out);
    assert_eq!(out, vec![0]);
    let mut out = Vec::new();
    encode_varint(u64::MAX, &mut out);
    assert_eq!(out.len(), 10);
    assert_eq!(out[9], 0x01);
}

#[test]
fn varint_roundtrip() {
    for v in [0u64, 1, 127, 128, 300, 16_383, 16_384, 1 << 35, u64::MAX - 1, u64::MAX] {
        let mut out = Vec::new();
        encode_varint(v, &mut out);
        assert!(out.len() <= 10);
        let n = out.len();
        out.extend_from_slice(&[0xff, 0x00]);
        let mut off = 0usize;
        assert_eq!(decode_varint(&out, &mut off), Some(v));
        assert_eq!(off, n);
    }
}
