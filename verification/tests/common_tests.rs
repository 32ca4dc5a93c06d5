use lib::common::buffer::ByteBuffer;
use lib::common::crc32::{crc32, crc32_extend};
use lib::common::status::{ResultStatus, Status, StatusMessage};
use lib::common::wire_reader::{read_i32_le, read_slice, read_u16_le, read_u32_le, read_u64_le};

#[test]
fn status_ok_and_fail() {
    let ok = StatusMessage::ok();
    assert!(ok.is_ok());
    assert_eq!(ok.code, Status::Success);
    assert_eq!(ok.detail, "ok");
    let bad = StatusMessage::fail(Status::ChecksumMismatch, "crc");
    assert!(!bad.is_ok());
    assert_eq!(bad.code, Status::ChecksumMismatch);
    assert_eq!(bad.detail, "crc");
}

#[test]
fn status_from_result() {
    let ok: ResultStatus = Ok(());
    assert_eq!(StatusMessage::from(ok), StatusMessage::ok());
    let err: ResultStatus = Err(StatusMessage::fail(Status::OutOfRange, "x"));
    assert_eq!(StatusMessage::from(err), StatusMessage::fail(Status::OutOfRange, "x"));
}

#[test]
fn buffer_pushes_little_endian() {
    let mut b = ByteBuffer::new();
    assert!(b.is_empty());
    b.push(9);
    b.push_u16(0x0102);
    b.push_u32(0x0304_0506);
    b.push_i32(-2);
    b.push_u64(0x0102_0304_0506_0708);
    assert_eq!(
        b.as_slice(),
        &[9, 2, 1, 6, 5, 4, 3, 0xfe, 0xff, 0xff, 0xff, 8, 7, 6, 5, 4, 3, 2, 1]
    );
    assert_eq!(b.len(), 19);
    assert!(b.capacity() >= 19);
}

#[test]
fn buffer_extend_append_clear_reserve() {
    let mut b = ByteBuffer::default();
    b.extend_from_slice(&[1, 2]);
    b.append(&[3]);
    b.reserve(100);
    assert_eq!(b.as_slice(), &[1, 2, 3]);
    assert!(b.capacity() >= 103);
    b.clear();
    assert!(b.is_empty());
    assert_eq!(b.len(), 0);
}

#[test]
fn buffer_checksum8_wraps() {
    let mut b = ByteBuffer::new();
    assert_eq!(b.checksum8(), 0);
    b.extend_from_slice(&[200, 100, 7]);
    assert_eq!(b.checksum8(), 51);
}

#[test]
fn readers_read_back_what_buffer_wrote() {
    let mut b = ByteBuffer::new();
    b.push(0xAA);
    b.push_u16(0xBEEF);
    b.push_u32(0xDEAD_BEEF);
    b.push_i32(-123_456);
    b.push_u64(0x0123_4567_89AB_CDEF);
    let d = b.as_slice();
    assert_eq!(read_u16_le(d, 1), 0xBEEF);
    assert_eq!(read_u32_le(d, 3), 0xDEAD_BEEF);
    assert_eq!(read_i32_le(d, 7), -123_456);
    assert_eq!(read_u64_le(d, 11), 0x0123_4567_89AB_CDEF);
}

#[test]
fn readers_fall_back_to_zero_when_short() {
    let d = [1u8, 2, 3];
    assert_eq!(read_u16_le(&d, 0), 0x0201);
    assert_eq!(read_u16_le(&d, 2), 0);
    assert_eq!(read_u32_le(&d, 0), 0);
    assert_eq!(read_i32_le(&d, 0), 0);
    assert_eq!(read_u64_le(&d, 0), 0);
    assert_eq!(read_u16_le(&d, 10), 0);
}

#[test]
fn read_slice_clips() {
    let d = [1u8, 2, 3, 4, 5];
    assert_eq!(read_slice(&d, 1, 2), &[2, 3]);
    assert_eq!(read_slice(&d, 3, 10), &[4, 5]);
    assert_eq!(read_slice(&d, 5, 1), &[] as &[u8]);
    assert_eq!(read_slice(&d, 9, usize::MAX), &[] as &[u8]);
    assert_eq!(read_slice(&d, 2, usize::MAX), &[3, 4, 5]);
}

#[test]
fn crc32_check_values() {
    assert_eq!(crc32(b"123456789"), 0xCBF4_3926);
    assert_eq!(crc32(b""), 0);
    assert_eq!(crc32(&[0, 0, 0, 0]), 0x2144_DF1C);
}

#[test]
fn crc32_extend_prefixes_seed_bytes() {
    assert_eq!(crc32_extend(0, &[]), 0x2144_DF1C);
    assert_eq!(crc32_extend(7, b"abc"), 0x92AE_7920);
    assert_eq!(crc32_extend(7, b"abc"), crc32(&[7, 0, 0, 0, b'a', b'b', b'c']));
}

#[test]
fn readers_tolerate_offsets_near_usize_max() {
    let d = [1u8, 2, 3, 4, 5, 6, 7, 8];
    assert_eq!(read_u16_le(&d, usize::MAX), 0);
    assert_eq!(read_u32_le(&d, usize::MAX - 2), 0);
    assert_eq!(read_i32_le(&d, usize::MAX - 3), 0);
    assert_eq!(read_u64_le(&d, usize::MAX - 7), 0);
    assert_eq!(read_u64_le(&d, 0), 0x0807_0605_0403_0201);
}
