use lib::calibration::quality_window::{
    analyze_calibration_quality_window, classify_quality, fold_calibration_quality_window, ingest,
    ingest_calibration_quality_window, project_station_epoch, route_calibration_quality_window,
    CalibrationQualityWindowRecord, ChannelAccumulator,
};
use lib::common::buffer::ByteBuffer;
use lib::common::status::Status;

fn record_bytes(station: u32, channel: u16, epoch: u64, reading: i32, quality: u8) -> Vec<u8> {
    let mut v = Vec::new();
    v.extend_from_slice(&station.to_le_bytes());
    v.extend_from_slice(&channel.to_le_bytes());
    v.extend_from_slice(&epoch.to_le_bytes());
    v.extend_from_slice(&reading.to_le_bytes());
    v.push(quality);
    v
}

fn one_record_payload() -> Vec<u8> {
    let mut p = vec![1u8, 0];
    p.extend(record_bytes(1, 2, 3, -4, 5));
    p
}

fn accumulator_bytes(mean: i32, min: i32, max: i32, count: u32, checksum: u32) -> Vec<u8> {
    let mut v = Vec::new();
    v.extend_from_slice(&mean.to_le_bytes());
    v.extend_from_slice(&min.to_le_bytes());
    v.extend_from_slice(&max.to_le_bytes());
    v.extend_from_slice(&count.to_le_bytes());
    v.extend_from_slice(&checksum.to_le_bytes());
    v
}

#[test]
fn record_from_wire_and_emit() {
    let bytes = record_bytes(0x0A0B_0C0D, 0x1234, 0x1122_3344_5566_7788, -9, 200);
    let rec = CalibrationQualityWindowRecord::from_wire(&bytes, 0).unwrap();
    assert_eq!(rec.station, 0x0A0B_0C0D);
    assert_eq!(rec.channel, 0x1234);
    assert_eq!(rec.epoch, 0x1122_3344_5566_7788);
    assert_eq!(rec.reading, -9);
    assert_eq!(rec.quality, 200);
    let mut out = ByteBuffer::new();
    rec.emit(&mut out);
    assert_eq!(out.as_slice(), bytes.as_slice());
    assert!(CalibrationQualityWindowRecord::from_wire(&bytes, 1).is_none());
}

#[test]
fn record_default_is_zero() {
    let rec = CalibrationQualityWindowRecord::default();
    assert_eq!((rec.station, rec.channel, rec.epoch, rec.reading, rec.quality), (0, 0, 0, 0, 0));
}

#[test]
fn weighted_score_formula() {
    let rec = CalibrationQualityWindowRecord { station: 0, channel: 2, epoch: 0, reading: -4, quality: 5 };
    assert_eq!(rec.weighted_score(), -6779);
    let big = CalibrationQualityWindowRecord {
        station: 0,
        channel: u16::MAX,
        epoch: 0,
        reading: i32::MIN,
        quality: 255,
    };
    assert_eq!(big.weighted_score(), (i32::MIN as i64) * (65535 + 1694) + 255);
}

#[test]
fn accumulator_tracks_extremes_and_mean() {
    let mut acc = ChannelAccumulator::default();
    let mut out = ByteBuffer::new();
    acc.emit(&mut out);
    assert_eq!(out.as_slice(), accumulator_bytes(0, 0, 0, 0, 0).as_slice());
    assert_eq!(acc.mean(), 0);
    for (reading, station) in [(10, 1u32), (-3, 2), (7, 3)] {
        acc.push(&CalibrationQualityWindowRecord { station, channel: 0, epoch: 0, reading, quality: 0 });
    }
    // scores: 10*1694, -3*1694, 7*1694 -> sum 14*1694 = 23716, mean 7905
    assert_eq!(acc.mean(), 7905);
    let c1 = 1u32;
    let c2 = c1.rotate_left(5) ^ 2;
    let c3 = c2.rotate_left(5) ^ 3;
    let mut out = ByteBuffer::new();
    acc.emit(&mut out);
    assert_eq!(out.as_slice(), accumulator_bytes(7905, -3, 10, 3, c3).as_slice());
}

#[test]
fn accumulator_mean_rounds_toward_zero() {
    let mut acc = ChannelAccumulator::default();
    acc.push(&CalibrationQualityWindowRecord { station: 0, channel: 0, epoch: 0, reading: -1, quality: 0 });
    acc.push(&CalibrationQualityWindowRecord { station: 0, channel: 0, epoch: 0, reading: 0, quality: 1 });
    // sum = -1694 + 1 = -1693, count 2 -> -846
    assert_eq!(acc.mean(), -846);
}

#[test]
fn accumulator_sum_saturates() {
    let mut acc = ChannelAccumulator::default();
    let rec = CalibrationQualityWindowRecord {
        station: 0,
        channel: u16::MAX,
        epoch: 0,
        reading: i32::MAX,
        quality: 255,
    };
    for _ in 0..70_000 {
        acc.push(&rec);
    }
    let mut out = ByteBuffer::new();
    acc.emit(&mut out);
    let expected_mean = (i64::MAX / 70_000) as i32;
    assert_eq!(&out.as_slice()[0..4], &expected_mean.to_le_bytes());
}

#[test]
fn fold_reads_declared_records() {
    let mut p = vec![2u8, 0];
    p.extend(record_bytes(1, 0, 0, 5, 0));
    p.extend(record_bytes(2, 0, 0, -5, 0));
    p.extend(record_bytes(3, 0, 0, 100, 0));
    let acc = fold_calibration_quality_window(&p);
    let mut out = ByteBuffer::new();
    acc.emit(&mut out);
    let c = (1u32.rotate_left(5)) ^ 2;
    assert_eq!(out.as_slice(), accumulator_bytes(0, -5, 5, 2, c).as_slice());
}

#[test]
fn fold_stops_where_payload_ends() {
    let mut p = vec![5u8, 0];
    p.extend(record_bytes(1, 0, 0, 4, 0));
    p.extend_from_slice(&[0, 0, 0]);
    let acc = fold_calibration_quality_window(&p);
    let mut out = ByteBuffer::new();
    acc.emit(&mut out);
    assert_eq!(out.as_slice(), accumulator_bytes(4 * 1694, 4, 4, 1, 1).as_slice());
}

#[test]
fn analyze_truncated_payload() {
    let mut out = ByteBuffer::new();
    let st = analyze_calibration_quality_window(&[1], &mut out);
    assert_eq!(st.code, Status::Truncated);
    assert_eq!(st.detail, "calibration quality_window");
    assert!(out.is_empty());
}

#[test]
fn analyze_one_record() {
    let p = one_record_payload();
    let mut out = ByteBuffer::new();
    let st = analyze_calibration_quality_window(&p, &mut out);
    assert!(st.is_ok());
    let mut expected = accumulator_bytes(-6779, -4, -4, 1, 3);
    expected.extend_from_slice(&0x1267_A44Du32.to_le_bytes());
    assert_eq!(out.as_slice(), expected.as_slice());
}

#[test]
fn route_counts_selected_bytes() {
    let p = one_record_payload();
    let mut out = ByteBuffer::new();
    let st = route_calibration_quality_window(&p, &mut out);
    assert!(st.is_ok());
    let mut expected = accumulator_bytes(-6779, -4, -4, 1, 3);
    expected.extend_from_slice(&0x1267_A44Du32.to_le_bytes());
    expected.extend_from_slice(&1u32.to_le_bytes());
    assert_eq!(out.as_slice(), expected.as_slice());
    let mut out2 = ByteBuffer::new();
    assert!(ingest(&p, &mut out2).is_ok());
    assert_eq!(out2.as_slice(), expected.as_slice());
    let mut out3 = ByteBuffer::new();
    assert!(ingest_calibration_quality_window(&p, &mut out3).is_ok());
    assert_eq!(out3.as_slice(), expected.as_slice());
}

#[test]
fn route_uses_second_byte_as_stride() {
    // count 0, stride 2: indices 0 and 2 are sampled; bytes equal to 2 mod 4 count.
    let p = [0u8, 2, 6, 6, 10];
    let mut out = ByteBuffer::new();
    assert!(route_calibration_quality_window(&p, &mut out).is_ok());
    let tail = &out.as_slice()[out.len() - 4..];
    // index 0: byte 0 (0 mod 4) no; index 2: byte 6 yes; index 4: byte 10 yes
    assert_eq!(tail, &2u32.to_le_bytes());
}

#[test]
fn route_truncated_payload() {
    let mut out = ByteBuffer::new();
    let st = route_calibration_quality_window(&[], &mut out);
    assert_eq!(st.code, Status::Truncated);
    assert!(out.is_empty());
}

#[test]
fn classify_quality_band() {
    let p = one_record_payload();
    assert_eq!(classify_quality(&p), 195);
    assert_eq!(classify_quality(&[]), 0);
    assert_eq!(classify_quality(&[0x62]), 0);
    let long: Vec<u8> = (0..40u8).collect();
    assert_eq!(classify_quality(&long), classify_quality(&long[..32]));
}

#[test]
fn project_station_epoch_wraps() {
    let mut p = vec![0u8, 0];
    p.extend_from_slice(&u32::MAX.to_le_bytes());
    p.extend_from_slice(&5u64.to_le_bytes());
    assert_eq!(project_station_epoch(&p), (1693, 1699));
    assert_eq!(project_station_epoch(&[1, 2]), (1694, 1694));
}
