//! Calibration quality window processing primitives.
//!
//! A quality-window payload holds a little-endian `u16` record count
//! followed by 19-byte records: station (`u32`), channel (`u16`), epoch
//! (`u64`), reading (`i32`) and a quality byte.

use vstd::prelude::*;
use crate::common::buffer::{ByteBuffer, le_bytes_u16, le_bytes_u32, le_bytes_u64, le_bytes_i32};
use crate::common::crc32::{crc32, crc32_spec};
use crate::common::status::{Status, StatusMessage};
use crate::common::wire_reader::{
    read_i32_le, read_u16_le, read_u32_le, read_u64_le, le_u16_at, le_u32_at, le_u64_at,
    spec_read_u16, spec_read_u32, spec_read_u64,
};

verus! {

/// Offset added to channel numbers and checksums.
pub const CHANNEL_BIAS: u32 = 1694;

/// Most records a window takes in, and most bytes `classify_quality` reads.
pub const WINDOW_LIMIT: usize = 32;

/// One calibration reading of a station channel.
#[derive(Clone, Debug)]
pub struct CalibrationQualityWindowRecord {
    pub station: u32,
    pub channel: u16,
    pub epoch: u64,
    pub reading: i32,
    pub quality: u8,
}

/// The record whose 19 wire bytes start at `off` in `p`.
pub open spec fn record_at(p: Seq<u8>, off: int) -> CalibrationQualityWindowRecord {
    CalibrationQualityWindowRecord {
        station: le_u32_at(p, off),
        channel: le_u16_at(p, off + 4),
        epoch: le_u64_at(p, off + 6),
        reading: le_u32_at(p, off + 14) as i32,
        quality: p[off + 18],
    }
}

/// The score of a record: its reading times its biased channel, plus its quality.
pub open spec fn spec_weighted_score(r: CalibrationQualityWindowRecord) -> int {
    r.reading * (r.channel + 1694) + r.quality
}

/// The wire bytes of a record.
pub open spec fn record_bytes(r: CalibrationQualityWindowRecord) -> Seq<u8> {
    le_bytes_u32(r.station) + le_bytes_u16(r.channel) + le_bytes_u64(r.epoch)
        + le_bytes_i32(r.reading) + seq![r.quality]
}

impl Default for CalibrationQualityWindowRecord {
    fn default() -> (r: Self)
        ensures
            r.station == 0 && r.channel == 0 && r.epoch == 0 && r.reading == 0 && r.quality == 0,
    {
        CalibrationQualityWindowRecord { station: 0, channel: 0, epoch: 0, reading: 0, quality: 0 }
    }
}

impl CalibrationQualityWindowRecord {
    /// Decodes the record at `off`, or `None` when fewer than 19 bytes remain.
    pub fn from_wire(payload: &[u8], off: usize) -> (r: Option<Self>)
        requires
            off + 19 <= usize::MAX,
        ensures
            r == (if off + 19 <= payload@.len() {
                Some(record_at(payload@, off as int))
            } else {
                None
            }),
    {
        if off + 19 > payload.len() {
            return None;
        }
        Some(Self {
            station: read_u32_le(payload, off),
            channel: read_u16_le(payload, off + 4),
            epoch: read_u64_le(payload, off + 6),
            reading: read_i32_le(payload, off + 14),
            quality: payload[off + 18],
        })
    }

    /// The reading times the biased channel, plus the quality. The product
    /// is at most 2^31 * 2^17 in size, so no bound of `i64` is ever reached.
    pub fn weighted_score(&self) -> (s: i64)
        ensures
            s == spec_weighted_score(*self),
    {
        let signed = self.reading as i64;
        let channel = self.channel as i64 + CHANNEL_BIAS as i64;
        assert(-0x8000_0000 * 67230 <= signed * channel <= 0x7fff_ffff * 67230) by (nonlinear_arith)
            requires
                -0x8000_0000 <= signed <= 0x7fff_ffff,
                0 <= channel <= 67230;
        signed * channel + self.quality as i64
    }

    /// Appends the record's wire bytes.
    pub fn emit(&self, out: &mut ByteBuffer)
        ensures
            final(out)@ == old(out)@ + record_bytes(*self),
    {
        out.push_u32(self.station);
        out.push_u16(self.channel);
        out.push_u64(self.epoch);
        out.push_i32(self.reading);
        out.push(self.quality);
        assert(out@ =~= old(out)@ + record_bytes(*self));
    }
}

/// What an accumulator holds.
pub struct AccumulatorView {
    pub sum: i64,
    pub min: i32,
    pub max: i32,
    pub count: u32,
    pub checksum: u32,
}

/// `x` rotated left by `k` bits, for `0 < k < 32`.
pub open spec fn rotl32(x: u32, k: u32) -> u32 {
    (x << k) | (x >> (32 - k) as u32)
}

/// `x` held within the bounds of `i64`.
pub open spec fn saturate_i64(x: int) -> i64 {
    if x > i64::MAX {
        i64::MAX
    } else if x < i64::MIN {
        i64::MIN
    } else {
        x as i64
    }
}

/// The accumulator state after taking in one more record.
pub open spec fn acc_step(a: AccumulatorView, r: CalibrationQualityWindowRecord) -> AccumulatorView {
    AccumulatorView {
        sum: saturate_i64(a.sum + spec_weighted_score(r)),
        min: if a.count == 0 || r.reading < a.min { r.reading } else { a.min },
        max: if a.count == 0 || r.reading > a.max { r.reading } else { a.max },
        count: if a.count == u32::MAX { u32::MAX } else { (a.count + 1) as u32 },
        checksum: rotl32(a.checksum, 5) ^ r.station ^ (r.channel as u32),
    }
}

/// The empty accumulator state.
pub open spec fn acc_empty() -> AccumulatorView {
    AccumulatorView { sum: 0, min: 0, max: 0, count: 0, checksum: 0 }
}

/// The accumulator state after taking in the records of `rs` in order.
pub open spec fn acc_fold(rs: Seq<CalibrationQualityWindowRecord>) -> AccumulatorView
    decreases rs.len(),
{
    if rs.len() == 0 {
        acc_empty()
    } else {
        acc_step(acc_fold(rs.drop_last()), rs.last())
    }
}

/// `x / d` rounded toward zero, for `d > 0`.
pub open spec fn trunc_div(x: int, d: int) -> int {
    if x >= 0 { x / d } else { -((-x) / d) }
}

/// The mean score of an accumulator: its sum divided by its count,
/// rounded toward zero and cut to 32 bits; 0 when it is empty.
pub open spec fn spec_mean(a: AccumulatorView) -> i32 {
    if a.count == 0 { 0 } else { trunc_div(a.sum as int, a.count as int) as i32 }
}

/// The bytes an accumulator emits.
pub open spec fn acc_bytes(a: AccumulatorView) -> Seq<u8> {
    le_bytes_i32(spec_mean(a)) + le_bytes_i32(a.min) + le_bytes_i32(a.max)
        + le_bytes_u32(a.count) + le_bytes_u32(a.checksum)
}

/// Running statistics over the records of a window.
#[derive(Clone, Debug)]
pub struct ChannelAccumulator {
    sum: i64,
    min: i32,
    max: i32,
    count: u32,
    checksum: u32,
}

impl View for ChannelAccumulator {
    type V = AccumulatorView;

    closed spec fn view(&self) -> AccumulatorView {
        AccumulatorView {
            sum: self.sum,
            min: self.min,
            max: self.max,
            count: self.count,
            checksum: self.checksum,
        }
    }
}

impl Default for ChannelAccumulator {
    fn default() -> (r: Self)
        ensures
            r@ == acc_empty(),
    {
        ChannelAccumulator { sum: 0, min: 0, max: 0, count: 0, checksum: 0 }
    }
}

impl ChannelAccumulator {
    /// Takes in one record.
    pub fn push(&mut self, rec: &CalibrationQualityWindowRecord)
        ensures
            final(self)@ == acc_step(old(self)@, *rec),
    {
        if self.count == 0 {
            self.min = rec.reading;
            self.max = rec.reading;
        } else {
            if rec.reading < self.min {
                self.min = rec.reading;
            }
            if rec.reading > self.max {
                self.max = rec.reading;
            }
        }
        let score = rec.weighted_score();
        self.sum = match self.sum.checked_add(score) {
            Some(v) => v,
            None => if score > 0 { i64::MAX } else { i64::MIN },
        };
        self.count = self.count.saturating_add(1);
        let c = self.checksum;
        self.checksum = ((c << 5u32) | (c >> 27u32)) ^ rec.station ^ rec.channel as u32;
    }

    /// The mean score, rounded toward zero and cut to 32 bits; 0 when empty.
    pub fn mean(&self) -> (m: i32)
        ensures
            m == spec_mean(self@),
    {
        if self.count == 0 {
            0
        } else {
            match self.sum.checked_div(self.count as i64) {
                Some(q) => q as i32,
                None => 0,
            }
        }
    }

    /// Appends mean, minimum, maximum, count and checksum.
    pub fn emit(&self, out: &mut ByteBuffer)
        ensures
            final(out)@ == old(out)@ + acc_bytes(self@),
    {
        out.push_i32(self.mean());
        out.push_i32(self.min);
        out.push_i32(self.max);
        out.push_u32(self.count);
        out.push_u32(self.checksum);
        assert(out@ =~= old(out)@ + acc_bytes(self@));
    }
}

/// After taking in a nonempty run of records (fewer than 2^32 of them),
/// the accumulator counts them all, and its minimum and maximum are the
/// least and the greatest reading among them.
pub proof fn law_accumulator_extremes(rs: Seq<CalibrationQualityWindowRecord>)
    requires
        0 < rs.len() <= u32::MAX,
    ensures
        acc_fold(rs).count == rs.len(),
        acc_fold(rs).min <= acc_fold(rs).max,
        forall|i: int| 0 <= i < rs.len() ==> acc_fold(rs).min <= #[trigger] rs[i].reading <= acc_fold(rs).max,
        exists|i: int| 0 <= i < rs.len() && rs[i].reading == acc_fold(rs).min,
        exists|i: int| 0 <= i < rs.len() && rs[i].reading == acc_fold(rs).max,
    decreases rs.len(),
{
    let a = acc_fold(rs);
    let init = rs.drop_last();
    let last = rs.last();
    let n = rs.len() - 1;
    if rs.len() == 1 {
        assert(init =~= Seq::<CalibrationQualityWindowRecord>::empty());
        assert(acc_fold(init) == acc_empty());
        assert(rs[0] == last);
        assert(rs[0].reading == a.min && rs[0].reading == a.max);
    } else {
        law_accumulator_extremes(init);
        let b = acc_fold(init);
        assert forall|i: int| 0 <= i < rs.len() implies a.min <= #[trigger] rs[i].reading <= a.max by {
            if i < n {
                assert(rs[i] == init[i]);
            }
        }
        if last.reading < b.min {
            assert(rs[n] == last);
            assert(rs[n].reading == a.min);
        } else {
            let w = choose|i: int| 0 <= i < init.len() && init[i].reading == b.min;
            assert(rs[w] == init[w]);
            assert(rs[w].reading == a.min);
        }
        if last.reading > b.max {
            assert(rs[n] == last);
            assert(rs[n].reading == a.max);
        } else {
            let w = choose|i: int| 0 <= i < init.len() && init[i].reading == b.max;
            assert(rs[w] == init[w]);
            assert(rs[w].reading == a.max);
        }
    }
}

/// How many records a window payload yields: the declared count, capped
/// at `WINDOW_LIMIT`, and cut short where the payload runs out.
pub open spec fn window_record_count(p: Seq<u8>) -> nat {
    let declared = spec_read_u16(p, 0) as int;
    let fit = if p.len() >= 2 { (p.len() - 2) / 19 } else { 0 };
    let capped = if declared < 32 { declared } else { 32 };
    (if capped < fit { capped } else { fit }) as nat
}

/// The records a window payload yields, in order.
pub open spec fn window_records(p: Seq<u8>) -> Seq<CalibrationQualityWindowRecord> {
    Seq::new(window_record_count(p), |k: int| record_at(p, 2 + 19 * k))
}

/// Folds the records of a quality-window payload into an accumulator.
pub fn fold_calibration_quality_window(payload: &[u8]) -> (acc: ChannelAccumulator)
    ensures
        acc@ == acc_fold(window_records(payload@)),
{
    let mut acc = ChannelAccumulator::default();
    let declared = read_u16_le(payload, 0) as usize;
    let limit = if declared < WINDOW_LIMIT { declared } else { WINDOW_LIMIT };
    let ghost n = window_record_count(payload@);
    let ghost recs = window_records(payload@);
    let mut off: usize = 2;
    let mut k: usize = 0;
    while k < limit
        invariant
            limit <= 32,
            limit == (if spec_read_u16(payload@, 0) < 32 { spec_read_u16(payload@, 0) as int } else { 32 }),
            n == window_record_count(payload@),
            recs == window_records(payload@),
            k <= n,
            off == 2 + 19 * k,
            acc@ == acc_fold(recs.take(k as int)),
        ensures
            k == n,
        decreases limit - k,
    {
        match CalibrationQualityWindowRecord::from_wire(payload, off) {
            Some(rec) => {
                assert(k < n);
                assert(recs[k as int] == rec);
                assert(recs.take(k + 1).drop_last() =~= recs.take(k as int));
                acc.push(&rec);
                off += 19;
                k += 1;
            },
            None => {
                assert(k == n);
                break;
            },
        }
    }
    assert(recs.take(k as int) =~= recs);
    acc
}

/// Processes a window payload: appends the accumulator's bytes and a
/// biased CRC-32 of the whole payload. Fails as truncated, appending
/// nothing, when the payload is shorter than its two-byte count.
pub fn analyze_calibration_quality_window(payload: &[u8], out: &mut ByteBuffer) -> (st: StatusMessage)
    ensures
        payload@.len() < 2 ==> st.code == Status::Truncated
            && st.detail@ == "calibration quality_window"@ && final(out)@ == old(out)@,
        payload@.len() >= 2 ==> st.code == Status::Success && st.detail@ == "ok"@ && final(out)@ == old(out)@
            + acc_bytes(acc_fold(window_records(payload@)))
            + le_bytes_u32(((crc32_spec(payload@) + 1694) % 0x1_0000_0000) as u32),
{
    if payload.len() < 2 {
        return StatusMessage::fail(Status::Truncated, "calibration quality_window");
    }
    let acc = fold_calibration_quality_window(payload);
    acc.emit(out);
    let checksum = crc32(payload).wrapping_add(CHANNEL_BIAS);
    assert(checksum == ((crc32_spec(payload@) + 1694) % 0x1_0000_0000) as u32);
    out.push_u32(checksum);
    let st = StatusMessage::ok();
    assert(st.code == Status::Success && st.detail@ == "ok"@);
    st
}

/// Whether byte `b` at index `i` is selected with the given stride.
pub open spec fn is_selected(b: u8, i: int, stride: int) -> bool {
    i % stride == 0 && (b + 1694) % 4 == 0
}

/// How many of the first `n` bytes of `p` are selected.
pub open spec fn count_selected(p: Seq<u8>, n: int, stride: int) -> nat
    decreases n,
{
    if n <= 0 {
        0
    } else {
        count_selected(p, n - 1, stride) + if is_selected(p[n - 1], n - 1, stride) { 1nat } else { 0nat }
    }
}

/// The stride a routed payload is sampled with: its second byte, at least 1.
pub open spec fn route_stride(p: Seq<u8>) -> int {
    if p.len() >= 2 && p[1] > 1 { p[1] as int } else { 1 }
}

/// What routing appends after the analysis: the count of selected bytes,
/// modulo 2^32.
pub open spec fn route_tail(p: Seq<u8>) -> Seq<u8> {
    le_bytes_u32((count_selected(p, p.len() as int, route_stride(p)) % 0x1_0000_0000) as u32)
}

/// The indices below `n` that routing samples and selects: multiples of
/// the stride whose byte is 2 modulo 4.
pub open spec fn selected_indices(p: Seq<u8>, n: int, stride: int) -> Set<int> {
    Set::new(|i: int| 0 <= i < n && i % stride == 0 && p[i] % 4 == 2)
}

proof fn lemma_count_selected_is_card(p: Seq<u8>, n: int, stride: int)
    requires
        0 <= n <= p.len(),
        stride >= 1,
    ensures
        selected_indices(p, n, stride).finite(),
        count_selected(p, n, stride) == selected_indices(p, n, stride).len(),
    decreases n,
{
    if n == 0 {
        assert(selected_indices(p, 0, stride) =~= Set::<int>::empty());
    } else {
        lemma_count_selected_is_card(p, n - 1, stride);
        let prev = selected_indices(p, n - 1, stride);
        let cur = selected_indices(p, n, stride);
        let j = n - 1;
        assert(((p[j] + 1694) % 4 == 0) == (p[j] % 4 == 2));
        if j % stride == 0 && p[j] % 4 == 2 {
            assert(cur =~= prev.insert(j));
            assert(!prev.contains(j));
        } else {
            assert(cur =~= prev);
        }
    }
}

/// The count that routing appends is the number of payload indices that
/// are multiples of the stride (the second byte, at least 1) and hold a
/// byte that is 2 modulo 4, taken modulo 2^32. Index 0 is always sampled.
pub proof fn law_route_count(p: Seq<u8>)
    requires
        p.len() >= 2,
    ensures
        ({
            let stride: int = if p[1] > 1 { p[1] as int } else { 1 };
            let sel = Set::new(|i: int| 0 <= i < p.len() && i % stride == 0 && p[i] % 4 == 2);
            &&& sel.finite()
            &&& route_tail(p) == le_bytes_u32((sel.len() % 0x1_0000_0000) as u32)
            &&& (p[0] % 4 == 2 <==> sel.contains(0))
        }),
{
    let stride: int = if p[1] > 1 { p[1] as int } else { 1 };
    lemma_count_selected_is_card(p, p.len() as int, stride);
    assert(selected_indices(p, p.len() as int, stride)
        =~= Set::new(|i: int| 0 <= i < p.len() && i % stride == 0 && p[i] % 4 == 2));
    assert(0int % stride == 0);
}

/// Analyzes a window payload and then appends how many of its bytes, at
/// indices that are multiples of the stride, are 2 modulo 4 (so that
/// adding the bias gives a multiple of 4).
pub fn route_calibration_quality_window(payload: &[u8], out: &mut ByteBuffer) -> (st: StatusMessage)
    ensures
        payload@.len() < 2 ==> st.code == Status::Truncated
            && st.detail@ == "calibration quality_window"@ && final(out)@ == old(out)@,
        payload@.len() >= 2 ==> st.code == Status::Success && st.detail@ == "ok"@ && final(out)@ == old(out)@
            + acc_bytes(acc_fold(window_records(payload@)))
            + le_bytes_u32(((crc32_spec(payload@) + 1694) % 0x1_0000_0000) as u32)
            + route_tail(payload@),
{
    let status = analyze_calibration_quality_window(payload, out);
    if !status.is_ok() {
        return status;
    }
    let second = payload[1];
    let stride = if second > 1 { second as usize } else { 1 };
    let mut selected: u32 = 0;
    let mut i: usize = 0;
    while i < payload.len()
        invariant
            i <= payload@.len(),
            stride == route_stride(payload@),
            stride >= 1,
            selected == count_selected(payload@, i as int, stride as int) % 0x1_0000_0000,
        decreases payload@.len() - i,
    {
        let byte = payload[i];
        let biased = (byte as u32).wrapping_add(CHANNEL_BIAS);
        assert(biased == byte + 1694);
        assert((biased & 3 == 0) == (biased % 4 == 0)) by (bit_vector);
        if i % stride == 0 && biased & 3 == 0 {
            selected = selected.wrapping_add(1);
        }
        i += 1;
    }
    out.push_u32(selected);
    StatusMessage::ok()
}

/// Processes a quality-window payload (same as routing it).
pub fn ingest(payload: &[u8], out: &mut ByteBuffer) -> (st: StatusMessage)
    ensures
        payload@.len() < 2 ==> st.code == Status::Truncated
            && st.detail@ == "calibration quality_window"@ && final(out)@ == old(out)@,
        payload@.len() >= 2 ==> st.code == Status::Success && st.detail@ == "ok"@ && final(out)@ == old(out)@
            + acc_bytes(acc_fold(window_records(payload@)))
            + le_bytes_u32(((crc32_spec(payload@) + 1694) % 0x1_0000_0000) as u32)
            + route_tail(payload@),
{
    route_calibration_quality_window(payload, out)
}

/// Processes a quality-window payload (same as `ingest`).
pub fn ingest_calibration_quality_window(payload: &[u8], out: &mut ByteBuffer) -> (st: StatusMessage)
    ensures
        payload@.len() < 2 ==> st.code == Status::Truncated
            && st.detail@ == "calibration quality_window"@ && final(out)@ == old(out)@,
        payload@.len() >= 2 ==> st.code == Status::Success && st.detail@ == "ok"@ && final(out)@ == old(out)@
            + acc_bytes(acc_fold(window_records(payload@)))
            + le_bytes_u32(((crc32_spec(payload@) + 1694) % 0x1_0000_0000) as u32)
            + route_tail(payload@),
{
    ingest(payload, out)
}

/// `x` rotated left by one bit.
pub open spec fn rotl8_1(x: u8) -> u8 {
    (x << 1u8) | (x >> 7u8)
}

/// The quality band after the first `n` bytes of `p`.
pub open spec fn quality_band(p: Seq<u8>, n: int) -> u8
    decreases n,
{
    if n <= 0 {
        0
    } else {
        rotl8_1(quality_band(p, n - 1)) ^ (((p[n - 1] + 0x9e) % 256) as u8)
    }
}

/// A one-byte band folded from the first `WINDOW_LIMIT` bytes: each step
/// rotates the band left by one and mixes in the byte plus 0x9e.
pub fn classify_quality(payload: &[u8]) -> (band: u8)
    ensures
        band == quality_band(payload@, if payload@.len() < 32 { payload@.len() as int } else { 32 }),
{
    let n = if payload.len() < WINDOW_LIMIT { payload.len() } else { WINDOW_LIMIT };
    let mut band: u8 = 0;
    let mut i: usize = 0;
    while i < n
        invariant
            n <= payload@.len(),
            i <= n,
            band == quality_band(payload@, i as int),
        decreases n - i,
    {
        let byte = payload[i];
        assert((CHANNEL_BIAS & 0xff) as u8 == 0x9e) by (bit_vector);
        band = ((band << 1u8) | (band >> 7u8)) ^ byte.wrapping_add((CHANNEL_BIAS & 0xff) as u8);
        i += 1;
    }
    band
}

/// The station (at offset 2) and epoch (at offset 6), each plus the bias
/// with wrap-around; a field that does not fit in the payload reads as 0.
pub fn project_station_epoch(payload: &[u8]) -> (r: (u32, u64))
    ensures
        r.0 == (spec_read_u32(payload@, 2) + 1694) % 0x1_0000_0000,
        r.1 == (spec_read_u64(payload@, 6) + 1694) % 0x1_0000_0000_0000_0000,
{
    let station = read_u32_le(payload, 2).wrapping_add(CHANNEL_BIAS);
    let epoch = read_u64_le(payload, 6).wrapping_add(CHANNEL_BIAS as u64);
    (station, epoch)
}

} // verus!
