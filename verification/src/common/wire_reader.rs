//! Little-endian primitive readers with truncation-tolerant fallbacks.

use vstd::prelude::*;
use vstd::slice::slice_subrange;
use crate::common::buffer::{le_bytes_u16, le_bytes_u32, le_bytes_u64, le_bytes_i32};

verus! {

/// The little-endian 16-bit value of the two bytes of `s` at `off`.
pub open spec fn le_u16_at(s: Seq<u8>, off: int) -> u16 {
    (s[off] + 0x100 * s[off + 1]) as u16
}

/// The little-endian 32-bit value of the four bytes of `s` at `off`.
pub open spec fn le_u32_at(s: Seq<u8>, off: int) -> u32 {
    (s[off] + 0x100 * s[off + 1] + 0x1_0000 * s[off + 2] + 0x100_0000 * s[off + 3]) as u32
}

/// The little-endian 64-bit value of the eight bytes of `s` at `off`.
pub open spec fn le_u64_at(s: Seq<u8>, off: int) -> u64 {
    (le_u32_at(s, off) + 0x1_0000_0000 * le_u32_at(s, off + 4)) as u64
}

/// What `read_u16_le` gives: the value at `off`, or 0 when fewer than two bytes remain.
pub open spec fn spec_read_u16(s: Seq<u8>, off: int) -> u16 {
    if off + 2 <= s.len() { le_u16_at(s, off) } else { 0 }
}

/// What `read_u32_le` gives: the value at `off`, or 0 when fewer than four bytes remain.
pub open spec fn spec_read_u32(s: Seq<u8>, off: int) -> u32 {
    if off + 4 <= s.len() { le_u32_at(s, off) } else { 0 }
}

/// What `read_u64_le` gives: the value at `off`, or 0 when fewer than eight bytes remain.
pub open spec fn spec_read_u64(s: Seq<u8>, off: int) -> u64 {
    if off + 8 <= s.len() { le_u64_at(s, off) } else { 0 }
}

/// Reads a little-endian `u16` at `off`; 0 when the data is too short.
pub fn read_u16_le(data: &[u8], off: usize) -> (r: u16)
    ensures
        r == spec_read_u16(data@, off as int),
{
    if off > data.len() || data.len() - off < 2 {
        return 0;
    }
    data[off] as u16 + 0x100 * (data[off + 1] as u16)
}

/// Reads a little-endian `u32` at `off`; 0 when the data is too short.
pub fn read_u32_le(data: &[u8], off: usize) -> (r: u32)
    ensures
        r == spec_read_u32(data@, off as int),
{
    if off > data.len() || data.len() - off < 4 {
        return 0;
    }
    data[off] as u32 + 0x100 * (data[off + 1] as u32) + 0x1_0000 * (data[off + 2] as u32)
        + 0x100_0000 * (data[off + 3] as u32)
}

/// Reads a little-endian `i32` (two's complement) at `off`; 0 when the data is too short.
pub fn read_i32_le(data: &[u8], off: usize) -> (r: i32)
    ensures
        r == spec_read_u32(data@, off as int) as i32,
{
    read_u32_le(data, off) as i32
}

/// Reads a little-endian `u64` at `off`; 0 when the data is too short.
pub fn read_u64_le(data: &[u8], off: usize) -> (r: u64)
    ensures
        r == spec_read_u64(data@, off as int),
{
    if off > data.len() || data.len() - off < 8 {
        return 0;
    }
    let lo = read_u32_le(data, off) as u64;
    let hi = read_u32_le(data, off + 4) as u64;
    lo + 0x1_0000_0000 * hi
}

/// Up to `len` bytes of `data` from `off`, cut short at the end of `data`;
/// empty when `off` lies at or past the end.
pub fn read_slice(data: &[u8], off: usize, len: usize) -> (r: &[u8])
    ensures
        off >= data@.len() ==> r@ == Seq::<u8>::empty(),
        off < data@.len() ==> r@ == data@.subrange(
            off as int,
            if off + len <= data@.len() { off + len } else { data@.len() as int },
        ),
{
    if off >= data.len() {
        return &[];
    }
    let end = if len > data.len() - off { data.len() } else { off + len };
    slice_subrange(data, off, end)
}

/// Reading a `u16` where `push_u16` wrote one gives back the value written,
/// whatever bytes came before.
pub proof fn law_read_back_u16(before: Seq<u8>, v: u16)
    ensures
        spec_read_u16(before + le_bytes_u16(v), before.len() as int) == v,
{
    let s = before + le_bytes_u16(v);
    assert(s[before.len() as int] == le_bytes_u16(v)[0]);
    assert(s[before.len() as int + 1] == le_bytes_u16(v)[1]);
}

/// Reading a `u32` where `push_u32` wrote one gives back the value written,
/// whatever bytes came before.
pub proof fn law_read_back_u32(before: Seq<u8>, v: u32)
    ensures
        spec_read_u32(before + le_bytes_u32(v), before.len() as int) == v,
{
    let s = before + le_bytes_u32(v);
    let n = before.len() as int;
    assert(s[n] == le_bytes_u32(v)[0]);
    assert(s[n + 1] == le_bytes_u32(v)[1]);
    assert(s[n + 2] == le_bytes_u32(v)[2]);
    assert(s[n + 3] == le_bytes_u32(v)[3]);
    assert((v % 256) + 0x100 * ((v / 0x100) % 256) + 0x1_0000 * ((v / 0x1_0000) % 256)
        + 0x100_0000 * (v / 0x100_0000) == v) by (nonlinear_arith);
}

proof fn lemma_u64_halves(v: u64)
    ensures
        (v / 0x100) % 256 == (((v % 0x1_0000_0000) as u32) / 0x100) % 256,
        (v / 0x1_0000) % 256 == (((v % 0x1_0000_0000) as u32) / 0x1_0000) % 256,
        (v / 0x100_0000) % 256 == ((v % 0x1_0000_0000) as u32) / 0x100_0000,
        v % 256 == ((v % 0x1_0000_0000) as u32) % 256,
        (v / 0x1_0000_0000) % 256 == ((v / 0x1_0000_0000) as u32) % 256,
        (v / 0x100_0000_0000) % 256 == (((v / 0x1_0000_0000) as u32) / 0x100) % 256,
        (v / 0x1_0000_0000_0000) % 256 == (((v / 0x1_0000_0000) as u32) / 0x1_0000) % 256,
        v / 0x100_0000_0000_0000 == ((v / 0x1_0000_0000) as u32) / 0x100_0000,
        ((v % 0x1_0000_0000) as u32) + 0x1_0000_0000 * ((v / 0x1_0000_0000) as u32) == v,
{
    assert(
        (v / 0x100) % 256 == (((v % 0x1_0000_0000) as u32) / 0x100) % 256
        && (v / 0x1_0000) % 256 == (((v % 0x1_0000_0000) as u32) / 0x1_0000) % 256
        && (v / 0x100_0000) % 256 == ((v % 0x1_0000_0000) as u32) / 0x100_0000
        && v % 256 == ((v % 0x1_0000_0000) as u32) % 256
        && (v / 0x1_0000_0000) % 256 == ((v / 0x1_0000_0000) as u32) % 256
        && (v / 0x100_0000_0000) % 256 == (((v / 0x1_0000_0000) as u32) / 0x100) % 256
        && (v / 0x1_0000_0000_0000) % 256 == (((v / 0x1_0000_0000) as u32) / 0x1_0000) % 256
        && v / 0x100_0000_0000_0000 == ((v / 0x1_0000_0000) as u32) / 0x100_0000
        && ((v % 0x1_0000_0000) as u32) + 0x1_0000_0000 * ((v / 0x1_0000_0000) as u32) == v
    ) by (bit_vector);
}

/// Reading a `u64` where `push_u64` wrote one gives back the value written,
/// whatever bytes came before.
pub proof fn law_read_back_u64(before: Seq<u8>, v: u64)
    ensures
        spec_read_u64(before + le_bytes_u64(v), before.len() as int) == v,
{
    let n = before.len() as int;
    let lo = (v % 0x1_0000_0000) as u32;
    let hi = (v / 0x1_0000_0000) as u32;
    lemma_u64_halves(v);
    let mid = before + le_bytes_u32(lo);
    let s = mid + le_bytes_u32(hi);
    assert(before + le_bytes_u64(v) =~= s);
    law_read_back_u32(before, lo);
    law_read_back_u32(mid, hi);
    assert(le_u32_at(s, n) == le_u32_at(mid, n)) by {
        assert(s[n] == mid[n]);
        assert(s[n + 1] == mid[n + 1]);
        assert(s[n + 2] == mid[n + 2]);
        assert(s[n + 3] == mid[n + 3]);
    }
}

/// Reading an `i32` where `push_i32` wrote one gives back the value written,
/// whatever bytes came before.
pub proof fn law_read_back_i32(before: Seq<u8>, v: i32)
    ensures
        spec_read_u32(before + le_bytes_i32(v), before.len() as int) as i32 == v,
{
    law_read_back_u32(before, v as u32);
    assert((v as u32) as i32 == v) by (bit_vector);
}

} // verus!
