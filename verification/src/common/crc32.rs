//! Small table-free CRC32 implementation for package health checks.
//!
//! This is the reflected CRC-32 of IEEE 802.3 (polynomial 0xEDB88320,
//! initial register all ones, final complement), processed bit by bit.

use vstd::prelude::*;
use crate::common::buffer::le_bytes_u32;

verus! {

/// The reflected polynomial of CRC-32.
pub const CRC32_POLY: u32 = 0xEDB8_8320;

/// One shift of the CRC register: shift right, and fold in the
/// polynomial when the bit shifted out was set.
pub open spec fn crc_bit_step(c: u32) -> u32 {
    if c & 1 == 1 { (c >> 1) ^ CRC32_POLY } else { c >> 1 }
}

/// `k` shifts of the CRC register.
pub open spec fn crc_bits(c: u32, k: nat) -> u32
    decreases k,
{
    if k == 0 { c } else { crc_bit_step(crc_bits(c, (k - 1) as nat)) }
}

/// The register after taking in one byte.
pub open spec fn crc_byte_step(c: u32, b: u8) -> u32 {
    crc_bits(c ^ (b as u32), 8)
}

/// The register after taking in the bytes of `s` in order, starting from `init`.
pub open spec fn crc_register(init: u32, s: Seq<u8>) -> u32
    decreases s.len(),
{
    if s.len() == 0 {
        init
    } else {
        crc_byte_step(crc_register(init, s.drop_last()), s.last())
    }
}

/// The CRC-32 checksum of `s`.
pub open spec fn crc32_spec(s: Seq<u8>) -> u32 {
    !crc_register(0xFFFF_FFFF, s)
}

/// The CRC register can be run over data in pieces: taking in `a` and
/// then `b` leaves it as taking in `a` followed by `b` does.
pub proof fn law_crc_register_concat(init: u32, a: Seq<u8>, b: Seq<u8>)
    ensures
        crc_register(init, a + b) == crc_register(crc_register(init, a), b),
    decreases b.len(),
{
    if b.len() == 0 {
        assert(a + b =~= a);
    } else {
        law_crc_register_concat(init, a, b.drop_last());
        assert((a + b).drop_last() =~= a + b.drop_last());
        assert((a + b).last() == b.last());
    }
}

proof fn lemma_masked_step(c: u32, mask: u32)
    requires
        (c & 1 == 1 ==> mask == 0xFFFF_FFFF),
        (c & 1 != 1 ==> mask == 0),
    ensures
        (c >> 1) ^ (CRC32_POLY & mask) == crc_bit_step(c),
{
    assert(c & 1 == 1 ==> (c >> 1) ^ (0xEDB8_8320u32 & 0xFFFF_FFFFu32) == (c >> 1) ^ 0xEDB8_8320u32)
        by (bit_vector);
    assert((c >> 1) ^ (0xEDB8_8320u32 & 0u32) == c >> 1) by (bit_vector);
}

/// Computes the CRC-32 checksum of `bytes`.
pub fn crc32(bytes: &[u8]) -> (r: u32)
    ensures
        r == crc32_spec(bytes@),
{
    let mut crc: u32 = 0xFFFF_FFFF;
    let mut i: usize = 0;
    while i < bytes.len()
        invariant
            i <= bytes@.len(),
            crc == crc_register(0xFFFF_FFFF, bytes@.take(i as int)),
        decreases bytes@.len() - i,
    {
        let byte = bytes[i];
        let ghost start = crc ^ (byte as u32);
        crc = crc ^ (byte as u32);
        let mut k: u32 = 0;
        while k < 8
            invariant
                k <= 8,
                crc == crc_bits(start, k as nat),
            decreases 8 - k,
        {
            let low = crc & 1;
            assert(low == 0 || low == 1) by (bit_vector)
                requires low == crc & 1;
            let mask = 0u32.wrapping_sub(low);
            proof {
                assert(low == 1 <==> crc & 1 == 1);
                lemma_masked_step(crc, mask);
            }
            crc = (crc >> 1) ^ (CRC32_POLY & mask);
            k = k + 1;
        }
        assert(bytes@.take(i + 1).drop_last() =~= bytes@.take(i as int));
        i = i + 1;
    }
    assert(bytes@.take(i as int) =~= bytes@);
    !crc
}

/// The CRC-32 checksum of the four little-endian bytes of `seed`
/// followed by `bytes`.
pub fn crc32_extend(seed: u32, bytes: &[u8]) -> (r: u32)
    ensures
        r == crc32_spec(le_bytes_u32(seed) + bytes@),
{
    let mut joined: Vec<u8> = Vec::new();
    joined.push((seed % 256) as u8);
    joined.push(((seed / 0x100) % 256) as u8);
    joined.push(((seed / 0x1_0000) % 256) as u8);
    joined.push((seed / 0x100_0000) as u8);
    joined.extend_from_slice(bytes);
    assert(joined@ =~= le_bytes_u32(seed) + bytes@);
    crc32(joined.as_slice())
}

} // verus!
