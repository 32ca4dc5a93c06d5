//! Varint helpers used by the HVWS framing layer.
//!
//! Lengths are unsigned LEB128: seven value bits per byte, least
//! significant group first, the high bit set on every byte but the last.

use vstd::prelude::*;
use vstd::arithmetic::power2::{pow2, lemma_pow2_adds, lemma_pow2_strictly_increases, lemma2_to64, lemma2_to64_rest};
use vstd::bits::lemma_u64_shl_is_mul;

pub use crate::common::wire_reader::{read_i32_le, read_u16_le, read_u32_le, read_u64_le};

verus! {

/// The number that the seven-bit groups of `s` stand for, least
/// significant group first (the high bit of each byte is ignored).
pub open spec fn leb_value(s: Seq<u8>) -> nat
    decreases s.len(),
{
    if s.len() == 0 {
        0
    } else {
        leb_value(s.drop_last()) + ((s.last() % 128) as nat) * pow2((7 * (s.len() - 1)) as nat)
    }
}

/// The end (exclusive) of the varint that starts at index `j` of a run of
/// continuation bytes, looking at no more than ten bytes in all: `None`
/// when `s` ends first or ten bytes all carry the continuation bit.
pub open spec fn varint_end(s: Seq<u8>, j: nat) -> Option<nat>
    decreases 10 - j,
{
    if j >= 10 || j >= s.len() {
        None
    } else if s[j as int] < 128 {
        Some(j + 1)
    } else {
        varint_end(s, j + 1)
    }
}

/// The varint at the start of `s`: its value, reduced modulo 2^64, and
/// its length in bytes; `None` when `s` holds no complete varint of at
/// most ten bytes.
pub open spec fn spec_decode_varint(s: Seq<u8>) -> Option<(u64, nat)> {
    match varint_end(s, 0) {
        Some(n) => Some(((leb_value(s.take(n as int)) % 0x1_0000_0000_0000_0000) as u64, n)),
        None => None,
    }
}

/// How many bytes a failed decode consumes: all that is left, but no
/// more than ten.
pub open spec fn varint_failed_len(s: Seq<u8>) -> nat {
    if s.len() < 10 { s.len() } else { 10 }
}

/// The bytes of `data` from `off` on (empty when `off` is past the end).
pub open spec fn tail_from(data: Seq<u8>, off: int) -> Seq<u8> {
    if 0 <= off <= data.len() { data.skip(off) } else { Seq::empty() }
}

/// The LEB128 encoding of `v`.
pub open spec fn leb_encode(v: nat) -> Seq<u8>
    decreases v,
{
    if v < 128 {
        seq![v as u8]
    } else {
        seq![(v % 128 + 128) as u8] + leb_encode(v / 128)
    }
}

proof fn lemma_or_is_add(value: u64, d: u64, s: u64)
    requires
        s < 64,
        value < (1u64 << s),
    ensures
        value | (d << s) == value + (d << s),
{
    assert(s < 64 && value < (1u64 << s) ==> value | (d << s) == value + (d << s)) by (bit_vector);
}

proof fn lemma_leb_value_bound(s: Seq<u8>)
    ensures
        leb_value(s) < pow2((7 * s.len()) as nat),
    decreases s.len(),
{
    lemma2_to64();
    if s.len() > 0 {
        let n = (s.len() - 1) as nat;
        lemma_leb_value_bound(s.drop_last());
        lemma_pow2_adds(7 * n, 7);
        lemma2_to64();
        assert(((s.last() % 128) as nat) * pow2(7 * n) <= 127 * pow2(7 * n)) by (nonlinear_arith)
            requires s.last() % 128 <= 127;
        assert(7 * s.len() == 7 * n + 7);
    }
}

/// Decodes an unsigned LEB128 varint from `data` at `*off`, moving `*off`
/// past the bytes it read.
pub fn decode_varint(data: &[u8], off: &mut usize) -> (r: Option<u64>)
    ensures
        ({
            let s = tail_from(data@, *old(off) as int);
            match r {
                Some(v) => spec_decode_varint(s) == Some((v, (*final(off) - *old(off)) as nat)),
                None => spec_decode_varint(s) is None && *final(off) == *old(off)
                    + varint_failed_len(s),
            }
        }),
        *old(off) <= data@.len() ==> *final(off) <= data@.len(),
        *final(off) >= *old(off),
{
    let ghost start = *off;
    let ghost s = tail_from(data@, start as int);
    let mut value: u64 = 0;
    let mut shift: u32 = 0;
    let mut j: usize = 0;
    if *off > data.len() {
        return None;
    }
    while *off < data.len()
        invariant
            start == *old(off),
            start <= *off <= data@.len(),
            s == data@.skip(start as int),
            j == *off - start,
            j < 10,
            shift == 7 * j,
            value == leb_value(s.take(j as int)),
            forall|i: int| 0 <= i < j ==> s[i] >= 128,
        decreases data@.len() - *off,
    {
        let byte = data[*off];
        assert(byte == s[j as int]);
        *off += 1;
        let d = (byte & 0x7f) as u64;
        assert(d == byte % 128) by (bit_vector)
            requires d == (byte & 0x7f) as u64;
        proof {
            lemma_leb_value_bound(s.take(j as int));
            assert(s.take(j + 1).drop_last() =~= s.take(j as int));
            lemma2_to64();
            lemma_pow2_strictly_increases(shift as nat, 64);
            lemma_u64_shl_is_mul(1, shift as u64);
        }
        let ghost old_value = value;
        proof {
            lemma2_to64_rest();
            assert(leb_value(s.take(j + 1)) == old_value + d * pow2(shift as nat));
        }
        proof {
            if j < 9 {
                lemma_pow2_strictly_increases(shift as nat, 57);
                assert(d * pow2(shift as nat) <= 127 * pow2(shift as nat)) by (nonlinear_arith)
                    requires d <= 127;
                lemma_u64_shl_is_mul(d, shift as u64);
                lemma_or_is_add(value, d, shift as u64);
                lemma_leb_value_bound(s.take(j + 1));
                lemma_pow2_strictly_increases((7 * (j + 1)) as nat, 64);
            } else {
                lemma_or_is_add(value, d, shift as u64);
                assert(d << 63u64 == (d % 2) * 0x8000_0000_0000_0000u64) by (bit_vector)
                    requires d < 128;
                assert((old_value + d * 0x8000_0000_0000_0000) % 0x1_0000_0000_0000_0000
                    == old_value + (d % 2) * 0x8000_0000_0000_0000) by (nonlinear_arith)
                    requires old_value < 0x8000_0000_0000_0000, d < 128;
            }
            assert((value | (d << shift)) == (leb_value(s.take(j + 1)) % 0x1_0000_0000_0000_0000) as u64);
        }
        value |= d << shift;
        j = j + 1;
        if byte & 0x80 == 0 {
            assert(byte < 128) by (bit_vector)
                requires byte & 0x80 == 0;
            proof {
                lemma_varint_end_walk(s, 0, j as nat);
            }
            return Some(value);
        }
        assert(byte >= 128) by (bit_vector)
            requires byte & 0x80 != 0;
        shift += 7;
        if shift > 63 {
            proof {
                lemma_varint_end_none(s, 0);
            }
            return None;
        }
    }
    proof {
        lemma_varint_end_none(s, 0);
    }
    None
}

proof fn lemma_varint_end_walk(s: Seq<u8>, i: nat, m: nat)
    requires
        i < m <= 10,
        m <= s.len(),
        forall|k: int| i <= k < m - 1 ==> s[k] >= 128,
        s[m - 1] < 128,
    ensures
        varint_end(s, i) == Some(m),
    decreases m - i,
{
    if i + 1 < m {
        lemma_varint_end_walk(s, i + 1, m);
    }
}

proof fn lemma_varint_end_none(s: Seq<u8>, i: nat)
    requires
        forall|k: int| i <= k < 10 && k < s.len() ==> s[k] >= 128,
    ensures
        varint_end(s, i) is None,
    decreases 10 - i,
{
    if i < 10 && i < s.len() {
        lemma_varint_end_none(s, i + 1);
    }
}

/// Appends the LEB128 encoding of `value` to `out`.
pub fn encode_varint(value: u64, out: &mut Vec<u8>)
    ensures
        final(out)@ == old(out)@ + leb_encode(value as nat),
{
    let mut value = value;
    let ghost v0 = value;
    loop
        invariant_except_break
            out@ + leb_encode(value as nat) == old(out)@ + leb_encode(v0 as nat),
        ensures
            out@ == old(out)@ + leb_encode(v0 as nat),
        decreases value,
    {
        let mut byte = (value & 0x7f) as u8;
        let ghost cur = value;
        assert(byte == value % 128) by (bit_vector)
            requires byte == (value & 0x7f) as u8;
        value = value >> 7;
        assert(value == cur / 128) by (bit_vector)
            requires value == cur >> 7;
        if value != 0 {
            assert(byte | 0x80 == byte + 128) by (bit_vector)
                requires byte < 128;
            byte |= 0x80;
        }
        let ghost before = out@;
        out.push(byte);
        if value == 0 {
            assert(leb_encode(cur as nat) == seq![byte]);
            assert(out@ =~= before + leb_encode(cur as nat));
            break;
        }
        assert(leb_encode(cur as nat) == seq![byte] + leb_encode(value as nat));
        assert(out@ + leb_encode(value as nat) =~= before + leb_encode(cur as nat));
    }
}

proof fn lemma_leb_value_front(x: u8, t: Seq<u8>)
    ensures
        leb_value(seq![x] + t) == (x % 128) as nat + 128 * leb_value(t),
    decreases t.len(),
{
    lemma2_to64();
    let e = seq![x] + t;
    if t.len() == 0 {
        assert(e.drop_last() =~= Seq::<u8>::empty());
        assert(leb_value(Seq::<u8>::empty()) == 0);
        assert(leb_value(e) == leb_value(e.drop_last()) + ((e.last() % 128) as nat) * pow2(0));
    } else {
        let n = t.len();
        assert(e.drop_last() =~= seq![x] + t.drop_last());
        lemma_leb_value_front(x, t.drop_last());
        lemma_pow2_adds(7, (7 * (n - 1)) as nat);
        assert(pow2((7 * n) as nat) == 128 * pow2((7 * (n - 1)) as nat)) by {
            assert((7 + 7 * (n - 1)) as nat == (7 * n) as nat);
        }
        assert(e.last() == t.last());
        assert(e.len() - 1 == n);
        let c = (t.last() % 128) as nat;
        assert(leb_value(e) == leb_value(e.drop_last()) + c * pow2((7 * n) as nat));
        assert(leb_value(t) == leb_value(t.drop_last()) + c * pow2((7 * (n - 1)) as nat));
        assert(128 * (leb_value(t.drop_last()) + c * pow2((7 * (n - 1)) as nat))
            == 128 * leb_value(t.drop_last()) + c * (128 * pow2((7 * (n - 1)) as nat)))
            by (nonlinear_arith);
    }
}

proof fn lemma_leb_encode_shape(v: nat)
    ensures
        leb_encode(v).len() >= 1,
        forall|i: int| 0 <= i < leb_encode(v).len() - 1 ==> leb_encode(v)[i] >= 128,
        leb_encode(v).last() < 128,
        leb_value(leb_encode(v)) == v,
    decreases v,
{
    lemma2_to64();
    if v < 128 {
        let e = seq![v as u8];
        assert(e.drop_last() =~= Seq::<u8>::empty());
        assert(leb_value(Seq::<u8>::empty()) == 0);
        assert(leb_value(e) == leb_value(e.drop_last()) + ((e.last() % 128) as nat) * pow2(0));
    } else {
        let x = (v % 128 + 128) as u8;
        let t = leb_encode(v / 128);
        lemma_leb_encode_shape(v / 128);
        lemma_leb_value_front(x, t);
        let e = seq![x] + t;
        assert(x % 128 == v % 128);
        assert(v == v % 128 + 128 * (v / 128));
        assert forall|i: int| 0 <= i < e.len() - 1 implies e[i] >= 128 by {
            if i > 0 {
                assert(e[i] == t[i - 1]);
            }
        }
        assert(e.last() == t.last());
    }
}

proof fn lemma_leb_encode_len(v: nat, k: nat)
    requires
        k >= 1,
        v < pow2(7 * k),
    ensures
        leb_encode(v).len() <= k,
    decreases v,
{
    lemma2_to64();
    if v >= 128 {
        if k == 1 {
            assert(pow2(7) == 128);
        } else {
            lemma_pow2_adds(7, (7 * (k - 1)) as nat);
            assert(7 + 7 * (k - 1) == 7 * k);
            assert(v / 128 < pow2((7 * (k - 1)) as nat)) by (nonlinear_arith)
                requires v < 128 * pow2((7 * (k - 1)) as nat);
            lemma_leb_encode_len(v / 128, (k - 1) as nat);
        }
    }
}

/// Decoding what `encode_varint` wrote gives back the value written and
/// consumes exactly the bytes written, whatever follows them; the
/// encoding of a `u64` never takes more than ten bytes.
pub proof fn law_varint_roundtrip(v: u64, rest: Seq<u8>)
    ensures
        leb_encode(v as nat).len() <= 10,
        spec_decode_varint(leb_encode(v as nat) + rest) == Some((v, leb_encode(v as nat).len())),
{
    let e = leb_encode(v as nat);
    let s = e + rest;
    lemma_leb_encode_shape(v as nat);
    lemma2_to64_rest();
    lemma_pow2_strictly_increases(64, 70);
    lemma_leb_encode_len(v as nat, 10);
    lemma_varint_end_walk(s, 0, e.len());
    assert(s.take(e.len() as int) =~= e);
}

} // verus!
