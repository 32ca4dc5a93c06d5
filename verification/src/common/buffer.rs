//! Growable byte buffer used across Ventrail decoders.

use vstd::prelude::*;

verus! {

/// The two little-endian bytes of `v`.
pub open spec fn le_bytes_u16(v: u16) -> Seq<u8> {
    seq![(v % 256) as u8, (v / 256) as u8]
}

/// The four little-endian bytes of `v`.
pub open spec fn le_bytes_u32(v: u32) -> Seq<u8> {
    seq![
        (v % 256) as u8,
        ((v / 0x100) % 256) as u8,
        ((v / 0x1_0000) % 256) as u8,
        (v / 0x100_0000) as u8,
    ]
}

/// The eight little-endian bytes of `v`.
pub open spec fn le_bytes_u64(v: u64) -> Seq<u8> {
    seq![
        (v % 256) as u8,
        ((v / 0x100) % 256) as u8,
        ((v / 0x1_0000) % 256) as u8,
        ((v / 0x100_0000) % 256) as u8,
        ((v / 0x1_0000_0000) % 256) as u8,
        ((v / 0x100_0000_0000) % 256) as u8,
        ((v / 0x1_0000_0000_0000) % 256) as u8,
        (v / 0x100_0000_0000_0000) as u8,
    ]
}

/// The four little-endian bytes of the two's-complement form of `v`.
pub open spec fn le_bytes_i32(v: i32) -> Seq<u8> {
    le_bytes_u32(v as u32)
}

/// Sum of the bytes of `s`, as an integer.
pub open spec fn byte_sum(s: Seq<u8>) -> int
    decreases s.len(),
{
    if s.len() == 0 {
        0
    } else {
        byte_sum(s.drop_last()) + s.last()
    }
}

/// Returns the number of elements `v` can hold without reallocating.
/// Std documents that this is never less than the length, and that a
/// vector of bytes never holds more than `isize::MAX` of them; that is
/// all the contract says, as the exact figure is the allocator's choice.
#[verifier::external_body]
fn vec_capacity(v: &Vec<u8>) -> (c: usize)
    ensures
        v@.len() <= c <= isize::MAX,
{
    v.capacity()
}

/// An append-only sequence of bytes; its view is the bytes it holds.
#[derive(Clone, Debug)]
pub struct ByteBuffer {
    bytes: Vec<u8>,
}

impl View for ByteBuffer {
    type V = Seq<u8>;

    closed spec fn view(&self) -> Seq<u8> {
        self.bytes@
    }
}

impl Default for ByteBuffer {
    fn default() -> (r: Self)
        ensures
            r@ == Seq::<u8>::empty(),
    {
        ByteBuffer { bytes: Vec::new() }
    }
}

impl ByteBuffer {
    /// An empty buffer.
    pub fn new() -> (r: Self)
        ensures
            r@ == Seq::<u8>::empty(),
    {
        ByteBuffer { bytes: Vec::new() }
    }

    /// Removes every byte.
    pub fn clear(&mut self)
        ensures
            final(self)@ == Seq::<u8>::empty(),
    {
        self.bytes.clear();
    }

    /// Number of bytes held.
    pub fn len(&self) -> (n: usize)
        ensures
            n == self@.len(),
    {
        self.bytes.len()
    }

    /// Whether no byte is held.
    pub fn is_empty(&self) -> (b: bool)
        ensures
            b == (self@.len() == 0),
    {
        self.bytes.len() == 0
    }

    /// The bytes held, in order.
    pub fn as_slice(&self) -> (s: &[u8])
        ensures
            s@ == self@,
    {
        self.bytes.as_slice()
    }

    /// Appends `data` at the end.
    pub fn extend_from_slice(&mut self, data: &[u8])
        ensures
            final(self)@ == old(self)@ + data@,
    {
        self.bytes.extend_from_slice(data);
        assert(self.bytes@ =~= old(self)@ + data@);
    }

    /// Appends `data` at the end (same as `extend_from_slice`).
    pub fn append(&mut self, data: &[u8])
        ensures
            final(self)@ == old(self)@ + data@,
    {
        self.extend_from_slice(data);
    }

    /// Appends the two little-endian bytes of `value`.
    pub fn push_u16(&mut self, value: u16)
        ensures
            final(self)@ == old(self)@ + le_bytes_u16(value),
    {
        self.bytes.push((value % 256) as u8);
        self.bytes.push((value / 256) as u8);
        assert(self.bytes@ =~= old(self)@ + le_bytes_u16(value));
    }

    /// Appends the four little-endian bytes of `value`.
    pub fn push_u32(&mut self, value: u32)
        ensures
            final(self)@ == old(self)@ + le_bytes_u32(value),
    {
        self.bytes.push((value % 256) as u8);
        self.bytes.push(((value / 0x100) % 256) as u8);
        self.bytes.push(((value / 0x1_0000) % 256) as u8);
        self.bytes.push((value / 0x100_0000) as u8);
        assert(self.bytes@ =~= old(self)@ + le_bytes_u32(value));
    }

    /// Appends the eight little-endian bytes of `value`.
    pub fn push_u64(&mut self, value: u64)
        ensures
            final(self)@ == old(self)@ + le_bytes_u64(value),
    {
        self.bytes.push((value % 256) as u8);
        self.bytes.push(((value / 0x100) % 256) as u8);
        self.bytes.push(((value / 0x1_0000) % 256) as u8);
        self.bytes.push(((value / 0x100_0000) % 256) as u8);
        self.bytes.push(((value / 0x1_0000_0000) % 256) as u8);
        self.bytes.push(((value / 0x100_0000_0000) % 256) as u8);
        self.bytes.push(((value / 0x1_0000_0000_0000) % 256) as u8);
        self.bytes.push((value / 0x100_0000_0000_0000) as u8);
        assert(self.bytes@ =~= old(self)@ + le_bytes_u64(value));
    }

    /// Appends the four little-endian bytes of the two's-complement form of `value`.
    pub fn push_i32(&mut self, value: i32)
        ensures
            final(self)@ == old(self)@ + le_bytes_i32(value),
    {
        self.push_u32(value as u32);
    }

    /// Appends one byte.
    pub fn push(&mut self, byte: u8)
        ensures
            final(self)@ == old(self)@.push(byte),
    {
        self.bytes.push(byte);
    }

    /// Asks for room for `additional` more bytes; the contents do not change.
    /// Std panics when the new capacity would pass `isize::MAX` bytes.
    pub fn reserve(&mut self, additional: usize)
        requires
            old(self)@.len() + additional <= isize::MAX,
        ensures
            final(self)@ == old(self)@,
    {
        self.bytes.reserve(additional);
    }

    /// How many bytes the buffer can hold without growing: at least its
    /// length, and at most `isize::MAX`.
    pub fn capacity(&self) -> (c: usize)
        ensures
            self@.len() <= c <= isize::MAX,
    {
        vec_capacity(&self.bytes)
    }

    /// The sum of all bytes, modulo 256.
    pub fn checksum8(&self) -> (c: u8)
        ensures
            c == byte_sum(self@) % 256,
    {
        let mut acc: u8 = 0;
        let mut i: usize = 0;
        while i < self.bytes.len()
            invariant
                i <= self.bytes@.len(),
                acc == byte_sum(self.bytes@.take(i as int)) % 256,
            decreases self.bytes@.len() - i,
        {
            let b = self.bytes[i];
            assert(self.bytes@.take(i + 1).drop_last() =~= self.bytes@.take(i as int));
            acc = acc.wrapping_add(b);
            i = i + 1;
        }
        assert(self.bytes@.take(i as int) =~= self.bytes@);
        acc
    }
}

} // verus!
