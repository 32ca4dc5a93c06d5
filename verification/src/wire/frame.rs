//! HVWS session frame constants.

use vstd::prelude::*;
use crate::common::buffer::ByteBuffer;

verus! {

/// The magic number `HVWS`, read little-endian.
pub const HVWS_MAGIC: u32 = 0x5357_5648;

/// The frame version this library writes about.
pub const HVWS_VERSION: u16 = 1;

/// One section of a session: its tag, flags and payload.
#[derive(Clone, Debug)]
pub struct WireSection<'a> {
    pub tag: u8,
    pub flags: u8,
    pub payload: &'a [u8],
}

/// What a session accumulates while its sections are dispatched.
#[derive(Clone, Debug)]
pub struct WireSession {
    pub sections_seen: u32,
    pub output: ByteBuffer,
}

impl Default for WireSession {
    fn default() -> (r: Self)
        ensures
            r.sections_seen == 0,
            r.output@ == Seq::<u8>::empty(),
    {
        WireSession { sections_seen: 0, output: ByteBuffer::new() }
    }
}

} // verus!
