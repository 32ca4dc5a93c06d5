//! HVBK bundle validation for expedition archives.
//!
//! A bundle starts with a 12-byte header (magic `HVBK` at 0, section
//! count as a `u16` at 6) followed by a table of 10-byte entries: tag
//! (`u16`), offset (`u32`) and length (`u32`). At most 128 entries are read.

use vstd::prelude::*;
use vstd::slice::slice_subrange;
use crate::common::buffer::{ByteBuffer, le_bytes_u16, le_bytes_u32};
use crate::common::crc32::{crc32, crc32_spec};
use crate::common::status::{Status, StatusMessage};
use crate::common::wire_reader::{read_u16_le, read_u32_le, le_u16_at, le_u32_at, spec_read_u16};

verus! {

/// The magic number `HVBK`, read little-endian.
pub const HVBK_MAGIC: u32 = 0x4B42_5648;

/// One entry of a bundle's section table.
#[derive(Clone, Debug)]
pub struct BundleSection {
    pub tag: u16,
    pub offset: u32,
    pub length: u32,
}

/// The table entry whose 10 bytes start at `off`.
pub open spec fn section_at(d: Seq<u8>, off: int) -> BundleSection {
    BundleSection { tag: le_u16_at(d, off), offset: le_u32_at(d, off + 2), length: le_u32_at(d, off + 6) }
}

/// How many table entries a bundle declares, capped at 128.
pub open spec fn table_count(d: Seq<u8>) -> nat {
    let c = spec_read_u16(d, 6);
    (if c < 128 { c } else { 128 }) as nat
}

/// The section table of a bundle, as far as it declares one.
pub open spec fn table_entries(d: Seq<u8>) -> Seq<BundleSection> {
    Seq::new(table_count(d), |k: int| section_at(d, 12 + 10 * k))
}

/// Whether the header is complete, the magic matches and the whole
/// table fits in the data.
pub open spec fn table_parses(d: Seq<u8>) -> bool {
    &&& d.len() >= 12
    &&& le_u32_at(d, 0) == HVBK_MAGIC
    &&& 12 + 10 * table_count(d) <= d.len()
}

/// Whether a section lies wholly within `n` bytes of data.
pub open spec fn section_in_bounds(s: BundleSection, n: int) -> bool {
    s.offset <= n && s.offset + s.length <= n
}

/// The failure `parse_table` reports, if any: its code and description.
pub open spec fn table_error(d: Seq<u8>) -> Option<(Status, Seq<char>)> {
    if d.len() < 12 {
        Some((Status::Truncated, "hvbk header"@))
    } else if le_u32_at(d, 0) != HVBK_MAGIC {
        Some((Status::InvalidArgument, "hvbk magic"@))
    } else if 12 + 10 * table_count(d) > d.len() {
        Some((Status::Truncated, "hvbk section table"@))
    } else {
        None
    }
}

/// Reads the header and section table of a bundle.
pub fn parse_table(data: &[u8]) -> (r: Result<Vec<BundleSection>, StatusMessage>)
    ensures
        match r {
            Ok(v) => table_error(data@) is None && v@ == table_entries(data@),
            Err(e) => table_error(data@) == Some((e.code, e.detail@)),
        },
{
    proof {
        reveal_strlit("hvbk header");
        reveal_strlit("hvbk magic");
        reveal_strlit("hvbk section table");
    }
    if data.len() < 12 {
        return Err(StatusMessage::fail(Status::Truncated, "hvbk header"));
    }
    let magic = read_u32_le(data, 0);
    if magic != HVBK_MAGIC {
        return Err(StatusMessage::fail(Status::InvalidArgument, "hvbk magic"));
    }
    let declared = read_u16_le(data, 6) as usize;
    let count = if declared < 128 { declared } else { 128 };
    let ghost entries = table_entries(data@);
    let mut off: usize = 12;
    let mut sections: Vec<BundleSection> = Vec::new();
    let mut k: usize = 0;
    while k < count
        invariant
            data@.len() >= 12,
            le_u32_at(data@, 0) == HVBK_MAGIC,
            count == table_count(data@),
            entries == table_entries(data@),
            k <= count,
            off == 12 + 10 * k,
            12 + 10 * k <= data@.len(),
            sections@ == entries.take(k as int),
        decreases count - k,
    {
        if off + 10 > data.len() {
            return Err(StatusMessage::fail(Status::Truncated, "hvbk section table"));
        }
        let sec = BundleSection {
            tag: read_u16_le(data, off),
            offset: read_u32_le(data, off + 2),
            length: read_u32_le(data, off + 6),
        };
        assert(entries[k as int] == sec);
        sections.push(sec);
        assert(sections@ =~= entries.take(k + 1));
        off += 10;
        k += 1;
    }
    assert(entries.take(k as int) =~= entries);
    Ok(sections)
}

/// Checks that a bundle's table parses and that every section lies
/// within the data; fails as out of range at the first that does not.
pub fn validate_package(data: &[u8]) -> (st: StatusMessage)
    ensures
        table_error(data@) matches Some(e) ==> st.code == e.0 && st.detail@ == e.1,
        table_error(data@) is None ==> {
            if forall|k: int| 0 <= k < table_count(data@)
                ==> #[trigger] section_in_bounds(table_entries(data@)[k], data@.len() as int) {
                st.code == Status::Success && st.detail@ == "ok"@
            } else {
                st.code == Status::OutOfRange && st.detail@ == "hvbk section extent"@
            }
        },
{
    let sections = match parse_table(data) {
        Ok(s) => s,
        Err(e) => return e,
    };
    let ghost entries = table_entries(data@);
    let mut k: usize = 0;
    while k < sections.len()
        invariant
            sections@ == entries,
            entries == table_entries(data@),
            table_error(data@) is None,
            k <= sections@.len(),
            forall|j: int| 0 <= j < k ==> #[trigger] section_in_bounds(entries[j], data@.len() as int),
        decreases sections@.len() - k,
    {
        let start = sections[k].offset as usize;
        let length = sections[k].length as usize;
        if start > data.len() || length > data.len() - start {
            proof {
                reveal_strlit("hvbk section extent");
                assert(!section_in_bounds(entries[k as int], data@.len() as int));
            }
            return StatusMessage::fail(Status::OutOfRange, "hvbk section extent");
        }
        k += 1;
    }
    StatusMessage::ok()
}

/// The checksum bytes emitted for one section: tag, length, and the
/// CRC-32 of the section's bytes clipped to the data (0 when nothing
/// of it lies inside).
pub open spec fn section_health(d: Seq<u8>, s: BundleSection) -> Seq<u8> {
    let start = s.offset as int;
    let end = if s.offset + s.length <= d.len() { s.offset + s.length } else { d.len() as int };
    let crc = if start < end { crc32_spec(d.subrange(start, end)) } else { 0 };
    le_bytes_u16(s.tag) + le_bytes_u32(s.length) + le_bytes_u32(crc)
}

/// The health bytes of the sections of `secs`, in order.
pub open spec fn health_bytes(d: Seq<u8>, secs: Seq<BundleSection>) -> Seq<u8>
    decreases secs.len(),
{
    if secs.len() == 0 {
        Seq::empty()
    } else {
        health_bytes(d, secs.drop_last()) + section_health(d, secs.last())
    }
}

/// Each section contributes ten health bytes: tag, length and checksum.
pub proof fn law_health_length(d: Seq<u8>, secs: Seq<BundleSection>)
    ensures
        health_bytes(d, secs).len() == 10 * secs.len(),
    decreases secs.len(),
{
    if secs.len() > 0 {
        law_health_length(d, secs.drop_last());
    }
}

/// A bundle's table never has more than 128 entries, and when it parses,
/// every entry lies within the table area that the data holds.
pub proof fn law_table_bounds(d: Seq<u8>)
    ensures
        table_entries(d).len() <= 128,
        table_error(d) is None ==> 12 + 10 * table_entries(d).len() <= d.len(),
{
}

/// Emits the section count followed by each section's health bytes; on
/// a table that does not parse, returns that failure and emits nothing.
pub fn ingest_container_validator(data: &[u8], out: &mut ByteBuffer) -> (st: StatusMessage)
    ensures
        table_error(data@) matches Some(e) ==> st.code == e.0 && st.detail@ == e.1
            && final(out)@ == old(out)@,
        table_error(data@) is None ==> st.code == Status::Success && st.detail@ == "ok"@ && final(out)@ == old(out)@
            + le_bytes_u32(table_count(data@) as u32) + health_bytes(data@, table_entries(data@)),
{
    let sections = match parse_table(data) {
        Ok(s) => s,
        Err(e) => return e,
    };
    let ghost entries = table_entries(data@);
    out.push_u32(sections.len() as u32);
    let ghost base = out@;
    let mut k: usize = 0;
    while k < sections.len()
        invariant
            sections@ == entries,
            k <= sections@.len(),
            out@ == base + health_bytes(data@, entries.take(k as int)),
        decreases sections@.len() - k,
    {
        let sec = &sections[k];
        let start = sec.offset as usize;
        let length = sec.length as usize;
        let end = if start <= data.len() && length <= data.len() - start {
            start + length
        } else {
            data.len()
        };
        let checksum = if start < end { crc32(slice_subrange(data, start, end)) } else { 0 };
        out.push_u16(sec.tag);
        out.push_u32(sec.length);
        out.push_u32(checksum);
        assert(entries.take(k + 1).drop_last() =~= entries.take(k as int));
        assert(out@ =~= base + health_bytes(data@, entries.take(k + 1)));
        k += 1;
    }
    assert(entries.take(k as int) =~= entries);
    StatusMessage::ok()
}

} // verus!
