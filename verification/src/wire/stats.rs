//! Section-tag statistics of an HVWS session, as the command-line
//! `stats` command reports them.

use vstd::prelude::*;
use crate::common::wire_reader::{le_u16_at, le_u32_at, read_u16_le, read_u32_le};
use crate::wire::frame::HVWS_MAGIC;
use crate::wire::varint::{decode_varint, spec_decode_varint, tail_from};

verus! {

/// Why a file has no statistics.
#[derive(Clone, Debug, PartialEq, Eq)]
pub enum StatsError {
    /// Fewer than the 8 bytes of a session header.
    TooShort,
    /// The first four bytes, read little-endian, are not `HVWS`.
    BadMagic(u32),
}

/// The header fields of a session and how often each tag occurs.
#[derive(Clone, Debug)]
pub struct SessionStats {
    pub version: u16,
    pub section_count: u16,
    /// `tag_counts[t]` is how many counted sections carry tag `t`.
    pub tag_counts: Vec<u32>,
}

/// The tags counted from offset `off` on, at most `k` of them: a section
/// counts once its length has been read, even when its payload then runs
/// past the end, which stops the count.
pub open spec fn counted_tags(d: Seq<u8>, off: int, k: nat) -> Seq<u8>
    decreases k,
{
    if k == 0 || off < 0 || off + 2 > d.len() {
        Seq::empty()
    } else {
        match spec_decode_varint(tail_from(d, off + 2)) {
            None => Seq::empty(),
            Some((v, n)) => {
                let next = off + 2 + n + v;
                seq![d[off]] + if next > d.len() {
                    Seq::empty()
                } else {
                    counted_tags(d, next, (k - 1) as nat)
                }
            },
        }
    }
}

/// The tags a session's statistics count: up to the declared count, capped at 64.
pub open spec fn session_counted_tags(d: Seq<u8>) -> Seq<u8> {
    let declared = le_u16_at(d, 6);
    counted_tags(d, 8, if declared < 64 { declared as nat } else { 64 })
}

/// How often `t` occurs in `tags`.
pub open spec fn occurrences(tags: Seq<u8>, t: u8) -> nat
    decreases tags.len(),
{
    if tags.len() == 0 {
        0
    } else {
        occurrences(tags.drop_last(), t) + if tags.last() == t { 1nat } else { 0nat }
    }
}

proof fn lemma_counted_tags_step(d: Seq<u8>, off: int, k: nat, v: u64, n: nat)
    requires
        k > 0,
        0 <= off,
        off + 2 <= d.len(),
        spec_decode_varint(tail_from(d, off + 2)) == Some((v, n)),
    ensures
        off + 2 + n + v > d.len() ==> counted_tags(d, off, k) == seq![d[off]],
        off + 2 + n + v <= d.len() ==> counted_tags(d, off, k) == seq![d[off]]
            + counted_tags(d, off + 2 + n + v, (k - 1) as nat),
{
    assert(seq![d[off]] + Seq::<u8>::empty() =~= seq![d[off]]);
}

proof fn lemma_occurrences_le(tags: Seq<u8>, t: u8)
    ensures
        occurrences(tags, t) <= tags.len(),
    decreases tags.len(),
{
    if tags.len() > 0 {
        lemma_occurrences_le(tags.drop_last(), t);
    }
}

/// Reads the header of a session and counts the tags of its sections.
pub fn tag_stats(data: &[u8]) -> (r: Result<SessionStats, StatsError>)
    ensures
        data@.len() < 8 ==> r == Err::<SessionStats, StatsError>(StatsError::TooShort),
        data@.len() >= 8 && le_u32_at(data@, 0) != HVWS_MAGIC ==> r == Err::<SessionStats, StatsError>(
            StatsError::BadMagic(le_u32_at(data@, 0)),
        ),
        data@.len() >= 8 && le_u32_at(data@, 0) == HVWS_MAGIC ==> (r matches Ok(s) && {
            &&& s.version == le_u16_at(data@, 4)
            &&& s.section_count == le_u16_at(data@, 6)
            &&& s.tag_counts@.len() == 256
            &&& forall|t: u8| #[trigger] s.tag_counts@[t as int]
                == occurrences(session_counted_tags(data@), t)
        }),
{
    if data.len() < 8 {
        return Err(StatsError::TooShort);
    }
    let magic = read_u32_le(data, 0);
    if magic != HVWS_MAGIC {
        return Err(StatsError::BadMagic(magic));
    }
    let version = read_u16_le(data, 4);
    let section_count = read_u16_le(data, 6);
    let limit: usize = if section_count < 64 { section_count as usize } else { 64 };
    let ghost all = session_counted_tags(data@);
    let mut tag_counts: Vec<u32> = Vec::new();
    let mut t: usize = 0;
    while t < 256
        invariant
            t <= 256,
            tag_counts@.len() == t,
            forall|j: int| 0 <= j < t ==> tag_counts@[j] == 0,
        decreases 256 - t,
    {
        tag_counts.push(0);
        t += 1;
    }
    let mut off: usize = 8;
    let mut i: usize = 0;
    let ghost done: Seq<u8> = Seq::empty();
    loop
        invariant_except_break
            data@.len() >= 8,
            limit == (if le_u16_at(data@, 6) < 64 { le_u16_at(data@, 6) as nat } else { 64 }),
            all == session_counted_tags(data@),
            i <= limit,
            done.len() == i,
            8 <= off <= data@.len(),
            all == done + counted_tags(data@, off as int, (limit - i) as nat),
            tag_counts@.len() == 256,
            forall|u: u8| #[trigger] tag_counts@[u as int] == occurrences(done, u),
        ensures
            tag_counts@.len() == 256,
            forall|u: u8| #[trigger] tag_counts@[u as int] == occurrences(all, u),
        decreases limit - i,
    {
        let ghost rest = counted_tags(data@, off as int, (limit - i) as nat);
        if i >= limit || data.len() - off < 2 {
            assert(all =~= done);
            break;
        }
        let tag = data[off];
        let mut len_off = off + 2;
        let decoded = decode_varint(data, &mut len_off);
        let v = match decoded {
            Some(v) => v,
            None => {
                assert(all =~= done);
                break;
            },
        };
        proof {
            lemma_counted_tags_step(data@, off as int, (limit - i) as nat, v, (len_off - (off + 2)) as nat);
            lemma_occurrences_le(done, tag);
            assert(done.push(tag).drop_last() =~= done);
        }
        let bumped = tag_counts[tag as usize] + 1;
        tag_counts.set(tag as usize, bumped);
        proof {
            assert forall|u: u8| #[trigger] tag_counts@[u as int] == occurrences(done.push(tag), u) by {
                if u != tag {
                    assert(tag_counts@[u as int] == occurrences(done, u));
                }
            }
            done = done.push(tag);
        }
        i += 1;
        if v > (data.len() - len_off) as u64 {
            assert(all =~= done);
            break;
        }
        off = len_off + v as usize;
        assert(all =~= done + counted_tags(data@, off as int, (limit - i) as nat));
    }
    Ok(SessionStats { version, section_count, tag_counts })
}

} // verus!
