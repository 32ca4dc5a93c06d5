//! HVWS session feeder - dispatches vent-observatory sections to subsystem handlers.
//!
//! A session is an 8-byte header (magic `HVWS`, version, section count)
//! followed by sections: tag, flags, a varint payload length and the
//! payload. At most 64 sections are read; reading stops quietly at the
//! first section that does not fit. Tags 0xA0 to 0xA7 carry extents,
//! 0xA8 to 0xAB phase windows and 0xAC to 0xB3 view commands; a section
//! whose handler fails ends the session with that failure.
//!
//! Tags 0x01 to 0x0C name domain processors that are not part of this
//! library; like unknown tags they are accepted and change nothing.

use vstd::prelude::*;
use vstd::slice::slice_subrange;
use crate::common::status::{Status, StatusMessage};
use crate::common::wire_reader::{le_u16_at, le_u32_at, read_u16_le, read_u32_le};
use crate::risk::consumers::{
    vent_decode_crust_index, vent_expand_plume_run, vent_parse_mineral_caps,
    vent_expand_sampler_slot_table, vent_read_sonar_refs, vent_decode_pressure_cast,
    vent_read_current_segment, vent_merge_catalog_chain, vent_apply_thermal_window,
    vent_apply_chemical_window, vent_apply_acoustic_window, vent_apply_actuator_window,
    vent_use_expedition_view, vent_use_plume_view, vent_use_chemistry_view, vent_use_sonar_view,
    vent_use_mooring_view, vent_use_organism_view, vent_use_beacon_view, vent_use_diagnostics_view,
    extent_block, window_bytes, view_command,
};
use crate::risk::ledger::{RiskSessionState, SlotView};
use crate::wire::frame::{HVWS_MAGIC, WireSession};
use crate::wire::varint::{decode_varint, spec_decode_varint, tail_from};

verus! {

/// Where a section sits in the session bytes.
pub struct SectionSpan {
    pub tag: u8,
    pub flags: u8,
    pub start: int,
    pub len: int,
}

/// The sections found from offset `off` on, reading at most `k` of them
/// and stopping at the first whose header, length or payload does not fit.
pub open spec fn sections_from(d: Seq<u8>, off: int, k: nat) -> Seq<SectionSpan>
    decreases k,
{
    if k == 0 || off < 0 || off + 2 > d.len() {
        Seq::empty()
    } else {
        match spec_decode_varint(tail_from(d, off + 2)) {
            None => Seq::empty(),
            Some((v, n)) => {
                let start = off + 2 + n;
                if start + v > d.len() {
                    Seq::empty()
                } else {
                    seq![SectionSpan { tag: d[off], flags: d[off + 1], start, len: v as int }]
                        + sections_from(d, start + v, (k - 1) as nat)
                }
            },
        }
    }
}

/// The sections of a session: none unless the header is complete and the
/// magic matches; otherwise up to the declared count, capped at 64.
pub open spec fn session_sections(d: Seq<u8>) -> Seq<SectionSpan> {
    if d.len() < 8 || le_u32_at(d, 0) != HVWS_MAGIC {
        Seq::empty()
    } else {
        let declared = le_u16_at(d, 6);
        sections_from(d, 8, if declared < 64 { declared as nat } else { 64 })
    }
}

/// The payload bytes of a section.
pub open spec fn payload_of(d: Seq<u8>, s: SectionSpan) -> Seq<u8> {
    d.subrange(s.start, s.start + s.len)
}

/// The scratch size of a window tag.
pub open spec fn window_cap(tag: u8) -> nat {
    if tag == 0xA8 { 64 } else if tag == 0xA9 { 56 } else if tag == 0xAA { 48 } else { 40 }
}

/// The description a handler gives when its payload is too short.
pub open spec fn truncation_detail(tag: u8) -> Seq<char> {
    if tag == 0xA0 { "crust index"@ }
    else if tag == 0xA1 { "plume run"@ }
    else if tag == 0xA2 { "mineral caps"@ }
    else if tag == 0xA3 { "sampler slot table"@ }
    else if tag == 0xA4 { "sonar refs"@ }
    else if tag == 0xA5 { "pressure cast"@ }
    else if tag == 0xA6 { "current segment"@ }
    else if tag == 0xA7 { "catalog chain"@ }
    else if tag == 0xA8 { "thermal window"@ }
    else if tag == 0xA9 { "chemical window"@ }
    else if tag == 0xAA { "acoustic window"@ }
    else { "actuator window"@ }
}

/// Whether the handler of a tag fails on a payload: extents need 12
/// bytes, windows 8; nothing else fails.
pub open spec fn dispatch_fails(tag: u8, p: Seq<u8>) -> bool {
    (0xA0 <= tag <= 0xA7 && p.len() < 12) || (0xA8 <= tag <= 0xAB && p.len() < 8)
}

/// What the handler of a tag appends to the session output.
pub open spec fn dispatch_output(tag: u8, p: Seq<u8>) -> Seq<u8> {
    if 0xA0 <= tag <= 0xA7 && p.len() >= 12 {
        extent_block(p)
    } else if 0xA8 <= tag <= 0xAB && p.len() >= 8 {
        window_bytes(p, window_cap(tag))
    } else {
        Seq::empty()
    }
}

/// What the handler of a tag does to the session's view slots.
pub open spec fn dispatch_slots(slots: Seq<SlotView>, tag: u8, flags: u8, p: Seq<u8>) -> Seq<SlotView> {
    if 0xAC <= tag <= 0xB3 {
        view_command(slots, tag - 0xAC, flags, p)
    } else {
        slots
    }
}

/// Tags 0xA8 to 0xAB go to the phase-window handlers, whose scratch holds
/// 64, 56, 48 and 40 bytes: the section fails exactly when its payload is
/// shorter than 8 bytes, and otherwise appends the wire bytes (from offset
/// 8) cyclically for the declared span (none before phase 2), capped at
/// the scratch size. Tags 0xA0 to 0xA7 go to the extent handlers and fail
/// exactly when the payload is shorter than 12 bytes. View tags 0xAC to
/// 0xB3 and all other tags never fail and append nothing.
pub proof fn law_dispatch_routes(tag: u8, p: Seq<u8>)
    ensures
        0xA8 <= tag <= 0xAB ==> (dispatch_fails(tag, p) <==> p.len() < 8),
        0xA8 <= tag <= 0xAB && p.len() >= 8 ==> ({
            let cap: int = 64 - 8 * (tag - 0xA8);
            let span: int = if p[4] < 2 { 0 } else { le_u32_at(p, 0) as int };
            let n = if span < cap { span } else { cap };
            &&& dispatch_output(tag, p).len() == n
            &&& forall|i: int| 0 <= i < n ==> #[trigger] dispatch_output(tag, p)[i]
                == if p.len() > 8 { p[8 + i % (p.len() - 8)] } else { 0u8 }
        }),
        0xA0 <= tag <= 0xA7 ==> (dispatch_fails(tag, p) <==> p.len() < 12),
        0xA0 <= tag <= 0xA7 && p.len() >= 12 ==> dispatch_output(tag, p) == extent_block(p),
        !(0xA0 <= tag <= 0xAB) ==> !dispatch_fails(tag, p) && dispatch_output(tag, p).len() == 0,
{
}

/// How many leading sections are handled without failure.
pub open spec fn handled_prefix(d: Seq<u8>, secs: Seq<SectionSpan>) -> nat
    decreases secs.len(),
{
    if secs.len() == 0 || dispatch_fails(secs[0].tag, payload_of(d, secs[0])) {
        0
    } else {
        1 + handled_prefix(d, secs.drop_first())
    }
}

/// The output appended by handling the sections of `secs`, in order.
pub open spec fn outputs_of(d: Seq<u8>, secs: Seq<SectionSpan>) -> Seq<u8>
    decreases secs.len(),
{
    if secs.len() == 0 {
        Seq::empty()
    } else {
        outputs_of(d, secs.drop_last()) + dispatch_output(secs.last().tag, payload_of(d, secs.last()))
    }
}

/// The view slots after handling the sections of `secs`, in order.
pub open spec fn slots_after(slots: Seq<SlotView>, d: Seq<u8>, secs: Seq<SectionSpan>) -> Seq<SlotView>
    decreases secs.len(),
{
    if secs.len() == 0 {
        slots
    } else {
        let s = secs.last();
        dispatch_slots(slots_after(slots, d, secs.drop_last()), s.tag, s.flags, payload_of(d, s))
    }
}

/// The sections of a session that get handled: those before the first failure.
pub open spec fn handled_sections(d: Seq<u8>) -> Seq<SectionSpan> {
    session_sections(d).take(handled_prefix(d, session_sections(d)) as int)
}

/// Whether some section of the session fails.
pub open spec fn session_fails(d: Seq<u8>) -> bool {
    handled_prefix(d, session_sections(d)) < session_sections(d).len()
}

/// The tag of the section that fails, when one does.
pub open spec fn failing_tag(d: Seq<u8>) -> u8 {
    session_sections(d)[handled_prefix(d, session_sections(d)) as int].tag
}

proof fn lemma_handled_prefix_step(d: Seq<u8>, secs: Seq<SectionSpan>, i: nat)
    requires
        i < secs.len(),
        handled_prefix(d, secs) >= i,
    ensures
        dispatch_fails(secs[i as int].tag, payload_of(d, secs[i as int])) ==> handled_prefix(d, secs) == i,
        !dispatch_fails(secs[i as int].tag, payload_of(d, secs[i as int])) ==> handled_prefix(d, secs) >= i + 1,
    decreases i,
{
    if i > 0 {
        lemma_handled_prefix_step(d, secs.drop_first(), (i - 1) as nat);
        assert(secs.drop_first()[i - 1] == secs[i as int]);
    }
}

proof fn lemma_sections_step(d: Seq<u8>, off: int, k: nat, v: u64, n: nat)
    requires
        k > 0,
        0 <= off,
        off + 2 <= d.len(),
        spec_decode_varint(tail_from(d, off + 2)) == Some((v, n)),
        off + 2 + n + v <= d.len(),
    ensures
        sections_from(d, off, k) == seq![SectionSpan { tag: d[off], flags: d[off + 1], start: off + 2 + n, len: v as int }]
            + sections_from(d, off + 2 + n + v, (k - 1) as nat),
{
}

proof fn lemma_sections_from_len(d: Seq<u8>, off: int, k: nat)
    ensures
        sections_from(d, off, k).len() <= k,
    decreases k,
{
    if k > 0 && 0 <= off && off + 2 <= d.len() {
        if let Some((v, n)) = spec_decode_varint(tail_from(d, off + 2)) {
            lemma_sections_from_len(d, off + 2 + n + v, (k - 1) as nat);
        }
    }
}

proof fn lemma_handled_prefix_le(d: Seq<u8>, secs: Seq<SectionSpan>)
    ensures
        handled_prefix(d, secs) <= secs.len(),
    decreases secs.len(),
{
    if secs.len() > 0 {
        lemma_handled_prefix_le(d, secs.drop_first());
    }
}

/// Input that is not an HVWS session (shorter than its header, or with
/// another magic number) has no sections, so feeding it never fails and
/// changes nothing.
pub proof fn law_foreign_input_accepted(d: Seq<u8>)
    requires
        d.len() < 8 || le_u32_at(d, 0) != HVWS_MAGIC,
    ensures
        session_sections(d).len() == 0,
        !session_fails(d),
        handled_sections(d).len() == 0,
{
}

/// A session never yields more sections than it declares, nor more than 64.
pub proof fn law_section_cap(d: Seq<u8>)
    ensures
        session_sections(d).len() <= 64,
        d.len() >= 8 ==> session_sections(d).len() <= le_u16_at(d, 6),
{
    if d.len() >= 8 && le_u32_at(d, 0) == HVWS_MAGIC {
        let declared = le_u16_at(d, 6);
        lemma_sections_from_len(d, 8, if declared < 64 { declared as nat } else { 64 });
    }
}

/// Every section of a session lies within the session's bytes, after its
/// header, and the sections follow one another in order.
pub proof fn law_sections_in_bounds(d: Seq<u8>)
    ensures
        forall|i: int| 0 <= i < session_sections(d).len() ==> {
            let s = #[trigger] session_sections(d)[i];
            8 + 3 <= s.start && s.start + s.len <= d.len()
        },
        forall|i: int| 0 < i < session_sections(d).len() ==>
            session_sections(d)[i - 1].start + session_sections(d)[i - 1].len + 3
                <= #[trigger] session_sections(d)[i].start,
{
    if d.len() >= 8 && le_u32_at(d, 0) == HVWS_MAGIC {
        let declared = le_u16_at(d, 6);
        lemma_sections_from_bounds(d, 8, if declared < 64 { declared as nat } else { 64 });
    }
}

proof fn lemma_decode_len_positive(s: Seq<u8>)
    ensures
        spec_decode_varint(s) matches Some((v, n)) ==> 1 <= n <= s.len(),
{
    if let Some((v, n)) = spec_decode_varint(s) {
        lemma_varint_end_range(s, 0);
    }
}

proof fn lemma_varint_end_range(s: Seq<u8>, j: nat)
    ensures
        crate::wire::varint::varint_end(s, j) matches Some(n) ==> j + 1 <= n <= s.len(),
    decreases 10 - j,
{
    if j < 10 && j < s.len() && s[j as int] >= 128 {
        lemma_varint_end_range(s, j + 1);
    }
}

proof fn lemma_sections_from_bounds(d: Seq<u8>, off: int, k: nat)
    requires
        off >= 8,
    ensures
        forall|i: int| 0 <= i < sections_from(d, off, k).len() ==> {
            let s = #[trigger] sections_from(d, off, k)[i];
            off + 3 <= s.start && s.start + s.len <= d.len()
        },
        forall|i: int| 0 < i < sections_from(d, off, k).len() ==>
            sections_from(d, off, k)[i - 1].start + sections_from(d, off, k)[i - 1].len + 3
                <= #[trigger] sections_from(d, off, k)[i].start,
    decreases k,
{
    if k > 0 && off + 2 <= d.len() {
        let t = tail_from(d, off + 2);
        lemma_decode_len_positive(t);
        if let Some((v, n)) = spec_decode_varint(t) {
            let start = off + 2 + n;
            if start + v <= d.len() {
                let next = start + v;
                lemma_sections_from_bounds(d, next, (k - 1) as nat);
                let rest = sections_from(d, next, (k - 1) as nat);
                let all = sections_from(d, off, k);
                assert forall|i: int| 0 < i < all.len() implies
                    all[i - 1].start + all[i - 1].len + 3 <= #[trigger] all[i].start by {
                    assert(all[i] == rest[i - 1]);
                    if i > 1 {
                        assert(all[i - 1] == rest[i - 2]);
                    }
                }
                assert forall|i: int| 0 <= i < all.len() implies {
                    let s = #[trigger] all[i];
                    off + 3 <= s.start && s.start + s.len <= d.len()
                } by {
                    if i > 0 {
                        assert(all[i] == rest[i - 1]);
                    }
                }
            }
        }
    }
}

pub struct SessionFeeder;

impl SessionFeeder {
    /// Feeds one session, with fresh view slots whose state is dropped
    /// afterwards. Returns the failure of the first section whose
    /// handler fails, else success; input that is not a session (too
    /// short, or the wrong magic) is accepted as is.
    pub fn push(data: &[u8]) -> (st: StatusMessage)
        ensures
            session_fails(data@) ==> st.code == Status::Truncated
                && st.detail@ == truncation_detail(failing_tag(data@)),
            !session_fails(data@) ==> st.code == Status::Success && st.detail@ == "ok"@,
    {
        let mut session = WireSession::default();
        let mut state = RiskSessionState::default();
        proof {
            lemma_sections_from_len(data@, 8, 64);
            if data@.len() >= 8 && le_u32_at(data@, 0) == HVWS_MAGIC {
                let declared = le_u16_at(data@, 6);
                lemma_sections_from_len(data@, 8, if declared < 64 { declared as nat } else { 64 });
            }
        }
        Self::feed(data, &mut session, &mut state)
    }

    /// Feeds one session into `session` and the view slots of `state`:
    /// each handled section appends its output, updates the slots and
    /// counts as seen; the first failing section ends the feed with its
    /// failure.
    pub fn feed(data: &[u8], session: &mut WireSession, state: &mut RiskSessionState) -> (st: StatusMessage)
        requires
            old(state).slots@.len() >= 8,
            old(session).sections_seen + session_sections(data@).len() <= u32::MAX,
        ensures
            session_fails(data@) ==> st.code == Status::Truncated
                && st.detail@ == truncation_detail(failing_tag(data@)),
            !session_fails(data@) ==> st.code == Status::Success && st.detail@ == "ok"@,
            final(session).output@ == old(session).output@ + outputs_of(data@, handled_sections(data@)),
            final(session).sections_seen == old(session).sections_seen + handled_sections(data@).len(),
            final(state)@ == slots_after(old(state)@, data@, handled_sections(data@)),
    {
        let ghost secs = session_sections(data@);
        proof {
            lemma_handled_prefix_le(data@, secs);
        }
        if data.len() < 8 {
            return StatusMessage::ok();
        }
        let magic = read_u32_le(data, 0);
        if magic != HVWS_MAGIC {
            return StatusMessage::ok();
        }
        let declared = read_u16_le(data, 6) as usize;
        let limit = if declared < 64 { declared } else { 64 };
        let mut off: usize = 8;
        let mut i: usize = 0;
        loop
            invariant_except_break
                secs == session_sections(data@),
                data@.len() >= 8,
                le_u32_at(data@, 0) == HVWS_MAGIC,
                limit == (if le_u16_at(data@, 6) < 64 { le_u16_at(data@, 6) as nat } else { 64 }),
                i <= limit,
                8 <= off <= data@.len(),
                secs == secs.take(i as int) + sections_from(data@, off as int, (limit - i) as nat),
                handled_prefix(data@, secs) >= i,
                handled_prefix(data@, secs) <= secs.len(),
                state.slots@.len() >= 8,
                old(session).sections_seen + secs.len() <= u32::MAX,
                session.output@ == old(session).output@ + outputs_of(data@, secs.take(i as int)),
                session.sections_seen == old(session).sections_seen + i,
                state@ == slots_after(old(state)@, data@, secs.take(i as int)),
            ensures
                session.output@ == old(session).output@ + outputs_of(data@, secs.take(i as int)),
                session.sections_seen == old(session).sections_seen + i,
                state@ == slots_after(old(state)@, data@, secs.take(i as int)),
                handled_prefix(data@, secs) == i,
                secs.len() == i,
            decreases limit - i,
        {
            let ghost rest = sections_from(data@, off as int, (limit - i) as nat);
            if i >= limit {
                assert(rest =~= Seq::<SectionSpan>::empty());
                assert(secs =~= secs.take(i as int));
                break;
            }
            if data.len() - off < 2 {
                assert(rest =~= Seq::<SectionSpan>::empty());
                assert(secs =~= secs.take(i as int));
                break;
            }
            let tag = data[off];
            let flags = data[off + 1];
            let mut len_off = off + 2;
            let decoded = decode_varint(data, &mut len_off);
            let v = match decoded {
                Some(v) => v,
                None => {
                    assert(rest =~= Seq::<SectionSpan>::empty());
                    assert(secs =~= secs.take(i as int));
                    break;
                },
            };
            if v > (data.len() - len_off) as u64 {
                assert(rest =~= Seq::<SectionSpan>::empty());
                assert(secs =~= secs.take(i as int));
                break;
            }
            assert(v <= data.len() - len_off);
            assert(len_off >= off + 2);
            proof {
                lemma_sections_step(data@, off as int, (limit - i) as nat, v, (len_off - (off + 2)) as nat);
            }
            let payload_len = v as usize;
            let start = len_off;
            let end = start + payload_len;
            let payload = slice_subrange(data, start, end);
            let ghost span = SectionSpan { tag, flags, start: start as int, len: payload_len as int };
            proof {
                assert(secs.take(i as int).len() == i);
                assert(rest[0] == span);
                assert((secs.take(i as int) + rest)[i as int] == rest[0]);
                assert(secs[i as int] == span);
                assert(payload@ == payload_of(data@, span));
                lemma_handled_prefix_step(data@, secs, i as nat);
            }
            let st = Self::dispatch_section(tag, flags, payload, session, state);
            if !st.is_ok() {
                proof {
                    assert(handled_prefix(data@, secs) == i);
                }
                assert(handled_sections(data@) =~= secs.take(i as int));
                return st;
            }
            proof {
                assert(secs.take(i + 1).drop_last() =~= secs.take(i as int));
                assert(secs.take(i + 1).last() == span);
                assert(secs =~= secs.take(i + 1) + sections_from(data@, end as int, (limit - (i + 1)) as nat));
            }
            session.sections_seen += 1;
            off = end;
            i += 1;
        }
        proof {
            assert(handled_sections(data@) =~= secs.take(i as int));
        }
        StatusMessage::ok()
    }

    /// Hands one section to the handler of its tag.
    fn dispatch_section(
        tag: u8,
        flags: u8,
        payload: &[u8],
        session: &mut WireSession,
        state: &mut RiskSessionState,
    ) -> (st: StatusMessage)
        requires
            old(state).slots@.len() >= 8,
        ensures
            dispatch_fails(tag, payload@) ==> st.code == Status::Truncated
                && st.detail@ == truncation_detail(tag)
                && final(session).output@ == old(session).output@,
            !dispatch_fails(tag, payload@) ==> st.code == Status::Success && st.detail@ == "ok"@
                && final(session).output@ == old(session).output@ + dispatch_output(tag, payload@),
            final(session).sections_seen == old(session).sections_seen,
            final(state)@ == dispatch_slots(old(state)@, tag, flags, payload@),
            final(state).slots@.len() == old(state).slots@.len(),
    {
        let out = &mut session.output;
        match tag {
            0xA0 => vent_decode_crust_index(payload, out),
            0xA1 => vent_expand_plume_run(payload, out),
            0xA2 => vent_parse_mineral_caps(payload, out),
            0xA3 => vent_expand_sampler_slot_table(payload, out),
            0xA4 => vent_read_sonar_refs(payload, out),
            0xA5 => vent_decode_pressure_cast(payload, out),
            0xA6 => vent_read_current_segment(payload, out),
            0xA7 => vent_merge_catalog_chain(payload, out),
            0xA8 => vent_apply_thermal_window(payload, out),
            0xA9 => vent_apply_chemical_window(payload, out),
            0xAA => vent_apply_acoustic_window(payload, out),
            0xAB => vent_apply_actuator_window(payload, out),
            0xAC => vent_use_expedition_view(state, flags, payload),
            0xAD => vent_use_plume_view(state, flags, payload),
            0xAE => vent_use_chemistry_view(state, flags, payload),
            0xAF => vent_use_sonar_view(state, flags, payload),
            0xB0 => vent_use_mooring_view(state, flags, payload),
            0xB1 => vent_use_organism_view(state, flags, payload),
            0xB2 => vent_use_beacon_view(state, flags, payload),
            0xB3 => vent_use_diagnostics_view(state, flags, payload),
            _ => StatusMessage::ok(),
        }
    }
}

} // verus!
