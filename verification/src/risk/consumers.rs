//! Wire consumers for extent batches, phase windows, and cached views.
//!
//! An extent payload is a 12-byte header (rows, width, flags) followed by
//! wire bytes; it decodes into a zero-filled block of the validated
//! budget, into which the wire bytes are copied. A window payload is a
//! declared span (`u32`), a phase byte at 4 and wire bytes from 8 on; it
//! yields the wire bytes repeated cyclically, up to a fixed scratch size.
//! View payloads stage, rebuild or probe one of the session's slots.

use vstd::prelude::*;
use crate::common::buffer::ByteBuffer;
use crate::common::status::{Status, StatusMessage};
use crate::common::wire_reader::{le_u32_at, spec_read_u32};
use crate::risk::budget::{
    risk_rebuild_slot, risk_stage_slot, validated_acoustic_window, validated_actuator_window,
    validated_catalog_budget, validated_chemical_window, validated_crust_budget,
    validated_current_budget, validated_mineral_budget, validated_plume_budget,
    validated_pressure_budget, validated_sampler_budget, validated_sonar_budget,
    validated_thermal_window, extent_lanes, spec_extent_budget, spec_window_span, stage_model,
    rebuild_model,
};
use crate::risk::ledger::{RiskSessionState, RiskViewSlot, SlotView};
use crate::wire::varint::read_u32_le;

verus! {

/// The full extent of a header: rows times width times lanes, exactly.
pub open spec fn spec_full_extent(rows: u32, width: u32, flags: u32) -> int {
    rows * width * extent_lanes(flags)
}

/// The block an extent payload (of at least 12 bytes) decodes into: the
/// budget's worth of bytes, of which the first are copied from the wire
/// (as many as the full extent, the wire and the budget all allow) and
/// the rest are zero.
pub open spec fn extent_block(d: Seq<u8>) -> Seq<u8> {
    let rows = le_u32_at(d, 0);
    let width = le_u32_at(d, 4);
    let flags = le_u32_at(d, 8);
    let tail = d.len() - 12;
    let budget = spec_extent_budget(rows, width, flags, tail as usize) as int;
    let extent = spec_full_extent(rows, width, flags);
    let wanted = if extent < tail { extent } else { tail };
    let copied = if extent > 0 && tail > 0 {
        if wanted < budget { wanted } else { budget }
    } else {
        0
    };
    d.subrange(12, 12 + copied) + Seq::new((budget - copied) as nat, |i: int| 0u8)
}

/// The bytes a window payload (of at least 8 bytes) yields with a scratch
/// of `cap` bytes: the wire bytes from offset 8, repeated cyclically, for
/// the span (capped at `cap`); zeros when the wire holds no bytes.
pub open spec fn window_bytes(d: Seq<u8>, cap: nat) -> Seq<u8> {
    let span = spec_window_span(le_u32_at(d, 0), d[4]) as int;
    let wire = d.len() - 8;
    let n = if span < cap { span } else { cap as int };
    Seq::new(n as nat, |i: int| if wire > 0 { d[8 + i % wire] } else { 0u8 })
}

/// What probing byte `idx` of a slot's view reads: the byte when the view
/// covers it and the store still holds it, else 0.
pub open spec fn probe_value(s: SlotView, idx: int) -> u8 {
    if s.has_view && idx < s.len && idx < s.storage.len() { s.storage[idx] } else { 0 }
}

/// Slots after a view command on slot `k`: flags 0 stage the payload,
/// flags 1 rebuild with the payload's first byte (0 if none) as mode;
/// other flags only probe and change nothing.
pub open spec fn view_command(slots: Seq<SlotView>, k: int, flags: u8, data: Seq<u8>) -> Seq<SlotView> {
    if flags == 0 {
        stage_model(slots, k, data)
    } else if flags == 1 {
        rebuild_model(slots, k, if data.len() > 0 { data[0] } else { 0 })
    } else {
        slots
    }
}

/// An extent payload always decodes into exactly its budget's worth of
/// bytes, and the bytes it copies are the wire bytes after the header.
pub proof fn law_extent_block_shape(d: Seq<u8>)
    requires
        d.len() >= 12,
    ensures
        extent_block(d).len() == spec_extent_budget(
            le_u32_at(d, 0),
            le_u32_at(d, 4),
            le_u32_at(d, 8),
            (d.len() - 12) as usize,
        ),
        forall|i: int| 0 <= i < extent_block(d).len() ==>
            #[trigger] extent_block(d)[i] == 0 || (12 + i < d.len() && extent_block(d)[i] == d[12 + i]),
{
    let b = extent_block(d);
    assert forall|i: int| 0 <= i < b.len() implies
        #[trigger] b[i] == 0 || (12 + i < d.len() && b[i] == d[12 + i]) by {
    }
}

/// A window never yields more bytes than its scratch holds, nor more
/// than its span; before phase 2 it yields nothing.
pub proof fn law_window_bounds(d: Seq<u8>, cap: nat)
    requires
        d.len() >= 8,
    ensures
        window_bytes(d, cap).len() <= cap,
        window_bytes(d, cap).len() <= spec_window_span(le_u32_at(d, 0), d[4]),
        d[4] < 2 ==> window_bytes(d, cap).len() == 0,
{
}

/// A window's bytes are the wire bytes after the 8-byte header taken in
/// order from the first, wrapping round to the first again: byte `i` is
/// the wire byte at `i` modulo the wire length. There are as many as the
/// declared span (none before phase 2), but no more than the scratch
/// holds; with no wire bytes they are all zero.
pub proof fn law_window_cyclic(d: Seq<u8>, cap: nat)
    requires
        d.len() >= 8,
    ensures
        ({
            let span: int = if d[4] < 2 { 0 } else { le_u32_at(d, 0) as int };
            window_bytes(d, cap).len() == (if span < cap { span } else { cap as int })
        }),
        d.len() > 8 ==> forall|i: int| 0 <= i < window_bytes(d, cap).len()
            ==> #[trigger] window_bytes(d, cap)[i] == d[8 + i % (d.len() - 8)],
        d.len() > 8 && window_bytes(d, cap).len() > 0 ==> window_bytes(d, cap)[0] == d[8],
        d.len() == 8 ==> forall|i: int| 0 <= i < window_bytes(d, cap).len()
            ==> #[trigger] window_bytes(d, cap)[i] == 0,
{
    if d.len() > 8 && window_bytes(d, cap).len() > 0 {
        assert(0int % (d.len() - 8) == 0);
    }
}

/// Staging bytes into a slot cuts a view that reads back exactly those
/// bytes, until the slot is rebuilt.
pub proof fn law_stage_then_probe(slots: Seq<SlotView>, k: int, data: Seq<u8>, idx: int)
    requires
        0 <= k < slots.len(),
        0 <= idx < data.len() <= usize::MAX,
    ensures
        probe_value(stage_model(slots, k, data)[k], idx) == data[idx],
        stage_model(slots, k, data).len() == slots.len(),
{
}

/// Rebuilding a slot keeps a prefix of its store of at most three bytes
/// and leaves the view record and the other slots as they were.
pub proof fn law_rebuild_keeps_prefix(slots: Seq<SlotView>, k: int, mode: u8)
    requires
        0 <= k < slots.len(),
    ensures
        ({
            let after = rebuild_model(slots, k, mode);
            &&& after.len() == slots.len()
            &&& after[k].storage.len() <= 3
            &&& after[k].storage =~= slots[k].storage.take(after[k].storage.len() as int)
            &&& after[k].has_view == slots[k].has_view
            &&& after[k].len == slots[k].len
            &&& after[k].view_generation == slots[k].view_generation
            &&& forall|j: int| 0 <= j < slots.len() && j != k ==> after[j] == slots[j]
        }),
{
}

fn read_extent_header(data: &[u8]) -> (h: (u32, u32, u32))
    ensures
        h == (spec_read_u32(data@, 0), spec_read_u32(data@, 4), spec_read_u32(data@, 8)),
{
    (read_u32_le(data, 0), read_u32_le(data, 4), read_u32_le(data, 8))
}

fn full_extent(rows: u32, width: u32, flags: u32) -> (e: u128)
    ensures
        e == spec_full_extent(rows, width, flags),
{
    let lanes = 1u128 + ((flags >> 28u32) & 0x0f) as u128;
    assert((flags >> 28u32) & 0x0f <= 0x0f) by (bit_vector);
    assert((rows as int) * (width as int) <= 0xffff_ffff * 0xffff_ffff) by (nonlinear_arith)
        requires rows <= 0xffff_ffff, width <= 0xffff_ffff;
    let rw = (rows as u128) * (width as u128);
    assert(rw * lanes <= 0xffff_ffff * 0xffff_ffff * 16) by (nonlinear_arith)
        requires rw <= 0xffff_ffff * 0xffff_ffff, lanes <= 16;
    rw * lanes
}

fn finish_copy(decoded: &[u8], out: &mut ByteBuffer) -> (st: StatusMessage)
    ensures
        final(out)@ == old(out)@ + decoded@,
        st.code == Status::Success && st.detail@ == "ok"@,
{
    if decoded.len() != 0 {
        out.extend_from_slice(decoded);
    } else {
        assert(old(out)@ + decoded@ =~= old(out)@);
    }
    StatusMessage::ok()
}

/// Fills the block for an extent payload, given its budget.
fn fill_extent(data: &[u8], budget: usize) -> (block: Vec<u8>)
    requires
        data@.len() >= 12,
        budget == spec_extent_budget(
            le_u32_at(data@, 0),
            le_u32_at(data@, 4),
            le_u32_at(data@, 8),
            (data@.len() - 12) as usize,
        ),
    ensures
        block@ == extent_block(data@),
{
    let (rows, width, flags) = read_extent_header(data);
    let wire_tail = data.len() - 12;
    let extent = full_extent(rows, width, flags);
    let mut copied: usize = 0;
    if extent > 0 && wire_tail > 0 {
        let wanted = if extent < wire_tail as u128 { extent as usize } else { wire_tail };
        copied = if wanted < budget { wanted } else { budget };
    }
    let mut block: Vec<u8> = Vec::new();
    let mut i: usize = 0;
    while i < budget
        invariant
            data@.len() >= 12,
            copied <= budget,
            copied <= data@.len() - 12,
            i <= budget,
            block@ =~= (data@.subrange(12, 12 + copied) + Seq::new((budget - copied) as nat, |j: int| 0u8)).take(i as int),
        decreases budget - i,
    {
        if i < copied {
            assert(12 + i < data.len());
            block.push(data[12 + i]);
        } else {
            block.push(0);
        }
        i += 1;
    }
    block
}

/// Decodes an extent payload that holds its 12-byte header into `out`:
/// the budget's worth of bytes, the wire bytes first and zeros after.
/// It always succeeds; callers check the header's length first.
fn decode_extent(data: &[u8], out: &mut ByteBuffer, budget: usize) -> (st: StatusMessage)
    requires
        data@.len() >= 12,
        budget == spec_extent_budget(
            le_u32_at(data@, 0),
            le_u32_at(data@, 4),
            le_u32_at(data@, 8),
            (data@.len() - 12) as usize,
        ),
    ensures
        st.code == Status::Success && st.detail@ == "ok"@,
        final(out)@ == old(out)@ + extent_block(data@),
{
    let decoded = fill_extent(data, budget);
    finish_copy(decoded.as_slice(), out)
}

/// Decodes a crust-index extent.
pub fn vent_decode_crust_index(data: &[u8], out: &mut ByteBuffer) -> (st: StatusMessage)
    ensures
        data@.len() < 12 ==> st.code == Status::Truncated && st.detail@ == "crust index"@
            && final(out)@ == old(out)@,
        data@.len() >= 12 ==> st.code == Status::Success && st.detail@ == "ok"@
            && final(out)@ == old(out)@ + extent_block(data@),
{
    if data.len() < 12 {
        return StatusMessage::fail(Status::Truncated, "crust index");
    }
    let (rows, width, flags) = read_extent_header(data);
    let budget = validated_crust_budget(rows, width, flags, data.len() - 12);
    decode_extent(data, out, budget)
}


/// Expands a plume-run extent.
pub fn vent_expand_plume_run(data: &[u8], out: &mut ByteBuffer) -> (st: StatusMessage)
    ensures
        data@.len() < 12 ==> st.code == Status::Truncated && st.detail@ == "plume run"@
            && final(out)@ == old(out)@,
        data@.len() >= 12 ==> st.code == Status::Success && st.detail@ == "ok"@
            && final(out)@ == old(out)@ + extent_block(data@),
{
    if data.len() < 12 {
        return StatusMessage::fail(Status::Truncated, "plume run");
    }
    let (rows, width, flags) = read_extent_header(data);
    let budget = validated_plume_budget(rows, width, flags, data.len() - 12);
    decode_extent(data, out, budget)
}

/// Decodes a mineral-caps extent.
pub fn vent_parse_mineral_caps(data: &[u8], out: &mut ByteBuffer) -> (st: StatusMessage)
    ensures
        data@.len() < 12 ==> st.code == Status::Truncated && st.detail@ == "mineral caps"@
            && final(out)@ == old(out)@,
        data@.len() >= 12 ==> st.code == Status::Success && st.detail@ == "ok"@
            && final(out)@ == old(out)@ + extent_block(data@),
{
    if data.len() < 12 {
        return StatusMessage::fail(Status::Truncated, "mineral caps");
    }
    let (rows, width, flags) = read_extent_header(data);
    let budget = validated_mineral_budget(rows, width, flags, data.len() - 12);
    decode_extent(data, out, budget)
}

/// Expands a sampler slot-table extent.
pub fn vent_expand_sampler_slot_table(data: &[u8], out: &mut ByteBuffer) -> (st: StatusMessage)
    ensures
        data@.len() < 12 ==> st.code == Status::Truncated && st.detail@ == "sampler slot table"@
            && final(out)@ == old(out)@,
        data@.len() >= 12 ==> st.code == Status::Success && st.detail@ == "ok"@
            && final(out)@ == old(out)@ + extent_block(data@),
{
    if data.len() < 12 {
        return StatusMessage::fail(Status::Truncated, "sampler slot table");
    }
    let (rows, width, flags) = read_extent_header(data);
    let budget = validated_sampler_budget(rows, width, flags, data.len() - 12);
    decode_extent(data, out, budget)
}

/// Reads a sonar-refs extent.
pub fn vent_read_sonar_refs(data: &[u8], out: &mut ByteBuffer) -> (st: StatusMessage)
    ensures
        data@.len() < 12 ==> st.code == Status::Truncated && st.detail@ == "sonar refs"@
            && final(out)@ == old(out)@,
        data@.len() >= 12 ==> st.code == Status::Success && st.detail@ == "ok"@
            && final(out)@ == old(out)@ + extent_block(data@),
{
    if data.len() < 12 {
        return StatusMessage::fail(Status::Truncated, "sonar refs");
    }
    let (rows, width, flags) = read_extent_header(data);
    let budget = validated_sonar_budget(rows, width, flags, data.len() - 12);
    decode_extent(data, out, budget)
}

/// Decodes a pressure-cast extent.
pub fn vent_decode_pressure_cast(data: &[u8], out: &mut ByteBuffer) -> (st: StatusMessage)
    ensures
        data@.len() < 12 ==> st.code == Status::Truncated && st.detail@ == "pressure cast"@
            && final(out)@ == old(out)@,
        data@.len() >= 12 ==> st.code == Status::Success && st.detail@ == "ok"@
            && final(out)@ == old(out)@ + extent_block(data@),
{
    if data.len() < 12 {
        return StatusMessage::fail(Status::Truncated, "pressure cast");
    }
    let (rows, width, flags) = read_extent_header(data);
    let budget = validated_pressure_budget(rows, width, flags, data.len() - 12);
    decode_extent(data, out, budget)
}

/// Reads a current-segment extent.
pub fn vent_read_current_segment(data: &[u8], out: &mut ByteBuffer) -> (st: StatusMessage)
    ensures
        data@.len() < 12 ==> st.code == Status::Truncated && st.detail@ == "current segment"@
            && final(out)@ == old(out)@,
        data@.len() >= 12 ==> st.code == Status::Success && st.detail@ == "ok"@
            && final(out)@ == old(out)@ + extent_block(data@),
{
    if data.len() < 12 {
        return StatusMessage::fail(Status::Truncated, "current segment");
    }
    let (rows, width, flags) = read_extent_header(data);
    let budget = validated_current_budget(rows, width, flags, data.len() - 12);
    decode_extent(data, out, budget)
}

/// Merges a catalog-chain extent.
pub fn vent_merge_catalog_chain(data: &[u8], out: &mut ByteBuffer) -> (st: StatusMessage)
    ensures
        data@.len() < 12 ==> st.code == Status::Truncated && st.detail@ == "catalog chain"@
            && final(out)@ == old(out)@,
        data@.len() >= 12 ==> st.code == Status::Success && st.detail@ == "ok"@
            && final(out)@ == old(out)@ + extent_block(data@),
{
    if data.len() < 12 {
        return StatusMessage::fail(Status::Truncated, "catalog chain");
    }
    let (rows, width, flags) = read_extent_header(data);
    let budget = validated_catalog_budget(rows, width, flags, data.len() - 12);
    decode_extent(data, out, budget)
}

/// Appends the first `min(span, cap)` bytes of the window: the wire
/// bytes from offset 8, repeated cyclically, or zeros when there are none.
fn emit_window(data: &[u8], out: &mut ByteBuffer, span: usize, cap: usize)
    requires
        data@.len() >= 8,
        span == spec_window_span(le_u32_at(data@, 0), data@[4]),
    ensures
        final(out)@ == old(out)@ + window_bytes(data@, cap as nat),
{
    let wire_len = data.len() - 8;
    let n = if span < cap { span } else { cap };
    let ghost w = window_bytes(data@, cap as nat);
    let mut scratch: Vec<u8> = Vec::new();
    let mut i: usize = 0;
    while i < n
        invariant
            data@.len() >= 8,
            wire_len == data@.len() - 8,
            n == w.len(),
            w == window_bytes(data@, cap as nat),
            i <= n,
            scratch@ == w.take(i as int),
        decreases n - i,
    {
        let divisor = if wire_len > 0 { wire_len } else { 1 };
        assert(8 + i % divisor <= data.len());
        let idx = 8 + i % divisor;
        let byte = if idx < data.len() { data[idx] } else { 0 };
        scratch.push(byte);
        assert(scratch@ =~= w.take(i + 1));
        i += 1;
    }
    assert(w.take(n as int) =~= w);
    out.extend_from_slice(scratch.as_slice());
}

/// Applies a thermal window: emits the window's bytes, at most 64 of them.
pub fn vent_apply_thermal_window(data: &[u8], out: &mut ByteBuffer) -> (st: StatusMessage)
    ensures
        data@.len() < 8 ==> st.code == Status::Truncated && st.detail@ == "thermal window"@
            && final(out)@ == old(out)@,
        data@.len() >= 8 ==> st.code == Status::Success && st.detail@ == "ok"@
            && final(out)@ == old(out)@ + window_bytes(data@, 64),
{
    if data.len() < 8 {
        return StatusMessage::fail(Status::Truncated, "thermal window");
    }
    let declared = read_u32_le(data, 0);
    let phase = data[4];
    let wire_len = data.len() - 8;
    let span = validated_thermal_window(declared, phase, wire_len) as usize;
    emit_window(data, out, span, 64);
    StatusMessage::ok()
}

/// Applies a chemical window: emits the window's bytes, at most 56 of them.
pub fn vent_apply_chemical_window(data: &[u8], out: &mut ByteBuffer) -> (st: StatusMessage)
    ensures
        data@.len() < 8 ==> st.code == Status::Truncated && st.detail@ == "chemical window"@
            && final(out)@ == old(out)@,
        data@.len() >= 8 ==> st.code == Status::Success && st.detail@ == "ok"@
            && final(out)@ == old(out)@ + window_bytes(data@, 56),
{
    if data.len() < 8 {
        return StatusMessage::fail(Status::Truncated, "chemical window");
    }
    let declared = read_u32_le(data, 0);
    let phase = data[4];
    let wire_len = data.len() - 8;
    let span = validated_chemical_window(declared, phase, wire_len) as usize;
    emit_window(data, out, span, 56);
    StatusMessage::ok()
}

/// Applies a acoustic window: emits the window's bytes, at most 48 of them.
pub fn vent_apply_acoustic_window(data: &[u8], out: &mut ByteBuffer) -> (st: StatusMessage)
    ensures
        data@.len() < 8 ==> st.code == Status::Truncated && st.detail@ == "acoustic window"@
            && final(out)@ == old(out)@,
        data@.len() >= 8 ==> st.code == Status::Success && st.detail@ == "ok"@
            && final(out)@ == old(out)@ + window_bytes(data@, 48),
{
    if data.len() < 8 {
        return StatusMessage::fail(Status::Truncated, "acoustic window");
    }
    let declared = read_u32_le(data, 0);
    let phase = data[4];
    let wire_len = data.len() - 8;
    let span = validated_acoustic_window(declared, phase, wire_len) as usize;
    emit_window(data, out, span, 48);
    StatusMessage::ok()
}

/// Applies a actuator window: emits the window's bytes, at most 40 of them.
pub fn vent_apply_actuator_window(data: &[u8], out: &mut ByteBuffer) -> (st: StatusMessage)
    ensures
        data@.len() < 8 ==> st.code == Status::Truncated && st.detail@ == "actuator window"@
            && final(out)@ == old(out)@,
        data@.len() >= 8 ==> st.code == Status::Success && st.detail@ == "ok"@
            && final(out)@ == old(out)@ + window_bytes(data@, 40),
{
    if data.len() < 8 {
        return StatusMessage::fail(Status::Truncated, "actuator window");
    }
    let declared = read_u32_le(data, 0);
    let phase = data[4];
    let wire_len = data.len() - 8;
    let span = validated_actuator_window(declared, phase, wire_len) as usize;
    emit_window(data, out, span, 40);
    StatusMessage::ok()
}

fn probe_expedition_view(entry: &RiskViewSlot) -> (b: u8)
    ensures
        b == (if entry.len >= 1 { probe_value(entry@, entry.len - 1) } else { 0 }),
{
    if !entry.has_view || entry.len < 1 {
        return 0;
    }
    let idx = entry.len - 1;
    if idx < entry.storage.len() { entry.storage[idx] } else { 0 }
}

fn probe_plume_view(entry: &RiskViewSlot) -> (b: u8)
    ensures
        b == probe_value(entry@, 0),
{
    if !entry.has_view || entry.len < 1 {
        return 0;
    }
    if 0 < entry.storage.len() { entry.storage[0] } else { 0 }
}

fn probe_chemistry_view(entry: &RiskViewSlot) -> (b: u8)
    ensures
        b == probe_value(entry@, 1),
{
    if !entry.has_view || entry.len < 2 {
        return 0;
    }
    if 1 < entry.storage.len() { entry.storage[1] } else { 0 }
}

fn probe_sonar_view(entry: &RiskViewSlot) -> (b: u8)
    ensures
        b == probe_value(entry@, 2),
{
    if !entry.has_view || entry.len < 3 {
        return 0;
    }
    if 2 < entry.storage.len() { entry.storage[2] } else { 0 }
}

fn probe_mooring_view(entry: &RiskViewSlot) -> (b: u8)
    ensures
        b == probe_value(entry@, 3),
{
    if !entry.has_view || entry.len < 4 {
        return 0;
    }
    if 3 < entry.storage.len() { entry.storage[3] } else { 0 }
}

fn probe_organism_view(entry: &RiskViewSlot) -> (b: u8)
    ensures
        b == probe_value(entry@, 4),
{
    if !entry.has_view || entry.len < 5 {
        return 0;
    }
    if 4 < entry.storage.len() { entry.storage[4] } else { 0 }
}

fn probe_beacon_view(entry: &RiskViewSlot) -> (b: u8)
    ensures
        b == probe_value(entry@, 5),
{
    if !entry.has_view || entry.len < 6 {
        return 0;
    }
    if 5 < entry.storage.len() { entry.storage[5] } else { 0 }
}

fn probe_diagnostics_view(entry: &RiskViewSlot) -> (b: u8)
    ensures
        b == probe_value(entry@, 6),
{
    if !entry.has_view || entry.len < 7 {
        return 0;
    }
    if 6 < entry.storage.len() { entry.storage[6] } else { 0 }
}

/// Runs a view command on the expedition slot (slot 0): flags 0 stage the
/// payload, flags 1 rebuild with the payload's first byte as mode, other
/// flags probe the view and change nothing.
pub fn vent_use_expedition_view(state: &mut RiskSessionState, flags: u8, data: &[u8]) -> (st: StatusMessage)
    requires
        flags >= 2 ==> old(state).slots@.len() > 0,
    ensures
        final(state).slots@.len() == old(state).slots@.len(),
        final(state)@ == view_command(old(state)@, 0, flags, data@),
        st.code == Status::Success && st.detail@ == "ok"@,
{
    if flags == 0 {
        risk_stage_slot(state, 0, data);
    } else if flags == 1 {
        let mode = if data.len() > 0 { data[0] } else { 0 };
        risk_rebuild_slot(state, 0, mode);
    } else {
        let _ = probe_expedition_view(&state.slots[0]);
    }
    StatusMessage::ok()
}

/// Runs a view command on the plume slot (slot 1): flags 0 stage the
/// payload, flags 1 rebuild with the payload's first byte as mode, other
/// flags probe the view and change nothing.
pub fn vent_use_plume_view(state: &mut RiskSessionState, flags: u8, data: &[u8]) -> (st: StatusMessage)
    requires
        flags >= 2 ==> old(state).slots@.len() > 1,
    ensures
        final(state).slots@.len() == old(state).slots@.len(),
        final(state)@ == view_command(old(state)@, 1, flags, data@),
        st.code == Status::Success && st.detail@ == "ok"@,
{
    if flags == 0 {
        risk_stage_slot(state, 1, data);
    } else if flags == 1 {
        let mode = if data.len() > 0 { data[0] } else { 0 };
        risk_rebuild_slot(state, 1, mode);
    } else {
        let _ = probe_plume_view(&state.slots[1]);
    }
    StatusMessage::ok()
}

/// Runs a view command on the chemistry slot (slot 2): flags 0 stage the
/// payload, flags 1 rebuild with the payload's first byte as mode, other
/// flags probe the view and change nothing.
pub fn vent_use_chemistry_view(state: &mut RiskSessionState, flags: u8, data: &[u8]) -> (st: StatusMessage)
    requires
        flags >= 2 ==> old(state).slots@.len() > 2,
    ensures
        final(state).slots@.len() == old(state).slots@.len(),
        final(state)@ == view_command(old(state)@, 2, flags, data@),
        st.code == Status::Success && st.detail@ == "ok"@,
{
    if flags == 0 {
        risk_stage_slot(state, 2, data);
    } else if flags == 1 {
        let mode = if data.len() > 0 { data[0] } else { 0 };
        risk_rebuild_slot(state, 2, mode);
    } else {
        let _ = probe_chemistry_view(&state.slots[2]);
    }
    StatusMessage::ok()
}

/// Runs a view command on the sonar slot (slot 3): flags 0 stage the
/// payload, flags 1 rebuild with the payload's first byte as mode, other
/// flags probe the view and change nothing.
pub fn vent_use_sonar_view(state: &mut RiskSessionState, flags: u8, data: &[u8]) -> (st: StatusMessage)
    requires
        flags >= 2 ==> old(state).slots@.len() > 3,
    ensures
        final(state).slots@.len() == old(state).slots@.len(),
        final(state)@ == view_command(old(state)@, 3, flags, data@),
        st.code == Status::Success && st.detail@ == "ok"@,
{
    if flags == 0 {
        risk_stage_slot(state, 3, data);
    } else if flags == 1 {
        let mode = if data.len() > 0 { data[0] } else { 0 };
        risk_rebuild_slot(state, 3, mode);
    } else {
        let _ = probe_sonar_view(&state.slots[3]);
    }
    StatusMessage::ok()
}

/// Runs a view command on the mooring slot (slot 4): flags 0 stage the
/// payload, flags 1 rebuild with the payload's first byte as mode, other
/// flags probe the view and change nothing.
pub fn vent_use_mooring_view(state: &mut RiskSessionState, flags: u8, data: &[u8]) -> (st: StatusMessage)
    requires
        flags >= 2 ==> old(state).slots@.len() > 4,
    ensures
        final(state).slots@.len() == old(state).slots@.len(),
        final(state)@ == view_command(old(state)@, 4, flags, data@),
        st.code == Status::Success && st.detail@ == "ok"@,
{
    if flags == 0 {
        risk_stage_slot(state, 4, data);
    } else if flags == 1 {
        let mode = if data.len() > 0 { data[0] } else { 0 };
        risk_rebuild_slot(state, 4, mode);
    } else {
        let _ = probe_mooring_view(&state.slots[4]);
    }
    StatusMessage::ok()
}

/// Runs a view command on the organism slot (slot 5): flags 0 stage the
/// payload, flags 1 rebuild with the payload's first byte as mode, other
/// flags probe the view and change nothing.
pub fn vent_use_organism_view(state: &mut RiskSessionState, flags: u8, data: &[u8]) -> (st: StatusMessage)
    requires
        flags >= 2 ==> old(state).slots@.len() > 5,
    ensures
        final(state).slots@.len() == old(state).slots@.len(),
        final(state)@ == view_command(old(state)@, 5, flags, data@),
        st.code == Status::Success && st.detail@ == "ok"@,
{
    if flags == 0 {
        risk_stage_slot(state, 5, data);
    } else if flags == 1 {
        let mode = if data.len() > 0 { data[0] } else { 0 };
        risk_rebuild_slot(state, 5, mode);
    } else {
        let _ = probe_organism_view(&state.slots[5]);
    }
    StatusMessage::ok()
}

/// Runs a view command on the beacon slot (slot 6): flags 0 stage the
/// payload, flags 1 rebuild with the payload's first byte as mode, other
/// flags probe the view and change nothing.
pub fn vent_use_beacon_view(state: &mut RiskSessionState, flags: u8, data: &[u8]) -> (st: StatusMessage)
    requires
        flags >= 2 ==> old(state).slots@.len() > 6,
    ensures
        final(state).slots@.len() == old(state).slots@.len(),
        final(state)@ == view_command(old(state)@, 6, flags, data@),
        st.code == Status::Success && st.detail@ == "ok"@,
{
    if flags == 0 {
        risk_stage_slot(state, 6, data);
    } else if flags == 1 {
        let mode = if data.len() > 0 { data[0] } else { 0 };
        risk_rebuild_slot(state, 6, mode);
    } else {
        let _ = probe_beacon_view(&state.slots[6]);
    }
    StatusMessage::ok()
}

/// Runs a view command on the diagnostics slot (slot 7): flags 0 stage the
/// payload, flags 1 rebuild with the payload's first byte as mode, other
/// flags probe the view and change nothing.
pub fn vent_use_diagnostics_view(state: &mut RiskSessionState, flags: u8, data: &[u8]) -> (st: StatusMessage)
    requires
        flags >= 2 ==> old(state).slots@.len() > 7,
    ensures
        final(state).slots@.len() == old(state).slots@.len(),
        final(state)@ == view_command(old(state)@, 7, flags, data@),
        st.code == Status::Success && st.detail@ == "ok"@,
{
    if flags == 0 {
        risk_stage_slot(state, 7, data);
    } else if flags == 1 {
        let mode = if data.len() > 0 { data[0] } else { 0 };
        risk_rebuild_slot(state, 7, mode);
    } else {
        let _ = probe_diagnostics_view(&state.slots[7]);
    }
    StatusMessage::ok()
}

} // verus!
