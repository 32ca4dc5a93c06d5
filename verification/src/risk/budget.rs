//! Extent and phase-window budget helpers for vent telemetry sections.
//!
//! An extent header carries rows, width and flags; the top nibble of the
//! flags counts extra lanes, and bit 28 waives the cap by the bytes on
//! the wire. All products are taken modulo 2^32, as the wire fields are.

use vstd::prelude::*;
use crate::risk::ledger::{RiskSessionState, SlotView};

verus! {

/// The lane count of an extent: one plus the top nibble of the flags.
pub open spec fn extent_lanes(flags: u32) -> u32 {
    (1 + ((flags >> 28u32) & 0x0f)) as u32
}

/// Whether the flags waive the cap by the bytes on the wire (bit 28).
pub open spec fn extent_uncapped(flags: u32) -> bool {
    flags & 0x1000_0000 != 0
}

/// The budget of an extent: rows times width times lanes, modulo 2^32,
/// capped at `wire_tail` unless the flags waive the cap.
pub open spec fn spec_extent_budget(rows: u32, width: u32, flags: u32, wire_tail: usize) -> usize {
    let product = (((rows * width) % 0x1_0000_0000) * extent_lanes(flags)) % 0x1_0000_0000;
    if !extent_uncapped(flags) && wire_tail < product {
        wire_tail
    } else {
        product as usize
    }
}

/// The span of a phase window: nothing before phase 2, the declared span after.
pub open spec fn spec_window_span(declared: u32, phase: u8) -> u32 {
    if phase < 2 { 0 } else { declared }
}

fn wrapped_extent_budget(rows: u32, width: u32, flags: u32, wire_tail: usize) -> (b: usize)
    ensures
        b == spec_extent_budget(rows, width, flags, wire_tail),
{
    let nibble = (flags >> 28u32) & 0x0f;
    assert(nibble <= 0x0f) by (bit_vector)
        requires nibble == (flags >> 28u32) & 0x0f;
    let lanes = 1u32.wrapping_add(nibble);
    let product = rows.wrapping_mul(width).wrapping_mul(lanes);
    let mut budget = product as usize;
    if flags & 0x1000_0000 == 0 {
        if wire_tail < budget {
            budget = wire_tail;
        }
    }
    budget
}

fn phase_window_budget(declared: u32, phase: u8, wire_tail: usize) -> (span: u32)
    ensures
        span == spec_window_span(declared, phase),
{
    if phase < 2 {
        return 0;
    }
    declared
}

/// The byte budget of a crust-index extent.
pub fn validated_crust_budget(rows: u32, width: u32, flags: u32, wire_tail: usize) -> (b: usize)
    ensures
        b == spec_extent_budget(rows, width, flags, wire_tail),
{
    wrapped_extent_budget(rows, width, flags, wire_tail)
}

/// The byte budget of a plume-run extent.
pub fn validated_plume_budget(rows: u32, width: u32, flags: u32, wire_tail: usize) -> (b: usize)
    ensures
        b == spec_extent_budget(rows, width, flags, wire_tail),
{
    wrapped_extent_budget(rows, width, flags, wire_tail)
}

/// The byte budget of a mineral-caps extent.
pub fn validated_mineral_budget(rows: u32, width: u32, flags: u32, wire_tail: usize) -> (b: usize)
    ensures
        b == spec_extent_budget(rows, width, flags, wire_tail),
{
    wrapped_extent_budget(rows, width, flags, wire_tail)
}

/// The byte budget of a sampler slot-table extent.
pub fn validated_sampler_budget(rows: u32, width: u32, flags: u32, wire_tail: usize) -> (b: usize)
    ensures
        b == spec_extent_budget(rows, width, flags, wire_tail),
{
    wrapped_extent_budget(rows, width, flags, wire_tail)
}

/// The byte budget of a sonar-refs extent.
pub fn validated_sonar_budget(rows: u32, width: u32, flags: u32, wire_tail: usize) -> (b: usize)
    ensures
        b == spec_extent_budget(rows, width, flags, wire_tail),
{
    wrapped_extent_budget(rows, width, flags, wire_tail)
}

/// The byte budget of a pressure-cast extent.
pub fn validated_pressure_budget(rows: u32, width: u32, flags: u32, wire_tail: usize) -> (b: usize)
    ensures
        b == spec_extent_budget(rows, width, flags, wire_tail),
{
    wrapped_extent_budget(rows, width, flags, wire_tail)
}

/// The byte budget of a current-segment extent.
pub fn validated_current_budget(rows: u32, width: u32, flags: u32, wire_tail: usize) -> (b: usize)
    ensures
        b == spec_extent_budget(rows, width, flags, wire_tail),
{
    wrapped_extent_budget(rows, width, flags, wire_tail)
}

/// The byte budget of a catalog-chain extent.
pub fn validated_catalog_budget(rows: u32, width: u32, flags: u32, wire_tail: usize) -> (b: usize)
    ensures
        b == spec_extent_budget(rows, width, flags, wire_tail),
{
    wrapped_extent_budget(rows, width, flags, wire_tail)
}

/// The span of a thermal window.
pub fn validated_thermal_window(declared: u32, phase: u8, wire_tail: usize) -> (span: u32)
    ensures
        span == spec_window_span(declared, phase),
{
    phase_window_budget(declared, phase, wire_tail)
}

/// The span of a chemical window.
pub fn validated_chemical_window(declared: u32, phase: u8, wire_tail: usize) -> (span: u32)
    ensures
        span == spec_window_span(declared, phase),
{
    phase_window_budget(declared, phase, wire_tail)
}

/// The span of an acoustic window.
pub fn validated_acoustic_window(declared: u32, phase: u8, wire_tail: usize) -> (span: u32)
    ensures
        span == spec_window_span(declared, phase),
{
    phase_window_budget(declared, phase, wire_tail)
}

/// The span of an actuator window.
pub fn validated_actuator_window(declared: u32, phase: u8, wire_tail: usize) -> (span: u32)
    ensures
        span == spec_window_span(declared, phase),
{
    phase_window_budget(declared, phase, wire_tail)
}

/// Unless the flags waive it, an extent budget never exceeds the bytes on
/// the wire; when they do, it still stays below 2^32.
pub proof fn law_budget_bounds(rows: u32, width: u32, flags: u32, wire_tail: usize)
    ensures
        !extent_uncapped(flags) ==> spec_extent_budget(rows, width, flags, wire_tail) <= wire_tail,
        spec_extent_budget(rows, width, flags, wire_tail) < 0x1_0000_0000,
{
}

/// Slots after staging `data` into slot `k`: the store becomes a copy of
/// `data` and a view is cut over all of it at the slot's generation.
/// Nothing changes when `k` is out of range or `data` is empty.
pub open spec fn stage_model(slots: Seq<SlotView>, k: int, data: Seq<u8>) -> Seq<SlotView> {
    if k < 0 || k >= slots.len() || data.len() == 0 {
        slots
    } else {
        slots.update(k, SlotView {
            storage: data,
            has_view: true,
            len: data.len() as usize,
            generation: slots[k].generation,
            view_generation: slots[k].generation,
        })
    }
}

/// How many bytes a rebuild keeps of a store of `n` bytes.
pub open spec fn rebuild_keep(n: nat, mode: u8) -> nat {
    if n == 0 { 0 } else if mode == 0 { 1 } else if n < 3 { n } else { 3 }
}

/// Slots after rebuilding slot `k`: its store is cut to its first byte
/// (mode 0) or first three bytes (other modes); the view record stays.
/// Nothing changes when `k` is out of range.
pub open spec fn rebuild_model(slots: Seq<SlotView>, k: int, mode: u8) -> Seq<SlotView> {
    if k < 0 || k >= slots.len() {
        slots
    } else {
        let s = slots[k];
        slots.update(k, SlotView {
            storage: s.storage.take(rebuild_keep(s.storage.len(), mode) as int),
            ..s
        })
    }
}

/// Rebuilding with mode 0 keeps the first byte of the store (if any);
/// with any other mode it keeps the first three bytes, or the whole store
/// when it is shorter than that.
pub proof fn law_rebuild_keep(slots: Seq<SlotView>, k: int, mode: u8)
    requires
        0 <= k < slots.len(),
    ensures
        ({
            let n = slots[k].storage.len();
            let kept = if mode == 0 {
                if n >= 1 { 1 } else { 0 }
            } else {
                if n < 3 { n as int } else { 3 }
            };
            rebuild_model(slots, k, mode)[k].storage == slots[k].storage.take(kept)
        }),
{
}

/// Copies `data` into slot `slot` and cuts a view over it.
pub fn risk_stage_slot(state: &mut RiskSessionState, slot: usize, data: &[u8])
    ensures
        final(state)@ == stage_model(old(state)@, slot as int, data@),
        final(state).slots@.len() == old(state).slots@.len(),
{
    if slot >= state.slots.len() || data.len() == 0 {
        return;
    }
    let ghost before = state.slots@;
    let entry = &mut state.slots[slot];
    entry.storage.clear();
    entry.storage.extend_from_slice(data);
    assert(entry.storage@ =~= data@);
    entry.len = entry.storage.len();
    entry.has_view = true;
    entry.view_generation = entry.generation;
    proof {
        assert(state@ =~= stage_model(old(state)@, slot as int, data@));
    }
}

/// Compacts the store of slot `slot` to its first byte (mode 0) or its
/// first three bytes; the view record is left as it was.
pub fn risk_rebuild_slot(state: &mut RiskSessionState, slot: usize, mode: u8)
    ensures
        final(state)@ == rebuild_model(old(state)@, slot as int, mode),
        final(state).slots@.len() == old(state).slots@.len(),
{
    if slot >= state.slots.len() {
        return;
    }
    let entry = &mut state.slots[slot];
    let n = entry.storage.len();
    let keep = if n == 0 { 0 } else if mode == 0 { 1 } else if n < 3 { n } else { 3 };
    let mut compacted: Vec<u8> = Vec::new();
    let mut i: usize = 0;
    while i < keep
        invariant
            keep <= n == entry.storage@.len(),
            i <= keep,
            compacted@ == entry.storage@.take(i as int),
        decreases keep - i,
    {
        compacted.push(entry.storage[i]);
        assert(compacted@ =~= entry.storage@.take(i + 1));
        i += 1;
    }
    entry.storage = compacted;
    proof {
        assert(state@ =~= rebuild_model(old(state)@, slot as int, mode));
    }
}

} // verus!
