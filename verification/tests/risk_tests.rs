use lib::common::buffer::ByteBuffer;
use lib::common::status::Status;
use lib::risk::budget::{
    risk_rebuild_slot, risk_stage_slot, validated_acoustic_window, validated_actuator_window,
    validated_catalog_budget, validated_chemical_window, validated_crust_budget,
    validated_current_budget, validated_mineral_budget, validated_plume_budget,
    validated_pressure_budget, validated_sampler_budget, validated_sonar_budget,
    validated_thermal_window,
};
use lib::risk::consumers::{
    vent_apply_acoustic_window, vent_apply_actuator_window, vent_apply_chemical_window,
    vent_apply_thermal_window, vent_decode_crust_index, vent_decode_pressure_cast,
    vent_expand_plume_run, vent_expand_sampler_slot_table, vent_merge_catalog_chain,
    vent_parse_mineral_caps, vent_read_current_segment, vent_read_sonar_refs,
    vent_use_beacon_view, vent_use_chemistry_view, vent_use_diagnostics_view,
    vent_use_expedition_view, vent_use_mooring_view, vent_use_organism_view,
    vent_use_plume_view, vent_use_sonar_view,
};
use lib::risk::ledger::{RiskSessionState, RiskViewSlot};

fn extent(rows: u32, width: u32, flags: u32, wire: &[u8]) -> Vec<u8> {
    let mut d = Vec::new();
    d.extend_from_slice(&rows.to_le_bytes());
    d.extend_from_slice(&width.to_le_bytes());
    d.extend_from_slice(&flags.to_le_bytes());
    d.extend_from_slice(wire);
    d
}

fn window(declared: u32, phase: u8, wire: &[u8]) -> Vec<u8> {
    let mut d = Vec::new();
    d.extend_from_slice(&declared.to_le_bytes());
    d.extend_from_slice(&[phase, 0, 0, 0]);
    d.extend_from_slice(wire);
    d
}

#[test]
fn extent_budgets() {
    assert_eq!(validated_crust_budget(2, 3, 0, 100), 6);
    assert_eq!(validated_plume_budget(2, 3, 0, 4), 4);
    assert_eq!(validated_mineral_budget(2, 3, 0x1000_0000, 4), 12);
    assert_eq!(validated_sampler_budget(2, 3, 0x3000_0000, 100), 24);
    assert_eq!(validated_sonar_budget(0x1_0000, 0x1_0000, 0x1000_0000, 0), 0);
    assert_eq!(validated_pressure_budget(0x4000_0000, 3, 0x1000_0000, 0), 0x8000_0000);
    assert_eq!(validated_current_budget(7, 0, 0, 100), 0);
    assert_eq!(validated_catalog_budget(1, 1, 0xF000_0000, 10), 16);
}

#[test]
fn window_spans() {
    assert_eq!(validated_thermal_window(9, 0, 5), 0);
    assert_eq!(validated_chemical_window(9, 1, 5), 0);
    assert_eq!(validated_acoustic_window(9, 2, 5), 9);
    assert_eq!(validated_actuator_window(u32::MAX, 255, 0), u32::MAX);
}

#[test]
fn extent_copies_wire_bytes() {
    let d = extent(2, 3, 0, &[1, 2, 3, 4, 5, 6, 7, 8]);
    let mut out = ByteBuffer::new();
    let st = vent_decode_crust_index(&d, &mut out);
    assert!(st.is_ok());
    assert_eq!(out.as_slice(), &[1, 2, 3, 4, 5, 6]);
}

#[test]
fn extent_capped_by_wire() {
    let d = extent(10, 10, 0, &[9, 8]);
    let mut out = ByteBuffer::new();
    assert!(vent_expand_plume_run(&d, &mut out).is_ok());
    assert_eq!(out.as_slice(), &[9, 8]);
}

#[test]
fn extent_uncapped_pads_with_zeros() {
    let d = extent(1, 4, 0x1000_0000, &[1, 2, 3]);
    let mut out = ByteBuffer::new();
    assert!(vent_parse_mineral_caps(&d, &mut out).is_ok());
    assert_eq!(out.as_slice(), &[1, 2, 3, 0, 0, 0, 0, 0]);
}

#[test]
fn extent_budget_smaller_than_copy_is_clipped() {
    // the 32-bit product wraps to 0x10 while the full extent is far larger
    let d = extent(0x8000_0001, 0x10, 0x1000_0000, &[5u8; 40]);
    let mut out = ByteBuffer::new();
    assert!(vent_read_sonar_refs(&d, &mut out).is_ok());
    assert_eq!(out.as_slice(), &[5u8; 0x20]);
}

#[test]
fn extent_empty_outputs_nothing() {
    let d = extent(0, 5, 0, &[1, 2]);
    let mut out = ByteBuffer::new();
    assert!(vent_decode_pressure_cast(&d, &mut out).is_ok());
    assert!(out.is_empty());
    let d = extent(3, 5, 0x1000_0000, &[]);
    let mut out = ByteBuffer::new();
    assert!(vent_read_current_segment(&d, &mut out).is_ok());
    assert_eq!(out.as_slice(), &[0u8; 30]);
}

#[test]
fn extent_truncated_headers() {
    let cases: [(fn(&[u8], &mut ByteBuffer) -> lib::common::status::StatusMessage, &str); 8] = [
        (vent_decode_crust_index, "crust index"),
        (vent_expand_plume_run, "plume run"),
        (vent_parse_mineral_caps, "mineral caps"),
        (vent_expand_sampler_slot_table, "sampler slot table"),
        (vent_read_sonar_refs, "sonar refs"),
        (vent_decode_pressure_cast, "pressure cast"),
        (vent_read_current_segment, "current segment"),
        (vent_merge_catalog_chain, "catalog chain"),
    ];
    for (f, detail) in cases {
        let mut out = ByteBuffer::new();
        let st = f(&[0u8; 11], &mut out);
        assert_eq!((st.code, st.detail), (Status::Truncated, detail));
        assert!(out.is_empty());
    }
}

#[test]
fn windows_repeat_wire_bytes() {
    let d = window(5, 2, &[7, 8]);
    let mut out = ByteBuffer::new();
    assert!(vent_apply_thermal_window(&d, &mut out).is_ok());
    assert_eq!(out.as_slice(), &[7, 8, 7, 8, 7]);
    let d = window(5, 1, &[7, 8]);
    let mut out = ByteBuffer::new();
    assert!(vent_apply_chemical_window(&d, &mut out).is_ok());
    assert!(out.is_empty());
}

#[test]
fn windows_capped_by_scratch() {
    let d = window(1000, 3, &[1, 2, 3]);
    for (f, cap) in [
        (vent_apply_thermal_window as fn(&[u8], &mut ByteBuffer) -> lib::common::status::StatusMessage, 64usize),
        (vent_apply_chemical_window, 56),
        (vent_apply_acoustic_window, 48),
        (vent_apply_actuator_window, 40),
    ] {
        let mut out = ByteBuffer::new();
        assert!(f(&d, &mut out).is_ok());
        assert_eq!(out.len(), cap);
        assert_eq!(out.as_slice()[cap - 1], [1u8, 2, 3][(cap - 1) % 3]);
    }
}

#[test]
fn windows_without_wire_bytes_are_zero() {
    let d = window(4, 2, &[]);
    let mut out = ByteBuffer::new();
    assert!(vent_apply_acoustic_window(&d, &mut out).is_ok());
    assert_eq!(out.as_slice(), &[0, 0, 0, 0]);
}

#[test]
fn windows_truncated() {
    let mut out = ByteBuffer::new();
    let st = vent_apply_actuator_window(&[0u8; 7], &mut out);
    assert_eq!((st.code, st.detail), (Status::Truncated, "actuator window"));
    let st = vent_apply_thermal_window(&[], &mut out);
    assert_eq!((st.code, st.detail), (Status::Truncated, "thermal window"));
    let st = vent_apply_chemical_window(&[1], &mut out);
    assert_eq!(st.detail, "chemical window");
    let st = vent_apply_acoustic_window(&[1], &mut out);
    assert_eq!(st.detail, "acoustic window");
    assert!(out.is_empty());
}

#[test]
fn default_state_has_eight_empty_slots() {
    let state = RiskSessionState::default();
    assert_eq!(state.slots.len(), 8);
    for s in &state.slots {
        assert!(s.storage.is_empty());
        assert!(!s.has_view);
        assert_eq!((s.len, s.generation, s.view_generation), (0, 0, 0));
    }
    let slot = RiskViewSlot::default();
    assert!(slot.storage.is_empty() && !slot.has_view);
}

#[test]
fn stage_and_rebuild_slots() {
    let mut state = RiskSessionState::default();
    state.slots[2].generation = 5;
    risk_stage_slot(&mut state, 2, &[1, 2, 3, 4]);
    let s = &state.slots[2];
    assert_eq!(s.storage, vec![1, 2, 3, 4]);
    assert!(s.has_view);
    assert_eq!((s.len, s.view_generation), (4, 5));
    risk_rebuild_slot(&mut state, 2, 1);
    assert_eq!(state.slots[2].storage, vec![1, 2, 3]);
    assert_eq!(state.slots[2].len, 4);
    risk_rebuild_slot(&mut state, 2, 0);
    assert_eq!(state.slots[2].storage, vec![1]);
    risk_stage_slot(&mut state, 2, &[]);
    assert_eq!(state.slots[2].storage, vec![1]);
    risk_stage_slot(&mut state, 9, &[1]);
    risk_rebuild_slot(&mut state, 9, 0);
    assert_eq!(state.slots.len(), 8);
    risk_rebuild_slot(&mut state, 0, 1);
    assert!(state.slots[0].storage.is_empty());
}

#[test]
fn view_commands_per_slot() {
    let fns: [fn(&mut RiskSessionState, u8, &[u8]) -> lib::common::status::StatusMessage; 8] = [
        vent_use_expedition_view,
        vent_use_plume_view,
        vent_use_chemistry_view,
        vent_use_sonar_view,
        vent_use_mooring_view,
        vent_use_organism_view,
        vent_use_beacon_view,
        vent_use_diagnostics_view,
    ];
    for (k, f) in fns.iter().enumerate() {
        let mut state = RiskSessionState::default();
        assert!(f(&mut state, 0, &[9, 8, 7, 6, 5, 4, 3, 2]).is_ok());
        assert_eq!(state.slots[k].storage, vec![9, 8, 7, 6, 5, 4, 3, 2]);
        assert!(state.slots[k].has_view);
        assert!(f(&mut state, 7, &[]).is_ok());
        assert_eq!(state.slots[k].storage.len(), 8);
        assert!(f(&mut state, 1, &[0]).is_ok());
        assert_eq!(state.slots[k].storage, vec![9]);
        assert!(f(&mut state, 2, &[]).is_ok());
        assert_eq!(state.slots[k].len, 8);
        assert!(f(&mut state, 1, &[]).is_ok());
        assert_eq!(state.slots[k].storage, vec![9]);
        for (j, s) in state.slots.iter().enumerate() {
            if j != k {
                assert!(s.storage.is_empty());
            }
        }
    }
}
