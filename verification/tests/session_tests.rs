use lib::common::buffer::ByteBuffer;
use lib::common::status::{Status, StatusMessage};
use lib::risk::ledger::RiskSessionState;
use lib::wire::frame::{WireSection, WireSession, HVWS_MAGIC, HVWS_VERSION};
use lib::wire::session_feeder::SessionFeeder;
use lib::wire::stats::{tag_stats, StatsError};
use lib::wire::varint::encode_varint;

fn session(declared: u16, sections: &[(u8, u8, Vec<u8>)]) -> Vec<u8> {
    let mut d = Vec::new();
    d.extend_from_slice(&HVWS_MAGIC.to_le_bytes());
    d.extend_from_slice(&HVWS_VERSION.to_le_bytes());
    d.extend_from_slice(&declared.to_le_bytes());
    for (tag, flags, payload) in sections {
        d.push(*tag);
        d.push(*flags);
        encode_varint(payload.len() as u64, &mut d);
        d.extend_from_slice(payload);
    }
    d
}

fn extent_payload(rows: u32, width: u32, wire: &[u8]) -> Vec<u8> {
    let mut p = Vec::new();
    p.extend_from_slice(&rows.to_le_bytes());
    p.extend_from_slice(&width.to_le_bytes());
    p.extend_from_slice(&0u32.to_le_bytes());
    p.extend_from_slice(wire);
    p
}

#[test]
fn magic_spells_hvws() {
    assert_eq!(&HVWS_MAGIC.to_le_bytes(), b"HVWS");
}

#[test]
fn wire_section_holds_payload() {
    let bytes = [1u8, 2];
    let s = WireSection { tag: 0xA0, flags: 1, payload: &bytes };
    assert_eq!((s.tag, s.flags, s.payload), (0xA0, 1, &bytes[..]));
}

#[test]
fn push_accepts_foreign_input() {
    assert!(SessionFeeder::push(&[]).is_ok());
    assert!(SessionFeeder::push(&[1, 2, 3]).is_ok());
    assert!(SessionFeeder::push(b"NOTHVWS!........").is_ok());
}

#[test]
fn push_reports_short_handler_payload() {
    let d = session(2, &[(0xA0, 0, extent_payload(1, 1, &[7])), (0xA1, 0, vec![1, 2, 3])]);
    let st = SessionFeeder::push(&d);
    assert_eq!((st.code, st.detail), (Status::Truncated, "plume run"));
    let d = session(1, &[(0xA9, 0, vec![0; 7])]);
    let st = SessionFeeder::push(&d);
    assert_eq!((st.code, st.detail), (Status::Truncated, "chemical window"));
}

#[test]
fn push_ignores_sections_past_declared_count() {
    let d = session(1, &[(0x01, 0, vec![]), (0xA1, 0, vec![1, 2, 3])]);
    assert!(SessionFeeder::push(&d).is_ok());
}

#[test]
fn push_stops_at_section_that_does_not_fit() {
    let mut d = session(2, &[(0x05, 0, vec![1, 2])]);
    d.push(0xA0);
    d.push(0);
    d.push(50);
    d.extend_from_slice(&[0; 3]);
    assert!(SessionFeeder::push(&d).is_ok());
}

#[test]
fn feed_collects_output_and_views() {
    let d = session(
        4,
        &[
            (0xA0, 0, extent_payload(1, 2, &[5, 6, 7])),
            (0xAC, 0, vec![1, 2, 3]),
            (0x7F, 0, vec![9; 4]),
            (0xA8, 0, {
                let mut p = 3u32.to_le_bytes().to_vec();
                p.extend_from_slice(&[2, 0, 0, 0, 4]);
                p
            }),
        ],
    );
    let mut sess = WireSession::default();
    let mut state = RiskSessionState::default();
    let st = SessionFeeder::feed(&d, &mut sess, &mut state);
    assert!(st.is_ok());
    assert_eq!(sess.sections_seen, 4);
    assert_eq!(sess.output.as_slice(), &[5, 6, 4, 4, 4]);
    assert_eq!(state.slots[0].storage, vec![1, 2, 3]);
    assert!(state.slots[0].has_view);
}

#[test]
fn feed_stops_at_failure() {
    let d = session(
        3,
        &[(0xAD, 0, vec![4, 4]), (0xA2, 0, vec![0; 5]), (0xAE, 0, vec![1])],
    );
    let mut sess = WireSession::default();
    let mut state = RiskSessionState::default();
    let st = SessionFeeder::feed(&d, &mut sess, &mut state);
    assert_eq!((st.code, st.detail), (Status::Truncated, "mineral caps"));
    assert_eq!(sess.sections_seen, 1);
    assert!(sess.output.is_empty());
    assert_eq!(state.slots[1].storage, vec![4, 4]);
    assert!(state.slots[2].storage.is_empty());
}

#[test]
fn feed_caps_sections_at_64() {
    let sections: Vec<(u8, u8, Vec<u8>)> = (0..70).map(|_| (0x20u8, 0u8, vec![1u8])).collect();
    let d = session(70, &sections);
    let mut sess = WireSession::default();
    let mut state = RiskSessionState::default();
    assert!(SessionFeeder::feed(&d, &mut sess, &mut state).is_ok());
    assert_eq!(sess.sections_seen, 64);
}

#[test]
fn feed_state_persists_across_sessions() {
    let mut state = RiskSessionState::default();
    let mut sess = WireSession::default();
    let d1 = session(1, &[(0xB3, 0, vec![1, 2, 3, 4, 5, 6, 7, 8])]);
    assert!(SessionFeeder::feed(&d1, &mut sess, &mut state).is_ok());
    let d2 = session(2, &[(0xB3, 1, vec![1]), (0xB3, 2, vec![])]);
    assert!(SessionFeeder::feed(&d2, &mut sess, &mut state).is_ok());
    assert_eq!(state.slots[7].storage, vec![1, 2, 3]);
    assert_eq!(state.slots[7].len, 8);
    assert_eq!(sess.sections_seen, 3);
}

#[test]
fn session_default_is_empty() {
    let s = WireSession::default();
    assert_eq!(s.sections_seen, 0);
    assert!(s.output.is_empty());
    let _ = ByteBuffer::new();
}

#[test]
fn stats_counts_tags() {
    let mut d = session(4, &[(0xA0, 0, vec![1]), (0x01, 0, vec![]), (0xA0, 3, vec![2, 2])]);
    d.push(0x42);
    d.push(0);
    d.push(100);
    let s = tag_stats(&d).unwrap();
    assert_eq!(s.version, 1);
    assert_eq!(s.section_count, 4);
    assert_eq!(s.tag_counts.len(), 256);
    assert_eq!(s.tag_counts[0xA0], 2);
    assert_eq!(s.tag_counts[0x01], 1);
    assert_eq!(s.tag_counts[0x42], 1);
    assert_eq!(s.tag_counts.iter().sum::<u32>(), 4);
}

#[test]
fn stats_errors() {
    assert_eq!(tag_stats(&[1, 2, 3]).unwrap_err(), StatsError::TooShort);
    assert_eq!(
        tag_stats(&[1, 0, 0, 0, 0, 0, 0, 0]).unwrap_err(),
        StatsError::BadMagic(1)
    );
}

#[test]
fn stats_stop_on_bad_varint() {
    let mut d = session(3, &[(0x10, 0, vec![])]);
    d.push(0x11);
    d.push(0);
    d.extend_from_slice(&[0x80; 3]);
    let s = tag_stats(&d).unwrap();
    assert_eq!(s.tag_counts[0x10], 1);
    assert_eq!(s.tag_counts[0x11], 0);
}

#[test]
fn success_statuses_say_ok() {
    assert_eq!(SessionFeeder::push(&[1, 2]), StatusMessage::ok());
    let d = session(1, &[(0xA8, 0, vec![2, 0, 0, 0, 2, 0, 0, 0, 0x11])]);
    assert_eq!(SessionFeeder::push(&d), StatusMessage::ok());
    let mut sess = WireSession::default();
    let mut state = RiskSessionState::default();
    assert_eq!(SessionFeeder::feed(&d, &mut sess, &mut state).detail, "ok");
    assert_eq!(sess.output.as_slice(), &[0x11, 0x11]);
}
