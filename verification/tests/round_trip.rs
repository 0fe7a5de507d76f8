use fand::correlation::SessionId;
use fand::smc::round_trip::{RoundTripOutcome, RoundTripRecord, RoundTripRing};

fn fresh_id(n: u8) -> SessionId {
    SessionId::new(1_700_000_000_000, [n, 1, 2, 3, 4, 5, 6, 7, 8, 9])
}

fn sample_record(n: u64) -> RoundTripRecord {
    RoundTripRecord::new_match(n, 0x4630_4D64, &[1], &[1])
}

#[test]
fn record_is_24_bytes() {
    assert_eq!(std::mem::size_of::<RoundTripRecord>(), 24);
}

#[test]
fn ring_count_is_monotonic() {
    let mut ring = RoundTripRing::new(fresh_id(0));
    for n in 0..1000 {
        ring.push(sample_record(n));
    }
    assert_eq!(ring.count(), 1000);
}

#[test]
fn ring_wraps_at_256() {
    let mut ring = RoundTripRing::new(fresh_id(0));
    for n in 0..300 {
        ring.push(sample_record(n));
    }
    assert_eq!(ring.count(), 300);
    let recent: Vec<u64> = ring.recent(256).iter().map(|r| r.timestamp_ns).collect();
    assert_eq!(recent.len(), 256);
    assert_eq!(recent.first().copied(), Some(44));
    assert_eq!(recent.last().copied(), Some(299));
}

#[test]
fn ring_recent_n_smaller_than_count() {
    let mut ring = RoundTripRing::new(fresh_id(0));
    for n in 0..10 {
        ring.push(sample_record(n));
    }
    let recent: Vec<u64> = ring.recent(3).iter().map(|r| r.timestamp_ns).collect();
    assert_eq!(recent, vec![7, 8, 9]);
}

#[test]
fn ring_recent_empty_before_any_push() {
    let ring = RoundTripRing::new(fresh_id(0));
    assert_eq!(ring.recent(10).len(), 0);
}

#[test]
fn ring_session_id_stable_across_pushes() {
    let id = fresh_id(7);
    let mut ring = RoundTripRing::new(id);
    for n in 0..50 {
        ring.push(sample_record(n));
    }
    assert_eq!(ring.session_id(), id);
}

#[test]
fn ring_drain_to_sink() {
    let mut ring = RoundTripRing::new(fresh_id(0));
    ring.push(sample_record(42));
    let mut text = String::new();
    ring.drain_to(&mut text);
    assert!(text.contains("fand round-trip drain session="));
    assert!(text.contains("fourcc=0x46304d64"));
    assert!(text.contains("count=1"));
}

#[test]
fn the_most_recent_records_are_shown() {
    let mut ring = RoundTripRing::new(fresh_id(0));
    for t in 0..5 {
        ring.push(sample_record(t));
    }
    let mut text = String::from("> ");
    ring.drain_recent(2, &mut text);
    let lines: Vec<&str> = text.lines().collect();
    assert_eq!(lines.len(), 2);
    assert!(lines[0].starts_with("> 3 fourcc="));
    assert!(lines[1].starts_with("4 fourcc="));
}

#[test]
fn record_new_from_longer_slice_truncates_to_4() {
    let rec = RoundTripRecord::new_match(0, 0xDEAD_BEEF, &[1, 2, 3, 4, 5, 6], &[7, 8, 9, 10]);
    assert_eq!(rec.written_bytes, [1, 2, 3, 4]);
    assert_eq!(rec.readback_bytes, [7, 8, 9, 10]);
    assert_eq!(rec.written_len, 4);
}

#[test]
fn record_new_from_single_byte() {
    let rec = RoundTripRecord::new_match(0, 0xDEAD_BEEF, &[0xAA], &[0xAA]);
    assert_eq!(rec.written_bytes, [0xAA, 0, 0, 0]);
    assert_eq!(rec.written_len, 1);
}

#[test]
fn a_record_keeps_its_outcome() {
    let rec = RoundTripRecord::new(5, 0x4630_6D64, &[1], &[0], RoundTripOutcome::Mismatch);
    assert_eq!(rec.outcome, RoundTripOutcome::Mismatch);
    assert_eq!(rec.readback_bytes, [0, 0, 0, 0]);
    assert_eq!(rec.readback_len, 1);
    assert_eq!(rec.timestamp_ns, 5);
}

#[test]
fn a_clone_of_the_ring_is_the_same_ring() {
    let mut ring = RoundTripRing::new(fresh_id(3));
    for n in 0..5 {
        ring.push(sample_record(n));
    }
    let copy = ring.clone();
    ring.push(sample_record(5));
    assert_eq!(copy.count(), 5);
    assert_eq!(copy.recent(1)[0].timestamp_ns, 4);
    assert_eq!(ring.recent(1)[0].timestamp_ns, 5);
}
