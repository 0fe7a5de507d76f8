use std::collections::HashSet;

use fand::correlation::{SessionId, Stamp, TAIL_LIMIT};

const MS: u64 = 1_700_000_000_123;

fn fresh_id(n: u64) -> SessionId {
    let b = n.to_le_bytes();
    SessionId::new(
        MS + n / 1000,
        [b[0], b[1], b[2], b[3], b[4], b[5], b[6], b[7], 17, 99],
    )
}

#[test]
fn session_id_is_26_ascii_bytes() {
    let id = fresh_id(0);
    assert_eq!(id.as_bytes().len(), 26);
    for b in id.as_bytes() {
        assert!(b.is_ascii_alphanumeric(), "non-alphanumeric byte: {b:#x}");
        assert!(
            !matches!(*b, b'I' | b'L' | b'O' | b'U'),
            "Crockford excluded letter: {}",
            *b as char
        );
    }
}

#[test]
fn session_id_display_matches_bytes() {
    let id = fresh_id(0);
    assert_eq!(id.as_str().as_bytes(), id.as_bytes());
}

#[test]
fn session_ids_are_distinct_across_many_calls() {
    let mut seen: HashSet<[u8; 26]> = HashSet::new();
    for n in 0..10_000 {
        let id = fresh_id(n);
        assert!(seen.insert(*id.as_bytes()), "duplicate session ID: {id:?}");
    }
    assert_eq!(seen.len(), 10_000);
}

#[test]
fn session_id_is_copy_eq() {
    let id = fresh_id(0);
    let clone = id;
    assert_eq!(id, clone);
}

#[test]
fn a_known_id() {
    assert_eq!(
        SessionId::new(0, [0; 10]).as_str(),
        "00000000000000000000000000"
    );
    assert_eq!(
        SessionId::new(0xFFFF_FFFF_FFFF, [0xFF; 10]).as_str(),
        "7ZZZZZZZZZZZZZZZZZZZZZZZZZ"
    );
    assert_eq!(
        SessionId::new(1_469_918_176_385, [0; 10]).as_str(),
        "01ARYZ6S410000000000000000"
    );
}

#[test]
fn later_ids_sort_behind_earlier_ones() {
    let a = SessionId::new(1000, [0xFF; 10]);
    let b = SessionId::new(1001, [0; 10]);
    assert!(a.as_bytes() < b.as_bytes());
}

#[test]
fn session_ids_increase_within_one_millisecond() {
    let (mut id, mut stamp) = SessionId::next(None, MS, [255; 10]);
    assert_eq!(id, SessionId::new(MS, [255; 10]));
    assert_eq!(stamp, Stamp { ms: MS, tail: TAIL_LIMIT - 1 });
    for ms in [MS, MS, MS - 5, MS + 1, MS + 1] {
        let (next, after) = SessionId::next(Some(stamp), ms, [7; 10]);
        assert!(id.as_bytes() < next.as_bytes());
        (id, stamp) = (next, after);
    }
    let (_, stamp) = SessionId::next(Some(Stamp { ms: MS, tail: 4 }), MS, [0; 10]);
    assert_eq!(stamp, Stamp { ms: MS, tail: 5 });
    let (id, _) = SessionId::next(Some(stamp), MS + 9, [1; 10]);
    assert_eq!(id, SessionId::new(MS + 9, [1; 10]));
}
