use asynchronix::key_registry::{KeyId, KeyRegistry};
use asynchronix::time::MonotonicTime;

fn at(secs: i64) -> MonotonicTime {
    MonotonicTime::new(secs, 0).unwrap()
}

#[test]
fn keys_name_their_tokens() {
    let mut keys = KeyRegistry::new();
    let a = keys.insert_key(10, at(5));
    let b = keys.insert_eternal_key(20);
    assert_eq!(a, KeyId { index: 0, generation: 0 });
    assert_eq!(b, KeyId { index: 1, generation: 0 });
    assert!(keys.contains(a));
    assert!(keys.contains(b));
    assert_eq!(keys.extract_key(b), Some(20));
    assert_eq!(keys.extract_key(a), Some(10));
    assert_eq!(keys.extract_key(a), None);
    assert_eq!(keys.capacity(), 2);
}

#[test]
fn a_reused_slot_moves_on_to_the_next_generation() {
    let mut keys = KeyRegistry::new();
    let old = keys.insert_key(1, at(5));
    assert_eq!(keys.extract_key(old), Some(1));
    let new = keys.insert_key(2, at(5));
    assert_eq!(new, KeyId { index: 0, generation: 1 });
    assert_eq!(keys.extract_key(old), None);
    assert!(keys.contains(new));
    assert_eq!(keys.extract_key(new), Some(2));
}

#[test]
fn unknown_keys_yield_nothing() {
    let mut keys = KeyRegistry::new();
    let _ = keys.insert_key(1, at(5));
    assert_eq!(keys.extract_key(KeyId { index: 7, generation: 0 }), None);
    assert_eq!(keys.extract_key(KeyId { index: 0, generation: 3 }), None);
    assert_eq!(keys.capacity(), 1);
}

#[test]
fn expired_keys_are_dropped_and_eternal_keys_stay() {
    let mut keys = KeyRegistry::new();
    let early = keys.insert_key(1, at(5));
    let exact = keys.insert_key(2, at(6));
    let late = keys.insert_key(3, at(7));
    let eternal = keys.insert_eternal_key(4);
    keys.remove_expired_keys(at(6));
    assert!(!keys.contains(early));
    assert!(!keys.contains(exact));
    assert!(keys.contains(late));
    assert!(keys.contains(eternal));
    keys.remove_expired_keys(MonotonicTime::max());
    assert!(!keys.contains(late));
    assert!(keys.contains(eternal));
}

#[test]
fn removing_expired_keys_twice_changes_nothing_more() {
    let mut once = KeyRegistry::new();
    let mut twice = KeyRegistry::new();
    let mut ids = Vec::new();
    for (token, deadline) in [(1, 3), (2, 9), (3, 4), (4, 12)] {
        ids.push(once.insert_key(token, at(deadline)));
        twice.insert_key(token, at(deadline));
    }
    once.remove_expired_keys(at(5));
    twice.remove_expired_keys(at(5));
    twice.remove_expired_keys(at(5));
    for id in ids {
        assert_eq!(once.contains(id), twice.contains(id));
    }
    // The freed slots are given out again in the same way.
    assert_eq!(once.insert_key(9, at(20)), twice.insert_key(9, at(20)));
    assert_eq!(once.insert_key(9, at(20)), KeyId { index: 2, generation: 1 });
}

#[test]
fn raw_parts_of_a_key() {
    let id = KeyId::from_raw_parts(3, 8);
    assert_eq!(id.into_raw_parts(), (3, 8));
}
