use limit_order_bot::admission::{admit_batch, is_cooled_down, pick, try_admit};
use limit_order_bot::env::Timestamp;
use std::collections::HashMap;

fn at(nanos: u64) -> Timestamp {
    Timestamp::from_nanos(nanos)
}

#[test]
fn cool_down_counts_the_delay_in_seconds() {
    assert!(!is_cooled_down(at(1_000), 2, at(2_000_001_000)));
    assert!(is_cooled_down(at(1_000), 2, at(2_000_001_001)));
    assert!(!is_cooled_down(at(1_000), 2, at(999)));
    assert!(is_cooled_down(at(0), 0, at(1)));
    assert!(!is_cooled_down(at(0), 0, at(0)));
}

#[test]
fn cool_down_does_not_wrap_around() {
    assert!(!is_cooled_down(at(u64::MAX), u64::MAX, at(u64::MAX)));
    assert!(!is_cooled_down(at(1), 18_446_744_074, at(u64::MAX)));
    assert!(is_cooled_down(at(1), 18_446_744_073, at(u64::MAX)));
}

#[test]
fn first_attempt_is_recorded() {
    let mut records = HashMap::new();
    assert!(try_admit(&mut records, 3, 60, at(10)));
    assert_eq!(records.get(&3), Some(&at(10)));
    assert_eq!(records.len(), 1);
}

#[test]
fn suppressed_attempt_leaves_no_trace() {
    let mut records = HashMap::new();
    records.insert(3, at(10));
    assert!(!try_admit(&mut records, 3, 1, at(1_000_000_010)));
    assert_eq!(records.get(&3), Some(&at(10)));
    assert!(try_admit(&mut records, 3, 1, at(1_000_000_011)));
    assert_eq!(records.get(&3), Some(&at(1_000_000_011)));
}

#[test]
fn batch_returns_rising_positions() {
    let mut records = HashMap::new();
    records.insert(20, at(100));
    records.insert(40, at(0));
    let positions = admit_batch(&mut records, &vec![10, 20, 30, 40, 10, 50], 1, at(1_000_000_050));
    assert_eq!(positions, vec![0, 2, 3, 5]);
    assert_eq!(records.get(&10), Some(&at(1_000_000_050)));
    assert_eq!(records.get(&20), Some(&at(100)));
    assert_eq!(records.get(&30), Some(&at(1_000_000_050)));
    assert_eq!(records.get(&40), Some(&at(1_000_000_050)));
    assert_eq!(records.get(&50), Some(&at(1_000_000_050)));
    assert_eq!(records.len(), 5);
}

#[test]
fn batch_of_pending_attempts_is_empty() {
    let mut records = HashMap::new();
    records.insert(1, at(100));
    records.insert(2, at(200));
    let before = records.clone();
    let positions = admit_batch(&mut records, &vec![2, 1, 2], 60, at(300));
    assert!(positions.is_empty());
    assert_eq!(records, before);
}

#[test]
fn pick_follows_the_positions() {
    assert_eq!(pick(&vec!['a', 'b', 'c', 'd'], &vec![0, 2, 3]), vec!['a', 'c', 'd']);
    assert_eq!(pick(&vec![true, false], &vec![]), Vec::<bool>::new());
}
