use procmon::history::{History, HISTORY_CAPACITY};

#[test]
fn capacity_three_keeps_last_three() {
    let mut h = History::new(3);
    for v in [10, 20, 30, 40] {
        h.push(v);
    }
    assert_eq!(h.values(), vec![20, 30, 40]);
}

#[test]
fn never_exceeds_capacity() {
    let mut h = History::new(HISTORY_CAPACITY);
    for v in 0..(HISTORY_CAPACITY as u64 + 7) {
        h.push(v % 100);
        assert!(h.len() <= HISTORY_CAPACITY);
    }
    let vals = h.values();
    assert_eq!(vals.len(), HISTORY_CAPACITY);
    assert_eq!(vals[0], 7);
    assert_eq!(*vals.last().unwrap(), (HISTORY_CAPACITY as u64 + 6) % 100);
}

#[test]
fn samples_are_held_at_one_hundred() {
    let mut h = History::new(4);
    h.push(250);
    h.push(100);
    h.push(0);
    assert_eq!(h.values(), vec![100, 100, 0]);
}

#[test]
fn zero_capacity_keeps_nothing() {
    let mut h = History::new(0);
    h.push(5);
    assert_eq!(h.len(), 0);
}
