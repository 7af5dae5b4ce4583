use iroha2_longevity_load::status::Status;

#[test]
fn default_status_is_zeroed() {
    let s = Status::default();
    assert_eq!(s.committed_count(), 0);
    assert_eq!(s.rejected_count(), 0);
    assert_eq!(s.sent_count(), 0);
    assert_eq!(s.unknown_count(), 0);
    assert!(s.latest_committed_millis().is_none());
    assert!(s.latest_rejected_millis().is_none());
    assert!(s.latest_sent_millis().is_none());
}

#[test]
fn tx_is_sent_accumulates_and_stamps() {
    let mut s = Status::default();
    let prev = s.tx_is_sent(3);
    assert!(prev.is_none());
    assert_eq!(s.sent_count(), 3);
    assert!(s.latest_sent_millis().is_some());
    let prev = s.tx_is_sent(2);
    assert!(prev.is_some());
    assert_eq!(s.sent_count(), 5);
    assert_eq!(s.committed_count(), 0);
}

#[test]
fn tx_is_committed_increments_and_stamps() {
    let mut s = Status::default();
    let prev = s.tx_is_committed();
    assert!(prev.is_none());
    assert_eq!(s.committed_count(), 1);
    assert!(s.latest_committed_millis().is_some());
    assert!(s.latest_rejected_millis().is_none());
    let prev = s.tx_is_committed();
    assert!(prev.is_some());
    assert_eq!(s.committed_count(), 2);
}

#[test]
fn tx_is_rejected_increments_and_stamps() {
    let mut s = Status::default();
    assert!(s.tx_is_rejected().is_none());
    assert_eq!(s.rejected_count(), 1);
    assert!(s.latest_rejected_millis().is_some());
}

#[test]
fn tx_is_unknown_increments_without_stamp() {
    let mut s = Status::default();
    s.tx_is_unknown();
    s.tx_is_unknown();
    assert_eq!(s.unknown_count(), 2);
    assert!(s.latest_committed_millis().is_none());
    assert!(s.latest_rejected_millis().is_none());
    assert!(s.latest_sent_millis().is_none());
}

#[test]
fn from_parts_reads_back() {
    let s = Status::from_parts(1, 2, 3, 4, Some(10), None, Some(-5));
    assert_eq!(s.committed_count(), 1);
    assert_eq!(s.rejected_count(), 2);
    assert_eq!(s.sent_count(), 3);
    assert_eq!(s.unknown_count(), 4);
    assert_eq!(s.latest_committed_millis(), Some(10));
    assert_eq!(s.latest_rejected_millis(), None);
    assert_eq!(s.latest_sent_millis(), Some(-5));
}

#[test]
fn status_equality_compares_all_fields() {
    assert!(Status::default() == Status::default());
    let a = Status::from_parts(1, 0, 2, 0, None, None, Some(7));
    let b = Status::from_parts(1, 0, 2, 0, None, None, Some(7));
    let c = Status::from_parts(1, 0, 2, 0, None, None, Some(8));
    assert!(a == b);
    assert!(a != c);
    let mut d = Status::default();
    d.tx_is_unknown();
    assert!(d != Status::default());
}
