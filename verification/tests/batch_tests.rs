use iroha2_longevity_load::batch::aggregate_outcomes;
use iroha2_longevity_load::batch::record_outcome;
use iroha2_longevity_load::correlator::SubmitBlockingStatus;
use iroha2_longevity_load::status::Status;

#[test]
fn three_committed_operations_count_as_three() {
    let outcomes = vec![
        SubmitBlockingStatus::Committed(1),
        SubmitBlockingStatus::Committed(2),
        SubmitBlockingStatus::Committed(3),
    ];
    let status = aggregate_outcomes(&outcomes);
    assert_eq!(status.committed_count(), 3);
    assert_eq!(status.rejected_count(), 0);
    assert_eq!(status.unknown_count(), 0);
    assert_eq!(status.sent_count(), 3);
}

#[test]
fn every_batch_outcome_lands_in_one_category() {
    let outcomes = vec![
        SubmitBlockingStatus::Committed(1),
        SubmitBlockingStatus::Rejected("no".to_string()),
        SubmitBlockingStatus::Unknown,
        SubmitBlockingStatus::Committed(4),
        SubmitBlockingStatus::Unknown,
    ];
    let status = aggregate_outcomes(&outcomes);
    assert_eq!(status.committed_count(), 2);
    assert_eq!(status.rejected_count(), 1);
    assert_eq!(status.unknown_count(), 2);
    assert_eq!(
        status.committed_count() + status.rejected_count() + status.unknown_count(),
        outcomes.len()
    );
    assert_eq!(status.sent_count(), outcomes.len());
}

#[test]
fn empty_batch_aggregates_to_nothing() {
    let status = aggregate_outcomes(&Vec::new());
    assert_eq!(status.committed_count(), 0);
    assert_eq!(status.rejected_count(), 0);
    assert_eq!(status.unknown_count(), 0);
    assert_eq!(status.sent_count(), 0);
}

#[test]
fn record_outcome_touches_only_its_category() {
    let mut status = Status::default();
    record_outcome(&mut status, &SubmitBlockingStatus::Committed(8));
    record_outcome(&mut status, &SubmitBlockingStatus::Rejected("r".to_string()));
    record_outcome(&mut status, &SubmitBlockingStatus::Unknown);
    record_outcome(&mut status, &SubmitBlockingStatus::Unknown);
    assert_eq!(status.committed_count(), 1);
    assert_eq!(status.rejected_count(), 1);
    assert_eq!(status.unknown_count(), 2);
    assert_eq!(status.sent_count(), 0);
}
