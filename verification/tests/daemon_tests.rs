use iroha2_longevity_load::correlator::LedgerEvent;
use iroha2_longevity_load::correlator::PipelineEvent;
use iroha2_longevity_load::correlator::PipelineStatus;
use iroha2_longevity_load::daemon::apply_status_update;
use iroha2_longevity_load::daemon::classify_event;
use iroha2_longevity_load::daemon::StatusUpdate;
use iroha2_longevity_load::status::Status;

fn pipeline(status: PipelineStatus) -> LedgerEvent {
    LedgerEvent::Pipeline(PipelineEvent { hash: 11, status })
}

#[test]
fn listener_classifies_each_event_kind() {
    assert_eq!(classify_event(&pipeline(PipelineStatus::Validating)), None);
    assert_eq!(
        classify_event(&pipeline(PipelineStatus::Rejected("bad".to_string()))),
        Some(StatusUpdate::Rejected)
    );
    assert_eq!(
        classify_event(&pipeline(PipelineStatus::Committed)),
        Some(StatusUpdate::Committed)
    );
    assert_eq!(classify_event(&LedgerEvent::Other), Some(StatusUpdate::Unknown));
}

#[test]
fn sent_stays_ahead_of_resolutions_at_every_point() {
    let mut status = Status::default();
    let updates = [
        StatusUpdate::Sent(2),
        StatusUpdate::Committed,
        StatusUpdate::Sent(1),
        StatusUpdate::Rejected,
        StatusUpdate::Unknown,
        StatusUpdate::Sent(3),
        StatusUpdate::Committed,
    ];
    for update in updates {
        apply_status_update(&mut status, update);
        let resolved =
            status.committed_count() + status.rejected_count() + status.unknown_count();
        assert!(status.sent_count() >= resolved);
    }
    assert_eq!(status.sent_count(), 6);
    assert_eq!(status.committed_count(), 2);
    assert_eq!(status.rejected_count(), 1);
    assert_eq!(status.unknown_count(), 1);
}

#[test]
fn applying_updates_stamps_the_right_timestamps() {
    let mut status = Status::default();
    apply_status_update(&mut status, StatusUpdate::Unknown);
    assert!(status.latest_committed_millis().is_none());
    assert!(status.latest_rejected_millis().is_none());
    assert!(status.latest_sent_millis().is_none());
    apply_status_update(&mut status, StatusUpdate::Sent(1));
    assert!(status.latest_sent_millis().is_some());
    apply_status_update(&mut status, StatusUpdate::Committed);
    assert!(status.latest_committed_millis().is_some());
    assert!(status.latest_rejected_millis().is_none());
}
