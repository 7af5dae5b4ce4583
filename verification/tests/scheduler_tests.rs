use iroha2_longevity_load::operation::Operation;
use iroha2_longevity_load::scheduler::record_unit_result;
use iroha2_longevity_load::scheduler::remaining_delay;
use iroha2_longevity_load::scheduler::OperationQueue;
use iroha2_longevity_load::scheduler::SchedulerMode;
use iroha2_longevity_load::status::Status;

#[test]
fn building_the_queue_deduplicates_kinds() {
    let ops = vec![
        Operation::MintAsset,
        Operation::RegisterDomain,
        Operation::MintAsset,
    ];
    let q = OperationQueue::from_operations(&ops, 2);
    assert_eq!(q.len(), 2);
    assert_eq!(q.op_at(0), Operation::MintAsset);
    assert_eq!(q.op_at(1), Operation::RegisterDomain);
    assert_eq!(q.remaining_at(0), 2);
    assert_eq!(q.remaining_at(1), 2);
}

#[test]
fn failed_submission_leaves_the_queue_untouched() {
    let ops = vec![Operation::MintAsset, Operation::RegisterAccount];
    let mut q = OperationQueue::from_operations(&ops, 3);
    q.note_result(0, false);
    q.note_result(1, false);
    assert_eq!(q.len(), 2);
    assert_eq!(q.remaining_at(0), 3);
    assert_eq!(q.remaining_at(1), 3);
}

#[test]
fn successful_submission_decrements_and_drains() {
    let ops = vec![Operation::MintAsset];
    let mut q = OperationQueue::from_operations(&ops, 2);
    q.note_result(0, true);
    assert_eq!(q.len(), 1);
    assert_eq!(q.remaining_at(0), 1);
    q.note_result(0, true);
    assert_eq!(q.len(), 0);
}

#[test]
fn scheduler_switches_to_heartbeat_when_drained() {
    let ops = vec![Operation::RegisterDomain];
    let mut q = OperationQueue::from_operations(&ops, 1);
    assert_eq!(q.mode(), SchedulerMode::Draining);
    q.note_result(0, true);
    assert_eq!(q.mode(), SchedulerMode::Heartbeat);
}

#[test]
fn unit_result_updates_queue_and_status_together() {
    let ops = vec![Operation::TransferAsset];
    let mut q = OperationQueue::from_operations(&ops, 2);
    let mut status = Status::default();
    record_unit_result(&mut q, &mut status, 0, None);
    assert_eq!(status.sent_count(), 0);
    assert_eq!(q.remaining_at(0), 2);
    record_unit_result(&mut q, &mut status, 0, Some(5));
    assert_eq!(status.sent_count(), 5);
    assert_eq!(q.remaining_at(0), 1);
}

#[test]
fn entry_retries_until_submission_succeeds() {
    let ops = vec![Operation::RegisterAccount];
    let mut q = OperationQueue::from_operations(&ops, 1);
    let mut status = Status::default();
    let mut failures: usize = 0;
    record_unit_result(&mut q, &mut status, 0, None);
    failures += 1;
    record_unit_result(&mut q, &mut status, 0, None);
    failures += 1;
    assert_eq!(q.len(), 1);
    assert_eq!(q.remaining_at(0), 1);
    record_unit_result(&mut q, &mut status, 0, Some(1));
    assert_eq!(failures, 2);
    assert_eq!(q.len(), 0);
    assert_eq!(status.sent_count(), 1);
    let mut listener_status = status;
    listener_status.tx_is_committed();
    assert_eq!(listener_status.committed_count(), 1);
}

#[test]
fn remaining_delay_fills_the_interval() {
    assert_eq!(remaining_delay(1000, 300), 700);
    assert_eq!(remaining_delay(1000, 0), 1000);
    assert_eq!(remaining_delay(1000, 1000), 0);
    assert_eq!(remaining_delay(1000, 2500), 0);
    let interval: u64 = 500000;
    for elapsed in [0u64, 1, 499999, 500000, 900000] {
        assert!(elapsed + remaining_delay(interval, elapsed) >= interval);
    }
}
