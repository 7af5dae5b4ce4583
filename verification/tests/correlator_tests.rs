use iroha2_longevity_load::correlator::EventCorrelator;
use iroha2_longevity_load::correlator::LedgerEvent;
use iroha2_longevity_load::correlator::PipelineEvent;
use iroha2_longevity_load::correlator::PipelineStatus;
use iroha2_longevity_load::correlator::StreamItem;
use iroha2_longevity_load::correlator::SubmitAction;
use iroha2_longevity_load::correlator::SubmitBlockingStatus;
use iroha2_longevity_load::correlator::SubmitError;
use iroha2_longevity_load::correlator::SubmitInput;

fn pipeline_item(hash: u64, status: PipelineStatus) -> SubmitInput {
    SubmitInput::Stream(StreamItem::Event(LedgerEvent::Pipeline(PipelineEvent {
        hash,
        status,
    })))
}

#[test]
fn committed_event_resolves_to_committed() {
    let mut c = EventCorrelator::new(42);
    assert!(matches!(
        c.step(pipeline_item(42, PipelineStatus::Validating)),
        SubmitAction::Wait
    ));
    assert!(matches!(c.step(SubmitInput::Ack), SubmitAction::SubmitTransaction));
    assert!(matches!(c.step(SubmitInput::SubmitOk), SubmitAction::Wait));
    assert!(matches!(
        c.step(pipeline_item(42, PipelineStatus::Validating)),
        SubmitAction::Wait
    ));
    match c.step(pipeline_item(42, PipelineStatus::Committed)) {
        SubmitAction::Deliver(outcome) => {
            assert_eq!(outcome, SubmitBlockingStatus::Committed(42));
        }
        _ => panic!("a committed event must deliver the outcome"),
    }
}

#[test]
fn rejected_event_carries_its_reason() {
    let mut c = EventCorrelator::new(7);
    c.step(SubmitInput::Ack);
    c.step(SubmitInput::SubmitOk);
    match c.step(pipeline_item(7, PipelineStatus::Rejected("too big".to_string()))) {
        SubmitAction::Deliver(outcome) => {
            assert_eq!(
                outcome,
                SubmitBlockingStatus::Rejected("too big".to_string())
            );
        }
        _ => panic!("a rejected event must deliver the outcome"),
    }
}

#[test]
fn redelivered_event_is_not_delivered_twice() {
    let mut c = EventCorrelator::new(9);
    c.step(SubmitInput::Ack);
    c.step(SubmitInput::SubmitOk);
    let mut deliveries: usize = 0;
    for _ in 0..2 {
        if matches!(
            c.step(pipeline_item(9, PipelineStatus::Committed)),
            SubmitAction::Deliver(_)
        ) {
            deliveries += 1;
        }
    }
    assert_eq!(deliveries, 1);
}

#[test]
fn stream_closing_without_event_resolves_unknown() {
    let mut c = EventCorrelator::new(5);
    assert!(matches!(c.step(SubmitInput::Ack), SubmitAction::SubmitTransaction));
    assert!(matches!(c.step(SubmitInput::SubmitOk), SubmitAction::Wait));
    match c.step(SubmitInput::Stream(StreamItem::Closed)) {
        SubmitAction::Deliver(outcome) => {
            assert_eq!(outcome, SubmitBlockingStatus::Unknown);
        }
        _ => panic!("a closed stream must deliver an unknown outcome"),
    }
}

#[test]
fn non_pipeline_event_resolves_unknown() {
    let mut c = EventCorrelator::new(5);
    c.step(SubmitInput::Ack);
    c.step(SubmitInput::SubmitOk);
    match c.step(SubmitInput::Stream(StreamItem::Event(LedgerEvent::Other))) {
        SubmitAction::Deliver(outcome) => {
            assert_eq!(outcome, SubmitBlockingStatus::Unknown);
        }
        _ => panic!("a non-pipeline event must deliver an unknown outcome"),
    }
}

#[test]
fn handshake_failure_is_fatal() {
    let mut c = EventCorrelator::new(1);
    match c.step(SubmitInput::AckClosed) {
        SubmitAction::Fail(e) => assert_eq!(e, SubmitError::HandshakeFailed),
        _ => panic!("a closed acknowledgment channel must fail the submission"),
    }
}

#[test]
fn submission_failure_propagates_immediately() {
    let mut c = EventCorrelator::new(1);
    c.step(SubmitInput::Ack);
    match c.step(SubmitInput::SubmitErr) {
        SubmitAction::Fail(e) => assert_eq!(e, SubmitError::SubmissionFailed),
        _ => panic!("a failed submission must fail the protocol"),
    }
}

#[test]
fn nothing_is_submitted_before_the_ack() {
    let mut c = EventCorrelator::new(3);
    let inputs = [
        SubmitInput::SubmitOk,
        pipeline_item(3, PipelineStatus::Committed),
        SubmitInput::Stream(StreamItem::Closed),
    ];
    for input in inputs {
        assert!(matches!(c.step(input), SubmitAction::Wait));
    }
    assert!(matches!(c.step(SubmitInput::Ack), SubmitAction::SubmitTransaction));
}
