//! The event-correlation state machine behind a blocking submission.
//!
//! One blocking submission follows a fixed protocol: open a filtered
//! event subscription, wait for its acknowledgment, only then submit
//! the transaction, and consume the event stream until a terminal
//! status arrives. The `EventCorrelator` holds the phase of that
//! protocol; callers feed it what happened (`SubmitInput`) and perform
//! what it asks (`SubmitAction`). The lemmas at the end state the two
//! guarantees the protocol lives by: nothing is submitted before the
//! acknowledgment, and the outcome is delivered at most once.

use vstd::prelude::*;

verus! {

/// Progress of one transaction through the ledger's pipeline, as an
/// event reports it.
#[derive(Clone, Debug)]
pub enum PipelineStatus {
    Validating,
    Rejected(String),
    Committed,
}

/// One pipeline event: which transaction, and how far it got.
#[derive(Clone, Debug)]
pub struct PipelineEvent {
    pub hash: u64,
    pub status: PipelineStatus,
}

/// An event from the ledger's stream: a pipeline event, or anything
/// else.
#[derive(Clone, Debug)]
pub enum LedgerEvent {
    Pipeline(PipelineEvent),
    Other,
}

/// What the event stream yields: an event, or its end.
#[derive(Clone, Debug)]
pub enum StreamItem {
    Event(LedgerEvent),
    Closed,
}

/// Terminal outcome of a blocking submission.
#[derive(Clone, Debug)]
pub enum SubmitBlockingStatus {
    Committed(u64),
    Rejected(String),
    Unknown,
}

impl PartialEq for SubmitBlockingStatus {
    fn eq(&self, other: &SubmitBlockingStatus) -> (r: bool) {
        match (self, other) {
            (SubmitBlockingStatus::Committed(a), SubmitBlockingStatus::Committed(b)) => *a == *b,
            (SubmitBlockingStatus::Rejected(a), SubmitBlockingStatus::Rejected(b)) => *a == *b,
            (SubmitBlockingStatus::Unknown, SubmitBlockingStatus::Unknown) => true,
            _ => false,
        }
    }
}

impl vstd::std_specs::cmp::PartialEqSpecImpl for SubmitBlockingStatus {
    open spec fn obeys_eq_spec() -> bool {
        true
    }

    open spec fn eq_spec(&self, other: &SubmitBlockingStatus) -> bool {
        match (self, other) {
            (SubmitBlockingStatus::Committed(a), SubmitBlockingStatus::Committed(b)) => a == b,
            (SubmitBlockingStatus::Rejected(a), SubmitBlockingStatus::Rejected(b)) => a@ == b@,
            (SubmitBlockingStatus::Unknown, SubmitBlockingStatus::Unknown) => true,
            _ => false,
        }
    }
}

/// Why a blocking submission failed before any outcome was known.
#[derive(Clone, Copy, Debug, PartialEq, Eq, Structural)]
pub enum SubmitError {
    /// The subscription acknowledgment never came.
    HandshakeFailed,
    /// The ledger refused the transaction at the door.
    SubmissionFailed,
    /// The result channel closed without a value.
    ChannelClosed,
}

/// Phase of the blocking-submission protocol.
#[derive(Clone, Debug)]
pub enum SubmitPhase {
    /// Subscribed; the acknowledgment is still outstanding.
    AwaitingAck,
    /// Acknowledged; the transaction may now be submitted.
    ReadyToSubmit,
    /// Submitted; consuming the event stream.
    Listening,
    /// A terminal outcome was reached and delivered.
    Resolved(SubmitBlockingStatus),
    /// The protocol failed; no outcome will come.
    Failed(SubmitError),
}

/// What the caller observed and hands to the state machine.
#[derive(Clone, Debug)]
pub enum SubmitInput {
    /// The subscription acknowledgment arrived.
    Ack,
    /// The acknowledgment channel closed without a value.
    AckClosed,
    /// The submission call returned without error.
    SubmitOk,
    /// The submission call failed.
    SubmitErr,
    /// The event stream yielded an item.
    Stream(StreamItem),
}

/// What the caller must do next.
#[derive(Clone, Debug)]
pub enum SubmitAction {
    /// Keep waiting for the next input.
    Wait,
    /// Submit the transaction now: the subscription is live.
    SubmitTransaction,
    /// Deliver this outcome through the result channel.
    Deliver(SubmitBlockingStatus),
    /// Give the failure to the caller.
    Fail(SubmitError),
}

/// The transition relation of the protocol: from a phase and an input
/// to the next phase and the action owed.
pub open spec fn spec_correlator_step(hash: u64, phase: SubmitPhase, input: SubmitInput) -> (
    SubmitPhase,
    SubmitAction,
) {
    match phase {
        SubmitPhase::AwaitingAck => match input {
            SubmitInput::Ack => (SubmitPhase::ReadyToSubmit, SubmitAction::SubmitTransaction),
            SubmitInput::AckClosed => (
                SubmitPhase::Failed(SubmitError::HandshakeFailed),
                SubmitAction::Fail(SubmitError::HandshakeFailed),
            ),
            _ => (phase, SubmitAction::Wait),
        },
        SubmitPhase::ReadyToSubmit => match input {
            SubmitInput::SubmitOk => (SubmitPhase::Listening, SubmitAction::Wait),
            SubmitInput::SubmitErr => (
                SubmitPhase::Failed(SubmitError::SubmissionFailed),
                SubmitAction::Fail(SubmitError::SubmissionFailed),
            ),
            _ => (phase, SubmitAction::Wait),
        },
        SubmitPhase::Listening => match input {
            SubmitInput::Stream(item) => match item {
                StreamItem::Closed => (
                    SubmitPhase::Resolved(SubmitBlockingStatus::Unknown),
                    SubmitAction::Deliver(SubmitBlockingStatus::Unknown),
                ),
                StreamItem::Event(ev) => match ev {
                    LedgerEvent::Other => (
                        SubmitPhase::Resolved(SubmitBlockingStatus::Unknown),
                        SubmitAction::Deliver(SubmitBlockingStatus::Unknown),
                    ),
                    LedgerEvent::Pipeline(pe) => match pe.status {
                        PipelineStatus::Validating => (SubmitPhase::Listening, SubmitAction::Wait),
                        PipelineStatus::Rejected(reason) => (
                            SubmitPhase::Resolved(SubmitBlockingStatus::Rejected(reason)),
                            SubmitAction::Deliver(SubmitBlockingStatus::Rejected(reason)),
                        ),
                        PipelineStatus::Committed => (
                            SubmitPhase::Resolved(SubmitBlockingStatus::Committed(hash)),
                            SubmitAction::Deliver(SubmitBlockingStatus::Committed(hash)),
                        ),
                    },
                },
            },
            _ => (phase, SubmitAction::Wait),
        },
        SubmitPhase::Resolved(_) => (phase, SubmitAction::Wait),
        SubmitPhase::Failed(_) => (phase, SubmitAction::Wait),
    }
}

/// The correlator for one submission: the transaction's hash and the
/// phase its protocol is in.
pub struct EventCorrelator {
    pub hash: u64,
    pub phase: SubmitPhase,
}

impl EventCorrelator {
    /// A correlator for the transaction with the given hash, waiting
    /// for its subscription to be acknowledged.
    pub fn new(hash: u64) -> (c: EventCorrelator)
        ensures
            c.hash == hash,
            c.phase is AwaitingAck,
    {
        EventCorrelator { hash, phase: SubmitPhase::AwaitingAck }
    }

    /// Advance the protocol by one observed input; returns the action
    /// the caller owes. The transition is exactly
    /// `spec_correlator_step`.
    pub fn step(&mut self, input: SubmitInput) -> (act: SubmitAction)
        ensures
            (final(self).phase, act) == spec_correlator_step(
                old(self).hash,
                old(self).phase,
                input,
            ),
            final(self).hash == old(self).hash,
    {
        match &self.phase {
            SubmitPhase::AwaitingAck => match input {
                SubmitInput::Ack => {
                    self.phase = SubmitPhase::ReadyToSubmit;
                    SubmitAction::SubmitTransaction
                },
                SubmitInput::AckClosed => {
                    self.phase = SubmitPhase::Failed(SubmitError::HandshakeFailed);
                    SubmitAction::Fail(SubmitError::HandshakeFailed)
                },
                _ => SubmitAction::Wait,
            },
            SubmitPhase::ReadyToSubmit => match input {
                SubmitInput::SubmitOk => {
                    self.phase = SubmitPhase::Listening;
                    SubmitAction::Wait
                },
                SubmitInput::SubmitErr => {
                    self.phase = SubmitPhase::Failed(SubmitError::SubmissionFailed);
                    SubmitAction::Fail(SubmitError::SubmissionFailed)
                },
                _ => SubmitAction::Wait,
            },
            SubmitPhase::Listening => match input {
                SubmitInput::Stream(item) => match item {
                    StreamItem::Closed => {
                        self.phase = SubmitPhase::Resolved(SubmitBlockingStatus::Unknown);
                        SubmitAction::Deliver(SubmitBlockingStatus::Unknown)
                    },
                    StreamItem::Event(ev) => match ev {
                        LedgerEvent::Other => {
                            self.phase = SubmitPhase::Resolved(SubmitBlockingStatus::Unknown);
                            SubmitAction::Deliver(SubmitBlockingStatus::Unknown)
                        },
                        LedgerEvent::Pipeline(pe) => match pe.status {
                            PipelineStatus::Validating => SubmitAction::Wait,
                            PipelineStatus::Rejected(reason) => {
                                let delivered = reason.clone();
                                self.phase = SubmitPhase::Resolved(
                                    SubmitBlockingStatus::Rejected(reason),
                                );
                                SubmitAction::Deliver(SubmitBlockingStatus::Rejected(delivered))
                            },
                            PipelineStatus::Committed => {
                                let hash = self.hash;
                                self.phase = SubmitPhase::Resolved(
                                    SubmitBlockingStatus::Committed(hash),
                                );
                                SubmitAction::Deliver(SubmitBlockingStatus::Committed(hash))
                            },
                        },
                    },
                },
                _ => SubmitAction::Wait,
            },
            SubmitPhase::Resolved(_) => SubmitAction::Wait,
            SubmitPhase::Failed(_) => SubmitAction::Wait,
        }
    }
}

/// The phase after feeding a whole sequence of inputs.
pub open spec fn spec_run_correlator(hash: u64, phase: SubmitPhase, inputs: Seq<
    SubmitInput,
>) -> SubmitPhase
    decreases inputs.len(),
{
    if inputs.len() == 0 {
        phase
    } else {
        spec_run_correlator(
            hash,
            spec_correlator_step(hash, phase, inputs[0]).0,
            inputs.drop_first(),
        )
    }
}

/// How many of the actions along a run deliver an outcome into the
/// result channel.
pub open spec fn spec_deliver_count(hash: u64, phase: SubmitPhase, inputs: Seq<
    SubmitInput,
>) -> nat
    decreases inputs.len(),
{
    if inputs.len() == 0 {
        0
    } else {
        let stepped = spec_correlator_step(hash, phase, inputs[0]);
        (if stepped.1 is Deliver {
            1nat
        } else {
            0nat
        }) + spec_deliver_count(hash, stepped.0, inputs.drop_first())
    }
}

/// A finished protocol never moves again: whatever else the stream
/// delivers, a resolved or failed submission keeps its phase.
pub proof fn lemma_terminal_phase_stable(hash: u64, phase: SubmitPhase, inputs: Seq<SubmitInput>)
    requires
        phase is Resolved || phase is Failed,
    ensures
        spec_run_correlator(hash, phase, inputs) == phase,
    decreases inputs.len(),
{
    if inputs.len() > 0 {
        lemma_terminal_phase_stable(hash, phase, inputs.drop_first());
    }
}

/// The outcome of a submission is delivered at most once, whatever
/// the stream sends — re-delivering an event after resolution cannot
/// reach the result channel again.
pub proof fn lemma_deliver_at_most_once(hash: u64, phase: SubmitPhase, inputs: Seq<SubmitInput>)
    ensures
        spec_deliver_count(hash, phase, inputs) <= 1,
        phase is Resolved || phase is Failed ==> spec_deliver_count(hash, phase, inputs) == 0,
    decreases inputs.len(),
{
    if inputs.len() > 0 {
        let stepped = spec_correlator_step(hash, phase, inputs[0]);
        lemma_deliver_at_most_once(hash, stepped.0, inputs.drop_first());
        if stepped.1 is Deliver {
            assert(stepped.0 is Resolved);
        }
    }
}

/// Nothing is submitted before the handshake: while no acknowledgment
/// has been received, the protocol either still waits for it or has
/// failed the handshake, and in particular never reaches the
/// submitting or listening phases.
pub proof fn lemma_no_submit_before_ack(hash: u64, inputs: Seq<SubmitInput>)
    requires
        forall|k: int| 0 <= k < inputs.len() ==> !(#[trigger] inputs[k] is Ack),
    ensures
        spec_run_correlator(hash, SubmitPhase::AwaitingAck, inputs) is AwaitingAck
            || spec_run_correlator(hash, SubmitPhase::AwaitingAck, inputs) == SubmitPhase::Failed(
            SubmitError::HandshakeFailed,
        ),
    decreases inputs.len(),
{
    if inputs.len() > 0 {
        let stepped = spec_correlator_step(hash, SubmitPhase::AwaitingAck, inputs[0]);
        if stepped.0 is AwaitingAck {
            assert(forall|k: int|
                0 <= k < inputs.drop_first().len() ==> !(#[trigger] inputs.drop_first()[k]
                    is Ack));
            lemma_no_submit_before_ack(hash, inputs.drop_first());
        } else {
            lemma_terminal_phase_stable(hash, stepped.0, inputs.drop_first());
        }
    }
}

} // verus!
