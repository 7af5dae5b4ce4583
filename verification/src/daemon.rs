//! Status accounting of a daemon run.
//!
//! In daemon mode a single long-lived listener watches the unfiltered
//! pipeline event stream and classifies every event into the shared
//! status, while the scheduler counts what it sends; no event is
//! matched to an individual submission. `classify_event` fixes the
//! classification, `apply_status_update` applies one update, and the
//! trace lemmas state the run-long invariant: wherever the status is
//! observed, what has resolved never exceeds what was sent, as long as
//! every terminal event answers an earlier submission.

use vstd::prelude::*;

use crate::correlator::LedgerEvent;
use crate::correlator::PipelineStatus;
use crate::status::Status;
use crate::status::StatusView;

verus! {

/// One update to the shared status: so many transactions sent, or one
/// event classified into a terminal category.
#[derive(Clone, Copy, Debug, PartialEq, Eq, Structural)]
pub enum StatusUpdate {
    Sent(usize),
    Committed,
    Rejected,
    Unknown,
}

/// How the daemon's listener classifies an event: validating events
/// are still in flight and count nowhere; terminal pipeline events
/// count into their category; anything else counts as unknown.
pub open spec fn spec_classify_event(ev: LedgerEvent) -> Option<StatusUpdate> {
    match ev {
        LedgerEvent::Pipeline(pe) => match pe.status {
            PipelineStatus::Validating => None,
            PipelineStatus::Rejected(_) => Some(StatusUpdate::Rejected),
            PipelineStatus::Committed => Some(StatusUpdate::Committed),
        },
        LedgerEvent::Other => Some(StatusUpdate::Unknown),
    }
}

/// Classify one observed event; mirrors `spec_classify_event`.
pub fn classify_event(ev: &LedgerEvent) -> (r: Option<StatusUpdate>)
    ensures
        r == spec_classify_event(*ev),
{
    match ev {
        LedgerEvent::Pipeline(pe) => match &pe.status {
            PipelineStatus::Validating => None,
            PipelineStatus::Rejected(_) => Some(StatusUpdate::Rejected),
            PipelineStatus::Committed => Some(StatusUpdate::Committed),
        },
        LedgerEvent::Other => Some(StatusUpdate::Unknown),
    }
}

/// The four counters of a status, without the timestamps.
pub ghost struct StatusCounts {
    pub sent: nat,
    pub committed: nat,
    pub rejected: nat,
    pub unknown: nat,
}

impl StatusCounts {
    pub open spec fn resolved(self) -> nat {
        self.committed + self.rejected + self.unknown
    }
}

/// The counters a status view holds.
pub open spec fn counts_of(v: StatusView) -> StatusCounts {
    StatusCounts {
        sent: v.sent,
        committed: v.committed,
        rejected: v.rejected,
        unknown: v.unknown,
    }
}

/// What one update does to the counters.
pub open spec fn spec_apply_update(c: StatusCounts, u: StatusUpdate) -> StatusCounts {
    match u {
        StatusUpdate::Sent(n) => StatusCounts { sent: (c.sent + n) as nat, ..c },
        StatusUpdate::Committed => StatusCounts { committed: (c.committed + 1) as nat, ..c },
        StatusUpdate::Rejected => StatusCounts { rejected: (c.rejected + 1) as nat, ..c },
        StatusUpdate::Unknown => StatusCounts { unknown: (c.unknown + 1) as nat, ..c },
    }
}

/// Apply one update to the shared status, as the listener and the
/// scheduler do under exclusive access.
pub fn apply_status_update(status: &mut Status, update: StatusUpdate)
    requires
        (update matches StatusUpdate::Sent(n) ==> old(status)@.sent + n <= usize::MAX),
        update is Committed ==> old(status)@.committed < usize::MAX,
        update is Rejected ==> old(status)@.rejected < usize::MAX,
        update is Unknown ==> old(status)@.unknown < usize::MAX,
    ensures
        counts_of(final(status)@) == spec_apply_update(counts_of(old(status)@), update),
        update is Committed ==> final(status)@.latest_committed is Some,
        update is Rejected ==> final(status)@.latest_rejected is Some,
        (update is Sent ==> final(status)@.latest_sent is Some),
        !(update is Committed) ==> final(status)@.latest_committed == old(
            status,
        )@.latest_committed,
        !(update is Rejected) ==> final(status)@.latest_rejected == old(status)@.latest_rejected,
        !(update is Sent) ==> final(status)@.latest_sent == old(status)@.latest_sent,
{
    match update {
        StatusUpdate::Sent(n) => {
            let _ = status.tx_is_sent(n);
        },
        StatusUpdate::Committed => {
            let _ = status.tx_is_committed();
        },
        StatusUpdate::Rejected => {
            let _ = status.tx_is_rejected();
        },
        StatusUpdate::Unknown => {
            status.tx_is_unknown();
        },
    }
}

/// The counters after a whole trace of updates, starting from a fresh
/// status.
pub open spec fn spec_run_updates(trace: Seq<StatusUpdate>) -> StatusCounts
    decreases trace.len(),
{
    if trace.len() == 0 {
        StatusCounts { sent: 0, committed: 0, rejected: 0, unknown: 0 }
    } else {
        spec_apply_update(spec_run_updates(trace.drop_last()), trace.last())
    }
}

/// Transactions a trace records as sent.
pub open spec fn sent_total(trace: Seq<StatusUpdate>) -> nat
    decreases trace.len(),
{
    if trace.len() == 0 {
        0
    } else {
        (match trace.last() {
            StatusUpdate::Sent(n) => n as nat,
            _ => 0,
        }) + sent_total(trace.drop_last())
    }
}

/// Terminal classifications a trace records.
pub open spec fn terminal_total(trace: Seq<StatusUpdate>) -> nat
    decreases trace.len(),
{
    if trace.len() == 0 {
        0
    } else {
        (if trace.last() is Sent {
            0nat
        } else {
            1nat
        }) + terminal_total(trace.drop_last())
    }
}

/// The counters after a trace are exactly its totals.
pub proof fn lemma_run_updates_counts(trace: Seq<StatusUpdate>)
    ensures
        spec_run_updates(trace).sent == sent_total(trace),
        spec_run_updates(trace).resolved() == terminal_total(trace),
    decreases trace.len(),
{
    if trace.len() > 0 {
        lemma_run_updates_counts(trace.drop_last());
    }
}

/// A trace is causal when, up to any point, no more events were
/// classified than transactions had been sent: every terminal event
/// answers an earlier submission.
pub open spec fn causal_trace(trace: Seq<StatusUpdate>) -> bool {
    forall|i: int|
        0 <= i <= trace.len() ==> terminal_total(#[trigger] trace.take(i)) <= sent_total(
            trace.take(i),
        )
}

/// Throughout a causal daemon run, at every observation point, the
/// resolved transactions never outnumber the sent ones.
pub proof fn lemma_sent_covers_resolved_throughout(trace: Seq<StatusUpdate>)
    requires
        causal_trace(trace),
    ensures
        forall|i: int|
            0 <= i <= trace.len() ==> spec_run_updates(#[trigger] trace.take(i)).resolved()
                <= spec_run_updates(trace.take(i)).sent,
{
    assert forall|i: int|
        0 <= i <= trace.len() implies spec_run_updates(#[trigger] trace.take(i)).resolved()
        <= spec_run_updates(trace.take(i)).sent by {
        lemma_run_updates_counts(trace.take(i));
    }
}

} // verus!
