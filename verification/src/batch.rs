//! Joining the outcomes of one concurrent batch into a final status.
//!
//! One-shot mode fires N independent blocking submissions and reports
//! a single aggregate once all of them have resolved. Aggregation is a
//! commutative accumulation over the terminal outcomes; its contract
//! counts every submission into exactly one of the three terminal
//! categories, so committed, rejected and unknown always add up to N.

use vstd::prelude::*;

use crate::correlator::SubmitBlockingStatus;
use crate::status::Status;

verus! {

pub open spec fn count_committed(s: Seq<SubmitBlockingStatus>) -> nat
    decreases s.len(),
{
    if s.len() == 0 {
        0
    } else {
        (if s.last() is Committed {
            1nat
        } else {
            0nat
        }) + count_committed(s.drop_last())
    }
}

pub open spec fn count_rejected(s: Seq<SubmitBlockingStatus>) -> nat
    decreases s.len(),
{
    if s.len() == 0 {
        0
    } else {
        (if s.last() is Rejected {
            1nat
        } else {
            0nat
        }) + count_rejected(s.drop_last())
    }
}

pub open spec fn count_unknown(s: Seq<SubmitBlockingStatus>) -> nat
    decreases s.len(),
{
    if s.len() == 0 {
        0
    } else {
        (if s.last() is Unknown {
            1nat
        } else {
            0nat
        }) + count_unknown(s.drop_last())
    }
}

/// Every submission of a batch reaches exactly one terminal state:
/// over any list of outcomes, the three categories partition it.
pub proof fn lemma_every_outcome_counted(s: Seq<SubmitBlockingStatus>)
    ensures
        count_committed(s) + count_rejected(s) + count_unknown(s) == s.len(),
    decreases s.len(),
{
    if s.len() > 0 {
        lemma_every_outcome_counted(s.drop_last());
    }
}

/// Count one resolved outcome into the status, as the task that owned
/// the submission does when it finishes.
pub fn record_outcome(status: &mut Status, outcome: &SubmitBlockingStatus)
    requires
        outcome is Committed ==> old(status)@.committed < usize::MAX,
        outcome is Rejected ==> old(status)@.rejected < usize::MAX,
        outcome is Unknown ==> old(status)@.unknown < usize::MAX,
    ensures
        final(status)@.committed == old(status)@.committed + (if outcome is Committed {
            1int
        } else {
            0int
        }),
        final(status)@.rejected == old(status)@.rejected + (if outcome is Rejected {
            1int
        } else {
            0int
        }),
        final(status)@.unknown == old(status)@.unknown + (if outcome is Unknown {
            1int
        } else {
            0int
        }),
        final(status)@.sent == old(status)@.sent,
        final(status)@.latest_sent == old(status)@.latest_sent,
{
    match outcome {
        SubmitBlockingStatus::Committed(_) => {
            let _ = status.tx_is_committed();
        },
        SubmitBlockingStatus::Rejected(_) => {
            let _ = status.tx_is_rejected();
        },
        SubmitBlockingStatus::Unknown => {
            status.tx_is_unknown();
        },
    }
}

/// Join a finished batch: N submissions sent, and each outcome
/// counted into its category — so the three categories add up to N.
pub fn aggregate_outcomes(outcomes: &Vec<SubmitBlockingStatus>) -> (st: Status)
    ensures
        st@.sent == outcomes@.len(),
        st@.committed == count_committed(outcomes@),
        st@.rejected == count_rejected(outcomes@),
        st@.unknown == count_unknown(outcomes@),
        st@.resolved() == outcomes@.len(),
        st@.sent_covers_resolved(),
{
    let mut st = Status::default();
    let _ = st.tx_is_sent(outcomes.len());
    let mut i: usize = 0;
    while i < outcomes.len()
        invariant
            i <= outcomes@.len(),
            st@.sent == outcomes@.len(),
            st@.committed == count_committed(outcomes@.subrange(0, i as int)),
            st@.rejected == count_rejected(outcomes@.subrange(0, i as int)),
            st@.unknown == count_unknown(outcomes@.subrange(0, i as int)),
        decreases outcomes@.len() - i,
    {
        proof {
            let prefix = outcomes@.subrange(0, i + 1);
            assert(prefix.drop_last() =~= outcomes@.subrange(0, i as int));
            assert(prefix.last() == outcomes@[i as int]);
            lemma_every_outcome_counted(outcomes@.subrange(0, i as int));
        }
        record_outcome(&mut st, &outcomes[i]);
        i = i + 1;
    }
    proof {
        assert(outcomes@.subrange(0, outcomes@.len() as int) =~= outcomes@);
        lemma_every_outcome_counted(outcomes@);
    }
    st
}

} // verus!
