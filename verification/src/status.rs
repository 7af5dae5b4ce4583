//! Aggregate counters for submitted transactions and their outcomes.
//!
//! A `Status` holds how many transactions were sent and how many were
//! seen to commit, to be rejected, or to end in an indeterminate state,
//! together with the time each category was last touched. It is the one
//! value shared between the scheduler, the event listeners and the
//! status endpoint; every mutation goes through one of the `tx_is_*`
//! methods below.

use vstd::prelude::*;

use crate::clock::now_millis;

verus! {

/// Mathematical content of a `Status`: the four counters and the three
/// optional timestamps (milliseconds since the Unix epoch).
pub ghost struct StatusView {
    pub committed: nat,
    pub rejected: nat,
    pub sent: nat,
    pub unknown: nat,
    pub latest_committed: Option<int>,
    pub latest_rejected: Option<int>,
    pub latest_sent: Option<int>,
}

impl StatusView {
    /// How many transactions have reached a terminal classification.
    pub open spec fn resolved(self) -> nat {
        self.committed + self.rejected + self.unknown
    }

    /// Every resolved transaction was sent first.
    pub open spec fn sent_covers_resolved(self) -> bool {
        self.resolved() <= self.sent
    }
}

/// Counters and timestamps of one load-generating run.
#[derive(Clone, Debug)]
pub struct Status {
    txs_committed: usize,
    txs_rejected: usize,
    txs_sent: usize,
    txs_unknown: usize,
    latest_committed_transaction: Option<i64>,
    latest_rejected_transaction: Option<i64>,
    latest_sent_at: Option<i64>,
}

impl View for Status {
    type V = StatusView;

    closed spec fn view(&self) -> StatusView {
        StatusView {
            committed: self.txs_committed as nat,
            rejected: self.txs_rejected as nat,
            sent: self.txs_sent as nat,
            unknown: self.txs_unknown as nat,
            latest_committed: match self.latest_committed_transaction {
                Some(t) => Some(t as int),
                None => None,
            },
            latest_rejected: match self.latest_rejected_transaction {
                Some(t) => Some(t as int),
                None => None,
            },
            latest_sent: match self.latest_sent_at {
                Some(t) => Some(t as int),
                None => None,
            },
        }
    }
}

impl Default for Status {
    /// A fresh status: nothing sent, nothing resolved, no timestamps.
    fn default() -> (s: Status)
        ensures
            s@ == (StatusView {
                committed: 0,
                rejected: 0,
                sent: 0,
                unknown: 0,
                latest_committed: None,
                latest_rejected: None,
                latest_sent: None,
            }),
    {
        Status {
            txs_committed: 0,
            txs_rejected: 0,
            txs_sent: 0,
            txs_unknown: 0,
            latest_committed_transaction: None,
            latest_rejected_transaction: None,
            latest_sent_at: None,
        }
    }
}

impl Status {
    /// Record that `txs_count` further transactions were handed to the
    /// ledger; stamps the time of sending and returns the previous
    /// stamp.
    pub fn tx_is_sent(&mut self, txs_count: usize) -> (prev: Option<i64>)
        requires
            old(self)@.sent + txs_count <= usize::MAX,
        ensures
            final(self)@.sent == old(self)@.sent + txs_count,
            final(self)@.committed == old(self)@.committed,
            final(self)@.rejected == old(self)@.rejected,
            final(self)@.unknown == old(self)@.unknown,
            final(self)@.latest_committed == old(self)@.latest_committed,
            final(self)@.latest_rejected == old(self)@.latest_rejected,
            final(self)@.latest_sent is Some,
            (match prev {
                None => old(self)@.latest_sent is None,
                Some(ts) => old(self)@.latest_sent == Some(ts as int),
            }),
    {
        self.txs_sent = self.txs_sent + txs_count;
        let prev = self.latest_sent_at;
        self.latest_sent_at = Some(now_millis());
        prev
    }

    /// Record one transaction seen to commit; stamps the time and
    /// returns the previous stamp.
    pub fn tx_is_committed(&mut self) -> (prev: Option<i64>)
        requires
            old(self)@.committed < usize::MAX,
        ensures
            final(self)@.committed == old(self)@.committed + 1,
            final(self)@.rejected == old(self)@.rejected,
            final(self)@.sent == old(self)@.sent,
            final(self)@.unknown == old(self)@.unknown,
            final(self)@.latest_rejected == old(self)@.latest_rejected,
            final(self)@.latest_sent == old(self)@.latest_sent,
            final(self)@.latest_committed is Some,
            (match prev {
                None => old(self)@.latest_committed is None,
                Some(ts) => old(self)@.latest_committed == Some(ts as int),
            }),
    {
        self.txs_committed = self.txs_committed + 1;
        let prev = self.latest_committed_transaction;
        self.latest_committed_transaction = Some(now_millis());
        prev
    }

    /// Record one transaction seen to be rejected; stamps the time and
    /// returns the previous stamp.
    pub fn tx_is_rejected(&mut self) -> (prev: Option<i64>)
        requires
            old(self)@.rejected < usize::MAX,
        ensures
            final(self)@.rejected == old(self)@.rejected + 1,
            final(self)@.committed == old(self)@.committed,
            final(self)@.sent == old(self)@.sent,
            final(self)@.unknown == old(self)@.unknown,
            final(self)@.latest_committed == old(self)@.latest_committed,
            final(self)@.latest_sent == old(self)@.latest_sent,
            final(self)@.latest_rejected is Some,
            (match prev {
                None => old(self)@.latest_rejected is None,
                Some(ts) => old(self)@.latest_rejected == Some(ts as int),
            }),
    {
        self.txs_rejected = self.txs_rejected + 1;
        let prev = self.latest_rejected_transaction;
        self.latest_rejected_transaction = Some(now_millis());
        prev
    }

    /// Record one transaction whose outcome could not be classified.
    /// No timestamp is kept for this category.
    pub fn tx_is_unknown(&mut self)
        requires
            old(self)@.unknown < usize::MAX,
        ensures
            final(self)@.unknown == old(self)@.unknown + 1,
            final(self)@.committed == old(self)@.committed,
            final(self)@.rejected == old(self)@.rejected,
            final(self)@.sent == old(self)@.sent,
            final(self)@.latest_committed == old(self)@.latest_committed,
            final(self)@.latest_rejected == old(self)@.latest_rejected,
            final(self)@.latest_sent == old(self)@.latest_sent,
    {
        self.txs_unknown = self.txs_unknown + 1;
    }

    /// Assemble a status from its parts, as the JSON parser decodes
    /// them.
    pub fn from_parts(
        committed: usize,
        rejected: usize,
        sent: usize,
        unknown: usize,
        latest_committed: Option<i64>,
        latest_rejected: Option<i64>,
        latest_sent: Option<i64>,
    ) -> (s: Status)
        ensures
            s@ == (StatusView {
                committed: committed as nat,
                rejected: rejected as nat,
                sent: sent as nat,
                unknown: unknown as nat,
                latest_committed: match latest_committed {
                    Some(t) => Some(t as int),
                    None => None,
                },
                latest_rejected: match latest_rejected {
                    Some(t) => Some(t as int),
                    None => None,
                },
                latest_sent: match latest_sent {
                    Some(t) => Some(t as int),
                    None => None,
                },
            }),
    {
        Status {
            txs_committed: committed,
            txs_rejected: rejected,
            txs_sent: sent,
            txs_unknown: unknown,
            latest_committed_transaction: latest_committed,
            latest_rejected_transaction: latest_rejected,
            latest_sent_at: latest_sent,
        }
    }

    pub fn committed_count(&self) -> (n: usize)
        ensures
            n == self@.committed,
    {
        self.txs_committed
    }

    pub fn rejected_count(&self) -> (n: usize)
        ensures
            n == self@.rejected,
    {
        self.txs_rejected
    }

    pub fn sent_count(&self) -> (n: usize)
        ensures
            n == self@.sent,
    {
        self.txs_sent
    }

    pub fn unknown_count(&self) -> (n: usize)
        ensures
            n == self@.unknown,
    {
        self.txs_unknown
    }

    pub fn latest_committed_millis(&self) -> (t: Option<i64>)
        ensures
            (match t {
                None => self@.latest_committed is None,
                Some(ts) => self@.latest_committed == Some(ts as int),
            }),
    {
        self.latest_committed_transaction
    }


    pub fn latest_rejected_millis(&self) -> (t: Option<i64>)
        ensures
            (match t {
                None => self@.latest_rejected is None,
                Some(ts) => self@.latest_rejected == Some(ts as int),
            }),
    {
        self.latest_rejected_transaction
    }


    pub fn latest_sent_millis(&self) -> (t: Option<i64>)
        ensures
            (match t {
                None => self@.latest_sent is None,
                Some(ts) => self@.latest_sent == Some(ts as int),
            }),
    {
        self.latest_sent_at
    }

}

/// The view of a real status always fits the machine: the counters
/// came from `usize` fields and the timestamps from `i64` fields.
pub proof fn lemma_status_view_fits(s: &Status)
    ensures
        s@.committed <= usize::MAX,
        s@.rejected <= usize::MAX,
        s@.sent <= usize::MAX,
        s@.unknown <= usize::MAX,
        (s@.latest_committed matches Some(t) ==> i64::MIN <= t <= i64::MAX),
        (s@.latest_rejected matches Some(t) ==> i64::MIN <= t <= i64::MAX),
        (s@.latest_sent matches Some(t) ==> i64::MIN <= t <= i64::MAX),
{
}

impl PartialEq for Status {
    fn eq(&self, other: &Status) -> (r: bool) {
        self.txs_committed == other.txs_committed && self.txs_rejected == other.txs_rejected
            && self.txs_sent == other.txs_sent && self.txs_unknown == other.txs_unknown
            && opt_millis_eq(&self.latest_committed_transaction, &other.latest_committed_transaction)
            && opt_millis_eq(&self.latest_rejected_transaction, &other.latest_rejected_transaction)
            && opt_millis_eq(&self.latest_sent_at, &other.latest_sent_at)
    }
}

impl vstd::std_specs::cmp::PartialEqSpecImpl for Status {
    open spec fn obeys_eq_spec() -> bool {
        true
    }

    open spec fn eq_spec(&self, other: &Status) -> bool {
        self@ == other@
    }
}

fn opt_millis_eq(a: &Option<i64>, b: &Option<i64>) -> (r: bool)
    ensures
        r == (a == b),
{
    match (a, b) {
        (None, None) => true,
        (Some(x), Some(y)) => x == y,
        _ => false,
    }
}

} // verus!
