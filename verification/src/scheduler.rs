//! The rate-limited scheduler's queue of operations and its pacing.
//!
//! The daemon drives a queue of (operation kind, remaining repetitions)
//! entries: each round it attempts one unit of work per entry, counts a
//! success against the entry's remainder, keeps the entry untouched on
//! failure, and drops it when nothing remains. `spec_note_result` fixes
//! that step; the lemmas state the retry guarantee, that a failed
//! submission never lowers any remainder. Once the queue is empty the
//! scheduler turns to heartbeat submissions at the same pace;
//! `remaining_delay` gives the sleep that holds each pace.

use vstd::prelude::*;

use crate::operation::Operation;
use crate::status::Status;

verus! {

/// One queue entry: an operation kind and how many repetitions of it
/// are still owed.
#[derive(Clone, Copy, Debug, PartialEq, Eq, Structural)]
pub struct QueueEntry {
    pub op: Operation,
    pub remaining: usize,
}

/// The queue a well-formed scheduler holds: every entry still owes
/// work, and no kind appears twice.
pub open spec fn queue_wf(q: Seq<QueueEntry>) -> bool {
    &&& (forall|i: int| 0 <= i < q.len() ==> (#[trigger] q[i]).remaining >= 1)
    &&& (forall|i: int, j: int| 0 <= i < j < q.len() ==> q[i].op != q[j].op)
}

/// Whether some entry of `q` carries the kind `op`.
pub open spec fn queue_contains_op(q: Seq<QueueEntry>, op: Operation) -> bool {
    exists|i: int| 0 <= i < q.len() && (#[trigger] q[i]).op == op
}

/// The queue built from a list of kinds: each distinct kind once, in
/// first-appearance order, owing `count` repetitions.
pub open spec fn spec_build_queue(ops: Seq<Operation>, count: usize) -> Seq<QueueEntry>
    decreases ops.len(),
{
    if ops.len() == 0 {
        Seq::empty()
    } else {
        let prefix = spec_build_queue(ops.drop_last(), count);
        if queue_contains_op(prefix, ops.last()) {
            prefix
        } else {
            prefix.push(QueueEntry { op: ops.last(), remaining: count })
        }
    }
}

/// What one unit of work does to the queue: nothing on failure; on
/// success one repetition less at `index`, and the entry leaves when
/// none remain.
pub open spec fn spec_note_result(q: Seq<QueueEntry>, index: int, success: bool) -> Seq<
    QueueEntry,
> {
    if !success {
        q
    } else if q[index].remaining > 1 {
        q.update(index, QueueEntry { op: q[index].op, remaining: (q[index].remaining - 1) as usize })
    } else {
        q.remove(index)
    }
}

/// Repetitions still owed for the kind `op`, over the whole queue.
pub open spec fn remaining_of(q: Seq<QueueEntry>, op: Operation) -> nat
    decreases q.len(),
{
    if q.len() == 0 {
        0
    } else {
        (if q.last().op == op {
            q.last().remaining as nat
        } else {
            0
        }) + remaining_of(q.drop_last(), op)
    }
}

/// Whether the scheduler still drains real work or has fallen back to
/// heartbeat submissions.
#[derive(Clone, Copy, Debug, PartialEq, Eq, Structural)]
pub enum SchedulerMode {
    Draining,
    Heartbeat,
}

/// The scheduler's queue of operation kinds with their remaining
/// repetitions.
#[derive(Clone, Debug)]
pub struct OperationQueue {
    entries: Vec<QueueEntry>,
}

impl View for OperationQueue {
    type V = Seq<QueueEntry>;

    closed spec fn view(&self) -> Seq<QueueEntry> {
        self.entries@
    }
}

impl OperationQueue {
    /// Build the queue for the given kinds, each owing `count`
    /// repetitions; a kind named twice is queued once.
    pub fn from_operations(ops: &Vec<Operation>, count: usize) -> (q: OperationQueue)
        requires
            count >= 1,
        ensures
            q@ == spec_build_queue(ops@, count),
            queue_wf(q@),
    {
        let mut entries: Vec<QueueEntry> = Vec::new();
        let mut i: usize = 0;
        while i < ops.len()
            invariant
                i <= ops@.len(),
                entries@ == spec_build_queue(ops@.subrange(0, i as int), count),
            decreases ops@.len() - i,
        {
            let op = ops[i];
            proof {
                assert(ops@.subrange(0, i + 1).drop_last() =~= ops@.subrange(0, i as int));
                assert(ops@.subrange(0, i + 1).last() == ops@[i as int]);
            }
            if !contains_op(&entries, op) {
                entries.push(QueueEntry { op, remaining: count });
            }
            i = i + 1;
        }
        proof {
            assert(ops@.subrange(0, ops@.len() as int) =~= ops@);
            lemma_build_queue_wf(ops@, count);
        }
        OperationQueue { entries }
    }

    pub fn len(&self) -> (n: usize)
        ensures
            n == self@.len(),
    {
        self.entries.len()
    }

    /// Heartbeat mode begins exactly when no work remains.
    pub fn mode(&self) -> (m: SchedulerMode)
        ensures
            m is Heartbeat <==> self@.len() == 0,
    {
        if self.entries.len() == 0 {
            SchedulerMode::Heartbeat
        } else {
            SchedulerMode::Draining
        }
    }

    pub fn op_at(&self, index: usize) -> (op: Operation)
        requires
            index < self@.len(),
        ensures
            op == self@[index as int].op,
    {
        self.entries[index].op
    }

    pub fn remaining_at(&self, index: usize) -> (n: usize)
        requires
            index < self@.len(),
        ensures
            n == self@[index as int].remaining,
    {
        self.entries[index].remaining
    }

    /// Account one unit of work at `index`: a failure leaves the
    /// queue exactly as it was, a success takes one repetition off.
    pub fn note_result(&mut self, index: usize, success: bool)
        requires
            index < old(self)@.len(),
            queue_wf(old(self)@),
        ensures
            final(self)@ == spec_note_result(old(self)@, index as int, success),
            queue_wf(final(self)@),
            !success ==> final(self)@ == old(self)@,
    {
        if success {
            let entry = self.entries[index];
            if entry.remaining > 1 {
                self.entries.set(
                    index,
                    QueueEntry { op: entry.op, remaining: entry.remaining - 1 },
                );
            } else {
                self.entries.remove(index);
            }
        }
        proof {
            lemma_note_result_wf(old(self)@, index as int, success);
        }
    }
}

/// Whether some entry of `entries` carries the kind `op`.
fn contains_op(entries: &Vec<QueueEntry>, op: Operation) -> (r: bool)
    ensures
        r == queue_contains_op(entries@, op),
{
    let mut j: usize = 0;
    while j < entries.len()
        invariant
            j <= entries@.len(),
            forall|k: int| 0 <= k < j ==> (#[trigger] entries@[k]).op != op,
        decreases entries@.len() - j,
    {
        if entries[j].op == op {
            return true;
        }
        j = j + 1;
    }
    false
}

/// A built queue is well-formed, and holds exactly the kinds that
/// were asked for.
pub proof fn lemma_build_queue_wf(ops: Seq<Operation>, count: usize)
    requires
        count >= 1,
    ensures
        queue_wf(spec_build_queue(ops, count)),
        forall|op: Operation|
            #[trigger] queue_contains_op(spec_build_queue(ops, count), op) <==> ops.contains(op),
        forall|i: int|
            0 <= i < spec_build_queue(ops, count).len() ==> (#[trigger] spec_build_queue(
                ops,
                count,
            )[i]).remaining == count,
    decreases ops.len(),
{
    if ops.len() > 0 {
        lemma_build_queue_wf(ops.drop_last(), count);
        let prefix = spec_build_queue(ops.drop_last(), count);
        let whole = spec_build_queue(ops, count);
        if !queue_contains_op(prefix, ops.last()) {
            assert(whole == prefix.push(QueueEntry { op: ops.last(), remaining: count }));
            assert(forall|i: int|
                0 <= i < prefix.len() ==> (#[trigger] whole[i]) == prefix[i]);
            assert(whole.last().op == ops.last());
        }
        assert forall|op: Operation|
            #[trigger] queue_contains_op(whole, op) implies ops.contains(op) by {
            let i = choose|i: int| 0 <= i < whole.len() && (#[trigger] whole[i]).op == op;
            if i < prefix.len() {
                assert(queue_contains_op(prefix, op));
                let k = choose|k: int|
                    0 <= k < ops.drop_last().len() && #[trigger] ops.drop_last()[k] == op;
                assert(ops[k] == op);
            } else {
                assert(ops.last() == op);
            }
        }
        assert forall|op: Operation|
            #[trigger] ops.contains(op) implies queue_contains_op(whole, op) by {
            let k = choose|k: int| 0 <= k < ops.len() && #[trigger] ops[k] == op;
            if k < ops.len() - 1 {
                assert(ops.drop_last()[k] == op);
                assert(ops.drop_last().contains(op));
                assert(queue_contains_op(prefix, op));
                let i = choose|i: int| 0 <= i < prefix.len() && (#[trigger] prefix[i]).op == op;
                assert(whole[i].op == op);
            } else {
                assert(op == ops.last());
                if queue_contains_op(prefix, op) {
                    let i = choose|i: int|
                        0 <= i < prefix.len() && (#[trigger] prefix[i]).op == op;
                    assert(whole[i].op == op);
                } else {
                    assert(whole.last().op == op);
                    assert(whole[whole.len() - 1].op == op);
                }
            }
        }
    }
}

/// `remaining_of` under an update at one index.
proof fn lemma_remaining_of_update(q: Seq<QueueEntry>, index: int, e: QueueEntry, op: Operation)
    requires
        0 <= index < q.len(),
    ensures
        remaining_of(q.update(index, e), op) == remaining_of(q, op) - (if q[index].op == op {
            q[index].remaining as nat
        } else {
            0nat
        }) + (if e.op == op {
            e.remaining as nat
        } else {
            0nat
        }),
    decreases q.len(),
{
    let u = q.update(index, e);
    if index == q.len() - 1 {
        assert(u.drop_last() =~= q.drop_last());
        assert(u.last() == e);
    } else {
        assert(u.drop_last() =~= q.drop_last().update(index, e));
        assert(u.last() == q.last());
        lemma_remaining_of_update(q.drop_last(), index, e, op);
    }
}

/// `remaining_of` under removal of one index.
proof fn lemma_remaining_of_remove(q: Seq<QueueEntry>, index: int, op: Operation)
    requires
        0 <= index < q.len(),
    ensures
        remaining_of(q.remove(index), op) == remaining_of(q, op) - (if q[index].op == op {
            q[index].remaining as nat
        } else {
            0nat
        }),
    decreases q.len(),
{
    let r = q.remove(index);
    if index == q.len() - 1 {
        assert(r =~= q.drop_last());
    } else {
        assert(r.drop_last() =~= q.drop_last().remove(index));
        assert(r.last() == q.last());
        lemma_remaining_of_remove(q.drop_last(), index, op);
    }
}

/// One unit of work keeps the queue well-formed.
proof fn lemma_note_result_wf(q: Seq<QueueEntry>, index: int, success: bool)
    requires
        0 <= index < q.len(),
        queue_wf(q),
    ensures
        queue_wf(spec_note_result(q, index, success)),
{
    if success && q[index].remaining <= 1 {
        let r = q.remove(index);
        assert(forall|i: int|
            0 <= i < r.len() ==> (#[trigger] r[i]) == (if i < index {
                q[i]
            } else {
                q[i + 1]
            }));
    }
}

/// The retry guarantee: a unit of work never raises what is owed, a
/// failure changes nothing at all, and a success lowers exactly the
/// kind it worked on, by exactly one.
pub proof fn lemma_count_decreases_only_on_success(
    q: Seq<QueueEntry>,
    index: int,
    success: bool,
    op: Operation,
)
    requires
        0 <= index < q.len(),
        queue_wf(q),
    ensures
        remaining_of(spec_note_result(q, index, success), op) <= remaining_of(q, op),
        !success ==> spec_note_result(q, index, success) == q,
        success && q[index].op == op ==> remaining_of(spec_note_result(q, index, success), op)
            == remaining_of(q, op) - 1,
        success && q[index].op != op ==> remaining_of(spec_note_result(q, index, success), op)
            == remaining_of(q, op),
{
    if success {
        if q[index].remaining > 1 {
            lemma_remaining_of_update(
                q,
                index,
                QueueEntry { op: q[index].op, remaining: (q[index].remaining - 1) as usize },
                op,
            );
            if q[index].op == op {
                lemma_remaining_of_at_least_entry(q, index, op);
            }
        } else {
            lemma_remaining_of_remove(q, index, op);
            if q[index].op == op {
                lemma_remaining_of_at_least_entry(q, index, op);
            }
        }
    }
}

/// What one entry owes is part of what its kind owes overall.
proof fn lemma_remaining_of_at_least_entry(q: Seq<QueueEntry>, index: int, op: Operation)
    requires
        0 <= index < q.len(),
        q[index].op == op,
    ensures
        remaining_of(q, op) >= q[index].remaining,
    decreases q.len(),
{
    lemma_remaining_of_nonneg(q.drop_last(), op);
    if index == q.len() - 1 {
    } else {
        assert(q.drop_last()[index] == q[index]);
        lemma_remaining_of_at_least_entry(q.drop_last(), index, op);
    }
}

/// No kind ever owes a negative number of repetitions.
proof fn lemma_remaining_of_nonneg(q: Seq<QueueEntry>, op: Operation)
    ensures
        remaining_of(q, op) >= 0,
{
}

/// Account one attempted unit of work against queue and status at
/// once: a successful submission of `txs` transactions is counted as
/// sent and taken off the entry's remainder; a failed one changes
/// neither, and the entry will be retried.
pub fn record_unit_result(
    queue: &mut OperationQueue,
    status: &mut Status,
    index: usize,
    submitted: Option<usize>,
)
    requires
        index < old(queue)@.len(),
        queue_wf(old(queue)@),
        (submitted matches Some(txs) ==> old(status)@.sent + txs <= usize::MAX),
    ensures
        final(queue)@ == spec_note_result(old(queue)@, index as int, submitted is Some),
        queue_wf(final(queue)@),
        (match submitted {
            None => final(status)@ == old(status)@,
            Some(txs) => final(status)@.sent == old(status)@.sent + txs && final(status)@.committed
                == old(status)@.committed && final(status)@.rejected == old(status)@.rejected
                && final(status)@.unknown == old(status)@.unknown && final(status)@.latest_sent
                is Some,
        }),
{
    match submitted {
        None => {},
        Some(txs) => {
            status.tx_is_sent(txs);
            queue.note_result(index, true);
        },
    }
}

/// How long the scheduler still has to sleep so that a unit that took
/// `elapsed_micros` does not end before the configured interval.
pub open spec fn spec_remaining_delay(interval_micros: u64, elapsed_micros: u64) -> u64 {
    if elapsed_micros < interval_micros {
        (interval_micros - elapsed_micros) as u64
    } else {
        0
    }
}

/// The sleep owed after one unit of work: whatever is left of the
/// interval, and nothing once the unit already took that long. The
/// pace is an upper bound on throughput, never a debt: a slow unit is
/// not compensated later.
pub fn remaining_delay(interval_micros: u64, elapsed_micros: u64) -> (d: u64)
    ensures
        d == spec_remaining_delay(interval_micros, elapsed_micros),
        elapsed_micros + d >= interval_micros,
        d <= interval_micros,
        elapsed_micros >= interval_micros ==> d == 0,
        elapsed_micros < interval_micros ==> elapsed_micros + d == interval_micros,
{
    if elapsed_micros < interval_micros {
        interval_micros - elapsed_micros
    } else {
        0
    }
}

/// Two consecutive submissions are spaced by at least the configured
/// interval: the next one starts only after the unit's own time plus
/// the remaining delay.
pub proof fn lemma_submissions_spaced(start: int, elapsed_micros: u64, interval_micros: u64)
    ensures
        start + elapsed_micros + spec_remaining_delay(interval_micros, elapsed_micros) >= start
            + interval_micros,
{
}

} // verus!
