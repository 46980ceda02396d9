//! Queue-wide operations: cancel, retry, pause, clear and snapshot.
use vstd::prelude::*;
use crate::models::{TransferJob, TransferQueueSnapshot, clone_opt_string};
use super::aggregate::{any_in, count_items, first_in, is_refreshed, refresh_batch_aggregate, any_child_in, opt_text};
use super::queue::{
    ChildSweep, as_cancelled, as_cancelling, as_retried, batch_index, batch_updated, cancel_batch, cancel_child,
    cancelled_items, child_position, find_batch_index, find_child_indices, first_index, lemma_first_index_is,
    lemma_first_index_none, mark_child_cancelling, reset_child_for_retry, retry_batch, same_batch_frame, swept,
    sweep_children,
};
use super::{JobState, StateClass, TransferBatchRecord, TransferChildRecord, TransferState, in_class, job_matches_view,
    others_unchanged, same_queue_frame, state_in};

verus! {

/// The effect of cancelling one item: its new form, and whether its running
/// transfer must be told to stop.
pub open spec fn child_cancel_effect(c: TransferChildRecord) -> (TransferChildRecord, bool) {
    if c.view.state is Queued || c.view.state is Checking || c.view.state is AwaitingConflictDecision {
        (as_cancelled(c), true)
    } else if c.view.state is Running || c.view.state is Cancelling {
        (as_cancelling(c), true)
    } else {
        (c, false)
    }
}

/// Cancels the batch whose id is `job_id`. Returns whether there was one, and the
/// id of the item whose running transfer must be told to stop.
pub fn cancel_batch_by_id(state: &mut TransferState, job_id: &str) -> (r: (bool, Option<String>))
    ensures
        same_queue_frame(*old(state), *final(state)),
        match batch_index(old(state).batches@, job_id@) {
            None => final(state).batches@ == old(state).batches@ && r == (false, None::<String>),
            Some(i) => {
                let ob = old(state).batches@[i];
                let nb = final(state).batches@[i];
                &&& r.0
                &&& others_unchanged(old(state).batches@, final(state).batches@, i)
                &&& batch_updated(nb, ob, None, true, cancelled_items(ob.children@))
                &&& nb.conflict_policy == ob.conflict_policy
                &&& r.1 == (match first_in(ob.children@, StateClass::Active) {
                    Some(k) => Some(ob.children@[k].id),
                    None => None,
                })
            },
        },
{
    match find_batch_index(state, job_id) {
        None => (false, None),
        Some(i) => {
            let signal = cancel_batch(&mut state.batches[i]);
            (true, signal)
        }
    }
}

/// Cancels the item whose id is `job_id`. Returns the id of the item whose running
/// transfer must be told to stop.
pub fn cancel_child_by_id(state: &mut TransferState, job_id: &str) -> (signal: Option<String>)
    ensures
        same_queue_frame(*old(state), *final(state)),
        match child_position(old(state).batches@, job_id@) {
            None => final(state).batches@ == old(state).batches@ && signal is None,
            Some((b, c)) => {
                let ob = old(state).batches@[b];
                let nb = final(state).batches@[b];
                let effect = child_cancel_effect(ob.children@[c]);
                &&& others_unchanged(old(state).batches@, final(state).batches@, b)
                &&& batch_updated(nb, ob, ob.pause_message, ob.cancel_requested, ob.children@.update(c, effect.0))
                &&& nb.conflict_policy == ob.conflict_policy
                &&& signal == (if effect.1 { Some(ob.children@[c].id) } else { None })
            },
        },
{
    let Some((b, c)) = find_child_indices(state, job_id) else {
        return None;
    };
    cancel_child_in_batch(&mut state.batches[b], c)
}

/// Cancels item `c` of a batch and brings the batch view up to date.
fn cancel_child_in_batch(batch: &mut TransferBatchRecord, c: usize) -> (signal: Option<String>)
    requires
        c < old(batch).children@.len(),
    ensures
        ({
            let effect = child_cancel_effect(old(batch).children@[c as int]);
            &&& batch_updated(*final(batch), *old(batch), old(batch).pause_message, old(batch).cancel_requested,
                old(batch).children@.update(c as int, effect.0))
            &&& final(batch).conflict_policy == old(batch).conflict_policy
            &&& signal == (if effect.1 { Some(old(batch).children@[c as int].id) } else { None })
        }),
{
    let signal = if apply_child_cancel(&mut batch.children[c]) {
        Some(batch.children[c].id.clone())
    } else {
        None
    };
    refresh_batch_aggregate(batch);
    signal
}

/// Cancels one item in place; returns whether its running transfer must be told to stop.
fn apply_child_cancel(child: &mut TransferChildRecord) -> (stop: bool)
    ensures
        (*final(child), stop) == child_cancel_effect(*old(child)),
{
    match child.view.state {
        JobState::Queued | JobState::Checking | JobState::AwaitingConflictDecision => {
            cancel_child(child);
            true
        }
        JobState::Running | JobState::Cancelling => {
            mark_child_cancelling(child);
            true
        }
        _ => false,
    }
}

/// Retries the batch whose id is `job_id`; returns whether there was one.
pub fn retry_batch_by_id(state: &mut TransferState, job_id: &str) -> (found: bool)
    ensures
        same_queue_frame(*old(state), *final(state)),
        match batch_index(old(state).batches@, job_id@) {
            None => final(state).batches@ == old(state).batches@ && !found,
            Some(i) => {
                let ob = old(state).batches@[i];
                let nb = final(state).batches@[i];
                &&& found
                &&& others_unchanged(old(state).batches@, final(state).batches@, i)
                &&& batch_updated(nb, ob, None, false,
                    ob.children@.map_values(|c: TransferChildRecord| swept(ChildSweep::RetryUnfinished, c)))
                &&& nb.conflict_policy == super::ConflictPolicy::Ask
            },
        },
{
    match find_batch_index(state, job_id) {
        None => false,
        Some(i) => {
            retry_batch(&mut state.batches[i]);
            true
        }
    }
}

/// Retries the item whose id is `job_id`, clearing its batch's cancel request and
/// pause message.
pub fn retry_child_by_id(state: &mut TransferState, job_id: &str)
    ensures
        same_queue_frame(*old(state), *final(state)),
        match child_position(old(state).batches@, job_id@) {
            None => final(state).batches@ == old(state).batches@,
            Some((b, c)) => {
                let ob = old(state).batches@[b];
                let nb = final(state).batches@[b];
                &&& others_unchanged(old(state).batches@, final(state).batches@, b)
                &&& batch_updated(nb, ob, None, false, ob.children@.update(c, as_retried(ob.children@[c])))
                &&& nb.conflict_policy == ob.conflict_policy
            },
        },
{
    let Some((b, c)) = find_child_indices(state, job_id) else {
        return;
    };
    let batch = &mut state.batches[b];
    batch.cancel_requested = false;
    batch.pause_message = None;
    batch.view.error_message = None;
    reset_child_for_retry(&mut batch.children[c]);
    refresh_batch_aggregate(batch);
}

/// The item a conflict decision for `job_id` applies to: the item with that id, or
/// else the first item waiting on a decision in the first batch with that id that
/// has one.
pub open spec fn conflict_target(bs: Seq<TransferBatchRecord>, id: Seq<char>) -> Option<(int, int)> {
    match child_position(bs, id) {
        Some(p) => Some(p),
        None => match first_index(bs.len() as int, |j: int| bs[j].id@ == id && any_in(bs[j].children@, StateClass::Conflict)) {
            Some(b) => Some((b, first_in(bs[b].children@, StateClass::Conflict)->0)),
            None => None,
        },
    }
}

/// Finds the item a conflict decision for `job_id` applies to.
pub fn find_conflict_target_indices(state: &TransferState, job_id: &str) -> (r: Option<(usize, usize)>)
    ensures
        r matches Some((b, c)) ==> b < state.batches.len() && c < state.batches@[b as int].children.len()
            && conflict_target(state.batches@, job_id@) == Some((b as int, c as int)),
        r is None ==> conflict_target(state.batches@, job_id@) is None,
{
    if let Some(indices) = find_child_indices(state, job_id) {
        return Some(indices);
    }
    let ghost p = |j: int| state.batches@[j].id@ == job_id@ && any_in(state.batches@[j].children@, StateClass::Conflict);
    let mut b: usize = 0;
    while b < state.batches.len()
        invariant
            b <= state.batches.len(),
            child_position(state.batches@, job_id@) is None,
            p == (|j: int| state.batches@[j].id@ == job_id@ && any_in(state.batches@[j].children@, StateClass::Conflict)),
            forall|k: int| 0 <= k < b ==> !#[trigger] p(k),
        decreases state.batches.len() - b,
    {
        if crate::text::same_text(state.batches[b].id.as_str(), job_id) {
            if let Some(c) = super::aggregate::first_child_in(&state.batches[b].children, StateClass::Conflict) {
                proof {
                    lemma_first_index_is(state.batches@.len() as int, p, b as int);
                }
                return Some((b, c));
            }
        }
        b += 1;
    }
    proof {
        lemma_first_index_none(state.batches@.len() as int, p);
    }
    None
}

/// A batch whose cancel request can be completed: it was asked to cancel and no
/// item is under way.
pub open spec fn ready_to_finalize(b: TransferBatchRecord) -> bool {
    b.cancel_requested && !any_in(b.children@, StateClass::Active)
}

/// Completes the cancel request of every batch that has no item under way.
pub fn finalize_cancelled_batches(state: &mut TransferState)
    ensures
        same_queue_frame(*old(state), *final(state)),
        final(state).batches@.len() == old(state).batches@.len(),
        forall|j: int| 0 <= j < old(state).batches@.len() ==> {
            let ob = old(state).batches@[j];
            let nb = #[trigger] final(state).batches@[j];
            if ready_to_finalize(ob) {
                &&& batch_updated(nb, ob, ob.pause_message, ob.cancel_requested,
                    ob.children@.map_values(|c: TransferChildRecord| swept(ChildSweep::CancelUnstarted, c)))
                &&& nb.conflict_policy == ob.conflict_policy
            } else {
                nb == ob
            }
        },
{
    let ghost start = state.batches@;
    let mut i: usize = 0;
    while i < state.batches.len()
        invariant
            i <= state.batches.len(),
            state.batches@.len() == start.len(),
            same_queue_frame(*old(state), *state),
            forall|j: int| i <= j < start.len() ==> #[trigger] state.batches@[j] == start[j],
            forall|j: int| 0 <= j < i ==> {
                let ob = start[j];
                let nb = #[trigger] state.batches@[j];
                if ready_to_finalize(ob) {
                    &&& batch_updated(nb, ob, ob.pause_message, ob.cancel_requested,
                        ob.children@.map_values(|c: TransferChildRecord| swept(ChildSweep::CancelUnstarted, c)))
                    &&& nb.conflict_policy == ob.conflict_policy
                } else {
                    nb == ob
                }
            },
        decreases state.batches.len() - i,
    {
        let batch = &mut state.batches[i];
        if batch.cancel_requested && !any_child_in(&batch.children, StateClass::Active) {
            sweep_children(&mut batch.children, ChildSweep::CancelUnstarted);
            refresh_batch_aggregate(batch);
        }
        i += 1;
    }
}

/// A batch that a lost session pauses: not finished, with an item still to do.
pub open spec fn pausable(b: TransferBatchRecord) -> bool {
    !in_class(b.view.state, StateClass::Terminal) && any_in(b.children@, StateClass::Pending)
}

/// Pauses every unfinished batch that still has items to do, with `message` as
/// the reason.
pub fn pause_batches_for_disconnect(state: &mut TransferState, message: &str)
    ensures
        same_queue_frame(*old(state), *final(state)),
        final(state).batches@.len() == old(state).batches@.len(),
        forall|j: int| 0 <= j < old(state).batches@.len() ==> {
            let ob = old(state).batches@[j];
            let nb = #[trigger] final(state).batches@[j];
            if pausable(ob) {
                &&& nb.pause_message matches Some(m) && m@ == message@
                &&& batch_updated(nb, ob, nb.pause_message, ob.cancel_requested, ob.children@)
                &&& nb.conflict_policy == ob.conflict_policy
            } else {
                nb == ob
            }
        },
{
    let ghost start = state.batches@;
    let mut i: usize = 0;
    while i < state.batches.len()
        invariant
            i <= state.batches.len(),
            state.batches@.len() == start.len(),
            same_queue_frame(*old(state), *state),
            forall|j: int| i <= j < start.len() ==> #[trigger] state.batches@[j] == start[j],
            forall|j: int| 0 <= j < i ==> {
                let ob = start[j];
                let nb = #[trigger] state.batches@[j];
                if pausable(ob) {
                    &&& nb.pause_message matches Some(m) && m@ == message@
                    &&& batch_updated(nb, ob, nb.pause_message, ob.cancel_requested, ob.children@)
                    &&& nb.conflict_policy == ob.conflict_policy
                } else {
                    nb == ob
                }
            },
        decreases state.batches.len() - i,
    {
        let batch = &mut state.batches[i];
        if !state_in(batch.view.state, StateClass::Terminal) && any_child_in(&batch.children, StateClass::Pending) {
            batch.pause_message = Some(crate::text::owned(message));
            refresh_batch_aggregate(batch);
        }
        i += 1;
    }
}

/// Removes every finished batch from the queue.
pub fn clear_completed(state: &mut TransferState)
    ensures
        same_queue_frame(*old(state), *final(state)),
        final(state).batches@ == old(state).batches@.filter(|b: TransferBatchRecord| !in_class(b.view.state, StateClass::Terminal)),
{
    let ghost start = state.batches@;
    let ghost keep = |b: TransferBatchRecord| !in_class(b.view.state, StateClass::Terminal);
    assert(start.len() == state.batches.len());
    let mut kept: Vec<TransferBatchRecord> = Vec::new();
    let mut rest: Vec<TransferBatchRecord> = Vec::new();
    std::mem::swap(&mut rest, &mut state.batches);
    let mut i: usize = 0;
    while rest.len() > 0
        invariant
            i + rest@.len() == start.len(),
            start.len() <= usize::MAX,
            rest@ =~= start.subrange(i as int, start.len() as int),
            kept@ == start.take(i as int).filter(keep),
            keep == (|b: TransferBatchRecord| !in_class(b.view.state, StateClass::Terminal)),
            same_queue_frame(*old(state), *state),
        decreases rest.len(),
    {
        let b = rest.remove(0);
        proof {
            assert(b == start[i as int]);
            assert(start.take(i + 1).drop_last() =~= start.take(i as int));
            reveal(Seq::filter);
        }
        if !state_in(b.view.state, StateClass::Terminal) {
            kept.push(b);
        }
        i += 1;
        assert(rest@ =~= start.subrange(i as int, start.len() as int));
    }
    assert(start.take(start.len() as int) =~= start);
    state.batches = kept;
}

/// The number of items still to do in the batches of `bs`.
pub open spec fn queued_total(bs: Seq<TransferBatchRecord>) -> nat
    decreases bs.len(),
{
    if bs.len() == 0 {
        0
    } else {
        queued_total(bs.drop_last()) + count_items(bs.last().children@, None, Some(StateClass::Pending))
    }
}

/// The number of finished batches in `bs`.
pub open spec fn finished_total(bs: Seq<TransferBatchRecord>) -> nat
    decreases bs.len(),
{
    if bs.len() == 0 {
        0
    } else {
        finished_total(bs.drop_last()) + if in_class(bs.last().view.state, StateClass::Terminal) { 1nat } else { 0nat }
    }
}

proof fn lemma_finished_le(bs: Seq<TransferBatchRecord>)
    ensures
        finished_total(bs) <= bs.len(),
    decreases bs.len(),
{
    if bs.len() > 0 {
        lemma_finished_le(bs.drop_last());
    }
}

/// The snapshot `s` shows the queue `st` with sequence number `seq`.
pub open spec fn snapshot_shows(s: TransferQueueSnapshot, st: TransferState, seq: u64) -> bool {
    &&& s.sequence == seq
    &&& s.jobs@.len() == st.batches@.len()
    &&& forall|i: int| 0 <= i < st.batches@.len() ==> job_matches_view(#[trigger] s.jobs@[i], st.batches@[i].view)
    &&& s.active_job_id == st.active_job_id
    &&& s.queued_count == (if queued_total(st.batches@) > usize::MAX { usize::MAX as nat } else { queued_total(st.batches@) })
    &&& s.finished_count == finished_total(st.batches@)
    &&& s.batch_count == st.batches@.len()
}

/// The queue as the interface shows it, with sequence number 0: one row per batch,
/// the active job, how many items are still to do (capped at `usize::MAX`), how
/// many batches are finished, and how many batches there are.
pub fn snapshot_from_state(state: &TransferState) -> (s: TransferQueueSnapshot)
    ensures
        snapshot_shows(s, *state, 0),
{
    let mut jobs: Vec<TransferJob> = Vec::new();
    let mut queued: usize = 0;
    let mut finished: usize = 0;
    let mut i: usize = 0;
    while i < state.batches.len()
        invariant
            i <= state.batches.len(),
            jobs@.len() == i,
            forall|k: int| 0 <= k < i ==> job_matches_view(#[trigger] jobs@[k], state.batches@[k].view),
            queued == (if queued_total(state.batches@.take(i as int)) > usize::MAX { usize::MAX as nat } else { queued_total(state.batches@.take(i as int)) }),
            finished == finished_total(state.batches@.take(i as int)),
        decreases state.batches.len() - i,
    {
        let batch = &state.batches[i];
        jobs.push(batch.view.to_job());
        let n = super::aggregate::count_pending(&batch.children);
        proof {
            assert(state.batches@.take(i + 1).drop_last() =~= state.batches@.take(i as int));
            lemma_finished_le(state.batches@.take(i as int));
        }
        queued = if queued > usize::MAX - n { usize::MAX } else { queued + n };
        if state_in(batch.view.state, StateClass::Terminal) {
            finished += 1;
        }
        i += 1;
    }
    assert(state.batches@.take(state.batches@.len() as int) =~= state.batches@);
    TransferQueueSnapshot {
        sequence: 0,
        jobs,
        active_job_id: clone_opt_string(&state.active_job_id),
        queued_count: queued,
        finished_count: finished,
        batch_count: state.batches.len(),
    }
}

/// The queue as the interface shows it, numbered with the next snapshot sequence
/// number, which then advances (wrapping at `u64::MAX`).
pub fn take_snapshot(state: &mut TransferState) -> (s: TransferQueueSnapshot)
    ensures
        snapshot_shows(s, *old(state), old(state).next_snapshot_sequence),
        final(state).batches == old(state).batches,
        final(state).active_job_id == old(state).active_job_id,
        final(state).worker_running == old(state).worker_running,
        final(state).next_job_id == old(state).next_job_id,
        final(state).next_snapshot_sequence == (if old(state).next_snapshot_sequence == u64::MAX { 0 } else { old(state).next_snapshot_sequence + 1 }),
{
    let mut s = snapshot_from_state(state);
    s.sequence = state.next_snapshot_sequence;
    state.next_snapshot_sequence = if state.next_snapshot_sequence == u64::MAX { 0 } else { state.next_snapshot_sequence + 1 };
    s
}

/// Cancelling one item: a queued item, one being checked, or one waiting on a
/// conflict decision becomes Cancelled and can be retried; one being transferred
/// is asked to stop (Cancelling); both signal the item's own id. A finished item
/// is left as it was, with no signal. Either way the item is never left queued,
/// and the other items of its batch are as they were.
pub proof fn lemma_cancel_child_effect(ob: TransferBatchRecord, nb: TransferBatchRecord, c: int, signal: Option<String>)
    requires
        0 <= c < ob.children@.len(),
        batch_updated(nb, ob, ob.pause_message, ob.cancel_requested,
            ob.children@.update(c, child_cancel_effect(ob.children@[c]).0)),
        signal == (if child_cancel_effect(ob.children@[c]).1 { Some(ob.children@[c].id) } else { None }),
    ensures
        ({
            let before = ob.children@[c].view.state;
            let after = nb.children@[c];
            &&& nb.children@.len() == ob.children@.len()
            &&& after.id == ob.children@[c].id
            &&& !(after.view.state is Queued)
            &&& (before is Queued || before is Checking || before is AwaitingConflictDecision) ==>
                after.view.state is Cancelled && after.view.can_retry && signal == Some(ob.children@[c].id)
            &&& (before is Running || before is Cancelling) ==>
                after.view.state is Cancelling && signal == Some(ob.children@[c].id)
            &&& (before is Succeeded || before is Failed || before is Skipped || before is Cancelled) ==>
                after == ob.children@[c] && signal is None
            &&& forall|k: int| 0 <= k < nb.children@.len() && k != c ==> #[trigger] nb.children@[k] == ob.children@[k]
        }),
{
}

/// Retrying a batch keeps every item that succeeded exactly as it was, and puts
/// every other item back in the queue with nothing transferred, no error and no
/// conflict; the batch is no longer asked to cancel nor paused.
pub proof fn lemma_retry_keeps_succeeded_items(ob: TransferBatchRecord, nb: TransferBatchRecord)
    requires
        batch_updated(nb, ob, None, false,
            ob.children@.map_values(|c: TransferChildRecord| swept(ChildSweep::RetryUnfinished, c))),
    ensures
        nb.children@.len() == ob.children@.len(),
        !nb.cancel_requested,
        nb.pause_message is None,
        forall|k: int| 0 <= k < ob.children@.len() && ob.children@[k].view.state is Succeeded
            ==> #[trigger] nb.children@[k] == ob.children@[k],
        forall|k: int| 0 <= k < ob.children@.len() && !(ob.children@[k].view.state is Succeeded) ==> {
            let n = #[trigger] nb.children@[k];
            &&& n.id == ob.children@[k].id
            &&& n.view.state is Queued
            &&& n.view.bytes_transferred == 0
            &&& n.view.error_message is None
            &&& n.view.conflict is None
        },
{
    assert forall|k: int| 0 <= k < ob.children@.len() implies #[trigger] nb.children@[k] == swept(ChildSweep::RetryUnfinished, ob.children@[k]) by {
    }
}

} // verus!
