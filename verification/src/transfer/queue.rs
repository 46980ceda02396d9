//! Operations on the transfer queue: cancelling, retrying, pausing and finding jobs.
use vstd::prelude::*;
use crate::text::same_text;
use super::aggregate::{batch_status, refreshed_view, any_in, first_in, is_refreshed, progress_of, progress_fraction, refresh_batch_aggregate, any_child_in, first_child_in};
use super::{JobState, JobView, StateClass, TransferBatchRecord, TransferChildRecord, TransferState, in_class, state_in};

verus! {

/// The first index below `n` at which `p` holds, if any.
pub open spec fn first_index(n: int, p: spec_fn(int) -> bool) -> Option<int> {
    if exists|j: int| 0 <= j < n && #[trigger] p(j) {
        Some(choose|j: int| 0 <= j < n && #[trigger] p(j) && forall|k: int| 0 <= k < j ==> !#[trigger] p(k))
    } else {
        None
    }
}

pub proof fn lemma_first_index_is(n: int, p: spec_fn(int) -> bool, i: int)
    requires
        0 <= i < n,
        p(i),
        forall|k: int| 0 <= k < i ==> !#[trigger] p(k),
    ensures
        first_index(n, p) == Some(i),
{
    let j = choose|j: int| 0 <= j < n && #[trigger] p(j) && forall|k: int| 0 <= k < j ==> !#[trigger] p(k);
    assert(p(j));
    if j < i {
        assert(!p(j));
    }
    if j > i {
        assert(!p(i));
    }
}

pub proof fn lemma_first_index_none(n: int, p: spec_fn(int) -> bool)
    requires
        forall|k: int| 0 <= k < n ==> !#[trigger] p(k),
    ensures
        first_index(n, p) is None,
{
}

proof fn lemma_least_witness(n: int, p: spec_fn(int) -> bool, j: int)
    requires
        0 <= j < n,
        p(j),
    ensures
        exists|m: int| 0 <= m < n && #[trigger] p(m) && forall|k: int| 0 <= k < m ==> !#[trigger] p(k),
    decreases j,
{
    if exists|k: int| 0 <= k < j && #[trigger] p(k) {
        let k = choose|k: int| 0 <= k < j && #[trigger] p(k);
        lemma_least_witness(n, p, k);
    } else {
        assert(forall|k: int| 0 <= k < j ==> !#[trigger] p(k));
    }
}

/// The index of the first batch of `bs` whose id is `id`.
pub open spec fn batch_index(bs: Seq<TransferBatchRecord>, id: Seq<char>) -> Option<int> {
    first_index(bs.len() as int, |j: int| bs[j].id@ == id)
}

/// The index of the first item of `cs` whose id is `id`.
pub open spec fn child_index(cs: Seq<TransferChildRecord>, id: Seq<char>) -> Option<int> {
    first_index(cs.len() as int, |j: int| cs[j].id@ == id)
}

/// The position of the first item, over all batches in order, whose id is `id`.
pub open spec fn child_position(bs: Seq<TransferBatchRecord>, id: Seq<char>) -> Option<(int, int)> {
    match first_index(bs.len() as int, |j: int| child_index(bs[j].children@, id) is Some) {
        Some(b) => Some((b, child_index(bs[b].children@, id)->0)),
        None => None,
    }
}

/// An item cancelled before or instead of running.
pub open spec fn as_cancelled(c: TransferChildRecord) -> TransferChildRecord {
    TransferChildRecord {
        view: JobView {
            state: JobState::Cancelled,
            conflict: None,
            error_message: None,
            can_cancel: false,
            can_retry: true,
            ..c.view
        },
        ..c
    }
}

/// An item whose running transfer has been asked to stop.
pub open spec fn as_cancelling(c: TransferChildRecord) -> TransferChildRecord {
    TransferChildRecord {
        view: JobView { state: JobState::Cancelling, can_cancel: false, ..c.view },
        ..c
    }
}

/// An item put back in the queue to run again.
pub open spec fn as_retried(c: TransferChildRecord) -> TransferChildRecord {
    TransferChildRecord {
        overwrite_approved: false,
        view: JobView {
            state: JobState::Queued,
            error_message: None,
            conflict: None,
            rate: None,
            can_cancel: true,
            can_retry: false,
            bytes_transferred: 0,
            progress_percent: Some(progress_of(0, c.view.bytes_total) as u8),
            ..c.view
        },
        ..c
    }
}

/// The item-wide changes that whole-batch operations make.
#[derive(Clone, Copy, PartialEq, Eq, Structural)]
pub enum ChildSweep {
    /// Cancel items that are queued or waiting on a conflict decision.
    CancelWaiting,
    /// Cancel items that are queued, waiting on a conflict decision, or being checked.
    CancelUnstarted,
    /// Put every item that has not succeeded back in the queue.
    RetryUnfinished,
}

/// The effect of a sweep on one item.
pub open spec fn swept(op: ChildSweep, c: TransferChildRecord) -> TransferChildRecord {
    match op {
        ChildSweep::CancelWaiting =>
            if c.view.state is Queued || c.view.state is AwaitingConflictDecision { as_cancelled(c) } else { c },
        ChildSweep::CancelUnstarted =>
            if c.view.state is Queued || c.view.state is AwaitingConflictDecision || c.view.state is Checking {
                as_cancelled(c)
            } else {
                c
            },
        ChildSweep::RetryUnfinished =>
            if c.view.state is Succeeded { c } else { as_retried(c) },
    }
}

/// Cancels one item in place.
pub fn cancel_child(c: &mut TransferChildRecord)
    ensures
        *final(c) == as_cancelled(*old(c)),
{
    c.view.state = JobState::Cancelled;
    c.view.conflict = None;
    c.view.error_message = None;
    c.view.can_cancel = false;
    c.view.can_retry = true;
}

/// Marks one running item as being cancelled.
pub fn mark_child_cancelling(c: &mut TransferChildRecord)
    ensures
        *final(c) == as_cancelling(*old(c)),
{
    c.view.state = JobState::Cancelling;
    c.view.can_cancel = false;
}

/// Puts one item back in the queue.
pub fn reset_child_for_retry(child: &mut TransferChildRecord)
    ensures
        *final(child) == as_retried(*old(child)),
{
    child.overwrite_approved = false;
    child.view.state = JobState::Queued;
    child.view.error_message = None;
    child.view.conflict = None;
    child.view.rate = None;
    child.view.can_cancel = true;
    child.view.can_retry = false;
    child.view.bytes_transferred = 0;
    child.view.progress_percent = Some(progress_fraction(0, child.view.bytes_total));
}

/// Applies a sweep to every item.
pub fn sweep_children(children: &mut Vec<TransferChildRecord>, op: ChildSweep)
    ensures
        final(children)@ == old(children)@.map_values(|c: TransferChildRecord| swept(op, c)),
{
    let ghost start = children@;
    let mut i: usize = 0;
    while i < children.len()
        invariant
            i <= children.len(),
            children@.len() == start.len(),
            forall|j: int| 0 <= j < i ==> #[trigger] children@[j] == swept(op, start[j]),
            forall|j: int| i <= j < children@.len() ==> #[trigger] children@[j] == start[j],
        decreases children.len() - i,
    {
        let state = children[i].view.state;
        match op {
            ChildSweep::CancelWaiting => {
                if matches!(state, JobState::Queued | JobState::AwaitingConflictDecision) {
                    cancel_child(&mut children[i]);
                }
            }
            ChildSweep::CancelUnstarted => {
                if matches!(state, JobState::Queued | JobState::AwaitingConflictDecision | JobState::Checking) {
                    cancel_child(&mut children[i]);
                }
            }
            ChildSweep::RetryUnfinished => {
                if !matches!(state, JobState::Succeeded) {
                    reset_child_for_retry(&mut children[i]);
                }
            }
        }
        i += 1;
    }
    assert(children@ =~= start.map_values(|c: TransferChildRecord| swept(op, c)));
}

/// Cancels every item of the batch that has not started.
pub fn mark_remaining_children_cancelled(batch: &mut TransferBatchRecord)
    ensures
        final(batch).children@ == old(batch).children@.map_values(|c: TransferChildRecord| swept(ChildSweep::CancelUnstarted, c)),
        final(batch).view == old(batch).view,
        final(batch).id == old(batch).id,
        final(batch).direction == old(batch).direction,
        final(batch).destination_root == old(batch).destination_root,
        final(batch).conflict_policy == old(batch).conflict_policy,
        final(batch).pause_message == old(batch).pause_message,
        final(batch).cancel_requested == old(batch).cancel_requested,
{
    sweep_children(&mut batch.children, ChildSweep::CancelUnstarted);
}

/// The batch fields that the item-level operations leave alone, kept from `a` in `b`.
pub open spec fn same_batch_frame(a: TransferBatchRecord, b: TransferBatchRecord) -> bool {
    &&& b.id == a.id
    &&& b.direction == a.direction
    &&& b.destination_root == a.destination_root
}

/// `new` is `old` with its cancel request and pause message set, its items `s`,
/// and its view brought up to date.
pub open spec fn batch_updated(new: TransferBatchRecord, old: TransferBatchRecord, pause: Option<String>, cancel: bool, s: Seq<TransferChildRecord>) -> bool {
    &&& same_batch_frame(old, new)
    &&& new.pause_message == pause
    &&& new.cancel_requested == cancel
    &&& new.children@ == s
    &&& is_refreshed(new.view, old.view, pause, cancel, s)
}

/// The items of a batch after a whole-batch cancel: the first item under way is
/// marked as cancelling, then every waiting item is cancelled.
pub open spec fn cancelled_items(s: Seq<TransferChildRecord>) -> Seq<TransferChildRecord> {
    let t = match first_in(s, StateClass::Active) {
        Some(i) => s.update(i, as_cancelling(s[i])),
        None => s,
    };
    t.map_values(|c: TransferChildRecord| swept(ChildSweep::CancelWaiting, c))
}

/// A cancelled batch keeps no queued item, so the worker never picks it again.
pub proof fn lemma_cancelled_batch_does_not_run(old_batch: TransferBatchRecord, new_batch: TransferBatchRecord)
    requires
        batch_updated(new_batch, old_batch, None, true, cancelled_items(old_batch.children@)),
    ensures
        !any_in(new_batch.children@, StateClass::Queued),
        !batch_can_run(new_batch),
{
    let s = old_batch.children@;
    let t = match first_in(s, StateClass::Active) {
        Some(i) => s.update(i, as_cancelling(s[i])),
        None => s,
    };
    assert forall|j: int| 0 <= j < new_batch.children@.len() implies !in_class(#[trigger] new_batch.children@[j].view.state, StateClass::Queued) by {
        assert(new_batch.children@[j] == swept(ChildSweep::CancelWaiting, t[j]));
    }
}

proof fn lemma_retried_items(o: Seq<TransferChildRecord>, s: Seq<TransferChildRecord>, k: int)
    requires
        s == o.map_values(|c: TransferChildRecord| swept(ChildSweep::RetryUnfinished, c)),
        0 <= k < o.len(),
        !(o[k].view.state is Succeeded),
    ensures
        any_in(s, StateClass::Queued),
        any_in(s, StateClass::Pending),
        !any_in(s, StateClass::Conflict),
        !any_in(s, StateClass::Active),
{
    assert(s[k] == swept(ChildSweep::RetryUnfinished, o[k]));
    assert(in_class(s[k].view.state, StateClass::Queued));
    assert(in_class(s[k].view.state, StateClass::Pending));
    assert forall|j: int| 0 <= j < s.len() implies !in_class(#[trigger] s[j].view.state, StateClass::Conflict)
        && !in_class(s[j].view.state, StateClass::Active) by {
        assert(s[j] == swept(ChildSweep::RetryUnfinished, o[j]));
    }
}

proof fn lemma_refreshed_state(new: JobView, old: JobView, pause: Option<String>, cancel: bool, s: Seq<TransferChildRecord>)
    requires
        is_refreshed(new, old, pause, cancel, s),
    ensures
        new.state == batch_status(pause is Some, cancel, s).0,
{
    assert(new.state == refreshed_view(old, pause, cancel, s).state);
}

/// Retrying a batch that still has an unfinished item (after a pause for a lost
/// session, a failure or a cancel) makes it runnable again.
pub proof fn lemma_retried_batch_runs(old_batch: TransferBatchRecord, new_batch: TransferBatchRecord, k: int)
    requires
        batch_updated(new_batch, old_batch, None, false,
            old_batch.children@.map_values(|c: TransferChildRecord| swept(ChildSweep::RetryUnfinished, c))),
        0 <= k < old_batch.children@.len(),
        !(old_batch.children@[k].view.state is Succeeded),
    ensures
        batch_can_run(new_batch),
{
    let s = new_batch.children@;
    lemma_retried_items(old_batch.children@, s, k);
    lemma_refreshed_state(new_batch.view, old_batch.view, None, false, s);
}

/// Cancels a whole batch; returns the id of the item whose running transfer must
/// be told to stop.
pub fn cancel_batch(batch: &mut TransferBatchRecord) -> (signal: Option<String>)
    ensures
        batch_updated(*final(batch), *old(batch), None, true, cancelled_items(old(batch).children@)),
        final(batch).conflict_policy == old(batch).conflict_policy,
        signal == (match first_in(old(batch).children@, StateClass::Active) {
            Some(i) => Some(old(batch).children@[i].id),
            None => None,
        }),
{
    batch.cancel_requested = true;
    batch.pause_message = None;
    let active = first_child_in(&batch.children, StateClass::Active);
    let signal = match active {
        Some(i) => {
            mark_child_cancelling(&mut batch.children[i]);
            Some(batch.children[i].id.clone())
        }
        None => None,
    };
    sweep_children(&mut batch.children, ChildSweep::CancelWaiting);
    refresh_batch_aggregate(batch);
    signal
}

/// Puts every unfinished item of a batch back in the queue and clears the batch's
/// cancel request, pause message and conflict policy.
pub fn retry_batch(batch: &mut TransferBatchRecord)
    ensures
        batch_updated(*final(batch), *old(batch), None, false,
            old(batch).children@.map_values(|c: TransferChildRecord| swept(ChildSweep::RetryUnfinished, c))),
        final(batch).conflict_policy == super::ConflictPolicy::Ask,
{
    batch.cancel_requested = false;
    batch.pause_message = None;
    batch.conflict_policy = super::ConflictPolicy::Ask;
    batch.view.error_message = None;
    sweep_children(&mut batch.children, ChildSweep::RetryUnfinished);
    refresh_batch_aggregate(batch);
}

/// Finds the first batch whose id is `job_id`.
pub fn find_batch_index(state: &TransferState, job_id: &str) -> (r: Option<usize>)
    ensures
        r matches Some(i) ==> i < state.batches.len() && batch_index(state.batches@, job_id@) == Some(i as int),
        r is None ==> batch_index(state.batches@, job_id@) is None,
{
    let ghost p = |j: int| state.batches@[j].id@ == job_id@;
    let mut i: usize = 0;
    while i < state.batches.len()
        invariant
            i <= state.batches.len(),
            p == (|j: int| state.batches@[j].id@ == job_id@),
            forall|k: int| 0 <= k < i ==> !#[trigger] p(k),
        decreases state.batches.len() - i,
    {
        if same_text(state.batches[i].id.as_str(), job_id) {
            proof {
                lemma_first_index_is(state.batches@.len() as int, p, i as int);
            }
            return Some(i);
        }
        i += 1;
    }
    proof {
        lemma_first_index_none(state.batches@.len() as int, p);
    }
    None
}

/// Finds the first item of `children` whose id is `job_id`.
pub fn find_child_index(children: &Vec<TransferChildRecord>, job_id: &str) -> (r: Option<usize>)
    ensures
        r matches Some(i) ==> i < children.len() && child_index(children@, job_id@) == Some(i as int),
        r is None ==> child_index(children@, job_id@) is None,
{
    let ghost p = |j: int| children@[j].id@ == job_id@;
    let mut i: usize = 0;
    while i < children.len()
        invariant
            i <= children.len(),
            p == (|j: int| children@[j].id@ == job_id@),
            forall|k: int| 0 <= k < i ==> !#[trigger] p(k),
        decreases children.len() - i,
    {
        if same_text(children[i].id.as_str(), job_id) {
            proof {
                lemma_first_index_is(children@.len() as int, p, i as int);
            }
            return Some(i);
        }
        i += 1;
    }
    proof {
        lemma_first_index_none(children@.len() as int, p);
    }
    None
}

/// Finds the first item, over all batches in order, whose id is `job_id`.
pub fn find_child_indices(state: &TransferState, job_id: &str) -> (r: Option<(usize, usize)>)
    ensures
        r matches Some((b, c)) ==> b < state.batches.len() && c < state.batches@[b as int].children.len()
            && child_position(state.batches@, job_id@) == Some((b as int, c as int)),
        r is None ==> child_position(state.batches@, job_id@) is None,
{
    let ghost p = |j: int| child_index(state.batches@[j].children@, job_id@) is Some;
    let mut b: usize = 0;
    while b < state.batches.len()
        invariant
            b <= state.batches.len(),
            p == (|j: int| child_index(state.batches@[j].children@, job_id@) is Some),
            forall|k: int| 0 <= k < b ==> !#[trigger] p(k),
        decreases state.batches.len() - b,
    {
        match find_child_index(&state.batches[b].children, job_id) {
            Some(c) => {
                proof {
                    lemma_first_index_is(state.batches@.len() as int, p, b as int);
                }
                return Some((b, c));
            }
            None => {}
        }
        b += 1;
    }
    proof {
        lemma_first_index_none(state.batches@.len() as int, p);
    }
    None
}

/// The batch whose state and items allow it to run an item next.
pub open spec fn batch_can_run(b: TransferBatchRecord) -> bool {
    &&& !in_class(b.view.state, StateClass::Terminal)
    &&& !(b.view.state is AwaitingConflictDecision)
    &&& !(b.view.state is PausedDisconnected)
    &&& any_in(b.children@, StateClass::Queued)
}

/// The next item to run: the first queued item of the first batch that is neither
/// finished, waiting on a conflict decision, nor paused, and has a queued item.
pub open spec fn next_runnable(bs: Seq<TransferBatchRecord>) -> Option<(int, int)> {
    match first_index(bs.len() as int, |j: int| batch_can_run(bs[j])) {
        Some(b) => Some((b, first_in(bs[b].children@, StateClass::Queued)->0)),
        None => None,
    }
}

/// The worker always takes the earliest runnable item: the batch chosen is the
/// first that can run and the item chosen is that batch's first queued item; where
/// nothing is chosen, no batch can run.
pub proof fn lemma_next_runnable_is_earliest(bs: Seq<TransferBatchRecord>)
    ensures
        match next_runnable(bs) {
            Some((b, c)) => {
                &&& 0 <= b < bs.len()
                &&& batch_can_run(bs[b])
                &&& forall|k: int| 0 <= k < b ==> !batch_can_run(#[trigger] bs[k])
                &&& 0 <= c < bs[b].children@.len()
                &&& in_class(bs[b].children@[c].view.state, StateClass::Queued)
                &&& forall|j: int| 0 <= j < c ==> !in_class(#[trigger] bs[b].children@[j].view.state, StateClass::Queued)
            },
            None => forall|k: int| 0 <= k < bs.len() ==> !batch_can_run(#[trigger] bs[k]),
        },
{
    let p = |j: int| batch_can_run(bs[j]);
    if exists|j: int| 0 <= j < bs.len() && #[trigger] p(j) {
        let j = choose|j: int| 0 <= j < bs.len() && #[trigger] p(j);
        lemma_least_witness(bs.len() as int, p, j);
        let b = first_index(bs.len() as int, p)->0;
        assert(p(b));
        assert forall|k: int| 0 <= k < b implies !batch_can_run(#[trigger] bs[k]) by {
            assert(!p(k));
        }
        let s = bs[b].children@;
        let q = |m: int| in_class(s[m].view.state, StateClass::Queued);
        let m = choose|m: int| 0 <= m < s.len() && in_class(#[trigger] s[m].view.state, StateClass::Queued);
        assert(q(m));
        lemma_least_witness(s.len() as int, q, m);
        let w = choose|w: int| 0 <= w < s.len() && #[trigger] q(w) && forall|k: int| 0 <= k < w ==> !#[trigger] q(k);
        assert(in_class(s[w].view.state, StateClass::Queued) && forall|k: int| 0 <= k < w ==> !in_class(#[trigger] s[k].view.state, StateClass::Queued)) by {
            assert forall|k: int| 0 <= k < w implies !in_class(#[trigger] s[k].view.state, StateClass::Queued) by {
                assert(!q(k));
            }
        }
    } else {
        assert forall|k: int| 0 <= k < bs.len() implies !batch_can_run(#[trigger] bs[k]) by {
            assert(!p(k));
        }
    }
}

/// Finds the next item to run.
pub fn next_runnable_child(state: &TransferState) -> (r: Option<(usize, usize)>)
    ensures
        r matches Some((b, c)) ==> b < state.batches.len() && c < state.batches@[b as int].children.len()
            && next_runnable(state.batches@) == Some((b as int, c as int)),
        r is None ==> next_runnable(state.batches@) is None,
{
    let ghost p = |j: int| batch_can_run(state.batches@[j]);
    let mut b: usize = 0;
    while b < state.batches.len()
        invariant
            b <= state.batches.len(),
            p == (|j: int| batch_can_run(state.batches@[j])),
            forall|k: int| 0 <= k < b ==> !#[trigger] p(k),
        decreases state.batches.len() - b,
    {
        let batch = &state.batches[b];
        let st = batch.view.state;
        if !state_in(st, StateClass::Terminal) && !matches!(st, JobState::AwaitingConflictDecision | JobState::PausedDisconnected) {
            match first_child_in(&batch.children, StateClass::Queued) {
                Some(c) => {
                    proof {
                        lemma_first_index_is(state.batches@.len() as int, p, b as int);
                    }
                    return Some((b, c));
                }
                None => {}
            }
        }
        b += 1;
    }
    proof {
        lemma_first_index_none(state.batches@.len() as int, p);
    }
    None
}

} // verus!
