//! The steps the transfer worker takes on the queue: claiming the next item,
//! recording its progress and its outcome, and applying conflict decisions.
use vstd::prelude::*;
use crate::models::{TransferConflict, clone_opt_string};
use crate::text::{has_infix, lower_text, owned, same_text, to_lowercase, contains_text, trim, trimmed, push_str};
use super::aggregate::{is_refreshed, progress_of, progress_fraction, refresh_batch_aggregate, opt_text};
use super::queue::{
    ChildSweep, batch_index, batch_updated, child_index, child_position, find_batch_index, find_child_index,
    find_child_indices, mark_remaining_children_cancelled, next_runnable, next_runnable_child, swept,
};
use super::rate::{format_rate, rate_text};
use super::state::{conflict_target, find_conflict_target_indices, finalize_cancelled_batches, pause_batches_for_disconnect, pausable, ready_to_finalize};
use super::{ConflictPolicy, JobState, JobView, TransferBatchRecord, TransferChildRecord, TransferChildTask, TransferState,
    others_unchanged, same_queue_frame};

verus! {

/// How one item's transfer ended.
pub enum TransferRunOutcome {
    Succeeded,
    Failed(String),
    Cancelled,
    AwaitingConflict(TransferConflict),
    Skipped,
}

/// An item handed to the worker.
pub struct ClaimedJob {
    pub job_id: String,
    pub batch_id: String,
    pub task: TransferChildTask,
    pub overwrite_approved: bool,
    pub skip_conflicts: bool,
}

/// An item that the worker has picked up and is checking.
pub open spec fn as_checking(c: TransferChildRecord) -> TransferChildRecord {
    TransferChildRecord {
        view: JobView {
            state: JobState::Checking,
            error_message: None,
            conflict: None,
            can_cancel: true,
            can_retry: false,
            ..c.view
        },
        ..c
    }
}

fn mark_child_checking(c: &mut TransferChildRecord)
    ensures
        *final(c) == as_checking(*old(c)),
{
    c.view.state = JobState::Checking;
    c.view.error_message = None;
    c.view.conflict = None;
    c.view.can_cancel = true;
    c.view.can_retry = false;
}

/// Hands the next runnable item to the worker: it is marked as being checked, its
/// batch loses any pause message, and it becomes the active job. With no runnable
/// item the worker stops: there is no active job and the worker is not running.
pub fn claim_next_job(state: &mut TransferState) -> (r: Option<ClaimedJob>)
    ensures
        final(state).next_job_id == old(state).next_job_id,
        final(state).next_snapshot_sequence == old(state).next_snapshot_sequence,
        match next_runnable(old(state).batches@) {
            None => {
                &&& r is None
                &&& final(state).batches@ == old(state).batches@
                &&& final(state).active_job_id is None
                &&& !final(state).worker_running
            },
            Some((b, c)) => {
                let ob = old(state).batches@[b];
                let oc = ob.children@[c];
                &&& others_unchanged(old(state).batches@, final(state).batches@, b)
                &&& batch_updated(final(state).batches@[b], ob, None, ob.cancel_requested,
                    ob.children@.update(c, as_checking(oc)))
                &&& final(state).batches@[b].conflict_policy == ob.conflict_policy
                &&& final(state).active_job_id == Some(oc.id)
                &&& final(state).worker_running == old(state).worker_running
                &&& r matches Some(job) && job.job_id == oc.id && job.batch_id == ob.id && job.task == oc.task
                    && job.overwrite_approved == (oc.overwrite_approved || ob.conflict_policy is OverwriteAll)
                    && job.skip_conflicts == (ob.conflict_policy is SkipAll)
            },
        },
{
    let Some((b, c)) = next_runnable_child(state) else {
        state.active_job_id = None;
        state.worker_running = false;
        return None;
    };
    let job_id = state.batches[b].children[c].id.clone();
    state.active_job_id = Some(job_id.clone());
    let batch = &mut state.batches[b];
    batch.pause_message = None;
    mark_child_checking(&mut batch.children[c]);
    refresh_batch_aggregate(batch);
    let policy = batch.conflict_policy;
    Some(ClaimedJob {
        job_id,
        batch_id: batch.id.clone(),
        task: batch.children[c].task.duplicate(),
        overwrite_approved: batch.children[c].overwrite_approved || policy == ConflictPolicy::OverwriteAll,
        skip_conflicts: policy == ConflictPolicy::SkipAll,
    })
}

/// The text of a failure that means the SSH session is gone.
pub open spec fn is_session_loss_text(message: Seq<char>) -> bool {
    let m = lower_text(message);
    has_infix(m, "ssh session ended"@) || has_infix(m, "connection lost after idle"@)
}

/// Whether a failure message means the SSH session is gone.
pub fn is_session_loss_message(message: &str) -> (r: bool)
    ensures
        r == is_session_loss_text(message@),
{
    let m = to_lowercase(message);
    contains_text(m.as_str(), "ssh session ended") || contains_text(m.as_str(), "connection lost after idle")
}

/// An item after its transfer ended with `o`.
pub open spec fn with_outcome(c: TransferChildRecord, o: TransferRunOutcome) -> TransferChildRecord {
    TransferChildRecord {
        view: match o {
            TransferRunOutcome::Succeeded => JobView {
                state: JobState::Succeeded,
                progress_percent: Some(100),
                rate: None,
                error_message: None,
                conflict: None,
                can_cancel: false,
                can_retry: false,
                ..c.view
            },
            TransferRunOutcome::Cancelled => JobView {
                state: JobState::Cancelled,
                rate: None,
                error_message: None,
                conflict: None,
                can_cancel: false,
                can_retry: true,
                ..c.view
            },
            TransferRunOutcome::Skipped => JobView {
                state: JobState::Skipped,
                rate: None,
                error_message: None,
                conflict: None,
                can_cancel: false,
                can_retry: true,
                ..c.view
            },
            TransferRunOutcome::Failed(m) => JobView {
                state: JobState::Failed,
                rate: None,
                error_message: Some(m),
                conflict: None,
                can_cancel: false,
                can_retry: true,
                ..c.view
            },
            TransferRunOutcome::AwaitingConflict(cf) => JobView {
                state: JobState::AwaitingConflictDecision,
                rate: None,
                error_message: None,
                conflict: Some(cf),
                can_cancel: true,
                can_retry: false,
                ..c.view
            },
        },
        ..c
    }
}

fn apply_outcome(c: &mut TransferChildRecord, outcome: TransferRunOutcome)
    ensures
        *final(c) == with_outcome(*old(c), outcome),
{
    match outcome {
        TransferRunOutcome::Succeeded => {
            c.view.state = JobState::Succeeded;
            c.view.progress_percent = Some(100);
            c.view.rate = None;
            c.view.error_message = None;
            c.view.conflict = None;
            c.view.can_cancel = false;
            c.view.can_retry = false;
        }
        TransferRunOutcome::Cancelled => {
            c.view.state = JobState::Cancelled;
            c.view.rate = None;
            c.view.error_message = None;
            c.view.conflict = None;
            c.view.can_cancel = false;
            c.view.can_retry = true;
        }
        TransferRunOutcome::Skipped => {
            c.view.state = JobState::Skipped;
            c.view.rate = None;
            c.view.error_message = None;
            c.view.conflict = None;
            c.view.can_cancel = false;
            c.view.can_retry = true;
        }
        TransferRunOutcome::Failed(message) => {
            c.view.state = JobState::Failed;
            c.view.rate = None;
            c.view.error_message = Some(message);
            c.view.conflict = None;
            c.view.can_cancel = false;
            c.view.can_retry = true;
        }
        TransferRunOutcome::AwaitingConflict(conflict) => {
            c.view.state = JobState::AwaitingConflictDecision;
            c.view.rate = None;
            c.view.error_message = None;
            c.view.conflict = Some(conflict);
            c.view.can_cancel = true;
            c.view.can_retry = false;
        }
    }
}

/// The session-loss message an outcome carries, if it carries one.
pub open spec fn loss_message(o: TransferRunOutcome) -> Option<String> {
    match o {
        TransferRunOutcome::Failed(m) => if is_session_loss_text(m@) { Some(m) } else { None },
        _ => None,
    }
}

/// The items of batch `ob` after item `c` (if any) ended with `o`: the outcome is
/// recorded, then a batch that was asked to cancel has its unstarted items cancelled.
pub open spec fn items_after_outcome(ob: TransferBatchRecord, c: Option<int>, o: TransferRunOutcome) -> Seq<TransferChildRecord> {
    let s1 = match c {
        Some(k) => ob.children@.update(k, with_outcome(ob.children@[k], o)),
        None => ob.children@,
    };
    if ob.cancel_requested {
        s1.map_values(|x: TransferChildRecord| swept(ChildSweep::CancelUnstarted, x))
    } else {
        s1
    }
}

fn record_outcome_in_batch(batch: &mut TransferBatchRecord, job_id: &str, outcome: TransferRunOutcome) -> (loss: Option<String>)
    ensures
        ({
            let c = child_index(old(batch).children@, job_id@);
            let lost = match c { Some(_) => loss_message(outcome), None => None };
            &&& loss == (match lost { Some(m) => Some(m), None => None::<String> })
            &&& batch_updated(*final(batch), *old(batch),
                if lost is Some { lost } else { old(batch).pause_message },
                old(batch).cancel_requested, items_after_outcome(*old(batch), c, outcome))
            &&& final(batch).conflict_policy == old(batch).conflict_policy
        }),
{
    let mut loss: Option<String> = None;
    if let Some(c) = find_child_index(&batch.children, job_id) {
        if let TransferRunOutcome::Failed(message) = &outcome {
            if is_session_loss_message(message.as_str()) {
                loss = Some(message.clone());
                batch.pause_message = Some(message.clone());
            }
        }
        apply_outcome(&mut batch.children[c], outcome);
    }
    let ghost s1 = batch.children@;
    if batch.cancel_requested {
        mark_remaining_children_cancelled(batch);
    }
    refresh_batch_aggregate(batch);
    loss
}

/// After a lost session: a batch that could be paused is paused with `message`
/// and brought up to date; any other batch is unchanged.
pub open spec fn paused_or_same(ob: TransferBatchRecord, nb: TransferBatchRecord, message: Seq<char>) -> bool {
    if pausable(ob) {
        &&& nb.pause_message matches Some(m) && m@ == message
        &&& batch_updated(nb, ob, nb.pause_message, ob.cancel_requested, ob.children@)
        &&& nb.conflict_policy == ob.conflict_policy
    } else {
        nb == ob
    }
}

/// `nb` is batch `ob` after its item `c` ended with `o`, where `lost` is the
/// session-loss message that ending carried: the items are updated, the pause
/// message is the lost-session message (or unchanged), and the view is up to date.
pub open spec fn batch_after_outcome(ob: TransferBatchRecord, nb: TransferBatchRecord, c: Option<int>, o: TransferRunOutcome, lost: Option<String>) -> bool {
    let items = items_after_outcome(ob, c, o);
    &&& super::queue::same_batch_frame(ob, nb)
    &&& nb.cancel_requested == ob.cancel_requested
    &&& nb.conflict_policy == ob.conflict_policy
    &&& nb.children@ == items
    &&& opt_text(nb.pause_message) == (match lost {
        Some(m) => Some(m@),
        None => opt_text(ob.pause_message),
    })
    &&& is_refreshed(nb.view, ob.view, nb.pause_message, ob.cancel_requested, items)
}

proof fn lemma_refreshed_again(v0: JobView, v1: JobView, v2: JobView, p1: Option<String>, p2: Option<String>, cancel: bool, s: Seq<TransferChildRecord>)
    requires
        is_refreshed(v1, v0, p1, cancel, s),
        is_refreshed(v2, v1, p2, cancel, s),
    ensures
        is_refreshed(v2, v0, p2, cancel, s),
{
}

/// Records how the worker's item `job_id` of batch `batch_id` ended: there is no
/// active job any more, the item takes its outcome, a batch asked to cancel has its
/// unstarted items cancelled, and its view is brought up to date. When the item
/// failed because the SSH session is gone, its batch and every other unfinished
/// batch with items still to do are paused, and the failure message is returned.
pub fn finish_job(state: &mut TransferState, job_id: &str, batch_id: &str, outcome: TransferRunOutcome) -> (loss: Option<String>)
    ensures
        final(state).active_job_id is None,
        final(state).worker_running == old(state).worker_running,
        final(state).next_job_id == old(state).next_job_id,
        final(state).next_snapshot_sequence == old(state).next_snapshot_sequence,
        match batch_index(old(state).batches@, batch_id@) {
            None => final(state).batches@ == old(state).batches@ && loss is None,
            Some(b) => {
                let ob = old(state).batches@[b];
                let c = child_index(ob.children@, job_id@);
                let lost = match c { Some(_) => loss_message(outcome), None => None };
                &&& loss == lost
                &&& final(state).batches@.len() == old(state).batches@.len()
                &&& batch_after_outcome(ob, final(state).batches@[b], c, outcome, lost)
                &&& forall|j: int| 0 <= j < old(state).batches@.len() && j != b ==> (match lost {
                    None => #[trigger] final(state).batches@[j] == old(state).batches@[j],
                    Some(m) => paused_or_same(old(state).batches@[j], final(state).batches@[j], m@),
                })
            },
        },
{
    state.active_job_id = None;
    let Some(b) = find_batch_index(state, batch_id) else {
        return None;
    };
    let ghost before = state.batches@;
    let loss = record_outcome_in_batch(&mut state.batches[b], job_id, outcome);
    let ghost mid = state.batches@;
    if let Some(message) = &loss {
        pause_batches_for_disconnect(state, message.as_str());
        proof {
            let ob = before[b as int];
            let mb = mid[b as int];
            let nb = state.batches@[b as int];
            if pausable(mb) {
                lemma_refreshed_again(ob.view, mb.view, nb.view, mb.pause_message, nb.pause_message,
                    ob.cancel_requested, mb.children@);
            }
        }
    }
    loss
}

/// An item whose transfer has started moving bytes.
pub open spec fn as_running(c: TransferChildRecord, bytes_total: Option<u64>) -> TransferChildRecord {
    TransferChildRecord {
        view: JobView {
            state: JobState::Running,
            bytes_total: bytes_total,
            bytes_transferred: 0,
            progress_percent: Some(progress_of(0, bytes_total) as u8),
            rate: None,
            can_cancel: true,
            can_retry: false,
            ..c.view
        },
        ..c
    }
}

/// A cancelled item that the worker reached anyway: it shows no rate and cannot be
/// cancelled again.
pub open spec fn as_stopped(c: TransferChildRecord) -> TransferChildRecord {
    TransferChildRecord {
        view: JobView { rate: None, can_cancel: false, ..c.view },
        ..c
    }
}

/// Marks the item `job_id` as running with `bytes_total` to move, unless it was
/// cancelled meanwhile, in which case it only loses its rate and cancel flag.
pub fn mark_running(state: &mut TransferState, job_id: &str, bytes_total: Option<u64>)
    ensures
        same_queue_frame(*old(state), *final(state)),
        match child_position(old(state).batches@, job_id@) {
            None => final(state).batches@ == old(state).batches@,
            Some((b, c)) => {
                let ob = old(state).batches@[b];
                let oc = ob.children@[c];
                &&& others_unchanged(old(state).batches@, final(state).batches@, b)
                &&& if oc.view.state is Cancelled {
                    &&& final(state).batches@[b].children@ == ob.children@.update(c, as_stopped(oc))
                    &&& final(state).batches@[b].view == ob.view
                    &&& final(state).batches@[b].pause_message == ob.pause_message
                    &&& final(state).batches@[b].cancel_requested == ob.cancel_requested
                    &&& super::queue::same_batch_frame(ob, final(state).batches@[b])
                } else {
                    batch_updated(final(state).batches@[b], ob, ob.pause_message, ob.cancel_requested,
                        ob.children@.update(c, as_running(oc, bytes_total)))
                }
                &&& final(state).batches@[b].conflict_policy == ob.conflict_policy
            },
        },
{
    let Some((b, c)) = find_child_indices(state, job_id) else {
        return;
    };
    let batch = &mut state.batches[b];
    let child = &mut batch.children[c];
    if let JobState::Cancelled = child.view.state {
        child.view.rate = None;
        child.view.can_cancel = false;
    } else {
        child.view.state = JobState::Running;
        child.view.bytes_total = bytes_total;
        child.view.bytes_transferred = 0;
        child.view.progress_percent = Some(progress_fraction(0, bytes_total));
        child.view.rate = None;
        child.view.can_cancel = true;
        child.view.can_retry = false;
        refresh_batch_aggregate(batch);
    }
}

/// An item with new progress figures; its rate text is set apart.
pub open spec fn with_progress(c: TransferChildRecord, moved: u64, total: Option<u64>, rate: Option<String>) -> TransferChildRecord {
    TransferChildRecord {
        view: JobView {
            bytes_total: total,
            bytes_transferred: moved,
            progress_percent: Some(progress_of(moved, total) as u8),
            rate: rate,
            ..c.view
        },
        ..c
    }
}

/// Records the progress of the item `job_id`: bytes moved, bytes in all, and the
/// rate in bytes per second, shown as `format_rate` shows it.
pub fn update_progress(state: &mut TransferState, job_id: &str, bytes_transferred: u64, bytes_total: Option<u64>, rate: u64)
    ensures
        same_queue_frame(*old(state), *final(state)),
        match child_position(old(state).batches@, job_id@) {
            None => final(state).batches@ == old(state).batches@,
            Some((b, c)) => {
                let ob = old(state).batches@[b];
                let oc = ob.children@[c];
                let nc = final(state).batches@[b].children@[c];
                &&& others_unchanged(old(state).batches@, final(state).batches@, b)
                &&& opt_text(nc.view.rate) == Some(rate_text(rate as nat))
                &&& batch_updated(final(state).batches@[b], ob, ob.pause_message, ob.cancel_requested,
                    ob.children@.update(c, with_progress(oc, bytes_transferred, bytes_total, nc.view.rate)))
                &&& final(state).batches@[b].conflict_policy == ob.conflict_policy
            },
        },
{
    let Some((b, c)) = find_child_indices(state, job_id) else {
        return;
    };
    let batch = &mut state.batches[b];
    let child = &mut batch.children[c];
    child.view.bytes_total = bytes_total;
    child.view.bytes_transferred = bytes_transferred;
    child.view.progress_percent = Some(progress_fraction(bytes_transferred, bytes_total));
    child.view.rate = Some(format_rate(rate));
    let ghost rate_value = child.view.rate;
    refresh_batch_aggregate(batch);
    assert(batch.children@[c as int].view.rate == rate_value);
}

/// The answers to a conflict prompt.
pub open spec fn conflict_action(a: Seq<char>) -> Option<int> {
    if a == "overwrite"@ { Some(0) }
    else if a == "skip"@ { Some(1) }
    else if a == "overwriteall"@ { Some(2) }
    else if a == "skipall"@ { Some(3) }
    else if a == "cancelbatch"@ { Some(4) }
    else { None }
}

/// An item whose conflict the user answered by overwriting.
pub open spec fn as_overwrite(c: TransferChildRecord) -> TransferChildRecord {
    TransferChildRecord {
        overwrite_approved: true,
        view: JobView { state: JobState::Queued, conflict: None, error_message: None, can_cancel: true, ..c.view },
        ..c
    }
}

/// An item whose conflict the user answered by skipping it.
pub open spec fn as_skipped(c: TransferChildRecord) -> TransferChildRecord {
    TransferChildRecord {
        view: JobView { state: JobState::Skipped, conflict: None, error_message: None, can_cancel: false, ..c.view },
        ..c
    }
}

/// An item whose conflict the user answered by cancelling its batch.
pub open spec fn as_batch_cancelled(c: TransferChildRecord) -> TransferChildRecord {
    TransferChildRecord {
        view: JobView { state: JobState::Cancelled, conflict: None, error_message: None, can_cancel: false, ..c.view },
        ..c
    }
}

/// The effect of a conflict answer on the item.
pub open spec fn answered(c: TransferChildRecord, action: int) -> TransferChildRecord {
    if action == 0 || action == 2 { as_overwrite(c) }
    else if action == 1 || action == 3 { as_skipped(c) }
    else { as_batch_cancelled(c) }
}

/// The effect of a conflict answer on the batch's conflict policy.
pub open spec fn answered_policy(p: ConflictPolicy, action: int) -> ConflictPolicy {
    if action == 2 { ConflictPolicy::OverwriteAll } else if action == 3 { ConflictPolicy::SkipAll } else { p }
}

/// The error text for a conflict answer that is not one of the known ones.
pub open spec fn unknown_action_text(action: Seq<char>) -> Seq<char> {
    "Unknown conflict action: "@ + action
}

fn apply_answer(batch: &mut TransferBatchRecord, c: usize, action: u8)
    requires
        c < old(batch).children@.len(),
        action <= 4,
    ensures
        batch_updated(*final(batch), *old(batch), old(batch).pause_message,
            old(batch).cancel_requested || action == 4,
            old(batch).children@.update(c as int, answered(old(batch).children@[c as int], action as int))),
        final(batch).conflict_policy == answered_policy(old(batch).conflict_policy, action as int),
{
    if action == 2 {
        batch.conflict_policy = ConflictPolicy::OverwriteAll;
    } else if action == 3 {
        batch.conflict_policy = ConflictPolicy::SkipAll;
    } else if action == 4 {
        batch.cancel_requested = true;
    }
    let child = &mut batch.children[c];
    if action == 0 || action == 2 {
        child.overwrite_approved = true;
        child.view.state = JobState::Queued;
        child.view.conflict = None;
        child.view.error_message = None;
        child.view.can_cancel = true;
    } else if action == 1 || action == 3 {
        child.view.state = JobState::Skipped;
        child.view.conflict = None;
        child.view.error_message = None;
        child.view.can_cancel = false;
    } else {
        child.view.state = JobState::Cancelled;
        child.view.conflict = None;
        child.view.error_message = None;
        child.view.can_cancel = false;
    }
    refresh_batch_aggregate(batch);
}

fn action_code(action: &str) -> (r: Option<u8>)
    ensures
        r matches Some(k) ==> conflict_action(action@) == Some(k as int),
        r is None ==> conflict_action(action@) is None,
{
    if same_text(action, "overwrite") {
        Some(0)
    } else if same_text(action, "skip") {
        Some(1)
    } else if same_text(action, "overwriteall") {
        Some(2)
    } else if same_text(action, "skipall") {
        Some(3)
    } else if same_text(action, "cancelbatch") {
        Some(4)
    } else {
        None
    }
}

/// The outcome of a conflict answer `act` (already trimmed and lowercased; the user's
/// own text is `action`) given to item `c` of batch `b`.
pub open spec fn answer_applied(old_bs: Seq<TransferBatchRecord>, new_bs: Seq<TransferBatchRecord>, b: int, c: int,
    act: Seq<char>, action: Seq<char>, r: Result<(), String>) -> bool {
    let ob = old_bs[b];
    let oc = ob.children@[c];
    if !(oc.view.state is AwaitingConflictDecision) {
        &&& r matches Err(e) && e@ == "This transfer is not waiting on a conflict decision."@
        &&& new_bs == old_bs
    } else {
        match conflict_action(act) {
            None => r matches Err(e) && e@ == unknown_action_text(action) && new_bs == old_bs,
            Some(k) => {
                &&& r is Ok
                &&& others_unchanged(old_bs, new_bs, b)
                &&& batch_updated(new_bs[b], ob, ob.pause_message, ob.cancel_requested || k == 4,
                    ob.children@.update(c, answered(oc, k)))
                &&& new_bs[b].conflict_policy == answered_policy(ob.conflict_policy, k)
            },
        }
    }
}

fn answer_at(state: &mut TransferState, b: usize, c: usize, act: &str, action: &str) -> (r: Result<(), String>)
    requires
        b < old(state).batches@.len(),
        c < old(state).batches@[b as int].children@.len(),
    ensures
        same_queue_frame(*old(state), *final(state)),
        answer_applied(old(state).batches@, final(state).batches@, b as int, c as int, act@, action@, r),
{
    if !matches!(state.batches[b].children[c].view.state, JobState::AwaitingConflictDecision) {
        return Err(owned("This transfer is not waiting on a conflict decision."));
    }
    match action_code(act) {
        None => {
            let mut e = owned("Unknown conflict action: ");
            push_str(&mut e, action);
            Err(e)
        }
        Some(k) => {
            apply_answer(&mut state.batches[b], c, k);
            Ok(())
        }
    }
}

/// Applies the user's answer `action` to the conflict of job `job_id` (an item, or a
/// batch whose first waiting item is meant). The answer is read without surrounding
/// whitespace and in lowercase: "overwrite", "skip", "overwriteall", "skipall" or
/// "cancelbatch".
pub fn resolve_conflict(state: &mut TransferState, job_id: &str, action: &str) -> (r: Result<(), String>)
    ensures
        same_queue_frame(*old(state), *final(state)),
        match conflict_target(old(state).batches@, job_id@) {
            None => r matches Err(e) && e@ == "Transfer job not found."@
                && final(state).batches@ == old(state).batches@,
            Some((b, c)) => answer_applied(old(state).batches@, final(state).batches@, b, c,
                lower_text(trim(action@)), action@, r),
        },
{
    let t = trimmed(action);
    let act = to_lowercase(t.as_str());
    let Some((b, c)) = find_conflict_target_indices(state, job_id) else {
        return Err(owned("Transfer job not found."));
    };
    answer_at(state, b, c, act.as_str(), action)
}

/// Answering a pending conflict with "cancelbatch" succeeds, asks the item's batch
/// to cancel and leaves the item Cancelled, not runnable and no longer waiting;
/// the other items of the batch and every other batch are as they were.
pub proof fn lemma_cancelbatch_answer_cancels(
    old_bs: Seq<TransferBatchRecord>,
    new_bs: Seq<TransferBatchRecord>,
    b: int,
    c: int,
    action: Seq<char>,
    r: Result<(), String>,
)
    requires
        0 <= b < old_bs.len(),
        0 <= c < old_bs[b].children@.len(),
        old_bs[b].children@[c].view.state is AwaitingConflictDecision,
        answer_applied(old_bs, new_bs, b, c, "cancelbatch"@, action, r),
    ensures
        r is Ok,
        new_bs.len() == old_bs.len(),
        new_bs[b].cancel_requested,
        new_bs[b].children@.len() == old_bs[b].children@.len(),
        new_bs[b].children@[c].view.state is Cancelled,
        new_bs[b].children@[c].id == old_bs[b].children@[c].id,
        forall|k: int| 0 <= k < new_bs[b].children@.len() && k != c ==> #[trigger] new_bs[b].children@[k] == old_bs[b].children@[k],
        forall|j: int| 0 <= j < old_bs.len() && j != b ==> #[trigger] new_bs[j] == old_bs[j],
{
    lemma_cancelbatch_is_known();
    let ob = old_bs[b];
    assert(answered(ob.children@[c], 4) == as_batch_cancelled(ob.children@[c]));
    assert(new_bs[b].children@ == ob.children@.update(c, as_batch_cancelled(ob.children@[c])));
}

proof fn lemma_cancelbatch_is_known()
    ensures
        "cancelbatch"@ != "overwrite"@,
        "cancelbatch"@ != "skip"@,
        "cancelbatch"@ != "overwriteall"@,
        "cancelbatch"@ != "skipall"@,
{
    reveal_strlit("cancelbatch");
    reveal_strlit("overwrite");
    reveal_strlit("skip");
    reveal_strlit("overwriteall");
    reveal_strlit("skipall");
    assert("cancelbatch"@.len() != "overwrite"@.len());
    assert("cancelbatch"@.len() != "skip"@.len());
    assert("cancelbatch"@.len() != "overwriteall"@.len());
    assert("cancelbatch"@.len() != "skipall"@.len());
}

/// Finishing a batch's cancel request leaves none of its items queued, so the
/// worker never takes another item of it.
pub proof fn lemma_finalized_batch_does_not_run(ob: TransferBatchRecord, nb: TransferBatchRecord)
    requires
        ready_to_finalize(ob),
        batch_updated(nb, ob, ob.pause_message, ob.cancel_requested,
            ob.children@.map_values(|c: TransferChildRecord| swept(ChildSweep::CancelUnstarted, c))),
    ensures
        forall|k: int| 0 <= k < nb.children@.len() ==> !((#[trigger] nb.children@[k]).view.state is Queued),
        !super::queue::batch_can_run(nb),
{
    assert forall|k: int| 0 <= k < nb.children@.len() implies !((#[trigger] nb.children@[k]).view.state is Queued) by {
        assert(nb.children@[k] == swept(ChildSweep::CancelUnstarted, ob.children@[k]));
    }
    assert(!super::aggregate::any_in(nb.children@, super::StateClass::Queued)) by {
        assert forall|k: int| 0 <= k < nb.children@.len() implies !super::in_class(#[trigger] nb.children@[k].view.state, super::StateClass::Queued) by {
            assert(nb.children@[k] == swept(ChildSweep::CancelUnstarted, ob.children@[k]));
        }
    }
}

/// The state an item takes from how its transfer ended: Succeeded exactly for a
/// success, Skipped for a skip, Failed (with the failure's message) for a failure,
/// and never Succeeded otherwise; for a batch not asked to cancel, also Cancelled
/// for a cancel and AwaitingConflictDecision (with the conflict) for a conflict.
/// Every other item of the batch is as it was.
pub proof fn lemma_outcome_sets_item_state(ob: TransferBatchRecord, k: int, o: TransferRunOutcome)
    requires
        0 <= k < ob.children@.len(),
    ensures
        ({
            let s = items_after_outcome(ob, Some(k), o);
            let st = s[k].view.state;
            &&& s.len() == ob.children@.len()
            &&& s[k].id == ob.children@[k].id
            &&& (st is Succeeded <==> o is Succeeded)
            &&& (o is Skipped ==> st is Skipped)
            &&& (o matches TransferRunOutcome::Failed(m) ==> st is Failed && s[k].view.error_message == Some(m))
            &&& (o is Cancelled ==> st is Cancelled)
            &&& (!ob.cancel_requested ==> match o {
                TransferRunOutcome::AwaitingConflict(cf) => st is AwaitingConflictDecision && s[k].view.conflict == Some(cf),
                _ => true,
            })
            &&& (!ob.cancel_requested ==> forall|j: int| 0 <= j < s.len() && j != k ==> #[trigger] s[j] == ob.children@[j])
        }),
{
    let s = items_after_outcome(ob, Some(k), o);
    let s1 = ob.children@.update(k, with_outcome(ob.children@[k], o));
    if ob.cancel_requested {
        assert(s[k] == swept(ChildSweep::CancelUnstarted, s1[k]));
    }
}

} // verus!
