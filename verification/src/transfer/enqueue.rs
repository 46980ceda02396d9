//! Turning a planned batch into queue records with fresh job ids.
use vstd::prelude::*;
use crate::models::TransferJobSummary;
use crate::text::{decimal, push_decimal, owned};
use super::aggregate::{is_refreshed, progress_of, progress_fraction, refresh_batch_aggregate};
use super::{ConflictPolicy, JobKind, JobState, JobView, PlannedItemKind, TransferBatchRecord, TransferChildRecord,
    TransferChildTask, TransferDirection, TransferState};

verus! {

/// One planned item of a batch.
pub struct PlannedChild {
    pub item_kind: PlannedItemKind,
    pub display_name: String,
    pub source_path: String,
    pub destination_path: String,
    pub bytes_total: Option<u64>,
    pub task: TransferChildTask,
}

/// A batch as planned, before it enters the queue.
pub struct PlannedBatch {
    pub direction: TransferDirection,
    pub destination_root: String,
    pub display_name: String,
    pub source_label: String,
    pub children: Vec<PlannedChild>,
    pub summary: TransferJobSummary,
}

/// The text of job number `n`.
pub open spec fn job_text(n: u64) -> Seq<char> {
    "tx-"@ + decimal(n as nat)
}

/// `n` advanced by `k`, wrapping at `u64::MAX` as `fetch_add` wraps.
pub open spec fn advanced(n: u64, k: nat) -> u64 {
    ((n + k) % 0x1_0000_0000_0000_0000) as u64
}

proof fn lemma_decimal_nonempty(n: nat)
    ensures
        decimal(n).len() >= 1,
    decreases n,
{
    if n >= 10 {
        lemma_decimal_nonempty(n / 10);
    }
}

proof fn lemma_digit_injective(a: nat, b: nat)
    requires
        a < 10,
        b < 10,
        crate::text::digit_char(a) == crate::text::digit_char(b),
    ensures
        a == b,
{
}

proof fn lemma_decimal_injective(a: nat, b: nat)
    requires
        decimal(a) == decimal(b),
    ensures
        a == b,
    decreases a,
{
    lemma_decimal_nonempty(a / 10);
    lemma_decimal_nonempty(b / 10);
    if a < 10 && b < 10 {
        assert(decimal(a) == seq![crate::text::digit_char(a)]);
        assert(decimal(b) == seq![crate::text::digit_char(b)]);
        let (ca, cb) = (crate::text::digit_char(a), crate::text::digit_char(b));
        assert(seq![ca][0] == ca);
        assert(seq![cb][0] == cb);
        assert(ca == cb);
        lemma_digit_injective(a, b);
    } else if a >= 10 && b >= 10 {
        let (da, db) = (decimal(a), decimal(b));
        assert(da.last() == db.last());
        lemma_digit_injective(a % 10, b % 10);
        assert(da.drop_last() =~= decimal(a / 10));
        assert(db.drop_last() =~= decimal(b / 10));
        lemma_decimal_injective(a / 10, b / 10);
    } else if a < 10 {
        assert(decimal(a).len() == 1);
        assert(decimal(b).len() == decimal(b / 10).len() + 1);
    } else {
        assert(decimal(b).len() == 1);
        assert(decimal(a).len() == decimal(a / 10).len() + 1);
    }
}

/// Different job numbers give different job ids.
pub proof fn lemma_job_ids_distinct(a: u64, b: u64)
    requires
        a != b,
    ensures
        job_text(a) != job_text(b),
{
    if job_text(a) == job_text(b) {
        let p = "tx-"@;
        assert(decimal(a as nat) =~= job_text(a).skip(p.len() as int));
        assert(decimal(b as nat) =~= job_text(b).skip(p.len() as int));
        lemma_decimal_injective(a as nat, b as nat);
    }
}

/// The ids one enqueue hands out (the batch's at offset 0, its items' after it)
/// are distinct, also where the counter wraps, for fewer than 2^64 items.
pub proof fn lemma_enqueued_ids_distinct(n0: u64, count: nat, i: nat, j: nat)
    requires
        count <= u64::MAX,
        i <= count,
        j <= count,
        i != j,
    ensures
        job_text(advanced(n0, i)) != job_text(advanced(n0, j)),
{
    let m: int = 0x1_0000_0000_0000_0000;
    let x = n0 + i;
    let y = n0 + j;
    assert(0 <= x < 2 * m && 0 <= y < 2 * m);
    let ax = if x < m { x } else { x - m };
    let ay = if y < m { y } else { y - m };
    vstd::arithmetic::div_mod::lemma_fundamental_div_mod_converse(x, m, if x < m { 0 } else { 1 }, ax);
    vstd::arithmetic::div_mod::lemma_fundamental_div_mod_converse(y, m, if y < m { 0 } else { 1 }, ay);
    assert(advanced(n0, i) == ax);
    assert(advanced(n0, j) == ay);
    assert(ax != ay);
    lemma_job_ids_distinct(advanced(n0, i), advanced(n0, j));
}

/// Issues the next job id, "tx-" and the counter's value, and advances the counter.
pub fn next_id(state: &mut TransferState) -> (id: String)
    ensures
        id@ == job_text(old(state).next_job_id),
        final(state).next_job_id == advanced(old(state).next_job_id, 1),
        final(state).batches == old(state).batches,
        final(state).active_job_id == old(state).active_job_id,
        final(state).worker_running == old(state).worker_running,
        final(state).next_snapshot_sequence == old(state).next_snapshot_sequence,
{
    let n = state.next_job_id;
    let mut id = owned("tx-");
    push_decimal(&mut id, n);
    state.next_job_id = if n == u64::MAX { 0 } else { n + 1 };
    id
}

/// The view a new item starts with.
pub open spec fn fresh_child_view(id: String, batch_id: String, direction: TransferDirection, p: PlannedChild) -> JobView {
    JobView {
        id: id,
        kind: JobKind::Child,
        batch_id: Some(batch_id),
        parent_id: Some(batch_id),
        direction: direction,
        name: p.display_name,
        source_path: p.source_path,
        destination_path: p.destination_path,
        rate: None,
        bytes_total: p.bytes_total,
        bytes_transferred: 0,
        progress_percent: Some(if p.item_kind is Directory { 0 } else { progress_of(0, p.bytes_total) as u8 }),
        state: JobState::Queued,
        error_message: None,
        conflict: None,
        can_cancel: true,
        can_retry: false,
        summary: None,
        current_item_label: None,
    }
}

/// `c` is the queue record of planned item `p` with job number `n` in batch `batch_id`.
pub open spec fn is_fresh_child(c: TransferChildRecord, p: PlannedChild, n: u64, batch_id: String, direction: TransferDirection) -> bool {
    &&& c.id@ == job_text(n)
    &&& c.batch_id == batch_id
    &&& c.item_kind == p.item_kind
    &&& c.task == p.task
    &&& !c.overwrite_approved
    &&& c.view == fresh_child_view(c.id, batch_id, direction, p)
}

/// The view a new batch starts with.
pub open spec fn fresh_batch_view(id: String, p: PlannedBatch) -> JobView {
    JobView {
        id: id,
        kind: JobKind::Batch,
        batch_id: Some(id),
        parent_id: None,
        direction: p.direction,
        name: p.display_name,
        source_path: p.source_label,
        destination_path: p.destination_root,
        rate: None,
        bytes_total: None,
        bytes_transferred: 0,
        progress_percent: Some(0),
        state: JobState::Queued,
        error_message: None,
        conflict: None,
        can_cancel: true,
        can_retry: false,
        summary: Some(p.summary),
        current_item_label: None,
    }
}

fn fresh_child(state: &mut TransferState, p: PlannedChild, batch_id: &String, direction: TransferDirection) -> (c: TransferChildRecord)
    ensures
        is_fresh_child(c, p, old(state).next_job_id, *batch_id, direction),
        final(state).next_job_id == advanced(old(state).next_job_id, 1),
        final(state).batches == old(state).batches,
        final(state).active_job_id == old(state).active_job_id,
        final(state).worker_running == old(state).worker_running,
        final(state).next_snapshot_sequence == old(state).next_snapshot_sequence,
{
    let id = next_id(state);
    let progress = match p.item_kind {
        PlannedItemKind::Directory => 0,
        PlannedItemKind::File => progress_fraction(0, p.bytes_total),
    };
    let PlannedChild { item_kind, display_name, source_path, destination_path, bytes_total, task } = p;
    TransferChildRecord {
        id: id.clone(),
        batch_id: batch_id.clone(),
        item_kind,
        task,
        overwrite_approved: false,
        view: JobView {
            id,
            kind: JobKind::Child,
            batch_id: Some(batch_id.clone()),
            parent_id: Some(batch_id.clone()),
            direction,
            name: display_name,
            source_path,
            destination_path,
            rate: None,
            bytes_total,
            bytes_transferred: 0,
            progress_percent: Some(progress),
            state: JobState::Queued,
            error_message: None,
            conflict: None,
            can_cancel: true,
            can_retry: false,
            summary: None,
            current_item_label: None,
        },
    }
}

/// Adds a planned batch to the end of the queue. The batch takes the next job id and
/// its items the ones after it, in order; every item starts queued; the batch view
/// starts from the plan and is brought up to date with the items.
pub fn enqueue_batch(state: &mut TransferState, planned: PlannedBatch)
    ensures
        final(state).active_job_id == old(state).active_job_id,
        final(state).worker_running == old(state).worker_running,
        final(state).next_snapshot_sequence == old(state).next_snapshot_sequence,
        final(state).next_job_id == advanced(old(state).next_job_id, planned.children@.len() + 1),
        final(state).batches@.len() == old(state).batches@.len() + 1,
        forall|j: int| 0 <= j < old(state).batches@.len() ==> #[trigger] final(state).batches@[j] == old(state).batches@[j],
        ({
            let nb = final(state).batches@.last();
            let n0 = old(state).next_job_id;
            &&& nb.id@ == job_text(n0)
            &&& nb.direction == planned.direction
            &&& nb.destination_root@ == planned.destination_root@
            &&& nb.conflict_policy == ConflictPolicy::Ask
            &&& nb.pause_message is None
            &&& !nb.cancel_requested
            &&& nb.children@.len() == planned.children@.len()
            &&& forall|k: int| 0 <= k < nb.children@.len() ==>
                is_fresh_child(#[trigger] nb.children@[k], planned.children@[k], advanced(n0, (k + 1) as nat), nb.id, planned.direction)
            &&& is_refreshed(nb.view, fresh_batch_view(nb.id, planned), None, false, nb.children@)
        }),
{
    let ghost n0 = state.next_job_id;
    let ghost plan = planned;
    let batch_id = next_id(state);
    let PlannedBatch { direction, destination_root, display_name, source_label, children: mut planned_children, summary } = planned;
    let ghost items = planned_children@;
    assert(items.len() == planned_children.len());
    let mut children: Vec<TransferChildRecord> = Vec::new();
    let mut k: usize = 0;
    while planned_children.len() > 0
        invariant
            k + planned_children@.len() == items.len(),
            items.len() <= usize::MAX,
            planned_children@ == items.subrange(k as int, items.len() as int),
            children@.len() == k,
            state.next_job_id == advanced(n0, (k + 1) as nat),
            state.batches == old(state).batches,
            state.active_job_id == old(state).active_job_id,
            state.worker_running == old(state).worker_running,
            state.next_snapshot_sequence == old(state).next_snapshot_sequence,
            forall|j: int| 0 <= j < k ==>
                is_fresh_child(#[trigger] children@[j], items[j], advanced(n0, (j + 1) as nat), batch_id, direction),
        decreases planned_children.len(),
    {
        let p = planned_children.remove(0);
        assert(p == items[k as int]);
        let c = fresh_child(state, p, &batch_id, direction);
        proof {
            assert(advanced(advanced(n0, (k + 1) as nat), 1) == advanced(n0, (k + 2) as nat)) by {
                assert(((n0 + k + 1) % 0x1_0000_0000_0000_0000 + 1) % 0x1_0000_0000_0000_0000
                    == (n0 + k + 2) % 0x1_0000_0000_0000_0000) by {
                    vstd::arithmetic::div_mod::lemma_add_mod_noop((n0 + k + 1) as int, 1, 0x1_0000_0000_0000_0000);
                }
            }
        }
        children.push(c);
        k += 1;
        assert(planned_children@ =~= items.subrange(k as int, items.len() as int));
    }
    let mut batch = TransferBatchRecord {
        id: batch_id.clone(),
        direction,
        destination_root: destination_root.clone(),
        conflict_policy: ConflictPolicy::Ask,
        pause_message: None,
        cancel_requested: false,
        view: JobView {
            id: batch_id.clone(),
            kind: JobKind::Batch,
            batch_id: Some(batch_id.clone()),
            parent_id: None,
            direction,
            name: display_name,
            source_path: source_label,
            destination_path: destination_root,
            rate: None,
            bytes_total: None,
            bytes_transferred: 0,
            progress_percent: Some(0),
            state: JobState::Queued,
            error_message: None,
            conflict: None,
            can_cancel: true,
            can_retry: false,
            summary: Some(summary),
            current_item_label: None,
        },
        children,
    };
    refresh_batch_aggregate(&mut batch);
    state.batches.push(batch);
}

} // verus!
