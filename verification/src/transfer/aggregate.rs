//! The aggregate view of a batch: counts, bytes, progress and the batch state,
//! all derived from the batch's items.
use vstd::prelude::*;
use crate::models::{TransferJobSummary, clone_opt_string, clone_opt_conflict};
use vstd::arithmetic::power2::{lemma2_to64, lemma2_to64_rest, lemma_pow2_adds, lemma_pow2_pos, pow2};
use vstd::arithmetic::div_mod::{lemma_fundamental_div_mod, lemma_fundamental_div_mod_converse};
use crate::binary32::{lemma_pow2_monotonic, lemma_single_round_exact, lemma_single_round_scaled, lemma_single_round_zero, pow2_u128, round_single, single_round};
use crate::text::{decimal, owned, push_decimal, push_str};
use super::rate::round_half_even;
use super::{JobState, JobView, PlannedItemKind, StateClass, TransferBatchRecord, TransferChildRecord, in_class, state_in};

verus! {

/// The percentage of `total` that `done` bytes make, as the queue shows it:
/// a known total of zero counts as complete, an unknown total as zero, and both
/// products are capped at `u64::MAX` before the division.
pub open spec fn progress_of(done: u64, total: Option<u64>) -> int {
    match total {
        None => 0,
        Some(t) => if t == 0 {
            100
        } else {
            let a = if done * 100 > u64::MAX { u64::MAX as int } else { done * 100 };
            let b = if t * 100 > u64::MAX { u64::MAX as int } else { t * 100 };
            (if a < b { a } else { b }) / (t as int)
        },
    }
}

proof fn lemma_share_at_most_100(m: int, t: int)
    by (nonlinear_arith)
    requires
        t > 0,
        0 <= m <= t * 100,
    ensures
        m / t <= 100,
{
}

/// A transfer whose bytes have all arrived shows as complete, for totals whose
/// hundredfold fits in a `u64`.
pub proof fn lemma_progress_complete(done: u64, total: u64)
    requires
        done >= total,
        total * 100 <= u64::MAX,
    ensures
        progress_of(done, Some(total)) == 100,
{
    if total > 0 {
        assert((total * 100) / (total as int) == 100) by (nonlinear_arith)
            requires total > 0;
    }
}

/// Progress never goes back as more bytes of the same total arrive.
pub proof fn lemma_progress_monotonic(done: u64, more: u64, total: Option<u64>)
    requires
        done <= more,
    ensures
        progress_of(done, total) <= progress_of(more, total),
{
    match total {
        None => {},
        Some(t) => {
            if t > 0 {
                let a1 = if done * 100 > u64::MAX { u64::MAX as int } else { done * 100 };
                let a2 = if more * 100 > u64::MAX { u64::MAX as int } else { more * 100 };
                let b = if t * 100 > u64::MAX { u64::MAX as int } else { t * 100 };
                assert(done * 100 <= more * 100) by (nonlinear_arith)
                    requires done <= more;
                let m1 = if a1 < b { a1 } else { b };
                let m2 = if a2 < b { a2 } else { b };
                assert(0 <= m1 <= m2);
                vstd::arithmetic::div_mod::lemma_div_is_ordered(m1, m2, t as int);
            }
        },
    }
}

proof fn lemma_finished_count(s: Seq<TransferChildRecord>, i: nat)
    requires
        i <= s.len(),
        s.len() <= 0x100_0000,
        forall|k: int| 0 <= k < s.len() ==> in_class(#[trigger] s[k].view.state, StateClass::Settled),
    ensures
        float_completed(s.take(i as int)) == i * pow2(149),
    decreases i,
{
    if i > 0 {
        let t = s.take(i as int);
        assert(t.drop_last() =~= s.take(i - 1));
        lemma_finished_count(s, (i - 1) as nat);
        assert(t.last() == s[i - 1]);
        lemma_pow2_pos(149);
        assert((i - 1) * pow2(149) + pow2(149) == i * pow2(149)) by (nonlinear_arith);
        lemma_single_round_exact(i, 149);
    } else {
        assert(s.take(0) =~= Seq::<TransferChildRecord>::empty());
    }
}

/// A batch whose items have all finished shows as complete by item count, for
/// batches of up to 2^24 items (beyond that the single-precision count stops
/// growing).
pub proof fn lemma_finished_batch_complete(s: Seq<TransferChildRecord>)
    requires
        s.len() <= 0x100_0000,
        forall|k: int| 0 <= k < s.len() ==> in_class(#[trigger] s[k].view.state, StateClass::Settled),
    ensures
        count_progress(s) == 100,
{
    if s.len() > 0 {
        let n = s.len();
        lemma_finished_count(s, n);
        assert(s.take(n as int) =~= s);
        lemma_single_round_exact(n, 149);
        let total = n * pow2(149);
        lemma_pow2_pos(149);
        assert(total > 0) by (nonlinear_arith)
            requires
                total == n * pow2(149),
                n > 0,
                pow2(149) > 0,
        ;
        assert((n * pow2(149)) * pow2(149) == pow2(149) * total) by (nonlinear_arith)
            requires
                total == n * pow2(149),
        ;
        lemma_single_round_scaled(pow2(149), 1, total);
        assert(1 * total == total);
        lemma_single_round_exact(1, 149);
        assert(1 * pow2(149) == pow2(149));
        lemma_single_round_exact(100, 149);
        assert(pow2(149) * 100 == 100 * pow2(149)) by (nonlinear_arith);
        lemma_pow2_adds(148, 1);
        lemma2_to64();
        lemma_pow2_pos(148);
        assert(100 * pow2(149) + pow2(148) == 100 * pow2(149) + pow2(148));
        lemma_fundamental_div_mod_converse((100 * pow2(149) + pow2(148)) as int, pow2(149) as int, 100, pow2(148) as int);
    }
}

/// `x * 100`, capped at `u64::MAX` as `saturating_mul` caps it.
fn times_100_capped(x: u64) -> (r: u64)
    ensures
        r == (if x * 100 > u64::MAX { u64::MAX as int } else { x * 100 }),
{
    if x > u64::MAX / 100 {
        u64::MAX
    } else {
        x * 100
    }
}

/// The percentage of `bytes_total` that `bytes_transferred` makes.
pub fn progress_fraction(bytes_transferred: u64, bytes_total: Option<u64>) -> (r: u8)
    ensures
        r == progress_of(bytes_transferred, bytes_total),
        r <= 100,
{
    match bytes_total {
        Some(0) => 100,
        Some(total) => {
            let a = times_100_capped(bytes_transferred);
            let b = times_100_capped(total);
            let m = if a < b { a } else { b };
            proof {
                lemma_share_at_most_100(m as int, total as int);
            }
            (m / total) as u8
        },
        None => 0,
    }
}

/// How many items of `s` are of `kind` (any kind when `kind` is `None`) and in
/// `class` (any state when `class` is `None`).
pub open spec fn count_items(s: Seq<TransferChildRecord>, kind: Option<PlannedItemKind>, class: Option<StateClass>) -> nat
    decreases s.len(),
{
    if s.len() == 0 {
        0
    } else {
        let c = s.last();
        let hit = (kind matches Some(k) ==> c.item_kind == k) && (class matches Some(k) ==> in_class(c.view.state, k));
        count_items(s.drop_last(), kind, class) + if hit { 1nat } else { 0nat }
    }
}

/// Some item of `s` is in `class`.
pub open spec fn any_in(s: Seq<TransferChildRecord>, class: StateClass) -> bool {
    exists|j: int| 0 <= j < s.len() && in_class(#[trigger] s[j].view.state, class)
}

/// Every item of `s` is in `class`.
pub open spec fn all_in(s: Seq<TransferChildRecord>, class: StateClass) -> bool {
    forall|j: int| 0 <= j < s.len() ==> in_class(#[trigger] s[j].view.state, class)
}

/// The first index of an item of `s` in `class`, if any.
pub open spec fn first_in(s: Seq<TransferChildRecord>, class: StateClass) -> Option<int> {
    if any_in(s, class) {
        Some(choose|j: int| 0 <= j < s.len() && in_class(s[j].view.state, class)
            && forall|k: int| 0 <= k < j ==> !in_class(#[trigger] s[k].view.state, class))
    } else {
        None
    }
}

/// The file and directory counts of a batch with items `s`.
pub open spec fn summary_of(s: Seq<TransferChildRecord>) -> TransferJobSummary {
    TransferJobSummary {
        total_files: count_items(s, Some(PlannedItemKind::File), None) as usize,
        total_directories: count_items(s, Some(PlannedItemKind::Directory), None) as usize,
        completed_files: count_items(s, Some(PlannedItemKind::File), Some(StateClass::Succeeded)) as usize,
        failed_files: count_items(s, Some(PlannedItemKind::File), Some(StateClass::Failed)) as usize,
        skipped_files: count_items(s, Some(PlannedItemKind::File), Some(StateClass::CancelLike)) as usize,
    }
}

/// The sum of the known sizes of the file items of `s`.
pub open spec fn known_bytes(s: Seq<TransferChildRecord>) -> nat
    decreases s.len(),
{
    if s.len() == 0 {
        0
    } else {
        let c = s.last();
        known_bytes(s.drop_last()) + if c.item_kind is File && c.view.bytes_total is Some {
            c.view.bytes_total->0 as nat
        } else {
            0nat
        }
    }
}

/// Every file item of `s` has a known size.
pub open spec fn all_sizes_known(s: Seq<TransferChildRecord>) -> bool {
    forall|j: int| 0 <= j < s.len() && #[trigger] s[j].item_kind is File ==> s[j].view.bytes_total is Some
}

/// The bytes an item has moved, as the batch counts them: the full size of a
/// finished file (its moved bytes where the size is unknown), the moved bytes of a
/// file under way, and nothing otherwise.
pub open spec fn moved_bytes(c: TransferChildRecord) -> nat {
    if c.item_kind is Directory {
        0
    } else if c.view.state is Succeeded {
        match c.view.bytes_total {
            Some(b) => b as nat,
            None => c.view.bytes_transferred as nat,
        }
    } else if in_class(c.view.state, StateClass::Active) {
        c.view.bytes_transferred as nat
    } else {
        0
    }
}

/// The sum of `moved_bytes` over `s`.
pub open spec fn sum_moved(s: Seq<TransferChildRecord>) -> nat
    decreases s.len(),
{
    if s.len() == 0 { 0 } else { sum_moved(s.drop_last()) + moved_bytes(s.last()) }
}

/// An item's share of the completed count, in units of 2^-149: one for a
/// finished item, and for an item under way its percentage divided by 100 in
/// single precision.
pub open spec fn float_share(c: TransferChildRecord) -> nat {
    if in_class(c.view.state, StateClass::Settled) {
        pow2(149)
    } else if in_class(c.view.state, StateClass::Active) {
        match c.view.progress_percent {
            Some(p) => single_round((p * pow2(149)) as nat, 100),
            None => 0,
        }
    } else {
        0
    }
}

/// The completed count of `s`, summed item by item in single precision (adding
/// a zero share leaves a single as it is), in units of 2^-149.
pub open spec fn float_completed(s: Seq<TransferChildRecord>) -> nat
    decreases s.len(),
{
    if s.len() == 0 {
        0
    } else {
        let c = float_completed(s.drop_last());
        let t = float_share(s.last());
        if t == 0 { c } else { single_round(c + t, 1) }
    }
}

/// Batch progress by item count, computed in single precision as the interface
/// computes it: the completed count over the item count, times 100, each step
/// rounded to a single; then rounded half away from zero and capped at 100. An
/// empty batch counts as complete.
pub open spec fn count_progress(s: Seq<TransferChildRecord>) -> int {
    if s.len() == 0 {
        100
    } else {
        let completed = float_completed(s);
        let total = single_round(s.len() * pow2(149), 1);
        let ratio = single_round(completed * pow2(149), total);
        let scaled = single_round(ratio * 100, 1);
        let whole = (scaled + pow2(148)) / pow2(149);
        if whole > 100 { 100 } else { whole as int }
    }
}

/// A value capped at `u64::MAX`, as repeated `saturating_add` leaves it.
pub open spec fn saturated(n: nat) -> u64 {
    if n > u64::MAX { u64::MAX } else { n as u64 }
}

/// The message of a batch that ended with failed or skipped items.
pub open spec fn completion_text(s: TransferJobSummary) -> Seq<char> {
    decimal(s.completed_files as nat) + " completed"@
        + (if s.failed_files > 0 { ", "@ + decimal(s.failed_files as nat) + " failed"@ } else { Seq::<char>::empty() })
        + (if s.skipped_files > 0 { ", "@ + decimal(s.skipped_files as nat) + " skipped"@ } else { Seq::<char>::empty() })
}

/// The message `batch_completion_message` gives for a batch.
pub open spec fn completion_message_of(b: TransferBatchRecord) -> Seq<char> {
    if b.view.state is PausedDisconnected {
        match b.pause_message {
            Some(m) => m@,
            None => "Reconnect and retry the batch to continue transferring."@,
        }
    } else {
        completion_text(match b.view.summary {
            Some(s) => s,
            None => TransferJobSummary {
                total_files: 0,
                total_directories: 0,
                completed_files: 0,
                failed_files: 0,
                skipped_files: 0,
            },
        })
    }
}

/// The batch state and the flags that go with it, given the batch's pause message,
/// cancel request and items: (state, can_cancel, can_retry, has an error message).
pub open spec fn batch_status(paused: bool, cancel_requested: bool, s: Seq<TransferChildRecord>) -> (JobState, bool, bool) {
    if paused {
        (JobState::PausedDisconnected, true, true)
    } else if cancel_requested {
        if any_in(s, StateClass::Pending) {
            (JobState::Cancelling, false, false)
        } else {
            (JobState::Cancelled, false, !all_in(s, StateClass::CancelLike))
        }
    } else if any_in(s, StateClass::Conflict) {
        (JobState::AwaitingConflictDecision, true, false)
    } else if any_in(s, StateClass::Active) {
        (if any_in(s, StateClass::Cancelling) { JobState::Cancelling } else { JobState::Running }, true, false)
    } else if any_in(s, StateClass::Pending) {
        (JobState::Queued, true, false)
    } else if any_in(s, StateClass::Failed) || any_in(s, StateClass::CancelLike) {
        (if any_in(s, StateClass::Succeeded) {
            JobState::CompletedWithErrors
        } else if all_in(s, StateClass::CancelLike) {
            JobState::Cancelled
        } else {
            JobState::Failed
        }, false, true)
    } else {
        (JobState::Succeeded, false, false)
    }
}

/// The view `v` of a batch with pause message `pause`, cancel request `cancel` and
/// items `s`, once its aggregate is brought up to date with its items.
pub open spec fn refreshed_view(v: JobView, pause: Option<String>, cancel: bool, s: Seq<TransferChildRecord>) -> JobView {
    let summary = summary_of(s);
    let status = batch_status(pause is Some, cancel, s);
    let known = all_sizes_known(s);
    let total = saturated(known_bytes(s));
    let moved = saturated(sum_moved(s));
    JobView {
        summary: Some(summary),
        current_item_label: match first_in(s, StateClass::Active) {
            Some(i) => Some(s[i].view.name),
            None => None,
        },
        rate: match first_in(s, StateClass::Active) {
            Some(i) => s[i].view.rate,
            None => None,
        },
        conflict: match first_in(s, StateClass::Conflict) {
            Some(i) => s[i].view.conflict,
            None => None,
        },
        bytes_total: if known { Some(total) } else { None },
        bytes_transferred: moved,
        progress_percent: Some((if known { progress_of(moved, Some(total)) } else { count_progress(s) }) as u8),
        state: status.0,
        can_cancel: status.1,
        can_retry: status.2,
        ..v
    }
}

/// The message text of a batch once its aggregate is brought up to date: the
/// pause message of a paused batch, the completion summary of a batch that ended
/// with failed or skipped items, and none otherwise.
pub open spec fn refreshed_message(pause: Option<String>, cancel: bool, s: Seq<TransferChildRecord>) -> Option<Seq<char>> {
    if pause is Some {
        opt_text(pause)
    } else if !cancel && !any_in(s, StateClass::Conflict) && !any_in(s, StateClass::Pending)
        && (any_in(s, StateClass::Failed) || any_in(s, StateClass::CancelLike)) {
        Some(completion_text(summary_of(s)))
    } else {
        None
    }
}

/// `new` is the view `old` of a batch with pause message `pause`, cancel request
/// `cancel` and items `s`, brought up to date with those items.
pub open spec fn is_refreshed(new: JobView, old: JobView, pause: Option<String>, cancel: bool, s: Seq<TransferChildRecord>) -> bool {
    &&& new == JobView { error_message: new.error_message, ..refreshed_view(old, pause, cancel, s) }
    &&& opt_text(new.error_message) == refreshed_message(pause, cancel, s)
}

/// A helper equality on optional strings by their characters.
pub open spec fn opt_text(o: Option<String>) -> Option<Seq<char>> {
    match o {
        Some(s) => Some(s@),
        None => None,
    }
}

proof fn lemma_count_le(s: Seq<TransferChildRecord>, kind: Option<PlannedItemKind>, class: Option<StateClass>)
    ensures
        count_items(s, kind, class) <= s.len(),
    decreases s.len(),
{
    if s.len() > 0 {
        lemma_count_le(s.drop_last(), kind, class);
    }
}

/// Counts items of `children` by kind and class.
fn count_children(children: &Vec<TransferChildRecord>, kind: Option<PlannedItemKind>, class: Option<StateClass>) -> (n: usize)
    ensures
        n == count_items(children@, kind, class),
{
    let mut n: usize = 0;
    let mut i: usize = 0;
    while i < children.len()
        invariant
            i <= children.len(),
            n == count_items(children@.take(i as int), kind, class),
        decreases children.len() - i,
    {
        let c = &children[i];
        let kind_ok = match kind {
            Some(k) => c.item_kind == k,
            None => true,
        };
        let class_ok = match class {
            Some(k) => state_in(c.view.state, k),
            None => true,
        };
        proof {
            assert(children@.take(i + 1).drop_last() =~= children@.take(i as int));
            lemma_count_le(children@.take(i as int), kind, class);
        }
        if kind_ok && class_ok {
            n += 1;
        }
        i += 1;
    }
    assert(children@.take(children.len() as int) =~= children@);
    n
}

/// How many items of `children` are still to do.
pub fn count_pending(children: &Vec<TransferChildRecord>) -> (n: usize)
    ensures
        n == count_items(children@, None, Some(StateClass::Pending)),
{
    count_children(children, None, Some(StateClass::Pending))
}

/// Whether some item of `children` is in `class`.
pub fn any_child_in(children: &Vec<TransferChildRecord>, class: StateClass) -> (r: bool)
    ensures
        r == any_in(children@, class),
{
    match first_child_in(children, class) {
        Some(_) => true,
        None => false,
    }
}

/// Whether every item of `children` is in `class`.
pub fn all_children_in(children: &Vec<TransferChildRecord>, class: StateClass) -> (r: bool)
    ensures
        r == all_in(children@, class),
{
    let mut i: usize = 0;
    while i < children.len()
        invariant
            i <= children.len(),
            forall|j: int| 0 <= j < i ==> in_class(#[trigger] children@[j].view.state, class),
        decreases children.len() - i,
    {
        if !state_in(children[i].view.state, class) {
            return false;
        }
        i += 1;
    }
    true
}

/// The index of the first item of `children` in `class`.
pub fn first_child_in(children: &Vec<TransferChildRecord>, class: StateClass) -> (r: Option<usize>)
    ensures
        r matches Some(i) ==> i < children.len() && first_in(children@, class) == Some(i as int),
        r is None ==> first_in(children@, class) is None,
{
    let mut i: usize = 0;
    while i < children.len()
        invariant
            i <= children.len(),
            forall|k: int| 0 <= k < i ==> !in_class(#[trigger] children@[k].view.state, class),
        decreases children.len() - i,
    {
        if state_in(children[i].view.state, class) {
            proof {
                let s = children@;
                assert(any_in(s, class));
                let j = choose|j: int| 0 <= j < s.len() && in_class(s[j].view.state, class)
                    && forall|k: int| 0 <= k < j ==> !in_class(#[trigger] s[k].view.state, class);
                if j < i {
                } else if j > i {
                    assert(!in_class(s[i as int].view.state, class));
                }
                assert(j == i);
            }
            return Some(i);
        }
        i += 1;
    }
    None
}

/// Sums the known file sizes and the moved bytes of `children`, each capped at `u64::MAX`.
fn byte_totals(children: &Vec<TransferChildRecord>) -> (r: (u64, bool, u64))
    ensures
        r.0 == saturated(known_bytes(children@)),
        r.1 == all_sizes_known(children@),
        r.2 == saturated(sum_moved(children@)),
{
    let mut total: u64 = 0;
    let mut known = true;
    let mut moved: u64 = 0;
    let mut i: usize = 0;
    while i < children.len()
        invariant
            i <= children.len(),
            total == saturated(known_bytes(children@.take(i as int))),
            moved == saturated(sum_moved(children@.take(i as int))),
            known == all_sizes_known(children@.take(i as int)),
        decreases children.len() - i,
    {
        let c = &children[i];
        proof {
            assert(children@.take(i + 1).drop_last() =~= children@.take(i as int));
        }
        let ghost prefix = children@.take(i + 1);
        if c.item_kind == PlannedItemKind::File {
            match c.view.bytes_total {
                Some(b) => {
                    total = total.saturating_add(b);
                }
                None => {
                    known = false;
                }
            }
            let add: u64 = match c.view.state {
                JobState::Succeeded => match c.view.bytes_total {
                    Some(b) => b,
                    None => c.view.bytes_transferred,
                },
                JobState::Running | JobState::Checking | JobState::Cancelling => c.view.bytes_transferred,
                _ => 0,
            };
            moved = moved.saturating_add(add);
        }
        proof {
            assert(prefix.last() == children@[i as int]);
            if known {
                assert forall|j: int| 0 <= j < prefix.len() && #[trigger] prefix[j].item_kind is File implies
                    prefix[j].view.bytes_total is Some by {
                    if j < i {
                        assert(prefix[j] == children@.take(i as int)[j]);
                    }
                }
            } else {
                if c.item_kind is File && c.view.bytes_total is None {
                    assert(prefix[i as int] == children@[i as int]);
                } else {
                    assert(!all_sizes_known(children@.take(i as int)));
                    let j = choose|j: int| 0 <= j < children@.take(i as int).len()
                        && #[trigger] children@.take(i as int)[j].item_kind is File
                        && children@.take(i as int)[j].view.bytes_total is None;
                    assert(prefix[j] == children@.take(i as int)[j]);
                }
            }
        }
        i += 1;
    }
    assert(children@.take(children.len() as int) =~= children@);
    (total, known, moved)
}

proof fn lemma_one_unit()
    ensures
        0x4000_0000 * pow2(119) == pow2(149),
{
    lemma2_to64();
    lemma_pow2_adds(30, 119);
}

proof fn lemma_share_exponent(n: nat, e: nat)
    requires
        n < 0x40_0000_0000,
        e > 0 ==> n >= 100 * pow2(e + 23),
    ensures
        e <= 8,
        pow2(e) <= 256,
        pow2(e) >= 1,
{
    lemma2_to64();
    if e >= 9 {
        lemma_pow2_monotonic(32, e + 23);
    }
    lemma_pow2_monotonic(e, 8);
    lemma_pow2_pos(e);
}

/// The share of an item under way at `p` percent, in units of 2^-30.
fn active_share(p: u8) -> (k: u128)
    ensures
        k * pow2(119) == single_round((p * pow2(149)) as nat, 100),
        k == 0 || (0x80_0000 <= k <= 0x1_0000_0000),
{
    if p == 0 {
        proof {
            lemma_single_round_zero(100);
        }
        return 0;
    }
    let n = (p as u128) * 0x4000_0000;
    let (m, j) = round_single(n, 100, 119);
    let e = j - 119;
    proof {
        lemma_share_exponent(n as nat, e as nat);
    }
    let scale = pow2_u128(e);
    proof {
        assert(m * scale <= 0x1_0000_0000) by (nonlinear_arith)
            requires
                m <= 0x100_0000,
                scale <= 256,
        ;
        assert(m * scale >= m) by (nonlinear_arith)
            requires
                scale >= 1,
        ;
        lemma_pow2_adds(e as nat, 119);
        assert(m * scale * pow2(119) == m * pow2(j as nat)) by (nonlinear_arith)
            requires
                pow2(j as nat) == scale * pow2(119),
        ;
        lemma_one_unit();
        assert((p * pow2(149)) as nat == (n * pow2(119)) as nat) by (nonlinear_arith)
            requires
                n == p * 0x4000_0000,
                pow2(149) == 0x4000_0000 * pow2(119),
        ;
    }
    m * scale
}

/// An item's share of the completed count, in units of 2^-30.
fn share_of(c: &TransferChildRecord) -> (k: u128)
    ensures
        k * pow2(119) == float_share(*c),
        k == 0 || (0x80_0000 <= k <= 0x1_0000_0000),
{
    match c.view.state {
        JobState::Succeeded | JobState::Failed | JobState::Skipped | JobState::Cancelled => {
            proof {
                lemma_one_unit();
            }
            0x4000_0000
        },
        JobState::Running | JobState::Checking | JobState::Cancelling => match c.view.progress_percent {
            Some(p) => active_share(p),
            None => 0,
        },
        _ => 0,
    }
}

proof fn lemma_sum_rounding(n: nat, m: nat, e: nat)
    requires
        0x80_0000 <= n <= 0x200_0000_0000_0000 + 0x1_0000_0000,
        n < pow2(e + 24),
        e > 0 ==> n >= pow2(e + 23),
        m == round_half_even(n, pow2(e)),
        0x80_0000 <= m <= 0x100_0000,
    ensures
        e <= 34,
        pow2(e) >= 1,
        m * pow2(e) <= 0x200_0000_0000_0000,
{
    lemma2_to64();
    lemma2_to64_rest();
    lemma_pow2_pos(e);
    if e >= 35 {
        lemma_pow2_monotonic(58, e + 23);
    }
    if e <= 33 {
        lemma_pow2_monotonic(e, 33);
        assert(m * pow2(e) <= 0x100_0000 * 0x2_0000_0000) by (nonlinear_arith)
            requires
                m <= 0x100_0000,
                pow2(e) <= 0x2_0000_0000,
        ;
    } else {
        assert(e == 34);
        assert(pow2(e) == 0x4_0000_0000);
        assert(e + 24 == 58);
        lemma_pow2_adds(57, 1);
        assert(n >= 0x200_0000_0000_0000) by {
            if n < 0x200_0000_0000_0000 {
                assert(pow2(57) == 0x200_0000_0000_0000) by {
                    lemma_pow2_adds(32, 25);
                }
            }
        }
        assert(n / 0x4_0000_0000 == 0x80_0000);
        assert(n % 0x4_0000_0000 <= 0x1_0000_0000);
    }
}

/// `k + t` units of 2^-30 rounded to single precision, for a sum `k` of at most
/// 2^57 and a share `t`; the result is again at most 2^57, since from 2^57 on
/// singles are 2^34 apart and no share reaches half of that.
fn add_share(k: u128, t: u128) -> (r: u128)
    requires
        k <= 0x200_0000_0000_0000,
        0x80_0000 <= t <= 0x1_0000_0000,
    ensures
        r * pow2(119) == single_round(((k + t) * pow2(119)) as nat, 1),
        0x80_0000 <= r <= 0x200_0000_0000_0000,
{
    let n = k + t;
    let (m, j) = round_single(n, 1, 119);
    let e = j - 119;
    proof {
        lemma_sum_rounding(n as nat, m as nat, e as nat);
    }
    let scale = pow2_u128(e);
    proof {
        lemma_pow2_adds(e as nat, 119);
        assert(m * scale * pow2(119) == m * pow2(j as nat)) by (nonlinear_arith)
            requires
                pow2(j as nat) == scale * pow2(119),
        ;
        assert(m * scale >= m) by (nonlinear_arith)
            requires
                scale >= 1,
        ;
    }
    m * scale
}

/// Batch progress by item count, for a batch whose sizes are not all known.
pub fn progress_from_counts(batch: &TransferBatchRecord) -> (r: u8)
    ensures
        r == count_progress(batch.children@),
        r <= 100,
{
    let count = batch.children.len();
    if count == 0 {
        return 100;
    }
    proof {
        lemma2_to64();
        lemma_pow2_adds(24, 125);
        lemma_pow2_adds(30, 119);
    }
    let ghost s = batch.children@;
    let mut k: u128 = 0;
    let mut i: usize = 0;
    while i < count
        invariant
            count == batch.children.len(),
            s == batch.children@,
            i <= count,
            k * pow2(119) == float_completed(s.take(i as int)),
            k == 0 || k >= 0x80_0000,
            k <= 0x200_0000_0000_0000,
        decreases count - i,
    {
        proof {
            assert(s.take(i + 1).drop_last() =~= s.take(i as int));
            assert(s.take(i + 1).last() == s[i as int]);
        }
        let ghost before = float_completed(s.take(i as int));
        let t = share_of(&batch.children[i]);
        proof {
            lemma_pow2_pos(119);
            assert(float_share(s[i as int]) == t * pow2(119));
            assert((float_share(s[i as int]) == 0) == (t == 0)) by (nonlinear_arith)
                requires
                    float_share(s[i as int]) == t * pow2(119),
                    pow2(119) > 0,
            ;
            assert(float_completed(s.take(i + 1)) == (if t == 0 { before } else { single_round((before + t * pow2(119)) as nat, 1) }));
        }
        if t > 0 {
            proof {
                assert((k * pow2(119) + t * pow2(119)) as nat == ((k + t) * pow2(119)) as nat) by (nonlinear_arith);
            }
            k = add_share(k, t);
        }
        i += 1;
    }
    assert(s.take(count as int) =~= s);
    let (mn, jn) = round_single((count as u128) * 0x100_0000, 1, 125);
    proof {
        assert(((count as u128 * 0x100_0000) * pow2(125)) as nat == (count * pow2(149)) as nat) by (nonlinear_arith)
            requires
                pow2(149) == 0x100_0000 * pow2(125),
        ;
        lemma_pow2_pos(jn as nat);
    }
    let ghost completed = float_completed(s);
    let ghost total = single_round((count * pow2(149)) as nat, 1);
    assert(total == mn * pow2(jn as nat));
    if k == 0 {
        proof {
            assert(total > 0) by (nonlinear_arith)
                requires
                    total == mn * pow2(jn as nat),
                    mn >= 0x80_0000,
                    pow2(jn as nat) > 0,
            ;
            lemma_single_round_zero(total);
            lemma_single_round_zero(1);
            assert(completed == 0);
            assert((0 + pow2(148)) / pow2(149) == 0) by {
                lemma_pow2_adds(148, 1);
                lemma_pow2_pos(148);
                lemma_fundamental_div_mod_converse(pow2(148) as int, pow2(149) as int, 0, pow2(148) as int);
            }
        }
        return 0;
    }
    let j0 = 243 - jn;
    let (mr, jr) = round_single(k * 0x200_0000, mn, j0);
    proof {
        lemma_pow2_adds(25, j0 as nat);
        lemma_pow2_adds((25 + j0) as nat, jn as nat);
        lemma_pow2_adds(119, 149);
        let a = ((k * 0x200_0000) * pow2(j0 as nat)) as nat;
        assert(a * pow2(jn as nat) == completed * pow2(149)) by (nonlinear_arith)
            requires
                a == k * 0x200_0000 * pow2(j0 as nat),
                completed == k * pow2(119),
                pow2(268) == pow2(119) * pow2(149),
                pow2(268) == pow2(25 + j0 as nat + jn as nat),
                pow2(25 + j0 as nat + jn as nat) == pow2(25 + j0 as nat) * pow2(jn as nat),
                pow2(25 + j0 as nat) == 0x200_0000 * pow2(j0 as nat),
        ;
        lemma_single_round_scaled(a, mn as nat, pow2(jn as nat));
    }
    let ghost ratio = single_round((completed * pow2(149)) as nat, total);
    assert(ratio == mr * pow2(jr as nat));
    let (ms, js) = round_single(mr * 100, 1, jr);
    proof {
        assert((mr * 100 * pow2(jr as nat)) as nat == (ratio * 100) as nat) by (nonlinear_arith)
            requires
                ratio == mr * pow2(jr as nat),
        ;
        lemma2_to64();
        if js >= jr + 8 {
            lemma_pow2_monotonic(31, (js - jr + 23) as nat);
        }
        assert(js <= jr + 7);
        assert(jn <= 197);
        assert(jr <= 190);
        assert(js <= 197);
    }
    let ghost scaled = single_round((ratio * 100) as nat, 1);
    assert(scaled == ms * pow2(js as nat));
    let whole: u128 = if js >= 149 {
        let e = js - 149;
        let scale = pow2_u128(e);
        proof {
            lemma2_to64_rest();
            lemma_pow2_monotonic(e as nat, 48);
            lemma_pow2_adds(e as nat, 149);
            lemma_pow2_adds(148, 1);
            lemma_pow2_pos(148);
            assert(ms * scale <= 0x100_0000 * 0x1_0000_0000_0000) by (nonlinear_arith)
                requires
                    ms <= 0x100_0000,
                    scale <= 0x1_0000_0000_0000,
            ;
            assert(scaled + pow2(148) == (ms * scale) * pow2(149) + pow2(148)) by (nonlinear_arith)
                requires
                    scaled == ms * pow2(js as nat),
                    pow2(js as nat) == scale * pow2(149),
            ;
            lemma_fundamental_div_mod_converse((scaled + pow2(148)) as int, pow2(149) as int, (ms * scale) as int, pow2(148) as int);
        }
        ms * scale
    } else {
        let t = 149 - js;
        let half = pow2_u128(t - 1);
        let step = pow2_u128(t);
        proof {
            lemma2_to64();
            lemma2_to64_rest();
            lemma_pow2_monotonic((t - 1) as nat, 110);
            lemma_pow2_adds(64, 46);
            assert(half <= 0x4000_0000_0000_0000_0000_0000_0000);
        }
        proof {
            lemma_pow2_adds((t - 1) as nat, js as nat);
            lemma_pow2_adds(t as nat, js as nat);
            lemma_pow2_pos(js as nat);
            lemma_pow2_pos(t as nat);
            assert(scaled + pow2(148) == (ms + half) * pow2(js as nat)) by (nonlinear_arith)
                requires
                    scaled == ms * pow2(js as nat),
                    pow2(148) == half * pow2(js as nat),
            ;
            let q = ((ms + half) as int) / (step as int);
            let rem = ((ms + half) as int) % (step as int);
            lemma_fundamental_div_mod((ms + half) as int, step as int);
            assert((ms + half) * pow2(js as nat) == q * (step * pow2(js as nat)) + rem * pow2(js as nat)) by (nonlinear_arith)
                requires
                    ms + half == step * q + rem,
            ;
            assert(rem * pow2(js as nat) < step * pow2(js as nat)) by (nonlinear_arith)
                requires
                    rem < step,
                    pow2(js as nat) > 0,
            ;
            lemma_fundamental_div_mod_converse(
                ((ms + half) * pow2(js as nat)) as int,
                (step * pow2(js as nat)) as int,
                q as int,
                (rem * pow2(js as nat)) as int,
            );
        }
        (ms + half) / step
    };
    if whole > 100 {
        100
    } else {
        whole as u8
    }
}

/// The message of a batch that ended with failed or skipped items, or the pause
/// message of a paused batch.
pub fn batch_completion_message(batch: &TransferBatchRecord) -> (r: String)
    ensures
        r@ == completion_message_of(*batch),
{
    if let JobState::PausedDisconnected = batch.view.state {
        return match &batch.pause_message {
            Some(m) => m.clone(),
            None => owned("Reconnect and retry the batch to continue transferring."),
        };
    }
    let summary = match batch.view.summary {
        Some(s) => s,
        None => TransferJobSummary {
            total_files: 0,
            total_directories: 0,
            completed_files: 0,
            failed_files: 0,
            skipped_files: 0,
        },
    };
    completion_summary_text(summary)
}

/// "N completed", followed by ", N failed" and ", N skipped" where those are not zero.
pub fn completion_summary_text(summary: TransferJobSummary) -> (r: String)
    ensures
        r@ == completion_text(summary),
{
    let mut r = String::new();
    push_decimal(&mut r, summary.completed_files as u64);
    push_str(&mut r, " completed");
    let ghost head = r@;
    if summary.failed_files > 0 {
        push_str(&mut r, ", ");
        push_decimal(&mut r, summary.failed_files as u64);
        push_str(&mut r, " failed");
    }
    let ghost mid = r@;
    if summary.skipped_files > 0 {
        push_str(&mut r, ", ");
        push_decimal(&mut r, summary.skipped_files as u64);
        push_str(&mut r, " skipped");
    }
    assert(r@ =~= completion_text(summary));
    r
}

/// The file and directory counts of `children`.
pub fn summarize_children(children: &Vec<TransferChildRecord>) -> (r: TransferJobSummary)
    ensures
        r == summary_of(children@),
{
    proof {
        lemma_count_le(children@, Some(PlannedItemKind::File), None);
    }
    TransferJobSummary {
        total_files: count_children(children, Some(PlannedItemKind::File), None),
        total_directories: count_children(children, Some(PlannedItemKind::Directory), None),
        completed_files: count_children(children, Some(PlannedItemKind::File), Some(StateClass::Succeeded)),
        failed_files: count_children(children, Some(PlannedItemKind::File), Some(StateClass::Failed)),
        skipped_files: count_children(children, Some(PlannedItemKind::File), Some(StateClass::CancelLike)),
    }
}

/// The batch state and its cancel and retry flags.
fn decide_status(paused: bool, cancel_requested: bool, children: &Vec<TransferChildRecord>) -> (r: (JobState, bool, bool))
    ensures
        r == batch_status(paused, cancel_requested, children@),
{
    if paused {
        (JobState::PausedDisconnected, true, true)
    } else if cancel_requested {
        if any_child_in(children, StateClass::Pending) {
            (JobState::Cancelling, false, false)
        } else {
            (JobState::Cancelled, false, !all_children_in(children, StateClass::CancelLike))
        }
    } else if any_child_in(children, StateClass::Conflict) {
        (JobState::AwaitingConflictDecision, true, false)
    } else if any_child_in(children, StateClass::Active) {
        (if any_child_in(children, StateClass::Cancelling) { JobState::Cancelling } else { JobState::Running }, true, false)
    } else if any_child_in(children, StateClass::Pending) {
        (JobState::Queued, true, false)
    } else if any_child_in(children, StateClass::Failed) || any_child_in(children, StateClass::CancelLike) {
        (if any_child_in(children, StateClass::Succeeded) {
            JobState::CompletedWithErrors
        } else if all_children_in(children, StateClass::CancelLike) {
            JobState::Cancelled
        } else {
            JobState::Failed
        }, false, true)
    } else {
        (JobState::Succeeded, false, false)
    }
}

/// The batch message: the pause message, the completion summary, or none.
fn decide_message(pause_message: &Option<String>, cancel_requested: bool, children: &Vec<TransferChildRecord>, summary: TransferJobSummary) -> (r: Option<String>)
    requires
        summary == summary_of(children@),
    ensures
        opt_text(r) == (if pause_message is Some {
            opt_text(*pause_message)
        } else if !cancel_requested && !any_in(children@, StateClass::Conflict) && !any_in(children@, StateClass::Pending)
            && (any_in(children@, StateClass::Failed) || any_in(children@, StateClass::CancelLike)) {
            Some(completion_text(summary_of(children@)))
        } else {
            None
        }),
{
    if pause_message.is_some() {
        clone_opt_string(pause_message)
    } else if !cancel_requested && !any_child_in(children, StateClass::Conflict)
        && !any_child_in(children, StateClass::Pending)
        && (any_child_in(children, StateClass::Failed) || any_child_in(children, StateClass::CancelLike)) {
        Some(completion_summary_text(summary))
    } else {
        None
    }
}

/// The name of the first item under way, its rate, and the conflict of the first
/// item waiting on a decision.
fn current_item_fields(children: &Vec<TransferChildRecord>) -> (r: (Option<String>, Option<String>, Option<crate::models::TransferConflict>))
    ensures
        r.0 == (match first_in(children@, StateClass::Active) {
            Some(i) => Some(children@[i].view.name),
            None => None,
        }),
        r.1 == (match first_in(children@, StateClass::Active) {
            Some(i) => children@[i].view.rate,
            None => None,
        }),
        r.2 == (match first_in(children@, StateClass::Conflict) {
            Some(i) => children@[i].view.conflict,
            None => None,
        }),
{
    let conflict_child = first_child_in(children, StateClass::Conflict);
    let active_child = first_child_in(children, StateClass::Active);
    let label = match active_child {
        Some(i) => Some(children[i].view.name.clone()),
        None => None,
    };
    let rate = match active_child {
        Some(i) => clone_opt_string(&children[i].view.rate),
        None => None,
    };
    let conflict = match conflict_child {
        Some(i) => clone_opt_conflict(&children[i].view.conflict),
        None => None,
    };
    (label, rate, conflict)
}

/// Brings the aggregate view of `batch` up to date with its items: counts, the
/// current item and its rate, the pending conflict, byte totals, progress, and the
/// batch state with its flags and message.
pub fn refresh_batch_aggregate(batch: &mut TransferBatchRecord)
    ensures
        is_refreshed(final(batch).view, old(batch).view, old(batch).pause_message, old(batch).cancel_requested, old(batch).children@),
        final(batch).id == old(batch).id,
        final(batch).direction == old(batch).direction,
        final(batch).destination_root == old(batch).destination_root,
        final(batch).conflict_policy == old(batch).conflict_policy,
        final(batch).pause_message == old(batch).pause_message,
        final(batch).cancel_requested == old(batch).cancel_requested,
        final(batch).children == old(batch).children,
{
    let summary = summarize_children(&batch.children);
    let (label, rate, conflict) = current_item_fields(&batch.children);
    let (total_bytes, all_known, transferred_bytes) = byte_totals(&batch.children);
    let progress = if all_known {
        progress_fraction(transferred_bytes, Some(total_bytes))
    } else {
        progress_from_counts(batch)
    };
    let status = decide_status(batch.pause_message.is_some(), batch.cancel_requested, &batch.children);
    let message = decide_message(&batch.pause_message, batch.cancel_requested, &batch.children, summary);
    batch.view.summary = Some(summary);
    batch.view.current_item_label = label;
    batch.view.rate = rate;
    batch.view.conflict = conflict;
    batch.view.bytes_total = if all_known { Some(total_bytes) } else { None };
    batch.view.bytes_transferred = transferred_bytes;
    batch.view.progress_percent = Some(progress);
    batch.view.state = status.0;
    batch.view.can_cancel = status.1;
    batch.view.can_retry = status.2;
    batch.view.error_message = message;
    assert(batch.view == JobView { error_message: batch.view.error_message,
        ..refreshed_view(old(batch).view, old(batch).pause_message, old(batch).cancel_requested, old(batch).children@) });
}


/// Item `j` of `s` has finished: succeeded, failed, skipped or cancelled.
pub open spec fn item_finished(s: Seq<TransferChildRecord>, j: int) -> bool {
    let st = s[j].view.state;
    st is Succeeded || st is Failed || st is Skipped || st is Cancelled
}

/// What a brought-up-to-date batch state says of its items: a batch is Succeeded
/// only when no item failed, was skipped or was cancelled and none is still to
/// do; a batch that is neither paused nor asked to cancel, whose items have all
/// finished, is Succeeded when every item succeeded, Failed (and can be retried)
/// when some item failed and none succeeded, and CompletedWithErrors (and can be
/// retried) when some item failed and another succeeded.
pub proof fn lemma_batch_state_follows_items(new: JobView, old: JobView, pause: Option<String>, cancel: bool, s: Seq<TransferChildRecord>)
    requires
        is_refreshed(new, old, pause, cancel, s),
    ensures
        new.state is Succeeded ==> forall|j: int| 0 <= j < s.len() ==> {
            let st = (#[trigger] s[j]).view.state;
            !(st is Failed || st is Skipped || st is Cancelled || st is Queued || st is Checking
                || st is Running || st is Cancelling || st is AwaitingConflictDecision)
        },
        pause is None && !cancel && (forall|j: int| 0 <= j < s.len() ==> item_finished(s, j)) ==> {
            &&& (forall|j: int| 0 <= j < s.len() ==> (#[trigger] s[j]).view.state is Succeeded) ==> new.state is Succeeded
            &&& (exists|j: int| 0 <= j < s.len() && (#[trigger] s[j]).view.state is Failed)
                && (forall|j: int| 0 <= j < s.len() ==> !((#[trigger] s[j]).view.state is Succeeded))
                ==> new.state is Failed && new.can_retry
            &&& (exists|j: int| 0 <= j < s.len() && (#[trigger] s[j]).view.state is Failed)
                && (exists|j: int| 0 <= j < s.len() && (#[trigger] s[j]).view.state is Succeeded)
                ==> new.state is CompletedWithErrors && new.can_retry
        },
{
    if new.state is Succeeded {
        assert forall|j: int| 0 <= j < s.len() implies {
            let st = (#[trigger] s[j]).view.state;
            !(st is Failed || st is Skipped || st is Cancelled || st is Queued || st is Checking
                || st is Running || st is Cancelling || st is AwaitingConflictDecision)
        } by {
            let st = s[j].view.state;
            if st is Failed {
                assert(in_class(s[j].view.state, StateClass::Failed));
            } else if st is Skipped || st is Cancelled {
                assert(in_class(s[j].view.state, StateClass::CancelLike));
            } else if st is Queued || st is Checking || st is Running || st is Cancelling || st is AwaitingConflictDecision {
                assert(in_class(s[j].view.state, StateClass::Pending));
            }
        }
    }
    if pause is None && !cancel && (forall|j: int| 0 <= j < s.len() ==> item_finished(s, j)) {
        assert(!any_in(s, StateClass::Pending) && !any_in(s, StateClass::Active) && !any_in(s, StateClass::Conflict)) by {
            assert forall|j: int| 0 <= j < s.len() implies !in_class(#[trigger] s[j].view.state, StateClass::Pending) by {
                assert(item_finished(s, j));
            }
        }
        if forall|j: int| 0 <= j < s.len() ==> (#[trigger] s[j]).view.state is Succeeded {
            assert(!any_in(s, StateClass::Failed) && !any_in(s, StateClass::CancelLike)) by {
                assert forall|j: int| 0 <= j < s.len() implies !in_class(#[trigger] s[j].view.state, StateClass::Failed)
                    && !in_class(s[j].view.state, StateClass::CancelLike) by {
                    assert(s[j].view.state is Succeeded);
                }
            }
        }
        if exists|j: int| 0 <= j < s.len() && (#[trigger] s[j]).view.state is Failed {
            let f = choose|j: int| 0 <= j < s.len() && (#[trigger] s[j]).view.state is Failed;
            assert(in_class(s[f].view.state, StateClass::Failed));
            assert(!in_class(s[f].view.state, StateClass::CancelLike));
            if forall|j: int| 0 <= j < s.len() ==> !((#[trigger] s[j]).view.state is Succeeded) {
                assert(!any_in(s, StateClass::Succeeded)) by {
                    assert forall|j: int| 0 <= j < s.len() implies !in_class(#[trigger] s[j].view.state, StateClass::Succeeded) by {
                        assert(!(s[j].view.state is Succeeded));
                    }
                }
            }
            if exists|j: int| 0 <= j < s.len() && (#[trigger] s[j]).view.state is Succeeded {
                let g = choose|j: int| 0 <= j < s.len() && (#[trigger] s[j]).view.state is Succeeded;
                assert(in_class(s[g].view.state, StateClass::Succeeded));
            }
        }
    }
}

} // verus!
