//! The transfer queue: batches of per-item jobs, their states, and the
//! aggregate view of each batch.
pub mod aggregate;
pub mod queue;
pub mod state;
pub mod rate;
pub mod worker;
pub mod enqueue;
pub mod messages;
pub mod plan;
pub mod gate;
pub mod walk;

use vstd::prelude::*;
use crate::models::{TransferConflict, TransferJob, TransferJobSummary, clone_opt_string, clone_opt_conflict};
use crate::text::owned;

verus! {

/// Which way a batch moves data.
#[derive(Clone, Copy, PartialEq, Eq, Structural)]
pub enum TransferDirection {
    Upload,
    Download,
}

/// How a batch answers destination conflicts.
#[derive(Clone, Copy, PartialEq, Eq, Structural)]
pub enum ConflictPolicy {
    Ask,
    OverwriteAll,
    SkipAll,
}

/// Whether a planned item is a file or a directory.
#[derive(Clone, Copy, PartialEq, Eq, Structural)]
pub enum PlannedItemKind {
    File,
    Directory,
}

/// Whether a queue row is a batch or one item of a batch.
#[derive(Clone, Copy, PartialEq, Eq, Structural)]
pub enum JobKind {
    Batch,
    Child,
}

/// The state of a queue row.
#[derive(Clone, Copy, PartialEq, Eq, Structural)]
pub enum JobState {
    Queued,
    Checking,
    Running,
    Cancelling,
    AwaitingConflictDecision,
    Succeeded,
    Failed,
    Cancelled,
    Skipped,
    PausedDisconnected,
    CompletedWithErrors,
}

/// Groups of states that the queue logic tests for.
#[derive(Clone, Copy, PartialEq, Eq, Structural)]
pub enum StateClass {
    /// Checking, Running or Cancelling: work is under way.
    Active,
    /// Queued, Checking, Running, Cancelling or AwaitingConflictDecision.
    Pending,
    /// Cancelled or Skipped.
    CancelLike,
    /// Succeeded, Failed, Skipped or Cancelled: the item is done.
    Settled,
    /// Succeeded, Failed, Cancelled or CompletedWithErrors: a batch is done.
    Terminal,
    /// Exactly Queued.
    Queued,
    /// Exactly AwaitingConflictDecision.
    Conflict,
    /// Exactly Succeeded.
    Succeeded,
    /// Exactly Failed.
    Failed,
    /// Exactly Cancelling.
    Cancelling,
}

/// Membership of a state in a class.
pub open spec fn in_class(s: JobState, k: StateClass) -> bool {
    match k {
        StateClass::Active => s is Checking || s is Running || s is Cancelling,
        StateClass::Pending => s is Queued || s is Checking || s is Running || s is Cancelling
            || s is AwaitingConflictDecision,
        StateClass::CancelLike => s is Cancelled || s is Skipped,
        StateClass::Settled => s is Succeeded || s is Failed || s is Skipped || s is Cancelled,
        StateClass::Terminal => s is Succeeded || s is Failed || s is Cancelled || s is CompletedWithErrors,
        StateClass::Queued => s is Queued,
        StateClass::Conflict => s is AwaitingConflictDecision,
        StateClass::Succeeded => s is Succeeded,
        StateClass::Failed => s is Failed,
        StateClass::Cancelling => s is Cancelling,
    }
}

/// Tests membership of a state in a class.
pub fn state_in(s: JobState, k: StateClass) -> (r: bool)
    ensures
        r == in_class(s, k),
{
    match k {
        StateClass::Active => matches!(s, JobState::Checking | JobState::Running | JobState::Cancelling),
        StateClass::Pending => matches!(s, JobState::Queued | JobState::Checking | JobState::Running
            | JobState::Cancelling | JobState::AwaitingConflictDecision),
        StateClass::CancelLike => matches!(s, JobState::Cancelled | JobState::Skipped),
        StateClass::Settled => matches!(s, JobState::Succeeded | JobState::Failed | JobState::Skipped
            | JobState::Cancelled),
        StateClass::Terminal => matches!(s, JobState::Succeeded | JobState::Failed | JobState::Cancelled
            | JobState::CompletedWithErrors),
        StateClass::Queued => matches!(s, JobState::Queued),
        StateClass::Conflict => matches!(s, JobState::AwaitingConflictDecision),
        StateClass::Succeeded => matches!(s, JobState::Succeeded),
        StateClass::Failed => matches!(s, JobState::Failed),
        StateClass::Cancelling => matches!(s, JobState::Cancelling),
    }
}

/// The name of a state as the interface shows it.
pub open spec fn state_name(s: JobState) -> Seq<char> {
    match s {
        JobState::Queued => "Queued"@,
        JobState::Checking => "Checking"@,
        JobState::Running => "Running"@,
        JobState::Cancelling => "Cancelling"@,
        JobState::AwaitingConflictDecision => "AwaitingConflictDecision"@,
        JobState::Succeeded => "Succeeded"@,
        JobState::Failed => "Failed"@,
        JobState::Cancelled => "Cancelled"@,
        JobState::Skipped => "Skipped"@,
        JobState::PausedDisconnected => "PausedDisconnected"@,
        JobState::CompletedWithErrors => "CompletedWithErrors"@,
    }
}

/// The name of a state as the interface shows it.
pub fn state_text(s: JobState) -> (r: String)
    ensures
        r@ == state_name(s),
{
    match s {
        JobState::Queued => owned("Queued"),
        JobState::Checking => owned("Checking"),
        JobState::Running => owned("Running"),
        JobState::Cancelling => owned("Cancelling"),
        JobState::AwaitingConflictDecision => owned("AwaitingConflictDecision"),
        JobState::Succeeded => owned("Succeeded"),
        JobState::Failed => owned("Failed"),
        JobState::Cancelled => owned("Cancelled"),
        JobState::Skipped => owned("Skipped"),
        JobState::PausedDisconnected => owned("PausedDisconnected"),
        JobState::CompletedWithErrors => owned("CompletedWithErrors"),
    }
}

/// Whether a batch state is final, for a state given by name.
pub open spec fn is_terminal_name(s: Seq<char>) -> bool {
    s == "Succeeded"@ || s == "Failed"@ || s == "Cancelled"@ || s == "CompletedWithErrors"@
}

/// Whether the named state is one in which a batch has stopped for good.
pub fn is_terminal_state(state: &str) -> (r: bool)
    ensures
        r == is_terminal_name(state@),
{
    crate::text::same_text(state, "Succeeded") || crate::text::same_text(state, "Failed")
        || crate::text::same_text(state, "Cancelled") || crate::text::same_text(state, "CompletedWithErrors")
}

impl TransferDirection {
    /// The direction's name as the interface shows it.
    pub open spec fn name(self) -> Seq<char> {
        match self {
            TransferDirection::Upload => "Upload"@,
            TransferDirection::Download => "Download"@,
        }
    }

    /// The direction's name as the interface shows it.
    pub fn label(self) -> (r: &'static str)
        ensures
            r@ == self.name(),
    {
        match self {
            TransferDirection::Upload => "Upload",
            TransferDirection::Download => "Download",
        }
    }
}

/// The work one child job does.
pub enum TransferChildTask {
    CreateRemoteDir { remote_path: String },
    CreateLocalDir { local_path: String },
    UploadFile { local_path: String, remote_path: String },
    DownloadFile { remote_path: String, local_path: String },
}

impl TransferChildTask {
    /// The same work, as a fresh value.
    pub fn duplicate(&self) -> (r: TransferChildTask)
        ensures
            r == *self,
    {
        match self {
            TransferChildTask::CreateRemoteDir { remote_path } =>
                TransferChildTask::CreateRemoteDir { remote_path: remote_path.clone() },
            TransferChildTask::CreateLocalDir { local_path } =>
                TransferChildTask::CreateLocalDir { local_path: local_path.clone() },
            TransferChildTask::UploadFile { local_path, remote_path } =>
                TransferChildTask::UploadFile { local_path: local_path.clone(), remote_path: remote_path.clone() },
            TransferChildTask::DownloadFile { remote_path, local_path } =>
                TransferChildTask::DownloadFile { remote_path: remote_path.clone(), local_path: local_path.clone() },
        }
    }
}

/// A queue row as the queue logic holds it.
pub struct JobView {
    pub id: String,
    pub kind: JobKind,
    pub batch_id: Option<String>,
    pub parent_id: Option<String>,
    pub direction: TransferDirection,
    pub name: String,
    pub source_path: String,
    pub destination_path: String,
    pub rate: Option<String>,
    pub bytes_total: Option<u64>,
    pub bytes_transferred: u64,
    pub progress_percent: Option<u8>,
    pub state: JobState,
    pub error_message: Option<String>,
    pub conflict: Option<TransferConflict>,
    pub can_cancel: bool,
    pub can_retry: bool,
    pub summary: Option<TransferJobSummary>,
    pub current_item_label: Option<String>,
}

/// The interface row for a queue row: the same fields, with names in place of enums
/// and the protocol "SFTP".
pub open spec fn job_matches_view(j: TransferJob, v: JobView) -> bool {
    &&& j.id@ == v.id@
    &&& j.kind@ == (match v.kind { JobKind::Batch => "batch"@, JobKind::Child => "child"@ })
    &&& j.batch_id == v.batch_id
    &&& j.parent_id == v.parent_id
    &&& j.protocol@ == "SFTP"@
    &&& j.direction@ == v.direction.name()
    &&& j.name == v.name
    &&& j.source_path == v.source_path
    &&& j.destination_path == v.destination_path
    &&& j.rate == v.rate
    &&& j.bytes_total == v.bytes_total
    &&& j.bytes_transferred == v.bytes_transferred
    &&& j.progress_percent == v.progress_percent
    &&& j.state@ == state_name(v.state)
    &&& j.error_message == v.error_message
    &&& j.conflict == v.conflict
    &&& j.can_cancel == v.can_cancel
    &&& j.can_retry == v.can_retry
    &&& j.summary == v.summary
    &&& j.current_item_label == v.current_item_label
}

impl JobView {
    /// The interface row for this queue row.
    pub fn to_job(&self) -> (j: TransferJob)
        ensures
            job_matches_view(j, *self),
    {
        TransferJob {
            id: self.id.clone(),
            kind: match self.kind {
                JobKind::Batch => owned("batch"),
                JobKind::Child => owned("child"),
            },
            batch_id: clone_opt_string(&self.batch_id),
            parent_id: clone_opt_string(&self.parent_id),
            protocol: owned("SFTP"),
            direction: owned(self.direction.label()),
            name: self.name.clone(),
            source_path: self.source_path.clone(),
            destination_path: self.destination_path.clone(),
            rate: clone_opt_string(&self.rate),
            bytes_total: self.bytes_total,
            bytes_transferred: self.bytes_transferred,
            progress_percent: self.progress_percent,
            state: state_text(self.state),
            error_message: clone_opt_string(&self.error_message),
            conflict: clone_opt_conflict(&self.conflict),
            can_cancel: self.can_cancel,
            can_retry: self.can_retry,
            summary: self.summary,
            current_item_label: clone_opt_string(&self.current_item_label),
        }
    }
}

/// One item of a batch.
pub struct TransferChildRecord {
    pub id: String,
    pub batch_id: String,
    pub item_kind: PlannedItemKind,
    pub task: TransferChildTask,
    pub overwrite_approved: bool,
    pub view: JobView,
}

/// A batch and its items.
pub struct TransferBatchRecord {
    pub id: String,
    pub direction: TransferDirection,
    pub destination_root: String,
    pub conflict_policy: ConflictPolicy,
    pub pause_message: Option<String>,
    pub cancel_requested: bool,
    pub view: JobView,
    pub children: Vec<TransferChildRecord>,
}

/// The whole queue, with the counters that number its jobs and its snapshots.
pub struct TransferState {
    pub batches: Vec<TransferBatchRecord>,
    pub active_job_id: Option<String>,
    pub worker_running: bool,
    pub next_job_id: u64,
    pub next_snapshot_sequence: u64,
}

/// The fields of the queue that operations on its batches leave alone.
pub open spec fn same_queue_frame(a: TransferState, b: TransferState) -> bool {
    &&& b.active_job_id == a.active_job_id
    &&& b.worker_running == a.worker_running
    &&& b.next_job_id == a.next_job_id
    &&& b.next_snapshot_sequence == a.next_snapshot_sequence
}

/// Every batch but the one at `i` is unchanged.
pub open spec fn others_unchanged(a: Seq<TransferBatchRecord>, b: Seq<TransferBatchRecord>, i: int) -> bool {
    &&& b.len() == a.len()
    &&& forall|j: int| 0 <= j < a.len() && j != i ==> #[trigger] b[j] == a[j]
}

} // verus!
