//! The values that the client hands to its user interface and receives from it.
use vstd::prelude::*;
use crate::text::owned;

verus! {

/// Everything the interface needs on start-up.
pub struct AppBootstrap {
    pub connection_profiles: Vec<ConnectionProfile>,
    pub session: SessionSnapshot,
    pub panes: PaneSet,
    pub transfers: TransferQueueSnapshot,
    pub shortcuts: Vec<String>,
}

/// A saved connection target shown in the profile list.
pub struct ConnectionProfile {
    pub name: String,
    pub target: String,
    pub auth: String,
}

/// The connection status line of the remote side.
pub struct SessionSnapshot {
    pub connection_state: String,
    pub protocol_mode: String,
    pub host: String,
    pub auth_method: String,
    pub trust_state: String,
    pub last_error: Option<String>,
    pub can_disconnect: bool,
}

/// The local and the remote pane.
pub struct PaneSet {
    pub local: PaneSnapshot,
    pub remote: PaneSnapshot,
}

/// One directory listing as a pane shows it.
pub struct PaneSnapshot {
    pub id: String,
    pub title: String,
    pub location: String,
    pub item_count: usize,
    pub can_go_up: bool,
    pub entries: Vec<FileEntry>,
    pub empty_message: Option<String>,
}

/// One row of a directory listing.
pub struct FileEntry {
    pub path: String,
    pub name: String,
    pub kind: String,
    pub size_bytes: Option<u64>,
    pub modified_unix_ms: Option<i64>,
    pub permissions: String,
}

/// One row of the transfer queue.
pub struct TransferJob {
    pub id: String,
    pub kind: String,
    pub batch_id: Option<String>,
    pub parent_id: Option<String>,
    pub protocol: String,
    pub direction: String,
    pub name: String,
    pub source_path: String,
    pub destination_path: String,
    pub rate: Option<String>,
    pub bytes_total: Option<u64>,
    pub bytes_transferred: u64,
    pub progress_percent: Option<u8>,
    pub state: String,
    pub error_message: Option<String>,
    pub conflict: Option<TransferConflict>,
    pub can_cancel: bool,
    pub can_retry: bool,
    pub summary: Option<TransferJobSummary>,
    pub current_item_label: Option<String>,
}

/// A destination that already exists, waiting on the user's decision.
pub struct TransferConflict {
    pub destination_exists: bool,
    pub destination_kind: String,
    pub source_kind: String,
    pub source_name: String,
    pub source_path: String,
    pub destination_name: String,
    pub destination_path: String,
    pub conflict_kind: String,
    pub can_overwrite: bool,
    pub apply_to_remaining: bool,
}

/// Per-batch file and directory counts.
#[derive(Clone, Copy)]
pub struct TransferJobSummary {
    pub total_files: usize,
    pub total_directories: usize,
    pub completed_files: usize,
    pub failed_files: usize,
    pub skipped_files: usize,
}

/// The transfer queue as the interface shows it.
pub struct TransferQueueSnapshot {
    pub sequence: u64,
    pub jobs: Vec<TransferJob>,
    pub active_job_id: Option<String>,
    pub queued_count: usize,
    pub finished_count: usize,
    pub batch_count: usize,
}

/// The question asked before trusting a host key.
pub struct TrustPrompt {
    pub host: String,
    pub port: u16,
    pub key_algorithm: String,
    pub fingerprint_sha256: String,
    pub status: String,
    pub message: String,
    pub expected_fingerprint_sha256: Option<String>,
}

/// The remote side as the interface shows it.
pub struct RemoteConnectionSnapshot {
    pub session: SessionSnapshot,
    pub remote_pane: PaneSnapshot,
    pub trust_prompt: Option<TrustPrompt>,
}

/// Where and as whom to connect.
pub struct ConnectRequest {
    pub host: String,
    pub port: u16,
    pub username: String,
    pub auth: ConnectAuth,
}

/// How to authenticate.
pub enum ConnectAuth {
    Password { password: String },
    Key { private_key_path: String, passphrase: Option<String> },
}

/// The user's answer to a trust prompt.
pub struct TrustDecision {
    pub trust: bool,
}

/// Remote entries to download into a local directory.
pub struct QueueDownloadRequest {
    pub entries: Vec<TransferSelectionItem>,
    pub local_directory: String,
}

/// Local entries to upload into a remote directory.
pub struct QueueUploadRequest {
    pub entries: Vec<TransferSelectionItem>,
    pub remote_directory: String,
}

/// One selected entry of a pane.
pub struct TransferSelectionItem {
    pub path: String,
    pub name: String,
    pub kind: String,
}

/// A new remote directory.
pub struct CreateRemoteDirectoryRequest {
    pub parent_path: String,
    pub name: String,
}

/// Local entries to delete.
pub struct DeleteLocalEntriesRequest {
    pub path: String,
    pub entry_names: Vec<String>,
}

/// A remote rename.
pub struct RenameRemoteEntryRequest {
    pub parent_path: String,
    pub entry_name: String,
    pub new_name: String,
}

/// One remote entry to delete.
pub struct DeleteRemoteEntryRequest {
    pub parent_path: String,
    pub entry_name: String,
    pub entry_kind: String,
    pub recursive: bool,
}

/// A remote entry named for deletion.
pub struct DeleteRemoteEntryTarget {
    pub entry_name: String,
    pub entry_kind: String,
}

/// Remote entries to delete.
pub struct DeleteRemoteEntriesRequest {
    pub parent_path: String,
    pub entries: Vec<DeleteRemoteEntryTarget>,
    pub recursive: bool,
}

/// The question asked before deleting non-empty folders.
pub struct RemoteDeletePrompt {
    pub message: String,
    pub requires_recursive: bool,
    pub entries: Vec<DeleteRemoteEntryTarget>,
}

/// The answer to a remote delete.
pub struct RemoteDeleteResponse {
    pub snapshot: RemoteConnectionSnapshot,
    pub prompt: Option<RemoteDeletePrompt>,
}

/// The user's answer to a transfer conflict.
pub struct TransferConflictResolution {
    pub action: String,
}

/// A copy of an optional string.
pub fn clone_opt_string(o: &Option<String>) -> (r: Option<String>)
    ensures
        r == *o,
{
    match o {
        Some(s) => Some(s.clone()),
        None => None,
    }
}

impl TransferConflict {
    /// A copy of this conflict.
    pub fn duplicate(&self) -> (r: TransferConflict)
        ensures
            r == *self,
    {
        TransferConflict {
            destination_exists: self.destination_exists,
            destination_kind: self.destination_kind.clone(),
            source_kind: self.source_kind.clone(),
            source_name: self.source_name.clone(),
            source_path: self.source_path.clone(),
            destination_name: self.destination_name.clone(),
            destination_path: self.destination_path.clone(),
            conflict_kind: self.conflict_kind.clone(),
            can_overwrite: self.can_overwrite,
            apply_to_remaining: self.apply_to_remaining,
        }
    }
}

/// A copy of an optional conflict.
pub fn clone_opt_conflict(o: &Option<TransferConflict>) -> (r: Option<TransferConflict>)
    ensures
        r == *o,
{
    match o {
        Some(c) => Some(c.duplicate()),
        None => None,
    }
}

impl FileEntry {
    /// A copy of this entry.
    pub fn duplicate(&self) -> (r: FileEntry)
        ensures
            r == *self,
    {
        FileEntry {
            path: self.path.clone(),
            name: self.name.clone(),
            kind: self.kind.clone(),
            size_bytes: self.size_bytes,
            modified_unix_ms: self.modified_unix_ms,
            permissions: self.permissions.clone(),
        }
    }

    /// A directory row.
    pub fn dir(path: &str, name: &str, modified_unix_ms: Option<i64>, permissions: &str) -> (r: FileEntry)
        ensures
            r.path@ == path@,
            r.name@ == name@,
            r.kind@ == "dir"@,
            r.size_bytes is None,
            r.modified_unix_ms == modified_unix_ms,
            r.permissions@ == permissions@,
    {
        FileEntry {
            path: owned(path),
            name: owned(name),
            kind: owned("dir"),
            size_bytes: None,
            modified_unix_ms,
            permissions: owned(permissions),
        }
    }

    /// A file row.
    pub fn file(
        path: &str,
        name: &str,
        size_bytes: Option<u64>,
        modified_unix_ms: Option<i64>,
        permissions: &str,
    ) -> (r: FileEntry)
        ensures
            r.path@ == path@,
            r.name@ == name@,
            r.kind@ == "file"@,
            r.size_bytes == size_bytes,
            r.modified_unix_ms == modified_unix_ms,
            r.permissions@ == permissions@,
    {
        FileEntry {
            path: owned(path),
            name: owned(name),
            kind: owned("file"),
            size_bytes,
            modified_unix_ms,
            permissions: owned(permissions),
        }
    }

    /// A symbolic link row.
    pub fn symlink(path: &str, name: &str, modified_unix_ms: Option<i64>, permissions: &str) -> (r: FileEntry)
        ensures
            r.path@ == path@,
            r.name@ == name@,
            r.kind@ == "symlink"@,
            r.size_bytes is None,
            r.modified_unix_ms == modified_unix_ms,
            r.permissions@ == permissions@,
    {
        FileEntry {
            path: owned(path),
            name: owned(name),
            kind: owned("symlink"),
            size_bytes: None,
            modified_unix_ms,
            permissions: owned(permissions),
        }
    }
}

/// A copy of a list of rows.
pub fn clone_entries(v: &Vec<FileEntry>) -> (r: Vec<FileEntry>)
    ensures
        r@ == v@,
{
    let mut r: Vec<FileEntry> = Vec::new();
    let mut i: usize = 0;
    while i < v.len()
        invariant
            i <= v.len(),
            r@ == v@.take(i as int),
        decreases v.len() - i,
    {
        r.push(v[i].duplicate());
        i += 1;
        assert(r@ =~= v@.take(i as int));
    }
    assert(v@.take(v.len() as int) =~= v@);
    r
}

/// Two panes with the same fields and the same rows.
pub open spec fn same_pane(a: PaneSnapshot, b: PaneSnapshot) -> bool {
    &&& a.id == b.id
    &&& a.title == b.title
    &&& a.location == b.location
    &&& a.item_count == b.item_count
    &&& a.can_go_up == b.can_go_up
    &&& a.entries@ == b.entries@
    &&& a.empty_message == b.empty_message
}

impl PaneSnapshot {
    /// A copy of this pane.
    pub fn duplicate(&self) -> (r: PaneSnapshot)
        ensures
            same_pane(r, *self),
    {
        PaneSnapshot {
            id: self.id.clone(),
            title: self.title.clone(),
            location: self.location.clone(),
            item_count: self.item_count,
            can_go_up: self.can_go_up,
            entries: clone_entries(&self.entries),
            empty_message: clone_opt_string(&self.empty_message),
        }
    }
}

impl TrustPrompt {
    /// A copy of this prompt.
    pub fn duplicate(&self) -> (r: TrustPrompt)
        ensures
            r == *self,
    {
        TrustPrompt {
            host: self.host.clone(),
            port: self.port,
            key_algorithm: self.key_algorithm.clone(),
            fingerprint_sha256: self.fingerprint_sha256.clone(),
            status: self.status.clone(),
            message: self.message.clone(),
            expected_fingerprint_sha256: clone_opt_string(&self.expected_fingerprint_sha256),
        }
    }
}

impl ConnectAuth {
    /// A copy of this authentication choice.
    pub fn duplicate(&self) -> (r: ConnectAuth)
        ensures
            r == *self,
    {
        match self {
            ConnectAuth::Password { password } => ConnectAuth::Password { password: password.clone() },
            ConnectAuth::Key { private_key_path, passphrase } => ConnectAuth::Key {
                private_key_path: private_key_path.clone(),
                passphrase: clone_opt_string(passphrase),
            },
        }
    }
}

impl ConnectRequest {
    /// A copy of this request.
    pub fn duplicate(&self) -> (r: ConnectRequest)
        ensures
            r == *self,
    {
        ConnectRequest {
            host: self.host.clone(),
            port: self.port,
            username: self.username.clone(),
            auth: self.auth.duplicate(),
        }
    }
}

impl DeleteRemoteEntryTarget {
    /// A copy of this target.
    pub fn duplicate(&self) -> (r: DeleteRemoteEntryTarget)
        ensures
            r == *self,
    {
        DeleteRemoteEntryTarget { entry_name: self.entry_name.clone(), entry_kind: self.entry_kind.clone() }
    }
}

/// A copy of a list of delete targets.
pub fn clone_targets(v: &Vec<DeleteRemoteEntryTarget>) -> (r: Vec<DeleteRemoteEntryTarget>)
    ensures
        r@ == v@,
{
    let mut r: Vec<DeleteRemoteEntryTarget> = Vec::new();
    let mut i: usize = 0;
    while i < v.len()
        invariant
            i <= v.len(),
            r@ == v@.take(i as int),
        decreases v.len() - i,
    {
        r.push(v[i].duplicate());
        i += 1;
        assert(r@ =~= v@.take(i as int));
    }
    assert(v@.take(v.len() as int) =~= v@);
    r
}

/// The remote pane before any connection.
pub open spec fn is_remote_placeholder(p: PaneSnapshot) -> bool {
    &&& p.id@ == "remote"@
    &&& p.title@ == "Remote"@
    &&& p.location@ == "Not connected"@
    &&& p.item_count == 0
    &&& !p.can_go_up
    &&& p.entries@.len() == 0
    &&& p.empty_message matches Some(m) && m@ == "Connect to a host to browse remote files."@
}

/// The session line shown while nothing is connected.
pub open spec fn is_idle_session(s: SessionSnapshot) -> bool {
    &&& s.connection_state@ == "Disconnected"@
    &&& s.protocol_mode@ == "SFTP primary"@
    &&& s.host@ == "No active session"@
    &&& s.auth_method@ == "None"@
    &&& s.trust_state@ == "No host selected"@
    &&& !s.can_disconnect
}

impl AppBootstrap {
    /// An empty transfer queue.
    pub fn empty_transfers() -> (r: TransferQueueSnapshot)
        ensures
            r.sequence == 0,
            r.jobs@.len() == 0,
            r.active_job_id is None,
            r.queued_count == 0,
            r.finished_count == 0,
            r.batch_count == 0,
    {
        TransferQueueSnapshot {
            sequence: 0,
            jobs: Vec::new(),
            active_job_id: None,
            queued_count: 0,
            finished_count: 0,
            batch_count: 0,
        }
    }

    /// The remote pane before any connection.
    pub fn remote_placeholder() -> (r: PaneSnapshot)
        ensures
            is_remote_placeholder(r),
    {
        PaneSnapshot {
            id: owned("remote"),
            title: owned("Remote"),
            location: owned("Not connected"),
            item_count: 0,
            can_go_up: false,
            entries: Vec::new(),
            empty_message: Some(owned("Connect to a host to browse remote files.")),
        }
    }

    /// The session line shown before any connection.
    pub fn sample_session() -> (r: SessionSnapshot)
        ensures
            is_idle_session(r),
            r.last_error is None,
    {
        SessionSnapshot {
            connection_state: owned("Disconnected"),
            protocol_mode: owned("SFTP primary"),
            host: owned("No active session"),
            auth_method: owned("None"),
            trust_state: owned("No host selected"),
            last_error: None,
            can_disconnect: false,
        }
    }

    /// The example connection profiles.
    pub fn sample_profiles() -> (r: Vec<ConnectionProfile>)
        ensures
            r@.len() == 2,
            r@[0].name@ == "prod-edge"@,
            r@[0].target@ == "deploy@edge-01.example.com:22"@,
            r@[0].auth@ == "ed25519"@,
            r@[1].name@ == "media-origin"@,
            r@[1].target@ == "ops@origin.internal:22"@,
            r@[1].auth@ == "password"@,
    {
        let mut r = Vec::new();
        r.push(ConnectionProfile {
            name: owned("prod-edge"),
            target: owned("deploy@edge-01.example.com:22"),
            auth: owned("ed25519"),
        });
        r.push(ConnectionProfile {
            name: owned("media-origin"),
            target: owned("ops@origin.internal:22"),
            auth: owned("password"),
        });
        r
    }

    /// The keyboard shortcuts listed in the status bar.
    pub fn current_shortcuts() -> (r: Vec<String>)
        ensures
            r@.len() == 7,
            r@[0]@ == "Tab pane"@,
            r@[1]@ == "Ctrl+1 local"@,
            r@[2]@ == "Ctrl+2 remote"@,
            r@[3]@ == "Ctrl+F filter"@,
            r@[4]@ == "F2 rename"@,
            r@[5]@ == "Delete remove"@,
            r@[6]@ == "F5 refresh"@,
    {
        let mut r = Vec::new();
        r.push(owned("Tab pane"));
        r.push(owned("Ctrl+1 local"));
        r.push(owned("Ctrl+2 remote"));
        r.push(owned("Ctrl+F filter"));
        r.push(owned("F2 rename"));
        r.push(owned("Delete remove"));
        r.push(owned("F5 refresh"));
        r
    }
}

impl RemoteConnectionSnapshot {
    /// The remote side with no session: the given status line and the placeholder pane.
    pub fn disconnected(session: SessionSnapshot) -> (r: RemoteConnectionSnapshot)
        ensures
            r.session == session,
            is_remote_placeholder(r.remote_pane),
            r.trust_prompt is None,
    {
        RemoteConnectionSnapshot {
            session,
            remote_pane: AppBootstrap::remote_placeholder(),
            trust_prompt: None,
        }
    }
}

} // verus!
