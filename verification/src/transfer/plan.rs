//! Planning a batch: checking the request, naming the batch, and the items that
//! each selected or discovered entry becomes.
use vstd::prelude::*;
use crate::models::{QueueDownloadRequest, QueueUploadRequest, TransferJobSummary, TransferSelectionItem};
use crate::remote_path::{joined, join_remote_path, normalized, normalize_remote_path, words, split_words};
use crate::text::{decimal, owned, push_decimal, push_str, same_text, trim, trimmed, push_char};
use super::aggregate::count_items;
use super::enqueue::{PlannedBatch, PlannedChild};
use super::{PlannedItemKind, TransferChildTask, TransferDirection};

verus! {

/// The name of a batch: the entry's name for one entry, else "N items".
pub open spec fn batch_name_text(entries: Seq<TransferSelectionItem>) -> Seq<char> {
    if entries.len() == 1 { entries[0].name@ } else { decimal(entries.len()) + " items"@ }
}

/// The source label of a batch: the entry's path for one entry, else "N selected entries".
pub open spec fn batch_source_text(entries: Seq<TransferSelectionItem>) -> Seq<char> {
    if entries.len() == 1 { entries[0].path@ } else { decimal(entries.len()) + " selected entries"@ }
}

/// The name of a batch of `entries`.
pub fn batch_display_name(entries: &Vec<TransferSelectionItem>) -> (r: String)
    ensures
        r@ == batch_name_text(entries@),
{
    if entries.len() == 1 {
        entries[0].name.clone()
    } else {
        let mut r = String::new();
        push_decimal(&mut r, entries.len() as u64);
        push_str(&mut r, " items");
        assert(r@ =~= decimal(entries@.len()) + " items"@);
        r
    }
}

/// The source label of a batch of `entries`.
pub fn batch_source_label(entries: &Vec<TransferSelectionItem>) -> (r: String)
    ensures
        r@ == batch_source_text(entries@),
{
    if entries.len() == 1 {
        entries[0].path.clone()
    } else {
        let mut r = String::new();
        push_decimal(&mut r, entries.len() as u64);
        push_str(&mut r, " selected entries");
        assert(r@ =~= decimal(entries@.len()) + " selected entries"@);
        r
    }
}

/// Checks a download request: it must name entries and a non-blank local directory.
pub fn check_download_request(request: &QueueDownloadRequest) -> (r: Result<(), String>)
    ensures
        request.entries@.len() == 0 ==> (r matches Err(e) && e@ == "Select one or more remote entries before queuing a download."@),
        request.entries@.len() > 0 && trim(request.local_directory@).len() == 0 ==> (r matches Err(e) && e@ == "Choose a local destination before queuing a download."@),
        request.entries@.len() > 0 && trim(request.local_directory@).len() > 0 ==> r is Ok,
{
    if request.entries.len() == 0 {
        return Err(owned("Select one or more remote entries before queuing a download."));
    }
    if trimmed(request.local_directory.as_str()).as_str().is_empty() {
        return Err(owned("Choose a local destination before queuing a download."));
    }
    Ok(())
}

/// Checks an upload request: it must name entries and a non-blank remote directory.
pub fn check_upload_request(request: &QueueUploadRequest) -> (r: Result<(), String>)
    ensures
        request.entries@.len() == 0 ==> (r matches Err(e) && e@ == "Select one or more local entries before queuing an upload."@),
        request.entries@.len() > 0 && trim(request.remote_directory@).len() == 0 ==> (r matches Err(e) && e@ == "Connect to a remote directory before queuing an upload."@),
        request.entries@.len() > 0 && trim(request.remote_directory@).len() > 0 ==> r is Ok,
{
    if request.entries.len() == 0 {
        return Err(owned("Select one or more local entries before queuing an upload."));
    }
    if trimmed(request.remote_directory.as_str()).as_str().is_empty() {
        return Err(owned("Connect to a remote directory before queuing an upload."));
    }
    Ok(())
}

/// A directory item that creates `remote_path` on the server.
pub fn planned_remote_dir(display_name: String, source_path: String, remote_path: String) -> (c: PlannedChild)
    ensures
        c.item_kind is Directory,
        c.display_name == display_name,
        c.source_path == source_path,
        c.destination_path == remote_path,
        c.bytes_total == Some(0u64),
        c.task == (TransferChildTask::CreateRemoteDir { remote_path }),
{
    PlannedChild {
        item_kind: PlannedItemKind::Directory,
        display_name,
        source_path,
        destination_path: remote_path.clone(),
        bytes_total: Some(0),
        task: TransferChildTask::CreateRemoteDir { remote_path },
    }
}

/// A file item that uploads `local_path` to `remote_path`.
pub fn planned_upload_file(display_name: String, local_path: String, remote_path: String, bytes_total: Option<u64>) -> (c: PlannedChild)
    ensures
        c.item_kind is File,
        c.display_name == display_name,
        c.source_path == local_path,
        c.destination_path == remote_path,
        c.bytes_total == bytes_total,
        c.task == (TransferChildTask::UploadFile { local_path, remote_path }),
{
    PlannedChild {
        item_kind: PlannedItemKind::File,
        display_name,
        source_path: local_path.clone(),
        destination_path: remote_path.clone(),
        bytes_total,
        task: TransferChildTask::UploadFile { local_path, remote_path },
    }
}

/// A directory item that creates `local_path` on this machine.
pub fn planned_local_dir(display_name: String, source_path: String, local_path: String) -> (c: PlannedChild)
    ensures
        c.item_kind is Directory,
        c.display_name == display_name,
        c.source_path == source_path,
        c.destination_path == local_path,
        c.bytes_total == Some(0u64),
        c.task == (TransferChildTask::CreateLocalDir { local_path }),
{
    PlannedChild {
        item_kind: PlannedItemKind::Directory,
        display_name,
        source_path,
        destination_path: local_path.clone(),
        bytes_total: Some(0),
        task: TransferChildTask::CreateLocalDir { local_path },
    }
}

/// A file item that downloads `remote_path` to `local_path`.
pub fn planned_download_file(display_name: String, remote_path: String, local_path: String, bytes_total: Option<u64>) -> (c: PlannedChild)
    ensures
        c.item_kind is File,
        c.display_name == display_name,
        c.source_path == remote_path,
        c.destination_path == local_path,
        c.bytes_total == bytes_total,
        c.task == (TransferChildTask::DownloadFile { remote_path, local_path }),
{
    PlannedChild {
        item_kind: PlannedItemKind::File,
        display_name,
        source_path: remote_path.clone(),
        destination_path: local_path.clone(),
        bytes_total,
        task: TransferChildTask::DownloadFile { remote_path, local_path },
    }
}

/// The item a selected local entry becomes in an upload into `remote_directory`:
/// a directory creates its remote counterpart, anything else is uploaded as a file
/// of `local_size` bytes (where known).
pub fn planned_upload_entry(entry: &TransferSelectionItem, remote_directory: &str, local_size: Option<u64>) -> (c: PlannedChild)
    ensures
        c.destination_path@ == joined(remote_directory@, entry.name@),
        c.display_name == entry.name,
        c.source_path == entry.path,
        entry.kind@ == "dir"@ ==> c.item_kind is Directory && c.bytes_total == Some(0u64)
            && c.task == (TransferChildTask::CreateRemoteDir { remote_path: c.destination_path }),
        entry.kind@ != "dir"@ ==> c.item_kind is File && c.bytes_total == local_size
            && c.task == (TransferChildTask::UploadFile { local_path: entry.path, remote_path: c.destination_path }),
{
    let destination = join_remote_path(remote_directory, entry.name.as_str());
    if same_text(entry.kind.as_str(), "dir") {
        planned_remote_dir(entry.name.clone(), entry.path.clone(), destination)
    } else {
        planned_upload_file(entry.name.clone(), entry.path.clone(), destination, local_size)
    }
}

/// The item a selected remote entry becomes in a download to `local_destination`.
pub fn planned_download_entry(entry: &TransferSelectionItem, local_destination: String) -> (c: PlannedChild)
    ensures
        c.destination_path == local_destination,
        c.display_name == entry.name,
        c.source_path == entry.path,
        entry.kind@ == "dir"@ ==> c.item_kind is Directory && c.bytes_total == Some(0u64)
            && c.task == (TransferChildTask::CreateLocalDir { local_path: local_destination }),
        entry.kind@ != "dir"@ ==> c.item_kind is File && c.bytes_total is None
            && c.task == (TransferChildTask::DownloadFile { remote_path: entry.path, local_path: local_destination }),
{
    if same_text(entry.kind.as_str(), "dir") {
        planned_local_dir(entry.name.clone(), entry.path.clone(), local_destination)
    } else {
        planned_download_file(entry.name.clone(), entry.path.clone(), local_destination, None)
    }
}

/// How many planned items are of `kind`.
pub open spec fn count_planned(s: Seq<PlannedChild>, kind: PlannedItemKind) -> nat
    decreases s.len(),
{
    if s.len() == 0 {
        0
    } else {
        count_planned(s.drop_last(), kind) + if s.last().item_kind == kind { 1nat } else { 0nat }
    }
}

fn count_planned_kind(children: &Vec<PlannedChild>, kind: PlannedItemKind) -> (n: usize)
    ensures
        n == count_planned(children@, kind),
{
    let mut n: usize = 0;
    let mut i: usize = 0;
    while i < children.len()
        invariant
            i <= children.len(),
            n == count_planned(children@.take(i as int), kind),
            n <= i,
        decreases children.len() - i,
    {
        proof {
            assert(children@.take(i + 1).drop_last() =~= children@.take(i as int));
        }
        if children[i].item_kind == kind {
            n += 1;
        }
        i += 1;
    }
    assert(children@.take(children.len() as int) =~= children@);
    n
}

/// A batch plan from the selected entries and the items found for them: named after
/// the entries, with its file and directory counts and nothing done yet.
pub fn assemble_plan(direction: TransferDirection, destination_root: String, entries: &Vec<TransferSelectionItem>, children: Vec<PlannedChild>) -> (p: PlannedBatch)
    ensures
        p.direction == direction,
        p.destination_root == destination_root,
        p.display_name@ == batch_name_text(entries@),
        p.source_label@ == batch_source_text(entries@),
        p.children == children,
        p.summary.total_files == count_planned(children@, PlannedItemKind::File),
        p.summary.total_directories == count_planned(children@, PlannedItemKind::Directory),
        p.summary.completed_files == 0,
        p.summary.failed_files == 0,
        p.summary.skipped_files == 0,
{
    let total_files = count_planned_kind(&children, PlannedItemKind::File);
    let total_directories = count_planned_kind(&children, PlannedItemKind::Directory);
    PlannedBatch {
        direction,
        destination_root,
        display_name: batch_display_name(entries),
        source_label: batch_source_label(entries),
        children,
        summary: TransferJobSummary {
            total_files,
            total_directories,
            completed_files: 0,
            failed_files: 0,
            skipped_files: 0,
        },
    }
}

/// The directories from the root down to `path`, each as an absolute remote path:
/// "/a", "/a/b", ... for the words of the normalised path. The root gives none.
pub open spec fn directory_chain_of(path: Seq<char>) -> Seq<Seq<char>> {
    let ws = words(normalized(path));
    Seq::new(ws.len(), |i: int| seq!['/'] + crate::remote_path::slash_joined(ws.take(i + 1)))
}

/// The directories to create, in order, so that remote directory `path` exists.
pub fn remote_directory_chain(path: &str) -> (r: Vec<String>)
    ensures
        r@.len() == directory_chain_of(path@).len(),
        forall|i: int| 0 <= i < r@.len() ==> #[trigger] r@[i]@ == directory_chain_of(path@)[i],
{
    let normalized_path = normalize_remote_path(path);
    let ws = split_words(normalized_path.as_str());
    let ghost all = words(normalized(path@));
    let mut r: Vec<String> = Vec::new();
    let mut current = owned("/");
    proof {
        reveal_strlit("/");
        assert("/"@ =~= seq!['/']);
    }
    let mut i: usize = 0;
    while i < ws.len()
        invariant
            i <= ws.len(),
            ws@.len() == all.len(),
            forall|k: int| 0 <= k < ws@.len() ==> #[trigger] ws@[k]@ == all[k],
            r@.len() == i,
            forall|k: int| 0 <= k < i ==> #[trigger] r@[k]@ == seq!['/'] + crate::remote_path::slash_joined(all.take(k + 1)),
            current@ == seq!['/'] + crate::remote_path::slash_joined(all.take(i as int)),
        decreases ws.len() - i,
    {
        if i > 0 {
            push_char(&mut current, '/');
        }
        let w = &ws[i];
        let mut k: usize = 0;
        let ghost base = current@;
        while k < w.len()
            invariant
                k <= w.len(),
                current@ == base + w@.take(k as int),
            decreases w.len() - k,
        {
            push_char(&mut current, w[k]);
            k += 1;
            assert(current@ =~= base + w@.take(k as int));
        }
        proof {
            assert(w@.take(w.len() as int) =~= w@);
            assert(all.take(i + 1).drop_last() =~= all.take(i as int));
            assert(all.take(i + 1).last() == all[i as int]);
            if i == 0 {
                assert(current@ =~= seq!['/'] + crate::remote_path::slash_joined(all.take(i + 1)));
            } else {
                assert(current@ =~= seq!['/'] + crate::remote_path::slash_joined(all.take(i + 1)));
            }
        }
        r.push(current.clone());
        i += 1;
    }
    r
}

} // verus!
