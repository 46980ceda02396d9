//! The checks an item passes before its bytes move: what an existing destination
//! means for it, and the names it is written under meanwhile.
use vstd::prelude::*;
use crate::local_path::{file_name_of, path_file_name, path_with_file_name, with_file_name};
use crate::models::TransferConflict;
use crate::text::{owned, push_str};
use super::TransferDirection;
use super::messages::{contextualize_conflict, is_contextualized, temp_name};
use super::worker::TransferRunOutcome;

verus! {

/// The refusal of a source that turned out to be a folder behind a link.
pub open spec fn linked_folder_text(direction: TransferDirection) -> Seq<char> {
    match direction {
        TransferDirection::Upload => "Warp does not recurse through symlinked directories during upload."@,
        TransferDirection::Download => "Warp does not recurse through symlinked directories during download."@,
    }
}

/// How an item ends whose source is a folder reached through a link.
pub fn linked_folder_refusal(direction: TransferDirection) -> (r: TransferRunOutcome)
    ensures
        r matches TransferRunOutcome::Failed(m) && m@ == linked_folder_text(direction),
{
    match direction {
        TransferDirection::Upload => TransferRunOutcome::Failed(
            owned("Warp does not recurse through symlinked directories during upload."),
        ),
        TransferDirection::Download => TransferRunOutcome::Failed(
            owned("Warp does not recurse through symlinked directories during download."),
        ),
    }
}

/// What an existing destination means for a file transfer between `local_path`
/// and `remote_path`: `None` lets the copy go ahead. An unapproved conflict is
/// skipped under a skip-all policy and otherwise put to the user; an approved
/// one still fails on a folder; a failed inspection fails the item.
pub fn gate_file_transfer(
    inspection: Result<Option<TransferConflict>, String>,
    overwrite_approved: bool,
    skip_conflicts: bool,
    local_path: &str,
    remote_path: &str,
) -> (r: Option<TransferRunOutcome>)
    ensures
        match inspection {
            Ok(None) => r is None,
            Ok(Some(c)) => if skip_conflicts && !overwrite_approved {
                r matches Some(TransferRunOutcome::Skipped)
            } else if !overwrite_approved {
                r matches Some(TransferRunOutcome::AwaitingConflict(d))
                    && is_contextualized(c, d, local_path@, remote_path@, "file"@)
            } else if !c.can_overwrite {
                r matches Some(TransferRunOutcome::Failed(m)) && m@ == "Warp cannot overwrite a directory destination."@
            } else {
                r is None
            },
            Err(e) => r matches Some(TransferRunOutcome::Failed(m)) && m@ == e@,
        },
{
    match inspection {
        Ok(None) => None,
        Ok(Some(c)) => {
            if skip_conflicts && !overwrite_approved {
                Some(TransferRunOutcome::Skipped)
            } else if !overwrite_approved {
                Some(TransferRunOutcome::AwaitingConflict(contextualize_conflict(c, local_path, remote_path, "file")))
            } else if !c.can_overwrite {
                Some(TransferRunOutcome::Failed(owned("Warp cannot overwrite a directory destination.")))
            } else {
                None
            }
        },
        Err(e) => Some(TransferRunOutcome::Failed(e)),
    }
}

/// What an existing destination means for an item that creates a folder;
/// `existing` says whether something is there and whether it is a folder.
/// `None` lets the folder be created.
pub fn gate_folder_creation(existing: Result<Option<bool>, String>) -> (r: Option<TransferRunOutcome>)
    ensures
        match existing {
            Ok(Some(true)) => r matches Some(TransferRunOutcome::Succeeded),
            Ok(Some(false)) => r matches Some(TransferRunOutcome::Failed(m))
                && m@ == "Warp cannot replace a file destination with a directory."@,
            Ok(None) => r is None,
            Err(e) => r matches Some(TransferRunOutcome::Failed(m)) && m@ == e@,
        },
{
    match existing {
        Ok(Some(true)) => Some(TransferRunOutcome::Succeeded),
        Ok(Some(false)) => Some(TransferRunOutcome::Failed(owned("Warp cannot replace a file destination with a directory."))),
        Ok(None) => None,
        Err(e) => Some(TransferRunOutcome::Failed(e)),
    }
}

/// The message for a local destination that could not be inspected.
pub fn local_inspect_failure(path: &str, detail: &str) -> (r: String)
    ensures
        r@ == "Unable to inspect local destination "@ + path@ + ": "@ + detail@,
{
    let mut r = owned("Unable to inspect local destination ");
    push_str(&mut r, path);
    push_str(&mut r, ": ");
    push_str(&mut r, detail);
    r
}

/// One folder of the chain above an upload's destination: `Ok(true)` when it must
/// be created, `Ok(false)` when it already exists as a folder, and an error when
/// a file stands in its place or it could not be inspected.
pub fn chain_link_step(current: &str, existing: Result<Option<bool>, String>) -> (r: Result<bool, String>)
    ensures
        match existing {
            Ok(Some(true)) => r == Ok::<bool, String>(false),
            Ok(Some(false)) => r matches Err(m)
                && m@ == "Warp cannot create a remote folder because `"@ + current@ + "` already exists as a file."@,
            Ok(None) => r == Ok::<bool, String>(true),
            Err(e) => r matches Err(m) && m@ == e@,
        },
{
    match existing {
        Ok(Some(true)) => Ok(false),
        Ok(Some(false)) => {
            let mut m = owned("Warp cannot create a remote folder because `");
            push_str(&mut m, current);
            push_str(&mut m, "` already exists as a file.");
            Err(m)
        },
        Ok(None) => Ok(true),
        Err(e) => Err(e),
    }
}

/// The name a download is written under before it replaces `destination`.
pub open spec fn temp_local_name(destination: Seq<char>, job_id: Seq<char>) -> Seq<char> {
    let name = match path_file_name(destination) {
        Some(n) => n,
        None => "transfer"@,
    };
    path_with_file_name(destination, temp_name(name, job_id))
}

/// The local path a download is written to before it replaces `destination`.
pub fn temp_local_path(destination: &str, job_id: &str) -> (r: String)
    ensures
        r@ == temp_local_name(destination@, job_id@),
{
    let name = match file_name_of(destination) {
        Some(n) => n,
        None => owned("transfer"),
    };
    let mut hidden = owned(".");
    push_str(&mut hidden, name.as_str());
    push_str(&mut hidden, ".warp-part-");
    push_str(&mut hidden, job_id);
    with_file_name(destination, hidden.as_str())
}

} // verus!
