//! Messages for failed transfers, conflicts, and the remote paths a transfer uses.
use vstd::prelude::*;
use crate::local_path::{file_name_of, path_file_name};
use crate::models::TransferConflict;
use crate::remote_path::{joined, normalized, parent_of, join_remote_path, normalize_remote_path, RemoteSftpEngine};
use crate::sftp_failure::{SftpFailure, SftpStatusCode, failure_text, status_code_text, status_name};
use crate::text::{
    ascii_lower, chars_of, contains_text, has_infix, lower_text, owned, push_char, push_str, same_text, to_lowercase, trim, trimmed,
};

verus! {

/// `prefix`, `middle` and `suffix` in a row.
pub fn framed(prefix: &str, middle: &str, suffix: &str) -> (r: String)
    ensures
        r@ == prefix@ + middle@ + suffix@,
{
    let mut r = owned(prefix);
    push_str(&mut r, middle);
    push_str(&mut r, suffix);
    r
}

/// `prefix` followed by `text`.
pub fn prefixed(prefix: &str, text: &str) -> (r: String)
    ensures
        r@ == prefix@ + text@,
{
    let mut r = owned(prefix);
    push_str(&mut r, text);
    r
}

/// Equality of two texts with ASCII letters compared without case, as
/// `str::eq_ignore_ascii_case`.
pub open spec fn same_ignoring_ascii_case(a: Seq<char>, b: Seq<char>) -> bool {
    a.len() == b.len() && forall|i: int| 0 <= i < a.len() ==> ascii_lower(#[trigger] a[i]) == ascii_lower(b[i])
}

fn lower_ascii(c: char) -> (r: char)
    ensures
        r == ascii_lower(c),
{
    if 'A' <= c && c <= 'Z' {
        let b = c as u8;
        assert(b as u32 == c as u32);
        (b + 32) as char
    } else {
        c
    }
}

/// Whether two texts are equal when ASCII letters are compared without case.
pub fn eq_ignore_ascii_case(a: &str, b: &str) -> (r: bool)
    ensures
        r == same_ignoring_ascii_case(a@, b@),
{
    let x = chars_of(a);
    let y = chars_of(b);
    if x.len() != y.len() {
        return false;
    }
    let mut i: usize = 0;
    while i < x.len()
        invariant
            x@ == a@,
            y@ == b@,
            x.len() == y.len(),
            i <= x.len(),
            forall|k: int| 0 <= k < i ==> ascii_lower(#[trigger] x@[k]) == ascii_lower(y@[k]),
        decreases x.len() - i,
    {
        if lower_ascii(x[i]) != lower_ascii(y[i]) {
            return false;
        }
        i += 1;
    }
    true
}

/// A lowercased error text that tells of a dropped SSH session.
pub open spec fn tells_of_disconnect(m: Seq<char>) -> bool {
    has_infix(m, "disconnect"@) || has_infix(m, "broken pipe"@) || has_infix(m, "connection reset"@)
        || has_infix(m, "unexpected eof"@) || has_infix(m, "channel closed"@) || has_infix(m, "session closed"@)
}

/// The message for a failed remote request made while trying to `action`.
pub open spec fn remote_transfer_error_text(action: Seq<char>, e: SftpFailure) -> Seq<char> {
    let m = lower_text(failure_text(e));
    if has_infix(m, "permission denied"@) {
        "Permission denied while trying to "@ + action + "."@
    } else if has_infix(m, "no such file"@) {
        "The remote path is no longer available, so Warp could not "@ + action + "."@
    } else if tells_of_disconnect(m) {
        "The SSH session ended while trying to "@ + action + "."@
    } else {
        failure_text(e)
    }
}

/// The message for a failed remote request made while trying to `action`.
pub fn friendly_remote_transfer_error(action: &str, error: &SftpFailure) -> (r: String)
    ensures
        r@ == remote_transfer_error_text(action@, *error),
{
    let text = error.to_text();
    let m = to_lowercase(text.as_str());
    let ms = m.as_str();
    if contains_text(ms, "permission denied") {
        return framed("Permission denied while trying to ", action, ".");
    }
    if contains_text(ms, "no such file") {
        return framed("The remote path is no longer available, so Warp could not ", action, ".");
    }
    if contains_text(ms, "disconnect") || contains_text(ms, "broken pipe") || contains_text(ms, "connection reset")
        || contains_text(ms, "unexpected eof") || contains_text(ms, "channel closed") || contains_text(ms, "session closed") {
        return framed("The SSH session ended while trying to ", action, ".");
    }
    text
}

/// The message for a failed remote request of a transfer step `action` on `path`.
pub open spec fn transfer_step_error_text(action: Seq<char>, path: Seq<char>, e: SftpFailure) -> Seq<char> {
    match e {
        SftpFailure::Status { code, message } => match code {
            SftpStatusCode::PermissionDenied =>
                if action == "create_dir"@ {
                    "Permission denied while preparing remote folder `"@ + path + "`."@
                } else if action == "create_file"@ || action == "flush_file"@ || action == "replace_file"@
                    || action == "finalize_upload"@ {
                    "Permission denied while writing remote file `"@ + path + "`."@
                } else {
                    "Permission denied while accessing remote path `"@ + path + "`."@
                },
            SftpStatusCode::NoSuchFile =>
                if action == "create_dir"@ {
                    "The remote parent path for `"@ + path + "` is no longer available."@
                } else if action == "create_file"@ || action == "finalize_upload"@ {
                    "The remote parent path for `"@ + path + "` is no longer available, so Warp could not upload the file."@
                } else if action == "inspect_file"@ || action == "open_file"@ {
                    "The remote file `"@ + path + "` is no longer available."@
                } else {
                    "The remote path `"@ + path + "` is no longer available."@
                },
            SftpStatusCode::ConnectionLost | SftpStatusCode::NoConnection =>
                "The SSH session ended while accessing remote path `"@ + path + "`."@,
            SftpStatusCode::Failure => {
                let t = trim(message@);
                if t.len() == 0 || same_ignoring_ascii_case(t, "failure"@) {
                    if action == "create_dir"@ {
                        "The server could not create remote folder `"@ + path + "`."@
                    } else if action == "create_file"@ {
                        "The server could not create the remote upload target `"@ + path + "`."@
                    } else if action == "flush_file"@ {
                        "The server could not finish writing remote file `"@ + path + "`."@
                    } else if action == "close_file"@ {
                        "The server could not close remote file `"@ + path + "` cleanly after writing."@
                    } else if action == "replace_file"@ {
                        "The server could not replace the existing remote file at `"@ + path + "`."@
                    } else if action == "finalize_upload"@ {
                        "The server could not finalize the upload for `"@ + path + "`."@
                    } else if action == "inspect_file"@ || action == "open_file"@ {
                        "The server could not access remote file `"@ + path + "`."@
                    } else {
                        "The server could not complete the remote operation for `"@ + path + "`."@
                    }
                } else {
                    t
                }
            },
            _ => {
                let t = trim(message@);
                if t.len() == 0 {
                    "Remote operation failed for `"@ + path + "` ("@ + status_name(code) + ")"@
                } else {
                    t + " ("@ + status_name(code) + ")"@
                }
            },
        },
        _ => remote_transfer_error_text("access the remote path"@, e),
    }
}

fn permission_denied_step_text(action: &str, path: &str, message: &String) -> (r: String)
    ensures
        r@ == transfer_step_error_text(action@, path@,
            SftpFailure::Status { code: SftpStatusCode::PermissionDenied, message: *message }),
{
    if same_text(action, "create_dir") {
        framed("Permission denied while preparing remote folder `", path, "`.")
    } else if same_text(action, "create_file") || same_text(action, "flush_file") || same_text(action, "replace_file")
        || same_text(action, "finalize_upload") {
        framed("Permission denied while writing remote file `", path, "`.")
    } else {
        framed("Permission denied while accessing remote path `", path, "`.")
    }
}

fn missing_step_text(action: &str, path: &str, message: &String) -> (r: String)
    ensures
        r@ == transfer_step_error_text(action@, path@,
            SftpFailure::Status { code: SftpStatusCode::NoSuchFile, message: *message }),
{
    if same_text(action, "create_dir") {
        framed("The remote parent path for `", path, "` is no longer available.")
    } else if same_text(action, "create_file") || same_text(action, "finalize_upload") {
        framed("The remote parent path for `", path, "` is no longer available, so Warp could not upload the file.")
    } else if same_text(action, "inspect_file") || same_text(action, "open_file") {
        framed("The remote file `", path, "` is no longer available.")
    } else {
        framed("The remote path `", path, "` is no longer available.")
    }
}

fn generic_failure_step_text(action: &str, path: &str, message: &String) -> (r: String)
    ensures
        r@ == transfer_step_error_text(action@, path@,
            SftpFailure::Status { code: SftpStatusCode::Failure, message: *message }),
{
    let t = trimmed(message.as_str());
    if t.as_str().is_empty() || eq_ignore_ascii_case(t.as_str(), "failure") {
        if same_text(action, "create_dir") {
            framed("The server could not create remote folder `", path, "`.")
        } else if same_text(action, "create_file") {
            framed("The server could not create the remote upload target `", path, "`.")
        } else if same_text(action, "flush_file") {
            framed("The server could not finish writing remote file `", path, "`.")
        } else if same_text(action, "close_file") {
            framed("The server could not close remote file `", path, "` cleanly after writing.")
        } else if same_text(action, "replace_file") {
            framed("The server could not replace the existing remote file at `", path, "`.")
        } else if same_text(action, "finalize_upload") {
            framed("The server could not finalize the upload for `", path, "`.")
        } else if same_text(action, "inspect_file") || same_text(action, "open_file") {
            framed("The server could not access remote file `", path, "`.")
        } else {
            framed("The server could not complete the remote operation for `", path, "`.")
        }
    } else {
        t
    }
}

fn other_status_step_text(action: &str, path: &str, code: SftpStatusCode, message: &String) -> (r: String)
    requires
        !(code is PermissionDenied || code is NoSuchFile || code is ConnectionLost || code is NoConnection
            || code is Failure),
    ensures
        r@ == transfer_step_error_text(action@, path@, SftpFailure::Status { code: code, message: *message }),
{
    let t = trimmed(message.as_str());
    let name = status_code_text(code);
    if t.as_str().is_empty() {
        let mut r = framed("Remote operation failed for `", path, "` (");
        push_str(&mut r, name.as_str());
        push_str(&mut r, ")");
        r
    } else {
        let mut r = t;
        push_str(&mut r, " (");
        push_str(&mut r, name.as_str());
        push_str(&mut r, ")");
        r
    }
}

/// The message for a failed remote request of a transfer step `action` on `path`.
pub fn classify_transfer_remote_error(action: &str, path: &str, error: &SftpFailure) -> (r: String)
    ensures
        r@ == transfer_step_error_text(action@, path@, *error),
{
    match error {
        SftpFailure::Status { code, message } => match code {
            SftpStatusCode::PermissionDenied => permission_denied_step_text(action, path, message),
            SftpStatusCode::NoSuchFile => missing_step_text(action, path, message),
            SftpStatusCode::ConnectionLost | SftpStatusCode::NoConnection =>
                framed("The SSH session ended while accessing remote path `", path, "`."),
            SftpStatusCode::Failure => generic_failure_step_text(action, path, message),
            _ => other_status_step_text(action, path, *code, message),
        },
        _ => friendly_remote_transfer_error("access the remote path", error),
    }
}

/// Why copying bytes stopped.
pub enum CopyFailure {
    Cancelled,
    Failed(String),
}

/// The message for an I/O error, given by its text, that stopped a copy.
pub open spec fn copy_error_text(message: Seq<char>) -> Seq<char> {
    let m = lower_text(message);
    if has_infix(m, "broken pipe"@) || has_infix(m, "connection reset"@) || has_infix(m, "unexpected eof"@)
        || has_infix(m, "channel closed"@) || has_infix(m, "session closed"@) {
        "The SSH session ended during the transfer. Reconnect and try again."@
    } else {
        message
    }
}

/// The copy failure for an I/O error given by its text.
pub fn map_copy_io_error(message: &str) -> (r: CopyFailure)
    ensures
        r matches CopyFailure::Failed(m) && m@ == copy_error_text(message@),
{
    let m = to_lowercase(message);
    let ms = m.as_str();
    if contains_text(ms, "broken pipe") || contains_text(ms, "connection reset") || contains_text(ms, "unexpected eof")
        || contains_text(ms, "channel closed") || contains_text(ms, "session closed") {
        return CopyFailure::Failed(owned("The SSH session ended during the transfer. Reconnect and try again."));
    }
    CopyFailure::Failed(owned(message))
}

/// The last component of `p`, or `p` itself where it has none.
pub open spec fn name_or_path(p: Seq<char>) -> Seq<char> {
    match path_file_name(p) {
        Some(n) => n,
        None => p,
    }
}

fn name_or_whole(p: &str) -> (r: String)
    ensures
        r@ == name_or_path(p@),
{
    match file_name_of(p) {
        Some(n) => n,
        None => owned(p),
    }
}

/// The kind of conflict between a destination of `destination_kind` and a source of
/// `source_kind`.
pub open spec fn conflict_kind_text(destination_kind: Seq<char>, source_kind: Seq<char>) -> Seq<char> {
    if destination_kind == "dir"@ && source_kind != "dir"@ {
        "typeMismatch"@
    } else if destination_kind == "file"@ && source_kind == "file"@ {
        "fileExists"@
    } else if destination_kind == "dir"@ && source_kind == "dir"@ {
        "dirExists"@
    } else {
        "unknown"@
    }
}

/// `r` is `conflict` completed with the source and destination it is about.
pub open spec fn is_contextualized(conflict: TransferConflict, r: TransferConflict, source_path: Seq<char>, destination_path: Seq<char>, source_kind: Seq<char>) -> bool {
    &&& r.destination_exists == conflict.destination_exists
    &&& r.destination_kind == conflict.destination_kind
    &&& r.can_overwrite == conflict.can_overwrite
    &&& r.apply_to_remaining == conflict.apply_to_remaining
    &&& r.source_kind@ == source_kind
    &&& r.source_path@ == source_path
    &&& r.source_name@ == name_or_path(source_path)
    &&& r.destination_path@ == destination_path
    &&& r.destination_name@ == name_or_path(destination_path)
    &&& r.conflict_kind@ == conflict_kind_text(conflict.destination_kind@, source_kind)
}

/// A conflict completed with the source and destination it is about.
pub fn contextualize_conflict(conflict: TransferConflict, source_path: &str, destination_path: &str, source_kind: &str) -> (r: TransferConflict)
    ensures
        is_contextualized(conflict, r, source_path@, destination_path@, source_kind@),
{
    let mut conflict = conflict;
    conflict.source_kind = owned(source_kind);
    conflict.source_path = owned(source_path);
    conflict.source_name = name_or_whole(source_path);
    conflict.destination_path = owned(destination_path);
    conflict.destination_name = name_or_whole(destination_path);
    let dk = conflict.destination_kind.as_str();
    conflict.conflict_kind = if same_text(dk, "dir") && !same_text(source_kind, "dir") {
        owned("typeMismatch")
    } else if same_text(dk, "file") && same_text(source_kind, "file") {
        owned("fileExists")
    } else if same_text(dk, "dir") && same_text(source_kind, "dir") {
        owned("dirExists")
    } else {
        owned("unknown")
    };
    conflict
}

/// What an existing destination is.
#[derive(Clone, Copy, PartialEq, Eq, Structural)]
pub enum DestinationKind {
    Dir,
    Symlink,
    File,
}

/// The conflict an existing destination raises before its source is known: a
/// directory cannot be overwritten and mismatches a file; anything else can be
/// overwritten as an existing file.
pub fn existing_destination_conflict(destination_path: &str, kind: DestinationKind) -> (r: TransferConflict)
    ensures
        r.destination_exists,
        r.destination_kind@ == (match kind {
            DestinationKind::Dir => "dir"@,
            DestinationKind::Symlink => "symlink"@,
            DestinationKind::File => "file"@,
        }),
        r.source_kind@ == "unknown"@,
        r.source_name@ == Seq::<char>::empty(),
        r.source_path@ == Seq::<char>::empty(),
        r.destination_name@ == (match path_file_name(destination_path@) { Some(n) => n, None => Seq::<char>::empty() }),
        r.destination_path@ == destination_path@,
        r.conflict_kind@ == (if kind is Dir { "typeMismatch"@ } else { "fileExists"@ }),
        r.can_overwrite == !(kind is Dir),
        r.apply_to_remaining,
{
    let is_dir = matches!(kind, DestinationKind::Dir);
    TransferConflict {
        destination_exists: true,
        destination_kind: match kind {
            DestinationKind::Dir => owned("dir"),
            DestinationKind::Symlink => owned("symlink"),
            DestinationKind::File => owned("file"),
        },
        source_kind: owned("unknown"),
        source_name: String::new(),
        source_path: String::new(),
        destination_name: match file_name_of(destination_path) {
            Some(n) => n,
            None => String::new(),
        },
        destination_path: owned(destination_path),
        conflict_kind: if is_dir { owned("typeMismatch") } else { owned("fileExists") },
        can_overwrite: !is_dir,
        apply_to_remaining: true,
    }
}

/// The hidden name an upload or download is written under before it is complete.
pub open spec fn temp_name(name: Seq<char>, job_id: Seq<char>) -> Seq<char> {
    "."@ + name + ".warp-part-"@ + job_id
}

/// The remote path an upload is written to before it replaces its destination.
pub fn temp_remote_path(remote_directory: &str, local_name: &str, job_id: &str) -> (r: String)
    ensures
        r@ == joined(remote_directory@, temp_name(local_name@, job_id@)),
{
    let mut name = owned(".");
    push_str(&mut name, local_name);
    push_str(&mut name, ".warp-part-");
    push_str(&mut name, job_id);
    join_remote_path(remote_directory, name.as_str())
}

/// `path` normalised as an absolute remote directory.
pub fn normalize_remote_directory_path(path: &str) -> (r: String)
    ensures
        r@ == normalized(path@),
{
    normalize_remote_path(path)
}

/// The parent of a remote path, the root for the root itself.
pub fn parent_remote_path(path: &str) -> (r: String)
    ensures
        r@ == (match parent_of(path@) { Some(p) => p, None => seq!['/'] }),
{
    match RemoteSftpEngine::parent_path(path) {
        Some(p) => p,
        None => {
            proof {
                reveal_strlit("/");
                assert("/"@ =~= seq!['/']);
            }
            owned("/")
        }
    }
}

} // verus!
