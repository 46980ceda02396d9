//! Why a remote operation or a connection failed, and the messages shown for it.
use vstd::prelude::*;
use crate::models::{ConnectAuth, ConnectRequest};
use crate::sftp_failure::{SftpFailure, SftpStatusCode, failure_text, status_code_text, status_name};
use crate::text::{contains_text, decimal, has_infix, lower_text, owned, push_decimal, push_str, to_lowercase, trim, trimmed};
use crate::transfer::messages::{eq_ignore_ascii_case, framed, prefixed, same_ignoring_ascii_case};

verus! {

/// Why a remote file operation failed.
pub enum RemoteFailure {
    PermissionDenied,
    NoSuchFile,
    AlreadyExists,
    DirectoryNotEmpty,
    ConnectionLost,
    PartialDelete { deleted_count: usize, failed_path: String, reason: Box<RemoteFailure> },
    Other(String),
}

/// The short reason shown after a partial delete.
pub open spec fn reason_text(f: RemoteFailure) -> Seq<char> {
    match f {
        RemoteFailure::PermissionDenied => "Permission denied"@,
        RemoteFailure::NoSuchFile => "Path disappeared"@,
        RemoteFailure::AlreadyExists => "Name conflict"@,
        RemoteFailure::DirectoryNotEmpty => "Folder is not empty"@,
        RemoteFailure::ConnectionLost => "Connection lost"@,
        RemoteFailure::PartialDelete { .. } => "Delete failed"@,
        RemoteFailure::Other(_) => "Delete failed"@,
    }
}

/// The message shown when trying to `action` failed with `f`.
pub open spec fn message_text(f: RemoteFailure, action: Seq<char>) -> Seq<char> {
    match f {
        RemoteFailure::PermissionDenied => "Permission denied while trying to "@ + action + "."@,
        RemoteFailure::NoSuchFile => "The remote path is no longer available, so Warp could not "@ + action + "."@,
        RemoteFailure::AlreadyExists => "A remote entry with that name already exists, so Warp could not "@ + action + "."@,
        RemoteFailure::DirectoryNotEmpty => "This folder is not empty."@,
        RemoteFailure::ConnectionLost => "The SSH session ended while trying to "@ + action + ". Reconnect and try again."@,
        RemoteFailure::PartialDelete { deleted_count, failed_path, reason } =>
            "Stopped deleting folder after removing "@ + decimal(deleted_count as nat) + " entries. "@
                + reason_text(*reason) + " at `"@ + failed_path@ + "`."@,
        RemoteFailure::Other(m) => m@,
    }
}

impl RemoteFailure {
    /// The short reason shown after a partial delete.
    pub fn reason_label(&self) -> (r: &'static str)
        ensures
            r@ == reason_text(*self),
    {
        match self {
            RemoteFailure::PermissionDenied => "Permission denied",
            RemoteFailure::NoSuchFile => "Path disappeared",
            RemoteFailure::AlreadyExists => "Name conflict",
            RemoteFailure::DirectoryNotEmpty => "Folder is not empty",
            RemoteFailure::ConnectionLost => "Connection lost",
            RemoteFailure::PartialDelete { .. } => "Delete failed",
            RemoteFailure::Other(_) => "Delete failed",
        }
    }

    /// The message shown when trying to `action` failed this way.
    pub fn user_message(&self, action: &str) -> (r: String)
        ensures
            r@ == message_text(*self, action@),
    {
        match self {
            RemoteFailure::PermissionDenied => framed("Permission denied while trying to ", action, "."),
            RemoteFailure::NoSuchFile => framed("The remote path is no longer available, so Warp could not ", action, "."),
            RemoteFailure::AlreadyExists =>
                framed("A remote entry with that name already exists, so Warp could not ", action, "."),
            RemoteFailure::DirectoryNotEmpty => owned("This folder is not empty."),
            RemoteFailure::ConnectionLost =>
                framed("The SSH session ended while trying to ", action, ". Reconnect and try again."),
            RemoteFailure::PartialDelete { deleted_count, failed_path, reason } => {
                let mut r = owned("Stopped deleting folder after removing ");
                push_decimal(&mut r, *deleted_count as u64);
                push_str(&mut r, " entries. ");
                push_str(&mut r, reason.reason_label());
                push_str(&mut r, " at `");
                push_str(&mut r, failed_path.as_str());
                push_str(&mut r, "`.");
                r
            }
            RemoteFailure::Other(m) => m.clone(),
        }
    }
}

/// A lowercased error text that tells of a dropped connection.
pub open spec fn tells_of_lost_connection(l: Seq<char>) -> bool {
    has_infix(l, "channel closed"@) || has_infix(l, "session closed"@) || has_infix(l, "broken pipe"@)
        || has_infix(l, "connection reset"@) || has_infix(l, "unexpected eof"@) || has_infix(l, "disconnect"@)
}

/// `f` is the failure that the error text `message` tells of.
pub open spec fn classifies_text(f: RemoteFailure, message: Seq<char>) -> bool {
    let l = lower_text(message);
    if has_infix(l, "permission denied"@) {
        f is PermissionDenied
    } else if has_infix(l, "no such file"@) {
        f is NoSuchFile
    } else if has_infix(l, "already exists"@) || has_infix(l, "file exists"@) {
        f is AlreadyExists
    } else if has_infix(l, "directory not empty"@) || has_infix(l, "not empty"@) {
        f is DirectoryNotEmpty
    } else if tells_of_lost_connection(l) {
        f is ConnectionLost
    } else {
        f matches RemoteFailure::Other(m) && m@ == message
    }
}

/// The failure an error text tells of.
pub fn classify_remote_failure_from_text(message: &str) -> (f: RemoteFailure)
    ensures
        classifies_text(f, message@),
{
    let lowered = to_lowercase(message);
    let l = lowered.as_str();
    if contains_text(l, "permission denied") {
        RemoteFailure::PermissionDenied
    } else if contains_text(l, "no such file") {
        RemoteFailure::NoSuchFile
    } else if contains_text(l, "already exists") || contains_text(l, "file exists") {
        RemoteFailure::AlreadyExists
    } else if contains_text(l, "directory not empty") || contains_text(l, "not empty") {
        RemoteFailure::DirectoryNotEmpty
    } else if contains_text(l, "channel closed") || contains_text(l, "session closed") || contains_text(l, "broken pipe")
        || contains_text(l, "connection reset") || contains_text(l, "unexpected eof") || contains_text(l, "disconnect") {
        RemoteFailure::ConnectionLost
    } else {
        RemoteFailure::Other(owned(message))
    }
}

/// `f` is the failure that the SFTP error `e` amounts to.
pub open spec fn classifies(f: RemoteFailure, e: SftpFailure) -> bool {
    match e {
        SftpFailure::Status { code, message } => match code {
            SftpStatusCode::PermissionDenied => f is PermissionDenied,
            SftpStatusCode::NoSuchFile => f is NoSuchFile,
            SftpStatusCode::Failure => {
                let t = trim(message@);
                if same_ignoring_ascii_case(t, "failure"@) || t.len() == 0 {
                    f matches RemoteFailure::Other(m) && m@ == "The server reported a generic SFTP write failure. The destination may not be writable, or the server may be out of disk space."@
                } else if has_infix(lower_text(t), "not empty"@) {
                    f is DirectoryNotEmpty
                } else {
                    f matches RemoteFailure::Other(m) && m@ == t
                }
            },
            SftpStatusCode::ConnectionLost | SftpStatusCode::NoConnection => f is ConnectionLost,
            _ => f matches RemoteFailure::Other(m) && m@ == status_name(code) + ": "@ + message@,
        },
        SftpFailure::Io(m) => classifies_text(f, m@),
        SftpFailure::UnexpectedBehavior(m) => classifies_text(f, m@),
        SftpFailure::UnexpectedPacket =>
            f matches RemoteFailure::Other(m) && m@ == "The server sent an unexpected SFTP response."@,
        SftpFailure::Timeout =>
            f matches RemoteFailure::Other(m) && m@ == "The remote filesystem operation timed out."@,
        SftpFailure::Limited(l) =>
            f matches RemoteFailure::Other(m) && m@ == "The server rejected the request: "@ + l@,
    }
}

fn classify_generic_failure(message: &String) -> (f: RemoteFailure)
    ensures
        classifies(f, SftpFailure::Status { code: SftpStatusCode::Failure, message: *message }),
{
    let t = trimmed(message.as_str());
    if eq_ignore_ascii_case(t.as_str(), "failure") || t.as_str().is_empty() {
        RemoteFailure::Other(owned(
            "The server reported a generic SFTP write failure. The destination may not be writable, or the server may be out of disk space.",
        ))
    } else {
        let l = to_lowercase(t.as_str());
        if contains_text(l.as_str(), "not empty") {
            RemoteFailure::DirectoryNotEmpty
        } else {
            RemoteFailure::Other(t)
        }
    }
}

/// The failure an SFTP error amounts to.
pub fn classify_remote_failure(error: &SftpFailure) -> (f: RemoteFailure)
    ensures
        classifies(f, *error),
{
    match error {
        SftpFailure::Status { code, message } => match code {
            SftpStatusCode::PermissionDenied => RemoteFailure::PermissionDenied,
            SftpStatusCode::NoSuchFile => RemoteFailure::NoSuchFile,
            SftpStatusCode::Failure => classify_generic_failure(message),
            SftpStatusCode::ConnectionLost | SftpStatusCode::NoConnection => RemoteFailure::ConnectionLost,
            _ => {
                let mut m = status_code_text(*code);
                push_str(&mut m, ": ");
                push_str(&mut m, message.as_str());
                RemoteFailure::Other(m)
            }
        },
        SftpFailure::Io(m) => classify_remote_failure_from_text(m.as_str()),
        SftpFailure::UnexpectedBehavior(m) => classify_remote_failure_from_text(m.as_str()),
        SftpFailure::UnexpectedPacket => RemoteFailure::Other(owned("The server sent an unexpected SFTP response.")),
        SftpFailure::Timeout => RemoteFailure::Other(owned("The remote filesystem operation timed out.")),
        SftpFailure::Limited(l) => RemoteFailure::Other(prefixed("The server rejected the request: ", l.as_str())),
    }
}

/// An error of a remote operation: an SFTP error, or another error given by its text.
pub enum OperationError {
    Sftp(SftpFailure),
    Other(String),
}

/// `f` is the failure that the operation error `e` amounts to.
pub open spec fn classifies_operation(f: RemoteFailure, e: OperationError) -> bool {
    match e {
        OperationError::Sftp(s) => classifies(f, s),
        OperationError::Other(t) => classifies_text(f, t@),
    }
}

/// The failure an operation error amounts to.
pub fn classify_operation_error(error: &OperationError) -> (f: RemoteFailure)
    ensures
        classifies_operation(f, *error),
{
    match error {
        OperationError::Sftp(e) => classify_remote_failure(e),
        OperationError::Other(t) => classify_remote_failure_from_text(t.as_str()),
    }
}

/// The message for a failed connection, from the error's text.
pub open spec fn connect_error_text(message: Seq<char>) -> Seq<char> {
    let l = lower_text(message);
    if has_infix(l, "dns"@) || has_infix(l, "name or service not known"@) || has_infix(l, "failed to lookup"@) {
        "Could not resolve that host name."@
    } else if has_infix(l, "connection refused"@) {
        "The SSH server refused the connection."@
    } else if has_infix(l, "timed out"@) {
        "Timed out while connecting to the SSH server."@
    } else if has_infix(l, "network is unreachable"@) || has_infix(l, "no route to host"@) {
        "The SSH server could not be reached from this machine."@
    } else {
        "Unable to connect to the SSH server."@
    }
}

/// The message for a failed connection, from the error's text.
pub fn friendly_connect_error(message: &str) -> (r: String)
    ensures
        r@ == connect_error_text(message@),
{
    let lowered = to_lowercase(message);
    let l = lowered.as_str();
    if contains_text(l, "dns") || contains_text(l, "name or service not known") || contains_text(l, "failed to lookup") {
        return owned("Could not resolve that host name.");
    }
    if contains_text(l, "connection refused") {
        return owned("The SSH server refused the connection.");
    }
    if contains_text(l, "timed out") {
        return owned("Timed out while connecting to the SSH server.");
    }
    if contains_text(l, "network is unreachable") || contains_text(l, "no route to host") {
        return owned("The SSH server could not be reached from this machine.");
    }
    owned("Unable to connect to the SSH server.")
}

/// The message for a failed authentication with `auth`, from the error's text.
pub open spec fn auth_error_text(auth: ConnectAuth, message: Seq<char>) -> Seq<char> {
    let l = lower_text(message);
    match auth {
        ConnectAuth::Password { .. } =>
            if has_infix(l, "auth"@) || has_infix(l, "password"@) {
                "SSH password authentication was rejected. Check the username and password."@
            } else {
                "SSH authentication failed."@
            },
        ConnectAuth::Key { private_key_path, .. } =>
            if has_infix(l, "decrypt"@) || has_infix(l, "passphrase"@) {
                "The SSH key could not be unlocked. Check the key passphrase."@
            } else if has_infix(l, "no such file"@) {
                "SSH key file not found: "@ + private_key_path@
            } else if has_infix(l, "permission denied"@) {
                "The SSH key file could not be read: "@ + private_key_path@
            } else if has_infix(l, "auth"@) || has_infix(l, "publickey"@) {
                "SSH key authentication was rejected. Check the username and private key."@
            } else {
                "SSH authentication failed."@
            },
    }
}

/// The message for a failed authentication with `auth`, from the error's text.
pub fn friendly_auth_error(auth: &ConnectAuth, message: &str) -> (r: String)
    ensures
        r@ == auth_error_text(*auth, message@),
{
    let lowered = to_lowercase(message);
    let l = lowered.as_str();
    match auth {
        ConnectAuth::Password { .. } => {
            if contains_text(l, "auth") || contains_text(l, "password") {
                return owned("SSH password authentication was rejected. Check the username and password.");
            }
        }
        ConnectAuth::Key { private_key_path, .. } => {
            if contains_text(l, "decrypt") || contains_text(l, "passphrase") {
                return owned("The SSH key could not be unlocked. Check the key passphrase.");
            }
            if contains_text(l, "no such file") {
                return prefixed("SSH key file not found: ", private_key_path.as_str());
            }
            if contains_text(l, "permission denied") {
                return prefixed("The SSH key file could not be read: ", private_key_path.as_str());
            }
            if contains_text(l, "auth") || contains_text(l, "publickey") {
                return owned("SSH key authentication was rejected. Check the username and private key.");
            }
        }
    }
    owned("SSH authentication failed.")
}

/// The error raised when the server turns down the credentials of `request`.
pub open spec fn auth_rejected_text(request: ConnectRequest) -> Seq<char> {
    let who = request.username@ + "@"@ + request.host@;
    match request.auth {
        ConnectAuth::Password { .. } => "SSH authentication failed for "@ + who,
        ConnectAuth::Key { .. } => "SSH key authentication failed for "@ + who,
    }
}

/// The error raised when the server turns down the credentials of `request`.
pub fn auth_rejected(request: &ConnectRequest) -> (r: String)
    ensures
        r@ == auth_rejected_text(*request),
{
    let mut r = match request.auth {
        ConnectAuth::Password { .. } => owned("SSH authentication failed for "),
        ConnectAuth::Key { .. } => owned("SSH key authentication failed for "),
    };
    push_str(&mut r, request.username.as_str());
    push_str(&mut r, "@");
    push_str(&mut r, request.host.as_str());
    r
}

} // verus!
