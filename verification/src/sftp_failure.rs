//! SFTP client failures as plain values, and their texts.
use vstd::prelude::*;
use crate::text::{owned, push_str};

verus! {

/// The status codes of an SFTP status reply.
#[derive(Clone, Copy, PartialEq, Eq, Structural)]
pub enum SftpStatusCode {
    Success,
    Eof,
    NoSuchFile,
    PermissionDenied,
    Failure,
    BadMessage,
    NoConnection,
    ConnectionLost,
    OpUnsupported,
}

/// A failed SFTP client request: the cases of `russh_sftp::client::error::Error`.
pub enum SftpFailure {
    /// The server answered with an error status and message.
    Status { code: SftpStatusCode, message: String },
    /// An I/O error, as text.
    Io(String),
    /// No answer in time.
    Timeout,
    /// A limit of the server was exceeded.
    Limited(String),
    /// The server sent a packet of the wrong kind.
    UnexpectedPacket,
    /// The server did not follow the protocol.
    UnexpectedBehavior(String),
}

/// The display name of a status code, as `russh_sftp` writes it.
pub open spec fn status_name(code: SftpStatusCode) -> Seq<char> {
    match code {
        SftpStatusCode::Success => "Ok"@,
        SftpStatusCode::Eof => "Eof"@,
        SftpStatusCode::NoSuchFile => "No such file"@,
        SftpStatusCode::PermissionDenied => "Permission denied"@,
        SftpStatusCode::Failure => "Failure"@,
        SftpStatusCode::BadMessage => "Bad message"@,
        SftpStatusCode::NoConnection => "No connection"@,
        SftpStatusCode::ConnectionLost => "Connection lost"@,
        SftpStatusCode::OpUnsupported => "Operation unsupported"@,
    }
}

/// Calls `Display` of `russh_sftp::protocol::StatusCode`, whose texts the crate
/// declares with `#[error(..)]` on each variant: "Ok", "Eof", "No such file",
/// "Permission denied", "Failure", "Bad message", "No connection",
/// "Connection lost" and "Operation unsupported".
#[verifier::external_body]
pub(crate) fn status_code_text(code: SftpStatusCode) -> (r: String)
    ensures
        r@ == status_name(code),
{
    let c = match code {
        SftpStatusCode::Success => russh_sftp::protocol::StatusCode::Ok,
        SftpStatusCode::Eof => russh_sftp::protocol::StatusCode::Eof,
        SftpStatusCode::NoSuchFile => russh_sftp::protocol::StatusCode::NoSuchFile,
        SftpStatusCode::PermissionDenied => russh_sftp::protocol::StatusCode::PermissionDenied,
        SftpStatusCode::Failure => russh_sftp::protocol::StatusCode::Failure,
        SftpStatusCode::BadMessage => russh_sftp::protocol::StatusCode::BadMessage,
        SftpStatusCode::NoConnection => russh_sftp::protocol::StatusCode::NoConnection,
        SftpStatusCode::ConnectionLost => russh_sftp::protocol::StatusCode::ConnectionLost,
        SftpStatusCode::OpUnsupported => russh_sftp::protocol::StatusCode::OpUnsupported,
    };
    c.to_string()
}

/// The display text of a failure, as `russh_sftp` writes its error.
pub open spec fn failure_text(e: SftpFailure) -> Seq<char> {
    match e {
        SftpFailure::Status { code, message } => status_name(code) + ": "@ + message@,
        SftpFailure::Io(m) => "I/O: "@ + m@,
        SftpFailure::Timeout => "Timeout"@,
        SftpFailure::Limited(m) => "Limit exceeded: "@ + m@,
        SftpFailure::UnexpectedPacket => "Unexpected packet"@,
        SftpFailure::UnexpectedBehavior(m) => m@,
    }
}

impl SftpFailure {
    /// The display text of this failure.
    pub fn to_text(&self) -> (r: String)
        ensures
            r@ == failure_text(*self),
    {
        match self {
            SftpFailure::Status { code, message } => {
                let mut r = status_code_text(*code);
                push_str(&mut r, ": ");
                push_str(&mut r, message.as_str());
                r
            }
            SftpFailure::Io(m) => {
                let mut r = owned("I/O: ");
                push_str(&mut r, m.as_str());
                r
            }
            SftpFailure::Timeout => owned("Timeout"),
            SftpFailure::Limited(m) => {
                let mut r = owned("Limit exceeded: ");
                push_str(&mut r, m.as_str());
                r
            }
            SftpFailure::UnexpectedPacket => owned("Unexpected packet"),
            SftpFailure::UnexpectedBehavior(m) => m.clone(),
        }
    }
}

} // verus!
