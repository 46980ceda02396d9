//! The remote pane: rows built from the attributes an SFTP server reports, read
//! through `russh_sftp`'s own accessors.
use vstd::prelude::*;
use russh_sftp::protocol::{FileAttributes, FileType};
use crate::listing::{sort_rows, sorted_rows};
use crate::local_fs::mode_char;
use crate::models::{FileEntry, PaneSnapshot};
use crate::remote_path::{join_remote_path, joined, RemoteSftpEngine};
use crate::text::{owned, push_char, push_str, same_text};

verus! {

/// What an SFTP server reports of one directory entry.
pub struct RemoteEntryFacts {
    pub name: String,
    pub size: Option<u64>,
    pub permissions: Option<u32>,
    pub mtime: Option<u32>,
}

/// The type of a remote entry, as `russh_sftp::protocol::FileType` tells them apart.
pub enum RemoteKind {
    Dir,
    File,
    Symlink,
    Other,
}

/// The mode bits of optional permissions, none counting as zero.
pub open spec fn mode_bits(permissions: Option<u32>) -> u32 {
    match permissions {
        Some(p) => p,
        None => 0,
    }
}

/// The file type of a mode: the type bits (`0xF000`) equal to those of a folder,
/// a link or a regular file, or anything else.
pub open spec fn mode_kind(permissions: Option<u32>) -> RemoteKind {
    let t = mode_bits(permissions) & 0xF000u32;
    if t == 0x4000u32 {
        RemoteKind::Dir
    } else if t == 0xA000u32 {
        RemoteKind::Symlink
    } else if t == 0x8000u32 {
        RemoteKind::File
    } else {
        RemoteKind::Other
    }
}

/// Attributes with the given permissions and nothing else.
pub open spec fn holds_type_bits(permissions: Option<u32>, bits: u32) -> bool {
    match permissions {
        Some(p) => p & bits == bits,
        None => false,
    }
}

/// Calls `FileAttributes::file_type` on attributes holding `permissions`: the
/// type bits are cut to the known ones and compared with those of a folder, a
/// link and a regular file.
#[verifier::external_body]
pub(crate) fn file_type_of(permissions: Option<u32>) -> (r: RemoteKind)
    ensures
        r == mode_kind(permissions),
{
    let attrs = FileAttributes { permissions, ..Default::default() };
    match attrs.file_type() {
        FileType::Dir => RemoteKind::Dir,
        FileType::File => RemoteKind::File,
        FileType::Symlink => RemoteKind::Symlink,
        FileType::Other => RemoteKind::Other,
    }
}

/// Calls `FileAttributes::is_dir`: permissions are present and hold the folder bit.
#[verifier::external_body]
fn attrs_is_dir(permissions: Option<u32>) -> (r: bool)
    ensures
        r == holds_type_bits(permissions, 0x4000u32),
{
    FileAttributes { permissions, ..Default::default() }.is_dir()
}

/// Calls `FileAttributes::is_symlink`: permissions are present and hold both bits
/// of the link type.
#[verifier::external_body]
fn attrs_is_symlink(permissions: Option<u32>) -> (r: bool)
    ensures
        r == holds_type_bits(permissions, 0xA000u32),
{
    FileAttributes { permissions, ..Default::default() }.is_symlink()
}

/// The nine `rwx` marks of a mode, owner first.
pub open spec fn rwx_text(mode: u32) -> Seq<char> {
    seq![
        mode_char(mode, 0o400, 'r'),
        mode_char(mode, 0o200, 'w'),
        mode_char(mode, 0o100, 'x'),
        mode_char(mode, 0o040, 'r'),
        mode_char(mode, 0o020, 'w'),
        mode_char(mode, 0o010, 'x'),
        mode_char(mode, 0o004, 'r'),
        mode_char(mode, 0o002, 'w'),
        mode_char(mode, 0o001, 'x'),
    ]
}

/// Formats `FileAttributes::permissions` with its `Display` impl: an `r`, `w` or
/// `x` for each permission bit that is set and `-` for each that is not.
#[verifier::external_body]
fn permission_text(permissions: Option<u32>) -> (r: String)
    ensures
        r@ == rwx_text(mode_bits(permissions)),
{
    format!("{}", FileAttributes { permissions, ..Default::default() }.permissions())
}

/// The ten-character permission text shown for a remote entry.
pub open spec fn remote_permissions(permissions: Option<u32>) -> Seq<char> {
    seq![
        if holds_type_bits(permissions, 0x4000u32) {
            'd'
        } else if holds_type_bits(permissions, 0xA000u32) {
            'l'
        } else {
            '-'
        }
    ] + rwx_text(mode_bits(permissions))
}

/// Modification time in milliseconds from a time in seconds.
pub open spec fn millis(mtime: Option<u32>) -> Option<i64> {
    match mtime {
        Some(v) => Some((v * 1000) as i64),
        None => None,
    }
}

/// `e` is the row shown for the entry `f` of the remote directory `parent`.
pub open spec fn is_remote_row(parent: Seq<char>, f: RemoteEntryFacts, e: FileEntry) -> bool {
    &&& e.path@ == joined(parent, f.name@)
    &&& e.name@ == f.name@
    &&& e.modified_unix_ms == millis(f.mtime)
    &&& e.permissions@ == remote_permissions(f.permissions)
    &&& match mode_kind(f.permissions) {
        RemoteKind::Dir => e.kind@ == "dir"@ && e.size_bytes is None,
        RemoteKind::Symlink => e.kind@ == "symlink"@ && e.size_bytes is None,
        _ => e.kind@ == "file"@ && e.size_bytes == f.size,
    }
}

/// The permission text of a remote entry.
fn format_permissions(permissions: Option<u32>) -> (r: String)
    ensures
        r@ == remote_permissions(permissions),
{
    let mut r = String::new();
    let kind = if attrs_is_dir(permissions) {
        'd'
    } else if attrs_is_symlink(permissions) {
        'l'
    } else {
        '-'
    };
    push_char(&mut r, kind);
    let marks = permission_text(permissions);
    push_str(&mut r, marks.as_str());
    assert(r@ =~= remote_permissions(permissions));
    r
}

/// The row for the entry `f` of the remote directory `parent`.
pub fn map_entry(parent: &str, f: &RemoteEntryFacts) -> (e: FileEntry)
    ensures
        is_remote_row(parent@, *f, e),
{
    let path = join_remote_path(parent, f.name.as_str());
    let modified_unix_ms = match f.mtime {
        Some(v) => Some((v as i64) * 1000),
        None => None,
    };
    let permissions = format_permissions(f.permissions);
    match file_type_of(f.permissions) {
        RemoteKind::Dir => FileEntry::dir(path.as_str(), f.name.as_str(), modified_unix_ms, permissions.as_str()),
        RemoteKind::Symlink => FileEntry::symlink(path.as_str(), f.name.as_str(), modified_unix_ms, permissions.as_str()),
        _ => FileEntry::file(path.as_str(), f.name.as_str(), f.size, modified_unix_ms, permissions.as_str()),
    }
}

/// `p` is the remote pane for the directory read at `operation_path`, shown at
/// `location`: rows sorted stably by group and case-folded name.
pub open spec fn is_remote_pane(operation_path: Seq<char>, location: Seq<char>, facts: Seq<RemoteEntryFacts>, p: PaneSnapshot) -> bool {
    &&& p.id@ == "remote"@
    &&& p.title@ == "Remote"@
    &&& p.location@ == location
    &&& p.item_count == p.entries.len()
    &&& p.can_go_up == (location != "/"@)
    &&& p.empty_message matches Some(m) && m@ == "Remote directory is empty."@
    &&& exists|rows: Seq<FileEntry>|
        rows.len() == facts.len()
            && (forall|i: int| 0 <= i < rows.len() ==> is_remote_row(operation_path, facts[i], #[trigger] rows[i]))
            && #[trigger] sorted_rows(rows, p.entries@, false)
}

impl RemoteSftpEngine {
    /// The pane for the directory read at `operation_path`: shown at the server's
    /// canonical form of the path where it gave one, else at `operation_path`.
    pub fn list_directory(operation_path: &str, canonical: Option<String>, facts: &Vec<RemoteEntryFacts>) -> (p: PaneSnapshot)
        ensures
            is_remote_pane(
                operation_path@,
                match canonical { Some(c) => c@, None => operation_path@ },
                facts@,
                p,
            ),
    {
        let mut rows: Vec<FileEntry> = Vec::new();
        let mut i: usize = 0;
        while i < facts.len()
            invariant
                i <= facts.len(),
                rows.len() == i,
                forall|j: int| 0 <= j < i ==> is_remote_row(operation_path@, facts@[j], #[trigger] rows@[j]),
            decreases facts.len() - i,
        {
            rows.push(map_entry(operation_path, &facts[i]));
            i += 1;
        }
        let entries = sort_rows(&rows, false);
        let location = match canonical {
            Some(c) => c,
            None => owned(operation_path),
        };
        let can_go_up = !same_text(location.as_str(), "/");
        let p = PaneSnapshot {
            id: owned("remote"),
            title: owned("Remote"),
            location,
            item_count: entries.len(),
            can_go_up,
            entries,
            empty_message: Some(owned("Remote directory is empty.")),
        };
        assert(sorted_rows(rows@, p.entries@, false));
        p
    }
}

} // verus!
