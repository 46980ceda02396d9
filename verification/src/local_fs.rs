//! The local pane: rows built from what the file system reports, and the paths
//! that local navigation, renaming and deletion act on.
use vstd::prelude::*;
use crate::listing::{sort_rows, sorted_rows};
use crate::local_path::{join_path, parent_of_path, path_joined, path_parent};
use crate::models::{FileEntry, PaneSnapshot};
use crate::remote_path::{valid_entry_name, validate_entry_name};
use crate::text::{owned, push_char, push_str, trim, trimmed};

verus! {

/// The local file system, as the panes see it.
pub struct LocalFilesystem;

/// What the file system reports of one directory entry.
pub struct LocalEntryFacts {
    pub path: String,
    pub name: String,
    pub is_dir: bool,
    pub is_symlink: bool,
    pub mode: u32,
    pub len: u64,
    pub modified_unix_ms: Option<i64>,
}

/// A directory as read from disk: its canonical location and its entries.
pub struct LocalDirectory {
    pub location: String,
    pub entries: Vec<LocalEntryFacts>,
}

/// `mark` where `mode` has the bit `flag`, else `-`.
pub open spec fn mode_char(mode: u32, flag: u32, mark: char) -> char {
    if mode & flag != 0 {
        mark
    } else {
        '-'
    }
}

/// The ten-character `ls -l` style permission text of an entry.
pub open spec fn local_permissions(mode: u32, is_dir: bool, is_symlink: bool) -> Seq<char> {
    seq![
        if is_dir { 'd' } else if is_symlink { 'l' } else { '-' },
        mode_char(mode, 0o400, 'r'),
        mode_char(mode, 0o200, 'w'),
        mode_char(mode, 0o100, 'x'),
        mode_char(mode, 0o040, 'r'),
        mode_char(mode, 0o020, 'w'),
        mode_char(mode, 0o010, 'x'),
        mode_char(mode, 0o004, 'r'),
        mode_char(mode, 0o002, 'w'),
        mode_char(mode, 0o001, 'x'),
    ]
}

fn push_mode_char(s: &mut String, mode: u32, flag: u32, mark: char)
    ensures
        final(s)@ == old(s)@.push(mode_char(mode, flag, mark)),
{
    if mode & flag != 0 {
        push_char(s, mark);
    } else {
        push_char(s, '-');
    }
}

/// The permission text of an entry with Unix `mode`.
pub fn permissions_string(mode: u32, is_dir: bool, is_symlink: bool) -> (r: String)
    ensures
        r@ == local_permissions(mode, is_dir, is_symlink),
{
    let mut r = String::new();
    push_char(&mut r, if is_dir { 'd' } else if is_symlink { 'l' } else { '-' });
    push_mode_char(&mut r, mode, 0o400, 'r');
    push_mode_char(&mut r, mode, 0o200, 'w');
    push_mode_char(&mut r, mode, 0o100, 'x');
    push_mode_char(&mut r, mode, 0o040, 'r');
    push_mode_char(&mut r, mode, 0o020, 'w');
    push_mode_char(&mut r, mode, 0o010, 'x');
    push_mode_char(&mut r, mode, 0o004, 'r');
    push_mode_char(&mut r, mode, 0o002, 'w');
    push_mode_char(&mut r, mode, 0o001, 'x');
    assert(r@ =~= local_permissions(mode, is_dir, is_symlink));
    r
}

/// `e` is the row shown for the entry `f`: folders and links carry no size.
pub open spec fn is_local_row(f: LocalEntryFacts, e: FileEntry) -> bool {
    &&& e.path@ == f.path@
    &&& e.name@ == f.name@
    &&& e.modified_unix_ms == f.modified_unix_ms
    &&& e.permissions@ == local_permissions(f.mode, f.is_dir, f.is_symlink)
    &&& if f.is_dir {
        e.kind@ == "dir"@ && e.size_bytes is None
    } else if f.is_symlink {
        e.kind@ == "symlink"@ && e.size_bytes is None
    } else {
        e.kind@ == "file"@ && e.size_bytes == Some(f.len)
    }
}

/// The row for one entry.
fn map_entry(f: &LocalEntryFacts) -> (e: FileEntry)
    ensures
        is_local_row(*f, e),
{
    let permissions = permissions_string(f.mode, f.is_dir, f.is_symlink);
    if f.is_dir {
        FileEntry::dir(f.path.as_str(), f.name.as_str(), f.modified_unix_ms, permissions.as_str())
    } else if f.is_symlink {
        FileEntry::symlink(f.path.as_str(), f.name.as_str(), f.modified_unix_ms, permissions.as_str())
    } else {
        FileEntry::file(f.path.as_str(), f.name.as_str(), Some(f.len), f.modified_unix_ms, permissions.as_str())
    }
}

/// `p` is the local pane for `dir`: one row per entry, sorted by group, then
/// case-folded name, then name.
pub open spec fn is_local_pane(dir: LocalDirectory, p: PaneSnapshot) -> bool {
    &&& p.id@ == "local"@
    &&& p.title@ == "Local"@
    &&& p.location@ == dir.location@
    &&& p.item_count == p.entries.len()
    &&& p.can_go_up == (path_parent(dir.location@) is Some)
    &&& p.empty_message matches Some(m) && m@ == "Local directory is empty."@
    &&& exists|rows: Seq<FileEntry>|
        rows.len() == dir.entries@.len()
            && (forall|i: int| 0 <= i < rows.len() ==> is_local_row(dir.entries@[i], #[trigger] rows[i]))
            && #[trigger] sorted_rows(rows, p.entries@, true)
}

/// The directory a listing starts from: the requested path when it holds more
/// than whitespace; `None` sends the listing to the home directory.
pub open spec fn requested_location(path: Option<Seq<char>>) -> Option<Seq<char>> {
    match path {
        Some(p) => if trim(p).len() > 0 { Some(p) } else { None },
        None => None,
    }
}

/// The directory reached by going up from `current`: its parent, or `current`
/// itself at the root.
pub open spec fn up_from(current: Seq<char>) -> Seq<char> {
    match path_parent(current) {
        Some(p) => p,
        None => current,
    }
}

/// Why a local rename was refused.
pub open spec fn rename_refusal(
    source: Seq<char>,
    target: Seq<char>,
    new_name: Seq<char>,
    source_exists: bool,
    target_exists: bool,
) -> Option<Seq<char>> {
    if !source_exists {
        Some(source + " does not exist"@)
    } else if !valid_entry_name(new_name) {
        Some("invalid target name"@)
    } else if target_exists {
        Some(target + " already exists"@)
    } else {
        None
    }
}

/// The text of each string of `s`.
pub open spec fn texts(s: Seq<String>) -> Seq<Seq<char>> {
    s.map_values(|x: String| x@)
}

/// The paths that deleting the entries `names` of folder `base` removes, in order.
pub open spec fn deleted_paths(base: Seq<char>, names: Seq<String>) -> Seq<Seq<char>> {
    names.map_values(|n: String| path_joined(base, n@))
}

/// Deleting one entry is deleting a list that holds only its name: the one path
/// removed is the same.
pub proof fn lemma_delete_one_is_delete_list(base: Seq<char>, name: String)
    ensures
        deleted_paths(base, seq![name]) == seq![path_joined(base, name@)],
{
    assert(deleted_paths(base, seq![name]) =~= seq![path_joined(base, name@)]);
}

impl LocalFilesystem {
    /// The local file system.
    pub fn new() -> (r: LocalFilesystem)
        ensures
            r == LocalFilesystem,
    {
        LocalFilesystem
    }

    /// The directory that a listing of `path` resolves: `None` stands for the
    /// home directory.
    pub fn requested_directory(&self, path: &Option<String>) -> (r: Option<String>)
        ensures
            match r {
                Some(s) => requested_location(match path { Some(p) => Some(p@), None => None }) == Some(s@),
                None => requested_location(match path { Some(p) => Some(p@), None => None }) is None,
            },
    {
        match path {
            Some(p) => {
                let t = trimmed(p.as_str());
                if !t.as_str().is_empty() {
                    Some(owned(p.as_str()))
                } else {
                    None
                }
            },
            None => None,
        }
    }

    /// The pane showing `dir`.
    pub fn list_directory(&self, dir: LocalDirectory) -> (p: PaneSnapshot)
        ensures
            is_local_pane(dir, p),
    {
        let mut rows: Vec<FileEntry> = Vec::new();
        let mut i: usize = 0;
        while i < dir.entries.len()
            invariant
                i <= dir.entries.len(),
                rows.len() == i,
                forall|j: int| 0 <= j < i ==> is_local_row(dir.entries@[j], #[trigger] rows@[j]),
            decreases dir.entries.len() - i,
        {
            rows.push(map_entry(&dir.entries[i]));
            i += 1;
        }
        let entries = sort_rows(&rows, true);
        let can_go_up = parent_of_path(dir.location.as_str()).is_some();
        let p = PaneSnapshot {
            id: owned("local"),
            title: owned("Local"),
            location: owned(dir.location.as_str()),
            item_count: entries.len(),
            can_go_up,
            entries,
            empty_message: Some(owned("Local directory is empty.")),
        };
        assert(sorted_rows(rows@, p.entries@, true));
        p
    }

    /// The path of the entry `entry_name` inside `base`, which opening it lists.
    pub fn open_directory(&self, base: &str, entry_name: &str) -> (r: String)
        ensures
            r@ == path_joined(base@, entry_name@),
    {
        join_path(base, entry_name)
    }

    /// The directory that going up from `current` lists.
    pub fn go_up_directory(&self, current: &str) -> (r: String)
        ensures
            r@ == up_from(current@),
    {
        match parent_of_path(current) {
            Some(p) => p,
            None => owned(current),
        }
    }

    /// Checks a rename of `entry_name` in `base` to `new_name` and gives the source
    /// and target paths; `source_exists` and `target_exists` say whether those
    /// paths exist on disk.
    pub fn rename_entry(
        &self,
        base: &str,
        entry_name: &str,
        new_name: &str,
        source_exists: bool,
        target_exists: bool,
    ) -> (r: Result<(String, String), String>)
        ensures
            ({
                let source = path_joined(base@, entry_name@);
                let target = path_joined(base@, new_name@);
                match rename_refusal(source, target, new_name@, source_exists, target_exists) {
                    Some(m) => r matches Err(e) && e@ == m,
                    None => r matches Ok(paths) && paths.0@ == source && paths.1@ == target,
                }
            }),
    {
        let source = join_path(base, entry_name);
        if !source_exists {
            let mut m = source;
            push_str(&mut m, " does not exist");
            return Err(m);
        }
        match validate_entry_name(new_name) {
            Err(e) => return Err(e),
            Ok(_) => {},
        }
        let target = join_path(base, new_name);
        if target_exists {
            let mut m = target;
            push_str(&mut m, " already exists");
            return Err(m);
        }
        Ok((source, target))
    }

    /// The path that deleting `entry_name` from `base` removes.
    pub fn delete_entry(&self, base: &str, entry_name: &str) -> (r: String)
        ensures
            r@ == path_joined(base@, entry_name@),
    {
        join_path(base, entry_name)
    }

    /// The paths that deleting `entry_names` from `base` removes, in order.
    pub fn delete_entries(&self, base: &str, entry_names: &Vec<String>) -> (r: Vec<String>)
        ensures
            r.len() == entry_names.len(),
            forall|i: int| 0 <= i < r.len() ==> #[trigger] r@[i]@ == path_joined(base@, entry_names@[i]@),
            texts(r@) == deleted_paths(base@, entry_names@),
    {
        let mut r: Vec<String> = Vec::new();
        let mut i: usize = 0;
        while i < entry_names.len()
            invariant
                i <= entry_names.len(),
                r.len() == i,
                forall|j: int| 0 <= j < i ==> #[trigger] r@[j]@ == path_joined(base@, entry_names@[j]@),
            decreases entry_names.len() - i,
        {
            r.push(self.delete_entry(base, entry_names[i].as_str()));
            i += 1;
        }
        assert(texts(r@) =~= deleted_paths(base@, entry_names@));
        r
    }
}

} // verus!
