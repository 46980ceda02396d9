use warp::listing::{kind_rank, sort_key, sort_rows, text_precedes};
use warp::local_fs::{permissions_string, LocalDirectory, LocalEntryFacts, LocalFilesystem};
use warp::models::FileEntry;
use warp::remote_listing::{map_entry, RemoteEntryFacts};
use warp::remote_path::{
    child_path, friendly_path_error, join_remote_path, normalize_remote_path, operation_path, require_directory,
    validate_entry_name, RemoteSftpEngine,
};

#[test]
fn parent_path_handles_root_and_nested_directories() {
    assert_eq!(RemoteSftpEngine::parent_path("/"), None);
    assert_eq!(RemoteSftpEngine::parent_path("/srv"), Some("/".into()));
    assert_eq!(RemoteSftpEngine::parent_path("/srv/www/releases"), Some("/srv/www".into()));
}

#[test]
fn parent_of_a_child_is_the_directory() {
    for dir in ["/", "/srv", "/srv/www", "/a/b/c/d"] {
        let child = join_remote_path(dir, "entry");
        assert_eq!(RemoteSftpEngine::parent_path(&child), Some(dir.to_string()), "{child}");
    }
}

#[test]
fn normalises_remote_paths() {
    assert_eq!(normalize_remote_path("  "), "/");
    assert_eq!(normalize_remote_path("/"), "/");
    assert_eq!(normalize_remote_path(" srv/www/ "), "/srv/www");
    assert_eq!(normalize_remote_path("//srv//"), "/srv");
    assert_eq!(normalize_remote_path(&normalize_remote_path(" a/b/ ")), normalize_remote_path(" a/b/ "));
    assert_eq!(RemoteSftpEngine::parent_path("srv/www/"), Some("/srv".into()));
    assert_eq!(join_remote_path("/srv/", "x"), "/srv/x");
}

#[test]
fn operation_paths_default_to_the_current_directory() {
    assert_eq!(operation_path("   "), ".");
    assert_eq!(operation_path(" /srv "), "/srv");
    assert_eq!(friendly_path_error("open", "/x"), "Unable to open remote path `/x`.");
    assert_eq!(friendly_path_error("list", "/x"), "Unable to list remote directory `/x`.");
}

#[test]
fn entry_names_are_checked() {
    assert_eq!(validate_entry_name("notes.txt"), Ok("notes.txt".to_string()));
    assert_eq!(validate_entry_name("   "), Err("invalid target name".to_string()));
    assert_eq!(validate_entry_name("a/b"), Err("invalid target name".to_string()));
    assert_eq!(validate_entry_name("a\0b"), Err("invalid target name".to_string()));
    assert_eq!(child_path("/srv", "a"), Ok("/srv/a".to_string()));
    assert_eq!(child_path("/", "a"), Ok("/a".to_string()));
    assert_eq!(require_directory("dir"), Ok(()));
    assert_eq!(require_directory("file"), Err("remote entry is not a directory".to_string()));
}

#[test]
fn placeholder_pane_invites_a_connection() {
    let p = RemoteSftpEngine::placeholder();
    assert_eq!(p.id, "remote");
    assert_eq!(p.location, "Not connected");
    assert_eq!(p.item_count, 0);
    assert!(!p.can_go_up);
    assert_eq!(p.empty_message, Some("Connect to a host to browse remote files.".to_string()));
}

fn remote(name: &str, permissions: Option<u32>, size: Option<u64>) -> RemoteEntryFacts {
    RemoteEntryFacts { name: name.into(), size, permissions, mtime: Some(1_700_000_000) }
}

#[test]
fn maps_remote_entries_by_mode() {
    let d = map_entry("/srv", &remote("docs", Some(0o40755), Some(4096)));
    assert_eq!(d.path, "/srv/docs");
    assert_eq!(d.kind, "dir");
    assert_eq!(d.size_bytes, None);
    assert_eq!(d.modified_unix_ms, Some(1_700_000_000_000));
    assert_eq!(d.permissions, "drwxr-xr-x");

    let l = map_entry("/", &remote("current", Some(0o120777), Some(7)));
    assert_eq!(l.path, "/current");
    assert_eq!(l.kind, "symlink");
    assert_eq!(l.permissions, "lrwxrwxrwx");

    let f = map_entry("/srv/", &remote("a.txt", Some(0o100640), Some(12)));
    assert_eq!(f.path, "/srv/a.txt");
    assert_eq!(f.kind, "file");
    assert_eq!(f.size_bytes, Some(12));
    assert_eq!(f.permissions, "-rw-r-----");

    let unknown = map_entry("/srv", &RemoteEntryFacts { name: "x".into(), size: None, permissions: None, mtime: None });
    assert_eq!(unknown.kind, "file");
    assert_eq!(unknown.permissions, "----------");
    assert_eq!(unknown.modified_unix_ms, None);

    let socket = map_entry("/srv", &remote("sock", Some(0o140755), None));
    assert_eq!(socket.kind, "file");
    assert_eq!(socket.permissions, "drwxr-xr-x");
}

fn names(entries: &[FileEntry]) -> Vec<&str> {
    entries.iter().map(|e| e.name.as_str()).collect()
}

#[test]
fn remote_listing_sorts_folders_first_and_keeps_ties() {
    let facts = vec![
        remote("b.txt", Some(0o100644), Some(1)),
        remote("Zeta", Some(0o40755), None),
        remote("a.txt", Some(0o100644), Some(2)),
        remote("link", Some(0o120777), None),
        remote("B.txt", Some(0o100644), Some(3)),
        remote("alpha", Some(0o40755), None),
    ];
    let pane = RemoteSftpEngine::list_directory("/srv", Some("/srv".to_string()), &facts);
    assert_eq!(names(&pane.entries), vec!["alpha", "Zeta", "link", "a.txt", "b.txt", "B.txt"]);
    assert_eq!(pane.id, "remote");
    assert_eq!(pane.title, "Remote");
    assert_eq!(pane.location, "/srv");
    assert_eq!(pane.item_count, 6);
    assert!(pane.can_go_up);
    assert_eq!(pane.empty_message, Some("Remote directory is empty.".to_string()));

    let root = RemoteSftpEngine::list_directory(".", Some("/".to_string()), &Vec::new());
    assert!(!root.can_go_up);
    assert_eq!(root.item_count, 0);
    let fallback = RemoteSftpEngine::list_directory("/data", None, &Vec::new());
    assert_eq!(fallback.location, "/data");
}

#[test]
fn ranks_and_orders_text() {
    assert_eq!(kind_rank("dir"), 0);
    assert_eq!(kind_rank("symlink"), 1);
    assert_eq!(kind_rank("file"), 2);
    assert!(text_precedes("B", "a"));
    assert!(text_precedes("ab", "abc"));
    assert!(!text_precedes("abc", "abc"));
    assert!(text_precedes("é", "ê"));
    let e = FileEntry::file("/x/Report.PDF", "Report.PDF", None, None, "-");
    assert_eq!(sort_key(&e), (2, "report.pdf".to_string()));
    let sorted = sort_rows(&vec![e.duplicate(), FileEntry::dir("/x/a", "a", None, "d")], true);
    assert_eq!(names(&sorted), vec!["a", "Report.PDF"]);
}

fn local(name: &str, is_dir: bool, is_symlink: bool, mode: u32, len: u64) -> LocalEntryFacts {
    LocalEntryFacts {
        path: format!("/home/u/{name}"),
        name: name.into(),
        is_dir,
        is_symlink,
        mode,
        len,
        modified_unix_ms: Some(5),
    }
}

#[test]
fn local_permissions_read_the_mode() {
    assert_eq!(permissions_string(0o755, true, false), "drwxr-xr-x");
    assert_eq!(permissions_string(0o644, false, false), "-rw-r--r--");
    assert_eq!(permissions_string(0o777, false, true), "lrwxrwxrwx");
    assert_eq!(permissions_string(0o100600, false, false), "-rw-------");
}

#[test]
fn local_listing_breaks_ties_by_name() {
    let fs = LocalFilesystem::new();
    let dir = LocalDirectory {
        location: "/home/u".into(),
        entries: vec![
            local("b.txt", false, false, 0o644, 10),
            local("B.txt", false, false, 0o644, 11),
            local("Music", true, false, 0o755, 4096),
            local("latest", false, true, 0o777, 3),
        ],
    };
    let pane = fs.list_directory(dir);
    assert_eq!(names(&pane.entries), vec!["Music", "latest", "B.txt", "b.txt"]);
    assert_eq!(pane.id, "local");
    assert_eq!(pane.title, "Local");
    assert_eq!(pane.location, "/home/u");
    assert_eq!(pane.item_count, 4);
    assert!(pane.can_go_up);
    assert_eq!(pane.empty_message, Some("Local directory is empty.".to_string()));
    assert_eq!(pane.entries[0].size_bytes, None);
    assert_eq!(pane.entries[0].permissions, "drwxr-xr-x");
    assert_eq!(pane.entries[2].size_bytes, Some(11));
    assert_eq!(pane.entries[2].path, "/home/u/B.txt");

    let root = fs.list_directory(LocalDirectory { location: "/".into(), entries: Vec::new() });
    assert!(!root.can_go_up);
}

#[test]
fn local_navigation_paths() {
    let fs = LocalFilesystem::new();
    assert_eq!(fs.requested_directory(&Some("  ".to_string())), None);
    assert_eq!(fs.requested_directory(&None), None);
    assert_eq!(fs.requested_directory(&Some("/tmp".to_string())), Some("/tmp".to_string()));
    assert_eq!(fs.open_directory("/home/u", "Music"), "/home/u/Music");
    assert_eq!(fs.go_up_directory("/home/u"), "/home");
    assert_eq!(fs.go_up_directory("/"), "/");
    assert_eq!(fs.delete_entry("/home/u", "a"), "/home/u/a");
    assert_eq!(
        fs.delete_entries("/home/u", &vec!["a".to_string(), "b".to_string()]),
        vec!["/home/u/a".to_string(), "/home/u/b".to_string()]
    );
}

#[test]
fn local_rename_is_checked_in_order() {
    let fs = LocalFilesystem::new();
    assert_eq!(
        fs.rename_entry("/home/u", "a.txt", "b.txt", true, false),
        Ok(("/home/u/a.txt".to_string(), "/home/u/b.txt".to_string()))
    );
    assert_eq!(
        fs.rename_entry("/home/u", "a.txt", "x/y", false, false),
        Err("/home/u/a.txt does not exist".to_string())
    );
    assert_eq!(fs.rename_entry("/home/u", "a.txt", "x/y", true, false), Err("invalid target name".to_string()));
    assert_eq!(fs.rename_entry("/home/u", "a.txt", " ", true, false), Err("invalid target name".to_string()));
    assert_eq!(
        fs.rename_entry("/home/u", "a.txt", "b.txt", true, true),
        Err("/home/u/b.txt already exists".to_string())
    );
}
