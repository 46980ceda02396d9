use warp::transfer::enqueue::PlannedChild;
use warp::transfer::walk::{plan_directory_step, remote_listed_entry, walk_roots, walk_sequence, ListedEntry};
use warp::transfer::{PlannedItemKind, TransferChildTask, TransferDirection};

fn listed(name: &str, is_dir: bool, size: Option<u64>) -> ListedEntry {
    ListedEntry { name: name.to_string(), is_dir, size }
}

#[test]
fn walk_takes_names_in_descending_order() {
    let listing = vec![listed("b", false, None), listed("a", false, None), listed("c", true, None), listed("a", true, None)];
    // descending names; of the two "a" the later one first
    assert_eq!(walk_sequence(&listing), vec![2, 0, 3, 1]);
}

#[test]
fn download_step_plans_one_item_per_entry_and_queues_folders() {
    let listing = vec![listed("notes.txt", false, Some(12)), listed("assets", true, Some(4096)), listed("zeta", false, None)];
    let mut children: Vec<PlannedChild> = Vec::new();
    let mut pending: Vec<(String, String)> = Vec::new();
    let result = plan_directory_step(TransferDirection::Download, "/srv/site", "/home/me/site", &listing, &mut children, &mut pending);
    assert!(result.is_ok());
    let names: Vec<&str> = children.iter().map(|c| c.display_name.as_str()).collect();
    assert_eq!(names, vec!["zeta", "notes.txt", "assets"]);
    assert_eq!(children[1].source_path, "/srv/site/notes.txt");
    assert_eq!(children[1].destination_path, "/home/me/site/notes.txt");
    assert_eq!(children[1].bytes_total, Some(12));
    assert!(children[1].item_kind == PlannedItemKind::File);
    assert!(children[2].item_kind == PlannedItemKind::Directory);
    assert_eq!(children[2].bytes_total, Some(0));
    match &children[2].task {
        TransferChildTask::CreateLocalDir { local_path } => assert_eq!(local_path, "/home/me/site/assets"),
        _ => panic!("expected a local folder"),
    }
    assert_eq!(pending, vec![("/srv/site/assets".to_string(), "/home/me/site/assets".to_string())]);
}

#[test]
fn download_step_refuses_a_name_with_a_slash() {
    let listing = vec![listed("ok", false, None), listed("bad/name", false, None)];
    let mut children: Vec<PlannedChild> = Vec::new();
    let mut pending: Vec<(String, String)> = vec![("/x".to_string(), "/y".to_string())];
    let result = plan_directory_step(TransferDirection::Download, "/r", "/l", &listing, &mut children, &mut pending);
    assert_eq!(result, Err("invalid target name".to_string()));
    assert!(children.is_empty());
    assert_eq!(pending.len(), 1);
}

#[test]
fn upload_step_joins_remote_destinations_and_keeps_earlier_items() {
    let root = walk_roots(&warp::transfer::plan::planned_remote_dir("photos".to_string(), "/home/me/photos".to_string(), "/srv/photos".to_string()));
    assert_eq!(root, vec![("/home/me/photos".to_string(), "/srv/photos".to_string())]);
    let listing = vec![listed("2024", true, None), listed("cover.jpg", false, Some(500))];
    let mut children: Vec<PlannedChild> = Vec::new();
    let mut pending: Vec<(String, String)> = Vec::new();
    plan_directory_step(TransferDirection::Upload, "/home/me/photos", "/srv/photos", &listing, &mut children, &mut pending).unwrap();
    assert_eq!(children.len(), 2);
    assert_eq!(children[0].display_name, "cover.jpg");
    match &children[0].task {
        TransferChildTask::UploadFile { local_path, remote_path } => {
            assert_eq!(local_path, "/home/me/photos/cover.jpg");
            assert_eq!(remote_path, "/srv/photos/cover.jpg");
        }
        _ => panic!("expected an upload"),
    }
    assert_eq!(pending, vec![("/home/me/photos/2024".to_string(), "/srv/photos/2024".to_string())]);
    let file_root = walk_roots(&children[0]);
    assert!(file_root.is_empty());
}

#[test]
fn remote_listed_entry_reads_the_folder_bits() {
    assert!(remote_listed_entry("d".to_string(), Some(0o040755), None).is_dir);
    assert!(!remote_listed_entry("f".to_string(), Some(0o100644), Some(3)).is_dir);
    assert!(!remote_listed_entry("l".to_string(), Some(0o120777), None).is_dir);
    assert!(!remote_listed_entry("n".to_string(), None, None).is_dir);
}
