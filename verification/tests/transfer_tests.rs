use warp::models::{TransferSelectionItem, QueueDownloadRequest, QueueUploadRequest};
use warp::remote_path::join_remote_path;
use warp::transfer::aggregate::{progress_fraction, progress_from_counts};
use warp::transfer::enqueue::enqueue_batch;
use warp::transfer::gate::{
    chain_link_step, gate_file_transfer, gate_folder_creation, linked_folder_refusal, local_inspect_failure,
    temp_local_path,
};
use warp::transfer::messages::{
    classify_transfer_remote_error, contextualize_conflict, existing_destination_conflict, map_copy_io_error,
    parent_remote_path, temp_remote_path, CopyFailure, DestinationKind,
};
use warp::transfer::plan::{
    assemble_plan, batch_display_name, batch_source_label, check_download_request, check_upload_request,
    planned_download_entry, planned_upload_entry, remote_directory_chain,
};
use warp::transfer::queue::next_runnable_child;
use warp::transfer::rate::format_rate;
use warp::transfer::state::{
    cancel_batch_by_id, clear_completed, pause_batches_for_disconnect, retry_batch_by_id, snapshot_from_state,
};
use warp::transfer::worker::{
    claim_next_job, finish_job, is_session_loss_message, mark_running, resolve_conflict, update_progress,
    TransferRunOutcome,
};
use warp::transfer::{JobState, TransferDirection, TransferState};
use warp::sftp_failure::{SftpFailure, SftpStatusCode};

#[test]
fn joins_remote_paths_without_double_slashes() {
    assert_eq!(join_remote_path("/", "file.txt"), "/file.txt");
    assert_eq!(join_remote_path("/srv/www", "file.txt"), "/srv/www/file.txt");
}

#[test]
fn formats_transfer_rates() {
    assert_eq!(format_rate(900), "900 B/s");
    assert_eq!(format_rate(2048), "2.0 KB/s");
}

#[test]
fn reports_progress_for_zero_byte_items() {
    assert_eq!(progress_fraction(0, Some(0)), 100);
}

#[test]
fn labels_multi_entry_batches() {
    let entries = vec![
        TransferSelectionItem {
            path: "/tmp/a".into(),
            name: "a".into(),
            kind: "file".into(),
        },
        TransferSelectionItem {
            path: "/tmp/b".into(),
            name: "b".into(),
            kind: "file".into(),
        },
    ];
    assert_eq!(batch_display_name(&entries), "2 items");
}

/// The rate text computed with the standard library's float formatting.
fn float_rate(bytes_per_second: u64) -> String {
    if bytes_per_second < 1024 {
        return format!("{} B/s", bytes_per_second);
    }
    let units = ["KB/s", "MB/s", "GB/s", "TB/s"];
    let mut value = bytes_per_second as f64 / 1024.0;
    let mut unit = units[0];
    for next in units.iter().skip(1) {
        if value < 1024.0 {
            break;
        }
        value /= 1024.0;
        unit = next;
    }
    if value < 10.0 {
        format!("{value:.1} {unit}")
    } else {
        format!("{value:.0} {unit}")
    }
}

#[test]
fn rate_text_matches_float_formatting() {
    let mut samples: Vec<u64> = vec![
        0, 1, 1023, 1024, 1075, 1076, 1280, 1331, 1332, 2047, 2048, 5120, 10188, 10189, 10239, 10240, 10752,
        11264, 11776, 12800, 1048575, 1048576, 1572864, 10485760, 11010048, 1073741823, 1073741824,
        1099511627775, 1099511627776, 1125899906842623, 1125899906842624, u64::MAX,
    ];
    let mut x: u64 = 7;
    for _ in 0..4000 {
        x = x.wrapping_mul(6364136223846793005).wrapping_add(1442695040888963407);
        samples.push(x >> (x % 60));
    }
    for k in 0..2000u64 {
        samples.push(k * 512 + 1024);
        samples.push(1024 * 1024 * k + 52429 * (k % 21));
    }
    for s in samples {
        assert_eq!(format_rate(s), float_rate(s), "rate {s}");
    }
}

#[test]
fn formats_rates_in_each_unit() {
    assert_eq!(format_rate(1023), "1023 B/s");
    assert_eq!(format_rate(10240), "10 KB/s");
    assert_eq!(format_rate(1536), "1.5 KB/s");
    assert_eq!(format_rate(1048576), "1.0 MB/s");
    assert_eq!(format_rate(1073741824), "1.0 GB/s");
    assert_eq!(format_rate(1099511627776), "1.0 TB/s");
    assert_eq!(format_rate(1125899906842624), "1024 TB/s");
}

#[test]
fn progress_is_a_capped_share() {
    assert_eq!(progress_fraction(0, None), 0);
    assert_eq!(progress_fraction(5, Some(40)), 12);
    assert_eq!(progress_fraction(40, Some(40)), 100);
    assert_eq!(progress_fraction(90, Some(40)), 100);
    assert_eq!(progress_fraction(u64::MAX, Some(u64::MAX)), 1);
    assert_eq!(progress_fraction(1, Some(3)), 33);
}

fn item(path: &str, name: &str, kind: &str) -> TransferSelectionItem {
    TransferSelectionItem { path: path.into(), name: name.into(), kind: kind.into() }
}

fn empty_state() -> TransferState {
    TransferState {
        batches: Vec::new(),
        active_job_id: None,
        worker_running: false,
        next_job_id: 1,
        next_snapshot_sequence: 0,
    }
}

fn upload_two_files(state: &mut TransferState) {
    let entries = vec![item("/home/u/a.txt", "a.txt", "file"), item("/home/u/b.txt", "b.txt", "file")];
    let c1 = planned_upload_entry(&entries[0], "/srv", Some(10));
    let c2 = planned_upload_entry(&entries[1], "/srv", Some(30));
    let plan = assemble_plan(TransferDirection::Upload, "/srv".to_string(), &entries, vec![c1, c2]);
    enqueue_batch(state, plan);
}

#[test]
fn single_entry_batches_take_the_entry_name() {
    let one = vec![item("/tmp/report.pdf", "report.pdf", "file")];
    assert_eq!(batch_display_name(&one), "report.pdf");
    assert_eq!(batch_source_label(&one), "/tmp/report.pdf");
    let two = vec![item("/tmp/a", "a", "file"), item("/tmp/b", "b", "dir")];
    assert_eq!(batch_source_label(&two), "2 selected entries");
}

#[test]
fn requests_need_entries() {
    let upload = QueueUploadRequest { entries: Vec::new(), remote_directory: "/srv".into() };
    assert_eq!(check_upload_request(&upload), Err("Select one or more local entries before queuing an upload.".to_string()));
    let download = QueueDownloadRequest { entries: Vec::new(), local_directory: "/tmp".into() };
    assert_eq!(
        check_download_request(&download),
        Err("Select one or more remote entries before queuing a download.".to_string())
    );
    let download = QueueDownloadRequest { entries: vec![item("/srv/a", "a", "file")], local_directory: "/tmp".into() };
    assert_eq!(check_download_request(&download), Ok(()));
}

#[test]
fn plans_upload_and_download_items() {
    let dir = item("/home/u/photos", "photos", "dir");
    let c = planned_upload_entry(&dir, "/srv/", None);
    assert_eq!(c.destination_path, "/srv/photos");
    assert_eq!(c.bytes_total, Some(0));
    let file = item("/srv/a.txt", "a.txt", "file");
    let d = planned_download_entry(&file, "/tmp/a.txt".to_string());
    assert_eq!(d.destination_path, "/tmp/a.txt");
    assert_eq!(d.bytes_total, None);
    let plan = assemble_plan(TransferDirection::Download, "/tmp".into(), &vec![file], vec![d]);
    assert_eq!(plan.summary.total_files, 1);
    assert_eq!(plan.summary.total_directories, 0);
    assert_eq!(plan.display_name, "a.txt");
}

#[test]
fn queue_runs_items_in_order_and_summarises_the_batch() {
    let mut st = empty_state();
    upload_two_files(&mut st);
    assert_eq!(st.batches.len(), 1);
    assert_eq!(st.batches[0].id, "tx-1");
    assert_eq!(st.batches[0].children[0].id, "tx-2");
    assert_eq!(st.batches[0].children[1].id, "tx-3");
    assert_eq!(st.next_job_id, 4);
    assert!(matches!(st.batches[0].view.state, JobState::Queued));
    assert_eq!(st.batches[0].view.bytes_total, Some(40));

    let snap = snapshot_from_state(&st);
    assert_eq!(snap.batch_count, 1);
    assert_eq!(snap.queued_count, 2);
    assert_eq!(snap.finished_count, 0);
    assert_eq!(snap.jobs[0].state, "Queued");

    let job = claim_next_job(&mut st).expect("a job");
    assert_eq!(job.job_id, "tx-2");
    assert_eq!(job.batch_id, "tx-1");
    assert!(!job.overwrite_approved);
    assert!(!job.skip_conflicts);
    assert_eq!(st.active_job_id, Some("tx-2".to_string()));
    assert!(matches!(st.batches[0].children[0].view.state, JobState::Checking));
    assert!(matches!(st.batches[0].view.state, JobState::Running));

    mark_running(&mut st, "tx-2", Some(10));
    update_progress(&mut st, "tx-2", 5, Some(10), 2048);
    assert_eq!(st.batches[0].children[0].view.progress_percent, Some(50));
    assert_eq!(st.batches[0].children[0].view.rate, Some("2.0 KB/s".to_string()));
    assert_eq!(st.batches[0].view.bytes_transferred, 5);
    assert_eq!(st.batches[0].view.progress_percent, Some(12));

    assert_eq!(finish_job(&mut st, "tx-2", "tx-1", TransferRunOutcome::Succeeded), None);
    assert!(matches!(st.batches[0].children[0].view.state, JobState::Succeeded));
    assert_eq!(st.batches[0].children[0].view.progress_percent, Some(100));
    assert_eq!(st.active_job_id, None);

    let job = claim_next_job(&mut st).expect("a second job");
    assert_eq!(job.job_id, "tx-3");
    assert_eq!(finish_job(&mut st, "tx-3", "tx-1", TransferRunOutcome::Failed("disk full".into())), None);
    assert!(matches!(st.batches[0].view.state, JobState::CompletedWithErrors));
    assert_eq!(st.batches[0].view.error_message, Some("1 completed, 1 failed".to_string()));
    assert!(st.batches[0].view.can_retry);

    assert!(claim_next_job(&mut st).is_none());
    assert!(!st.worker_running);

    let snap = snapshot_from_state(&st);
    assert_eq!(snap.finished_count, 1);
    assert_eq!(snap.queued_count, 0);

    clear_completed(&mut st);
    assert!(st.batches.is_empty());
}

#[test]
fn cancel_and_retry_a_batch() {
    let mut st = empty_state();
    upload_two_files(&mut st);
    let (found, signal) = cancel_batch_by_id(&mut st, "tx-1");
    assert!(found);
    assert_eq!(signal, None);
    assert!(matches!(st.batches[0].view.state, JobState::Cancelled));
    assert!(matches!(st.batches[0].children[1].view.state, JobState::Cancelled));
    assert!(next_runnable_child(&st).is_none());

    let (missing, _) = cancel_batch_by_id(&mut st, "tx-99");
    assert!(!missing);

    assert!(retry_batch_by_id(&mut st, "tx-1"));
    assert!(matches!(st.batches[0].view.state, JobState::Queued));
    assert!(matches!(st.batches[0].children[0].view.state, JobState::Queued));
    assert_eq!(next_runnable_child(&st), Some((0, 0)));
}

#[test]
fn clearing_keeps_unfinished_batches() {
    let mut st = empty_state();
    upload_two_files(&mut st);
    upload_two_files(&mut st);
    cancel_batch_by_id(&mut st, "tx-1");
    clear_completed(&mut st);
    assert_eq!(st.batches.len(), 1);
    assert_eq!(st.batches[0].id, "tx-4");
}

#[test]
fn session_loss_pauses_the_queue() {
    let mut st = empty_state();
    upload_two_files(&mut st);
    upload_two_files(&mut st);
    let job = claim_next_job(&mut st).expect("a job");
    let message = "The SSH session ended during the transfer. Reconnect and try again.";
    assert!(is_session_loss_message(message));
    let loss = finish_job(&mut st, &job.job_id, &job.batch_id, TransferRunOutcome::Failed(message.into()));
    assert_eq!(loss, Some(message.to_string()));
    assert!(matches!(st.batches[0].view.state, JobState::PausedDisconnected));
    assert!(matches!(st.batches[1].view.state, JobState::PausedDisconnected));
    assert_eq!(st.batches[1].view.error_message, Some(message.to_string()));
    assert!(next_runnable_child(&st).is_none());

    assert!(retry_batch_by_id(&mut st, "tx-4"));
    assert!(matches!(st.batches[1].view.state, JobState::Queued));
    assert_eq!(next_runnable_child(&st), Some((1, 0)));

    pause_batches_for_disconnect(&mut st, "gone");
    assert!(matches!(st.batches[1].view.state, JobState::PausedDisconnected));
}

#[test]
fn conflicts_wait_for_an_answer() {
    let mut st = empty_state();
    upload_two_files(&mut st);
    let job = claim_next_job(&mut st).expect("a job");
    let found = existing_destination_conflict("/srv/a.txt", DestinationKind::File);
    let conflict = contextualize_conflict(found, "/home/u/a.txt", "/srv/a.txt", "file");
    assert_eq!(conflict.conflict_kind, "fileExists");
    assert_eq!(conflict.source_name, "a.txt");
    assert_eq!(conflict.destination_name, "a.txt");
    finish_job(&mut st, &job.job_id, &job.batch_id, TransferRunOutcome::AwaitingConflict(conflict));
    assert!(matches!(st.batches[0].view.state, JobState::AwaitingConflictDecision));
    assert!(next_runnable_child(&st).is_none());

    assert_eq!(
        resolve_conflict(&mut st, "tx-2", "rename"),
        Err("Unknown conflict action: rename".to_string())
    );
    assert_eq!(resolve_conflict(&mut st, "tx-42", "overwrite"), Err("Transfer job not found.".to_string()));
    assert_eq!(resolve_conflict(&mut st, "tx-2", " Overwrite "), Ok(()));
    assert!(st.batches[0].children[0].overwrite_approved);
    let again = claim_next_job(&mut st).expect("the item again");
    assert_eq!(again.job_id, "tx-2");
    assert!(again.overwrite_approved);
}

#[test]
fn skip_all_answers_the_rest_of_the_batch() {
    let mut st = empty_state();
    upload_two_files(&mut st);
    let job = claim_next_job(&mut st).expect("a job");
    let conflict = existing_destination_conflict("/srv/a.txt", DestinationKind::File);
    finish_job(&mut st, &job.job_id, &job.batch_id, TransferRunOutcome::AwaitingConflict(conflict));
    assert_eq!(resolve_conflict(&mut st, "tx-2", "skipall"), Ok(()));
    assert!(matches!(st.batches[0].children[0].view.state, JobState::Skipped));
    let next = claim_next_job(&mut st).expect("the second item");
    assert!(next.skip_conflicts);
}

#[test]
fn existing_folders_mismatch_files() {
    let c = existing_destination_conflict("/srv/photos", DestinationKind::Dir);
    assert_eq!(c.destination_kind, "dir");
    assert_eq!(c.conflict_kind, "typeMismatch");
    assert!(!c.can_overwrite);
    assert_eq!(c.source_kind, "unknown");
}

#[test]
fn gates_file_transfers_on_conflicts() {
    let conflict = || Ok(Some(existing_destination_conflict("/srv/a.txt", DestinationKind::File)));
    assert!(gate_file_transfer(Ok(None), false, false, "/l/a.txt", "/srv/a.txt").is_none());
    assert!(matches!(gate_file_transfer(conflict(), false, true, "/l/a.txt", "/srv/a.txt"), Some(TransferRunOutcome::Skipped)));
    match gate_file_transfer(conflict(), false, false, "/l/a.txt", "/srv/a.txt") {
        Some(TransferRunOutcome::AwaitingConflict(c)) => {
            assert_eq!(c.source_path, "/l/a.txt");
            assert_eq!(c.destination_path, "/srv/a.txt");
            assert_eq!(c.conflict_kind, "fileExists");
        }
        _ => panic!("expected a conflict prompt"),
    }
    assert!(gate_file_transfer(conflict(), true, true, "/l/a.txt", "/srv/a.txt").is_none());
    let folder = Ok(Some(existing_destination_conflict("/srv/a", DestinationKind::Dir)));
    match gate_file_transfer(folder, true, false, "/l/a", "/srv/a") {
        Some(TransferRunOutcome::Failed(m)) => assert_eq!(m, "Warp cannot overwrite a directory destination."),
        _ => panic!("expected a failure"),
    }
    match gate_file_transfer(Err("cannot look".into()), false, false, "/l/a", "/srv/a") {
        Some(TransferRunOutcome::Failed(m)) => assert_eq!(m, "cannot look"),
        _ => panic!("expected a failure"),
    }
}

#[test]
fn gates_folder_creation() {
    assert!(matches!(gate_folder_creation(Ok(Some(true))), Some(TransferRunOutcome::Succeeded)));
    match gate_folder_creation(Ok(Some(false))) {
        Some(TransferRunOutcome::Failed(m)) => assert_eq!(m, "Warp cannot replace a file destination with a directory."),
        _ => panic!("expected a failure"),
    }
    assert!(gate_folder_creation(Ok(None)).is_none());
    assert_eq!(
        local_inspect_failure("/tmp/x", "denied"),
        "Unable to inspect local destination /tmp/x: denied"
    );
    match linked_folder_refusal(TransferDirection::Download) {
        TransferRunOutcome::Failed(m) => {
            assert_eq!(m, "Warp does not recurse through symlinked directories during download.")
        }
        _ => panic!("expected a failure"),
    }
}

#[test]
fn walks_the_remote_folder_chain() {
    assert_eq!(remote_directory_chain("/srv/www/app"), vec!["/srv", "/srv/www", "/srv/www/app"]);
    assert!(remote_directory_chain("/").is_empty());
    assert_eq!(chain_link_step("/srv", Ok(Some(true))), Ok(false));
    assert_eq!(chain_link_step("/srv", Ok(None)), Ok(true));
    assert_eq!(
        chain_link_step("/srv", Ok(Some(false))),
        Err("Warp cannot create a remote folder because `/srv` already exists as a file.".to_string())
    );
}

#[test]
fn names_partial_files() {
    assert_eq!(temp_remote_path("/srv", "a.txt", "tx-7"), "/srv/.a.txt.warp-part-tx-7");
    assert_eq!(temp_local_path("/tmp/dl/a.txt", "tx-7"), "/tmp/dl/.a.txt.warp-part-tx-7");
    assert_eq!(temp_local_path("/", "tx-7"), "/.transfer.warp-part-tx-7");
    assert_eq!(parent_remote_path("/srv/www/a.txt"), "/srv/www");
    assert_eq!(parent_remote_path("/a.txt"), "/");
}

#[test]
fn explains_remote_transfer_errors() {
    let denied = SftpFailure::Status { code: SftpStatusCode::PermissionDenied, message: "nope".into() };
    let text = classify_transfer_remote_error("create_file", "/srv/a", &denied);
    assert!(text.contains("/srv/a"), "{text}");
    let lost = SftpFailure::Io("broken pipe".into());
    let text = classify_transfer_remote_error("open_file", "/srv/a", &lost);
    assert!(is_session_loss_message(&text), "{text}");
    assert!(matches!(map_copy_io_error("Broken pipe (os error 32)"), CopyFailure::Failed(m) if is_session_loss_message(&m)));
    assert!(matches!(map_copy_io_error("disk quota"), CopyFailure::Failed(m) if m == "disk quota"));
}

fn count_progress_by_float(states: &[(JobState, Option<u8>)]) -> u8 {
    let total = states.len() as f32;
    if total == 0.0 {
        return 100;
    }
    let mut completed = 0_f32;
    for (state, percent) in states {
        completed += match state {
            JobState::Succeeded | JobState::Failed | JobState::Skipped | JobState::Cancelled => 1.0,
            JobState::Running | JobState::Checking | JobState::Cancelling => percent.unwrap_or(0) as f32 / 100.0,
            _ => 0.0,
        };
    }
    ((completed / total) * 100.0).round().clamp(0.0, 100.0) as u8
}

fn state_of(k: u64) -> JobState {
    match k % 6 {
        0 => JobState::Succeeded,
        1 => JobState::Running,
        2 => JobState::Queued,
        3 => JobState::Checking,
        4 => JobState::Failed,
        _ => JobState::AwaitingConflictDecision,
    }
}

#[test]
fn count_progress_matches_float_average() {
    let mut x: u64 = 99;
    for round in 0..6000u64 {
        let n = (round % 37 + 1) as usize;
        let entries: Vec<TransferSelectionItem> =
            (0..n).map(|i| item(&format!("/srv/f{i}"), &format!("f{i}"), "file")).collect();
        let children: Vec<_> =
            entries.iter().map(|e| planned_download_entry(e, format!("/tmp/{}", e.name))).collect();
        let plan = assemble_plan(TransferDirection::Download, "/tmp".into(), &entries, children);
        let mut st = empty_state();
        enqueue_batch(&mut st, plan);
        let mut states = Vec::new();
        for i in 0..n {
            x = x.wrapping_mul(6364136223846793005).wrapping_add(1442695040888963407);
            let state = state_of(x >> 33);
            let percent = if round % 5 == 0 { Some(((x >> 17) % 256) as u8) } else { Some(((x >> 17) % 101) as u8) };
            st.batches[0].children[i].view.state = state_of(x >> 33);
            st.batches[0].children[i].view.progress_percent = percent;
            states.push((state, percent));
        }
        assert_eq!(progress_from_counts(&st.batches[0]), count_progress_by_float(&states), "{round}");
    }
}

#[test]
fn count_progress_of_finished_and_partial_batches() {
    let entries: Vec<TransferSelectionItem> =
        (0..8).map(|i| item(&format!("/srv/f{i}"), &format!("f{i}"), "file")).collect();
    let children: Vec<_> = entries.iter().map(|e| planned_download_entry(e, format!("/tmp/{}", e.name))).collect();
    let plan = assemble_plan(TransferDirection::Download, "/tmp".into(), &entries, children);
    let mut st = empty_state();
    enqueue_batch(&mut st, plan);
    assert_eq!(progress_from_counts(&st.batches[0]), 0);
    st.batches[0].children[0].view.state = JobState::Succeeded;
    assert_eq!(progress_from_counts(&st.batches[0]), 13);
    st.batches[0].children[1].view.state = JobState::Running;
    st.batches[0].children[1].view.progress_percent = Some(50);
    assert_eq!(progress_from_counts(&st.batches[0]), 19);
    for i in 0..8 {
        st.batches[0].children[i].view.state = JobState::Failed;
    }
    assert_eq!(progress_from_counts(&st.batches[0]), 100);
}
