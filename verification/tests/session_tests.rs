use warp::events::{UiEvents, REMOTE_SESSION_UPDATED_EVENT, TRANSFER_QUEUE_UPDATED_EVENT};
use warp::models::{
    AppBootstrap, ConnectAuth, ConnectRequest, DeleteRemoteEntriesRequest, DeleteRemoteEntryTarget, FileEntry,
    PaneSnapshot,
};
use warp::scp_compat::ScpCompatibility;
use warp::session::failure::{
    auth_rejected, classify_remote_failure, classify_remote_failure_from_text, friendly_auth_error,
    friendly_connect_error, RemoteFailure,
};
use warp::session::flow::{
    begin_resolve_trust, delete_needs_confirmation, disconnect, finish_delete, handle_connection_loss,
    liveness_tick, map_connect_error, prepare_delete, record_connect_outcome, ConnectOutcome, DeleteStop,
    LivenessStep, ObservedKey, TrustResolution,
};
use warp::session::delete_run::{DeleteRun, DeleteStep};
use warp::session::folder_delete::{ChildAction, DeletionStep, FolderDeletion, ListedChild};
use warp::session::{snapshot_from_state, ActiveSessionInfo, SessionState};
use warp::sftp_failure::{SftpFailure, SftpStatusCode};
use warp::trust::{check_host, entry_for_key, remember_entry, trust_state_label, TrustCheck, TrustModel};

const KEY: &str = "ssh-ed25519 AAAAC3NzaC1lZDI1NTE5AAAAIEJ8Oe0Rb114F8nGMD4HzyBbs6k8ZZrVSu2Ce279b9Ec";

fn entry(host: &str, port: u16, key: &str, fingerprint: &str) -> warp::trust::KnownHostEntry {
    entry_for_key(host, port, "ssh-ed25519".into(), key.into(), fingerprint.into())
}

#[test]
fn remembered_host_verifies() {
    let entries = remember_entry(Vec::new(), entry("example.com", 22, KEY, "SHA256:abc"));
    match check_host(&entries, "example.com", 22, KEY) {
        TrustCheck::Verified(e) => assert_eq!(e.fingerprint_sha256, "SHA256:abc"),
        _ => panic!("expected verified host"),
    }
    assert!(matches!(check_host(&entries, "example.com", 2222, KEY), TrustCheck::Unknown));
    assert!(matches!(check_host(&entries, "example.org", 22, KEY), TrustCheck::Unknown));
    match check_host(&entries, "example.com", 22, "ssh-ed25519 OTHER") {
        TrustCheck::Mismatch(e) => assert_eq!(e.public_key, KEY),
        _ => panic!("expected a mismatch"),
    }
}

#[test]
fn remembering_replaces_the_old_key_only() {
    let entries = remember_entry(Vec::new(), entry("a", 22, "k1", "f1"));
    let entries = remember_entry(entries, entry("b", 22, "k2", "f2"));
    let entries = remember_entry(entries, entry("a", 22, "k3", "f3"));
    assert_eq!(entries.len(), 2);
    assert_eq!(entries[0].host, "b");
    assert_eq!(entries[1].public_key, "k3");
    assert!(matches!(check_host(&entries, "b", 22, "k2"), TrustCheck::Verified(_)));
    assert!(matches!(check_host(&entries, "a", 22, "k3"), TrustCheck::Verified(_)));
    assert!(matches!(check_host(&entries, "a", 22, "k1"), TrustCheck::Mismatch(_)));
}

#[test]
fn trust_store_and_labels() {
    let model = TrustModel::new("/home/u/.config/warp");
    assert_eq!(model.known_hosts_path, "/home/u/.config/warp/known_hosts.json");
    assert_eq!(trust_state_label(&TrustCheck::Unknown), "Trusted this session");
    assert_eq!(trust_state_label(&TrustCheck::Mismatch(entry("a", 22, "k", "f"))), "Host key mismatch");
}

fn request() -> ConnectRequest {
    ConnectRequest {
        host: "example.com".into(),
        port: 22,
        username: "deploy".into(),
        auth: ConnectAuth::Password { password: "secret".into() },
    }
}

fn pane(location: &str) -> PaneSnapshot {
    PaneSnapshot {
        id: "remote".into(),
        title: "Remote".into(),
        location: location.into(),
        item_count: 1,
        can_go_up: true,
        entries: vec![FileEntry::file("/srv/a", "a", Some(1), None, "-rw-r--r--")],
        empty_message: Some("Remote directory is empty.".into()),
    }
}

fn connected(state: &mut SessionState) {
    let id = state.issue_session_id();
    let info = ActiveSessionInfo { id, request: request(), remote_pane: pane("/srv"), trust_state: "Known host verified".into() };
    record_connect_outcome(state, request(), ConnectOutcome::Connected(info));
}

#[test]
fn connecting_and_disconnecting() {
    let mut state = SessionState::new();
    let idle = snapshot_from_state(&state);
    assert_eq!(idle.session.connection_state, "Disconnected");
    assert_eq!(idle.session.host, "No active session");
    assert_eq!(idle.remote_pane.location, "Not connected");

    connected(&mut state);
    let snap = snapshot_from_state(&state);
    assert_eq!(snap.session.connection_state, "Connected");
    assert_eq!(snap.session.host, "deploy@example.com:22");
    assert_eq!(snap.session.auth_method, "Password");
    assert!(snap.session.can_disconnect);
    assert_eq!(snap.remote_pane.location, "/srv");

    let (after, ended) = disconnect(&mut state);
    assert_eq!(ended, Some(1));
    assert_eq!(after.session.connection_state, "Disconnected");
    assert!(!after.session.can_disconnect);
    assert_eq!(after.remote_pane.location, "Not connected");
    let (_, again) = disconnect(&mut state);
    assert_eq!(again, None);
}

#[test]
fn a_lost_connection_is_announced_once() {
    let mut state = SessionState::new();
    connected(&mut state);
    let (snap, announce) = handle_connection_loss(&mut state, "Connection lost.".into());
    assert!(announce);
    assert_eq!(snap.session.connection_state, "Disconnected");
    assert_eq!(snap.session.last_error, Some("Connection lost.".to_string()));
    let (_, again) = handle_connection_loss(&mut state, "Connection lost.".into());
    assert!(!again);
}

#[test]
fn liveness_watches_only_its_session() {
    let mut state = SessionState::new();
    connected(&mut state);
    assert!(matches!(liveness_tick(&mut state, 7, true), LivenessStep::Stop));
    assert!(matches!(liveness_tick(&mut state, 1, false), LivenessStep::Continue));
    match liveness_tick(&mut state, 1, true) {
        LivenessStep::Lost(s) => assert_eq!(
            s.session.last_error,
            Some("Connection lost after idle. Reconnect to continue browsing or transferring.".to_string())
        ),
        _ => panic!("expected the session to be lost"),
    }
    assert!(matches!(liveness_tick(&mut state, 1, true), LivenessStep::Stop));
}

fn observed() -> ObservedKey {
    ObservedKey { algorithm: "ssh-ed25519".into(), fingerprint_sha256: "SHA256:new".into() }
}

#[test]
fn unknown_hosts_ask_for_trust() {
    let outcome = map_connect_error("example.com", 22, Some((observed(), Ok(TrustCheck::Unknown))), "rejected");
    let prompt = match outcome {
        ConnectOutcome::TrustRequired(p) => p,
        _ => panic!("expected a trust prompt"),
    };
    assert_eq!(prompt.status, "firstSeen");
    assert_eq!(prompt.expected_fingerprint_sha256, None);

    let mut state = SessionState::new();
    let snap = record_connect_outcome(&mut state, request(), ConnectOutcome::TrustRequired(prompt));
    assert_eq!(snap.session.connection_state, "Awaiting trust");
    assert!(snap.trust_prompt.is_some());
    assert!(matches!(begin_resolve_trust(&mut state, true), Ok(TrustResolution::Reconnect(_))));
    assert_eq!(
        begin_resolve_trust(&mut state, true).err(),
        Some("There is no pending host trust decision.".to_string())
    );
}

#[test]
fn changed_keys_are_blocked() {
    let stored = entry("example.com", 22, "old", "SHA256:old");
    let outcome = map_connect_error("example.com", 22, Some((observed(), Ok(TrustCheck::Mismatch(stored)))), "x");
    let prompt = match outcome {
        ConnectOutcome::TrustRequired(p) => p,
        _ => panic!("expected a trust prompt"),
    };
    assert_eq!(prompt.status, "mismatch");
    assert_eq!(prompt.expected_fingerprint_sha256, Some("SHA256:old".to_string()));
    let mut state = SessionState::new();
    record_connect_outcome(&mut state, request(), ConnectOutcome::TrustRequired(prompt));
    match begin_resolve_trust(&mut state, true) {
        Ok(TrustResolution::Finished(s)) => assert_eq!(
            s.session.last_error,
            Some("The stored host fingerprint does not match this server. Review the trust store before trying again.".to_string())
        ),
        _ => panic!("expected the prompt to be refused"),
    }
}

#[test]
fn declined_trust_cancels_the_connection() {
    let outcome = map_connect_error("example.com", 22, Some((observed(), Ok(TrustCheck::Unknown))), "x");
    let mut state = SessionState::new();
    record_connect_outcome(&mut state, request(), outcome);
    match begin_resolve_trust(&mut state, false) {
        Ok(TrustResolution::Finished(s)) => {
            assert_eq!(s.session.connection_state, "Disconnected");
            assert_eq!(s.session.last_error, Some("Connection cancelled before trust was granted.".to_string()));
        }
        _ => panic!("expected the connection to be cancelled"),
    }
}

#[test]
fn connection_errors_read_well() {
    assert_eq!(friendly_connect_error("Connection refused (os error 111)"), "The SSH server refused the connection.");
    assert_eq!(friendly_connect_error("failed to lookup address"), "Could not resolve that host name.");
    assert_eq!(friendly_connect_error("operation TIMED OUT"), "Timed out while connecting to the SSH server.");
    assert_eq!(friendly_connect_error("weird"), "Unable to connect to the SSH server.");
    match map_connect_error("h", 22, None, "connection refused") {
        ConnectOutcome::Failed(m) => assert_eq!(m, "The SSH server refused the connection."),
        _ => panic!("expected a failure"),
    }
    match map_connect_error("h", 22, Some((observed(), Err("bad json".into()))), "x") {
        ConnectOutcome::Failed(m) => assert_eq!(m, "Unable to read the stored host fingerprints: bad json"),
        _ => panic!("expected a failure"),
    }
    let password = ConnectAuth::Password { password: "x".into() };
    assert_eq!(
        friendly_auth_error(&password, "Authentication failed"),
        "SSH password authentication was rejected. Check the username and password."
    );
    let key = ConnectAuth::Key { private_key_path: "/k/id".into(), passphrase: None };
    assert_eq!(friendly_auth_error(&key, "No such file or directory"), "SSH key file not found: /k/id");
    assert_eq!(auth_rejected(&request()), "SSH authentication failed for deploy@example.com");
}

#[test]
fn remote_failures_are_classified() {
    let denied = SftpFailure::Status { code: SftpStatusCode::PermissionDenied, message: "x".into() };
    assert!(matches!(classify_remote_failure(&denied), RemoteFailure::PermissionDenied));
    let missing = SftpFailure::Status { code: SftpStatusCode::NoSuchFile, message: "x".into() };
    assert!(matches!(classify_remote_failure(&missing), RemoteFailure::NoSuchFile));
    assert!(matches!(classify_remote_failure_from_text("Broken pipe"), RemoteFailure::ConnectionLost));
    assert_eq!(
        RemoteFailure::PermissionDenied.user_message("rename the remote entry"),
        "Permission denied while trying to rename the remote entry."
    );
    let partial = RemoteFailure::PartialDelete {
        deleted_count: 3,
        failed_path: "/srv/a".into(),
        reason: Box::new(RemoteFailure::PermissionDenied),
    };
    assert_eq!(
        partial.user_message("delete the remote entry"),
        "Stopped deleting folder after removing 3 entries. Permission denied at `/srv/a`."
    );
    assert_eq!(partial.reason_label(), "Delete failed");
}

fn targets(names: &[(&str, &str)]) -> Vec<DeleteRemoteEntryTarget> {
    names.iter().map(|(n, k)| DeleteRemoteEntryTarget { entry_name: n.to_string(), entry_kind: k.to_string() }).collect()
}

#[test]
fn deleting_needs_a_session_and_a_selection() {
    let mut state = SessionState::new();
    let req = DeleteRemoteEntriesRequest { parent_path: "/srv".into(), entries: targets(&[("a", "file")]), recursive: false };
    match prepare_delete(&mut state, &req) {
        Err(DeleteStop::Respond(r)) => assert_eq!(
            r.snapshot.session.last_error,
            Some("Connect to a host before deleting a remote entry.".to_string())
        ),
        _ => panic!("expected a refusal"),
    }
    connected(&mut state);
    let empty = DeleteRemoteEntriesRequest { parent_path: "/srv".into(), entries: Vec::new(), recursive: false };
    match prepare_delete(&mut state, &empty) {
        Err(DeleteStop::Respond(r)) => assert_eq!(
            r.snapshot.session.last_error,
            Some("Select one or more remote entries before deleting them.".to_string())
        ),
        _ => panic!("expected a refusal"),
    }
    let bad = DeleteRemoteEntriesRequest { parent_path: "/srv".into(), entries: targets(&[("a/b", "file")]), recursive: false };
    assert!(matches!(prepare_delete(&mut state, &bad), Err(DeleteStop::Fail(m)) if m == "invalid target name"));
    let two = DeleteRemoteEntriesRequest {
        parent_path: "/srv".into(),
        entries: targets(&[("a", "file"), ("logs", "dir")]),
        recursive: false,
    };
    assert_eq!(prepare_delete(&mut state, &two).ok(), Some(vec!["/srv/a".to_string(), "/srv/logs".to_string()]));

    let prompt = delete_needs_confirmation(&mut state, &two).prompt.expect("a prompt");
    assert!(prompt.requires_recursive);
    assert_eq!(
        prompt.message,
        "One or more selected folders are not empty. Delete all selected entries and their contents?"
    );
    let one = DeleteRemoteEntriesRequest { parent_path: "/srv".into(), entries: targets(&[("logs", "dir")]), recursive: false };
    let prompt = delete_needs_confirmation(&mut state, &one).prompt.expect("a prompt");
    assert_eq!(prompt.message, "This folder is not empty. Delete it and all contents?");

    let failed = finish_delete(&mut state, Some(RemoteFailure::NoSuchFile), false, 0, 1);
    assert_eq!(
        failed.snapshot.session.last_error,
        Some("The remote path is no longer available, so Warp could not delete the remote entry.".to_string())
    );
    let done = finish_delete(&mut state, None, true, 5, 1);
    assert_eq!(done.snapshot.session.last_error, None);
}

#[test]
fn folder_deletion_goes_depth_first() {
    let mut d = FolderDeletion::start("/srv/old");
    assert!(matches!(d.next_step(), DeletionStep::ListFolder(p) if p == "/srv/old"));
    let actions = d.children_listed(
        "/srv/old",
        &vec![
            ListedChild { name: "a.txt".into(), is_dir: false },
            ListedChild { name: "sub".into(), is_dir: true },
            ListedChild { name: "b.txt".into(), is_dir: false },
        ],
    );
    let paths: Vec<String> = actions
        .iter()
        .map(|a| match a {
            ChildAction::RemoveFile(p) => p.clone(),
            ChildAction::BadName(m) => m.clone(),
        })
        .collect();
    assert_eq!(paths, vec!["/srv/old/b.txt", "/srv/old/a.txt"]);
    d.entry_removed();
    d.entry_removed();
    assert!(matches!(d.next_step(), DeletionStep::ListFolder(p) if p == "/srv/old/sub"));
    assert!(d.children_listed("/srv/old/sub", &Vec::new()).is_empty());
    assert!(matches!(d.next_step(), DeletionStep::RemoveFolder(p) if p == "/srv/old/sub"));
    d.entry_removed();
    assert!(matches!(d.next_step(), DeletionStep::RemoveFolder(p) if p == "/srv/old"));
    d.entry_removed();
    assert!(matches!(d.next_step(), DeletionStep::Finished));
    assert_eq!(d.deleted_count, 4);
}

#[test]
fn folder_deletion_stops_at_a_bad_name() {
    let mut d = FolderDeletion::start("/srv/old");
    d.next_step();
    let actions = d.children_listed(
        "/srv/old",
        &vec![
            ListedChild { name: "late".into(), is_dir: true },
            ListedChild { name: "bad/name".into(), is_dir: false },
            ListedChild { name: "c.txt".into(), is_dir: false },
        ],
    );
    assert_eq!(actions.len(), 2);
    assert!(matches!(&actions[0], ChildAction::RemoveFile(p) if p == "/srv/old/c.txt"));
    assert!(matches!(&actions[1], ChildAction::BadName(m) if m == "invalid target name"));
    d.entry_removed();
    let failure = d.failure_at("/srv/old", RemoteFailure::Other("invalid target name".into()));
    assert_eq!(
        failure.user_message("delete the remote entry"),
        "Stopped deleting folder after removing 1 entries. Delete failed at `/srv/old`."
    );
}

#[test]
fn bootstrap_values() {
    let t = AppBootstrap::empty_transfers();
    assert_eq!(t.batch_count, 0);
    assert!(t.jobs.is_empty());
    let placeholder = AppBootstrap::remote_placeholder();
    assert_eq!(placeholder.title, "Remote");
    assert_eq!(AppBootstrap::sample_session().connection_state, "Disconnected");
    let _events = UiEvents::new();
    assert_eq!(TRANSFER_QUEUE_UPDATED_EVENT, "transfer-queue-updated");
    assert_eq!(REMOTE_SESSION_UPDATED_EVENT, "remote-session-updated");
    assert_eq!(ScpCompatibility::new().scope(), "transfer-only compatibility mode over russh exec channels");
}

fn deletion_of(kinds: &[&str], recursive: bool) -> DeleteRemoteEntriesRequest {
    DeleteRemoteEntriesRequest {
        parent_path: "/srv".to_string(),
        entries: kinds
            .iter()
            .enumerate()
            .map(|(i, kind)| DeleteRemoteEntryTarget { entry_name: format!("e{}", i), entry_kind: kind.to_string() })
            .collect(),
        recursive,
    }
}

#[test]
fn delete_run_checks_folders_then_deletes_in_order() {
    let request = deletion_of(&["file", "dir", "file", "dir"], false);
    let mut run = DeleteRun::start(&request);
    assert!(matches!(run.next_step(&request), DeleteStep::CheckEmpty(1)));
    assert!(matches!(run.next_step(&request), DeleteStep::CheckEmpty(3)));
    assert!(matches!(run.next_step(&request), DeleteStep::Remove(0)));
    run.removed(Ok(1));
    assert!(matches!(run.next_step(&request), DeleteStep::Remove(1)));
    run.removed(Ok(4));
    assert!(matches!(run.next_step(&request), DeleteStep::Remove(2)));
    run.removed(Ok(1));
    assert!(matches!(run.next_step(&request), DeleteStep::Remove(3)));
    run.removed(Ok(1));
    assert!(matches!(run.next_step(&request), DeleteStep::Finish));
    assert_eq!(run.deleted, 7);
    assert!(run.first_error.is_none());
}

#[test]
fn delete_run_stops_at_the_first_failure() {
    let request = deletion_of(&["dir", "file", "file"], true);
    let mut run = DeleteRun::start(&request);
    assert!(matches!(run.next_step(&request), DeleteStep::Remove(0)));
    run.removed(Ok(3));
    assert!(matches!(run.next_step(&request), DeleteStep::Remove(1)));
    run.removed(Err(RemoteFailure::PermissionDenied));
    assert!(matches!(run.next_step(&request), DeleteStep::Finish));
    assert_eq!(run.deleted, 3);
    assert!(matches!(run.first_error, Some(RemoteFailure::PermissionDenied)));
}

#[test]
fn trusted_key_is_accepted_by_a_later_connection() {
    let stored = remember_entry(Vec::new(), entry("example.com", 22, KEY, "SHA256:abc"));
    let verdict = check_host(&stored, "example.com", 22, KEY);
    assert!(warp::trust::accepts_stored_key(&verdict));
    assert_eq!(trust_state_label(&verdict), "Known host verified");
    assert!(!warp::trust::accepts_stored_key(&check_host(&stored, "example.com", 22, "ssh-ed25519 OTHER")));
    assert!(!warp::trust::accepts_stored_key(&check_host(&stored, "example.net", 22, KEY)));
}

#[test]
fn deleting_one_local_entry_is_deleting_a_one_name_list() {
    let fs = warp::local_fs::LocalFilesystem::new();
    let one = fs.delete_entry("/tmp/work", "old.txt");
    let list = fs.delete_entries("/tmp/work", &vec!["old.txt".to_string()]);
    assert_eq!(list, vec![one.clone()]);
    assert_eq!(one, "/tmp/work/old.txt");
}
