//! How the session changes: connecting, trusting, navigating, changing remote
//! entries, and losing the connection. Each step takes what the network gave
//! back and decides the new state and what the interface shows.
use vstd::prelude::*;
use crate::models::{
    ConnectRequest, CreateRemoteDirectoryRequest, DeleteRemoteEntriesRequest, PaneSnapshot, RemoteConnectionSnapshot,
    RemoteDeletePrompt, RemoteDeleteResponse, RenameRemoteEntryRequest, TrustPrompt, clone_targets,
};
use crate::remote_path::{joined, parent_of, valid_entry_name, child_path, validate_entry_name, RemoteSftpEngine};
use crate::text::{owned, same_text};
use crate::transfer::messages::{framed, prefixed};
use crate::trust::{
    KnownHostEntry, TrustCheck, lemma_remember_then_verify, remembered, stored_key_accepted, trust_state_text, verdict,
};
use super::failure::{OperationError, RemoteFailure, classifies_operation, classify_operation_error, connect_error_text, friendly_connect_error, message_text};
use super::{ActiveSessionInfo, PendingTrustInfo, SessionState, shows, snapshot_from_state};

verus! {

/// How an attempt to connect ended.
pub enum ConnectOutcome {
    /// The session is up.
    Connected(ActiveSessionInfo),
    /// The server's key needs the user's decision first.
    TrustRequired(TrustPrompt),
    /// The attempt failed, with the message to show.
    Failed(String),
}

/// Ends the current session and drops any pending trust decision; returns the
/// number of the session that was ended, whose transport must be closed.
pub fn disconnect_internal(state: &mut SessionState) -> (ended: Option<u64>)
    ensures
        final(state).active is None,
        final(state).pending_trust is None,
        final(state).last_error == old(state).last_error,
        final(state).next_session_id == old(state).next_session_id,
        ended == (match old(state).active { Some(a) => Some(a.id), None => None }),
{
    state.pending_trust = None;
    let active = state.active.take();
    match active {
        Some(a) => Some(a.id),
        None => None,
    }
}

/// Disconnects on the user's request: nothing connected, nothing pending, no error.
pub fn disconnect(state: &mut SessionState) -> (r: (RemoteConnectionSnapshot, Option<u64>))
    ensures
        final(state).active is None,
        final(state).pending_trust is None,
        final(state).last_error is None,
        final(state).next_session_id == old(state).next_session_id,
        r.1 == (match old(state).active { Some(a) => Some(a.id), None => None }),
        shows(r.0, *final(state)),
{
    let ended = disconnect_internal(state);
    state.pending_trust = None;
    state.last_error = None;
    (snapshot_from_state(state), ended)
}

/// Records how a connection attempt for `request` ended: connected, awaiting the
/// user's trust decision on a prompt, or failed with a message.
pub fn record_connect_outcome(state: &mut SessionState, request: ConnectRequest, outcome: ConnectOutcome) -> (r: RemoteConnectionSnapshot)
    ensures
        final(state).next_session_id == old(state).next_session_id,
        match outcome {
            ConnectOutcome::Connected(a) => final(state).active == Some(a) && final(state).pending_trust is None
                && final(state).last_error is None,
            ConnectOutcome::TrustRequired(p) => final(state).active is None
                && final(state).pending_trust == Some(PendingTrustInfo { request: request, prompt: p })
                && final(state).last_error is None,
            ConnectOutcome::Failed(m) => final(state).active is None && final(state).pending_trust is None
                && final(state).last_error == Some(m),
        },
        shows(r, *final(state)),
{
    match outcome {
        ConnectOutcome::Connected(active) => {
            state.last_error = None;
            state.pending_trust = None;
            state.active = Some(active);
        }
        ConnectOutcome::TrustRequired(prompt) => {
            state.active = None;
            state.last_error = None;
            state.pending_trust = Some(PendingTrustInfo { request, prompt });
        }
        ConnectOutcome::Failed(message) => {
            state.active = None;
            state.pending_trust = None;
            state.last_error = Some(message);
        }
    }
    snapshot_from_state(state)
}

/// Where a trust decision leads.
pub enum TrustResolution {
    /// Nothing more to do: the interface shows this.
    Finished(RemoteConnectionSnapshot),
    /// The key was trusted: store it and connect again accepting exactly it.
    Reconnect(PendingTrustInfo),
}

/// The message for a declined trust prompt.
pub open spec fn cancelled_text() -> Seq<char> {
    "Connection cancelled before trust was granted."@
}

/// The message for a trust prompt about a changed key, which cannot be accepted.
pub open spec fn blocked_text() -> Seq<char> {
    "The stored host fingerprint does not match this server. Review the trust store before trying again."@
}

/// The effect of taking trust decision `trust` in state `s0`: `s1` and the answer
/// `r`. The pending decision is taken away and nothing is connected.
pub open spec fn trust_resolved(s0: SessionState, trust: bool, s1: SessionState, r: Result<TrustResolution, String>) -> bool {
    &&& s1.active is None
    &&& s1.pending_trust is None
    &&& s1.next_session_id == s0.next_session_id
    &&& match s0.pending_trust {
        None => (r matches Err(e) && e@ == "There is no pending host trust decision."@) && s1.last_error is None,
        Some(p) => if !trust {
            (r matches Ok(TrustResolution::Finished(v)) && shows(v, s1))
                && (s1.last_error matches Some(m) && m@ == cancelled_text())
        } else if p.prompt.status@ != "firstSeen"@ {
            (r matches Ok(TrustResolution::Finished(v)) && shows(v, s1))
                && (s1.last_error matches Some(m) && m@ == blocked_text())
        } else {
            r == Ok::<TrustResolution, String>(TrustResolution::Reconnect(p)) && s1.last_error is None
        },
    }
}

/// Takes the user's trust decision. The pending decision is taken away, and nothing
/// is connected. Without a pending decision this fails. A declined prompt and a
/// prompt about a changed key end with a message; an accepted first-seen key leads
/// to reconnecting.
pub fn begin_resolve_trust(state: &mut SessionState, trust: bool) -> (r: Result<TrustResolution, String>)
    ensures
        trust_resolved(*old(state), trust, *final(state), r),
{
    state.active = None;
    state.last_error = None;
    let pending = state.pending_trust.take();
    let Some(pending) = pending else {
        return Err(owned("There is no pending host trust decision."));
    };
    if !trust {
        state.last_error = Some(owned("Connection cancelled before trust was granted."));
        return Ok(TrustResolution::Finished(snapshot_from_state(state)));
    }
    if !same_text(pending.prompt.status.as_str(), "firstSeen") {
        state.last_error = Some(owned(
            "The stored host fingerprint does not match this server. Review the trust store before trying again.",
        ));
        return Ok(TrustResolution::Finished(snapshot_from_state(state)));
    }
    Ok(TrustResolution::Reconnect(pending))
}

/// The message for a key that changed between the prompt and the reconnect.
pub open spec fn changed_key_text() -> Seq<char> {
    "The server fingerprint changed while confirming trust. Try connecting again and verify the host carefully."@
}

/// The effect of recording `outcome` of the reconnect after a trust decision in
/// state `s0`: `s1`, shown as `v`.
pub open spec fn reconnect_recorded(s0: SessionState, outcome: ConnectOutcome, s1: SessionState, v: RemoteConnectionSnapshot) -> bool {
    &&& s1.next_session_id == s0.next_session_id
    &&& s1.pending_trust is None
    &&& match outcome {
        ConnectOutcome::Connected(a) => s1.active == Some(a) && s1.last_error is None,
        ConnectOutcome::TrustRequired(_) => s1.active is None
            && (s1.last_error matches Some(m) && m@ == changed_key_text()),
        ConnectOutcome::Failed(m) => s1.active is None && s1.last_error == Some(m),
    }
    &&& shows(v, s1)
}

/// Trusting a first-seen key leads to a session: accepting the prompt asks to
/// reconnect accepting exactly that key; a reconnect that connects leaves the
/// session connected with no prompt and no error; and once the key is stored for
/// the prompt's host and port, a later connection there verifies it, accepts it
/// and shows the host as known.
pub proof fn lemma_trusted_key_connects(
    s0: SessionState,
    s1: SessionState,
    r1: Result<TrustResolution, String>,
    outcome: ConnectOutcome,
    s2: SessionState,
    v: RemoteConnectionSnapshot,
    entries: Seq<KnownHostEntry>,
    entry: KnownHostEntry,
)
    requires
        s0.pending_trust matches Some(p) && p.prompt.status@ == "firstSeen"@
            && entry.host@ == p.request.host@ && entry.port == p.request.port,
        trust_resolved(s0, true, s1, r1),
        reconnect_recorded(s1, outcome, s2, v),
        outcome is Connected,
    ensures
        r1 == Ok::<TrustResolution, String>(TrustResolution::Reconnect(s0.pending_trust->0)),
        s2.active == Some(outcome->Connected_0),
        s2.pending_trust is None,
        s2.last_error is None,
        shows(v, s2),
        stored_key_accepted(verdict(remembered(entries, entry), s0.pending_trust->0.request.host@, s0.pending_trust->0.request.port, entry.public_key@)),
        trust_state_text(verdict(remembered(entries, entry), s0.pending_trust->0.request.host@, s0.pending_trust->0.request.port, entry.public_key@))
            == "Known host verified"@,
{
    lemma_remember_then_verify(entries, entry);
}

/// Records how the reconnect after a trust decision ended.
pub fn record_trusted_reconnect(state: &mut SessionState, outcome: ConnectOutcome) -> (r: RemoteConnectionSnapshot)
    requires
        old(state).active is None,
        old(state).pending_trust is None,
    ensures
        reconnect_recorded(*old(state), outcome, *final(state), r),
{
    match outcome {
        ConnectOutcome::Connected(active) => {
            state.last_error = None;
            state.pending_trust = None;
            state.active = Some(active);
        }
        ConnectOutcome::TrustRequired(_) => {
            state.last_error = Some(owned(
                "The server fingerprint changed while confirming trust. Try connecting again and verify the host carefully.",
            ));
        }
        ConnectOutcome::Failed(message) => {
            state.last_error = Some(message);
        }
    }
    snapshot_from_state(state)
}

/// The loss of the connection with `message` was already recorded: nothing is
/// connected and the last error is that message.
pub open spec fn repeated_loss(s: SessionState, message: String) -> bool {
    s.active is None && (s.last_error matches Some(m) && m@ == message@)
}

/// The session after its connection is lost with `message`: a repeated report
/// changes nothing; otherwise nothing is connected or awaiting trust and the
/// message is the last error.
pub open spec fn lost_connection(s: SessionState, message: String) -> SessionState {
    if repeated_loss(s, message) {
        s
    } else {
        SessionState { active: None, pending_trust: None, last_error: Some(message), ..s }
    }
}

/// Reporting the same lost connection twice has the effect of reporting it once.
pub proof fn lemma_connection_loss_idempotent(s: SessionState, message: String)
    ensures
        lost_connection(lost_connection(s, message), message) == lost_connection(s, message),
        repeated_loss(lost_connection(s, message), message),
{
}

/// Records that the connection was lost, with `message` as the reason. When that was
/// already recorded (nothing connected and the same message) nothing changes and
/// nothing needs to be announced; otherwise the session ends and the new snapshot
/// must be announced.
pub fn handle_connection_loss(state: &mut SessionState, message: String) -> (r: (RemoteConnectionSnapshot, bool))
    ensures
        *final(state) == lost_connection(*old(state), message),
        r.1 == !repeated_loss(*old(state), message),
        shows(r.0, *final(state)),
{
    let repeated = state.active.is_none() && match &state.last_error {
        Some(m) => same_text(m.as_str(), message.as_str()),
        None => false,
    };
    if repeated {
        return (snapshot_from_state(state), false);
    }
    state.active = None;
    state.pending_trust = None;
    state.last_error = Some(message);
    (snapshot_from_state(state), true)
}

/// What the liveness monitor of a session does after a tick.
pub enum LivenessStep {
    /// The session it watches is gone: stop watching.
    Stop,
    /// The session is alive: keep watching.
    Continue,
    /// The session dropped: announce this snapshot and stop watching.
    Lost(RemoteConnectionSnapshot),
}

/// The message for a session that dropped while idle.
pub open spec fn idle_loss_text() -> Seq<char> {
    "Connection lost after idle. Reconnect to continue browsing or transferring."@
}

/// One tick of the liveness monitor of session `session_id`, given whether its
/// transport is closed.
pub fn liveness_tick(state: &mut SessionState, session_id: u64, transport_closed: bool) -> (r: LivenessStep)
    ensures
        final(state).next_session_id == old(state).next_session_id,
        match old(state).active {
            Some(a) => if a.id != session_id {
                r is Stop && *final(state) == *old(state)
            } else if !transport_closed {
                r is Continue && *final(state) == *old(state)
            } else {
                &&& final(state).active is None
                &&& final(state).pending_trust is None
                &&& final(state).last_error matches Some(m) && m@ == idle_loss_text()
                &&& r matches LivenessStep::Lost(s) && shows(s, *final(state))
            },
            None => r is Stop && *final(state) == *old(state),
        },
{
    let Some(active) = &state.active else {
        return LivenessStep::Stop;
    };
    if active.id != session_id {
        return LivenessStep::Stop;
    }
    if !transport_closed {
        return LivenessStep::Continue;
    }
    state.active = None;
    state.pending_trust = None;
    state.last_error = Some(owned("Connection lost after idle. Reconnect to continue browsing or transferring."));
    LivenessStep::Lost(snapshot_from_state(state))
}

/// The message after a failed operation `action` that the failure `f` explains:
/// a lost connection also ends the session.
pub open spec fn operation_error_applied(old: SessionState, new: SessionState, action: Seq<char>, f: RemoteFailure) -> bool {
    &&& new.next_session_id == old.next_session_id
    &&& if f is ConnectionLost {
        &&& new.active is None
        &&& new.pending_trust is None
        &&& new.last_error matches Some(m) && m@ == "The SSH session ended while trying to "@ + action + ". Reconnect and try again."@
    } else {
        &&& new.active == old.active
        &&& new.pending_trust == old.pending_trust
        &&& new.last_error matches Some(m) && m@ == message_text(f, action)
    }
}

/// Records that trying to `action` failed with `error`.
pub fn apply_remote_operation_error(state: &mut SessionState, action: &str, error: &OperationError)
    ensures
        exists|f: RemoteFailure| classifies_operation(f, *error) && operation_error_applied(*old(state), *final(state), action@, f),
{
    let failure = classify_operation_error(error);
    if let RemoteFailure::ConnectionLost = failure {
        state.active = None;
        state.pending_trust = None;
        state.last_error = Some(framed("The SSH session ended while trying to ", action, ". Reconnect and try again."));
        assert(operation_error_applied(*old(state), *state, action@, failure));
        return;
    }
    state.last_error = Some(failure.user_message(action));
    assert(operation_error_applied(*old(state), *state, action@, failure));
}

/// A way of moving the remote pane.
pub enum Navigation {
    Refresh,
    Open(String),
    GoUp,
}

/// The message for moving the remote pane while nothing is connected.
pub open spec fn not_connected_text(n: Navigation) -> Seq<char> {
    match n {
        Navigation::Refresh => "Connect to a host before refreshing the remote pane."@,
        Navigation::Open(_) => "Connect to a host before opening a remote directory."@,
        Navigation::GoUp => "Connect to a host before navigating the remote pane."@,
    }
}

/// The directory a navigation lists: the current location, the requested path, or
/// the parent of the current location. Without a session, or going up from the root,
/// there is nothing to list and the state shown is returned instead.
pub fn navigation_target(state: &mut SessionState, nav: Navigation) -> (r: Result<String, RemoteConnectionSnapshot>)
    ensures
        final(state).active == old(state).active,
        final(state).pending_trust == old(state).pending_trust,
        final(state).next_session_id == old(state).next_session_id,
        match old(state).active {
            None => (final(state).last_error matches Some(m) && m@ == not_connected_text(nav))
                && (r matches Err(s) && shows(s, *final(state))),
            Some(a) => match nav {
                Navigation::Refresh => r == Ok::<String, RemoteConnectionSnapshot>(a.remote_pane.location)
                    && final(state).last_error == old(state).last_error,
                Navigation::Open(p) => r == Ok::<String, RemoteConnectionSnapshot>(p)
                    && final(state).last_error == old(state).last_error,
                Navigation::GoUp => match parent_of(a.remote_pane.location@) {
                    Some(p) => (r matches Ok(t) && t@ == p) && final(state).last_error == old(state).last_error,
                    None => final(state).last_error is None && (r matches Err(s) && shows(s, *final(state))),
                },
            },
        },
{
    let Some(active) = &state.active else {
        let message = match nav {
            Navigation::Refresh => owned("Connect to a host before refreshing the remote pane."),
            Navigation::Open(_) => owned("Connect to a host before opening a remote directory."),
            Navigation::GoUp => owned("Connect to a host before navigating the remote pane."),
        };
        state.last_error = Some(message);
        return Err(snapshot_from_state(state));
    };
    match nav {
        Navigation::Refresh => Ok(active.remote_pane.location.clone()),
        Navigation::Open(path) => Ok(path),
        Navigation::GoUp => match RemoteSftpEngine::parent_path(active.remote_pane.location.as_str()) {
            Some(parent) => Ok(parent),
            None => {
                state.last_error = None;
                Err(snapshot_from_state(state))
            }
        },
    }
}

/// Sets the remote pane of the active session.
fn set_remote_pane(state: &mut SessionState, pane: PaneSnapshot)
    requires
        old(state).active is Some,
    ensures
        final(state).active matches Some(a) && a.remote_pane == pane && a.id == old(state).active->0.id
            && a.request == old(state).active->0.request && a.trust_state == old(state).active->0.trust_state,
        final(state).pending_trust == old(state).pending_trust,
        final(state).last_error == old(state).last_error,
        final(state).next_session_id == old(state).next_session_id,
{
    let mut active = state.active.take().unwrap();
    active.remote_pane = pane;
    state.active = Some(active);
}

/// Records the listing a navigation produced: the new pane and no error, or the
/// error of trying to `action`.
pub fn apply_listing(state: &mut SessionState, listing: Result<PaneSnapshot, OperationError>, action: &str) -> (r: RemoteConnectionSnapshot)
    requires
        old(state).active is Some,
    ensures
        match listing {
            Ok(p) => (final(state).active matches Some(a) && a.remote_pane == p && a.id == old(state).active->0.id
                && a.request == old(state).active->0.request && a.trust_state == old(state).active->0.trust_state)
                && final(state).pending_trust == old(state).pending_trust
                && final(state).last_error is None
                && final(state).next_session_id == old(state).next_session_id,
            Err(e) => exists|f: RemoteFailure| classifies_operation(f, e)
                && operation_error_applied(*old(state), *final(state), action@, f),
        },
        shows(r, *final(state)),
{
    match listing {
        Ok(pane) => {
            set_remote_pane(state, pane);
            state.last_error = None;
        }
        Err(error) => {
            apply_remote_operation_error(state, action, &error);
        }
    }
    snapshot_from_state(state)
}

/// Checks a request to create a remote directory; gives the path to create and the
/// new name, or the state shown when the request cannot go ahead.
pub fn prepare_create(state: &mut SessionState, request: &CreateRemoteDirectoryRequest) -> (r: Result<(String, String), RemoteConnectionSnapshot>)
    ensures
        final(state).active == old(state).active,
        final(state).pending_trust == old(state).pending_trust,
        final(state).next_session_id == old(state).next_session_id,
        old(state).active is None ==> (final(state).last_error matches Some(m)
            && m@ == "Connect to a host before creating a remote directory."@) && (r matches Err(s) && shows(s, *final(state))),
        old(state).active is Some && !valid_entry_name(request.name@) ==> (final(state).last_error matches Some(m)
            && m@ == "invalid target name"@) && (r matches Err(s) && shows(s, *final(state))),
        old(state).active is Some && valid_entry_name(request.name@) ==> final(state).last_error == old(state).last_error
            && (r matches Ok((target, name)) && target@ == joined(request.parent_path@, request.name@) && name@ == request.name@),
{
    if state.active.is_none() {
        state.last_error = Some(owned("Connect to a host before creating a remote directory."));
        return Err(snapshot_from_state(state));
    }
    let next_name = match validate_entry_name(request.name.as_str()) {
        Ok(value) => value,
        Err(error) => {
            state.last_error = Some(error);
            return Err(snapshot_from_state(state));
        }
    };
    match child_path(request.parent_path.as_str(), next_name.as_str()) {
        Ok(target) => Ok((target, next_name)),
        Err(error) => {
            state.last_error = Some(error);
            Err(snapshot_from_state(state))
        }
    }
}

/// Checks a request to rename a remote entry; gives the source path, the target path
/// and the new name, or the state shown when the request cannot go ahead.
pub fn prepare_rename(state: &mut SessionState, request: &RenameRemoteEntryRequest) -> (r: Result<(String, String, String), RemoteConnectionSnapshot>)
    ensures
        final(state).active == old(state).active,
        final(state).pending_trust == old(state).pending_trust,
        final(state).next_session_id == old(state).next_session_id,
        old(state).active is None ==> (final(state).last_error matches Some(m)
            && m@ == "Connect to a host before renaming a remote entry."@) && (r matches Err(s) && shows(s, *final(state))),
        old(state).active is Some && !(valid_entry_name(request.new_name@) && valid_entry_name(request.entry_name@)) ==>
            (final(state).last_error matches Some(m) && m@ == "invalid target name"@) && (r matches Err(s) && shows(s, *final(state))),
        old(state).active is Some && valid_entry_name(request.new_name@) && valid_entry_name(request.entry_name@) ==>
            final(state).last_error == old(state).last_error
            && (r matches Ok((source, target, name)) && source@ == joined(request.parent_path@, request.entry_name@)
                && target@ == joined(request.parent_path@, request.new_name@) && name@ == request.new_name@),
{
    if state.active.is_none() {
        state.last_error = Some(owned("Connect to a host before renaming a remote entry."));
        return Err(snapshot_from_state(state));
    }
    let next_name = match validate_entry_name(request.new_name.as_str()) {
        Ok(value) => value,
        Err(error) => {
            state.last_error = Some(error);
            return Err(snapshot_from_state(state));
        }
    };
    let source = match child_path(request.parent_path.as_str(), request.entry_name.as_str()) {
        Ok(value) => value,
        Err(error) => {
            state.last_error = Some(error);
            return Err(snapshot_from_state(state));
        }
    };
    match child_path(request.parent_path.as_str(), next_name.as_str()) {
        Ok(target) => Ok((source, target, next_name)),
        Err(error) => {
            state.last_error = Some(error);
            Err(snapshot_from_state(state))
        }
    }
}

/// After a change to remote entries, records the listing of the directory shown
/// (`preferred_path`). On success the pane shows it with no error. On failure, gives
/// the parent directory to list instead when there is one, changing nothing yet;
/// otherwise records the error of trying to `action`.
pub fn mutation_listing(state: &mut SessionState, preferred_path: &str, listing: Result<PaneSnapshot, OperationError>, action: &str) -> (fallback: Option<String>)
    requires
        old(state).active is Some,
    ensures
        match listing {
            Ok(p) => fallback is None
                && (final(state).active matches Some(a) && a.remote_pane == p && a.id == old(state).active->0.id
                    && a.request == old(state).active->0.request && a.trust_state == old(state).active->0.trust_state)
                && final(state).pending_trust == old(state).pending_trust
                && final(state).last_error is None
                && final(state).next_session_id == old(state).next_session_id,
            Err(e) => match parent_of(preferred_path@) {
                Some(p) => (fallback matches Some(f) && f@ == p) && *final(state) == *old(state),
                None => fallback is None && exists|f: RemoteFailure| classifies_operation(f, e)
                    && operation_error_applied(*old(state), *final(state), action@, f),
            },
        },
{
    match listing {
        Ok(pane) => {
            set_remote_pane(state, pane);
            state.last_error = None;
            None
        }
        Err(error) => match RemoteSftpEngine::parent_path(preferred_path) {
            Some(parent) => Some(parent),
            None => {
                apply_remote_operation_error(state, action, &error);
                None
            }
        },
    }
}

/// The message shown when the directory of a change moved and its parent is shown.
pub open spec fn moved_text(name: Seq<char>) -> Seq<char> {
    "Warp completed the change, but the current directory moved. Showing the parent directory instead; look for `"@
        + name + "` there."@
}

/// Records the listing of the parent directory after the shown directory could not
/// be listed: on success the pane shows the parent, with a note naming the changed
/// entry when there is one; on failure the error of trying to `action` is recorded.
pub fn mutation_fallback_listing(state: &mut SessionState, listing: Result<PaneSnapshot, OperationError>, preferred_name: Option<String>, action: &str)
    requires
        old(state).active is Some,
    ensures
        match listing {
            Ok(p) => (final(state).active matches Some(a) && a.remote_pane == p && a.id == old(state).active->0.id
                && a.request == old(state).active->0.request && a.trust_state == old(state).active->0.trust_state)
                && final(state).pending_trust == old(state).pending_trust
                && final(state).next_session_id == old(state).next_session_id
                && match preferred_name {
                    Some(n) => final(state).last_error matches Some(m) && m@ == moved_text(n@),
                    None => final(state).last_error is None,
                },
            Err(e) => exists|f: RemoteFailure| classifies_operation(f, e)
                && operation_error_applied(*old(state), *final(state), action@, f),
        },
{
    match listing {
        Ok(pane) => {
            set_remote_pane(state, pane);
            state.last_error = match preferred_name {
                Some(name) => Some(framed(
                    "Warp completed the change, but the current directory moved. Showing the parent directory instead; look for `",
                    name.as_str(),
                    "` there.",
                )),
                None => None,
            };
        }
        Err(error) => apply_remote_operation_error(state, action, &error),
    }
}

/// The answer to a delete request: the state shown and an optional prompt.
pub fn remote_delete_response(state: &SessionState, prompt: Option<RemoteDeletePrompt>) -> (r: RemoteDeleteResponse)
    ensures
        shows(r.snapshot, *state),
        r.prompt == prompt,
{
    RemoteDeleteResponse { snapshot: snapshot_from_state(state), prompt }
}

/// Why a delete request stopped before deleting anything.
pub enum DeleteStop {
    /// Answer with this.
    Respond(RemoteDeleteResponse),
    /// Fail with this message.
    Fail(String),
}

/// `paths` are the remote paths of the entries of `request`, in order.
pub open spec fn delete_paths(request: DeleteRemoteEntriesRequest, paths: Seq<String>) -> bool {
    &&& paths.len() == request.entries@.len()
    &&& forall|i: int| 0 <= i < paths.len() ==>
        #[trigger] paths[i]@ == joined(request.parent_path@, request.entries@[i].entry_name@)
}

/// Checks a delete request and gives the remote path of each entry. Without a
/// session, or with no entries, the answer is the state shown with a message; an
/// entry with an invalid name fails the request.
pub fn prepare_delete(state: &mut SessionState, request: &DeleteRemoteEntriesRequest) -> (r: Result<Vec<String>, DeleteStop>)
    ensures
        final(state).active == old(state).active,
        final(state).pending_trust == old(state).pending_trust,
        final(state).next_session_id == old(state).next_session_id,
        old(state).active is None ==> (final(state).last_error matches Some(m)
            && m@ == "Connect to a host before deleting a remote entry."@)
            && (r matches Err(DeleteStop::Respond(resp)) && shows(resp.snapshot, *final(state)) && resp.prompt is None),
        old(state).active is Some && request.entries@.len() == 0 ==> (final(state).last_error matches Some(m)
            && m@ == "Select one or more remote entries before deleting them."@)
            && (r matches Err(DeleteStop::Respond(resp)) && shows(resp.snapshot, *final(state)) && resp.prompt is None),
        old(state).active is Some && request.entries@.len() > 0 ==> final(state).last_error == old(state).last_error
            && if forall|i: int| 0 <= i < request.entries@.len() ==> valid_entry_name(#[trigger] request.entries@[i].entry_name@) {
                r matches Ok(paths) && delete_paths(*request, paths@)
            } else {
                r matches Err(DeleteStop::Fail(e)) && e@ == "invalid target name"@
            },
{
    if state.active.is_none() {
        state.last_error = Some(owned("Connect to a host before deleting a remote entry."));
        return Err(DeleteStop::Respond(remote_delete_response(state, None)));
    }
    if request.entries.len() == 0 {
        state.last_error = Some(owned("Select one or more remote entries before deleting them."));
        return Err(DeleteStop::Respond(remote_delete_response(state, None)));
    }
    let mut paths: Vec<String> = Vec::new();
    let mut i: usize = 0;
    while i < request.entries.len()
        invariant
            i <= request.entries.len(),
            *state == *old(state),
            old(state).active is Some,
            paths@.len() == i,
            forall|k: int| 0 <= k < i ==> #[trigger] paths@[k]@ == joined(request.parent_path@, request.entries@[k].entry_name@),
            forall|k: int| 0 <= k < i ==> valid_entry_name(#[trigger] request.entries@[k].entry_name@),
        decreases request.entries.len() - i,
    {
        match child_path(request.parent_path.as_str(), request.entries[i].entry_name.as_str()) {
            Ok(p) => paths.push(p),
            Err(e) => return Err(DeleteStop::Fail(e)),
        }
        i += 1;
    }
    Ok(paths)
}

/// The question asked before deleting non-empty folders.
pub open spec fn confirm_text(count: nat) -> Seq<char> {
    if count == 1 {
        "This folder is not empty. Delete it and all contents?"@
    } else {
        "One or more selected folders are not empty. Delete all selected entries and their contents?"@
    }
}

/// Asks for confirmation before deleting a non-empty folder among the entries of a
/// non-recursive request: no error, and a prompt naming the entries.
pub fn delete_needs_confirmation(state: &mut SessionState, request: &DeleteRemoteEntriesRequest) -> (r: RemoteDeleteResponse)
    ensures
        final(state).active == old(state).active,
        final(state).pending_trust == old(state).pending_trust,
        final(state).next_session_id == old(state).next_session_id,
        final(state).last_error is None,
        shows(r.snapshot, *final(state)),
        r.prompt matches Some(p) && p.message@ == confirm_text(request.entries@.len()) && p.requires_recursive
            && p.entries@ == request.entries@,
{
    state.last_error = None;
    let message = if request.entries.len() == 1 {
        owned("This folder is not empty. Delete it and all contents?")
    } else {
        owned("One or more selected folders are not empty. Delete all selected entries and their contents?")
    };
    remote_delete_response(state, Some(RemoteDeletePrompt {
        message,
        requires_recursive: true,
        entries: clone_targets(&request.entries),
    }))
}

/// Finishes a delete request after the deletions and the refresh of the pane: the
/// first failure, if any, is the message; otherwise a recursive delete that removed
/// more than the entries asked for clears the message; otherwise it is kept.
pub fn finish_delete(state: &mut SessionState, first_error: Option<RemoteFailure>, recursive: bool, deleted_count: usize, requested: usize) -> (r: RemoteDeleteResponse)
    ensures
        final(state).active == old(state).active,
        final(state).pending_trust == old(state).pending_trust,
        final(state).next_session_id == old(state).next_session_id,
        match first_error {
            Some(f) => final(state).last_error matches Some(m) && m@ == message_text(f, "delete the remote entry"@),
            None => if recursive && deleted_count > requested {
                final(state).last_error is None
            } else {
                final(state).last_error == old(state).last_error
            },
        },
        shows(r.snapshot, *final(state)),
        r.prompt is None,
{
    if let Some(error) = first_error {
        state.last_error = Some(error.user_message("delete the remote entry"));
    } else if recursive && deleted_count > requested {
        state.last_error = None;
    }
    remote_delete_response(state, None)
}

/// The key a server presented during a failed handshake.
pub struct ObservedKey {
    pub algorithm: String,
    pub fingerprint_sha256: String,
}

/// The prompt for a key that `host` at `port` presented: first seen, or different
/// from the stored one whose fingerprint is `expected`.
pub open spec fn is_trust_prompt(p: TrustPrompt, host: Seq<char>, port: u16, key: ObservedKey, expected: Option<Seq<char>>) -> bool {
    &&& p.host@ == host
    &&& p.port == port
    &&& p.key_algorithm == key.algorithm
    &&& p.fingerprint_sha256 == key.fingerprint_sha256
    &&& match expected {
        None => {
            &&& p.status@ == "firstSeen"@
            &&& p.message@ == "First time seeing this host. Verify the fingerprint before connecting."@
            &&& p.expected_fingerprint_sha256 is None
        },
        Some(f) => {
            &&& p.status@ == "mismatch"@
            &&& p.message@ == "Known host fingerprint mismatch. Connection is blocked until the trust store is corrected."@
            &&& p.expected_fingerprint_sha256 matches Some(e) && e@ == f
        },
    }
}

/// How a failed handshake with `host` at `port` ends, given the key the server
/// presented (if any) with the verdict of the trust store on it, and the error's
/// text: an unknown or changed key asks the user; a trusted key, or no key, fails
/// with the connection error's message; a trust store that cannot be read fails
/// with its error.
pub fn map_connect_error(host: &str, port: u16, observed: Option<(ObservedKey, Result<TrustCheck, String>)>, error_text: &str) -> (r: ConnectOutcome)
    ensures
        match observed {
            None => r matches ConnectOutcome::Failed(m) && m@ == connect_error_text(error_text@),
            Some((key, Ok(TrustCheck::Unknown))) =>
                r matches ConnectOutcome::TrustRequired(p) && is_trust_prompt(p, host@, port, key, None),
            Some((key, Ok(TrustCheck::Mismatch(entry)))) =>
                r matches ConnectOutcome::TrustRequired(p) && is_trust_prompt(p, host@, port, key, Some(entry.fingerprint_sha256@)),
            Some((_, Ok(TrustCheck::Verified(_)))) =>
                r matches ConnectOutcome::Failed(m) && m@ == connect_error_text(error_text@),
            Some((_, Err(e))) =>
                r matches ConnectOutcome::Failed(m) && m@ == "Unable to read the stored host fingerprints: "@ + e@,
        },
{
    match observed {
        None => ConnectOutcome::Failed(friendly_connect_error(error_text)),
        Some((key, verdict)) => match verdict {
            Ok(TrustCheck::Unknown) => ConnectOutcome::TrustRequired(TrustPrompt {
                host: owned(host),
                port,
                key_algorithm: key.algorithm,
                fingerprint_sha256: key.fingerprint_sha256,
                status: owned("firstSeen"),
                message: owned("First time seeing this host. Verify the fingerprint before connecting."),
                expected_fingerprint_sha256: None,
            }),
            Ok(TrustCheck::Mismatch(entry)) => ConnectOutcome::TrustRequired(TrustPrompt {
                host: owned(host),
                port,
                key_algorithm: key.algorithm,
                fingerprint_sha256: key.fingerprint_sha256,
                status: owned("mismatch"),
                message: owned("Known host fingerprint mismatch. Connection is blocked until the trust store is corrected."),
                expected_fingerprint_sha256: Some(entry.fingerprint_sha256),
            }),
            Ok(TrustCheck::Verified(_)) => ConnectOutcome::Failed(friendly_connect_error(error_text)),
            Err(store_error) => ConnectOutcome::Failed(prefixed("Unable to read the stored host fingerprints: ", store_error.as_str())),
        },
    }
}

} // verus!
