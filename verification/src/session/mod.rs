//! The remote session: what is connected or awaiting trust, how it is shown, and
//! how it changes as connections, navigation and errors happen.
pub mod failure;
pub mod flow;
pub mod folder_delete;
pub mod delete_run;

use vstd::prelude::*;
use crate::models::{
    AppBootstrap, ConnectAuth, ConnectRequest, PaneSnapshot, RemoteConnectionSnapshot, SessionSnapshot, TrustPrompt,
    clone_opt_string, is_idle_session, is_remote_placeholder, same_pane,
};
use crate::text::{decimal, owned, push_char, push_decimal, push_str, same_text};

verus! {

/// A connected session, without its transport handles.
pub struct ActiveSessionInfo {
    pub id: u64,
    pub request: ConnectRequest,
    pub remote_pane: PaneSnapshot,
    pub trust_state: String,
}

/// A connection waiting on the user's trust decision, without the presented key.
pub struct PendingTrustInfo {
    pub request: ConnectRequest,
    pub prompt: TrustPrompt,
}

/// The state of the remote side.
pub struct SessionState {
    pub active: Option<ActiveSessionInfo>,
    pub pending_trust: Option<PendingTrustInfo>,
    pub last_error: Option<String>,
    pub next_session_id: u64,
}

impl SessionState {
    /// Nothing connected, nothing pending, no error; sessions are numbered from 1.
    pub fn new() -> (r: SessionState)
        ensures
            r.active is None,
            r.pending_trust is None,
            r.last_error is None,
            r.next_session_id == 1,
    {
        SessionState { active: None, pending_trust: None, last_error: None, next_session_id: 1 }
    }

    /// Issues the next session number (wrapping at `u64::MAX`).
    pub fn issue_session_id(&mut self) -> (id: u64)
        ensures
            id == old(self).next_session_id,
            final(self).next_session_id == (if id == u64::MAX { 0 } else { (id + 1) as u64 }),
            final(self).active == old(self).active,
            final(self).pending_trust == old(self).pending_trust,
            final(self).last_error == old(self).last_error,
    {
        let id = self.next_session_id;
        self.next_session_id = if id == u64::MAX { 0 } else { id + 1 };
        id
    }
}

/// The name of an authentication method.
pub open spec fn auth_text(auth: ConnectAuth) -> Seq<char> {
    match auth {
        ConnectAuth::Password { .. } => "Password"@,
        ConnectAuth::Key { .. } => "SSH key"@,
    }
}

/// The name of an authentication method.
pub fn auth_method_label(auth: &ConnectAuth) -> (r: String)
    ensures
        r@ == auth_text(*auth),
{
    match auth {
        ConnectAuth::Password { .. } => owned("Password"),
        ConnectAuth::Key { .. } => owned("SSH key"),
    }
}

/// "user@host:port" for a request.
pub open spec fn target_text(r: ConnectRequest) -> Seq<char> {
    r.username@ + seq!['@'] + r.host@ + seq![':'] + decimal(r.port as nat)
}

/// "user@host:port" for a request.
pub fn target_label(r: &ConnectRequest) -> (s: String)
    ensures
        s@ == target_text(*r),
{
    let mut s = r.username.clone();
    push_char(&mut s, '@');
    push_str(&mut s, r.host.as_str());
    push_char(&mut s, ':');
    push_decimal(&mut s, r.port as u64);
    s
}

/// The snapshot `s` shows the session state `st`.
pub open spec fn shows(s: RemoteConnectionSnapshot, st: SessionState) -> bool {
    &&& s.session.protocol_mode@ == "SFTP primary"@
    &&& s.session.last_error == st.last_error
    &&& match st.active {
        Some(a) => {
            &&& s.session.connection_state@ == "Connected"@
            &&& s.session.host@ == target_text(a.request)
            &&& s.session.auth_method@ == auth_text(a.request.auth)
            &&& s.session.trust_state == a.trust_state
            &&& s.session.can_disconnect
            &&& same_pane(s.remote_pane, a.remote_pane)
            &&& s.trust_prompt is None
        },
        None => match st.pending_trust {
            Some(p) => {
                &&& s.session.connection_state@ == "Awaiting trust"@
                &&& s.session.host@ == target_text(p.request)
                &&& s.session.auth_method@ == auth_text(p.request.auth)
                &&& s.session.trust_state@ == (if p.prompt.status@ == "mismatch"@ { "Host key mismatch"@ } else { "First-seen host"@ })
                &&& !s.session.can_disconnect
                &&& is_remote_placeholder(s.remote_pane)
                &&& s.trust_prompt == Some(p.prompt)
            },
            None => {
                &&& is_idle_session(s.session)
                &&& is_remote_placeholder(s.remote_pane)
                &&& s.trust_prompt is None
            },
        },
    }
}

/// The remote side as the interface shows it: the connected session with its pane,
/// else the connection awaiting trust with its prompt, else the idle placeholder;
/// the last error in every case.
pub fn snapshot_from_state(state: &SessionState) -> (s: RemoteConnectionSnapshot)
    ensures
        shows(s, *state),
{
    if let Some(active) = &state.active {
        return RemoteConnectionSnapshot {
            session: SessionSnapshot {
                connection_state: owned("Connected"),
                protocol_mode: owned("SFTP primary"),
                host: target_label(&active.request),
                auth_method: auth_method_label(&active.request.auth),
                trust_state: active.trust_state.clone(),
                last_error: clone_opt_string(&state.last_error),
                can_disconnect: true,
            },
            remote_pane: active.remote_pane.duplicate(),
            trust_prompt: None,
        };
    }
    if let Some(pending) = &state.pending_trust {
        let mismatch = same_text(pending.prompt.status.as_str(), "mismatch");
        return RemoteConnectionSnapshot {
            session: SessionSnapshot {
                connection_state: owned("Awaiting trust"),
                protocol_mode: owned("SFTP primary"),
                host: target_label(&pending.request),
                auth_method: auth_method_label(&pending.request.auth),
                trust_state: if mismatch { owned("Host key mismatch") } else { owned("First-seen host") },
                last_error: clone_opt_string(&state.last_error),
                can_disconnect: false,
            },
            remote_pane: AppBootstrap::remote_placeholder(),
            trust_prompt: Some(pending.prompt.duplicate()),
        };
    }
    RemoteConnectionSnapshot::disconnected(SessionSnapshot {
        connection_state: owned("Disconnected"),
        protocol_mode: owned("SFTP primary"),
        host: owned("No active session"),
        auth_method: owned("None"),
        trust_state: owned("No host selected"),
        last_error: clone_opt_string(&state.last_error),
        can_disconnect: false,
    })
}

} // verus!
