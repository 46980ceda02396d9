//! Names of the events the user interface listens for.
use vstd::prelude::*;

verus! {

/// The event carrying a fresh transfer queue snapshot.
pub const TRANSFER_QUEUE_UPDATED_EVENT: &'static str = "transfer-queue-updated";

/// The event carrying a fresh remote session snapshot.
pub const REMOTE_SESSION_UPDATED_EVENT: &'static str = "remote-session-updated";

/// The handle through which the application reaches the user interface's event bus.
pub struct UiEvents;

impl UiEvents {
    /// The event handle.
    pub fn new() -> (r: UiEvents)
        ensures
            r == UiEvents,
    {
        UiEvents
    }

}

} // verus!
