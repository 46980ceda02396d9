//! The transfer-only compatibility mode for hosts without an SFTP subsystem.
use vstd::prelude::*;

verus! {

/// Marker for the compatibility mode that moves files over exec channels.
pub struct ScpCompatibility;

impl ScpCompatibility {
    /// The compatibility mode.
    pub fn new() -> (r: ScpCompatibility)
        ensures
            r == ScpCompatibility,
    {
        ScpCompatibility
    }

    /// What the compatibility mode covers, in words.
    pub fn scope(&self) -> (r: &'static str)
        ensures
            r@ == "transfer-only compatibility mode over russh exec channels"@,
    {
        "transfer-only compatibility mode over russh exec channels"
    }
}

} // verus!
