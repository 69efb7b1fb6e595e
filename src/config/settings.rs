use vstd::prelude::*;

use crate::error::VpnError;

verus! {

/// Settings that a deployment loads at start.
#[derive(Debug, Clone, Copy, PartialEq, Eq, Structural)]
pub struct VpnConfig {
    pub mtu: usize,
    /// Seconds between heartbeats.
    pub keepalive_interval: u64,
    pub reconnect_attempts: u8,
}

impl VpnConfig {
    /// Every combination of values is accepted.
    pub fn validate(&self) -> (r: Result<(), VpnError>)
        ensures
            r is Ok,
    {
        Ok(())
    }
}

} // verus!
