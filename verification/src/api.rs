//! The plain values the control plane exchanges with an operator.  The
//! HTTP layer around the library turns JSON into these and back.

use vstd::prelude::*;

verus! {

/// The answer to a health check: whether the node runs, and who it is.
#[derive(Debug)]
pub struct HealthResponse {
    pub status: String,
    pub node_id: String,
    pub addr: String,
}

/// The operator's delay knob: milliseconds to sleep before every send.
#[derive(Debug, Clone, Copy, PartialEq, Eq, Structural)]
pub struct DelayConfig {
    pub delay_ms: u64,
}

/// The operator names a node to kill or revive.
#[derive(Debug)]
pub struct KillReviveRequest {
    pub node_id: String,
}

} // verus!
