//! A node of a ring-topology cluster: a circular doubly-linked overlay
//! (`prev`, `next`, `nnext`), a distributed resource manager that forwards
//! requests around the ring, and the Chandy–Misra–Haas edge-chasing
//! deadlock detector running on top of both.
//!
//! Every protocol decision is a pure state transition in this crate; the
//! surrounding process (RPC transport, HTTP control plane, timers) performs
//! the sends and hands the replies back as events.

pub mod api;
pub mod cmh;
pub mod node;
pub mod overlay;
pub mod resources;
pub mod table;

use vstd::prelude::*;

verus! {

/// A node's durable identifier on the wire, as a single integer.
pub type Addr = u64;

} // verus!
