//! The node core: one process's share of the cluster state — identity,
//! Lamport clock, injected send delay, the neighbor triple, the resource
//! tables and the deadlock-detector state — together with the overlay
//! protocol's per-node decisions.  Everything that needs the network is a
//! pure step here: the caller performs the send and hands the reply back.

use vstd::prelude::*;
use std::collections::HashMap;
use crate::Addr;
use crate::overlay::NeighborInfo;
use crate::resources::ResourceState;
use crate::table::{AddrSet, NameMap};

verus! {

broadcast use vstd::std_specs::hash::group_hash_axioms;

/// An operator asked for an overlay operation that is not allowed.
#[derive(Clone, Copy, Debug, PartialEq, Eq, Structural)]
pub enum OverlayError {
    /// A node cannot join itself.
    JoinSelf,
    /// Only the node itself can be killed through its own control plane.
    KillOther,
    /// Only the node itself can be revived through its own control plane.
    ReviveOther,
}

/// One node's entire mutable state.
pub struct Node {
    pub id: String,
    pub addr: Addr,
    /// Artificial delay, in milliseconds, inserted before every send.
    pub message_delay: u64,
    pub neighbor_info: NeighborInfo,
    pub lamport_time: u64,
    /// Set while this node runs a repair, to suppress re-entrant repairs.
    pub repairing: bool,
    /// Resources this node owns: holder and FIFO queue per resource.
    pub owned_resources: NameMap<ResourceState>,
    /// Resources this node is queued for, mapped to their owner.
    pub waiting_for: NameMap<Addr>,
    /// Resources held by this node, mapped to their owner.
    pub used_resources: NameMap<Addr>,
    /// Owners this node is blocked on: the outgoing wait-for edges.
    pub blocked_processes: AddrSet,
    /// Whether the local process is progressing.
    pub is_active: bool,
    /// Addresses whose permission this node is awaiting.
    pub waiting_messages_from: AddrSet,
    /// Addresses that asked for permission while this node was passive.
    pub permission_queue: AddrSet,
    /// Highest probe test number seen, per initiator.
    pub last_test: HashMap<Addr, u64>,
    /// Whether this node participates in the initiator's current round.
    pub wait_status: HashMap<Addr, bool>,
    /// Whom this node received the initiator's probe from.
    pub parent_nodes: HashMap<Addr, Addr>,
    /// Outstanding probe answers expected, per initiator.
    pub probe_count: HashMap<Addr, u64>,
}

/// The core state fields no message handler touches.
pub open spec fn core_unchanged(a: Node, b: Node) -> bool {
    &&& a.id == b.id
    &&& a.addr == b.addr
    &&& a.message_delay == b.message_delay
    &&& a.lamport_time == b.lamport_time
    &&& a.repairing == b.repairing
}

/// The overlay triple is untouched.
pub open spec fn overlay_unchanged(a: Node, b: Node) -> bool {
    a.neighbor_info == b.neighbor_info
}

/// The resource-manager tables are untouched.
pub open spec fn resources_unchanged(a: Node, b: Node) -> bool {
    &&& a.owned_resources@ == b.owned_resources@
    &&& a.waiting_for@ == b.waiting_for@
    &&& a.used_resources@ == b.used_resources@
    &&& a.blocked_processes@ == b.blocked_processes@
}

/// The deadlock-detector state is untouched.
pub open spec fn cmh_unchanged(a: Node, b: Node) -> bool {
    &&& a.is_active == b.is_active
    &&& a.waiting_messages_from@ == b.waiting_messages_from@
    &&& a.permission_queue@ == b.permission_queue@
    &&& a.last_test@ == b.last_test@
    &&& a.wait_status@ == b.wait_status@
    &&& a.parent_nodes@ == b.parent_nodes@
    &&& a.probe_count@ == b.probe_count@
}

impl Node {
    pub fn new(id: String, addr: Addr) -> (r: Node)
        ensures
            r.id == id,
            r.addr == addr,
            r.message_delay == 0,
            r.neighbor_info == (NeighborInfo { next: addr, nnext: addr, prev: addr }),
            r.lamport_time == 0,
            !r.repairing,
            r.owned_resources@ == Map::<Seq<char>, crate::resources::ResourceModel>::empty(),
            r.waiting_for@ == Map::<Seq<char>, Addr>::empty(),
            r.used_resources@ == Map::<Seq<char>, Addr>::empty(),
            r.blocked_processes@ == Seq::<Addr>::empty(),
            r.is_active,
            r.waiting_messages_from@ == Seq::<Addr>::empty(),
            r.permission_queue@ == Seq::<Addr>::empty(),
            r.last_test@ == Map::<Addr, u64>::empty(),
            r.wait_status@ == Map::<Addr, bool>::empty(),
            r.parent_nodes@ == Map::<Addr, Addr>::empty(),
            r.probe_count@ == Map::<Addr, u64>::empty(),
    {
        Node {
            id,
            addr,
            message_delay: 0,
            neighbor_info: NeighborInfo::singleton(addr),
            lamport_time: 0,
            repairing: false,
            owned_resources: NameMap::new(),
            waiting_for: NameMap::new(),
            used_resources: NameMap::new(),
            blocked_processes: AddrSet::new(),
            is_active: true,
            waiting_messages_from: AddrSet::new(),
            permission_queue: AddrSet::new(),
            last_test: HashMap::new(),
            wait_status: HashMap::new(),
            parent_nodes: HashMap::new(),
            probe_count: HashMap::new(),
        }
    }

    /// Advance the Lamport clock for a local event and report the new time.
    /// The clock tops out rather than wrap.
    pub fn increment_lamport(&mut self) -> (r: u64)
        ensures
            final(self).lamport_time as int == if old(self).lamport_time < u64::MAX {
                old(self).lamport_time as int + 1
            } else {
                old(self).lamport_time as int
            },
            r == final(self).lamport_time,
            *final(self) == (Node { lamport_time: final(self).lamport_time, ..*old(self) }),
    {
        if self.lamport_time < u64::MAX {
            self.lamport_time = self.lamport_time + 1;
        }
        self.lamport_time
    }

    /// Advance the Lamport clock past a timestamp carried by a received
    /// message: one beyond the larger of the two clocks.
    pub fn update_clock(&mut self, received_time: u64)
        ensures
            final(self).lamport_time as int == if received_time > old(self).lamport_time {
                if received_time < u64::MAX {
                    received_time as int + 1
                } else {
                    received_time as int
                }
            } else {
                if old(self).lamport_time < u64::MAX {
                    old(self).lamport_time as int + 1
                } else {
                    old(self).lamport_time as int
                }
            },
            final(self).lamport_time >= old(self).lamport_time,
            final(self).lamport_time >= received_time,
            *final(self) == (Node { lamport_time: final(self).lamport_time, ..*old(self) }),
    {
        let base = if received_time > self.lamport_time {
            received_time
        } else {
            self.lamport_time
        };
        self.lamport_time = if base < u64::MAX {
            base + 1
        } else {
            base
        };
    }

    /// Honor the operator's delay knob: every later send waits this long.
    pub fn set_delay(&mut self, delay_ms: u64)
        ensures
            *final(self) == (Node { message_delay: delay_ms, ..*old(self) }),
    {
        self.message_delay = delay_ms;
    }

    /// A node may join any member but itself.
    pub fn try_join_other(&self, other_addr: Addr) -> (r: Result<(), OverlayError>)
        ensures
            r == if other_addr == self.addr {
                Err::<(), OverlayError>(OverlayError::JoinSelf)
            } else {
                Ok::<(), OverlayError>(())
            },
    {
        if self.addr == other_addr {
            Err(OverlayError::JoinSelf)
        } else {
            Ok(())
        }
    }

    /// Install the neighbor triple a join host handed back.
    pub fn install_neighbor_info(&mut self, info: NeighborInfo)
        ensures
            *final(self) == (Node { neighbor_info: info, ..*old(self) }),
    {
        self.neighbor_info = info;
    }

    /// After the neighbors have been told of a graceful leave, the leaver
    /// points every pointer back at itself.
    pub fn leave(&mut self)
        ensures
            *final(self) == (Node {
                neighbor_info: NeighborInfo {
                    next: old(self).addr,
                    nnext: old(self).addr,
                    prev: old(self).addr,
                },
                ..*old(self)
            }),
    {
        self.neighbor_info = NeighborInfo::singleton(self.addr);
    }

    /// Only the node itself may be killed through its own control plane.
    pub fn kill(&self, node_addr: Addr) -> (r: Result<(), OverlayError>)
        ensures
            r == if node_addr == self.addr {
                Ok::<(), OverlayError>(())
            } else {
                Err::<(), OverlayError>(OverlayError::KillOther)
            },
    {
        if node_addr == self.addr {
            Ok(())
        } else {
            Err(OverlayError::KillOther)
        }
    }

    /// Only the node itself may be revived; it rejoins through its last
    /// known predecessor when it had one besides itself.
    pub fn revive(&self, node_addr: Addr) -> (r: Result<Option<Addr>, OverlayError>)
        ensures
            r == if node_addr != self.addr {
                Err::<Option<Addr>, OverlayError>(OverlayError::ReviveOther)
            } else if self.neighbor_info.prev != self.addr {
                Ok::<Option<Addr>, OverlayError>(Some(self.neighbor_info.prev))
            } else {
                Ok::<Option<Addr>, OverlayError>(None)
            },
    {
        if node_addr != self.addr {
            Err(OverlayError::ReviveOther)
        } else if self.neighbor_info.prev != self.addr {
            Ok(Some(self.neighbor_info.prev))
        } else {
            Ok(None)
        }
    }

    /// Claim the repair duty; a repair already in flight suppresses the
    /// re-entrant one.
    pub fn begin_repair(&mut self) -> (r: bool)
        ensures
            r == !old(self).repairing,
            *final(self) == (Node { repairing: true, ..*old(self) }),
    {
        let free = !self.repairing;
        self.repairing = true;
        free
    }

    /// The repair is over, successful or not.
    pub fn end_repair(&mut self)
        ensures
            *final(self) == (Node { repairing: false, ..*old(self) }),
    {
        self.repairing = false;
    }

    /// A newcomer asked to join here: whom the host must notify before it
    /// splices the newcomer in.
    pub fn other_joining_begin(&self) -> (r: JoinTicket)
        ensures
            r == (JoinTicket {
                old_next: self.neighbor_info.next,
                old_prev: self.neighbor_info.prev,
            }),
    {
        JoinTicket { old_next: self.neighbor_info.next, old_prev: self.neighbor_info.prev }
    }

    /// Both neighbors have been notified: splice the newcomer in and build
    /// the triple it installs.
    pub fn other_joining_finish(&mut self, newcomer: Addr, ticket: JoinTicket) -> (r:
        NeighborInfo)
        ensures
            *final(self) == (Node {
                neighbor_info: NeighborInfo {
                    next: newcomer,
                    nnext: ticket.old_next,
                    prev: old(self).neighbor_info.prev,
                },
                ..*old(self)
            }),
            r == (NeighborInfo {
                next: ticket.old_next,
                nnext: old(self).neighbor_info.nnext,
                prev: old(self).addr,
            }),
    {
        let me = self.addr;
        self.neighbor_info.host_apply_join(me, newcomer, ticket.old_next)
    }

    /// What a leaving node must tell whom, read off its own triple: the
    /// sole survivor of a ring of two points at itself; on a ring of three
    /// the two survivors pair up; on four or more the predecessor takes
    /// over and its own predecessor learns the new `nnext`.
    pub fn leave_topology_plan(&self) -> (r: LeavePlan)
        ensures
            r == if self.neighbor_info.prev == self.neighbor_info.next {
                LeavePlan::Pair { survivor: self.neighbor_info.next }
            } else if self.neighbor_info.prev == self.neighbor_info.nnext {
                LeavePlan::Trio {
                    next: self.neighbor_info.next,
                    prev: self.neighbor_info.prev,
                    nnext: self.neighbor_info.nnext,
                }
            } else {
                LeavePlan::Crowd {
                    next: self.neighbor_info.next,
                    prev: self.neighbor_info.prev,
                    nnext: self.neighbor_info.nnext,
                }
            },
    {
        let info = self.neighbor_info;
        if info.prev == info.next {
            LeavePlan::Pair { survivor: info.next }
        } else if info.prev == info.nnext {
            LeavePlan::Trio { next: info.next, prev: info.prev, nnext: info.nnext }
        } else {
            LeavePlan::Crowd { next: info.next, prev: info.prev, nnext: info.nnext }
        }
    }

    /// A lost node was reported.  If it is not our successor the report
    /// travels on; if it is, we adopt our `nnext` as successor and must now
    /// introduce ourselves to it.
    pub fn missing_node_begin(&mut self, missing: Addr) -> (r: Option<RepairTicket>)
        ensures
            missing != old(self).neighbor_info.next ==> {
                &&& *final(self) == *old(self)
                &&& r is None
            },
            missing == old(self).neighbor_info.next ==> {
                &&& *final(self) == (Node {
                    neighbor_info: NeighborInfo {
                        next: old(self).neighbor_info.nnext,
                        ..old(self).neighbor_info
                    },
                    ..*old(self)
                })
                &&& r == Some(
                    RepairTicket {
                        introduce_to: old(self).neighbor_info.nnext,
                        was_prev: old(self).neighbor_info.prev,
                        was_next: old(self).neighbor_info.next,
                    },
                )
            },
    {
        if missing == self.neighbor_info.next {
            let ticket = RepairTicket {
                introduce_to: self.neighbor_info.nnext,
                was_prev: self.neighbor_info.prev,
                was_next: self.neighbor_info.next,
            };
            self.neighbor_info.change_next(ticket.introduce_to);
            Some(ticket)
        } else {
            None
        }
    }

    /// The new successor told us its own successor: install it as `nnext`.
    /// When the lost node was also our predecessor the new successor is,
    /// and nobody is left to notify; otherwise the predecessor must learn
    /// the new `nnext`.
    pub fn missing_node_finish(&mut self, ticket: RepairTicket, reported: Addr) -> (r: Option<(
        Addr,
        Addr,
    )>)
        ensures
            ticket.was_prev == ticket.was_next ==> {
                &&& *final(self) == (Node {
                    neighbor_info: NeighborInfo {
                        nnext: reported,
                        prev: ticket.introduce_to,
                        ..old(self).neighbor_info
                    },
                    ..*old(self)
                })
                &&& r is None
            },
            ticket.was_prev != ticket.was_next ==> {
                &&& *final(self) == (Node {
                    neighbor_info: NeighborInfo {
                        nnext: reported,
                        ..old(self).neighbor_info
                    },
                    ..*old(self)
                })
                &&& r == Some((ticket.was_prev, ticket.introduce_to))
            },
    {
        self.neighbor_info.change_nnext(reported);
        if ticket.was_prev == ticket.was_next {
            self.neighbor_info.change_prev(ticket.introduce_to);
            None
        } else {
            Some((ticket.was_prev, ticket.introduce_to))
        }
    }
}

/// Whom a join host must notify: its successor and predecessor before the
/// splice.
#[derive(Clone, Copy, Debug, PartialEq, Eq, Structural)]
pub struct JoinTicket {
    pub old_next: Addr,
    pub old_prev: Addr,
}

/// What a leaving node tells its neighbors, by ring size.
#[derive(Clone, Copy, Debug, PartialEq, Eq, Structural)]
pub enum LeavePlan {
    /// One other member: it becomes a ring of one.
    Pair { survivor: Addr },
    /// Two other members: they become a ring of two.
    Trio { next: Addr, prev: Addr, nnext: Addr },
    /// Three or more other members.
    Crowd { next: Addr, prev: Addr, nnext: Addr },
}

/// A repair in flight: whom to introduce ourselves to, and the triple we
/// read before adopting the new successor.
#[derive(Clone, Copy, Debug, PartialEq, Eq, Structural)]
pub struct RepairTicket {
    pub introduce_to: Addr,
    pub was_prev: Addr,
    pub was_next: Addr,
}

} // verus!
