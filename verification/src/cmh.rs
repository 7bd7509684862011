//! The Chandy–Misra–Haas edge-chasing deadlock detector.  A passive node
//! waits on a set of peers; probes travel along the wait-for edges, keyed
//! by the initiator; an answer that brings the initiator's outstanding
//! counter back to zero for its own returned probe means a cycle: deadlock.

use vstd::prelude::*;
use crate::Addr;
use crate::node::{cmh_unchanged, core_unchanged, overlay_unchanged, resources_unchanged, Node};
use crate::table::AddrSet;

verus! {

broadcast use vstd::std_specs::hash::group_hash_axioms;

/// One probe: initiator `k`, test number `m`, sender `j`, receiver `i`.
#[derive(Clone, Copy, Debug, PartialEq, Eq, Structural)]
pub struct ProbeMessage {
    pub k: Addr,
    pub m: u64,
    pub j: Addr,
    pub i: Addr,
}

/// The messages of the detection plane, forwarded around the ring.  A
/// `ProbeAnswer` carries the initiator, the test number, the node whose
/// probe bounced, and the destination.
#[derive(Clone, Copy, Debug, PartialEq, Eq, Structural)]
pub enum CmhMessageType {
    ProbeRequest(ProbeMessage),
    ProbeAnswer(Addr, u64, Addr, Addr),
    DetectionStart,
    RequestPermission(Addr),
    DenyPermission,
    GrantPermission(Addr),
    Success(u64),
    Error(u64),
}

/// Why a detection-plane request was refused.
#[derive(Clone, Copy, Debug, PartialEq, Eq, Structural)]
pub enum CmhError {
    /// Detection cannot start at an active node.
    NodeActive,
    /// The peer answered with a message kind that makes no sense here.
    Protocol,
    /// The send itself failed.
    Transport,
}

/// What a node does with an inbound detection message: answer the caller or
/// forward along `next` keeping the original sender.
#[derive(Clone, Copy, Debug, PartialEq, Eq, Structural)]
pub enum CmhAction {
    Reply(CmhMessageType),
    Forward(CmhMessageType, Addr),
}

/// Everything one inbound detection message causes: the answer to the
/// caller, fresh messages this node sends itself, and whether deadlock was
/// declared here.
#[derive(Debug, PartialEq, Eq)]
pub struct CmhOutcome {
    pub action: CmhAction,
    pub sends: Vec<CmhMessageType>,
    pub deadlock: bool,
}

/// The probe test number recorded for initiator `k`; never seen means zero.
pub open spec fn last_test_of(m: Map<Addr, u64>, k: Addr) -> u64 {
    if m.contains_key(k) {
        m[k]
    } else {
        0
    }
}

/// Whether this node participates in initiator `k`'s current round.
pub open spec fn wait_status_of(m: Map<Addr, bool>, k: Addr) -> bool {
    if m.contains_key(k) {
        m[k]
    } else {
        false
    }
}

/// Outstanding answers expected for initiator `k`; never seen means zero.
pub open spec fn probe_count_of(m: Map<Addr, u64>, k: Addr) -> u64 {
    if m.contains_key(k) {
        m[k]
    } else {
        0
    }
}

/// A counter bumped by one, topping out instead of wrapping.
pub open spec fn bump(t: u64) -> u64 {
    if t < u64::MAX {
        (t + 1) as u64
    } else {
        t
    }
}

/// For every initiator, the recorded probe test number never decreases.
pub open spec fn last_test_monotone(pre: Node, post: Node) -> bool {
    forall|k: Addr| last_test_of(pre.last_test@, k) <= #[trigger] last_test_of(post.last_test@, k)
}

/// Nothing outside the detector state changed.
pub open spec fn unchanged_but_cmh(pre: Node, post: Node) -> bool {
    &&& core_unchanged(pre, post)
    &&& overlay_unchanged(pre, post)
    &&& resources_unchanged(pre, post)
}

/// Nothing at all changed.
pub open spec fn node_unchanged(pre: Node, post: Node) -> bool {
    &&& unchanged_but_cmh(pre, post)
    &&& cmh_unchanged(pre, post)
}

/// What receiving our own probe request `probe` (with `probe.i` naming this
/// node) does: a newer test number is adopted and propagated along every
/// wait-for edge; the current test number bounces an answer back to the
/// sender; anything else is dropped.  An active node ignores probes.
pub open spec fn probe_effect(
    pre: Node,
    post: Node,
    probe: ProbeMessage,
    sends: Seq<CmhMessageType>,
) -> bool {
    let t = last_test_of(pre.last_test@, probe.k);
    &&& unchanged_but_cmh(pre, post)
    &&& post.is_active == pre.is_active
    &&& post.waiting_messages_from@ == pre.waiting_messages_from@
    &&& post.permission_queue@ == pre.permission_queue@
    &&& if pre.is_active {
        &&& cmh_unchanged(pre, post)
        &&& sends == Seq::<CmhMessageType>::empty()
    } else if probe.m > t {
        &&& post.last_test@ == pre.last_test@.insert(probe.k, probe.m)
        &&& post.wait_status@ == pre.wait_status@.insert(probe.k, true)
        &&& post.parent_nodes@ == pre.parent_nodes@.insert(probe.k, probe.j)
        &&& post.probe_count@ == pre.probe_count@.insert(
            probe.k,
            pre.waiting_messages_from@.len() as u64,
        )
        &&& sends.len() == pre.waiting_messages_from@.len()
        &&& forall|x: int|
            0 <= x < sends.len() ==> sends[x] == CmhMessageType::ProbeRequest(
                ProbeMessage {
                    k: probe.k,
                    m: probe.m,
                    j: pre.addr,
                    i: pre.waiting_messages_from@[x],
                },
            )
    } else if probe.m == t && wait_status_of(pre.wait_status@, probe.k) {
        &&& cmh_unchanged(pre, post)
        &&& sends == seq![CmhMessageType::ProbeAnswer(probe.k, probe.m, probe.i, probe.j)]
    } else {
        &&& cmh_unchanged(pre, post)
        &&& sends == Seq::<CmhMessageType>::empty()
    }
}

/// What receiving a probe answer for initiator `k`, test `m`, bounced at
/// `r`, does: a relevant answer decrements the outstanding counter; the
/// counter reaching zero either declares deadlock — only at the initiator,
/// and only for its own returned probe — or propagates the answer to the
/// recorded parent.  Stale or unexpected answers are dropped.
pub open spec fn probe_answer_effect(
    pre: Node,
    post: Node,
    k: Addr,
    m: u64,
    r: Addr,
    sends: Seq<CmhMessageType>,
    deadlock: bool,
) -> bool {
    let t = last_test_of(pre.last_test@, k);
    let ws = wait_status_of(pre.wait_status@, k);
    let c = probe_count_of(pre.probe_count@, k);
    &&& unchanged_but_cmh(pre, post)
    &&& post.is_active == pre.is_active
    &&& post.waiting_messages_from@ == pre.waiting_messages_from@
    &&& post.permission_queue@ == pre.permission_queue@
    &&& post.last_test@ == pre.last_test@
    &&& post.parent_nodes@ == pre.parent_nodes@
    &&& if pre.is_active || m != t || !ws || c == 0 {
        &&& cmh_unchanged(pre, post)
        &&& sends == Seq::<CmhMessageType>::empty()
        &&& !deadlock
    } else {
        &&& post.probe_count@ == pre.probe_count@.insert(k, (c - 1) as u64)
        &&& if c == 1 {
            &&& post.wait_status@ == pre.wait_status@.insert(k, false)
            &&& deadlock == (k == pre.addr && r == pre.addr)
            &&& if deadlock {
                sends == Seq::<CmhMessageType>::empty()
            } else if pre.parent_nodes@.contains_key(k) {
                sends == seq![CmhMessageType::ProbeAnswer(k, m, r, pre.parent_nodes@[k])]
            } else {
                sends == Seq::<CmhMessageType>::empty()
            }
        } else {
            &&& post.wait_status@ == pre.wait_status@
            &&& sends == Seq::<CmhMessageType>::empty()
            &&& !deadlock
        }
    }
}

/// What starting detection at a passive node does: its own test number is
/// bumped, it joins its own round, and one probe goes out along every
/// wait-for edge, the outstanding counter set to their number.
pub open spec fn start_detection_effect(pre: Node, post: Node, probes: Seq<CmhMessageType>) -> bool {
    let k = pre.addr;
    let t2 = bump(last_test_of(pre.last_test@, k));
    &&& unchanged_but_cmh(pre, post)
    &&& post.is_active == pre.is_active
    &&& post.waiting_messages_from@ == pre.waiting_messages_from@
    &&& post.permission_queue@ == pre.permission_queue@
    &&& post.last_test@ == pre.last_test@.insert(k, t2)
    &&& post.wait_status@ == pre.wait_status@.insert(k, true)
    &&& post.parent_nodes@ == pre.parent_nodes@
    &&& post.probe_count@ == pre.probe_count@.insert(k, pre.waiting_messages_from@.len() as u64)
    &&& probes.len() == pre.waiting_messages_from@.len()
    &&& forall|x: int|
        0 <= x < probes.len() ==> probes[x] == CmhMessageType::ProbeRequest(
            ProbeMessage { k: k, m: t2, j: k, i: pre.waiting_messages_from@[x] },
        )
}

/// What going active does: the wait-set empties and everyone who asked for
/// permission while we were passive is granted it, in the order they asked.
pub open spec fn set_active_effect(pre: Node, post: Node, grants: Seq<CmhMessageType>) -> bool {
    &&& unchanged_but_cmh(pre, post)
    &&& post.is_active
    &&& post.waiting_messages_from@ == Seq::<Addr>::empty()
    &&& post.permission_queue@ == Seq::<Addr>::empty()
    &&& post.last_test@ == pre.last_test@
    &&& post.wait_status@ == pre.wait_status@
    &&& post.parent_nodes@ == pre.parent_nodes@
    &&& post.probe_count@ == pre.probe_count@
    &&& grants.len() == pre.permission_queue@.len()
    &&& forall|x: int|
        0 <= x < grants.len() ==> grants[x] == CmhMessageType::GrantPermission(
            pre.permission_queue@[x],
        )
}

/// What a permission granted to us does: the granter leaves our wait-set;
/// when the set empties we go active, draining the permission queue.
pub open spec fn permission_from_effect(
    pre: Node,
    post: Node,
    from: Addr,
    grants: Seq<CmhMessageType>,
) -> bool {
    let w2 = pre.waiting_messages_from@.remove_value(from);
    &&& unchanged_but_cmh(pre, post)
    &&& post.last_test@ == pre.last_test@
    &&& post.wait_status@ == pre.wait_status@
    &&& post.parent_nodes@ == pre.parent_nodes@
    &&& post.probe_count@ == pre.probe_count@
    &&& if w2.len() == 0 {
        &&& post.is_active
        &&& post.waiting_messages_from@ == Seq::<Addr>::empty()
        &&& post.permission_queue@ == Seq::<Addr>::empty()
        &&& grants.len() == pre.permission_queue@.len()
        &&& forall|x: int|
            0 <= x < grants.len() ==> grants[x] == CmhMessageType::GrantPermission(
                pre.permission_queue@[x],
            )
    } else {
        &&& post.is_active == pre.is_active
        &&& post.waiting_messages_from@ == w2
        &&& post.permission_queue@ == pre.permission_queue@
        &&& grants == Seq::<CmhMessageType>::empty()
    }
}

/// The test number recorded for any initiator never decreases across a
/// chain of steps.
pub proof fn lemma_last_test_monotone_trans(a: Node, b: Node, c: Node)
    requires
        last_test_monotone(a, b),
        last_test_monotone(b, c),
    ensures
        last_test_monotone(a, c),
{
}

/// Deadlock is declared only at the initiator, only for its own returned
/// probe, and only when the answer brings its outstanding counter from one
/// to zero in the current test round.
pub proof fn lemma_deadlock_only_at_initiator(
    pre: Node,
    post: Node,
    k: Addr,
    m: u64,
    r: Addr,
    sends: Seq<CmhMessageType>,
    deadlock: bool,
)
    requires
        probe_answer_effect(pre, post, k, m, r, sends, deadlock),
        deadlock,
    ensures
        k == pre.addr,
        r == pre.addr,
        !pre.is_active,
        m == last_test_of(pre.last_test@, k),
        wait_status_of(pre.wait_status@, k),
        probe_count_of(pre.probe_count@, k) == 1,
        probe_count_of(post.probe_count@, k) == 0,
        !wait_status_of(post.wait_status@, k),
{
}

/// One `GrantPermission` for every member of `queue`, in order.
fn grants_for(queue: &AddrSet) -> (grants: Vec<CmhMessageType>)
    ensures
        grants@.len() == queue@.len(),
        forall|x: int|
            0 <= x < grants@.len() ==> grants@[x] == CmhMessageType::GrantPermission(queue@[x]),
{
    let n = queue.len();
    let mut grants: Vec<CmhMessageType> = Vec::new();
    let mut idx: usize = 0;
    while idx < n
        invariant
            n == queue@.len(),
            idx <= n,
            grants@.len() == idx,
            forall|x: int|
                0 <= x < idx ==> grants@[x] == CmhMessageType::GrantPermission(queue@[x]),
        decreases n - idx,
    {
        grants.push(CmhMessageType::GrantPermission(queue.index(idx)));
        idx = idx + 1;
    }
    grants
}

/// One probe of initiator `k` and test `m` from `me` to every member of
/// `waiting`, in order.
fn probes_for(waiting: &AddrSet, k: Addr, m: u64, me: Addr) -> (probes: Vec<CmhMessageType>)
    ensures
        probes@.len() == waiting@.len(),
        forall|x: int|
            0 <= x < probes@.len() ==> probes@[x] == CmhMessageType::ProbeRequest(
                ProbeMessage { k: k, m: m, j: me, i: waiting@[x] },
            ),
{
    let n = waiting.len();
    let mut probes: Vec<CmhMessageType> = Vec::new();
    let mut idx: usize = 0;
    while idx < n
        invariant
            n == waiting@.len(),
            idx <= n,
            probes@.len() == idx,
            forall|x: int|
                0 <= x < idx ==> probes@[x] == CmhMessageType::ProbeRequest(
                    ProbeMessage { k: k, m: m, j: me, i: waiting@[x] },
                ),
        decreases n - idx,
    {
        probes.push(
            CmhMessageType::ProbeRequest(ProbeMessage { k, m, j: me, i: waiting.index(idx) }),
        );
        idx = idx + 1;
    }
    probes
}

impl Node {
    fn get_last_test(&self, k: Addr) -> (r: u64)
        ensures
            r == last_test_of(self.last_test@, k),
    {
        match self.last_test.get(&k) {
            Some(v) => *v,
            None => 0,
        }
    }

    fn get_wait_status(&self, k: Addr) -> (r: bool)
        ensures
            r == wait_status_of(self.wait_status@, k),
    {
        match self.wait_status.get(&k) {
            Some(v) => *v,
            None => false,
        }
    }

    fn get_probe_count(&self, k: Addr) -> (r: u64)
        ensures
            r == probe_count_of(self.probe_count@, k),
    {
        match self.probe_count.get(&k) {
            Some(v) => *v,
            None => 0,
        }
    }

    /// The local process stops progressing.
    pub fn set_passive(&mut self)
        ensures
            *final(self) == (Node { is_active: false, ..*old(self) }),
    {
        self.is_active = false;
    }

    /// The local process progresses again; everyone queued for our
    /// permission is granted it.
    pub fn set_active(&mut self) -> (grants: Vec<CmhMessageType>)
        ensures
            set_active_effect(*old(self), *final(self), grants@),
    {
        let grants = grants_for(&self.permission_queue);
        self.is_active = true;
        self.waiting_messages_from.clear();
        self.permission_queue.clear();
        grants
    }

    /// Simulate a dependency: we go passive waiting on `from`, and ask it
    /// for permission.  The caller sends the returned request along the
    /// ring and feeds the reply to `handle_waiting_for_reply`.
    pub fn handle_waiting_for(&mut self, from: Addr) -> (request: CmhMessageType)
        ensures
            unchanged_but_cmh(*old(self), *final(self)),
            !final(self).is_active,
            old(self).waiting_messages_from@.contains(from) ==> final(self).waiting_messages_from@ == old(self).waiting_messages_from@,
            !old(self).waiting_messages_from@.contains(from) ==> final(self).waiting_messages_from@ == old(self).waiting_messages_from@.push(from),
            final(self).permission_queue@ == old(self).permission_queue@,
            final(self).last_test@ == old(self).last_test@,
            final(self).wait_status@ == old(self).wait_status@,
            final(self).parent_nodes@ == old(self).parent_nodes@,
            final(self).probe_count@ == old(self).probe_count@,
            request == CmhMessageType::RequestPermission(from),
    {
        self.is_active = false;
        self.waiting_messages_from.insert(from);
        CmhMessageType::RequestPermission(from)
    }

    /// The reply to our own permission request: a grant unblocks us from
    /// `from`, a denial leaves us passive, anything else is an error.
    pub fn handle_waiting_for_reply(&mut self, from: Addr, reply: CmhMessageType) -> (r: Result<
        (),
        CmhError,
    >)
        ensures
            unchanged_but_cmh(*old(self), *final(self)),
            final(self).permission_queue@ == old(self).permission_queue@,
            final(self).last_test@ == old(self).last_test@,
            final(self).wait_status@ == old(self).wait_status@,
            final(self).parent_nodes@ == old(self).parent_nodes@,
            final(self).probe_count@ == old(self).probe_count@,
            match reply {
                CmhMessageType::GrantPermission(_) => {
                    &&& final(self).waiting_messages_from@ == old(self).waiting_messages_from@.remove_value(from)
                    &&& final(self).is_active
                    &&& r is Ok
                },
                CmhMessageType::DenyPermission => {
                    &&& final(self).waiting_messages_from@ == old(self).waiting_messages_from@
                    &&& final(self).is_active == old(self).is_active
                    &&& r is Ok
                },
                CmhMessageType::Error(_) => {
                    &&& final(self).waiting_messages_from@ == old(self).waiting_messages_from@
                    &&& final(self).is_active == old(self).is_active
                    &&& r == Err::<(), CmhError>(CmhError::Transport)
                },
                _ => {
                    &&& final(self).waiting_messages_from@ == old(self).waiting_messages_from@
                    &&& final(self).is_active == old(self).is_active
                    &&& r == Err::<(), CmhError>(CmhError::Protocol)
                },
            },
    {
        match reply {
            CmhMessageType::GrantPermission(_addr) => {
                self.waiting_messages_from.remove(from);
                self.is_active = true;
                Ok(())
            },
            CmhMessageType::DenyPermission => Ok(()),
            CmhMessageType::Error(_) => Err(CmhError::Transport),
            _ => Err(CmhError::Protocol),
        }
    }

    /// A permission granted to us arrived over the ring.
    pub fn handle_permission_from(&mut self, from: Addr) -> (grants: Vec<CmhMessageType>)
        ensures
            permission_from_effect(*old(self), *final(self), from, grants@),
    {
        self.waiting_messages_from.remove(from);
        if self.waiting_messages_from.is_empty() {
            self.set_active()
        } else {
            Vec::new()
        }
    }

    /// Begin a detection round at this node; refused while we are active.
    pub fn start_detection(&mut self) -> (r: Result<Vec<CmhMessageType>, CmhError>)
        ensures
            last_test_monotone(*old(self), *final(self)),
            old(self).is_active ==> {
                &&& *final(self) == *old(self)
                &&& r == Err::<Vec<CmhMessageType>, CmhError>(CmhError::NodeActive)
            },
            !old(self).is_active ==> {
                &&& r is Ok
                &&& start_detection_effect(*old(self), *final(self), (r->Ok_0)@)
            },
    {
        if self.is_active {
            return Err(CmhError::NodeActive);
        }
        let k = self.addr;
        let t = self.get_last_test(k);
        let t2 = if t < u64::MAX {
            t + 1
        } else {
            t
        };
        self.last_test.insert(k, t2);
        self.wait_status.insert(k, true);
        let probes = probes_for(&self.waiting_messages_from, k, t2, k);
        let count = self.waiting_messages_from.len() as u64;
        self.probe_count.insert(k, count);
        Ok(probes)
    }

    /// A probe addressed to this node arrived.
    pub fn handle_probe(&mut self, probe: ProbeMessage) -> (sends: Vec<CmhMessageType>)
        ensures
            probe_effect(*old(self), *final(self), probe, sends@),
            last_test_monotone(*old(self), *final(self)),
    {
        if self.is_active {
            return Vec::new();
        }
        let t = self.get_last_test(probe.k);
        if probe.m > t {
            self.last_test.insert(probe.k, probe.m);
            self.wait_status.insert(probe.k, true);
            self.parent_nodes.insert(probe.k, probe.j);
            let sends = probes_for(&self.waiting_messages_from, probe.k, probe.m, self.addr);
            let count = self.waiting_messages_from.len() as u64;
            self.probe_count.insert(probe.k, count);
            sends
        } else if probe.m == t && self.get_wait_status(probe.k) {
            let mut sends: Vec<CmhMessageType> = Vec::new();
            sends.push(CmhMessageType::ProbeAnswer(probe.k, probe.m, probe.i, probe.j));
            proof {
                assert(sends@ =~= seq![
                    CmhMessageType::ProbeAnswer(probe.k, probe.m, probe.i, probe.j),
                ]);
            }
            sends
        } else {
            Vec::new()
        }
    }

    /// A probe answer addressed to this node arrived: initiator `k`, test
    /// `m`, bounced at `r`.
    pub fn handle_probe_answer(&mut self, k: Addr, m: u64, r: Addr) -> (out: (
        Vec<CmhMessageType>,
        bool,
    ))
        ensures
            probe_answer_effect(*old(self), *final(self), k, m, r, out.0@, out.1),
            last_test_monotone(*old(self), *final(self)),
    {
        if self.is_active {
            return (Vec::new(), false);
        }
        let t = self.get_last_test(k);
        if m != t || !self.get_wait_status(k) {
            return (Vec::new(), false);
        }
        let c = self.get_probe_count(k);
        if c == 0 {
            // an answer we never asked for: tolerated, ignored
            return (Vec::new(), false);
        }
        self.probe_count.insert(k, c - 1);
        if c == 1 {
            self.wait_status.insert(k, false);
            if k == self.addr && r == self.addr {
                // the initiator's own probe came home: deadlock
                (Vec::new(), true)
            } else {
                let sends = match self.parent_nodes.get(&k) {
                    Some(parent) => {
                        let mut v: Vec<CmhMessageType> = Vec::new();
                        v.push(CmhMessageType::ProbeAnswer(k, m, r, *parent));
                        proof {
                            assert(v@ =~= seq![
                                CmhMessageType::ProbeAnswer(
                                    k,
                                    m,
                                    r,
                                    old(self).parent_nodes@[k],
                                ),
                            ]);
                        }
                        v
                    },
                    None => Vec::new(),
                };
                (sends, false)
            }
        } else {
            (Vec::new(), false)
        }
    }

    /// Serve an inbound detection-plane message: permissions and probes
    /// addressed to this node are handled, everything else is forwarded
    /// along `next` unchanged.
    pub fn handle_cmh_message(&mut self, msg: CmhMessageType, from: Addr) -> (out: CmhOutcome)
        ensures
            last_test_monotone(*old(self), *final(self)),
            match msg {
                CmhMessageType::RequestPermission(a) => {
                    &&& out.deadlock == false
                    &&& if a != old(self).addr {
                        &&& node_unchanged(*old(self), *final(self))
                        &&& out.action == CmhAction::Forward(msg, from)
                        &&& out.sends@ == Seq::<CmhMessageType>::empty()
                    } else if old(self).is_active {
                        &&& node_unchanged(*old(self), *final(self))
                        &&& out.action == CmhAction::Reply(CmhMessageType::GrantPermission(from))
                        &&& out.sends@ == Seq::<CmhMessageType>::empty()
                    } else {
                        &&& unchanged_but_cmh(*old(self), *final(self))
                        &&& final(self).is_active == old(self).is_active
                        &&& final(self).waiting_messages_from@ == old(self).waiting_messages_from@
                        &&& (old(self).permission_queue@.contains(from) ==> final(self).permission_queue@ == old(self).permission_queue@)
                        &&& (!old(self).permission_queue@.contains(from) ==> final(self).permission_queue@ == old(self).permission_queue@.push(from))
                        &&& final(self).last_test@ == old(self).last_test@
                        &&& final(self).wait_status@ == old(self).wait_status@
                        &&& final(self).parent_nodes@ == old(self).parent_nodes@
                        &&& final(self).probe_count@ == old(self).probe_count@
                        &&& out.action == CmhAction::Reply(CmhMessageType::DenyPermission)
                        &&& out.sends@ == Seq::<CmhMessageType>::empty()
                    }
                },
                CmhMessageType::GrantPermission(a) => {
                    &&& out.deadlock == false
                    &&& if a == old(self).addr {
                        &&& permission_from_effect(*old(self), *final(self), from, out.sends@)
                        &&& out.action == CmhAction::Reply(
                            CmhMessageType::Success(old(self).lamport_time),
                        )
                    } else {
                        &&& node_unchanged(*old(self), *final(self))
                        &&& out.action == CmhAction::Forward(msg, from)
                        &&& out.sends@ == Seq::<CmhMessageType>::empty()
                    }
                },
                CmhMessageType::ProbeRequest(probe) => {
                    &&& out.deadlock == false
                    &&& if probe.i == old(self).addr {
                        &&& probe_effect(*old(self), *final(self), probe, out.sends@)
                        &&& out.action == CmhAction::Reply(
                            CmhMessageType::Success(old(self).lamport_time),
                        )
                    } else {
                        &&& node_unchanged(*old(self), *final(self))
                        &&& out.action == CmhAction::Forward(msg, from)
                        &&& out.sends@ == Seq::<CmhMessageType>::empty()
                    }
                },
                CmhMessageType::ProbeAnswer(k, m, r, i) => {
                    if i == old(self).addr {
                        &&& probe_answer_effect(
                            *old(self),
                            *final(self),
                            k,
                            m,
                            r,
                            out.sends@,
                            out.deadlock,
                        )
                        &&& out.action == CmhAction::Reply(
                            CmhMessageType::Success(old(self).lamport_time),
                        )
                    } else {
                        &&& node_unchanged(*old(self), *final(self))
                        &&& out.action == CmhAction::Forward(msg, from)
                        &&& out.sends@ == Seq::<CmhMessageType>::empty()
                        &&& out.deadlock == false
                    }
                },
                CmhMessageType::DetectionStart => {
                    &&& out.deadlock == false
                    &&& if old(self).is_active {
                        &&& node_unchanged(*old(self), *final(self))
                        &&& out.action == CmhAction::Reply(
                            CmhMessageType::Error(old(self).lamport_time),
                        )
                        &&& out.sends@ == Seq::<CmhMessageType>::empty()
                    } else {
                        &&& start_detection_effect(*old(self), *final(self), out.sends@)
                        &&& out.action == CmhAction::Reply(
                            CmhMessageType::Success(old(self).lamport_time),
                        )
                    }
                },
                _ => {
                    &&& node_unchanged(*old(self), *final(self))
                    &&& out.action == CmhAction::Reply(
                        CmhMessageType::Error(old(self).lamport_time),
                    )
                    &&& out.sends@ == Seq::<CmhMessageType>::empty()
                    &&& out.deadlock == false
                },
            },
    {
        match msg {
            CmhMessageType::RequestPermission(a) => {
                if a == self.addr {
                    if self.is_active {
                        CmhOutcome {
                            action: CmhAction::Reply(CmhMessageType::GrantPermission(from)),
                            sends: Vec::new(),
                            deadlock: false,
                        }
                    } else {
                        self.permission_queue.insert(from);
                        CmhOutcome {
                            action: CmhAction::Reply(CmhMessageType::DenyPermission),
                            sends: Vec::new(),
                            deadlock: false,
                        }
                    }
                } else {
                    CmhOutcome {
                        action: CmhAction::Forward(msg, from),
                        sends: Vec::new(),
                        deadlock: false,
                    }
                }
            },
            CmhMessageType::GrantPermission(a) => {
                if a == self.addr {
                    let lamport = self.lamport_time;
                    let grants = self.handle_permission_from(from);
                    CmhOutcome {
                        action: CmhAction::Reply(CmhMessageType::Success(lamport)),
                        sends: grants,
                        deadlock: false,
                    }
                } else {
                    CmhOutcome {
                        action: CmhAction::Forward(msg, from),
                        sends: Vec::new(),
                        deadlock: false,
                    }
                }
            },
            CmhMessageType::ProbeRequest(probe) => {
                if probe.i == self.addr {
                    let lamport = self.lamport_time;
                    let sends = self.handle_probe(probe);
                    CmhOutcome {
                        action: CmhAction::Reply(CmhMessageType::Success(lamport)),
                        sends,
                        deadlock: false,
                    }
                } else {
                    CmhOutcome {
                        action: CmhAction::Forward(msg, from),
                        sends: Vec::new(),
                        deadlock: false,
                    }
                }
            },
            CmhMessageType::ProbeAnswer(k, m, r, i) => {
                if i == self.addr {
                    let lamport = self.lamport_time;
                    let (sends, deadlock) = self.handle_probe_answer(k, m, r);
                    CmhOutcome {
                        action: CmhAction::Reply(CmhMessageType::Success(lamport)),
                        sends,
                        deadlock,
                    }
                } else {
                    CmhOutcome {
                        action: CmhAction::Forward(msg, from),
                        sends: Vec::new(),
                        deadlock: false,
                    }
                }
            },
            CmhMessageType::DetectionStart => {
                let lamport = self.lamport_time;
                match self.start_detection() {
                    Ok(probes) => CmhOutcome {
                        action: CmhAction::Reply(CmhMessageType::Success(lamport)),
                        sends: probes,
                        deadlock: false,
                    },
                    Err(_) => CmhOutcome {
                        action: CmhAction::Reply(CmhMessageType::Error(lamport)),
                        sends: Vec::new(),
                        deadlock: false,
                    },
                }
            },
            _ => CmhOutcome {
                action: CmhAction::Reply(CmhMessageType::Error(self.lamport_time)),
                sends: Vec::new(),
                deadlock: false,
            },
        }
    }
}

} // verus!
