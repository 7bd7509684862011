//! The distributed resource manager.  Each node owns some resources; a
//! request for a resource travels along `next` until it meets the owner,
//! and the reply travels back the same way.  The owner grants to the first
//! free requester and queues the rest in arrival order.

use vstd::prelude::*;
use crate::Addr;
use crate::node::{cmh_unchanged, core_unchanged, overlay_unchanged, resources_unchanged, Node};
use crate::table::NameMap;

verus! {

/// The messages of the resource plane, forwarded around the ring.
#[derive(Debug, Clone, PartialEq, Eq)]
pub enum ResourceMessageType {
    ResourceQuery(String),
    Acquire(String),
    Release(String),
    Owner(Addr),
    Granted(String, Addr),
    Queued,
    Unknown,
    Error,
    Success,
}

/// A resource request could not be answered by any node on the ring.
#[derive(Clone, Copy, Debug, PartialEq, Eq, Structural)]
pub enum ResourceError {
    NotFound,
}

/// What a node does with an inbound resource message: answer it, forward it
/// along `next` (keeping the original sender), or answer and send a fresh
/// message of its own.
#[derive(Debug, PartialEq, Eq)]
pub enum ResourceAction {
    Reply(ResourceMessageType),
    Forward(ResourceMessageType, Addr),
    ReplyAndSend(ResourceMessageType, ResourceMessageType),
}

/// The owner-side state of one resource: who holds it, and who waits,
/// oldest first.
#[derive(Debug)]
pub struct ResourceState {
    pub current_user: Option<Addr>,
    pub request_queue: Vec<Addr>,
}

/// The mathematical shape of a resource's owner-side state.
pub ghost struct ResourceModel {
    pub current_user: Option<Addr>,
    pub request_queue: Seq<Addr>,
}

impl View for ResourceState {
    type V = ResourceModel;

    open spec fn view(&self) -> ResourceModel {
        ResourceModel { current_user: self.current_user, request_queue: self.request_queue@ }
    }
}

/// The owner's step for an arriving `Acquire` from `from`: grant when free,
/// else append to the back of the queue.  The second component says whether
/// the grant happened.
pub open spec fn acquire_step(s: ResourceModel, from: Addr) -> (ResourceModel, bool) {
    if s.current_user is None {
        (ResourceModel { current_user: Some(from), ..s }, true)
    } else {
        (ResourceModel { request_queue: s.request_queue.push(from), ..s }, false)
    }
}

/// The owner's step when the holder releases: the front of the queue, if
/// any, becomes the new holder and is granted.
pub open spec fn release_step(s: ResourceModel) -> (ResourceModel, Option<Addr>) {
    if s.request_queue.len() == 0 {
        (ResourceModel { current_user: None, ..s }, None)
    } else {
        (
            ResourceModel {
                current_user: Some(s.request_queue.first()),
                request_queue: s.request_queue.drop_first(),
            },
            Some(s.request_queue.first()),
        )
    }
}

impl Node {
    /// Mark this node as the owner of `resource`, free and with no waiters.
    pub fn assign_resource(&mut self, resource: String)
        ensures
            final(self).owned_resources@ == old(self).owned_resources@.insert(
                resource@,
                (ResourceModel { current_user: None, request_queue: Seq::empty() }),
            ),
            final(self).waiting_for@ == old(self).waiting_for@,
            final(self).used_resources@ == old(self).used_resources@,
            final(self).blocked_processes@ == old(self).blocked_processes@,
            core_unchanged(*old(self), *final(self)),
            overlay_unchanged(*old(self), *final(self)),
            cmh_unchanged(*old(self), *final(self)),
    {
        self.owned_resources.insert(
            resource,
            ResourceState { current_user: None, request_queue: Vec::new() },
        );
    }

    /// The local half of owner discovery: the owner is this node itself, or
    /// the query has to travel the ring.
    pub fn find_resource_owner(&self, resource_id: &String) -> (r: Option<Addr>)
        ensures
            r == if self.owned_resources@.contains_key(resource_id@) {
                Some(self.addr)
            } else {
                None::<Addr>
            },
    {
        if self.owned_resources.contains_key(resource_id) {
            Some(self.addr)
        } else {
            None
        }
    }

    /// What a `ResourceQuery` reply means: any answer but `Owner` says no
    /// node on the ring owns the resource.
    pub fn owner_from_reply(reply: ResourceMessageType) -> (r: Result<Addr, ResourceError>)
        ensures
            r == match reply {
                ResourceMessageType::Owner(a) => Ok::<Addr, ResourceError>(a),
                _ => Err::<Addr, ResourceError>(ResourceError::NotFound),
            },
    {
        match reply {
            ResourceMessageType::Owner(a) => Ok(a),
            _ => Err(ResourceError::NotFound),
        }
    }

    /// A grant reached us: record the owner under the resource, and stop
    /// waiting on and being blocked by that owner.
    fn use_resource(&mut self, resource: String, owner: Addr)
        ensures
            final(self).used_resources@ == old(self).used_resources@.insert(resource@, owner),
            final(self).waiting_for@ == old(self).waiting_for@.remove(resource@),
            final(self).blocked_processes@ == old(self).blocked_processes@.remove_value(owner),
            final(self).owned_resources@ == old(self).owned_resources@,
            core_unchanged(*old(self), *final(self)),
            overlay_unchanged(*old(self), *final(self)),
            cmh_unchanged(*old(self), *final(self)),
    {
        self.waiting_for.remove(&resource);
        self.blocked_processes.remove(owner);
        self.used_resources.insert(resource, owner);
    }

    /// The requester's half of an acquisition, given the owner found by
    /// discovery and the owner's reply to our `Acquire`.
    pub fn acquire_resource(&mut self, resource: String, owner: Addr, response:
        ResourceMessageType) -> (r: AcquireOutcome)
        ensures
            final(self).owned_resources@ == old(self).owned_resources@,
            core_unchanged(*old(self), *final(self)),
            overlay_unchanged(*old(self), *final(self)),
            cmh_unchanged(*old(self), *final(self)),
            match response {
                ResourceMessageType::Granted(res, _addr) => {
                    &&& r == AcquireOutcome::Granted
                    &&& final(self).used_resources@ == old(self).used_resources@.insert(
                        res@,
                        owner,
                    )
                    &&& final(self).waiting_for@ == old(self).waiting_for@.remove(res@)
                    &&& final(self).blocked_processes@
                        == old(self).blocked_processes@.remove_value(owner)
                },
                ResourceMessageType::Queued => {
                    &&& r == AcquireOutcome::Queued
                    &&& final(self).waiting_for@ == old(self).waiting_for@.insert(
                        resource@,
                        owner,
                    )
                    &&& (old(self).blocked_processes@.contains(owner)
                        ==> final(self).blocked_processes@ == old(self).blocked_processes@)
                    &&& (!old(self).blocked_processes@.contains(owner)
                        ==> final(self).blocked_processes@ == old(self).blocked_processes@.push(
                        owner,
                    ))
                    &&& final(self).used_resources@ == old(self).used_resources@
                },
                _ => {
                    &&& r == AcquireOutcome::Unknown
                    &&& resources_unchanged(*old(self), *final(self))
                },
            },
    {
        match response {
            ResourceMessageType::Granted(res, _addr) => {
                self.use_resource(res, owner);
                AcquireOutcome::Granted
            },
            ResourceMessageType::Queued => {
                self.waiting_for.insert(resource, owner);
                self.blocked_processes.insert(owner);
                AcquireOutcome::Queued
            },
            _ => AcquireOutcome::Unknown,
        }
    }

    /// The requester's half of a release: forget the resource and say what
    /// to send; releasing something we do not hold is a silent no-op.
    pub fn release_resource(&mut self, resource: &String) -> (r: Option<ResourceMessageType>)
        ensures
            final(self).owned_resources@ == old(self).owned_resources@,
            final(self).waiting_for@ == old(self).waiting_for@,
            final(self).blocked_processes@ == old(self).blocked_processes@,
            core_unchanged(*old(self), *final(self)),
            overlay_unchanged(*old(self), *final(self)),
            cmh_unchanged(*old(self), *final(self)),
            old(self).used_resources@.contains_key(resource@) ==> {
                &&& final(self).used_resources@ == old(self).used_resources@.remove(resource@)
                &&& r == Some(ResourceMessageType::Release(*resource))
            },
            !old(self).used_resources@.contains_key(resource@) ==> {
                &&& final(self).used_resources@ == old(self).used_resources@
                &&& r is None
            },
    {
        if self.used_resources.contains_key(resource) {
            self.used_resources.remove(resource);
            Some(ResourceMessageType::Release(resource.clone()))
        } else {
            None
        }
    }
}

/// How requesters become the outcome of an acquisition attempt.
#[derive(Clone, Copy, Debug, PartialEq, Eq, Structural)]
pub enum AcquireOutcome {
    Granted,
    Queued,
    Unknown,
}

impl Node {
    /// Serve an inbound resource message.  A query is answered by the owner
    /// or bounced as `Unknown` once it has gone all the way around; an
    /// `Acquire` is granted or queued by the owner; a `Release` by the
    /// holder frees the resource and grants the longest waiter; a `Granted`
    /// addressed to us records the acquisition.  Anything not ours to
    /// answer is forwarded along `next` unchanged.
    pub fn handle_message(&mut self, msg: ResourceMessageType, from: Addr) -> (r: ResourceAction)
        ensures
            core_unchanged(*old(self), *final(self)),
            overlay_unchanged(*old(self), *final(self)),
            cmh_unchanged(*old(self), *final(self)),
            final(self).owned_resources@.dom() == old(self).owned_resources@.dom(),
            match msg {
                ResourceMessageType::ResourceQuery(rid) => {
                    &&& resources_unchanged(*old(self), *final(self))
                    &&& r == if old(self).owned_resources@.contains_key(rid@) {
                        ResourceAction::Reply(ResourceMessageType::Owner(old(self).addr))
                    } else if from == old(self).neighbor_info.next {
                        ResourceAction::Reply(ResourceMessageType::Unknown)
                    } else {
                        ResourceAction::Forward(ResourceMessageType::ResourceQuery(rid), from)
                    }
                },
                ResourceMessageType::Acquire(res) => {
                    &&& final(self).waiting_for@ == old(self).waiting_for@
                    &&& final(self).used_resources@ == old(self).used_resources@
                    &&& final(self).blocked_processes@ == old(self).blocked_processes@
                    &&& if old(self).owned_resources@.contains_key(res@) {
                        let (s2, granted) = acquire_step(old(self).owned_resources@[res@], from);
                        &&& final(self).owned_resources@ == old(self).owned_resources@.insert(
                            res@,
                            s2,
                        )
                        &&& r == if granted {
                            ResourceAction::Reply(ResourceMessageType::Granted(res, from))
                        } else {
                            ResourceAction::Reply(ResourceMessageType::Queued)
                        }
                    } else {
                        &&& final(self).owned_resources@ == old(self).owned_resources@
                        &&& r == ResourceAction::Forward(ResourceMessageType::Acquire(res), from)
                    }
                },
                ResourceMessageType::Release(res) => {
                    &&& final(self).waiting_for@ == old(self).waiting_for@
                    &&& final(self).used_resources@ == old(self).used_resources@
                    &&& final(self).blocked_processes@ == old(self).blocked_processes@
                    &&& if old(self).owned_resources@.contains_key(res@) && old(
                        self,
                    ).owned_resources@[res@].current_user == Some(from) {
                        let (s2, granted) = release_step(old(self).owned_resources@[res@]);
                        &&& final(self).owned_resources@ == old(self).owned_resources@.insert(
                            res@,
                            s2,
                        )
                        &&& r == match granted {
                            Some(h) => ResourceAction::ReplyAndSend(
                                ResourceMessageType::Success,
                                ResourceMessageType::Granted(res, h),
                            ),
                            None => ResourceAction::Reply(ResourceMessageType::Success),
                        }
                    } else {
                        &&& final(self).owned_resources@ == old(self).owned_resources@
                        &&& r == ResourceAction::Forward(ResourceMessageType::Release(res), from)
                    }
                },
                ResourceMessageType::Granted(res, user) => {
                    &&& final(self).owned_resources@ == old(self).owned_resources@
                    &&& if user == old(self).addr {
                        &&& final(self).used_resources@ == old(self).used_resources@.insert(
                            res@,
                            from,
                        )
                        &&& final(self).waiting_for@ == old(self).waiting_for@.remove(res@)
                        &&& final(self).blocked_processes@
                            == old(self).blocked_processes@.remove_value(from)
                        &&& r == ResourceAction::Reply(ResourceMessageType::Success)
                    } else {
                        &&& resources_unchanged(*old(self), *final(self))
                        &&& r == ResourceAction::Forward(
                            ResourceMessageType::Granted(res, user),
                            from,
                        )
                    }
                },
                _ => {
                    &&& resources_unchanged(*old(self), *final(self))
                    &&& r == ResourceAction::Reply(ResourceMessageType::Unknown)
                },
            },
    {
        match msg {
            ResourceMessageType::ResourceQuery(rid) => {
                if self.owned_resources.contains_key(&rid) {
                    ResourceAction::Reply(ResourceMessageType::Owner(self.addr))
                } else if from == self.neighbor_info.next {
                    ResourceAction::Reply(ResourceMessageType::Unknown)
                } else {
                    ResourceAction::Forward(ResourceMessageType::ResourceQuery(rid), from)
                }
            },
            ResourceMessageType::Acquire(res) => {
                match self.owned_resources.remove(&res) {
                    Some(mut state) => {
                        let granted = match state.current_user {
                            None => {
                                state.current_user = Some(from);
                                true
                            },
                            Some(_) => {
                                state.request_queue.push(from);
                                false
                            },
                        };
                        self.owned_resources.insert(res.clone(), state);
                        proof {
                            assert(final(self).owned_resources@ =~= old(
                                self,
                            ).owned_resources@.insert(
                                res@,
                                acquire_step(old(self).owned_resources@[res@], from).0,
                            ));
                        }
                        if granted {
                            ResourceAction::Reply(ResourceMessageType::Granted(res, from))
                        } else {
                            ResourceAction::Reply(ResourceMessageType::Queued)
                        }
                    },
                    None => ResourceAction::Forward(ResourceMessageType::Acquire(res), from),
                }
            },
            ResourceMessageType::Release(res) => {
                match self.owned_resources.remove(&res) {
                    Some(mut state) => {
                        let is_holder = match state.current_user {
                            Some(u) => u == from,
                            None => false,
                        };
                        if is_holder {
                            let next_user = if state.request_queue.len() > 0 {
                                Some(state.request_queue.remove(0))
                            } else {
                                None
                            };
                            state.current_user = next_user;
                            self.owned_resources.insert(res.clone(), state);
                            proof {
                                assert(old(self).owned_resources@[res@].request_queue.len() > 0
                                    ==> old(
                                    self,
                                ).owned_resources@[res@].request_queue.remove(0) =~= old(
                                    self,
                                ).owned_resources@[res@].request_queue.drop_first());
                                assert(final(self).owned_resources@ =~= old(
                                    self,
                                ).owned_resources@.insert(
                                    res@,
                                    release_step(old(self).owned_resources@[res@]).0,
                                ));
                            }
                            match next_user {
                                Some(h) => ResourceAction::ReplyAndSend(
                                    ResourceMessageType::Success,
                                    ResourceMessageType::Granted(res, h),
                                ),
                                None => ResourceAction::Reply(ResourceMessageType::Success),
                            }
                        } else {
                            self.owned_resources.insert(res.clone(), state);
                            proof {
                                assert(final(self).owned_resources@ =~= old(
                                    self,
                                ).owned_resources@);
                            }
                            ResourceAction::Forward(ResourceMessageType::Release(res), from)
                        }
                    },
                    None => ResourceAction::Forward(ResourceMessageType::Release(res), from),
                }
            },
            ResourceMessageType::Granted(res, user) => {
                if user == self.addr {
                    self.use_resource(res, from);
                    ResourceAction::Reply(ResourceMessageType::Success)
                } else {
                    ResourceAction::Forward(ResourceMessageType::Granted(res, user), from)
                }
            },
            _ => ResourceAction::Reply(ResourceMessageType::Unknown),
        }
    }
}

/// For a resource that only one node owns, only that node can report a
/// holder: any two nodes both reporting one are the same node.
pub proof fn lemma_at_most_one_holder(
    cluster: Map<Addr, Map<Seq<char>, ResourceModel>>,
    r: Seq<char>,
    a: Addr,
    b: Addr,
)
    requires
        forall|x: Addr, y: Addr|
            #[trigger] cluster.contains_key(x) && #[trigger] cluster.contains_key(y)
                && cluster[x].contains_key(r) && cluster[y].contains_key(r) ==> x == y,
        cluster.contains_key(a),
        cluster.contains_key(b),
        cluster[a].contains_key(r),
        cluster[b].contains_key(r),
        cluster[a][r].current_user is Some,
        cluster[b][r].current_user is Some,
    ensures
        a == b,
{
}

/// Serving a resource message at one node keeps ownership unique across the
/// cluster: the handler never adds a resource to the served node's table,
/// so a resource owned by one node stays owned by that node alone.
pub proof fn lemma_unique_ownership_preserved(
    cluster: Map<Addr, Map<Seq<char>, ResourceModel>>,
    served: Addr,
    table2: Map<Seq<char>, ResourceModel>,
    r: Seq<char>,
)
    requires
        forall|x: Addr, y: Addr|
            #[trigger] cluster.contains_key(x) && #[trigger] cluster.contains_key(y)
                && cluster[x].contains_key(r) && cluster[y].contains_key(r) ==> x == y,
        cluster.contains_key(served),
        table2.dom() == cluster[served].dom(),
    ensures
        forall|x: Addr, y: Addr|
            #[trigger] cluster.insert(served, table2).contains_key(x) && #[trigger] cluster.insert(
                served,
                table2,
            ).contains_key(y) && cluster.insert(served, table2)[x].contains_key(r)
                && cluster.insert(served, table2)[y].contains_key(r) ==> x == y,
{
    assert forall|x: Addr, y: Addr|
        #[trigger] cluster.insert(served, table2).contains_key(x) && #[trigger] cluster.insert(
            served,
            table2,
        ).contains_key(y) && cluster.insert(served, table2)[x].contains_key(r) && cluster.insert(
            served,
            table2,
        )[y].contains_key(r) implies x == y by {
        assert(cluster[x].contains_key(r));
        assert(cluster[y].contains_key(r));
    }
}

/// An arriving `Acquire` that finds the resource busy never reorders the
/// queue: everyone already waiting keeps their place, and the newcomer
/// waits behind them all.
pub proof fn lemma_fifo_acquire(s: ResourceModel, from: Addr)
    requires
        s.current_user is Some,
    ensures
        acquire_step(s, from).0.request_queue.len() == s.request_queue.len() + 1,
        forall|i: int|
            0 <= i < s.request_queue.len() ==> acquire_step(s, from).0.request_queue[i]
                == s.request_queue[i],
        acquire_step(s, from).0.request_queue.last() == from,
        !acquire_step(s, from).1,
{
}

/// A release grants the requester that has waited longest, and the rest of
/// the queue keeps its order.  Together with `lemma_fifo_acquire` this says
/// grants happen in arrival order: an `Acquire` that reached the owner
/// first is granted first.
pub proof fn lemma_fifo_release(s: ResourceModel)
    requires
        s.request_queue.len() > 0,
    ensures
        release_step(s).1 == Some(s.request_queue.first()),
        release_step(s).0.current_user == Some(s.request_queue.first()),
        release_step(s).0.request_queue.len() == s.request_queue.len() - 1,
        forall|i: int|
            1 <= i < s.request_queue.len() ==> release_step(s).0.request_queue[i - 1]
                == s.request_queue[i],
{
}

/// The owner's state after `n` consecutive releases, together with every
/// grant they produced, in the order they were sent.
pub open spec fn drain(s: ResourceModel, n: nat) -> (ResourceModel, Seq<Addr>)
    decreases n,
{
    if n == 0 {
        (s, Seq::empty())
    } else {
        let (s1, granted) = release_step(s);
        let (s2, grants) = drain(s1, (n - 1) as nat);
        match granted {
            Some(a) => (s2, seq![a] + grants),
            None => (s2, grants),
        }
    }
}

/// FIFO fairness over any number of releases: the grants they produce are
/// exactly the queued requesters, oldest first.  A requester whose
/// `Acquire` arrived at the owner first is granted first.
pub proof fn lemma_fifo(s: ResourceModel, n: nat)
    ensures
        drain(s, n).1 == s.request_queue.take(
            if n <= s.request_queue.len() {
                n as int
            } else {
                s.request_queue.len() as int
            },
        ),
    decreases n,
{
    if n == 0 {
        assert(drain(s, n).1 =~= s.request_queue.take(0));
    } else {
        let (s1, granted) = release_step(s);
        lemma_fifo(s1, (n - 1) as nat);
        let k: int = if n <= s.request_queue.len() {
            n as int
        } else {
            s.request_queue.len() as int
        };
        if s.request_queue.len() == 0 {
            assert(drain(s, n).1 =~= s.request_queue.take(k));
        } else {
            let k1: int = if n - 1 <= s1.request_queue.len() {
                n - 1
            } else {
                s1.request_queue.len() as int
            };
            assert(s1.request_queue == s.request_queue.drop_first());
            assert(drain(s, n).1 == seq![s.request_queue.first()] + drain(s1, (n - 1) as nat).1);
            assert(seq![s.request_queue.first()] + s.request_queue.drop_first().take(k1)
                =~= s.request_queue.take(k));
        }
    }
}

/// Acquiring and then releasing with no contenders puts the owner's record
/// back exactly as it was, and a requester's `used_resources` that gained
/// the resource and then dropped it is back as well.
pub proof fn lemma_acquire_release_round_trip(
    s: ResourceModel,
    requester: Addr,
    used: Map<Seq<char>, Addr>,
    r: Seq<char>,
    owner: Addr,
)
    requires
        s.current_user is None,
        s.request_queue.len() == 0,
        !used.contains_key(r),
    ensures
        acquire_step(s, requester).1,
        release_step(acquire_step(s, requester).0).0 == s,
        release_step(acquire_step(s, requester).0).1 is None,
        used.insert(r, owner).remove(r) =~= used,
{
    assert(release_step(acquire_step(s, requester).0).0 == s);
}

} // verus!
