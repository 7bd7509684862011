//! The ring overlay: each node keeps its successor (`next`), the successor
//! of its successor (`nnext`), and its predecessor (`prev`).  `nnext` lets a
//! node finish a repair after `next` disappears without consulting any
//! directory.

use vstd::prelude::*;
use std::collections::HashMap;
use crate::Addr;

verus! {

broadcast use vstd::std_specs::hash::group_hash_axioms;

/// The neighbor triple one node keeps about the ring.
#[derive(Clone, Copy, Debug, PartialEq, Eq, Structural)]
pub struct NeighborInfo {
    pub next: Addr,
    pub nnext: Addr,
    pub prev: Addr,
}

impl NeighborInfo {
    /// The triple of a ring of one: every pointer is the node itself.
    pub fn singleton(me: Addr) -> (r: NeighborInfo)
        ensures
            r == (NeighborInfo { next: me, nnext: me, prev: me }),
    {
        NeighborInfo { next: me, nnext: me, prev: me }
    }

    /// Point the successor pointer at `a`.
    pub fn change_next(&mut self, a: Addr)
        ensures
            *final(self) == (NeighborInfo { next: a, ..*old(self) }),
    {
        self.next = a;
    }

    /// Point the successor-of-successor pointer at `a`.
    pub fn change_nnext(&mut self, a: Addr)
        ensures
            *final(self) == (NeighborInfo { nnext: a, ..*old(self) }),
    {
        self.nnext = a;
    }

    /// Point the predecessor pointer at `a`; the caller is told our own
    /// successor, which it installs as its `nnext`.
    pub fn change_prev(&mut self, a: Addr) -> (r: Addr)
        ensures
            *final(self) == (NeighborInfo { prev: a, ..*old(self) }),
            r == old(self).next,
    {
        self.prev = a;
        self.next
    }

    /// The host's side of a join, after its two neighbors have been told:
    /// splice `newcomer` in as our successor and hand back the triple the
    /// newcomer installs.  Our `nnext` is read before it is overwritten,
    /// so a host that was alone (and so was its own old predecessor) hands
    /// the newcomer the freshly written value.
    pub fn host_apply_join(&mut self, me: Addr, newcomer: Addr, old_next: Addr) -> (r:
        NeighborInfo)
        ensures
            *final(self) == (NeighborInfo {
                next: newcomer,
                nnext: old_next,
                prev: old(self).prev,
            }),
            r == (NeighborInfo { next: old_next, nnext: old(self).nnext, prev: me }),
    {
        let r = NeighborInfo { next: old_next, nnext: self.nnext, prev: me };
        self.nnext = old_next;
        self.next = newcomer;
        r
    }
}

/// One node's view of a healthy ring: its successor and predecessor point
/// back at it, and `nnext` really is the successor of the successor.
pub open spec fn ring_node_ok(m: Map<Addr, NeighborInfo>, x: Addr) -> bool {
    &&& m.contains_key(m[x].next)
    &&& m.contains_key(m[x].prev)
    &&& m[m[x].next].prev == x
    &&& m[m[x].prev].next == x
    &&& m[x].nnext == m[m[x].next].next
}

/// The whole overlay, as a map from address to neighbor triple, is a
/// consistent doubly-linked ring.
pub open spec fn ring_consistent(m: Map<Addr, NeighborInfo>) -> bool {
    forall|x: Addr| #[trigger] m.contains_key(x) ==> ring_node_ok(m, x)
}

/// In a consistent ring a node is determined by its successor: successors
/// are distinct.
pub proof fn lemma_pred_unique(m: Map<Addr, NeighborInfo>, x: Addr, y: Addr)
    requires
        ring_consistent(m),
        m.contains_key(x),
        m.contains_key(y),
        m[x].next == m[y].next,
    ensures
        x == y,
{
    assert(m[m[x].next].prev == x);
    assert(m[m[y].next].prev == y);
}

/// A node's `next.prev` points back at the node whenever the ring is
/// consistent, that is, whenever no repair is mid-flight.
pub proof fn lemma_next_prev_roundtrip(m: Map<Addr, NeighborInfo>, x: Addr)
    requires
        ring_consistent(m),
        m.contains_key(x),
    ensures
        m.contains_key(m[x].next),
        m[m[x].next].prev == x,
{
}

/// The overlay after `n` joined at host `h`, step by step in the order the
/// protocol runs them: the host's successor learns its new predecessor, the
/// host's predecessor learns its new `nnext`, the host splices `n` in, and
/// `n` installs the triple the host returns.
pub open spec fn join_effect(m: Map<Addr, NeighborInfo>, h: Addr, n: Addr) -> Map<
    Addr,
    NeighborInfo,
> {
    let old_next = m[h].next;
    let old_prev = m[h].prev;
    let m1 = m.insert(old_next, NeighborInfo { prev: n, ..m[old_next] });
    let m2 = m1.insert(old_prev, NeighborInfo { nnext: n, ..m1[old_prev] });
    let newcomer_nnext = m2[h].nnext;
    let m3 = m2.insert(h, NeighborInfo { next: n, nnext: old_next, ..m2[h] });
    m3.insert(n, NeighborInfo { next: old_next, nnext: newcomer_nnext, prev: h })
}

/// Joining preserves ring consistency, whatever the ring's size.
pub proof fn lemma_join_consistent(m: Map<Addr, NeighborInfo>, h: Addr, n: Addr)
    requires
        ring_consistent(m),
        m.contains_key(h),
        !m.contains_key(n),
    ensures
        ring_consistent(join_effect(m, h, n)),
        join_effect(m, h, n).dom() =~= m.dom().insert(n),
{
    let old_next = m[h].next;
    let old_prev = m[h].prev;
    let mm = join_effect(m, h, n);
    assert(ring_node_ok(m, h));
    assert(ring_node_ok(m, old_next));
    assert(ring_node_ok(m, old_prev));
    assert forall|x: Addr| mm.contains_key(x) implies ring_node_ok(mm, x) by {
        if h == old_next {
            // the host was alone; `old_prev == h` as well
            assert(m[old_prev].next == h);
            lemma_pred_unique(m, old_prev, h);
            assert(ring_node_ok(mm, x));
        } else if old_prev == old_next {
            // a ring of two: both neighbors are the same node
            assert(ring_node_ok(mm, x));
        } else {
            // three or more nodes: host, neighbors and newcomer distinct
            if x == h || x == n || x == old_next || x == old_prev {
                assert(ring_node_ok(mm, x));
            } else {
                assert(m.contains_key(x) && ring_node_ok(m, x));
                // x's fields are untouched; each changed node is reached from
                // x only through pointers whose targets kept what x needs
                if m[x].next == old_next {
                    lemma_pred_unique(m, x, h);
                }
                if m[x].prev == h {
                    assert(m[h].next == x);
                }
                if m[x].next == h {
                    assert(m[h].prev == x);
                }
                assert(ring_node_ok(mm, x));
            }
        }
    }
}

/// The overlay after node `x` gracefully left: its neighbors are stitched
/// together and `x`'s entry disappears.  The three branches mirror what the
/// leaving node tells its neighbors on a ring of two, of three, and of four
/// or more.
pub open spec fn leave_effect(m: Map<Addr, NeighborInfo>, x: Addr) -> Map<Addr, NeighborInfo> {
    let p = m[x].prev;
    let nx = m[x].next;
    let nn = m[x].nnext;
    if p == nx {
        // at most one other node: the sole survivor points at itself
        m.insert(nx, NeighborInfo { next: nx, prev: nx, ..m[nx] }).remove(x)
    } else if p == nn {
        // a ring of three: the two survivors become a ring of two
        let m1 = m.insert(nx, NeighborInfo { prev: p, nnext: nx, ..m[nx] });
        let m2 = m1.insert(p, NeighborInfo { next: nx, nnext: nn, ..m1[p] });
        m2.remove(x)
    } else {
        // four or more: the predecessor takes over, its own predecessor
        // learns the new nnext, the successor learns its new predecessor
        let m1 = m.insert(p, NeighborInfo { next: nx, nnext: nn, ..m[p] });
        let pp = m1[p].prev;
        let m2 = m1.insert(pp, NeighborInfo { nnext: nx, ..m1[pp] });
        let m3 = m2.insert(nx, NeighborInfo { prev: p, ..m2[nx] });
        m3.remove(x)
    }
}

/// A graceful leave preserves ring consistency, whatever the ring's size.
pub proof fn lemma_leave_consistent(m: Map<Addr, NeighborInfo>, x: Addr)
    requires
        ring_consistent(m),
        m.contains_key(x),
    ensures
        ring_consistent(leave_effect(m, x)),
        leave_effect(m, x).dom() =~= m.dom().remove(x),
{
    let p = m[x].prev;
    let nx = m[x].next;
    let nn = m[x].nnext;
    let mm = leave_effect(m, x);
    assert(ring_node_ok(m, x));
    assert(ring_node_ok(m, nx));
    assert(ring_node_ok(m, p));
    assert forall|y: Addr| mm.contains_key(y) implies ring_node_ok(mm, y) by {
        if p == nx {
            // x and its sole neighbor formed a cycle of two (or x was alone)
            if nx == x {
                // x self-looped; everything else sits on untouched cycles
                assert(m.contains_key(y) && ring_node_ok(m, y));
                if m[y].next == x {
                    assert(m[x].prev == y);
                }
                if m[y].prev == x {
                    assert(m[x].next == y);
                }
                assert(ring_node_ok(mm, y));
            } else {
                assert(m[nx].next == x && m[nx].prev == x);
                if y == nx {
                    assert(m[nx].nnext == m[x].next);
                    assert(ring_node_ok(mm, nx));
                } else {
                    // y sits on some untouched cycle
                    assert(m.contains_key(y) && ring_node_ok(m, y));
                    if m[y].next == x {
                        assert(m[x].prev == y);
                    }
                    if m[y].next == nx {
                        lemma_pred_unique(m, y, x);
                    }
                    if m[y].prev == x {
                        assert(m[x].next == y);
                    }
                    if m[y].prev == nx {
                        assert(m[nx].next == y);
                    }
                    assert(ring_node_ok(mm, y));
                }
            }
        } else if p == nn {
            // x sat on a cycle of three: x, nx and p
            assert(m[nx].next == p && m[p].prev == nx);
            assert(m[nx].prev == x && m[p].next == x);
            if y == nx || y == p {
                assert(m[p].nnext == m[x].next);
                assert(ring_node_ok(mm, y));
            } else {
                // y sits on some untouched cycle
                assert(m.contains_key(y) && ring_node_ok(m, y));
                if m[y].next == x {
                    assert(m[x].prev == y);
                }
                if m[y].next == nx {
                    lemma_pred_unique(m, y, x);
                }
                if m[y].next == p {
                    assert(m[p].prev == y);
                }
                if m[y].prev == x {
                    assert(m[x].next == y);
                }
                if m[y].prev == nx {
                    assert(m[nx].next == y);
                }
                if m[y].prev == p {
                    assert(m[p].next == y);
                }
                assert(ring_node_ok(mm, y));
            }
        } else {
            // four or more: p, pp, nx, x pairwise distinct
            let pp = m[p].prev;
            assert(ring_node_ok(m, pp));
            assert(m[pp].next == p);
            // pp != x: else m[x].next == p, but m[x].next == nx != p
            assert(pp != x) by {
                if pp == x {
                    assert(m[x].next == p);
                }
            }
            // pp != nx: else nx.next == p; also x.nnext == nx.next == p,
            // contradicting p != nn
            assert(pp != nx) by {
                if pp == nx {
                    assert(m[nx].next == p);
                    assert(m[x].nnext == m[nx].next);
                }
            }
            // pp == p would make p its own successor, forcing a ring of one
            assert(pp != p) by {
                if pp == p {
                    assert(m[p].next == p);
                    lemma_pred_unique(m, p, x);
                }
            }
            // nx != p (branch), nx != x, p != x since m[x].next == nx != p == m[x].prev
            assert(x != nx) by {
                if x == nx {
                    lemma_pred_unique(m, x, p);
                }
            }
            assert(x != p) by {
                if x == p {
                    assert(m[x].next == x ==> false);
                    lemma_pred_unique(m, x, nx);
                    assert(m[nx].next == x);
                    assert(m[x].nnext == m[nx].next);
                }
            }
            if y == p || y == pp || y == nx {
                assert(m[x].nnext == m[nx].next);
                assert(ring_node_ok(mm, y));
            } else {
                assert(m.contains_key(y) && ring_node_ok(m, y));
                if m[y].next == x {
                    assert(m[x].prev == y);
                }
                if m[y].next == nx {
                    lemma_pred_unique(m, y, x);
                }
                if m[y].next == p {
                    assert(m[p].prev == y);
                }
                if m[y].next == pp {
                    assert(m[pp].prev == y);
                }
                assert(ring_node_ok(mm, y));
            }
        }
    }
}

/// A join followed by the newcomer's graceful leave puts every pointer of
/// every node back where it was.
pub proof fn lemma_join_then_leave(m: Map<Addr, NeighborInfo>, h: Addr, n: Addr)
    requires
        ring_consistent(m),
        m.contains_key(h),
        !m.contains_key(n),
    ensures
        leave_effect(join_effect(m, h, n), n) =~= m,
{
    let old_next = m[h].next;
    let old_prev = m[h].prev;
    let mm = join_effect(m, h, n);
    assert(ring_node_ok(m, h));
    assert(ring_node_ok(m, old_next));
    assert(ring_node_ok(m, old_prev));
    if h == old_next {
        // the host was alone
        assert(m[old_prev].next == h);
        lemma_pred_unique(m, old_prev, h);
        assert(leave_effect(mm, n) =~= m);
    } else if old_prev == old_next {
        // a ring of two becomes three; the newcomer sees prev == nnext == h
        assert(leave_effect(mm, n) =~= m);
    } else {
        // four or more after the join
        assert(mm[n].prev == h && mm[n].next == old_next && mm[n].nnext == m[old_next].next);
        // the newcomer's nnext is not its prev: h != m[old_next].next, since
        // the unique predecessor of m[old_next].next is old_next != h
        assert(mm[n].prev != mm[n].nnext) by {
            if h == m[old_next].next {
                assert(m[m[old_next].next].prev == old_next);
                assert(m[h].prev == old_next);
                assert(m[old_next].next == h && m[old_prev].next == h);
                lemma_pred_unique(m, old_next, old_prev);
            }
        }
        assert(mm[n].prev != mm[n].next);
        assert(leave_effect(mm, n) =~= m);
    }
}

/// What the ring looked like before `missing` was lost, reconstructed from
/// the survivor `at` that still points at it: the lost node's successor was
/// `at`'s `nnext`, its predecessor was `at` itself, and its own `nnext`
/// follows from consistency.
pub open spec fn rejoin_missing(m: Map<Addr, NeighborInfo>, at: Addr, missing: Addr) -> Map<
    Addr,
    NeighborInfo,
> {
    m.insert(
        missing,
        NeighborInfo { next: m[at].nnext, nnext: m[m[at].nnext].next, prev: at },
    )
}

/// The overlay after the survivor `at` repaired around the lost `missing`,
/// step by step in the order the protocol runs them: adopt `nnext` as the
/// new successor, introduce ourselves to it and adopt its successor as the
/// new `nnext`, then mend the predecessor side.
pub open spec fn repair_effect(m: Map<Addr, NeighborInfo>, at: Addr, missing: Addr) -> Map<
    Addr,
    NeighborInfo,
> {
    let nn = m[at].nnext;
    let m1 = m.insert(at, NeighborInfo { next: nn, ..m[at] });
    let m2 = m1.insert(nn, NeighborInfo { prev: at, ..m1[nn] });
    let reported = m2[nn].next;
    let m3 = m2.insert(at, NeighborInfo { nnext: reported, ..m2[at] });
    if m[at].prev == m[at].next {
        // the lost node was also our predecessor: a ring of two shrank
        m3.insert(at, NeighborInfo { prev: nn, ..m3[at] })
    } else {
        m3.insert(m[at].prev, NeighborInfo { nnext: nn, ..m3[m[at].prev] })
    }
}

/// The preconditions of a repair: the survivor still points at the lost
/// node, and before the loss the overlay was consistent.
pub open spec fn repair_pre(m: Map<Addr, NeighborInfo>, at: Addr, missing: Addr) -> bool {
    &&& m.contains_key(at)
    &&& !m.contains_key(missing)
    &&& m[at].next == missing
    &&& ring_consistent(rejoin_missing(m, at, missing))
}

/// The lost node was also the survivor's predecessor: a cycle of two shrank.
proof fn lemma_repair_matches_leave_pair(m: Map<Addr, NeighborInfo>, at: Addr, missing: Addr)
    requires
        repair_pre(m, at, missing),
        m[at].prev == m[at].next,
    ensures
        repair_effect(m, at, missing) =~= leave_effect(rejoin_missing(m, at, missing), missing),
{
    let m0 = rejoin_missing(m, at, missing);
    assert(m0.contains_key(missing) && m0.contains_key(at));
    assert(ring_node_ok(m0, missing));
    assert(ring_node_ok(m0, at));
    // our predecessor was the lost node, so its successor is us
    assert(m0[at].prev == missing);
    assert(m0[missing].next == at);
    assert(m[at].nnext == at);
}

/// A cycle of three shrank: the survivor's predecessor is the new successor.
proof fn lemma_repair_matches_leave_trio(m: Map<Addr, NeighborInfo>, at: Addr, missing: Addr)
    requires
        repair_pre(m, at, missing),
        m[at].prev != m[at].next,
        rejoin_missing(m, at, missing)[missing].prev == rejoin_missing(
            m,
            at,
            missing,
        )[missing].nnext,
    ensures
        repair_effect(m, at, missing) =~= leave_effect(rejoin_missing(m, at, missing), missing),
{
    let m0 = rejoin_missing(m, at, missing);
    let nn = m[at].nnext;
    assert(m0.contains_key(missing) && m0.contains_key(at));
    assert(ring_node_ok(m0, missing));
    assert(ring_node_ok(m0, at));
    assert(m0[missing].next == nn && m0[missing].prev == at);
    assert(m0.contains_key(nn));
    assert(ring_node_ok(m0, nn));
    assert(nn != at) by {
        if nn == at {
            assert(m0[at].prev == missing);
        }
    }
    assert(m0[missing].nnext == m0[nn].next);
    assert(at == m0[nn].next);
    assert(m0[at].prev == nn);
}

/// A cycle of four or more: the survivor, its predecessor and the adopted
/// successor are pairwise distinct.
proof fn lemma_repair_matches_leave_crowd(m: Map<Addr, NeighborInfo>, at: Addr, missing: Addr)
    requires
        repair_pre(m, at, missing),
        m[at].prev != m[at].next,
        rejoin_missing(m, at, missing)[missing].prev != rejoin_missing(
            m,
            at,
            missing,
        )[missing].nnext,
    ensures
        repair_effect(m, at, missing) =~= leave_effect(rejoin_missing(m, at, missing), missing),
{
    let m0 = rejoin_missing(m, at, missing);
    let nn = m[at].nnext;
    assert(m0.contains_key(missing) && m0.contains_key(at));
    assert(ring_node_ok(m0, missing));
    assert(ring_node_ok(m0, at));
    assert(m0[missing].next == nn && m0[missing].prev == at);
    assert(m0.contains_key(nn));
    assert(ring_node_ok(m0, nn));
    assert(nn != at) by {
        if nn == at {
            assert(m0[at].prev == missing);
        }
    }
    assert(m0[nn].next != at);
    assert(m[at].prev == m0[at].prev);
    assert(m0[m0[at].prev].next == at);
    assert(m0[at].prev != nn) by {
        if m0[at].prev == nn {
            assert(m0[nn].next == at);
        }
    }
    assert(m0[at].prev != at) by {
        if m0[at].prev == at {
            assert(m0[at].next == at);
        }
    }
}

/// Repairing around a lost node leaves exactly the overlay that a graceful
/// leave of that node would have left, so consistency is restored.
pub proof fn lemma_repair_consistent(m: Map<Addr, NeighborInfo>, at: Addr, missing: Addr)
    requires
        repair_pre(m, at, missing),
    ensures
        repair_effect(m, at, missing) == leave_effect(rejoin_missing(m, at, missing), missing),
        ring_consistent(repair_effect(m, at, missing)),
        repair_effect(m, at, missing).dom() =~= m.dom(),
{
    let m0 = rejoin_missing(m, at, missing);
    lemma_leave_consistent(m0, missing);
    assert(m0.contains_key(missing) && m0.contains_key(at));
    assert(ring_node_ok(m0, missing));
    assert(ring_node_ok(m0, at));
    if m[at].prev == m[at].next {
        lemma_repair_matches_leave_pair(m, at, missing);
    } else if m0[missing].prev == m0[missing].nnext {
        lemma_repair_matches_leave_trio(m, at, missing);
    } else {
        lemma_repair_matches_leave_crowd(m, at, missing);
    }
    assert(repair_effect(m, at, missing).dom() =~= m.dom());
}

/// The overlay of a whole cluster: each member's address mapped to its
/// neighbor triple.  The join, leave and repair operations run the same
/// per-node steps the live protocol sends as messages, in the same order,
/// so what is proved of them holds of any run in which the steps are not
/// interleaved with other overlay changes.
pub struct Ring {
    nodes: HashMap<Addr, NeighborInfo>,
}

impl View for Ring {
    type V = Map<Addr, NeighborInfo>;

    closed spec fn view(&self) -> Map<Addr, NeighborInfo> {
        self.nodes@
    }
}

impl Ring {
    /// A cluster of one node, pointing at itself.
    pub fn new(a: Addr) -> (r: Ring)
        ensures
            r@ =~= Map::<Addr, NeighborInfo>::empty().insert(
                a,
                (NeighborInfo { next: a, nnext: a, prev: a }),
            ),
            ring_consistent(r@),
    {
        let mut nodes: HashMap<Addr, NeighborInfo> = HashMap::new();
        nodes.insert(a, NeighborInfo::singleton(a));
        let r = Ring { nodes };
        proof {
            assert forall|x: Addr| r@.contains_key(x) implies ring_node_ok(r@, x) by {
                assert(x == a);
            }
        }
        r
    }

    pub fn contains(&self, a: Addr) -> (r: bool)
        ensures
            r == self@.contains_key(a),
    {
        self.nodes.contains_key(&a)
    }

    /// The neighbor triple a member currently holds.
    pub fn neighbors(&self, a: Addr) -> (r: NeighborInfo)
        requires
            self@.contains_key(a),
        ensures
            r == self@[a],
    {
        *self.nodes.get(&a).unwrap()
    }

    /// Splice `n` into the ring at host `h`, running the host's steps in
    /// protocol order: tell the old successor its new predecessor, tell the
    /// old predecessor its new `nnext`, update the host, install the
    /// returned triple at the newcomer.
    pub fn join(&mut self, h: Addr, n: Addr)
        requires
            ring_consistent(old(self)@),
            old(self)@.contains_key(h),
            !old(self)@.contains_key(n),
        ensures
            final(self)@ == join_effect(old(self)@, h, n),
            ring_consistent(final(self)@),
            final(self)@.dom() =~= old(self)@.dom().insert(n),
    {
        let host = self.neighbors(h);
        let old_next = host.next;
        let old_prev = host.prev;
        // the old successor records its new predecessor
        let mut info = self.neighbors(old_next);
        info.change_prev(n);
        self.nodes.insert(old_next, info);
        // the old predecessor records its new nnext
        let mut info = self.neighbors(old_prev);
        info.change_nnext(n);
        self.nodes.insert(old_prev, info);
        // the host splices the newcomer in and builds its triple
        let mut info = self.neighbors(h);
        let newcomer = info.host_apply_join(h, n, old_next);
        self.nodes.insert(h, info);
        self.nodes.insert(n, newcomer);
        proof {
            assert(final(self)@ =~= join_effect(old(self)@, h, n));
            lemma_join_consistent(old(self)@, h, n);
        }
    }

    /// Node `x` leaves gracefully: it tells its neighbors how to stitch the
    /// ring behind it, in protocol order, and its entry disappears.
    pub fn leave(&mut self, x: Addr)
        requires
            ring_consistent(old(self)@),
            old(self)@.contains_key(x),
        ensures
            final(self)@ == leave_effect(old(self)@, x),
            ring_consistent(final(self)@),
            final(self)@.dom() =~= old(self)@.dom().remove(x),
    {
        let me = self.neighbors(x);
        if me.prev == me.next {
            // at most one other member: the survivor points at itself
            let mut info = self.neighbors(me.next);
            info.change_next(me.next);
            info.change_prev(me.next);
            self.nodes.insert(me.next, info);
        } else if me.prev == me.nnext {
            // a ring of three: the survivors become a ring of two
            let mut info = self.neighbors(me.next);
            info.change_prev(me.prev);
            info.change_nnext(me.next);
            self.nodes.insert(me.next, info);
            let mut info = self.neighbors(me.prev);
            info.change_next(me.next);
            info.change_nnext(me.nnext);
            self.nodes.insert(me.prev, info);
        } else {
            // four or more members
            let mut info = self.neighbors(me.prev);
            info.change_next(me.next);
            info.change_nnext(me.nnext);
            self.nodes.insert(me.prev, info);
            // the predecessor's own predecessor learns the new nnext
            let pp = self.neighbors(me.prev).prev;
            let mut info = self.neighbors(pp);
            info.change_nnext(me.next);
            self.nodes.insert(pp, info);
            let mut info = self.neighbors(me.next);
            info.change_prev(me.prev);
            self.nodes.insert(me.next, info);
        }
        self.nodes.remove(&x);
        proof {
            assert(final(self)@ =~= leave_effect(old(self)@, x));
            lemma_leave_consistent(old(self)@, x);
        }
    }

    /// Drop `missing` without warning, as a crash does; the survivors still
    /// point at it until someone repairs.
    pub fn crash(&mut self, missing: Addr)
        ensures
            final(self)@ == old(self)@.remove(missing),
    {
        self.nodes.remove(&missing);
    }

    /// The survivor `at` that pointed at the lost node `missing` repairs the
    /// ring: it adopts its `nnext` as successor, introduces itself to it,
    /// and tells its predecessor the new `nnext`.
    pub fn repair(&mut self, at: Addr, missing: Addr)
        requires
            old(self)@.contains_key(at),
            !old(self)@.contains_key(missing),
            old(self)@[at].next == missing,
            ring_consistent(rejoin_missing(old(self)@, at, missing)),
        ensures
            final(self)@ == repair_effect(old(self)@, at, missing),
            final(self)@ == leave_effect(rejoin_missing(old(self)@, at, missing), missing),
            ring_consistent(final(self)@),
            final(self)@.dom() =~= old(self)@.dom(),
    {
        proof {
            let m0 = rejoin_missing(old(self)@, at, missing);
            assert(m0.contains_key(missing) && m0.contains_key(at));
            assert(ring_node_ok(m0, missing));
            assert(ring_node_ok(m0, at));
            assert(m0[missing].next == old(self)@[at].nnext);
            assert(m0.contains_key(m0[missing].next));
            assert(ring_node_ok(m0, m0[missing].next));
        }
        let me = self.neighbors(at);
        let nn = me.nnext;
        // adopt nnext as the new successor
        let mut info = self.neighbors(at);
        info.change_next(nn);
        self.nodes.insert(at, info);
        // introduce ourselves to it; its successor becomes our new nnext
        let mut info = self.neighbors(nn);
        let reported = info.change_prev(at);
        self.nodes.insert(nn, info);
        let mut info = self.neighbors(at);
        info.change_nnext(reported);
        self.nodes.insert(at, info);
        if me.prev == me.next {
            // the lost node was also our predecessor: a ring of two shrank
            let mut info = self.neighbors(at);
            info.change_prev(nn);
            self.nodes.insert(at, info);
        } else {
            // tell the predecessor its new nnext
            let mut info = self.neighbors(me.prev);
            info.change_nnext(nn);
            self.nodes.insert(me.prev, info);
        }
        proof {
            assert(final(self)@ =~= repair_effect(old(self)@, at, missing));
            lemma_repair_consistent(old(self)@, at, missing);
        }
    }
}

} // verus!
