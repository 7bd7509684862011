use ring_cmh::node::{LeavePlan, Node, RepairTicket};
use ring_cmh::overlay::{NeighborInfo, Ring};

const A: u64 = 8001;
const B: u64 = 8003;
const C: u64 = 8005;
const D: u64 = 8007;

fn triple(next: u64, nnext: u64, prev: u64) -> NeighborInfo {
    NeighborInfo { next, nnext, prev }
}

/// Every member's nnext really is the successor of its successor, and
/// next/prev invert each other.
fn assert_consistent(ring: &Ring, members: &[u64]) {
    for &x in members {
        let info = ring.neighbors(x);
        let succ = ring.neighbors(info.next);
        assert_eq!(succ.prev, x, "next.prev must point back at {x}");
        assert_eq!(info.nnext, succ.next, "nnext of {x} must be next.next");
        let pred = ring.neighbors(info.prev);
        assert_eq!(pred.next, x, "prev.next must point back at {x}");
    }
}

#[test]
fn singleton_ring_points_at_itself() {
    let ring = Ring::new(A);
    assert_eq!(ring.neighbors(A), triple(A, A, A));
    assert_consistent(&ring, &[A]);
}

#[test]
fn ring_formation() {
    // B joins A, then C joins A: C is spliced between A and B
    let mut ring = Ring::new(A);
    ring.join(A, B);
    assert_eq!(ring.neighbors(A), triple(B, A, B));
    assert_eq!(ring.neighbors(B), triple(A, B, A));
    ring.join(A, C);
    assert_eq!(ring.neighbors(A).next, C);
    assert_eq!(ring.neighbors(C).next, B);
    assert_eq!(ring.neighbors(B).next, A);
    assert_consistent(&ring, &[A, B, C]);
}

#[test]
fn graceful_leave_three_nodes() {
    let mut ring = Ring::new(A);
    ring.join(A, B);
    ring.join(A, C);
    ring.leave(C);
    assert_eq!(ring.neighbors(A), triple(B, A, B));
    assert_eq!(ring.neighbors(B), triple(A, B, A));
    assert!(!ring.contains(C));
    assert_consistent(&ring, &[A, B]);
}

#[test]
fn graceful_leave_two_nodes() {
    let mut ring = Ring::new(A);
    ring.join(A, B);
    ring.leave(B);
    assert_eq!(ring.neighbors(A), triple(A, A, A));
    assert!(!ring.contains(B));
}

#[test]
fn graceful_leave_four_nodes() {
    let mut ring = Ring::new(A);
    ring.join(A, B);
    ring.join(A, C);
    ring.join(A, D);
    assert_consistent(&ring, &[A, B, C, D]);
    ring.leave(C);
    assert!(!ring.contains(C));
    assert_consistent(&ring, &[A, B, D]);
}

#[test]
fn join_then_leave_restores_the_ring() {
    let mut ring = Ring::new(A);
    ring.join(A, B);
    ring.join(A, C);
    let before = (ring.neighbors(A), ring.neighbors(B), ring.neighbors(C));
    ring.join(B, D);
    assert_consistent(&ring, &[A, B, C, D]);
    ring.leave(D);
    let after = (ring.neighbors(A), ring.neighbors(B), ring.neighbors(C));
    assert_eq!(before, after);
    assert!(!ring.contains(D));
}

#[test]
fn join_then_leave_restores_a_singleton() {
    let mut ring = Ring::new(A);
    ring.join(A, B);
    ring.leave(B);
    assert_eq!(ring.neighbors(A), triple(A, A, A));
}

#[test]
fn missing_node_repair_three_nodes() {
    // B joins A, C joins A: ring A -> C -> B -> A; then C is lost.
    // A is the survivor whose next is the missing node.
    let mut ring = Ring::new(A);
    ring.join(A, B);
    ring.join(A, C);
    ring.crash(C);
    ring.repair(A, C);
    assert_eq!(ring.neighbors(A).next, B);
    assert_eq!(ring.neighbors(B).prev, A);
    assert_eq!(ring.neighbors(A).nnext, A);
    assert_eq!(ring.neighbors(B).nnext, B);
    assert_consistent(&ring, &[A, B]);
}

#[test]
fn missing_node_repair_two_nodes() {
    let mut ring = Ring::new(A);
    ring.join(A, B);
    ring.crash(B);
    ring.repair(A, B);
    assert_eq!(ring.neighbors(A), triple(A, A, A));
}

#[test]
fn missing_node_repair_four_nodes() {
    let mut ring = Ring::new(A);
    ring.join(A, B);
    ring.join(A, C);
    ring.join(A, D);
    // ring is A -> D -> C -> B -> A; D is lost, A repairs
    ring.crash(D);
    ring.repair(A, D);
    assert!(!ring.contains(D));
    assert_consistent(&ring, &[A, B, C]);
    assert_eq!(ring.neighbors(A).next, C);
}

#[test]
fn neighbor_setters() {
    let mut info = NeighborInfo::singleton(A);
    info.change_next(B);
    info.change_nnext(C);
    let told = info.change_prev(D);
    assert_eq!(told, B, "change_prev reports our successor");
    assert_eq!(info, triple(B, C, D));
}

#[test]
fn host_side_join_steps() {
    let mut host = Node::new("node_8001".to_string(), A);
    host.install_neighbor_info(triple(B, A, B));
    let ticket = host.other_joining_begin();
    assert_eq!((ticket.old_next, ticket.old_prev), (B, B));
    let newcomer = host.other_joining_finish(C, ticket);
    assert_eq!(newcomer, triple(B, A, A));
    assert_eq!(host.neighbor_info, triple(C, B, B));
}

#[test]
fn leave_plans_follow_the_ring_size() {
    let mut node = Node::new("node_8003".to_string(), B);
    node.install_neighbor_info(triple(A, B, A));
    assert_eq!(node.leave_topology_plan(), LeavePlan::Pair { survivor: A });
    node.install_neighbor_info(triple(C, A, A));
    assert_eq!(
        node.leave_topology_plan(),
        LeavePlan::Trio { next: C, prev: A, nnext: A }
    );
    node.install_neighbor_info(triple(C, D, A));
    assert_eq!(
        node.leave_topology_plan(),
        LeavePlan::Crowd { next: C, prev: A, nnext: D }
    );
    node.leave();
    assert_eq!(node.neighbor_info, triple(B, B, B));
}

#[test]
fn missing_node_report_travels_past_strangers() {
    let mut node = Node::new("node_8001".to_string(), A);
    node.install_neighbor_info(triple(B, C, D));
    assert_eq!(node.missing_node_begin(C), None);
    assert_eq!(node.neighbor_info, triple(B, C, D));
}

#[test]
fn missing_node_repair_steps_at_the_survivor() {
    let mut node = Node::new("node_8001".to_string(), A);
    node.install_neighbor_info(triple(B, C, D));
    let ticket = node.missing_node_begin(B).expect("B is our successor");
    assert_eq!(
        ticket,
        RepairTicket { introduce_to: C, was_prev: D, was_next: B }
    );
    assert_eq!(node.neighbor_info.next, C);
    // the new successor reported its own successor D
    let tell = node.missing_node_finish(ticket, D);
    assert_eq!(tell, Some((D, C)));
    assert_eq!(node.neighbor_info, triple(C, D, D));
}

#[test]
fn missing_node_repair_steps_two_ring() {
    let mut node = Node::new("node_8001".to_string(), A);
    node.install_neighbor_info(triple(B, A, B));
    let ticket = node.missing_node_begin(B).expect("B is our successor");
    let tell = node.missing_node_finish(ticket, A);
    assert_eq!(tell, None, "nobody is left to notify");
    assert_eq!(node.neighbor_info, triple(A, A, A));
}

#[test]
fn repair_guard_suppresses_reentry() {
    let mut node = Node::new("node_8001".to_string(), A);
    assert!(node.begin_repair());
    assert!(!node.begin_repair(), "a second repair is suppressed");
    node.end_repair();
    assert!(node.begin_repair());
}
