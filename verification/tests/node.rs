use ring_cmh::api::{DelayConfig, HealthResponse, KillReviveRequest};
use ring_cmh::node::{Node, OverlayError};
use ring_cmh::overlay::NeighborInfo;

const A: u64 = 8001;
const B: u64 = 8003;

#[test]
fn a_new_node_is_a_ring_of_one() {
    let node = Node::new("node_8001".to_string(), A);
    assert_eq!(node.id, "node_8001");
    assert_eq!(node.addr, A);
    assert_eq!(
        node.neighbor_info,
        NeighborInfo { next: A, nnext: A, prev: A }
    );
    assert_eq!(node.lamport_time, 0);
    assert_eq!(node.message_delay, 0);
    assert!(node.is_active);
    assert!(!node.repairing);
}

#[test]
fn lamport_clock_counts_local_events() {
    let mut node = Node::new("node_8001".to_string(), A);
    assert_eq!(node.increment_lamport(), 1);
    assert_eq!(node.increment_lamport(), 2);
    assert_eq!(node.lamport_time, 2);
}

#[test]
fn lamport_clock_tops_out_instead_of_wrapping() {
    let mut node = Node::new("node_8001".to_string(), A);
    node.update_clock(u64::MAX);
    assert_eq!(node.lamport_time, u64::MAX);
    assert_eq!(node.increment_lamport(), u64::MAX);
}

#[test]
fn receiving_a_message_advances_past_its_timestamp() {
    let mut node = Node::new("node_8001".to_string(), A);
    node.update_clock(10);
    assert_eq!(node.lamport_time, 11);
    node.update_clock(5);
    assert_eq!(node.lamport_time, 12, "a lower timestamp still ticks");
}

#[test]
fn the_delay_knob_honors_its_argument() {
    let mut node = Node::new("node_8001".to_string(), A);
    node.set_delay(250);
    assert_eq!(node.message_delay, 250);
    node.set_delay(0);
    assert_eq!(node.message_delay, 0);
}

#[test]
fn joining_oneself_is_refused() {
    let node = Node::new("node_8001".to_string(), A);
    assert_eq!(node.try_join_other(A), Err(OverlayError::JoinSelf));
    assert_eq!(node.try_join_other(B), Ok(()));
}

#[test]
fn only_the_node_itself_can_be_killed() {
    let node = Node::new("node_8001".to_string(), A);
    assert_eq!(node.kill(A), Ok(()));
    assert_eq!(node.kill(B), Err(OverlayError::KillOther));
}

#[test]
fn revive_rejoins_through_the_last_known_predecessor() {
    let mut node = Node::new("node_8001".to_string(), A);
    assert_eq!(node.revive(B), Err(OverlayError::ReviveOther));
    assert_eq!(node.revive(A), Ok(None), "alone: nobody to rejoin through");
    node.install_neighbor_info(NeighborInfo { next: B, nnext: A, prev: B });
    assert_eq!(node.revive(A), Ok(Some(B)));
}

#[test]
fn control_plane_values_carry_what_the_operator_sent() {
    let health = HealthResponse {
        status: "healthy".to_string(),
        node_id: "node_8001".to_string(),
        addr: "127.0.0.1:8001".to_string(),
    };
    assert_eq!(health.status, "healthy");
    assert_eq!(health.node_id, "node_8001");
    assert_eq!(health.addr, "127.0.0.1:8001");
    let delay = DelayConfig { delay_ms: 40 };
    assert_eq!(delay.delay_ms, 40);
    let kill = KillReviveRequest { node_id: "node_8003".to_string() };
    assert_eq!(kill.node_id, "node_8003");
}
