use ring_cmh::node::Node;
use ring_cmh::resources::{
    AcquireOutcome, ResourceAction, ResourceError, ResourceMessageType,
};

const A: u64 = 8001;
const B: u64 = 8003;
const C: u64 = 8005;

fn owner_node() -> Node {
    let mut node = Node::new("node_8001".to_string(), A);
    node.assign_resource("X".to_string());
    node
}

#[test]
fn assigning_again_resets_the_resource() {
    let mut node = owner_node();
    node.handle_message(ResourceMessageType::Acquire("X".to_string()), B);
    node.handle_message(ResourceMessageType::Acquire("X".to_string()), C);
    node.assign_resource("X".to_string());
    let state = node.owned_resources.get(&"X".to_string()).unwrap();
    assert_eq!(state.current_user, None);
    assert_eq!(state.request_queue, vec![]);
}

#[test]
fn find_resource_owner_locally() {
    let node = owner_node();
    assert_eq!(node.find_resource_owner(&"X".to_string()), Some(A));
    assert_eq!(node.find_resource_owner(&"Y".to_string()), None);
}

#[test]
fn owner_from_reply_reads_the_answer() {
    assert_eq!(
        Node::owner_from_reply(ResourceMessageType::Owner(B)),
        Ok(B)
    );
    assert_eq!(
        Node::owner_from_reply(ResourceMessageType::Unknown),
        Err(ResourceError::NotFound)
    );
}

#[test]
fn query_answered_by_the_owner() {
    let mut node = owner_node();
    let action = node.handle_message(ResourceMessageType::ResourceQuery("X".to_string()), B);
    assert_eq!(
        action,
        ResourceAction::Reply(ResourceMessageType::Owner(A))
    );
}

#[test]
fn query_forwarded_by_a_stranger() {
    let mut node = Node::new("node_8003".to_string(), B);
    // B's successor is C; the query came from A, so it travels on
    let mut info = node.neighbor_info;
    info.change_next(C);
    node.install_neighbor_info(info);
    let action = node.handle_message(ResourceMessageType::ResourceQuery("X".to_string()), A);
    assert_eq!(
        action,
        ResourceAction::Forward(ResourceMessageType::ResourceQuery("X".to_string()), A)
    );
}

#[test]
fn query_bounces_unknown_after_a_full_lap() {
    let mut node = Node::new("node_8003".to_string(), B);
    let mut info = node.neighbor_info;
    info.change_next(C);
    node.install_neighbor_info(info);
    // the query's original sender is our own successor: we are the last stop
    let action = node.handle_message(ResourceMessageType::ResourceQuery("X".to_string()), C);
    assert_eq!(action, ResourceAction::Reply(ResourceMessageType::Unknown));
}

#[test]
fn acquire_grants_when_free_and_queues_when_held() {
    let mut owner = owner_node();
    let action = owner.handle_message(ResourceMessageType::Acquire("X".to_string()), B);
    assert_eq!(
        action,
        ResourceAction::Reply(ResourceMessageType::Granted("X".to_string(), B))
    );
    let state = owner.owned_resources.get(&"X".to_string()).unwrap();
    assert_eq!(state.current_user, Some(B));
    assert_eq!(state.request_queue, vec![]);

    let action = owner.handle_message(ResourceMessageType::Acquire("X".to_string()), C);
    assert_eq!(action, ResourceAction::Reply(ResourceMessageType::Queued));
    let state = owner.owned_resources.get(&"X".to_string()).unwrap();
    assert_eq!(state.current_user, Some(B));
    assert_eq!(state.request_queue, vec![C]);
}

#[test]
fn acquire_forwarded_by_a_stranger() {
    let mut node = Node::new("node_8003".to_string(), B);
    let action = node.handle_message(ResourceMessageType::Acquire("X".to_string()), C);
    assert_eq!(
        action,
        ResourceAction::Forward(ResourceMessageType::Acquire("X".to_string()), C)
    );
}

#[test]
fn release_by_the_holder_grants_the_longest_waiter() {
    let mut owner = owner_node();
    owner.handle_message(ResourceMessageType::Acquire("X".to_string()), B);
    owner.handle_message(ResourceMessageType::Acquire("X".to_string()), C);
    let action = owner.handle_message(ResourceMessageType::Release("X".to_string()), B);
    assert_eq!(
        action,
        ResourceAction::ReplyAndSend(
            ResourceMessageType::Success,
            ResourceMessageType::Granted("X".to_string(), C)
        )
    );
    let state = owner.owned_resources.get(&"X".to_string()).unwrap();
    assert_eq!(state.current_user, Some(C));
    assert_eq!(state.request_queue, vec![]);
}

#[test]
fn release_by_a_non_holder_travels_on() {
    let mut owner = owner_node();
    owner.handle_message(ResourceMessageType::Acquire("X".to_string()), B);
    let action = owner.handle_message(ResourceMessageType::Release("X".to_string()), C);
    assert_eq!(
        action,
        ResourceAction::Forward(ResourceMessageType::Release("X".to_string()), C)
    );
    let state = owner.owned_resources.get(&"X".to_string()).unwrap();
    assert_eq!(state.current_user, Some(B));
}

#[test]
fn fifo_two_waiters_granted_in_arrival_order() {
    let mut owner = owner_node();
    owner.handle_message(ResourceMessageType::Acquire("X".to_string()), A);
    owner.handle_message(ResourceMessageType::Acquire("X".to_string()), B);
    owner.handle_message(ResourceMessageType::Acquire("X".to_string()), C);
    let first = owner.handle_message(ResourceMessageType::Release("X".to_string()), A);
    assert_eq!(
        first,
        ResourceAction::ReplyAndSend(
            ResourceMessageType::Success,
            ResourceMessageType::Granted("X".to_string(), B)
        ),
        "B asked before C, so B is granted first"
    );
    let second = owner.handle_message(ResourceMessageType::Release("X".to_string()), B);
    assert_eq!(
        second,
        ResourceAction::ReplyAndSend(
            ResourceMessageType::Success,
            ResourceMessageType::Granted("X".to_string(), C)
        )
    );
}

#[test]
fn requester_records_a_grant() {
    let mut requester = Node::new("node_8003".to_string(), B);
    let outcome = requester.acquire_resource(
        "X".to_string(),
        A,
        ResourceMessageType::Granted("X".to_string(), B),
    );
    assert_eq!(outcome, AcquireOutcome::Granted);
    assert_eq!(requester.used_resources.get(&"X".to_string()), Some(&A));
    assert!(!requester.blocked_processes.contains(A));
}

#[test]
fn requester_records_being_queued() {
    let mut requester = Node::new("node_8005".to_string(), C);
    let outcome =
        requester.acquire_resource("X".to_string(), A, ResourceMessageType::Queued);
    assert_eq!(outcome, AcquireOutcome::Queued);
    assert_eq!(requester.waiting_for.get(&"X".to_string()), Some(&A));
    assert!(requester.blocked_processes.contains(A));
}

#[test]
fn granted_message_clears_the_wait_records() {
    let mut requester = Node::new("node_8005".to_string(), C);
    requester.acquire_resource("X".to_string(), A, ResourceMessageType::Queued);
    // the grant arrives over the ring, addressed to us, sent by the owner
    let action =
        requester.handle_message(ResourceMessageType::Granted("X".to_string(), C), A);
    assert_eq!(action, ResourceAction::Reply(ResourceMessageType::Success));
    assert_eq!(requester.used_resources.get(&"X".to_string()), Some(&A));
    assert_eq!(requester.waiting_for.get(&"X".to_string()), None);
    assert!(!requester.blocked_processes.contains(A));
}

#[test]
fn granted_message_for_someone_else_travels_on() {
    let mut node = Node::new("node_8003".to_string(), B);
    let action = node.handle_message(ResourceMessageType::Granted("X".to_string(), C), A);
    assert_eq!(
        action,
        ResourceAction::Forward(ResourceMessageType::Granted("X".to_string(), C), A)
    );
}

#[test]
fn unexpected_message_kind_answers_unknown() {
    let mut node = Node::new("node_8003".to_string(), B);
    let action = node.handle_message(ResourceMessageType::Success, A);
    assert_eq!(action, ResourceAction::Reply(ResourceMessageType::Unknown));
}

#[test]
fn release_of_an_unheld_resource_is_silent() {
    let mut node = Node::new("node_8003".to_string(), B);
    assert_eq!(node.release_resource(&"X".to_string()), None);
}

#[test]
fn acquire_queue_release_across_three_nodes() {
    // A owns "X"; B acquires and holds it; C acquires and is queued;
    // B releases and A grants "X" to C automatically.
    let mut a = owner_node();
    let mut b = Node::new("node_8003".to_string(), B);
    let mut c = Node::new("node_8005".to_string(), C);

    // B acquires
    let owner = a.find_resource_owner(&"X".to_string()).unwrap();
    let ResourceAction::Reply(reply) =
        a.handle_message(ResourceMessageType::Acquire("X".to_string()), B)
    else {
        panic!("the owner answers directly");
    };
    assert_eq!(b.acquire_resource("X".to_string(), owner, reply), AcquireOutcome::Granted);
    assert_eq!(b.used_resources.get(&"X".to_string()), Some(&A));

    // C acquires and is queued
    let ResourceAction::Reply(reply) =
        a.handle_message(ResourceMessageType::Acquire("X".to_string()), C)
    else {
        panic!("the owner answers directly");
    };
    assert_eq!(reply, ResourceMessageType::Queued);
    assert_eq!(c.acquire_resource("X".to_string(), owner, reply), AcquireOutcome::Queued);
    assert_eq!(
        a.owned_resources.get(&"X".to_string()).unwrap().request_queue,
        vec![C]
    );
    assert_eq!(c.waiting_for.get(&"X".to_string()), Some(&A));
    assert!(c.blocked_processes.contains(A));

    // B releases; A frees the resource and sends a grant to C
    let release = b.release_resource(&"X".to_string()).unwrap();
    assert_eq!(b.used_resources.get(&"X".to_string()), None);
    let action = a.handle_message(release, B);
    let ResourceAction::ReplyAndSend(_, grant) = action else {
        panic!("the release must grant the waiter");
    };
    assert_eq!(grant, ResourceMessageType::Granted("X".to_string(), C));

    // the grant travels to C
    c.handle_message(grant, A);
    assert_eq!(c.used_resources.get(&"X".to_string()), Some(&A));
    assert_eq!(c.waiting_for.get(&"X".to_string()), None);
    assert!(!c.blocked_processes.contains(A));
}

#[test]
fn only_the_owner_reports_a_holder() {
    // "X" is owned by A alone; after a grant, A reports the holder and the
    // other nodes, not owning "X", report nothing.
    let mut a = owner_node();
    let b = Node::new("node_8003".to_string(), B);
    a.handle_message(ResourceMessageType::Acquire("X".to_string()), B);
    assert_eq!(
        a.owned_resources.get(&"X".to_string()).unwrap().current_user,
        Some(B)
    );
    assert!(b.owned_resources.get(&"X".to_string()).is_none());
}

#[test]
fn acquire_then_release_round_trip() {
    // one owner, one requester, no contenders
    let mut owner = owner_node();
    let mut requester = Node::new("node_8003".to_string(), B);

    let reply = owner.handle_message(ResourceMessageType::Acquire("X".to_string()), B);
    let ResourceAction::Reply(granted) = reply else {
        panic!("the owner answers an Acquire directly");
    };
    requester.acquire_resource("X".to_string(), A, granted);
    assert_eq!(requester.used_resources.get(&"X".to_string()), Some(&A));

    let release = requester.release_resource(&"X".to_string()).unwrap();
    assert_eq!(release, ResourceMessageType::Release("X".to_string()));
    let action = owner.handle_message(release, B);
    assert_eq!(action, ResourceAction::Reply(ResourceMessageType::Success));

    // the owner's queue is empty and nobody holds the resource
    let state = owner.owned_resources.get(&"X".to_string()).unwrap();
    assert_eq!(state.current_user, None);
    assert_eq!(state.request_queue, vec![]);
    // the requester's tables are back to empty
    assert_eq!(requester.used_resources.get(&"X".to_string()), None);
    assert_eq!(requester.waiting_for.get(&"X".to_string()), None);
}
