//! Protocol scenarios: init, topology, echo, flood-broadcast, and the
//! grow-only counter, driven through the handlers and the dispatcher.

use node::handlers::build_default_handlers;
use node::handlers::handle_add;
use node::handlers::handle_broadcast;
use node::handlers::handle_echo;
use node::handlers::handle_init;
use node::handlers::handle_read;
use node::handlers::handle_read_value;
use node::handlers::handle_topology;
use node::handlers::Fault;
use node::handlers::HandlerKind;
use node::handlers::Outcome;
use node::Body;
use node::Message;
use node::Node;
use node::SequentialKV;

fn body(kind: &str) -> Body {
    let mut b = Body::empty();
    b.kind = kind.to_owned();
    b
}

fn msg(src: &str, dest: &str, b: Body) -> Message {
    Message { src: src.to_owned(), dest: dest.to_owned(), body: b }
}

fn fresh_node(id: &str) -> Node {
    let mut n = Node::default();
    n.id = id.to_owned();
    n
}

#[test]
fn init_assigns_identity_and_replies() {
    let mut n = Node::default();
    let mut b = body("init");
    b.node_id = Some("n1".to_owned());
    b.msg_id = Some(1);
    let r = handle_init(&mut n, &msg("c0", "n0", b));
    assert_eq!(n.id, "n1");
    assert_eq!(r.outcome, Outcome::Replied);
    assert_eq!(r.replies.len(), 1);
    assert_eq!(r.replies[0].body.kind, "init_ok");
    assert_eq!(r.replies[0].body.in_reply_to, Some(1));
    assert_eq!(r.replies[0].src, "n1");
    assert_eq!(r.replies[0].dest, "c0");
}

#[test]
fn init_is_idempotent_first_wins() {
    let mut n = Node::default();
    let mut b1 = body("init");
    b1.node_id = Some("n1".to_owned());
    b1.msg_id = Some(1);
    let r1 = handle_init(&mut n, &msg("c0", "n0", b1));
    let mut b2 = body("init");
    b2.node_id = Some("n9".to_owned());
    b2.msg_id = Some(2);
    let r2 = handle_init(&mut n, &msg("c0", "n0", b2));
    assert_eq!(n.id, "n1");
    assert_eq!(r1.outcome, Outcome::Replied);
    assert_eq!(r2.outcome, Outcome::Replied);
    assert_eq!(r2.replies[0].body.kind, "init_ok");
}

#[test]
fn init_seeds_topology_from_node_ids() {
    let mut n = Node::default();
    let mut b = body("init");
    b.node_id = Some("n1".to_owned());
    b.node_ids = Some(vec!["n1".to_owned(), "n2".to_owned(), "n2".to_owned()]);
    b.msg_id = Some(1);
    handle_init(&mut n, &msg("c0", "n0", b));
    assert_eq!(n.topology.len(), 2);
    assert!(n.topology.contains(&"n1".to_owned()));
    assert!(n.topology.contains(&"n2".to_owned()));
}

#[test]
fn init_without_node_id_is_invalid() {
    let mut n = Node::default();
    let mut b = body("init");
    b.msg_id = Some(1);
    let r = handle_init(&mut n, &msg("c0", "n0", b));
    assert_eq!(r.outcome, Outcome::Errored(Fault::InvalidPayload));
    assert!(r.replies.is_empty());
    assert_eq!(n.id, "");
}

#[test]
fn repeated_init_without_msg_id_mutates_nothing_and_sends_nothing() {
    let mut n = fresh_node("n1");
    let mut b = body("init");
    b.node_id = Some("n9".to_owned());
    let r = handle_init(&mut n, &msg("c0", "n0", b));
    assert_eq!(n.id, "n1");
    assert_eq!(r.outcome, Outcome::Errored(Fault::MissingCorrelationField));
    assert!(r.replies.is_empty());
}

#[test]
fn topology_updates_take_the_union() {
    let mut n = fresh_node("n1");
    let mut b1 = body("topology");
    b1.topology = Some(vec!["a".to_owned()]);
    b1.msg_id = Some(1);
    let r1 = handle_topology(&mut n, &msg("c0", "n1", b1));
    let mut b2 = body("topology");
    b2.topology = Some(vec!["b".to_owned()]);
    b2.msg_id = Some(2);
    let r2 = handle_topology(&mut n, &msg("c0", "n1", b2));
    assert!(n.topology.contains(&"a".to_owned()));
    assert!(n.topology.contains(&"b".to_owned()));
    assert_eq!(r1.outcome, Outcome::Replied);
    assert_eq!(r1.replies[0].body.kind, "topology_ok");
    assert_eq!(r2.outcome, Outcome::Replied);
}

#[test]
fn topology_with_equal_keys_stays_deduplicated() {
    let mut n = fresh_node("n1");
    let mut b1 = body("topology");
    b1.topology = Some(vec!["a".to_owned(), "a".to_owned()]);
    b1.msg_id = Some(1);
    handle_topology(&mut n, &msg("c0", "n1", b1));
    let mut b2 = body("topology");
    b2.topology = Some(vec!["a".to_owned()]);
    b2.msg_id = Some(2);
    handle_topology(&mut n, &msg("c0", "n1", b2));
    assert_eq!(n.topology.iter().filter(|p| p.as_str() == "a").count(), 1);
}

#[test]
fn topology_without_mapping_is_invalid() {
    let mut n = fresh_node("n1");
    let mut b = body("topology");
    b.msg_id = Some(1);
    let r = handle_topology(&mut n, &msg("c0", "n1", b));
    assert_eq!(r.outcome, Outcome::Errored(Fault::InvalidPayload));
    assert!(r.replies.is_empty());
    assert!(n.topology.is_empty());
}

#[test]
fn echo_replies_with_the_payload() {
    let n = fresh_node("n1");
    let mut b = body("echo");
    b.echo = Some("hello there".to_owned());
    b.msg_id = Some(4);
    let r = handle_echo(&n, &msg("c2", "n1", b));
    assert_eq!(r.outcome, Outcome::Replied);
    assert_eq!(r.replies[0].body.kind, "echo_ok");
    assert_eq!(r.replies[0].body.echo, Some("hello there".to_owned()));
    assert_eq!(r.replies[0].body.in_reply_to, Some(4));
    assert_eq!(r.replies[0].dest, "c2");
}

#[test]
fn echo_without_msg_id_sends_nothing() {
    let n = fresh_node("n1");
    let mut b = body("echo");
    b.echo = Some("x".to_owned());
    let r = handle_echo(&n, &msg("c2", "n1", b));
    assert_eq!(r.outcome, Outcome::Errored(Fault::MissingCorrelationField));
    assert!(r.replies.is_empty());
}

#[test]
fn broadcast_accumulates_once_and_read_reports_it() {
    let mut n = fresh_node("n1");
    let mut b1 = body("broadcast");
    b1.message = Some(5);
    b1.msg_id = Some(1);
    let r1 = handle_broadcast(&mut n, &msg("c1", "n1", b1));
    let mut b2 = body("broadcast");
    b2.message = Some(5);
    b2.msg_id = Some(2);
    let r2 = handle_broadcast(&mut n, &msg("c2", "n1", b2));
    assert_eq!(r1.outcome, Outcome::Replied);
    assert_eq!(r2.outcome, Outcome::Replied);
    assert_eq!(n.values.iter().filter(|v| **v == 5).count(), 1);
    let mut rb = body("read");
    rb.msg_id = Some(3);
    let r3 = handle_read(&n, &msg("c1", "n1", rb));
    assert_eq!(r3.outcome, Outcome::Replied);
    assert_eq!(r3.replies[0].body.kind, "read_ok");
    assert_eq!(r3.replies[0].body.messages, Some(vec![5]));
}

#[test]
fn broadcast_relays_to_everyone_but_sender_and_self() {
    let mut n = fresh_node("n1");
    n.topology = vec!["n1".to_owned(), "n2".to_owned(), "n3".to_owned()];
    let mut b = body("broadcast");
    b.message = Some(7);
    b.msg_id = Some(1);
    let r = handle_broadcast(&mut n, &msg("n2", "n1", b));
    assert_eq!(r.sync_requests.len(), 1);
    assert_eq!(r.sync_requests[0].dest, "n3");
    assert_eq!(r.sync_requests[0].src, "n1");
    assert_eq!(r.sync_requests[0].body.kind, "broadcast");
    assert_eq!(r.sync_requests[0].body.message, Some(7));
    assert_eq!(r.sync_requests[0].body.msg_id, None);
}

#[test]
fn broadcast_duplicate_does_not_relay_again() {
    let mut n = fresh_node("n1");
    n.topology = vec!["n2".to_owned(), "n3".to_owned()];
    let mut b1 = body("broadcast");
    b1.message = Some(7);
    b1.msg_id = Some(1);
    let r1 = handle_broadcast(&mut n, &msg("c1", "n1", b1));
    assert_eq!(r1.sync_requests.len(), 2);
    let mut b2 = body("broadcast");
    b2.message = Some(7);
    b2.msg_id = Some(2);
    let r2 = handle_broadcast(&mut n, &msg("n3", "n1", b2));
    assert!(r2.sync_requests.is_empty());
    assert_eq!(r2.outcome, Outcome::Replied);
}

#[test]
fn broadcast_without_message_is_invalid() {
    let mut n = fresh_node("n1");
    let mut b = body("broadcast");
    b.msg_id = Some(1);
    let r = handle_broadcast(&mut n, &msg("c1", "n1", b));
    assert_eq!(r.outcome, Outcome::Errored(Fault::InvalidPayload));
    assert!(n.values.is_empty());
}

fn client_add(src: &str, dest: &str, delta: u64, mid: u64) -> Message {
    let mut b = body("add");
    b.delta = Some(delta);
    b.msg_id = Some(mid);
    msg(src, dest, b)
}

fn fresh_kv(id: &str) -> SequentialKV {
    let mut kv = SequentialKV::default();
    kv.id = id.to_owned();
    kv
}

#[test]
fn add_applies_and_replicates_with_fingerprint() {
    let mut kv = fresh_kv("n1");
    kv.topology = vec!["n1".to_owned(), "n2".to_owned()];
    let r = handle_add(&mut kv, &client_add("c1", "n1", 3, 1));
    assert_eq!(r.outcome, Outcome::Replied);
    assert_eq!(r.replies[0].body.kind, "add_ok");
    assert_eq!(kv.counter, 3);
    assert_eq!(kv.values.len(), 1);
    assert_eq!(r.sync_requests.len(), 1);
    assert_eq!(r.sync_requests[0].dest, "n2");
    assert_eq!(r.sync_requests[0].body.kind, "add");
    assert_eq!(r.sync_requests[0].body.delta, Some(3));
    assert_eq!(r.sync_requests[0].body.hash, Some(kv.values[0]));
}

#[test]
fn counter_replicas_converge_and_duplicates_are_no_ops() {
    let mut a = fresh_kv("n1");
    a.topology = vec!["n1".to_owned(), "n2".to_owned()];
    let mut b = fresh_kv("n2");
    b.topology = vec!["n1".to_owned(), "n2".to_owned()];

    // each replica takes a client increment of 3 with distinct content
    let ra = handle_add(&mut a, &client_add("c1", "n1", 3, 10));
    let rb = handle_add(&mut b, &client_add("c2", "n2", 3, 20));
    assert_eq!(a.counter, 3);
    assert_eq!(b.counter, 3);
    assert_eq!(ra.sync_requests.len(), 1);
    assert_eq!(rb.sync_requests.len(), 1);

    // exchange the replication messages (stamping a msg_id as the
    // synchronous send would)
    let mut to_b = ra.sync_requests[0].clone();
    to_b.body.msg_id = Some(11);
    let mut to_a = rb.sync_requests[0].clone();
    to_a.body.msg_id = Some(21);
    handle_add(&mut b, &to_b);
    handle_add(&mut a, &to_a);
    assert_eq!(a.counter, 6);
    assert_eq!(b.counter, 6);

    // re-delivering an already-applied replication message changes nothing
    let r_dup = handle_add(&mut b, &to_b);
    assert_eq!(b.counter, 6);
    assert_eq!(r_dup.outcome, Outcome::Replied);
    assert!(r_dup.sync_requests.is_empty());
}

#[test]
fn add_from_relay_without_hash_is_invalid() {
    let mut kv = fresh_kv("n1");
    let mut b = body("add");
    b.delta = Some(3);
    b.msg_id = Some(1);
    let r = handle_add(&mut kv, &msg("n2", "n1", b));
    assert_eq!(r.outcome, Outcome::Errored(Fault::InvalidPayload));
    assert_eq!(kv.counter, 0);
}

#[test]
fn add_from_unknown_sender_kind_is_invalid() {
    let mut kv = fresh_kv("n1");
    let r = handle_add(&mut kv, &client_add("x1", "n1", 3, 1));
    assert_eq!(r.outcome, Outcome::Errored(Fault::InvalidPayload));
    assert_eq!(kv.counter, 0);
}

#[test]
fn add_accumulator_wraps_at_the_machine_width() {
    let mut kv = fresh_kv("n1");
    let mut b1 = body("add");
    b1.delta = Some(u64::MAX);
    b1.hash = Some(111);
    b1.msg_id = Some(1);
    handle_add(&mut kv, &msg("n2", "n1", b1));
    assert_eq!(kv.counter, u64::MAX);
    let mut b2 = body("add");
    b2.delta = Some(2);
    b2.hash = Some(222);
    b2.msg_id = Some(2);
    handle_add(&mut kv, &msg("n2", "n1", b2));
    assert_eq!(kv.counter, 1);
}

#[test]
fn read_value_reports_the_accumulator() {
    let mut kv = fresh_kv("n1");
    kv.counter = 42;
    let mut b = body("read");
    b.msg_id = Some(9);
    let r = handle_read_value(&kv, &msg("c1", "n1", b));
    assert_eq!(r.outcome, Outcome::Replied);
    assert_eq!(r.replies[0].body.kind, "read_ok");
    assert_eq!(r.replies[0].body.value, Some(42));
}

#[test]
fn default_handlers_know_the_generic_types() {
    let h = build_default_handlers();
    assert_eq!(h.get(&"init".to_owned()), Some(HandlerKind::Init));
    assert_eq!(h.get(&"topology".to_owned()), Some(HandlerKind::Topology));
    assert_eq!(h.get(&"echo".to_owned()), None);
    assert_eq!(h.get(&"broadcast".to_owned()), None);
}
