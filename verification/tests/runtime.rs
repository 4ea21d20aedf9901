//! Runtime mechanics: the dispatch step, the callback correlation store,
//! the synchronous send bookkeeping, the retry decision, and the content
//! fingerprint.

use node::build_default_handlers;
use node::handle_msg;
use node::handlers::Fault;
use node::handlers::HandlerKind;
use node::handlers::Outcome;
use node::messaging::retry_step;
use node::messaging::RetryAction;
use node::messaging::RetryEvent;
use node::process_line;
use node::send_synchronous;
use node::Body;
use node::CallbackStore;
use node::HandlersMap;
use node::Message;
use node::Node;
use node::SequentialKV;
use node::Server;
use node::ServerState;

fn body(kind: &str) -> Body {
    let mut b = Body::empty();
    b.kind = kind.to_owned();
    b
}

fn msg(src: &str, dest: &str, b: Body) -> Message {
    Message { src: src.to_owned(), dest: dest.to_owned(), body: b }
}

fn broadcast_state(id: &str) -> ServerState {
    let mut n = Node::default();
    n.id = id.to_owned();
    ServerState::Broadcast(n)
}

fn broadcast_handlers() -> HandlersMap {
    let mut h = build_default_handlers();
    h.insert("echo".to_owned(), HandlerKind::Echo);
    h.insert("generate".to_owned(), HandlerKind::Generate);
    h.insert("broadcast".to_owned(), HandlerKind::Broadcast);
    h.insert("read".to_owned(), HandlerKind::ReadMessages);
    h
}

#[test]
fn default_seed_is_nonzero_and_under_the_bound() {
    for _ in 0..32 {
        let n = Node::default();
        assert!(0 < n.msg_count && n.msg_count < 10000);
        let kv = SequentialKV::default();
        assert!(0 < kv.msg_count && kv.msg_count < 10000);
    }
}

#[test]
fn counter_nodes_acknowledge_topology_by_default() {
    let mut kv = SequentialKV::default();
    kv.id = "n1".to_owned();
    let mut state = ServerState::Counter(kv);
    let mut handlers = build_default_handlers();
    handlers.insert("add".to_owned(), HandlerKind::Add);
    handlers.insert("read".to_owned(), HandlerKind::ReadValue);
    let mut cbs: CallbackStore<u32> = CallbackStore::new();
    let mut b = body("topology");
    b.topology = Some(vec!["n1".to_owned(), "n2".to_owned()]);
    b.msg_id = Some(1);
    let r = handle_msg(&mut state, &handlers, &mut cbs, &msg("c0", "n1", b));
    assert_eq!(r.actions.outcome, Outcome::Replied);
    assert_eq!(r.actions.replies[0].body.kind, "topology_ok");
    assert_eq!(state.get_topology().len(), 2);
}

#[test]
fn build_reply_addresses_the_requester() {
    let mut n = Node::default();
    n.id = "n1".to_owned();
    let mut b = body("echo");
    b.msg_id = Some(12);
    let m = msg("c9", "n1", b);
    let rep = n.build_reply("echo_ok", &m, Body::empty()).expect("reply owed");
    assert_eq!(rep.src, "n1");
    assert_eq!(rep.dest, "c9");
    assert_eq!(rep.body.kind, "echo_ok");
    assert_eq!(rep.body.in_reply_to, Some(12));
}

#[test]
fn build_reply_needs_a_msg_id() {
    let n = Node::default();
    let m = msg("c9", "n1", body("echo"));
    assert!(n.build_reply("echo_ok", &m, Body::empty()).is_none());
}

#[test]
fn handlers_map_insert_overrides() {
    let mut h = HandlersMap::new();
    h.insert("read".to_owned(), HandlerKind::ReadMessages);
    h.insert("read".to_owned(), HandlerKind::ReadValue);
    assert_eq!(h.get(&"read".to_owned()), Some(HandlerKind::ReadValue));
}

#[test]
fn callback_store_fires_at_most_once() {
    let mut cbs: CallbackStore<u32> = CallbackStore::new();
    cbs.register(5, 500);
    cbs.register(6, 600);
    assert!(cbs.is_pending(5));
    assert_eq!(cbs.resolve(5), Some(500));
    assert!(!cbs.is_pending(5));
    assert_eq!(cbs.resolve(5), None);
    assert_eq!(cbs.resolve(6), Some(600));
    assert_eq!(cbs.resolve(7), None);
}

#[test]
fn callback_store_register_replaces() {
    let mut cbs: CallbackStore<u32> = CallbackStore::new();
    cbs.register(5, 500);
    cbs.register(5, 501);
    assert_eq!(cbs.resolve(5), Some(501));
    assert_eq!(cbs.resolve(5), None);
}

#[test]
fn send_synchronous_assigns_the_next_counter_value() {
    let mut n = Node::default();
    n.id = "n1".to_owned();
    n.msg_count = 41;
    let mut cbs: CallbackStore<u32> = CallbackStore::new();
    let mut b = body("broadcast");
    b.message = Some(9);
    let req = msg("n1", "n2", b);
    let wire = send_synchronous(&mut n, &mut cbs, req, 7);
    assert_eq!(n.msg_count, 42);
    assert_eq!(wire.body.msg_id, Some(42));
    assert_eq!(wire.dest, "n2");
    assert_eq!(wire.body.message, Some(9));
    assert!(cbs.is_pending(42));
}

#[test]
fn correlation_resolves_retry() {
    let mut state = broadcast_state("n1");
    let handlers = broadcast_handlers();
    let mut cbs: CallbackStore<u32> = CallbackStore::new();

    // issue a synchronous send from inside the state
    let mut req_body = body("broadcast");
    req_body.message = Some(9);
    let req = msg("n1", "n2", req_body);
    let wire = send_synchronous(&mut state, &mut cbs, req, 77);
    let mid = wire.body.msg_id.expect("assigned");

    // absent a reply, every timeout resends
    assert_eq!(retry_step(RetryEvent::TimeoutFired), RetryAction::Resend);
    assert_eq!(retry_step(RetryEvent::TimeoutFired), RetryAction::Resend);

    // a reply whose in_reply_to matches fires the completion action
    let mut rep_body = body("broadcast_ok");
    rep_body.in_reply_to = Some(mid);
    let rep = msg("n2", "n1", rep_body);
    let r = handle_msg(&mut state, &handlers, &mut cbs, &rep);
    assert_eq!(r.fired, Some(77));
    assert_eq!(retry_step(RetryEvent::ReplyArrived), RetryAction::Stop);

    // a duplicate reply finds nothing to fire
    let r2 = handle_msg(&mut state, &handlers, &mut cbs, &rep);
    assert_eq!(r2.fired, None);
}

#[test]
fn malformed_lines_do_not_stop_valid_requests() {
    let mut state = broadcast_state("n1");
    let handlers = broadcast_handlers();
    let mut cbs: CallbackStore<u32> = CallbackStore::new();

    let mut e1 = body("echo");
    e1.echo = Some("one".to_owned());
    e1.msg_id = Some(1);
    let r1 = process_line(&mut state, &handlers, &mut cbs, Some(msg("c1", "n1", e1)));
    assert_eq!(r1.actions.outcome, Outcome::Replied);
    assert_eq!(r1.actions.replies[0].body.echo, Some("one".to_owned()));

    // a line that was not valid structured data
    let r2 = process_line(&mut state, &handlers, &mut cbs, None);
    assert_eq!(r2.actions.outcome, Outcome::Errored(Fault::MalformedEnvelope));
    assert!(r2.actions.replies.is_empty());

    // an envelope with no type tag
    let r3 = process_line(&mut state, &handlers, &mut cbs, Some(msg("c1", "n1", Body::empty())));
    assert_eq!(r3.actions.outcome, Outcome::Errored(Fault::MalformedEnvelope));

    // the next valid request is still answered
    let mut e2 = body("echo");
    e2.echo = Some("two".to_owned());
    e2.msg_id = Some(2);
    let r4 = process_line(&mut state, &handlers, &mut cbs, Some(msg("c1", "n1", e2)));
    assert_eq!(r4.actions.outcome, Outcome::Replied);
    assert_eq!(r4.actions.replies[0].body.echo, Some("two".to_owned()));
}

#[test]
fn unknown_type_is_logged_and_dropped() {
    let mut state = broadcast_state("n1");
    let handlers = build_default_handlers();
    let mut cbs: CallbackStore<u32> = CallbackStore::new();
    let mut b = body("frobnicate");
    b.msg_id = Some(1);
    let r = handle_msg(&mut state, &handlers, &mut cbs, &msg("c1", "n1", b));
    assert_eq!(r.actions.outcome, Outcome::Errored(Fault::UnknownType));
    assert!(r.actions.replies.is_empty());
}

#[test]
fn variant_mismatch_drops_the_message() {
    // an `add` handler routed while the process runs the broadcast variant
    let mut state = broadcast_state("n1");
    let mut handlers = build_default_handlers();
    handlers.insert("add".to_owned(), HandlerKind::Add);
    let mut cbs: CallbackStore<u32> = CallbackStore::new();
    let mut b = body("add");
    b.delta = Some(3);
    b.msg_id = Some(1);
    let r = handle_msg(&mut state, &handlers, &mut cbs, &msg("c1", "n1", b));
    assert_eq!(r.actions.outcome, Outcome::Dropped);
    assert!(r.actions.replies.is_empty());
}

#[test]
fn generate_mints_a_fresh_unique_id() {
    let mut state = broadcast_state("n1");
    let handlers = broadcast_handlers();
    let mut cbs: CallbackStore<u32> = CallbackStore::new();
    let mut b = body("generate");
    b.msg_id = Some(1);
    let r = handle_msg(&mut state, &handlers, &mut cbs, &msg("c1", "n1", b));
    assert_eq!(r.actions.outcome, Outcome::Replied);
    let rep = &r.actions.replies[0];
    assert_eq!(rep.body.kind, "generate_ok");
    let uid = rep.body.uid.as_ref().expect("uid minted");
    assert_eq!(uid.len(), 36);

    let mut b2 = body("generate");
    b2.msg_id = Some(2);
    let r2 = handle_msg(&mut state, &handlers, &mut cbs, &msg("c1", "n1", b2));
    let uid2 = r2.actions.replies[0].body.uid.as_ref().expect("uid minted");
    assert_ne!(uid, uid2);
}

#[test]
fn fingerprint_matches_the_specified_mix() {
    let m = msg("a", "b", body("x"));
    assert_eq!(m.hash(), 10637714308573060162u64);

    let mut b = body("add");
    b.msg_id = Some(1);
    b.delta = Some(3);
    let m2 = msg("c1", "n1", b);
    assert_eq!(m2.hash(), 9177944221024926895u64);
}

#[test]
fn fingerprint_is_content_determined() {
    let mut b1 = body("add");
    b1.msg_id = Some(1);
    b1.delta = Some(3);
    let m1 = msg("c1", "n1", b1);
    let m1_again = m1.clone();
    assert_eq!(m1.hash(), m1_again.hash());

    let mut b2 = body("add");
    b2.msg_id = Some(2);
    b2.delta = Some(3);
    let m2 = msg("c1", "n1", b2);
    assert_ne!(m1.hash(), m2.hash());
}

#[test]
fn dispatched_read_reports_the_counter() {
    let mut kv = SequentialKV::default();
    kv.id = "n1".to_owned();
    kv.counter = 17;
    let mut state = ServerState::Counter(kv);
    let mut handlers = build_default_handlers();
    handlers.insert("read".to_owned(), HandlerKind::ReadValue);
    let mut cbs: CallbackStore<u32> = CallbackStore::new();
    let mut b = body("read");
    b.msg_id = Some(3);
    let r = handle_msg(&mut state, &handlers, &mut cbs, &msg("c1", "n1", b));
    assert_eq!(r.actions.outcome, Outcome::Replied);
    assert_eq!(r.actions.replies[0].body.value, Some(17));
}

#[test]
fn dispatched_init_reaches_the_state_behind_the_variant() {
    let mut state = ServerState::Counter(SequentialKV::default());
    let handlers = build_default_handlers();
    let mut cbs: CallbackStore<u32> = CallbackStore::new();
    let mut b = body("init");
    b.node_id = Some("n4".to_owned());
    b.node_ids = Some(vec!["n4".to_owned(), "n5".to_owned()]);
    b.msg_id = Some(1);
    let r = handle_msg(&mut state, &handlers, &mut cbs, &msg("c0", "n4", b));
    assert_eq!(r.actions.outcome, Outcome::Replied);
    assert_eq!(state.get_id(), "n4");
    assert_eq!(state.get_topology().len(), 2);
}
