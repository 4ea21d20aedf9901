//! The handler dispatch table and the protocol handlers.
//!
//! A handler is a pure step: it reads one envelope, mutates the node state
//! under the caller's lock, and returns the envelopes to write out — direct
//! replies, and requests to be sent synchronously (with retry) by the
//! caller.  Handlers never perform I/O themselves.

use vstd::prelude::*;

use crate::server::Server;
use crate::server::SrvView;
use crate::server::reply_view;
use crate::types::Body;
use crate::types::BodyView;
use crate::types::Message;
use crate::types::MessageView;
use crate::types::Node;
use crate::types::SequentialKV;
use crate::types::nodup_nums;
use crate::types::nodup_strs;

verus! {

/// The ways an inbound envelope can fail; none of them is fatal to the
/// process.
#[derive(Clone, Copy, PartialEq, Eq, Structural, Debug)]
pub enum Fault {
    /// The line was not a well-formed envelope, or its body had no tag.
    MalformedEnvelope,
    /// A reply was owed but the request carried no `msg_id`.
    MissingCorrelationField,
    /// No handler is registered for the envelope's tag.
    UnknownType,
    /// A type-specific required field is missing or of the wrong shape.
    InvalidPayload,
}

/// What became of one inbound envelope.
#[derive(Clone, Copy, PartialEq, Eq, Structural, Debug)]
pub enum Outcome {
    /// A reply was produced.
    Replied,
    /// The envelope was silently ignored (an idempotent no-op, or a
    /// handler that needs a different state variant).
    Dropped,
    /// The envelope was rejected; the error is logged and the node moves
    /// on to the next line.
    Errored(Fault),
}

/// What a handler asks the caller to do: write the replies, and issue the
/// requests by synchronous send (assigning each its `msg_id` and retrying
/// it until acknowledged).
pub struct Actions {
    pub outcome: Outcome,
    pub replies: Vec<Message>,
    pub sync_requests: Vec<Message>,
}

impl Actions {
    /// An outcome with nothing to send.
    pub fn quiet(outcome: Outcome) -> (r: Actions)
        ensures
            r.outcome == outcome,
            r.replies@ == Seq::<Message>::empty(),
            r.sync_requests@ == Seq::<Message>::empty(),
    {
        Actions { outcome, replies: Vec::new(), sync_requests: Vec::new() }
    }

    /// A single reply and nothing else.
    pub fn reply_with(rep: Message) -> (r: Actions)
        ensures
            r.outcome == Outcome::Replied,
            r.replies@.len() == 1 && r.replies@[0] == rep,
            r.sync_requests@ == Seq::<Message>::empty(),
    {
        let mut replies: Vec<Message> = Vec::new();
        replies.push(rep);
        Actions { outcome: Outcome::Replied, replies, sync_requests: Vec::new() }
    }
}

/// The handlers the runtime knows how to run.  The table maps a wire tag
/// to one of these; variant-specific handlers check the state variant and
/// drop the message on a mismatch.  The set is closed: a protocol beyond
/// these adds a variant (and its step function) here, rather than
/// registering a closure at run time.
#[derive(Clone, Copy, PartialEq, Eq, Structural, Debug)]
pub enum HandlerKind {
    /// Identity assignment (idempotent) and optional topology seeding.
    Init,
    /// Topology union.
    Topology,
    /// Echo the payload back.
    Echo,
    /// Mint a fresh unique id.
    Generate,
    /// Flood-broadcast a value (set-accumulator variant).
    Broadcast,
    /// Report the accumulated values (set-accumulator variant).
    ReadMessages,
    /// Apply a replicated increment (counter variant).
    Add,
    /// Report the accumulator value (counter variant).
    ReadValue,
}

/// What tag `k` resolves to in the entry list `s`: the latest insertion
/// wins, as in a map.
spec fn lookup(s: Seq<(String, HandlerKind)>, k: Seq<char>) -> Option<HandlerKind>
    decreases s.len(),
{
    if s.len() == 0 {
        Option::None
    } else if s.last().0@ == k {
        Option::Some(s.last().1)
    } else {
        lookup(s.drop_last(), k)
    }
}

/// The dispatch table: from a wire tag to the handler registered for it.
pub struct HandlersMap {
    entries: Vec<(String, HandlerKind)>,
}

impl HandlersMap {
    /// The handler registered under tag `k`, if any.
    pub closed spec fn spec_get(&self, k: Seq<char>) -> Option<HandlerKind> {
        lookup(self.entries@, k)
    }

    /// An empty table.
    pub fn new() -> (r: HandlersMap)
        ensures
            forall|k: Seq<char>| r.spec_get(k) is None,
    {
        HandlersMap { entries: Vec::new() }
    }

    /// Register `h` under `kind`, replacing any earlier registration.
    pub fn insert(&mut self, kind: String, h: HandlerKind)
        ensures
            final(self).spec_get(kind@) == Option::Some(h),
            forall|k: Seq<char>| k != kind@ ==> final(self).spec_get(k) == old(self).spec_get(k),
    {
        self.entries.push((kind, h));
        proof {
            assert(self.entries@.drop_last() =~= old(self).entries@);
        }
    }

    /// Look the tag up.
    pub fn get(&self, kind: &String) -> (r: Option<HandlerKind>)
        ensures
            r == self.spec_get(kind@),
    {
        let n = self.entries.len();
        proof {
            assert(self.entries@.subrange(0, n as int) =~= self.entries@);
        }
        let mut i: usize = n;
        while i > 0
            invariant
                i <= n,
                n == self.entries@.len(),
                lookup(self.entries@.subrange(0, i as int), kind@) == lookup(self.entries@, kind@),
            decreases i,
    {
            proof {
                assert(self.entries@.subrange(0, i as int).drop_last() =~= self.entries@.subrange(
                    0,
                    i - 1,
                ));
                assert(self.entries@.subrange(0, i as int).last() == self.entries@[i - 1]);
            }
            if self.entries[i - 1].0 == *kind {
                return Option::Some(self.entries[i - 1].1);
            }
            i = i - 1;
        }
        Option::None
    }
}

/// The default handler set: the generic types every node understands,
/// `init` and `topology`; a protocol registers its own handlers on top.
pub fn build_default_handlers() -> (r: HandlersMap)
    ensures
        r.spec_get("init"@) == Option::Some(HandlerKind::Init),
        r.spec_get("topology"@) == Option::Some(HandlerKind::Topology),
        forall|k: Seq<char>| k != "init"@ && k != "topology"@ ==> r.spec_get(k) is None,
{
    proof {
        reveal_strlit("init");
        reveal_strlit("topology");
        assert("init"@.len() != "topology"@.len());
    }
    let mut handlers = HandlersMap::new();
    handlers.insert("init".to_owned(), HandlerKind::Init);
    handlers.insert("topology".to_owned(), HandlerKind::Topology);
    handlers
}

/// Whether the list holds this identity.
pub fn contains_str(v: &Vec<String>, s: &String) -> (r: bool)
    ensures
        r == v.deep_view().contains(s@),
{
    let mut i: usize = 0;
    while i < v.len()
        invariant
            i <= v@.len(),
            forall|j: int| 0 <= j < i ==> v.deep_view()[j] != s@,
        decreases v@.len() - i,
    {
        if v[i] == *s {
            proof {
                assert(v.deep_view()[i as int] == s@);
            }
            return true;
        }
        i = i + 1;
    }
    proof {
        assert(forall|j: int| 0 <= j < v.deep_view().len() ==> v.deep_view()[j] != s@);
    }
    false
}

/// Whether the list holds this value.
pub fn contains_u64(v: &Vec<u64>, x: u64) -> (r: bool)
    ensures
        r == v@.contains(x),
{
    let mut i: usize = 0;
    while i < v.len()
        invariant
            i <= v@.len(),
            forall|j: int| 0 <= j < i ==> v@[j] != x,
        decreases v@.len() - i,
    {
        if v[i] == x {
            return true;
        }
        i = i + 1;
    }
    false
}

/// The identities of `v`, first occurrences kept, duplicates dropped.
pub fn dedup_strs(v: &Vec<String>) -> (r: Vec<String>)
    ensures
        nodup_strs(r.deep_view()),
        r.deep_view().to_set() == v.deep_view().to_set(),
{
    let mut r: Vec<String> = Vec::new();
    let mut i: usize = 0;
    while i < v.len()
        invariant
            i <= v@.len(),
            v.deep_view().len() == v@.len(),
            nodup_strs(r.deep_view()),
            r.deep_view().to_set() =~= v.deep_view().subrange(0, i as int).to_set(),
        decreases v@.len() - i,
    {
        proof {
            assert(v.deep_view()[i as int] == v@[i as int]@);
        }
        let ghost pre = r.deep_view();
        let ghost x = v.deep_view()[i as int];
        if !contains_str(&r, &v[i]) {
            r.push(v[i].clone());
            proof {
                assert(r.deep_view() =~= pre.push(x));
                pre.lemma_push_to_set_commute(x);
            }
        }
        i = i + 1;
        proof {
            assert(v.deep_view().subrange(0, i as int) =~= v.deep_view().subrange(0, i - 1).push(
                x,
            ));
            v.deep_view().subrange(0, i - 1).lemma_push_to_set_commute(x);
            assert(r.deep_view().to_set() =~= v.deep_view().subrange(0, i as int).to_set());
        }
    }
    proof {
        assert(v.deep_view().subrange(0, v.deep_view().len() as int) =~= v.deep_view());
    }
    r
}

/// `base` extended by the identities of `add` it does not yet hold.
pub fn union_strs(base: Vec<String>, add: &Vec<String>) -> (r: Vec<String>)
    requires
        nodup_strs(base.deep_view()),
    ensures
        nodup_strs(r.deep_view()),
        r.deep_view().to_set() == base.deep_view().to_set().union(add.deep_view().to_set()),
{
    let mut r = base;
    let mut i: usize = 0;
    while i < add.len()
        invariant
            i <= add@.len(),
            add.deep_view().len() == add@.len(),
            nodup_strs(r.deep_view()),
            r.deep_view().to_set() =~= base.deep_view().to_set().union(
                add.deep_view().subrange(0, i as int).to_set(),
            ),
        decreases add@.len() - i,
    {
        proof {
            assert(add.deep_view()[i as int] == add@[i as int]@);
        }
        let ghost pre = r.deep_view();
        let ghost x = add.deep_view()[i as int];
        if !contains_str(&r, &add[i]) {
            r.push(add[i].clone());
            proof {
                assert(r.deep_view() =~= pre.push(x));
                pre.lemma_push_to_set_commute(x);
            }
        }
        i = i + 1;
        proof {
            assert(add.deep_view().subrange(0, i as int) =~= add.deep_view().subrange(
                0,
                i - 1,
            ).push(x));
            add.deep_view().subrange(0, i - 1).lemma_push_to_set_commute(x);
            assert(r.deep_view().to_set() =~= base.deep_view().to_set().union(
                add.deep_view().subrange(0, i as int).to_set(),
            ));
        }
    }
    proof {
        assert(add.deep_view().subrange(0, add.deep_view().len() as int) =~= add.deep_view());
    }
    r
}

/// The identity after an `init`: the first assignment wins; later ones
/// change nothing.
pub open spec fn init_next_id(id: Seq<char>, nid: Option<Seq<char>>) -> Seq<char> {
    if id.len() > 0 {
        id
    } else {
        match nid {
            Option::Some(n) => n,
            Option::None => id,
        }
    }
}

/// Whether an `init` request is owed an `init_ok`: it is understood (the
/// node is already initialized, or the request names an identity) and
/// carries a `msg_id` to reply to.
pub open spec fn init_acked(id: Seq<char>, b: BodyView) -> bool {
    (id.len() > 0 || b.node_id is Some) && b.msg_id is Some
}

/// Everything `init` does, as a relation between the capability summaries
/// before and after, the request, and the resulting actions.
pub open spec fn init_rel(pre: SrvView, post: SrvView, m: MessageView, r: Actions) -> bool {
    &&& post.count == pre.count
    &&& r.sync_requests@ == Seq::<Message>::empty()
    &&& post.id == init_next_id(pre.id, m.body.node_id)
    // only a first init that names an identity touches the topology
    &&& pre.id.len() > 0 ==> post.topo == pre.topo
    &&& (pre.id.len() == 0 && m.body.node_id is None) ==> (
        post.topo == pre.topo
        && r.outcome == Outcome::Errored(Fault::InvalidPayload)
        && r.replies@ == Seq::<Message>::empty()
    )
    &&& (pre.id.len() == 0 && m.body.node_id is Some) ==> (match m.body.node_ids {
        Option::Some(ids) => post.topo.to_set() == ids.to_set(),
        Option::None => post.topo == pre.topo,
    })
    // the acknowledgement is owed whenever the request is understood
    &&& init_acked(pre.id, m.body) ==> (
        r.outcome == Outcome::Replied
        && r.replies@.len() == 1
        && r.replies@[0]@ == reply_view(post.id, "init_ok"@, m, BodyView::tagged(Seq::<char>::empty()))
    )
    &&& ((pre.id.len() > 0 || m.body.node_id is Some) && m.body.msg_id is None) ==> (
        r.outcome == Outcome::Errored(Fault::MissingCorrelationField)
        && r.replies@ == Seq::<Message>::empty()
    )
}

/// Identity assignment (idempotent) and optional topology seeding.
///
/// Identity is assigned exactly once: once non-empty it never changes, and
/// a repeated `init` is acknowledged without any state mutation.  A first
/// `init` that carries no `node_id` is rejected as an invalid payload.
pub fn handle_init<S: Server>(srv: &mut S, msg: &Message) -> (r: Actions)
    requires
        old(srv).inv(),
    ensures
        final(srv).inv(),
        final(srv).store_view() == old(srv).store_view(),
        init_rel(SrvView::of(*old(srv)), SrvView::of(*final(srv)), msg@, r),
{
    let id = srv.get_id();
    if id.as_str().is_empty() {
        match &msg.body.node_id {
            Option::None => {
                return Actions::quiet(Outcome::Errored(Fault::InvalidPayload));
            },
            Option::Some(nid) => {
                srv.set_id(nid.clone());
                match &msg.body.node_ids {
                    Option::Some(ids) => {
                        let topo = dedup_strs(ids);
                        srv.set_topology(topo);
                    },
                    Option::None => {},
                }
            },
        }
    }
    match srv.build_reply("init_ok", msg, Body::empty()) {
        Option::Some(rep) => Actions::reply_with(rep),
        Option::None => Actions::quiet(Outcome::Errored(Fault::MissingCorrelationField)),
    }
}

/// The topology after a `topology` update: the union of the old set and
/// the supplied peer ids — peers are only ever added, never removed.
pub open spec fn topo_next(t: Set<Seq<char>>, keys: Seq<Seq<char>>) -> Set<Seq<char>> {
    t.union(keys.to_set())
}

/// Everything `topology` does, as a relation.
pub open spec fn topology_rel(pre: SrvView, post: SrvView, m: MessageView, r: Actions) -> bool {
    &&& post.id == pre.id
    &&& post.count == pre.count
    &&& r.sync_requests@ == Seq::<Message>::empty()
    &&& m.body.topology is None ==> (
        post.topo == pre.topo
        && r.outcome == Outcome::Errored(Fault::InvalidPayload)
        && r.replies@ == Seq::<Message>::empty()
    )
    &&& m.body.topology matches Some(keys) ==> (
        post.topo.to_set() == topo_next(pre.topo.to_set(), keys)
        && nodup_strs(post.topo)
        && match m.body.msg_id {
            Option::Some(_) => r.outcome == Outcome::Replied
                && r.replies@.len() == 1
                && r.replies@[0]@ == reply_view(
                    pre.id,
                    "topology_ok"@,
                    m,
                    BodyView::tagged(Seq::<char>::empty()),
                ),
            Option::None => r.outcome == Outcome::Errored(Fault::MissingCorrelationField)
                && r.replies@ == Seq::<Message>::empty(),
        }
    )
}

/// Merge the supplied peer-id set into the topology (union, not replace)
/// and acknowledge with `topology_ok`.  A request without a `topology`
/// mapping is dropped without a reply.
pub fn handle_topology<S: Server>(srv: &mut S, msg: &Message) -> (r: Actions)
    requires
        old(srv).inv(),
    ensures
        final(srv).inv(),
        final(srv).store_view() == old(srv).store_view(),
        topology_rel(SrvView::of(*old(srv)), SrvView::of(*final(srv)), msg@, r),
{
    match &msg.body.topology {
        Option::None => Actions::quiet(Outcome::Errored(Fault::InvalidPayload)),
        Option::Some(keys) => {
            let current = srv.get_topology();
            proof {
                srv.inv_topo_nodup();
            }
            let merged = union_strs(current, keys);
            srv.set_topology(merged);
            match srv.build_reply("topology_ok", msg, Body::empty()) {
                Option::Some(rep) => Actions::reply_with(rep),
                Option::None => Actions::quiet(Outcome::Errored(Fault::MissingCorrelationField)),
            }
        },
    }
}

/// The body of an `echo_ok`: the echoed payload alone.
pub open spec fn echo_body(e: Seq<char>) -> BodyView {
    BodyView { echo: Option::Some(e), ..BodyView::tagged(Seq::<char>::empty()) }
}

/// Everything `echo` does, as a relation (it never mutates state).
pub open spec fn echo_rel(id: Seq<char>, m: MessageView, r: Actions) -> bool {
    &&& r.sync_requests@ == Seq::<Message>::empty()
    &&& m.body.echo is None ==> (
        r.outcome == Outcome::Errored(Fault::InvalidPayload)
        && r.replies@ == Seq::<Message>::empty()
    )
    &&& m.body.echo matches Some(e) ==> match m.body.msg_id {
        Option::Some(_) => r.outcome == Outcome::Replied
            && r.replies@.len() == 1
            && r.replies@[0]@ == reply_view(id, "echo_ok"@, m, echo_body(e)),
        Option::None => r.outcome == Outcome::Errored(Fault::MissingCorrelationField)
            && r.replies@ == Seq::<Message>::empty(),
    }
}

/// Echo the payload back.  A request without an `echo` field is dropped
/// without a reply.
pub fn handle_echo<S: Server>(srv: &S, msg: &Message) -> (r: Actions)
    ensures
        echo_rel(srv.id_view(), msg@, r),
{
    match &msg.body.echo {
        Option::None => Actions::quiet(Outcome::Errored(Fault::InvalidPayload)),
        Option::Some(e) => {
            let mut extra = Body::empty();
            extra.echo = Option::Some(e.clone());
            match srv.build_reply("echo_ok", msg, extra) {
                Option::Some(rep) => Actions::reply_with(rep),
                Option::None => Actions::quiet(Outcome::Errored(Fault::MissingCorrelationField)),
            }
        },
    }
}

/// The body of a `generate_ok`: the fresh unique id alone.
pub open spec fn uid_body(uid: Seq<char>) -> BodyView {
    BodyView { uid: Option::Some(uid), ..BodyView::tagged(Seq::<char>::empty()) }
}

/// Whether the tag equals the literal.
pub fn str_is(s: &String, lit: &str) -> (r: bool)
    ensures
        r == (s@ == lit@),
{
    let owned: String = lit.to_owned();
    *s == owned
}

/// Everything `generate` does, as a relation (it never mutates state).
pub open spec fn generate_rel(id: Seq<char>, uid: Seq<char>, m: MessageView, r: Actions) -> bool {
    &&& r.sync_requests@ == Seq::<Message>::empty()
    &&& m.body.kind != "generate"@ ==> (
        r.outcome == Outcome::Errored(Fault::InvalidPayload)
        && r.replies@ == Seq::<Message>::empty()
    )
    &&& m.body.kind == "generate"@ ==> match m.body.msg_id {
        Option::Some(_) => r.outcome == Outcome::Replied
            && r.replies@.len() == 1
            && r.replies@[0]@ == reply_view(id, "generate_ok"@, m, uid_body(uid)),
        Option::None => r.outcome == Outcome::Errored(Fault::MissingCorrelationField)
            && r.replies@ == Seq::<Message>::empty(),
    }
}

/// Reply `generate_ok` carrying `uid`, a fresh unique id the caller minted
/// for this request.  A request whose tag is not `generate` is dropped.
pub fn handle_generate<S: Server>(srv: &S, msg: &Message, uid: String) -> (r: Actions)
    ensures
        generate_rel(srv.id_view(), uid@, msg@, r),
{
    if !str_is(&msg.body.kind, "generate") {
        return Actions::quiet(Outcome::Errored(Fault::InvalidPayload));
    }
    let mut extra = Body::empty();
    extra.uid = Option::Some(uid);
    match srv.build_reply("generate_ok", msg, extra) {
        Option::Some(rep) => Actions::reply_with(rep),
        Option::None => Actions::quiet(Outcome::Errored(Fault::MissingCorrelationField)),
    }
}

/// Relies on uuid::Uuid::now_v7 and its hyphenated Display form: a fresh
/// version-7 unique id, 36 characters long.
#[verifier::external_body]
pub(crate) fn fresh_unique_id() -> (r: String)
    ensures
        r@.len() == 36,
{
    uuid::Uuid::now_v7().to_string()
}

/// A copy of the accumulated values.
pub fn clone_nums(v: &Vec<u64>) -> (r: Vec<u64>)
    ensures
        r@ == v@,
{
    let mut r: Vec<u64> = Vec::new();
    let mut i: usize = 0;
    while i < v.len()
        invariant
            i <= v@.len(),
            r@ =~= v@.subrange(0, i as int),
        decreases v@.len() - i,
    {
        r.push(v[i]);
        i = i + 1;
    }
    proof {
        assert(v@.subrange(0, v@.len() as int) =~= v@);
    }
    r
}

/// The peers a freshly seen broadcast value is relayed to: every known
/// peer except the envelope's sender and this node itself.
pub open spec fn bcast_targets(topo: Seq<Seq<char>>, sender: Seq<char>, me: Seq<char>) -> Seq<
    Seq<char>,
> {
    topo.filter(|p: Seq<char>| p != sender && p != me)
}

/// The relay request for a broadcast value: a fresh envelope without a
/// `msg_id` (the synchronous send assigns one).
pub open spec fn bcast_request(me: Seq<char>, peer: Seq<char>, v: u64) -> MessageView {
    MessageView {
        src: me,
        dest: peer,
        body: BodyView { message: Option::Some(v), ..BodyView::tagged("broadcast"@) },
    }
}

/// Everything `broadcast` does, as a relation between the node before and
/// after, the request, and the resulting actions.
pub open spec fn broadcast_rel(pre: Node, post: Node, m: MessageView, r: Actions) -> bool {
    &&& post.id@ == pre.id@
    &&& post.topology.deep_view() == pre.topology.deep_view()
    &&& post.msg_count == pre.msg_count
    &&& m.body.message is None ==> (
        post.values@ == pre.values@
        && r.outcome == Outcome::Errored(Fault::InvalidPayload)
        && r.replies@ == Seq::<Message>::empty()
        && r.sync_requests@ == Seq::<Message>::empty()
    )
    &&& m.body.message matches Some(v) ==> (
        post.values_set() == pre.values_set().insert(v)
        && (pre.values@.contains(v) ==> (
            post.values@ == pre.values@
            && r.sync_requests@ == Seq::<Message>::empty()
        ))
        && (!pre.values@.contains(v) ==> (
            post.values@ == pre.values@.push(v)
            && {
                let targets = bcast_targets(pre.topology.deep_view(), m.src, pre.id@);
                r.sync_requests@.len() == targets.len()
                && forall|k: int| 0 <= k < targets.len()
                    ==> r.sync_requests@[k]@ == bcast_request(pre.id@, targets[k], v)
            }
        ))
        && match m.body.msg_id {
            Option::Some(_) => r.outcome == Outcome::Replied
                && r.replies@.len() == 1
                && r.replies@[0]@ == reply_view(
                    pre.id@,
                    "broadcast_ok"@,
                    m,
                    BodyView::tagged(Seq::<char>::empty()),
                ),
            Option::None => r.outcome == Outcome::Errored(Fault::MissingCorrelationField)
                && r.replies@ == Seq::<Message>::empty(),
        }
    )
}

/// Flood-broadcast: a value not seen before is accumulated, acknowledged,
/// and relayed (by synchronous send) to every peer except the sender and
/// this node; an already-seen value is acknowledged and otherwise ignored,
/// so redelivery is safe.
pub fn handle_broadcast(node: &mut Node, msg: &Message) -> (r: Actions)
    requires
        old(node).wf(),
    ensures
        final(node).wf(),
        broadcast_rel(*old(node), *final(node), msg@, r),
{
    match msg.body.message {
        Option::None => Actions::quiet(Outcome::Errored(Fault::InvalidPayload)),
        Option::Some(v) => {
            let dup = contains_u64(&node.values, v);
            if !dup {
                node.values.push(v);
                proof {
                    old(node).values@.lemma_push_to_set_commute(v);
                    assert(node.values_set() =~= old(node).values_set().insert(v));
                }
            } else {
                proof {
                    assert(node.values_set() =~= old(node).values_set().insert(v));
                }
            }
            let mut sync_requests: Vec<Message> = Vec::new();
            if !dup {
                let ghost topo = node.topology.deep_view();
                let ghost sender = msg.src@;
                let ghost me = node.id@;
                let n = node.topology.len();
                proof {
                    assert(topo.subrange(0, 0) =~= Seq::<Seq<char>>::empty());
                    reveal(Seq::filter);
                }
                let mut i: usize = 0;
                while i < n
                    invariant
                        i <= n,
                        n == node.topology@.len(),
                        topo == node.topology.deep_view(),
                        sender == msg.src@,
                        me == node.id@,
                        node.wf(),
                        sync_requests@.len() == bcast_targets(
                            topo.subrange(0, i as int),
                            sender,
                            me,
                        ).len(),
                        forall|k: int| 0 <= k < sync_requests@.len()
                            ==> sync_requests@[k]@ == bcast_request(
                                me,
                                bcast_targets(topo.subrange(0, i as int), sender, me)[k],
                                v,
                            ),
                    decreases n - i,
                {
                    proof {
                        assert(topo[i as int] == node.topology@[i as int]@);
                    }
                    if !(node.topology[i] == msg.src) && !(node.topology[i] == node.id) {
                        let mut body = Body::empty();
                        body.kind = "broadcast".to_owned();
                        body.message = Option::Some(v);
                        let req = Message {
                            src: node.id.clone(),
                            dest: node.topology[i].clone(),
                            body,
                        };
                        sync_requests.push(req);
                    }
                    i = i + 1;
                    proof {
                        reveal(Seq::filter);
                        assert(topo.subrange(0, i as int).drop_last() =~= topo.subrange(0, i - 1));
                        assert(topo.subrange(0, i as int).last() == topo[i - 1]);
                    }
                }
                proof {
                    assert(topo.subrange(0, n as int) =~= topo);
                }
            }
            match node.build_reply("broadcast_ok", msg, Body::empty()) {
                Option::Some(rep) => {
                    let mut replies: Vec<Message> = Vec::new();
                    replies.push(rep);
                    Actions { outcome: Outcome::Replied, replies, sync_requests }
                },
                Option::None => Actions {
                    outcome: Outcome::Errored(Fault::MissingCorrelationField),
                    replies: Vec::new(),
                    sync_requests,
                },
            }
        },
    }
}

/// The body of a broadcast-flavor `read_ok`: the accumulator snapshot.
pub open spec fn messages_body(vs: Seq<u64>) -> BodyView {
    BodyView { messages: Option::Some(vs), ..BodyView::tagged(Seq::<char>::empty()) }
}

/// Everything the broadcast-flavor `read` does, as a relation (it never
/// mutates state).
pub open spec fn read_rel(n: Node, m: MessageView, r: Actions) -> bool {
    &&& r.sync_requests@ == Seq::<Message>::empty()
    &&& match m.body.msg_id {
        Option::Some(_) => r.outcome == Outcome::Replied
            && r.replies@.len() == 1
            && r.replies@[0]@ == reply_view(n.id@, "read_ok"@, m, messages_body(n.values@)),
        Option::None => r.outcome == Outcome::Errored(Fault::MissingCorrelationField)
            && r.replies@ == Seq::<Message>::empty(),
    }
}

/// Reply with the full accumulator snapshot.
pub fn handle_read(node: &Node, msg: &Message) -> (r: Actions)
    ensures
        read_rel(*node, msg@, r),
{
    let mut extra = Body::empty();
    extra.messages = Option::Some(clone_nums(&node.values));
    match node.build_reply("read_ok", msg, extra) {
        Option::Some(rep) => Actions::reply_with(rep),
        Option::None => Actions::quiet(Outcome::Errored(Fault::MissingCorrelationField)),
    }
}

/// The dedup fingerprint an `add` request carries or is given: a relaying
/// peer (identity starting with `n`) forwards one in the body; a
/// client-originated increment (identity starting with `c`) gets a fresh
/// content hash; anything else is rejected.
pub open spec fn add_fingerprint(m: MessageView) -> Option<u64> {
    if m.src.len() == 0 {
        Option::None
    } else if m.src[0] == 'n' {
        m.body.hash
    } else if m.src[0] == 'c' {
        Option::Some(crate::types::fingerprint(m))
    } else {
        Option::None
    }
}

/// The accumulator and the applied-fingerprint set after one increment:
/// an already-applied fingerprint changes nothing; a fresh one is recorded
/// and its delta added (the accumulator wraps at the machine width).
pub open spec fn add_next(counter: u64, seen: Set<u64>, fp: u64, d: u64) -> (u64, Set<u64>) {
    if seen.contains(fp) {
        (counter, seen)
    } else {
        (counter.wrapping_add(d), seen.insert(fp))
    }
}

/// The peers an increment is replicated to: every known peer but this
/// node itself.
pub open spec fn add_targets(topo: Seq<Seq<char>>, me: Seq<char>) -> Seq<Seq<char>> {
    topo.filter(|p: Seq<char>| p != me)
}

/// The replication request for an increment: it carries the delta and the
/// fingerprint, and no `msg_id` (the synchronous send assigns one).
pub open spec fn add_request(me: Seq<char>, peer: Seq<char>, d: u64, fp: u64) -> MessageView {
    MessageView {
        src: me,
        dest: peer,
        body: BodyView {
            delta: Option::Some(d),
            hash: Option::Some(fp),
            ..BodyView::tagged("add"@)
        },
    }
}

/// The first character of an identity, if any.
fn first_char(s: &String) -> (r: Option<char>)
    ensures
        s@.len() == 0 ==> r is None,
        s@.len() > 0 ==> r == Option::Some(s@[0]),
{
    let st = s.as_str();
    if st.unicode_len() == 0 {
        Option::None
    } else {
        Option::Some(st.get_char(0))
    }
}

/// Everything `add` does, as a relation between the replica before and
/// after, the request, and the resulting actions.
pub open spec fn add_rel(pre: SequentialKV, post: SequentialKV, m: MessageView, r: Actions) -> bool {
    &&& post.id@ == pre.id@
    &&& post.topology.deep_view() == pre.topology.deep_view()
    &&& post.msg_count == pre.msg_count
    &&& add_fingerprint(m) is None ==> (
        post.values@ == pre.values@
        && post.counter == pre.counter
        && r.outcome == Outcome::Errored(Fault::InvalidPayload)
        && r.replies@ == Seq::<Message>::empty()
        && r.sync_requests@ == Seq::<Message>::empty()
    )
    &&& (add_fingerprint(m) is Some && m.body.msg_id is None) ==> (
        post.values@ == pre.values@
        && post.counter == pre.counter
        && r.outcome == Outcome::Errored(Fault::MissingCorrelationField)
        && r.replies@ == Seq::<Message>::empty()
        && r.sync_requests@ == Seq::<Message>::empty()
    )
    &&& add_fingerprint(m) matches Some(fp) ==> m.body.msg_id is Some ==> (
        r.outcome == Outcome::Replied
        && r.replies@.len() == 1
        && r.replies@[0]@ == reply_view(pre.id@, "add_ok"@, m, BodyView::tagged(Seq::<char>::empty()))
        && (pre.values@.contains(fp) ==> (
            post.values@ == pre.values@
            && post.counter == pre.counter
            && r.sync_requests@ == Seq::<Message>::empty()
        ))
        && (m.body.delta is None ==> (
            post.values@ == pre.values@
            && post.counter == pre.counter
            && r.sync_requests@ == Seq::<Message>::empty()
        ))
        && (!pre.values@.contains(fp) ==> (match m.body.delta {
            Option::None => true,
            Option::Some(d) => (
                post.values@ == pre.values@.push(fp)
                && (post.counter, post.values_set()) == add_next(
                    pre.counter,
                    pre.values_set(),
                    fp,
                    d,
                )
                && {
                    let targets = add_targets(pre.topology.deep_view(), pre.id@);
                    r.sync_requests@.len() == targets.len()
                    && forall|k: int| 0 <= k < targets.len()
                        ==> r.sync_requests@[k]@ == add_request(pre.id@, targets[k], d, fp)
                }
            ),
        }))
    )
}

/// Grow-only counter increment: acknowledge, then apply the delta unless
/// its fingerprint was already applied, and replicate a fresh increment
/// (fingerprint attached) to every other peer by synchronous send.
pub fn handle_add(kv: &mut SequentialKV, msg: &Message) -> (r: Actions)
    requires
        old(kv).wf(),
    ensures
        final(kv).wf(),
        add_rel(*old(kv), *final(kv), msg@, r),
{
    let fp_opt: Option<u64> = match first_char(&msg.src) {
        Option::Some(c) => {
            if c == 'n' {
                msg.body.hash
            } else if c == 'c' {
                Option::Some(msg.hash())
            } else {
                Option::None
            }
        },
        Option::None => Option::None,
    };
    let fp = match fp_opt {
        Option::None => {
            return Actions::quiet(Outcome::Errored(Fault::InvalidPayload));
        },
        Option::Some(fp) => fp,
    };
    let rep = match kv.build_reply("add_ok", msg, Body::empty()) {
        Option::None => {
            return Actions::quiet(Outcome::Errored(Fault::MissingCorrelationField));
        },
        Option::Some(rep) => rep,
    };
    let mut sync_requests: Vec<Message> = Vec::new();
    if !contains_u64(&kv.values, fp) {
        match msg.body.delta {
            Option::None => {},
            Option::Some(d) => {
                kv.values.push(fp);
                kv.counter = kv.counter.wrapping_add(d);
                proof {
                    old(kv).values@.lemma_push_to_set_commute(fp);
                    assert(kv.values_set() =~= old(kv).values_set().insert(fp));
                }
                let ghost topo = kv.topology.deep_view();
                let ghost me = kv.id@;
                let n = kv.topology.len();
                proof {
                    assert(topo.subrange(0, 0) =~= Seq::<Seq<char>>::empty());
                    reveal(Seq::filter);
                }
                let mut i: usize = 0;
                while i < n
                    invariant
                        i <= n,
                        n == kv.topology@.len(),
                        topo == kv.topology.deep_view(),
                        me == kv.id@,
                        sync_requests@.len() == add_targets(topo.subrange(0, i as int), me).len(),
                        forall|k: int| 0 <= k < sync_requests@.len()
                            ==> sync_requests@[k]@ == add_request(
                                me,
                                add_targets(topo.subrange(0, i as int), me)[k],
                                d,
                                fp,
                            ),
                    decreases n - i,
                {
                    proof {
                        assert(topo[i as int] == kv.topology@[i as int]@);
                    }
                    if !(kv.topology[i] == kv.id) {
                        let mut body = Body::empty();
                        body.kind = "add".to_owned();
                        body.delta = Option::Some(d);
                        body.hash = Option::Some(fp);
                        let req = Message { src: kv.id.clone(), dest: kv.topology[i].clone(), body };
                        sync_requests.push(req);
                    }
                    i = i + 1;
                    proof {
                        reveal(Seq::filter);
                        assert(topo.subrange(0, i as int).drop_last() =~= topo.subrange(0, i - 1));
                        assert(topo.subrange(0, i as int).last() == topo[i - 1]);
                    }
                }
                proof {
                    assert(topo.subrange(0, n as int) =~= topo);
                }
            },
        }
    }
    let mut replies: Vec<Message> = Vec::new();
    replies.push(rep);
    Actions { outcome: Outcome::Replied, replies, sync_requests }
}

/// Law: idempotent init.  From an unassigned identity, two `init`
/// requests in a row leave the node named by the first request's
/// `node_id`, and both requests are acknowledged with `init_ok`.
pub proof fn lemma_init_first_wins(
    s0: SrvView,
    s1: SrvView,
    s2: SrvView,
    m1: MessageView,
    m2: MessageView,
    r1: Actions,
    r2: Actions,
)
    requires
        s0.id.len() == 0,
        m1.body.node_id matches Some(n1) && n1.len() > 0,
        m2.body.node_id is Some,
        m1.body.msg_id is Some,
        m2.body.msg_id is Some,
        init_rel(s0, s1, m1, r1),
        init_rel(s1, s2, m2, r2),
    ensures
        s2.id == m1.body.node_id->Some_0,
        r1.outcome == Outcome::Replied,
        r2.outcome == Outcome::Replied,
{
}

/// Law: topology union.  Applying one topology update and then another
/// yields the union of the original set with both supplied peer lists, so
/// the result contains every peer either of them named.
pub proof fn lemma_topology_union(t0: Set<Seq<char>>, a: Seq<Seq<char>>, b: Seq<Seq<char>>)
    ensures
        topo_next(topo_next(t0, a), b) == t0.union(a.to_set()).union(b.to_set()),
        forall|p: Seq<char>| #[trigger] a.contains(p) ==> topo_next(topo_next(t0, a), b).contains(
            p,
        ),
        forall|p: Seq<char>| #[trigger] b.contains(p) ==> topo_next(topo_next(t0, a), b).contains(
            p,
        ),
{
    assert(topo_next(topo_next(t0, a), b) =~= t0.union(a.to_set()).union(b.to_set()));
}

/// Law: topology union, over the handler contract.  After two topology
/// updates the node knows every peer either update named, besides all it
/// knew before.
pub proof fn lemma_topology_updates_accumulate(
    s0: SrvView,
    s1: SrvView,
    s2: SrvView,
    m1: MessageView,
    m2: MessageView,
    r1: Actions,
    r2: Actions,
    ka: Seq<Seq<char>>,
    kb: Seq<Seq<char>>,
)
    requires
        m1.body.topology == Option::Some(ka),
        m2.body.topology == Option::Some(kb),
        topology_rel(s0, s1, m1, r1),
        topology_rel(s1, s2, m2, r2),
    ensures
        forall|p: Seq<char>| ka.contains(p) ==> #[trigger] s2.topo.to_set().contains(p),
        forall|p: Seq<char>| kb.contains(p) ==> #[trigger] s2.topo.to_set().contains(p),
        forall|p: Seq<char>| s0.topo.to_set().contains(p) ==> #[trigger] s2.topo.to_set().contains(
            p,
        ),
{
}

/// Law: broadcast dedup, set half.  Accumulating the same value twice is
/// the same as accumulating it once.
pub proof fn lemma_broadcast_dedup(vs: Set<u64>, v: u64)
    ensures
        vs.insert(v).insert(v) == vs.insert(v),
{
    assert(vs.insert(v).insert(v) =~= vs.insert(v));
}

/// Law: broadcast dedup, multiplicity half.  A well-formed accumulator
/// holds a value in at most one position, so a snapshot reports it at
/// most once.
pub proof fn lemma_accumulator_exactly_once(vals: Seq<u64>, v: u64, i: int, j: int)
    requires
        nodup_nums(vals),
        0 <= i < vals.len(),
        0 <= j < vals.len(),
        vals[i] == v,
        vals[j] == v,
    ensures
        i == j,
{
}

/// Law: broadcast dedup, over the handler contracts.  After any broadcast
/// of `v` — first delivery or redelivery — a read snapshot reports `v`,
/// and being duplicate-free it reports it exactly once.
pub proof fn lemma_broadcast_then_read_reports_once(
    pre: Node,
    mid: Node,
    m1: MessageView,
    r1: Actions,
    m2: MessageView,
    r2: Actions,
    v: u64,
)
    requires
        mid.wf(),
        m1.body.message == Option::Some(v),
        m2.body.msg_id is Some,
        broadcast_rel(pre, mid, m1, r1),
        read_rel(mid, m2, r2),
    ensures
        r2.replies@[0]@.body.messages matches Some(ms) && ms.contains(v) && (forall|i: int, j: int|
            0 <= i < ms.len() && 0 <= j < ms.len() && ms[i] == v && ms[j] == v ==> i == j),
{
    assert(mid.values_set().contains(v));
    assert(mid.values@.contains(v));
    let ms = r2.replies@[0]@.body.messages->Some_0;
    assert(ms == mid.values@);
}

proof fn lemma_bcast_targets_member(topo: Seq<Seq<char>>, sender: Seq<char>, me: Seq<char>, k: int)
    requires
        0 <= k < bcast_targets(topo, sender, me).len(),
    ensures
        bcast_targets(topo, sender, me)[k] != sender,
        bcast_targets(topo, sender, me)[k] != me,
        topo.contains(bcast_targets(topo, sender, me)[k]),
    decreases topo.len(),
{
    reveal(Seq::filter);
    let f = bcast_targets(topo, sender, me);
    let fd = bcast_targets(topo.drop_last(), sender, me);
    if topo.last() != sender && topo.last() != me {
        if k < f.len() - 1 {
            assert(f[k] == fd[k]);
            lemma_bcast_targets_member(topo.drop_last(), sender, me, k);
            let j = choose|j: int| 0 <= j < topo.drop_last().len() && topo.drop_last()[j] == fd[k];
            assert(topo[j] == f[k]);
        } else {
            assert(f[k] == topo.last());
            assert(topo[topo.len() - 1] == f[k]);
        }
    } else {
        assert(f == fd);
        lemma_bcast_targets_member(topo.drop_last(), sender, me, k);
        let j = choose|j: int| 0 <= j < topo.drop_last().len() && topo.drop_last()[j] == fd[k];
        assert(topo[j] == f[k]);
    }
}

proof fn lemma_bcast_targets_complete(topo: Seq<Seq<char>>, sender: Seq<char>, me: Seq<char>, j: int)
    requires
        0 <= j < topo.len(),
        topo[j] != sender,
        topo[j] != me,
    ensures
        bcast_targets(topo, sender, me).contains(topo[j]),
    decreases topo.len(),
{
    reveal(Seq::filter);
    let f = bcast_targets(topo, sender, me);
    let fd = bcast_targets(topo.drop_last(), sender, me);
    if j == topo.len() - 1 {
        assert(f[f.len() - 1] == topo[j]);
    } else {
        assert(topo.drop_last()[j] == topo[j]);
        lemma_bcast_targets_complete(topo.drop_last(), sender, me, j);
        let i = choose|i: int| 0 <= i < fd.len() && fd[i] == topo[j];
        assert(f[i] == topo[j]);
    }
}

/// Law: flood propagation excludes sender and self.  The relay targets of
/// a fresh broadcast value are exactly the known peers other than the
/// envelope's sender and this node: no request ever goes back to the
/// sender or to the node itself, and every other known peer gets one.
pub proof fn lemma_broadcast_excludes_sender_and_self(
    topo: Seq<Seq<char>>,
    sender: Seq<char>,
    me: Seq<char>,
)
    ensures
        forall|k: int| 0 <= k < bcast_targets(topo, sender, me).len() ==> (
            #[trigger] bcast_targets(topo, sender, me)[k] != sender
            && bcast_targets(topo, sender, me)[k] != me
            && topo.contains(bcast_targets(topo, sender, me)[k])
        ),
        forall|p: Seq<char>| topo.contains(p) && p != sender && p != me
            ==> #[trigger] bcast_targets(topo, sender, me).contains(p),
{
    assert forall|k: int| 0 <= k < bcast_targets(topo, sender, me).len() implies (
        #[trigger] bcast_targets(topo, sender, me)[k] != sender
        && bcast_targets(topo, sender, me)[k] != me
        && topo.contains(bcast_targets(topo, sender, me)[k])
    ) by {
        lemma_bcast_targets_member(topo, sender, me, k);
    }
    assert forall|p: Seq<char>| topo.contains(p) && p != sender && p != me
        implies #[trigger] bcast_targets(topo, sender, me).contains(p) by {
        let j = choose|j: int| 0 <= j < topo.len() && topo[j] == p;
        lemma_bcast_targets_complete(topo, sender, me, j);
    }
}

/// Law: counter convergence, idempotence half.  Re-applying an increment
/// whose fingerprint was already applied changes neither the accumulator
/// nor the applied set.
pub proof fn lemma_add_idempotent(c: u64, seen: Set<u64>, fp: u64, d: u64)
    ensures
        ({
            let (c1, s1) = add_next(c, seen, fp, d);
            add_next(c1, s1, fp, d) == (c1, s1)
        }),
{
}

/// Law: counter convergence, exchange half.  Two increments with distinct
/// fingerprints reach the same accumulator and the same applied set in
/// whichever order they arrive, so two replicas that exchange their
/// increments converge.
pub proof fn lemma_add_commutes(c: u64, seen: Set<u64>, f1: u64, d1: u64, f2: u64, d2: u64)
    requires
        f1 != f2,
    ensures
        ({
            let (ca, sa) = add_next(c, seen, f1, d1);
            let (cab, sab) = add_next(ca, sa, f2, d2);
            let (cb, sb) = add_next(c, seen, f2, d2);
            let (cba, sba) = add_next(cb, sb, f1, d1);
            cab == cba && sab == sba
        }),
{
    let (ca, sa) = add_next(c, seen, f1, d1);
    let (cab, sab) = add_next(ca, sa, f2, d2);
    let (cb, sb) = add_next(c, seen, f2, d2);
    let (cba, sba) = add_next(cb, sb, f1, d1);
    assert(sab =~= sba);
}

/// Law: counter convergence, over the handler contract.  Two replicas
/// that start alike and apply two fresh increments with distinct
/// fingerprints — each in its own order — end with the same accumulator
/// and the same applied set.
pub proof fn lemma_replicas_converge(
    x0: SequentialKV,
    x1: SequentialKV,
    x2: SequentialKV,
    y1: SequentialKV,
    y2: SequentialKV,
    ma: MessageView,
    mb: MessageView,
    ra1: Actions,
    rb1: Actions,
    rb2: Actions,
    ra2: Actions,
    f1: u64,
    f2: u64,
    d1: u64,
    d2: u64,
)
    requires
        add_fingerprint(ma) == Option::Some(f1),
        add_fingerprint(mb) == Option::Some(f2),
        ma.body.delta == Option::Some(d1),
        mb.body.delta == Option::Some(d2),
        ma.body.msg_id is Some,
        mb.body.msg_id is Some,
        f1 != f2,
        !x0.values@.contains(f1),
        !x0.values@.contains(f2),
        add_rel(x0, x1, ma, ra1),
        add_rel(x1, x2, mb, rb1),
        add_rel(x0, y1, mb, rb2),
        add_rel(y1, y2, ma, ra2),
    ensures
        x2.counter == y2.counter,
        x2.values_set() == y2.values_set(),
{
    assert(!x1.values@.contains(f2));
    assert(!y1.values@.contains(f1));
    assert(x2.values_set() =~= y2.values_set());
}

/// The body of a counter-flavor `read_ok`: the accumulator value.
pub open spec fn value_body(c: u64) -> BodyView {
    BodyView { value: Option::Some(c), ..BodyView::tagged(Seq::<char>::empty()) }
}

/// Everything the counter-flavor `read` does, as a relation (it never
/// mutates state).
pub open spec fn read_value_rel(kv: SequentialKV, m: MessageView, r: Actions) -> bool {
    &&& r.sync_requests@ == Seq::<Message>::empty()
    &&& match m.body.msg_id {
        Option::Some(_) => r.outcome == Outcome::Replied
            && r.replies@.len() == 1
            && r.replies@[0]@ == reply_view(kv.id@, "read_ok"@, m, value_body(kv.counter)),
        Option::None => r.outcome == Outcome::Errored(Fault::MissingCorrelationField)
            && r.replies@ == Seq::<Message>::empty(),
    }
}

/// Reply with the current accumulator value.
pub fn handle_read_value(kv: &SequentialKV, msg: &Message) -> (r: Actions)
    ensures
        read_value_rel(*kv, msg@, r),
{
    let mut extra = Body::empty();
    extra.value = Option::Some(kv.counter);
    match kv.build_reply("read_ok", msg, extra) {
        Option::Some(rep) => Actions::reply_with(rep),
        Option::None => Actions::quiet(Outcome::Errored(Fault::MissingCorrelationField)),
    }
}

} // verus!
