//! The polymorphic state abstraction: a capability set over any concrete
//! node variant, so that generic runtime code (initialization, topology
//! updates, synchronous-send bookkeeping) never depends on a variant's
//! storage layout.
//!
//! Variant selection is a sum type (`ServerState`): a handler that needs a
//! particular variant matches on it, and a mismatch is a dropped message,
//! never a panic.

use vstd::prelude::*;

use crate::types::Body;
use crate::types::BodyView;
use crate::types::Message;
use crate::types::MessageView;
use crate::types::Node;
use crate::types::SequentialKV;
use crate::types::nodup_strs;

verus! {

/// The body of a reply: the extra payload, with the protocol tag and the
/// correlation field overwritten.
pub open spec fn reply_body(kind: Seq<char>, mid: u64, extra: BodyView) -> BodyView {
    BodyView { kind: kind, in_reply_to: Option::Some(mid), ..extra }
}

/// The reply envelope owed to `m`: addressed back to `m`'s source, from
/// this node's identity.
pub open spec fn reply_view(id: Seq<char>, kind: Seq<char>, m: MessageView, extra: BodyView) -> MessageView {
    MessageView { src: id, dest: m.src, body: reply_body(kind, m.body.msg_id->Some_0, extra) }
}

/// The capability summary of a state variant: what generic runtime code
/// reads and writes of it, leaving the variant's own storage out.
#[verifier::ext_equal]
pub struct SrvView {
    pub id: Seq<char>,
    pub topo: Seq<Seq<char>>,
    pub count: u64,
}

/// The variant's own storage, as a mathematical value: what the generic
/// runtime operations must leave untouched.  The constructors are
/// distinct per variant, so preserving the store also preserves which
/// variant the process runs.
pub enum StoreView {
    /// The broadcast accumulator.
    Values(Seq<u64>),
    /// The applied increment fingerprints and the accumulator.
    Counter(Seq<u64>, u64),
}

impl SrvView {
    /// The summary of a concrete variant.
    pub open spec fn of<S: Server>(s: S) -> SrvView {
        SrvView { id: s.id_view(), topo: s.topo_view(), count: s.count_view() }
    }
}

/// The capability set shared by every concrete node variant: identity,
/// topology, message counter, and reply construction.
pub trait Server: Sized {
    /// This node's identity; empty until assigned.
    spec fn id_view(&self) -> Seq<char>;

    /// The known peer identities, in insertion order.
    spec fn topo_view(&self) -> Seq<Seq<char>>;

    /// The counter minting correlation ids for self-originated requests.
    spec fn count_view(&self) -> u64;

    /// The variant's own storage; the capability setters never touch it.
    spec fn store_view(&self) -> StoreView;

    /// The variant's internal invariant; every operation preserves it.
    spec fn inv(&self) -> bool;

    /// Every variant's invariant keeps the topology free of duplicates.
    proof fn inv_topo_nodup(&self)
        requires
            self.inv(),
        ensures
            nodup_strs(self.topo_view()),
    ;

    fn get_id(&self) -> (r: String)
        ensures
            r@ == self.id_view(),
    ;

    fn get_topology(&self) -> (r: Vec<String>)
        ensures
            r.deep_view() == self.topo_view(),
    ;

    fn get_msg_count(&self) -> (r: u64)
        ensures
            r == self.count_view(),
    ;

    fn set_id(&mut self, id: String)
        ensures
            final(self).id_view() == id@,
            final(self).topo_view() == old(self).topo_view(),
            final(self).count_view() == old(self).count_view(),
            final(self).store_view() == old(self).store_view(),
            old(self).inv() ==> final(self).inv(),
    ;

    fn set_topology(&mut self, topo: Vec<String>)
        requires
            nodup_strs(topo.deep_view()),
        ensures
            final(self).topo_view() == topo.deep_view(),
            final(self).id_view() == old(self).id_view(),
            final(self).count_view() == old(self).count_view(),
            final(self).store_view() == old(self).store_view(),
            old(self).inv() ==> final(self).inv(),
    ;

    fn set_msg_count(&mut self, count: u64)
        ensures
            final(self).count_view() == count,
            final(self).id_view() == old(self).id_view(),
            final(self).topo_view() == old(self).topo_view(),
            final(self).store_view() == old(self).store_view(),
            old(self).inv() ==> final(self).inv(),
    ;

    /// Construct the reply owed to `msg`: addressed back to `msg`'s source,
    /// from this node's identity, with the given tag and `in_reply_to` set
    /// to the request's `msg_id`, merged with `extra`.  A request without a
    /// `msg_id` admits no well-formed reply, so none is constructed.
    fn build_reply(&self, kind: &str, msg: &Message, extra: Body) -> (r: Option<Message>)
        ensures
            r is Some <==> msg@.body.msg_id is Some,
            r matches Some(rep) ==> rep@ == reply_view(self.id_view(), kind@, msg@, extra@),
    {
        match msg.body.msg_id {
            Option::None => Option::None,
            Option::Some(mid) => {
                let mut body = extra;
                body.kind = kind.to_owned();
                body.in_reply_to = Option::Some(mid);
                Option::Some(Message { src: self.get_id(), dest: msg.src.clone(), body })
            },
        }
    }
}

/// Clone a list of identities, element by element.
pub fn clone_strs(v: &Vec<String>) -> (r: Vec<String>)
    ensures
        r.deep_view() == v.deep_view(),
{
    let mut r: Vec<String> = Vec::new();
    let mut i: usize = 0;
    while i < v.len()
        invariant
            i <= v.len(),
            r@.len() == i,
            r.deep_view() =~= v.deep_view().subrange(0, i as int),
        decreases v.len() - i,
    {
        r.push(v[i].clone());
        i = i + 1;
        proof {
            assert(r.deep_view() =~= v.deep_view().subrange(0, i as int));
        }
    }
    proof {
        assert(v.deep_view().subrange(0, v.deep_view().len() as int) =~= v.deep_view());
    }
    r
}

impl Server for Node {
    open spec fn id_view(&self) -> Seq<char> {
        self.id@
    }

    open spec fn topo_view(&self) -> Seq<Seq<char>> {
        self.topology.deep_view()
    }

    open spec fn count_view(&self) -> u64 {
        self.msg_count
    }

    open spec fn store_view(&self) -> StoreView {
        StoreView::Values(self.values@)
    }

    open spec fn inv(&self) -> bool {
        self.wf()
    }

    proof fn inv_topo_nodup(&self) {
    }

    fn get_id(&self) -> (r: String) {
        self.id.clone()
    }

    fn get_topology(&self) -> (r: Vec<String>) {
        clone_strs(&self.topology)
    }

    fn get_msg_count(&self) -> (r: u64) {
        self.msg_count
    }

    fn set_id(&mut self, id: String) {
        self.id = id;
    }

    fn set_topology(&mut self, topo: Vec<String>) {
        self.topology = topo;
    }

    fn set_msg_count(&mut self, count: u64) {
        self.msg_count = count;
    }
}

impl Server for SequentialKV {
    open spec fn id_view(&self) -> Seq<char> {
        self.id@
    }

    open spec fn topo_view(&self) -> Seq<Seq<char>> {
        self.topology.deep_view()
    }

    open spec fn count_view(&self) -> u64 {
        self.msg_count
    }

    open spec fn store_view(&self) -> StoreView {
        StoreView::Counter(self.values@, self.counter)
    }

    open spec fn inv(&self) -> bool {
        self.wf()
    }

    proof fn inv_topo_nodup(&self) {
    }

    fn get_id(&self) -> (r: String) {
        self.id.clone()
    }

    fn get_topology(&self) -> (r: Vec<String>) {
        clone_strs(&self.topology)
    }

    fn get_msg_count(&self) -> (r: u64) {
        self.msg_count
    }

    fn set_id(&mut self, id: String) {
        self.id = id;
    }

    fn set_topology(&mut self, topo: Vec<String>) {
        self.topology = topo;
    }

    fn set_msg_count(&mut self, count: u64) {
        self.msg_count = count;
    }
}

/// The one state instance a running process owns: exactly one concrete
/// variant.  Handlers that need variant-specific storage match on it; a
/// mismatch drops the message.
pub enum ServerState {
    /// A set-accumulator node (flood-broadcast).
    Broadcast(Node),
    /// A counter replica (grow-only counter).
    Counter(SequentialKV),
}

impl Server for ServerState {
    open spec fn id_view(&self) -> Seq<char> {
        match self {
            ServerState::Broadcast(n) => n.id@,
            ServerState::Counter(k) => k.id@,
        }
    }

    open spec fn topo_view(&self) -> Seq<Seq<char>> {
        match self {
            ServerState::Broadcast(n) => n.topology.deep_view(),
            ServerState::Counter(k) => k.topology.deep_view(),
        }
    }

    open spec fn count_view(&self) -> u64 {
        match self {
            ServerState::Broadcast(n) => n.msg_count,
            ServerState::Counter(k) => k.msg_count,
        }
    }

    open spec fn store_view(&self) -> StoreView {
        match self {
            ServerState::Broadcast(n) => StoreView::Values(n.values@),
            ServerState::Counter(k) => StoreView::Counter(k.values@, k.counter),
        }
    }

    open spec fn inv(&self) -> bool {
        match self {
            ServerState::Broadcast(n) => n.wf(),
            ServerState::Counter(k) => k.wf(),
        }
    }

    proof fn inv_topo_nodup(&self) {
    }

    fn get_id(&self) -> (r: String) {
        match self {
            ServerState::Broadcast(n) => n.get_id(),
            ServerState::Counter(k) => k.get_id(),
        }
    }

    fn get_topology(&self) -> (r: Vec<String>) {
        match self {
            ServerState::Broadcast(n) => n.get_topology(),
            ServerState::Counter(k) => k.get_topology(),
        }
    }

    fn get_msg_count(&self) -> (r: u64) {
        match self {
            ServerState::Broadcast(n) => n.get_msg_count(),
            ServerState::Counter(k) => k.get_msg_count(),
        }
    }

    fn set_id(&mut self, id: String) {
        match self {
            ServerState::Broadcast(n) => n.set_id(id),
            ServerState::Counter(k) => k.set_id(id),
        }
    }

    fn set_topology(&mut self, topo: Vec<String>) {
        match self {
            ServerState::Broadcast(n) => n.set_topology(topo),
            ServerState::Counter(k) => k.set_topology(topo),
        }
    }

    fn set_msg_count(&mut self, count: u64) {
        match self {
            ServerState::Broadcast(n) => n.set_msg_count(count),
            ServerState::Counter(k) => k.set_msg_count(count),
        }
    }
}

} // verus!
