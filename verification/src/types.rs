//! The envelope model: the wire representation of a message, the content
//! fingerprint used for increment deduplication, and the concrete node
//! state variants.
//!
//! The wire format is an open-ended JSON document; the runtime's logic only
//! ever reads a fixed set of fields from it.  `Body` holds exactly those
//! fields as plain values, so every rule about them can be verified; the
//! process edge translates between JSON text and this model.

use vstd::prelude::*;

verus! {

/// The decoded fields of an envelope body.
///
/// `kind` carries the protocol tag (the wire field `type`); an accepted
/// envelope always has a non-empty `kind`.  The wire field `id` is numeric
/// on self-originated requests (`corr_id`) and a string on `generate_ok`
/// replies (`uid`); the two never coexist, so they are separate fields
/// here.  `topology` holds the keys of the wire's peer-adjacency mapping,
/// which is all the runtime reads of it.
#[derive(Clone, Debug)]
pub struct Body {
    /// The protocol tag (wire field `type`).
    pub kind: String,
    /// Unique-per-sender id of a request that expects an acknowledgement.
    pub msg_id: Option<u64>,
    /// On a reply: the `msg_id` of the request being answered.
    pub in_reply_to: Option<u64>,
    /// Numeric wire field `id`: correlation id of a self-originated request.
    pub corr_id: Option<u64>,
    /// `init`: the identity assigned to this node.
    pub node_id: Option<String>,
    /// `init`: the peer identities, when the topology rides along.
    pub node_ids: Option<Vec<String>>,
    /// `topology`: the keys of the peer-adjacency mapping.
    pub topology: Option<Vec<String>>,
    /// `broadcast`: the value being disseminated.
    pub message: Option<u64>,
    /// `read_ok` (broadcast flavor): the accumulated values.
    pub messages: Option<Vec<u64>>,
    /// `add`: the increment.
    pub delta: Option<u64>,
    /// `add` relayed between nodes: the increment's dedup fingerprint.
    pub hash: Option<u64>,
    /// `read_ok` (counter flavor): the accumulator value.
    pub value: Option<u64>,
    /// `echo` / `echo_ok`: the echoed payload.
    pub echo: Option<String>,
    /// String wire field `id`: the fresh unique id of a `generate_ok`.
    pub uid: Option<String>,
}

/// The mathematical value of a `Body`: strings as character sequences.
#[verifier::ext_equal]
pub struct BodyView {
    pub kind: Seq<char>,
    pub msg_id: Option<u64>,
    pub in_reply_to: Option<u64>,
    pub corr_id: Option<u64>,
    pub node_id: Option<Seq<char>>,
    pub node_ids: Option<Seq<Seq<char>>>,
    pub topology: Option<Seq<Seq<char>>>,
    pub message: Option<u64>,
    pub messages: Option<Seq<u64>>,
    pub delta: Option<u64>,
    pub hash: Option<u64>,
    pub value: Option<u64>,
    pub echo: Option<Seq<char>>,
    pub uid: Option<Seq<char>>,
}

pub open spec fn opt_str_view(o: Option<String>) -> Option<Seq<char>> {
    match o {
        Option::Some(s) => Option::Some(s@),
        Option::None => Option::None,
    }
}

pub open spec fn opt_strs_view(o: Option<Vec<String>>) -> Option<Seq<Seq<char>>> {
    match o {
        Option::Some(v) => Option::Some(v.deep_view()),
        Option::None => Option::None,
    }
}

pub open spec fn opt_nums_view(o: Option<Vec<u64>>) -> Option<Seq<u64>> {
    match o {
        Option::Some(v) => Option::Some(v@),
        Option::None => Option::None,
    }
}

impl View for Body {
    type V = BodyView;

    open spec fn view(&self) -> BodyView {
        BodyView {
            kind: self.kind@,
            msg_id: self.msg_id,
            in_reply_to: self.in_reply_to,
            corr_id: self.corr_id,
            node_id: opt_str_view(self.node_id),
            node_ids: opt_strs_view(self.node_ids),
            topology: opt_strs_view(self.topology),
            message: self.message,
            messages: opt_nums_view(self.messages),
            delta: self.delta,
            hash: self.hash,
            value: self.value,
            echo: opt_str_view(self.echo),
            uid: opt_str_view(self.uid),
        }
    }
}

impl BodyView {
    /// A body carrying only a protocol tag.
    pub open spec fn tagged(kind: Seq<char>) -> BodyView {
        BodyView {
            kind,
            msg_id: Option::None,
            in_reply_to: Option::None,
            corr_id: Option::None,
            node_id: Option::None,
            node_ids: Option::None,
            topology: Option::None,
            message: Option::None,
            messages: Option::None,
            delta: Option::None,
            hash: Option::None,
            value: Option::None,
            echo: Option::None,
            uid: Option::None,
        }
    }
}

impl Body {
    /// A body with an empty tag and no fields set.
    pub fn empty() -> (r: Body)
        ensures
            r@ =~= BodyView::tagged(Seq::<char>::empty()),
    {
        Body {
            kind: String::new(),
            msg_id: Option::None,
            in_reply_to: Option::None,
            corr_id: Option::None,
            node_id: Option::None,
            node_ids: Option::None,
            topology: Option::None,
            message: Option::None,
            messages: Option::None,
            delta: Option::None,
            hash: Option::None,
            value: Option::None,
            echo: Option::None,
            uid: Option::None,
        }
    }
}

/// A routed envelope: source id, destination id, and a body.
///
/// Envelopes are immutable once constructed; a reply is a new envelope,
/// never a mutation of the original.
#[derive(Clone, Debug)]
pub struct Message {
    pub src: String,
    pub dest: String,
    pub body: Body,
}

/// The mathematical value of a `Message`.
#[verifier::ext_equal]
pub struct MessageView {
    pub src: Seq<char>,
    pub dest: Seq<char>,
    pub body: BodyView,
}

impl View for Message {
    type V = MessageView;

    open spec fn view(&self) -> MessageView {
        MessageView { src: self.src@, dest: self.dest@, body: self.body@ }
    }
}

/// Offset basis of the content fingerprint.
pub const MIX_OFFSET: u64 = 0xcbf29ce484222325;

/// Multiplier of the content fingerprint's absorb step.
pub const MIX_PRIME: u64 = 0x100000001b3;

/// Marker absorbed between the strings of a list, so that neighbouring
/// strings do not run together.
pub const MIX_SEP: u64 = 0x1f;

/// One absorb step of the content fingerprint.
pub open spec fn mix(h: u64, x: u64) -> u64 {
    (h ^ x).wrapping_mul(MIX_PRIME)
}

/// Absorb a character sequence, left to right.
pub open spec fn mix_chars(h: u64, s: Seq<char>) -> u64
    decreases s.len(),
{
    if s.len() == 0 {
        h
    } else {
        mix(mix_chars(h, s.drop_last()), s.last() as u64)
    }
}

/// Absorb a sequence of numbers, left to right.
pub open spec fn mix_nums(h: u64, s: Seq<u64>) -> u64
    decreases s.len(),
{
    if s.len() == 0 {
        h
    } else {
        mix(mix_nums(h, s.drop_last()), s.last())
    }
}

/// Absorb a list of strings, a separator after each.
pub open spec fn mix_strs(h: u64, s: Seq<Seq<char>>) -> u64
    decreases s.len(),
{
    if s.len() == 0 {
        h
    } else {
        mix(mix_chars(mix_strs(h, s.drop_last()), s.last()), MIX_SEP)
    }
}

/// Absorb an optional number; presence is distinguished from absence.
pub open spec fn mix_opt_num(h: u64, o: Option<u64>) -> u64 {
    match o {
        Option::None => mix(h, 0),
        Option::Some(v) => mix(mix(h, 1), v),
    }
}

/// Absorb an optional string.
pub open spec fn mix_opt_str(h: u64, o: Option<Seq<char>>) -> u64 {
    match o {
        Option::None => mix(h, 0),
        Option::Some(s) => mix_chars(mix(h, 1), s),
    }
}

/// Absorb an optional list of numbers.
pub open spec fn mix_opt_nums(h: u64, o: Option<Seq<u64>>) -> u64 {
    match o {
        Option::None => mix(h, 0),
        Option::Some(s) => mix_nums(mix(h, 1), s),
    }
}

/// Absorb an optional list of strings.
pub open spec fn mix_opt_strs(h: u64, o: Option<Seq<Seq<char>>>) -> u64 {
    match o {
        Option::None => mix(h, 0),
        Option::Some(s) => mix_strs(mix(h, 1), s),
    }
}

/// Absorb every field of a body, in a fixed order.
pub open spec fn mix_body(h: u64, b: BodyView) -> u64 {
    let h = mix_chars(h, b.kind);
    let h = mix_opt_num(h, b.msg_id);
    let h = mix_opt_num(h, b.in_reply_to);
    let h = mix_opt_num(h, b.corr_id);
    let h = mix_opt_str(h, b.node_id);
    let h = mix_opt_strs(h, b.node_ids);
    let h = mix_opt_strs(h, b.topology);
    let h = mix_opt_num(h, b.message);
    let h = mix_opt_nums(h, b.messages);
    let h = mix_opt_num(h, b.delta);
    let h = mix_opt_num(h, b.hash);
    let h = mix_opt_num(h, b.value);
    let h = mix_opt_str(h, b.echo);
    mix_opt_str(h, b.uid)
}

/// The content fingerprint of an envelope: a deterministic function of
/// source, destination and body, used as the dedup key of a replicated
/// increment.  Content-equal envelopes always fingerprint alike.
pub open spec fn fingerprint(m: MessageView) -> u64 {
    mix_body(mix_chars(mix_chars(MIX_OFFSET, m.src), m.dest), m.body)
}

fn mix_u64(h: u64, x: u64) -> (r: u64)
    ensures
        r == mix(h, x),
{
    (h ^ x).wrapping_mul(MIX_PRIME)
}

fn mix_str(h0: u64, s: &str) -> (r: u64)
    ensures
        r == mix_chars(h0, s@),
{
    let n = s.unicode_len();
    let mut h = h0;
    let mut i: usize = 0;
    while i < n
        invariant
            i <= n,
            n == s@.len(),
            h == mix_chars(h0, s@.subrange(0, i as int)),
        decreases n - i,
    {
        let c = s.get_char(i);
        h = mix_u64(h, c as u64);
        i = i + 1;
        proof {
            let pre = s@.subrange(0, i as int);
            assert(pre.drop_last() =~= s@.subrange(0, i - 1));
            assert(pre.last() == s@[i - 1]);
        }
    }
    proof {
        assert(s@.subrange(0, n as int) =~= s@);
    }
    h
}

fn mix_num_vec(h0: u64, v: &Vec<u64>) -> (r: u64)
    ensures
        r == mix_nums(h0, v@),
{
    let mut h = h0;
    let mut i: usize = 0;
    while i < v.len()
        invariant
            i <= v.len(),
            h == mix_nums(h0, v@.subrange(0, i as int)),
        decreases v.len() - i,
    {
        h = mix_u64(h, v[i]);
        i = i + 1;
        proof {
            let pre = v@.subrange(0, i as int);
            assert(pre.drop_last() =~= v@.subrange(0, i - 1));
            assert(pre.last() == v@[i - 1]);
        }
    }
    proof {
        assert(v@.subrange(0, v@.len() as int) =~= v@);
    }
    h
}

fn mix_str_vec(h0: u64, v: &Vec<String>) -> (r: u64)
    ensures
        r == mix_strs(h0, v.deep_view()),
{
    let mut h = h0;
    let mut i: usize = 0;
    while i < v.len()
        invariant
            i <= v.len(),
            v.deep_view().len() == v@.len(),
            h == mix_strs(h0, v.deep_view().subrange(0, i as int)),
        decreases v.len() - i,
    {
        h = mix_str(h, v[i].as_str());
        h = mix_u64(h, MIX_SEP);
        i = i + 1;
        proof {
            let pre = v.deep_view().subrange(0, i as int);
            assert(pre.drop_last() =~= v.deep_view().subrange(0, i - 1));
            assert(pre.last() == v.deep_view()[i - 1]);
            assert(v.deep_view()[i - 1] == v@[i - 1]@);
        }
    }
    proof {
        assert(v.deep_view().subrange(0, v.deep_view().len() as int) =~= v.deep_view());
    }
    h
}

fn mix_opt_num_val(h: u64, o: &Option<u64>) -> (r: u64)
    ensures
        r == mix_opt_num(h, *o),
{
    match o {
        Option::None => mix_u64(h, 0),
        Option::Some(v) => mix_u64(mix_u64(h, 1), *v),
    }
}

fn mix_opt_str_val(h: u64, o: &Option<String>) -> (r: u64)
    ensures
        r == mix_opt_str(h, opt_str_view(*o)),
{
    match o {
        Option::None => mix_u64(h, 0),
        Option::Some(s) => mix_str(mix_u64(h, 1), s.as_str()),
    }
}

fn mix_opt_nums_val(h: u64, o: &Option<Vec<u64>>) -> (r: u64)
    ensures
        r == mix_opt_nums(h, opt_nums_view(*o)),
{
    match o {
        Option::None => mix_u64(h, 0),
        Option::Some(v) => mix_num_vec(mix_u64(h, 1), v),
    }
}

fn mix_opt_strs_val(h: u64, o: &Option<Vec<String>>) -> (r: u64)
    ensures
        r == mix_opt_strs(h, opt_strs_view(*o)),
{
    match o {
        Option::None => mix_u64(h, 0),
        Option::Some(v) => mix_str_vec(mix_u64(h, 1), v),
    }
}

impl Message {
    /// The content fingerprint of this envelope.
    pub fn hash(&self) -> (r: u64)
        ensures
            r == fingerprint(self@),
    {
        let h = mix_str(MIX_OFFSET, self.src.as_str());
        let h = mix_str(h, self.dest.as_str());
        let h = mix_str(h, self.body.kind.as_str());
        let h = mix_opt_num_val(h, &self.body.msg_id);
        let h = mix_opt_num_val(h, &self.body.in_reply_to);
        let h = mix_opt_num_val(h, &self.body.corr_id);
        let h = mix_opt_str_val(h, &self.body.node_id);
        let h = mix_opt_strs_val(h, &self.body.node_ids);
        let h = mix_opt_strs_val(h, &self.body.topology);
        let h = mix_opt_num_val(h, &self.body.message);
        let h = mix_opt_nums_val(h, &self.body.messages);
        let h = mix_opt_num_val(h, &self.body.delta);
        let h = mix_opt_num_val(h, &self.body.hash);
        let h = mix_opt_num_val(h, &self.body.value);
        let h = mix_opt_str_val(h, &self.body.echo);
        mix_opt_str_val(h, &self.body.uid)
    }
}

/// No value occurs twice.
pub open spec fn nodup_nums(s: Seq<u64>) -> bool {
    forall|i: int, j: int| 0 <= i < j < s.len() ==> s[i] != s[j]
}

/// No string occurs twice.
pub open spec fn nodup_strs(s: Seq<Seq<char>>) -> bool {
    forall|i: int, j: int| 0 <= i < j < s.len() ==> s[i] != s[j]
}

/// The set-accumulator node variant: holds the deduplicated values seen by
/// flood-broadcast, besides the shared identity, topology and counter.
#[derive(Debug)]
pub struct Node {
    pub id: String,
    pub values: Vec<u64>,
    pub topology: Vec<String>,
    pub msg_count: u64,
}

impl Node {
    /// The accumulator and the topology hold no duplicates.
    pub open spec fn wf(&self) -> bool {
        nodup_nums(self.values@) && nodup_strs(self.topology.deep_view())
    }

    /// The accumulated values, as a set.
    pub open spec fn values_set(&self) -> Set<u64> {
        self.values@.to_set()
    }

    /// The known peer identities, as a set.
    pub open spec fn topo_set(&self) -> Set<Seq<char>> {
        self.topology.deep_view().to_set()
    }
}

impl Default for Node {
    /// A fresh node: empty identity, no values, no peers, and a message
    /// counter seeded from a random non-zero value so that correlation ids
    /// remain distinguishable across process restarts within one logical
    /// run.
    fn default() -> (r: Node)
        ensures
            r.id@ == Seq::<char>::empty(),
            r.values@ == Seq::<u64>::empty(),
            r.topology.deep_view() == Seq::<Seq<char>>::empty(),
            0 < r.msg_count < 10000,
            r.wf(),
    {
        Node {
            id: String::new(),
            values: Vec::new(),
            topology: Vec::new(),
            msg_count: random_seed(),
        }
    }
}

/// The counter-replica node variant: a grow-only accumulator plus the set
/// of already-applied increment fingerprints, besides the shared identity,
/// topology and counter.
#[derive(Debug)]
pub struct SequentialKV {
    pub counter: u64,
    pub values: Vec<u64>,
    pub id: String,
    pub topology: Vec<String>,
    pub msg_count: u64,
}

impl SequentialKV {
    /// The applied fingerprints and the topology hold no duplicates.
    pub open spec fn wf(&self) -> bool {
        nodup_nums(self.values@) && nodup_strs(self.topology.deep_view())
    }

    /// The already-applied increment fingerprints, as a set.
    pub open spec fn values_set(&self) -> Set<u64> {
        self.values@.to_set()
    }

    /// The known peer identities, as a set.
    pub open spec fn topo_set(&self) -> Set<Seq<char>> {
        self.topology.deep_view().to_set()
    }
}

impl Default for SequentialKV {
    /// A fresh replica: zero accumulator, nothing applied, empty identity,
    /// no peers, and a message counter seeded from a random non-zero
    /// value.
    fn default() -> (r: SequentialKV)
        ensures
            r.counter == 0,
            r.id@ == Seq::<char>::empty(),
            r.values@ == Seq::<u64>::empty(),
            r.topology.deep_view() == Seq::<Seq<char>>::empty(),
            0 < r.msg_count < 10000,
            r.wf(),
    {
        SequentialKV {
            counter: 0,
            values: Vec::new(),
            id: String::new(),
            topology: Vec::new(),
            msg_count: random_seed(),
        }
    }
}

/// Relies on rand::random_range: a value drawn uniformly from the given
/// range, here `1..10000` — never zero, so the counter is visibly not
/// starting from scratch.
#[verifier::external_body]
fn random_seed() -> (r: u64)
    ensures
        0 < r < 10000,
{
    rand::random_range(1..10000u64)
}

} // verus!
