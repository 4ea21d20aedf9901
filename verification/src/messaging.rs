//! The message plane: the callback correlation store, the per-envelope
//! dispatch step, and the bookkeeping of a synchronous send with retry.
//!
//! The caller owns the loops (reading lines, timers, task spawning) and
//! the lock around the state; the functions here are the decisions taken
//! under that lock, one envelope or one retry event at a time.

use vstd::prelude::*;

use crate::handlers::Actions;
use crate::handlers::Fault;
use crate::handlers::HandlerKind;
use crate::handlers::HandlersMap;
use crate::handlers::Outcome;
use crate::handlers::add_rel;
use crate::handlers::broadcast_rel;
use crate::handlers::echo_rel;
use crate::handlers::fresh_unique_id;
use crate::handlers::generate_rel;
use crate::handlers::handle_add;
use crate::handlers::handle_broadcast;
use crate::handlers::handle_echo;
use crate::handlers::handle_generate;
use crate::handlers::handle_init;
use crate::handlers::handle_read;
use crate::handlers::handle_read_value;
use crate::handlers::handle_topology;
use crate::handlers::init_rel;
use crate::handlers::read_rel;
use crate::handlers::read_value_rel;
use crate::handlers::topology_rel;
use crate::server::Server;
use crate::server::ServerState;
use crate::server::SrvView;
use crate::server::reply_view;
use crate::types::Body;
use crate::types::BodyView;
use crate::types::Message;
use crate::types::MessageView;
use crate::types::nodup_nums;

verus! {

/// The ids of an entry list, in order.
spec fn keys_of<T>(s: Seq<(u64, T)>) -> Seq<u64> {
    s.map_values(|e: (u64, T)| e.0)
}

/// An entry list read as a map (a later entry would win; the store never
/// holds an id twice).
spec fn entries_map<T>(s: Seq<(u64, T)>) -> Map<u64, T>
    decreases s.len(),
{
    if s.len() == 0 {
        Map::empty()
    } else {
        entries_map(s.drop_last()).insert(s.last().0, s.last().1)
    }
}

proof fn lemma_entries_map_dom<T>(s: Seq<(u64, T)>)
    ensures
        entries_map(s).dom() == keys_of(s).to_set(),
    decreases s.len(),
{
    if s.len() == 0 {
        assert(entries_map(s).dom() =~= keys_of(s).to_set());
    } else {
        lemma_entries_map_dom(s.drop_last());
        assert(keys_of(s.drop_last()) =~= keys_of(s).drop_last());
        assert(keys_of(s) =~= keys_of(s).drop_last().push(s.last().0));
        keys_of(s).drop_last().lemma_push_to_set_commute(s.last().0);
        assert(entries_map(s).dom() =~= keys_of(s).to_set());
    }
}

proof fn lemma_entries_map_get<T>(s: Seq<(u64, T)>, i: int)
    requires
        nodup_nums(keys_of(s)),
        0 <= i < s.len(),
    ensures
        entries_map(s).dom().contains(s[i].0),
        entries_map(s)[s[i].0] == s[i].1,
    decreases s.len(),
{
    assert(keys_of(s)[i] == s[i].0);
    if i < s.len() - 1 {
        assert(keys_of(s.drop_last()) =~= keys_of(s).drop_last());
        lemma_entries_map_get(s.drop_last(), i);
        assert(s.drop_last()[i] == s[i]);
        assert(keys_of(s)[s.len() - 1] == s.last().0);
    }
}

proof fn lemma_entries_map_remove<T>(s: Seq<(u64, T)>, i: int)
    requires
        nodup_nums(keys_of(s)),
        0 <= i < s.len(),
    ensures
        entries_map(s.remove(i)) == entries_map(s).remove(s[i].0),
        nodup_nums(keys_of(s.remove(i))),
        !keys_of(s.remove(i)).contains(s[i].0),
    decreases s.len(),
{
    let k = s[i].0;
    assert(keys_of(s)[i] == k);
    assert(keys_of(s.remove(i)) =~= keys_of(s).remove(i));
    assert forall|a: int, b: int|
        0 <= a < b < keys_of(s).remove(i).len() implies keys_of(s).remove(i)[a] != keys_of(
        s,
    ).remove(i)[b] by {
        let oa: int = if a < i {
            a
        } else {
            a + 1
        };
        let ob: int = if b < i {
            b
        } else {
            b + 1
        };
        assert(keys_of(s).remove(i)[a] == keys_of(s)[oa]);
        assert(keys_of(s).remove(i)[b] == keys_of(s)[ob]);
    }
    assert forall|a: int| 0 <= a < keys_of(s).remove(i).len() implies keys_of(s).remove(i)[a]
        != k by {
        let oa: int = if a < i {
            a
        } else {
            a + 1
        };
        assert(keys_of(s).remove(i)[a] == keys_of(s)[oa]);
    }
    if i == s.len() - 1 {
        assert(s.remove(i) =~= s.drop_last());
        lemma_entries_map_dom(s.drop_last());
        assert(keys_of(s.drop_last()) =~= keys_of(s).drop_last());
        assert(!keys_of(s.drop_last()).contains(k));
        assert(!entries_map(s.drop_last()).dom().contains(k));
        assert(entries_map(s.remove(i)) =~= entries_map(s).remove(k));
    } else {
        assert(s.remove(i).drop_last() =~= s.drop_last().remove(i));
        assert(s.remove(i).last() == s.last());
        assert(keys_of(s.drop_last()) =~= keys_of(s).drop_last());
        lemma_entries_map_remove(s.drop_last(), i);
        assert(s.drop_last()[i] == s[i]);
        assert(keys_of(s)[s.len() - 1] == s.last().0);
        assert(k != s.last().0);
        assert(entries_map(s.remove(i)) =~= entries_map(s).remove(k));
    }
}

/// The process-wide correlation store: from the id of an outstanding
/// synchronous send to the completion action that retires it.  The action
/// type is the caller's own (a channel handle, a flag); the store only
/// keeps and returns it.
pub struct CallbackStore<T> {
    entries: Vec<(u64, T)>,
}

impl<T> View for CallbackStore<T> {
    type V = Map<u64, T>;

    closed spec fn view(&self) -> Map<u64, T> {
        entries_map(self.entries@)
    }
}

impl<T> CallbackStore<T> {
    /// No correlation id is registered twice.
    pub closed spec fn wf(&self) -> bool {
        nodup_nums(keys_of(self.entries@))
    }

    /// An empty store.
    pub fn new() -> (r: CallbackStore<T>)
        ensures
            r@ == Map::<u64, T>::empty(),
            r.wf(),
    {
        CallbackStore { entries: Vec::new() }
    }

    fn find(&self, id: u64) -> (r: Option<usize>)
        ensures
            r matches Some(i) ==> i < self.entries@.len() && self.entries@[i as int].0 == id,
            r is None ==> !keys_of(self.entries@).contains(id),
    {
        let mut i: usize = 0;
        while i < self.entries.len()
            invariant
                i <= self.entries@.len(),
                forall|j: int| 0 <= j < i ==> self.entries@[j].0 != id,
            decreases self.entries@.len() - i,
        {
            if self.entries[i].0 == id {
                return Option::Some(i);
            }
            i = i + 1;
        }
        proof {
            assert forall|j: int| 0 <= j < keys_of(self.entries@).len() implies keys_of(
                self.entries@,
            )[j] != id by {
                assert(keys_of(self.entries@)[j] == self.entries@[j].0);
            }
        }
        Option::None
    }

    /// Whether a completion action is still registered under this id.
    pub fn is_pending(&self, id: u64) -> (r: bool)
        ensures
            r == self@.dom().contains(id),
    {
        proof {
            lemma_entries_map_dom(self.entries@);
        }
        match self.find(id) {
            Option::Some(i) => {
                proof {
                    assert(keys_of(self.entries@)[i as int] == id);
                }
                true
            },
            Option::None => false,
        }
    }

    /// Register `action` under `id`, replacing any earlier registration.
    pub fn register(&mut self, id: u64, action: T)
        requires
            old(self).wf(),
        ensures
            final(self).wf(),
            final(self)@ == old(self)@.insert(id, action),
    {
        match self.find(id) {
            Option::Some(i) => {
                self.entries.remove(i);
                proof {
                    lemma_entries_map_remove(old(self).entries@, i as int);
                }
            },
            Option::None => {},
        }
        let ghost mid = self.entries@;
        self.entries.push((id, action));
        proof {
            assert(self.entries@.drop_last() =~= mid);
            assert(keys_of(self.entries@) =~= keys_of(mid).push(id));
            assert(!keys_of(mid).contains(id));
            assert(self@ =~= old(self)@.insert(id, action));
        }
    }

    /// Remove and return the action registered under `id`, if any: the
    /// lookup and the unregistration are one step, so the action can fire
    /// at most once however often a matching reply is delivered.
    pub fn resolve(&mut self, id: u64) -> (r: Option<T>)
        requires
            old(self).wf(),
        ensures
            final(self).wf(),
            final(self)@ == old(self)@.remove(id),
            r is Some <==> old(self)@.dom().contains(id),
            r matches Some(t) ==> t == old(self)@[id],
    {
        proof {
            lemma_entries_map_dom(self.entries@);
        }
        match self.find(id) {
            Option::None => {
                proof {
                    assert(old(self)@.remove(id) =~= old(self)@);
                }
                Option::None
            },
            Option::Some(i) => {
                proof {
                    lemma_entries_map_get(self.entries@, i as int);
                    lemma_entries_map_remove(self.entries@, i as int);
                }
                let e = self.entries.remove(i);
                Option::Some(e.1)
            },
        }
    }
}

/// The correlation id an inbound envelope resolves: a reply names its
/// request by `in_reply_to`; otherwise a numeric `id` field counts.  The
/// check is independent of the envelope's type tag.
pub open spec fn corr_of(b: BodyView) -> Option<u64> {
    if b.in_reply_to is Some {
        b.in_reply_to
    } else {
        b.corr_id
    }
}

fn corr_field(b: &Body) -> (r: Option<u64>)
    ensures
        r == corr_of(b@),
{
    match b.in_reply_to {
        Option::Some(c) => Option::Some(c),
        Option::None => b.corr_id,
    }
}

/// What one dispatched envelope produced: the completion action its
/// correlation id fired (for the caller to invoke), and the handler's
/// actions.
pub struct DispatchResult<T> {
    pub fired: Option<T>,
    pub actions: Actions,
}

/// An envelope a handler silently dropped.
pub open spec fn dropped(acts: Actions) -> bool {
    &&& acts.outcome == Outcome::Dropped
    &&& acts.replies@ == Seq::<Message>::empty()
    &&& acts.sync_requests@ == Seq::<Message>::empty()
}

/// Everything one dispatch step does: the correlation check (always, and
/// before type dispatch), then the handler the table names for the tag.
pub open spec fn dispatch_rel<T>(
    pre: ServerState,
    post: ServerState,
    pre_cbs: Map<u64, T>,
    post_cbs: Map<u64, T>,
    handlers: HandlersMap,
    m: MessageView,
    fired: Option<T>,
    acts: Actions,
) -> bool {
    &&& (match corr_of(m.body) {
        Option::Some(cid) => post_cbs == pre_cbs.remove(cid) && (fired is Some <==> pre_cbs.dom().contains(cid))
            && (fired matches Some(t) ==> t == pre_cbs[cid]),
        Option::None => post_cbs == pre_cbs && fired is None,
    })
    &&& (match handlers.spec_get(m.body.kind) {
        Option::None => post == pre && acts.outcome == Outcome::Errored(Fault::UnknownType)
            && acts.replies@ == Seq::<Message>::empty() && acts.sync_requests@ == Seq::<
            Message,
        >::empty(),
        Option::Some(h) => match h {
            HandlerKind::Init => post.store_view() == pre.store_view() && init_rel(
                SrvView::of(pre),
                SrvView::of(post),
                m,
                acts,
            ),
            HandlerKind::Topology => post.store_view() == pre.store_view() && topology_rel(
                SrvView::of(pre),
                SrvView::of(post),
                m,
                acts,
            ),
            HandlerKind::Echo => post == pre && echo_rel(pre.id_view(), m, acts),
            HandlerKind::Generate => post == pre && (exists|uid: Seq<char>|
                uid.len() == 36 && #[trigger] generate_rel(pre.id_view(), uid, m, acts)),
            HandlerKind::Broadcast => (match pre {
                ServerState::Broadcast(n0) => post matches ServerState::Broadcast(n1)
                    && broadcast_rel(n0, n1, m, acts),
                ServerState::Counter(_) => post == pre && dropped(acts),
            }),
            HandlerKind::ReadMessages => (match pre {
                ServerState::Broadcast(n0) => post == pre && read_rel(n0, m, acts),
                ServerState::Counter(_) => post == pre && dropped(acts),
            }),
            HandlerKind::Add => (match pre {
                ServerState::Counter(k0) => post matches ServerState::Counter(k1) && add_rel(
                    k0,
                    k1,
                    m,
                    acts,
                ),
                ServerState::Broadcast(_) => post == pre && dropped(acts),
            }),
            HandlerKind::ReadValue => (match pre {
                ServerState::Counter(k0) => post == pre && read_value_rel(k0, m, acts),
                ServerState::Broadcast(_) => post == pre && dropped(acts),
            }),
        },
    })
}

/// One dispatch step for an accepted envelope: resolve its correlation id
/// (type-tag-independent, so a bare liveness reply still retires its
/// sender's retry loop), then run the handler registered for its tag.
///
/// The returned completion action, if any, is the caller's to invoke; the
/// returned sync requests are the caller's to issue via `send_synchronous`.
pub fn handle_msg<T>(
    state: &mut ServerState,
    handlers: &HandlersMap,
    callbacks: &mut CallbackStore<T>,
    msg: &Message,
) -> (r: DispatchResult<T>)
    requires
        old(state).inv(),
        old(callbacks).wf(),
    ensures
        final(state).inv(),
        final(callbacks).wf(),
        dispatch_rel(
            *old(state),
            *final(state),
            old(callbacks)@,
            final(callbacks)@,
            *handlers,
            msg@,
            r.fired,
            r.actions,
        ),
{
    let fired = match corr_field(&msg.body) {
        Option::Some(cid) => callbacks.resolve(cid),
        Option::None => Option::None,
    };
    let actions = match handlers.get(&msg.body.kind) {
        Option::None => Actions::quiet(Outcome::Errored(Fault::UnknownType)),
        Option::Some(h) => match h {
            HandlerKind::Init => handle_init(state, msg),
            HandlerKind::Topology => handle_topology(state, msg),
            HandlerKind::Echo => handle_echo(state, msg),
            HandlerKind::Generate => {
                let uid = fresh_unique_id();
                handle_generate(state, msg, uid)
            },
            HandlerKind::Broadcast => match state {
                ServerState::Broadcast(n) => handle_broadcast(n, msg),
                ServerState::Counter(_) => Actions::quiet(Outcome::Dropped),
            },
            HandlerKind::ReadMessages => match state {
                ServerState::Broadcast(n) => handle_read(n, msg),
                ServerState::Counter(_) => Actions::quiet(Outcome::Dropped),
            },
            HandlerKind::Add => match state {
                ServerState::Counter(k) => handle_add(k, msg),
                ServerState::Broadcast(_) => Actions::quiet(Outcome::Dropped),
            },
            HandlerKind::ReadValue => match state {
                ServerState::Counter(k) => handle_read_value(k, msg),
                ServerState::Broadcast(_) => Actions::quiet(Outcome::Dropped),
            },
        },
    };
    DispatchResult { fired, actions }
}

/// One step of the dispatch loop, from what the transport delivered: a
/// line that did not parse, or an envelope without a type tag, is logged
/// and dropped — the state is untouched and the node answers the next
/// line as if the bad one had never arrived.
pub fn process_line<T>(
    state: &mut ServerState,
    handlers: &HandlersMap,
    callbacks: &mut CallbackStore<T>,
    parsed: Option<Message>,
) -> (r: DispatchResult<T>)
    requires
        old(state).inv(),
        old(callbacks).wf(),
    ensures
        final(state).inv(),
        final(callbacks).wf(),
        parsed is None ==> (
            *final(state) == *old(state) && final(callbacks)@ == old(callbacks)@
            && r.fired is None
            && r.actions.outcome == Outcome::Errored(Fault::MalformedEnvelope)
            && r.actions.replies@ == Seq::<Message>::empty()
            && r.actions.sync_requests@ == Seq::<Message>::empty()
        ),
        parsed matches Some(m) ==> (
            if m@.body.kind.len() == 0 {
                *final(state) == *old(state) && final(callbacks)@ == old(callbacks)@
                && r.fired is None
                && r.actions.outcome == Outcome::Errored(Fault::MalformedEnvelope)
                && r.actions.replies@ == Seq::<Message>::empty()
                && r.actions.sync_requests@ == Seq::<Message>::empty()
            } else {
                dispatch_rel(
                    *old(state),
                    *final(state),
                    old(callbacks)@,
                    final(callbacks)@,
                    *handlers,
                    m@,
                    r.fired,
                    r.actions,
                )
            }
        ),
{
    match parsed {
        Option::None => DispatchResult {
            fired: Option::None,
            actions: Actions::quiet(Outcome::Errored(Fault::MalformedEnvelope)),
        },
        Option::Some(m) => {
            if m.body.kind.as_str().is_empty() {
                DispatchResult {
                    fired: Option::None,
                    actions: Actions::quiet(Outcome::Errored(Fault::MalformedEnvelope)),
                }
            } else {
                handle_msg(state, handlers, callbacks, &m)
            }
        },
    }
}

/// The request as a synchronous send puts it on the wire: the assigned
/// correlation id as its `msg_id`, everything else as given.
pub open spec fn sync_request_view(req: MessageView, mid: u64) -> MessageView {
    MessageView { body: BodyView { msg_id: Option::Some(mid), ..req.body }, ..req }
}

/// Begin a synchronous send: mint the next counter value, stamp it on the
/// request as its `msg_id`, and register the completion action under it.
///
/// The caller writes the returned envelope once immediately, then resends
/// it on a fixed interval, asking `retry_step` after each event, until a
/// reply resolves the id (see `handle_msg`) and fires the action.  The
/// registration is only ever retired by such a reply: without one the
/// retry loop runs on — at-least-once delivery, at the documented cost of
/// never giving up on a peer that is permanently gone.
pub fn send_synchronous<S: Server, T>(
    srv: &mut S,
    callbacks: &mut CallbackStore<T>,
    req: Message,
    action: T,
) -> (r: Message)
    requires
        old(srv).inv(),
        old(callbacks).wf(),
        req@.body.msg_id is None,
    ensures
        final(srv).inv(),
        final(srv).id_view() == old(srv).id_view(),
        final(srv).topo_view() == old(srv).topo_view(),
        final(srv).count_view() == old(srv).count_view().wrapping_add(1),
        final(srv).store_view() == old(srv).store_view(),
        final(callbacks).wf(),
        final(callbacks)@ == old(callbacks)@.insert(final(srv).count_view(), action),
        r@ == sync_request_view(req@, final(srv).count_view()),
{
    let count = srv.get_msg_count().wrapping_add(1);
    srv.set_msg_count(count);
    callbacks.register(count, action);
    let mut m = req;
    m.body.msg_id = Option::Some(count);
    m
}

/// What the retry loop of a synchronous send waited on.
#[derive(Clone, Copy, PartialEq, Eq, Structural, Debug)]
pub enum RetryEvent {
    /// The completion action fired: a matching reply arrived.
    ReplyArrived,
    /// The fixed resend interval elapsed without a reply.
    TimeoutFired,
}

/// What the retry loop does next.
#[derive(Clone, Copy, PartialEq, Eq, Structural, Debug)]
pub enum RetryAction {
    /// The send is acknowledged; stop.
    Stop,
    /// Resend the identical envelope and wait again.
    Resend,
}

/// One decision of the retry loop: only a matching reply stops it; every
/// timeout resends the identical envelope.  There is no backoff and no
/// attempt cap.
pub fn retry_step(event: RetryEvent) -> (r: RetryAction)
    ensures
        r == RetryAction::Stop <==> event == RetryEvent::ReplyArrived,
{
    match event {
        RetryEvent::ReplyArrived => RetryAction::Stop,
        RetryEvent::TimeoutFired => RetryAction::Resend,
    }
}

/// Law: a reply correlates back to its request.  Whatever tag and payload
/// a peer answers with, a reply it builds for a request stamped by the
/// synchronous send carries `in_reply_to` equal to the assigned id, so the
/// correlation check resolves exactly that id.
pub proof fn lemma_reply_correlates(
    req: MessageView,
    mid: u64,
    peer: Seq<char>,
    kind: Seq<char>,
    extra: BodyView,
)
    ensures
        corr_of(reply_view(peer, kind, sync_request_view(req, mid), extra).body) == Option::Some(
            mid,
        ),
{
}

/// Law: correlation resolves retry.  Registering a completion action under
/// a fresh id makes exactly that action pending; resolving the id both
/// returns it and retires the registration, so a second delivery of the
/// same reply finds nothing to fire (`resolve` returns the map after
/// `remove`, and `retry_step` stops only on the reply).
pub proof fn lemma_correlation_fires_once<T>(cbs: Map<u64, T>, mid: u64, action: T)
    ensures
        cbs.insert(mid, action).dom().contains(mid),
        cbs.insert(mid, action)[mid] == action,
        !cbs.insert(mid, action).remove(mid).dom().contains(mid),
{
}

} // verus!
