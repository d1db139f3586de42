//! The WebSocket session state machine. One pump task owns the socket and
//! the correlation table; this module is the decision core of that task:
//! what to do on each queued command and each incoming frame. The I/O shell
//! around it performs the returned actions.

use vstd::prelude::*;
use vstd::slice::slice_index_get;

use crate::Error;
use crate::json::{JsonVal, JsonView};
use crate::methods::Method;
use crate::rpc::{
    decode_hello, decode_response, HelloRequest, OkResponse, ReqId, ReqIdView, Request, Response,
    Status,
};

verus! {

/// The reserved request identifier of the HELLO exchange; never used for
/// ordinary calls.
pub const HELLO_SENTINEL: i32 = -1;

/// A command submitted into the session's queue from a caller context.
pub enum Command {
    /// Submit a call: the request JSON (with no identifier yet — the pump
    /// assigns one) and the caller's reply-slot handle.
    Call { payload: JsonVal, handle: u64 },
    /// Close the session.
    Close,
}

/// What the socket handed the pump task.
pub enum Frame {
    Text(String),
    Binary(Vec<u8>),
    Ping,
    Close,
    Other,
}

/// One occurrence the pump task reacts to: a queued command or a frame.
pub enum SessionEvent {
    Command(Command),
    Frame(Frame),
}

/// An instruction for the I/O shell around the state machine.
pub enum Action {
    /// Send a text frame.
    SendText(String),
    /// Send a binary frame.
    SendBinary(Vec<u8>),
    /// Deliver a reply to the caller holding this handle.
    Reply { handle: u64, reply: Result<OkResponse, Status> },
    /// Fulfill the one-shot handshake channel with success.
    HelloOk,
    /// Broadcast one server-pushed transaction to all subscribers.
    Broadcast(JsonVal),
    /// End the session loop, with the error that ended it, if any.
    Stop(Option<Error>),
}

/// The views of the entries of a correlation table.
pub open spec fn pend_views(s: Seq<(ReqId, u64)>) -> Seq<(ReqIdView, u64)>
    decreases s,
{
    if s.len() == 0 {
        Seq::empty()
    } else {
        seq![(s[0].0@, s[0].1)] + pend_views(s.drop_first())
    }
}

pub broadcast proof fn lemma_pend_views_len(s: Seq<(ReqId, u64)>)
    ensures
        (#[trigger] pend_views(s)).len() == s.len(),
    decreases s,
{
    if s.len() != 0 {
        lemma_pend_views_len(s.drop_first());
    }
}

pub broadcast proof fn lemma_pend_views_index(s: Seq<(ReqId, u64)>, i: int)
    requires
        0 <= i < s.len(),
    ensures
        #[trigger] pend_views(s)[i] == (s[i].0@, s[i].1),
    decreases s,
{
    lemma_pend_views_len(s.drop_first());
    if i > 0 {
        lemma_pend_views_index(s.drop_first(), i - 1);
    }
}

/// The pointwise characterisation of correlation-table views.
pub broadcast group group_pend_views {
    lemma_pend_views_len,
    lemma_pend_views_index,
}

/// The handle registered under `id`, if any: the correlation table maps each
/// in-flight request identifier to its caller's reply slot.
pub open spec fn pend_lookup(p: Seq<(ReqIdView, u64)>, id: ReqIdView) -> Option<u64>
    decreases p.len(),
{
    if p.len() == 0 {
        None
    } else if p[0].0 == id {
        Some(p[0].1)
    } else {
        pend_lookup(p.drop_first(), id)
    }
}

/// The correlation table with the first entry under `id` removed.
pub open spec fn pend_remove(p: Seq<(ReqIdView, u64)>, id: ReqIdView) -> Seq<(ReqIdView, u64)>
    decreases p.len(),
{
    if p.len() == 0 {
        p
    } else if p[0].0 == id {
        p.drop_first()
    } else {
        seq![p[0]] + pend_remove(p.drop_first(), id)
    }
}

/// The state of one WebSocket session, as seen by its single pump task.
pub struct SessionState {
    /// The next request identifier to issue; starts at 1 and only grows.
    pub next_id: i32,
    /// The correlation table: in-flight request identifier to reply handle.
    pub pending: Vec<(ReqId, u64)>,
    /// Whether the HELLO exchange has completed.
    pub hello_done: bool,
    /// Whether frames are sent in binary mode (negotiated by HELLO).
    pub binary: bool,
    /// Whether compression was negotiated (by HELLO).
    pub compression: bool,
}

impl SessionState {
    /// Well-formedness: identifiers start at 1; every table entry holds a
    /// numeric identifier already issued; no identifier appears twice.
    pub open spec fn wf(self) -> bool {
        &&& 1 <= self.next_id
        &&& forall|k: int|
            0 <= k < self.pending@.len() ==> ((#[trigger] pend_views(self.pending@)[k].0) matches
            ReqIdView::Num(i) && 1 <= i < self.next_id)
        &&& forall|k: int, l: int|
            0 <= k < l < self.pending@.len() ==> pend_views(self.pending@)[k].0 != pend_views(
                self.pending@,
            )[l].0
    }

    /// A fresh session: no identifier issued, nothing in flight, handshake
    /// not yet completed, modes as the client prefers them.
    pub fn new(binary: bool, compression: bool) -> (r: SessionState)
        ensures
            r.wf(),
            r.next_id == 1,
            pend_views(r.pending@) == Seq::<(ReqIdView, u64)>::empty(),
            !r.hello_done,
            r.binary == binary,
            r.compression == compression,
    {
        broadcast use group_pend_views;

        SessionState { next_id: 1, pending: Vec::new(), hello_done: false, binary, compression }
    }
}

} // verus!

verus! {

/// The frame-send action for `v` in the session's negotiated mode; `None`
/// where the value cannot be encoded.
pub fn send_action(v: &JsonVal, binary: bool) -> (r: Option<Action>)
    ensures
        binary ==> match crate::json::json_bytes_of(v@) {
            Some(b) => r matches Some(a) && a matches Action::SendBinary(x) && x@ == b,
            None => r is None,
        },
        !binary ==> match crate::json::json_text_of(v@) {
            Some(t) => r matches Some(a) && a matches Action::SendText(x) && x@ == t,
            None => r is None,
        },
{
    if binary {
        match crate::json::json_to_bytes(v) {
            Some(b) => Some(Action::SendBinary(b)),
            None => None,
        }
    } else {
        match crate::json::json_to_text(v) {
            Some(t) => Some(Action::SendText(t)),
            None => None,
        }
    }
}

/// If no entry before index `i` holds `id`, the lookup over the whole table
/// equals the lookup over the tail starting at `i`.
proof fn lemma_pend_lookup_skip(p: Seq<(ReqIdView, u64)>, id: ReqIdView, i: int)
    requires
        0 <= i <= p.len(),
        forall|j: int| 0 <= j < i ==> #[trigger] p[j].0 != id,
    ensures
        pend_lookup(p, id) == pend_lookup(p.skip(i), id),
    decreases i,
{
    if i > 0 {
        assert(p[0].0 != id);
        lemma_pend_lookup_skip(p.drop_first(), id, i - 1);
        assert(p.drop_first().skip(i - 1) =~= p.skip(i));
    } else {
        assert(p.skip(0) =~= p);
    }
}

/// Looking up and removing the first entry holding `id`, when it stands at
/// index `i` with no earlier match, yields that entry's handle and deletes
/// exactly that entry.
proof fn lemma_pend_remove_at(p: Seq<(ReqIdView, u64)>, id: ReqIdView, i: int)
    requires
        0 <= i < p.len(),
        p[i].0 == id,
        forall|j: int| 0 <= j < i ==> #[trigger] p[j].0 != id,
    ensures
        pend_lookup(p, id) == Some(p[i].1),
        pend_remove(p, id) =~= p.remove(i),
    decreases i,
{
    if i == 0 {
        assert(p.remove(0) =~= p.drop_first());
    } else {
        assert(p[0].0 != id);
        lemma_pend_remove_at(p.drop_first(), id, i - 1);
        assert(seq![p[0]] + p.drop_first().remove(i - 1) =~= p.remove(i));
        assert(pend_remove(p, id) == seq![p[0]] + pend_remove(p.drop_first(), id));
    }
}

/// Removes the entry registered under `id`, returning its handle.
fn take_pending(pending: &mut Vec<(ReqId, u64)>, id: &ReqId) -> (r: Option<u64>)
    ensures
        match pend_lookup(pend_views(old(pending)@), id@) {
            Some(h) => r == Some(h) && pend_views(final(pending)@) == pend_remove(
                pend_views(old(pending)@),
                id@,
            ),
            None => r is None && final(pending)@ == old(pending)@,
        },
{
    broadcast use group_pend_views;

    let ghost pv = pend_views(pending@);
    let n = pending.len();
    for i in 0..n
        invariant
            n == pending.len(),
            pending@ == old(pending)@,
            pv == pend_views(pending@),
            pv.len() == n,
            forall|j: int| 0 <= j < n ==> pv[j] == (pending@[j].0@, pending@[j].1),
            forall|j: int| 0 <= j < i ==> #[trigger] pv[j].0 != id@,
    {
        if pending[i].0 == *id {
            proof {
                lemma_pend_remove_at(pv, id@, i as int);
            }
            let entry = pending.remove(i);
            proof {
                let oldp = old(pending)@;
                oldp.remove_ensures(i as int);
                pv.remove_ensures(i as int);
                assert(pending@ == oldp.remove(i as int));
                assert forall|j: int|
                    0 <= j < pending@.len() implies pend_views(pending@)[j] == pv.remove(
                    i as int,
                )[j] by {
                    if j < i as int {
                        assert(oldp.remove(i as int)[j] == oldp[j]);
                        assert(pv.remove(i as int)[j] == pv[j]);
                    } else {
                        assert(oldp.remove(i as int)[j] == oldp[j + 1]);
                        assert(pv.remove(i as int)[j] == pv[j + 1]);
                    }
                    lemma_pend_views_len(pending@);
                    lemma_pend_views_index(pending@, j);
                }
                lemma_pend_views_len(pending@);
                assert(pend_views(pending@) =~= pv.remove(i as int));
            }
            return Some(entry.1);
        }
    }
    proof {
        lemma_pend_lookup_skip(pv, id@, n as int);
    }
    None
}

} // verus!

verus! {

/// What handling a queued call leaves behind: the identifier `old.next_id`
/// is issued and registered under the caller's handle, the request is sent
/// with that identifier, and the counter moves up by one. With the counter
/// exhausted, nothing is issued and the session stops.
pub open spec fn call_post(
    pre: SessionState,
    payload: JsonView,
    handle: u64,
    post: SessionState,
    acts: Seq<Action>,
) -> bool {
    &&& post.hello_done == pre.hello_done
    &&& post.binary == pre.binary
    &&& post.compression == pre.compression
    &&& if pre.next_id == i32::MAX {
        &&& post == pre
        &&& acts.len() == 1
        &&& acts[0] matches Action::Stop(e) && e matches Some(err) && err is Other
    } else {
        let sent = JsonView::Obj(
            payload->Obj_0.push(("id"@, JsonView::Int(pre.next_id as i64))),
        );
        &&& post.next_id == pre.next_id + 1
        &&& pend_views(post.pending@) == pend_views(pre.pending@).push(
            (ReqIdView::Num(pre.next_id), handle),
        )
        &&& acts.len() == 1
        &&& (pre.binary ==> (match crate::json::json_bytes_of(sent) {
            Some(b) => acts[0] matches Action::SendBinary(x) && x@ == b,
            None => acts[0] matches Action::Stop(e) && e matches Some(err) && err is Other,
        }))
        &&& (!pre.binary ==> (match crate::json::json_text_of(sent) {
            Some(t) => acts[0] matches Action::SendText(x) && x@ == t,
            None => acts[0] matches Action::Stop(e) && e matches Some(err) && err is Other,
        }))
    }
}

impl SessionState {
    /// Handles a queued call: allocates the next request identifier (never
    /// the HELLO sentinel), registers the caller's reply slot under it, and
    /// sends the request frame in the negotiated encoding.
    pub fn on_call(&mut self, payload: JsonVal, handle: u64) -> (acts: Vec<Action>)
        requires
            old(self).wf(),
            payload@ is Obj,
        ensures
            final(self).wf(),
            call_post(*old(self), payload@, handle, *final(self), acts@),
    {
        broadcast use group_pend_views;

        if self.next_id == i32::MAX {
            let mut acts: Vec<Action> = Vec::new();
            acts.push(Action::Stop(Some(Error::Other("request identifiers exhausted"))));
            return acts;
        }
        let id = self.next_id;
        self.next_id = self.next_id + 1;
        let ghost oldpend = pend_views(self.pending@);
        self.pending.push((ReqId::Num(id), handle));
        proof {
            let ghost newp = self.pending@;
            lemma_pend_views_len(newp);
            assert forall|j: int|
                0 <= j < newp.len() implies pend_views(newp)[j] == (newp[j].0@, newp[j].1) by {
                lemma_pend_views_index(newp, j);
            }
            assert(pend_views(newp) =~= oldpend.push((ReqIdView::Num(id), handle)));
        }
        let payload_with_id = payload.push_field("id", JsonVal::Int(id as i64));
        let mut acts: Vec<Action> = Vec::new();
        match send_action(&payload_with_id, self.binary) {
            Some(a) => {
                acts.push(a);
            },
            None => {
                acts.push(Action::Stop(Some(Error::Other("request cannot be encoded"))));
            },
        }
        acts
    }
}

} // verus!

verus! {

/// The two states are the same session state, field by field.
pub open spec fn state_same(pre: SessionState, post: SessionState) -> bool {
    &&& post.next_id == pre.next_id
    &&& post.pending@ == pre.pending@
    &&& post.hello_done == pre.hello_done
    &&& post.binary == pre.binary
    &&& post.compression == pre.compression
}

/// Whether a response's result is the literal server-ping verb.
pub open spec fn is_ping_result(rv: crate::rpc::ResponseView) -> bool {
    rv.result == Some(JsonView::Str("ping"@))
}

/// Whether a response carries the HELLO sentinel identifier.
pub open spec fn is_sentinel(rv: crate::rpc::ResponseView) -> bool {
    rv.id == Some(ReqIdView::Num(HELLO_SENTINEL))
}

/// Whether a response's result is the literal HELLO marker.
pub open spec fn is_hello_result(rv: crate::rpc::ResponseView) -> bool {
    rv.result == Some(JsonView::Str("hello"@))
}

/// One stop action carrying a decode error, and nothing else.
pub open spec fn is_stop_decode(acts: Seq<Action>) -> bool {
    &&& acts.len() == 1
    &&& acts[0] matches Action::Stop(e) && e matches Some(err) && err is Decode
}

/// The send action of the keepalive verb in the session's mode.
pub open spec fn is_ping_reply(a: Action, binary: bool) -> bool {
    if binary {
        match crate::json::json_bytes_of(JsonView::Str("ping"@)) {
            Some(b) => a matches Action::SendBinary(x) && x@ == b,
            None => a matches Action::Stop(e) && e matches Some(err) && err is Other,
        }
    } else {
        match crate::json::json_text_of(JsonView::Str("ping"@)) {
            Some(t) => a matches Action::SendText(x) && x@ == t,
            None => a matches Action::Stop(e) && e matches Some(err) && err is Other,
        }
    }
}

/// What dispatching one decoded response envelope leaves behind, rule by
/// rule in the order the pump applies them: the server-ping check; the
/// HELLO-sentinel rules (an error is ignored; the first HELLO adopts the
/// server's modes and fulfills the handshake exactly once; later ones are
/// ignored); the correlation-table match, which removes the entry and
/// replies to exactly the registered handle; and the broadcast of a pushed
/// transaction list. Anything else changes nothing.
pub open spec fn dispatch_post(
    pre: SessionState,
    raw: JsonView,
    rv: crate::rpc::ResponseView,
    post: SessionState,
    acts: Seq<Action>,
) -> bool {
    &&& post.next_id == pre.next_id
    &&& if is_ping_result(rv) {
        &&& state_same(pre, post)
        &&& acts.len() == 1
        &&& is_ping_reply(acts[0], pre.binary)
    } else if is_sentinel(rv) {
        if rv.result is None && rv.error is Some {
            state_same(pre, post) && acts.len() == 0
        } else if is_hello_result(rv) {
            if pre.hello_done {
                state_same(pre, post) && acts.len() == 0
            } else {
                match crate::rpc::spec_hello_of(raw) {
                    Some(h) => {
                        &&& post.hello_done
                        &&& post.binary == h.binary
                        &&& post.compression == (match h.use_compression {
                            Some(c) => c,
                            None => false,
                        })
                        &&& post.pending@ == pre.pending@
                        &&& acts.len() == 1
                        &&& acts[0] is HelloOk
                    },
                    None => state_same(pre, post) && is_stop_decode(acts),
                }
            }
        } else {
            state_same(pre, post) && acts.len() == 0
        }
    } else if rv.id is Some && pend_lookup(pend_views(pre.pending@), rv.id->0) is Some {
        let h = pend_lookup(pend_views(pre.pending@), rv.id->0)->0;
        &&& pend_views(post.pending@) == pend_remove(pend_views(pre.pending@), rv.id->0)
        &&& post.hello_done == pre.hello_done
        &&& post.binary == pre.binary
        &&& post.compression == pre.compression
        &&& acts.len() == 1
        &&& acts[0] matches Action::Reply { handle, reply } && handle == h && (match rv.error {
            Some(e) => reply matches Err(st) && st@ == e,
            None => reply matches Ok(ok) && ok@ == crate::rpc::spec_ok_of(rv),
        })
    } else if rv.result is Some && rv.result->0 is Arr {
        let items = rv.result->0->Arr_0;
        &&& state_same(pre, post)
        &&& acts.len() == items.len()
        &&& forall|k: int|
            0 <= k < items.len() ==> ((#[trigger] acts[k]) matches Action::Broadcast(x) && x@
                == items[k])
    } else {
        state_same(pre, post) && acts.len() == 0
    }
}

impl SessionState {
    /// Applies the response dispatch rules to one decoded envelope. `raw` is
    /// the JSON the envelope was decoded from; the HELLO payload is read
    /// from it.
    pub fn on_response(&mut self, raw: &JsonVal, resp: Response) -> (acts: Vec<Action>)
        requires
            old(self).wf(),
            crate::rpc::spec_response_of(raw@) == Some(resp@),
        ensures
            final(self).wf(),
            dispatch_post(*old(self), raw@, resp@, *final(self), acts@),
    {
        broadcast use group_pend_views;

        let mut acts: Vec<Action> = Vec::new();
        // A server-initiated ping: reply with the keepalive verb.
        let is_ping = match &resp.result {
            Some(r) => r.str_is("ping"),
            None => false,
        };
        if is_ping {
            match send_action(&crate::json::val_str("ping"), self.binary) {
                Some(a) => {
                    acts.push(a);
                },
                None => {
                    acts.push(Action::Stop(Some(Error::Other("reply cannot be encoded"))));
                },
            }
            return acts;
        }
        // The HELLO sentinel: never correlated with an ordinary call.
        let sentinel = match &resp.id {
            Some(ReqId::Num(i)) => *i == HELLO_SENTINEL,
            _ => false,
        };
        if sentinel {
            if resp.result.is_none() && resp.error.is_some() {
                return acts;
            }
            let hello = match &resp.result {
                Some(r) => r.str_is("hello"),
                None => false,
            };
            if hello {
                if self.hello_done {
                    return acts;
                }
                match decode_hello(raw) {
                    Some(h) => {
                        self.hello_done = true;
                        self.binary = h.binary;
                        self.compression = match h.use_compression {
                            Some(c) => c,
                            None => false,
                        };
                        acts.push(Action::HelloOk);
                    },
                    None => {
                        acts.push(Action::Stop(Some(Error::Decode)));
                    },
                }
                return acts;
            }
            return acts;
        }
        // An ordinary correlated reply.
        let correlated = match &resp.id {
            Some(id) => take_pending(&mut self.pending, id),
            None => None,
        };
        match correlated {
            Some(h) => {
                proof {
                    lemma_wf_after_remove(*old(self), resp@.id->0, *self);
                }
                acts.push(Action::Reply { handle: h, reply: resp.into_result() });
                return acts;
            },
            None => {},
        }
        // A server-pushed transaction list: broadcast each element.
        match resp.result {
            Some(JsonVal::Arr(items)) => {
                let ghost itemsv = crate::json::arr_views(items@);
                let n = items.len();
                proof {
                    crate::json::lemma_arr_views_len(items@);
                }
                for i in 0..n
                    invariant
                        n == items.len(),
                        itemsv == crate::json::arr_views(items@),
                        itemsv.len() == n,
                        acts@.len() == i,
                        forall|k: int|
                            0 <= k < i ==> ((#[trigger] acts@[k]) matches Action::Broadcast(x)
                                && x@ == itemsv[k]),
                {
                    let c = items[i].clone_val();
                    acts.push(Action::Broadcast(c));
                    proof {
                        crate::json::lemma_arr_views_index(items@, i as int);
                    }
                }
                acts
            },
            _ => acts,
        }
    }
}

/// `pend_remove` either leaves the table unchanged (no entry under `id`) or
/// deletes exactly the first entry under `id`.
proof fn lemma_pend_remove_shape(p: Seq<(ReqIdView, u64)>, id: ReqIdView)
    ensures
        (pend_remove(p, id) == p && pend_lookup(p, id) is None) || exists|k: int|
            0 <= k < p.len() && #[trigger] p[k].0 == id && pend_remove(p, id) =~= p.remove(k),
    decreases p.len(),
{
    if p.len() != 0 {
        if p[0].0 == id {
            assert(p.remove(0) =~= p.drop_first());
            assert(p[0].0 == id && pend_remove(p, id) =~= p.remove(0));
        } else {
            lemma_pend_remove_shape(p.drop_first(), id);
            if pend_remove(p.drop_first(), id) == p.drop_first() && pend_lookup(
                p.drop_first(),
                id,
            ) is None {
                assert(pend_remove(p, id) =~= p);
            } else {
                let k = choose|k: int|
                    0 <= k < p.drop_first().len() && #[trigger] p.drop_first()[k].0 == id
                        && pend_remove(p.drop_first(), id) =~= p.drop_first().remove(k);
                p.remove_ensures(k + 1);
                p.drop_first().remove_ensures(k);
                assert(p[k + 1].0 == id);
                assert(pend_remove(p, id) =~= p.remove(k + 1));
            }
        }
    }
}

/// Removing an entry from a well-formed table keeps the session well-formed:
/// the remaining identifiers are still issued, unique ones.
proof fn lemma_wf_after_remove(pre: SessionState, id: ReqIdView, post: SessionState)
    requires
        pre.wf(),
        post.next_id == pre.next_id,
        pend_views(post.pending@) == pend_remove(pend_views(pre.pending@), id),
    ensures
        post.wf(),
{
    broadcast use group_pend_views;

    let p = pend_views(pre.pending@);
    let q = pend_views(post.pending@);
    lemma_pend_views_len(pre.pending@);
    lemma_pend_views_len(post.pending@);
    lemma_pend_remove_shape(p, id);
    if q == p {
        assert forall|j: int| 0 <= j < q.len() implies q[j] == p[j] by {}
    } else {
        let k = choose|k: int|
            0 <= k < p.len() && #[trigger] p[k].0 == id && pend_remove(p, id) =~= p.remove(k);
        p.remove_ensures(k);
        assert forall|j: int, l: int|
            0 <= j < l < post.pending@.len() implies q[j].0 != q[l].0 by {
            if j < k {
                assert(q[j] == p[j]);
            } else {
                assert(q[j] == p[j + 1]);
            }
            if l < k {
                assert(q[l] == p[l]);
            } else {
                assert(q[l] == p[l + 1]);
            }
        }
        assert forall|j: int|
            0 <= j < post.pending@.len() implies ((#[trigger] q[j].0) matches ReqIdView::Num(i)
            && 1 <= i < post.next_id) by {
            if j < k {
                assert(q[j] == p[j]);
            } else {
                assert(q[j] == p[j + 1]);
            }
        }
    }
}

} // verus!

verus! {

/// The UTF-8 bytes of the keepalive reply token.
pub open spec fn pong_bytes() -> Seq<u8> {
    seq![112u8, 111u8, 110u8, 103u8, 33u8]
}

/// Whether `b` holds exactly the keepalive reply token, byte for byte.
pub fn is_pong_bytes(b: &[u8]) -> (r: bool)
    ensures
        r == (b@ == pong_bytes()),
{
    if b.len() != 5 {
        proof {
            assert(pong_bytes().len() == 5);
        }
        return false;
    }
    let r = *slice_index_get(b, 0) == 112 && *slice_index_get(b, 1) == 111 && *slice_index_get(
        b,
        2,
    ) == 110 && *slice_index_get(b, 3) == 103 && *slice_index_get(b, 4) == 33;
    proof {
        if r {
            assert(b@ =~= pong_bytes());
        } else {
            assert(b@ != pong_bytes());
        }
    }
    r
}

/// What handling one text frame leaves behind: the keepalive reply token is
/// recognised before any envelope parsing; unparsable text ends the session
/// with a decode error; a parsed envelope is dispatched.
pub open spec fn text_post(pre: SessionState, s: Seq<char>, post: SessionState, acts: Seq<
    Action,
>) -> bool {
    if s == "pong!"@ {
        state_same(pre, post) && acts.len() == 0
    } else {
        match crate::json::json_of_text(s) {
            Some(v) => match crate::rpc::spec_response_of(v) {
                Some(rv) => dispatch_post(pre, v, rv, post, acts),
                None => state_same(pre, post) && is_stop_decode(acts),
            },
            None => state_same(pre, post) && is_stop_decode(acts),
        }
    }
}

/// What handling one binary frame leaves behind; as for text frames.
pub open spec fn binary_post(pre: SessionState, b: Seq<u8>, post: SessionState, acts: Seq<
    Action,
>) -> bool {
    if b == pong_bytes() {
        state_same(pre, post) && acts.len() == 0
    } else {
        match crate::json::json_of_bytes(b) {
            Some(v) => match crate::rpc::spec_response_of(v) {
                Some(rv) => dispatch_post(pre, v, rv, post, acts),
                None => state_same(pre, post) && is_stop_decode(acts),
            },
            None => state_same(pre, post) && is_stop_decode(acts),
        }
    }
}

/// What one step of the pump task leaves behind, for each kind of event.
pub open spec fn step_post(
    pre: SessionState,
    event: SessionEvent,
    post: SessionState,
    acts: Seq<Action>,
) -> bool {
    match event {
        SessionEvent::Command(Command::Call { payload, handle }) => call_post(
            pre,
            payload@,
            handle,
            post,
            acts,
        ),
        SessionEvent::Command(Command::Close) => {
            &&& state_same(pre, post)
            &&& acts.len() == 1
            &&& acts[0] matches Action::Stop(e) && e is None
        },
        SessionEvent::Frame(Frame::Text(s)) => text_post(pre, s@, post, acts),
        SessionEvent::Frame(Frame::Binary(b)) => binary_post(pre, b@, post, acts),
        SessionEvent::Frame(Frame::Ping) => {
            &&& state_same(pre, post)
            &&& acts.len() == 1
            &&& is_ping_reply(acts[0], pre.binary)
        },
        SessionEvent::Frame(Frame::Close) => {
            &&& state_same(pre, post)
            &&& acts.len() == 1
            &&& acts[0] matches Action::Stop(e) && e is None
        },
        SessionEvent::Frame(Frame::Other) => state_same(pre, post) && acts.len() == 0,
    }
}

impl SessionState {
    /// Handles one text frame from the socket.
    pub fn on_text(&mut self, s: String) -> (acts: Vec<Action>)
        requires
            old(self).wf(),
        ensures
            final(self).wf(),
            text_post(*old(self), s@, *final(self), acts@),
    {
        if crate::json::str_eq(s.as_str(), "pong!") {
            return Vec::new();
        }
        match crate::json::json_from_text(s.as_str()) {
            Some(v) => match decode_response(&v) {
                Some(resp) => self.on_response(&v, resp),
                None => {
                    let mut acts: Vec<Action> = Vec::new();
                    acts.push(Action::Stop(Some(Error::Decode)));
                    acts
                },
            },
            None => {
                let mut acts: Vec<Action> = Vec::new();
                acts.push(Action::Stop(Some(Error::Decode)));
                acts
            },
        }
    }

    /// Handles one binary frame from the socket.
    pub fn on_binary(&mut self, b: Vec<u8>) -> (acts: Vec<Action>)
        requires
            old(self).wf(),
        ensures
            final(self).wf(),
            binary_post(*old(self), b@, *final(self), acts@),
    {
        if is_pong_bytes(b.as_slice()) {
            return Vec::new();
        }
        match crate::json::json_from_bytes(b.as_slice()) {
            Some(v) => match decode_response(&v) {
                Some(resp) => self.on_response(&v, resp),
                None => {
                    let mut acts: Vec<Action> = Vec::new();
                    acts.push(Action::Stop(Some(Error::Decode)));
                    acts
                },
            },
            None => {
                let mut acts: Vec<Action> = Vec::new();
                acts.push(Action::Stop(Some(Error::Decode)));
                acts
            },
        }
    }

    /// Handles one event: a queued command or an incoming frame.
    pub fn step(&mut self, event: SessionEvent) -> (acts: Vec<Action>)
        requires
            old(self).wf(),
            event matches SessionEvent::Command(Command::Call { payload, .. }) ==> payload@ is Obj,
        ensures
            final(self).wf(),
            step_post(*old(self), event, *final(self), acts@),
    {
        match event {
            SessionEvent::Command(Command::Call { payload, handle }) => self.on_call(
                payload,
                handle,
            ),
            SessionEvent::Command(Command::Close) => {
                let mut acts: Vec<Action> = Vec::new();
                acts.push(Action::Stop(None));
                acts
            },
            SessionEvent::Frame(Frame::Text(s)) => self.on_text(s),
            SessionEvent::Frame(Frame::Binary(b)) => self.on_binary(b),
            SessionEvent::Frame(Frame::Ping) => {
                let mut acts: Vec<Action> = Vec::new();
                match send_action(&crate::json::val_str("ping"), self.binary) {
                    Some(a) => {
                        acts.push(a);
                    },
                    None => {
                        acts.push(Action::Stop(Some(Error::Other("reply cannot be encoded"))));
                    },
                }
                acts
            },
            SessionEvent::Frame(Frame::Close) => {
                let mut acts: Vec<Action> = Vec::new();
                acts.push(Action::Stop(None));
                acts
            },
            SessionEvent::Frame(Frame::Other) => Vec::new(),
        }
    }

    /// The HELLO request this session opens with: sentinel identifier, the
    /// HELLO verb, no parameters, and the client's preferred modes.
    pub fn hello_actions(&self) -> (acts: Vec<Action>)
        ensures
            acts@.len() == 1,
            ({
                let hv = crate::rpc::spec_hello_request_json(
                    crate::rpc::RequestView {
                        id: Some(ReqIdView::Num(HELLO_SENTINEL)),
                        method: "hello"@,
                        params: Seq::empty(),
                        time: None,
                    },
                    Some(self.binary),
                    Some(self.compression),
                );
                if self.binary {
                    match crate::json::json_bytes_of(hv) {
                        Some(b) => acts@[0] matches Action::SendBinary(x) && x@ == b,
                        None => acts@[0] matches Action::Stop(e) && e matches Some(err) && err
                            is Other,
                    }
                } else {
                    match crate::json::json_text_of(hv) {
                        Some(t) => acts@[0] matches Action::SendText(x) && x@ == t,
                        None => acts@[0] matches Action::Stop(e) && e matches Some(err) && err
                            is Other,
                    }
                }
            }),
    {
        let request = Request {
            id: Some(ReqId::Num(HELLO_SENTINEL)),
            method: Method::Hello.camel().to_owned(),
            params: Vec::new(),
            time: None,
        };
        let hello = HelloRequest {
            request,
            binary: Some(self.binary),
            compression: Some(self.compression),
        };
        let payload = hello.to_json();
        proof {
            assert(crate::json::arr_views(Seq::<JsonVal>::empty()) == Seq::<
                crate::json::JsonView,
            >::empty());
        }
        let mut acts: Vec<Action> = Vec::new();
        match send_action(&payload, self.binary) {
            Some(a) => {
                acts.push(a);
            },
            None => {
                acts.push(Action::Stop(Some(Error::Other("handshake cannot be encoded"))));
            },
        }
        acts
    }

    /// Ends the session: hands back every in-flight reply handle, each
    /// exactly once, so the shell can fail those callers with "connection
    /// closed before reply" rather than leave them hanging.
    pub fn teardown(self) -> (handles: Vec<u64>)
        ensures
            handles@.len() == pend_views(self.pending@).len(),
            forall|k: int|
                0 <= k < handles@.len() ==> #[trigger] handles@[k] == pend_views(
                    self.pending@,
                )[k].1,
    {
        broadcast use group_pend_views;

        let mut handles: Vec<u64> = Vec::new();
        let n = self.pending.len();
        for i in 0..n
            invariant
                n == self.pending.len(),
                handles@.len() == i,
                forall|k: int|
                    0 <= k < i ==> #[trigger] handles@[k] == pend_views(self.pending@)[k].1,
        {
            proof {
                lemma_pend_views_index(self.pending@, i as int);
            }
            handles.push(self.pending[i].1);
        }
        handles
    }
}

} // verus!

verus! {

/// What awaiting a call's reply slot produced: a delivered reply, or the
/// slot's channel closed because the connection went away first.
pub enum ReplyOutcome {
    Delivered(Result<OkResponse, Status>),
    ChannelClosed,
}

/// Turns the awaited outcome of one call into the caller's result: a closed
/// channel is "connection closed before reply"; a structured error is a
/// service error; a delivered reply without a result is a success with an
/// implicit null result.
pub fn complete_call(outcome: ReplyOutcome) -> (r: Result<JsonVal, Error>)
    ensures
        match outcome {
            ReplyOutcome::ChannelClosed => r matches Err(e) && e is ConnectionClosed,
            ReplyOutcome::Delivered(d) => match d {
                Err(st) => r matches Err(e) && e matches Error::ServiceError(s2) && s2@ == st@,
                Ok(ok) => match ok.result {
                    Some(v) => r matches Ok(x) && x@ == v@,
                    None => r matches Ok(x) && x@ is Null,
                },
            },
        },
{
    match outcome {
        ReplyOutcome::ChannelClosed => Err(Error::ConnectionClosed),
        ReplyOutcome::Delivered(d) => match d {
            Err(st) => Err(Error::ServiceError(st)),
            Ok(ok) => match ok.result {
                Some(v) => Ok(v),
                None => Ok(JsonVal::Null),
            },
        },
    }
}

/// How often the keepalive task wakes, in milliseconds.
pub const PING_INTERVAL_MS: i64 = 10000;

/// How long after the last successful ping the connection counts as hung,
/// in milliseconds.
pub const HANG_TIMEOUT_MS: i64 = 300000;

/// The keepalive task's state: the instant of the last ping reply, if one
/// has been received since the last wake-up.
pub struct KeepaliveState {
    pub last_ping_response_ms: Option<i64>,
}

/// What the keepalive task decides on one wake-up.
#[derive(Clone, Copy, Debug, PartialEq, Eq, Structural)]
pub enum KeepaliveAction {
    /// Submit a ping call through the session's command queue.
    SendPing,
    /// The connection looks hung: no ping reply within the hang window.
    /// Diagnostic only; the session is not closed on this account.
    Hung,
    /// Nothing to do this time.
    Nothing,
}

impl KeepaliveState {
    /// All recorded reply instants are non-negative.
    pub open spec fn wf(self) -> bool {
        self.last_ping_response_ms matches Some(t) ==> t >= 0
    }

    /// A fresh keepalive state: no ping reply seen yet.
    pub fn new() -> (r: KeepaliveState)
        ensures
            r.wf(),
            r.last_ping_response_ms is None,
    {
        KeepaliveState { last_ping_response_ms: None }
    }

    /// Notes the instant a ping reply arrived.
    pub fn note_ping_reply(&mut self, now_ms: i64)
        requires
            now_ms >= 0,
        ensures
            final(self).wf(),
            final(self).last_ping_response_ms == Some(now_ms),
    {
        self.last_ping_response_ms = Some(now_ms);
    }

    /// One wake-up of the keepalive task: with no reply recorded, ping the
    /// server; with one recorded, clear it, and report a hang when the reply
    /// is older than the hang window.
    pub fn tick(&mut self, now_ms: i64) -> (r: KeepaliveAction)
        requires
            old(self).wf(),
            now_ms >= 0,
        ensures
            final(self).wf(),
            final(self).last_ping_response_ms is None,
            match old(self).last_ping_response_ms {
                None => r == KeepaliveAction::SendPing,
                Some(t) => r == if now_ms - t > HANG_TIMEOUT_MS {
                    KeepaliveAction::Hung
                } else {
                    KeepaliveAction::Nothing
                },
            },
    {
        match self.last_ping_response_ms {
            None => KeepaliveAction::SendPing,
            Some(t) => {
                self.last_ping_response_ms = None;
                if now_ms - t > HANG_TIMEOUT_MS {
                    KeepaliveAction::Hung
                } else {
                    KeepaliveAction::Nothing
                }
            },
        }
    }
}

/// What `connect` observed while waiting on the one-shot handshake channel.
pub enum HandshakeWait {
    /// The pump task fulfilled the channel: the HELLO exchange completed.
    Completed,
    /// The channel was dropped without a response.
    ChannelClosed,
    /// The caller-supplied timeout elapsed first.
    TimedOut,
}

/// Turns what `connect` observed into its result: only a completed
/// handshake yields a session; the two failure modes stay distinct.
pub fn handshake_result(w: HandshakeWait) -> (r: Result<(), Error>)
    ensures
        match w {
            HandshakeWait::Completed => r is Ok,
            HandshakeWait::TimedOut => r matches Err(e) && e is HandshakeTimeout,
            HandshakeWait::ChannelClosed => r matches Err(e) && e is HandshakeChannelClosed,
        },
{
    match w {
        HandshakeWait::Completed => Ok(()),
        HandshakeWait::TimedOut => Err(Error::HandshakeTimeout),
        HandshakeWait::ChannelClosed => Err(Error::HandshakeChannelClosed),
    }
}

/// Options of a WebSocket session: the client's preferred modes and how
/// long `connect` waits for the server's HELLO response.
#[derive(Clone, Copy, Debug, PartialEq, Eq, Structural)]
pub struct WsBackendOpts {
    pub binary: bool,
    pub compression: bool,
    /// How long to wait for the server's HELLO response, in milliseconds.
    pub hello_timeout_ms: u64,
}

impl Default for WsBackendOpts {
    /// Text frames, no compression, a ten-second handshake timeout.
    fn default() -> (r: Self)
        ensures
            !r.binary,
            !r.compression,
            r.hello_timeout_ms == 10000,
    {
        WsBackendOpts { binary: false, compression: false, hello_timeout_ms: 10000 }
    }
}

} // verus!

verus! {

/// How many handshake fulfilments one action batch holds.
pub open spec fn hello_count(acts: Seq<Action>) -> int
    decreases acts.len(),
{
    if acts.len() == 0 {
        0
    } else {
        (if acts[0] is HelloOk {
            1int
        } else {
            0int
        }) + hello_count(acts.drop_first())
    }
}

/// How many handshake fulfilments a run's batches hold in all.
pub open spec fn total_hello(batches: Seq<Seq<Action>>) -> int
    decreases batches.len(),
{
    if batches.len() == 0 {
        0
    } else {
        hello_count(batches[0]) + total_hello(batches.drop_first())
    }
}

proof fn lemma_hello_count_zero(acts: Seq<Action>)
    requires
        forall|k: int| 0 <= k < acts.len() ==> !((#[trigger] acts[k]) is HelloOk),
    ensures
        hello_count(acts) == 0,
    decreases acts.len(),
{
    if acts.len() != 0 {
        assert(forall|k: int|
            0 <= k < acts.drop_first().len() ==> #[trigger] acts.drop_first()[k] == acts[k + 1]);
        lemma_hello_count_zero(acts.drop_first());
    }
}

proof fn lemma_hello_count_single(acts: Seq<Action>)
    requires
        acts.len() == 1,
    ensures
        hello_count(acts) == if acts[0] is HelloOk {
            1int
        } else {
            0int
        },
{
    lemma_hello_count_zero(acts.drop_first());
}

/// The dispatch rules fulfil the handshake at most once, and only when the
/// flag was not yet set.
proof fn lemma_dispatch_hello(
    pre: SessionState,
    raw: JsonView,
    rv: crate::rpc::ResponseView,
    post: SessionState,
    acts: Seq<Action>,
)
    requires
        dispatch_post(pre, raw, rv, post, acts),
    ensures
        0 <= hello_count(acts) <= 1,
        hello_count(acts) == 1 ==> !pre.hello_done && post.hello_done,
        hello_count(acts) == 0 ==> post.hello_done == pre.hello_done,
{
    if is_ping_result(rv) {
        lemma_hello_count_single(acts);
    } else if is_sentinel(rv) {
        if acts.len() == 0 {
            assert(hello_count(acts) == 0);
        } else {
            lemma_hello_count_single(acts);
        }
    } else if rv.id is Some && pend_lookup(pend_views(pre.pending@), rv.id->0) is Some {
        lemma_hello_count_single(acts);
    } else if rv.result is Some && rv.result->0 is Arr {
        lemma_hello_count_zero(acts);
    } else {
        assert(hello_count(acts) == 0);
    }
}

/// The frame-handling rules fulfil the handshake at most once, and only
/// when the flag was not yet set.
proof fn lemma_frame_hello(pre: SessionState, post: SessionState, acts: Seq<Action>, parsed: Option<
    JsonView,
>, skipped: bool)
    requires
        skipped ==> state_same(pre, post) && acts.len() == 0,
        !skipped ==> match parsed {
            Some(v) => match crate::rpc::spec_response_of(v) {
                Some(rv) => dispatch_post(pre, v, rv, post, acts),
                None => state_same(pre, post) && is_stop_decode(acts),
            },
            None => state_same(pre, post) && is_stop_decode(acts),
        },
    ensures
        0 <= hello_count(acts) <= 1,
        hello_count(acts) == 1 ==> !pre.hello_done && post.hello_done,
        hello_count(acts) == 0 ==> post.hello_done == pre.hello_done,
{
    if skipped {
        assert(hello_count(acts) == 0);
    } else {
        match parsed {
            Some(v) => match crate::rpc::spec_response_of(v) {
                Some(rv) => {
                    lemma_dispatch_hello(pre, v, rv, post, acts);
                },
                None => {
                    lemma_hello_count_single(acts);
                },
            },
            None => {
                lemma_hello_count_single(acts);
            },
        }
    }
}

/// One pump step fulfils the handshake at most once; doing so flips the
/// session's flag, which no step ever clears again.
pub proof fn lemma_step_hello(
    pre: SessionState,
    event: SessionEvent,
    post: SessionState,
    acts: Seq<Action>,
)
    requires
        step_post(pre, event, post, acts),
    ensures
        0 <= hello_count(acts) <= 1,
        hello_count(acts) == 1 ==> !pre.hello_done && post.hello_done,
        hello_count(acts) == 0 ==> post.hello_done == pre.hello_done,
{
    match event {
        SessionEvent::Command(Command::Call { payload, handle }) => {
            lemma_hello_count_single(acts);
        },
        SessionEvent::Command(Command::Close) => {
            lemma_hello_count_single(acts);
        },
        SessionEvent::Frame(Frame::Text(s)) => {
            lemma_frame_hello(
                pre,
                post,
                acts,
                crate::json::json_of_text(s@),
                s@ == "pong!"@,
            );
        },
        SessionEvent::Frame(Frame::Binary(b)) => {
            lemma_frame_hello(
                pre,
                post,
                acts,
                crate::json::json_of_bytes(b@),
                b@ == pong_bytes(),
            );
        },
        SessionEvent::Frame(Frame::Ping) => {
            lemma_hello_count_single(acts);
        },
        SessionEvent::Frame(Frame::Close) => {
            lemma_hello_count_single(acts);
        },
        SessionEvent::Frame(Frame::Other) => {
            assert(hello_count(acts) == 0);
        },
    }
}

} // verus!

verus! {

/// Whether the first `n` steps of a run chain correctly: each step's
/// post-state is the next step's pre-state, and each satisfies `step_post`.
pub open spec fn run_ok(
    states: Seq<SessionState>,
    events: Seq<SessionEvent>,
    batches: Seq<Seq<Action>>,
) -> bool {
    &&& states.len() == events.len() + 1
    &&& batches.len() == events.len()
    &&& forall|k: int|
        0 <= k < events.len() ==> step_post(states[k], events[k], states[k + 1], batches[k])
}

proof fn lemma_run_shift(
    states: Seq<SessionState>,
    events: Seq<SessionEvent>,
    batches: Seq<Seq<Action>>,
)
    requires
        run_ok(states, events, batches),
        events.len() > 0,
    ensures
        run_ok(states.drop_first(), events.drop_first(), batches.drop_first()),
{
    let st = states.drop_first();
    let ev = events.drop_first();
    let ba = batches.drop_first();
    assert forall|k: int|
        0 <= k < ev.len() implies step_post(st[k], ev[k], st[k + 1], ba[k]) by {
        assert(st[k] == states[k + 1]);
        assert(ev[k] == events[k + 1]);
        assert(st[k + 1] == states[k + 2]);
        assert(ba[k] == batches[k + 1]);
        assert(step_post(states[k + 1], events[k + 1], states[k + 2], batches[k + 1]));
    }
}

proof fn lemma_hello_none_after_done(
    states: Seq<SessionState>,
    events: Seq<SessionEvent>,
    batches: Seq<Seq<Action>>,
)
    requires
        run_ok(states, events, batches),
        states[0].hello_done,
    ensures
        total_hello(batches) == 0,
    decreases events.len(),
{
    if events.len() != 0 {
        assert(step_post(states[0], events[0], states[1], batches[0]));
        lemma_step_hello(states[0], events[0], states[1], batches[0]);
        assert(hello_count(batches[0]) == 0);
        assert(states[1].hello_done);
        lemma_run_shift(states, events, batches);
        assert(states.drop_first()[0] == states[1]);
        lemma_hello_none_after_done(states.drop_first(), events.drop_first(), batches.drop_first());
    }
}

/// For any connection, HELLO is exchanged at most once: over any run of
/// pump steps from a state where the handshake is not yet complete, the
/// handshake channel is fulfilled at most once — a second frame shaped like
/// a HELLO response does not re-fulfil it.
pub proof fn lemma_hello_exchanged_at_most_once(
    states: Seq<SessionState>,
    events: Seq<SessionEvent>,
    batches: Seq<Seq<Action>>,
)
    requires
        run_ok(states, events, batches),
        !states[0].hello_done,
    ensures
        total_hello(batches) <= 1,
    decreases events.len(),
{
    if events.len() != 0 {
        assert(step_post(states[0], events[0], states[1], batches[0]));
        lemma_step_hello(states[0], events[0], states[1], batches[0]);
        lemma_run_shift(states, events, batches);
        assert(states.drop_first()[0] == states[1]);
        if hello_count(batches[0]) == 1 {
            assert(states[1].hello_done);
            lemma_hello_none_after_done(
                states.drop_first(),
                events.drop_first(),
                batches.drop_first(),
            );
        } else {
            assert(states[1].hello_done == states[0].hello_done);
            lemma_hello_exchanged_at_most_once(
                states.drop_first(),
                events.drop_first(),
                batches.drop_first(),
            );
        }
    }
}

/// The request identifier one step issues, if any: only a call that found
/// the counter unexhausted issues one.
pub open spec fn issued_id(pre: SessionState, event: SessionEvent) -> Option<i32> {
    match event {
        SessionEvent::Command(Command::Call { payload, handle }) => if pre.next_id < i32::MAX {
            Some(pre.next_id)
        } else {
            None
        },
        _ => None,
    }
}

/// One step never lowers the identifier counter; issuing an identifier
/// hands out exactly the counter's value and moves it past that value.
pub proof fn lemma_step_next_id(
    pre: SessionState,
    event: SessionEvent,
    post: SessionState,
    acts: Seq<Action>,
)
    requires
        step_post(pre, event, post, acts),
    ensures
        post.next_id >= pre.next_id,
        issued_id(pre, event) matches Some(i) ==> i == pre.next_id && post.next_id == i + 1,
        issued_id(pre, event) is None ==> post.next_id == pre.next_id,
{
    match event {
        SessionEvent::Command(Command::Call { payload, handle }) => {},
        SessionEvent::Command(Command::Close) => {},
        SessionEvent::Frame(Frame::Text(s)) => {
            if s@ == "pong!"@ {
            } else {
                match crate::json::json_of_text(s@) {
                    Some(v) => match crate::rpc::spec_response_of(v) {
                        Some(rv) => {
                            assert(dispatch_post(pre, v, rv, post, acts));
                        },
                        None => {},
                    },
                    None => {},
                }
            }
        },
        SessionEvent::Frame(Frame::Binary(b)) => {
            if b@ == pong_bytes() {
            } else {
                match crate::json::json_of_bytes(b@) {
                    Some(v) => match crate::rpc::spec_response_of(v) {
                        Some(rv) => {
                            assert(dispatch_post(pre, v, rv, post, acts));
                        },
                        None => {},
                    },
                    None => {},
                }
            }
        },
        SessionEvent::Frame(Frame::Ping) => {},
        SessionEvent::Frame(Frame::Close) => {},
        SessionEvent::Frame(Frame::Other) => {},
    }
}

proof fn lemma_next_id_monotone(
    states: Seq<SessionState>,
    events: Seq<SessionEvent>,
    batches: Seq<Seq<Action>>,
    a: int,
    b: int,
)
    requires
        run_ok(states, events, batches),
        0 <= a <= b <= events.len(),
    ensures
        states[b].next_id >= states[a].next_id,
    decreases b - a,
{
    if a < b {
        assert(step_post(states[b - 1], events[b - 1], states[b], batches[b - 1]));
        lemma_step_next_id(states[b - 1], events[b - 1], states[b], batches[b - 1]);
        lemma_next_id_monotone(states, events, batches, a, b - 1);
    }
}

/// Request identifiers issued on one connection are strictly increasing
/// integers starting at 1, and never equal the HELLO sentinel: over any run
/// from a well-formed state, an identifier issued at an earlier step is
/// strictly below one issued at a later step, and every issued identifier
/// is at least 1.
pub proof fn lemma_ids_strictly_increase(
    states: Seq<SessionState>,
    events: Seq<SessionEvent>,
    batches: Seq<Seq<Action>>,
    k: int,
    l: int,
)
    requires
        run_ok(states, events, batches),
        forall|j: int| 0 <= j < states.len() ==> (#[trigger] states[j]).wf(),
        0 <= k < l < events.len(),
        issued_id(states[k], events[k]) is Some,
        issued_id(states[l], events[l]) is Some,
    ensures
        1 <= issued_id(states[k], events[k])->0 < issued_id(states[l], events[l])->0,
        issued_id(states[k], events[k])->0 != HELLO_SENTINEL,
        issued_id(states[l], events[l])->0 != HELLO_SENTINEL,
{
    let i = issued_id(states[k], events[k])->0;
    let j = issued_id(states[l], events[l])->0;
    assert(step_post(states[k], events[k], states[k + 1], batches[k]));
    lemma_step_next_id(states[k], events[k], states[k + 1], batches[k]);
    assert(states[k].wf());
    assert(i >= 1);
    lemma_next_id_monotone(states, events, batches, k + 1, l);
    assert(states[l].next_id >= i + 1);
}

proof fn lemma_next_id_constant_without_issue(
    states: Seq<SessionState>,
    events: Seq<SessionEvent>,
    batches: Seq<Seq<Action>>,
    k: int,
)
    requires
        run_ok(states, events, batches),
        0 <= k <= events.len(),
        forall|j: int| 0 <= j < k ==> issued_id(states[j], #[trigger] events[j]) is None,
    ensures
        states[k].next_id == states[0].next_id,
    decreases k,
{
    if k > 0 {
        lemma_next_id_constant_without_issue(states, events, batches, k - 1);
        assert(step_post(states[k - 1], events[k - 1], states[k], batches[k - 1]));
        lemma_step_next_id(states[k - 1], events[k - 1], states[k], batches[k - 1]);
    }
}

/// Request identifiers start at 1: on a fresh session, the first call that
/// issues an identifier issues exactly 1.
pub proof fn lemma_first_id_is_one(
    states: Seq<SessionState>,
    events: Seq<SessionEvent>,
    batches: Seq<Seq<Action>>,
    k: int,
)
    requires
        run_ok(states, events, batches),
        states[0].next_id == 1,
        0 <= k < events.len(),
        forall|j: int| 0 <= j < k ==> issued_id(states[j], #[trigger] events[j]) is None,
        issued_id(states[k], events[k]) is Some,
    ensures
        issued_id(states[k], events[k]) == Some(1i32),
{
    lemma_next_id_constant_without_issue(states, events, batches, k);
}

/// Given N concurrent calls answered in any order, each caller receives
/// exactly the reply bearing its own request identifier: a response whose
/// identifier is registered at entry `k` of the correlation table is
/// delivered to that entry's handle alone, with that response's own
/// result or error, and the entry is then gone.
pub proof fn lemma_no_cross_talk(
    pre: SessionState,
    raw: JsonView,
    rv: crate::rpc::ResponseView,
    post: SessionState,
    acts: Seq<Action>,
    k: int,
)
    requires
        pre.wf(),
        dispatch_post(pre, raw, rv, post, acts),
        !is_ping_result(rv),
        !is_sentinel(rv),
        rv.id is Some,
        0 <= k < pend_views(pre.pending@).len(),
        pend_views(pre.pending@)[k].0 == rv.id->0,
    ensures
        acts.len() == 1,
        acts[0] matches Action::Reply { handle, reply } && handle == pend_views(
            pre.pending@,
        )[k].1 && (match rv.error {
            Some(e) => reply matches Err(st) && st@ == e,
            None => reply matches Ok(ok) && ok@ == crate::rpc::spec_ok_of(rv),
        }),
        pend_views(post.pending@) == pend_remove(pend_views(pre.pending@), rv.id->0),
{
    broadcast use group_pend_views;

    let p = pend_views(pre.pending@);
    let id = rv.id->0;
    lemma_pend_views_len(pre.pending@);
    assert forall|j: int| 0 <= j < k implies #[trigger] p[j].0 != id by {
        assert(p[j].0 != p[k].0);
    }
    lemma_pend_remove_at(p, id, k);
    assert(pend_lookup(p, id) == Some(p[k].1));
}

} // verus!
