//! Subscriptions and live queries over the session's broadcast channel:
//! filtering raw pushed transactions by document class, surfacing lag
//! explicitly, and the fetch-then-stream composition of a live query.

use vstd::prelude::*;

use crate::Error;
use crate::json::{JsonVal, JsonView, spec_get};

verus! {

/// The class tag of a document-creating transaction.
pub open spec fn create_class() -> Seq<char> {
    "core:class:TxCreateDoc"@
}

/// The class tag of a document-updating transaction.
pub open spec fn update_class() -> Seq<char> {
    "core:class:TxUpdateDoc"@
}

/// The class tag of a document-removing transaction.
pub open spec fn remove_class() -> Seq<char> {
    "core:class:TxRemoveDoc"@
}

/// Whether a raw transaction creates a document of `class`.
pub open spec fn matches_create(v: JsonView, class: Seq<char>) -> bool {
    &&& spec_get(v, "_class"@) == Some(JsonView::Str(create_class()))
    &&& spec_get(v, "objectClass"@) == Some(JsonView::Str(class))
}

/// Whether a raw transaction updates a document of `class`.
pub open spec fn matches_update(v: JsonView, class: Seq<char>) -> bool {
    &&& spec_get(v, "_class"@) == Some(JsonView::Str(update_class()))
    &&& spec_get(v, "objectClass"@) == Some(JsonView::Str(class))
}

/// Whether a raw transaction removes a document of `class`.
pub open spec fn matches_remove(v: JsonView, class: Seq<char>) -> bool {
    &&& spec_get(v, "_class"@) == Some(JsonView::Str(remove_class()))
    &&& spec_get(v, "objectClass"@) == Some(JsonView::Str(class))
}

/// Whether the field under `key` is the JSON string `s`.
fn field_is_str(v: &JsonVal, key: &str, s: &str) -> (r: bool)
    ensures
        r == (spec_get(v@, key@) == Some(JsonView::Str(s@))),
{
    match v.get(key) {
        Some(x) => x.str_is(s),
        None => false,
    }
}

/// A change event for one document class, carrying the raw transaction
/// payload (opaque to the core).
pub enum TxEvent {
    /// A document was created; the transaction carries its attributes.
    Created(JsonVal),
    /// A document was updated; the transaction carries partial operations.
    Updated(JsonVal),
    /// A document was deleted; the transaction names its identifier.
    Deleted(JsonVal),
}

impl View for TxEvent {
    type V = TxEventView;

    open spec fn view(&self) -> TxEventView {
        match self {
            TxEvent::Created(v) => TxEventView::Created(v@),
            TxEvent::Updated(v) => TxEventView::Updated(v@),
            TxEvent::Deleted(v) => TxEventView::Deleted(v@),
        }
    }
}

/// The mathematical shape of a change event.
pub enum TxEventView {
    Created(JsonView),
    Updated(JsonView),
    Deleted(JsonView),
}

/// The outcome of awaiting the next broadcast item.
pub enum BroadcastRecv {
    /// The next raw pushed transaction.
    Item(JsonVal),
    /// This consumer was too slow: the channel dropped this many items.
    Lagged(u64),
    /// The channel closed: the session is gone.
    Closed,
}

/// What one poll of a subscription produces.
pub enum SubStep {
    /// Emit this event to the consumer.
    Emit(TxEvent),
    /// Surface the lag to the consumer as an explicit error item, never a
    /// silent skip.
    LagError,
    /// The item does not concern this class: emit nothing and poll again.
    Skip,
    /// The stream ends.
    End,
}

/// A subscription to the pushed transactions of one document class.
pub struct SubscribedQuery {
    /// The class whose create, update and remove transactions are kept.
    pub class: String,
}

/// What classifying one broadcast outcome yields: lag becomes exactly one
/// explicit error item; a closed channel ends the stream; a raw item is
/// kept only when its class matches, as the matching event kind.
pub open spec fn sub_step_post(class: Seq<char>, recv: BroadcastRecv, r: SubStep) -> bool {
    match recv {
        BroadcastRecv::Lagged(_) => r is LagError,
        BroadcastRecv::Closed => r is End,
        BroadcastRecv::Item(v) => {
            if matches_create(v@, class) {
                r matches SubStep::Emit(e) && e@ == TxEventView::Created(v@)
            } else if matches_update(v@, class) {
                r matches SubStep::Emit(e) && e@ == TxEventView::Updated(v@)
            } else if matches_remove(v@, class) {
                r matches SubStep::Emit(e) && e@ == TxEventView::Deleted(v@)
            } else {
                r is Skip
            }
        },
    }
}

impl SubscribedQuery {
    /// A subscription scoped to one document class.
    pub fn new(class: String) -> (r: SubscribedQuery)
        ensures
            r.class@ == class@,
    {
        SubscribedQuery { class }
    }

    /// Classifies one broadcast outcome against this subscription's class.
    pub fn poll_step(&self, recv: BroadcastRecv) -> (r: SubStep)
        ensures
            sub_step_post(self.class@, recv, r),
    {
        match recv {
            BroadcastRecv::Lagged(_) => SubStep::LagError,
            BroadcastRecv::Closed => SubStep::End,
            BroadcastRecv::Item(v) => {
                if field_is_str(&v, "_class", "core:class:TxCreateDoc") && field_is_str(
                    &v,
                    "objectClass",
                    self.class.as_str(),
                ) {
                    SubStep::Emit(TxEvent::Created(v))
                } else if field_is_str(&v, "_class", "core:class:TxUpdateDoc") && field_is_str(
                    &v,
                    "objectClass",
                    self.class.as_str(),
                ) {
                    SubStep::Emit(TxEvent::Updated(v))
                } else if field_is_str(&v, "_class", "core:class:TxRemoveDoc") && field_is_str(
                    &v,
                    "objectClass",
                    self.class.as_str(),
                ) {
                    SubStep::Emit(TxEvent::Deleted(v))
                } else {
                    SubStep::Skip
                }
            },
        }
    }
}

/// One item of a live query: the initial snapshot, then incremental events.
pub enum LiveQueryEvent {
    /// The full snapshot of the class, fetched once at the start.
    Initial(Vec<JsonVal>),
    /// One incremental change after the snapshot.
    Polled(TxEvent),
}

/// Where a live query stands.
pub enum LiveQueryPhase {
    /// The initial fetch has not completed yet.
    AwaitingInitial,
    /// The snapshot (or its failure) was delivered; events flow.
    Streaming,
    /// The broadcast channel closed; nothing more comes.
    Ended,
}

/// What the shell feeds a live query: the result of the one initial fetch,
/// or the next broadcast outcome.
pub enum LiveQueryInput {
    Fetched(Result<Vec<JsonVal>, Error>),
    Sub(BroadcastRecv),
}

/// A live query over one document class: one initial snapshot fetch, then
/// the unbounded subscription stream.
pub struct LiveQuery {
    pub sub: SubscribedQuery,
    pub phase: LiveQueryPhase,
}

/// What one live-query step yields. The snapshot (or the fetch's error)
/// comes first and exactly once; only then do `Polled` events flow; lag is
/// an explicit error item; a closed channel ends the query.
pub open spec fn live_step_post(
    pre_phase: LiveQueryPhase,
    class: Seq<char>,
    input: LiveQueryInput,
    post_phase: LiveQueryPhase,
    out: Option<Result<LiveQueryEvent, Error>>,
) -> bool {
    match input {
        LiveQueryInput::Fetched(fetch) => {
            &&& post_phase is Streaming
            &&& match fetch {
                Ok(docs) => out matches Some(o) && o matches Ok(e) && e matches
                    LiveQueryEvent::Initial(d) && d@ == docs@,
                Err(_) => out matches Some(o) && o is Err,
            }
        },
        LiveQueryInput::Sub(recv) => {
            match recv {
                BroadcastRecv::Lagged(_) => {
                    &&& post_phase is Streaming
                    &&& out matches Some(o) && o matches Err(e) && e is SubscriptionLagged
                },
                BroadcastRecv::Closed => post_phase is Ended && out is None,
                BroadcastRecv::Item(v) => {
                    &&& post_phase is Streaming
                    &&& if matches_create(v@, class) {
                        out matches Some(o) && o matches Ok(e) && e matches LiveQueryEvent::Polled(
                            t,
                        ) && t@ == TxEventView::Created(v@)
                    } else if matches_update(v@, class) {
                        out matches Some(o) && o matches Ok(e) && e matches LiveQueryEvent::Polled(
                            t,
                        ) && t@ == TxEventView::Updated(v@)
                    } else if matches_remove(v@, class) {
                        out matches Some(o) && o matches Ok(e) && e matches LiveQueryEvent::Polled(
                            t,
                        ) && t@ == TxEventView::Deleted(v@)
                    } else {
                        out is None
                    }
                },
            }
        },
    }
}

impl LiveQuery {
    /// A live query over `class`, awaiting its initial snapshot.
    pub fn new(class: String) -> (r: LiveQuery)
        ensures
            r.sub.class@ == class@,
            r.phase is AwaitingInitial,
    {
        LiveQuery { sub: SubscribedQuery::new(class), phase: LiveQueryPhase::AwaitingInitial }
    }

    /// One step of the live query. The shell feeds the initial fetch result
    /// exactly while the query awaits it, and broadcast outcomes afterwards;
    /// `None` means "nothing to emit, poll again" (or, after `Closed`, the
    /// end of the stream).
    pub fn step(&mut self, input: LiveQueryInput) -> (out: Option<Result<LiveQueryEvent, Error>>)
        requires
            old(self).phase is AwaitingInitial <==> input is Fetched,
            !(old(self).phase is Ended),
        ensures
            final(self).sub.class@ == old(self).sub.class@,
            live_step_post(old(self).phase, old(self).sub.class@, input, final(self).phase, out),
    {
        match input {
            LiveQueryInput::Fetched(fetch) => {
                self.phase = LiveQueryPhase::Streaming;
                match fetch {
                    Ok(docs) => Some(Ok(LiveQueryEvent::Initial(docs))),
                    Err(e) => Some(Err(e)),
                }
            },
            LiveQueryInput::Sub(recv) => {
                match self.sub.poll_step(recv) {
                    SubStep::Emit(e) => Some(Ok(LiveQueryEvent::Polled(e))),
                    SubStep::LagError => Some(Err(Error::SubscriptionLagged)),
                    SubStep::Skip => None,
                    SubStep::End => {
                        self.phase = LiveQueryPhase::Ended;
                        None
                    },
                }
            },
        }
    }
}

/// Whether an emitted live-query item is a `Polled` event.
pub open spec fn is_polled_out(out: Option<Result<LiveQueryEvent, Error>>) -> bool {
    out matches Some(o) && o matches Ok(e) && e is Polled
}

/// Whether an emitted live-query item delivers the initial fetch: the
/// snapshot, or the fetch's error.
pub open spec fn is_initial_out(
    input: LiveQueryInput,
    out: Option<Result<LiveQueryEvent, Error>>,
) -> bool {
    input is Fetched && out is Some
}

/// A live query delivers its snapshot before any incremental event: over
/// any run of steps from the awaiting phase, an emitted `Polled` item is
/// preceded by the step that delivered the initial fetch.
pub proof fn lemma_initial_before_polled(
    phases: Seq<LiveQueryPhase>,
    class: Seq<char>,
    inputs: Seq<LiveQueryInput>,
    outs: Seq<Option<Result<LiveQueryEvent, Error>>>,
    k: int,
)
    requires
        phases.len() == inputs.len() + 1,
        outs.len() == inputs.len(),
        phases[0] is AwaitingInitial,
        forall|j: int|
            0 <= j < inputs.len() ==> live_step_post(
                phases[j],
                class,
                inputs[j],
                phases[j + 1],
                outs[j],
            ),
        forall|j: int|
            0 <= j < inputs.len() ==> ((#[trigger] phases[j]) is AwaitingInitial <==> inputs[j]
                is Fetched),
        0 <= k < inputs.len(),
        is_polled_out(outs[k]),
    ensures
        exists|j: int| 0 <= j < k && #[trigger] is_initial_out(inputs[j], outs[j]),
    decreases k,
{
    assert(live_step_post(phases[0], class, inputs[0], phases[1], outs[0]));
    assert(inputs[0] is Fetched);
    if k == 0 {
        assert(!is_polled_out(outs[0]));
    } else {
        assert(is_initial_out(inputs[0], outs[0]));
    }
}

} // verus!

verus! {

/// Whether `key` is one of the lookup-metadata keys a find may attach to a
/// document.
pub open spec fn is_meta_key(key: Seq<char>) -> bool {
    ||| key == "$lookup"@
    ||| key == "$associations"@
    ||| key == "$source"@
}

/// The document's fields with the lookup metadata filtered out.
pub open spec fn spec_strip_meta(fields: Seq<(Seq<char>, crate::json::JsonView)>) -> Seq<
    (Seq<char>, crate::json::JsonView),
>
    decreases fields.len(),
{
    if fields.len() == 0 {
        fields
    } else if is_meta_key(fields[0].0) {
        spec_strip_meta(fields.drop_first())
    } else {
        seq![fields[0]] + spec_strip_meta(fields.drop_first())
    }
}

/// Whether `key` is a lookup-metadata key.
fn meta_key(key: &str) -> (r: bool)
    ensures
        r == is_meta_key(key@),
{
    crate::json::str_eq(key, "$lookup") || crate::json::str_eq(key, "$associations")
        || crate::json::str_eq(key, "$source")
}

/// Stripping one more field from the right.
proof fn lemma_strip_meta_snoc(
    fields: Seq<(Seq<char>, crate::json::JsonView)>,
    f: (Seq<char>, crate::json::JsonView),
)
    ensures
        spec_strip_meta(fields.push(f)) == if is_meta_key(f.0) {
            spec_strip_meta(fields)
        } else {
            spec_strip_meta(fields).push(f)
        },
    decreases fields.len(),
{
    let q2 = fields.push(f);
    assert(q2.len() == fields.len() + 1);
    if fields.len() == 0 {
        assert(q2[0] == f);
        assert(q2.drop_first() =~= Seq::<(Seq<char>, crate::json::JsonView)>::empty());
        if !is_meta_key(f.0) {
            assert(seq![f] + spec_strip_meta(q2.drop_first()) =~= spec_strip_meta(
                fields,
            ).push(f));
        }
    } else {
        assert(q2[0] == fields[0]);
        assert(q2.drop_first() =~= fields.drop_first().push(f));
        lemma_strip_meta_snoc(fields.drop_first(), f);
        if !is_meta_key(fields[0].0) && !is_meta_key(f.0) {
            assert(seq![fields[0]] + spec_strip_meta(fields.drop_first()).push(f)
                =~= (seq![fields[0]] + spec_strip_meta(fields.drop_first())).push(f));
        }
    }
}

/// The document with its lookup metadata removed; anything that is not an
/// object is kept as it is.
pub open spec fn spec_strip_value(v: crate::json::JsonView) -> crate::json::JsonView {
    match v {
        crate::json::JsonView::Obj(fields) => crate::json::JsonView::Obj(
            spec_strip_meta(fields),
        ),
        _ => v,
    }
}

/// Removes the lookup metadata from a document.
pub fn strip_meta(v: &JsonVal) -> (r: JsonVal)
    ensures
        r@ == spec_strip_value(v@),
{
    broadcast use crate::json::group_json_views;

    let fields = match v {
        JsonVal::Obj(f) => f,
        _ => {
            return v.clone_val();
        },
    };
    proof {
        assert(v@ is Obj);
    }
    let ghost fs = crate::json::obj_views(fields@);
    let mut out: Vec<(String, JsonVal)> = Vec::new();
    let n = fields.len();
    proof {
        assert(fs.take(0) =~= Seq::<(Seq<char>, crate::json::JsonView)>::empty());
    }
    for i in 0..n
        invariant
            n == fields.len(),
            fs == crate::json::obj_views(fields@),
            fs.len() == n,
            forall|j: int| 0 <= j < n ==> fs[j] == (fields@[j].0@, fields@[j].1@),
            crate::json::obj_views(out@) == spec_strip_meta(fs.take(i as int)),
    {
        let ghost pre = out@;
        if !meta_key(fields[i].0.as_str()) {
            let k = fields[i].0.clone();
            let val = fields[i].1.clone_val();
            out.push((k, val));
            proof {
                crate::json::lemma_obj_views_len(out@);
                crate::json::lemma_obj_views_len(pre);
                assert forall|j: int|
                    0 <= j < out@.len() implies crate::json::obj_views(out@)[j]
                    == crate::json::obj_views(pre).push((fs[i as int].0, fs[i as int].1))[j] by {
                    crate::json::lemma_obj_views_index(out@, j);
                    if j < pre.len() {
                        crate::json::lemma_obj_views_index(pre, j);
                    }
                }
                assert(crate::json::obj_views(out@) =~= crate::json::obj_views(pre).push(
                    (fs[i as int].0, fs[i as int].1),
                ));
            }
        }
        proof {
            lemma_strip_meta_snoc(fs.take(i as int), fs[i as int]);
            assert(fs.take(i + 1) =~= fs.take(i as int).push(fs[i as int]));
        }
    }
    proof {
        assert(fs.take(n as int) =~= fs);
    }
    let r = JsonVal::Obj(out);
    proof {
        assert(r@ is Obj);
    }
    r
}

impl TxEvent {
    /// This event with the lookup metadata stripped from its payload.
    pub fn strip_lookup(self) -> (r: TxEvent)
        ensures
            match self@ {
                TxEventView::Created(v) => r@ == TxEventView::Created(spec_strip_value(v)),
                TxEventView::Updated(v) => r@ == TxEventView::Updated(spec_strip_value(v)),
                TxEventView::Deleted(v) => r@ == TxEventView::Deleted(spec_strip_value(v)),
            },
    {
        match self {
            TxEvent::Created(v) => TxEvent::Created(strip_meta(&v)),
            TxEvent::Updated(v) => TxEvent::Updated(strip_meta(&v)),
            TxEvent::Deleted(v) => TxEvent::Deleted(strip_meta(&v)),
        }
    }
}

impl LiveQueryEvent {
    /// This item with the lookup metadata stripped from every document.
    pub fn strip_lookup(self) -> (r: LiveQueryEvent)
        ensures
            match self {
                LiveQueryEvent::Initial(docs) => r matches LiveQueryEvent::Initial(out)
                    && out@.len() == docs@.len() && (forall|j: int|
                    0 <= j < docs@.len() ==> #[trigger] out@[j]@ == spec_strip_value(docs@[j]@)),
                LiveQueryEvent::Polled(e) => r matches LiveQueryEvent::Polled(e2) && (match e@ {
                    TxEventView::Created(v) => e2@ == TxEventView::Created(spec_strip_value(v)),
                    TxEventView::Updated(v) => e2@ == TxEventView::Updated(spec_strip_value(v)),
                    TxEventView::Deleted(v) => e2@ == TxEventView::Deleted(spec_strip_value(v)),
                }),
            },
    {
        match self {
            LiveQueryEvent::Initial(docs) => {
                let mut out: Vec<JsonVal> = Vec::new();
                let n = docs.len();
                for i in 0..n
                    invariant
                        n == docs.len(),
                        out@.len() == i,
                        forall|j: int|
                            0 <= j < i ==> #[trigger] out@[j]@ == spec_strip_value(docs@[j]@),
                {
                    let stripped = strip_meta(&docs[i]);
                    out.push(stripped);
                }
                LiveQueryEvent::Initial(out)
            },
            LiveQueryEvent::Polled(e) => LiveQueryEvent::Polled(e.strip_lookup()),
        }
    }
}

} // verus!
