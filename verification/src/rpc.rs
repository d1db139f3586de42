//! The RPC envelope: request IDs, request and response shapes, the structured
//! service error, and the exact correspondence between those shapes and their
//! JSON form on the wire.

use vstd::prelude::*;

use crate::json::{
    JsonVal, JsonView, arr_views, group_json_views, obj_lookup, obj_views, spec_get, str_eq,
};

verus! {

/// A request identifier: the string and integer domains are distinct (the
/// string "1" is not the integer 1).
#[derive(Debug)]
pub enum ReqId {
    Str(String),
    Num(i32),
}

/// The mathematical shape of a request identifier.
pub enum ReqIdView {
    Str(Seq<char>),
    Num(i32),
}

impl View for ReqId {
    type V = ReqIdView;

    open spec fn view(&self) -> ReqIdView {
        match self {
            ReqId::Str(s) => ReqIdView::Str(s@),
            ReqId::Num(i) => ReqIdView::Num(*i),
        }
    }
}

impl PartialEq for ReqId {
    fn eq(&self, other: &Self) -> (r: bool) {
        match (self, other) {
            (ReqId::Str(a), ReqId::Str(b)) => *a == *b,
            (ReqId::Num(a), ReqId::Num(b)) => *a == *b,
            _ => false,
        }
    }
}

impl Eq for ReqId {

}

impl vstd::std_specs::cmp::PartialEqSpecImpl for ReqId {
    open spec fn obeys_eq_spec() -> bool {
        true
    }

    open spec fn eq_spec(&self, other: &Self) -> bool {
        self@ == other@
    }
}

impl ReqId {
    /// A structurally equal copy of this identifier.
    pub fn clone_id(&self) -> (r: ReqId)
        ensures
            r@ == self@,
    {
        match self {
            ReqId::Str(s) => ReqId::Str(s.clone()),
            ReqId::Num(i) => ReqId::Num(*i),
        }
    }

    /// The JSON form of this identifier.
    pub fn to_json(&self) -> (r: JsonVal)
        ensures
            r@ == spec_req_id_json(self@),
    {
        match self {
            ReqId::Str(s) => JsonVal::Str(s.clone()),
            ReqId::Num(i) => JsonVal::Int(*i as i64),
        }
    }
}

/// The JSON form of a request identifier.
pub open spec fn spec_req_id_json(id: ReqIdView) -> JsonView {
    match id {
        ReqIdView::Str(s) => JsonView::Str(s),
        ReqIdView::Num(i) => JsonView::Int(i as i64),
    }
}

/// The request identifier a JSON value denotes: a string, or an integer in
/// the `i32` range; anything else is not an identifier.
pub open spec fn spec_req_id_of(v: JsonView) -> Option<ReqIdView> {
    match v {
        JsonView::Str(s) => Some(ReqIdView::Str(s)),
        JsonView::Int(i) => if i32::MIN <= i <= i32::MAX {
            Some(ReqIdView::Num(i as i32))
        } else {
            None
        },
        _ => None,
    }
}

/// Reads a request identifier out of a JSON value.
pub fn req_id_of_json(v: &JsonVal) -> (r: Option<ReqId>)
    ensures
        match spec_req_id_of(v@) {
            Some(idv) => r matches Some(id) && id@ == idv,
            None => r is None,
        },
{
    match v {
        JsonVal::Str(s) => Some(ReqId::Str(s.clone())),
        JsonVal::Int(i) => {
            if i32::MIN as i64 <= *i && *i <= i32::MAX as i64 {
                Some(ReqId::Num(*i as i32))
            } else {
                None
            }
        },
        _ => None,
    }
}

/// The severity of a structured service error.
#[derive(Clone, Copy, Debug, PartialEq, Eq, Structural)]
pub enum Severity {
    Okay,
    Info,
    Warning,
    Error,
}

/// The severity a JSON value denotes.
pub open spec fn spec_severity_of(v: JsonView) -> Option<Severity> {
    if v == JsonView::Str("OK"@) {
        Some(Severity::Okay)
    } else if v == JsonView::Str("INFO"@) {
        Some(Severity::Info)
    } else if v == JsonView::Str("WARNING"@) {
        Some(Severity::Warning)
    } else if v == JsonView::Str("ERROR"@) {
        Some(Severity::Error)
    } else {
        None
    }
}

/// Reads a severity out of a JSON value.
pub fn severity_of_json(v: &JsonVal) -> (r: Option<Severity>)
    ensures
        r == spec_severity_of(v@),
{
    if v.str_is("OK") {
        Some(Severity::Okay)
    } else if v.str_is("INFO") {
        Some(Severity::Info)
    } else if v.str_is("WARNING") {
        Some(Severity::Warning)
    } else if v.str_is("ERROR") {
        Some(Severity::Error)
    } else {
        None
    }
}

/// A structured error returned by the server: severity, a code, and a
/// string-keyed parameter map.
#[derive(Debug)]
pub struct Status {
    pub severity: Severity,
    pub code: String,
    pub params: Vec<(String, String)>,
}

/// The mathematical shape of a structured service error.
pub struct StatusView {
    pub severity: Severity,
    pub code: Seq<char>,
    pub params: Seq<(Seq<char>, Seq<char>)>,
}

/// The shapes of a list of string pairs.
pub open spec fn str_pairs_views(s: Seq<(String, String)>) -> Seq<(Seq<char>, Seq<char>)>
    decreases s,
{
    if s.len() == 0 {
        Seq::empty()
    } else {
        seq![(s[0].0@, s[0].1@)] + str_pairs_views(s.drop_first())
    }
}

pub broadcast proof fn lemma_str_pairs_views_len(s: Seq<(String, String)>)
    ensures
        (#[trigger] str_pairs_views(s)).len() == s.len(),
    decreases s,
{
    if s.len() != 0 {
        lemma_str_pairs_views_len(s.drop_first());
    }
}

pub broadcast proof fn lemma_str_pairs_views_index(s: Seq<(String, String)>, i: int)
    requires
        0 <= i < s.len(),
    ensures
        #[trigger] str_pairs_views(s)[i] == (s[i].0@, s[i].1@),
    decreases s,
{
    lemma_str_pairs_views_len(s.drop_first());
    if i > 0 {
        lemma_str_pairs_views_index(s.drop_first(), i - 1);
    }
}

/// The pointwise characterisation of the views of string-pair lists.
pub broadcast group group_str_pairs_views {
    lemma_str_pairs_views_len,
    lemma_str_pairs_views_index,
}

impl View for Status {
    type V = StatusView;

    open spec fn view(&self) -> StatusView {
        StatusView {
            severity: self.severity,
            code: self.code@,
            params: str_pairs_views(self.params@),
        }
    }
}

/// The string pairs of an object all of whose values are JSON strings;
/// `None` where some value is not a string.
pub open spec fn spec_str_pairs_of(fields: Seq<(Seq<char>, JsonView)>) -> Option<
    Seq<(Seq<char>, Seq<char>)>,
>
    decreases fields.len(),
{
    if fields.len() == 0 {
        Some(Seq::empty())
    } else {
        match (fields[0].1, spec_str_pairs_of(fields.drop_first())) {
            (JsonView::Str(s), Some(rest)) => Some(seq![(fields[0].0, s)] + rest),
            _ => None,
        }
    }
}

/// `spec_str_pairs_of` succeeds exactly when every value is a string, and
/// then pairs each key with its string pointwise.
pub proof fn lemma_str_pairs_of_points(fields: Seq<(Seq<char>, JsonView)>)
    ensures
        spec_str_pairs_of(fields) is Some <==> (forall|j: int|
            0 <= j < fields.len() ==> #[trigger] fields[j].1 is Str),
        spec_str_pairs_of(fields) matches Some(ps) ==> ps.len() == fields.len() && (forall|j: int|
            0 <= j < fields.len() ==> #[trigger] ps[j] == (fields[j].0, fields[j].1->Str_0)),
    decreases fields.len(),
{
    if fields.len() != 0 {
        let rest = fields.drop_first();
        lemma_str_pairs_of_points(rest);
        assert(rest.len() == fields.len() - 1);
        assert forall|j: int| 0 <= j < rest.len() implies #[trigger] rest[j] == fields[j + 1] by {}
        if spec_str_pairs_of(fields) is Some {
            assert(fields[0].1 is Str);
            assert(spec_str_pairs_of(rest) is Some);
            assert forall|j: int| 0 <= j < fields.len() implies #[trigger] fields[j].1 is Str by {
                if j > 0 {
                    assert(rest[j - 1].1 is Str);
                }
            }
        }
        if forall|j: int| 0 <= j < fields.len() ==> #[trigger] fields[j].1 is Str {
            assert(fields[0].1 is Str);
            assert forall|j: int| 0 <= j < rest.len() implies #[trigger] rest[j].1 is Str by {
                assert(fields[j + 1].1 is Str);
            }
            assert(spec_str_pairs_of(rest) is Some);
        }
        if spec_str_pairs_of(fields) is Some {
            let ps = spec_str_pairs_of(fields)->0;
            let rs = spec_str_pairs_of(rest)->0;
            assert(ps == seq![(fields[0].0, fields[0].1->Str_0)] + rs);
            assert forall|j: int|
                0 <= j < fields.len() implies #[trigger] ps[j] == (
                fields[j].0,
                fields[j].1->Str_0,
            ) by {
                if j > 0 {
                    assert(ps[j] == rs[j - 1]);
                    assert(rs[j - 1] == (rest[j - 1].0, rest[j - 1].1->Str_0));
                }
            }
        }
    }
}

/// The structured error a JSON value denotes: an object with a severity, a
/// string code, and a string-to-string parameter object.
pub open spec fn spec_status_of(v: JsonView) -> Option<StatusView> {
    match (spec_get(v, "severity"@), spec_get(v, "code"@), spec_get(v, "params"@)) {
        (Some(sv), Some(JsonView::Str(code)), Some(JsonView::Obj(pf))) => {
            match (spec_severity_of(sv), spec_str_pairs_of(pf)) {
                (Some(sev), Some(ps)) => Some(StatusView { severity: sev, code, params: ps }),
                _ => None,
            }
        },
        _ => None,
    }
}

/// Reads a structured error out of a JSON value.
pub fn status_of_json(v: &JsonVal) -> (r: Option<Status>)
    ensures
        match spec_status_of(v@) {
            Some(sv) => r matches Some(st) && st@ == sv,
            None => r is None,
        },
{
    broadcast use group_json_views, group_str_pairs_views;

    let sev_json = match v.get("severity") {
        Some(x) => x,
        None => {
            return None;
        },
    };
    let severity = match severity_of_json(sev_json) {
        Some(s) => s,
        None => {
            return None;
        },
    };
    let code = match v.get("code") {
        Some(c) => match c.as_str() {
            Some(s) => s.clone(),
            None => {
                return None;
            },
        },
        None => {
            return None;
        },
    };
    let params_json = match v.get("params") {
        Some(p) => p,
        None => {
            return None;
        },
    };
    let pf = match params_json {
        JsonVal::Obj(pf) => pf,
        _ => {
            return None;
        },
    };
    let ghost pfv = obj_views(pf@);
    proof {
        assert(params_json@ is Obj);
        assert(params_json@ == JsonView::Obj(pfv));
        lemma_str_pairs_of_points(pfv);
    }
    let mut params: Vec<(String, String)> = Vec::new();
    let n = pf.len();
    for i in 0..n
        invariant
            n == pf.len(),
            pfv == obj_views(pf@),
            pfv.len() == n,
            forall|j: int| 0 <= j < n ==> pfv[j] == (pf@[j].0@, pf@[j].1@),
            params@.len() == i,
            spec_get(v@, "params"@) == Some(JsonView::Obj(pfv)),
            forall|j: int| 0 <= j < i ==> #[trigger] pfv[j].1 is Str,
            forall|j: int| 0 <= j < i ==> #[trigger] params@[j].0@ == pfv[j].0,
            forall|j: int| 0 <= j < i ==> #[trigger] params@[j].1@ == pfv[j].1->Str_0,
    {
        let value = match pf[i].1.as_str() {
            Some(s) => s.clone(),
            None => {
                proof {
                    lemma_str_pairs_of_points(pfv);
                }
                return None;
            },
        };
        let key = pf[i].0.clone();
        params.push((key, value));
        proof {
            assert(pfv[i as int] == (pf@[i as int].0@, pf@[i as int].1@));
            assert(pfv[i as int].1 is Str);
            assert(params@[i as int].0@ == pfv[i as int].0);
            assert(params@[i as int].1@ == pfv[i as int].1->Str_0);
        }
    }
    proof {
        lemma_str_pairs_of_points(pfv);
        assert(str_pairs_views(params@) =~= spec_str_pairs_of(pfv)->0);
    }
    Some(Status { severity, code, params })
}

} // verus!

verus! {

/// The view of an optional value.
pub open spec fn view_opt<T: View>(o: Option<T>) -> Option<T::V> {
    match o {
        Some(x) => Some(x@),
        None => None,
    }
}

/// An optional field: absent and JSON-null are both "no value".
pub open spec fn spec_opt_field(v: JsonView, key: Seq<char>) -> Option<JsonView> {
    match spec_get(v, key) {
        Some(JsonView::Null) => None,
        Some(x) => Some(x),
        None => None,
    }
}

/// Reads an optional field; a JSON null counts as absent.
pub fn opt_field<'a>(v: &'a JsonVal, key: &str) -> (r: Option<&'a JsonVal>)
    ensures
        match spec_opt_field(v@, key@) {
            Some(x) => r matches Some(j) && j@ == x,
            None => r is None,
        },
{
    match v.get(key) {
        Some(j) => match j {
            JsonVal::Null => None,
            _ => Some(j),
        },
        None => None,
    }
}

/// The `u32` a JSON value denotes.
pub open spec fn spec_u32_of(v: JsonView) -> Option<u32> {
    match v {
        JsonView::Int(i) => if 0 <= i <= u32::MAX {
            Some(i as u32)
        } else {
            None
        },
        _ => None,
    }
}

/// A chunk marker on a streamed response.
#[derive(Clone, Copy, Debug, PartialEq, Eq, Structural)]
pub struct Chunk {
    pub index: u32,
    pub is_final: bool,
}

/// The chunk marker a JSON value denotes: an object with an `index` number
/// and a `final` flag.
pub open spec fn spec_chunk_of(v: JsonView) -> Option<Chunk> {
    match (spec_get(v, "index"@), spec_get(v, "final"@)) {
        (Some(JsonView::Int(i)), Some(JsonView::Bool(b))) => if 0 <= i <= u32::MAX {
            Some(Chunk { index: i as u32, is_final: b })
        } else {
            None
        },
        _ => None,
    }
}

/// Reads a chunk marker out of a JSON value.
pub fn chunk_of_json(v: &JsonVal) -> (r: Option<Chunk>)
    ensures
        r == spec_chunk_of(v@),
{
    match (v.get("index"), v.get("final")) {
        (Some(JsonVal::Int(i)), Some(JsonVal::Bool(b))) => {
            if 0 <= *i && *i <= u32::MAX as i64 {
                Some(Chunk { index: *i as u32, is_final: *b })
            } else {
                None
            }
        },
        _ => None,
    }
}

/// A response envelope. A response with neither result nor error is a
/// successful call with an implicit null result.
#[derive(Debug)]
pub struct Response {
    pub result: Option<JsonVal>,
    pub id: Option<ReqId>,
    pub error: Option<Status>,
    pub terminate: Option<bool>,
    pub rate_limit: Option<JsonVal>,
    pub chunk: Option<Chunk>,
    pub time: Option<JsonVal>,
    pub bfst: Option<JsonVal>,
    pub queue: Option<u32>,
}

/// The mathematical shape of a response envelope.
pub struct ResponseView {
    pub result: Option<JsonView>,
    pub id: Option<ReqIdView>,
    pub error: Option<StatusView>,
    pub terminate: Option<bool>,
    pub rate_limit: Option<JsonView>,
    pub chunk: Option<Chunk>,
    pub time: Option<JsonView>,
    pub bfst: Option<JsonView>,
    pub queue: Option<u32>,
}

impl View for Response {
    type V = ResponseView;

    open spec fn view(&self) -> ResponseView {
        ResponseView {
            result: view_opt(self.result),
            id: view_opt(self.id),
            error: view_opt(self.error),
            terminate: self.terminate,
            rate_limit: view_opt(self.rate_limit),
            chunk: self.chunk,
            time: view_opt(self.time),
            bfst: view_opt(self.bfst),
            queue: self.queue,
        }
    }
}

/// A response envelope known to carry no error.
#[derive(Debug)]
pub struct OkResponse {
    pub result: Option<JsonVal>,
    pub id: Option<ReqId>,
    pub terminate: Option<bool>,
    pub rate_limit: Option<JsonVal>,
    pub chunk: Option<Chunk>,
    pub time: Option<JsonVal>,
    pub bfst: Option<JsonVal>,
    pub queue: Option<u32>,
}

/// The mathematical shape of an error-free response envelope.
pub struct OkResponseView {
    pub result: Option<JsonView>,
    pub id: Option<ReqIdView>,
    pub terminate: Option<bool>,
    pub rate_limit: Option<JsonView>,
    pub chunk: Option<Chunk>,
    pub time: Option<JsonView>,
    pub bfst: Option<JsonView>,
    pub queue: Option<u32>,
}

impl View for OkResponse {
    type V = OkResponseView;

    open spec fn view(&self) -> OkResponseView {
        OkResponseView {
            result: view_opt(self.result),
            id: view_opt(self.id),
            terminate: self.terminate,
            rate_limit: view_opt(self.rate_limit),
            chunk: self.chunk,
            time: view_opt(self.time),
            bfst: view_opt(self.bfst),
            queue: self.queue,
        }
    }
}

/// The error-free shape of a response, once its error is taken out.
pub open spec fn spec_ok_of(r: ResponseView) -> OkResponseView {
    OkResponseView {
        result: r.result,
        id: r.id,
        terminate: r.terminate,
        rate_limit: r.rate_limit,
        chunk: r.chunk,
        time: r.time,
        bfst: r.bfst,
        queue: r.queue,
    }
}

impl Response {
    /// Splits a response into the error it carries, or its error-free rest:
    /// a structured error, if present, wins over any result.
    pub fn into_result(self) -> (r: Result<OkResponse, Status>)
        ensures
            match self@.error {
                Some(e) => r matches Err(st) && st@ == e,
                None => r matches Ok(ok) && ok@ == spec_ok_of(self@),
            },
    {
        match self.error {
            Some(e) => Err(e),
            None => Ok(
                OkResponse {
                    result: self.result,
                    id: self.id,
                    terminate: self.terminate,
                    rate_limit: self.rate_limit,
                    chunk: self.chunk,
                    time: self.time,
                    bfst: self.bfst,
                    queue: self.queue,
                },
            ),
        }
    }
}

/// The response envelope a JSON value denotes. Unknown fields are ignored; a
/// present field of the wrong shape makes the whole value no envelope.
pub open spec fn spec_response_of(v: JsonView) -> Option<ResponseView> {
    if !(v is Obj) {
        None
    } else {
        let idf = spec_opt_field(v, "id"@);
        let errf = spec_opt_field(v, "error"@);
        let termf = spec_opt_field(v, "terminate"@);
        let chf = spec_opt_field(v, "chunk"@);
        let qf = spec_opt_field(v, "queue"@);
        if idf matches Some(x) && spec_req_id_of(x) is None {
            None
        } else if errf matches Some(x) && spec_status_of(x) is None {
            None
        } else if termf matches Some(x) && !(x is Bool) {
            None
        } else if chf matches Some(x) && spec_chunk_of(x) is None {
            None
        } else if qf matches Some(x) && spec_u32_of(x) is None {
            None
        } else {
            Some(
                ResponseView {
                    result: spec_opt_field(v, "result"@),
                    id: match idf {
                        Some(x) => spec_req_id_of(x),
                        None => None,
                    },
                    error: match errf {
                        Some(x) => spec_status_of(x),
                        None => None,
                    },
                    terminate: match termf {
                        Some(x) => Some(x->Bool_0),
                        None => None,
                    },
                    rate_limit: spec_opt_field(v, "rateLimit"@),
                    chunk: match chf {
                        Some(x) => spec_chunk_of(x),
                        None => None,
                    },
                    time: spec_opt_field(v, "time"@),
                    bfst: spec_opt_field(v, "bfst"@),
                    queue: match qf {
                        Some(x) => spec_u32_of(x),
                        None => None,
                    },
                },
            )
        }
    }
}

/// Reads a response envelope out of a JSON value.
pub fn decode_response(v: &JsonVal) -> (r: Option<Response>)
    ensures
        match spec_response_of(v@) {
            Some(rv) => r matches Some(resp) && resp@ == rv,
            None => r is None,
        },
{
    if !v.is_object() {
        return None;
    }
    let id = match opt_field(v, "id") {
        Some(j) => match req_id_of_json(j) {
            Some(i) => Some(i),
            None => {
                return None;
            },
        },
        None => None,
    };
    let error = match opt_field(v, "error") {
        Some(j) => match status_of_json(j) {
            Some(s) => Some(s),
            None => {
                return None;
            },
        },
        None => None,
    };
    let terminate = match opt_field(v, "terminate") {
        Some(JsonVal::Bool(b)) => Some(*b),
        Some(_) => {
            return None;
        },
        None => None,
    };
    let chunk = match opt_field(v, "chunk") {
        Some(j) => match chunk_of_json(j) {
            Some(c) => Some(c),
            None => {
                return None;
            },
        },
        None => None,
    };
    let queue = match opt_field(v, "queue") {
        Some(JsonVal::Int(i)) => {
            if 0 <= *i && *i <= u32::MAX as i64 {
                Some(*i as u32)
            } else {
                return None;
            }
        },
        Some(_) => {
            return None;
        },
        None => None,
    };
    let result = match opt_field(v, "result") {
        Some(j) => Some(j.clone_val()),
        None => None,
    };
    let rate_limit = match opt_field(v, "rateLimit") {
        Some(j) => Some(j.clone_val()),
        None => None,
    };
    let time = match opt_field(v, "time") {
        Some(j) => Some(j.clone_val()),
        None => None,
    };
    let bfst = match opt_field(v, "bfst") {
        Some(j) => Some(j.clone_val()),
        None => None,
    };
    Some(Response { result, id, error, terminate, rate_limit, chunk, time, bfst, queue })
}

} // verus!

verus! {

/// A request envelope: an optional identifier, the method's verb spelling,
/// and positional parameters.
pub struct Request {
    pub id: Option<ReqId>,
    pub method: String,
    pub params: Vec<JsonVal>,
    pub time: Option<i64>,
}

/// The mathematical shape of a request envelope.
pub struct RequestView {
    pub id: Option<ReqIdView>,
    pub method: Seq<char>,
    pub params: Seq<JsonView>,
    pub time: Option<i64>,
}

impl View for Request {
    type V = RequestView;

    open spec fn view(&self) -> RequestView {
        RequestView {
            id: view_opt(self.id),
            method: self.method@,
            params: arr_views(self.params@),
            time: self.time,
        }
    }
}

/// The JSON form of a request envelope: `id` and `time` appear only when
/// present.
pub open spec fn spec_request_json(r: RequestView) -> JsonView {
    JsonView::Obj(
        (match r.id {
            Some(i) => seq![("id"@, spec_req_id_json(i))],
            None => Seq::empty(),
        }) + seq![("method"@, JsonView::Str(r.method)), ("params"@, JsonView::Arr(r.params))] + (
        match r.time {
            Some(t) => seq![("time"@, JsonView::Int(t))],
            None => Seq::empty(),
        }),
    )
}

/// Copies of the values of `v`, structurally equal element by element.
pub fn clone_vals(v: &Vec<JsonVal>) -> (r: Vec<JsonVal>)
    ensures
        r@.len() == v@.len(),
        arr_views(r@) == arr_views(v@),
{
    broadcast use group_json_views;

    let mut out: Vec<JsonVal> = Vec::new();
    let n = v.len();
    for i in 0..n
        invariant
            n == v.len(),
            out@.len() == i,
            forall|j: int| 0 <= j < i ==> #[trigger] out@[j]@ == v@[j]@,
    {
        let c = v[i].clone_val();
        out.push(c);
    }
    proof {
        assert(arr_views(out@) =~= arr_views(v@));
    }
    out
}

impl Request {
    /// The JSON form of this request.
    pub fn to_json(&self) -> (r: JsonVal)
        ensures
            r@ == spec_request_json(self@),
    {
        broadcast use group_json_views;

        let ghost seg_id: Seq<(Seq<char>, JsonView)> = match self@.id {
            Some(i) => seq![("id"@, spec_req_id_json(i))],
            None => Seq::empty(),
        };
        let ghost seg_mid: Seq<(Seq<char>, JsonView)> = seq![
            ("method"@, JsonView::Str(self.method@)),
            ("params"@, JsonView::Arr(arr_views(self.params@))),
        ];
        let ghost seg_time: Seq<(Seq<char>, JsonView)> = match self@.time {
            Some(t) => seq![("time"@, JsonView::Int(t))],
            None => Seq::empty(),
        };
        let mut fields: Vec<(String, JsonVal)> = Vec::new();
        match &self.id {
            Some(i) => {
                fields.push(("id".to_owned(), i.to_json()));
            },
            None => {},
        }
        proof {
            assert(obj_views(fields@) =~= seg_id);
        }
        let ghost f1 = fields@;
        fields.push(("method".to_owned(), JsonVal::Str(self.method.clone())));
        fields.push(("params".to_owned(), JsonVal::Arr(clone_vals(&self.params))));
        proof {
            assert(obj_views(fields@) =~= seg_id + seg_mid);
        }
        let ghost f2 = fields@;
        match &self.time {
            Some(t) => {
                fields.push(("time".to_owned(), JsonVal::Int(*t)));
            },
            None => {},
        }
        proof {
            assert(obj_views(fields@) =~= seg_id + seg_mid + seg_time);
        }
        let r = JsonVal::Obj(fields);
        proof {
            assert(spec_request_json(self@)->Obj_0 == seg_id + seg_mid + seg_time);
            assert(r@->Obj_0 == obj_views(fields@));
        }
        r
    }
}

/// The handshake request: a request envelope extended with the client's
/// preferred binary and compression flags.
pub struct HelloRequest {
    pub request: Request,
    pub binary: Option<bool>,
    pub compression: Option<bool>,
}

/// The JSON form of the handshake request: the request's own fields,
/// then `binary` and `compression` when present.
pub open spec fn spec_hello_request_json(r: RequestView, binary: Option<bool>, compression: Option<
    bool,
>) -> JsonView {
    JsonView::Obj(
        spec_request_json(r)->Obj_0 + (match binary {
            Some(b) => seq![("binary"@, JsonView::Bool(b))],
            None => Seq::empty(),
        }) + (match compression {
            Some(c) => seq![("compression"@, JsonView::Bool(c))],
            None => Seq::empty(),
        }),
    )
}

impl HelloRequest {
    /// The JSON form of this handshake request.
    pub fn to_json(&self) -> (r: JsonVal)
        ensures
            r@ == spec_hello_request_json(self.request@, self.binary, self.compression),
    {
        broadcast use group_json_views;

        let ghost seg_base = spec_request_json(self.request@)->Obj_0;
        let ghost seg_bin: Seq<(Seq<char>, JsonView)> = match self.binary {
            Some(b) => seq![("binary"@, JsonView::Bool(b))],
            None => Seq::empty(),
        };
        let ghost seg_comp: Seq<(Seq<char>, JsonView)> = match self.compression {
            Some(c) => seq![("compression"@, JsonView::Bool(c))],
            None => Seq::empty(),
        };
        let base = self.request.to_json();
        let mut fields: Vec<(String, JsonVal)> = match base {
            JsonVal::Obj(fs) => fs,
            _ => Vec::new(),
        };
        proof {
            assert(obj_views(fields@) == seg_base);
        }
        match &self.binary {
            Some(b) => {
                fields.push(("binary".to_owned(), JsonVal::Bool(*b)));
            },
            None => {},
        }
        proof {
            assert(obj_views(fields@) =~= seg_base + seg_bin);
        }
        match &self.compression {
            Some(c) => {
                fields.push(("compression".to_owned(), JsonVal::Bool(*c)));
            },
            None => {},
        }
        proof {
            assert(obj_views(fields@) =~= seg_base + seg_bin + seg_comp);
        }
        let r = JsonVal::Obj(fields);
        proof {
            assert(spec_hello_request_json(self.request@, self.binary, self.compression)->Obj_0
                == seg_base + seg_bin + seg_comp);
            assert(r@->Obj_0 == obj_views(fields@));
        }
        r
    }
}

/// The handshake response: the server's binary and compression choices, its
/// version, and the authenticated account summary (kept as raw JSON).
pub struct HelloResponse {
    pub binary: bool,
    pub reconnect: Option<bool>,
    pub server_version: String,
    pub last_tx: Option<String>,
    pub last_hash: Option<String>,
    pub account: JsonVal,
    pub use_compression: Option<bool>,
}

/// The mathematical shape of the handshake response.
pub struct HelloResponseView {
    pub binary: bool,
    pub reconnect: Option<bool>,
    pub server_version: Seq<char>,
    pub last_tx: Option<Seq<char>>,
    pub last_hash: Option<Seq<char>>,
    pub account: JsonView,
    pub use_compression: Option<bool>,
}

impl View for HelloResponse {
    type V = HelloResponseView;

    open spec fn view(&self) -> HelloResponseView {
        HelloResponseView {
            binary: self.binary,
            reconnect: self.reconnect,
            server_version: self.server_version@,
            last_tx: match self.last_tx {
                Some(ref s) => Some(s@),
                None => None,
            },
            last_hash: match self.last_hash {
                Some(ref s) => Some(s@),
                None => None,
            },
            account: self.account@,
            use_compression: self.use_compression,
        }
    }
}

/// An optional boolean field; a present non-boolean is an error.
pub open spec fn spec_opt_bool_of(f: Option<JsonView>) -> Option<Option<bool>> {
    match f {
        Some(JsonView::Bool(b)) => Some(Some(b)),
        Some(_) => None,
        None => Some(None),
    }
}

/// An optional string field; a present non-string is an error.
pub open spec fn spec_opt_str_of(f: Option<JsonView>) -> Option<Option<Seq<char>>> {
    match f {
        Some(JsonView::Str(s)) => Some(Some(s)),
        Some(_) => None,
        None => Some(None),
    }
}

/// The handshake response a JSON value denotes: `binary`, `serverVersion`
/// and `account` are required; the rest is optional.
pub open spec fn spec_hello_of(v: JsonView) -> Option<HelloResponseView> {
    if !(v is Obj) {
        None
    } else {
        match (spec_get(v, "binary"@), spec_get(v, "serverVersion"@), spec_get(v, "account"@)) {
            (Some(JsonView::Bool(binary)), Some(JsonView::Str(ver)), Some(account)) => {
                match (spec_opt_bool_of(spec_opt_field(v, "reconnect"@)), spec_opt_bool_of(
                    spec_opt_field(v, "useCompression"@),
                ), spec_opt_str_of(spec_opt_field(v, "lastTx"@)), spec_opt_str_of(
                    spec_opt_field(v, "lastHash"@),
                )) {
                    (Some(reconnect), Some(use_compression), Some(last_tx), Some(last_hash)) => {
                        Some(
                            HelloResponseView {
                                binary,
                                reconnect,
                                server_version: ver,
                                last_tx,
                                last_hash,
                                account,
                                use_compression,
                            },
                        )
                    },
                    _ => None,
                }
            },
            _ => None,
        }
    }
}

/// Reads a handshake response out of a JSON value.
pub fn decode_hello(v: &JsonVal) -> (r: Option<HelloResponse>)
    ensures
        match spec_hello_of(v@) {
            Some(hv) => r matches Some(h) && h@ == hv,
            None => r is None,
        },
{
    if !v.is_object() {
        return None;
    }
    let binary = match v.get("binary") {
        Some(JsonVal::Bool(b)) => *b,
        _ => {
            return None;
        },
    };
    let server_version = match v.get("serverVersion") {
        Some(JsonVal::Str(s)) => s.clone(),
        _ => {
            return None;
        },
    };
    let account = match v.get("account") {
        Some(a) => a.clone_val(),
        None => {
            return None;
        },
    };
    let reconnect = match opt_field(v, "reconnect") {
        Some(JsonVal::Bool(b)) => Some(*b),
        Some(_) => {
            return None;
        },
        None => None,
    };
    let use_compression = match opt_field(v, "useCompression") {
        Some(JsonVal::Bool(b)) => Some(*b),
        Some(_) => {
            return None;
        },
        None => None,
    };
    let last_tx = match opt_field(v, "lastTx") {
        Some(JsonVal::Str(s)) => Some(s.clone()),
        Some(_) => {
            return None;
        },
        None => None,
    };
    let last_hash = match opt_field(v, "lastHash") {
        Some(JsonVal::Str(s)) => Some(s.clone()),
        Some(_) => {
            return None;
        },
        None => None,
    };
    Some(
        HelloResponse {
            binary,
            reconnect,
            server_version,
            last_tx,
            last_hash,
            account,
            use_compression,
        },
    )
}

} // verus!

verus! {

/// The value of the first pair whose key is `key`, searching from the
/// front.
pub open spec fn spec_first_match(pairs: Seq<(Seq<char>, Seq<char>)>, key: Seq<char>) -> Option<
    Seq<char>,
>
    decreases pairs.len(),
{
    if pairs.len() == 0 {
        None
    } else if pairs[0].0 == key {
        Some(pairs[0].1)
    } else {
        spec_first_match(pairs.drop_first(), key)
    }
}

/// If no pair before index `i` matches `key`, the search over the whole
/// list equals the search over the tail starting at `i`.
pub proof fn lemma_first_match_skip(pairs: Seq<(Seq<char>, Seq<char>)>, key: Seq<char>, i: int)
    requires
        0 <= i <= pairs.len(),
        forall|j: int| 0 <= j < i ==> #[trigger] pairs[j].0 != key,
    ensures
        spec_first_match(pairs, key) == spec_first_match(pairs.skip(i), key),
    decreases i,
{
    if i > 0 {
        assert(pairs[0].0 != key);
        lemma_first_match_skip(pairs.drop_first(), key, i - 1);
        assert(pairs.drop_first().skip(i - 1) =~= pairs.skip(i));
    } else {
        assert(pairs.skip(0) =~= pairs);
    }
}

} // verus!
