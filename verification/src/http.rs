//! The plain-HTTP transport's computations: URL paths, query strings,
//! response classification, and the service-call dispatch. The network
//! itself stays outside; everything here is from plain values to plain
//! values.

use vstd::prelude::*;
use vstd::string::StringExecFns;

use crate::Error;
use crate::json::{JsonVal, JsonView, json_text_of, json_to_text};
use crate::methods::{Method, spec_kebab};
use crate::rpc::{spec_status_of, status_of_json};

verus! {

/// What `url::Url::join` resolves `rel` against `base` to, as text; `None`
/// where `base` does not parse or the join fails.
pub uninterp spec fn join_of(base: Seq<char>, rel: Seq<char>) -> Option<Seq<char>>;

/// Relies on `url::Url::parse` and `url::Url::join`: the resolved URL
/// depends on the two texts alone.
#[verifier::external_body]
pub fn url_join(base: &str, rel: &str) -> (r: Option<String>)
    ensures
        r is Some <==> join_of(base@, rel@) is Some,
        r matches Some(s) ==> (join_of(base@, rel@) matches Some(t) && s@ == t),
{
    let u = url::Url::parse(base).ok()?;
    Some(u.join(rel).ok()?.to_string())
}

/// What `url::form_urlencoded` makes of one query pair `key=value`, both
/// sides percent-encoded; depends on the two texts alone.
pub uninterp spec fn query_pair_of(key: Seq<char>, value: Seq<char>) -> Seq<char>;

/// Relies on `url::form_urlencoded::Serializer::append_pair`: the encoding
/// of one pair depends on the key and value texts alone.
#[verifier::external_body]
pub fn encode_query_pair(key: &str, value: &str) -> (r: String)
    ensures
        r@ == query_pair_of(key@, value@),
{
    url::form_urlencoded::Serializer::new(String::new()).append_pair(key, value).finish()
}

/// The path of a workspace-scoped method call.
pub open spec fn spec_api_path(m: Method, workspace: Seq<char>) -> Seq<char> {
    "/api/v1/"@ + spec_kebab(m) + "/"@ + workspace
}

/// The path of a raw transaction submission.
pub open spec fn spec_tx_path(workspace: Seq<char>) -> Seq<char> {
    "/api/v1/tx/"@ + workspace
}

/// The path of a domain request: the domain-request segment, then the domain,
/// the operation, and the workspace.
pub open spec fn spec_domain_path(domain: Seq<char>, operation: Seq<char>, workspace: Seq<
    char,
>) -> Seq<char> {
    "/api/v1/"@ + spec_kebab(Method::Request) + "/"@ + domain + "/"@ + operation + "/"@ + workspace
}

/// The path of one key in a key-value namespace.
pub open spec fn spec_kv_path(namespace: Seq<char>, key: Seq<char>) -> Seq<char> {
    "api/"@ + namespace + "/"@ + key
}

/// Builds the path of a workspace-scoped method call.
pub fn api_path(m: Method, workspace: &str) -> (r: String)
    ensures
        r@ == spec_api_path(m, workspace@),
{
    let mut s = "/api/v1/".to_owned();
    s.append(m.kebab());
    s.append("/");
    s.append(workspace);
    s
}

/// Builds the path of a raw transaction submission.
pub fn tx_path(workspace: &str) -> (r: String)
    ensures
        r@ == spec_tx_path(workspace@),
{
    let mut s = "/api/v1/tx/".to_owned();
    s.append(workspace);
    s
}

/// Builds the path of a domain request.
pub fn domain_path(domain: &str, operation: &str, workspace: &str) -> (r: String)
    ensures
        r@ == spec_domain_path(domain@, operation@, workspace@),
{
    let mut s = "/api/v1/".to_owned();
    s.append(Method::Request.kebab());
    s.append("/");
    s.append(domain);
    s.append("/");
    s.append(operation);
    s.append("/");
    s.append(workspace);
    s
}

/// Builds the path of one key in a key-value namespace.
pub fn kv_path(namespace: &str, key: &str) -> (r: String)
    ensures
        r@ == spec_kv_path(namespace@, key@),
{
    let mut s = "api/".to_owned();
    s.append(namespace);
    s.append("/");
    s.append(key);
    s
}

/// The text a parameter takes in a query string: a JSON string goes in as
/// its characters; any other value as its JSON text.
pub open spec fn spec_query_value(v: JsonView) -> Option<Seq<char>> {
    match v {
        JsonView::Str(s) => Some(s),
        _ => json_text_of(v),
    }
}

/// Renders one parameter value for a query string.
pub fn query_value(v: &JsonVal) -> (r: Option<String>)
    ensures
        r is Some <==> spec_query_value(v@) is Some,
        r matches Some(s) ==> (spec_query_value(v@) matches Some(t) && s@ == t),
{
    match v {
        JsonVal::Str(s) => Some(s.clone()),
        _ => json_to_text(v),
    }
}

/// The query suffix of a URL: empty without parameters, else `?` and the
/// encoded pairs joined by `&`.
pub open spec fn spec_query_suffix(pairs: Seq<(Seq<char>, Seq<char>)>) -> Seq<char>
    decreases pairs.len(),
{
    if pairs.len() == 0 {
        Seq::empty()
    } else if pairs.len() == 1 {
        "?"@ + query_pair_of(pairs[0].0, pairs[0].1)
    } else {
        spec_query_suffix(pairs.drop_last()) + "&"@ + query_pair_of(
            pairs.last().0,
            pairs.last().1,
        )
    }
}

/// Appends the encoded query pairs to a URL.
pub fn with_query(url: String, pairs: &Vec<(String, String)>) -> (r: String)
    ensures
        r@ == url@ + spec_query_suffix(crate::rpc::str_pairs_views(pairs@)),
{
    broadcast use crate::rpc::group_str_pairs_views;

    let ghost pv = crate::rpc::str_pairs_views(pairs@);
    let ghost u0 = url@;
    let mut out = url;
    let n = pairs.len();
    for i in 0..n
        invariant
            n == pairs.len(),
            pv == crate::rpc::str_pairs_views(pairs@),
            pv.len() == n,
            out@ == u0 + spec_query_suffix(pv.take(i as int)),
    {
        proof {
            crate::rpc::lemma_str_pairs_views_index(pairs@, i as int);
        }
        if i == 0 {
            out.append("?");
        } else {
            out.append("&");
        }
        let pair = encode_query_pair(pairs[i].0.as_str(), pairs[i].1.as_str());
        out.append(pair.as_str());
        proof {
            assert(pv.take(i + 1 as int).drop_last() =~= pv.take(i as int));
            assert(pv.take(i + 1 as int).last() == pv[i as int]);
            if i == 0 {
                assert(spec_query_suffix(pv.take(1)) == "?"@ + query_pair_of(
                    pv[0].0,
                    pv[0].1,
                ));
            }
        }
    }
    proof {
        assert(pv.take(n as int) =~= pv);
    }
    out
}

/// Classifies an HTTP response: 2xx succeeds; anything else is a transport
/// error carrying the status and the body text.
pub fn classify_response(status: u16, body: String) -> (r: Result<(), Error>)
    ensures
        200 <= status < 300 ==> r is Ok,
        !(200 <= status < 300) ==> (r matches Err(e) && e matches Error::HttpError(s, b) && s
            == status && b@ == body@),
{
    if 200 <= status && status < 300 {
        Ok(())
    } else {
        Err(Error::HttpError(status, body))
    }
}

/// Classifies a key-value GET: 2xx yields the body; 404 means the key is
/// absent, which is not an error; anything else is a transport error
/// carrying the status and the body text.
pub fn kv_get_outcome(status: u16, body: Vec<u8>, body_text: String) -> (r: Result<
    Option<Vec<u8>>,
    Error,
>)
    ensures
        200 <= status < 300 ==> (r matches Ok(o) && o matches Some(b) && b@ == body@),
        status == 404 ==> (r matches Ok(o) && o is None),
        !(200 <= status < 300) && status != 404 ==> (r matches Err(e) && e matches Error::HttpError(
            s,
            b,
        ) && s == status && b@ == body_text@),
{
    if 200 <= status && status < 300 {
        Ok(Some(body))
    } else if status == 404 {
        Ok(None)
    } else {
        Err(Error::HttpError(status, body_text))
    }
}

/// The HTTP scheme standing in for a WebSocket scheme.
pub fn scheme_to_http(scheme: &str) -> (r: Option<&'static str>)
    ensures
        scheme@ == "ws"@ ==> (r matches Some(s) && s@ == "http"@),
        scheme@ == "wss"@ ==> (r matches Some(s) && s@ == "https"@),
        scheme@ != "ws"@ && scheme@ != "wss"@ ==> r is None,
{
    proof {
        reveal_strlit("ws");
        reveal_strlit("wss");
        assert("ws"@.len() == 2);
        assert("wss"@.len() == 3);
        assert("ws"@ != "wss"@);
    }
    if crate::json::str_eq(scheme, "ws") {
        Some("http")
    } else if crate::json::str_eq(scheme, "wss") {
        Some("https")
    } else {
        None
    }
}

/// The WebSocket scheme standing in for an HTTP scheme.
pub fn scheme_to_ws(scheme: &str) -> (r: Option<&'static str>)
    ensures
        scheme@ == "http"@ ==> (r matches Some(s) && s@ == "ws"@),
        scheme@ == "https"@ ==> (r matches Some(s) && s@ == "wss"@),
        scheme@ != "http"@ && scheme@ != "https"@ ==> r is None,
{
    proof {
        reveal_strlit("http");
        reveal_strlit("https");
        assert("http"@.len() == 4);
        assert("https"@.len() == 5);
        assert("http"@ != "https"@);
    }
    if crate::json::str_eq(scheme, "http") {
        Some("ws")
    } else if crate::json::str_eq(scheme, "https") {
        Some("wss")
    } else {
        None
    }
}

/// The body of a service call: its method name and its parameters.
pub fn service_request_body(method: &str, params: JsonVal) -> (r: JsonVal)
    ensures
        r@ == JsonView::Obj(
            seq![("method"@, JsonView::Str(method@)), ("params"@, params@)],
        ),
{
    broadcast use crate::json::group_json_views;

    let ghost pv = params@;
    let mut fields: Vec<(String, JsonVal)> = Vec::new();
    fields.push(("method".to_owned(), crate::json::val_str(method)));
    fields.push(("params".to_owned(), params));
    let r = JsonVal::Obj(fields);
    proof {
        crate::json::lemma_obj_views_len(fields@);
        crate::json::lemma_obj_views_index(fields@, 0);
        crate::json::lemma_obj_views_index(fields@, 1);
        assert(r@ is Obj);
        assert(r@->Obj_0 =~= seq![("method"@, JsonView::Str(method@)), ("params"@, pv)]);
    }
    r
}

/// Dispatches a service response body: a result without an error succeeds;
/// an error without a result is a service error (or a decode error where
/// the error is not a structured status); neither is an implicit null
/// result; both at once is malformed.
pub fn service_dispatch(v: &JsonVal) -> (r: Result<JsonVal, Error>)
    ensures
        ({
            let resf = crate::rpc::spec_opt_field(v@, "result"@);
            let errf = crate::rpc::spec_opt_field(v@, "error"@);
            match (resf, errf) {
                (Some(res), None) => r matches Ok(x) && x@ == res,
                (None, Some(err)) => match spec_status_of(err) {
                    Some(st) => r matches Err(e) && e matches Error::ServiceError(s2) && s2@ == st,
                    None => r matches Err(e) && e is Decode,
                },
                (None, None) => r matches Ok(x) && x@ == JsonView::Null,
                (Some(_), Some(_)) => r matches Err(e) && e is Other,
            }
        }),
{
    let res = match crate::rpc::opt_field(v, "result") {
        Some(x) => Some(x.clone_val()),
        None => None,
    };
    let err = match crate::rpc::opt_field(v, "error") {
        Some(x) => Some(x.clone_val()),
        None => None,
    };
    match (res, err) {
        (Some(x), None) => Ok(x),
        (None, Some(e)) => match status_of_json(&e) {
            Some(st) => Err(Error::ServiceError(st)),
            None => Err(Error::Decode),
        },
        (None, None) => Ok(JsonVal::Null),
        (Some(_), Some(_)) => Err(Error::Other("unexpected service response")),
    }
}

} // verus!
