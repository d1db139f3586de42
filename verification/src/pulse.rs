//! The presence ("pulse") store's computations: deriving its REST endpoint
//! from a configured URL, conditional-write headers, and response
//! classification. The HTTP itself stays outside.

use vstd::prelude::*;
use vstd::string::{StrSliceExecFns, StringExecFns};

use crate::Error;
use crate::json::{JsonVal, JsonView, spec_get, str_eq};

verus! {

/// Whether `s` ends with `suffix`.
pub open spec fn spec_ends_with(s: Seq<char>, suffix: Seq<char>) -> bool {
    s.len() >= suffix.len() && s.subrange(s.len() - suffix.len(), s.len() as int) == suffix
}

/// Whether `s` ends with `suffix`.
pub fn ends_with(s: &str, suffix: &str) -> (r: bool)
    ensures
        r == spec_ends_with(s@, suffix@),
{
    let n = s.unicode_len();
    let m = suffix.unicode_len();
    if n < m {
        return false;
    }
    let tail = s.substring_char(n - m, n);
    str_eq(tail, suffix)
}

/// The scheme and path of the pulse store's REST endpoint, derived from a
/// configured URL: a WebSocket URL ending in a `ws` segment maps to its
/// HTTP counterpart with that segment replaced by `api/`; anything that
/// does not end up an HTTP URL whose path ends in `/api/` is refused.
pub open spec fn spec_rest_endpoint(scheme: Seq<char>, path: Seq<char>) -> Option<
    (Seq<char>, Seq<char>),
> {
    let ws_form = (scheme == "ws"@ || scheme == "wss"@) && spec_ends_with(path, "/ws"@);
    let scheme2 = if ws_form {
        if scheme == "ws"@ {
            "http"@
        } else {
            "https"@
        }
    } else {
        scheme
    };
    let path2 = if ws_form {
        path.subrange(0, path.len() - 2) + "api/"@
    } else {
        path
    };
    if (scheme2 == "http"@ || scheme2 == "https"@) && spec_ends_with(path2, "/api/"@) {
        Some((scheme2, path2))
    } else {
        None
    }
}

/// Derives the scheme and path of the pulse store's REST endpoint.
pub fn make_rest_api_endpoint(scheme: &str, path: &str) -> (r: Result<(String, String), Error>)
    ensures
        match spec_rest_endpoint(scheme@, path@) {
            Some((s2, p2)) => r matches Ok(x) && x.0@ == s2 && x.1@ == p2,
            None => r matches Err(e) && e is Other,
        },
{
    proof {
        reveal_strlit("ws");
        reveal_strlit("wss");
        reveal_strlit("http");
        reveal_strlit("https");
        reveal_strlit("/ws");
        reveal_strlit("/api/");
        reveal_strlit("api/");
        assert("ws"@.len() == 2);
        assert("wss"@.len() == 3);
        assert("http"@.len() == 4);
        assert("https"@.len() == 5);
        assert("/ws"@.len() == 3);
        assert("/api/"@.len() == 5);
    }
    let is_ws = str_eq(scheme, "ws");
    let is_wss = str_eq(scheme, "wss");
    let ws_form = (is_ws || is_wss) && ends_with(path, "/ws");
    let (scheme2, path2): (String, String) = if ws_form {
        let s2: String = if is_ws {
            "http".to_owned()
        } else {
            "https".to_owned()
        };
        let n = path.unicode_len();
        proof {
            assert(path@.len() >= 3);
        }
        let mut p2 = path.substring_char(0, n - 2).to_owned();
        p2.append("api/");
        (s2, p2)
    } else {
        (scheme.to_owned(), path.to_owned())
    };
    let ok = (str_eq(scheme2.as_str(), "http") || str_eq(scheme2.as_str(), "https")) && ends_with(
        path2.as_str(),
        "/api/",
    );
    if ok {
        Ok((scheme2, path2))
    } else {
        Err(Error::Other("InvalidPulseUrl"))
    }
}

/// How a conditional write or delete is guarded.
pub enum PutMode {
    /// Set or overwrite.
    Upsert,
    /// Only if the key does not exist yet.
    Insert,
    /// Only if the key already exists.
    Update,
    /// Only if the stored entity tag matches.
    Equal(String),
}

/// When a stored object expires.
#[derive(Debug)]
pub enum Expiration {
    /// This many seconds from now.
    InSeconds(u64),
    /// At this instant, in seconds since the epoch.
    AtTime(i64),
}

/// A stored object, with its expiry and entity tag.
#[derive(Debug)]
pub struct FullObject {
    pub key: String,
    pub data: String,
    pub expires_at: Expiration,
    pub etag: String,
}

/// The headers guarding a conditional write: the expiry header when one is
/// set, then the precondition of the mode.
pub open spec fn spec_put_headers(expiration: Option<Expiration>, mode: PutMode) -> Seq<
    (Seq<char>, Seq<char>),
> {
    (match expiration {
        Some(Expiration::InSeconds(secs)) => seq![
            ("huly-ttl"@, crate::document::spec_dec(secs)),
        ],
        Some(Expiration::AtTime(t)) => seq![
            ("huly-expire-at"@, crate::document::spec_dec(if t < 0 {
                0u64
            } else {
                t as u64
            })),
        ],
        None => Seq::empty(),
    }) + (match mode {
        PutMode::Upsert => Seq::empty(),
        PutMode::Insert => seq![("if-none-match"@, "*"@)],
        PutMode::Update => seq![("if-match"@, "*"@)],
        PutMode::Equal(etag) => seq![("if-match"@, etag@)],
    })
}

/// Builds the headers guarding a conditional write.
pub fn put_headers(expiration: &Option<Expiration>, mode: &PutMode) -> (r: Vec<(String, String)>)
    ensures
        crate::rpc::str_pairs_views(r@) == spec_put_headers(*expiration, *mode),
{
    broadcast use crate::rpc::group_str_pairs_views;

    let mut out: Vec<(String, String)> = Vec::new();
    match expiration {
        Some(Expiration::InSeconds(secs)) => {
            out.push(("huly-ttl".to_owned(), crate::document::to_dec(*secs)));
        },
        Some(Expiration::AtTime(t)) => {
            let tu: u64 = if *t < 0 {
                0
            } else {
                *t as u64
            };
            out.push(("huly-expire-at".to_owned(), crate::document::to_dec(tu)));
        },
        None => {},
    }
    let ghost head = crate::rpc::str_pairs_views(out@);
    proof {
        crate::rpc::lemma_str_pairs_views_len(out@);
        assert(head =~= (match *expiration {
            Some(Expiration::InSeconds(secs)) => seq![
                ("huly-ttl"@, crate::document::spec_dec(secs)),
            ],
            Some(Expiration::AtTime(t)) => seq![
                ("huly-expire-at"@, crate::document::spec_dec(if t < 0 {
                    0u64
                } else {
                    t as u64
                })),
            ],
            None => Seq::<(Seq<char>, Seq<char>)>::empty(),
        }));
    }
    match mode {
        PutMode::Upsert => {},
        PutMode::Insert => {
            out.push(("if-none-match".to_owned(), "*".to_owned()));
        },
        PutMode::Update => {
            out.push(("if-match".to_owned(), "*".to_owned()));
        },
        PutMode::Equal(etag) => {
            out.push(("if-match".to_owned(), etag.clone()));
        },
    }
    proof {
        crate::rpc::lemma_str_pairs_views_len(out@);
        assert forall|j: int|
            0 <= j < out@.len() implies crate::rpc::str_pairs_views(out@)[j] == (
        out@[j].0@, out@[j].1@) by {
            crate::rpc::lemma_str_pairs_views_index(out@, j);
        }
        assert(crate::rpc::str_pairs_views(out@) =~= head + (match *mode {
            PutMode::Upsert => Seq::<(Seq<char>, Seq<char>)>::empty(),
            PutMode::Insert => seq![("if-none-match"@, "*"@)],
            PutMode::Update => seq![("if-match"@, "*"@)],
            PutMode::Equal(ref etag) => seq![("if-match"@, etag@)],
        }));
    }
    out
}

/// The stored object a JSON value denotes: its key, data, expiry in
/// seconds, and entity tag.
pub open spec fn spec_full_object_of(v: JsonView) -> Option<(Seq<char>, Seq<char>, u64, Seq<
    char,
>)> {
    match (
        spec_get(v, "key"@),
        spec_get(v, "data"@),
        spec_get(v, "expires_at"@),
        spec_get(v, "etag"@),
    ) {
        (
            Some(JsonView::Str(key)),
            Some(JsonView::Str(data)),
            Some(JsonView::Int(exp)),
            Some(JsonView::Str(etag)),
        ) => if 0 <= exp {
            Some((key, data, exp as u64, etag))
        } else {
            None
        },
        _ => None,
    }
}

/// Reads a stored object out of a JSON value.
pub fn full_object_of_json(v: &JsonVal) -> (r: Option<FullObject>)
    ensures
        match spec_full_object_of(v@) {
            Some((key, data, exp, etag)) => r matches Some(o) && o.key@ == key && o.data@ == data
                && (o.expires_at matches Expiration::InSeconds(s) && s == exp) && o.etag@ == etag,
            None => r is None,
        },
{
    match (v.get("key"), v.get("data"), v.get("expires_at"), v.get("etag")) {
        (
            Some(JsonVal::Str(key)),
            Some(JsonVal::Str(data)),
            Some(JsonVal::Int(exp)),
            Some(JsonVal::Str(etag)),
        ) => {
            if 0 <= *exp {
                Some(
                    FullObject {
                        key: key.clone(),
                        data: data.clone(),
                        expires_at: Expiration::InSeconds(*exp as u64),
                        etag: etag.clone(),
                    },
                )
            } else {
                None
            }
        },
        _ => None,
    }
}

/// Classifies a pulse GET: 404 means the key is absent (not an error); a
/// 2xx body must decode as a stored object; anything else is a transport
/// error carrying the status and body text.
pub fn pulse_get_outcome(status: u16, body: &JsonVal, body_text: String) -> (r: Result<
    Option<FullObject>,
    Error,
>)
    ensures
        status == 404 ==> (r matches Ok(o) && o is None),
        200 <= status < 300 ==> (match spec_full_object_of(body@) {
            Some(_) => r matches Ok(o) && o is Some,
            None => r matches Err(e) && e is Decode,
        }),
        !(200 <= status < 300) && status != 404 ==> (r matches Err(e) && e matches
            Error::HttpError(s, b) && s == status && b@ == body_text@),
{
    if status == 404 {
        Ok(None)
    } else if 200 <= status && status < 300 {
        match full_object_of_json(body) {
            Some(o) => Ok(Some(o)),
            None => Err(Error::Decode),
        }
    } else {
        Err(Error::HttpError(status, body_text))
    }
}

} // verus!
