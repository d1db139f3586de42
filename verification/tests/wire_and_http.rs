use transactor_client::http::{
    api_path, classify_response, domain_path, encode_query_pair, kv_get_outcome, kv_path,
    scheme_to_http, scheme_to_ws, service_dispatch, service_request_body, tx_path, url_join,
    with_query,
};
use transactor_client::json::{json_from_text, json_to_text, JsonVal};
use transactor_client::methods::Method;
use transactor_client::rpc::{
    chunk_of_json, decode_hello, decode_response, severity_of_json, status_of_json, ReqId,
    Severity,
};
use transactor_client::Error;

fn obj(fields: Vec<(&str, JsonVal)>) -> JsonVal {
    JsonVal::Obj(
        fields
            .into_iter()
            .map(|(k, v)| (k.to_string(), v))
            .collect(),
    )
}

#[test]
fn method_spellings_are_fixed() {
    assert_eq!(Method::FindAll.kebab(), "find-all");
    assert_eq!(Method::FindAll.camel(), "findAll");
    assert_eq!(Method::EnsurePerson.kebab(), "ensure-person");
    assert_eq!(Method::EnsurePerson.camel(), "ensurePerson");
    assert_eq!(Method::Request.camel(), "domainRequest");
    assert_eq!(Method::Request.kebab(), "request");
    assert_eq!(Method::Hello.camel(), "hello");
    assert_eq!(Method::Ping.camel(), "ping");
}

#[test]
fn paths_are_built_exactly() {
    assert_eq!(api_path(Method::FindAll, "ws-1"), "/api/v1/find-all/ws-1");
    assert_eq!(tx_path("ws-1"), "/api/v1/tx/ws-1");
    assert_eq!(
        domain_path("communication", "createMessage", "ws-1"),
        "/api/v1/request/communication/createMessage/ws-1"
    );
    assert_eq!(kv_path("notes", "key-a"), "api/notes/key-a");
}

#[test]
fn query_pairs_are_percent_encoded() {
    // The encoder must transform its input, not hand it back unchanged.
    assert_eq!(encode_query_pair("a b", "c&d"), "a+b=c%26d");
    let url = "http://h/api".to_string();
    let pairs = vec![
        ("class".to_string(), "card:class:Card".to_string()),
        ("q".to_string(), "x y".to_string()),
    ];
    assert_eq!(with_query(url, &pairs), "http://h/api?class=card%3Aclass%3ACard&q=x+y");
    assert_eq!(with_query("http://h/api".to_string(), &vec![]), "http://h/api");
}

#[test]
fn url_join_resolves_relative_paths() {
    let joined = url_join("http://host:8080/base/", "sub/item").unwrap();
    assert_eq!(joined, "http://host:8080/base/sub/item");
    assert!(url_join("not a url", "x").is_none());
}

#[test]
fn non_success_statuses_become_transport_errors() {
    assert!(classify_response(204, String::new()).is_ok());
    match classify_response(418, "teapot".to_string()) {
        Err(Error::HttpError(status, body)) => {
            assert_eq!(status, 418);
            assert_eq!(body, "teapot");
        }
        _ => panic!("expected a transport error"),
    }
}

#[test]
fn kv_get_treats_missing_keys_as_absent() {
    // A missing key is "absent", not an error.
    assert_eq!(kv_get_outcome(404, vec![], String::new()).unwrap(), None);
    // A success hands the body back.
    assert_eq!(
        kv_get_outcome(200, vec![1, 2, 3], String::new()).unwrap(),
        Some(vec![1, 2, 3])
    );
    // Any other status carries the status and body text.
    match kv_get_outcome(500, vec![], "boom".to_string()) {
        Err(Error::HttpError(status, body)) => {
            assert_eq!(status, 500);
            assert_eq!(body, "boom");
        }
        _ => panic!("expected a transport error"),
    }
}

#[test]
fn schemes_swap_between_http_and_ws() {
    assert_eq!(scheme_to_http("ws"), Some("http"));
    assert_eq!(scheme_to_http("wss"), Some("https"));
    assert_eq!(scheme_to_http("ftp"), None);
    assert_eq!(scheme_to_ws("http"), Some("ws"));
    assert_eq!(scheme_to_ws("https"), Some("wss"));
    assert_eq!(scheme_to_ws("ws"), None);
}

#[test]
fn service_dispatch_separates_results_and_errors() {
    let ok = obj(vec![("result", JsonVal::Int(5))]);
    match service_dispatch(&ok) {
        Ok(JsonVal::Int(5)) => {}
        _ => panic!("expected the result"),
    }
    let err = obj(vec![(
        "error",
        obj(vec![
            ("severity", JsonVal::Str("ERROR".to_string())),
            ("code", JsonVal::Str("nope".to_string())),
            ("params", obj(vec![])),
        ]),
    )]);
    match service_dispatch(&err) {
        Err(Error::ServiceError(status)) => assert_eq!(status.code, "nope"),
        _ => panic!("expected a service error"),
    }
    let neither = obj(vec![]);
    match service_dispatch(&neither) {
        Ok(JsonVal::Null) => {}
        _ => panic!("expected an implicit null result"),
    }
    let both = obj(vec![("result", JsonVal::Int(1)), ("error", obj(vec![]))]);
    assert!(matches!(service_dispatch(&both), Err(Error::Other(_))));
    let bad_error = obj(vec![("error", JsonVal::Int(1))]);
    assert!(matches!(service_dispatch(&bad_error), Err(Error::Decode)));
}

#[test]
fn service_request_body_holds_method_and_params() {
    let body = service_request_body("selectWorkspace", JsonVal::Int(1));
    let text = json_to_text(&body).unwrap();
    assert_eq!(text, r#"{"method":"selectWorkspace","params":1}"#);
}

#[test]
fn json_round_trips_through_the_codec() {
    let v = json_from_text(r#"{"a":1,"b":[true,null,"x"],"c":{"d":-2}}"#).unwrap();
    match v.get("a") {
        Some(JsonVal::Int(1)) => {}
        _ => panic!("expected a number field"),
    }
    let text = json_to_text(&v).unwrap();
    let again = json_from_text(&text).unwrap();
    assert_eq!(json_to_text(&again).unwrap(), text);
    assert!(json_from_text("{oops").is_none());
}

#[test]
fn response_envelopes_decode_exactly() {
    let v = json_from_text(
        r#"{"id":9,"result":[1,2],"terminate":true,"queue":4,"chunk":{"index":1,"final":false}}"#,
    )
    .unwrap();
    let resp = decode_response(&v).unwrap();
    assert!(matches!(resp.id, Some(ReqId::Num(9))));
    assert_eq!(resp.terminate, Some(true));
    assert_eq!(resp.queue, Some(4));
    let chunk = resp.chunk.unwrap();
    assert_eq!(chunk.index, 1);
    assert!(!chunk.is_final);

    // A string identifier stays in the string domain.
    let v = json_from_text(r#"{"id":"1"}"#).unwrap();
    let resp = decode_response(&v).unwrap();
    match resp.id {
        Some(ReqId::Str(s)) => assert_eq!(s, "1"),
        _ => panic!("expected a string identifier"),
    }
    // The two identifier domains are distinct.
    assert!(ReqId::Str("1".to_string()) != ReqId::Num(1));

    // A present field of the wrong shape refuses the envelope.
    let v = json_from_text(r#"{"terminate":3}"#).unwrap();
    assert!(decode_response(&v).is_none());
}

#[test]
fn response_with_error_splits_into_status() {
    let v = json_from_text(
        r#"{"id":3,"error":{"severity":"WARNING","code":"w1","params":{"k":"v"}}}"#,
    )
    .unwrap();
    let resp = decode_response(&v).unwrap();
    let status = resp.into_result().unwrap_err();
    assert!(matches!(status.severity, Severity::Warning));
    assert_eq!(status.code, "w1");
    assert_eq!(status.params, vec![("k".to_string(), "v".to_string())]);
}

#[test]
fn severity_and_status_decode() {
    assert_eq!(severity_of_json(&JsonVal::Str("OK".to_string())), Some(Severity::Okay));
    assert_eq!(severity_of_json(&JsonVal::Str("INFO".to_string())), Some(Severity::Info));
    assert_eq!(severity_of_json(&JsonVal::Str("warning".to_string())), None);
    let bad = obj(vec![
        ("severity", JsonVal::Str("ERROR".to_string())),
        ("code", JsonVal::Str("c".to_string())),
        ("params", obj(vec![("k", JsonVal::Int(1))])),
    ]);
    assert!(status_of_json(&bad).is_none());
    assert_eq!(chunk_of_json(&obj(vec![("index", JsonVal::Int(1))])), None);
}

#[test]
fn hello_response_requires_its_fields() {
    let v = json_from_text(
        r#"{"binary":true,"serverVersion":"7","account":{"uuid":"u"},"reconnect":true}"#,
    )
    .unwrap();
    let hello = decode_hello(&v).unwrap();
    assert!(hello.binary);
    assert_eq!(hello.server_version, "7");
    assert_eq!(hello.reconnect, Some(true));
    assert_eq!(hello.use_compression, None);

    let missing = json_from_text(r#"{"binary":true,"serverVersion":"7"}"#).unwrap();
    assert!(decode_hello(&missing).is_none());
}

#[test]
fn numbers_beyond_i64_keep_a_literal_text() {
    // Fractional and oversized numbers are carried as numeric literals, not
    // integers, and survive a re-encode.
    let v = json_from_text(r#"{"big":184467440737095516150,"frac":1.5}"#).unwrap();
    assert!(matches!(v.get("frac"), Some(JsonVal::Num(_))));
    assert!(matches!(v.get("big"), Some(JsonVal::Num(_))));
    let text = json_to_text(&v).unwrap();
    assert_eq!(json_to_text(&json_from_text(&text).unwrap()).unwrap(), text);
}
