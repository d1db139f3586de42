use transactor_client::json::JsonVal;
use transactor_client::pulse::{
    make_rest_api_endpoint, pulse_get_outcome, put_headers, Expiration, PutMode,
};
use transactor_client::Error;
use url::Url;

#[test]
fn test_make_rest_api_endpoint() {
    let check_url = |original: &str, expected: &str| {
        let original_url = Url::parse(original).unwrap();
        let expected_url = Url::parse(expected).unwrap();
        let (scheme, path) =
            make_rest_api_endpoint(original_url.scheme(), original_url.path()).unwrap();
        let mut rebuilt = original_url.clone();
        rebuilt.set_scheme(&scheme).unwrap();
        rebuilt.set_path(&path);
        let processed = rebuilt.join("workspace").unwrap();
        assert_eq!(processed, expected_url);
    };
    let check_invalid_rejected = |original: &str| {
        let original_url = Url::parse(original).unwrap();
        let processed = make_rest_api_endpoint(original_url.scheme(), original_url.path());
        assert!(processed.is_err());
    };
    check_url(
        "ws://pulse.on.some.host/ws",
        "http://pulse.on.some.host/api/workspace",
    );
    check_url(
        "wss://pulse.on.some.host/ws",
        "https://pulse.on.some.host/api/workspace",
    );
    check_url(
        "ws://pulse.on.some.host/path/ws",
        "http://pulse.on.some.host/path/api/workspace",
    );
    check_url(
        "wss://pulse.on.some.host/path/ws",
        "https://pulse.on.some.host/path/api/workspace",
    );
    check_url(
        "http://pulse.on.some.host/api/",
        "http://pulse.on.some.host/api/workspace",
    );
    check_url(
        "https://pulse.on.some.host/api/",
        "https://pulse.on.some.host/api/workspace",
    );
    check_url(
        "http://pulse.on.some.host/path/api/",
        "http://pulse.on.some.host/path/api/workspace",
    );
    check_url(
        "https://pulse.on.some.host/path/api/",
        "https://pulse.on.some.host/path/api/workspace",
    );
    check_url(
        "wss://pulse.hc.engineering/ws",
        "https://pulse.hc.engineering/api/workspace",
    );

    check_invalid_rejected("ws://pulse.on.some.host/");
    check_invalid_rejected("ws://pulse.on.some.host/some/path");
    check_invalid_rejected("wss://pulse.on.some.host/api/");
    check_invalid_rejected("http://pulse.on.some.host/");
    check_invalid_rejected("http://pulse.on.some.host/api");
    check_invalid_rejected("https://pulse.on.some.host/some/path");
}

#[test]
fn put_headers_cover_expiry_and_mode() {
    let h = put_headers(&Some(Expiration::InSeconds(90)), &PutMode::Insert);
    assert_eq!(h.len(), 2);
    assert_eq!(h[0].0, "huly-ttl");
    assert_eq!(h[0].1, "90");
    assert_eq!(h[1].0, "if-none-match");
    assert_eq!(h[1].1, "*");

    let h = put_headers(&None, &PutMode::Equal("abc".to_string()));
    assert_eq!(h.len(), 1);
    assert_eq!(h[0].0, "if-match");
    assert_eq!(h[0].1, "abc");

    let h = put_headers(&Some(Expiration::AtTime(1700000000)), &PutMode::Upsert);
    assert_eq!(h.len(), 1);
    assert_eq!(h[0].0, "huly-expire-at");
    assert_eq!(h[0].1, "1700000000");

    let h = put_headers(&None, &PutMode::Update);
    assert_eq!(h.len(), 1);
    assert_eq!(h[0].0, "if-match");
    assert_eq!(h[0].1, "*");
}

#[test]
fn pulse_get_classifies_status() {
    let body = JsonVal::Obj(vec![
        ("key".to_string(), JsonVal::Str("k".to_string())),
        ("data".to_string(), JsonVal::Str("d".to_string())),
        ("expires_at".to_string(), JsonVal::Int(60)),
        ("etag".to_string(), JsonVal::Str("e".to_string())),
    ]);
    let got = pulse_get_outcome(200, &body, String::new()).unwrap().unwrap();
    assert_eq!(got.key, "k");
    assert_eq!(got.data, "d");
    assert_eq!(got.etag, "e");

    assert!(pulse_get_outcome(404, &body, String::new()).unwrap().is_none());

    match pulse_get_outcome(503, &body, "down".to_string()) {
        Err(Error::HttpError(status, text)) => {
            assert_eq!(status, 503);
            assert_eq!(text, "down");
        }
        _ => panic!("expected a transport error"),
    }

    match pulse_get_outcome(200, &JsonVal::Null, String::new()) {
        Err(Error::Decode) => {}
        _ => panic!("expected a decode error"),
    }
}
