use transactor_client::json::JsonVal;
use transactor_client::session::{
    complete_call, handshake_result, Action, Command, Frame, HandshakeWait, KeepaliveAction,
    KeepaliveState, ReplyOutcome, SessionEvent, SessionState,
};
use transactor_client::Error;

fn obj(fields: Vec<(&str, JsonVal)>) -> JsonVal {
    JsonVal::Obj(
        fields
            .into_iter()
            .map(|(k, v)| (k.to_string(), v))
            .collect(),
    )
}

fn s(text: &str) -> JsonVal {
    JsonVal::Str(text.to_string())
}

fn sent_text(action: &Action) -> String {
    match action {
        Action::SendText(t) => t.clone(),
        _ => panic!("expected a text frame"),
    }
}

fn hello_frame() -> String {
    r#"{"id":-1,"result":"hello","binary":false,"serverVersion":"1.0","account":{"uuid":"u"}}"#
        .to_string()
}

#[test]
fn hello_is_exchanged_exactly_once() {
    let mut state = SessionState::new(false, false);
    let acts = state.on_text(hello_frame());
    assert_eq!(acts.len(), 1);
    assert!(matches!(acts[0], Action::HelloOk));

    // A second frame shaped like a HELLO response is ignored: it does not
    // re-fulfil the handshake channel.
    let acts = state.on_text(hello_frame());
    assert_eq!(acts.len(), 0);
}

#[test]
fn hello_adopts_server_modes() {
    let mut state = SessionState::new(false, false);
    let frame = r#"{"id":-1,"result":"hello","binary":true,"useCompression":true,"serverVersion":"2","account":{}}"#;
    let acts = state.on_text(frame.to_string());
    assert_eq!(acts.len(), 1);
    assert!(matches!(acts[0], Action::HelloOk));
    // The next outbound call is sent in the server's chosen binary mode.
    let acts = state.on_call(obj(vec![("method", s("ping")), ("params", JsonVal::Arr(vec![]))]), 1);
    assert!(matches!(acts[0], Action::SendBinary(_)));
}

#[test]
fn sentinel_error_is_ignored() {
    let mut state = SessionState::new(false, false);
    let frame = r#"{"id":-1,"error":{"severity":"ERROR","code":"bad","params":{}}}"#;
    let acts = state.on_text(frame.to_string());
    assert_eq!(acts.len(), 0);
}

#[test]
fn request_ids_increase_from_one() {
    let mut state = SessionState::new(false, false);
    for expected in 1..=3i64 {
        let payload = obj(vec![("method", s("tx")), ("params", JsonVal::Arr(vec![]))]);
        let acts = state.on_call(payload, expected as u64);
        assert_eq!(acts.len(), 1);
        let text = sent_text(&acts[0]);
        let v: serde_json::Value = serde_json::from_str(&text).unwrap();
        assert_eq!(v["id"].as_i64(), Some(expected));
        assert_ne!(v["id"].as_i64(), Some(-1));
    }
}

#[test]
fn replies_route_by_id_in_any_order() {
    let mut state = SessionState::new(false, false);
    // Three concurrent calls with distinct payloads.
    for handle in [10u64, 20, 30] {
        let payload = obj(vec![("method", s("call")), ("params", JsonVal::Arr(vec![]))]);
        state.on_call(payload, handle);
    }
    // The server answers in a different order than submission.
    for (id, handle, marker) in [(2i64, 20u64, "two"), (3, 30, "three"), (1, 10, "one")] {
        let frame = format!(r#"{{"id":{},"result":"{}"}}"#, id, marker);
        let acts = state.on_text(frame);
        assert_eq!(acts.len(), 1);
        match &acts[0] {
            Action::Reply { handle: h, reply } => {
                assert_eq!(*h, handle);
                let ok = reply.as_ref().unwrap();
                match ok.result.as_ref().unwrap() {
                    JsonVal::Str(got) => assert_eq!(got, marker),
                    _ => panic!("expected a string result"),
                }
            }
            _ => panic!("expected a reply"),
        }
    }
    // A further reply with an unknown identifier correlates with nothing.
    let acts = state.on_text(r#"{"id":1,"result":"stale"}"#.to_string());
    assert_eq!(acts.len(), 0);
}

#[test]
fn service_error_reply_reaches_caller() {
    let mut state = SessionState::new(false, false);
    state.on_call(obj(vec![("method", s("call")), ("params", JsonVal::Arr(vec![]))]), 5);
    let frame = r#"{"id":1,"error":{"severity":"ERROR","code":"denied","params":{"who":"me"}}}"#;
    let acts = state.on_text(frame.to_string());
    match &acts[0] {
        Action::Reply { handle, reply } => {
            assert_eq!(*handle, 5);
            let status = reply.as_ref().unwrap_err();
            assert_eq!(status.code, "denied");
            assert_eq!(status.params, vec![("who".to_string(), "me".to_string())]);
        }
        _ => panic!("expected a reply"),
    }
}

#[test]
fn pushed_transactions_broadcast_each_element() {
    let mut state = SessionState::new(false, false);
    let frame = r#"{"result":[{"_class":"a"},{"_class":"b"}]}"#;
    let acts = state.on_text(frame.to_string());
    assert_eq!(acts.len(), 2);
    for (act, class) in acts.iter().zip(["a", "b"]) {
        match act {
            Action::Broadcast(v) => match v.get("_class").unwrap() {
                JsonVal::Str(c) => assert_eq!(c, class),
                _ => panic!("expected a class string"),
            },
            _ => panic!("expected a broadcast"),
        }
    }
}

#[test]
fn pong_token_is_recognised_before_parsing() {
    let mut state = SessionState::new(false, false);
    let acts = state.on_text("pong!".to_string());
    assert_eq!(acts.len(), 0);
    let acts = state.on_binary(b"pong!".to_vec());
    assert_eq!(acts.len(), 0);
}

#[test]
fn server_ping_gets_a_ping_reply() {
    let mut state = SessionState::new(false, false);
    let acts = state.on_text(r#"{"result":"ping"}"#.to_string());
    assert_eq!(acts.len(), 1);
    assert_eq!(sent_text(&acts[0]), "\"ping\"");

    // A ping control frame is answered the same way, not correlated.
    let acts = state.step(SessionEvent::Frame(Frame::Ping));
    assert_eq!(sent_text(&acts[0]), "\"ping\"");
}

#[test]
fn malformed_frame_stops_the_session_with_decode_error() {
    let mut state = SessionState::new(false, false);
    let acts = state.on_text("{not json".to_string());
    assert_eq!(acts.len(), 1);
    assert!(matches!(acts[0], Action::Stop(Some(Error::Decode))));
}

#[test]
fn close_events_stop_the_loop() {
    let mut state = SessionState::new(false, false);
    let acts = state.step(SessionEvent::Frame(Frame::Close));
    assert!(matches!(acts[0], Action::Stop(None)));
    let mut state = SessionState::new(false, false);
    let acts = state.step(SessionEvent::Command(Command::Close));
    assert!(matches!(acts[0], Action::Stop(None)));
}

#[test]
fn closed_connection_fails_pending_callers() {
    let mut state = SessionState::new(false, false);
    state.on_call(obj(vec![("method", s("call")), ("params", JsonVal::Arr(vec![]))]), 7);
    state.on_call(obj(vec![("method", s("call")), ("params", JsonVal::Arr(vec![]))]), 8);
    // The socket closes while both replies are pending: every reply slot is
    // handed back exactly once, and the callers observe "connection closed
    // before reply" rather than a hang.
    let handles = state.teardown();
    assert_eq!(handles, vec![7, 8]);
    match complete_call(ReplyOutcome::ChannelClosed) {
        Err(Error::ConnectionClosed) => {}
        _ => panic!("expected connection closed"),
    }
}

#[test]
fn reply_without_result_is_implicit_null() {
    let outcome = ReplyOutcome::Delivered(Ok(transactor_client::rpc::OkResponse {
        result: None,
        id: None,
        terminate: None,
        rate_limit: None,
        chunk: None,
        time: None,
        bfst: None,
        queue: None,
    }));
    assert!(matches!(complete_call(outcome), Ok(JsonVal::Null)));
}

#[test]
fn handshake_outcomes_stay_distinct() {
    assert!(handshake_result(HandshakeWait::Completed).is_ok());
    assert!(matches!(
        handshake_result(HandshakeWait::TimedOut),
        Err(Error::HandshakeTimeout)
    ));
    assert!(matches!(
        handshake_result(HandshakeWait::ChannelClosed),
        Err(Error::HandshakeChannelClosed)
    ));
}

#[test]
fn keepalive_pings_then_watches_for_hangs() {
    let mut ka = KeepaliveState::new();
    assert_eq!(ka.tick(1000), KeepaliveAction::SendPing);
    ka.note_ping_reply(2000);
    assert_eq!(ka.tick(12000), KeepaliveAction::Nothing);
    assert_eq!(ka.tick(22000), KeepaliveAction::SendPing);
    ka.note_ping_reply(23000);
    assert_eq!(ka.tick(23000 + 300001), KeepaliveAction::Hung);
}

#[test]
fn hello_request_carries_sentinel_and_modes() {
    let state = SessionState::new(false, true);
    let acts = state.hello_actions();
    let text = sent_text(&acts[0]);
    let v: serde_json::Value = serde_json::from_str(&text).unwrap();
    assert_eq!(v["id"].as_i64(), Some(-1));
    assert_eq!(v["method"].as_str(), Some("hello"));
    assert_eq!(v["params"].as_array().map(|a| a.len()), Some(0));
    assert_eq!(v["binary"].as_bool(), Some(false));
    assert_eq!(v["compression"].as_bool(), Some(true));
}

#[test]
fn binary_frames_parse_like_text() {
    let mut state = SessionState::new(true, false);
    state.on_call(obj(vec![("method", s("call")), ("params", JsonVal::Arr(vec![]))]), 4);
    let frame = br#"{"id":1,"result":"bin"}"#.to_vec();
    let acts = state.on_binary(frame);
    assert_eq!(acts.len(), 1);
    match &acts[0] {
        Action::Reply { handle, .. } => assert_eq!(*handle, 4),
        _ => panic!("expected a reply"),
    }
}
