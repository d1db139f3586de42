use transactor_client::json::JsonVal;
use transactor_client::subscription::{
    BroadcastRecv, LiveQuery, LiveQueryEvent, LiveQueryInput, SubStep, SubscribedQuery, TxEvent,
};
use transactor_client::Error;

fn tx(class: &str, object_class: &str) -> JsonVal {
    JsonVal::Obj(vec![
        ("_class".to_string(), JsonVal::Str(class.to_string())),
        ("objectClass".to_string(), JsonVal::Str(object_class.to_string())),
        ("objectId".to_string(), JsonVal::Str("d1".to_string())),
    ])
}

#[test]
fn mismatched_class_produces_no_output() {
    let sub = SubscribedQuery::new("card:class:Card".to_string());
    let item = tx("core:class:TxCreateDoc", "other:class:Thing");
    assert!(matches!(sub.poll_step(BroadcastRecv::Item(item)), SubStep::Skip));
    // A matching transaction of an unrelated transaction kind is skipped too.
    let item = tx("core:class:TxMixin", "card:class:Card");
    assert!(matches!(sub.poll_step(BroadcastRecv::Item(item)), SubStep::Skip));
}

#[test]
fn matching_transactions_become_typed_events() {
    let sub = SubscribedQuery::new("card:class:Card".to_string());
    match sub.poll_step(BroadcastRecv::Item(tx("core:class:TxCreateDoc", "card:class:Card"))) {
        SubStep::Emit(TxEvent::Created(_)) => {}
        _ => panic!("expected a created event"),
    }
    match sub.poll_step(BroadcastRecv::Item(tx("core:class:TxUpdateDoc", "card:class:Card"))) {
        SubStep::Emit(TxEvent::Updated(_)) => {}
        _ => panic!("expected an updated event"),
    }
    match sub.poll_step(BroadcastRecv::Item(tx("core:class:TxRemoveDoc", "card:class:Card"))) {
        SubStep::Emit(TxEvent::Deleted(_)) => {}
        _ => panic!("expected a deleted event"),
    }
}

#[test]
fn lag_yields_exactly_one_error_item() {
    let sub = SubscribedQuery::new("card:class:Card".to_string());
    assert!(matches!(sub.poll_step(BroadcastRecv::Lagged(17)), SubStep::LagError));
    // The channel closing ends the stream instead.
    assert!(matches!(sub.poll_step(BroadcastRecv::Closed), SubStep::End));
}

#[test]
fn live_query_yields_initial_then_polled() {
    // A fixture run: the initial fetch returns three existing documents,
    // then the server pushes one matching create.
    let mut live = LiveQuery::new("card:class:Card".to_string());
    let docs = vec![
        JsonVal::Str("one".to_string()),
        JsonVal::Str("two".to_string()),
        JsonVal::Str("three".to_string()),
    ];
    match live.step(LiveQueryInput::Fetched(Ok(docs))) {
        Some(Ok(LiveQueryEvent::Initial(snapshot))) => assert_eq!(snapshot.len(), 3),
        _ => panic!("expected the initial snapshot first"),
    }
    let pushed = tx("core:class:TxCreateDoc", "card:class:Card");
    match live.step(LiveQueryInput::Sub(BroadcastRecv::Item(pushed))) {
        Some(Ok(LiveQueryEvent::Polled(TxEvent::Created(_)))) => {}
        _ => panic!("expected a polled create after the snapshot"),
    }
}

#[test]
fn live_query_surfaces_lag_and_skips_foreign_items() {
    let mut live = LiveQuery::new("card:class:Card".to_string());
    live.step(LiveQueryInput::Fetched(Ok(vec![])));
    let foreign = tx("core:class:TxCreateDoc", "other:class:Thing");
    assert!(live.step(LiveQueryInput::Sub(BroadcastRecv::Item(foreign))).is_none());
    match live.step(LiveQueryInput::Sub(BroadcastRecv::Lagged(3))) {
        Some(Err(Error::SubscriptionLagged)) => {}
        _ => panic!("expected an explicit lag error"),
    }
    assert!(live.step(LiveQueryInput::Sub(BroadcastRecv::Closed)).is_none());
}

#[test]
fn live_query_failed_fetch_is_delivered_then_streaming_continues() {
    let mut live = LiveQuery::new("card:class:Card".to_string());
    match live.step(LiveQueryInput::Fetched(Err(Error::ConnectionClosed))) {
        Some(Err(Error::ConnectionClosed)) => {}
        _ => panic!("expected the fetch error to surface"),
    }
    let pushed = tx("core:class:TxCreateDoc", "card:class:Card");
    assert!(live.step(LiveQueryInput::Sub(BroadcastRecv::Item(pushed))).is_some());
}

#[test]
fn strip_lookup_removes_metadata_keys() {
    let doc = JsonVal::Obj(vec![
        ("_id".to_string(), JsonVal::Str("d1".to_string())),
        ("$lookup".to_string(), JsonVal::Obj(vec![])),
        ("$associations".to_string(), JsonVal::Obj(vec![])),
        ("$source".to_string(), JsonVal::Null),
        ("title".to_string(), JsonVal::Str("t".to_string())),
    ]);
    let event = TxEvent::Created(doc).strip_lookup();
    let payload = match event {
        TxEvent::Created(v) => v,
        _ => panic!("expected a created event"),
    };
    assert!(payload.get("$lookup").is_none());
    assert!(payload.get("$associations").is_none());
    assert!(payload.get("$source").is_none());
    assert!(payload.get("title").is_some());

    let initial = LiveQueryEvent::Initial(vec![JsonVal::Obj(vec![(
        "$lookup".to_string(),
        JsonVal::Null,
    )])]);
    match initial.strip_lookup() {
        LiveQueryEvent::Initial(docs) => {
            assert_eq!(docs.len(), 1);
            assert!(docs[0].get("$lookup").is_none());
        }
        _ => panic!("expected the snapshot"),
    }
}
