use transactor_client::comm::{generate_ksuid_hex, Envelope, MessageRequestType};
use transactor_client::json::{json_to_text, JsonVal};
use transactor_client::types::WorkspaceEvent;

#[test]
fn request_types_spell_like_the_wire() {
    assert_eq!(MessageRequestType::CreateMessage.text(), "createMessage");
    assert_eq!(MessageRequestType::ReactionPatch.text(), "reactionPatch");
    assert_eq!(
        MessageRequestType::UpdateNotificationContext.text(),
        "updateNotificationContext"
    );
}

#[test]
fn envelope_wraps_the_request_as_a_domain_event() {
    let request = JsonVal::Obj(vec![
        ("cardId".to_string(), JsonVal::Str("c1".to_string())),
        ("content".to_string(), JsonVal::Str("hi".to_string())),
    ]);
    let envelope = Envelope::new(MessageRequestType::CreateMessage, request);
    let text = json_to_text(&envelope.to_json("tx-9")).unwrap();
    assert_eq!(
        text,
        r#"{"_class":"core:class:TxDomainEvent","_id":"tx-9","domain":"communication","event":{"cardId":"c1","content":"hi","type":"createMessage"},"objectSpace":"core:space:Domain","space":"core:space:Tx"}"#
    );
}

#[test]
fn ksuid_identifiers_are_hex_and_distinct() {
    let a = generate_ksuid_hex();
    let b = generate_ksuid_hex();
    assert!(a.chars().all(|c| c.is_ascii_hexdigit()));
    assert_ne!(a, b);
}

#[test]
fn workspace_event_codes_round_trip() {
    for code in 0u8..=5 {
        let event = WorkspaceEvent::from_code(code).unwrap();
        assert_eq!(event.code(), code);
    }
    assert!(WorkspaceEvent::from_code(6).is_none());
}
