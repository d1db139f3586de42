use transactor_client::document::{
    to_dec, to_hex_upper, CreateDocument, Data, IdGenerator, RemoveDocument,
};
use transactor_client::json::{json_from_text, json_to_text, JsonVal};
use transactor_client::methods::Method;
use transactor_client::transactor::{
    build_find_params, decode_find_result, find_one_pick, postprocess_find, ws_call_payload,
    ws_get_params, ws_post_params, FindOptions, Lookup, LookupValue, ReverseLookupValue,
    TransactionValue, TransactorClient,
};
use transactor_client::Error;

fn obj(fields: Vec<(&str, JsonVal)>) -> JsonVal {
    JsonVal::Obj(
        fields
            .into_iter()
            .map(|(k, v)| (k.to_string(), v))
            .collect(),
    )
}

fn s(text: &str) -> JsonVal {
    JsonVal::Str(text.to_string())
}

#[test]
fn find_params_require_an_object_query() {
    let options = FindOptions::builder().build();
    let params = build_find_params("card:class:Card", obj(vec![]), &options).unwrap();
    assert_eq!(params.len(), 3);
    assert_eq!(json_to_text(&params[0]).unwrap(), r#""card:class:Card""#);
    assert_eq!(
        json_to_text(&params[2]).unwrap(),
        r#"{"showArchived":false,"total":false}"#
    );
    assert!(matches!(
        build_find_params("c", JsonVal::Int(1), &options),
        Err(Error::Other(_))
    ));
}

#[test]
fn find_options_serialize_in_order() {
    let lookup = Lookup {
        reverse_lookups: Some(vec![(
            "children".to_string(),
            ReverseLookupValue::WithAttribute("card:class:Card".to_string(), "parent".to_string()),
        )]),
        forward_lookups: vec![("space".to_string(), LookupValue::Simple("core:class:Space".to_string()))],
    };
    let options = FindOptions::builder()
        .limit(5)
        .lookup(lookup)
        .project("title")
        .project("title")
        .total(true)
        .build();
    let text = json_to_text(&options.to_json()).unwrap();
    assert_eq!(
        text,
        r#"{"limit":5,"lookup":{"_id":{"children":["card:class:Card","parent"]},"space":"core:class:Space"},"projection":{"title":1},"showArchived":false,"total":true}"#
    );
}

#[test]
fn find_results_decode_and_pick_first() {
    let v = json_from_text(r#"{"total":2,"value":[{"_class":"c"},{"_class":"d"}]}"#).unwrap();
    let result = decode_find_result(&v).unwrap();
    assert_eq!(result.total, 2);
    assert_eq!(result.value.len(), 2);
    assert!(result.lookup_map.is_none());
    let first = find_one_pick(result).unwrap();
    assert_eq!(json_to_text(&first).unwrap(), r#"{"_class":"c"}"#);

    let empty = decode_find_result(&json_from_text(r#"{"total":0,"value":[]}"#).unwrap()).unwrap();
    assert!(find_one_pick(empty).is_none());
}

#[test]
fn postprocess_resolves_lookups_and_merges_query() {
    // One entry referencing a looked-up document by key, one query field to
    // merge, and a missing class tag to make explicit.
    let entries = vec![obj(vec![
        ("_id", s("d1")),
        ("$lookup", obj(vec![("space", s("space-1")), ("tags", JsonVal::Arr(vec![s("t1"), s("missing")]))])),
    ])];
    let map = Some(vec![
        ("space-1".to_string(), obj(vec![("name", s("General"))])),
        ("t1".to_string(), obj(vec![("name", s("Tag"))])),
    ]);
    let query = vec![
        ("title".to_string(), s("hello")),
        ("nested".to_string(), obj(vec![])),
        ("_id".to_string(), s("ignored")),
    ];
    let out = postprocess_find(&entries, &map, "card:class:Card", &query).unwrap();
    assert_eq!(out.len(), 1);
    let text = json_to_text(&out[0]).unwrap();
    assert_eq!(
        text,
        r#"{"$lookup":{"space":{"name":"General"},"tags":[{"name":"Tag"},null]},"_class":"card:class:Card","_id":"d1","title":"hello"}"#
    );

    // An entry that is not an object is a decode error.
    let bad = vec![JsonVal::Int(1)];
    assert!(matches!(
        postprocess_find(&bad, &None, "c", &vec![]),
        Err(Error::Decode)
    ));
}

#[test]
fn ws_params_drop_names_and_require_objects() {
    let params = ws_get_params(vec![
        ("class".to_string(), s("c")),
        ("query".to_string(), JsonVal::Int(2)),
    ]);
    assert_eq!(json_to_text(&JsonVal::Arr(params)).unwrap(), r#"["c",2]"#);

    let body = obj(vec![("a", JsonVal::Int(1)), ("b", JsonVal::Bool(true))]);
    let params = ws_post_params(body).unwrap();
    assert_eq!(json_to_text(&JsonVal::Arr(params)).unwrap(), r#"[1,true]"#);
    assert!(matches!(ws_post_params(JsonVal::Int(3)), Err(Error::Other(_))));
}

#[test]
fn ws_call_payload_has_no_id() {
    let payload = ws_call_payload(Method::FindAll, vec![s("x")]);
    assert_eq!(
        json_to_text(&payload).unwrap(),
        r#"{"method":"findAll","params":["x"]}"#
    );
    assert!(payload.get("id").is_none());
}

#[test]
fn client_facade_hands_back_its_backend() {
    let client = TransactorClient::new(42u32);
    assert_eq!(*client.backend(), 42);
}

#[test]
fn digits_format_exactly() {
    assert_eq!(to_hex_upper(0), "0");
    assert_eq!(to_hex_upper(255), "FF");
    assert_eq!(to_hex_upper(3735928559), "DEADBEEF");
    assert_eq!(to_dec(0), "0");
    assert_eq!(to_dec(90210), "90210");
}

#[test]
fn object_ids_embed_clock_tag_and_counter() {
    let mut generator = IdGenerator {
        random_tag: "AAAAAABBBB".to_string(),
        count: 0,
    };
    // 0x10000 * 1000 milliseconds of epoch time: the hexadecimal clock part
    // is 0x10000 padded to eight characters with spaces.
    let id = generator.next_id(0x10000 * 1000);
    assert_eq!(id, "   10000AAAAAABBBB0");
    let id = generator.next_id(0x10000 * 1000);
    assert_eq!(id, "   10000AAAAAABBBB1");
    assert_eq!(generator.count, 2);
    // A clock before the epoch is floored to zero.
    let id = generator.next_id(-5000);
    assert_eq!(id, "       0AAAAAABBBB2");
}

#[test]
fn create_transaction_filters_reserved_attribute_keys() {
    let create = CreateDocument {
        object_id: "obj-1".to_string(),
        object_class: "card:class:Card".to_string(),
        modified_on: 1000,
        modified_by: Some("person".to_string()),
        created_on: None,
        created_by: None,
        object_space: "space-1".to_string(),
        attributes: obj(vec![
            ("title", s("hello")),
            ("_id", s("smuggled")),
            ("_class", s("smuggled")),
        ]),
    };
    let text = json_to_text(&create.to_json("tx-1")).unwrap();
    assert_eq!(
        text,
        r#"{"_class":"core:class:TxCreateDoc","_id":"tx-1","modifiedBy":"person","modifiedOn":1000,"objectClass":"card:class:Card","objectId":"obj-1","objectSpace":"space-1","space":"core:space:Tx","title":"hello"}"#
    );
}

#[test]
fn remove_transaction_serializes_exactly() {
    let remove = RemoveDocument {
        object_id: "obj-1".to_string(),
        object_class: "card:class:Card".to_string(),
        modified_on: None,
        modified_by: None,
        created_on: None,
        created_by: None,
        object_space: "space-1".to_string(),
    };
    let text = json_to_text(&remove.to_json("tx-2")).unwrap();
    assert_eq!(
        text,
        r#"{"_class":"core:class:TxRemoveDoc","_id":"tx-2","objectClass":"card:class:Card","objectId":"obj-1","objectSpace":"space-1","space":"core:space:Tx"}"#
    );
}

#[test]
fn data_wrapper_filters_on_serialization() {
    let data = Data::new(obj(vec![("a", JsonVal::Int(1)), ("space", s("x"))]));
    let text = json_to_text(&data.to_json()).unwrap();
    assert_eq!(text, r#"{"a":1}"#);
}

#[test]
fn transactions_match_by_class_and_domain() {
    let v = obj(vec![("_class", s("card:class:Card")), ("domain", s("communication"))]);
    assert!(v.matches(None, None));
    assert!(v.matches(Some("card:class:Card"), None));
    assert!(v.matches(Some("card:class:Card"), Some("communication")));
    assert!(!v.matches(Some("other"), None));
    assert!(!v.matches(None, Some("other")));
}

#[test]
fn generator_tag_is_padded_hexadecimal() {
    // The two draws are scaled into the low 32 bits and written in
    // hexadecimal, each half padded with spaces only when shorter than its
    // width.
    let generator = IdGenerator::new(1, 1);
    assert_eq!(generator.random_tag, "100000010000");
    let generator = IdGenerator::new(0, 0);
    assert_eq!(generator.random_tag, "     0   0");
    assert_eq!(generator.count, 0);
}
