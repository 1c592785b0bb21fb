use codex_api::json::JsonValue;
use codex_api::payload::{attach_item_ids_to_json, ContentItem, ResponseItem};

fn message_element(role: &str) -> JsonValue {
    JsonValue::Object(vec![
        ("type".to_string(), JsonValue::Str("message".to_string())),
        ("role".to_string(), JsonValue::Str(role.to_string())),
        ("content".to_string(), JsonValue::Array(vec![])),
    ])
}

fn payload(elements: Vec<JsonValue>) -> JsonValue {
    JsonValue::Object(vec![
        ("model".to_string(), JsonValue::Str("gpt-4".to_string())),
        ("input".to_string(), JsonValue::Array(elements)),
    ])
}

fn input_of(payload: &JsonValue) -> &Vec<JsonValue> {
    match payload {
        JsonValue::Object(members) => {
            for (k, v) in members {
                if k == "input" {
                    if let JsonValue::Array(items) = v {
                        return items;
                    }
                }
            }
            panic!("no input array")
        }
        _ => panic!("not an object"),
    }
}

fn id_of(element: &JsonValue) -> Option<&str> {
    match element {
        JsonValue::Object(members) => members.iter().rev().find(|(k, _)| k == "id").map(|(_, v)| {
            match v {
                JsonValue::Str(s) => s.as_str(),
                _ => panic!("id is not a string"),
            }
        }),
        _ => None,
    }
}

#[test]
fn attach_item_ids_patches_json() {
    let items = vec![
        ResponseItem::Message {
            id: Some("msg-1".into()),
            role: "assistant".into(),
            content: vec![ContentItem::OutputText { text: "hello".into() }],
        },
        ResponseItem::Message {
            id: None,
            role: "user".into(),
            content: vec![ContentItem::InputText { text: "world".into() }],
        },
    ];
    let mut payload = payload(vec![message_element("assistant"), message_element("user")]);
    attach_item_ids_to_json(&mut payload, &items);
    let input = input_of(&payload);
    assert_eq!(id_of(&input[0]), Some("msg-1"));
    assert_eq!(id_of(&input[1]), None);
}

#[test]
fn empty_ids_and_non_objects_are_skipped() {
    let items = vec![
        ResponseItem::Reasoning { id: "".into(), encrypted_content: None },
        ResponseItem::FunctionCall {
            id: Some("fc-1".into()),
            name: "f".into(),
            arguments: "{}".into(),
            call_id: "c".into(),
        },
        ResponseItem::Reasoning { id: "rs-1".into(), encrypted_content: None },
    ];
    let mut payload = payload(vec![
        message_element("user"),
        JsonValue::Str("raw".to_string()),
        message_element("assistant"),
    ]);
    attach_item_ids_to_json(&mut payload, &items);
    let input = input_of(&payload);
    assert_eq!(id_of(&input[0]), None);
    assert!(matches!(&input[1], JsonValue::Str(s) if s == "raw"));
    assert_eq!(id_of(&input[2]), Some("rs-1"));
}

#[test]
fn patching_twice_changes_nothing() {
    let items = vec![ResponseItem::WebSearchCall { id: Some("ws-1".into()) }];
    let mut payload = payload(vec![message_element("assistant")]);
    attach_item_ids_to_json(&mut payload, &items);
    attach_item_ids_to_json(&mut payload, &items);
    let input = input_of(&payload);
    assert_eq!(id_of(&input[0]), Some("ws-1"));
    match &input[0] {
        JsonValue::Object(members) => assert_eq!(members.len(), 4),
        _ => panic!("not an object"),
    }
}

#[test]
fn payload_without_input_is_untouched() {
    let items = vec![ResponseItem::Other];
    let mut payload = JsonValue::Object(vec![("model".to_string(), JsonValue::Null)]);
    attach_item_ids_to_json(&mut payload, &items);
    match payload {
        JsonValue::Object(members) => assert_eq!(members.len(), 1),
        _ => panic!("not an object"),
    }
}
