use gst_dots_viewer::watcher::GraphEvent;
use gst_dots_viewer::wire::{
    dot_removed_frame, encode_events, new_dot_frame, IncomingMessage, IncomingMessageType,
    OutboundMessage, ProtocolError, TextMessage,
};

fn member<'a>(value: &'a serde_json::Value, key: &str) -> &'a serde_json::Value {
    value.get(key).expect("member")
}

#[test]
fn hello_is_decoded() {
    assert_eq!(
        IncomingMessage::decode("{\"type\": \"Hello\"}"),
        Ok(IncomingMessage { type_: IncomingMessageType::Hello })
    );
}

#[test]
fn snapshot_request_is_decoded() {
    assert_eq!(
        IncomingMessage::decode("{\"type\":\"Snapshot\"}"),
        Ok(IncomingMessage { type_: IncomingMessageType::Snapshot })
    );
}

#[test]
fn other_members_are_ignored() {
    assert_eq!(
        IncomingMessage::decode("{\"id\": 7, \"type\": \"Hello\", \"extra\": [1, {\"a\": null}]}"),
        Ok(IncomingMessage { type_: IncomingMessageType::Hello })
    );
}

#[test]
fn unknown_type_is_rejected() {
    assert_eq!(IncomingMessage::decode("{\"type\":\"Goodbye\"}"), Err(ProtocolError::UnknownType));
    assert_eq!(IncomingMessage::decode("{\"type\":\"hello\"}"), Err(ProtocolError::UnknownType));
    assert_eq!(IncomingMessage::decode("{\"type\":\"\"}"), Err(ProtocolError::UnknownType));
}

#[test]
fn text_that_is_not_json_is_malformed() {
    assert_eq!(IncomingMessage::decode(""), Err(ProtocolError::Malformed));
    assert_eq!(IncomingMessage::decode("Hello"), Err(ProtocolError::Malformed));
    assert_eq!(IncomingMessage::decode("{\"type\":\"Hello\""), Err(ProtocolError::Malformed));
    assert_eq!(IncomingMessage::decode("{\"type\":\"Hello\"} x"), Err(ProtocolError::Malformed));
}

#[test]
fn json_without_a_string_type_is_malformed() {
    assert_eq!(IncomingMessage::decode("{}"), Err(ProtocolError::Malformed));
    assert_eq!(IncomingMessage::decode("{\"kind\":\"Hello\"}"), Err(ProtocolError::Malformed));
    assert_eq!(IncomingMessage::decode("{\"type\":1}"), Err(ProtocolError::Malformed));
    assert_eq!(IncomingMessage::decode("{\"type\":null}"), Err(ProtocolError::Malformed));
    assert_eq!(IncomingMessage::decode("\"Hello\""), Err(ProtocolError::Malformed));
    assert_eq!(IncomingMessage::decode("[\"Hello\"]"), Err(ProtocolError::Malformed));
}

#[test]
fn the_type_tag_is_read_after_unescaping() {
    assert_eq!(
        IncomingMessage::decode("{\"type\":\"\\u0048ello\"}"),
        Ok(IncomingMessage { type_: IncomingMessageType::Hello })
    );
}

#[test]
fn tags_name_message_types() {
    assert_eq!(IncomingMessageType::from_tag("Hello"), Some(IncomingMessageType::Hello));
    assert_eq!(IncomingMessageType::from_tag("Snapshot"), Some(IncomingMessageType::Snapshot));
    assert_eq!(IncomingMessageType::from_tag("NewDot"), None);
    assert_eq!(IncomingMessageType::from_tag(""), None);
}

#[test]
fn a_missing_tag_is_malformed_and_an_unknown_one_is_unknown() {
    assert_eq!(IncomingMessage::from_tag(None), Err(ProtocolError::Malformed));
    assert_eq!(IncomingMessage::from_tag(Some("Nope")), Err(ProtocolError::UnknownType));
    assert_eq!(
        IncomingMessage::from_tag(Some("Snapshot")),
        Ok(IncomingMessage { type_: IncomingMessageType::Snapshot })
    );
}

#[test]
fn snapshot_frame_is_exact() {
    assert_eq!(OutboundMessage::Snapshot.encode(), TextMessage("{\"type\":\"Snapshot\"}".to_string()));
}

#[test]
fn new_dot_frame_is_exact() {
    let message = OutboundMessage::NewDot {
        name: "a.dot".to_string(),
        content: "digraph{}".to_string(),
        creation_time: 1700000000123,
    };
    assert_eq!(
        message.encode().0,
        "{\"type\":\"NewDot\",\"name\":\"a.dot\",\"content\":\"digraph{}\",\"creation_time\":1700000000123}"
    );
}

#[test]
fn dot_removed_frame_is_exact() {
    let message = OutboundMessage::DotRemoved { name: "sub/a.dot".to_string(), creation_time: 0 };
    assert_eq!(
        message.encode().0,
        "{\"type\":\"DotRemoved\",\"name\":\"sub/a.dot\",\"creation_time\":0}"
    );
}

#[test]
fn strings_are_escaped_in_frames() {
    let message = OutboundMessage::NewDot {
        name: "we\"ird\\.dot".to_string(),
        content: "digraph {\n\ta -> \"b\";\n}".to_string(),
        creation_time: 1,
    };
    assert_eq!(
        message.encode().0,
        "{\"type\":\"NewDot\",\"name\":\"we\\\"ird\\\\.dot\",\"content\":\"digraph {\\n\\ta -> \\\"b\\\";\\n}\",\"creation_time\":1}"
    );
}

#[test]
fn frames_are_json_that_reads_back() {
    let content = "digraph pipeline {\n  label=\"caf\u{e9} \u{1F600} \\ \u{1} end\";\n}";
    let message = OutboundMessage::NewDot {
        name: "d\u{fc}/x.dot".to_string(),
        content: content.to_string(),
        creation_time: u64::MAX,
    };
    let value: serde_json::Value = serde_json::from_str(&message.encode().0).expect("json");
    assert_eq!(value.as_object().expect("object").len(), 4);
    assert_eq!(member(&value, "type").as_str(), Some("NewDot"));
    assert_eq!(member(&value, "name").as_str(), Some("d\u{fc}/x.dot"));
    assert_eq!(member(&value, "content").as_str(), Some(content));
    assert_eq!(member(&value, "creation_time").as_u64(), Some(u64::MAX));

    let removed = OutboundMessage::DotRemoved { name: "a.dot".to_string(), creation_time: 12 };
    let value: serde_json::Value = serde_json::from_str(&removed.encode().0).expect("json");
    assert_eq!(value.as_object().expect("object").len(), 3);
    assert_eq!(member(&value, "type").as_str(), Some("DotRemoved"));
    assert_eq!(member(&value, "name").as_str(), Some("a.dot"));
    assert_eq!(member(&value, "creation_time").as_u64(), Some(12));
}

#[test]
fn events_become_messages() {
    let added = GraphEvent::Added {
        name: "a.dot".to_string(),
        content: "digraph{}".to_string(),
        timestamp: 3,
    };
    assert_eq!(
        OutboundMessage::from_event(added),
        OutboundMessage::NewDot {
            name: "a.dot".to_string(),
            content: "digraph{}".to_string(),
            creation_time: 3,
        }
    );
    let removed = GraphEvent::Removed { name: "a.dot".to_string(), timestamp: 0 };
    assert_eq!(
        OutboundMessage::from_event(removed),
        OutboundMessage::DotRemoved { name: "a.dot".to_string(), creation_time: 0 }
    );
}

#[test]
fn events_are_encoded_in_order() {
    let events = vec![
        GraphEvent::Added { name: "a.dot".to_string(), content: "x".to_string(), timestamp: 1 },
        GraphEvent::Removed { name: "a.dot".to_string(), timestamp: 2 },
    ];
    let frames = encode_events(events);
    assert_eq!(
        frames,
        vec![
            TextMessage(
                "{\"type\":\"NewDot\",\"name\":\"a.dot\",\"content\":\"x\",\"creation_time\":1}"
                    .to_string()
            ),
            TextMessage("{\"type\":\"DotRemoved\",\"name\":\"a.dot\",\"creation_time\":2}".to_string()),
        ]
    );
    assert_eq!(encode_events(Vec::new()), Vec::new());
}

#[test]
fn frames_are_put_around_string_literals_as_given() {
    assert_eq!(
        new_dot_frame("\"n\"", "\"c\"", 7),
        "{\"type\":\"NewDot\",\"name\":\"n\",\"content\":\"c\",\"creation_time\":7}"
    );
    assert_eq!(
        dot_removed_frame("\"n\"", 18446744073709551615),
        "{\"type\":\"DotRemoved\",\"name\":\"n\",\"creation_time\":18446744073709551615}"
    );
}
