use notify_server::event::{ChatType, Event};
use notify_server::frame::render_frame;
use notify_server::payload::decode_payload;

#[test]
fn decodes_chat_upsert_payload() {
    let ev = decode_payload(
        "chat_updated",
        "{\"op\":\"upsert\",\"chat_id\":10,\"workspace_id\":1,\"members\":[1,2],\"name\":null,\"kind\":\"single\"}",
    )
    .expect("payload should decode");
    match ev {
        Event::ChatUpserted {
            chat_id,
            workspace_id,
            members,
            name,
            kind,
        } => {
            assert_eq!(chat_id, 10);
            assert_eq!(workspace_id, 1);
            assert_eq!(members, vec![1, 2]);
            assert!(name.is_none());
            assert_eq!(kind, ChatType::Single);
        }
        _ => panic!("wrong variant"),
    }
}

#[test]
fn decodes_named_chat_with_escapes() {
    let ev = decode_payload(
        "chat_updated",
        "{\"op\":\"upsert\",\"chat_id\":3,\"workspace_id\":2,\"members\":[4],\"name\":\"a\\\"b\\\\c\\nd\",\"kind\":\"public_channel\"}",
    )
    .expect("payload should decode");
    match ev {
        Event::ChatUpserted { name, kind, .. } => {
            assert_eq!(name.as_deref(), Some("a\"b\\c\nd"));
            assert_eq!(kind, ChatType::PublicChannel);
        }
        _ => panic!("wrong variant"),
    }
}

#[test]
fn decodes_chat_delete_payload() {
    let ev = decode_payload(
        "chat_updated",
        "{\"op\":\"delete\",\"chat_id\":10,\"workspace_id\":1,\"members\":[1,2,7]}",
    )
    .expect("payload should decode");
    match ev {
        Event::ChatDeleted {
            chat_id,
            workspace_id,
            members,
        } => {
            assert_eq!(chat_id, 10);
            assert_eq!(workspace_id, 1);
            assert_eq!(members, vec![1, 2, 7]);
        }
        _ => panic!("wrong variant"),
    }
}

#[test]
fn decodes_message_created_payload() {
    let ev = decode_payload(
        "chat_message_created",
        "{\"message_id\":42,\"chat_id\":10,\"workspace_id\":1,\"sender_id\":1,\"members\":[1,2],\"created_at\":1700000000}",
    )
    .expect("payload should decode");
    match ev {
        Event::MessageCreated {
            message_id,
            chat_id,
            workspace_id,
            sender_id,
            members,
            created_at,
        } => {
            assert_eq!(message_id, 42);
            assert_eq!(chat_id, 10);
            assert_eq!(workspace_id, 1);
            assert_eq!(sender_id, 1);
            assert_eq!(members, vec![1, 2]);
            assert_eq!(created_at, 1700000000);
        }
        _ => panic!("wrong variant"),
    }
}

#[test]
fn decodes_negative_and_extreme_integers() {
    let ev = decode_payload(
        "chat_updated",
        "{\"op\":\"delete\",\"chat_id\":-9223372036854775808,\"workspace_id\":9223372036854775807,\"members\":[-1]}",
    )
    .expect("payload should decode");
    match ev {
        Event::ChatDeleted {
            chat_id,
            workspace_id,
            members,
        } => {
            assert_eq!(chat_id, i64::MIN);
            assert_eq!(workspace_id, i64::MAX);
            assert_eq!(members, vec![-1]);
        }
        _ => panic!("wrong variant"),
    }
}

#[test]
fn decodes_empty_member_list() {
    let ev = decode_payload(
        "chat_updated",
        "{\"op\":\"delete\",\"chat_id\":1,\"workspace_id\":1,\"members\":[]}",
    )
    .expect("payload should decode");
    match ev {
        Event::ChatDeleted { members, .. } => assert!(members.is_empty()),
        _ => panic!("wrong variant"),
    }
}

#[test]
fn malformed_payloads_decode_to_nothing() {
    // unknown channel
    assert!(decode_payload(
        "user_updated",
        "{\"op\":\"delete\",\"chat_id\":1,\"workspace_id\":1,\"members\":[]}"
    )
    .is_none());
    // unknown op
    assert!(decode_payload(
        "chat_updated",
        "{\"op\":\"rename\",\"chat_id\":1,\"workspace_id\":1,\"members\":[]}"
    )
    .is_none());
    // trailing garbage
    assert!(decode_payload(
        "chat_updated",
        "{\"op\":\"delete\",\"chat_id\":1,\"workspace_id\":1,\"members\":[]} "
    )
    .is_none());
    // integer overflowing an i64
    assert!(decode_payload(
        "chat_updated",
        "{\"op\":\"delete\",\"chat_id\":9223372036854775808,\"workspace_id\":1,\"members\":[]}"
    )
    .is_none());
    // unterminated name
    assert!(decode_payload(
        "chat_updated",
        "{\"op\":\"upsert\",\"chat_id\":1,\"workspace_id\":1,\"members\":[1,2],\"name\":\"oops,\"kind\":\"group\""
    )
    .is_none());
    // unsupported escape
    assert!(decode_payload(
        "chat_updated",
        "{\"op\":\"upsert\",\"chat_id\":1,\"workspace_id\":1,\"members\":[1,2],\"name\":\"a\\u0041\",\"kind\":\"group\"}"
    )
    .is_none());
    // missing field
    assert!(decode_payload(
        "chat_message_created",
        "{\"message_id\":42,\"chat_id\":10,\"workspace_id\":1,\"members\":[1,2],\"created_at\":0}"
    )
    .is_none());
    // empty payload
    assert!(decode_payload("chat_updated", "").is_none());
}

#[test]
fn decoded_event_renders_the_expected_frame() {
    let ev = decode_payload(
        "chat_updated",
        "{\"op\":\"upsert\",\"chat_id\":10,\"workspace_id\":1,\"members\":[1,2],\"name\":null,\"kind\":\"single\"}",
    )
    .expect("payload should decode");
    assert_eq!(
        render_frame(&ev),
        "event: chat_upserted\ndata: {\"type\":\"chat_upserted\",\"chat_id\":10,\"workspace_id\":1,\"kind\":\"single\"}\n\n"
    );
}
