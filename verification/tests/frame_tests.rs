use notify_server::event::{ChatType, Event};
use notify_server::frame::{keep_alive_frame, render_frame, welcome_frame};

#[test]
fn chat_upserted_frame_matches_wire_format() {
    let ev = Event::ChatUpserted {
        chat_id: 10,
        workspace_id: 1,
        members: vec![1, 2],
        name: None,
        kind: ChatType::Single,
    };
    assert_eq!(
        render_frame(&ev),
        "event: chat_upserted\ndata: {\"type\":\"chat_upserted\",\"chat_id\":10,\"workspace_id\":1,\"kind\":\"single\"}\n\n"
    );
}

#[test]
fn named_chat_frame_carries_escaped_name() {
    let ev = Event::ChatUpserted {
        chat_id: 7,
        workspace_id: 2,
        members: vec![3, 4],
        name: Some("a\"b\\c\nd".to_string()),
        kind: ChatType::PrivateChannel,
    };
    assert_eq!(
        render_frame(&ev),
        "event: chat_upserted\ndata: {\"type\":\"chat_upserted\",\"chat_id\":7,\"workspace_id\":2,\"name\":\"a\\\"b\\\\c\\nd\",\"kind\":\"private_channel\"}\n\n"
    );
}

#[test]
fn chat_deleted_frame_matches_wire_format() {
    let ev = Event::ChatDeleted {
        chat_id: 5,
        workspace_id: 3,
        members: vec![1],
    };
    assert_eq!(
        render_frame(&ev),
        "event: chat_deleted\ndata: {\"type\":\"chat_deleted\",\"chat_id\":5,\"workspace_id\":3}\n\n"
    );
}

#[test]
fn message_created_frame_matches_wire_format() {
    let ev = Event::MessageCreated {
        message_id: 42,
        chat_id: 10,
        workspace_id: 1,
        sender_id: 1,
        members: vec![1, 2],
        created_at: 1700000000,
    };
    assert_eq!(
        render_frame(&ev),
        "event: message_created\ndata: {\"type\":\"message_created\",\"message_id\":42,\"chat_id\":10,\"workspace_id\":1,\"sender_id\":1,\"created_at\":1700000000}\n\n"
    );
}

#[test]
fn frames_render_negative_and_extreme_ids() {
    let ev = Event::ChatDeleted {
        chat_id: i64::MIN,
        workspace_id: -1,
        members: vec![],
    };
    assert_eq!(
        render_frame(&ev),
        "event: chat_deleted\ndata: {\"type\":\"chat_deleted\",\"chat_id\":-9223372036854775808,\"workspace_id\":-1}\n\n"
    );
    let ev = Event::ChatDeleted {
        chat_id: i64::MAX,
        workspace_id: 0,
        members: vec![],
    };
    assert_eq!(
        render_frame(&ev),
        "event: chat_deleted\ndata: {\"type\":\"chat_deleted\",\"chat_id\":9223372036854775807,\"workspace_id\":0}\n\n"
    );
}

#[test]
fn keep_alive_is_a_comment_frame() {
    assert_eq!(keep_alive_frame(), ": keep-alive\n\n");
}

#[test]
fn welcome_frame_names_the_subscriber() {
    assert_eq!(welcome_frame("ab12"), ": welcome ab12\n\n");
}
