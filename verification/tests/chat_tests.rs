use notify_server::chat::{create_chat_plan, CreateChat, ListMessages};
use notify_server::errors::AppError;
use notify_server::event::ChatType;

#[test]
fn two_unnamed_members_make_a_single_chat() {
    let input = CreateChat::new(None, vec![1, 2], false);
    let plan = create_chat_plan(&input, &vec![1, 2, 3]).unwrap();
    assert_eq!(plan.kind, ChatType::Single);
    assert_eq!(plan.members, vec![1, 2]);
}

#[test]
fn more_unnamed_members_make_a_group() {
    let input = CreateChat::new(None, vec![1, 2, 3], true);
    let plan = create_chat_plan(&input, &vec![1, 2, 3]).unwrap();
    assert_eq!(plan.kind, ChatType::Group);
}

#[test]
fn named_chats_are_channels() {
    let input = CreateChat::new(Some("general".to_string()), vec![1, 2], true);
    let plan = create_chat_plan(&input, &vec![1, 2]).unwrap();
    assert_eq!(plan.kind, ChatType::PublicChannel);
    let input = CreateChat::new(Some("general".to_string()), vec![1, 2], false);
    let plan = create_chat_plan(&input, &vec![1, 2]).unwrap();
    assert_eq!(plan.kind, ChatType::PrivateChannel);
}

#[test]
fn duplicate_members_count_once() {
    let input = CreateChat::new(None, vec![1, 2, 2, 1], false);
    let plan = create_chat_plan(&input, &vec![1, 2]).unwrap();
    assert_eq!(plan.kind, ChatType::Single);
    assert_eq!(plan.members, vec![1, 2]);
    let input = CreateChat::new(None, vec![1, 1, 1], false);
    let err = create_chat_plan(&input, &vec![1]).unwrap_err();
    assert_eq!(err.message(), "create chat error: the chat members must >=2");
}

#[test]
fn fewer_than_two_members_are_refused() {
    let input = CreateChat::new(None, vec![1], false);
    let err = create_chat_plan(&input, &vec![1]).unwrap_err();
    assert!(matches!(err, AppError::CreateChatError(_)));
    assert_eq!(err.message(), "create chat error: the chat members must >=2");
}

#[test]
fn eight_members_need_a_name() {
    let members: Vec<i64> = (1..=8).collect();
    let input = CreateChat::new(None, members.clone(), false);
    let err = create_chat_plan(&input, &members).unwrap_err();
    assert_eq!(
        err.message(),
        "create chat error: the chat members >=8, then the chat name must not empty"
    );
    let input = CreateChat::new(Some("big".to_string()), members.clone(), true);
    assert!(create_chat_plan(&input, &members).is_ok());
}

#[test]
fn unknown_member_is_reported_by_id() {
    let input = CreateChat::new(None, vec![1, 2, 99], true);
    let err = create_chat_plan(&input, &vec![1, 2, 3]).unwrap_err();
    assert!(matches!(err, AppError::CreateChatError(_)));
    assert_eq!(
        err.message(),
        "create chat error: the chat members ([99]) is not exist"
    );
}

#[test]
fn several_unknown_members_are_listed_in_order() {
    let input = CreateChat::new(None, vec![5, 1, 99], true);
    let err = create_chat_plan(&input, &vec![1]).unwrap_err();
    assert_eq!(
        err.message(),
        "create chat error: the chat members ([5, 99]) is not exist"
    );
}

#[test]
fn message_window_defaults_to_the_newest() {
    let input = ListMessages {
        last_id: None,
        limit: 10,
    };
    assert_eq!(input.query_window(), (i64::MAX as u64, 10));
    let input = ListMessages {
        last_id: Some(41),
        limit: 5,
    };
    assert_eq!(input.query_window(), (41, 5));
}
