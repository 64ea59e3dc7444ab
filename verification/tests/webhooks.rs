use mpeix::telegram::{plan_update, Chat, ChatType, Message as TgMessage, Update, UpdatePlan};
use mpeix::vk::{plan_callback, CallbackPlan, ClientInfo, Message, NewMessageObject, VkCallbackRequest, VkCallbackType};

fn callback(callback_type: VkCallbackType, secret: Option<&str>, peer_id: i64, text: Option<&str>) -> VkCallbackRequest {
    let message = Message { id: 1, date: 0, peer_id, from_id: peer_id, text: text.map(|t| t.to_string()), payload: None };
    let client_info = ClientInfo { button_actions: vec![], keyboard: true, inline_keyboard: true, carousel: false };
    VkCallbackRequest {
        callback_type,
        group_id: 1,
        secret: secret.map(|s| s.to_string()),
        object: Some(NewMessageObject { message, client_info }),
    }
}

#[test]
fn vk_callbacks_need_the_expected_secret() {
    let expected = Some("s3".to_string());
    let r = plan_callback(callback(VkCallbackType::MessageNew, Some("other"), 5, Some("старт")), &expected);
    assert!(matches!(r, CallbackPlan::Refuse));
    let r = plan_callback(callback(VkCallbackType::MessageNew, None, 5, Some("старт")), &expected);
    assert!(matches!(r, CallbackPlan::Refuse));
    let r = plan_callback(callback(VkCallbackType::Confirmation, Some("s3"), 5, None), &expected);
    assert!(matches!(r, CallbackPlan::Confirm));
    // a bot that expects no secret takes any callback
    let r = plan_callback(callback(VkCallbackType::Confirmation, Some("any"), 5, None), &None);
    assert!(matches!(r, CallbackPlan::Confirm));
}

#[test]
fn vk_messages_from_users_are_answered() {
    match plan_callback(callback(VkCallbackType::MessageNew, None, 5, Some("старт")), &None) {
        CallbackPlan::Answer { peer_id, text } => {
            assert_eq!(peer_id, 5);
            assert_eq!(text.as_deref(), Some("старт"));
        },
        other => panic!("unexpected {:?}", other),
    }
    match plan_callback(callback(VkCallbackType::MessageNew, None, 5, Some("")), &None) {
        CallbackPlan::Answer { text, .. } => assert_eq!(text, None),
        other => panic!("unexpected {:?}", other),
    }
    // group chats and communities are not answered
    let r = plan_callback(callback(VkCallbackType::MessageNew, None, 2000000001, Some("старт")), &None);
    assert!(matches!(r, CallbackPlan::Ignore));
    let r = plan_callback(callback(VkCallbackType::MessageNew, None, -3, Some("старт")), &None);
    assert!(matches!(r, CallbackPlan::Ignore));
    let r = plan_callback(callback(VkCallbackType::Unknown, None, 5, Some("старт")), &None);
    assert!(matches!(r, CallbackPlan::Ignore));
}

fn update(text: Option<&str>) -> Update {
    let chat = Chat { id: 42, chat_type: ChatType::Private, title: None };
    Update { update_id: 1, message: Some(TgMessage { message_id: 7, from: None, chat, text: text.map(|t| t.to_string()) }), callback_query: None }
}

#[test]
fn telegram_updates_are_answered_in_their_chat() {
    match plan_update(update(Some("/today")), "secret", "secret") {
        UpdatePlan::Answer { chat_id, text } => {
            assert_eq!(chat_id, 42);
            assert_eq!(text.as_deref(), Some("/today"));
        },
        other => panic!("unexpected {:?}", other),
    }
    assert!(matches!(plan_update(update(Some("/today")), "guess", "secret"), UpdatePlan::Refuse));
    let empty = Update { update_id: 2, message: None, callback_query: None };
    assert!(matches!(plan_update(empty, "secret", "secret"), UpdatePlan::Ignore));
}
