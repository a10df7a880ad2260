use aether_matrix::conversation::{ChatMessage, ConversationManager, UserContent};

fn user_text(m: &ChatMessage) -> &str {
    match m {
        ChatMessage::User { content: UserContent::Text(text) } => text,
        _ => panic!("Expected user message with text content"),
    }
}

fn assistant_text(m: &ChatMessage) -> &str {
    match m {
        ChatMessage::Assistant { content: Some(text), .. } => text,
        _ => panic!("Expected assistant message with text content"),
    }
}

fn system_text(m: &ChatMessage) -> &str {
    match m {
        ChatMessage::System { content } => content,
        _ => panic!("Expected system message"),
    }
}

#[test]
fn test_new_manager_is_empty() {
    let manager = ConversationManager::new(None, 10);
    let messages = manager.get_messages("test-session");
    assert!(messages.is_empty());
}

#[test]
fn test_add_user_message() {
    let mut manager = ConversationManager::new(None, 10);
    manager.add_user_message("session-1", "Hello");

    let messages = manager.get_messages("session-1");
    assert_eq!(messages.len(), 1);
    assert_eq!(user_text(&messages[0]), "Hello");
}

#[test]
fn test_add_assistant_message() {
    let mut manager = ConversationManager::new(None, 10);
    manager.add_user_message("session-1", "Hello");
    manager.add_assistant_message("session-1", "Hi there!");

    let messages = manager.get_messages("session-1");
    assert_eq!(messages.len(), 2);
    assert_eq!(assistant_text(&messages[1]), "Hi there!");
}

#[test]
fn test_history_limit() {
    let mut manager = ConversationManager::new(None, 2);

    manager.add_user_message("s1", "u1");
    manager.add_assistant_message("s1", "a1");
    manager.add_user_message("s1", "u2");
    manager.add_assistant_message("s1", "a2");
    manager.add_user_message("s1", "u3");

    let messages = manager.get_messages("s1");
    assert_eq!(messages.len(), 4);
    assert_eq!(assistant_text(&messages[0]), "a1");
}

#[test]
fn test_reset_conversation() {
    let mut manager = ConversationManager::new(None, 10);
    manager.add_user_message("session-1", "Hello");
    manager.add_user_message("session-2", "World");

    manager.reset("session-1");

    assert_eq!(manager.get_messages("session-1").len(), 0);
    assert_eq!(manager.get_messages("session-2").len(), 1);
}

#[test]
fn test_system_prompt() {
    let mut manager = ConversationManager::new(Some("You are helpful.".to_string()), 10);
    manager.add_user_message("s1", "Hello");

    let messages = manager.get_messages("s1");
    assert_eq!(messages.len(), 2);
    assert_eq!(system_text(&messages[0]), "You are helpful.");
}

#[test]
fn test_multiple_sessions() {
    let mut manager = ConversationManager::new(None, 10);
    manager.add_user_message("session-1", "Hello from s1");
    manager.add_user_message("session-2", "Hello from s2");
    manager.add_assistant_message("session-1", "Response to s1");

    let s1_messages = manager.get_messages("session-1");
    let s2_messages = manager.get_messages("session-2");

    assert_eq!(s1_messages.len(), 2);
    assert_eq!(s2_messages.len(), 1);
}

#[test]
fn test_add_tool_call_message() {
    let mut manager = ConversationManager::new(None, 10);
    manager.add_user_message("session-1", "Get weather for Beijing");

    manager.add_tool_call_message(
        "session-1",
        "call_123".to_string(),
        "weather_fetch".to_string(),
        r#"{"city":"Beijing"}"#.to_string(),
    );

    let messages = manager.get_messages("session-1");
    assert_eq!(messages.len(), 2);

    match &messages[1] {
        ChatMessage::Assistant { tool_calls, .. } => {
            assert!(tool_calls.is_some());
            let tool_calls = tool_calls.as_ref().unwrap();
            assert_eq!(tool_calls.len(), 1);
            assert_eq!(tool_calls[0].id, "call_123");
            assert_eq!(tool_calls[0].name, "weather_fetch");
            assert_eq!(tool_calls[0].arguments, r#"{"city":"Beijing"}"#);
        }
        _ => panic!("Expected assistant message with tool_calls"),
    }
}

#[test]
fn test_add_tool_result_message() {
    let mut manager = ConversationManager::new(None, 10);
    manager.add_user_message("session-1", "Get weather");

    manager.add_tool_call_message(
        "session-1",
        "call_123".to_string(),
        "weather_fetch".to_string(),
        r#"{"city":"Beijing"}"#.to_string(),
    );
    manager.add_tool_result_message(
        "session-1",
        "call_123".to_string(),
        r#"{"condition":"sunny","temperature":20}"#.to_string(),
    );

    let messages = manager.get_messages("session-1");
    assert_eq!(messages.len(), 3);

    match &messages[2] {
        ChatMessage::Tool { tool_call_id, .. } => {
            assert_eq!(tool_call_id, "call_123");
        }
        _ => panic!("Expected tool message"),
    }
}

#[test]
fn test_multiple_tool_calls_in_one_message() {
    let mut manager = ConversationManager::new(None, 10);
    manager.add_user_message("session-1", "Get weather for multiple cities");

    manager.add_tool_call_message(
        "session-1",
        "call_1".to_string(),
        "weather_fetch".to_string(),
        r#"{"city":"Beijing"}"#.to_string(),
    );
    manager.add_tool_call_message(
        "session-1",
        "call_2".to_string(),
        "weather_fetch".to_string(),
        r#"{"city":"Shanghai"}"#.to_string(),
    );

    let messages = manager.get_messages("session-1");
    assert_eq!(messages.len(), 2);

    match &messages[1] {
        ChatMessage::Assistant { tool_calls, .. } => {
            let tool_calls = tool_calls.as_ref().unwrap();
            assert_eq!(tool_calls.len(), 2);
        }
        _ => panic!("Expected assistant message with 2 tool_calls"),
    }
}

#[test]
fn test_empty_message_handling() {
    let mut manager = ConversationManager::new(Some("System prompt".to_string()), 10);

    manager.add_user_message("session-1", "");
    let messages = manager.get_messages("session-1");
    assert_eq!(messages.len(), 2);
    assert_eq!(user_text(&messages[1]), "");

    manager.add_assistant_message("session-1", "");
    let messages = manager.get_messages("session-1");
    assert_eq!(messages.len(), 3);
    assert_eq!(assistant_text(&messages[2]), "");
}

#[test]
fn test_ultra_long_message_handling() {
    let mut manager = ConversationManager::new(None, 5);
    let long_message = "x".repeat(100_000);

    manager.add_user_message("session-1", &long_message);
    let messages = manager.get_messages("session-1");
    assert_eq!(messages.len(), 1);
    let text = user_text(&messages[0]);
    assert_eq!(text.len(), 100_000);
    assert_eq!(text, long_message.as_str());

    let mut manager_with_system = ConversationManager::new(Some("System".to_string()), 5);
    manager_with_system.add_user_message("session-2", &long_message);
    let messages = manager_with_system.get_messages("session-2");
    assert_eq!(messages.len(), 2);
    assert_eq!(user_text(&messages[1]).len(), 100_000);
}

#[test]
fn test_extreme_history_length_zero() {
    let mut manager = ConversationManager::new(None, 0);

    manager.add_user_message("session-1", "message1");
    let messages = manager.get_messages("session-1");
    assert!(messages.len() <= 2);

    manager.add_assistant_message("session-1", "response1");
    let messages = manager.get_messages("session-1");
    assert!(messages.len() <= 2);

    manager.add_user_message("session-1", "message2");
    let messages = manager.get_messages("session-1");
    assert!(messages.len() <= 2);
}

#[test]
fn test_extreme_history_length_one() {
    let mut manager = ConversationManager::new(None, 1);

    manager.add_user_message("session-1", "u1");
    manager.add_assistant_message("session-1", "a1");
    manager.add_user_message("session-1", "u2");
    manager.add_assistant_message("session-1", "a2");
    manager.add_user_message("session-1", "u3");

    let messages = manager.get_messages("session-1");
    assert_eq!(messages.len(), 2);
    assert_eq!(assistant_text(&messages[0]), "a2");
    assert_eq!(user_text(&messages[1]), "u3");
}

#[test]
fn test_extreme_history_length_large() {
    let mut manager = ConversationManager::new(None, 100_000);

    for i in 0..10 {
        manager.add_user_message("session-1", &format!("user_msg_{}", i));
        manager.add_assistant_message("session-1", &format!("assistant_msg_{}", i));
    }

    let messages = manager.get_messages("session-1");
    assert_eq!(messages.len(), 20);

    for i in 0..10 {
        assert_eq!(user_text(&messages[i * 2]), format!("user_msg_{}", i));
        assert_eq!(assistant_text(&messages[i * 2 + 1]), format!("assistant_msg_{}", i));
    }
}

#[test]
fn test_image_message_with_empty_content() {
    let mut manager = ConversationManager::new(None, 10);

    manager.add_user_message_with_image("session-1", "", "data:image/png;base64,abc123");
    let messages = manager.get_messages("session-1");
    assert_eq!(messages.len(), 1);

    match &messages[0] {
        ChatMessage::User { content: UserContent::TextWithImage { text, image_url } } => {
            assert_eq!(text, "");
            assert_eq!(image_url, "data:image/png;base64,abc123");
        }
        _ => panic!("Expected user message with an image"),
    }
}

#[test]
fn test_nonexistent_session_behavior() {
    let mut manager = ConversationManager::new(Some("System prompt".to_string()), 10);

    manager.add_assistant_message("nonexistent-session", "This should not be added");
    let messages = manager.get_messages("nonexistent-session");
    assert_eq!(messages.len(), 1);
    assert_eq!(system_text(&messages[0]), "System prompt");

    manager.add_user_message("nonexistent-session", "Now it exists");
    let messages = manager.get_messages("nonexistent-session");
    assert_eq!(messages.len(), 2);
}

#[test]
fn test_get_messages_with_system_override() {
    let mut manager = ConversationManager::new(Some("Default system".to_string()), 10);
    manager.add_user_message("session-1", "Hello");

    let messages = manager.get_messages_with_system("session-1", "Custom system");
    assert_eq!(messages.len(), 2);
    assert_eq!(system_text(&messages[0]), "Custom system");
    assert_eq!(user_text(&messages[1]), "Hello");

    let original_messages = manager.get_messages("session-1");
    assert_eq!(system_text(&original_messages[0]), "Default system");
}

#[test]
fn tool_call_after_user_message_trims_history() {
    let mut manager = ConversationManager::new(None, 1);
    manager.add_user_message("s", "u1");
    manager.add_assistant_message("s", "a1");
    manager.add_user_message("s", "u2");
    manager.add_tool_call_message("s", "c".to_string(), "t".to_string(), "{}".to_string());

    let messages = manager.get_messages("s");
    assert_eq!(messages.len(), 2);
    assert_eq!(user_text(&messages[0]), "u2");
}

#[test]
fn reset_then_history_starts_over() {
    let mut manager = ConversationManager::new(None, 3);
    manager.add_user_message("s", "first");
    manager.reset("s");
    manager.add_user_message("s", "second");
    let messages = manager.get_messages("s");
    assert_eq!(messages.len(), 1);
    assert_eq!(user_text(&messages[0]), "second");
}
