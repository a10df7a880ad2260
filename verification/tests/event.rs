use aether_matrix::event::{failure_notice, image_prompt, ChatMode, MessageKind, MessagePlan, MessageRules, RESET_NOTICE};

fn create_test_rules() -> MessageRules {
    MessageRules::new("!".to_string(), "@bot:matrix.org".to_string(), false, true, false)
}

#[test]
fn test_extract_message_with_prefix() {
    let handler = create_test_rules();
    let result = handler.extract_message("! Hello world");
    assert_eq!(result, "Hello world");
}

#[test]
fn test_extract_message_with_prefix_and_spaces() {
    let handler = create_test_rules();
    let result = handler.extract_message("!   Multiple spaces   ");
    assert_eq!(result, "Multiple spaces");
}

#[test]
fn test_extract_message_with_mention() {
    let handler = create_test_rules();
    let result = handler.extract_message("@bot:matrix.org Hello there");
    assert_eq!(result, "Hello there");
}

#[test]
fn test_extract_message_with_prefix_and_mention() {
    let handler = create_test_rules();
    let result = handler.extract_message("! @bot:matrix.org Combined message");
    assert_eq!(result, "Combined message");
}

#[test]
fn test_extract_message_plain_text() {
    let handler = create_test_rules();
    let result = handler.extract_message("Just a plain message");
    assert_eq!(result, "Just a plain message");
}

#[test]
fn test_extract_message_empty_after_trim() {
    let handler = create_test_rules();
    let result = handler.extract_message("!    ");
    assert_eq!(result, "");
}

#[test]
fn test_extract_message_logic() {
    let rules = MessageRules::new("!ai ".to_string(), "@bot:matrix.org".to_string(), false, false, false);
    assert_eq!(rules.extract_message("!ai Hello world"), "Hello world");
    assert_eq!(rules.extract_message("@bot:matrix.org Hello there"), "Hello there");
    assert_eq!(rules.extract_message("Just a plain message"), "Just a plain message");
}

#[test]
fn mention_in_the_middle_is_removed() {
    let rules = create_test_rules();
    assert_eq!(rules.extract_message("hi @bot:matrix.org there @bot:matrix.org"), "hi  there");
}

#[test]
fn should_respond_rules() {
    let rules = create_test_rules();
    assert!(rules.should_respond(true, "anything", false));
    assert!(rules.should_respond(false, "!ask", false));
    assert!(rules.should_respond(false, "hey @bot:matrix.org", false));
    assert!(rules.should_respond(false, "hey", true));
    assert!(!rules.should_respond(false, "hey", false));
}

#[test]
fn plan_ignores_own_messages_and_unmentioned_group_text() {
    let rules = create_test_rules();
    let p = rules.plan("@bot:matrix.org", "!room", true, false, false, "hello", MessageKind::Text);
    assert_eq!(p, MessagePlan::Ignore);
    let p = rules.plan("@u:x", "!room", false, false, false, "hello", MessageKind::Text);
    assert_eq!(p, MessagePlan::Ignore);
    let p = rules.plan("@u:x", "!room", false, false, true, "!help", MessageKind::Text);
    assert_eq!(p, MessagePlan::Command);
}

#[test]
fn plan_chats_in_rooms_and_direct_chats() {
    let rules = create_test_rules();
    let p = rules.plan("@u:x", "!room", false, false, false, "@bot:matrix.org hi", MessageKind::Text);
    assert_eq!(
        p,
        MessagePlan::Chat { session_id: "!room".to_string(), prompt: "hi".to_string(), mode: ChatMode::Normal }
    );
    let p = rules.plan("@u:x", "!room", true, false, false, "hi", MessageKind::Image);
    assert_eq!(p, MessagePlan::Image { session_id: "@u:x".to_string() });
    let p = rules.plan("@u:x", "!room", true, false, false, "hi", MessageKind::Other);
    assert_eq!(p, MessagePlan::Ignore);

    let tools = MessageRules::new("!".to_string(), "@bot:matrix.org".to_string(), true, false, true);
    let p = tools.plan("@u:x", "!room", true, false, false, "hi", MessageKind::Text);
    assert_eq!(
        p,
        MessagePlan::Chat {
            session_id: "@u:x".to_string(),
            prompt: "hi".to_string(),
            mode: ChatMode::Tools { fallback_streaming: true }
        }
    );
    let p = tools.plan("@u:x", "!room", true, false, false, "hi", MessageKind::Image);
    assert_eq!(p, MessagePlan::Ignore);
}

#[test]
fn prompts_and_commands() {
    assert_eq!(image_prompt("  "), "请描述这张图片的内容。");
    assert_eq!(image_prompt("a cat"), "a cat");
    assert_eq!(failure_notice("图片处理失败: ", "bad"), "图片处理失败: bad");
}

#[test]
fn reset_clears_the_session_of_the_message() {
    let rules = create_test_rules();
    // Direct chat: the sender's session.
    let p = rules.plan("@u:x", "!room", true, false, true, "!reset", MessageKind::Text);
    assert_eq!(p, MessagePlan::Reset { session_id: "@u:x".to_string() });
    // Group room: the room's session, surrounding blanks ignored.
    let p = rules.plan("@u:x", "!room", false, false, true, "  !reset ", MessageKind::Text);
    assert_eq!(p, MessagePlan::Reset { session_id: "!room".to_string() });
    // Anything more is an ordinary command.
    let p = rules.plan("@u:x", "!room", false, false, true, "!reset now", MessageKind::Text);
    assert_eq!(p, MessagePlan::Command);
    // The bot's own reset is ignored.
    let p = rules.plan("@bot:matrix.org", "!room", true, false, true, "!reset", MessageKind::Text);
    assert_eq!(p, MessagePlan::Ignore);
    assert_eq!(RESET_NOTICE, "会话历史已清除");
}
