use aether_matrix::streaming::{ChunkOutcome, StreamStep, StreamingHandler, StreamingState};

#[test]
fn test_streaming_state_new() {
    let state = StreamingState::new();
    assert!(state.content().is_empty());
}

#[test]
fn test_streaming_state_append() {
    let mut state = StreamingState::new();
    state.append("Hello");
    assert_eq!(state.content(), "Hello");

    state.append(" World");
    assert_eq!(state.content(), "Hello World");
}

#[test]
fn test_streaming_state_multiple_appends() {
    let mut state = StreamingState::new();
    state.append("First");
    state.append(" ");
    state.append("Second");
    state.append(" ");
    state.append("Third");

    assert_eq!(state.content(), "First Second Third");
}

#[test]
fn test_streaming_state_new_creates_empty() {
    let state = StreamingState::new();
    assert!(state.content().is_empty());
}

#[test]
fn test_append_adds_text() {
    let mut state = StreamingState::new();
    state.append("Hello");
    assert_eq!(state.content(), "Hello");
}

#[test]
fn test_content_returns_accumulated() {
    let mut state = StreamingState::new();
    state.accumulated = "Test content".to_string();
    assert_eq!(state.content(), "Test content");
}

#[test]
fn test_multiple_appends() {
    let mut state = StreamingState::new();
    state.append("Hello");
    state.append(" ");
    state.append("World");
    assert_eq!(state.content(), "Hello World");
}

#[test]
fn test_streaming_state_default_is_empty() {
    let state = StreamingState::default();
    assert!(state.content().is_empty());
}

#[test]
fn chunks_accumulate_and_finish() {
    let mut state = StreamingState::new();
    assert_eq!(state.apply_chunk(Some("Hel"), false), ChunkOutcome::Delta);
    assert_eq!(state.apply_chunk(None, false), ChunkOutcome::Skip);
    assert_eq!(state.apply_chunk(Some("lo"), false), ChunkOutcome::Delta);
    assert_eq!(state.apply_chunk(None, true), ChunkOutcome::Finished);
    assert_eq!(state.content(), "Hello");
}

#[test]
fn hybrid_throttle_time_or_characters() {
    let h = StreamingHandler::new(1000, 50);
    let mut p = h.start(false);
    // Few characters, little time: wait.
    assert_eq!(h.on_delta(&mut p, 10, 100), StreamStep::Wait);
    assert_eq!(p.chars_since_update, 10);
    // Enough characters: the first update sends a new message.
    assert_eq!(h.on_delta(&mut p, 40, 200), StreamStep::Send);
    assert_eq!(p.chars_since_update, 0);
    assert!(p.has_message);
    // Enough time: later updates edit it.
    assert_eq!(h.on_delta(&mut p, 1, 1000), StreamStep::Edit);
    assert!(h.finish(&p, "text"));
    assert!(!h.finish(&p, ""));
    assert!(!h.finish(&h.start(false), "text"));
}

#[test]
fn stream_error_texts() {
    let h = StreamingHandler::new(1000, 50);
    let p = h.start(true);
    let (t, edit) = h.error_reply(&p, "partial", "boom");
    assert_eq!(t, "partial\n\n[错误: boom]");
    assert!(edit);
    let (t, edit) = h.error_reply(&h.start(false), "", "boom");
    assert_eq!(t, "AI 服务暂时不可用: boom");
    assert!(!edit);
    // Nothing arrived: the notice is a new message even when one was sent.
    let (t, edit) = h.error_reply(&p, "", "boom");
    assert_eq!(t, "AI 服务暂时不可用: boom");
    assert!(!edit);
}
