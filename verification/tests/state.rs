use tiny::agent::{Message, SessionMeta, ToolCall, ToolResult};
use tiny::tui::state::{count_chat_messages, AppState};

#[test]
fn submit_then_start_restores_the_queue() {
    let mut state = AppState::new("d".into());
    state.turn_submitted();
    state.turn_submitted();
    assert_eq!(state.turn.as_ref().unwrap().queued, 1);
    state.turn_started_by_backend();
    assert_eq!(state.turn.as_ref().unwrap().queued, 0);
    state.turn_started_by_backend();
    assert_eq!(state.turn.as_ref().unwrap().queued, 0);
    assert!(state.is_busy());
}

#[test]
fn chat_messages_are_counted() {
    let history = vec![
        Message::User("a".into()),
        Message::Assistant { text: "".into(), tool_calls: vec![ToolCall { id: "1".into(), name: "x".into(), input: "{}".into() }] },
        Message::Tool(ToolResult { content: "r".into(), is_error: false }),
    ];
    assert_eq!(count_chat_messages(&history), 2);
    let mut state = AppState::new("d".into());
    state.record_chat_message();
    assert!(!state.has_session());
    state.set_session(SessionMeta { id: "s".into(), model: "m".into(), title: "".into() }, &history);
    state.record_chat_message();
    assert_eq!(state.session.as_ref().unwrap().message_count, 3);
    assert_eq!(state.session.as_ref().unwrap().model, "m");
}

#[test]
fn queued_submissions_keep_the_turn_timer() {
    let mut state = AppState::new("d".into());
    state.turn_submitted();
    let started = state.turn.as_ref().unwrap().started_at;
    state.turn_submitted();
    state.turn_started_by_backend();
    state.turn_started_by_backend();
    assert_eq!(state.turn.as_ref().unwrap().started_at, started);
}
