use tiny::agent::{Decision, Message, ToolCall, ToolResult};
use tiny::tui::line::{handle_line_event, line_denial, result_preview, AgentEvent};

#[test]
fn assistant_text_goes_to_stdout_and_calls_to_stderr() {
    let out = handle_line_event(AgentEvent::Message(Message::Assistant {
        text: "answer".into(),
        tool_calls: vec![ToolCall { id: "1".into(), name: "read".into(), input: "{\"path\":\"a\"}".into() }],
    }));
    assert_eq!(out.stdout, "answer\n");
    assert_eq!(out.stderr, "tool: read({\"path\":\"a\"})\n");
}

#[test]
fn user_messages_and_turn_end_print_nothing() {
    let out = handle_line_event(AgentEvent::Message(Message::User("q".into())));
    assert_eq!((out.stdout.as_str(), out.stderr.as_str()), ("", ""));
    let out = handle_line_event(AgentEvent::TurnDone);
    assert_eq!((out.stdout.as_str(), out.stderr.as_str()), ("", ""));
}

#[test]
fn tool_results_and_errors_go_to_stderr() {
    let out = handle_line_event(AgentEvent::Message(Message::Tool(ToolResult { content: "bad".into(), is_error: true })));
    assert_eq!(out.stderr, "tool error: bad\n");
    let out = handle_line_event(AgentEvent::Message(Message::Tool(ToolResult { content: "line one\nline two".into(), is_error: false })));
    assert_eq!(out.stderr, "tool result: line one\n");
    let out = handle_line_event(AgentEvent::TurnError("down".into()));
    assert_eq!(out.stderr, "Error: down\n");
}

#[test]
fn permission_requests_are_refused() {
    let (tx, mut rx) = tokio::sync::oneshot::channel();
    let call = ToolCall { id: "1".into(), name: "bash".into(), input: "{}".into() };
    let out = handle_line_event(AgentEvent::PermissionRequest { call, reply: tx });
    assert_eq!(out.stdout, "");
    match rx.try_recv() {
        Ok(Decision::Deny(reason)) => {
            assert_eq!(reason, "tool 'bash' requires the interactive TUI for permission")
        }
        _ => panic!("expected a refusal"),
    }
}

#[test]
fn denial_and_preview_texts() {
    let call = ToolCall { id: "1".into(), name: "x".into(), input: "{}".into() };
    assert!(matches!(line_denial(&call), Decision::Deny(r) if r == "tool 'x' requires the interactive TUI for permission"));
    let long = "y".repeat(100);
    assert_eq!(result_preview(&long), format!("{}...", "y".repeat(80)));
    assert_eq!(result_preview(""), "");
}
