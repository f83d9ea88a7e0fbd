use tiny::agent::{BackendEvent, Message, SessionMeta, ToolCall, ToolResult};
use tiny::tui::ansi::Ansi;
use tiny::tui::events::{emit_entry, handle_backend_event, separate_previous_session};
use tiny::tui::entry::Entry;
use tiny::tui::modal::TakeoverModal;
use tiny::tui::prompt::Prompt;
use tiny::tui::state::AppState;

fn strip_ansi(input: &str) -> String {
    let mut out = String::new();
    let mut chars = input.chars().peekable();
    while let Some(ch) = chars.next() {
        if ch == '\x1b' && chars.peek() == Some(&'[') {
            chars.next();
            for code in chars.by_ref() {
                if code.is_ascii_alphabetic() {
                    break;
                }
            }
        } else {
            out.push(ch);
        }
    }
    out
}

fn meta(id: &str, title: &str) -> SessionMeta {
    SessionMeta { id: id.to_string(), model: "m".to_string(), title: title.to_string() }
}

#[test]
fn user_messages_from_the_backend_are_not_printed_again() {
    let ansi = Ansi::detect();
    let mut state = AppState::new("dir".to_string());
    let mut prompt = Prompt { cursor_offset_from_top: 2 };
    let mut out = String::new();
    handle_backend_event(&mut out, &mut prompt, &ansi, &mut state, BackendEvent::Message(Message::User("hi".into())), (80, 24));
    assert_eq!(out, "");
    assert_eq!(prompt.cursor_offset_from_top, 2);
}

#[test]
fn assistant_message_is_printed_and_counted() {
    let ansi = Ansi::detect();
    let mut state = AppState::new("dir".to_string());
    state.set_session(meta("s1", "t"), &[]);
    let mut prompt = Prompt { cursor_offset_from_top: 0 };
    let mut out = String::new();
    let message = Message::Assistant {
        text: "hello".into(),
        tool_calls: vec![ToolCall { id: "1".into(), name: "read".into(), input: "{}".into() }],
    };
    handle_backend_event(&mut out, &mut prompt, &ansi, &mut state, BackendEvent::Message(message), (80, 24));
    assert_eq!(strip_ansi(&out), "\r\n · hello\r\n\r\n * read({})\r\n");
    assert_eq!(state.session.as_ref().unwrap().message_count, 1);
}

#[test]
fn tool_results_are_not_chat_messages() {
    let ansi = Ansi::detect();
    let mut state = AppState::new("dir".to_string());
    state.set_session(meta("s1", "t"), &[]);
    let mut prompt = Prompt { cursor_offset_from_top: 0 };
    let mut out = String::new();
    let message = Message::Tool(ToolResult { content: "ok".into(), is_error: false });
    handle_backend_event(&mut out, &mut prompt, &ansi, &mut state, BackendEvent::Message(message), (80, 24));
    assert_eq!(strip_ansi(&out), "   -> ok\r\n");
    assert_eq!(state.session.as_ref().unwrap().message_count, 0);
}

#[test]
fn permission_request_opens_the_prompt() {
    let ansi = Ansi::detect();
    let mut state = AppState::new("dir".to_string());
    let mut prompt = Prompt { cursor_offset_from_top: 0 };
    let mut out = String::new();
    let call = ToolCall { id: "1".into(), name: "bash".into(), input: "{}".into() };
    handle_backend_event(&mut out, &mut prompt, &ansi, &mut state, BackendEvent::PermissionRequest { id: 7, call }, (80, 24));
    match &state.modal {
        Some(TakeoverModal::Permission(m)) => {
            assert_eq!(m.id, 7);
            assert_eq!(m.call.name, "bash");
        }
        _ => panic!("expected the permission prompt"),
    }
    assert_eq!(out, "");
}

#[test]
fn turn_start_and_done_track_the_turn() {
    let ansi = Ansi::detect();
    let mut state = AppState::new("dir".to_string());
    let mut prompt = Prompt { cursor_offset_from_top: 0 };
    let mut out = String::new();
    handle_backend_event(&mut out, &mut prompt, &ansi, &mut state, BackendEvent::TurnStarted, (80, 24));
    assert!(state.is_busy());
    assert_eq!(state.turn.as_ref().unwrap().queued, 0);
    handle_backend_event(&mut out, &mut prompt, &ansi, &mut state, BackendEvent::TurnDone, (80, 24));
    assert!(!state.is_busy());
}

#[test]
fn empty_session_list_says_so() {
    let ansi = Ansi::detect();
    let mut state = AppState::new("dir".to_string());
    let mut prompt = Prompt { cursor_offset_from_top: 0 };
    let mut out = String::new();
    handle_backend_event(&mut out, &mut prompt, &ansi, &mut state, BackendEvent::SessionsListed(Ok(vec![])), (80, 24));
    assert!(strip_ansi(&out).contains("No saved sessions yet. Send a message to start one."));
    assert!(state.modal.is_none());
}

#[test]
fn session_list_opens_the_picker() {
    let ansi = Ansi::detect();
    let mut state = AppState::new("dir".to_string());
    let mut prompt = Prompt { cursor_offset_from_top: 0 };
    let mut out = String::new();
    handle_backend_event(&mut out, &mut prompt, &ansi, &mut state, BackendEvent::SessionsListed(Ok(vec![meta("a", "first"), meta("b", "second")])), (80, 24));
    match &state.modal {
        Some(TakeoverModal::Picker(p)) => assert_eq!(p.selected_id(), Some("a".to_string())),
        _ => panic!("expected the picker"),
    }
}

#[test]
fn session_list_error_is_printed() {
    let ansi = Ansi::detect();
    let mut state = AppState::new("dir".to_string());
    let mut prompt = Prompt { cursor_offset_from_top: 0 };
    let mut out = String::new();
    handle_backend_event(&mut out, &mut prompt, &ansi, &mut state, BackendEvent::SessionsListed(Err("disk".into())), (80, 24));
    assert!(strip_ansi(&out).ends_with(" x list sessions: disk\r\n"));
}

#[test]
fn switching_to_an_empty_session_pushes_the_chat_up() {
    let ansi = Ansi::detect();
    let mut state = AppState::new("dir".to_string());
    state.set_session(meta("old", "t"), &[]);
    let mut prompt = Prompt { cursor_offset_from_top: 0 };
    let mut out = String::new();
    handle_backend_event(&mut out, &mut prompt, &ansi, &mut state, BackendEvent::SessionChanged { meta: meta("new", "t"), history: vec![] }, (80, 4));
    assert_eq!(out, "\x1b[1G\x1b[J\r\n\r\n\r\n\x1b[1;1H");
    assert_eq!(state.session.as_ref().unwrap().id, "new");
}

#[test]
fn resuming_a_session_prints_a_rule_and_its_history() {
    let ansi = Ansi::detect();
    let mut state = AppState::new("dir".to_string());
    state.set_session(meta("old", "t"), &[]);
    let mut prompt = Prompt { cursor_offset_from_top: 0 };
    let mut out = String::new();
    let history = vec![Message::User("q".into()), Message::Tool(ToolResult { content: "r".into(), is_error: false })];
    handle_backend_event(&mut out, &mut prompt, &ansi, &mut state, BackendEvent::SessionChanged { meta: meta("new", "t"), history }, (80, 24));
    assert_eq!(strip_ansi(&out), "\r\n──\r\n\r\n > q\r\n   -> r\r\n");
    assert_eq!(state.session.as_ref().unwrap().message_count, 1);
}

#[test]
fn first_session_prints_only_its_history() {
    let ansi = Ansi::detect();
    let mut state = AppState::new("dir".to_string());
    let mut prompt = Prompt { cursor_offset_from_top: 0 };
    let mut out = String::new();
    handle_backend_event(&mut out, &mut prompt, &ansi, &mut state, BackendEvent::SessionChanged { meta: meta("s", "t"), history: vec![] }, (80, 24));
    assert_eq!(out, "");
    assert!(state.has_session());
}

#[test]
fn emit_entry_wipes_the_prompt_first() {
    let ansi = Ansi::detect();
    let mut prompt = Prompt { cursor_offset_from_top: 2 };
    let mut out = String::new();
    emit_entry(&mut out, &mut prompt, &ansi, &Entry::Error("e".into()), 80);
    assert!(out.starts_with("\x1b[2A\x1b[1G\x1b[J"));
    assert_eq!(prompt.cursor_offset_from_top, 0);
}

#[test]
fn separation_with_a_rule() {
    let ansi = Ansi::detect();
    let mut prompt = Prompt { cursor_offset_from_top: 0 };
    let mut out = String::new();
    separate_previous_session(&mut out, &mut prompt, &ansi, false, 24);
    assert_eq!(strip_ansi(&out), "\r\n──\r\n");
}
