use tiny::agent::{BackendCommand, Decision, SessionMeta, ToolCall};
use tiny::tui::ansi::Ansi;
use tiny::tui::key::{InputEvent, KeyCode, KeyEvent};
use tiny::tui::keys::handle_input_event;
use tiny::tui::modal::TakeoverModal;
use tiny::tui::permission::PermissionPromptModal;
use tiny::tui::picker::SessionPicker;
use tiny::tui::prompt::Prompt;
use tiny::tui::state::AppState;

fn key(code: KeyCode) -> InputEvent {
    InputEvent::Key(KeyEvent { code, ctrl: false, press: true })
}

fn ctrl(c: char) -> InputEvent {
    InputEvent::Key(KeyEvent { code: KeyCode::Char(c), ctrl: true, press: true })
}

fn type_text(state: &mut AppState, prompt: &mut Prompt, text: &str) {
    let ansi = Ansi::detect();
    let mut out = String::new();
    let mut sent = Vec::new();
    for c in text.chars() {
        handle_input_event(&mut out, prompt, &ansi, state, &mut sent, key(KeyCode::Char(c)), 80);
    }
}

#[test]
fn control_c_quits() {
    let ansi = Ansi::detect();
    let mut state = AppState::new("dir".into());
    let mut prompt = Prompt { cursor_offset_from_top: 0 };
    let mut out = String::new();
    let mut sent = Vec::new();
    assert!(handle_input_event(&mut out, &mut prompt, &ansi, &mut state, &mut sent, ctrl('c'), 80));
}

#[test]
fn typing_and_submitting_sends_the_message() {
    let ansi = Ansi::detect();
    let mut state = AppState::new("dir".into());
    let mut prompt = Prompt { cursor_offset_from_top: 0 };
    type_text(&mut state, &mut prompt, "hi");
    assert_eq!(state.input.as_str(), "hi");
    let mut out = String::new();
    let mut sent = Vec::new();
    let quit = handle_input_event(&mut out, &mut prompt, &ansi, &mut state, &mut sent, key(KeyCode::Enter), 80);
    assert!(!quit);
    assert_eq!(state.input.as_str(), "");
    assert_eq!(sent.len(), 1);
    match &sent[0] {
        BackendCommand::Submit(text) => assert_eq!(text, "hi"),
        _ => panic!("expected a submission"),
    }
    assert!(state.is_busy());
    assert!(out.contains("hi"));
}

#[test]
fn second_submission_queues_behind_the_turn() {
    let ansi = Ansi::detect();
    let mut state = AppState::new("dir".into());
    let mut prompt = Prompt { cursor_offset_from_top: 0 };
    let mut out = String::new();
    let mut sent = Vec::new();
    type_text(&mut state, &mut prompt, "a");
    handle_input_event(&mut out, &mut prompt, &ansi, &mut state, &mut sent, key(KeyCode::Enter), 80);
    type_text(&mut state, &mut prompt, "b");
    handle_input_event(&mut out, &mut prompt, &ansi, &mut state, &mut sent, key(KeyCode::Enter), 80);
    assert_eq!(state.turn.as_ref().unwrap().queued, 1);
    assert_eq!(sent.len(), 2);
}

#[test]
fn blank_input_is_not_submitted() {
    let ansi = Ansi::detect();
    let mut state = AppState::new("dir".into());
    let mut prompt = Prompt { cursor_offset_from_top: 0 };
    type_text(&mut state, &mut prompt, "  ");
    let mut out = String::new();
    let mut sent = Vec::new();
    handle_input_event(&mut out, &mut prompt, &ansi, &mut state, &mut sent, key(KeyCode::Enter), 80);
    assert!(sent.is_empty());
    assert_eq!(state.input.as_str(), "  ");
}

#[test]
fn palette_enter_runs_the_selected_command() {
    let ansi = Ansi::detect();
    let mut state = AppState::new("dir".into());
    let mut prompt = Prompt { cursor_offset_from_top: 0 };
    type_text(&mut state, &mut prompt, "/se");
    let mut out = String::new();
    let mut sent = Vec::new();
    handle_input_event(&mut out, &mut prompt, &ansi, &mut state, &mut sent, key(KeyCode::Enter), 80);
    assert_eq!(state.input.as_str(), "");
    assert!(matches!(sent.as_slice(), [BackendCommand::ListSessions]));
}

#[test]
fn palette_tab_completes_the_command() {
    let ansi = Ansi::detect();
    let mut state = AppState::new("dir".into());
    let mut prompt = Prompt { cursor_offset_from_top: 0 };
    type_text(&mut state, &mut prompt, "/h");
    let mut out = String::new();
    let mut sent = Vec::new();
    handle_input_event(&mut out, &mut prompt, &ansi, &mut state, &mut sent, key(KeyCode::Tab), 80);
    assert_eq!(state.input.as_str(), "/help ");
    assert!(sent.is_empty());
}

#[test]
fn unknown_command_prints_an_error() {
    let ansi = Ansi::detect();
    let mut state = AppState::new("dir".into());
    let mut prompt = Prompt { cursor_offset_from_top: 0 };
    type_text(&mut state, &mut prompt, "/x y");
    let mut out = String::new();
    let mut sent = Vec::new();
    handle_input_event(&mut out, &mut prompt, &ansi, &mut state, &mut sent, key(KeyCode::Enter), 80);
    assert!(out.contains("unknown command: /x  (try /help)"));
    assert!(sent.is_empty());
}

#[test]
fn paste_goes_into_the_input_unless_a_modal_is_open() {
    let ansi = Ansi::detect();
    let mut state = AppState::new("dir".into());
    let mut prompt = Prompt { cursor_offset_from_top: 0 };
    let mut out = String::new();
    let mut sent = Vec::new();
    handle_input_event(&mut out, &mut prompt, &ansi, &mut state, &mut sent, InputEvent::Paste("a\nb".into()), 80);
    assert_eq!(state.input.as_str(), "a b");
    state.modal = Some(TakeoverModal::Permission(PermissionPromptModal::new(
        1,
        ToolCall { id: "1".into(), name: "bash".into(), input: "{}".into() },
    )));
    handle_input_event(&mut out, &mut prompt, &ansi, &mut state, &mut sent, InputEvent::Paste("c".into()), 80);
    assert_eq!(state.input.as_str(), "a b");
}

#[test]
fn permission_prompt_answers_and_closes() {
    let ansi = Ansi::detect();
    let mut state = AppState::new("dir".into());
    let mut prompt = Prompt { cursor_offset_from_top: 0 };
    state.modal = Some(TakeoverModal::Permission(PermissionPromptModal::new(
        9,
        ToolCall { id: "1".into(), name: "bash".into(), input: "{}".into() },
    )));
    let mut out = String::new();
    let mut sent = Vec::new();
    handle_input_event(&mut out, &mut prompt, &ansi, &mut state, &mut sent, key(KeyCode::Char('x')), 80);
    assert!(state.modal.is_some());
    handle_input_event(&mut out, &mut prompt, &ansi, &mut state, &mut sent, key(KeyCode::Char('n')), 80);
    assert!(state.modal.is_none());
    match sent.as_slice() {
        [BackendCommand::PermissionDecision { id: 9, decision: Decision::Deny(reason) }] => {
            assert_eq!(reason, "denied by user")
        }
        _ => panic!("expected a denial"),
    }
}

#[test]
fn picker_enter_switches_session() {
    let ansi = Ansi::detect();
    let mut state = AppState::new("dir".into());
    let mut prompt = Prompt { cursor_offset_from_top: 0 };
    let sessions = vec![
        SessionMeta { id: "a".into(), model: "m".into(), title: "one".into() },
        SessionMeta { id: "b".into(), model: "m".into(), title: "two".into() },
    ];
    state.modal = Some(TakeoverModal::Picker(SessionPicker::new(sessions, None)));
    let mut out = String::new();
    let mut sent = Vec::new();
    handle_input_event(&mut out, &mut prompt, &ansi, &mut state, &mut sent, key(KeyCode::Up), 80);
    handle_input_event(&mut out, &mut prompt, &ansi, &mut state, &mut sent, key(KeyCode::Enter), 80);
    assert!(state.modal.is_none());
    match sent.as_slice() {
        [BackendCommand::SwitchSession(id)] => assert_eq!(id, "b"),
        _ => panic!("expected a switch"),
    }
}

#[test]
fn control_l_redraws() {
    let ansi = Ansi::detect();
    let mut state = AppState::new("dir".into());
    let mut prompt = Prompt { cursor_offset_from_top: 1 };
    let mut out = String::new();
    let mut sent = Vec::new();
    handle_input_event(&mut out, &mut prompt, &ansi, &mut state, &mut sent, ctrl('l'), 80);
    assert_eq!(out, "\x1b[1A\x1b[1G\x1b[J\x1b[2J\x1b[1;1H");
    assert_eq!(prompt.cursor_offset_from_top, 0);
}

#[test]
fn escape_clears_and_releases_are_ignored() {
    let ansi = Ansi::detect();
    let mut state = AppState::new("dir".into());
    let mut prompt = Prompt { cursor_offset_from_top: 0 };
    type_text(&mut state, &mut prompt, "abc");
    let mut out = String::new();
    let mut sent = Vec::new();
    let release = InputEvent::Key(KeyEvent { code: KeyCode::Esc, ctrl: false, press: false });
    handle_input_event(&mut out, &mut prompt, &ansi, &mut state, &mut sent, release, 80);
    assert_eq!(state.input.as_str(), "abc");
    handle_input_event(&mut out, &mut prompt, &ansi, &mut state, &mut sent, key(KeyCode::Esc), 80);
    assert_eq!(state.input.as_str(), "");
}

#[test]
fn palette_stays_installed_and_modal_takes_keys() {
    let ansi = Ansi::detect();
    let mut state = AppState::new("dir".into());
    let mut prompt = Prompt { cursor_offset_from_top: 0 };
    let mut out = String::new();
    let mut sent = Vec::new();
    type_text(&mut state, &mut prompt, "/n");
    handle_input_event(&mut out, &mut prompt, &ansi, &mut state, &mut sent, key(KeyCode::Down), 80);
    handle_input_event(&mut out, &mut prompt, &ansi, &mut state, &mut sent, key(KeyCode::Esc), 80);
    assert!(state.overlay.is_some());
    state.modal = Some(TakeoverModal::Permission(PermissionPromptModal::new(
        2,
        ToolCall { id: "1".into(), name: "bash".into(), input: "{}".into() },
    )));
    handle_input_event(&mut out, &mut prompt, &ansi, &mut state, &mut sent, key(KeyCode::Char('z')), 80);
    assert_eq!(state.input.as_str(), "");
    assert!(state.modal.is_some());
}
