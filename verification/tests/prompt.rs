use tiny::agent::ToolCall;
use tiny::tui::ansi::Ansi;
use tiny::tui::modal::TakeoverModal;
use tiny::tui::permission::PermissionPromptModal;
use tiny::tui::prompt::{build_frame, Prompt};
use tiny::tui::state::AppState;

fn visible_lines(bytes: &[u8]) -> Vec<String> {
    let text = String::from_utf8_lossy(bytes).replace("\r\n", "\n");
    text.split('\n').map(strip_ansi).collect()
}

fn strip_ansi(input: &str) -> String {
    let mut out = String::new();
    let mut chars = input.chars().peekable();
    while let Some(ch) = chars.next() {
        if ch == '\x1b' && chars.peek() == Some(&'[') {
            chars.next();
            for code in chars.by_ref() {
                if code.is_ascii_alphabetic() {
                    break;
                }
            }
        } else {
            out.push(ch);
        }
    }
    out
}

fn git_status() -> String {
    let mut map = serde_json::Map::new();
    map.insert(
        "command".to_string(),
        serde_json::Value::String("git status".to_string()),
    );
    serde_json::Value::Object(map).to_string()
}

#[test]
fn permission_prompt_keeps_draft_input_visible() {
    let mut state = AppState::new("project".to_string());
    state.input.insert_str("draft");
    state.modal = Some(TakeoverModal::Permission(PermissionPromptModal::new(
        0,
        ToolCall {
            id: "call-1".into(),
            name: "bash".into(),
            input: git_status(),
        },
    )));

    let ansi = Ansi::detect();
    let frame = build_frame(&ansi, &state, (40, 10));
    let lines = visible_lines(frame.as_bytes());
    let (cursor_col, cursor_row) = frame.input_cursor();

    assert!(lines.iter().any(|line| line == "> draft"));
    assert!(lines.iter().any(|line| line.contains("allow bash(")));
    assert_eq!(lines[cursor_row as usize], "> draft");
    assert_eq!(cursor_col, 7);
}

#[test]
fn prompt_frame_lines_fit_narrow_terminal() {
    let mut state = AppState::new("project".to_string());
    state.input.insert_str("/");

    let ansi = Ansi::detect();
    let frame = build_frame(&ansi, &state, (20, 8));
    let lines = visible_lines(frame.as_bytes());

    assert_eq!(frame.rows() as usize, lines.len());
    for line in lines {
        assert!(
            line.chars().count() <= 19,
            "line exceeded reserved width: {line:?}"
        );
    }
}

#[test]
fn clearing_a_fresh_prompt_only_returns_to_column_one() {
    let mut prompt = Prompt { cursor_offset_from_top: 0 };
    let mut out = String::new();
    prompt.clear(&mut out);
    assert_eq!(out, "\x1b[1G\x1b[J");
}

#[test]
fn drawing_remembers_the_cursor_row() {
    let state = AppState::new("project".to_string());
    let ansi = Ansi::detect();
    let frame = build_frame(&ansi, &state, (40, 10));
    let mut prompt = Prompt { cursor_offset_from_top: 3 };
    let mut out = String::new();
    prompt.draw(&mut out, &frame);
    assert!(out.starts_with("\x1b[3A\x1b[1G\x1b[J"));
    assert_eq!(prompt.cursor_offset_from_top, frame.input_cursor().1);
}
