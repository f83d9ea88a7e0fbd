use tiny::tui::ansi::Ansi;
use tiny::tui::entry::Entry;
use tiny::tui::print::{
    print_entry, print_error, print_separator, print_tool_result, print_user, tool_call_args_preview,
};

fn strip_ansi(input: &str) -> String {
    let mut out = String::new();
    let mut chars = input.chars().peekable();
    while let Some(ch) = chars.next() {
        if ch == '\x1b' && chars.peek() == Some(&'[') {
            chars.next();
            for code in chars.by_ref() {
                if code.is_ascii_alphabetic() {
                    break;
                }
            }
        } else {
            out.push(ch);
        }
    }
    out
}

fn command_args(command: &str) -> String {
    let mut map = serde_json::Map::new();
    map.insert(
        "command".to_string(),
        serde_json::Value::String(command.to_string()),
    );
    serde_json::Value::Object(map).to_string()
}

#[test]
fn tool_call_preview_fits_terminal_width() {
    let cols = 40;
    let name = "bash";
    let args = command_args("git add -N src/tui.rs src/tui/commands.rs src/tui/prompt.rs");

    let preview = tool_call_args_preview(name, &args, cols);
    let rendered_cols = " ".chars().count() + 2 + name.chars().count() + 2 + preview.chars().count();

    assert!(rendered_cols <= usize::from(cols - 1));
}

#[test]
fn tool_call_preview_keeps_short_arguments_whole() {
    let args = command_args("ls");
    assert_eq!(tool_call_args_preview("bash", &args, 80), args);
}

#[test]
fn tool_call_preview_exact_cut() {
    // 40 columns leave 39, less 9 for the gutter, mark, name and brackets: 30.
    let args = command_args("git add -N src/tui.rs src/tui/commands.rs src/tui/prompt.rs");
    let preview = tool_call_args_preview("bash", &args, 40);
    assert_eq!(preview, "{\"command\":\"git add -N src/...");
    assert_eq!(preview.chars().count(), 30);
}

#[test]
fn tool_result_shows_three_lines_then_a_count() {
    let ansi = Ansi::detect();
    let mut out = String::new();
    print_tool_result(&mut out, &ansi, "a  \nb\nc\nd\ne", false);
    let text = strip_ansi(&out);
    assert_eq!(text, "   -> a\r\n      b\r\n      c\r\n      +2 more lines\r\n");
}

#[test]
fn tool_result_with_one_more_line_says_line() {
    let ansi = Ansi::detect();
    let mut out = String::new();
    print_tool_result(&mut out, &ansi, "a\nb\nc\nd", true);
    assert!(strip_ansi(&out).ends_with("      +1 more line\r\n"));
}

#[test]
fn user_message_lines_are_marked() {
    let ansi = Ansi::detect();
    let mut out = String::new();
    print_user(&mut out, &ansi, "hi\nthere");
    assert_eq!(strip_ansi(&out), "\r\n > hi\r\n   there\r\n");
}

#[test]
fn error_and_separator() {
    let ansi = Ansi::detect();
    let mut out = String::new();
    print_error(&mut out, &ansi, "boom");
    print_separator(&mut out, &ansi);
    assert_eq!(strip_ansi(&out), "\r\n x boom\r\n\r\n──\r\n");
}

#[test]
fn assistant_text_with_heading_bullet_and_code() {
    let ansi = Ansi::detect();
    let mut out = String::new();
    let entry = Entry::Assistant("# Title\n- item `x`\n```\n# not a heading\n```".to_string());
    print_entry(&mut out, &ansi, &entry, 80);
    assert_eq!(
        strip_ansi(&out),
        "\r\n · Title\r\n   • item x\r\n   ```\r\n   # not a heading\r\n   ```\r\n"
    );
}
