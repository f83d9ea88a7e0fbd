use tiny::text::{ellipsize, fit_line, preview, preview_fit, truncate_after};
use tiny::tui::entry::Entry;
use tiny::tui::surface::{Line, Style};
use tiny::tui::transcript::{bullet_body, heading_body, wrap_line, Transcript};

#[test]
fn transcript_counts_chat_messages_and_lays_out_lines() {
    let mut t = Transcript::default();
    assert!(t.is_empty());
    t.resize(20);
    t.push(Entry::User("hello".into()));
    t.push(Entry::ToolResult { content: "done".into(), is_error: false });
    t.push(Entry::Assistant("hi".into()));
    assert_eq!(t.message_count(), 2);
    assert!(!t.is_empty());
    let h = t.height() as usize;
    assert!(t.line_at(h - 1).is_some());
    assert!(t.line_at(h).is_none());
    t.clear();
    assert!(t.is_empty());
}

#[test]
fn previews_and_ellipsis() {
    assert_eq!(preview("abcdef", 3), "abc...");
    assert_eq!(preview("abc", 3), "abc");
    assert_eq!(ellipsize("abcdef", 4), "abc…");
    assert_eq!(ellipsize("abcdef", 1), "…");
    assert_eq!(ellipsize("abcdef", 0), "");
    assert_eq!(truncate_after("abcdef", 2, "~"), "ab~");
    assert_eq!(preview_fit("abcdefgh", 5), "ab...");
    assert_eq!(preview_fit("abcdefgh", 2), "..");
    assert_eq!(fit_line("abcdef", 4), "abc");
}

#[test]
fn headings_and_bullets() {
    assert_eq!(heading_body("## Title"), Some("Title"));
    assert_eq!(heading_body("#nope"), None);
    assert_eq!(bullet_body("- item"), Some("item"));
    assert_eq!(bullet_body("* item"), Some("item"));
    assert_eq!(bullet_body("-item"), None);
}

#[test]
fn wrapped_rows_fit_the_width() {
    let text_of = |l: &Line| -> String { l.spans().iter().map(|s| s.text()).collect() };

    let mut out = Vec::new();
    wrap_line(&Line::styled("abcde".into(), Style::plain()), 2, &mut out);
    let rows: Vec<String> = out.iter().map(text_of).collect();
    assert_eq!(rows, vec!["ab", "cd", "e"]);

    // A tab is four columns wide: on two columns it takes a row alone.
    let mut out = Vec::new();
    wrap_line(&Line::styled("a\tb".into(), Style::plain()), 2, &mut out);
    let rows: Vec<String> = out.iter().map(text_of).collect();
    assert_eq!(rows, vec!["a", "\t", "b"]);
}
