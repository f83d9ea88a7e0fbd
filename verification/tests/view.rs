use tiny::agent::{SessionMeta, ToolCall};
use tiny::tui::entry::Entry;
use tiny::tui::input::InputBuffer;
use tiny::tui::surface::{Color, Line, Style};
use tiny::tui::transcript::Transcript;
use tiny::tui::view::{
    content_width, input_box, intro_area, intro_lines, layout, message_area, palette_line,
    palette_popup, picker_line, picker_popup, spinner_line, status_bar, transcript_visible_lines,
    Rect,
};

fn text_of(line: &Line) -> String {
    line.spans().iter().map(|s| s.text()).collect()
}

fn meta(id: &str, title: &str) -> SessionMeta {
    SessionMeta { id: id.into(), model: "m".into(), title: title.into() }
}

#[test]
fn spinner_shows_frame_and_seconds() {
    let line = spinner_line(11, 4);
    assert_eq!(text_of(&line), " ⠙ Thinking... (4s)");
    assert_eq!(line.spans()[1].style(), Style::fg(Color::Yellow));
}

#[test]
fn visible_lines_add_a_spinner_below_the_transcript() {
    let mut transcript = Transcript::default();
    transcript.resize(40);
    transcript.push(Entry::Error("oops".into()));
    let height = transcript.height() as usize;
    let rows = transcript_visible_lines(&transcript, 0, 10, true, 0, 2);
    assert_eq!(rows.len(), height + 2);
    assert_eq!(rows[height].len(), 0);
    assert_eq!(text_of(&rows[height + 1]), " ⠋ Thinking... (2s)");
    let idle = transcript_visible_lines(&transcript, 0, 10, false, 0, 2);
    assert_eq!(idle.len(), height);
}

#[test]
fn status_bar_fills_the_width() {
    let bar = status_bar("gpt", 3, 0, "proj", 40);
    assert_eq!(bar, " gpt · 3 msgs · proj     ⏎ send · /quit ");
    assert_eq!(bar.chars().count(), 40);
    let queued = status_bar("gpt", 3, 2, "proj", 10);
    assert_eq!(queued, " gpt · 3 msgs · 2 queued · proj⏎ send · /quit ");
}

#[test]
fn input_box_scrolls_to_keep_the_cursor_visible() {
    let mut input = InputBuffer::default();
    input.insert_str("abcdefghij");
    let area = Rect { x: 0, y: 5, width: 8, height: 3 };
    let b = input_box(&input, None, false, area);
    assert_eq!(b.text, "> abcdefghij");
    assert_eq!(b.scroll_x, 7);
    assert_eq!(b.cursor, Some((6, 6)));
    assert_eq!(b.border, Style::fg(Color::Cyan));
}

#[test]
fn input_box_shows_the_permission_question() {
    let input = InputBuffer::default();
    let call = ToolCall { id: "1".into(), name: "bash".into(), input: "{}".into() };
    let b = input_box(&input, Some(&call), true, Rect { x: 0, y: 0, width: 30, height: 3 });
    assert_eq!(b.text, " Run bash({})?  [y]es  [n]o ");
    assert_eq!(b.cursor, None);
    assert_eq!(b.style, Style::fg(Color::Yellow).bold());
}

#[test]
fn palette_popup_sits_above_the_input() {
    let area = Rect { x: 2, y: 10, width: 60, height: 3 };
    let popup = palette_popup("/", 1, false, area).expect("popup");
    assert_eq!(popup.lines.len(), 3);
    // 2 borders + 3 marker + 1 slash + 8 name + 2 gap + 30 help.
    assert_eq!(popup.area, Rect { x: 2, y: 5, width: 46, height: 5 });
    assert_eq!(text_of(&popup.lines[1]), " > /sessions  pick a saved session to resume");
    assert_eq!(text_of(&popup.lines[0]), "   /new       start a new session");
    assert!(palette_popup("/", 0, true, area).is_none());
    assert!(palette_popup("hello", 0, false, area).is_none());
}

#[test]
fn palette_line_cuts_the_help() {
    let line = palette_line("new", "start a new session", 8, 5, false);
    assert_eq!(text_of(&line), "   /new       star…");
}

#[test]
fn picker_popup_keeps_the_selection_in_view() {
    let sessions: Vec<SessionMeta> = (0..30).map(|i| meta(&format!("id{i}"), "")).collect();
    let area = Rect { x: 0, y: 10, width: 50, height: 3 };
    let popup = picker_popup(&sessions, 12, Some("id12"), area).expect("popup");
    // Seven rows fit above the input, then the footer.
    assert_eq!(popup.lines.len(), 8);
    assert_eq!(text_of(&popup.lines[6]), " >* (untitled)");
    assert_eq!(text_of(&popup.lines[7]), " ↑/↓ navigate  ⏎ resume  esc cancel");
    assert_eq!(popup.area, Rect { x: 0, y: 0, width: 20, height: 10 });
    assert!(picker_popup(&sessions, 0, None, Rect { x: 0, y: 3, width: 50, height: 3 }).is_none());
    assert!(picker_popup(&[], 0, None, area).is_none());
}

#[test]
fn picker_line_marks_selected_and_active() {
    assert_eq!(text_of(&picker_line(&meta("a", "Title"), false, true, 3)), "  * Ti…");
}

#[test]
fn intro_box_fits_its_lines() {
    let lines = intro_lines("gpt", "proj", "1.2.3");
    assert_eq!(lines.len(), 6);
    assert_eq!(text_of(&lines[0]), ">_ Tiny (v1.2.3)");
    let width = content_width(&lines).expect("width");
    assert_eq!(width, 36);
    let area = intro_area(width, lines.len(), Rect { x: 0, y: 0, width: 80, height: 20 });
    assert_eq!(area, Some(Rect { x: 1, y: 1, width: 40, height: 8 }));
    assert_eq!(intro_area(width, lines.len(), Rect { x: 0, y: 0, width: 0, height: 20 }), None);
}

#[test]
fn layout_splits_messages_input_and_status() {
    let (messages, input, status) = layout(Rect { x: 0, y: 0, width: 80, height: 24 });
    assert_eq!(messages, Rect { x: 0, y: 0, width: 80, height: 20 });
    assert_eq!(input, Rect { x: 0, y: 20, width: 80, height: 3 });
    assert_eq!(status, Rect { x: 0, y: 23, width: 80, height: 1 });
    assert_eq!(message_area(Rect { x: 0, y: 0, width: 80, height: 24 }), messages);
}

#[test]
fn rect_stays_within_u16() {
    assert_eq!(Rect::new(65530, 0, 10, 3), Rect { x: 65530, y: 0, width: 5, height: 3 });
}
