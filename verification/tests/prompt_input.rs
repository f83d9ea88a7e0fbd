use tiny::tui::frame::Frame;
use tiny::tui::input::InputBuffer;
use tiny::tui::prompt_input::write_input;

fn typed(text: &str) -> InputBuffer {
    let mut input = InputBuffer::default();
    input.insert_str(text);
    input
}

#[test]
fn input_wraps_on_a_fresh_frame_without_a_leading_break() {
    let mut frame = Frame::default();
    let cursor = write_input(&mut frame, &typed("abcdefgh"), 6);
    assert_eq!(frame.text(), "> abcdefgh");
    assert_eq!(frame.rows(), 1);
    assert_eq!((cursor.col, cursor.row_offset), (5, 1));
}

#[test]
fn input_wraps_with_breaks_once_a_row_is_started() {
    let mut frame = Frame::default();
    frame.row();
    let cursor = write_input(&mut frame, &typed("abcdefghijk"), 6);
    assert_eq!(frame.text(), "> abc\r\ndefgh\r\nijk");
    assert_eq!(frame.rows(), 3);
    assert_eq!((cursor.col, cursor.row_offset), (3, 2));
}

#[test]
fn short_input_stays_on_the_prompt_row() {
    let mut frame = Frame::default();
    frame.row();
    let cursor = write_input(&mut frame, &typed("hi"), 20);
    assert_eq!(frame.text(), "> hi");
    assert_eq!(frame.rows(), 1);
    assert_eq!((cursor.col, cursor.row_offset), (4, 0));
}
