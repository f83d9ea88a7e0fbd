use tiny::tui::input::InputBuffer;

#[test]
fn edits_across_utf8_boundaries() {
    let mut input = InputBuffer::default();

    input.insert_str("aé");
    input.move_left();
    input.backspace();
    input.insert_char('z');

    assert_eq!(input.as_str(), "zé");
    assert_eq!(input.cursor_column(), 1);
}

#[test]
fn paste_replaces_controls_with_spaces() {
    let mut input = InputBuffer::default();

    input.insert_str("one\ntwo\tthree");

    assert_eq!(input.as_str(), "one two three");
}

#[test]
fn backspace_right_after_typing_restores_the_input() {
    let mut input = InputBuffer::default();
    input.insert_str("héllo");
    input.move_left();
    input.move_left();
    let before = input.as_str().to_string();
    let column = input.cursor_column();
    input.insert_char('ß');
    input.backspace();
    assert_eq!(input.as_str(), before);
    assert_eq!(input.cursor_column(), column);
}

#[test]
fn cursor_stays_within_the_text() {
    let mut input = InputBuffer::default();
    input.move_left();
    assert_eq!(input.cursor_column(), 0);
    input.insert_str("ab");
    input.move_right();
    assert_eq!(input.cursor_column(), 2);
    input.backspace();
    input.backspace();
    input.backspace();
    assert_eq!(input.as_str(), "");
    assert_eq!(input.cursor_column(), 0);
}

#[test]
fn clear_hands_back_the_text() {
    let mut input = InputBuffer::default();
    input.insert_str("  ");
    assert!(input.is_blank());
    input.insert_char('x');
    assert!(!input.is_blank());
    assert_eq!(input.clear(), "  x");
    assert_eq!(input.as_str(), "");
    assert_eq!(input.cursor_column(), 0);
}
