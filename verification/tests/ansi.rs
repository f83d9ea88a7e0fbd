use tiny::tui::ansi::{clear, move_to, move_to_column, move_up, reset_color, set_bold, set_normal_intensity, Ansi, ClearKind};
use tiny::tui::surface::Color;

#[test]
fn crossterm_sequences() {
    assert_eq!(reset_color(), "\x1b[0m");
    assert_eq!(set_bold(), "\x1b[1m");
    assert_eq!(set_normal_intensity(), "\x1b[22m");
    assert_eq!(clear(ClearKind::All), "\x1b[2J");
    assert_eq!(clear(ClearKind::FromCursorDown), "\x1b[J");
    assert_eq!(clear(ClearKind::UntilNewLine), "\x1b[K");
    assert_eq!(move_up(3), "\x1b[3A");
    assert_eq!(move_to_column(0), "\x1b[1G");
    assert_eq!(move_to(4, 2), "\x1b[3;5H");
}

#[test]
fn color_sequences_are_on_or_off() {
    let ansi = Ansi::detect();
    let cyan = ansi.fg(Color::Cyan);
    assert!(cyan == "\x1b[38;5;14m" || cyan == "\x1b[m");
    let red = ansi.fg(Color::Red);
    assert!(red == "\x1b[38;5;9m" || red == "\x1b[m");
    let bg = ansi.bg_user();
    assert!(bg == "\x1b[48;5;236m" || bg == "\x1b[m");
}
