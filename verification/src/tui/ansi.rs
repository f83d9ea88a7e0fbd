//! Terminal control sequences, written by crossterm's commands, and the
//! table of color sequences the renderers draw with.
use crate::text::decimal;
use crate::tui::surface::Color;
use crossterm::Command;
use vstd::prelude::*;

verus! {

/// The control sequence introducer, `ESC [`.
pub open spec fn csi() -> Seq<char> {
    seq!['\u{1b}', '[']
}

/// The palette code crossterm gives each color.
pub open spec fn color_code(c: Color) -> Seq<char> {
    match c {
        Color::Cyan => "5;14"@,
        Color::Green => "5;10"@,
        Color::Yellow => "5;11"@,
        Color::DarkGrey => "5;8"@,
        Color::Red => "5;9"@,
    }
}

/// The sequence crossterm writes for a color change when `NO_COLOR` leaves
/// colors on: `ESC [ <kind> ; <code> m`.
pub open spec fn color_on(kind: Seq<char>, code: Seq<char>) -> Seq<char> {
    csi() + kind + seq![';'] + code + seq!['m']
}

/// The sequence crossterm writes for a color change when `NO_COLOR` turns
/// colors off: `ESC [ m`.
pub open spec fn color_off() -> Seq<char> {
    csi() + seq!['m']
}

pub open spec fn reset_seq() -> Seq<char> {
    csi() + "0m"@
}

pub open spec fn bold_seq() -> Seq<char> {
    csi() + "1m"@
}

pub open spec fn normal_intensity_seq() -> Seq<char> {
    csi() + "22m"@
}

/// What part of the screen a clear removes.
#[derive(Clone, Copy)]
pub enum ClearKind {
    All,
    FromCursorDown,
    UntilNewLine,
}

pub open spec fn clear_seq(k: ClearKind) -> Seq<char> {
    match k {
        ClearKind::All => csi() + "2J"@,
        ClearKind::FromCursorDown => csi() + "J"@,
        ClearKind::UntilNewLine => csi() + "K"@,
    }
}

pub open spec fn move_up_seq(n: u16) -> Seq<char> {
    csi() + decimal(n as nat) + seq!['A']
}

pub open spec fn move_to_column_seq(col: u16) -> Seq<char> {
    csi() + decimal(col as nat + 1) + seq!['G']
}

pub open spec fn move_to_seq(col: u16, row: u16) -> Seq<char> {
    csi() + decimal(row as nat + 1) + seq![';'] + decimal(col as nat + 1) + seq!['H']
}

/// crossterm's `SetForegroundColor`: `ESC [ 38 ; <code> m`, or `ESC [ m` when
/// the `NO_COLOR` environment variable turns colors off. Which of the two
/// depends on the environment, so the contract allows both.
#[verifier::external_body]
fn set_foreground(color: Color) -> (res: String)
    ensures
        res@ == color_on("38"@, color_code(color)) || res@ == color_off(),
{
    let c = match color {
        Color::Cyan => crossterm::style::Color::Cyan,
        Color::Green => crossterm::style::Color::Green,
        Color::Yellow => crossterm::style::Color::Yellow,
        Color::DarkGrey => crossterm::style::Color::DarkGrey,
        Color::Red => crossterm::style::Color::Red,
    };
    let mut s = String::new();
    let _ = crossterm::style::SetForegroundColor(c).write_ansi(&mut s);
    s
}

/// crossterm's `SetBackgroundColor` with a 256-color palette entry:
/// `ESC [ 48 ; 5 ; <value> m`, or `ESC [ m` when `NO_COLOR` turns colors off.
#[verifier::external_body]
fn set_background_palette(value: u8) -> (res: String)
    ensures
        res@ == color_on("48"@, "5;"@ + decimal(value as nat)) || res@ == color_off(),
{
    let mut s = String::new();
    let c = crossterm::style::Color::AnsiValue(value);
    let _ = crossterm::style::SetBackgroundColor(c).write_ansi(&mut s);
    s
}

/// crossterm's `ResetColor`: `ESC [ 0 m`.
#[verifier::external_body]
pub fn reset_color() -> (res: String)
    ensures
        res@ == reset_seq(),
{
    let mut s = String::new();
    let _ = crossterm::style::ResetColor.write_ansi(&mut s);
    s
}

/// crossterm's `SetAttribute(Attribute::Bold)`: `ESC [ 1 m`.
#[verifier::external_body]
pub fn set_bold() -> (res: String)
    ensures
        res@ == bold_seq(),
{
    let mut s = String::new();
    let a = crossterm::style::Attribute::Bold;
    let _ = crossterm::style::SetAttribute(a).write_ansi(&mut s);
    s
}

/// crossterm's `SetAttribute(Attribute::NormalIntensity)`: `ESC [ 22 m`.
#[verifier::external_body]
pub fn set_normal_intensity() -> (res: String)
    ensures
        res@ == normal_intensity_seq(),
{
    let mut s = String::new();
    let a = crossterm::style::Attribute::NormalIntensity;
    let _ = crossterm::style::SetAttribute(a).write_ansi(&mut s);
    s
}

/// crossterm's `Clear`: `ESC [ 2 J`, `ESC [ J` or `ESC [ K`.
#[verifier::external_body]
pub fn clear(kind: ClearKind) -> (res: String)
    ensures
        res@ == clear_seq(kind),
{
    let t = match kind {
        ClearKind::All => crossterm::terminal::ClearType::All,
        ClearKind::FromCursorDown => crossterm::terminal::ClearType::FromCursorDown,
        ClearKind::UntilNewLine => crossterm::terminal::ClearType::UntilNewLine,
    };
    let mut s = String::new();
    let _ = crossterm::terminal::Clear(t).write_ansi(&mut s);
    s
}

/// crossterm's `MoveUp`: `ESC [ <n> A`.
#[verifier::external_body]
pub fn move_up(n: u16) -> (res: String)
    ensures
        res@ == move_up_seq(n),
{
    let mut s = String::new();
    let _ = crossterm::cursor::MoveUp(n).write_ansi(&mut s);
    s
}

/// crossterm's `MoveToColumn`: `ESC [ <col + 1> G`. It adds one to the column
/// in `u16`, so the last value is left out.
#[verifier::external_body]
pub fn move_to_column(col: u16) -> (res: String)
    requires
        col < u16::MAX,
    ensures
        res@ == move_to_column_seq(col),
{
    let mut s = String::new();
    let _ = crossterm::cursor::MoveToColumn(col).write_ansi(&mut s);
    s
}

/// crossterm's `MoveTo`: `ESC [ <row + 1> ; <col + 1> H`. It adds one to each
/// coordinate in `u16`, so the last value is left out.
#[verifier::external_body]
pub fn move_to(col: u16, row: u16) -> (res: String)
    requires
        col < u16::MAX,
        row < u16::MAX,
    ensures
        res@ == move_to_seq(col, row),
{
    let mut s = String::new();
    let _ = crossterm::cursor::MoveTo(col, row).write_ansi(&mut s);
    s
}

// ---------------------------------------------------------------------------
// The color table
// ---------------------------------------------------------------------------

/// Where a color's sequence sits in the table.
pub open spec fn color_index(c: Color) -> int {
    match c {
        Color::Cyan => 0,
        Color::Green => 1,
        Color::Yellow => 2,
        Color::DarkGrey => 3,
        Color::Red => 4,
    }
}

pub open spec fn color_at(i: int) -> Color {
    if i == 0 {
        Color::Cyan
    } else if i == 1 {
        Color::Green
    } else if i == 2 {
        Color::Yellow
    } else if i == 3 {
        Color::DarkGrey
    } else {
        Color::Red
    }
}

/// The color sequences, as values.
pub struct AnsiView {
    pub fg: Seq<Seq<char>>,
    pub bg_user: Seq<char>,
}

/// Each foreground sequence is the one crossterm writes for its color (with
/// colors on or off), and so is the user background.
pub open spec fn ansi_ok(a: AnsiView) -> bool {
    &&& a.fg.len() == 5
    &&& forall|i: int|
        0 <= i < 5 ==> (#[trigger] a.fg[i] == color_on("38"@, color_code(color_at(i))) || a.fg[i]
            == color_off())
    &&& (a.bg_user == color_on("48"@, "5;"@ + decimal(crate::tui::theme::USER_BG as nat))
        || a.bg_user == color_off())
}

/// The sequence that sets a text color.
pub open spec fn fg_of(a: AnsiView, c: Color) -> Seq<char> {
    a.fg[color_index(c)]
}

/// The color sequences the renderers use, fetched once.
pub struct Ansi {
    fg: Vec<String>,
    bg_user: String,
}

impl View for Ansi {
    type V = AnsiView;

    closed spec fn view(&self) -> AnsiView {
        AnsiView { fg: self.fg@.map_values(|s: String| s@), bg_user: self.bg_user@ }
    }
}

impl Ansi {
    /// Asks crossterm for the sequence of every color.
    pub fn detect() -> (res: Ansi)
        ensures
            ansi_ok(res@),
    {
        let mut fg: Vec<String> = Vec::new();
        fg.push(set_foreground(Color::Cyan));
        fg.push(set_foreground(Color::Green));
        fg.push(set_foreground(Color::Yellow));
        fg.push(set_foreground(Color::DarkGrey));
        fg.push(set_foreground(Color::Red));
        let bg_user = set_background_palette(crate::tui::theme::USER_BG);
        let res = Ansi { fg, bg_user };
        assert forall|i: int| 0 <= i < 5 implies (#[trigger] res@.fg[i] == color_on(
            "38"@,
            color_code(color_at(i)),
        ) || res@.fg[i] == color_off()) by {
            assert(res@.fg[i] == fg@[i]@);
        }
        res
    }

    /// The sequence that sets a text color.
    pub fn fg(&self, c: Color) -> (res: &str)
        requires
            ansi_ok(self@),
        ensures
            res@ == fg_of(self@, c),
    {
        let i: usize = match c {
            Color::Cyan => 0,
            Color::Green => 1,
            Color::Yellow => 2,
            Color::DarkGrey => 3,
            Color::Red => 4,
        };
        assert(self.fg@[i as int]@ == self@.fg[i as int]);
        self.fg[i].as_str()
    }

    /// The sequence that sets the user's background.
    pub fn bg_user(&self) -> (res: &str)
        ensures
            res@ == self@.bg_user,
    {
        self.bg_user.as_str()
    }
}

} // verus!
