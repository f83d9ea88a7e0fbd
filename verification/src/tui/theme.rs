//! Colors and fixed marks of the interface.
use crate::tui::surface::Color;
use vstd::prelude::*;

verus! {

pub const USER: Color = Color::Cyan;

pub const ASSISTANT: Color = Color::Green;

pub const TOOL: Color = Color::Yellow;

pub const DIM: Color = Color::DarkGrey;

pub const ERROR: Color = Color::Red;

/// The background behind a user's message: an entry of the terminal's
/// 256-color palette.
pub const USER_BG: u8 = 236;

/// The left margin of every transcript line.
pub open spec fn gutter() -> Seq<char> {
    seq![' ']
}

/// The number of spinner frames.
pub const SPINNER_FRAMES: usize = 10;

/// The text of a spinner frame.
pub open spec fn spinner_spec(i: int) -> Seq<char> {
    if i == 0 {
        "⠋"@
    } else if i == 1 {
        "⠙"@
    } else if i == 2 {
        "⠹"@
    } else if i == 3 {
        "⠸"@
    } else if i == 4 {
        "⠼"@
    } else if i == 5 {
        "⠴"@
    } else if i == 6 {
        "⠦"@
    } else if i == 7 {
        "⠧"@
    } else if i == 8 {
        "⠇"@
    } else {
        "⠏"@
    }
}

/// One frame of the busy spinner.
pub fn spinner_frame(i: usize) -> (res: &'static str)
    requires
        i < SPINNER_FRAMES,
    ensures
        res@ == spinner_spec(i as int),
{
    match i {
        0 => "⠋",
        1 => "⠙",
        2 => "⠹",
        3 => "⠸",
        4 => "⠼",
        5 => "⠴",
        6 => "⠦",
        7 => "⠧",
        8 => "⠇",
        _ => "⠏",
    }
}

} // verus!
