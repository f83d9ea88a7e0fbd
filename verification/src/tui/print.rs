//! Printing transcript entries into the terminal's scrollback, as text with
//! control sequences.
use crate::text::{
    chars_of, decimal, lines_of, push_char, push_chars, push_decimal, push_str, sat_sub,
    slice_chars, spec_preview_fit, split_lines, split_newlines, take_chars, text_lines, trim_end,
    trimmed_end_len, preview_fit,
};
use crate::tui::ansi::{
    Ansi, AnsiView, ClearKind, ansi_ok, bold_seq, clear, clear_seq, fg_of, normal_intensity_seq,
    reset_color, reset_seq, set_bold, set_normal_intensity,
};
use crate::tui::entry::{Entry, EntryView};
use crate::tui::frame::crlf;
use crate::tui::theme;
use crate::tui::transcript::{
    arrow, bullet_start, fence_line, heading_start, is_fence, more_lines_text, result_body,
    spec_bullet_body, spec_heading_body,
};
use crate::tui::surface::Color;
use vstd::prelude::*;

verus! {

broadcast use vstd::string::group_string_axioms;

pub open spec fn gutter() -> Seq<char> {
    theme::gutter()
}

// ---------------------------------------------------------------------------
// Specifications
// ---------------------------------------------------------------------------

/// One line of a user's message on its background: `> ` before the first
/// line, two spaces before the others, the rest of the row cleared.
pub open spec fn user_line(a: AnsiView, line: Seq<char>, first: bool) -> Seq<char> {
    a.bg_user + gutter() + fg_of(a, theme::DIM) + (if first { "> "@ } else { "  "@ }) + reset_seq()
        + a.bg_user + line + clear_seq(ClearKind::UntilNewLine) + reset_seq() + crlf()
}

pub open spec fn user_lines(a: AnsiView, ls: Seq<Seq<char>>, n: int) -> Seq<char>
    decreases n,
{
    if n <= 0 {
        seq![]
    } else {
        user_lines(a, ls, n - 1) + user_line(a, ls[n - 1], n == 1)
    }
}

pub open spec fn print_user_spec(a: AnsiView, text: Seq<char>) -> Seq<char> {
    crlf() + user_lines(a, split_newlines(text), split_newlines(text).len() as int)
}

/// Scans inline code: the output so far, whether code is open, and the text
/// not yet printed.
pub open spec fn inline_scan(a: AnsiView, t: Seq<char>, i: int) -> (Seq<char>, bool, Seq<char>)
    decreases i,
{
    if i <= 0 {
        (seq![], false, seq![])
    } else {
        let (out, in_code, buf) = inline_scan(a, t, i - 1);
        if t[i - 1] == '`' {
            (
                out + if buf.len() == 0 {
                    seq![]
                } else if in_code {
                    fg_of(a, theme::TOOL) + buf + reset_seq()
                } else {
                    buf
                },
                !in_code,
                seq![],
            )
        } else {
            (out, in_code, buf.push(t[i - 1]))
        }
    }
}

/// Text with backtick-quoted parts in the tool color; an unclosed trailing
/// part is printed with its backtick.
pub open spec fn inline_print(a: AnsiView, t: Seq<char>) -> Seq<char> {
    let (out, in_code, buf) = inline_scan(a, t, t.len() as int);
    out + if buf.len() == 0 {
        seq![]
    } else if in_code {
        seq!['`'] + buf
    } else {
        buf
    }
}

/// The start of a printed line of an assistant's text: the mark on the first
/// line, two spaces on the others.
pub open spec fn assistant_head(a: AnsiView, first: bool) -> Seq<char> {
    gutter() + if first {
        fg_of(a, theme::ASSISTANT) + bold_seq() + "· "@ + normal_intensity_seq() + reset_seq()
    } else {
        "  "@
    }
}

/// The body of a printed line of an assistant's text: code as it is, dim;
/// prose with a heading in bold, a bullet, and inline code.
pub open spec fn assistant_body(a: AnsiView, raw: Seq<char>, code: bool) -> Seq<char> {
    if code {
        fg_of(a, theme::DIM) + raw + reset_seq()
    } else {
        match spec_heading_body(raw) {
            Some(rest) => bold_seq() + rest + normal_intensity_seq(),
            None => match spec_bullet_body(raw) {
                Some(rest) => "• "@ + inline_print(a, rest),
                None => inline_print(a, raw),
            },
        }
    }
}

/// One printed line of an assistant's text, and whether code is open after
/// it.
pub open spec fn assistant_print_line(a: AnsiView, raw: Seq<char>, first: bool, in_code: bool) -> (
    Seq<char>,
    bool,
) {
    let fence = is_fence(raw);
    (
        assistant_head(a, first) + assistant_body(a, raw, fence || in_code) + crlf(),
        if fence {
            !in_code
        } else {
            in_code
        },
    )
}

pub open spec fn assistant_print_scan(a: AnsiView, ls: Seq<Seq<char>>, n: int) -> (Seq<char>, bool)
    decreases n,
{
    if n <= 0 {
        (seq![], false)
    } else {
        let (out, in_code) = assistant_print_scan(a, ls, n - 1);
        let (line, next) = assistant_print_line(a, ls[n - 1], n == 1, in_code);
        (out + line, next)
    }
}

pub open spec fn print_assistant_spec(a: AnsiView, text: Seq<char>) -> Seq<char> {
    crlf() + assistant_print_scan(a, split_newlines(text), split_newlines(text).len() as int).0
}

/// The room left for a tool call's arguments on a terminal `cols` wide: the
/// width less one column, less the gutter, the `* ` mark, the name and the
/// brackets.
pub open spec fn preview_cols(name: Seq<char>, cols: u16) -> nat {
    sat_sub(sat_sub(cols as int, 1) as int, (1 + 2 + name.len() + 2) as int)
}

pub open spec fn print_tool_call_spec(a: AnsiView, name: Seq<char>, args: Seq<char>, cols: u16) -> Seq<char> {
    crlf() + gutter() + fg_of(a, theme::TOOL) + "* "@ + bold_seq() + name + normal_intensity_seq()
        + reset_seq() + fg_of(a, theme::DIM) + seq!['('] + spec_preview_fit(args, preview_cols(name, cols))
        + seq![')'] + clear_seq(ClearKind::UntilNewLine) + reset_seq() + crlf()
}

pub open spec fn body_color(is_error: bool) -> Color {
    if is_error {
        theme::ERROR
    } else {
        theme::DIM
    }
}

pub open spec fn result_line(a: AnsiView, line: Seq<char>, i: int, is_error: bool) -> Seq<char> {
    gutter() + fg_of(a, theme::DIM) + arrow(i) + fg_of(a, body_color(is_error)) + line + reset_seq()
        + crlf()
}

pub open spec fn result_lines(a: AnsiView, body: Seq<Seq<char>>, is_error: bool, n: int) -> Seq<char>
    decreases n,
{
    if n <= 0 {
        seq![]
    } else {
        result_lines(a, body, is_error, n - 1) + result_line(a, body[n - 1], n - 1, is_error)
    }
}

/// A tool's result: its first three lines, then how many were left out.
pub open spec fn print_tool_result_spec(a: AnsiView, content: Seq<char>, is_error: bool) -> Seq<char> {
    let body = result_body(content);
    let shown: int = if body.len() < 3 {
        body.len() as int
    } else {
        3
    };
    result_lines(a, body, is_error, shown) + if body.len() > shown {
        gutter() + fg_of(a, theme::DIM) + more_lines_text((body.len() - shown) as nat) + reset_seq()
            + crlf()
    } else {
        seq![]
    }
}

pub open spec fn print_error_spec(a: AnsiView, text: Seq<char>) -> Seq<char> {
    crlf() + gutter() + fg_of(a, theme::ERROR) + bold_seq() + "x "@ + normal_intensity_seq() + text
        + reset_seq() + crlf()
}

pub open spec fn print_separator_spec(a: AnsiView) -> Seq<char> {
    crlf() + fg_of(a, theme::DIM) + "──"@ + reset_seq() + crlf()
}

pub open spec fn print_intro_spec(a: AnsiView, model: Seq<char>, directory: Seq<char>, version: Seq<char>) -> Seq<char> {
    fg_of(a, theme::USER) + bold_seq() + ">_ "@ + normal_intensity_seq() + reset_seq() + bold_seq()
        + "Tiny (v"@ + version + seq![')'] + normal_intensity_seq() + crlf() + fg_of(a, theme::DIM)
        + "model:     "@ + model + crlf() + "directory: "@ + directory + crlf()
        + "Type a message and press Enter. Type / for commands."@ + reset_seq() + crlf()
}

pub open spec fn print_entry_spec(a: AnsiView, e: EntryView, cols: u16) -> Seq<char> {
    match e {
        EntryView::User(t) => print_user_spec(a, t),
        EntryView::Assistant(t) => print_assistant_spec(a, t),
        EntryView::ToolCall { name, args } => print_tool_call_spec(a, name, args, cols),
        EntryView::ToolResult { content, is_error } => print_tool_result_spec(a, content, is_error),
        EntryView::Error(t) => print_error_spec(a, t),
    }
}

// ---------------------------------------------------------------------------
// Printing
// ---------------------------------------------------------------------------

/// Prints an entry. `cols` is the terminal width, which bounds a tool call's
/// preview.
pub fn print_entry(out: &mut String, ansi: &Ansi, entry: &Entry, cols: u16)
    requires
        ansi_ok(ansi@),
    ensures
        final(out)@ == old(out)@ + print_entry_spec(ansi@, entry@, cols),
{
    match entry {
        Entry::User(text) => print_user(out, ansi, text.as_str()),
        Entry::Assistant(text) => print_assistant(out, ansi, text.as_str()),
        Entry::ToolCall { name, args } => print_tool_call(out, ansi, name.as_str(), args.as_str(), cols),
        Entry::ToolResult { content, is_error } => print_tool_result(out, ansi, content.as_str(), *is_error),
        Entry::Error(text) => print_error(out, ansi, text.as_str()),
    }
}

/// Prints a user's message on its background.
pub fn print_user(out: &mut String, ansi: &Ansi, text: &str)
    requires
        ansi_ok(ansi@),
    ensures
        final(out)@ == old(out)@ + print_user_spec(ansi@, text@),
{
    let ghost start = out@;
    push_str(out, "\r\n");
    proof {
        reveal_strlit("\r\n");
    }
    let cs = chars_of(text);
    let ls = split_lines(cs.as_slice());
    let ghost lv = ls@.map_values(|l: Vec<char>| l@);
    let mut i: usize = 0;
    while i < ls.len()
        invariant
            i <= ls@.len(),
            ansi_ok(ansi@),
            lv == split_newlines(text@),
            lv == ls@.map_values(|l: Vec<char>| l@),
            out@ == start + crlf() + user_lines(ansi@, lv, i as int),
        decreases ls@.len() - i,
    {
        let ghost before = out@;
        push_str(out, ansi.bg_user());
        push_char(out, ' ');
        push_str(out, ansi.fg(theme::DIM));
        if i == 0 {
            push_str(out, "> ");
        } else {
            push_str(out, "  ");
        }
        push_str(out, reset_color().as_str());
        push_str(out, ansi.bg_user());
        push_chars(out, ls[i].as_slice());
        push_str(out, clear(ClearKind::UntilNewLine).as_str());
        push_str(out, reset_color().as_str());
        push_str(out, "\r\n");
        proof {
            reveal_strlit("\r\n");
        }
        assert(ls@[i as int]@ == lv[i as int]);
        assert(out@ =~= before + user_line(ansi@, lv[i as int], i == 0));
        i += 1;
    }
}

/// Prints text with backtick-quoted parts in the tool color.
pub fn print_inline_code(out: &mut String, ansi: &Ansi, text: &[char])
    requires
        ansi_ok(ansi@),
    ensures
        final(out)@ == old(out)@ + inline_print(ansi@, text@),
{
    let ghost start = out@;
    let mut in_code = false;
    let mut buf: Vec<char> = Vec::new();
    let mut i: usize = 0;
    while i < text.len()
        invariant
            i <= text@.len(),
            ansi_ok(ansi@),
            ({
                let (o, ic, b) = inline_scan(ansi@, text@, i as int);
                &&& out@ == start + o
                &&& in_code == ic
                &&& buf@ == b
            }),
        decreases text@.len() - i,
    {
        let c = text[i];
        let ghost before = out@;
        if c == '`' {
            if buf.len() > 0 {
                if in_code {
                    push_str(out, ansi.fg(theme::TOOL));
                    push_chars(out, buf.as_slice());
                    push_str(out, reset_color().as_str());
                } else {
                    push_chars(out, buf.as_slice());
                }
            }
            assert(out@ =~= before + (if buf@.len() == 0 {
                Seq::<char>::empty()
            } else if in_code {
                fg_of(ansi@, theme::TOOL) + buf@ + reset_seq()
            } else {
                buf@
            }));
            buf = Vec::new();
            in_code = !in_code;
        } else {
            buf.push(c);
        }
        i += 1;
    }
    let ghost before = out@;
    if buf.len() > 0 {
        if in_code {
            push_char(out, '`');
            push_chars(out, buf.as_slice());
        } else {
            push_chars(out, buf.as_slice());
        }
    }
    assert(text@.take(text@.len() as int) == text@);
    assert(out@ =~= before + (if buf@.len() == 0 {
        Seq::<char>::empty()
    } else if in_code {
        seq!['`'] + buf@
    } else {
        buf@
    }));
}

/// Prints the start of a line of an assistant's text.
fn print_assistant_head(out: &mut String, ansi: &Ansi, first: bool)
    requires
        ansi_ok(ansi@),
    ensures
        final(out)@ == old(out)@ + assistant_head(ansi@, first),
{
    let ghost start = out@;
    push_char(out, ' ');
    if first {
        push_str(out, ansi.fg(theme::ASSISTANT));
        push_str(out, set_bold().as_str());
        push_str(out, "· ");
        push_str(out, set_normal_intensity().as_str());
        push_str(out, reset_color().as_str());
    } else {
        push_str(out, "  ");
    }
    assert(out@ =~= start + assistant_head(ansi@, first));
}

/// Prints the body of a line of an assistant's text.
fn print_assistant_body(out: &mut String, ansi: &Ansi, raw: &[char], code: bool)
    requires
        ansi_ok(ansi@),
    ensures
        final(out)@ == old(out)@ + assistant_body(ansi@, raw@, code),
{
    let ghost start = out@;
    if code {
        push_str(out, ansi.fg(theme::DIM));
        push_chars(out, raw);
        push_str(out, reset_color().as_str());
        assert(out@ =~= start + assistant_body(ansi@, raw@, code));
    } else {
        match heading_start(raw) {
            Some(k) => {
                let rest = slice_chars(raw, k, raw.len());
                assert(rest@ == raw@.skip(k as int));
                push_str(out, set_bold().as_str());
                push_chars(out, rest.as_slice());
                push_str(out, set_normal_intensity().as_str());
                assert(out@ =~= start + assistant_body(ansi@, raw@, code));
            },
            None => match bullet_start(raw) {
                Some(k) => {
                    let rest = slice_chars(raw, k, raw.len());
                    assert(rest@ == raw@.skip(k as int));
                    push_str(out, "• ");
                    print_inline_code(out, ansi, rest.as_slice());
                    assert(out@ =~= start + assistant_body(ansi@, raw@, code));
                },
                None => {
                    print_inline_code(out, ansi, raw);
                },
            },
        }
    }
}

/// Prints one line of an assistant's text.
fn print_assistant_line(out: &mut String, ansi: &Ansi, raw: &[char], first: bool, in_code: bool) -> (res: bool)
    requires
        ansi_ok(ansi@),
    ensures
        (final(out)@, res) == ({
            let (line, next) = assistant_print_line(ansi@, raw@, first, in_code);
            (old(out)@ + line, next)
        }),
{
    let ghost start = out@;
    let fence = fence_line(raw);
    print_assistant_head(out, ansi, first);
    print_assistant_body(out, ansi, raw, fence || in_code);
    push_str(out, "\r\n");
    proof {
        reveal_strlit("\r\n");
        assert(out@ =~= start + assistant_print_line(ansi@, raw@, first, in_code).0);
    }
    if fence {
        !in_code
    } else {
        in_code
    }
}

/// Prints an assistant's text: code fences and code dim as they are, prose
/// with headings, bullets and inline code.
pub fn print_assistant(out: &mut String, ansi: &Ansi, text: &str)
    requires
        ansi_ok(ansi@),
    ensures
        final(out)@ == old(out)@ + print_assistant_spec(ansi@, text@),
{
    let ghost start = out@;
    push_str(out, "\r\n");
    proof {
        reveal_strlit("\r\n");
    }
    let cs = chars_of(text);
    let ls = split_lines(cs.as_slice());
    let ghost lv = ls@.map_values(|l: Vec<char>| l@);
    let mut in_code = false;
    let mut first = true;
    let mut i: usize = 0;
    while i < ls.len()
        invariant
            i <= ls@.len(),
            ansi_ok(ansi@),
            lv == split_newlines(text@),
            lv == ls@.map_values(|l: Vec<char>| l@),
            first == (i == 0),
            ({
                let (o, ic) = assistant_print_scan(ansi@, lv, i as int);
                &&& out@ == start + crlf() + o
                &&& in_code == ic
            }),
        decreases ls@.len() - i,
    {
        assert(ls@[i as int]@ == lv[i as int]);
        in_code = print_assistant_line(out, ansi, ls[i].as_slice(), first, in_code);
        first = false;
        i += 1;
    }
}

/// The tool call's arguments cut to the room left on the row.
pub fn tool_call_args_preview(name: &str, args: &str, cols: u16) -> (res: String)
    ensures
        res@ == spec_preview_fit(args@, preview_cols(name@, cols)),
        res@.len() <= preview_cols(name@, cols),
{
    let n = chars_of(name).len();
    let fixed = if n <= usize::MAX - 5 {
        1 + 2 + n + 2
    } else {
        usize::MAX
    };
    let room = (cols.saturating_sub(1) as usize).saturating_sub(fixed);
    preview_fit(args, room)
}

/// Prints a tool call: its name, then its arguments cut to fit the row.
pub fn print_tool_call(out: &mut String, ansi: &Ansi, name: &str, args: &str, cols: u16)
    requires
        ansi_ok(ansi@),
    ensures
        final(out)@ == old(out)@ + print_tool_call_spec(ansi@, name@, args@, cols),
{
    let ghost start = out@;
    let args_preview = tool_call_args_preview(name, args, cols);
    push_str(out, "\r\n");
    push_char(out, ' ');
    push_str(out, ansi.fg(theme::TOOL));
    push_str(out, "* ");
    push_str(out, set_bold().as_str());
    push_str(out, name);
    push_str(out, set_normal_intensity().as_str());
    push_str(out, reset_color().as_str());
    push_str(out, ansi.fg(theme::DIM));
    push_char(out, '(');
    push_str(out, args_preview.as_str());
    push_char(out, ')');
    push_str(out, clear(ClearKind::UntilNewLine).as_str());
    push_str(out, reset_color().as_str());
    push_str(out, "\r\n");
    proof {
        reveal_strlit("\r\n");
    }
    assert(out@ =~= start + print_tool_call_spec(ansi@, name@, args@, cols));
}

/// Prints a tool's result: its first three lines, then how many were left
/// out.
pub fn print_tool_result(out: &mut String, ansi: &Ansi, content: &str, is_error: bool)
    requires
        ansi_ok(ansi@),
    ensures
        final(out)@ == old(out)@ + print_tool_result_spec(ansi@, content@, is_error),
{
    let ghost start = out@;
    let color = if is_error {
        theme::ERROR
    } else {
        theme::DIM
    };
    let cs = chars_of(content);
    let ls = lines_of(cs.as_slice());
    let ghost body = result_body(content@);
    let shown: usize = if ls.len() < 3 {
        ls.len()
    } else {
        3
    };
    let mut i: usize = 0;
    while i < shown
        invariant
            i <= shown <= ls@.len(),
            ansi_ok(ansi@),
            body == result_body(content@),
            body.len() == ls@.len(),
            ls@.map_values(|l: Vec<char>| l@) == text_lines(content@),
            color == body_color(is_error),
            out@ == start + result_lines(ansi@, body, is_error, i as int),
        decreases shown - i,
    {
        let ghost before = out@;
        let raw = &ls[i];
        let n = trimmed_end_len(raw.as_slice());
        let trimmed = take_chars(raw.as_slice(), n);
        assert(trimmed@ == body[i as int]);
        push_char(out, ' ');
        push_str(out, ansi.fg(theme::DIM));
        if i == 0 {
            push_str(out, "  -> ");
        } else {
            push_str(out, "     ");
        }
        push_str(out, ansi.fg(color));
        push_chars(out, trimmed.as_slice());
        push_str(out, reset_color().as_str());
        push_str(out, "\r\n");
        proof {
            reveal_strlit("\r\n");
        }
        assert(out@ =~= before + result_line(ansi@, body[i as int], i as int, is_error));
        i += 1;
    }
    let ghost before = out@;
    if ls.len() > shown {
        let more = ls.len() - shown;
        push_char(out, ' ');
        push_str(out, ansi.fg(theme::DIM));
        push_str(out, "     +");
        push_decimal(out, more as u64);
        push_str(out, " more line");
        if more != 1 {
            push_char(out, 's');
        }
        push_str(out, reset_color().as_str());
        push_str(out, "\r\n");
        proof {
            reveal_strlit("\r\n");
        }
        assert(out@ =~= before + (gutter() + fg_of(ansi@, theme::DIM) + more_lines_text(more as nat)
            + reset_seq() + crlf()));
    }
}

/// Prints an error.
pub fn print_error(out: &mut String, ansi: &Ansi, text: &str)
    requires
        ansi_ok(ansi@),
    ensures
        final(out)@ == old(out)@ + print_error_spec(ansi@, text@),
{
    let ghost start = out@;
    push_str(out, "\r\n");
    push_char(out, ' ');
    push_str(out, ansi.fg(theme::ERROR));
    push_str(out, set_bold().as_str());
    push_str(out, "x ");
    push_str(out, set_normal_intensity().as_str());
    push_str(out, text);
    push_str(out, reset_color().as_str());
    push_str(out, "\r\n");
    proof {
        reveal_strlit("\r\n");
    }
    assert(out@ =~= start + print_error_spec(ansi@, text@));
}

/// Prints the rule between two sessions.
pub fn print_separator(out: &mut String, ansi: &Ansi)
    requires
        ansi_ok(ansi@),
    ensures
        final(out)@ == old(out)@ + print_separator_spec(ansi@),
{
    let ghost start = out@;
    push_str(out, "\r\n");
    push_str(out, ansi.fg(theme::DIM));
    push_str(out, "──");
    push_str(out, reset_color().as_str());
    push_str(out, "\r\n");
    proof {
        reveal_strlit("\r\n");
    }
    assert(out@ =~= start + print_separator_spec(ansi@));
}

/// Prints the greeting: name and version, model, directory, and a hint.
pub fn print_intro(out: &mut String, ansi: &Ansi, model: &str, directory: &str, version: &str)
    requires
        ansi_ok(ansi@),
    ensures
        final(out)@ == old(out)@ + print_intro_spec(ansi@, model@, directory@, version@),
{
    let ghost start = out@;
    push_str(out, ansi.fg(theme::USER));
    push_str(out, set_bold().as_str());
    push_str(out, ">_ ");
    push_str(out, set_normal_intensity().as_str());
    push_str(out, reset_color().as_str());
    push_str(out, set_bold().as_str());
    push_str(out, "Tiny (v");
    push_str(out, version);
    push_char(out, ')');
    push_str(out, set_normal_intensity().as_str());
    push_str(out, "\r\n");
    push_str(out, ansi.fg(theme::DIM));
    push_str(out, "model:     ");
    push_str(out, model);
    push_str(out, "\r\n");
    push_str(out, "directory: ");
    push_str(out, directory);
    push_str(out, "\r\n");
    push_str(out, "Type a message and press Enter. Type / for commands.");
    push_str(out, reset_color().as_str());
    push_str(out, "\r\n");
    proof {
        reveal_strlit("\r\n");
    }
    assert(out@ =~= start + print_intro_spec(ansi@, model@, directory@, version@));
}

/// A tool call's preview leaves the row's last column free whenever the name
/// itself fits.
pub proof fn law_tool_call_fits_width(name: Seq<char>, args: Seq<char>, cols: u16)
    requires
        1 + 2 + name.len() + 2 <= sat_sub(cols as int, 1),
    ensures
        1 + 2 + name.len() + 2 + spec_preview_fit(args, preview_cols(name, cols)).len() <= cols - 1,
{
}

} // verus!
