//! The pieces of the full-screen layout, computed as values for a drawing
//! back end: the visible part of the transcript with its spinner, the input
//! box, the greeting, the command palette and session picker popups, and the
//! status bar.
use crate::agent::{SessionMeta, ToolCall};
use crate::text::{
    chars_of, decimal, ellipsize, preview, push_char, push_decimal, push_str, repeat, sat_sub,
    spaces, spec_ellipsize, three_dots, truncated,
};
use crate::tui::commands::{Command, palette_matches, spec_palette_matches};
use crate::tui::input::InputBuffer;
use crate::tui::surface::{
    Line, SpanView, Style, Span, bold_only, colored, colored_bold, plain, span, spans_view, lines_view,
};
use crate::tui::theme;
use crate::tui::transcript::Transcript;
use vstd::prelude::*;

verus! {

broadcast use vstd::string::group_string_axioms;

/// A rectangle of terminal cells.
#[derive(Clone, Copy, Debug, PartialEq, Eq, Structural)]
pub struct Rect {
    pub x: u16,
    pub y: u16,
    pub width: u16,
    pub height: u16,
}

/// A rectangle whose width and height are cut so that it stays within the
/// coordinates a `u16` can hold.
pub open spec fn rect(x: u16, y: u16, width: u16, height: u16) -> Rect {
    Rect {
        x,
        y,
        width: if width > u16::MAX - x {
            (u16::MAX - x) as u16
        } else {
            width
        },
        height: if height > u16::MAX - y {
            (u16::MAX - y) as u16
        } else {
            height
        },
    }
}

impl Rect {
    pub fn new(x: u16, y: u16, width: u16, height: u16) -> (res: Rect)
        ensures
            res == rect(x, y, width, height),
    {
        let max_width = u16::MAX - x;
        let max_height = u16::MAX - y;
        Rect {
            x,
            y,
            width: if width > max_width {
                max_width
            } else {
                width
            },
            height: if height > max_height {
                max_height
            } else {
                height
            },
        }
    }
}

// ---------------------------------------------------------------------------
// The transcript area
// ---------------------------------------------------------------------------

/// The spinner row shown below the transcript while a turn runs.
pub open spec fn spinner_line_spec(tick: usize, elapsed_secs: u64) -> Seq<SpanView> {
    seq![
        span(theme::gutter(), plain()),
        span(theme::spinner_spec((tick % theme::SPINNER_FRAMES) as int), colored(theme::TOOL)),
        span(" Thinking... ("@ + decimal(elapsed_secs as nat) + "s)"@, colored(theme::DIM)),
    ]
}

/// The spinner row: a frame chosen by `tick`, and the seconds the turn has
/// run.
pub fn spinner_line(tick: usize, elapsed_secs: u64) -> (res: Line)
    ensures
        res@ == spinner_line_spec(tick, elapsed_secs),
{
    let mut spans: Vec<Span> = Vec::new();
    spans.push(Span::new(String::from_str(" "), Style::plain()));
    proof {
        reveal_strlit(" ");
        assert(" "@ =~= theme::gutter());
    }
    let frame = theme::spinner_frame(tick % theme::SPINNER_FRAMES);
    spans.push(Span::new(String::from_str(frame), Style::fg(theme::TOOL)));
    let mut text = String::from_str(" Thinking... (");
    push_decimal(&mut text, elapsed_secs);
    push_str(&mut text, "s)");
    spans.push(Span::new(text, Style::fg(theme::DIM)));
    assert(text@ == " Thinking... ("@ + decimal(elapsed_secs as nat) + "s)"@);
    let ghost sv = spans@;
    let res = Line::from_spans(spans);
    assert(sv[0]@ == span(theme::gutter(), plain()));
    assert(sv[1]@ == span(theme::spinner_spec((tick % theme::SPINNER_FRAMES) as int), colored(theme::TOOL)));
    assert(res@ =~= spinner_line_spec(tick, elapsed_secs));
    res
}

/// The row at `index`: a transcript line; past the transcript, while a turn
/// runs, an empty row and then the spinner.
pub open spec fn visible_row(
    lines: Seq<Seq<SpanView>>,
    height: int,
    index: int,
    busy: bool,
    spinner: Seq<SpanView>,
) -> Seq<Seq<SpanView>> {
    if index < lines.len() {
        seq![lines[index]]
    } else if busy {
        let k = sat_sub(index, height);
        if k == 0 {
            seq![seq![]]
        } else if k == 1 {
            seq![spinner]
        } else {
            seq![]
        }
    } else {
        seq![]
    }
}

/// The rows from `start` up to `end`.
pub open spec fn visible_rows(
    lines: Seq<Seq<SpanView>>,
    height: int,
    start: int,
    end: int,
    busy: bool,
    spinner: Seq<SpanView>,
) -> Seq<Seq<SpanView>>
    decreases end - start,
{
    if end <= start {
        seq![]
    } else {
        visible_rows(lines, height, start, end - 1, busy, spinner) + visible_row(
            lines,
            height,
            end - 1,
            busy,
            spinner,
        )
    }
}

/// The height the transcript reports: its number of lines, at most
/// `u16::MAX`.
pub open spec fn reported_height(n: nat) -> int {
    if n <= u16::MAX {
        n as int
    } else {
        u16::MAX as int
    }
}

/// The rows of the transcript area scrolled to `offset`, `height` rows
/// tall; past the transcript, while a turn runs, an empty row and the
/// spinner.
pub fn transcript_visible_lines(
    transcript: &Transcript,
    offset: u16,
    height: u16,
    busy: bool,
    tick: usize,
    elapsed_secs: u64,
) -> (res: Vec<Line>)
    ensures
        lines_view(res@) == visible_rows(
            transcript@.lines,
            reported_height(transcript@.lines.len()),
            offset as int,
            offset + height,
            busy,
            spinner_line_spec(tick, elapsed_secs),
        ),
{
    let ghost lines = transcript@.lines;
    let ghost h = reported_height(lines.len());
    let ghost spinner = spinner_line_spec(tick, elapsed_secs);
    let mut out: Vec<Line> = Vec::new();
    let start = offset as usize;
    let end = start + height as usize;
    let transcript_height = transcript.height() as usize;
    let mut index = start;
    while index < end
        invariant
            start <= index <= end,
            start == offset,
            end == offset + height,
            transcript_height == h,
            lines == transcript@.lines,
            h == reported_height(lines.len()),
            spinner == spinner_line_spec(tick, elapsed_secs),
            lines_view(out@) == visible_rows(lines, h, start as int, index as int, busy, spinner),
        decreases end - index,
    {
        let ghost before = lines_view(out@);
        match transcript.line_at(index) {
            Some(line) => {
                out.push(line);
            },
            None => {
                if busy {
                    let k = if index > transcript_height {
                        index - transcript_height
                    } else {
                        0
                    };
                    if k == 0 {
                        out.push(Line::empty());
                    } else if k == 1 {
                        out.push(spinner_line(tick, elapsed_secs));
                    }
                }
            },
        }
        assert(lines_view(out@) =~= before + visible_row(lines, h, index as int, busy, spinner));
        index += 1;
    }
    out
}

// ---------------------------------------------------------------------------
// The status bar
// ---------------------------------------------------------------------------

pub open spec fn status_left(model: Seq<char>, msg_count: usize, queued: usize, directory_label: Seq<char>) -> Seq<char> {
    " "@ + model + " · "@ + decimal(msg_count as nat) + " msgs"@ + (if queued == 0 {
        seq![]
    } else {
        " · "@ + decimal(queued as nat) + " queued"@
    }) + " · "@ + directory_label
}

pub open spec fn status_right() -> Seq<char> {
    "⏎ send · /quit "@
}

/// The status bar: model, message count, queue and directory on the left,
/// the key hints on the right, spaces between to fill `width` columns (the
/// left part's length counted modulo 65536).
pub open spec fn status_bar_spec(
    model: Seq<char>,
    msg_count: usize,
    queued: usize,
    directory_label: Seq<char>,
    width: u16,
) -> Seq<char> {
    let left = status_left(model, msg_count, queued, directory_label);
    let pad = sat_sub(sat_sub(width as int, (left.len() % 65536) as int) as int, status_right().len() as int);
    left + repeat(' ', pad) + status_right()
}

/// The status bar, drawn in the dim color.
pub fn status_bar(model: &str, msg_count: usize, queued: usize, directory_label: &str, width: u16) -> (res: String)
    ensures
        res@ == status_bar_spec(model@, msg_count, queued, directory_label@, width),
{
    let mut left = String::from_str(" ");
    push_str(&mut left, model);
    push_str(&mut left, " · ");
    push_decimal(&mut left, msg_count as u64);
    push_str(&mut left, " msgs");
    if queued != 0 {
        push_str(&mut left, " · ");
        push_decimal(&mut left, queued as u64);
        push_str(&mut left, " queued");
    }
    push_str(&mut left, " · ");
    push_str(&mut left, directory_label);
    proof {
        reveal_strlit(" ");
        reveal_strlit("⏎ send · /quit ");
    }
    assert(left@ =~= status_left(model@, msg_count, queued, directory_label@));
    let right = "⏎ send · /quit ";
    let left_cols = (chars_of(left.as_str()).len() % 65536) as u16;
    let right_cols: u16 = 15;
    let pad = width.saturating_sub(left_cols).saturating_sub(right_cols);
    let mut bar = left;
    let fill = spaces(pad as usize);
    push_str(&mut bar, fill.as_str());
    push_str(&mut bar, right);
    bar
}

// ---------------------------------------------------------------------------
// The input box
// ---------------------------------------------------------------------------

/// What the input box shows: its text, the text's style, the border's style,
/// the columns scrolled off to the left, and where the cursor goes (none
/// while a permission question is shown).
pub struct InputBox {
    pub text: String,
    pub style: Style,
    pub border: Style,
    pub scroll_x: u16,
    pub cursor: Option<(u16, u16)>,
}

/// The permission question shown in place of the input.
pub open spec fn permission_question(call: ToolCall) -> Seq<char> {
    " Run "@ + call.name@ + seq!['('] + truncated(call.input@, 60, three_dots()) + ")?  [y]es  [n]o "@
}

/// The column of the cursor after the `> ` prompt.
pub open spec fn input_cursor_col(cursor_column: nat) -> int {
    (2 + cursor_column) as int
}

/// The columns scrolled off so that the cursor stays inside the box.
pub open spec fn input_scroll(area: Rect, col: int) -> int {
    sat_sub(col, sat_sub(sat_sub(area.width as int, 2) as int, 1) as int) as int
}

/// The input box for an area: the pending permission question in bold tool
/// color; otherwise the prompt and the input, scrolled so that the cursor
/// stays visible, in a border dim while a turn runs.
pub fn input_box(input: &InputBuffer, pending: Option<&ToolCall>, busy: bool, area: Rect) -> (res: InputBox)
    requires
        pending is None ==> area.x + 1 + input_cursor_col(input@.cursor % 65536) <= u16::MAX,
        pending is None ==> area.y + 1 <= u16::MAX,
    ensures
        match pending {
            Some(call) => {
                &&& res.text@ == permission_question(*call)
                &&& res.style == colored_bold(theme::TOOL)
                &&& res.border == colored(theme::TOOL)
                &&& res.scroll_x == 0
                &&& res.cursor is None
            },
            None => {
                let col = input_cursor_col(input@.cursor % 65536);
                let scroll = input_scroll(area, col);
                &&& res.text@ == "> "@ + input@.text
                &&& res.style == plain()
                &&& res.border == colored(if busy { theme::DIM } else { theme::USER })
                &&& res.scroll_x == scroll
                &&& res.cursor == Some(((area.x + 1 + col - scroll) as u16, (area.y + 1) as u16))
            },
        },
{
    match pending {
        Some(call) => {
            let mut text = String::from_str(" Run ");
            push_str(&mut text, call.name.as_str());
            push_char(&mut text, '(');
            let args = preview(call.input.as_str(), 60);
            push_str(&mut text, args.as_str());
            push_str(&mut text, ")?  [y]es  [n]o ");
            InputBox {
                text,
                style: Style::fg(theme::TOOL).bold(),
                border: Style::fg(theme::TOOL),
                scroll_x: 0,
                cursor: None,
            }
        },
        None => {
            let border = if busy {
                Style::fg(theme::DIM)
            } else {
                Style::fg(theme::USER)
            };
            let prefix_cols: u16 = 2;
            let inner_width = area.width.saturating_sub(2);
            let cursor_col = prefix_cols + input.cursor_column();
            let scroll_x = cursor_col.saturating_sub(inner_width.saturating_sub(1));
            let mut text = String::from_str("> ");
            push_str(&mut text, input.as_str());
            let cursor = (area.x + 1 + cursor_col - scroll_x, area.y + 1);
            InputBox { text, style: Style::plain(), border, scroll_x, cursor: Some(cursor) }
        },
    }
}

// ---------------------------------------------------------------------------
// Popups
// ---------------------------------------------------------------------------

/// A popup: where it goes and its rows, drawn in a bordered box over what
/// lies below.
pub struct Popup {
    pub area: Rect,
    pub lines: Vec<Line>,
}

/// The length of a text in UTF-8 bytes.
pub open spec fn byte_len(s: Seq<char>) -> nat {
    vstd::utf8::encode_utf8(s).len()
}

proof fn lemma_byte_len_bound(s: Seq<char>)
    ensures
        byte_len(s) <= 4 * s.len(),
    decreases s.len(),
{
    if s.len() > 0 {
        lemma_byte_len_bound(s.drop_first());
        let c = s[0] as u32;
        assert(vstd::utf8::encode_scalar(c).len() <= 4);
    }
}

pub open spec fn max_nat(a: nat, b: nat) -> nat {
    if a >= b {
        a
    } else {
        b
    }
}

/// The longest command name among the first `n`, in bytes.
pub open spec fn name_bytes(ms: Seq<Command>, n: int) -> nat
    decreases n,
{
    if n <= 0 {
        0
    } else {
        max_nat(name_bytes(ms, n - 1), byte_len(ms[n - 1].name@))
    }
}

/// The longest help text among the first `n`, in bytes.
pub open spec fn help_bytes(ms: Seq<Command>, n: int) -> nat
    decreases n,
{
    if n <= 0 {
        0
    } else {
        max_nat(help_bytes(ms, n - 1), byte_len(ms[n - 1].help@))
    }
}

/// A palette row: a marker, `/name` padded to the widest name, and the help
/// cut to `help_max` characters; the selected row in bold user color.
pub open spec fn palette_line_spec(
    name: Seq<char>,
    help: Seq<char>,
    name_width: nat,
    help_max: nat,
    selected: bool,
) -> Seq<SpanView> {
    let mark = if selected {
        colored_bold(theme::USER)
    } else {
        colored(theme::DIM)
    };
    let name_style = if selected {
        colored_bold(theme::USER)
    } else {
        plain()
    };
    seq![
        span(if selected { " > "@ } else { "   "@ }, mark),
        span(seq!['/'] + name, name_style),
        span(repeat(' ', sat_sub(name_width as int, byte_len(name) as int)), plain()),
        span("  "@, plain()),
        span(spec_ellipsize(help, help_max), colored(theme::DIM)),
    ]
}

/// A palette row.
pub fn palette_line(name: &str, help: &str, name_width: usize, help_max: usize, selected: bool) -> (res: Line)
    requires
        byte_len(name@) <= usize::MAX,
    ensures
        res@ == palette_line_spec(name@, help@, name_width as nat, help_max as nat, selected),
{
    let pad = spaces(name_width.saturating_sub(name.len()));
    let mark = if selected {
        Style::fg(theme::USER).bold()
    } else {
        Style::fg(theme::DIM)
    };
    let name_style = if selected {
        Style::fg(theme::USER).bold()
    } else {
        Style::plain()
    };
    let mut slash_name = String::new();
    push_char(&mut slash_name, '/');
    push_str(&mut slash_name, name);
    let mut spans: Vec<Span> = Vec::new();
    spans.push(Span::new(String::from_str(if selected { " > " } else { "   " }), mark));
    spans.push(Span::new(slash_name, name_style));
    spans.push(Span::new(pad, Style::plain()));
    spans.push(Span::new(String::from_str("  "), Style::plain()));
    spans.push(Span::new(ellipsize(help, help_max), Style::fg(theme::DIM)));
    let ghost sv = spans@;
    let res = Line::from_spans(spans);
    assert(sv[0]@ == span(if selected { " > "@ } else { "   "@ }, mark));
    assert(sv[1]@.text =~= seq!['/'] + name@);
    assert(sv[2]@ == span(repeat(' ', sat_sub(name_width as int, byte_len(name@) as int)), plain()));
    assert(res@ =~= palette_line_spec(name@, help@, name_width as nat, help_max as nat, selected));
    res
}

/// Where the palette goes: above the input, as wide as its rows (at least
/// twenty columns, at most the input's width), as tall as its rows and
/// borders allow above the input; also how much of the help fits.
pub open spec fn palette_geometry(input_area: Rect, count: nat, name_width: nat, help_width: nat) -> (Rect, nat) {
    let prefix = 3 + 1 + name_width + 2;
    let desired = (2 + prefix + help_width) as u16;
    let narrow = if desired < input_area.width {
        desired
    } else {
        input_area.width
    };
    let width: u16 = if narrow > 20 {
        narrow
    } else {
        20
    };
    let help_max = sat_sub(width as int, (2 + prefix) as int);
    let room: u16 = if input_area.y > 1 {
        input_area.y
    } else {
        1
    };
    let height: u16 = if count + 2 < room {
        (count + 2) as u16
    } else {
        room
    };
    let y = sat_sub(input_area.y as int, height as int) as u16;
    (rect(input_area.x, y, width, height), help_max)
}

/// The command palette over the input: nothing when another popup is open
/// (`blocked`) or no command matches what is typed; otherwise its box and
/// one row per match, the selected one (`palette_index`, kept within the
/// matches) highlighted.
pub open spec fn palette_popup_spec(input: Seq<char>, palette_index: usize, blocked: bool, input_area: Rect) -> Option<
    (Rect, Seq<Seq<SpanView>>),
> {
    let ms = spec_palette_matches(input);
    if blocked || ms.len() == 0 {
        None
    } else {
        let n = ms.len();
        let selected = if palette_index < n - 1 {
            palette_index as int
        } else {
            n - 1
        };
        let nw = name_bytes(ms, n as int);
        let (area, help_max) = palette_geometry(input_area, n, nw, help_bytes(ms, n as int));
        Some(
            (
                area,
                Seq::new(
                    n,
                    |i: int| palette_line_spec(ms[i].name@, ms[i].help@, nw, help_max, i == selected),
                ),
            ),
        )
    }
}

proof fn lemma_table_lengths()
    ensures
        forall|i: int|
            0 <= i < crate::tui::commands::command_table().len() ==> byte_len(
                #[trigger] crate::tui::commands::command_table()[i].name@,
            ) <= 1000 && byte_len(crate::tui::commands::command_table()[i].help@) <= 1000,
{
    let t = crate::tui::commands::command_table();
    reveal_strlit("new");
    reveal_strlit("start a new session");
    reveal_strlit("sessions");
    reveal_strlit("pick a saved session to resume");
    reveal_strlit("help");
    reveal_strlit("list commands");
    assert forall|i: int| 0 <= i < t.len() implies byte_len(#[trigger] t[i].name@) <= 1000 && byte_len(
        t[i].help@,
    ) <= 1000 by {
        lemma_byte_len_bound(t[i].name@);
        lemma_byte_len_bound(t[i].help@);
    }
}

proof fn lemma_matches_in_table(p: Seq<char>, n: int)
    requires
        0 <= n <= 3,
    ensures
        forall|i: int|
            0 <= i < crate::tui::commands::matching(crate::tui::commands::command_table(), p, n).len()
                ==> exists|j: int|
                0 <= j < 3 && #[trigger] crate::tui::commands::matching(
                    crate::tui::commands::command_table(),
                    p,
                    n,
                )[i] == crate::tui::commands::command_table()[j],
        crate::tui::commands::matching(crate::tui::commands::command_table(), p, n).len() <= n,
    decreases n,
{
    if n > 0 {
        lemma_matches_in_table(p, n - 1);
        let t = crate::tui::commands::command_table();
        let prev = crate::tui::commands::matching(t, p, n - 1);
        let cur = crate::tui::commands::matching(t, p, n);
        assert forall|i: int| 0 <= i < cur.len() implies exists|j: int|
            0 <= j < 3 && #[trigger] cur[i] == t[j] by {
            if i < prev.len() {
                assert(cur[i] == prev[i]);
            } else {
                assert(cur[i] == t[n - 1]);
            }
        }
    }
}

/// The command palette's popup.
pub fn palette_popup(input: &str, palette_index: usize, blocked: bool, input_area: Rect) -> (res: Option<Popup>)
    ensures
        match palette_popup_spec(input@, palette_index, blocked, input_area) {
            Some((area, lines)) => res matches Some(p) && p.area == area && lines_view(p.lines@)
                == lines,
            None => res is None,
        },
{
    if blocked {
        return None;
    }
    let matches = palette_matches(input);
    if matches.len() == 0 {
        return None;
    }
    let ghost ms = matches@;
    let n = matches.len();
    proof {
        lemma_table_lengths();
        match crate::tui::commands::spec_typing_command(input@) {
            Some(p) => lemma_matches_in_table(p, 3),
            None => {},
        }
        assert forall|i: int| 0 <= i < n implies byte_len(#[trigger] ms[i].name@) <= 1000
            && byte_len(ms[i].help@) <= 1000 by {
            let p = crate::tui::commands::spec_typing_command(input@)->0;
            let j = choose|j: int|
                0 <= j < 3 && #[trigger] crate::tui::commands::matching(
                    crate::tui::commands::command_table(),
                    p,
                    3,
                )[i] == crate::tui::commands::command_table()[j];
        }
    }
    let selected = if palette_index < n - 1 {
        palette_index
    } else {
        n - 1
    };
    let mut name_width: usize = 0;
    let mut help_width: usize = 0;
    let mut i: usize = 0;
    while i < n
        invariant
            i <= n == ms.len(),
            matches@ == ms,
            forall|k: int| 0 <= k < n ==> byte_len(#[trigger] ms[k].name@) <= 1000 && byte_len(
                ms[k].help@,
            ) <= 1000,
            name_width == name_bytes(ms, i as int),
            help_width == help_bytes(ms, i as int),
            name_width <= 1000,
            help_width <= 1000,
        decreases n - i,
    {
        let nl = matches[i].name.len();
        let hl = matches[i].help.len();
        if nl > name_width {
            name_width = nl;
        }
        if hl > help_width {
            help_width = hl;
        }
        i += 1;
    }
    let prefix_cols = 3 + 1 + name_width + 2;
    let desired_width = (2 + prefix_cols + help_width) as u16;
    let narrow = if desired_width < input_area.width {
        desired_width
    } else {
        input_area.width
    };
    let width: u16 = if narrow > 20 {
        narrow
    } else {
        20
    };
    let help_max = (width as usize).saturating_sub(2 + prefix_cols);
    let room: u16 = if input_area.y > 1 {
        input_area.y
    } else {
        1
    };
    let rows = n as u16 + 2;
    let height: u16 = if rows < room {
        rows
    } else {
        room
    };
    let y = input_area.y.saturating_sub(height);
    let area = Rect::new(input_area.x, y, width, height);
    let ghost geometry = palette_geometry(input_area, n as nat, name_width as nat, help_width as nat);
    assert(area == geometry.0);
    let mut lines: Vec<Line> = Vec::new();
    let mut k: usize = 0;
    while k < n
        invariant
            k <= n == ms.len(),
            matches@ == ms,
            forall|q: int| 0 <= q < n ==> byte_len(#[trigger] ms[q].name@) <= 1000,
            lines_view(lines@) == Seq::new(
                k as nat,
                |j: int| palette_line_spec(ms[j].name@, ms[j].help@, name_width as nat, help_max as nat, j == selected),
            ),
        decreases n - k,
    {
        let cmd = matches[k];
        let line = palette_line(cmd.name, cmd.help, name_width, help_max, k == selected);
        let ghost before = lines_view(lines@);
        let ghost lv = line@;
        assert(lv == palette_line_spec(ms[k as int].name@, ms[k as int].help@, name_width as nat, help_max as nat, k == selected));
        lines.push(line);
        assert(lines_view(lines@) =~= before.push(lv));
        assert(lines_view(lines@) =~= Seq::new(
            (k + 1) as nat,
            |j: int| palette_line_spec(ms[j].name@, ms[j].help@, name_width as nat, help_max as nat, j == selected),
        ));
        k += 1;
    }
    Some(Popup { area, lines })
}

/// The title a session is listed under.
pub open spec fn shown_title(title: Seq<char>) -> Seq<char> {
    if title.len() == 0 {
        "(untitled)"@
    } else {
        title
    }
}

/// A picker row: ` >* title`, with `>` on the selected row and `*` on the
/// session shown; the selected row in bold user color.
pub open spec fn picker_line_spec(meta: SessionMeta, selected: bool, active: bool, title_max: nat) -> Seq<SpanView> {
    let style = if selected {
        colored_bold(theme::USER)
    } else {
        plain()
    };
    seq![
        span(
            seq![' ', if selected { '>' } else { ' ' }, if active { '*' } else { ' ' }, ' '],
            style,
        ),
        span(spec_ellipsize(shown_title(meta.title@), title_max), style),
    ]
}

/// A picker row.
pub fn picker_line(meta: &SessionMeta, selected: bool, active: bool, title_max: usize) -> (res: Line)
    ensures
        res@ == picker_line_spec(*meta, selected, active, title_max as nat),
{
    let mut head = String::new();
    push_char(&mut head, ' ');
    push_char(&mut head, if selected { '>' } else { ' ' });
    push_char(&mut head, if active { '*' } else { ' ' });
    push_char(&mut head, ' ');
    let title = if meta.title.as_str().is_empty() {
        ellipsize("(untitled)", title_max)
    } else {
        ellipsize(meta.title.as_str(), title_max)
    };
    let style = if selected {
        Style::fg(theme::USER).bold()
    } else {
        Style::plain()
    };
    let mut spans: Vec<Span> = Vec::new();
    spans.push(Span::new(head, style));
    spans.push(Span::new(title, style));
    let ghost sv = spans@;
    let res = Line::from_spans(spans);
    assert(sv[0]@.text =~= seq![' ', if selected { '>' } else { ' ' }, if active { '*' } else { ' ' }, ' ']);
    assert(sv[1]@.text == spec_ellipsize(shown_title(meta.title@), title_max as nat));
    assert(res@ =~= picker_line_spec(*meta, selected, active, title_max as nat));
    res
}

/// The widest title among the first `n` sessions, at least the width of
/// `(untitled)`.
pub open spec fn title_width(sessions: Seq<SessionMeta>, n: int) -> nat
    decreases n,
{
    if n <= 0 {
        0
    } else {
        max_nat(title_width(sessions, n - 1), max_nat(sessions[n - 1].title@.len(), 10))
    }
}

pub open spec fn picker_footer() -> Seq<SpanView> {
    seq![span(" ↑/↓ navigate  ⏎ resume  esc cancel"@, colored(theme::DIM))]
}

/// The rows of the picker's window: at most twenty, as many as fit above
/// the input below three rows of border and footer, at least one.
pub open spec fn picker_rows(input_area: Rect, count: nat) -> nat {
    let room = sat_sub(input_area.y as int, 3);
    let max_rows: nat = if room < 20 {
        room
    } else {
        20
    };
    let listed = count % 65536;
    let rows = if listed < max_rows {
        listed
    } else {
        max_rows
    };
    if rows > 1 {
        rows
    } else {
        1
    }
}

/// The first row of the window: the window ends at the selected row when
/// that row would lie below it.
pub open spec fn window_start(selected: int, window: int) -> int {
    if selected >= window {
        selected + 1 - window
    } else {
        0
    }
}

/// The session picker over the input: nothing without sessions or when the
/// input lies too near the top or is too narrow; otherwise its box, the rows
/// of the window that keeps the selected session in view, and the footer.
pub open spec fn picker_popup_spec(
    sessions: Seq<SessionMeta>,
    selected: usize,
    active: Option<Seq<char>>,
    input_area: Rect,
) -> Option<(Rect, Seq<Seq<SpanView>>)> {
    let n = sessions.len();
    if n == 0 || input_area.width < 4 || input_area.y < 4 {
        None
    } else {
        let sel = if selected < n - 1 {
            selected as int
        } else {
            n - 1
        };
        let window = picker_rows(input_area, n);
        let start = window_start(sel, window as int);
        let end = if start + window < n {
            start + window
        } else {
            n as int
        };
        let desired = (2 + 4 + title_width(sessions, n as int) + 1) as u16;
        let narrow = if desired < input_area.width {
            desired
        } else {
            input_area.width
        };
        let width: u16 = if narrow > 20 {
            narrow
        } else {
            20
        };
        let title_max = sat_sub(width as int, 7);
        let height = (window + 3) as u16;
        let y = sat_sub(input_area.y as int, height as int) as u16;
        Some(
            (
                rect(input_area.x, y, width, height),
                Seq::new(
                    (end - start) as nat,
                    |i: int|
                        picker_line_spec(
                            sessions[start + i],
                            start + i == sel,
                            active == Some(sessions[start + i].id@),
                            title_max,
                        ),
                ).push(picker_footer()),
            ),
        )
    }
}

/// The session picker's popup.
pub fn picker_popup(sessions: &[SessionMeta], selected: usize, active: Option<&str>, input_area: Rect) -> (res: Option<Popup>)
    requires
        forall|i: int| 0 <= i < sessions@.len() ==> #[trigger] sessions@[i].title@.len() + 7 <= usize::MAX,
    ensures
        match picker_popup_spec(
            sessions@,
            selected,
            match active {
                Some(a) => Some(a@),
                None => None,
            },
            input_area,
        ) {
            Some((area, lines)) => res matches Some(p) && p.area == area && lines_view(p.lines@)
                == lines,
            None => res is None,
        },
{
    let ghost ss = sessions@;
    let ghost act = match active {
        Some(a) => Some(a@),
        None => None,
    };
    let n = sessions.len();
    if n == 0 || input_area.width < 4 || input_area.y < 4 {
        return None;
    }
    let sel = if selected < n - 1 {
        selected
    } else {
        n - 1
    };
    let room = input_area.y.saturating_sub(3);
    let max_rows: u16 = if room < 20 {
        room
    } else {
        20
    };
    let listed = (n % 65536) as u16;
    let rows = if listed < max_rows {
        listed
    } else {
        max_rows
    };
    let row_count: u16 = if rows > 1 {
        rows
    } else {
        1
    };
    let window = row_count as usize;
    let start = if sel >= window {
        sel + 1 - window
    } else {
        0
    };
    let end = if start + window < n {
        start + window
    } else {
        n
    };
    let mut widest: usize = 0;
    let mut i: usize = 0;
    while i < n
        invariant
            i <= n == ss.len(),
            sessions@ == ss,
            forall|k: int| 0 <= k < ss.len() ==> #[trigger] ss[k].title@.len() + 7 <= usize::MAX,
            widest == title_width(ss, i as int),
            widest + 7 <= usize::MAX,
        decreases n - i,
    {
        let c = chars_of(sessions[i].title.as_str()).len();
        let w = if c > 10 {
            c
        } else {
            10
        };
        if w > widest {
            widest = w;
        }
        i += 1;
    }
    let desired = (2 + 4 + widest + 1) as u16;
    let narrow = if desired < input_area.width {
        desired
    } else {
        input_area.width
    };
    let width: u16 = if narrow > 20 {
        narrow
    } else {
        20
    };
    let title_max = (width as usize).saturating_sub(2 + 4 + 1);
    let height = row_count + 3;
    let y = input_area.y.saturating_sub(height);
    let area = Rect::new(input_area.x, y, width, height);
    let mut lines: Vec<Line> = Vec::new();
    let mut j = start;
    while j < end
        invariant
            start <= j <= end <= n == ss.len(),
            sessions@ == ss,
            act == match active {
                Some(a) => Some(a@),
                None => None,
            },
            lines_view(lines@) == Seq::new(
                (j - start) as nat,
                |q: int|
                    picker_line_spec(
                        ss[start + q],
                        start + q == sel,
                        act == Some(ss[start + q].id@),
                        title_max as nat,
                    ),
            ),
        decreases end - j,
    {
        let meta = &sessions[j];
        let is_active = match active {
            Some(a) => {
                let id_chars = chars_of(meta.id.as_str());
                let a_chars = chars_of(a);
                crate::tui::commands::chars_eq(id_chars.as_slice(), a_chars.as_slice())
            },
            None => false,
        };
        let line = picker_line(meta, j == sel, is_active, title_max);
        let ghost before = lines_view(lines@);
        let ghost lv = line@;
        assert(is_active == (act == Some(ss[j as int].id@)));
        assert(lv == picker_line_spec(ss[j as int], j == sel, act == Some(ss[j as int].id@), title_max as nat));
        lines.push(line);
        assert(lines_view(lines@) =~= before.push(lv));
        assert(lines_view(lines@) =~= Seq::new(
            (j + 1 - start) as nat,
            |q: int|
                picker_line_spec(
                    ss[start + q],
                    start + q == sel,
                    act == Some(ss[start + q].id@),
                    title_max as nat,
                ),
        ));
        j += 1;
    }
    let ghost body = lines_view(lines@);
    lines.push(Line::styled(String::from_str(" ↑/↓ navigate  ⏎ resume  esc cancel"), Style::fg(theme::DIM)));
    assert(lines_view(lines@) =~= body.push(picker_footer()));
    Some(Popup { area, lines })
}

// ---------------------------------------------------------------------------
// The greeting
// ---------------------------------------------------------------------------

/// The greeting's rows: name and version, the model, the directory, and a
/// hint.
pub open spec fn intro_lines_spec(model: Seq<char>, directory: Seq<char>, version: Seq<char>) -> Seq<Seq<SpanView>> {
    seq![
        seq![
            span(">_ "@, colored_bold(theme::USER)),
            span("Tiny (v"@ + version + seq![')'], bold_only()),
        ],
        seq![],
        seq![span("model:     "@, colored(theme::DIM)), span(model, plain())],
        seq![span("directory: "@, colored(theme::DIM)), span(directory, plain())],
        seq![],
        seq![span("Type a message and press ⏎ to begin."@, colored(theme::DIM))],
    ]
}

/// The greeting's rows.
pub fn intro_lines(model: &str, directory: &str, version: &str) -> (res: Vec<Line>)
    ensures
        lines_view(res@) == intro_lines_spec(model@, directory@, version@),
{
    let mut first: Vec<Span> = Vec::new();
    first.push(Span::new(String::from_str(">_ "), Style::fg(theme::USER).bold()));
    let mut name = String::from_str("Tiny (v");
    push_str(&mut name, version);
    push_char(&mut name, ')');
    assert(name@ =~= "Tiny (v"@ + version@ + seq![')']);
    first.push(Span::new(name, Style { fg: None, bold: true }));
    let mut model_row: Vec<Span> = Vec::new();
    model_row.push(Span::new(String::from_str("model:     "), Style::fg(theme::DIM)));
    model_row.push(Span::new(String::from_str(model), Style::plain()));
    let mut dir_row: Vec<Span> = Vec::new();
    dir_row.push(Span::new(String::from_str("directory: "), Style::fg(theme::DIM)));
    dir_row.push(Span::new(String::from_str(directory), Style::plain()));
    let l0 = Line::from_spans(first);
    let l2 = Line::from_spans(model_row);
    let l3 = Line::from_spans(dir_row);
    let l5 = Line::styled(String::from_str("Type a message and press ⏎ to begin."), Style::fg(theme::DIM));
    let ghost spec = intro_lines_spec(model@, directory@, version@);
    assert(l0@ =~= spec[0]);
    assert(l2@ =~= spec[2]);
    assert(l3@ =~= spec[3]);
    assert(l5@ =~= spec[5]);
    let mut res: Vec<Line> = Vec::new();
    res.push(l0);
    res.push(Line::empty());
    res.push(l2);
    res.push(l3);
    res.push(Line::empty());
    res.push(l5);
    assert(lines_view(res@) =~= intro_lines_spec(model@, directory@, version@));
    res
}

/// The columns a text takes on a terminal, by the Unicode width tables.
pub uninterp spec fn display_width(s: Seq<char>) -> nat;

/// ratatui's `Span::width`: the text's width in terminal columns by the
/// Unicode width tables (the `unicode-width` crate). The contract names the
/// result only: it depends on the text alone.
#[verifier::external_body]
fn span_width(text: &str) -> (res: usize)
    ensures
        res == display_width(text@),
{
    ratatui::text::Span::raw(text).width()
}

/// The width of the first `n` spans of a line.
pub open spec fn spans_width(l: Seq<SpanView>, n: int) -> nat
    decreases n,
{
    if n <= 0 {
        0
    } else {
        spans_width(l, n - 1) + display_width(l[n - 1].text)
    }
}

/// The widest of the first `n` lines.
pub open spec fn lines_width(ls: Seq<Seq<SpanView>>, n: int) -> nat
    decreases n,
{
    if n <= 0 {
        0
    } else {
        max_nat(lines_width(ls, n - 1), spans_width(ls[n - 1], ls[n - 1].len() as int))
    }
}

proof fn lemma_spans_width_monotonic(l: Seq<SpanView>, i: int, n: int)
    requires
        i <= n,
    ensures
        spans_width(l, i) <= spans_width(l, n),
    decreases n - i,
{
    if i < n {
        lemma_spans_width_monotonic(l, i, n - 1);
    }
}

/// The width of the widest line, cut to `u16` as the greeting's box
/// measures it; none when a line's width would not fit in `usize`.
pub fn content_width(lines: &[Line]) -> (res: Option<u16>)
    ensures
        match res {
            Some(w) => w as nat == lines_width(lines_view(lines@), lines@.len() as int) % 65536,
            None => exists|i: int|
                0 <= i < lines@.len() && spans_width(
                    #[trigger] lines_view(lines@)[i],
                    lines_view(lines@)[i].len() as int,
                ) > usize::MAX,
        },
{
    let ghost ls = lines_view(lines@);
    let mut widest: usize = 0;
    let mut i: usize = 0;
    while i < lines.len()
        invariant
            i <= lines@.len(),
            ls == lines_view(lines@),
            widest == lines_width(ls, i as int),
        decreases lines@.len() - i,
    {
        let spans = lines[i].spans();
        let ghost l = ls[i as int];
        assert(l == lines@[i as int]@);
        let mut w: usize = 0;
        let mut k: usize = 0;
        while k < spans.len()
            invariant
                k <= spans@.len(),
                i < lines@.len(),
                ls == lines_view(lines@),
                l == ls[i as int],
                crate::tui::surface::spans_view(spans@) == l,
                w == spans_width(l, k as int),
            decreases spans@.len() - k,
        {
            let sw = span_width(spans[k].text());
            assert(spans@[k as int]@ == l[k as int]);
            if w > usize::MAX - sw {
                proof {
                    lemma_spans_width_monotonic(l, k + 1, l.len() as int);
                    assert(spans_width(ls[i as int], ls[i as int].len() as int) > usize::MAX);
                }
                return None;
            }
            w = w + sw;
            k += 1;
        }
        if w > widest {
            widest = w;
        }
        i += 1;
    }
    Some((widest % 65536) as u16)
}

/// Where the greeting's box goes: one cell in from the area's corner, its
/// content's width plus four (borders and padding) and its rows plus two
/// (borders), within the area; none when that leaves no room.
pub open spec fn intro_area_spec(content_width: u16, rows: usize, area: Rect) -> Option<Rect> {
    let wide = content_width + 4;
    let width: u16 = if wide < area.width {
        wide as u16
    } else {
        area.width
    };
    let tall = (rows % 65536) + 2;
    let room = sat_sub(area.height as int, 1);
    let height: u16 = if tall < room {
        tall as u16
    } else {
        room as u16
    };
    if width == 0 || height == 0 {
        None
    } else {
        Some(rect((area.x + 1) as u16, (area.y + 1) as u16, width, height))
    }
}

/// Where the greeting's box goes.
pub fn intro_area(content_width: u16, rows: usize, area: Rect) -> (res: Option<Rect>)
    requires
        content_width + 4 <= u16::MAX,
        (rows % 65536) + 2 <= u16::MAX,
        area.x < u16::MAX,
        area.y < u16::MAX,
    ensures
        res == intro_area_spec(content_width, rows, area),
{
    let wide = content_width + 4;
    let width = if wide < area.width {
        wide
    } else {
        area.width
    };
    let tall = (rows % 65536) as u16 + 2;
    let room = area.height.saturating_sub(1);
    let height = if tall < room {
        tall
    } else {
        room
    };
    if width == 0 || height == 0 {
        None
    } else {
        Some(Rect::new(area.x + 1, area.y + 1, width, height))
    }
}

// ---------------------------------------------------------------------------
// The screen's layout
// ---------------------------------------------------------------------------

/// The three bands ratatui's layout solver gives an area split vertically
/// into a band filling what is left (with weight `fill`), a band `middle`
/// rows tall and a band `bottom` rows tall.
pub uninterp spec fn vertical_split(area: Rect, fill: u16, middle: u16, bottom: u16) -> (Rect, Rect, Rect);

/// ratatui's `Layout::vertical([Fill(fill), Length(middle), Length(bottom)])`
/// applied to `area` with `Layout::areas`. The contract names the result:
/// the solver's answer depends on these values alone.
#[verifier::external_body]
fn vertical_areas(area: Rect, fill: u16, middle: u16, bottom: u16) -> (res: (Rect, Rect, Rect))
    ensures
        res == vertical_split(area, fill, middle, bottom),
{
    let r = ratatui::layout::Rect::new(area.x, area.y, area.width, area.height);
    let layout = ratatui::layout::Layout::vertical(
        [
            ratatui::layout::Constraint::Fill(fill),
            ratatui::layout::Constraint::Length(middle),
            ratatui::layout::Constraint::Length(bottom),
        ],
    );
    let [a, b, c] = layout.areas(r);
    (
        Rect { x: a.x, y: a.y, width: a.width, height: a.height },
        Rect { x: b.x, y: b.y, width: b.width, height: b.height },
        Rect { x: c.x, y: c.y, width: c.width, height: c.height },
    )
}

/// The screen's bands: the messages, the input box three rows tall, and the
/// status bar one row tall.
pub fn layout(area: Rect) -> (res: (Rect, Rect, Rect))
    ensures
        res == vertical_split(area, 1, 3, 1),
{
    vertical_areas(area, 1, 3, 1)
}

/// The band where the messages go.
pub fn message_area(area: Rect) -> (res: Rect)
    ensures
        res == vertical_split(area, 1, 3, 1).0,
{
    layout(area).0
}

/// The command palette sits right above the input: its box ends on the row
/// where the input begins (unless the input is on the top row).
pub proof fn law_palette_above_input(input_area: Rect, count: nat, name_width: nat, help_width: nat)
    requires
        input_area.y >= 1,
    ensures
        ({
            let area = palette_geometry(input_area, count, name_width, help_width).0;
            area.y + area.height == input_area.y
        }),
{
}

/// The session picker sits right above the input: its box ends on the row
/// where the input begins.
pub proof fn law_picker_above_input(
    sessions: Seq<SessionMeta>,
    selected: usize,
    active: Option<Seq<char>>,
    input_area: Rect,
)
    requires
        picker_popup_spec(sessions, selected, active, input_area) is Some,
    ensures
        ({
            let (area, rows) = picker_popup_spec(sessions, selected, active, input_area)->0;
            area.y + area.height == input_area.y
        }),
{
}

} // verus!
