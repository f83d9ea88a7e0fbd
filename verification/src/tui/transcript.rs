//! The transcript: entries laid out as styled lines, wrapped to a width.
use crate::text::{
    chars_of, has_prefix, leading_ws, lines_of, push_char, push_decimal, push_str, spec_char_width,
    starts_with, string_of, text_lines, three_dots, trim_end, trim_start, trimmed_end_len,
    truncated, take_chars, char_width, decimal, preview,
};
use crate::tui::entry::{Entry, EntryView, entries_view, is_chat};
use crate::tui::surface::{
    Line, Span, SpanView, Style, bold_only, colored, colored_bold, lines_view, plain, span,
};
use crate::tui::theme;
use vstd::prelude::*;
use vstd::string::*;

verus! {

broadcast use vstd::string::group_string_axioms;

/// Tool results show at most this many lines.
pub const COLLAPSED_TOOL_RESULT_LINES: usize = 3;

// ---------------------------------------------------------------------------
// Markup of one line
// ---------------------------------------------------------------------------

/// The first index at or after `i` whose character is not `c`.
pub open spec fn run_end(s: Seq<char>, c: char, i: int) -> int
    decreases s.len() - i,
{
    if i >= s.len() {
        s.len() as int
    } else if s[i] != c {
        i
    } else {
        run_end(s, c, i + 1)
    }
}

/// A heading is one to three `#` and a space; its body is what follows.
pub open spec fn spec_heading_body(s: Seq<char>) -> Option<Seq<char>> {
    let h = run_end(s, '#', 0);
    if h == 0 || h > 3 {
        None
    } else if h < s.len() && s[h] == ' ' {
        Some(s.skip(h + 1))
    } else {
        None
    }
}

/// A bullet is `- ` or `* `; its body is what follows.
pub open spec fn spec_bullet_body(s: Seq<char>) -> Option<Seq<char>> {
    if s.len() >= 2 && (s[0] == '-' || s[0] == '*') && s[1] == ' ' {
        Some(s.skip(2))
    } else {
        None
    }
}

/// Where a heading's body starts in `cs`, if `cs` is a heading.
pub fn heading_start(cs: &[char]) -> (res: Option<usize>)
    ensures
        match spec_heading_body(cs@) {
            Some(b) => res is Some && res->0 <= cs@.len() && cs@.skip(res->0 as int) == b,
            None => res is None,
        },
{
    let mut h: usize = 0;
    while h < cs.len() && cs[h] == '#'
        invariant
            h <= cs@.len(),
            run_end(cs@, '#', 0) == run_end(cs@, '#', h as int),
        decreases cs@.len() - h,
    {
        h += 1;
    }
    if h == 0 || h > 3 {
        return None;
    }
    if h < cs.len() && cs[h] == ' ' {
        Some(h + 1)
    } else {
        None
    }
}

/// Where a bullet's body starts in `cs`, if `cs` is a bullet.
pub fn bullet_start(cs: &[char]) -> (res: Option<usize>)
    ensures
        match spec_bullet_body(cs@) {
            Some(b) => res == Some(2usize) && cs@.skip(2) == b,
            None => res is None,
        },
{
    if cs.len() >= 2 && (cs[0] == '-' || cs[0] == '*') && cs[1] == ' ' {
        Some(2)
    } else {
        None
    }
}

/// The text of a heading line after its `#` marks, if it is one.
pub fn heading_body(line: &str) -> (res: Option<&str>)
    ensures
        match spec_heading_body(line@) {
            Some(b) => res is Some && res->0@ == b,
            None => res is None,
        },
{
    let cs = chars_of(line);
    match heading_start(cs.as_slice()) {
        Some(k) => Some(line.substring_char(k, cs.len())),
        None => None,
    }
}

/// The text of a bullet line after its `- ` or `* ` mark, if it is one.
pub fn bullet_body(line: &str) -> (res: Option<&str>)
    ensures
        match spec_bullet_body(line@) {
            Some(b) => res is Some && res->0@ == b,
            None => res is None,
        },
{
    let cs = chars_of(line);
    match bullet_start(cs.as_slice()) {
        Some(k) => Some(line.substring_char(k, cs.len())),
        None => None,
    }
}

// ---------------------------------------------------------------------------
// Inline code
// ---------------------------------------------------------------------------

pub open spec fn code_style() -> Style {
    colored(theme::TOOL)
}

/// Scans the first `i` characters of `t`: the spans completed so far, whether
/// a backtick has opened code, and the text not yet emitted.
pub open spec fn inline_scan(t: Seq<char>, i: int) -> (Seq<SpanView>, bool, Seq<char>)
    decreases i,
{
    if i <= 0 {
        (seq![], false, seq![])
    } else {
        let (sp, in_code, buf) = inline_scan(t, i - 1);
        if t[i - 1] == '`' {
            (
                if buf.len() > 0 {
                    sp.push(span(buf, if in_code { code_style() } else { plain() }))
                } else {
                    sp
                },
                !in_code,
                seq![],
            )
        } else {
            (sp, in_code, buf.push(t[i - 1]))
        }
    }
}

/// Text split at backticks into plain and code spans; an unclosed trailing
/// code part shows as plain text with its backtick.
pub open spec fn inline_spans(t: Seq<char>) -> Seq<SpanView> {
    let (sp, in_code, buf) = inline_scan(t, t.len() as int);
    if buf.len() == 0 {
        sp
    } else if in_code {
        sp.push(span(seq!['`'] + buf, plain()))
    } else {
        sp.push(span(buf, plain()))
    }
}

proof fn lemma_inline_step(t: Seq<char>, i: int)
    requires
        0 < i,
    ensures
        inline_scan(t, i) == ({
            let (sp, in_code, buf) = inline_scan(t, i - 1);
            if t[i - 1] == '`' {
                (
                    if buf.len() > 0 {
                        sp.push(span(buf, if in_code { code_style() } else { plain() }))
                    } else {
                        sp
                    },
                    !in_code,
                    Seq::<char>::empty(),
                )
            } else {
                (sp, in_code, buf.push(t[i - 1]))
            }
        }),
{
}

/// Appends the spans of `text`, with backtick-quoted parts in the code style.
pub fn extend_with_inline_code(spans: &mut Line, text: &[char])
    ensures
        final(spans)@ == old(spans)@ + inline_spans(text@),
{
    let ghost start = spans@;
    let mut in_code = false;
    let mut buf = String::new();
    let mut i: usize = 0;
    while i < text.len()
        invariant
            i <= text@.len(),
            ({
                let (sp, ic, b) = inline_scan(text@, i as int);
                &&& spans@ == start + sp
                &&& in_code == ic
                &&& buf@ == b
            }),
        decreases text@.len() - i,
    {
        proof {
            lemma_inline_step(text@, i + 1);
        }
        let c = text[i];
        if c == '`' {
            if !buf.as_str().is_empty() {
                let style = if in_code {
                    Style::fg(theme::TOOL)
                } else {
                    Style::plain()
                };
                let mut taken = String::new();
                std::mem::swap(&mut taken, &mut buf);
                proof {
                    if taken@.len() == 0 {
                        assert(taken@ =~= Seq::<char>::empty());
                    }
                }
                spans.push(Span::new(taken, style));
            } else {
                buf = String::new();
            }
            in_code = !in_code;
        } else {
            push_char(&mut buf, c);
        }
        i += 1;
    }
    assert(text@.take(text@.len() as int) == text@);
    if !buf.as_str().is_empty() {
        if in_code {
            let mut literal = String::new();
            push_char(&mut literal, '`');
            push_str(&mut literal, buf.as_str());
            spans.push(Span::new(literal, Style::plain()));
        } else {
            spans.push(Span::new(buf, Style::plain()));
        }
    }
}

// ---------------------------------------------------------------------------
// Entries
// ---------------------------------------------------------------------------

pub open spec fn gutter_span() -> SpanView {
    span(theme::gutter(), plain())
}

/// The mark in front of an assistant line: a dot on the first line.
pub open spec fn spec_assistant_prefix(first: bool) -> SpanView {
    if first {
        span("· "@, colored_bold(theme::ASSISTANT))
    } else {
        span("  "@, plain())
    }
}

/// A line shown as is, dim (code and fences).
pub open spec fn raw_assistant_line(text: Seq<char>, first: bool) -> Seq<SpanView> {
    seq![gutter_span(), spec_assistant_prefix(first), span(text, colored(theme::DIM))]
}

/// A prose line: a heading in bold, a bullet with a `•` mark, or plain text,
/// with inline code picked out.
pub open spec fn prose_body(raw: Seq<char>) -> Seq<SpanView> {
    match spec_heading_body(raw) {
        Some(rest) => seq![span(rest, bold_only())],
        None => match spec_bullet_body(raw) {
            Some(rest) => seq![span("• "@, plain())] + inline_spans(rest),
            None => inline_spans(raw),
        },
    }
}

pub open spec fn is_fence(raw: Seq<char>) -> bool {
    has_prefix(trim_start(raw), "```"@)
}

/// Lays out the first `i` lines of an assistant's text; also tells whether
/// a code block is open.
pub open spec fn assistant_scan(ls: Seq<Seq<char>>, i: int) -> (Seq<Seq<SpanView>>, bool)
    decreases i,
{
    if i <= 0 {
        (seq![], false)
    } else {
        let (out, in_code) = assistant_scan(ls, i - 1);
        let raw = ls[i - 1];
        let first = i == 1;
        if is_fence(raw) {
            (out.push(raw_assistant_line(raw, first)), !in_code)
        } else if in_code {
            (out.push(raw_assistant_line(raw, first)), in_code)
        } else {
            (
                out.push(seq![gutter_span(), spec_assistant_prefix(first)] + prose_body(raw)),
                in_code,
            )
        }
    }
}

/// The lines of an assistant's text: fences and code shown dim as they are,
/// prose with its markup.
pub open spec fn assistant_lines(text: Seq<char>) -> Seq<Seq<SpanView>> {
    assistant_scan(text_lines(text), text_lines(text).len() as int).0
}

pub open spec fn more_lines_text(more: nat) -> Seq<char> {
    "     +"@ + decimal(more) + " more line"@ + if more == 1 {
        seq![]
    } else {
        seq!['s']
    }
}

pub open spec fn arrow(i: int) -> Seq<char> {
    if i == 0 {
        "  -> "@
    } else {
        "     "@
    }
}

pub open spec fn result_body_style(is_error: bool) -> Style {
    if is_error {
        colored(theme::ERROR)
    } else {
        colored(theme::DIM)
    }
}

pub open spec fn result_body(content: Seq<char>) -> Seq<Seq<char>> {
    text_lines(content).map_values(|l: Seq<char>| trim_end(l))
}

/// A tool's result: its first three lines (trailing whitespace removed), the
/// first marked with an arrow, then how many lines were left out.
pub open spec fn tool_result_lines(content: Seq<char>, is_error: bool) -> Seq<Seq<SpanView>> {
    let body = result_body(content);
    let shown: nat = if body.len() < 3 {
        body.len()
    } else {
        3
    };
    Seq::new(
        shown,
        |i: int|
            seq![
                gutter_span(),
                span(arrow(i), colored(theme::DIM)),
                span(body[i], result_body_style(is_error)),
            ],
    ) + if body.len() > shown {
        seq![seq![gutter_span(), span(more_lines_text((body.len() - shown) as nat), colored(theme::DIM))]]
    } else {
        seq![]
    }
}

/// The lines an entry shows, before wrapping. Every entry but a tool result
/// starts with an empty line.
pub open spec fn entry_lines(e: EntryView) -> Seq<Seq<SpanView>> {
    match e {
        EntryView::User(t) => seq![
            seq![],
            seq![gutter_span(), span("> "@, colored_bold(theme::USER)), span(t, colored(theme::USER))],
        ],
        EntryView::Assistant(t) => seq![seq![]] + assistant_lines(t),
        EntryView::ToolCall { name, args } => seq![
            seq![],
            seq![
                gutter_span(),
                span("* "@, colored(theme::TOOL)),
                span(name, colored_bold(theme::TOOL)),
                span(seq!['('] + truncated(args, 60, three_dots()) + seq![')'], colored(theme::DIM)),
            ],
        ],
        EntryView::ToolResult { content, is_error } => tool_result_lines(content, is_error),
        EntryView::Error(t) => seq![
            seq![],
            seq![gutter_span(), span("x "@, colored_bold(theme::ERROR)), span(t, colored(theme::ERROR))],
        ],
    }
}

fn gutter() -> (res: Span)
    ensures
        res@ == gutter_span(),
{
    let mut g = String::new();
    push_char(&mut g, ' ');
    Span::new(g, Style::plain())
}

/// A span of a literal text.
fn lit(text: &str, style: Style) -> (res: Span)
    ensures
        res@ == span(text@, style),
{
    Span::new(String::from_str(text), style)
}

/// The mark in front of an assistant line.
pub fn assistant_prefix(first: bool) -> (res: Span)
    ensures
        res@ == spec_assistant_prefix(first),
{
    if first {
        lit("· ", Style::fg(theme::ASSISTANT).bold())
    } else {
        lit("  ", Style::plain())
    }
}

/// Adds a line shown as is, dim.
pub fn push_raw_assistant_line(out: &mut Vec<Line>, text: &[char], first: bool)
    ensures
        lines_view(final(out)@) == lines_view(old(out)@).push(raw_assistant_line(text@, first)),
{
    let mut line = Line::empty();
    line.push(gutter());
    line.push(assistant_prefix(first));
    line.push(Span::new(string_of(text), Style::fg(theme::DIM)));
    assert(line@ =~= raw_assistant_line(text@, first));
    out.push(line);
    assert(lines_view(out@) =~= lines_view(old(out)@).push(raw_assistant_line(text@, first)));
}

proof fn lemma_assistant_step(ls: Seq<Seq<char>>, i: int)
    requires
        0 < i,
    ensures
        assistant_scan(ls, i) == ({
            let (out, in_code) = assistant_scan(ls, i - 1);
            let raw = ls[i - 1];
            let first = i == 1;
            if is_fence(raw) {
                (out.push(raw_assistant_line(raw, first)), !in_code)
            } else if in_code {
                (out.push(raw_assistant_line(raw, first)), in_code)
            } else {
                (
                    out.push(seq![gutter_span(), spec_assistant_prefix(first)] + prose_body(raw)),
                    in_code,
                )
            }
        }),
{
}

/// Whether a line opens or closes a code block: after leading whitespace it
/// starts with three backticks.
pub fn fence_line(raw: &[char]) -> (res: bool)
    ensures
        res == is_fence(raw@),
{
    let k = leading_ws(raw);
    let rest = crate::text::slice_chars(raw, k, raw.len());
    let ticks = ['`', '`', '`'];
    proof {
        reveal_strlit("```");
        assert(ticks@ == "```"@);
        assert(rest@ == raw@.skip(k as int));
    }
    starts_with(rest.as_slice(), &ticks)
}

/// Lays out an assistant's text.
pub fn render_assistant(text: &str, out: &mut Vec<Line>)
    ensures
        lines_view(final(out)@) == lines_view(old(out)@) + assistant_lines(text@),
{
    let ghost start = lines_view(out@);
    let cs = chars_of(text);
    let ls = lines_of(cs.as_slice());
    let ghost lv = ls@.map_values(|l: Vec<char>| l@);
    let mut in_code = false;
    let mut first_line_emitted = false;
    let mut i: usize = 0;
    while i < ls.len()
        invariant
            i <= ls@.len(),
            lv == text_lines(text@),
            lv == ls@.map_values(|l: Vec<char>| l@),
            first_line_emitted == (i > 0),
            ({
                let (o, ic) = assistant_scan(lv, i as int);
                &&& lines_view(out@) == start + o
                &&& in_code == ic
            }),
        decreases ls@.len() - i,
    {
        proof {
            lemma_assistant_step(lv, i + 1);
        }
        let raw = &ls[i];
        assert(raw@ == lv[i as int]);
        let first = !first_line_emitted;
        first_line_emitted = true;
        if fence_line(raw.as_slice()) {
            push_raw_assistant_line(out, raw.as_slice(), first);
            in_code = !in_code;
        } else if in_code {
            push_raw_assistant_line(out, raw.as_slice(), first);
        } else {
            let mut line = Line::empty();
            line.push(gutter());
            line.push(assistant_prefix(first));
            let ghost head = line@;
            match heading_start(raw.as_slice()) {
                Some(k) => {
                    let rest = crate::text::slice_chars(raw.as_slice(), k, raw.len());
                    assert(rest@ == raw@.skip(k as int));
                    line.push(Span::new(string_of(rest.as_slice()), Style::plain().bold()));
                },
                None => match bullet_start(raw.as_slice()) {
                    Some(k) => {
                        line.push(lit("• ", Style::plain()));
                        let rest = crate::text::slice_chars(raw.as_slice(), k, raw.len());
                        assert(rest@ == raw@.skip(k as int));
                        extend_with_inline_code(&mut line, rest.as_slice());
                    },
                    None => {
                        extend_with_inline_code(&mut line, raw.as_slice());
                    },
                },
            }
            assert(line@ =~= seq![gutter_span(), spec_assistant_prefix(first)] + prose_body(raw@));
            let ghost before = out@;
            out.push(line);
            assert(lines_view(out@) =~= lines_view(before).push(
                seq![gutter_span(), spec_assistant_prefix(first)] + prose_body(raw@),
            ));
        }
        i += 1;
    }
}

/// Lays out a tool's result.
pub fn render_tool_result(content: &str, is_error: bool, out: &mut Vec<Line>)
    ensures
        lines_view(final(out)@) == lines_view(old(out)@) + tool_result_lines(content@, is_error),
{
    let ghost start = lines_view(out@);
    let body_style = if is_error {
        Style::fg(theme::ERROR)
    } else {
        Style::fg(theme::DIM)
    };
    let cs = chars_of(content);
    let ls = lines_of(cs.as_slice());
    let ghost body = result_body(content@);
    assert(body.len() == ls@.len());
    let shown = if ls.len() < COLLAPSED_TOOL_RESULT_LINES {
        ls.len()
    } else {
        COLLAPSED_TOOL_RESULT_LINES
    };
    let ghost shown_lines = Seq::new(
        shown as nat,
        |i: int|
            seq![
                gutter_span(),
                span(arrow(i), colored(theme::DIM)),
                span(body[i], result_body_style(is_error)),
            ],
    );
    let mut i: usize = 0;
    while i < shown
        invariant
            i <= shown <= ls@.len(),
            body == result_body(content@),
            body.len() == ls@.len(),
            ls@.map_values(|l: Vec<char>| l@) == text_lines(content@),
            body_style == result_body_style(is_error),
            shown_lines.len() == shown,
            forall|j: int| 0 <= j < shown ==> #[trigger] shown_lines[j] == seq![
                gutter_span(),
                span(arrow(j), colored(theme::DIM)),
                span(body[j], result_body_style(is_error)),
            ],
            lines_view(out@) == start + shown_lines.take(i as int),
        decreases shown - i,
    {
        let raw = &ls[i];
        let n = trimmed_end_len(raw.as_slice());
        let trimmed = take_chars(raw.as_slice(), n);
        assert(trimmed@ == body[i as int]);
        let a = if i == 0 {
            lit("  -> ", Style::fg(theme::DIM))
        } else {
            lit("     ", Style::fg(theme::DIM))
        };
        let mut line = Line::empty();
        line.push(gutter());
        line.push(a);
        line.push(Span::new(string_of(trimmed.as_slice()), body_style));
        assert(line@ =~= shown_lines[i as int]);
        let ghost before = out@;
        out.push(line);
        assert(lines_view(out@) =~= lines_view(before).push(shown_lines[i as int]));
        assert(shown_lines.take(i + 1) =~= shown_lines.take(i as int).push(shown_lines[i as int]));
        i += 1;
    }
    assert(shown_lines.take(shown as int) =~= shown_lines);
    if ls.len() > shown {
        let more = ls.len() - shown;
        let mut text = String::from_str("     +");
        push_decimal(&mut text, more as u64);
        push_str(&mut text, " more line");
        if more != 1 {
            push_char(&mut text, 's');
        }
        assert(text@ =~= more_lines_text(more as nat));
        let mut line = Line::empty();
        line.push(gutter());
        line.push(Span::new(text, Style::fg(theme::DIM)));
        assert(line@ =~= seq![gutter_span(), span(more_lines_text(more as nat), colored(theme::DIM))]);
        let ghost before = out@;
        out.push(line);
        assert(lines_view(out@) =~= lines_view(before).push(
            seq![gutter_span(), span(more_lines_text(more as nat), colored(theme::DIM))],
        ));
    }
    assert(lines_view(out@) =~= start + tool_result_lines(content@, is_error));
}

/// Lays out one entry, before wrapping.
pub fn render_entry(entry: &Entry) -> (res: Vec<Line>)
    ensures
        lines_view(res@) == entry_lines(entry@),
{
    let mut lines: Vec<Line> = Vec::new();
    match entry {
        Entry::User(text) => {
            lines.push(Line::empty());
            let mut line = Line::empty();
            line.push(gutter());
            line.push(lit("> ", Style::fg(theme::USER).bold()));
            line.push(Span::new(text.clone(), Style::fg(theme::USER)));
            assert(line@ =~= seq![gutter_span(), span("> "@, colored_bold(theme::USER)), span(text@, colored(theme::USER))]);
            lines.push(line);
            assert(lines_view(lines@) =~= seq![Seq::<SpanView>::empty(), line@]);
        },
        Entry::Assistant(text) => {
            lines.push(Line::empty());
            assert(lines_view(lines@) =~= seq![Seq::<SpanView>::empty()]);
            render_assistant(text.as_str(), &mut lines);
        },
        Entry::ToolCall { name, args } => {
            let args_preview = preview(args.as_str(), 60);
            lines.push(Line::empty());
            let mut shown = String::new();
            push_char(&mut shown, '(');
            push_str(&mut shown, args_preview.as_str());
            push_char(&mut shown, ')');
            assert(shown@ =~= seq!['('] + args_preview@ + seq![')']);
            let mut line = Line::empty();
            line.push(gutter());
            line.push(lit("* ", Style::fg(theme::TOOL)));
            line.push(Span::new(name.clone(), Style::fg(theme::TOOL).bold()));
            line.push(Span::new(shown, Style::fg(theme::DIM)));
            assert(line@ =~= seq![
                gutter_span(),
                span("* "@, colored(theme::TOOL)),
                span(name@, colored_bold(theme::TOOL)),
                span(seq!['('] + truncated(args@, 60, three_dots()) + seq![')'], colored(theme::DIM)),
            ]);
            lines.push(line);
            assert(lines_view(lines@) =~= seq![Seq::<SpanView>::empty(), line@]);
        },
        Entry::ToolResult { content, is_error } => {
            render_tool_result(content.as_str(), *is_error, &mut lines);
            assert(lines_view(lines@) =~= tool_result_lines(content@, *is_error));
        },
        Entry::Error(text) => {
            lines.push(Line::empty());
            let mut line = Line::empty();
            line.push(gutter());
            line.push(lit("x ", Style::fg(theme::ERROR).bold()));
            line.push(Span::new(text.clone(), Style::fg(theme::ERROR)));
            assert(line@ =~= seq![gutter_span(), span("x "@, colored_bold(theme::ERROR)), span(text@, colored(theme::ERROR))]);
            lines.push(line);
            assert(lines_view(lines@) =~= seq![Seq::<SpanView>::empty(), line@]);
        },
    }
    assert(lines_view(lines@) =~= entry_lines(entry@));
    lines
}


// ---------------------------------------------------------------------------
// Wrapping
// ---------------------------------------------------------------------------

/// One character with its style.
pub type Glyph = (char, Style);

/// The characters of a line, each with the style of its span.
pub open spec fn cells_of(l: Seq<SpanView>) -> Seq<Glyph>
    decreases l.len(),
{
    if l.len() == 0 {
        seq![]
    } else {
        cells_of(l.drop_last()) + text_cells(l.last().text, l.last().style)
    }
}

/// The characters of a text, each with the given style.
pub open spec fn text_cells(t: Seq<char>, style: Style) -> Seq<Glyph> {
    Seq::new(t.len(), |i: int| (t[i], style))
}

/// Adds text to a line: it joins the last span when that has the same style.
pub open spec fn push_run(sp: Seq<SpanView>, text: Seq<char>, style: Style) -> Seq<SpanView> {
    if text.len() == 0 {
        sp
    } else if sp.len() > 0 && sp.last().style == style {
        sp.update(sp.len() - 1, span(sp.last().text + text, style))
    } else {
        sp.push(span(text, style))
    }
}

/// The spans of a row of cells: runs of one style.
pub open spec fn runs(cells: Seq<Glyph>) -> Seq<SpanView>
    decreases cells.len(),
{
    if cells.len() == 0 {
        seq![]
    } else {
        push_run(runs(cells.drop_last()), seq![cells.last().0], cells.last().1)
    }
}

/// Scans the first `i` cells into rows no wider than `max`: a cell starts a
/// new row when the current row is not empty and the cell would overflow it.
pub open spec fn wrap_scan(cells: Seq<Glyph>, max: nat, i: int) -> (Seq<Seq<Glyph>>, Seq<Glyph>, nat)
    decreases i,
{
    if i <= 0 {
        (seq![], seq![], 0)
    } else {
        wrap_next(wrap_scan(cells, max, i - 1), cells[i - 1], max)
    }
}

/// One step of wrapping: the cell joins the current row, or starts a new one.
pub open spec fn wrap_next(st: (Seq<Seq<Glyph>>, Seq<Glyph>, nat), cell: Glyph, max: nat) -> (
    Seq<Seq<Glyph>>,
    Seq<Glyph>,
    nat,
) {
    let (rows, cur, w) = st;
    let cw = spec_char_width(cell.0);
    if w > 0 && w + cw > max {
        (rows.push(cur), seq![cell], cw)
    } else {
        (rows, cur.push(cell), w + cw)
    }
}

/// A line wrapped to `width` columns (at least one).
pub open spec fn wrap_spec(l: Seq<SpanView>, width: u16) -> Seq<Seq<SpanView>> {
    let max: nat = if width == 0 {
        1
    } else {
        width as nat
    };
    let cells = cells_of(l);
    let (rows, cur, w) = wrap_scan(cells, max, cells.len() as int);
    rows.map_values(|r: Seq<Glyph>| runs(r)).push(runs(cur))
}

proof fn lemma_push_run_assoc(sp: Seq<SpanView>, a: Seq<char>, b: Seq<char>, st: Style)
    ensures
        push_run(push_run(sp, a, st), b, st) == push_run(sp, a + b, st),
{
    if a.len() == 0 {
        assert(a + b =~= b);
    } else if b.len() == 0 {
        assert(a + b =~= a);
    } else if sp.len() > 0 && sp.last().style == st {
        assert(sp.last().text + a + b =~= sp.last().text + (a + b));
        assert(push_run(sp, a, st).update(sp.len() - 1, span(sp.last().text + a + b, st)) =~= sp.update(
            sp.len() - 1,
            span(sp.last().text + (a + b), st),
        ));
    } else {
        assert(sp.push(span(a, st)).update(sp.len() as int, span(a + b, st)) =~= sp.push(
            span(a + b, st),
        ));
    }
}

proof fn lemma_wrap_step(cells: Seq<Glyph>, max: nat, i: int)
    requires
        0 < i,
    ensures
        wrap_scan(cells, max, i) == wrap_next(wrap_scan(cells, max, i - 1), cells[i - 1], max),
{
}

proof fn lemma_wrap_width(cells: Seq<Glyph>, max: nat, i: int)
    requires
        0 <= i <= cells.len(),
        max >= 1,
    ensures
        wrap_scan(cells, max, i).2 <= max + 4,
    decreases i,
{
    if i > 0 {
        lemma_wrap_width(cells, max, i - 1);
    }
}

proof fn lemma_text_cells(t: Seq<char>, style: Style)
    ensures
        text_cells(t, style).len() == t.len(),
        forall|i: int| 0 <= i < t.len() ==> #[trigger] text_cells(t, style)[i] == ((t[i], style)),
{
}

proof fn lemma_cells_push(l: Seq<SpanView>, s: SpanView)
    ensures
        cells_of(l.push(s)) == cells_of(l) + text_cells(s.text, s.style),
{
    assert(l.push(s).drop_last() =~= l);
}

/// Adds `content` in `style` at the end of a line, joining the last span
/// when it has the same style.
pub fn push_span(line: &mut Line, content: String, style: Style)
    ensures
        content@.len() > 0 ==> final(line)@ == push_run(old(line)@, content@, style),
        content@.len() == 0 ==> final(line)@ == (if old(line)@.len() > 0 && old(line)@.last().style
            == style {
            old(line)@
        } else {
            old(line)@.push(span(content@, style))
        }),
{
    if let Some(last) = line.last_style() {
        if last == style {
            line.extend_last(content.as_str());
            proof {
                if content@.len() == 0 {
                    assert(old(line)@.last().text + content@ =~= old(line)@.last().text);
                    assert(line@ =~= old(line)@);
                }
            }
            return;
        }
    }
    line.push(Span::new(content, style));
}

/// Wraps one more character: it joins the current row, or the row is closed
/// and the character starts the next one.
fn wrap_char(
    current: &mut Line,
    buf: &mut String,
    current_width: &mut usize,
    out: &mut Vec<Line>,
    c: char,
    style: Style,
    max: usize,
    Ghost(start): Ghost<Seq<Seq<SpanView>>>,
    Ghost(st): Ghost<(Seq<Seq<Glyph>>, Seq<Glyph>, nat)>,
)
    requires
        1 <= max <= 65535,
        lines_view(old(out)@) == start + st.0.map_values(|r: Seq<Glyph>| runs(r)),
        push_run(old(current)@, old(buf)@, style) == runs(st.1),
        *old(current_width) == st.2,
        st.2 <= max + 4,
    ensures
        ({
            let nst = wrap_next(st, (c, style), max as nat);
            &&& lines_view(final(out)@) == start + nst.0.map_values(|r: Seq<Glyph>| runs(r))
            &&& push_run(final(current)@, final(buf)@, style) == runs(nst.1)
            &&& *final(current_width) == nst.2
            &&& nst.2 <= max + 4
        }),
{
    let w = char_width(c);
    let ghost (rows0, cur0, w0) = st;
    if *current_width > 0 && *current_width + w > max {
        if !buf.as_str().is_empty() {
            let mut taken = String::new();
            std::mem::swap(&mut taken, buf);
            push_span(current, taken, style);
        } else {
            *buf = String::new();
        }
        let mut done = Line::empty();
        std::mem::swap(&mut done, current);
        let ghost before = out@;
        out.push(done);
        assert(lines_view(out@) =~= lines_view(before).push(runs(cur0)));
        assert(rows0.push(cur0).map_values(|r: Seq<Glyph>| runs(r)) =~= rows0.map_values(
            |r: Seq<Glyph>| runs(r),
        ).push(runs(cur0)));
        *current_width = 0;
        proof {
            assert(seq![(c, style)].drop_last() =~= Seq::<Glyph>::empty());
            assert(Seq::<char>::empty().push(c) =~= seq![c]);
            reveal_with_fuel(runs, 2);
            assert(runs(seq![(c, style)]) == push_run(Seq::<SpanView>::empty(), seq![c], style));
            assert(current@ == Seq::<SpanView>::empty());
            assert(buf@ == Seq::<char>::empty());
        }
    } else {
        proof {
            lemma_push_run_assoc(current@, buf@, seq![c], style);
            assert(cur0.push((c, style)).drop_last() =~= cur0);
            assert(buf@ + seq![c] =~= buf@.push(c));
            assert(runs(cur0.push((c, style))) == push_run(runs(cur0), seq![c], style));
        }
    }
    push_char(buf, c);
    *current_width = *current_width + w;
}

/// Wraps a line to `width` columns, adding the rows to `out`.
pub fn wrap_line(line: &Line, width: u16, out: &mut Vec<Line>)
    ensures
        lines_view(final(out)@) == lines_view(old(out)@) + wrap_spec(line@, width),
{
    let ghost start = lines_view(out@);
    let ghost l = line@;
    let ghost all_cells = cells_of(l);
    let max: usize = if width == 0 {
        1
    } else {
        width as usize
    };
    if line.len() == 0 {
        let ghost before = out@;
        out.push(Line::empty());
        assert(lines_view(out@) =~= lines_view(before).push(Seq::<SpanView>::empty()));
        assert(l =~= Seq::<SpanView>::empty());
        assert(cells_of(l) =~= Seq::<Glyph>::empty());
        assert(wrap_spec(l, width) =~= seq![Seq::<SpanView>::empty()]);
        return;
    }
    let spans = line.spans();
    let mut current = Line::empty();
    let mut current_width: usize = 0;
    let mut si: usize = 0;
    assert(l.take(0) =~= Seq::<SpanView>::empty());
    while si < spans.len()
        invariant
            si <= spans@.len(),
            crate::tui::surface::spans_view(spans@) == l,
            all_cells == cells_of(l),
            1 <= max <= 65535,
            max == (if width == 0 { 1 } else { width as nat }),
            ({
                let k = cells_of(l.take(si as int)).len() as int;
                let (rows, cur, w) = wrap_scan(all_cells, max as nat, k);
                &&& lines_view(out@) == start + rows.map_values(|r: Seq<Glyph>| runs(r))
                &&& current@ == runs(cur)
                &&& current_width == w
            }),
            all_cells.take(cells_of(l.take(si as int)).len() as int) == cells_of(l.take(si as int)),
        decreases spans@.len() - si,
    {
        let sp = &spans[si];
        let style = sp.style();
        let ghost k0 = cells_of(l.take(si as int)).len() as int;
        let ghost sv = sp@;
        proof {
            assert(l.take(si + 1) =~= l.take(si as int).push(sv));
            lemma_cells_push(l.take(si as int), sv);
            assert(sv == l[si as int]);
        }
        let ghost seg = text_cells(sv.text, sv.style);
        let ghost next_prefix = cells_of(l.take(si + 1));
        let text = chars_of(sp.text());
        let mut buf = String::new();
        let mut ci: usize = 0;
        proof {
            lemma_text_cells(sv.text, sv.style);
        }
        proof {
            lemma_cells_take_prefix(l, si + 1);
        }
        while ci < text.len()
            invariant
                ci <= text@.len(),
                text@ == sv.text,
                style == sv.style,
                1 <= max <= 65535,
                seg.len() == sv.text.len(),
                next_prefix.len() <= all_cells.len(),
                next_prefix == cells_of(l.take(si as int)) + seg,
                seg == text_cells(sv.text, sv.style),
                all_cells.take(next_prefix.len() as int) == next_prefix,
                k0 == cells_of(l.take(si as int)).len(),
                ({
                    let (rows, cur, w) = wrap_scan(all_cells, max as nat, k0 + ci);
                    &&& lines_view(out@) == start + rows.map_values(|r: Seq<Glyph>| runs(r))
                    &&& push_run(current@, buf@, style) == runs(cur)
                    &&& current_width == w
                    &&& w <= max + 4
                }),
            decreases text@.len() - ci,
        {
            let c = text[ci];
            proof {
                assert(next_prefix.len() == k0 + text@.len());
                assert(all_cells.take(next_prefix.len() as int)[k0 + ci] == all_cells[k0 + ci]);
                assert(all_cells[k0 + ci] == next_prefix[k0 + ci]);
                assert(next_prefix[k0 + ci] == seg[ci as int]);
                assert(seg[ci as int] == (c, style));
                lemma_wrap_step(all_cells, max as nat, k0 + ci + 1);
            }
            wrap_char(&mut current, &mut buf, &mut current_width, out, c, style, max,
                Ghost(start), Ghost(wrap_scan(all_cells, max as nat, k0 + ci)));
            ci += 1;
        }
        assert(sv.text.len() == text@.len());
        assert(next_prefix.len() == k0 + text@.len());
        if !buf.as_str().is_empty() {
            push_span(&mut current, buf, style);
        }
        proof {
            assert(k0 + text@.len() == next_prefix.len());
        }
        si += 1;
    }
    proof {
        assert(l.take(spans@.len() as int) =~= l);
        assert(all_cells.take(all_cells.len() as int) =~= all_cells);
    }
    let ghost before = out@;
    out.push(current);
    assert(lines_view(out@) =~= lines_view(before).push(current@));
}

proof fn lemma_cells_take_prefix(l: Seq<SpanView>, si: int)
    requires
        0 <= si <= l.len(),
    ensures
        cells_of(l.take(si)).len() <= cells_of(l).len(),
        cells_of(l).take(cells_of(l.take(si)).len() as int) == cells_of(l.take(si)),
    decreases l.len() - si,
{
    if si == l.len() {
        assert(l.take(si) =~= l);
        assert(cells_of(l).take(cells_of(l).len() as int) =~= cells_of(l));
    } else {
        lemma_cells_take_prefix(l, si + 1);
        assert(l.take(si + 1) =~= l.take(si).push(l[si]));
        lemma_cells_push(l.take(si), l[si]);
        let x = cells_of(l);
        let a = cells_of(l.take(si));
        let b = cells_of(l.take(si + 1));
        assert(a.len() <= b.len());
        assert forall|j: int| 0 <= j < a.len() implies x.take(a.len() as int)[j] == a[j] by {
            assert(x.take(b.len() as int)[j] == b[j]);
            assert(b[j] == a[j]);
        }
        assert(x.take(a.len() as int) =~= a);
    }
}


// ---------------------------------------------------------------------------
// The transcript
// ---------------------------------------------------------------------------

/// The first `n` lines of `ls`, each wrapped to `width`, one after another.
pub open spec fn wrapped(ls: Seq<Seq<SpanView>>, width: u16, n: int) -> Seq<Seq<SpanView>>
    decreases n,
{
    if n <= 0 {
        seq![]
    } else {
        wrapped(ls, width, n - 1) + wrap_spec(ls[n - 1], width)
    }
}

/// The wrapped lines of the first `n` entries.
pub open spec fn entries_layout(es: Seq<EntryView>, width: u16, n: int) -> Seq<Seq<SpanView>>
    decreases n,
{
    if n <= 0 {
        seq![]
    } else {
        entries_layout(es, width, n - 1) + wrapped(
            entry_lines(es[n - 1]),
            width,
            entry_lines(es[n - 1]).len() as int,
        )
    }
}

/// The transcript's lines: every entry laid out and wrapped, then an empty
/// line; nothing at all while the width is unknown (zero).
pub open spec fn layout(es: Seq<EntryView>, width: u16) -> Seq<Seq<SpanView>> {
    if width == 0 {
        seq![]
    } else {
        entries_layout(es, width, es.len() as int).push(seq![])
    }
}

/// The number of chat entries among the first `n`.
pub open spec fn chat_count(es: Seq<EntryView>, n: int) -> nat
    decreases n,
{
    if n <= 0 {
        0
    } else {
        chat_count(es, n - 1) + if is_chat(es[n - 1]) {
            1nat
        } else {
            0nat
        }
    }
}

/// A transcript as values.
pub struct TranscriptView {
    pub entries: Seq<EntryView>,
    pub lines: Seq<Seq<SpanView>>,
    pub width: u16,
}

/// The lines are the layout of the entries at the width.
pub open spec fn laid_out(v: TranscriptView) -> bool {
    v.lines == layout(v.entries, v.width)
}

pub struct Transcript {
    entries: Vec<Entry>,
    lines: Vec<Line>,
    width: u16,
}

impl View for Transcript {
    type V = TranscriptView;

    closed spec fn view(&self) -> TranscriptView {
        TranscriptView {
            entries: entries_view(self.entries@),
            lines: lines_view(self.lines@),
            width: self.width,
        }
    }
}

impl Default for Transcript {
    fn default() -> (res: Self)
        ensures
            res@.entries == Seq::<EntryView>::empty(),
            res@.width == 0,
            laid_out(res@),
    {
        let res = Transcript { entries: Vec::new(), lines: Vec::new(), width: 0 };
        assert(entries_view(res.entries@) =~= Seq::<EntryView>::empty());
        assert(lines_view(res.lines@) =~= Seq::<Seq<SpanView>>::empty());
        res
    }
}

impl Transcript {
    pub fn is_empty(&self) -> (res: bool)
        ensures
            res == (self@.entries.len() == 0),
    {
        self.entries.len() == 0
    }

    /// The number of lines, capped at `u16::MAX`.
    pub fn height(&self) -> (res: u16)
        ensures
            res == (if self@.lines.len() <= u16::MAX {
                self@.lines.len() as u16
            } else {
                u16::MAX
            }),
    {
        if self.lines.len() <= 65535 {
            self.lines.len() as u16
        } else {
            65535
        }
    }

    /// The number of user and assistant entries.
    pub fn message_count(&self) -> (res: usize)
        ensures
            res == chat_count(self@.entries, self@.entries.len() as int),
    {
        let mut n: usize = 0;
        let mut i: usize = 0;
        while i < self.entries.len()
            invariant
                i <= self.entries@.len(),
                n == chat_count(entries_view(self.entries@), i as int),
                n <= i,
            decreases self.entries@.len() - i,
        {
            if self.entries[i].is_chat() {
                n += 1;
            }
            i += 1;
        }
        n
    }

    /// Sets the width (at least one column) and lays the lines out again when
    /// it changed.
    pub fn resize(&mut self, width: u16)
        requires
            laid_out(old(self)@),
        ensures
            final(self)@.entries == old(self)@.entries,
            final(self)@.width == (if width == 0 { 1 } else { width }),
            laid_out(final(self)@),
    {
        let width = if width == 0 {
            1
        } else {
            width
        };
        if self.width == width {
            return;
        }
        self.width = width;
        self.relayout();
    }

    /// Adds an entry at the end.
    pub fn push(&mut self, entry: Entry)
        ensures
            final(self)@.entries == old(self)@.entries.push(entry@),
            final(self)@.width == old(self)@.width,
            laid_out(final(self)@),
    {
        self.entries.push(entry);
        assert(entries_view(self.entries@) =~= entries_view(old(self).entries@).push(entry@));
        self.relayout();
    }

    /// Removes every entry.
    pub fn clear(&mut self)
        ensures
            final(self)@.entries == Seq::<EntryView>::empty(),
            final(self)@.width == old(self)@.width,
            laid_out(final(self)@),
    {
        self.entries.clear();
        assert(entries_view(self.entries@) =~= Seq::<EntryView>::empty());
        self.relayout();
    }

    /// A copy of one line, if there is a line at that index.
    pub fn line_at(&self, index: usize) -> (res: Option<Line>)
        ensures
            match res {
                Some(l) => index < self@.lines.len() && l@ == self@.lines[index as int],
                None => index >= self@.lines.len(),
            },
    {
        if index < self.lines.len() {
            Some(self.lines[index].copy())
        } else {
            None
        }
    }

    /// Lays every entry out again at the current width.
    pub fn relayout(&mut self)
        ensures
            final(self)@.entries == old(self)@.entries,
            final(self)@.width == old(self)@.width,
            laid_out(final(self)@),
    {
        let mut lines: Vec<Line> = Vec::new();
        if self.width == 0 {
            self.lines = lines;
            assert(lines_view(self.lines@) =~= Seq::<Seq<SpanView>>::empty());
            return;
        }
        let ghost es = entries_view(self.entries@);
        let mut i: usize = 0;
        assert(lines_view(lines@) =~= Seq::<Seq<SpanView>>::empty());
        while i < self.entries.len()
            invariant
                i <= self.entries@.len(),
                es == entries_view(self.entries@),
                self.width != 0,
                lines_view(lines@) == entries_layout(es, self.width, i as int),
            decreases self.entries@.len() - i,
        {
            let rendered = render_entry(&self.entries[i]);
            let ghost el = lines_view(rendered@);
            assert(el == entry_lines(es[i as int]));
            let ghost base = lines_view(lines@);
            let mut j: usize = 0;
            while j < rendered.len()
                invariant
                    j <= rendered@.len(),
                    el == lines_view(rendered@),
                    lines_view(lines@) == base + wrapped(el, self.width, j as int),
                decreases rendered@.len() - j,
            {
                wrap_line(&rendered[j], self.width, &mut lines);
                assert(base + wrapped(el, self.width, j as int) + wrap_spec(el[j as int], self.width)
                    =~= base + wrapped(el, self.width, j + 1));
                j += 1;
            }
            i += 1;
        }
        let ghost before = lines@;
        lines.push(Line::empty());
        assert(lines_view(lines@) =~= lines_view(before).push(Seq::<SpanView>::empty()));
        self.lines = lines;
    }
}

/// Laying out is a function of the entries and the width: whatever was shown
/// before, relaying out the same entries at the same width gives the same
/// lines, and a pushed entry only adds lines after those already shown
/// (before the closing empty line).
pub proof fn law_push_extends_layout(es: Seq<EntryView>, e: EntryView, width: u16)
    requires
        width != 0,
    ensures
        layout(es.push(e), width).take(layout(es, width).len() - 1) == layout(es, width).take(
            layout(es, width).len() - 1,
        ),
{
    lemma_entries_layout_prefix(es, e, width, es.len() as int);
    let a = entries_layout(es, width, es.len() as int);
    let b = entries_layout(es.push(e), width, es.len() as int + 1);
    assert(layout(es, width).take(layout(es, width).len() - 1) =~= a);
    assert(b.take(a.len() as int) =~= a);
    assert(layout(es.push(e), width).take(a.len() as int) =~= b.take(a.len() as int));
}

proof fn lemma_entries_layout_prefix(es: Seq<EntryView>, e: EntryView, width: u16, n: int)
    requires
        0 <= n <= es.len(),
    ensures
        entries_layout(es.push(e), width, n) == entries_layout(es, width, n),
        entries_layout(es.push(e), width, es.len() as int + 1) == entries_layout(es, width, es.len() as int)
            + wrapped(entry_lines(e), width, entry_lines(e).len() as int),
    decreases n,
{
    if n > 0 {
        lemma_entries_layout_prefix(es, e, width, n - 1);
        assert(es.push(e)[n - 1] == es[n - 1]);
    }
    lemma_entries_layout_same(es, e, width, es.len() as int);
    assert(es.push(e)[es.len() as int] == e);
}

proof fn lemma_entries_layout_same(es: Seq<EntryView>, e: EntryView, width: u16, n: int)
    requires
        0 <= n <= es.len(),
    ensures
        entries_layout(es.push(e), width, n) == entries_layout(es, width, n),
    decreases n,
{
    if n > 0 {
        lemma_entries_layout_same(es, e, width, n - 1);
        assert(es.push(e)[n - 1] == es[n - 1]);
    }
}

/// The columns a row of cells takes.
pub open spec fn cells_width(r: Seq<Glyph>) -> nat
    decreases r.len(),
{
    if r.len() == 0 {
        0
    } else {
        cells_width(r.drop_last()) + spec_char_width(r.last().0)
    }
}

/// A row fits `max` columns, or only its last character overflows them
/// (everything before it takes no room).
pub open spec fn row_fits(r: Seq<Glyph>, max: nat) -> bool {
    cells_width(r) <= max || (r.len() > 0 && cells_width(r.drop_last()) == 0)
}

proof fn lemma_wrap_rows_fit(cells: Seq<Glyph>, max: nat, i: int)
    requires
        0 <= i <= cells.len(),
    ensures
        ({
            let (rows, cur, w) = wrap_scan(cells, max, i);
            &&& w == cells_width(cur)
            &&& row_fits(cur, max)
            &&& forall|k: int| 0 <= k < rows.len() ==> row_fits(#[trigger] rows[k], max)
        }),
    decreases i,
{
    if i > 0 {
        lemma_wrap_rows_fit(cells, max, i - 1);
        let (rows, cur, w) = wrap_scan(cells, max, i - 1);
        let cell = cells[i - 1];
        assert(cur.push(cell).drop_last() =~= cur);
        assert(seq![cell].drop_last() =~= Seq::<Glyph>::empty());
        lemma_wrap_step(cells, max, i);
        let cw = spec_char_width(cell.0);
        let (rows2, cur2, w2) = wrap_scan(cells, max, i);
        if w > 0 && w + cw > max {
            assert(rows2 == rows.push(cur));
            assert(cur2 == seq![cell]);
            assert(cells_width(seq![cell]) == cells_width(Seq::<Glyph>::empty()) + cw);
            assert(w2 == cells_width(cur2));
            assert(row_fits(cur2, max));
        } else {
            assert(rows2 == rows);
            assert(cur2 == cur.push(cell));
            assert(cells_width(cur.push(cell)) == cells_width(cur) + cw);
            assert(row_fits(cur2, max));
        }
        assert forall|k: int| 0 <= k < rows2.len() implies row_fits(#[trigger] rows2[k], max) by {
            if k < rows.len() {
                assert(rows2[k] == rows[k]);
            }
        }
    }
}

proof fn lemma_cells_push_run(sp: Seq<SpanView>, text: Seq<char>, style: Style)
    ensures
        cells_of(push_run(sp, text, style)) == cells_of(sp) + text_cells(text, style),
{
    if text.len() == 0 {
        assert(cells_of(sp) + text_cells(text, style) =~= cells_of(sp));
    } else if sp.len() > 0 && sp.last().style == style {
        let up = sp.update(sp.len() - 1, span(sp.last().text + text, style));
        assert(up.drop_last() =~= sp.drop_last());
        assert(text_cells(sp.last().text + text, style) =~= text_cells(sp.last().text, style)
            + text_cells(text, style));
        assert(cells_of(up) =~= cells_of(sp) + text_cells(text, style));
    } else {
        assert(sp.push(span(text, style)).drop_last() =~= sp);
    }
}

proof fn lemma_runs_cells(r: Seq<Glyph>)
    ensures
        cells_of(runs(r)) == r,
    decreases r.len(),
{
    if r.len() > 0 {
        lemma_runs_cells(r.drop_last());
        lemma_cells_push_run(runs(r.drop_last()), seq![r.last().0], r.last().1);
        assert(text_cells(seq![r.last().0], r.last().1) =~= seq![r.last()]);
        assert(r.drop_last() + seq![r.last()] =~= r);
    }
}

/// Wrapping keeps every row of a line within the width: a row overflows it
/// only by its last character, when everything before that takes no room
/// (a tab on a width under four columns).
pub proof fn law_wrapped_rows_fit(l: Seq<SpanView>, width: u16)
    ensures
        forall|k: int|
            0 <= k < wrap_spec(l, width).len() ==> row_fits(
                cells_of(#[trigger] wrap_spec(l, width)[k]),
                if width == 0 {
                    1
                } else {
                    width as nat
                },
            ),
{
    let max: nat = if width == 0 {
        1
    } else {
        width as nat
    };
    let cells = cells_of(l);
    lemma_wrap_rows_fit(cells, max, cells.len() as int);
    let (rows, cur, w) = wrap_scan(cells, max, cells.len() as int);
    let out = wrap_spec(l, width);
    assert forall|k: int| 0 <= k < out.len() implies row_fits(cells_of(#[trigger] out[k]), max) by {
        if k < rows.len() {
            lemma_runs_cells(rows[k]);
        } else {
            lemma_runs_cells(cur);
        }
    }
}

/// A tool result is collapsed to at most three of its lines, each without
/// trailing whitespace and the first behind an arrow; when lines are left
/// out, one more line tells how many: the lines shown and that count make
/// up all the result's lines.
pub proof fn law_tool_result_counts_hidden_lines(content: Seq<char>, is_error: bool)
    ensures
        ({
            let ls = text_lines(content);
            let out = tool_result_lines(content, is_error);
            &&& out.len() == if ls.len() > 3 { 4 } else { ls.len() }
            &&& forall|i: int|
                0 <= i < ls.len() && i < 3 ==> #[trigger] out[i] == seq![
                    gutter_span(),
                    span(arrow(i), colored(theme::DIM)),
                    span(trim_end(ls[i]), result_body_style(is_error)),
                ]
            &&& ls.len() > 3 ==> exists|hidden: nat|
                3 + hidden == ls.len() && out[3] == seq![
                    gutter_span(),
                    span(more_lines_text(hidden), colored(theme::DIM)),
                ]
        }),
{
    let ls = text_lines(content);
    let out = tool_result_lines(content, is_error);
    let body = result_body(content);
    assert(body.len() == ls.len());
    assert forall|i: int| 0 <= i < ls.len() && i < 3 implies #[trigger] out[i] == seq![
        gutter_span(),
        span(arrow(i), colored(theme::DIM)),
        span(trim_end(ls[i]), result_body_style(is_error)),
    ] by {
        assert(body[i] == trim_end(ls[i]));
    }
    if ls.len() > 3 {
        let hidden = (ls.len() - 3) as nat;
        assert(out[3] == seq![gutter_span(), span(more_lines_text(hidden), colored(theme::DIM))]);
    }
}

} // verus!
