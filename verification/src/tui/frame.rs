//! A frame of terminal output being built: text with control sequences, and
//! the rows it spans.
use crate::text::{chars_of, push_chars, push_str, spec_fit_line, take_chars};
use crate::tui::ansi::{
    Ansi, ansi_ok, bold_seq, fg_of, normal_intensity_seq, reset_color, reset_seq, set_bold,
    set_normal_intensity,
};
use crate::tui::surface::{Line, SpanView, Style, Surface, lines_view, spans_view};
use vstd::prelude::*;
use vstd::utf8::encode_utf8;

verus! {

broadcast use vstd::string::group_string_axioms;

/// A frame as values: what was written, and how many rows it spans.
pub struct FrameView {
    pub text: Seq<char>,
    pub rows: u16,
}

pub struct Frame {
    buf: String,
    rows: u16,
}

impl View for Frame {
    type V = FrameView;

    closed spec fn view(&self) -> FrameView {
        FrameView { text: self.buf@, rows: self.rows }
    }
}

pub open spec fn crlf() -> Seq<char> {
    seq!['\r', '\n']
}

/// Starting a row: rows after the first are preceded by a line break.
pub open spec fn spec_row(f: FrameView) -> FrameView {
    FrameView { text: if f.rows > 0 { f.text + crlf() } else { f.text }, rows: (f.rows + 1) as u16 }
}

/// What turns a style on: its color, then bold.
pub open spec fn style_on(a: crate::tui::ansi::AnsiView, s: Style) -> Seq<char> {
    (match s.fg {
        Some(c) => fg_of(a, c),
        None => seq![],
    }) + if s.bold {
        bold_seq()
    } else {
        seq![]
    }
}

/// What turns a style off: bold first, then the color.
pub open spec fn style_off(s: Style) -> Seq<char> {
    (if s.bold {
        normal_intensity_seq()
    } else {
        seq![]
    }) + if s.fg is Some {
        reset_seq()
    } else {
        seq![]
    }
}

/// The output of a line's spans from index `i` on, with `remaining` columns
/// left: each span cut to what remains, empty pieces skipped, each piece
/// wrapped in its style.
pub open spec fn line_from(
    a: crate::tui::ansi::AnsiView,
    spans: Seq<SpanView>,
    i: int,
    remaining: nat,
) -> Seq<char>
    decreases spans.len() - i,
{
    if i < 0 || i >= spans.len() || remaining == 0 {
        seq![]
    } else {
        let t = spans[i].text;
        let shown = if t.len() <= remaining {
            t
        } else {
            t.take(remaining as int)
        };
        if shown.len() == 0 {
            line_from(a, spans, i + 1, remaining)
        } else {
            style_on(a, spans[i].style) + shown + style_off(spans[i].style) + line_from(
                a,
                spans,
                i + 1,
                (remaining - shown.len()) as nat,
            )
        }
    }
}

/// A line drawn on a terminal `cols` wide, keeping the last column free.
pub open spec fn line_output(a: crate::tui::ansi::AnsiView, l: Seq<SpanView>, cols: u16) -> Seq<char> {
    line_from(a, l, 0, if cols > 0 { (cols - 1) as nat } else { 0 })
}

/// The frame after drawing the first `n` lines of a surface, each on a row
/// of its own.
pub open spec fn surface_from(
    a: crate::tui::ansi::AnsiView,
    f: FrameView,
    ls: Seq<Seq<SpanView>>,
    n: int,
    cols: u16,
) -> FrameView
    decreases n,
{
    if n <= 0 {
        f
    } else {
        let g = spec_row(surface_from(a, f, ls, n - 1, cols));
        FrameView { text: g.text + line_output(a, ls[n - 1], cols), ..g }
    }
}

impl Default for Frame {
    fn default() -> (res: Self)
        ensures
            res@ == (FrameView { text: seq![], rows: 0 }),
    {
        Frame { buf: String::new(), rows: 0 }
    }
}

impl Frame {
    /// Starts a new row and returns its index.
    pub fn row(&mut self) -> (res: u16)
        requires
            old(self)@.rows < u16::MAX,
        ensures
            final(self)@ == spec_row(old(self)@),
            res == old(self)@.rows,
    {
        if self.rows > 0 {
            proof {
                reveal_strlit("\r\n");
            }
            push_str(&mut self.buf, "\r\n");
            assert(self.buf@ == old(self).buf@ + crlf());
        }
        self.rows += 1;
        self.rows - 1
    }

    /// The number of rows started.
    pub fn rows(&self) -> (res: u16)
        ensures
            res == self@.rows,
    {
        self.rows
    }

    /// The frame's output as UTF-8.
    pub fn as_bytes(&self) -> (res: &[u8])
        ensures
            res@ == encode_utf8(self@.text),
    {
        self.buf.as_str().as_bytes()
    }

    /// The frame's output.
    pub fn text(&self) -> (res: &str)
        ensures
            res@ == self@.text,
    {
        self.buf.as_str()
    }

    /// Appends text to the current row.
    pub fn write(&mut self, s: &str)
        ensures
            final(self)@ == (FrameView { text: old(self)@.text + s@, rows: old(self)@.rows }),
    {
        push_str(&mut self.buf, s);
    }

    /// Appends characters to the current row.
    pub fn write_chars(&mut self, cs: &[char])
        ensures
            final(self)@ == (FrameView { text: old(self)@.text + cs@, rows: old(self)@.rows }),
    {
        push_chars(&mut self.buf, cs);
    }

    /// Draws every line of a surface on a row of its own.
    pub fn render_surface(&mut self, ansi: &Ansi, surface: &Surface, term_cols: u16)
        requires
            ansi_ok(ansi@),
            old(self)@.rows + surface@.len() <= u16::MAX,
        ensures
            final(self)@ == surface_from(ansi@, old(self)@, surface@, surface@.len() as int, term_cols),
    {
        let lines = surface.lines();
        let mut i: usize = 0;
        while i < lines.len()
            invariant
                i <= lines@.len(),
                lines_view(lines@) == surface@,
                ansi_ok(ansi@),
                old(self)@.rows + surface@.len() <= u16::MAX,
                self@ == surface_from(ansi@, old(self)@, surface@, i as int, term_cols),
                self@.rows == old(self)@.rows + i,
            decreases lines@.len() - i,
        {
            assert(lines@[i as int]@ == surface@[i as int]);
            self.row();
            self.write_line(ansi, &lines[i], term_cols);
            i += 1;
        }
    }

    /// Draws a line's spans, cut to the terminal width less one column.
    pub fn write_line(&mut self, ansi: &Ansi, line: &Line, term_cols: u16)
        requires
            ansi_ok(ansi@),
        ensures
            final(self)@ == (FrameView {
                text: old(self)@.text + line_output(ansi@, line@, term_cols),
                rows: old(self)@.rows,
            }),
    {
        let ghost l = line@;
        let ghost total: nat = if term_cols > 0 { (term_cols - 1) as nat } else { 0 };
        let mut remaining = term_cols.saturating_sub(1) as usize;
        let spans = line.spans();
        let ghost start = self@.text;
        let mut i: usize = 0;
        while i < spans.len() && remaining > 0
            invariant
                i <= spans@.len(),
                spans_view(spans@) == l,
                ansi_ok(ansi@),
                self@.rows == old(self)@.rows,
                self@.text + line_from(ansi@, l, i as int, remaining as nat) == start + line_from(
                    ansi@,
                    l,
                    0,
                    total,
                ),
            decreases spans@.len() - i,
        {
            let sp = &spans[i];
            assert(sp@ == l[i as int]);
            let cs = chars_of(sp.text());
            let n = if cs.len() <= remaining {
                cs.len()
            } else {
                remaining
            };
            let text = take_chars(cs.as_slice(), n);
            assert(cs@.take(cs@.len() as int) =~= cs@);
            if n == 0 {
                i += 1;
                continue;
            }
            let ghost before = self@.text;
            write_style(self, ansi, sp.style());
            self.write_chars(text.as_slice());
            reset_style(self, sp.style());
            assert(self@.text =~= before + (style_on(ansi@, l[i as int].style) + text@ + style_off(
                l[i as int].style,
            )));
            remaining = remaining - n;
            i += 1;
        }
        assert(line_output(ansi@, l, term_cols) == line_from(ansi@, l, 0, total));
    }
}

/// Writes what turns a style on.
pub fn write_style(out: &mut Frame, ansi: &Ansi, style: Style)
    requires
        ansi_ok(ansi@),
    ensures
        final(out)@ == (FrameView {
            text: old(out)@.text + style_on(ansi@, style),
            rows: old(out)@.rows,
        }),
{
    let ghost start = out@.text;
    if let Some(color) = style.fg_color() {
        out.write(ansi.fg(color));
    }
    if style.is_bold() {
        out.write(set_bold().as_str());
    }
    assert(out@.text =~= start + style_on(ansi@, style));
}

/// Writes what turns a style off.
pub fn reset_style(out: &mut Frame, style: Style)
    ensures
        final(out)@ == (FrameView { text: old(out)@.text + style_off(style), rows: old(out)@.rows }),
{
    let ghost start = out@.text;
    if style.is_bold() {
        out.write(set_normal_intensity().as_str());
    }
    if style.fg_color().is_some() {
        out.write(reset_color().as_str());
    }
    assert(out@.text =~= start + style_off(style));
}

} // verus!
