//! Styled text: spans of one style, lines of spans, and surfaces of lines.
use crate::tui::theme;
use vstd::prelude::*;

verus! {

/// The colors the interface draws text with.
#[derive(Clone, Copy, Debug, PartialEq, Eq, Structural)]
pub enum Color {
    Cyan,
    Green,
    Yellow,
    DarkGrey,
    Red,
}

#[derive(Clone, Copy, Debug, PartialEq, Eq, Structural)]
pub struct Style {
    pub fg: Option<Color>,
    pub bold: bool,
}

/// A span as values: its text and its style.
pub struct SpanView {
    pub text: Seq<char>,
    pub style: Style,
}

pub open spec fn plain() -> Style {
    Style { fg: None, bold: false }
}

pub open spec fn colored(c: Color) -> Style {
    Style { fg: Some(c), bold: false }
}

pub open spec fn colored_bold(c: Color) -> Style {
    Style { fg: Some(c), bold: true }
}

pub open spec fn bold_only() -> Style {
    Style { fg: None, bold: true }
}

pub open spec fn span(text: Seq<char>, style: Style) -> SpanView {
    SpanView { text, style }
}

impl Style {
    /// No color, not bold.
    pub fn plain() -> (res: Self)
        ensures
            res == plain(),
    {
        Style { fg: None, bold: false }
    }

    /// Text in one color.
    pub fn fg(fg: Color) -> (res: Self)
        ensures
            res == colored(fg),
    {
        Style { fg: Some(fg), bold: false }
    }

    /// The same style, bold.
    pub fn bold(self) -> (res: Self)
        ensures
            res == (Style { bold: true, ..self }),
    {
        Style { bold: true, ..self }
    }

    pub fn fg_color(&self) -> (res: Option<Color>)
        ensures
            res == self.fg,
    {
        self.fg
    }

    pub fn is_bold(&self) -> (res: bool)
        ensures
            res == self.bold,
    {
        self.bold
    }
}

pub struct Span {
    text: String,
    style: Style,
}

impl View for Span {
    type V = SpanView;

    closed spec fn view(&self) -> SpanView {
        SpanView { text: self.text@, style: self.style }
    }
}

impl Span {
    pub fn new(text: String, style: Style) -> (res: Self)
        ensures
            res@ == span(text@, style),
    {
        Span { text, style }
    }

    pub fn text(&self) -> (res: &str)
        ensures
            res@ == self@.text,
    {
        self.text.as_str()
    }

    pub fn style(&self) -> (res: Style)
        ensures
            res == self@.style,
    {
        self.style
    }

    /// A copy of the span.
    pub fn copy(&self) -> (res: Span)
        ensures
            res@ == self@,
    {
        Span { text: self.text.clone(), style: self.style }
    }

    /// Appends text to the span.
    pub fn extend(&mut self, more: &str)
        ensures
            final(self)@ == span(old(self)@.text + more@, old(self)@.style),
    {
        self.text.append(more);
    }
}

pub open spec fn spans_view(spans: Seq<Span>) -> Seq<SpanView> {
    spans.map_values(|s: Span| s@)
}

pub struct Line {
    spans: Vec<Span>,
}

impl View for Line {
    type V = Seq<SpanView>;

    closed spec fn view(&self) -> Seq<SpanView> {
        spans_view(self.spans@)
    }
}

pub open spec fn lines_view(lines: Seq<Line>) -> Seq<Seq<SpanView>> {
    lines.map_values(|l: Line| l@)
}

impl Line {
    /// A line with no spans.
    pub fn empty() -> (res: Self)
        ensures
            res@ == Seq::<SpanView>::empty(),
    {
        Line { spans: Vec::new() }
    }

    /// A line of one span.
    pub fn styled(text: String, style: Style) -> (res: Self)
        ensures
            res@ == seq![span(text@, style)],
    {
        let mut spans = Vec::new();
        spans.push(Span::new(text, style));
        let res = Line { spans };
        assert(res@ =~= seq![span(text@, style)]);
        res
    }

    /// A line of the given spans.
    pub fn from_spans(spans: Vec<Span>) -> (res: Self)
        ensures
            res@ == spans_view(spans@),
    {
        Line { spans }
    }

    pub fn spans(&self) -> (res: &[Span])
        ensures
            spans_view(res@) == self@,
    {
        self.spans.as_slice()
    }

    pub fn len(&self) -> (res: usize)
        ensures
            res == self@.len(),
    {
        self.spans.len()
    }

    /// Adds a span at the end.
    pub fn push(&mut self, s: Span)
        ensures
            final(self)@ == old(self)@.push(s@),
    {
        self.spans.push(s);
        assert(spans_view(self.spans@) =~= spans_view(old(self).spans@).push(s@));
    }

    /// Appends text to the last span.
    pub fn extend_last(&mut self, more: &str)
        requires
            old(self)@.len() > 0,
        ensures
            final(self)@ == old(self)@.update(
                old(self)@.len() - 1,
                span(old(self)@.last().text + more@, old(self)@.last().style),
            ),
    {
        let n = self.spans.len() - 1;
        let mut last = self.spans[n].copy();
        last.extend(more);
        self.spans.set(n, last);
        assert(spans_view(self.spans@) =~= old(self)@.update(
            n as int,
            span(old(self)@.last().text + more@, old(self)@.last().style),
        ));
    }

    /// The style of the last span, if any.
    pub fn last_style(&self) -> (res: Option<Style>)
        ensures
            res == (if self@.len() > 0 {
                Some(self@.last().style)
            } else {
                None::<Style>
            }),
    {
        if self.spans.len() == 0 {
            None
        } else {
            Some(self.spans[self.spans.len() - 1].style)
        }
    }

    /// A copy of the line.
    pub fn copy(&self) -> (res: Line)
        ensures
            res@ == self@,
    {
        let mut spans: Vec<Span> = Vec::new();
        let mut i: usize = 0;
        while i < self.spans.len()
            invariant
                i <= self.spans@.len(),
                spans_view(spans@) == spans_view(self.spans@).take(i as int),
            decreases self.spans@.len() - i,
        {
            let ghost before = spans@;
            spans.push(self.spans[i].copy());
            assert(spans_view(spans@) =~= spans_view(before).push(self.spans@[i as int]@));
            assert(spans_view(self.spans@).take(i + 1) =~= spans_view(self.spans@).take(
                i as int,
            ).push(self.spans@[i as int]@));
            i += 1;
        }
        assert(spans_view(self.spans@).take(self.spans@.len() as int) =~= spans_view(
            self.spans@,
        ));
        Line { spans }
    }
}

pub struct Surface {
    lines: Vec<Line>,
}

impl View for Surface {
    type V = Seq<Seq<SpanView>>;

    closed spec fn view(&self) -> Seq<Seq<SpanView>> {
        lines_view(self.lines@)
    }
}

impl Surface {
    /// A surface with no lines.
    pub fn new() -> (res: Self)
        ensures
            res@ == Seq::<Seq<SpanView>>::empty(),
    {
        Surface { lines: Vec::new() }
    }

    /// The surface with one more line at the bottom.
    pub fn line(self, line: Line) -> (res: Self)
        ensures
            res@ == self@.push(line@),
    {
        let mut s = self;
        s.push_line(line);
        s
    }

    /// Adds a line at the bottom.
    pub fn push_line(&mut self, line: Line)
        ensures
            final(self)@ == old(self)@.push(line@),
    {
        self.lines.push(line);
        assert(lines_view(self.lines@) =~= lines_view(old(self).lines@).push(line@));
    }

    pub fn lines(&self) -> (res: &[Line])
        ensures
            lines_view(res@) == self@,
    {
        self.lines.as_slice()
    }
}

/// The style of a choice in a list: the selected one bold in the user's
/// color, the others dim.
pub open spec fn choice_style(selected: bool) -> Style {
    if selected {
        colored_bold(theme::USER)
    } else {
        colored(theme::DIM)
    }
}

/// A one-span line styled as a choice.
pub fn choice_line(text: String, selected: bool) -> (res: Line)
    ensures
        res@ == seq![span(text@, choice_style(selected))],
{
    let style = if selected {
        Style::fg(theme::USER).bold()
    } else {
        Style::fg(theme::DIM)
    };
    Line::styled(text, style)
}

} // verus!
