//! The prompt area below the scrollback: the input, an optional panel (a
//! takeover modal or the command palette) and the status row. The terminal
//! stays in raw mode without an alternate screen, so the chat history lives
//! in the terminal's own scrollback and only these rows are managed.
use crate::text::{push_str};
use crate::tui::ansi::{
    Ansi, AnsiView, ClearKind, ansi_ok, clear, clear_seq, move_to_column, move_to_column_seq,
    move_up, move_up_seq,
};
use crate::tui::commands::spec_palette_matches;
use crate::tui::frame::{Frame, FrameView, crlf, spec_row, surface_from};
use crate::tui::input::input_wf;
use crate::tui::modal::RenderCtx;
use crate::tui::prompt_input::{full_input_layout, write_input};
use crate::tui::state::{AppState, elapsed_millis, elapsed_secs};
use crate::tui::status::{status_output, write_status_at};
use crate::tui::surface::SpanView;
use vstd::prelude::*;

verus! {

broadcast use vstd::string::group_string_axioms;

pub struct Prompt {
    pub cursor_offset_from_top: u16,
}

impl Default for Prompt {
    fn default() -> (res: Self)
        ensures
            res.cursor_offset_from_top == 0,
    {
        Prompt { cursor_offset_from_top: 0 }
    }
}

pub struct PromptFrame {
    frame: Frame,
    input_col: u16,
    input_row: u16,
}

/// A prompt frame as values: the frame, and the input cursor's column and
/// row.
pub struct PromptFrameView {
    pub frame: FrameView,
    pub input_col: u16,
    pub input_row: u16,
}

impl View for PromptFrame {
    type V = PromptFrameView;

    closed spec fn view(&self) -> PromptFrameView {
        PromptFrameView { frame: self.frame@, input_col: self.input_col, input_row: self.input_row }
    }
}

impl PromptFrame {
    pub fn rows(&self) -> (res: u16)
        ensures
            res == self@.frame.rows,
    {
        self.frame.rows()
    }

    /// The input cursor: column, then row.
    pub fn input_cursor(&self) -> (res: (u16, u16))
        ensures
            res == (self@.input_col, self@.input_row),
    {
        (self.input_col, self.input_row)
    }

    pub fn as_bytes(&self) -> (res: &[u8])
        ensures
            res@ == vstd::utf8::encode_utf8(self@.frame.text),
    {
        self.frame.as_bytes()
    }

    pub fn text(&self) -> (res: &str)
        ensures
            res@ == self@.frame.text,
    {
        self.frame.text()
    }
}

/// The panel's lines: an open takeover modal wins; otherwise the palette,
/// when some command matches the input.
pub open spec fn panel_lines(state: AppState, cols: u16, budget: usize) -> Option<Seq<Seq<SpanView>>> {
    match state.modal {
        Some(m) => Some(m.render_spec(cols, budget)),
        None => match state.overlay {
            Some(p) => if spec_palette_matches(state.input@.text).len() > 0 {
                Some(p.render_spec(&state, budget))
            } else {
                None
            },
            None => None,
        },
    }
}

/// The rows the input takes beyond its first.
pub open spec fn input_rows(state: AppState, cols: u16) -> nat {
    full_input_layout(state.input@.text, (state.input@.cursor % 65536) as int, cols).2
}

/// The prompt frame: an empty first row, the input, the panel in the rows
/// left above the status (the terminal height less two, less the rows
/// already used), an empty row, and the status row.
pub open spec fn prompt_frame_spec(
    a: AnsiView,
    state: AppState,
    cols: u16,
    rows: u16,
    ms: u128,
    secs: u64,
) -> PromptFrameView {
    let lay = full_input_layout(state.input@.text, (state.input@.cursor % 65536) as int, cols);
    let f2 = spec_row(spec_row(FrameView { text: seq![], rows: 0 }));
    let f3 = FrameView { text: f2.text + "> "@ + lay.0, rows: (f2.rows + lay.2) as u16 };
    let used = f3.rows + 2;
    let budget: usize = if rows > used {
        (rows - used) as usize
    } else {
        0
    };
    let f4 = match panel_lines(state, cols, budget) {
        Some(ls) => surface_from(a, f3, ls, ls.len() as int, cols),
        None => f3,
    };
    let f5 = spec_row(spec_row(f4));
    PromptFrameView {
        frame: FrameView { text: f5.text + status_output(a, state, cols, ms, secs), rows: f5.rows },
        input_col: lay.1.0 as u16,
        input_row: (1 + lay.1.1) as u16,
    }
}

/// Builds the prompt frame for a turn running `ms` milliseconds.
pub fn build_frame_at(
    ansi: &Ansi,
    state: &AppState,
    terminal_size: (u16, u16),
    ms: u128,
    secs: u64,
) -> (res: PromptFrame)
    requires
        ansi_ok(ansi@),
        input_wf(state.input@),
        input_rows(*state, terminal_size.0) + 4 <= u16::MAX,
    ensures
        res@ == prompt_frame_spec(ansi@, *state, terminal_size.0, terminal_size.1, ms, secs),
        res@.input_row < res@.frame.rows,
        res@.input_col < u16::MAX,
{
    let (term_cols, term_rows) = terminal_size;
    let mut frame = Frame::default();
    frame.row();
    let start_row = frame.row();
    let input_cursor = write_input(&mut frame, &state.input, term_cols);
    let input_row = start_row + input_cursor.row_offset;
    let used = frame.rows() as usize + 2;
    let variable_budget = (term_rows as usize).saturating_sub(used);
    let ghost f3 = frame@;
    match &state.modal {
        Some(modal) => {
            let surface = modal.render(RenderCtx { cols: term_cols, max_rows: variable_budget, state });
            frame.render_surface(ansi, &surface, term_cols);
        },
        None => match &state.overlay {
            Some(overlay) => {
                if overlay.is_visible(state) {
                    let surface = overlay.render(
                        RenderCtx { cols: term_cols, max_rows: variable_budget, state },
                    );
                    frame.render_surface(ansi, &surface, term_cols);
                }
            },
            None => {},
        },
    }
    proof {
        lemma_surface_rows(ansi@, f3, panel_lines(*state, term_cols, variable_budget), term_cols);
    }
    frame.row();
    frame.row();
    write_status_at(&mut frame, ansi, state, term_cols, ms, secs);
    PromptFrame { frame, input_col: input_cursor.col, input_row }
}

proof fn lemma_surface_rows_n(a: AnsiView, f: FrameView, ls: Seq<Seq<SpanView>>, n: int, cols: u16)
    requires
        0 <= n,
        f.rows + n <= u16::MAX,
    ensures
        surface_from(a, f, ls, n, cols).rows == f.rows + n,
    decreases n,
{
    if n > 0 {
        lemma_surface_rows_n(a, f, ls, n - 1, cols);
    }
}

proof fn lemma_surface_rows(
    a: AnsiView,
    f: FrameView,
    ls: Option<Seq<Seq<SpanView>>>,
    cols: u16,
)
    requires
        ls is Some ==> f.rows + ls->0.len() <= u16::MAX,
    ensures
        ls is Some ==> surface_from(a, f, ls->0, ls->0.len() as int, cols).rows == f.rows + ls->0.len(),
{
    if ls is Some {
        lemma_surface_rows_n(a, f, ls->0, ls->0.len() as int, cols);
    }
}

/// Builds the prompt frame, timing the turn by the clock.
pub fn build_frame(ansi: &Ansi, state: &AppState, terminal_size: (u16, u16)) -> (res: PromptFrame)
    requires
        ansi_ok(ansi@),
        input_wf(state.input@),
        input_rows(*state, terminal_size.0) + 4 <= u16::MAX,
    ensures
        exists|ms: u128, secs: u64|
            res@ == prompt_frame_spec(ansi@, *state, terminal_size.0, terminal_size.1, ms, secs),
        res@.input_row < res@.frame.rows,
        res@.input_col < u16::MAX,
{
    let (ms, secs) = match &state.turn {
        Some(t) => (elapsed_millis(&t.started_at), elapsed_secs(&t.started_at)),
        None => (0, 0),
    };
    build_frame_at(ansi, state, terminal_size, ms, secs)
}

/// Whether the prompt's rows fit the row counter: the input's rows and the
/// four fixed rows of the frame.
pub fn prompt_fits(state: &AppState, cols: u16) -> (res: bool)
    ensures
        res == (input_rows(*state, cols) + 4 <= u16::MAX),
{
    let extra = crate::tui::prompt_input::input_extra_rows(&state.input, cols);
    extra <= 65531
}

/// Wiping the prompt: back up to its top row, then clear to the end of the
/// screen.
pub open spec fn clear_output(offset: u16) -> Seq<char> {
    (if offset > 0 {
        move_up_seq(offset)
    } else {
        seq![]
    }) + move_to_column_seq(0) + clear_seq(ClearKind::FromCursorDown)
}

pub open spec fn repeat_crlf(n: nat) -> Seq<char>
    decreases n,
{
    if n == 0 {
        seq![]
    } else {
        repeat_crlf((n - 1) as nat) + crlf()
    }
}

/// Drawing a prompt frame: wipe the previous one, open room for every row
/// (the terminal scrolls if needed), write the frame from the top row, then
/// put the cursor on the input.
pub open spec fn render_output(offset: u16, f: PromptFrameView) -> Seq<char> {
    let rows = f.frame.rows;
    let from_bottom = rows - 1 - f.input_row;
    clear_output(offset) + (if rows > 1 {
        repeat_crlf((rows - 1) as nat) + move_up_seq((rows - 1) as u16)
    } else {
        seq![]
    }) + move_to_column_seq(0) + f.frame.text + (if from_bottom > 0 {
        move_up_seq(from_bottom as u16)
    } else {
        seq![]
    }) + move_to_column_seq(f.input_col)
}

impl Prompt {
    /// Wipes what the last render left, and appends the sequences to `out`.
    pub fn clear(&mut self, out: &mut String)
        ensures
            final(out)@ == old(out)@ + clear_output(old(self).cursor_offset_from_top),
            final(self).cursor_offset_from_top == 0,
    {
        let ghost start = out@;
        if self.cursor_offset_from_top > 0 {
            push_str(out, move_up(self.cursor_offset_from_top).as_str());
        }
        push_str(out, move_to_column(0).as_str());
        push_str(out, clear(ClearKind::FromCursorDown).as_str());
        self.cursor_offset_from_top = 0;
        assert(out@ =~= start + clear_output(old(self).cursor_offset_from_top));
    }

    /// Draws a built frame: appends the output to `out` and remembers where
    /// the cursor was left.
    pub fn draw(&mut self, out: &mut String, frame: &PromptFrame)
        requires
            frame@.input_row < frame@.frame.rows,
            frame@.input_col < u16::MAX,
        ensures
            final(out)@ == old(out)@ + render_output(old(self).cursor_offset_from_top, frame@),
            final(self).cursor_offset_from_top == frame@.input_row,
    {
        let ghost start = out@;
        self.clear(out);
        let rows = frame.rows();
        if rows > 1 {
            let ghost before = out@;
            let mut i: u16 = 0;
            while i < rows - 1
                invariant
                    i <= rows - 1,
                    rows > 1,
                    out@ == before + repeat_crlf(i as nat),
                decreases rows - 1 - i,
            {
                push_str(out, "\r\n");
                proof {
                    reveal_strlit("\r\n");
                }
                i += 1;
            }
            push_str(out, move_up(rows - 1).as_str());
        }
        push_str(out, move_to_column(0).as_str());
        push_str(out, frame.text());
        let (input_col, input_row) = frame.input_cursor();
        let from_bottom = rows - 1 - input_row;
        if from_bottom > 0 {
            push_str(out, move_up(from_bottom).as_str());
        }
        push_str(out, move_to_column(input_col).as_str());
        self.cursor_offset_from_top = input_row;
        assert(out@ =~= start + render_output(old(self).cursor_offset_from_top, frame@));
    }

    /// Builds the prompt frame and draws it below the scrollback.
    pub fn render(&mut self, out: &mut String, ansi: &Ansi, state: &AppState, terminal_size: (u16, u16))
        requires
            ansi_ok(ansi@),
            input_wf(state.input@),
            input_rows(*state, terminal_size.0) + 4 <= u16::MAX,
        ensures
            exists|ms: u128, secs: u64|
                {
                    let f = #[trigger] prompt_frame_spec(
                        ansi@,
                        *state,
                        terminal_size.0,
                        terminal_size.1,
                        ms,
                        secs,
                    );
                    &&& final(out)@ == old(out)@ + render_output(old(self).cursor_offset_from_top, f)
                    &&& final(self).cursor_offset_from_top == f.input_row
                },
    {
        let prompt_frame = build_frame(ansi, state, terminal_size);
        self.draw(out, &prompt_frame);
    }
}

} // verus!
