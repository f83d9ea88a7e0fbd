//! The slash-command palette: an ambient overlay, visible while the input
//! names a command and some command matches. Up, Down, Tab and Enter are
//! consumed; every other key passes through to default input handling.
use crate::text::{chars_of, push_char, push_str, repeat, sat_sub, spaces};
use crate::tui::commands::{
    self, Command, dispatch_outcome, name_width, spec_dispatch_outcome, spec_palette_matches,
};
use crate::tui::input::{InputState, empty_input, spec_insert_str};
use crate::tui::key::{KeyCode, KeyEvent};
use crate::tui::modal::{
    KeyDispatch, ModalOutcome, ModalSlot, OutcomeView, RenderCtx, dispatch_view, outcome_view,
};
use crate::tui::state::AppState;
use crate::tui::surface::{Line, SpanView, Surface, choice_line, choice_style, span};
use vstd::prelude::*;

verus! {

broadcast use vstd::string::group_string_axioms;

pub struct CommandPalette {
    selected: usize,
}

/// One palette row: ` > /name<pad>  help` for the selected command, the same
/// with three spaces in front for the others.
pub open spec fn palette_row_spec(cmd: Command, name_width: nat, selected: bool) -> Seq<SpanView> {
    seq![
        span(
            (if selected { " > "@ } else { "   "@ }) + seq!['/'] + cmd.name@ + repeat(
                ' ',
                sat_sub(name_width as int, cmd.name@.len() as int),
            ) + "  "@ + cmd.help@,
            choice_style(selected),
        ),
    ]
}

/// The palette's rows: as many matches as fit, the window placed so the
/// selection shows.
pub open spec fn palette_lines(sel: nat, matches: Seq<Command>, max_rows: nat) -> Seq<Seq<SpanView>> {
    if max_rows == 0 || matches.len() == 0 {
        seq![]
    } else {
        let len = matches.len() as int;
        let s = if sel < len - 1 {
            sel as int
        } else {
            len - 1
        };
        let w = name_width(matches, len);
        let visible = if len < max_rows {
            len
        } else {
            max_rows as int
        };
        let back = if s > visible - 1 {
            s - (visible - 1)
        } else {
            0
        };
        let start = if back < len - visible {
            back
        } else {
            len - visible
        };
        Seq::new(visible as nat, |o: int| palette_row_spec(matches[start + o], w, start + o == s))
    }
}

/// What a key does to the palette: the new selection, the new input (when it
/// changes), and the outcome when the key is consumed.
pub open spec fn palette_key_spec(sel: nat, key: KeyEvent, input: InputState, busy: bool) -> (
    nat,
    InputState,
    Option<OutcomeView>,
) {
    let matches = spec_palette_matches(input.text);
    let len = matches.len() as int;
    if len == 0 {
        (0, input, None)
    } else {
        let pick = matches[if sel < len - 1 { sel as int } else { len - 1 }];
        match key.code {
            KeyCode::Up => (((sel as int - 1) % len) as nat, input, Some(OutcomeView::Continue)),
            KeyCode::Down => (((sel as int + 1) % len) as nat, input, Some(OutcomeView::Continue)),
            KeyCode::Tab => (
                0,
                spec_insert_str(empty_input(), seq!['/'] + pick.name@ + seq![' ']),
                Some(OutcomeView::Continue),
            ),
            KeyCode::Enter => (0, empty_input(), Some(spec_dispatch_outcome(pick.name@, busy))),
            _ => (0, input, None),
        }
    }
}

impl Default for CommandPalette {
    fn default() -> (res: Self)
        ensures
            res.selection() == 0,
            res.wf(),
    {
        CommandPalette { selected: 0 }
    }
}

impl CommandPalette {
    pub closed spec fn selection(&self) -> nat {
        self.selected as nat
    }

    /// The selection stays below the number of commands.
    pub closed spec fn wf(&self) -> bool {
        self.selected < 3
    }

    /// The commands matching the input.
    pub fn matches_for(state: &AppState) -> (res: Vec<Command>)
        ensures
            res@ == spec_palette_matches(state.input@.text),
    {
        commands::palette_matches(state.input.as_str())
    }

    /// Runs the selected command, clearing the input.
    pub fn dispatch_selection(&mut self, state: &mut AppState) -> (res: ModalOutcome)
        requires
            old(self).wf(),
        ensures
            final(self).wf(),
            ({
                let matches = spec_palette_matches(old(state).input@.text);
                let len = matches.len() as int;
                if len == 0 {
                    &&& outcome_view(res) == OutcomeView::Continue
                    &&& *final(state) == *old(state)
                    &&& *final(self) == *old(self)
                } else {
                    let sel = old(self).selection();
                    let pick = matches[if sel < len - 1 { sel as int } else { len - 1 }];
                    &&& outcome_view(res) == spec_dispatch_outcome(pick.name@, old(state).turn is Some)
                    &&& final(state).input@ == empty_input()
                    &&& final(state).turn == old(state).turn
                    &&& final(state).modal == old(state).modal
                    &&& final(state).session == old(state).session
                    &&& final(state).palette_index == old(state).palette_index
                    &&& final(state).overlay == old(state).overlay
                    &&& final(state).directory_label == old(state).directory_label
                    &&& final(self).selection() == 0
                }
            }),
    {
        let matches = Self::matches_for(state);
        if matches.len() == 0 {
            return ModalOutcome::Continue;
        }
        let i = if self.selected < matches.len() - 1 {
            self.selected
        } else {
            matches.len() - 1
        };
        let name = matches[i].name;
        state.input.clear();
        self.selected = 0;
        dispatch_outcome(name, state.is_busy())
    }

    pub fn slot(&self) -> (res: ModalSlot)
        ensures
            res == ModalSlot::Panel,
    {
        ModalSlot::Panel
    }

    /// Visible while some command matches the input.
    pub fn is_visible(&self, state: &AppState) -> (res: bool)
        ensures
            res == (spec_palette_matches(state.input@.text).len() > 0),
    {
        Self::matches_for(state).len() > 0
    }

    pub open spec fn render_spec(&self, state: &AppState, max_rows: usize) -> Seq<Seq<SpanView>> {
        palette_lines(self.selection(), spec_palette_matches(state.input@.text), max_rows as nat)
    }

    /// Draws the visible matches.
    pub fn render(&self, ctx: RenderCtx<'_>) -> (res: Surface)
        ensures
            res@ == self.render_spec(ctx.state, ctx.max_rows),
            res@.len() <= ctx.max_rows,
    {
        if ctx.max_rows == 0 {
            return Surface::new();
        }
        let matches = Self::matches_for(ctx.state);
        if matches.len() == 0 {
            return Surface::new();
        }
        let len = matches.len();
        let selected = if self.selected < len - 1 {
            self.selected
        } else {
            len - 1
        };
        let mut width: usize = 0;
        let mut k: usize = 0;
        while k < len
            invariant
                k <= len == matches@.len(),
                width == name_width(matches@, k as int),
            decreases len - k,
        {
            let n = chars_of(matches[k].name).len();
            if n > width {
                width = n;
            }
            k += 1;
        }
        let visible = if len < ctx.max_rows {
            len
        } else {
            ctx.max_rows
        };
        let back = selected.saturating_sub(visible - 1);
        let start = if back < len - visible {
            back
        } else {
            len - visible
        };
        let ghost rows = palette_lines(self.selection(), matches@, ctx.max_rows as nat);
        let mut surface = Surface::new();
        let mut offset: usize = 0;
        while offset < visible
            invariant
                offset <= visible <= len == matches@.len(),
                start + visible <= len,
                rows == palette_lines(self.selection(), matches@, ctx.max_rows as nat),
                rows.len() == visible,
                width == name_width(matches@, len as int),
                forall|o: int| 0 <= o < visible ==> #[trigger] rows[o] == palette_row_spec(
                    matches@[start + o],
                    width as nat,
                    start + o == selected,
                ),
                surface@ == rows.take(offset as int),
            decreases visible - offset,
        {
            let i = start + offset;
            let line = palette_row(&matches[i], width, i == selected);
            surface.push_line(line);
            assert(rows.take(offset + 1) =~= rows.take(offset as int).push(rows[offset as int]));
            offset += 1;
        }
        assert(rows.take(visible as int) =~= rows);
        surface
    }

    /// Up and Down move the selection around the matches, Tab completes the
    /// selected command into the input, Enter runs it; other keys pass
    /// through and reset the selection.
    pub fn handle_key(&mut self, key: KeyEvent, state: &mut AppState) -> (res: KeyDispatch)
        requires
            old(self).wf(),
            crate::tui::input::input_wf(old(state).input@),
        ensures
            final(self).wf(),
            ({
                let (sel, input, outcome) = palette_key_spec(
                    old(self).selection(),
                    key,
                    old(state).input@,
                    old(state).turn is Some,
                );
                &&& final(self).selection() == sel
                &&& final(state).input@ == input
                &&& dispatch_view(res) == outcome
            }),
            final(state).turn == old(state).turn,
            final(state).modal == old(state).modal,
            final(state).session == old(state).session,
            final(state).palette_index == old(state).palette_index,
            final(state).overlay == old(state).overlay,
            final(state).directory_label == old(state).directory_label,
            crate::tui::input::input_wf(final(state).input@),
    {
        let matches = Self::matches_for(state);
        if matches.len() == 0 {
            self.selected = 0;
            return KeyDispatch::PassThrough;
        }
        let len = matches.len();
        proof {
            reveal_with_fuel(commands::matching, 4);
            assert(len <= 3);
        }
        match key.code {
            KeyCode::Up => {
                self.selected = if self.selected == 0 {
                    len - 1
                } else {
                    (self.selected - 1) % len
                };
                proof {
                    let s = old(self).selection() as int;
                    assert(self.selected as int == (s - 1) % (len as int)) by (nonlinear_arith)
                        requires
                            0 <= s < 3,
                            1 <= len <= 3,
                            self.selected as int == (if s == 0 { len - 1 } else { (s - 1) % (
                            len as int) }),
                    ;
                }
                KeyDispatch::Consumed(ModalOutcome::Continue)
            },
            KeyCode::Down => {
                self.selected = (self.selected + 1) % len;
                KeyDispatch::Consumed(ModalOutcome::Continue)
            },
            KeyCode::Tab => {
                let i = if self.selected < len - 1 {
                    self.selected
                } else {
                    len - 1
                };
                let name = matches[i].name;
                let mut replacement = String::new();
                push_char(&mut replacement, '/');
                push_str(&mut replacement, name);
                push_char(&mut replacement, ' ');
                state.input.clear();
                state.input.insert_str(replacement.as_str());
                assert(replacement@ =~= seq!['/'] + name@ + seq![' ']);
                self.selected = 0;
                KeyDispatch::Consumed(ModalOutcome::Continue)
            },
            KeyCode::Enter => {
                let outcome = self.dispatch_selection(state);
                KeyDispatch::Consumed(outcome)
            },
            _ => {
                self.selected = 0;
                KeyDispatch::PassThrough
            },
        }
    }
}

/// One palette row.
pub fn palette_row(cmd: &Command, name_width: usize, selected: bool) -> (res: Line)
    ensures
        res@ == palette_row_spec(*cmd, name_width as nat, selected),
{
    let n = chars_of(cmd.name).len();
    let pad = spaces(name_width.saturating_sub(n));
    let mut text = String::new();
    if selected {
        push_str(&mut text, " > ");
    } else {
        push_str(&mut text, "   ");
    }
    push_char(&mut text, '/');
    push_str(&mut text, cmd.name);
    push_str(&mut text, pad.as_str());
    push_str(&mut text, "  ");
    push_str(&mut text, cmd.help);
    assert(text@ =~= (if selected { " > "@ } else { "   "@ }) + seq!['/'] + cmd.name@ + repeat(
        ' ',
        sat_sub(name_width as int, cmd.name@.len() as int),
    ) + "  "@ + cmd.help@);
    choice_line(text, selected)
}

} // verus!
