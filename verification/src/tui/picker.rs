//! The session picker: a takeover list of saved sessions to resume.
use crate::agent::{BackendCommand, CommandView, SessionMeta};
use crate::text::{push_str, push_char};
use crate::tui::key::{KeyCode, KeyEvent};
use crate::tui::modal::{KeyDispatch, ModalOutcome, OutcomeView, RenderCtx, dispatch_view};
use crate::tui::state::AppState;
use crate::tui::surface::{
    Line, SpanView, Style, Surface, choice_line, choice_style, colored, span,
};
use crate::tui::theme;
use std::ops::Range;
use vstd::prelude::*;

verus! {

broadcast use vstd::string::group_string_axioms;

pub struct SessionPicker {
    sessions: Vec<SessionMeta>,
    selected: usize,
    active_session_id: Option<String>,
}

pub open spec fn min_nat(a: int, b: int) -> int {
    if a < b {
        a
    } else {
        b
    }
}

/// The rows shown of `total` sessions in a window of `max_rows`: at least one
/// row, and the selection kept in view at the bottom of the window.
pub open spec fn spec_visible_range(total: int, selected: int, max_rows: int) -> (int, int) {
    if total == 0 {
        (0, 0)
    } else {
        let window = if min_nat(max_rows, total) < 1 {
            1
        } else {
            min_nat(max_rows, total)
        };
        let sel = min_nat(selected, total - 1);
        let start = if sel + 1 >= window {
            sel + 1 - window
        } else {
            0
        };
        (start, min_nat(start + window, total))
    }
}

pub open spec fn picker_header() -> Seq<SpanView> {
    seq![span(" sessions · enter resume · esc cancel "@, colored(theme::DIM))]
}

/// One session row: ` >* title`, with `>` on the selected row, `*` on the
/// active session, and `(untitled)` for a session without a title.
pub open spec fn picker_row(meta: SessionMeta, selected: bool, active: bool) -> Seq<SpanView> {
    let title = if meta.title@.len() == 0 {
        "(untitled)"@
    } else {
        meta.title@
    };
    seq![
        span(
            seq![' ', if selected { '>' } else { ' ' }, if active { '*' } else { ' ' }, ' '] + title,
            choice_style(selected),
        ),
    ]
}

impl SessionPicker {
    /// The selection lies within the list, and the list is small enough to
    /// index with `i32`.
    pub closed spec fn wf(&self) -> bool {
        &&& self.sessions@.len() <= i32::MAX
        &&& (if self.sessions@.len() == 0 {
            self.selected == 0
        } else {
            self.selected < self.sessions@.len()
        })
    }

    /// The same sessions and active session.
    pub closed spec fn same_list(&self, other: SessionPicker) -> bool {
        self.sessions == other.sessions && self.active_session_id == other.active_session_id
    }

    pub closed spec fn selected_index(&self) -> nat {
        self.selected as nat
    }

    pub closed spec fn count(&self) -> nat {
        self.sessions@.len()
    }

    pub closed spec fn session_at(&self, i: int) -> SessionMeta {
        self.sessions@[i]
    }

    pub closed spec fn is_active(&self, meta: SessionMeta) -> bool {
        match self.active_session_id {
            Some(id) => id@ == meta.id@,
            None => false,
        }
    }

    pub fn new(sessions: Vec<SessionMeta>, active_session_id: Option<String>) -> (res: Self)
        requires
            sessions@.len() <= i32::MAX,
        ensures
            res.wf(),
            res.selected_index() == 0,
            res.count() == sessions@.len(),
            forall|i: int| 0 <= i < sessions@.len() ==> res.session_at(i) == sessions@[i],
            forall|m: SessionMeta|
                #[trigger] res.is_active(m) <==> (active_session_id matches Some(id) && id@ == m.id@),
    {
        SessionPicker { sessions, selected: 0, active_session_id }
    }

    /// Moves the selection by `delta`, wrapping around the list.
    pub fn move_by(&mut self, delta: i32)
        requires
            old(self).wf(),
            i32::MIN <= old(self).selected_index() + delta <= i32::MAX,
        ensures
            final(self).wf(),
            final(self).count() == old(self).count(),
            final(self).same_list(*old(self)),
            final(self).selected_index() == (if old(self).count() == 0 {
                old(self).selected_index() as int
            } else {
                (old(self).selected_index() + delta) % (old(self).count() as int)
            }),
    {
        let len = self.sessions.len();
        if len == 0 {
            return;
        }
        let m = len as u64;
        if delta >= 0 {
            let x = self.selected as u64 + delta as u64;
            self.selected = (x % m) as usize;
        } else {
            let back = ((-(delta as i64)) as u64) % m;
            let here = self.selected as u64;
            let r = if here >= back {
                here - back
            } else {
                here + m - back
            };
            proof {
                let mi = m as int;
                let nd = -(delta as int);
                let q = nd / mi;
                vstd::arithmetic::div_mod::lemma_fundamental_div_mod(nd, mi);
                assert(nd == mi * q + back);
                let x = here as int + delta as int;
                if here >= back {
                    assert(x == mi * (-q) + r) by (nonlinear_arith)
                        requires
                            x == here + delta,
                            nd == -delta,
                            nd == mi * q + back,
                            r == here - back,
                    ;
                    vstd::arithmetic::div_mod::lemma_mod_multiples_vanish(-q, r as int, mi);
                } else {
                    assert(x == mi * (-q - 1) + r) by (nonlinear_arith)
                        requires
                            x == here + delta,
                            nd == -delta,
                            nd == mi * q + back,
                            r == here + mi - back,
                    ;
                    vstd::arithmetic::div_mod::lemma_mod_multiples_vanish(-q - 1, r as int, mi);
                }
                vstd::arithmetic::div_mod::lemma_small_mod(r as nat, mi as nat);
            }
            self.selected = r as usize;
        }
    }

    pub closed spec fn selected_id_spec(&self) -> Option<Seq<char>> {
        if self.selected < self.sessions@.len() {
            Some(self.sessions@[self.selected as int].id@)
        } else {
            None
        }
    }

    /// The id of the selected session, if there is one.
    pub fn selected_id(&self) -> (res: Option<String>)
        ensures
            match res {
                Some(id) => self.selected_id_spec() == Some(id@),
                None => self.selected_id_spec() is None,
            },
    {
        if self.selected < self.sessions.len() {
            Some(self.sessions[self.selected].id.clone())
        } else {
            None
        }
    }

    /// The indices of the rows shown in a window of `max_rows`.
    pub fn visible_range(&self, max_rows: usize) -> (res: Range<usize>)
        ensures
            (res.start as int, res.end as int) == spec_visible_range(
                self.count() as int,
                self.selected_index() as int,
                max_rows as int,
            ),
            res.start <= res.end <= self.count(),
            res.end - res.start <= (if max_rows == 0 { 1 } else { max_rows as int }),
    {
        let total = self.sessions.len();
        if total == 0 {
            return 0..0;
        }
        let w = if max_rows < total {
            max_rows
        } else {
            total
        };
        let window = if w < 1 {
            1
        } else {
            w
        };
        let selected = if self.selected < total - 1 {
            self.selected
        } else {
            total - 1
        };
        let start = (selected + 1).saturating_sub(window);
        let end = if start + window < total {
            start + window
        } else {
            total
        };
        start..end
    }

    pub closed spec fn render_spec(&self, max_rows: usize) -> Seq<Seq<SpanView>> {
        if self.sessions@.len() == 0 || max_rows < 2 {
            seq![]
        } else {
            let budget = min_nat(max_rows - 1, 20);
            let (start, end) = spec_visible_range(
                self.sessions@.len() as int,
                self.selected as int,
                budget,
            );
            seq![picker_header()] + Seq::new(
                (end - start) as nat,
                |k: int|
                    picker_row(
                        self.sessions@[start + k],
                        start + k == self.selected,
                        self.is_active(self.sessions@[start + k]),
                    ),
            )
        }
    }

    /// Draws the header and the visible rows.
    pub fn render(&self, ctx: RenderCtx<'_>) -> (res: Surface)
        ensures
            res@ == self.render_spec(ctx.max_rows),
            res@.len() <= ctx.max_rows,
    {
        if self.sessions.len() == 0 || ctx.max_rows < 2 {
            return Surface::new();
        }
        let items_budget = if ctx.max_rows - 1 < 20 {
            ctx.max_rows - 1
        } else {
            20
        };
        let selected_index = self.selected;
        let mut surface = Surface::new().line(
            Line::styled(String::from_str(" sessions · enter resume · esc cancel "), Style::fg(theme::DIM)),
        );
        let range = self.visible_range(items_budget);
        let ghost rows = Seq::new(
            (range.end - range.start) as nat,
            |k: int|
                picker_row(
                    self.sessions@[range.start + k],
                    range.start + k == self.selected,
                    self.is_active(self.sessions@[range.start + k]),
                ),
        );
        let mut i = range.start;
        while i < range.end
            invariant
                range.start <= i <= range.end <= self.sessions@.len(),
                selected_index == self.selected,
                surface@ == seq![picker_header()] + rows.take(i - range.start),
                rows.len() == range.end - range.start,
                forall|k: int| 0 <= k < rows.len() ==> #[trigger] rows[k] == picker_row(
                    self.sessions@[range.start + k],
                    range.start + k == self.selected,
                    self.is_active(self.sessions@[range.start + k]),
                ),
            decreases range.end - i,
        {
            let meta = &self.sessions[i];
            let is_selected = i == selected_index;
            let is_active = match &self.active_session_id {
                Some(id) => crate::tui::commands::chars_eq(
                    crate::text::chars_of(id.as_str()).as_slice(),
                    crate::text::chars_of(meta.id.as_str()).as_slice(),
                ),
                None => false,
            };
            let mut text = String::new();
            push_char(&mut text, ' ');
            push_char(&mut text, if is_selected { '>' } else { ' ' });
            push_char(&mut text, if is_active { '*' } else { ' ' });
            push_char(&mut text, ' ');
            if meta.title.as_str().is_empty() {
                push_str(&mut text, "(untitled)");
            } else {
                push_str(&mut text, meta.title.as_str());
            }
            let ghost title = if meta.title@.len() == 0 {
                "(untitled)"@
            } else {
                meta.title@
            };
            assert(text@ =~= seq![' ', if is_selected { '>' } else { ' ' }, if is_active { '*' } else { ' ' }, ' '] + title);
            assert(is_active == self.is_active(self.sessions@[i as int]));
            let line = choice_line(text, is_selected);
            assert(rows[i - range.start] == picker_row(
                self.sessions@[i as int],
                i == self.selected,
                self.is_active(self.sessions@[i as int]),
            ));
            assert(line@ =~= rows[i - range.start]);
            surface.push_line(line);
            assert(rows.take(i - range.start + 1) =~= rows.take(i - range.start).push(
                rows[i - range.start],
            ));
            i += 1;
        }
        assert(rows.take(range.end - range.start) =~= rows);
        surface
    }

    pub closed spec fn key_spec(&self, key: KeyEvent) -> (SessionPicker, OutcomeView) {
        match key.code {
            KeyCode::Char(c) => if c == 'c' && key.ctrl {
                (*self, OutcomeView::Quit)
            } else {
                (*self, OutcomeView::Continue)
            },
            KeyCode::Up => (self.moved(-1), OutcomeView::Continue),
            KeyCode::Down => (self.moved(1), OutcomeView::Continue),
            KeyCode::Enter => match self.selected_id_spec() {
                Some(id) => (*self, OutcomeView::EmitAndClose(CommandView::SwitchSession(id))),
                None => (*self, OutcomeView::Close),
            },
            KeyCode::Esc => (*self, OutcomeView::Close),
            _ => (*self, OutcomeView::Continue),
        }
    }

    /// The picker with the selection moved by `delta`, wrapping around.
    pub closed spec fn moved(&self, delta: int) -> SessionPicker {
        if self.sessions@.len() == 0 {
            *self
        } else {
            SessionPicker {
                selected: ((self.selected + delta) % (self.sessions@.len() as int)) as usize,
                ..*self
            }
        }
    }

    /// Control-C quits, the arrows move the selection, Enter resumes the
    /// selected session, Esc cancels; every key is consumed.
    pub fn handle_key(&mut self, key: KeyEvent, state: &mut AppState) -> (res: KeyDispatch)
        requires
            old(self).wf(),
        ensures
            final(self).wf(),
            dispatch_view(res) == Some(old(self).key_spec(key).1),
            *final(self) == old(self).key_spec(key).0,
            *final(state) == *old(state),
    {
        match key.code {
            KeyCode::Char(c) => {
                if c == 'c' && key.ctrl {
                    KeyDispatch::Consumed(ModalOutcome::Quit)
                } else {
                    KeyDispatch::Consumed(ModalOutcome::Continue)
                }
            },
            KeyCode::Up => {
                self.move_by(-1);
                KeyDispatch::Consumed(ModalOutcome::Continue)
            },
            KeyCode::Down => {
                self.move_by(1);
                KeyDispatch::Consumed(ModalOutcome::Continue)
            },
            KeyCode::Enter => match self.selected_id() {
                Some(id) => KeyDispatch::Consumed(
                    ModalOutcome::EmitAndClose(BackendCommand::SwitchSession(id)),
                ),
                None => KeyDispatch::Consumed(ModalOutcome::Close),
            },
            KeyCode::Esc => KeyDispatch::Consumed(ModalOutcome::Close),
            _ => KeyDispatch::Consumed(ModalOutcome::Continue),
        }
    }
}

} // verus!
