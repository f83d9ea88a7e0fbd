//! The permission prompt: asks whether a tool call may run.
use crate::agent::{
    BackendCommand, CommandView, Decision, DecisionView, PermissionId, ToolCall,
};
use crate::text::{preview, push_char, push_str, three_dots, truncated};
use crate::tui::key::{KeyCode, KeyEvent};
use crate::tui::modal::{KeyDispatch, ModalOutcome, OutcomeView, RenderCtx, dispatch_view};
use crate::tui::state::AppState;
use crate::tui::surface::{Line, SpanView, Style, Surface, colored_bold, span};
use crate::tui::theme;
use vstd::prelude::*;

verus! {

broadcast use vstd::string::group_string_axioms;

pub struct PermissionPromptModal {
    pub id: PermissionId,
    pub call: ToolCall,
}

/// How much of the arguments the prompt shows: the width less twenty
/// columns, kept between twenty and sixty.
pub open spec fn preview_limit(cols: u16) -> nat {
    let room: int = if cols > 20 { cols - 20 } else { 0 };
    if room < 20 {
        20
    } else if room > 60 {
        60
    } else {
        room as nat
    }
}

pub open spec fn denied_by_user() -> Seq<char> {
    "denied by user"@
}

impl PermissionPromptModal {
    pub fn new(id: PermissionId, call: ToolCall) -> (res: Self)
        ensures
            res.id == id,
            res.call == call,
    {
        PermissionPromptModal { id, call }
    }

    /// ` allow name(args)?  y/n `, in bold tool color.
    pub open spec fn render_spec(&self, cols: u16, max_rows: usize) -> Seq<Seq<SpanView>> {
        if max_rows == 0 {
            seq![]
        } else {
            seq![
                seq![
                    span(
                        " allow "@ + self.call.name@ + seq!['('] + truncated(
                            self.call.input@,
                            preview_limit(cols),
                            three_dots(),
                        ) + ")?  y/n "@,
                        colored_bold(theme::TOOL),
                    ),
                ],
            ]
        }
    }

    pub fn render(&self, ctx: RenderCtx<'_>) -> (res: Surface)
        ensures
            res@ == self.render_spec(ctx.cols, ctx.max_rows),
            res@.len() <= ctx.max_rows,
    {
        if ctx.max_rows == 0 {
            return Surface::new();
        }
        let room = ctx.cols.saturating_sub(20) as usize;
        let limit = if room < 20 {
            20
        } else if room > 60 {
            60
        } else {
            room
        };
        let shown = preview(self.call.input.as_str(), limit);
        let mut text = String::from_str(" allow ");
        push_str(&mut text, self.call.name.as_str());
        push_char(&mut text, '(');
        push_str(&mut text, shown.as_str());
        push_str(&mut text, ")?  y/n ");
        assert(limit == preview_limit(ctx.cols));
        assert(text@ =~= " allow "@ + self.call.name@ + seq!['('] + truncated(
            self.call.input@,
            preview_limit(ctx.cols),
            three_dots(),
        ) + ")?  y/n "@);
        let res = Surface::new().line(Line::styled(text, Style::fg(theme::TOOL).bold()));
        assert(res@ =~= self.render_spec(ctx.cols, ctx.max_rows));
        res
    }

    /// Control-C quits; `y` allows; `n` or Esc denies; other keys are
    /// swallowed.
    pub open spec fn key_spec(&self, key: KeyEvent) -> OutcomeView {
        let answer = |d: DecisionView|
            OutcomeView::EmitAndClose(CommandView::PermissionDecision { id: self.id, decision: d });
        match key.code {
            KeyCode::Char(c) => if c == 'c' && key.ctrl {
                OutcomeView::Quit
            } else if c == 'y' || c == 'Y' {
                answer(DecisionView::Allow)
            } else if c == 'n' || c == 'N' {
                answer(DecisionView::Deny(denied_by_user()))
            } else {
                OutcomeView::Continue
            },
            KeyCode::Esc => answer(DecisionView::Deny(denied_by_user())),
            _ => OutcomeView::Continue,
        }
    }

    pub fn handle_key(&mut self, key: KeyEvent, state: &mut AppState) -> (res: KeyDispatch)
        ensures
            dispatch_view(res) == Some(old(self).key_spec(key)),
            *final(self) == *old(self),
            *final(state) == *old(state),
    {
        let decision = match key.code {
            KeyCode::Char(c) => {
                if c == 'c' && key.ctrl {
                    return KeyDispatch::Consumed(ModalOutcome::Quit);
                } else if c == 'y' || c == 'Y' {
                    Decision::Allow
                } else if c == 'n' || c == 'N' {
                    Decision::Deny(String::from_str("denied by user"))
                } else {
                    return KeyDispatch::Consumed(ModalOutcome::Continue);
                }
            },
            KeyCode::Esc => Decision::Deny(String::from_str("denied by user")),
            _ => return KeyDispatch::Consumed(ModalOutcome::Continue),
        };
        KeyDispatch::Consumed(
            ModalOutcome::EmitAndClose(BackendCommand::PermissionDecision { id: self.id, decision }),
        )
    }
}

} // verus!
