//! Overlays that take part in drawing and key handling. A takeover modal
//! (the permission prompt or the session picker) receives every key while it
//! is open; the ambient overlay (the command palette) handles navigation keys
//! and passes the rest on.
use crate::agent::{BackendCommand, CommandView, command_view};
use crate::tui::entry::{Entry, EntryView};
use crate::tui::key::KeyEvent;
use crate::tui::permission::PermissionPromptModal;
use crate::tui::picker::SessionPicker;
use crate::tui::state::AppState;
use crate::tui::surface::{SpanView, Surface};
use vstd::prelude::*;

verus! {

#[derive(Clone, Copy, PartialEq, Eq, Structural)]
pub enum ModalSlot {
    /// Replaces the input row.
    Input,
    /// Drawn in the panel between the input and the status row.
    Panel,
}

pub enum ModalOutcome {
    /// Stay open; nothing else happens.
    Continue,
    /// Close the takeover modal.
    Close,
    /// Quit the application.
    Quit,
    /// Send a command to the backend and stay open.
    Emit(BackendCommand),
    /// Send a command to the backend and close the takeover modal.
    EmitAndClose(BackendCommand),
    /// Print an entry to the scrollback and stay open.
    Print(Entry),
}

/// An outcome as values.
pub enum OutcomeView {
    Continue,
    Close,
    Quit,
    Emit(CommandView),
    EmitAndClose(CommandView),
    Print(EntryView),
}

pub open spec fn outcome_view(o: ModalOutcome) -> OutcomeView {
    match o {
        ModalOutcome::Continue => OutcomeView::Continue,
        ModalOutcome::Close => OutcomeView::Close,
        ModalOutcome::Quit => OutcomeView::Quit,
        ModalOutcome::Emit(c) => OutcomeView::Emit(command_view(c)),
        ModalOutcome::EmitAndClose(c) => OutcomeView::EmitAndClose(command_view(c)),
        ModalOutcome::Print(e) => OutcomeView::Print(e@),
    }
}

/// A dispatch as values: the outcome of a consumed key, or nothing when the
/// key passes through.
pub open spec fn dispatch_view(d: KeyDispatch) -> Option<OutcomeView> {
    match d {
        KeyDispatch::Consumed(o) => Some(outcome_view(o)),
        KeyDispatch::PassThrough => None,
    }
}

pub enum KeyDispatch {
    Consumed(ModalOutcome),
    /// Not claimed: default handling goes on.
    PassThrough,
}

/// What the panel has to work with when drawing.
pub struct RenderCtx<'a> {
    pub cols: u16,
    pub max_rows: usize,
    pub state: &'a AppState,
}

/// The modal that takes every key while open.
pub enum TakeoverModal {
    Picker(SessionPicker),
    Permission(PermissionPromptModal),
}

impl TakeoverModal {
    pub fn slot(&self) -> (res: ModalSlot)
        ensures
            res == ModalSlot::Panel,
    {
        ModalSlot::Panel
    }

    /// Takeover modals always show.
    pub fn is_visible(&self, state: &AppState) -> (res: bool)
        ensures
            res,
    {
        true
    }

    pub closed spec fn render_spec(&self, cols: u16, max_rows: usize) -> Seq<Seq<SpanView>> {
        match self {
            TakeoverModal::Picker(p) => p.render_spec(max_rows),
            TakeoverModal::Permission(m) => m.render_spec(cols, max_rows),
        }
    }

    pub fn render(&self, ctx: RenderCtx<'_>) -> (res: Surface)
        ensures
            res@ == self.render_spec(ctx.cols, ctx.max_rows),
            res@.len() <= ctx.max_rows,
    {
        match self {
            TakeoverModal::Picker(p) => p.render(ctx),
            TakeoverModal::Permission(m) => m.render(ctx),
        }
    }

    pub closed spec fn key_spec(&self, key: KeyEvent) -> (TakeoverModal, OutcomeView) {
        match self {
            TakeoverModal::Picker(p) => {
                let (q, o) = p.key_spec(key);
                (TakeoverModal::Picker(q), o)
            },
            TakeoverModal::Permission(m) => (TakeoverModal::Permission(*m), m.key_spec(key)),
        }
    }

    /// Handles a key: a takeover modal consumes every key.
    pub fn handle_key(&mut self, key: KeyEvent, state: &mut AppState) -> (res: KeyDispatch)
        requires
            old(self).wf(),
        ensures
            final(self).wf(),
            dispatch_view(res) == Some(old(self).key_spec(key).1),
            *final(self) == old(self).key_spec(key).0,
            *final(state) == *old(state),
    {
        match self {
            TakeoverModal::Picker(p) => p.handle_key(key, state),
            TakeoverModal::Permission(m) => m.handle_key(key, state),
        }
    }

    pub open spec fn wf(&self) -> bool {
        match self {
            TakeoverModal::Picker(p) => p.wf(),
            TakeoverModal::Permission(_) => true,
        }
    }
}

} // verus!
