//! What the interface knows: the input, the session, the open modal, and the
//! turn in progress with the submissions queued behind it.
use crate::agent::{Message, SessionMeta};
use crate::tui::input::{InputBuffer, empty_input, input_wf};
use crate::tui::modal::TakeoverModal;
use crate::tui::palette::CommandPalette;
use std::time::Instant;
use vstd::prelude::*;

verus! {

#[verifier::external_type_specification]
#[verifier::external_body]
pub struct ExInstant(Instant);

/// `Instant::now`: the current time. Nothing is known of it.
#[verifier::external_body]
pub fn now() -> Instant {
    Instant::now()
}

/// `Instant::elapsed`, in milliseconds. It depends on the clock.
#[verifier::external_body]
pub fn elapsed_millis(t: &Instant) -> u128 {
    t.elapsed().as_millis()
}

/// `Instant::elapsed`, in whole seconds. It depends on the clock.
#[verifier::external_body]
pub fn elapsed_secs(t: &Instant) -> u64 {
    t.elapsed().as_secs()
}

pub struct TurnState {
    pub started_at: Instant,
    pub queued: usize,
}

pub struct SessionState {
    pub id: String,
    pub model: String,
    pub message_count: usize,
}

pub struct AppState {
    pub input: InputBuffer,
    pub palette_index: usize,
    pub session: Option<SessionState>,
    pub modal: Option<TakeoverModal>,
    pub overlay: Option<CommandPalette>,
    pub turn: Option<TurnState>,
    pub directory_label: String,
}

/// Whether a message is part of the chat proper.
pub open spec fn is_chat_message(m: Message) -> bool {
    m is User || m is Assistant
}

/// The chat messages among the first `n` of a history.
pub open spec fn chat_messages(h: Seq<Message>, n: int) -> nat
    decreases n,
{
    if n <= 0 {
        0
    } else {
        chat_messages(h, n - 1) + if is_chat_message(h[n - 1]) {
            1nat
        } else {
            0nat
        }
    }
}

/// Everything the user sees but the session and the turn is as it was: the
/// input, the palette, the modal and the overlay, the directory.
pub open spec fn same_ui(a: AppState, b: AppState) -> bool {
    &&& b.input == a.input
    &&& b.palette_index == a.palette_index
    &&& b.modal == a.modal
    &&& b.overlay == a.overlay
    &&& b.directory_label == a.directory_label
}

/// The state's invariant: the input's cursor lies in its text, and the open
/// modal and the overlay are well formed.
pub open spec fn state_wf(s: AppState) -> bool {
    &&& input_wf(s.input@)
    &&& s.modal is Some ==> s.modal->0.wf()
    &&& s.overlay is Some ==> s.overlay->0.wf()
}

/// The number of submissions waiting behind the current turn, if a turn is
/// in progress.
pub open spec fn queue_of(turn: Option<TurnState>) -> Option<nat> {
    match turn {
        Some(t) => Some(t.queued as nat),
        None => None,
    }
}

/// Local input was submitted: a turn starts, or the input queues behind the
/// current one.
pub open spec fn spec_turn_submitted(q: Option<nat>) -> Option<nat> {
    match q {
        Some(n) => Some(n + 1),
        None => Some(0),
    }
}

/// The backend picked up a turn: one queued submission leaves the queue, or a
/// turn starts when none was known.
pub open spec fn spec_turn_started(q: Option<nat>) -> Option<nat> {
    match q {
        Some(n) => if n > 0 {
            Some((n - 1) as nat)
        } else {
            Some(0)
        },
        None => Some(0),
    }
}

/// The chat messages in a history.
pub fn count_chat_messages(history: &[Message]) -> (res: usize)
    ensures
        res == chat_messages(history@, history@.len() as int),
{
    let mut n: usize = 0;
    let mut i: usize = 0;
    while i < history.len()
        invariant
            i <= history@.len(),
            n == chat_messages(history@, i as int),
            n <= i,
        decreases history@.len() - i,
    {
        match &history[i] {
            Message::User(_) | Message::Assistant { .. } => {
                n += 1;
            },
            _ => {},
        }
        i += 1;
    }
    n
}

impl AppState {
    /// A fresh state for a working directory shown as `directory_label`:
    /// nothing typed, no session, no modal, the command palette installed, no
    /// turn.
    pub fn new(directory_label: String) -> (res: Self)
        ensures
            res.input@ == empty_input(),
            res.session is None,
            res.modal is None,
            res.overlay is Some,
            res.overlay->0.wf(),
            res.turn is None,
            res.directory_label@ == directory_label@,
            state_wf(res),
    {
        AppState {
            input: InputBuffer::default(),
            palette_index: 0,
            session: None,
            modal: None,
            overlay: Some(CommandPalette::default()),
            turn: None,
            directory_label,
        }
    }

    /// A turn is in progress.
    pub fn is_busy(&self) -> (res: bool)
        ensures
            res == self.turn is Some,
    {
        self.turn.is_some()
    }

    pub fn has_session(&self) -> (res: bool)
        ensures
            res == self.session is Some,
    {
        self.session.is_some()
    }

    /// Records the session now shown, with the chat messages of its history.
    pub fn set_session(&mut self, meta: SessionMeta, history: &[Message])
        ensures
            final(self).session is Some,
            final(self).session->0.id@ == meta.id@,
            final(self).session->0.model@ == meta.model@,
            final(self).session->0.message_count == chat_messages(history@, history@.len() as int),
            same_ui(*old(self), *final(self)),
            final(self).turn == old(self).turn,
    {
        let count = count_chat_messages(history);
        self.session = Some(SessionState { id: meta.id, model: meta.model, message_count: count });
    }

    /// Counts one more chat message in the session, if there is one.
    pub fn record_chat_message(&mut self)
        requires
            old(self).session is Some ==> old(self).session->0.message_count < usize::MAX,
        ensures
            match old(self).session {
                Some(s) => final(self).session is Some && final(self).session->0.message_count
                    == s.message_count + 1 && final(self).session->0.id == s.id
                    && final(self).session->0.model == s.model,
                None => final(self).session is None,
            },
            same_ui(*old(self), *final(self)),
            final(self).turn == old(self).turn,
    {
        match &mut self.session {
            Some(session) => {
                session.message_count = session.message_count + 1;
            },
            None => {},
        }
    }

    /// Local input was submitted: start a turn, or queue behind the current
    /// one.
    pub fn turn_submitted(&mut self)
        requires
            queue_of(old(self).turn) is Some ==> queue_of(old(self).turn)->0 < usize::MAX,
        ensures
            queue_of(final(self).turn) == spec_turn_submitted(queue_of(old(self).turn)),
            old(self).turn is Some ==> final(self).turn->0.started_at == old(self).turn->0.started_at,
            same_ui(*old(self), *final(self)),
            final(self).session == old(self).session,
    {
        match &mut self.turn {
            Some(turn) => {
                turn.queued = turn.queued + 1;
            },
            None => {
                self.turn = Some(TurnState { started_at: now(), queued: 0 });
            },
        }
    }

    /// The backend picked up a turn: take one from the queue, or start timing
    /// if this is the first turn seen (as when resuming).
    pub fn turn_started_by_backend(&mut self)
        ensures
            queue_of(final(self).turn) == spec_turn_started(queue_of(old(self).turn)),
            old(self).turn is Some ==> final(self).turn->0.started_at == old(self).turn->0.started_at,
            (old(self).turn matches Some(t) && t.queued == 0) ==> final(self).turn == old(self).turn,
            same_ui(*old(self), *final(self)),
            final(self).session == old(self).session,
    {
        match &mut self.turn {
            Some(turn) => {
                if turn.queued > 0 {
                    turn.queued = turn.queued - 1;
                }
            },
            None => {
                self.turn = Some(TurnState { started_at: now(), queued: 0 });
            },
        }
    }
}

/// A submission that queued behind a turn leaves the queue when the backend
/// picks it up: the queue is back where it was.
pub proof fn law_submit_then_start_restores_queue(q: Option<nat>)
    requires
        q is Some,
    ensures
        spec_turn_started(spec_turn_submitted(q)) == q,
{
}

/// Whatever happens, once anything was submitted or started a turn is in
/// progress.
pub proof fn law_turn_in_progress_after_activity(q: Option<nat>)
    ensures
        spec_turn_submitted(q) is Some,
        spec_turn_started(q) is Some,
{
}

} // verus!
