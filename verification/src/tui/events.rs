//! What the interface does with the backend's reports: it prints them into
//! the scrollback, above the prompt, and updates its state.
use crate::agent::{BackendEvent, Message};
use crate::text::{push_str, sat_sub};
use crate::tui::ansi::{Ansi, AnsiView, ansi_ok, move_to, move_to_seq};
use crate::tui::entry::{Entry, EntryView, entries_from_message, entries_view, is_chat, message_entries};
use crate::tui::modal::TakeoverModal;
use crate::tui::permission::PermissionPromptModal;
use crate::tui::picker::SessionPicker;
use crate::tui::print::{print_entry, print_entry_spec, print_separator, print_separator_spec};
use crate::tui::prompt::{Prompt, clear_output, repeat_crlf};
use crate::tui::state::{
    AppState, SessionState, chat_messages, queue_of, same_ui, spec_turn_started, state_wf,
};
use vstd::prelude::*;

verus! {

broadcast use vstd::string::group_string_axioms;

// ---------------------------------------------------------------------------
// Specifications
// ---------------------------------------------------------------------------

/// The chat entries among the first `n`.
pub open spec fn chat_entries(es: Seq<EntryView>, n: int) -> nat
    decreases n,
{
    if n <= 0 {
        0
    } else {
        chat_entries(es, n - 1) + if is_chat(es[n - 1]) {
            1nat
        } else {
            0nat
        }
    }
}

/// The first `n` entries printed one after another, the prompt wiped before
/// each; only the first wipe moves the cursor up, the prompt being gone
/// after it.
pub open spec fn emit_all(a: AnsiView, offset: u16, es: Seq<EntryView>, cols: u16, n: int) -> Seq<char>
    decreases n,
{
    if n <= 0 {
        seq![]
    } else {
        emit_all(a, offset, es, cols, n - 1) + clear_output(if n == 1 { offset } else { 0 })
            + print_entry_spec(a, es[n - 1], cols)
    }
}

/// Entries printed above the prompt.
pub open spec fn emitted(a: AnsiView, offset: u16, es: Seq<EntryView>, cols: u16) -> Seq<char> {
    emit_all(a, offset, es, cols, es.len() as int)
}

/// The first `n` entries printed one after another.
pub open spec fn print_all(a: AnsiView, es: Seq<EntryView>, cols: u16, n: int) -> Seq<char>
    decreases n,
{
    if n <= 0 {
        seq![]
    } else {
        print_all(a, es, cols, n - 1) + print_entry_spec(a, es[n - 1], cols)
    }
}

/// The entries of the first `n` messages of a history, printed.
pub open spec fn print_messages(a: AnsiView, h: Seq<Message>, cols: u16, n: int) -> Seq<char>
    decreases n,
{
    if n <= 0 {
        seq![]
    } else {
        let es = message_entries(h[n - 1]);
        print_messages(a, h, cols, n - 1) + print_all(a, es, cols, es.len() as int)
    }
}

/// A history printed: nothing for an empty one; else the prompt wiped, then
/// every entry of every message.
pub open spec fn history_output(a: AnsiView, offset: u16, h: Seq<Message>, cols: u16) -> Seq<char> {
    if h.len() == 0 {
        seq![]
    } else {
        clear_output(offset) + print_messages(a, h, cols, h.len() as int)
    }
}

/// Setting the session left apart: the prompt wiped, then, for a fresh
/// session, enough new lines to push the visible chat into the scrollback
/// and the cursor put home; for a session with a history, a rule.
pub open spec fn separation_output(a: AnsiView, offset: u16, fresh: bool, rows: u16) -> Seq<char> {
    clear_output(offset) + if fresh {
        repeat_crlf(sat_sub(rows as int, 1)) + move_to_seq(0, 0)
    } else {
        print_separator_spec(a)
    }
}

/// What a change of session prints; `initial` when no session was shown
/// before.
pub open spec fn session_changed_output(
    a: AnsiView,
    offset: u16,
    initial: bool,
    h: Seq<Message>,
    term: (u16, u16),
) -> Seq<char> {
    if initial {
        history_output(a, offset, h, term.0)
    } else {
        separation_output(a, offset, h.len() == 0, term.1) + history_output(a, 0, h, term.0)
    }
}

pub open spec fn no_sessions_text() -> Seq<char> {
    "No saved sessions yet. Send a message to start one."@
}

pub open spec fn list_sessions_error(e: Seq<char>) -> Seq<char> {
    "list sessions: "@ + e
}

/// What an event prints, for a prompt `offset` rows below its top row and a
/// terminal `term` in size; `initial` when no session was shown before.
pub open spec fn event_output(
    a: AnsiView,
    offset: u16,
    initial: bool,
    e: BackendEvent,
    term: (u16, u16),
) -> Seq<char> {
    match e {
        BackendEvent::Message(m) => if m is User {
            seq![]
        } else {
            emitted(a, offset, message_entries(m), term.0)
        },
        BackendEvent::PermissionRequest { .. } => seq![],
        BackendEvent::TurnStarted => seq![],
        BackendEvent::TurnError(t) => emitted(a, offset, seq![EntryView::Error(t@)], term.0),
        BackendEvent::TurnDone => seq![],
        BackendEvent::SessionChanged { meta, history } => session_changed_output(
            a,
            offset,
            initial,
            history@,
            term,
        ),
        BackendEvent::SessionsListed(Ok(s)) => if s@.len() == 0 {
            emitted(a, offset, seq![EntryView::Assistant(no_sessions_text())], term.0)
        } else {
            seq![]
        },
        BackendEvent::SessionsListed(Err(t)) => emitted(
            a,
            offset,
            seq![EntryView::Error(list_sessions_error(t@))],
            term.0,
        ),
        BackendEvent::SessionError(t) => emitted(a, offset, seq![EntryView::Error(t@)], term.0),
    }
}

/// Whether an event wipes the prompt (which leaves the cursor on the
/// prompt's top row).
pub open spec fn event_wipes(initial: bool, e: BackendEvent) -> bool {
    match e {
        BackendEvent::Message(m) => !(m is User) && message_entries(m).len() > 0,
        BackendEvent::TurnError(_) => true,
        BackendEvent::SessionChanged { history, .. } => !initial || history@.len() > 0,
        BackendEvent::SessionsListed(Ok(s)) => s@.len() == 0,
        BackendEvent::SessionsListed(Err(_)) => true,
        BackendEvent::SessionError(_) => true,
        _ => false,
    }
}

/// The session's message count grown by `k`, if there is a session.
pub open spec fn counted(s0: Option<SessionState>, s1: Option<SessionState>, k: nat) -> bool {
    match s0 {
        Some(x) => s1 matches Some(y) && y.id == x.id && y.model == x.model && y.message_count
            == x.message_count + k,
        None => s1 is None,
    }
}

/// All but the modal is as it was.
pub open spec fn same_but_modal(s0: AppState, s1: AppState) -> bool {
    &&& s1.input == s0.input
    &&& s1.palette_index == s0.palette_index
    &&& s1.overlay == s0.overlay
    &&& s1.directory_label == s0.directory_label
    &&& s1.session == s0.session
    &&& s1.turn == s0.turn
}

/// A session picker over `sessions`, the first selected, marking the
/// session shown (if any).
pub open spec fn picker_over(m: Option<TakeoverModal>, sessions: Seq<crate::agent::SessionMeta>, shown: Option<SessionState>) -> bool {
    match m {
        Some(TakeoverModal::Picker(p)) => {
            &&& p.wf()
            &&& p.selected_index() == 0
            &&& p.count() == sessions.len()
            &&& forall|i: int| 0 <= i < sessions.len() ==> p.session_at(i) == sessions[i]
            &&& forall|meta: crate::agent::SessionMeta|
                #[trigger] p.is_active(meta) <==> (shown matches Some(x) && x.id@ == meta.id@)
        },
        _ => false,
    }
}

/// What an event does to the state.
pub open spec fn event_state(s0: AppState, s1: AppState, e: BackendEvent) -> bool {
    match e {
        BackendEvent::Message(m) => {
            let es = message_entries(m);
            &&& same_ui(s0, s1)
            &&& s1.turn == s0.turn
            &&& counted(
                s0.session,
                s1.session,
                if m is User {
                    0
                } else {
                    chat_entries(es, es.len() as int)
                },
            )
        },
        BackendEvent::PermissionRequest { id, call } => {
            &&& same_but_modal(s0, s1)
            &&& s1.modal == Some(TakeoverModal::Permission(PermissionPromptModal { id, call }))
        },
        BackendEvent::TurnStarted => {
            &&& same_ui(s0, s1)
            &&& s1.session == s0.session
            &&& queue_of(s1.turn) == spec_turn_started(queue_of(s0.turn))
            &&& s0.turn is Some ==> s1.turn->0.started_at == s0.turn->0.started_at
            &&& (s0.turn matches Some(t) && t.queued == 0) ==> s1.turn == s0.turn
        },
        BackendEvent::TurnDone => {
            &&& same_ui(s0, s1)
            &&& s1.session == s0.session
            &&& s1.turn is None
        },
        BackendEvent::SessionChanged { meta, history } => {
            &&& same_ui(s0, s1)
            &&& s1.turn == s0.turn
            &&& s1.session matches Some(x) && x.id@ == meta.id@ && x.model@ == meta.model@
                && x.message_count == chat_messages(history@, history@.len() as int)
        },
        BackendEvent::SessionsListed(Ok(s)) => if s@.len() == 0 {
            s1 == s0
        } else {
            &&& same_but_modal(s0, s1)
            &&& picker_over(s1.modal, s@, s0.session)
        },
        _ => s1 == s0,
    }
}

// ---------------------------------------------------------------------------
// Lemmas
// ---------------------------------------------------------------------------

proof fn lemma_chat_entries_bounded(es: Seq<EntryView>, n: int)
    ensures
        chat_entries(es, n) <= if n < 0 { 0 } else { n },
    decreases n,
{
    if n > 0 {
        lemma_chat_entries_bounded(es, n - 1);
    }
}

proof fn lemma_chat_entries_monotonic(es: Seq<EntryView>, i: int, n: int)
    requires
        i <= n,
    ensures
        chat_entries(es, i) <= chat_entries(es, n),
    decreases n - i,
{
    if i < n {
        lemma_chat_entries_monotonic(es, i, n - 1);
    }
}

/// A message shows at most one chat entry: tool calls are not chat.
proof fn lemma_message_chat_entries(m: Message, n: int)
    requires
        0 <= n <= message_entries(m).len(),
    ensures
        chat_entries(message_entries(m), n) <= 1,
    decreases n,
{
    let es = message_entries(m);
    match m {
        Message::Assistant { text, tool_calls } => {
            let head_len: int = if text@.len() > 0 { 1 } else { 0 };
            if n <= head_len {
                lemma_chat_entries_bounded(es, n);
            } else {
                assert(!is_chat(es[n - 1]));
                lemma_message_chat_entries(m, n - 1);
            }
        },
        _ => {
            lemma_chat_entries_bounded(es, n);
        },
    }
}

// ---------------------------------------------------------------------------
// Handling
// ---------------------------------------------------------------------------

/// Wipes the prompt and prints an entry in its place.
pub fn emit_entry(out: &mut String, prompt: &mut Prompt, ansi: &Ansi, entry: &Entry, cols: u16)
    requires
        ansi_ok(ansi@),
    ensures
        final(out)@ == old(out)@ + clear_output(old(prompt).cursor_offset_from_top)
            + print_entry_spec(ansi@, entry@, cols),
        final(prompt).cursor_offset_from_top == 0,
{
    prompt.clear(out);
    print_entry(out, ansi, entry, cols);
}

/// Prints entries above the prompt, counting the chat ones in the session.
fn emit_entries(
    out: &mut String,
    prompt: &mut Prompt,
    ansi: &Ansi,
    state: &mut AppState,
    entries: Vec<Entry>,
    cols: u16,
)
    requires
        ansi_ok(ansi@),
        old(state).session is Some ==> old(state).session->0.message_count + chat_entries(
            entries_view(entries@),
            entries@.len() as int,
        ) <= usize::MAX,
    ensures
        final(out)@ == old(out)@ + emitted(
            ansi@,
            old(prompt).cursor_offset_from_top,
            entries_view(entries@),
            cols,
        ),
        final(prompt).cursor_offset_from_top == if entries@.len() > 0 {
            0
        } else {
            old(prompt).cursor_offset_from_top
        },
        same_ui(*old(state), *final(state)),
        final(state).turn == old(state).turn,
        counted(
            old(state).session,
            final(state).session,
            chat_entries(entries_view(entries@), entries@.len() as int),
        ),
{
    let ghost es = entries_view(entries@);
    let ghost start = out@;
    let ghost offset = prompt.cursor_offset_from_top;
    let ghost s0 = *state;
    let mut i: usize = 0;
    while i < entries.len()
        invariant
            i <= entries@.len(),
            ansi_ok(ansi@),
            es == entries_view(entries@),
            s0.session is Some ==> s0.session->0.message_count + chat_entries(es, es.len() as int)
                <= usize::MAX,
            out@ == start + emit_all(ansi@, offset, es, cols, i as int),
            prompt.cursor_offset_from_top == if i > 0 {
                0
            } else {
                offset
            },
            same_ui(s0, *state),
            state.turn == s0.turn,
            counted(s0.session, state.session, chat_entries(es, i as int)),
        decreases entries@.len() - i,
    {
        let entry = &entries[i];
        assert(es[i as int] == entry@);
        if entry.is_chat() {
            proof {
                lemma_chat_entries_monotonic(es, i + 1, es.len() as int);
            }
            state.record_chat_message();
        }
        emit_entry(out, prompt, ansi, entry, cols);
        i += 1;
    }
}

/// Prints every entry of a history.
fn print_history(out: &mut String, prompt: &mut Prompt, ansi: &Ansi, history: Vec<Message>, cols: u16)
    requires
        ansi_ok(ansi@),
    ensures
        final(out)@ == old(out)@ + history_output(
            ansi@,
            old(prompt).cursor_offset_from_top,
            history@,
            cols,
        ),
        final(prompt).cursor_offset_from_top == if history@.len() > 0 {
            0
        } else {
            old(prompt).cursor_offset_from_top
        },
{
    if history.len() == 0 {
        return;
    }
    let ghost h = history@;
    let ghost start = out@;
    prompt.clear(out);
    let ghost after_clear = out@;
    let n = history.len();
    let mut rest = history;
    let mut i: usize = 0;
    while i < n
        invariant
            i <= n == h.len(),
            ansi_ok(ansi@),
            rest@ == h.skip(i as int),
            out@ == after_clear + print_messages(ansi@, h, cols, i as int),
        decreases n - i,
    {
        let message = rest.remove(0);
        assert(rest@ =~= h.skip(i + 1));
        assert(message == h[i as int]);
        let entries = entries_from_message(message);
        let ghost es = entries_view(entries@);
        let ghost before = out@;
        let mut j: usize = 0;
        while j < entries.len()
            invariant
                j <= entries@.len(),
                ansi_ok(ansi@),
                es == entries_view(entries@),
                out@ == before + print_all(ansi@, es, cols, j as int),
            decreases entries@.len() - j,
        {
            assert(es[j as int] == entries@[j as int]@);
            print_entry(out, ansi, &entries[j], cols);
            j += 1;
        }
        i += 1;
    }
    assert(out@ =~= start + history_output(ansi@, old(prompt).cursor_offset_from_top, h, cols));
}

/// Pushes the visible chat into the scrollback, then puts the cursor home so
/// that the next prompt is drawn at the top.
fn scroll_visible_chat_into_scrollback(out: &mut String, rows: u16)
    ensures
        final(out)@ == old(out)@ + repeat_crlf(sat_sub(rows as int, 1)) + move_to_seq(0, 0),
{
    let ghost start = out@;
    let n = rows.saturating_sub(1);
    let mut i: u16 = 0;
    while i < n
        invariant
            i <= n,
            n == sat_sub(rows as int, 1),
            out@ == start + repeat_crlf(i as nat),
        decreases n - i,
    {
        push_str(out, "\r\n");
        proof {
            reveal_strlit("\r\n");
        }
        i += 1;
    }
    push_str(out, move_to(0, 0).as_str());
}

/// Sets the session left apart from the one coming.
pub fn separate_previous_session(out: &mut String, prompt: &mut Prompt, ansi: &Ansi, fresh: bool, rows: u16)
    requires
        ansi_ok(ansi@),
    ensures
        final(out)@ == old(out)@ + separation_output(
            ansi@,
            old(prompt).cursor_offset_from_top,
            fresh,
            rows,
        ),
        final(prompt).cursor_offset_from_top == 0,
{
    let ghost start = out@;
    prompt.clear(out);
    if fresh {
        scroll_visible_chat_into_scrollback(out, rows);
    } else {
        print_separator(out, ansi);
    }
    assert(out@ =~= start + separation_output(ansi@, old(prompt).cursor_offset_from_top, fresh, rows));
}

/// Shows another session: records it, sets the previous one apart, and
/// prints its history.
fn handle_session_changed(
    out: &mut String,
    prompt: &mut Prompt,
    ansi: &Ansi,
    state: &mut AppState,
    meta: crate::agent::SessionMeta,
    history: Vec<Message>,
    term: (u16, u16),
)
    requires
        ansi_ok(ansi@),
    ensures
        final(out)@ == old(out)@ + session_changed_output(
            ansi@,
            old(prompt).cursor_offset_from_top,
            old(state).session is None,
            history@,
            term,
        ),
        final(prompt).cursor_offset_from_top == if old(state).session is Some || history@.len() > 0 {
            0
        } else {
            old(prompt).cursor_offset_from_top
        },
        same_ui(*old(state), *final(state)),
        final(state).turn == old(state).turn,
        final(state).session matches Some(x) && x.id@ == meta.id@ && x.model@ == meta.model@
            && x.message_count == chat_messages(history@, history@.len() as int),
{
    let ghost start = out@;
    let is_initial = state.session.is_none();
    state.set_session(meta, history.as_slice());
    if !is_initial {
        separate_previous_session(out, prompt, ansi, history.len() == 0, term.1);
    }
    let ghost mid = out@;
    print_history(out, prompt, ansi, history, term.0);
    assert(out@ =~= start + session_changed_output(
        ansi@,
        old(prompt).cursor_offset_from_top,
        is_initial,
        history@,
        term,
    ));
}

/// Prints a message's entries above the prompt, counting the chat ones; a
/// user's message is left out, as it was printed when it was submitted.
fn handle_message(
    out: &mut String,
    prompt: &mut Prompt,
    ansi: &Ansi,
    state: &mut AppState,
    message: Message,
    cols: u16,
)
    requires
        ansi_ok(ansi@),
        state_wf(*old(state)),
        old(state).session is Some ==> old(state).session->0.message_count < usize::MAX,
    ensures
        state_wf(*final(state)),
        event_state(*old(state), *final(state), BackendEvent::Message(message)),
        final(out)@ == old(out)@ + if message is User {
            seq![]
        } else {
            emitted(ansi@, old(prompt).cursor_offset_from_top, message_entries(message), cols)
        },
        final(prompt).cursor_offset_from_top == if !(message is User) && message_entries(
            message,
        ).len() > 0 {
            0
        } else {
            old(prompt).cursor_offset_from_top
        },
{
    if message.is_user() {
        return;
    }
    let ghost m = message;
    let entries = entries_from_message(message);
    proof {
        lemma_message_chat_entries(m, message_entries(m).len() as int);
    }
    emit_entries(out, prompt, ansi, state, entries, cols);
}

/// Handles a report of the backend: prints what it carries above the prompt
/// and updates the state. A user's message is not printed again: it was
/// printed when it was submitted.
pub fn handle_backend_event(
    out: &mut String,
    prompt: &mut Prompt,
    ansi: &Ansi,
    state: &mut AppState,
    event: BackendEvent,
    term: (u16, u16),
)
    requires
        ansi_ok(ansi@),
        state_wf(*old(state)),
        old(state).session is Some ==> old(state).session->0.message_count < usize::MAX,
        event matches BackendEvent::SessionsListed(Ok(s)) ==> s@.len() <= i32::MAX,
    ensures
        state_wf(*final(state)),
        event_state(*old(state), *final(state), event),
        final(out)@ == old(out)@ + event_output(
            ansi@,
            old(prompt).cursor_offset_from_top,
            old(state).session is None,
            event,
            term,
        ),
        final(prompt).cursor_offset_from_top == if event_wipes(old(state).session is None, event) {
            0
        } else {
            old(prompt).cursor_offset_from_top
        },
{
    let ghost offset = prompt.cursor_offset_from_top;
    match event {
        BackendEvent::Message(message) => {
            handle_message(out, prompt, ansi, state, message, term.0);
        },
        BackendEvent::PermissionRequest { id, call } => {
            state.modal = Some(TakeoverModal::Permission(PermissionPromptModal::new(id, call)));
        },
        BackendEvent::TurnStarted => {
            state.turn_started_by_backend();
        },
        BackendEvent::TurnError(error) => {
            let entry = Entry::Error(error);
            emit_entry(out, prompt, ansi, &entry, term.0);
            proof {
                let es = seq![entry@];
                assert(emit_all(ansi@, offset, es, term.0, 0) == Seq::<char>::empty());
            }
        },
        BackendEvent::TurnDone => {
            state.turn = None;
        },
        BackendEvent::SessionChanged { meta, history } => {
            handle_session_changed(out, prompt, ansi, state, meta, history, term);
        },
        BackendEvent::SessionsListed(Ok(sessions)) => {
            if sessions.len() == 0 {
                let entry = Entry::Assistant(
                    String::from_str("No saved sessions yet. Send a message to start one."),
                );
                emit_entry(out, prompt, ansi, &entry, term.0);
                proof {
                    assert(emit_all(ansi@, offset, seq![entry@], term.0, 0) == Seq::<char>::empty());
                }
            } else {
                let active_id = match &state.session {
                    Some(s) => Some(s.id.clone()),
                    None => None,
                };
                state.modal = Some(TakeoverModal::Picker(SessionPicker::new(sessions, active_id)));
            }
        },
        BackendEvent::SessionsListed(Err(error)) => {
            let mut text = String::from_str("list sessions: ");
            push_str(&mut text, error.as_str());
            let entry = Entry::Error(text);
            emit_entry(out, prompt, ansi, &entry, term.0);
            proof {
                assert(emit_all(ansi@, offset, seq![entry@], term.0, 0) == Seq::<char>::empty());
            }
        },
        BackendEvent::SessionError(error) => {
            let entry = Entry::Error(error);
            emit_entry(out, prompt, ansi, &entry, term.0);
            proof {
                assert(emit_all(ansi@, offset, seq![entry@], term.0, 0) == Seq::<char>::empty());
            }
        },
    }
}

} // verus!
