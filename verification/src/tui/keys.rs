//! What the interface does with the user's keys and pastes. The open
//! takeover modal takes every key; otherwise the command palette may claim
//! one; the input handles the rest. Commands for the backend are collected
//! for the caller to send.
use crate::agent::{BackendCommand, CommandView, command_view};
use crate::text::{all_ws, chars_of, push_str, slice_chars, string_of};
use crate::tui::ansi::{Ansi, AnsiView, ClearKind, ansi_ok, clear, clear_seq, move_to, move_to_seq};
use crate::tui::commands::{dispatch_outcome, spec_dispatch_outcome};
use crate::tui::entry::{Entry, EntryView};
use crate::tui::events::{counted, emit_entry};
use crate::tui::input::{
    InputState, empty_input, spec_backspace, spec_insert_char, spec_insert_str, spec_move_left,
    spec_move_right,
};
use crate::tui::key::{InputEvent, KeyCode, KeyEvent};
use crate::tui::modal::{KeyDispatch, ModalOutcome, OutcomeView, dispatch_view, outcome_view};
use crate::tui::palette::palette_key_spec;
use crate::tui::print::print_entry_spec;
use crate::tui::prompt::{Prompt, clear_output};
use crate::tui::state::{AppState, queue_of, spec_turn_submitted, state_wf};
use vstd::prelude::*;

verus! {

broadcast use vstd::string::group_string_axioms;

// ---------------------------------------------------------------------------
// Specifications
// ---------------------------------------------------------------------------

/// What handling an input does besides changing the state: the text printed,
/// the rows between the prompt's top and the cursor afterwards, the commands
/// for the backend, and whether to quit.
pub struct Effect {
    pub out: Seq<char>,
    pub offset: u16,
    pub sent: Seq<CommandView>,
    pub quit: bool,
}

pub open spec fn no_effect(offset: u16) -> Effect {
    Effect { out: seq![], offset, sent: seq![], quit: false }
}

pub open spec fn commands_view(cs: Seq<BackendCommand>) -> Seq<CommandView> {
    cs.map_values(|c: BackendCommand| command_view(c))
}

/// The output, the prompt's offset, the commands sent and the quit flag are
/// those of `e`.
pub open spec fn shows(
    e: Effect,
    out0: Seq<char>,
    out1: Seq<char>,
    offset1: u16,
    sent0: Seq<BackendCommand>,
    sent1: Seq<BackendCommand>,
    quit: bool,
) -> bool {
    &&& out1 == out0 + e.out
    &&& offset1 == e.offset
    &&& commands_view(sent1) == commands_view(sent0) + e.sent
    &&& quit == e.quit
}

/// What a modal's outcome does: quit, send a command, or print an entry
/// above the prompt.
pub open spec fn outcome_effect(a: AnsiView, offset: u16, o: OutcomeView, cols: u16) -> Effect {
    match o {
        OutcomeView::Quit => Effect { quit: true, ..no_effect(offset) },
        OutcomeView::Emit(c) => Effect { sent: seq![c], ..no_effect(offset) },
        OutcomeView::EmitAndClose(c) => Effect { sent: seq![c], ..no_effect(offset) },
        OutcomeView::Print(e) => Effect {
            out: clear_output(offset) + print_entry_spec(a, e, cols),
            offset: 0,
            ..no_effect(offset)
        },
        _ => no_effect(offset),
    }
}

/// Whether a takeover modal stays open after the outcome.
pub open spec fn outcome_keeps(o: OutcomeView) -> bool {
    o is Continue || o is Emit || o is Print
}

/// A line starting with `/` runs a command.
pub open spec fn is_command_line(t: Seq<char>) -> bool {
    t.len() > 0 && t[0] == '/'
}

/// Submitting the input: a command line runs its command; other text is
/// printed as the user's message and sent to the backend.
pub open spec fn submit_effect(a: AnsiView, s0: AppState, offset: u16, cols: u16) -> Effect {
    let t = s0.input@.text;
    if is_command_line(t) {
        outcome_effect(a, offset, spec_dispatch_outcome(t.skip(1), s0.turn is Some), cols)
    } else {
        Effect {
            out: clear_output(offset) + print_entry_spec(a, EntryView::User(t), cols),
            offset: 0,
            sent: seq![CommandView::Submit(t)],
            quit: false,
        }
    }
}

/// The palette's index, the modal and the directory are as they were.
pub open spec fn same_rest(s0: AppState, s1: AppState) -> bool {
    &&& s1.palette_index == s0.palette_index
    &&& s1.modal == s0.modal
    &&& s1.directory_label == s0.directory_label
}

/// The state after a submission: the input emptied; for a message, one more
/// chat message in the session and the turn started or queued behind.
pub open spec fn submit_state(s0: AppState, s1: AppState) -> bool {
    &&& s1.input@ == empty_input()
    &&& same_rest(s0, s1)
    &&& if is_command_line(s0.input@.text) {
        s1.session == s0.session && s1.turn == s0.turn
    } else {
        counted(s0.session, s1.session, 1) && queue_of(s1.turn) == spec_turn_submitted(
            queue_of(s0.turn),
        )
    }
}

pub open spec fn is_quit_key(k: KeyEvent) -> bool {
    k.code == KeyCode::Char('c') && k.ctrl
}

pub open spec fn is_redraw_key(k: KeyEvent) -> bool {
    k.code == KeyCode::Char('l') && k.ctrl
}

/// Enter submits an input that is not blank.
pub open spec fn submits(v: InputState, k: KeyEvent) -> bool {
    k.code == KeyCode::Enter && !all_ws(v.text)
}

/// The input after an editing key.
pub open spec fn edited(v: InputState, k: KeyEvent) -> InputState {
    match k.code {
        KeyCode::Char(c) => spec_insert_char(v, c),
        KeyCode::Backspace => spec_backspace(v),
        KeyCode::Left => spec_move_left(v),
        KeyCode::Right => spec_move_right(v),
        KeyCode::Esc => empty_input(),
        _ => v,
    }
}

/// Redrawing: the prompt wiped, the screen cleared, the cursor home.
pub open spec fn redraw_output(offset: u16) -> Seq<char> {
    clear_output(offset) + clear_seq(ClearKind::All) + move_to_seq(0, 0)
}

/// What the input does with a key no overlay claimed: Control-C quits,
/// Control-L redraws, Enter submits.
pub open spec fn main_key_effect(a: AnsiView, s0: AppState, offset: u16, k: KeyEvent, cols: u16) -> Effect {
    if is_quit_key(k) {
        Effect { quit: true, ..no_effect(offset) }
    } else if is_redraw_key(k) {
        Effect { out: redraw_output(offset), offset: 0, ..no_effect(offset) }
    } else if submits(s0.input@, k) {
        submit_effect(a, s0, offset, cols)
    } else {
        no_effect(offset)
    }
}

/// The state after the input handled a key (the overlay aside).
pub open spec fn main_key_state(s0: AppState, s1: AppState, k: KeyEvent) -> bool {
    if !is_quit_key(k) && !is_redraw_key(k) && submits(s0.input@, k) {
        submit_state(s0, s1)
    } else {
        &&& s1.input@ == if is_quit_key(k) || is_redraw_key(k) {
            s0.input@
        } else {
            edited(s0.input@, k)
        }
        &&& same_rest(s0, s1)
        &&& s1.session == s0.session
        &&& s1.turn == s0.turn
    }
}

/// What a key does: the modal's outcome when one is open; else the
/// palette's outcome when it claims the key; else the input's handling.
pub open spec fn key_effect(a: AnsiView, s0: AppState, offset: u16, k: KeyEvent, cols: u16) -> Effect {
    match s0.modal {
        Some(m) => outcome_effect(a, offset, m.key_spec(k).1, cols),
        None => match s0.overlay {
            Some(p) => match palette_key_spec(p.selection(), k, s0.input@, s0.turn is Some).2 {
                Some(o) => outcome_effect(a, offset, o, cols),
                None => main_key_effect(a, s0, offset, k, cols),
            },
            None => main_key_effect(a, s0, offset, k, cols),
        },
    }
}

/// The state after a key.
pub open spec fn key_state(s0: AppState, s1: AppState, k: KeyEvent) -> bool {
    match s0.modal {
        Some(m) => {
            let (m2, o) = m.key_spec(k);
            &&& s1.modal == if outcome_keeps(o) {
                Some(m2)
            } else {
                None
            }
            &&& s1.input == s0.input
            &&& s1.palette_index == s0.palette_index
            &&& s1.overlay == s0.overlay
            &&& s1.directory_label == s0.directory_label
            &&& s1.session == s0.session
            &&& s1.turn == s0.turn
        },
        None => match s0.overlay {
            Some(p) => {
                let (sel, input, oo) = palette_key_spec(p.selection(), k, s0.input@, s0.turn is Some);
                &&& s1.overlay matches Some(q) && q.wf() && q.selection() == sel
                &&& match oo {
                    Some(o) => {
                        &&& s1.input@ == input
                        &&& same_rest(s0, s1)
                        &&& s1.session == s0.session
                        &&& s1.turn == s0.turn
                    },
                    None => main_key_state(s0, s1, k),
                }
            },
            None => main_key_state(s0, s1, k) && s1.overlay is None,
        },
    }
}

/// What an input event does: a key press as above; a paste goes into the
/// input unless a modal is open; anything else does nothing.
pub open spec fn input_effect(a: AnsiView, s0: AppState, offset: u16, ev: InputEvent, cols: u16) -> Effect {
    match ev {
        InputEvent::Key(k) => if k.press {
            key_effect(a, s0, offset, k, cols)
        } else {
            no_effect(offset)
        },
        _ => no_effect(offset),
    }
}

pub open spec fn input_state(s0: AppState, s1: AppState, ev: InputEvent) -> bool {
    match ev {
        InputEvent::Key(k) => if k.press {
            key_state(s0, s1, k)
        } else {
            s1 == s0
        },
        InputEvent::Paste(t) => if s0.modal is None {
            &&& s1.input@ == spec_insert_str(s0.input@, t@)
            &&& same_rest(s0, s1)
            &&& s1.overlay == s0.overlay
            &&& s1.session == s0.session
            &&& s1.turn == s0.turn
        } else {
            s1 == s0
        },
        InputEvent::Other => s1 == s0,
    }
}

/// The counters a submission increments have room.
pub open spec fn counters_ok(s: AppState) -> bool {
    &&& s.session is Some ==> s.session->0.message_count < usize::MAX
    &&& queue_of(s.turn) is Some ==> queue_of(s.turn)->0 < usize::MAX
}

// ---------------------------------------------------------------------------
// Handling
// ---------------------------------------------------------------------------

/// Applies a modal's outcome; gives whether to quit and whether a takeover
/// modal stays open.
fn apply_outcome(
    out: &mut String,
    prompt: &mut Prompt,
    ansi: &Ansi,
    sent: &mut Vec<BackendCommand>,
    outcome: ModalOutcome,
    cols: u16,
) -> (res: (bool, bool))
    requires
        ansi_ok(ansi@),
    ensures
        shows(
            outcome_effect(ansi@, old(prompt).cursor_offset_from_top, outcome_view(outcome), cols),
            old(out)@,
            final(out)@,
            final(prompt).cursor_offset_from_top,
            old(sent)@,
            final(sent)@,
            res.0,
        ),
        res.1 == outcome_keeps(outcome_view(outcome)),
{
    assert(commands_view(old(sent)@) + Seq::<CommandView>::empty() =~= commands_view(old(sent)@));
    assert(old(out)@ + Seq::<char>::empty() =~= old(out)@);
    match outcome {
        ModalOutcome::Continue => (false, true),
        ModalOutcome::Close => (false, false),
        ModalOutcome::Quit => (true, false),
        ModalOutcome::Emit(cmd) => {
            let ghost c = cmd;
            sent.push(cmd);
            assert(commands_view(sent@) =~= commands_view(old(sent)@).push(command_view(c)));
            (false, true)
        },
        ModalOutcome::EmitAndClose(cmd) => {
            let ghost c = cmd;
            sent.push(cmd);
            assert(commands_view(sent@) =~= commands_view(old(sent)@).push(command_view(c)));
            (false, false)
        },
        ModalOutcome::Print(entry) => {
            let ghost offset0 = prompt.cursor_offset_from_top;
            emit_entry(out, prompt, ansi, &entry, cols);
            assert(out@ =~= old(out)@ + (clear_output(offset0) + print_entry_spec(ansi@, entry@, cols)));
            assert(commands_view(sent@) =~= commands_view(old(sent)@) + Seq::<CommandView>::empty());
            (false, true)
        },
    }
}

/// Runs a command line (without its `/`).
fn dispatch_command(
    out: &mut String,
    prompt: &mut Prompt,
    ansi: &Ansi,
    state: &AppState,
    sent: &mut Vec<BackendCommand>,
    input: &str,
    cols: u16,
) -> (quit: bool)
    requires
        ansi_ok(ansi@),
    ensures
        shows(
            outcome_effect(
                ansi@,
                old(prompt).cursor_offset_from_top,
                spec_dispatch_outcome(input@, state.turn is Some),
                cols,
            ),
            old(out)@,
            final(out)@,
            final(prompt).cursor_offset_from_top,
            old(sent)@,
            final(sent)@,
            quit,
        ),
{
    let outcome = dispatch_outcome(input, state.is_busy());
    let (quit, _keep) = apply_outcome(out, prompt, ansi, sent, outcome, cols);
    quit
}

/// Submits the input: runs it as a command, or prints it as the user's
/// message, counts it, starts or queues a turn, and sends it.
fn submit_input(
    out: &mut String,
    prompt: &mut Prompt,
    ansi: &Ansi,
    state: &mut AppState,
    sent: &mut Vec<BackendCommand>,
    cols: u16,
) -> (quit: bool)
    requires
        ansi_ok(ansi@),
        state_wf(*old(state)),
        counters_ok(*old(state)),
    ensures
        shows(
            submit_effect(ansi@, *old(state), old(prompt).cursor_offset_from_top, cols),
            old(out)@,
            final(out)@,
            final(prompt).cursor_offset_from_top,
            old(sent)@,
            final(sent)@,
            quit,
        ),
        submit_state(*old(state), *final(state)),
        final(state).overlay == old(state).overlay,
        state_wf(*final(state)),
{
    let input = state.input.clear();
    let cs = chars_of(input.as_str());
    if cs.len() > 0 && cs[0] == '/' {
        let rest = string_of(slice_chars(cs.as_slice(), 1, cs.len()).as_slice());
        assert(rest@ == input@.skip(1));
        return dispatch_command(out, prompt, ansi, state, sent, rest.as_str(), cols);
    }
    let entry = Entry::User(input.clone());
    let ghost out0 = out@;
    let ghost offset0 = prompt.cursor_offset_from_top;
    emit_entry(out, prompt, ansi, &entry, cols);
    assert(out@ =~= out0 + (clear_output(offset0) + print_entry_spec(ansi@, entry@, cols)));
    state.record_chat_message();
    state.turn_submitted();
    let ghost before = sent@;
    sent.push(BackendCommand::Submit(input));
    assert(commands_view(sent@) =~= commands_view(before).push(CommandView::Submit(input@)));
    assert(commands_view(sent@) =~= commands_view(old(sent)@) + seq![CommandView::Submit(input@)]);
    false
}

/// The input's handling of a key no overlay claimed.
fn handle_main_key(
    out: &mut String,
    prompt: &mut Prompt,
    ansi: &Ansi,
    state: &mut AppState,
    sent: &mut Vec<BackendCommand>,
    key: KeyEvent,
    cols: u16,
) -> (quit: bool)
    requires
        ansi_ok(ansi@),
        state_wf(*old(state)),
        counters_ok(*old(state)),
    ensures
        shows(
            main_key_effect(ansi@, *old(state), old(prompt).cursor_offset_from_top, key, cols),
            old(out)@,
            final(out)@,
            final(prompt).cursor_offset_from_top,
            old(sent)@,
            final(sent)@,
            quit,
        ),
        main_key_state(*old(state), *final(state), key),
        final(state).overlay == old(state).overlay,
        state_wf(*final(state)),
{
    assert(commands_view(sent@) =~= commands_view(sent@) + Seq::<CommandView>::empty());
    match key.code {
        KeyCode::Char(c) => {
            if c == 'c' && key.ctrl {
                true
            } else if c == 'l' && key.ctrl {
                let ghost start = out@;
                prompt.clear(out);
                push_str(out, clear(ClearKind::All).as_str());
                push_str(out, move_to(0, 0).as_str());
                assert(out@ =~= start + redraw_output(old(prompt).cursor_offset_from_top));
                false
            } else {
                state.input.insert_char(c);
                false
            }
        },
        KeyCode::Enter => {
            if !state.input.is_blank() {
                submit_input(out, prompt, ansi, state, sent, cols)
            } else {
                false
            }
        },
        KeyCode::Backspace => {
            state.input.backspace();
            false
        },
        KeyCode::Left => {
            state.input.move_left();
            false
        },
        KeyCode::Right => {
            state.input.move_right();
            false
        },
        KeyCode::Esc => {
            let _ = state.input.clear();
            false
        },
        _ => false,
    }
}

/// Hands the key to the open takeover modal, if any; gives whether to quit
/// when the modal consumed it.
fn dispatch_takeover(
    out: &mut String,
    prompt: &mut Prompt,
    ansi: &Ansi,
    state: &mut AppState,
    sent: &mut Vec<BackendCommand>,
    key: KeyEvent,
    cols: u16,
) -> (res: Option<bool>)
    requires
        ansi_ok(ansi@),
        state_wf(*old(state)),
    ensures
        res is Some <==> old(state).modal is Some,
        res is Some ==> shows(
            key_effect(ansi@, *old(state), old(prompt).cursor_offset_from_top, key, cols),
            old(out)@,
            final(out)@,
            final(prompt).cursor_offset_from_top,
            old(sent)@,
            final(sent)@,
            res->0,
        ),
        res is Some ==> key_state(*old(state), *final(state), key),
        res is None ==> *final(state) == *old(state) && final(out)@ == old(out)@ && final(sent)@
            == old(sent)@ && final(prompt).cursor_offset_from_top == old(prompt).cursor_offset_from_top,
        state_wf(*final(state)),
{
    let taken = state.modal.take();
    match taken {
        None => None,
        Some(mut modal) => {
            let ghost m0 = modal;
            let dispatch = modal.handle_key(key, state);
            match dispatch {
                KeyDispatch::PassThrough => {
                    state.modal = Some(modal);
                    None
                },
                KeyDispatch::Consumed(outcome) => {
                    let (quit, keep) = apply_outcome(out, prompt, ansi, sent, outcome, cols);
                    if keep {
                        state.modal = Some(modal);
                    }
                    Some(quit)
                },
            }
        },
    }
}

/// Hands the key to the command palette, which stays installed; gives
/// whether to quit when the palette claimed the key.
fn dispatch_overlay(
    out: &mut String,
    prompt: &mut Prompt,
    ansi: &Ansi,
    state: &mut AppState,
    sent: &mut Vec<BackendCommand>,
    key: KeyEvent,
    cols: u16,
) -> (res: Option<bool>)
    requires
        ansi_ok(ansi@),
        state_wf(*old(state)),
        old(state).modal is None,
    ensures
        match old(state).overlay {
            Some(p) => {
                let (sel, input, oo) = palette_key_spec(
                    p.selection(),
                    key,
                    old(state).input@,
                    old(state).turn is Some,
                );
                &&& final(state).overlay matches Some(q) && q.wf() && q.selection() == sel
                &&& res is Some <==> oo is Some
                &&& final(state).input@ == input
                &&& same_rest(*old(state), *final(state))
                &&& final(state).session == old(state).session
                &&& final(state).turn == old(state).turn
                &&& match oo {
                    Some(o) => shows(
                        outcome_effect(ansi@, old(prompt).cursor_offset_from_top, o, cols),
                        old(out)@,
                        final(out)@,
                        final(prompt).cursor_offset_from_top,
                        old(sent)@,
                        final(sent)@,
                        res->0,
                    ),
                    None => final(out)@ == old(out)@ && final(sent)@ == old(sent)@ && final(prompt).cursor_offset_from_top == old(prompt).cursor_offset_from_top,
                }
            },
            None => res is None && *final(state) == *old(state) && final(out)@ == old(out)@
                && final(sent)@ == old(sent)@ && final(prompt).cursor_offset_from_top == old(prompt).cursor_offset_from_top,
        },
        state_wf(*final(state)),
{
    let taken = state.overlay.take();
    match taken {
        None => None,
        Some(mut overlay) => {
            let dispatch = overlay.handle_key(key, state);
            state.overlay = Some(overlay);
            match dispatch {
                KeyDispatch::PassThrough => None,
                KeyDispatch::Consumed(outcome) => {
                    let (quit, _keep) = apply_outcome(out, prompt, ansi, sent, outcome, cols);
                    Some(quit)
                },
            }
        },
    }
}

/// Handles a key press: the takeover modal, then the palette, then the
/// input.
fn handle_key(
    out: &mut String,
    prompt: &mut Prompt,
    ansi: &Ansi,
    state: &mut AppState,
    sent: &mut Vec<BackendCommand>,
    key: KeyEvent,
    cols: u16,
) -> (quit: bool)
    requires
        ansi_ok(ansi@),
        state_wf(*old(state)),
        counters_ok(*old(state)),
    ensures
        shows(
            key_effect(ansi@, *old(state), old(prompt).cursor_offset_from_top, key, cols),
            old(out)@,
            final(out)@,
            final(prompt).cursor_offset_from_top,
            old(sent)@,
            final(sent)@,
            quit,
        ),
        key_state(*old(state), *final(state), key),
        state_wf(*final(state)),
{
    match dispatch_takeover(out, prompt, ansi, state, sent, key, cols) {
        Some(quit) => {
            return quit;
        },
        None => {},
    }
    match dispatch_overlay(out, prompt, ansi, state, sent, key, cols) {
        Some(quit) => {
            return quit;
        },
        None => {},
    }
    handle_main_key(out, prompt, ansi, state, sent, key, cols)
}

/// Handles what the terminal reported. Text printed goes to `out`, commands
/// for the backend to `sent`; the result says whether to quit.
pub fn handle_input_event(
    out: &mut String,
    prompt: &mut Prompt,
    ansi: &Ansi,
    state: &mut AppState,
    sent: &mut Vec<BackendCommand>,
    event: InputEvent,
    cols: u16,
) -> (quit: bool)
    requires
        ansi_ok(ansi@),
        state_wf(*old(state)),
        counters_ok(*old(state)),
    ensures
        shows(
            input_effect(ansi@, *old(state), old(prompt).cursor_offset_from_top, event, cols),
            old(out)@,
            final(out)@,
            final(prompt).cursor_offset_from_top,
            old(sent)@,
            final(sent)@,
            quit,
        ),
        input_state(*old(state), *final(state), event),
        state_wf(*final(state)),
{
    assert(commands_view(sent@) =~= commands_view(sent@) + Seq::<CommandView>::empty());
    match event {
        InputEvent::Key(key) => {
            if key.press {
                handle_key(out, prompt, ansi, state, sent, key, cols)
            } else {
                false
            }
        },
        InputEvent::Paste(text) => {
            if state.modal.is_none() {
                state.input.insert_str(text.as_str());
            }
            false
        },
        InputEvent::Other => false,
    }
}

/// While a takeover modal is open it takes every key: the input, the
/// session and the turn stay as they were.
pub proof fn law_modal_takes_every_key(s0: AppState, s1: AppState, k: KeyEvent)
    requires
        s0.modal is Some,
        key_state(s0, s1, k),
    ensures
        s1.input == s0.input,
        s1.session == s0.session,
        s1.turn == s0.turn,
        s1.overlay == s0.overlay,
{
}

/// The command palette stays installed whatever a key does.
pub proof fn law_overlay_stays_installed(s0: AppState, s1: AppState, k: KeyEvent)
    requires
        s0.overlay is Some,
        key_state(s0, s1, k),
    ensures
        s1.overlay is Some,
{
}

/// A paste never reaches the input while a takeover modal is open.
pub proof fn law_modal_blocks_paste(s0: AppState, s1: AppState, t: String)
    requires
        s0.modal is Some,
        input_state(s0, s1, InputEvent::Paste(t)),
    ensures
        s1 == s0,
{
}

/// Submitting a message that is not a command line sends exactly its text,
/// once, and does not quit.
pub proof fn law_submission_sent_once(a: AnsiView, s0: AppState, offset: u16, cols: u16)
    requires
        !is_command_line(s0.input@.text),
    ensures
        submit_effect(a, s0, offset, cols).sent == seq![CommandView::Submit(s0.input@.text)],
        !submit_effect(a, s0, offset, cols).quit,
{
}

} // verus!
