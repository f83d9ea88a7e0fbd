//! The status row: model, message count, directory, and the busy spinner.
use crate::text::{decimal, fit_line, push_decimal, push_str, spec_fit_line};
use crate::tui::ansi::{Ansi, ansi_ok, fg_of, reset_color, reset_seq};
use crate::tui::frame::{Frame, FrameView};
use crate::tui::state::{AppState, elapsed_millis, elapsed_secs};
use crate::tui::theme;
use vstd::prelude::*;

verus! {

broadcast use vstd::string::group_string_axioms;

/// The spinner frame shown after `ms` milliseconds: one frame per 80 ms.
pub open spec fn spinner_index(ms: u128) -> int {
    (((ms / 80) as usize) % 10) as int
}

/// ` · <spinner> <secs>s`, then ` · <n> queued` when submissions wait and no
/// takeover modal is open; nothing when no turn is in progress.
pub open spec fn spec_busy_status(state: AppState, ms: u128, secs: u64) -> Seq<char> {
    match state.turn {
        None => seq![],
        Some(t) => {
            let queued: nat = if state.modal is None {
                t.queued as nat
            } else {
                0
            };
            " · "@ + theme::spinner_spec(spinner_index(ms)) + seq![' '] + decimal(secs as nat) + seq![
                's',
            ] + if queued == 0 {
                seq![]
            } else {
                " · "@ + decimal(queued) + " queued"@
            }
        },
    }
}

/// ` <model> · <n> msgs · <directory><busy>`, with `unknown` and zero when
/// there is no session.
pub open spec fn spec_status_text(state: AppState, ms: u128, secs: u64) -> Seq<char> {
    let model = match state.session {
        Some(s) => s.model@,
        None => "unknown"@,
    };
    let count: nat = match state.session {
        Some(s) => s.message_count as nat,
        None => 0,
    };
    seq![' '] + model + " · "@ + decimal(count) + " msgs · "@ + state.directory_label@
        + spec_busy_status(state, ms, secs)
}

/// The status row as written: dim, cut to the terminal width.
pub open spec fn status_output(
    a: crate::tui::ansi::AnsiView,
    state: AppState,
    cols: u16,
    ms: u128,
    secs: u64,
) -> Seq<char> {
    fg_of(a, theme::DIM) + spec_fit_line(spec_status_text(state, ms, secs), cols as nat) + reset_seq()
}

/// The busy part of the status, for a turn running `ms` milliseconds
/// (`secs` whole seconds).
pub fn busy_status_at(state: &AppState, ms: u128, secs: u64) -> (res: String)
    ensures
        res@ == spec_busy_status(*state, ms, secs),
{
    let turn = match &state.turn {
        None => return String::new(),
        Some(t) => t,
    };
    let queued = if state.modal.is_none() {
        turn.queued
    } else {
        0
    };
    #[verifier::truncate]
    let ticks = (ms / 80) as usize;
    let mut out = String::new();
    push_str(&mut out, " · ");
    push_str(&mut out, theme::spinner_frame(ticks % 10));
    push_str(&mut out, " ");
    push_decimal(&mut out, secs);
    push_str(&mut out, "s");
    if queued != 0 {
        push_str(&mut out, " · ");
        push_decimal(&mut out, queued as u64);
        push_str(&mut out, " queued");
    }
    proof {
        reveal_strlit(" ");
        reveal_strlit("s");
    }
    out
}

/// The busy part of the status, timed by the clock.
pub fn busy_status(state: &AppState) -> (res: String)
    ensures
        exists|ms: u128, secs: u64| res@ == spec_busy_status(*state, ms, secs),
{
    match &state.turn {
        None => {
            let res = String::new();
            assert(res@ == spec_busy_status(*state, 0, 0));
            res
        },
        Some(t) => {
            let ms = elapsed_millis(&t.started_at);
            let secs = elapsed_secs(&t.started_at);
            busy_status_at(state, ms, secs)
        },
    }
}

/// The status text for a turn running `ms` milliseconds.
pub fn status_text_at(state: &AppState, ms: u128, secs: u64) -> (res: String)
    ensures
        res@ == spec_status_text(*state, ms, secs),
{
    let mut out = String::new();
    push_str(&mut out, " ");
    match &state.session {
        Some(s) => {
            push_str(&mut out, s.model.as_str());
        },
        None => {
            push_str(&mut out, "unknown");
        },
    }
    push_str(&mut out, " · ");
    let count = match &state.session {
        Some(s) => s.message_count,
        None => 0,
    };
    push_decimal(&mut out, count as u64);
    push_str(&mut out, " msgs · ");
    push_str(&mut out, state.directory_label.as_str());
    let busy = busy_status_at(state, ms, secs);
    push_str(&mut out, busy.as_str());
    proof {
        reveal_strlit(" ");
    }
    out
}

/// The status text, timing the turn by the clock.
pub fn status_text(state: &AppState) -> (res: String)
    ensures
        exists|ms: u128, secs: u64| res@ == spec_status_text(*state, ms, secs),
{
    let (ms, secs) = match &state.turn {
        Some(t) => (elapsed_millis(&t.started_at), elapsed_secs(&t.started_at)),
        None => (0, 0),
    };
    status_text_at(state, ms, secs)
}

/// Writes the status row for a turn running `ms` milliseconds.
pub fn write_status_at(out: &mut Frame, ansi: &Ansi, state: &AppState, term_cols: u16, ms: u128, secs: u64)
    requires
        ansi_ok(ansi@),
    ensures
        final(out)@ == (FrameView {
            text: old(out)@.text + status_output(ansi@, *state, term_cols, ms, secs),
            rows: old(out)@.rows,
        }),
{
    let ghost start = out@.text;
    let text = status_text_at(state, ms, secs);
    out.write(ansi.fg(theme::DIM));
    let fitted = fit_line(text.as_str(), term_cols);
    out.write(fitted.as_str());
    out.write(reset_color().as_str());
    assert(out@.text =~= start + status_output(ansi@, *state, term_cols, ms, secs));
}

/// Writes the status row, timing the turn by the clock.
pub fn write_status(out: &mut Frame, ansi: &Ansi, state: &AppState, term_cols: u16)
    requires
        ansi_ok(ansi@),
    ensures
        exists|ms: u128, secs: u64|
            final(out)@ == (FrameView {
                text: old(out)@.text + status_output(ansi@, *state, term_cols, ms, secs),
                rows: old(out)@.rows,
            }),
{
    let (ms, secs) = match &state.turn {
        Some(t) => (elapsed_millis(&t.started_at), elapsed_secs(&t.started_at)),
        None => (0, 0),
    };
    write_status_at(out, ansi, state, term_cols, ms, secs);
}

} // verus!
