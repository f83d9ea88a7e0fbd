//! The single-screen chat application: an input line, the entries so far, a
//! scroll position, and a pending permission question answered by key.
use crate::agent::{Decision, DecisionView, ToolCall, decision_view};
use crate::text::{all_ws, text_lines, chars_of, lines_of};
use crate::tui::entry::{Entry, EntryView, entries_view};
use crate::tui::input::{
    InputBuffer, InputState, empty_input, input_wf, spec_backspace, spec_insert_char,
    spec_move_left, spec_move_right,
};
use crate::tui::key::{KeyCode, KeyEvent};
use tokio::sync::oneshot::Sender;
use vstd::prelude::*;

verus! {

#[verifier::external_type_specification]
#[verifier::external_body]
#[verifier::reject_recursive_types(T)]
pub struct ExOneshotSender<T>(Sender<T>);

/// `tokio::sync::oneshot::Sender::send`: hands the decision to whoever waits
/// for it. Whether anyone still waits is up to the other side, so nothing is
/// promised of the outcome, which is dropped.
#[verifier::external_body]
pub(crate) fn send_decision(reply: Sender<Decision>, decision: Decision) {
    let _ = reply.send(decision);
}

/// What the caller does after a key: quit, submit the text, or hand the
/// answer to a pending permission question to the channel that waits for it.
pub enum Action {
    Quit,
    Submit(String),
    Answer { reply: Sender<Decision>, decision: Decision },
}

pub enum ActionView {
    Quit,
    Submit(Seq<char>),
    Answer(DecisionView),
}

pub open spec fn action_view(a: Option<Action>) -> Option<ActionView> {
    match a {
        None => None,
        Some(Action::Quit) => Some(ActionView::Quit),
        Some(Action::Submit(s)) => Some(ActionView::Submit(s@)),
        Some(Action::Answer { decision, .. }) => Some(ActionView::Answer(decision_view(decision))),
    }
}

/// A tool call waiting for the user's permission, with the channel that
/// carries the answer back.
pub struct PendingPermission {
    pub call: ToolCall,
    pub reply: Sender<Decision>,
}

pub struct App {
    pub input: InputBuffer,
    pub entries: Vec<Entry>,
    pub scroll: u16,
    pub auto_scroll: bool,
    pub tick: usize,
    pub model: String,
    pub waiting: bool,
    pub pending: Option<PendingPermission>,
}

/// What a key press changes of the application, as values.
pub struct AppView {
    pub input: InputState,
    pub scroll: u16,
    pub waiting: bool,
    pub pending: bool,
}

pub open spec fn app_view(app: App) -> AppView {
    AppView {
        input: app.input@,
        scroll: app.scroll,
        waiting: app.waiting,
        pending: app.pending is Some,
    }
}

/// Rows an entry takes in the chat: user and error entries two, an
/// assistant's text its line count (wrapping past `u16::MAX`) plus one, tool
/// entries one.
pub open spec fn spec_entry_height(e: EntryView) -> int {
    match e {
        EntryView::User(_) | EntryView::Error(_) => 2,
        EntryView::Assistant(t) => ((text_lines(t).len() % 65536) + 1) as int,
        _ => 1,
    }
}

/// The rows of the first `n` entries.
pub open spec fn total_height(es: Seq<EntryView>, n: int) -> int
    decreases n,
{
    if n <= 0 {
        0
    } else {
        total_height(es, n - 1) + spec_entry_height(es[n - 1])
    }
}

proof fn lemma_total_height_mono(es: Seq<EntryView>, i: int, j: int)
    requires
        0 <= i <= j <= es.len(),
    ensures
        total_height(es, i) <= total_height(es, j),
    decreases j - i,
{
    if i < j {
        lemma_total_height_mono(es, i, j - 1);
    }
}

/// The rows an entry takes in the chat.
pub fn entry_height(entry: &Entry) -> (res: u32)
    ensures
        res == spec_entry_height(entry@),
{
    match entry {
        Entry::User(_) | Entry::Error(_) => 2,
        Entry::Assistant(text) => {
            let cs = chars_of(text.as_str());
            let n = lines_of(cs.as_slice()).len();
            ((n % 65536) as u32) + 1
        },
        _ => 1,
    }
}

/// What a key does: while a permission question is pending, `y` answers
/// allow and `n` or Esc answer deny, which ends the question; Control-C
/// quits, other keys do nothing. Otherwise
/// Control-D or Control-C quit, Enter submits a non-blank input when not
/// waiting, characters and Backspace edit when not waiting, arrows move the
/// cursor or scroll, Esc clears the input, and the page keys scroll by ten.
pub open spec fn spec_handle_key(v: AppView, key: KeyEvent) -> (AppView, Option<ActionView>) {
    if v.pending {
        if spec_pending_decision(key) is Some {
            (AppView { pending: false, ..v }, Some(ActionView::Answer(spec_pending_decision(key)->0)))
        } else if key.code == KeyCode::Char('c') && key.ctrl {
            (v, Some(ActionView::Quit))
        } else {
            (v, None)
        }
    } else {
        match key.code {
            KeyCode::Char(c) => if (c == 'd' || c == 'c') && key.ctrl {
                (v, Some(ActionView::Quit))
            } else if !v.waiting {
                (AppView { input: spec_insert_char(v.input, c), ..v }, None)
            } else {
                (v, None)
            },
            KeyCode::Enter => if !v.waiting && !all_ws(v.input.text) {
                (AppView { input: empty_input(), ..v }, Some(ActionView::Submit(v.input.text)))
            } else {
                (v, None)
            },
            KeyCode::Backspace => if !v.waiting {
                (AppView { input: spec_backspace(v.input), ..v }, None)
            } else {
                (v, None)
            },
            KeyCode::Left => (AppView { input: spec_move_left(v.input), ..v }, None),
            KeyCode::Right => (AppView { input: spec_move_right(v.input), ..v }, None),
            KeyCode::Esc => (AppView { input: empty_input(), ..v }, None),
            KeyCode::PageUp => (
                AppView { scroll: if v.scroll >= 10 { (v.scroll - 10) as u16 } else { 0 }, ..v },
                None,
            ),
            KeyCode::PageDown => (
                AppView {
                    scroll: if v.scroll + 10 <= u16::MAX { (v.scroll + 10) as u16 } else { u16::MAX },
                    ..v
                },
                None,
            ),
            KeyCode::Up => (
                AppView { scroll: if v.scroll >= 1 { (v.scroll - 1) as u16 } else { 0 }, ..v },
                None,
            ),
            KeyCode::Down => (
                AppView {
                    scroll: if v.scroll + 1 <= u16::MAX { (v.scroll + 1) as u16 } else { u16::MAX },
                    ..v
                },
                None,
            ),
            _ => (v, None),
        }
    }
}

impl App {
    /// A fresh application for a model: nothing typed, no entries, at the top.
    pub fn new(model: String) -> (res: Self)
        ensures
            res.input@ == empty_input(),
            res.entries@.len() == 0,
            res.scroll == 0,
            !res.auto_scroll,
            res.tick == 0,
            res.model@ == model@,
            !res.waiting,
            res.pending is None,
    {
        App {
            input: InputBuffer::default(),
            entries: Vec::new(),
            scroll: 0,
            auto_scroll: false,
            tick: 0,
            model,
            waiting: false,
            pending: None,
        }
    }

    /// Scrolls so the last entry ends at the bottom of the viewport.
    pub fn scroll_to_bottom(&mut self, viewport_height: u16)
        requires
            total_height(entries_view(old(self).entries@), old(self).entries@.len() as int)
                <= u16::MAX,
        ensures
            ({
                let h = total_height(entries_view(old(self).entries@), old(self).entries@.len() as int);
                final(self).scroll == (if h > viewport_height { h - viewport_height } else { 0 })
            }),
            !final(self).auto_scroll,
            final(self).entries@ == old(self).entries@,
            final(self).input@ == old(self).input@,
            final(self).pending == old(self).pending,
            final(self).waiting == old(self).waiting,
    {
        let ghost es = entries_view(self.entries@);
        let mut content_height: u16 = 0;
        let mut i: usize = 0;
        while i < self.entries.len()
            invariant
                i <= self.entries@.len(),
                es == entries_view(self.entries@),
                total_height(es, es.len() as int) <= u16::MAX,
                content_height == total_height(es, i as int),
            decreases self.entries@.len() - i,
        {
            proof {
                lemma_total_height_mono(es, i + 1, es.len() as int);
            }
            let h = entry_height(&self.entries[i]);
            content_height = (content_height as u32 + h) as u16;
            i += 1;
        }
        self.scroll = content_height.saturating_sub(viewport_height);
        self.auto_scroll = false;
    }

    /// Adds an entry and asks to scroll to it.
    pub fn push_entry(&mut self, entry: Entry)
        ensures
            entries_view(final(self).entries@) == entries_view(old(self).entries@).push(entry@),
            final(self).auto_scroll,
            final(self).scroll == old(self).scroll,
            final(self).input@ == old(self).input@,
    {
        self.entries.push(entry);
        assert(entries_view(self.entries@) =~= entries_view(old(self).entries@).push(entry@));
        self.auto_scroll = true;
    }

    /// The number of characters before the cursor.
    pub fn cursor_column(&self) -> (res: u16)
        ensures
            res as nat == self.input@.cursor % 65536,
    {
        self.input.cursor_column()
    }

    /// Empties the input and hands back what it held.
    pub fn clear_input(&mut self) -> (res: String)
        ensures
            res@ == old(self).input@.text,
            final(self).input@ == empty_input(),
            final(self).scroll == old(self).scroll,
            final(self).waiting == old(self).waiting,
            final(self).pending == old(self).pending,
            keeps_content(*old(self), *final(self)),
    {
        self.input.clear()
    }

    pub fn insert_char(&mut self, c: char)
        requires
            input_wf(old(self).input@),
        ensures
            final(self).input@ == spec_insert_char(old(self).input@, c),
            final(self).scroll == old(self).scroll,
            final(self).waiting == old(self).waiting,
            final(self).pending == old(self).pending,
            keeps_content(*old(self), *final(self)),
    {
        self.input.insert_char(c);
    }

    pub fn backspace(&mut self)
        requires
            input_wf(old(self).input@),
        ensures
            final(self).input@ == spec_backspace(old(self).input@),
            final(self).scroll == old(self).scroll,
            final(self).waiting == old(self).waiting,
            final(self).pending == old(self).pending,
            keeps_content(*old(self), *final(self)),
    {
        self.input.backspace();
    }

    pub fn move_left(&mut self)
        requires
            input_wf(old(self).input@),
        ensures
            final(self).input@ == spec_move_left(old(self).input@),
            final(self).scroll == old(self).scroll,
            final(self).waiting == old(self).waiting,
            final(self).pending == old(self).pending,
            keeps_content(*old(self), *final(self)),
    {
        self.input.move_left();
    }

    pub fn move_right(&mut self)
        requires
            input_wf(old(self).input@),
        ensures
            final(self).input@ == spec_move_right(old(self).input@),
            final(self).scroll == old(self).scroll,
            final(self).waiting == old(self).waiting,
            final(self).pending == old(self).pending,
            keeps_content(*old(self), *final(self)),
    {
        self.input.move_right();
    }
}

/// The entries, the scroll request, the animation tick and the model are as
/// they were.
pub open spec fn keeps_content(a: App, b: App) -> bool {
    &&& b.entries == a.entries
    &&& b.auto_scroll == a.auto_scroll
    &&& b.tick == a.tick
    &&& b.model == a.model
}

pub open spec fn denied_by_user() -> Seq<char> {
    "denied by user"@
}

/// The answer a key gives to a pending permission question: `y` allows, `n`
/// or Esc denies; other keys give none.
pub open spec fn spec_pending_decision(key: KeyEvent) -> Option<DecisionView> {
    match key.code {
        KeyCode::Char(c) => if c == 'y' || c == 'Y' {
            Some(DecisionView::Allow)
        } else if c == 'n' || c == 'N' {
            Some(DecisionView::Deny(denied_by_user()))
        } else {
            None
        },
        KeyCode::Esc => Some(DecisionView::Deny(denied_by_user())),
        _ => None,
    }
}

/// The answer a key gives to a pending permission question.
pub fn pending_decision(key: KeyEvent) -> (res: Option<Decision>)
    ensures
        match res {
            Some(d) => spec_pending_decision(key) == Some(decision_view(d)),
            None => spec_pending_decision(key) is None,
        },
{
    proof {
        reveal_strlit("denied by user");
    }
    match key.code {
        KeyCode::Char(c) => if c == 'y' || c == 'Y' {
            Some(Decision::Allow)
        } else if c == 'n' || c == 'N' {
            Some(Decision::Deny(String::from_str("denied by user")))
        } else {
            None
        },
        KeyCode::Esc => Some(Decision::Deny(String::from_str("denied by user"))),
        _ => None,
    }
}

/// When the key answers the pending question, takes the question's reply
/// channel together with the answer; otherwise leaves the application as it
/// is.
pub fn take_answer(app: &mut App, key: KeyEvent) -> (res: Option<(Sender<Decision>, Decision)>)
    requires
        old(app).pending is Some,
    ensures
        match res {
            Some((reply, d)) => {
                &&& spec_pending_decision(key) == Some(decision_view(d))
                &&& reply == old(app).pending->0.reply
                &&& final(app).pending is None
            },
            None => spec_pending_decision(key) is None && final(app).pending == old(app).pending,
        },
        final(app).input == old(app).input,
        final(app).scroll == old(app).scroll,
        final(app).waiting == old(app).waiting,
        keeps_content(*old(app), *final(app)),
{
    match pending_decision(key) {
        Some(d) => match app.pending.take() {
            Some(p) => Some((p.reply, d)),
            None => None,
        },
        None => None,
    }
}

/// Handles one key press; see `spec_handle_key`. A key that answers a
/// pending permission question takes the question out and returns its reply
/// channel with the answer, `spec_pending_decision(key)`, for the caller to
/// send; any other key leaves the question as it was.
pub fn handle_key(app: &mut App, key: KeyEvent) -> (res: Option<Action>)
    requires
        input_wf(old(app).input@),
    ensures
        (app_view(*final(app)), action_view(res)) == spec_handle_key(app_view(*old(app)), key),
        input_wf(final(app).input@),
        keeps_content(*old(app), *final(app)),
        match res {
            Some(Action::Answer { reply, decision }) => {
                &&& old(app).pending matches Some(p) && reply == p.reply
                &&& spec_pending_decision(key) == Some(decision_view(decision))
                &&& final(app).pending is None
            },
            _ => final(app).pending == old(app).pending,
        },
{
    if app.pending.is_some() {
        match take_answer(app, key) {
            Some((reply, decision)) => {
                return Some(Action::Answer { reply, decision });
            },
            None => {
                if key.code == KeyCode::Char('c') && key.ctrl {
                    return Some(Action::Quit);
                }
                return None;
            },
        }
    }
    match key.code {
        KeyCode::Char(c) => {
            if (c == 'd' || c == 'c') && key.ctrl {
                Some(Action::Quit)
            } else if !app.waiting {
                app.insert_char(c);
                None
            } else {
                None
            }
        },
        KeyCode::Enter => {
            if !app.waiting && !app.input.is_blank() {
                Some(Action::Submit(app.clear_input()))
            } else {
                None
            }
        },
        KeyCode::Backspace => {
            if !app.waiting {
                app.backspace();
            }
            None
        },
        KeyCode::Left => {
            app.move_left();
            None
        },
        KeyCode::Right => {
            app.move_right();
            None
        },
        KeyCode::Esc => {
            app.clear_input();
            None
        },
        KeyCode::PageUp => {
            app.scroll = app.scroll.saturating_sub(10);
            None
        },
        KeyCode::PageDown => {
            app.scroll = app.scroll.saturating_add(10);
            None
        },
        KeyCode::Up => {
            app.scroll = app.scroll.saturating_sub(1);
            None
        },
        KeyCode::Down => {
            app.scroll = app.scroll.saturating_add(1);
            None
        },
        _ => None,
    }
}

} // verus!
