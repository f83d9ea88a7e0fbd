//! Slash commands. Adding a command is one entry in the table.
use crate::text::{
    all_whitespace, all_ws, chars_of, has_prefix, is_whitespace, is_ws, push_char, push_str, repeat,
    sat_sub, slice_chars, spaces, starts_with, string_of, take_chars,
};
use crate::agent::{BackendCommand, CommandView};
use crate::tui::entry::{Entry, EntryView};
use crate::tui::modal::{ModalOutcome, OutcomeView, outcome_view};
use vstd::prelude::*;
use vstd::string::*;

verus! {

broadcast use vstd::string::group_string_axioms;

#[derive(Debug, Clone, Copy, PartialEq, Eq)]
pub enum CommandAction {
    NewSession,
    OpenSessions,
    ShowHelp,
}

#[derive(Debug, Clone, PartialEq, Eq)]
pub enum CommandError {
    Empty,
    Unknown(String),
    Busy(&'static str),
    UnexpectedArgs(&'static str),
}

/// What a dispatch decides, with names taken as character sequences.
pub enum Dispatched {
    Action(CommandAction),
    Empty,
    Unknown(Seq<char>),
    Busy(Seq<char>),
    UnexpectedArgs(Seq<char>),
}

#[derive(Clone, Copy)]
pub struct Command {
    pub name: &'static str,
    pub help: &'static str,
    pub idle_only: bool,
    pub action: CommandAction,
}

/// The command table, in the order the palette lists it.
pub open spec fn command_table() -> Seq<Command> {
    seq![
        Command {
            name: "new",
            help: "start a new session",
            idle_only: true,
            action: CommandAction::NewSession,
        },
        Command {
            name: "sessions",
            help: "pick a saved session to resume",
            idle_only: true,
            action: CommandAction::OpenSessions,
        },
        Command { name: "help", help: "list commands", idle_only: false, action: CommandAction::ShowHelp },
    ]
}

/// The command table.
pub fn commands() -> (res: Vec<Command>)
    ensures
        res@ == command_table(),
{
    vec![
        Command {
            name: "new",
            help: "start a new session",
            idle_only: true,
            action: CommandAction::NewSession,
        },
        Command {
            name: "sessions",
            help: "pick a saved session to resume",
            idle_only: true,
            action: CommandAction::OpenSessions,
        },
        Command { name: "help", help: "list commands", idle_only: false, action: CommandAction::ShowHelp },
    ]
}

/// Index of the first whitespace character of `s` at or after `i`, or the
/// length of `s` when there is none.
pub open spec fn first_ws_from(s: Seq<char>, i: int) -> int
    decreases s.len() - i,
{
    if i >= s.len() {
        s.len() as int
    } else if is_ws(s[i]) {
        i
    } else {
        first_ws_from(s, i + 1)
    }
}

/// No character of `s` is whitespace.
pub open spec fn no_ws(s: Seq<char>) -> bool {
    forall|i: int| 0 <= i < s.len() ==> !is_ws(#[trigger] s[i])
}

/// The text after a leading `/`, while it is still naming a command (no
/// whitespace seen yet).
pub open spec fn spec_typing_command(input: Seq<char>) -> Option<Seq<char>> {
    if input.len() > 0 && input[0] == '/' && no_ws(input.skip(1)) {
        Some(input.skip(1))
    } else {
        None
    }
}

/// The first command of `t` at index `i` or later whose name is `name`.
pub open spec fn lookup_from(t: Seq<Command>, name: Seq<char>, i: int) -> Option<Command>
    decreases t.len() - i,
{
    if i < 0 || i >= t.len() {
        None
    } else if t[i].name@ == name {
        Some(t[i])
    } else {
        lookup_from(t, name, i + 1)
    }
}

pub open spec fn lookup(name: Seq<char>) -> Option<Command> {
    lookup_from(command_table(), name, 0)
}

/// The commands among the first `n` of `t` whose name starts with `prefix`.
pub open spec fn matching(t: Seq<Command>, prefix: Seq<char>, n: int) -> Seq<Command>
    decreases n,
{
    if n <= 0 {
        seq![]
    } else if has_prefix(t[n - 1].name@, prefix) {
        matching(t, prefix, n - 1).push(t[n - 1])
    } else {
        matching(t, prefix, n - 1)
    }
}

/// The palette's matches: the commands whose name starts with what is being
/// typed, or none when no command is being typed.
pub open spec fn spec_palette_matches(input: Seq<char>) -> Seq<Command> {
    match spec_typing_command(input) {
        Some(p) => matching(command_table(), p, 3),
        None => seq![],
    }
}

/// A command line is split at its first whitespace into a name and arguments;
/// the arguments count only when they hold something besides whitespace.
pub open spec fn spec_dispatch(input: Seq<char>, busy: bool) -> Dispatched {
    let k = first_ws_from(input, 0);
    let name = input.take(k);
    let rest = if k < input.len() { input.skip(k + 1) } else { seq![] };
    if name.len() == 0 {
        Dispatched::Empty
    } else {
        match lookup(name) {
            None => Dispatched::Unknown(name),
            Some(cmd) => if cmd.idle_only && busy {
                Dispatched::Busy(cmd.name@)
            } else if !all_ws(rest) {
                Dispatched::UnexpectedArgs(cmd.name@)
            } else {
                Dispatched::Action(cmd.action)
            },
        }
    }
}

pub open spec fn dispatched(r: Result<CommandAction, CommandError>) -> Dispatched {
    match r {
        Ok(a) => Dispatched::Action(a),
        Err(CommandError::Empty) => Dispatched::Empty,
        Err(CommandError::Unknown(n)) => Dispatched::Unknown(n@),
        Err(CommandError::Busy(n)) => Dispatched::Busy(n@),
        Err(CommandError::UnexpectedArgs(n)) => Dispatched::UnexpectedArgs(n@),
    }
}

/// Whether two character sequences are equal.
pub fn chars_eq(a: &[char], b: &[char]) -> (res: bool)
    ensures
        res == (a@ == b@),
{
    if a.len() != b.len() {
        return false;
    }
    let mut i: usize = 0;
    while i < a.len()
        invariant
            i <= a@.len() == b@.len(),
            forall|j: int| 0 <= j < i ==> a@[j] == b@[j],
        decreases a@.len() - i,
    {
        if a[i] != b[i] {
            return false;
        }
        i += 1;
    }
    assert(a@ =~= b@);
    true
}

/// Whether the text after the leading `/` holds no whitespace.
fn no_whitespace_after_slash(cs: &Vec<char>) -> (res: bool)
    requires
        cs@.len() > 0,
    ensures
        res == no_ws(cs@.skip(1)),
{
    let mut i: usize = 1;
    while i < cs.len()
        invariant
            1 <= i <= cs@.len(),
            forall|j: int| 1 <= j < i ==> !is_ws(#[trigger] cs@[j]),
        decreases cs@.len() - i,
    {
        if is_whitespace(cs[i]) {
            assert(cs@.skip(1)[i - 1] == cs@[i as int]);
            return false;
        }
        i += 1;
    }
    assert forall|j: int| 0 <= j < cs@.skip(1).len() implies !is_ws(cs@.skip(1)[j]) by {
        assert(cs@.skip(1)[j] == cs@[j + 1]);
    }
    true
}

/// The portion of the input that is still naming a command, or `None` when the
/// input is not a `/` command being typed (no slash, or whitespace seen).
pub fn typing_command(input: &str) -> (res: Option<&str>)
    ensures
        res is Some <==> spec_typing_command(input@) is Some,
        res matches Some(r) ==> Some(r@) == spec_typing_command(input@),
{
    let cs = chars_of(input);
    if cs.len() == 0 || cs[0] != '/' {
        return None;
    }
    if !no_whitespace_after_slash(&cs) {
        return None;
    }
    Some(input.substring_char(1, cs.len()))
}

/// Whether the palette is showing: the input names a command being typed.
pub fn palette_active(input: &str) -> (res: bool)
    ensures
        res == spec_typing_command(input@) is Some,
{
    typing_command(input).is_some()
}

/// The commands whose name starts with what is being typed after `/`.
pub fn palette_matches(input: &str) -> (res: Vec<Command>)
    ensures
        res@ == spec_palette_matches(input@),
{
    let mut res: Vec<Command> = Vec::new();
    let prefix = match typing_command(input) {
        Some(p) => p,
        None => return res,
    };
    let pcs = chars_of(prefix);
    let table = commands();
    let mut i: usize = 0;
    while i < table.len()
        invariant
            i <= table@.len(),
            table@ == command_table(),
            pcs@ == spec_typing_command(input@)->0,
            res@ == matching(table@, pcs@, i as int),
        decreases table@.len() - i,
    {
        let name = chars_of(table[i].name);
        if starts_with(name.as_slice(), pcs.as_slice()) {
            res.push(table[i]);
        }
        i += 1;
    }
    res
}

/// Runs a command line (the text after `/`): the name must be a known
/// command, an idle-only command is refused during a turn, and no command
/// takes arguments.
pub fn dispatch(input: &str, busy: bool) -> (res: Result<CommandAction, CommandError>)
    ensures
        dispatched(res) == spec_dispatch(input@, busy),
{
    let cs = chars_of(input);
    let mut k: usize = 0;
    while k < cs.len() && !is_whitespace(cs[k])
        invariant
            k <= cs@.len(),
            first_ws_from(cs@, 0) == first_ws_from(cs@, k as int),
        decreases cs@.len() - k,
    {
        k += 1;
    }
    assert(first_ws_from(cs@, k as int) == k);
    assert(first_ws_from(cs@, 0) == k);
    let name = take_chars(cs.as_slice(), k);
    let args_blank = if k < cs.len() {
        let rest = slice_chars(cs.as_slice(), k + 1, cs.len());
        assert(rest@ == cs@.skip(k + 1));
        all_whitespace(rest.as_slice())
    } else {
        assert(all_ws(Seq::<char>::empty()));
        true
    };
    if name.len() == 0 {
        return Err(CommandError::Empty);
    }
    let table = commands();
    let mut i: usize = 0;
    while i < table.len()
        invariant
            i <= table@.len(),
            table@ == command_table(),
            lookup(name@) == lookup_from(table@, name@, i as int),
            k <= cs@.len(),
            cs@ == input@,
            k == first_ws_from(cs@, 0),
            name@.len() > 0,
            name@ == cs@.take(k as int),
            args_blank == all_ws(if k < cs@.len() { cs@.skip(k + 1) } else { seq![] }),
        decreases table@.len() - i,
    {
        let cmd = table[i];
        let cname = chars_of(cmd.name);
        if chars_eq(cname.as_slice(), name.as_slice()) {
            assert(lookup(name@) == Some(cmd));
            assert(name@ == cs@.take(k as int));
            assert(args_blank == all_ws(if k < cs@.len() { cs@.skip(k + 1) } else { seq![] }));
            if cmd.idle_only && busy {
                return Err(CommandError::Busy(cmd.name));
            }
            if !args_blank {
                return Err(CommandError::UnexpectedArgs(cmd.name));
            }
            return Ok(cmd.action);
        }
        i += 1;
    }
    Err(CommandError::Unknown(string_of(name.as_slice())))
}

/// The widest command name.
pub open spec fn name_width(t: Seq<Command>, n: int) -> nat
    decreases n,
{
    if n <= 0 {
        0
    } else {
        let w = name_width(t, n - 1);
        if t[n - 1].name@.len() > w {
            t[n - 1].name@.len()
        } else {
            w
        }
    }
}

/// One help line: `  /name<pad>  help`.
pub open spec fn help_line(c: Command, width: nat) -> Seq<char> {
    seq![' ', ' ', '/'] + c.name@ + repeat(' ', sat_sub(width as int, c.name@.len() as int))
        + seq![' ', ' '] + c.help@ + seq!['\n']
}

pub open spec fn help_lines(t: Seq<Command>, width: nat, n: int) -> Seq<char>
    decreases n,
{
    if n <= 0 {
        seq![]
    } else {
        help_lines(t, width, n - 1) + help_line(t[n - 1], width)
    }
}

/// `Commands:` followed by one line per command, names padded to the widest.
pub open spec fn spec_help_text() -> Seq<char> {
    "Commands:\n"@ + help_lines(command_table(), name_width(command_table(), 3), 3)
}

/// The help listing of every command.
pub fn help_text() -> (res: String)
    ensures
        res@ == spec_help_text(),
{
    let table = commands();
    let mut width: usize = 0;
    let mut i: usize = 0;
    while i < table.len()
        invariant
            i <= table@.len(),
            table@ == command_table(),
            width == name_width(table@, i as int),
        decreases table@.len() - i,
    {
        let n = chars_of(table[i].name).len();
        if n > width {
            width = n;
        }
        i += 1;
    }
    let mut body = String::from_str("Commands:\n");
    let mut j: usize = 0;
    while j < table.len()
        invariant
            j <= table@.len(),
            table@ == command_table(),
            width == name_width(command_table(), 3),
            body@ == "Commands:\n"@ + help_lines(table@, width as nat, j as int),
        decreases table@.len() - j,
    {
        let cmd = table[j];
        let ghost before = body@;
        push_str(&mut body, "  /");
        push_str(&mut body, cmd.name);
        let n = chars_of(cmd.name).len();
        let pad = spaces(width.saturating_sub(n));
        push_str(&mut body, pad.as_str());
        push_str(&mut body, "  ");
        push_str(&mut body, cmd.help);
        push_char(&mut body, '\n');
        proof {
            reveal_strlit("  /");
            reveal_strlit("  ");
            assert(body@ == before + help_line(cmd, width as nat));
        }
        j += 1;
    }
    body
}

impl CommandError {
    /// The message shown for a refused command.
    pub fn message(&self) -> (res: String)
        ensures
            res@ == spec_error_message(*self),
    {
        match self {
            CommandError::Empty => String::from_str("empty command"),
            CommandError::Unknown(name) => {
                let mut s = String::from_str("unknown command: /");
                push_str(&mut s, name.as_str());
                push_str(&mut s, "  (try /help)");
                s
            },
            CommandError::Busy(name) => {
                let mut s = String::from_str("/");
                push_str(&mut s, name);
                push_str(&mut s, ": finish the current turn first");
                s
            },
            CommandError::UnexpectedArgs(name) => {
                let mut s = String::from_str("/");
                push_str(&mut s, name);
                push_str(&mut s, ": this command does not take arguments");
                s
            },
        }
    }
}

pub open spec fn spec_error_message(e: CommandError) -> Seq<char> {
    match e {
        CommandError::Empty => "empty command"@,
        CommandError::Unknown(name) => "unknown command: /"@ + name@ + "  (try /help)"@,
        CommandError::Busy(name) => "/"@ + name@ + ": finish the current turn first"@,
        CommandError::UnexpectedArgs(name) => "/"@ + name@
            + ": this command does not take arguments"@,
    }
}

/// The outcome of running a command line: the backend is asked for a new
/// session or the session list, help is printed, or the refusal is printed as
/// an error.
pub open spec fn spec_dispatch_outcome(input: Seq<char>, busy: bool) -> OutcomeView {
    match spec_dispatch(input, busy) {
        Dispatched::Action(CommandAction::NewSession) => OutcomeView::Emit(CommandView::NewSession),
        Dispatched::Action(CommandAction::OpenSessions) => OutcomeView::Emit(
            CommandView::ListSessions,
        ),
        Dispatched::Action(CommandAction::ShowHelp) => OutcomeView::Print(
            EntryView::Assistant(spec_help_text()),
        ),
        Dispatched::Empty => OutcomeView::Print(EntryView::Error("empty command"@)),
        Dispatched::Unknown(n) => OutcomeView::Print(
            EntryView::Error("unknown command: /"@ + n + "  (try /help)"@),
        ),
        Dispatched::Busy(n) => OutcomeView::Print(
            EntryView::Error("/"@ + n + ": finish the current turn first"@),
        ),
        Dispatched::UnexpectedArgs(n) => OutcomeView::Print(
            EntryView::Error("/"@ + n + ": this command does not take arguments"@),
        ),
    }
}

/// Runs a command line and says what should come of it.
pub fn dispatch_outcome(input: &str, busy: bool) -> (res: ModalOutcome)
    ensures
        outcome_view(res) == spec_dispatch_outcome(input@, busy),
{
    match dispatch(input, busy) {
        Ok(CommandAction::NewSession) => ModalOutcome::Emit(BackendCommand::NewSession),
        Ok(CommandAction::OpenSessions) => ModalOutcome::Emit(BackendCommand::ListSessions),
        Ok(CommandAction::ShowHelp) => ModalOutcome::Print(Entry::Assistant(help_text())),
        Err(e) => {
            let m = e.message();
            ModalOutcome::Print(Entry::Error(m))
        },
    }
}

/// Whitespace after the command's name hides the palette, whatever the name
/// matches.
pub proof fn law_whitespace_hides_palette(input: Seq<char>, i: int)
    requires
        0 < i < input.len(),
        is_ws(input[i]),
    ensures
        spec_palette_matches(input) == Seq::<Command>::empty(),
{
    if input.len() > 0 && input[0] == '/' {
        assert(input.skip(1)[i - 1] == input[i]);
    }
}

proof fn lemma_first_ws_at(s: Seq<char>, i: int, k: int)
    requires
        0 <= i <= k <= s.len(),
        forall|j: int| i <= j < k ==> !is_ws(#[trigger] s[j]),
        k == s.len() || is_ws(s[k]),
    ensures
        first_ws_from(s, i) == k,
    decreases k - i,
{
    if i < k {
        lemma_first_ws_at(s, i + 1, k);
    }
}

/// During a turn `/new` and `/sessions` are refused, with the command's own
/// name, whatever follows the name.
pub proof fn law_idle_only_commands_refused_while_busy(input: Seq<char>, name: Seq<char>)
    requires
        name == "new"@ || name == "sessions"@,
        name.is_prefix_of(input),
        input.len() == name.len() || is_ws(input[name.len() as int]),
    ensures
        spec_dispatch(input, true) == Dispatched::Busy(name),
{
    reveal_strlit("new");
    reveal_strlit("sessions");
    reveal_strlit("help");
    reveal_with_fuel(lookup_from, 4);
    assert forall|j: int| 0 <= j < name.len() implies !is_ws(#[trigger] input[j]) by {
        assert(input[j] == name[j]);
    }
    lemma_first_ws_at(input, 0, name.len() as int);
    assert(input.take(name.len() as int) =~= name);
    if name == "sessions"@ {
        assert("new"@ != name) by {
            assert("new"@.len() != name.len());
        }
    }
}

/// Only `/help` runs during a turn: whatever the input, a busy dispatch
/// that yields an action yields the help.
pub proof fn law_only_help_while_busy(input: Seq<char>)
    ensures
        spec_dispatch(input, true) matches Dispatched::Action(a) ==> a == CommandAction::ShowHelp,
{
    reveal_with_fuel(lookup_from, 4);
}

} // verus!
