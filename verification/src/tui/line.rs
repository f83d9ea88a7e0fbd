//! Line mode: without a terminal to draw on, a turn's events are printed as
//! plain lines, the assistant's text on standard output and the rest on
//! standard error; permission requests are refused.
use crate::agent::{Decision, Message, ToolCall};
use crate::text::{chars_of, lines_of, preview, push_char, push_str, string_of, text_lines, three_dots, truncated};
use crate::tui::app::send_decision;
use tokio::sync::oneshot::Sender;
use vstd::prelude::*;

verus! {

broadcast use vstd::string::group_string_axioms;

/// What the agent reports while it works on a turn.
pub enum AgentEvent {
    Message(Message),
    PermissionRequest { call: ToolCall, reply: Sender<Decision> },
    TurnError(String),
    TurnDone,
}

/// Text for the two output streams.
pub struct LineOutput {
    pub stdout: String,
    pub stderr: String,
}

/// A tool result in one line: its first line, cut to eighty characters.
pub open spec fn spec_result_preview(content: Seq<char>) -> Seq<char> {
    let ls = text_lines(content);
    truncated(if ls.len() > 0 { ls[0] } else { seq![] }, 80, three_dots())
}

pub open spec fn nl() -> Seq<char> {
    seq!['\n']
}

/// The lines printed for the first `n` tool calls.
pub open spec fn call_lines(calls: Seq<ToolCall>, n: int) -> Seq<char>
    decreases n,
{
    if n <= 0 {
        seq![]
    } else {
        call_lines(calls, n - 1) + "tool: "@ + calls[n - 1].name@ + seq!['('] + truncated(
            calls[n - 1].input@,
            80,
            three_dots(),
        ) + seq![')'] + nl()
    }
}

/// What line mode prints for an event, as (standard output, standard error).
pub open spec fn line_output(e: AgentEvent) -> (Seq<char>, Seq<char>) {
    match e {
        AgentEvent::Message(Message::User(_)) => (seq![], seq![]),
        AgentEvent::Message(Message::Assistant { text, tool_calls }) => (
            if text@.len() > 0 {
                text@ + nl()
            } else {
                seq![]
            },
            call_lines(tool_calls@, tool_calls@.len() as int),
        ),
        AgentEvent::Message(Message::Tool(r)) => (
            seq![],
            if r.is_error {
                "tool error: "@ + r.content@ + nl()
            } else {
                "tool result: "@ + spec_result_preview(r.content@) + nl()
            },
        ),
        AgentEvent::PermissionRequest { .. } => (seq![], seq![]),
        AgentEvent::TurnError(t) => (seq![], "Error: "@ + t@ + nl()),
        AgentEvent::TurnDone => (seq![], seq![]),
    }
}

/// The refusal line mode answers a permission request with.
pub open spec fn spec_line_denial(name: Seq<char>) -> Seq<char> {
    "tool '"@ + name + "' requires the interactive TUI for permission"@
}

/// A tool result in one line.
pub fn result_preview(content: &str) -> (res: String)
    ensures
        res@ == spec_result_preview(content@),
{
    let cs = chars_of(content);
    let ls = lines_of(cs.as_slice());
    let first = if ls.len() > 0 {
        assert(ls@[0]@ == text_lines(content@)[0]);
        string_of(ls[0].as_slice())
    } else {
        String::new()
    };
    preview(first.as_str(), 80)
}

/// Line mode's answer to a permission request: refused, naming the tool.
pub fn line_denial(call: &ToolCall) -> (res: Decision)
    ensures
        res matches Decision::Deny(reason) && reason@ == spec_line_denial(call.name@),
{
    let mut reason = String::from_str("tool '");
    push_str(&mut reason, call.name.as_str());
    push_str(&mut reason, "' requires the interactive TUI for permission");
    Decision::Deny(reason)
}

/// Prints an event of a turn in line mode. A permission request is answered
/// with `line_denial`.
pub fn handle_line_event(event: AgentEvent) -> (res: LineOutput)
    ensures
        (res.stdout@, res.stderr@) == line_output(event),
{
    let ghost e = event;
    let mut stdout = String::new();
    let mut stderr = String::new();
    match event {
        AgentEvent::Message(message) => match message {
            Message::User(_) => {},
            Message::Assistant { text, tool_calls } => {
                if !text.as_str().is_empty() {
                    push_str(&mut stdout, text.as_str());
                    push_char(&mut stdout, '\n');
                }
                let mut i: usize = 0;
                while i < tool_calls.len()
                    invariant
                        i <= tool_calls@.len(),
                        stderr@ == call_lines(tool_calls@, i as int),
                    decreases tool_calls@.len() - i,
                {
                    let call = &tool_calls[i];
                    push_str(&mut stderr, "tool: ");
                    push_str(&mut stderr, call.name.as_str());
                    push_char(&mut stderr, '(');
                    let args = preview(call.input.as_str(), 80);
                    push_str(&mut stderr, args.as_str());
                    push_char(&mut stderr, ')');
                    push_char(&mut stderr, '\n');
                    assert(stderr@ =~= call_lines(tool_calls@, i + 1));
                    i += 1;
                }
            },
            Message::Tool(result) => {
                if result.is_error {
                    push_str(&mut stderr, "tool error: ");
                    push_str(&mut stderr, result.content.as_str());
                } else {
                    push_str(&mut stderr, "tool result: ");
                    let p = result_preview(result.content.as_str());
                    push_str(&mut stderr, p.as_str());
                }
                push_char(&mut stderr, '\n');
            },
        },
        AgentEvent::PermissionRequest { call, reply } => {
            send_decision(reply, line_denial(&call));
        },
        AgentEvent::TurnError(error) => {
            push_str(&mut stderr, "Error: ");
            push_str(&mut stderr, error.as_str());
            push_char(&mut stderr, '\n');
        },
        AgentEvent::TurnDone => {},
    }
    assert(stdout@ =~= line_output(e).0);
    assert(stderr@ =~= line_output(e).1);
    LineOutput { stdout, stderr }
}

} // verus!
