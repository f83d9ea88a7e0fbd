//! Transcript entries: what the conversation shows, one item at a time.
use crate::agent::{Message, ToolCall};
use vstd::prelude::*;

verus! {

pub enum Entry {
    User(String),
    Assistant(String),
    ToolCall { name: String, args: String },
    ToolResult { content: String, is_error: bool },
    Error(String),
}

/// An entry as values.
pub enum EntryView {
    User(Seq<char>),
    Assistant(Seq<char>),
    ToolCall { name: Seq<char>, args: Seq<char> },
    ToolResult { content: Seq<char>, is_error: bool },
    Error(Seq<char>),
}

impl View for Entry {
    type V = EntryView;

    open spec fn view(&self) -> EntryView {
        match self {
            Entry::User(t) => EntryView::User(t@),
            Entry::Assistant(t) => EntryView::Assistant(t@),
            Entry::ToolCall { name, args } => EntryView::ToolCall { name: name@, args: args@ },
            Entry::ToolResult { content, is_error } => EntryView::ToolResult {
                content: content@,
                is_error: *is_error,
            },
            Entry::Error(t) => EntryView::Error(t@),
        }
    }
}

pub open spec fn entries_view(es: Seq<Entry>) -> Seq<EntryView> {
    es.map_values(|e: Entry| e@)
}

pub open spec fn call_entry(c: ToolCall) -> EntryView {
    EntryView::ToolCall { name: c.name@, args: c.input@ }
}

/// The entries a message shows: a user's text; an assistant's text (when
/// not empty) followed by one entry per tool call; a tool's result.
pub open spec fn message_entries(m: Message) -> Seq<EntryView> {
    match m {
        Message::User(t) => seq![EntryView::User(t@)],
        Message::Assistant { text, tool_calls } => (if text@.len() > 0 {
            seq![EntryView::Assistant(text@)]
        } else {
            seq![]
        }) + tool_calls@.map_values(|c: ToolCall| call_entry(c)),
        Message::Tool(r) => seq![
            EntryView::ToolResult { content: r.content@, is_error: r.is_error },
        ],
    }
}

/// Whether an entry is part of the chat proper (a user's or the assistant's
/// text).
pub open spec fn is_chat(e: EntryView) -> bool {
    e is User || e is Assistant
}

impl Entry {
    pub fn is_chat(&self) -> (res: bool)
        ensures
            res == is_chat(self@),
    {
        match self {
            Entry::User(_) | Entry::Assistant(_) => true,
            _ => false,
        }
    }

    /// A copy of the entry.
    pub fn copy(&self) -> (res: Entry)
        ensures
            res@ == self@,
    {
        match self {
            Entry::User(t) => Entry::User(t.clone()),
            Entry::Assistant(t) => Entry::Assistant(t.clone()),
            Entry::ToolCall { name, args } => Entry::ToolCall { name: name.clone(), args: args.clone() },
            Entry::ToolResult { content, is_error } => Entry::ToolResult {
                content: content.clone(),
                is_error: *is_error,
            },
            Entry::Error(t) => Entry::Error(t.clone()),
        }
    }
}

/// The entries a message shows.
pub fn entries_from_message(message: Message) -> (res: Vec<Entry>)
    ensures
        entries_view(res@) == message_entries(message),
{
    match message {
        Message::User(text) => {
            let res = vec![Entry::User(text)];
            assert(entries_view(res@) =~= message_entries(message));
            res
        },
        Message::Assistant { text, tool_calls } => {
            let mut out: Vec<Entry> = Vec::new();
            let ghost head: Seq<EntryView> = if text@.len() > 0 {
                seq![EntryView::Assistant(text@)]
            } else {
                seq![]
            };
            if !text.as_str().is_empty() {
                out.push(Entry::Assistant(text));
            }
            assert(entries_view(out@) =~= head);
            let ghost calls = tool_calls@;
            let mut i: usize = 0;
            let n = tool_calls.len();
            let mut rest = tool_calls;
            while i < n
                invariant
                    i <= n == calls.len(),
                    rest@.len() == n - i,
                    rest@ == calls.skip(i as int),
                    entries_view(out@) == head + calls.take(i as int).map_values(
                        |c: ToolCall| call_entry(c),
                    ),
                decreases n - i,
            {
                let call = rest.remove(0);
                assert(rest@ =~= calls.skip(i + 1));
                let ghost before = out@;
                out.push(Entry::ToolCall { name: call.name, args: call.input });
                assert(calls.take(i + 1) =~= calls.take(i as int).push(calls[i as int]));
                assert(entries_view(out@) =~= entries_view(before).push(call_entry(calls[i as int])));
                assert(calls.take(i + 1).map_values(|c: ToolCall| call_entry(c)) =~= calls.take(
                    i as int,
                ).map_values(|c: ToolCall| call_entry(c)).push(call_entry(calls[i as int])));
                i += 1;
            }
            assert(calls.take(n as int) =~= calls);
            out
        },
        Message::Tool(result) => {
            let res = vec![Entry::ToolResult { content: result.content, is_error: result.is_error }];
            assert(entries_view(res@) =~= message_entries(message));
            res
        },
    }
}

} // verus!
