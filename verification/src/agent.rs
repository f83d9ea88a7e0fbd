//! The agent's conversation data as the terminal front end sees it: messages,
//! tool calls and their results, saved sessions, permission decisions, and
//! the commands and events exchanged with the agent's backend.
use vstd::prelude::*;

verus! {

/// A tool invocation requested by the assistant; `input` is its arguments as
/// compact JSON text.
pub struct ToolCall {
    pub id: String,
    pub name: String,
    pub input: String,
}

/// What a tool answered.
pub struct ToolResult {
    pub content: String,
    pub is_error: bool,
}

pub enum Message {
    User(String),
    Assistant { text: String, tool_calls: Vec<ToolCall> },
    Tool(ToolResult),
}

impl Message {
    pub fn is_user(&self) -> (res: bool)
        ensures
            res == self is User,
    {
        match self {
            Message::User(_) => true,
            _ => false,
        }
    }
}

/// A saved session as listed by the backend.
pub struct SessionMeta {
    pub id: String,
    pub model: String,
    pub title: String,
}

/// The user's answer to a permission request.
pub enum Decision {
    Allow,
    Deny(String),
}

/// Identifies a pending permission request.
pub type PermissionId = u64;

/// What the interface asks of the backend.
pub enum BackendCommand {
    Submit(String),
    NewSession,
    ListSessions,
    SwitchSession(String),
    PermissionDecision { id: PermissionId, decision: Decision },
}

/// What the backend reports to the interface.
pub enum BackendEvent {
    Message(Message),
    PermissionRequest { id: PermissionId, call: ToolCall },
    TurnStarted,
    TurnError(String),
    TurnDone,
    SessionChanged { meta: SessionMeta, history: Vec<Message> },
    SessionsListed(Result<Vec<SessionMeta>, String>),
    SessionError(String),
}

/// A decision as values.
pub enum DecisionView {
    Allow,
    Deny(Seq<char>),
}

pub open spec fn decision_view(d: Decision) -> DecisionView {
    match d {
        Decision::Allow => DecisionView::Allow,
        Decision::Deny(r) => DecisionView::Deny(r@),
    }
}

/// A backend command as values.
pub enum CommandView {
    Submit(Seq<char>),
    NewSession,
    ListSessions,
    SwitchSession(Seq<char>),
    PermissionDecision { id: PermissionId, decision: DecisionView },
}

pub open spec fn command_view(c: BackendCommand) -> CommandView {
    match c {
        BackendCommand::Submit(t) => CommandView::Submit(t@),
        BackendCommand::NewSession => CommandView::NewSession,
        BackendCommand::ListSessions => CommandView::ListSessions,
        BackendCommand::SwitchSession(id) => CommandView::SwitchSession(id@),
        BackendCommand::PermissionDecision { id, decision } => CommandView::PermissionDecision {
            id,
            decision: decision_view(decision),
        },
    }
}

} // verus!
