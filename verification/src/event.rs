//! What the runtime and its front ends tell each other.
use vstd::prelude::*;

use crate::message::CacheUsage;
use crate::permission::{ApprovalRequest, ApprovalView};
use crate::session::{EntryView, SessionEntry};
use crate::storage::{SessionSummary, SummaryView};
use crate::tools::{ErrorView, OutputView, ToolError, ToolOutput};

verus! {

/// What a front end asks of the runtime.
#[derive(Debug)]
pub enum AgentCommand {
    UserInput(String),
    /// Corrects the work that is under way.
    Steer(String),
    /// Waits until the work that is under way is done.
    FollowUp(String),
    Compact,
    ClearConversation,
    SwitchProvider(String),
    SetModel(String),
    ListSessions,
    LoadSession(String),
    Shutdown,
}

#[verifier::ext_equal]
pub enum CommandView {
    UserInput(Seq<char>),
    Steer(Seq<char>),
    FollowUp(Seq<char>),
    Compact,
    ClearConversation,
    SwitchProvider(Seq<char>),
    SetModel(Seq<char>),
    ListSessions,
    LoadSession(Seq<char>),
    Shutdown,
}

impl DeepView for AgentCommand {
    type V = CommandView;

    open spec fn deep_view(&self) -> CommandView {
        match *self {
            AgentCommand::UserInput(t) => CommandView::UserInput(t@),
            AgentCommand::Steer(t) => CommandView::Steer(t@),
            AgentCommand::FollowUp(t) => CommandView::FollowUp(t@),
            AgentCommand::Compact => CommandView::Compact,
            AgentCommand::ClearConversation => CommandView::ClearConversation,
            AgentCommand::SwitchProvider(t) => CommandView::SwitchProvider(t@),
            AgentCommand::SetModel(t) => CommandView::SetModel(t@),
            AgentCommand::ListSessions => CommandView::ListSessions,
            AgentCommand::LoadSession(t) => CommandView::LoadSession(t@),
            AgentCommand::Shutdown => CommandView::Shutdown,
        }
    }
}

/// What the runtime reports.
#[derive(Debug)]
pub enum AgentEvent {
    UserMessage(String),
    TurnStarted,
    AssistantDelta(String),
    ThinkingDelta(String),
    /// The whole text of an answer.
    AssistantMessage(String),
    /// The model is writing the arguments of a call.
    ToolCallPending { name: String },
    ToolCallStarted { id: String, name: String, summary: String },
    ToolCallUpdated { id: String, name: String, output: ToolOutput },
    ToolCallFinished { id: String, name: String, output: ToolOutput, error: Option<ToolError> },
    PermissionRequested { request: ApprovalRequest },
    PermissionResolved { request_id: String, allowed: bool },
    Usage { input_tokens: u64, output_tokens: u64, cache: Option<CacheUsage> },
    Notice(String),
    Error(String),
    ConversationCleared,
    ProviderChanged { label: String },
    SessionsListed { current_id: String, sessions: Vec<SessionSummary> },
    SessionLoaded {
        id: String,
        entries: Vec<SessionEntry>,
        input_tokens: u64,
        output_tokens: u64,
        cache: Option<CacheUsage>,
    },
    TurnFinished { cancelled: bool },
}

#[verifier::ext_equal]
pub enum AgentEventView {
    UserMessage(Seq<char>),
    TurnStarted,
    AssistantDelta(Seq<char>),
    ThinkingDelta(Seq<char>),
    AssistantMessage(Seq<char>),
    ToolCallPending { name: Seq<char> },
    ToolCallStarted { id: Seq<char>, name: Seq<char>, summary: Seq<char> },
    ToolCallUpdated { id: Seq<char>, name: Seq<char>, output: OutputView },
    ToolCallFinished {
        id: Seq<char>,
        name: Seq<char>,
        output: OutputView,
        error: Option<ErrorView>,
    },
    PermissionRequested { request: ApprovalView },
    PermissionResolved { request_id: Seq<char>, allowed: bool },
    Usage { input_tokens: u64, output_tokens: u64, cache: Option<CacheUsage> },
    Notice(Seq<char>),
    Error(Seq<char>),
    ConversationCleared,
    ProviderChanged { label: Seq<char> },
    SessionsListed { current_id: Seq<char>, sessions: Seq<SummaryView> },
    SessionLoaded {
        id: Seq<char>,
        entries: Seq<EntryView>,
        input_tokens: u64,
        output_tokens: u64,
        cache: Option<CacheUsage>,
    },
    TurnFinished { cancelled: bool },
}

impl DeepView for AgentEvent {
    type V = AgentEventView;

    open spec fn deep_view(&self) -> AgentEventView {
        match *self {
            AgentEvent::UserMessage(t) => AgentEventView::UserMessage(t@),
            AgentEvent::TurnStarted => AgentEventView::TurnStarted,
            AgentEvent::AssistantDelta(t) => AgentEventView::AssistantDelta(t@),
            AgentEvent::ThinkingDelta(t) => AgentEventView::ThinkingDelta(t@),
            AgentEvent::AssistantMessage(t) => AgentEventView::AssistantMessage(t@),
            AgentEvent::ToolCallPending { name } => AgentEventView::ToolCallPending { name: name@ },
            AgentEvent::ToolCallStarted { id, name, summary } => AgentEventView::ToolCallStarted {
                id: id@,
                name: name@,
                summary: summary@,
            },
            AgentEvent::ToolCallUpdated { id, name, output } => AgentEventView::ToolCallUpdated {
                id: id@,
                name: name@,
                output: output.deep_view(),
            },
            AgentEvent::ToolCallFinished { id, name, output, error } =>
                AgentEventView::ToolCallFinished {
                id: id@,
                name: name@,
                output: output.deep_view(),
                error: error.deep_view(),
            },
            AgentEvent::PermissionRequested { request } => AgentEventView::PermissionRequested {
                request: request.deep_view(),
            },
            AgentEvent::PermissionResolved { request_id, allowed } =>
                AgentEventView::PermissionResolved { request_id: request_id@, allowed },
            AgentEvent::Usage { input_tokens, output_tokens, cache } => AgentEventView::Usage {
                input_tokens,
                output_tokens,
                cache,
            },
            AgentEvent::Notice(t) => AgentEventView::Notice(t@),
            AgentEvent::Error(t) => AgentEventView::Error(t@),
            AgentEvent::ConversationCleared => AgentEventView::ConversationCleared,
            AgentEvent::ProviderChanged { label } => AgentEventView::ProviderChanged {
                label: label@,
            },
            AgentEvent::SessionsListed { current_id, sessions } => AgentEventView::SessionsListed {
                current_id: current_id@,
                sessions: sessions.deep_view(),
            },
            AgentEvent::SessionLoaded { id, entries, input_tokens, output_tokens, cache } =>
                AgentEventView::SessionLoaded {
                id: id@,
                entries: entries.deep_view(),
                input_tokens,
                output_tokens,
                cache,
            },
            AgentEvent::TurnFinished { cancelled } => AgentEventView::TurnFinished { cancelled },
        }
    }
}

} // verus!
