//! What an agent does with each command.
use vstd::prelude::*;

use crate::config::{ProviderSettings, SettingsView};
use crate::event::{AgentCommand, AgentEvent, AgentEventView, CommandView};
use crate::message::Usage;
use crate::provider::label_of;
use crate::runtime::agent::{
    budget_of, model_fact, no_usage, show_load_failure, show_sessions, Agent, AgentView,
};
use crate::runtime::run::{commit_failure, show_commit_failure};
use crate::session::{
    law_ui_facts_do_not_reach_the_model, payloads_of, repaired, since_compaction, spoken, EntryView,
    PayloadView, SessionEntry, SessionEntryPayload,
};
use crate::storage::{SessionSummary, SummaryView};

verus! {

/// Which part of the model's choice has changed.
#[derive(Debug, Clone, Copy, PartialEq, Eq, Structural)]
pub enum Change {
    Provider,
    Model,
}

/// What has to be done for a command.
#[derive(Debug)]
pub enum CommandStep {
    /// Start a run with this input.
    Run { input: String },
    /// Compact the history.
    Compact,
    /// Remove the facts of the session.
    Clear,
    /// Look a provider up in the configuration.
    Resolve { provider: String },
    /// Store a fact.
    Record { fact: SessionEntryPayload, change: Change },
    /// List the sessions.
    List,
    /// Read a session.
    Load { id: String },
    /// Nothing: the command is done. Without `more` no other command is taken.
    Done { more: bool },
}

#[verifier::ext_equal]
pub enum CommandStepView {
    Run { input: Seq<char> },
    Compact,
    Clear,
    Resolve { provider: Seq<char> },
    Record { fact: PayloadView, change: Change },
    List,
    Load { id: Seq<char> },
    Done { more: bool },
}

impl DeepView for CommandStep {
    type V = CommandStepView;

    open spec fn deep_view(&self) -> CommandStepView {
        match *self {
            CommandStep::Run { input } => CommandStepView::Run { input: input@ },
            CommandStep::Compact => CommandStepView::Compact,
            CommandStep::Clear => CommandStepView::Clear,
            CommandStep::Resolve { provider } => CommandStepView::Resolve { provider: provider@ },
            CommandStep::Record { fact, change } => CommandStepView::Record {
                fact: fact.deep_view(),
                change,
            },
            CommandStep::List => CommandStepView::List,
            CommandStep::Load { id } => CommandStepView::Load { id: id@ },
            CommandStep::Done { more } => CommandStepView::Done { more },
        }
    }
}

/// What came of a step.
#[derive(Debug)]
pub enum CommandReply {
    /// The run, or the compaction, has ended.
    Ran,
    /// The facts are removed, or why they are not.
    Cleared(Option<String>),
    Resolved(Result<ProviderSettings, String>),
    /// The stored fact, or why it is not stored.
    Recorded { change: Change, stored: Result<Vec<SessionEntry>, String> },
    Listed { current_id: String, sessions: Result<Vec<SessionSummary>, String> },
    Loaded { current_id: String, session: Result<(Vec<SessionEntry>, Usage), String> },
}

#[verifier::ext_equal]
pub enum ReplyView {
    Ran,
    Cleared(Option<Seq<char>>),
    Resolved(Result<SettingsView, Seq<char>>),
    Recorded { change: Change, stored: Result<Seq<EntryView>, Seq<char>> },
    Listed { current_id: Seq<char>, sessions: Result<Seq<SummaryView>, Seq<char>> },
    Loaded { current_id: Seq<char>, session: Result<(Seq<EntryView>, Usage), Seq<char>> },
}

impl DeepView for CommandReply {
    type V = ReplyView;

    open spec fn deep_view(&self) -> ReplyView {
        match *self {
            CommandReply::Ran => ReplyView::Ran,
            CommandReply::Cleared(error) => ReplyView::Cleared(error.deep_view()),
            CommandReply::Resolved(resolved) => ReplyView::Resolved(
                match resolved {
                    Ok(settings) => Ok(settings.deep_view()),
                    Err(e) => Err(e@),
                },
            ),
            CommandReply::Recorded { change, stored } => ReplyView::Recorded {
                change,
                stored: match stored {
                    Ok(entries) => Ok(entries.deep_view()),
                    Err(e) => Err(e@),
                },
            },
            CommandReply::Listed { current_id, sessions } => ReplyView::Listed {
                current_id: current_id@,
                sessions: match sessions {
                    Ok(sessions) => Ok(sessions.deep_view()),
                    Err(e) => Err(e@),
                },
            },
            CommandReply::Loaded { current_id, session } => ReplyView::Loaded {
                current_id: current_id@,
                session: match session {
                    Ok((entries, usage)) => Ok((entries.deep_view(), usage)),
                    Err(e) => Err(e@),
                },
            },
        }
    }
}

/// An agent, what it shows and what it asks for next.
#[verifier::ext_equal]
pub struct Handled {
    pub agent: AgentView,
    pub shown: Seq<AgentEventView>,
    pub step: CommandStepView,
}

/// How a command begins. While nothing runs, every input starts a run.
pub open spec fn command_begun(a: AgentView, command: CommandView) -> Handled {
    match command {
        CommandView::UserInput(input) | CommandView::Steer(input)
        | CommandView::FollowUp(input) => Handled {
            agent: a,
            shown: seq![],
            step: CommandStepView::Run { input },
        },
        CommandView::Compact => Handled {
            agent: a,
            shown: seq![],
            step: CommandStepView::Compact,
        },
        CommandView::ClearConversation => Handled {
            agent: a,
            shown: seq![],
            step: CommandStepView::Clear,
        },
        CommandView::SwitchProvider(provider) => Handled {
            agent: a,
            shown: seq![],
            step: CommandStepView::Resolve { provider },
        },
        CommandView::SetModel(model) => {
            let settings = SettingsView { model, ..a.settings };
            Handled {
                agent: AgentView { settings, ..a },
                shown: seq![],
                step: CommandStepView::Record { fact: model_fact(settings), change: Change::Model },
            }
        },
        CommandView::ListSessions => Handled {
            agent: a,
            shown: seq![],
            step: CommandStepView::List,
        },
        CommandView::LoadSession(id) => Handled {
            agent: a,
            shown: seq![],
            step: CommandStepView::Load { id },
        },
        CommandView::Shutdown => Handled {
            agent: a,
            shown: seq![],
            step: CommandStepView::Done { more: false },
        },
    }
}

/// What is said of the model that is at work now.
pub open spec fn change_shown(label: Seq<char>, change: Change) -> Seq<AgentEventView> {
    seq![
        AgentEventView::ProviderChanged { label },
        AgentEventView::Notice(
            match change {
                Change::Provider => "已切换到 "@ + label + "(历史保留)"@,
                Change::Model => "模型已设为 "@ + label,
            },
        ),
    ]
}

/// How a command goes on. What failed changes nothing but for the choice of a model, which is made
/// although it may not be stored.
pub open spec fn reply_taken(a: AgentView, reply: ReplyView) -> Handled {
    let done = CommandStepView::Done { more: true };
    match reply {
        ReplyView::Ran => Handled { agent: a, shown: seq![], step: done },
        ReplyView::Cleared(None) => Handled {
            agent: AgentView {
                entries: seq![],
                usage_total: no_usage(),
                grants: Set::empty(),
                ..a
            },
            shown: seq![AgentEventView::ConversationCleared],
            step: done,
        },
        ReplyView::Cleared(Some(e)) => Handled {
            agent: a,
            shown: seq![AgentEventView::Error("清空会话数据库失败: "@ + e)],
            step: done,
        },
        ReplyView::Resolved(Ok(settings)) => Handled {
            agent: AgentView { api: settings.api, settings, budget: budget_of(settings), ..a },
            shown: seq![],
            step: CommandStepView::Record { fact: model_fact(settings), change: Change::Provider },
        },
        ReplyView::Resolved(Err(e)) => Handled {
            agent: a,
            shown: seq![AgentEventView::Error("切换失败: "@ + e)],
            step: done,
        },
        ReplyView::Recorded { change, stored: Ok(entries) } => Handled {
            agent: AgentView { entries: a.entries + entries, ..a },
            shown: change_shown(label_of(a.settings), change),
            step: done,
        },
        ReplyView::Recorded { change, stored: Err(e) } => Handled {
            agent: a,
            shown: seq![commit_failure(e)] + change_shown(label_of(a.settings), change),
            step: done,
        },
        ReplyView::Listed { current_id, sessions: Ok(sessions) } => Handled {
            agent: a,
            shown: seq![AgentEventView::SessionsListed { current_id, sessions }],
            step: done,
        },
        ReplyView::Listed { current_id, sessions: Err(e) } => Handled {
            agent: a,
            shown: seq![AgentEventView::Error("读取会话列表失败: "@ + e)],
            step: done,
        },
        ReplyView::Loaded { current_id, session: Ok((entries, usage)) } => Handled {
            agent: AgentView { entries, usage_total: usage, grants: Set::empty(), ..a },
            shown: seq![
                AgentEventView::SessionLoaded {
                    id: current_id,
                    entries,
                    input_tokens: usage.input_tokens,
                    output_tokens: usage.output_tokens,
                    cache: usage.cache,
                },
            ],
            step: done,
        },
        ReplyView::Loaded { current_id, session: Err(e) } => Handled {
            agent: a,
            shown: seq![AgentEventView::Error("恢复会话失败: "@ + e)],
            step: done,
        },
    }
}

impl Agent {
    /// Takes a command.
    pub fn handle_command(&mut self, command: AgentCommand) -> (step: CommandStep)
        ensures
            ({
                let h = command_begun(old(self).deep_view(), command.deep_view());
                final(self).deep_view() == h.agent && step.deep_view() == h.step
            }),
    {
        match command {
            AgentCommand::UserInput(input) => CommandStep::Run { input },
            AgentCommand::Steer(input) => CommandStep::Run { input },
            AgentCommand::FollowUp(input) => CommandStep::Run { input },
            AgentCommand::Compact => CommandStep::Compact,
            AgentCommand::ClearConversation => CommandStep::Clear,
            AgentCommand::SwitchProvider(provider) => CommandStep::Resolve { provider },
            AgentCommand::SetModel(model) => {
                let fact = self.set_model(model);
                CommandStep::Record { fact, change: Change::Model }
            },
            AgentCommand::ListSessions => CommandStep::List,
            AgentCommand::LoadSession(id) => CommandStep::Load { id },
            AgentCommand::Shutdown => CommandStep::Done { more: false },
        }
    }

    /// Takes what came of a step.
    pub fn take_reply(&mut self, reply: CommandReply, events: &mut Vec<AgentEvent>) -> (step:
        CommandStep)
        ensures
            ({
                let h = reply_taken(old(self).deep_view(), reply.deep_view());
                &&& final(self).deep_view() == h.agent
                &&& final(events).deep_view() == old(events).deep_view() + h.shown
                &&& step.deep_view() == h.step
            }),
    {
        let ghost h = reply_taken(self.deep_view(), reply.deep_view());
        let ghost before = events.deep_view();
        let mut step = CommandStep::Done { more: true };
        match reply {
            CommandReply::Ran => {},
            CommandReply::Cleared(error) => self.cleared(error, events),
            CommandReply::Resolved(resolved) => {
                if let Some(fact) = self.switch_provider(resolved, events) {
                    step = CommandStep::Record { fact, change: Change::Provider };
                }
            },
            CommandReply::Recorded { change, stored } => {
                match stored {
                    Ok(entries) => self.stored(entries),
                    Err(e) => show_commit_failure(e.as_str(), events),
                }
                match change {
                    Change::Provider => self.announce_provider(events),
                    Change::Model => self.announce_model(events),
                }
            },
            CommandReply::Listed { current_id, sessions } => {
                show_sessions(current_id.as_str(), sessions, events);
            },
            CommandReply::Loaded { current_id, session } => match session {
                Ok((entries, usage)) => self.loaded(current_id, entries, usage, events),
                Err(e) => show_load_failure(e.as_str(), events),
            },
        }
        assert(events.deep_view() =~= before + h.shown);
        step
    }
}

// ---- Laws ----

/// Whatever is switched, the history stays: of the commands only a cleared and a read session
/// replace it.
pub proof fn law_switching_keeps_the_history(a: AgentView, command: CommandView, reply: ReplyView)
    requires
        !(reply is Cleared) && !(reply is Loaded),
    ensures
        command_begun(a, command).agent.entries == a.entries,
        a.entries.is_prefix_of(reply_taken(a, reply).agent.entries),
{
}

/// Grants are given for one session: where another begins, none is left.
pub proof fn law_grants_end_with_their_session(a: AgentView, reply: ReplyView)
    requires
        reply == ReplyView::Cleared(None) || (reply matches ReplyView::Loaded { session, .. }
            && session is Ok),
    ensures
        reply_taken(a, reply).agent.grants == Set::<Seq<char>>::empty(),
{
}

/// Only one command ends the work.
pub proof fn law_only_shutdown_ends(a: AgentView, command: CommandView, reply: ReplyView)
    ensures
        command_begun(a, command).step == (CommandStepView::Done { more: false }) <==> command
            is Shutdown,
        reply_taken(a, reply).step != (CommandStepView::Done { more: false }),
{
}

/// No command touches the permission rules.
pub proof fn law_rules_stay(a: AgentView, command: CommandView, reply: ReplyView)
    ensures
        command_begun(a, command).agent.rules == a.rules,
        reply_taken(a, reply).agent.rules == a.rules,
{
}

/// A whole switch to another provider. Where the configuration does not have it, nothing changes,
/// and one error is all that is shown. Where it does, later requests go by its interface and its
/// settings, and the history stays: the log grows by what is stored of the switch, and the model
/// is shown what it was shown before.
pub proof fn law_a_whole_switch(
    a: AgentView,
    provider: Seq<char>,
    resolved: Result<SettingsView, Seq<char>>,
    stored: Result<Seq<EntryView>, Seq<char>>,
)
    requires
        resolved matches Ok(settings) ==> (stored matches Ok(added) ==> payloads_of(added) == seq![
            model_fact(settings),
        ]),
    ensures
        ({
            let begun = command_begun(a, CommandView::SwitchProvider(provider));
            let next = reply_taken(begun.agent, ReplyView::Resolved(resolved));
            &&& begun.agent == a
            &&& begun.shown.len() == 0
            &&& begun.step == CommandStepView::Resolve { provider }
            &&& match resolved {
                Err(_) => {
                    &&& next.agent == a
                    &&& next.shown.len() == 1 && next.shown[0] is Error
                    &&& next.step == CommandStepView::Done { more: true }
                },
                Ok(settings) => {
                    let end = reply_taken(
                        next.agent,
                        ReplyView::Recorded { change: Change::Provider, stored },
                    );
                    let log = payloads_of(end.agent.entries);
                    let log_before = payloads_of(a.entries);
                    &&& next.step == CommandStepView::Record {
                        fact: model_fact(settings),
                        change: Change::Provider,
                    }
                    &&& end.step == CommandStepView::Done { more: true }
                    &&& end.agent.api == settings.api
                    &&& end.agent.settings == settings
                    &&& end.agent.budget == budget_of(settings)
                    &&& end.agent.rules == a.rules
                    &&& end.agent.grants == a.grants
                    &&& end.agent.usage_total == a.usage_total
                    &&& a.entries.is_prefix_of(end.agent.entries)
                    &&& repaired(spoken(since_compaction(log)), seq![]) == repaired(
                        spoken(since_compaction(log_before)),
                        seq![],
                    )
                },
            }
        }),
{
    if let Ok(settings) = resolved {
        if let Ok(added) = stored {
            let log = payloads_of(a.entries);
            assert(payloads_of(added).len() == added.len());
            assert(payloads_of(added)[0] == model_fact(settings));
            assert(payloads_of(a.entries + added) =~= log.push(model_fact(settings)));
            law_ui_facts_do_not_reach_the_model(log, model_fact(settings));
        }
    }
}

} // verus!
