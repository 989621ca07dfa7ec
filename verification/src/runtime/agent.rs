//! What an agent knows, and what its commands do to it.
use vstd::prelude::*;

use crate::config::{ApiKind, ProviderSettings, SettingsView};
use crate::context::budget::{
    apply_budget, estimate, estimate_by_chars, fold_notice, folded, total_folds, BudgetDecision,
    ContextBudget,
};
use crate::context::instructions::Instructions;
use crate::context::skills::SkillsContext;
use crate::context::workspace_info::{environment_text, WorkspaceInfo};
use crate::context::{system_of, with_section, ContextProvider, PromptContext, PromptView};
use crate::event::{AgentCommand, AgentEvent, AgentEventView, CommandView};
use crate::json::printed_json;
use crate::list::{empty, extend, pull, put, take_all, take_next};
use crate::message::{ChatMessage, MessageView, Usage};
use crate::permission::{PermissionManager, PermissionRules};
use crate::provider::{build_provider, label_of, AnyProvider, Provider};
use crate::runtime::preflight::show_warnings;
use crate::session::{
    baseline, capped, copy_entries, payloads_of, plan_notes, project_model_messages, repair_notes, repaired,
    since_compaction, spoken, tail_cost, EntryView, ModelChangeRecord, ModelProjection, PayloadView,
    SessionEntry, SessionEntryPayload,
};
use crate::skills::catalog_text;
use crate::storage::SessionSummary;
use crate::text::{concat2, concat3, dec, decimal};
use crate::tools::{ToolSpec, ToolSpecView};
use crate::workspace::Workspace;

verus! {

/// Whether `p` is the model's view of these facts.
pub open spec fn projects(entries: Seq<EntryView>, p: ModelProjection) -> bool {
    let log = payloads_of(entries);
    let current = since_compaction(log);
    &&& p.messages.deep_view() == repaired(spoken(current), seq![])
    &&& p.diagnostics.deep_view() == repair_notes(spoken(current), seq![]) + plan_notes(log)
    &&& p.known_token_baseline == baseline(current)
    &&& p.tail_chars_after_baseline == capped(tail_cost(current))
}

/// The budget of a model: what it may answer is kept free.
pub open spec fn budget_of(settings: SettingsView) -> ContextBudget {
    ContextBudget {
        context_window: settings.context_window,
        reserve_output: match settings.max_tokens {
            Some(n) => n,
            None => 8192,
        },
    }
}

pub fn budget_from_settings(settings: &ProviderSettings) -> (b: ContextBudget)
    ensures
        b == budget_of(settings.deep_view()),
{
    ContextBudget {
        context_window: settings.context_window,
        reserve_output: match settings.max_tokens {
            Some(n) => n,
            None => 8192,
        },
    }
}

/// The characters that the declarations of some tools add to a request.
pub open spec fn specs_cost(specs: Seq<ToolSpecView>) -> nat
    decreases specs.len(),
{
    if specs.len() == 0 {
        0
    } else {
        let spec = specs.last();
        specs_cost(specs.drop_last()) + spec.name.len() + spec.description.len() + printed_json(
            spec.schema,
        ).len() + 32
    }
}

pub fn tool_spec_chars(specs: &Vec<ToolSpec>) -> (r: u64)
    ensures
        r == capped(specs_cost(specs.deep_view())),
{
    let ghost all = specs.deep_view();
    let mut chars: u64 = 0;
    let mut i: usize = 0;
    while i < specs.len()
        invariant
            i <= specs@.len(),
            all == specs.deep_view(),
            chars == capped(specs_cost(all.take(i as int))),
        decreases specs@.len() - i,
    {
        proof {
            take_next(all, i as int);
        }
        assert(all[i as int] == specs@[i as int].deep_view());
        chars = chars.saturating_add(specs[i].name.as_str().unicode_len() as u64);
        chars = chars.saturating_add(specs[i].description.as_str().unicode_len() as u64);
        chars = chars.saturating_add(specs[i].schema.print().as_str().unicode_len() as u64);
        chars = chars.saturating_add(32);
        i = i + 1;
    }
    proof {
        take_all(all);
    }
    chars
}

/// The system part of every prompt: the rules, the place, and the skills where there are any.
pub open spec fn system_prompt(
    instructions: Seq<char>,
    environment: Seq<char>,
    skills: Seq<char>,
) -> PromptView {
    let bare = PromptView { system_sections: seq![], messages: seq![] };
    let placed = with_section(with_section(bare, instructions), environment);
    if skills.len() == 0 {
        placed
    } else {
        with_section(placed, skills)
    }
}

pub fn build_system_prompt(
    instructions: &Instructions,
    info: &WorkspaceInfo,
    skills: &SkillsContext,
    workspace: &Workspace,
) -> (p: PromptContext)
    ensures
        p.deep_view() == system_prompt(
            instructions.content(),
            environment_text(workspace@, info.parts().1, info.parts().0),
            catalog_text(skills.catalog.deep_view().ordered),
        ),
{
    let mut prompt = PromptContext::default();
    instructions.contribute(&mut prompt, workspace);
    info.contribute(&mut prompt, workspace);
    skills.contribute(&mut prompt, workspace);
    prompt
}

pub open spec fn repair_shown(diagnostics: Seq<Seq<char>>) -> Seq<AgentEventView> {
    Seq::new(diagnostics.len(), |i: int| AgentEventView::Notice("历史投影修复: "@ + diagnostics[i]))
}

fn show_repairs(diagnostics: &Vec<String>, events: &mut Vec<AgentEvent>)
    ensures
        final(events).deep_view() == old(events).deep_view() + repair_shown(
            diagnostics.deep_view(),
        ),
{
    let ghost before = events.deep_view();
    let ghost all = diagnostics.deep_view();
    let mut i: usize = 0;
    assert(before + repair_shown(all.take(0)) =~= before);
    while i < diagnostics.len()
        invariant
            i <= diagnostics@.len(),
            all == diagnostics.deep_view(),
            events.deep_view() == before + repair_shown(all.take(i as int)),
        decreases diagnostics@.len() - i,
    {
        proof {
            take_next(all, i as int);
        }
        put(
            events,
            AgentEvent::Notice(concat2("历史投影修复: ", diagnostics[i].as_str())),
        );
        i = i + 1;
        assert(events.deep_view() =~= before + repair_shown(all.take(i as int)));
    }
    proof {
        take_all(all);
    }
}

pub open spec fn refusal_shown(estimated: u64, available: u64) -> AgentEventView {
    AgentEventView::Error(
        "上下文估算约 "@ + dec(estimated as nat) + " tokens,超出可用预算 "@ + dec(available as nat)
            + "(窗口扣除输出预留)。未发送请求;请用 /compact 压缩历史,或 /clear 重新开始。"@,
    )
}

/// What goes to the model, or nothing where it does not fit, and what is shown of it.
pub open spec fn fitted(
    budget: ContextBudget,
    system_chars: u64,
    tools_chars: u64,
    p: ModelProjection,
) -> (Option<Seq<MessageView>>, Seq<AgentEventView>) {
    let original = p.messages.deep_view();
    let repairs = repair_shown(p.diagnostics.deep_view());
    let first = estimate(system_chars, tools_chars, p);
    let second = estimate_by_chars(system_chars, tools_chars, folded(original));
    let count = capped(total_folds(original));
    if budget.available() is None || first <= budget.available()->0 {
        (Some(original), repairs)
    } else if count > 0 && second <= budget.available()->0 {
        (Some(folded(original)), repairs.push(AgentEventView::Notice(fold_notice(count as nat))))
    } else {
        (
            None,
            repairs.push(
                refusal_shown(
                    if count > 0 {
                        second
                    } else {
                        first
                    },
                    budget.available()->0,
                ),
            ),
        )
    }
}

/// Projects the facts to what goes to the model at the next call.
pub fn project_for_model(
    entries: &Vec<SessionEntry>,
    budget: &ContextBudget,
    prompt: &PromptContext,
    specs: &Vec<ToolSpec>,
    events: &mut Vec<AgentEvent>,
) -> (r: Option<Vec<ChatMessage>>)
    ensures
        exists|p: ModelProjection| #[trigger]
            projects(entries.deep_view(), p) && {
                let fit = fitted(
                    *budget,
                    capped(system_of(prompt.deep_view()).len()),
                    capped(specs_cost(specs.deep_view())),
                    p,
                );
                &&& r.deep_view() == fit.0
                &&& final(events).deep_view() == old(events).deep_view() + fit.1
            },
{
    let ghost before = events.deep_view();
    let projection = project_model_messages(entries.as_slice());
    assert(projects(entries.deep_view(), projection));
    let ghost p = projection;
    show_repairs(&projection.diagnostics, events);
    let system_chars: u64 = prompt.system_text().as_str().unicode_len() as u64;
    let tools_chars = tool_spec_chars(specs);
    let ghost fit = fitted(*budget, system_chars, tools_chars, p);
    match apply_budget(budget, system_chars, tools_chars, projection) {
        BudgetDecision::Send { messages, estimated_tokens: _, notices } => {
            show_warnings(&notices, events);
            assert(events.deep_view() =~= before + fit.1);
            Some(messages)
        },
        BudgetDecision::Refuse { estimated_tokens, available_tokens } => {
            let mut text = concat3(
                "上下文估算约 ",
                decimal(estimated_tokens).as_str(),
                " tokens,超出可用预算 ",
            );
            text.push_str(decimal(available_tokens).as_str());
            text.push_str(
                "(窗口扣除输出预留)。未发送请求;请用 /compact 压缩历史,或 /clear 重新开始。",
            );
            put(events, AgentEvent::Error(text));
            assert(events.deep_view() =~= before + fit.1);
            None
        },
    }
}

// ---- The agent ----

/// What an agent keeps in memory. The facts are a mirror of what is stored: they are extended only
/// by what has been stored.
pub struct Agent {
    pub entries: Vec<SessionEntry>,
    pub provider: AnyProvider,
    pub budget: ContextBudget,
    pub usage_total: Usage,
    pub permissions: PermissionManager,
    /// Commands that waited for the end of a run.
    pub deferred: Vec<AgentCommand>,
}

#[verifier::ext_equal]
pub struct AgentView {
    pub entries: Seq<EntryView>,
    /// The interface that requests go by.
    pub api: ApiKind,
    pub settings: SettingsView,
    pub budget: ContextBudget,
    pub usage_total: Usage,
    pub rules: PermissionRules,
    pub grants: Set<Seq<char>>,
    pub deferred: Seq<CommandView>,
}

impl DeepView for Agent {
    type V = AgentView;

    open spec fn deep_view(&self) -> AgentView {
        AgentView {
            entries: self.entries.deep_view(),
            api: self.provider.api(),
            settings: self.provider.settings(),
            budget: self.budget,
            usage_total: self.usage_total,
            rules: self.permissions.rules_spec(),
            grants: self.permissions.grants(),
            deferred: self.deferred.deep_view(),
        }
    }
}

/// No tokens spent yet.
pub open spec fn no_usage() -> Usage {
    Usage { input_tokens: 0, output_tokens: 0, cache: None }
}

impl Agent {
    /// An agent without a past.
    pub fn new(settings: ProviderSettings, permissions: PermissionManager) -> (a: Agent)
        ensures
            a.deep_view() == (AgentView {
                entries: seq![],
                api: settings.api,
                settings: settings.deep_view(),
                budget: budget_of(settings.deep_view()),
                usage_total: no_usage(),
                rules: permissions.rules_spec(),
                grants: permissions.grants(),
                deferred: seq![],
            }),
    {
        let budget = budget_from_settings(&settings);
        Agent {
            entries: empty(),
            provider: build_provider(settings),
            budget,
            usage_total: Usage::default(),
            permissions,
            deferred: empty(),
        }
    }

    pub fn provider_label(&self) -> (s: String)
        ensures
            s@ == label_of(self.deep_view().settings),
    {
        self.provider.label()
    }

    /// The oldest command that waited for the end of a run.
    pub fn take_deferred(&mut self) -> (r: Option<AgentCommand>)
        ensures
            old(self).deep_view().deferred.len() == 0 ==> r is None && final(self).deep_view()
                == old(self).deep_view(),
            old(self).deep_view().deferred.len() > 0 ==> r.deep_view() == Some(
                old(self).deep_view().deferred[0],
            ) && final(self).deep_view() == (AgentView {
                deferred: old(self).deep_view().deferred.drop_first(),
                ..old(self).deep_view()
            }),
    {
        assert(self.deferred.deep_view().len() == self.deferred@.len());
        if self.deferred.len() == 0 {
            None
        } else {
            Some(pull(&mut self.deferred))
        }
    }

    /// A batch of facts has been stored.
    pub fn stored(&mut self, appended: Vec<SessionEntry>)
        ensures
            final(self).deep_view() == (AgentView {
                entries: old(self).deep_view().entries + appended.deep_view(),
                ..old(self).deep_view()
            }),
    {
        extend(&mut self.entries, appended);
    }

    /// The facts of the session have been removed, or could not be.
    pub fn cleared(&mut self, error: Option<String>, events: &mut Vec<AgentEvent>)
        ensures
            match error.deep_view() {
                None => final(self).deep_view() == (AgentView {
                    entries: seq![],
                    usage_total: no_usage(),
                    grants: Set::empty(),
                    ..old(self).deep_view()
                }) && final(events).deep_view() == old(events).deep_view().push(
                    AgentEventView::ConversationCleared,
                ),
                Some(text) => final(self).deep_view() == old(self).deep_view()
                    && final(events).deep_view() == old(events).deep_view().push(
                    AgentEventView::Error("清空会话数据库失败: "@ + text),
                ),
            },
    {
        match error {
            None => {
                self.entries = empty();
                self.usage_total = Usage::default();
                self.permissions.clear_session_grants();
                put(events, AgentEvent::ConversationCleared);
            },
            Some(text) => {
                put(
                    events,
                    AgentEvent::Error(concat2("清空会话数据库失败: ", text.as_str())),
                );
            },
        }
    }

    /// The fact that another model is at work from now on.
    pub fn model_change(&self) -> (p: SessionEntryPayload)
        ensures
            p.deep_view() == model_fact(self.deep_view().settings),
    {
        SessionEntryPayload::ModelChange(
            ModelChangeRecord {
                provider: self.provider.label(),
                model: self.provider.model().to_owned(),
                effort: self.provider.selected_effort().to_owned(),
            },
        )
    }

    /// Goes over to another provider, where the configuration has it. The fact that says so is to
    /// be stored next.
    pub fn switch_provider(&mut self, resolved: Result<ProviderSettings, String>, events: &mut Vec<
        AgentEvent,
    >) -> (r: Option<SessionEntryPayload>)
        ensures
            match resolved {
                Ok(settings) => final(self).deep_view() == (AgentView {
                    api: settings.api,
                    settings: settings.deep_view(),
                    budget: budget_of(settings.deep_view()),
                    ..old(self).deep_view()
                }) && r.deep_view() == Some(model_fact(settings.deep_view()))
                    && final(events).deep_view() == old(events).deep_view(),
                Err(text) => final(self).deep_view() == old(self).deep_view() && r is None
                    && final(events).deep_view() == old(events).deep_view().push(
                    AgentEventView::Error("切换失败: "@ + text@),
                ),
            },
    {
        match resolved {
            Ok(settings) => {
                self.budget = budget_from_settings(&settings);
                self.provider = build_provider(settings);
                Some(self.model_change())
            },
            Err(text) => {
                put(events, AgentEvent::Error(concat2("切换失败: ", text.as_str())));
                None
            },
        }
    }

    /// Says that another provider is at work.
    pub fn announce_provider(&self, events: &mut Vec<AgentEvent>)
        ensures
            final(events).deep_view() == old(events).deep_view().push(
                AgentEventView::ProviderChanged { label: label_of(self.deep_view().settings) },
            ).push(
                AgentEventView::Notice(
                    "已切换到 "@ + label_of(self.deep_view().settings) + "(历史保留)"@,
                ),
            ),
    {
        let label = self.provider.label();
        let text = concat3("已切换到 ", label.as_str(), "(历史保留)");
        put(events, AgentEvent::ProviderChanged { label });
        put(events, AgentEvent::Notice(text));
    }

    /// Goes over to another model of the same provider. The fact that says so is to be stored
    /// next.
    pub fn set_model(&mut self, model: String) -> (p: SessionEntryPayload)
        ensures
            final(self).deep_view() == (AgentView {
                settings: SettingsView { model: model@, ..old(self).deep_view().settings },
                ..old(self).deep_view()
            }),
            p.deep_view() == model_fact(final(self).deep_view().settings),
    {
        self.provider.set_model(model);
        self.model_change()
    }

    /// Says that another model is at work.
    pub fn announce_model(&self, events: &mut Vec<AgentEvent>)
        ensures
            final(events).deep_view() == old(events).deep_view().push(
                AgentEventView::ProviderChanged { label: label_of(self.deep_view().settings) },
            ).push(AgentEventView::Notice("模型已设为 "@ + label_of(self.deep_view().settings))),
    {
        let label = self.provider.label();
        let text = concat2("模型已设为 ", label.as_str());
        put(events, AgentEvent::ProviderChanged { label });
        put(events, AgentEvent::Notice(text));
    }

    /// A stored session has been read.
    pub fn loaded(
        &mut self,
        id: String,
        entries: Vec<SessionEntry>,
        usage: Usage,
        events: &mut Vec<AgentEvent>,
    )
        ensures
            final(self).deep_view() == (AgentView {
                entries: entries.deep_view(),
                usage_total: usage,
                grants: Set::empty(),
                ..old(self).deep_view()
            }),
            final(events).deep_view() == old(events).deep_view().push(
                AgentEventView::SessionLoaded {
                    id: id@,
                    entries: entries.deep_view(),
                    input_tokens: usage.input_tokens,
                    output_tokens: usage.output_tokens,
                    cache: usage.cache,
                },
            ),
    {
        self.permissions.clear_session_grants();
        let copy = copy_entries(&entries);
        self.entries = entries;
        self.usage_total = usage;
        put(
            events,
            AgentEvent::SessionLoaded {
                id,
                entries: copy,
                input_tokens: usage.input_tokens,
                output_tokens: usage.output_tokens,
                cache: usage.cache,
            },
        );
    }
}

/// The fact that a model is at work.
pub open spec fn model_fact(settings: SettingsView) -> PayloadView {
    PayloadView::ModelChange {
        provider: label_of(settings),
        model: settings.model,
        effort: settings.selected_effort,
    }
}

/// Says why a session could not be read; nothing changes.
pub fn show_load_failure(error: &str, events: &mut Vec<AgentEvent>)
    ensures
        final(events).deep_view() == old(events).deep_view().push(
            AgentEventView::Error("恢复会话失败: "@ + error@),
        ),
{
    put(events, AgentEvent::Error(concat2("恢复会话失败: ", error)));
}

/// Shows the sessions, or why they could not be listed.
pub fn show_sessions(
    current_id: &str,
    listed: Result<Vec<SessionSummary>, String>,
    events: &mut Vec<AgentEvent>,
)
    ensures
        final(events).deep_view() == old(events).deep_view().push(
            match listed {
                Ok(sessions) => AgentEventView::SessionsListed {
                    current_id: current_id@,
                    sessions: sessions.deep_view(),
                },
                Err(text) => AgentEventView::Error("读取会话列表失败: "@ + text@),
            },
        ),
{
    match listed {
        Ok(sessions) => put(
            events,
            AgentEvent::SessionsListed { current_id: current_id.to_owned(), sessions },
        ),
        Err(text) => put(
            events,
            AgentEvent::Error(concat2("读取会话列表失败: ", text.as_str())),
        ),
    }
}

} // verus!
