//! What holds of prompts, commands and turns, case by case.
use vstd::prelude::*;

use crate::config::SettingsView;
use crate::context::budget::{estimate, estimate_by_chars, folded, total_folds, ContextBudget};
use crate::context::workspace_info::environment_text;
use crate::event::{AgentEventView, CommandView};
use crate::json::printed_json;
use crate::message::{uses_of, BlockView, MessageView, Role, Usage};
use crate::provider::{FailedView, TerminalView, TurnView};
use crate::runtime::agent::{budget_of, fitted, projects, specs_cost, system_prompt, AgentView};
use crate::runtime::commands::{command_begun, reply_taken, Change, CommandStepView, ReplyView};
use crate::runtime::queues::{
    dropped_all, input_taken, run_ended, sorted_all, steering_taken, QueuesView, Sorted,
};
use crate::runtime::retry::{
    after_attempt, backoff_of, doublings, jitter_parts, two_to, wait_after, CallView, RetryPolicy,
};
use crate::runtime::run::{
    advanced, begun, first_unanswerable, InputView, PhaseView, RunStepView, RunView,
};
use crate::session::{
    baseline, payloads_of, plan_notes, repair_notes, repaired, since_compaction, spoken, tail_cost,
    EntryView, ModelProjection, NoticeLevel, PayloadView,
};
use crate::storage::SummaryView;
use crate::text::{dec, quoted_text, trimmed};
use crate::time::{tenths_of, Duration};
use crate::tools::ToolSpecView;

verus! {

// ---- Prompts ----

/// A prompt says the rules first, then where the work is done, then which skills there are, where there
/// are some.
pub proof fn law_prompts_have_their_sections(rules: Seq<char>, place: Seq<char>, skills: Seq<char>)
    ensures
        system_prompt(rules, place, skills).messages.len() == 0,
        skills.len() == 0 ==> system_prompt(rules, place, skills).system_sections == seq![rules, place],
        skills.len() > 0 ==> system_prompt(rules, place, skills).system_sections == seq![
            rules,
            place,
            skills,
        ],
{
    if skills.len() == 0 {
        assert(system_prompt(rules, place, skills).system_sections =~= seq![rules, place]);
    } else {
        assert(system_prompt(rules, place, skills).system_sections =~= seq![rules, place, skills]);
    }
}

/// Where the work is done: the directory, the system and the shell, each on a line.
pub proof fn law_places_are_described(root: Seq<char>, os: Seq<char>, shell: Seq<char>)
    ensures
        environment_text(root, os, shell) == "Environment:\n- Working directory: "@ + root + "\n- OS: "@
            + os + "\n- Shell for run_command: "@ + shell,
{
}

/// The window of a model is that of its settings; as much as it may answer is kept free, or eight
/// thousand tokens where that is not known.
pub proof fn law_budgets_follow_the_settings(settings: SettingsView)
    ensures
        budget_of(settings).context_window == settings.context_window,
        settings.max_tokens matches Some(n) ==> budget_of(settings).reserve_output == n,
        settings.max_tokens is None ==> budget_of(settings).reserve_output == 8192,
{
}

/// A declaration costs its name, its description and its schema as it is printed, and thirty-two
/// characters more.
pub proof fn law_declarations_cost(specs: Seq<ToolSpecView>, spec: ToolSpecView)
    ensures
        specs_cost(seq![]) == 0,
        specs_cost(specs.push(spec)) == specs_cost(specs) + spec.name.len() + spec.description.len()
            + printed_json(spec.schema).len() + 32,
{
    assert(specs.push(spec).drop_last() =~= specs);
}

/// The model is shown the log from its last summary on, repaired; the repairs are remarked on, and then
/// the plan updates that were skipped.
pub proof fn law_the_log_is_projected(entries: Seq<EntryView>, p: ModelProjection)
    requires
        projects(entries, p),
    ensures
        ({
            let log = payloads_of(entries);
            let current = since_compaction(log);
            &&& p.messages.deep_view() == repaired(spoken(current), seq![])
            &&& p.diagnostics.deep_view() == repair_notes(spoken(current), seq![]) + plan_notes(log)
            &&& p.known_token_baseline == baseline(current)
            &&& tail_cost(current) <= u64::MAX ==> p.tail_chars_after_baseline == tail_cost(current)
        }),
{
}

/// A request goes out as it is where it fits, and with old results folded where that helps; otherwise
/// it does not go out. Repairs are shown first, and then what was folded or why nothing was sent.
pub proof fn law_requests_fit_the_budget(
    budget: ContextBudget,
    system: u64,
    tools: u64,
    p: ModelProjection,
    available: u64,
)
    requires
        total_folds(p.messages.deep_view()) <= u64::MAX,
    ensures
        ({
            let (sent, shown) = fitted(budget, system, tools, p);
            let messages = p.messages.deep_view();
            let repairs = p.diagnostics.deep_view();
            let first = estimate(system, tools, p);
            let second = estimate_by_chars(system, tools, folded(messages));
            let count = total_folds(messages);
            &&& shown.len() >= repairs.len()
            &&& forall|i: int|
                0 <= i < repairs.len() ==> (#[trigger] shown[i]) == AgentEventView::Notice(
                    "历史投影修复: "@ + repairs[i],
                )
            &&& budget.available() is None ==> sent == Some(messages) && shown.len() == repairs.len()
            &&& budget.available() == Some(available) ==> {
                &&& first <= available ==> sent == Some(messages) && shown.len() == repairs.len()
                &&& first > available && count > 0 && second <= available ==> sent == Some(
                    folded(messages),
                ) && shown.len() == repairs.len() + 1 && shown.last() == AgentEventView::Notice(
                    "上下文接近预算,已在本轮视图中折叠 "@ + dec(count)
                        + " 个旧工具结果(事实日志未修改)"@,
                )
                &&& first > available && count == 0 ==> sent is None && shown.len() == repairs.len() + 1
                    && shown.last() == AgentEventView::Error(
                    "上下文估算约 "@ + dec(first as nat) + " tokens,超出可用预算 "@ + dec(
                        available as nat,
                    )
                        + "(窗口扣除输出预留)。未发送请求;请用 /compact 压缩历史,或 /clear 重新开始。"@,
                )
                &&& first > available && count > 0 && second > available ==> sent is None && shown.len()
                    == repairs.len() + 1 && shown.last() == AgentEventView::Error(
                    "上下文估算约 "@ + dec(second as nat) + " tokens,超出可用预算 "@ + dec(
                        available as nat,
                    )
                        + "(窗口扣除输出预留)。未发送请求;请用 /compact 压缩历史,或 /clear 重新开始。"@,
                )
            }
        }),
{
}

// ---- Commands ----

/// While nothing runs, every input starts a run, and every other command leads to what it asks for.
pub proof fn law_commands_begin(a: AgentView, text: Seq<char>)
    ensures
        command_begun(a, CommandView::UserInput(text)).step == (CommandStepView::Run { input: text }),
        command_begun(a, CommandView::Steer(text)).step == (CommandStepView::Run { input: text }),
        command_begun(a, CommandView::FollowUp(text)).step == (CommandStepView::Run { input: text }),
        command_begun(a, CommandView::Compact).step == CommandStepView::Compact,
        command_begun(a, CommandView::ClearConversation).step == CommandStepView::Clear,
        command_begun(a, CommandView::SwitchProvider(text)).step == (CommandStepView::Resolve {
            provider: text,
        }),
        command_begun(a, CommandView::ListSessions).step == CommandStepView::List,
        command_begun(a, CommandView::LoadSession(text)).step == (CommandStepView::Load { id: text }),
        command_begun(a, CommandView::UserInput(text)).agent == a,
        command_begun(a, CommandView::Compact).agent == a,
        ({
            let set = command_begun(a, CommandView::SetModel(text));
            &&& set.agent.settings.model == text
            &&& set.agent.settings.name == a.settings.name
            &&& set.agent.entries == a.entries
            &&& set.step == (CommandStepView::Record {
                fact: PayloadView::ModelChange {
                    provider: a.settings.name + " / "@ + text,
                    model: text,
                    effort: a.settings.selected_effort,
                },
                change: Change::Model,
            })
        }),
{
}

/// What comes back from a command is shown, and changes what it is about. What failed is shown as an
/// error.
pub proof fn law_commands_are_answered(
    a: AgentView,
    error: Seq<char>,
    settings: SettingsView,
    entries: Seq<EntryView>,
    usage: Usage,
    id: Seq<char>,
    sessions: Seq<SummaryView>,
)
    ensures
        ({
            let cleared = reply_taken(a, ReplyView::Cleared(None));
            &&& cleared.agent.entries.len() == 0
            &&& cleared.agent.usage_total == (Usage { input_tokens: 0, output_tokens: 0, cache: None })
            &&& cleared.shown == seq![AgentEventView::ConversationCleared]
        }),
        reply_taken(a, ReplyView::Cleared(Some(error))).agent == a,
        reply_taken(a, ReplyView::Cleared(Some(error))).shown == seq![
            AgentEventView::Error("清空会话数据库失败: "@ + error),
        ],
        reply_taken(a, ReplyView::Resolved(Err(error))).shown == seq![
            AgentEventView::Error("切换失败: "@ + error),
        ],
        ({
            let switched = reply_taken(a, ReplyView::Resolved(Ok(settings)));
            &&& switched.agent.settings == settings
            &&& switched.agent.api == settings.api
            &&& switched.agent.budget == budget_of(settings)
            &&& switched.step == (CommandStepView::Record {
                fact: PayloadView::ModelChange {
                    provider: settings.name + " / "@ + settings.model,
                    model: settings.model,
                    effort: settings.selected_effort,
                },
                change: Change::Provider,
            })
        }),
        ({
            let label = a.settings.name + " / "@ + a.settings.model;
            let kept = reply_taken(
                a,
                ReplyView::Recorded { change: Change::Provider, stored: Ok(entries) },
            );
            let set = reply_taken(a, ReplyView::Recorded { change: Change::Model, stored: Ok(entries) });
            &&& kept.agent.entries == a.entries + entries
            &&& kept.shown == seq![
                AgentEventView::ProviderChanged { label },
                AgentEventView::Notice("已切换到 "@ + label + "(历史保留)"@),
            ]
            &&& set.shown == seq![
                AgentEventView::ProviderChanged { label },
                AgentEventView::Notice("模型已设为 "@ + label),
            ]
            &&& reply_taken(
                a,
                ReplyView::Recorded { change: Change::Model, stored: Err(error) },
            ).agent == a
            &&& reply_taken(
                a,
                ReplyView::Recorded { change: Change::Model, stored: Err(error) },
            ).shown[0] == AgentEventView::Error(
                "保存会话失败,本批事实未写入,已停止本轮以避免内存与磁盘历史分叉: "@ + error,
            )
        }),
        reply_taken(a, ReplyView::Listed { current_id: id, sessions: Ok(sessions) }).shown == seq![
            AgentEventView::SessionsListed { current_id: id, sessions },
        ],
        reply_taken(a, ReplyView::Listed { current_id: id, sessions: Err(error) }).shown == seq![
            AgentEventView::Error("读取会话列表失败: "@ + error),
        ],
        ({
            let read = reply_taken(
                a,
                ReplyView::Loaded { current_id: id, session: Ok((entries, usage)) },
            );
            &&& read.agent.entries == entries
            &&& read.agent.usage_total == usage
            &&& read.shown == seq![
                AgentEventView::SessionLoaded {
                    id,
                    entries,
                    input_tokens: usage.input_tokens,
                    output_tokens: usage.output_tokens,
                    cache: usage.cache,
                },
            ]
        }),
        reply_taken(a, ReplyView::Loaded { current_id: id, session: Err(error) }).agent == a,
        reply_taken(a, ReplyView::Loaded { current_id: id, session: Err(error) }).shown == seq![
            AgentEventView::Error("恢复会话失败: "@ + error),
        ],
        reply_taken(a, ReplyView::Ran).agent == a,
        reply_taken(a, ReplyView::Ran).shown.len() == 0,
        reply_taken(a, ReplyView::Ran).step == (CommandStepView::Done { more: true }),
{
    reveal_strlit(" / ");
}

// ---- Queues ----

/// Queued input is taken from the front: corrections before what follows.
pub proof fn law_queued_input_is_taken_from_the_front(q: QueuesView, text: Seq<char>)
    ensures
        ({
            let steered = QueuesView { steering: seq![text] + q.steering, follow_up: q.follow_up };
            let following = QueuesView { steering: seq![], follow_up: seq![text] + q.follow_up };
            &&& steering_taken(steered) == (q, Some(text))
            &&& input_taken(steered) == (q, Some(text))
            &&& input_taken(following).1 == Some(text)
            &&& input_taken(following).0.follow_up == q.follow_up
            &&& input_taken(following).0.steering.len() == 0
            &&& steering_taken(following) == (following, None::<Seq<char>>)
        }),
{
    let steered = QueuesView { steering: seq![text] + q.steering, follow_up: q.follow_up };
    let following = QueuesView { steering: seq![], follow_up: seq![text] + q.follow_up };
    assert(steered.steering.drop_first() =~= q.steering);
    assert(following.follow_up.drop_first() =~= q.follow_up);
}

/// A run that was cancelled drops the input that waits and keeps every other command, in order.
pub proof fn law_cancelled_runs_drop_input(
    s: (nat, Seq<CommandView>),
    commands: Seq<CommandView>,
    command: CommandView,
)
    ensures
        dropped_all(s, seq![]) == s,
        command is UserInput || command is Steer || command is FollowUp ==> dropped_all(
            s,
            commands.push(command),
        ) == (dropped_all(s, commands).0 + 1, dropped_all(s, commands).1),
        !(command is UserInput || command is Steer || command is FollowUp) ==> dropped_all(
            s,
            commands.push(command),
        ) == (dropped_all(s, commands).0, dropped_all(s, commands).1.push(command)),
{
    assert(commands.push(command).drop_last() =~= commands);
}

/// How much was dropped is said at the end of a run that was cancelled.
pub proof fn law_cancelled_runs_say_what_they_drop(
    q: QueuesView,
    waiting: Seq<CommandView>,
    deferred: Seq<CommandView>,
)
    ensures
        ({
            let n = q.steering.len() + q.follow_up.len() + dropped_all((0, deferred), waiting).0;
            let (kept, shown) = run_ended(q, waiting, true, deferred);
            &&& kept == dropped_all((0, deferred), waiting).1
            &&& n == 0 ==> shown == seq![AgentEventView::TurnFinished { cancelled: true }]
            &&& n > 0 ==> shown == seq![
                AgentEventView::Notice("本轮结束,已丢弃 "@ + dec(n) + " 条未注入的排队输入"@),
                AgentEventView::TurnFinished { cancelled: true },
            ]
        }),
{
}

/// What arrives during a run is remarked on where it is not what it was meant to be.
pub proof fn law_arrivals_are_remarked_on(s: Sorted, text: Seq<char>)
    ensures
        sorted_all(s, seq![CommandView::UserInput(text)]).events == s.events.push(
            AgentEventView::Notice("当前轮进行中:该输入已按 steering 排队,将在本批工具完成后注入"@),
        ),
        sorted_all(s, seq![CommandView::Steer(text)]).events == s.events,
        sorted_all(s, seq![CommandView::FollowUp(text)]).events == s.events,
        sorted_all(s, seq![CommandView::Shutdown]).events == s.events.push(
            AgentEventView::Notice("收到退出请求,正在结束当前轮…"@),
        ),
{
    assert(seq![CommandView::UserInput(text)].drop_last() =~= seq![]);
    assert(seq![CommandView::Steer(text)].drop_last() =~= seq![]);
    assert(seq![CommandView::FollowUp(text)].drop_last() =~= seq![]);
    assert(seq![CommandView::Shutdown].drop_last() =~= seq![]);
    assert(sorted_all(s, seq![]) == s);
}

// ---- Turns ----

/// A run begins with its input, nothing queued, no call made, and what was spent before.
pub proof fn law_runs_begin(input: Seq<char>, max_turns: u32, usage: Usage)
    ensures
        begun(input, max_turns, usage).phase == (PhaseView::Starting { input }),
        begun(input, max_turns, usage).queues.steering.len() == 0,
        begun(input, max_turns, usage).queues.follow_up.len() == 0,
        begun(input, max_turns, usage).deferred.len() == 0,
        begun(input, max_turns, usage).round == 0,
        begun(input, max_turns, usage).max_turns == max_turns,
        !begun(input, max_turns, usage).stop_hook_active,
        begun(input, max_turns, usage).usage == usage,
{
}

/// The model is called as often as it may be; then the run ends and says so. A run that was cancelled
/// makes no call.
pub proof fn law_calls_are_counted(run: RunView, cancelled: bool)
    requires
        run.phase is Injecting,
    ensures
        ({
            let a = advanced(run, InputView::Committed(None), cancelled);
            &&& run.round >= run.max_turns ==> a.step == (RunStepView::Finish { cancelled: false })
                && a.shown == seq![
                AgentEventView::Notice(
                    "连续调用模型达到上限("@ + dec(run.max_turns as nat)
                        + " 次),强制结束本轮;可直接输入\"继续\"接着跑"@,
                ),
            ]
            &&& run.round < run.max_turns && cancelled ==> a.step == (RunStepView::Finish {
                cancelled: true,
            })
            &&& run.round < run.max_turns && !cancelled ==> a.step == RunStepView::Call && a.run.round
                == run.round + 1 && a.run.phase == PhaseView::Asking && a.shown.len() == 0
            &&& a.run.max_turns == run.max_turns
            &&& a.run.usage == run.usage
            &&& a.run.queues == run.queues
            &&& a.run.deferred == run.deferred
        }),
{
    let none: Seq<AgentEventView> = seq![];
    if run.round >= run.max_turns {
        assert(advanced(run, InputView::Committed(None), cancelled).shown.len() == 1);
    }
}

/// Facts that could not be stored end the run, and why is shown; it ends as cancelled only where it was
/// cancelled while the calls were run.
pub proof fn law_unstored_facts_end_the_run(run: RunView, error: Seq<char>, cancelled: bool)
    ensures
        ({
            let a = advanced(run, InputView::Committed(Some(error)), cancelled);
            &&& a.step matches RunStepView::Finish { .. }
            &&& a.shown == seq![
                AgentEventView::Error(
                    "保存会话失败,本批事实未写入,已停止本轮以避免内存与磁盘历史分叉: "@ + error,
                ),
            ]
            &&& !(run.phase is Recording) ==> a.step == (RunStepView::Finish { cancelled: false })
            &&& run.phase matches PhaseView::Recording { cancelled: aborted, .. } ==> a.step == (
            RunStepView::Finish { cancelled: aborted })
        }),
{
}

/// An answer that was cut off is shown to have been; it is stored with that remark for people.
pub proof fn law_cut_answers_are_remarked_on(
    run: RunView,
    answer: PayloadView,
    warnings: Seq<Seq<char>>,
)
    requires
        run.phase == (PhaseView::Stopping { answer, cut: true }),
    ensures
        ({
            let stop = crate::hooks::StopView { prevent_stop: None, warnings };
            let a = advanced(run, InputView::Stopped(stop), false);
            let b = advanced(a.run, InputView::Committed(None), false);
            &&& a.step == (RunStepView::Commit {
                payloads: seq![
                    answer,
                    PayloadView::Notice {
                        text: "输出撞到 max_tokens 上限,可能不完整"@,
                        level: NoticeLevel::Warning,
                    },
                ],
            })
            &&& b.step == RunStepView::Drain
            &&& b.shown == seq![AgentEventView::Notice("输出撞到 max_tokens 上限,可能不完整"@)]
            &&& b.run.phase == (PhaseView::Draining { after_batch: false })
        }),
{
    let stop = crate::hooks::StopView { prevent_stop: None, warnings };
    let a = advanced(run, InputView::Stopped(stop), false);
    assert(a.step->payloads =~= seq![
        answer,
        PayloadView::Notice {
            text: "输出撞到 max_tokens 上限,可能不完整"@,
            level: NoticeLevel::Warning,
        },
    ]);
}

/// The first call that cannot be answered is named.
pub proof fn law_unanswerable_calls_are_named(run: RunView, answer: TurnView, cancelled: bool)
    requires
        run.phase is Asking,
        uses_of(answer.message.blocks).len() > 0,
        trimmed(uses_of(answer.message.blocks)[0].0).len() == 0,
    ensures
        ({
            let call = uses_of(answer.message.blocks)[0];
            advanced(run, InputView::Answered(answer), cancelled).shown.last() == AgentEventView::Error(
                "模型返回了无效工具调用(id="@ + quoted_text(call.0) + ",name="@ + quoted_text(call.1)
                    + ");本次 assistant 消息未写入历史，会话仍可继续"@,
            )
        }),
{
    the_first_is_named(uses_of(answer.message.blocks));
}

proof fn the_first_is_named(calls: Seq<(Seq<char>, Seq<char>, crate::json::JsonView)>)
    requires
        calls.len() > 0,
        trimmed(calls[0].0).len() == 0,
    ensures
        first_unanswerable(calls) == Some(calls[0]),
    decreases calls.len(),
{
    if calls.len() > 1 {
        the_first_is_named(calls.drop_last());
    } else {
        assert(first_unanswerable(calls.drop_last()) is None);
    }
}

/// When a task is done, what is queued goes on with it; where nothing is, the run ends.
pub proof fn law_queued_tasks_follow(run: RunView, text: Seq<char>)
    requires
        run.phase == (PhaseView::Draining { after_batch: false }),
        run.queues.steering.len() == 0,
    ensures
        ({
            let a = advanced(run, InputView::Drained(seq![]), false);
            &&& run.queues.follow_up.len() == 0 ==> a.step == (RunStepView::Finish { cancelled: false })
            &&& run.queues.follow_up.len() > 0 ==> a.step == (RunStepView::Commit {
                payloads: seq![
                    PayloadView::Message {
                        message: MessageView {
                            role: Role::User,
                            blocks: seq![BlockView::Text(run.queues.follow_up[0])],
                        },
                        usage: None,
                        prompt_fingerprint: None,
                    },
                ],
            }) && a.shown == seq![AgentEventView::UserMessage(run.queues.follow_up[0])]
                && a.run.queues.follow_up == run.queues.follow_up.drop_first()
            &&& advanced(run, InputView::Drained(seq![]), true).step == (RunStepView::Finish {
                cancelled: true,
            })
        }),
{
    let s = Sorted { queues: run.queues, deferred: run.deferred, events: seq![], cancel: false };
    assert(sorted_all(s, seq![]) == s);
    let none: Seq<AgentEventView> = seq![];
    assert(none.push(AgentEventView::UserMessage(run.queues.follow_up[0])) =~= seq![
        AgentEventView::UserMessage(run.queues.follow_up[0]),
    ]);
}

// ---- Retries ----

/// A retry says what failed, how long it waits and which attempt of how many it is.
pub proof fn law_retries_are_announced(
    p: RetryPolicy,
    attempt: u32,
    failed: FailedView,
    delay: Duration,
)
    requires
        failed.error.retryable,
        wait_after(p, attempt, failed.error.retry_after) == Some(delay),
    ensures
        after_attempt(p, attempt, TerminalView::Error(failed), false) == (CallView::Wait {
            delay,
            notice: failed.error.message + ","@ + tenths_of(delay) + "s 后重试("@ + dec(attempt as nat)
                + "/"@ + dec((p.max_attempts - 1) as nat) + ")"@,
        }),
        after_attempt(p, attempt, TerminalView::Error(failed), true) == CallView::Failed(failed),
{
}

/// The wait doubles with each attempt behind the first, twenty times at most, and is never longer than
/// the longest one; up to a quarter of it is added.
pub proof fn law_waits_are_computed(p: RetryPolicy, attempt: u32)
    requires
        1 <= attempt <= 21,
        attempt < p.max_attempts,
    ensures
        doublings(attempt) == attempt - 1,
        ({
            let plain = p.base_delay.nanos * two_to((attempt - 1) as nat);
            let wait = if plain <= p.max_delay.nanos {
                plain
            } else {
                p.max_delay.nanos as int
            };
            let parts = jitter_parts(p.jitter_seed, attempt);
            let whole = wait + (wait * parts + 2000) / 4000;
            &&& backoff_of(p, attempt) == wait
            &&& parts < 1000
            &&& wait_after(p, attempt, None) matches Some(d) && d.nanos == (if whole
                <= p.max_delay.nanos {
                whole
            } else {
                p.max_delay.nanos as int
            })
        }),
{
    let parts = jitter_parts(p.jitter_seed, attempt);
    let wait = backoff_of(p, attempt);
    two_to_is_positive((attempt - 1) as nat);
    assert(p.base_delay.nanos * two_to((attempt - 1) as nat) >= 0) by (nonlinear_arith);
    assert(wait * parts >= 0) by (nonlinear_arith)
        requires
            wait >= 0,
            parts >= 0,
    ;
}

proof fn two_to_is_positive(n: nat)
    ensures
        two_to(n) > 0,
    decreases n,
{
    if n > 0 {
        two_to_is_positive((n - 1) as nat);
    }
}

} // verus!
