//! One run: from a prompt to the answer that ends it.
//!
//! [`ActiveRun::advance`] takes in what came of the last step and says what the next one is. It
//! never waits itself.
use vstd::prelude::*;

use crate::event::{AgentCommand, AgentEvent, AgentEventView, CommandView};
use crate::hooks::{PromptView, StopPipeline, UserPromptPipeline, StopView as StopHooksView};
use crate::json::{Json, JsonView};
use crate::list::{empty, one, pull, put, take_all, take_next};
use crate::message::{
    text_of, user_message, uses_of, Block, ChatMessage, MessageView, Role, StopReason, Usage,
};
use crate::provider::{FailedTurn, FailedView, TurnOutput, TurnView};
use crate::runtime::batch::{Collected, CollectedView};
use crate::runtime::preflight::{show_warnings, warnings_shown};
use crate::runtime::queues::{
    finish_run, input_taken, run_ended, sorted_all, steering_taken, QueuesView, RunQueues, Sorted,
};
use crate::session::{
    NoticeLevel, NoticeRecord, PayloadView, SessionEntryPayload,
};
use crate::text::{concat2, concat3, dec, decimal, quoted, quoted_text, trim, trimmed};

verus! {

/// A call that the model asks for.
#[derive(Debug)]
pub struct CallRequest {
    pub id: String,
    pub name: String,
    pub arguments: Json,
}

impl DeepView for CallRequest {
    type V = (Seq<char>, Seq<char>, JsonView);

    open spec fn deep_view(&self) -> (Seq<char>, Seq<char>, JsonView) {
        (self.id@, self.name@, self.arguments@)
    }
}

/// What a run waits for.
#[derive(Debug)]
pub enum Phase {
    /// The hooks' word on the prompt.
    Starting { input: String },
    /// The prompt being stored; `block` is why a hook stops the run there.
    Submitting { block: Option<String> },
    /// The model's answer.
    Asking,
    /// The hooks' word on the end of the run; `cut` says whether the answer was cut off.
    Stopping { answer: SessionEntryPayload, cut: bool },
    /// The answer being stored with the reason for which the run goes on.
    Continuing { reason: String },
    /// The last answer being stored.
    Ending { cut: bool },
    /// The commands that have arrived; `after_batch` says whether tools have just run.
    Draining { after_batch: bool },
    /// Queued input being stored.
    Injecting,
    /// The results of the calls.
    Working { answer: SessionEntryPayload },
    /// The answer being stored with the results.
    Recording { cancelled: bool, stop: Option<String> },
    /// Nothing any more.
    Done { cancelled: bool },
}

#[verifier::ext_equal]
pub enum PhaseView {
    Starting { input: Seq<char> },
    Submitting { block: Option<Seq<char>> },
    Asking,
    Stopping { answer: PayloadView, cut: bool },
    Continuing { reason: Seq<char> },
    Ending { cut: bool },
    Draining { after_batch: bool },
    Injecting,
    Working { answer: PayloadView },
    Recording { cancelled: bool, stop: Option<Seq<char>> },
    Done { cancelled: bool },
}

impl DeepView for Phase {
    type V = PhaseView;

    open spec fn deep_view(&self) -> PhaseView {
        match *self {
            Phase::Starting { input } => PhaseView::Starting { input: input@ },
            Phase::Submitting { block } => PhaseView::Submitting { block: block.deep_view() },
            Phase::Asking => PhaseView::Asking,
            Phase::Stopping { answer, cut } => PhaseView::Stopping {
                answer: answer.deep_view(),
                cut,
            },
            Phase::Continuing { reason } => PhaseView::Continuing { reason: reason@ },
            Phase::Ending { cut } => PhaseView::Ending { cut },
            Phase::Draining { after_batch } => PhaseView::Draining { after_batch },
            Phase::Injecting => PhaseView::Injecting,
            Phase::Working { answer } => PhaseView::Working { answer: answer.deep_view() },
            Phase::Recording { cancelled, stop } => PhaseView::Recording {
                cancelled,
                stop: stop.deep_view(),
            },
            Phase::Done { cancelled } => PhaseView::Done { cancelled },
        }
    }
}

/// What came of the last step.
pub enum RunInput {
    Hooked(UserPromptPipeline),
    /// The facts are stored, or why they are not.
    Committed(Option<String>),
    /// The request does not fit the budget; that has been said already.
    Refused,
    Answered(TurnOutput),
    CallCancelled(FailedTurn),
    CallFailed(FailedTurn),
    Stopped(StopPipeline),
    Drained(Vec<AgentCommand>),
    Worked(Collected),
}

#[verifier::ext_equal]
pub enum InputView {
    Hooked(PromptView),
    Committed(Option<Seq<char>>),
    Refused,
    Answered(TurnView),
    CallCancelled(FailedView),
    CallFailed(FailedView),
    Stopped(StopHooksView),
    Drained(Seq<CommandView>),
    Worked(CollectedView),
}

impl DeepView for RunInput {
    type V = InputView;

    open spec fn deep_view(&self) -> InputView {
        match *self {
            RunInput::Hooked(p) => InputView::Hooked(p.deep_view()),
            RunInput::Committed(e) => InputView::Committed(e.deep_view()),
            RunInput::Refused => InputView::Refused,
            RunInput::Answered(o) => InputView::Answered(o.deep_view()),
            RunInput::CallCancelled(f) => InputView::CallCancelled(f.deep_view()),
            RunInput::CallFailed(f) => InputView::CallFailed(f.deep_view()),
            RunInput::Stopped(p) => InputView::Stopped(p.deep_view()),
            RunInput::Drained(c) => InputView::Drained(c.deep_view()),
            RunInput::Worked(c) => InputView::Worked(c.deep_view()),
        }
    }
}

/// What comes next.
#[derive(Debug)]
pub enum RunStep {
    /// Ask the hooks about the prompt.
    PromptHooks { prompt: String },
    /// Store these facts, all or none.
    Commit { payloads: Vec<SessionEntryPayload> },
    /// Project the facts and call the model.
    Call,
    /// Ask the hooks whether the run may end with this answer.
    StopHooks { message: ChatMessage },
    /// Hand over the commands that have arrived.
    Drain,
    /// Run these calls; `truncated` says that the answer was cut off.
    Tools { calls: Vec<CallRequest>, truncated: bool },
    /// The run is over.
    Finish { cancelled: bool },
}

#[verifier::ext_equal]
pub enum RunStepView {
    PromptHooks { prompt: Seq<char> },
    Commit { payloads: Seq<PayloadView> },
    Call,
    StopHooks { message: MessageView },
    Drain,
    Tools { calls: Seq<(Seq<char>, Seq<char>, JsonView)>, truncated: bool },
    Finish { cancelled: bool },
}

impl DeepView for RunStep {
    type V = RunStepView;

    open spec fn deep_view(&self) -> RunStepView {
        match *self {
            RunStep::PromptHooks { prompt } => RunStepView::PromptHooks { prompt: prompt@ },
            RunStep::Commit { payloads } => RunStepView::Commit { payloads: payloads.deep_view() },
            RunStep::Call => RunStepView::Call,
            RunStep::StopHooks { message } => RunStepView::StopHooks {
                message: message.deep_view(),
            },
            RunStep::Drain => RunStepView::Drain,
            RunStep::Tools { calls, truncated } => RunStepView::Tools {
                calls: calls.deep_view(),
                truncated,
            },
            RunStep::Finish { cancelled } => RunStepView::Finish { cancelled },
        }
    }
}

/// A run.
#[derive(Debug)]
pub struct ActiveRun {
    pub phase: Phase,
    pub queues: RunQueues,
    /// Commands that wait until the run is over.
    pub deferred: Vec<AgentCommand>,
    /// How often the model has been called.
    pub round: u32,
    pub max_turns: u32,
    /// Whether hooks have kept the run from ending; they may do so once.
    pub stop_hook_active: bool,
    pub usage: Usage,
}

#[verifier::ext_equal]
pub struct RunView {
    pub phase: PhaseView,
    pub queues: QueuesView,
    pub deferred: Seq<CommandView>,
    pub round: u32,
    pub max_turns: u32,
    pub stop_hook_active: bool,
    pub usage: Usage,
}

impl DeepView for ActiveRun {
    type V = RunView;

    open spec fn deep_view(&self) -> RunView {
        RunView {
            phase: self.phase.deep_view(),
            queues: self.queues.deep_view(),
            deferred: self.deferred.deep_view(),
            round: self.round,
            max_turns: self.max_turns,
            stop_hook_active: self.stop_hook_active,
            usage: self.usage,
        }
    }
}

/// What a step does: the run after it, what comes next and what is shown.
#[verifier::ext_equal]
pub struct Advance {
    pub run: RunView,
    pub step: RunStepView,
    pub shown: Seq<AgentEventView>,
}

// ---- What each input comes to ----

pub open spec fn ends(run: RunView, cancelled: bool, shown: Seq<AgentEventView>) -> Advance {
    Advance {
        run: RunView { phase: PhaseView::Done { cancelled }, ..run },
        step: RunStepView::Finish { cancelled },
        shown,
    }
}

pub open spec fn stores(
    run: RunView,
    phase: PhaseView,
    payloads: Seq<PayloadView>,
    shown: Seq<AgentEventView>,
) -> Advance {
    Advance { run: RunView { phase, ..run }, step: RunStepView::Commit { payloads }, shown }
}

pub open spec fn limit_notice(max_turns: u32) -> AgentEventView {
    AgentEventView::Notice(
        "连续调用模型达到上限("@ + dec(max_turns as nat)
            + " 次),强制结束本轮;可直接输入\"继续\"接着跑"@,
    )
}

/// The next call of the model, as far as there may be one.
pub open spec fn next_round(run: RunView, cancelled: bool, shown: Seq<AgentEventView>) -> Advance {
    if run.round >= run.max_turns {
        ends(run, false, shown.push(limit_notice(run.max_turns)))
    } else if cancelled {
        ends(run, true, shown)
    } else {
        Advance {
            run: RunView { phase: PhaseView::Asking, round: (run.round + 1) as u32, ..run },
            step: RunStepView::Call,
            shown,
        }
    }
}

pub open spec fn plain_fact(message: MessageView) -> PayloadView {
    PayloadView::Message { message, usage: None, prompt_fingerprint: None }
}

pub open spec fn plain_facts(messages: Seq<MessageView>) -> Seq<PayloadView> {
    Seq::new(messages.len(), |i: int| plain_fact(messages[i]))
}

/// Why the facts of a step are not stored.
pub open spec fn commit_failure(error: Seq<char>) -> AgentEventView {
    AgentEventView::Error(
        "保存会话失败,本批事实未写入,已停止本轮以避免内存与磁盘历史分叉: "@ + error,
    )
}

/// The prompt and what hooks add to it, as facts.
pub open spec fn submission(input: Seq<char>, added: Seq<MessageView>) -> Seq<PayloadView> {
    seq![plain_fact(user_message(input))] + plain_facts(added)
}

/// A call without an id or a name cannot be answered.
pub open spec fn unanswerable(call: (Seq<char>, Seq<char>, JsonView)) -> bool {
    trimmed(call.0).len() == 0 || trimmed(call.1).len() == 0
}

/// The first such call.
pub open spec fn first_unanswerable(calls: Seq<(Seq<char>, Seq<char>, JsonView)>) -> Option<
    (Seq<char>, Seq<char>, JsonView),
>
    decreases calls.len(),
{
    if calls.len() == 0 {
        None
    } else {
        match first_unanswerable(calls.drop_last()) {
            Some(call) => Some(call),
            None => if unanswerable(calls.last()) {
                Some(calls.last())
            } else {
                None
            },
        }
    }
}

pub open spec fn unanswerable_notice(call: (Seq<char>, Seq<char>, JsonView)) -> AgentEventView {
    AgentEventView::Error(
        "模型返回了无效工具调用(id="@ + quoted_text(call.0) + ",name="@ + quoted_text(call.1)
            + ");本次 assistant 消息未写入历史，会话仍可继续"@,
    )
}

pub open spec fn usage_event(usage: Usage) -> AgentEventView {
    AgentEventView::Usage {
        input_tokens: usage.input_tokens,
        output_tokens: usage.output_tokens,
        cache: usage.cache,
    }
}

pub open spec fn cut_text() -> Seq<char> {
    "输出撞到 max_tokens 上限,可能不完整"@
}

/// The facts of the answer that ends a task. That it was cut off is a fact for people only.
pub open spec fn last_facts(answer: PayloadView, cut: bool) -> Seq<PayloadView> {
    if cut {
        seq![answer].push(PayloadView::Notice { text: cut_text(), level: NoticeLevel::Warning })
    } else {
        seq![answer]
    }
}

/// The answer as a fact.
pub open spec fn answer_fact(answer: TurnView) -> PayloadView {
    PayloadView::Message {
        message: answer.message,
        usage: Some(answer.usage),
        prompt_fingerprint: answer.prompt_fingerprint,
    }
}

pub open spec fn answered(run: RunView, answer: TurnView) -> Advance {
    let after = RunView { usage: run.usage.plus(answer.usage), ..run };
    let said = text_of(answer.message.blocks);
    let usage_shown = seq![usage_event(after.usage)];
    let shown = if said.len() > 0 {
        usage_shown.push(AgentEventView::AssistantMessage(said))
    } else {
        usage_shown
    };
    let calls = uses_of(answer.message.blocks);
    let cut = answer.stop is MaxTokens;
    match first_unanswerable(calls) {
        Some(call) => ends(after, false, shown.push(unanswerable_notice(call))),
        None => if calls.len() == 0 {
            if !run.stop_hook_active {
                Advance {
                    run: RunView {
                        phase: PhaseView::Stopping { answer: answer_fact(answer), cut },
                        ..after
                    },
                    step: RunStepView::StopHooks { message: answer.message },
                    shown,
                }
            } else {
                stores(
                    after,
                    PhaseView::Ending { cut },
                    last_facts(answer_fact(answer), cut),
                    shown,
                )
            }
        } else {
            Advance {
                run: RunView { phase: PhaseView::Working { answer: answer_fact(answer) }, ..after },
                step: RunStepView::Tools { calls, truncated: cut },
                shown,
            }
        },
    }
}

/// What a run that goes on because of a hook tells the model.
pub open spec fn continuation(reason: Seq<char>) -> MessageView {
    user_message("[Stop Hook 要求继续] "@ + reason + "。请完成检查后给出最终答复。"@)
}

pub open spec fn stop_answered(run: RunView, answer: PayloadView, cut: bool, stop: StopHooksView) -> Advance {
    let shown = warnings_shown(stop.warnings);
    match stop.prevent_stop {
        Some(reason) => stores(
            run,
            PhaseView::Continuing { reason },
            seq![answer].push(plain_fact(continuation(reason))),
            shown,
        ),
        None => stores(run, PhaseView::Ending { cut }, last_facts(answer, cut), shown),
    }
}

/// Queued input goes into the conversation.
pub open spec fn injects(run: RunView, text: Seq<char>, shown: Seq<AgentEventView>) -> Advance {
    stores(
        run,
        PhaseView::Injecting,
        seq![plain_fact(user_message(text))],
        shown.push(AgentEventView::UserMessage(text)),
    )
}

pub open spec fn drained(
    run: RunView,
    after_batch: bool,
    commands: Seq<CommandView>,
    cancelled: bool,
) -> Advance {
    let sorted = sorted_all(
        Sorted { queues: run.queues, deferred: run.deferred, events: seq![], cancel: false },
        commands,
    );
    let stopped = cancelled || sorted.cancel;
    let seen = RunView { queues: sorted.queues, deferred: sorted.deferred, ..run };
    if after_batch {
        if stopped {
            next_round(seen, true, sorted.events)
        } else {
            let (queues, text) = steering_taken(sorted.queues);
            match text {
                Some(text) => injects(RunView { queues, ..seen }, text, sorted.events),
                None => next_round(seen, false, sorted.events),
            }
        }
    } else {
        let (queues, text) = input_taken(sorted.queues);
        let after = RunView { queues, ..seen };
        if text is Some && !stopped {
            injects(after, text->0, sorted.events)
        } else {
            ends(after, stopped, sorted.events)
        }
    }
}

pub open spec fn committed(run: RunView, cancelled: bool) -> Advance {
    match run.phase {
        PhaseView::Submitting { block } => {
            let shown = seq![AgentEventView::TurnStarted];
            match block {
                Some(reason) => ends(run, false, shown.push(AgentEventView::Error(reason))),
                None => next_round(run, cancelled, shown),
            }
        },
        PhaseView::Continuing { reason } => next_round(
            RunView { stop_hook_active: true, ..run },
            cancelled,
            seq![AgentEventView::Notice(reason)],
        ),
        PhaseView::Ending { cut } => Advance {
            run: RunView { phase: PhaseView::Draining { after_batch: false }, ..run },
            step: RunStepView::Drain,
            shown: if cut {
                seq![AgentEventView::Notice(cut_text())]
            } else {
                seq![]
            },
        },
        PhaseView::Recording { cancelled: aborted, stop } => if aborted {
            ends(run, true, seq![])
        } else {
            match stop {
                Some(reason) => ends(run, false, seq![AgentEventView::Notice(reason)]),
                None => Advance {
                    run: RunView { phase: PhaseView::Draining { after_batch: true }, ..run },
                    step: RunStepView::Drain,
                    shown: seq![],
                },
            }
        },
        _ => next_round(run, cancelled, seq![]),
    }
}

pub open spec fn not_committed(run: RunView, error: Seq<char>) -> Advance {
    ends(
        run,
        run.phase is Recording && run.phase->Recording_cancelled,
        seq![commit_failure(error)],
    )
}

/// The input is one that the phase waits for.
pub open spec fn awaits(phase: PhaseView, input: InputView) -> bool {
    match input {
        InputView::Hooked(_) => phase is Starting,
        InputView::Committed(_) => {
            ||| phase is Submitting
            ||| phase is Continuing
            ||| phase is Ending
            ||| phase is Injecting
            ||| phase is Recording
        },
        InputView::Refused => phase is Asking,
        InputView::Answered(_) => phase is Asking,
        InputView::CallCancelled(_) => phase is Asking,
        InputView::CallFailed(_) => phase is Asking,
        InputView::Stopped(_) => phase is Stopping,
        InputView::Drained(_) => phase is Draining,
        InputView::Worked(_) => phase is Working,
    }
}

/// One step of a run. `cancelled` says whether the run has been cancelled by now.
pub open spec fn advanced(run: RunView, input: InputView, cancelled: bool) -> Advance {
    match input {
        InputView::Hooked(p) => stores(
            run,
            PhaseView::Submitting { block: p.block },
            submission(run.phase->Starting_input, p.added_context),
            warnings_shown(p.warnings),
        ),
        InputView::Committed(None) => committed(run, cancelled),
        InputView::Committed(Some(error)) => not_committed(run, error),
        InputView::Refused => ends(run, false, seq![]),
        InputView::Answered(answer) => answered(run, answer),
        InputView::CallCancelled(failed) => ends(
            run,
            true,
            seq![AgentEventView::Error(failed.error.message)],
        ),
        InputView::CallFailed(failed) => ends(
            run,
            false,
            seq![AgentEventView::Error(failed.error.message)],
        ),
        InputView::Stopped(stop) => stop_answered(
            run,
            run.phase->Stopping_answer,
            run.phase->Stopping_cut,
            stop,
        ),
        InputView::Drained(commands) => drained(
            run,
            run.phase->Draining_after_batch,
            commands,
            cancelled,
        ),
        InputView::Worked(c) => stores(
            run,
            PhaseView::Recording { cancelled: c.aborted || cancelled, stop: c.stop },
            seq![run.phase->Working_answer].push(
                plain_fact(MessageView { role: Role::User, blocks: c.results }),
            ),
            seq![],
        ),
    }
}

// ---- Running it ----

/// Shows why facts are not stored.
pub fn show_commit_failure(error: &str, events: &mut Vec<AgentEvent>)
    ensures
        final(events).deep_view() == old(events).deep_view().push(commit_failure(error@)),
{
    put(
        events,
        AgentEvent::Error(
            concat2(
                "保存会话失败,本批事实未写入,已停止本轮以避免内存与磁盘历史分叉: ",
                error,
            ),
        ),
    );
}

pub fn show_usage(usage: Usage, events: &mut Vec<AgentEvent>)
    ensures
        final(events).deep_view() == old(events).deep_view().push(usage_event(usage)),
{
    put(
        events,
        AgentEvent::Usage {
            input_tokens: usage.input_tokens,
            output_tokens: usage.output_tokens,
            cache: usage.cache,
        },
    );
}

/// The calls of an answer.
pub fn requests_of(message: &ChatMessage) -> (out: Vec<CallRequest>)
    ensures
        out.deep_view() == uses_of(message.deep_view().blocks),
{
    let blocks = &message.blocks;
    let ghost all = message.deep_view().blocks;
    let mut out: Vec<CallRequest> = empty();
    let mut i: usize = 0;
    while i < blocks.len()
        invariant
            i <= blocks@.len(),
            all == blocks.deep_view(),
            out.deep_view() == uses_of(all.take(i as int)),
        decreases blocks@.len() - i,
    {
        proof {
            take_next(all, i as int);
        }
        assert(all[i as int] == blocks@[i as int].deep_view());
        if let Block::ToolUse { id, name, input } = &blocks[i] {
            put(
                &mut out,
                CallRequest { id: id.clone(), name: name.clone(), arguments: input.clone() },
            );
        }
        i = i + 1;
    }
    proof {
        take_all(all);
    }
    out
}

proof fn first_unanswerable_stays(calls: Seq<(Seq<char>, Seq<char>, JsonView)>, n: int)
    requires
        0 <= n <= calls.len(),
        first_unanswerable(calls.take(n)) is Some,
    ensures
        first_unanswerable(calls) == first_unanswerable(calls.take(n)),
    decreases calls.len() - n,
{
    if n < calls.len() {
        take_next(calls, n);
        first_unanswerable_stays(calls, n + 1);
    } else {
        take_all(calls);
    }
}

fn find_unanswerable(calls: &Vec<CallRequest>) -> (r: Option<usize>)
    ensures
        match r {
            None => first_unanswerable(calls.deep_view()) is None,
            Some(i) => i < calls@.len() && first_unanswerable(calls.deep_view()) == Some(
                calls.deep_view()[i as int],
            ),
        },
{
    let ghost all = calls.deep_view();
    let mut i: usize = 0;
    while i < calls.len()
        invariant
            i <= calls@.len(),
            all == calls.deep_view(),
            first_unanswerable(all.take(i as int)) is None,
        decreases calls@.len() - i,
    {
        proof {
            take_next(all, i as int);
        }
        assert(all[i as int] == calls@[i as int].deep_view());
        if blank(calls[i].id.as_str()) || blank(calls[i].name.as_str()) {
            proof {
                first_unanswerable_stays(all, i + 1);
            }
            return Some(i);
        }
        i = i + 1;
    }
    proof {
        take_all(all);
    }
    None
}

fn blank(text: &str) -> (r: bool)
    ensures
        r == (trimmed(text@).len() == 0),
{
    trim(text).unicode_len() == 0
}

fn facts_of(messages: Vec<ChatMessage>, out: &mut Vec<SessionEntryPayload>)
    ensures
        final(out).deep_view() == old(out).deep_view() + plain_facts(messages.deep_view()),
{
    let ghost before = out.deep_view();
    let ghost all = messages.deep_view();
    let mut rest = messages;
    let ghost mut done: int = 0;
    assert(before + plain_facts(all.take(0)) =~= before);
    assert(all.skip(0) =~= all);
    while rest.len() > 0
        invariant
            0 <= done <= all.len(),
            rest.deep_view() == all.skip(done),
            rest.deep_view().len() == rest@.len(),
            out.deep_view() == before + plain_facts(all.take(done)),
        decreases rest@.len(),
    {
        proof {
            take_next(all, done);
            assert(all.skip(done)[0] == all[done]);
            assert(all.skip(done).drop_first() =~= all.skip(done + 1));
        }
        let message = pull(&mut rest);
        put(out, SessionEntryPayload::message(message, None));
        proof {
            done = done + 1;
            assert(out.deep_view() =~= before + plain_facts(all.take(done)));
        }
    }
    proof {
        take_all(all);
    }
}

fn with_last_facts(answer: SessionEntryPayload, cut: bool) -> (out: Vec<SessionEntryPayload>)
    ensures
        out.deep_view() == last_facts(answer.deep_view(), cut),
{
    let mut out = one(answer);
    if cut {
        put(
            &mut out,
            SessionEntryPayload::Notice(
                NoticeRecord {
                    text: "输出撞到 max_tokens 上限,可能不完整".to_owned(),
                    level: NoticeLevel::Warning,
                },
            ),
        );
    }
    out
}

impl ActiveRun {
    /// A run for this input.
    pub fn begin(input: String, max_turns: u32, usage: Usage, events: &mut Vec<AgentEvent>) -> (r: (
        ActiveRun,
        RunStep,
    ))
        ensures
            r.0.deep_view() == begun(input@, max_turns, usage),
            r.1.deep_view() == (RunStepView::PromptHooks { prompt: input@ }),
            final(events).deep_view() == old(events).deep_view().push(
                AgentEventView::UserMessage(input@),
            ),
    {
        put(events, AgentEvent::UserMessage(input.clone()));
        let prompt = input.clone();
        let run = ActiveRun {
            phase: Phase::Starting { input },
            queues: RunQueues { steering: empty(), follow_up: empty() },
            deferred: empty(),
            round: 0,
            max_turns,
            stop_hook_active: false,
            usage,
        };
        (run, RunStep::PromptHooks { prompt })
    }

    fn end(&mut self, cancelled: bool) -> (step: RunStep)
        ensures
            final(self).deep_view() == (RunView {
                phase: PhaseView::Done { cancelled },
                ..old(self).deep_view()
            }),
            step.deep_view() == (RunStepView::Finish { cancelled }),
    {
        self.phase = Phase::Done { cancelled };
        RunStep::Finish { cancelled }
    }

    fn next_round(&mut self, cancelled: bool, events: &mut Vec<AgentEvent>) -> (step: RunStep)
        ensures
            ({
                let a = next_round(old(self).deep_view(), cancelled, old(events).deep_view());
                &&& final(self).deep_view() == a.run
                &&& step.deep_view() == a.step
                &&& final(events).deep_view() == a.shown
            }),
    {
        if self.round >= self.max_turns {
            put(
                events,
                AgentEvent::Notice(
                    concat3(
                        "连续调用模型达到上限(",
                        decimal(self.max_turns as u64).as_str(),
                        " 次),强制结束本轮;可直接输入\"继续\"接着跑",
                    ),
                ),
            );
            self.end(false)
        } else if cancelled {
            self.end(true)
        } else {
            self.round = self.round + 1;
            self.phase = Phase::Asking;
            RunStep::Call
        }
    }

    fn inject(&mut self, text: String, events: &mut Vec<AgentEvent>) -> (step: RunStep)
        ensures
            ({
                let a = injects(old(self).deep_view(), text@, old(events).deep_view());
                &&& final(self).deep_view() == a.run
                &&& step.deep_view() == a.step
                &&& final(events).deep_view() == a.shown
            }),
    {
        put(events, AgentEvent::UserMessage(text.clone()));
        self.phase = Phase::Injecting;
        RunStep::Commit {
            payloads: one(SessionEntryPayload::message(ChatMessage::user_text(text), None)),
        }
    }

    fn on_answer(&mut self, answer: TurnOutput, events: &mut Vec<AgentEvent>) -> (step: RunStep)
        requires
            old(self).usage.fits(answer.usage),
        ensures
            ({
                let a = answered(old(self).deep_view(), answer.deep_view());
                &&& final(self).deep_view() == a.run
                &&& step.deep_view() == a.step
                &&& final(events).deep_view() == old(events).deep_view() + a.shown
            }),
    {
        let ghost before = events.deep_view();
        let ghost a = answered(self.deep_view(), answer.deep_view());
        self.usage.add(answer.usage);
        show_usage(self.usage, events);
        let said = answer.message.text();
        if said.as_str().unicode_len() > 0 {
            put(events, AgentEvent::AssistantMessage(said));
        }
        let calls = requests_of(&answer.message);
        assert(calls.deep_view().len() == calls@.len());
        if let Some(i) = find_unanswerable(&calls) {
            assert(calls.deep_view()[i as int] == calls@[i as int].deep_view());
            let mut text = concat3(
                "模型返回了无效工具调用(id=",
                quoted(calls[i].id.as_str()).as_str(),
                ",name=",
            );
            text.push_str(quoted(calls[i].name.as_str()).as_str());
            text.push_str(");本次 assistant 消息未写入历史，会话仍可继续");
            put(events, AgentEvent::Error(text));
            assert(events.deep_view() =~= before + a.shown);
            return self.end(false);
        }
        assert(events.deep_view() =~= before + a.shown);
        let cut = matches!(answer.stop, StopReason::MaxTokens);
        if calls.len() == 0 {
            if !self.stop_hook_active {
                let message = answer.message.clone();
                let fact = SessionEntryPayload::message_with_prompt(
                    answer.message,
                    answer.usage,
                    answer.prompt_fingerprint,
                );
                self.phase = Phase::Stopping { answer: fact, cut };
                RunStep::StopHooks { message }
            } else {
                let fact = SessionEntryPayload::message_with_prompt(
                    answer.message,
                    answer.usage,
                    answer.prompt_fingerprint,
                );
                self.phase = Phase::Ending { cut };
                RunStep::Commit { payloads: with_last_facts(fact, cut) }
            }
        } else {
            let fact = SessionEntryPayload::message_with_prompt(
                answer.message,
                answer.usage,
                answer.prompt_fingerprint,
            );
            self.phase = Phase::Working { answer: fact };
            RunStep::Tools { calls, truncated: cut }
        }
    }

    fn on_drained(
        &mut self,
        after_batch: bool,
        commands: Vec<AgentCommand>,
        cancelled: bool,
        events: &mut Vec<AgentEvent>,
    ) -> (step: RunStep)
        ensures
            ({
                let a = drained(
                    old(self).deep_view(),
                    after_batch,
                    commands.deep_view(),
                    cancelled,
                );
                &&& final(self).deep_view() == a.run
                &&& step.deep_view() == a.step
                &&& final(events).deep_view() == old(events).deep_view() + a.shown
            }),
    {
        let mut shown: Vec<AgentEvent> = empty();
        let asked = self.queues.drain(commands, &mut self.deferred, &mut shown);
        let stopped = cancelled || asked;
        let step = if after_batch {
            if stopped {
                self.next_round(true, &mut shown)
            } else {
                match self.queues.next_steering() {
                    Some(text) => self.inject(text, &mut shown),
                    None => self.next_round(false, &mut shown),
                }
            }
        } else {
            match self.queues.next_input() {
                Some(text) => if !stopped {
                    self.inject(text, &mut shown)
                } else {
                    self.end(stopped)
                },
                None => self.end(stopped),
            }
        };
        crate::list::extend(events, shown);
        step
    }

    fn on_committed(&mut self, cancelled: bool, events: &mut Vec<AgentEvent>) -> (step: RunStep)
        requires
            awaits(old(self).deep_view().phase, InputView::Committed(None)),
        ensures
            ({
                let a = committed(old(self).deep_view(), cancelled);
                &&& final(self).deep_view() == a.run
                &&& step.deep_view() == a.step
                &&& final(events).deep_view() == old(events).deep_view() + a.shown
            }),
    {
        let ghost v = self.deep_view();
        let ghost a = committed(v, cancelled);
        let mut shown: Vec<AgentEvent> = empty();
        let mut phase = Phase::Asking;
        core::mem::swap(&mut phase, &mut self.phase);
        assert(phase.deep_view() == v.phase);
        assert(self.deep_view() == RunView { phase: PhaseView::Asking, ..v });
        let step = match phase {
            Phase::Submitting { block } => {
                put(&mut shown, AgentEvent::TurnStarted);
                assert(shown.deep_view() =~= seq![AgentEventView::TurnStarted]);
                match block {
                    Some(reason) => {
                        put(&mut shown, AgentEvent::Error(reason));
                        self.end(false)
                    },
                    None => self.next_round(cancelled, &mut shown),
                }
            },
            Phase::Continuing { reason } => {
                let ghost rv = reason@;
                put(&mut shown, AgentEvent::Notice(reason));
                assert(shown.deep_view() =~= seq![AgentEventView::Notice(rv)]);
                self.stop_hook_active = true;
                self.next_round(cancelled, &mut shown)
            },
            Phase::Ending { cut } => {
                if cut {
                    put(
                        &mut shown,
                        AgentEvent::Notice("输出撞到 max_tokens 上限,可能不完整".to_owned()),
                    );
                    assert(shown.deep_view() =~= seq![AgentEventView::Notice(cut_text())]);
                }
                self.phase = Phase::Draining { after_batch: false };
                RunStep::Drain
            },
            Phase::Recording { cancelled: aborted, stop } => {
                if aborted {
                    self.end(true)
                } else {
                    match stop {
                        Some(reason) => {
                            let ghost rv = reason@;
                            put(&mut shown, AgentEvent::Notice(reason));
                            assert(shown.deep_view() =~= seq![AgentEventView::Notice(rv)]);
                            self.end(false)
                        },
                        None => {
                            self.phase = Phase::Draining { after_batch: true };
                            RunStep::Drain
                        },
                    }
                }
            },
            _ => self.next_round(cancelled, &mut shown),
        };
        assert(shown.deep_view() == a.shown);
        crate::list::extend(events, shown);
        step
    }

    /// Takes in what came of the last step and says what comes next. `cancelled` says whether the
    /// run has been cancelled by now.
    pub fn advance(&mut self, input: RunInput, cancelled: bool, events: &mut Vec<AgentEvent>) -> (step:
        RunStep)
        requires
            awaits(old(self).deep_view().phase, input.deep_view()),
            input.deep_view() matches InputView::Answered(answer) ==> old(self).usage.fits(
                answer.usage,
            ),
        ensures
            ({
                let a = advanced(old(self).deep_view(), input.deep_view(), cancelled);
                &&& final(self).deep_view() == a.run
                &&& step.deep_view() == a.step
                &&& final(events).deep_view() == old(events).deep_view() + a.shown
            }),
    {
        let ghost v = self.deep_view();
        let ghost a = advanced(v, input.deep_view(), cancelled);
        let ghost before = events.deep_view();
        match input {
            RunInput::Hooked(p) => {
                show_warnings(&p.warnings, events);
                let mut phase = Phase::Submitting { block: p.block };
                core::mem::swap(&mut phase, &mut self.phase);
                let input = match phase {
                    Phase::Starting { input } => input,
                    _ => "".to_owned(),
                };
                let mut payloads = one(
                    SessionEntryPayload::message(ChatMessage::user_text(input), None),
                );
                facts_of(p.added_context, &mut payloads);
                RunStep::Commit { payloads }
            },
            RunInput::Committed(None) => self.on_committed(cancelled, events),
            RunInput::Committed(Some(error)) => {
                let aborted = match &self.phase {
                    Phase::Recording { cancelled, stop: _ } => *cancelled,
                    _ => false,
                };
                show_commit_failure(error.as_str(), events);
                assert(events.deep_view() =~= before + a.shown);
                self.end(aborted)
            },
            RunInput::Refused => {
                assert(events.deep_view() =~= before + a.shown);
                self.end(false)
            },
            RunInput::Answered(answer) => self.on_answer(answer, events),
            RunInput::CallCancelled(failed) => {
                put(events, AgentEvent::Error(failed.error.message));
                assert(events.deep_view() =~= before + a.shown);
                self.end(true)
            },
            RunInput::CallFailed(failed) => {
                put(events, AgentEvent::Error(failed.error.message));
                assert(events.deep_view() =~= before + a.shown);
                self.end(false)
            },
            RunInput::Stopped(stop) => {
                show_warnings(&stop.warnings, events);
                let mut phase = Phase::Asking;
                core::mem::swap(&mut phase, &mut self.phase);
                if let Phase::Stopping { answer, cut } = phase {
                    match stop.prevent_stop {
                        Some(reason) => {
                            let mut payloads = one(answer);
                            let text = concat3(
                                "[Stop Hook 要求继续] ",
                                reason.as_str(),
                                "。请完成检查后给出最终答复。",
                            );
                            put(
                                &mut payloads,
                                SessionEntryPayload::message(ChatMessage::user_text(text), None),
                            );
                            self.phase = Phase::Continuing { reason };
                            RunStep::Commit { payloads }
                        },
                        None => {
                            self.phase = Phase::Ending { cut };
                            RunStep::Commit { payloads: with_last_facts(answer, cut) }
                        },
                    }
                } else {
                    RunStep::Call
                }
            },
            RunInput::Drained(commands) => {
                let after_batch = match &self.phase {
                    Phase::Draining { after_batch } => *after_batch,
                    _ => false,
                };
                self.on_drained(after_batch, commands, cancelled, events)
            },
            RunInput::Worked(c) => {
                let mut phase = Phase::Recording {
                    cancelled: c.aborted || cancelled,
                    stop: c.stop,
                };
                core::mem::swap(&mut phase, &mut self.phase);
                if let Phase::Working { answer } = phase {
                    let mut payloads = one(answer);
                    put(
                        &mut payloads,
                        SessionEntryPayload::message(
                            ChatMessage { role: Role::User, blocks: c.results },
                            None,
                        ),
                    );
                    assert(events.deep_view() =~= before + a.shown);
                    RunStep::Commit { payloads }
                } else {
                    RunStep::Call
                }
            },
        }
    }

    /// Ends a run; gives back the commands that waited for its end.
    pub fn finish(self, waiting: Vec<AgentCommand>, cancelled: bool, events: &mut Vec<AgentEvent>) -> (deferred:
        Vec<AgentCommand>)
        ensures
            ({
                let (after, shown) = run_ended(
                    self.deep_view().queues,
                    waiting.deep_view(),
                    cancelled,
                    self.deep_view().deferred,
                );
                &&& deferred.deep_view() == after
                &&& final(events).deep_view() == old(events).deep_view() + shown
            }),
    {
        let mut deferred = self.deferred;
        finish_run(self.queues, waiting, cancelled, &mut deferred, events);
        deferred
    }
}

/// A run that has just begun.
pub open spec fn begun(input: Seq<char>, max_turns: u32, usage: Usage) -> RunView {
    RunView {
        phase: PhaseView::Starting { input },
        queues: QueuesView { steering: seq![], follow_up: seq![] },
        deferred: seq![],
        round: 0,
        max_turns,
        stop_hook_active: false,
        usage,
    }
}

} // verus!
