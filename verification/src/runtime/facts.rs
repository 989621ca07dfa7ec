//! What a run stores, asks for and shows, step by step.
use vstd::prelude::*;

use crate::event::{AgentEventView, CommandView};
use crate::hooks::{PostView, PreView, PromptView, StopView as StopHooks};
use crate::json::{same_value, JsonView};
use crate::message::{text_of, uses_of, BlockView, MessageView, Role, Usage};
use crate::permission::{ApprovalDecision, ApprovalScope, DecisionView};
use crate::provider::{EventView, FailedView, TerminalView, TurnView};
use crate::runtime::approval::{
    approval_after, nobody_to_ask, request_for, ApprovalSignal, ApprovalStepView,
};
use crate::runtime::batch::{
    after_limit, collected, finish_shown, finished, launch_shown, launched, result_block, runnable,
    sound, width_of, BatchView, CollectedView, ItemView, Launch,
};
use crate::runtime::preflight::{
    approval_taken, decision_taken, hooks_taken, preflight_begun, prepared_taken, PreflightView,
};
use crate::runtime::queues::{run_ended, sorted_all, QueuesView, Sorted};
use crate::runtime::retry::{
    after_attempt, backoff_of, shown_event, stream_shown, two_to, CallView, RetryPolicy,
};
use crate::runtime::run::{advanced, InputView, PhaseView, RunStepView, RunView};
use crate::session::{NoticeLevel, PayloadView};
use crate::time::{seconds_of, Duration};
use crate::tools::{
    normalized, ErrorView, OutcomeView, PreparedView, ToolErrorCode, ToolExecutionMode,
};
use crate::util::{cleaned, middle_cut};

verus! {

// ---- The prompt ----

/// Whether a fact is a message with nothing but its content.
pub open spec fn is_plain_message(fact: PayloadView, message: MessageView) -> bool {
    fact matches PayloadView::Message { message: own, usage, prompt_fingerprint } && own == message
        && usage is None && prompt_fingerprint is None
}

/// A run begins by storing what the user said, as a message of the user, and behind it what the
/// hooks add, in their order.
pub proof fn law_prompts_are_stored_first(
    run: RunView,
    input: Seq<char>,
    p: PromptView,
    cancelled: bool,
)
    requires
        run.phase == (PhaseView::Starting { input }),
    ensures
        advanced(run, InputView::Hooked(p), cancelled).step matches RunStepView::Commit { payloads }
            && {
            &&& payloads.len() == 1 + p.added_context.len()
            &&& payloads[0] matches PayloadView::Message { message, usage, prompt_fingerprint }
                && message.role == Role::User && message.blocks == seq![BlockView::Text(input)]
                && usage is None && prompt_fingerprint is None
            &&& forall|i: int|
                0 <= i < p.added_context.len() ==> is_plain_message(
                    #[trigger] payloads[i + 1],
                    p.added_context[i],
                )
        },
{
    let payloads = advanced(run, InputView::Hooked(p), cancelled).step->payloads;
    assert forall|i: int| 0 <= i < p.added_context.len() implies is_plain_message(
        #[trigger] payloads[i + 1],
        p.added_context[i],
    ) by {}
}

/// Once the prompt is stored, the model is called, unless a hook stops the run there, the run has
/// been cancelled, or no calls are left; a hook's reason is shown as an error.
pub proof fn law_stored_prompts_go_to_the_model(
    run: RunView,
    block: Option<Seq<char>>,
    cancelled: bool,
)
    requires
        run.phase == (PhaseView::Submitting { block }),
    ensures
        ({
            let a = advanced(run, InputView::Committed(None), cancelled);
            &&& a.step is Call <==> block is None && !cancelled && run.round < run.max_turns
            &&& a.step is Call ==> a.run.round == run.round + 1
            &&& !(a.step is Call) ==> a.step is Finish
            &&& block matches Some(reason) ==> a.shown.contains(AgentEventView::Error(reason))
        }),
{
    if let Some(reason) = block {
        let a = advanced(run, InputView::Committed(None), cancelled);
        assert(a.shown[1] == AgentEventView::Error(reason));
    }
}

// ---- The answer ----

/// The text of an answer is what its text blocks say, one behind the other; the calls of an answer
/// are its tool calls, in their order.
pub proof fn law_answers_are_read_in_order(a: Seq<BlockView>, b: Seq<BlockView>)
    ensures
        text_of(a + b) == text_of(a) + text_of(b),
        uses_of(a + b) == uses_of(a) + uses_of(b),
        a.len() == 1 ==> text_of(a) == (match a[0] {
            BlockView::Text(t) => t,
            _ => Seq::empty(),
        }),
        a.len() == 1 ==> uses_of(a) == (match a[0] {
            BlockView::ToolUse { id, name, input } => seq![(id, name, input)],
            _ => Seq::empty(),
        }),
    decreases b.len(),
{
    if b.len() == 0 {
        assert(a + b =~= a);
        assert(text_of(a) + text_of(b) =~= text_of(a));
        assert(uses_of(a) + uses_of(b) =~= uses_of(a));
    } else {
        law_answers_are_read_in_order(a, b.drop_last());
        assert((a + b).drop_last() =~= a + b.drop_last());
        assert(text_of(a + b) =~= text_of(a) + text_of(b));
        assert(uses_of(a + b) =~= uses_of(a) + uses_of(b));
    }
    if a.len() == 1 {
        assert(a.drop_last() =~= seq![]);
        assert(text_of(a.drop_last()) =~= seq![]);
        assert(uses_of(a.drop_last()) =~= seq![]);
        assert(text_of(a) =~= match a[0] {
            BlockView::Text(t) => t,
            _ => Seq::empty(),
        });
        assert(uses_of(a) =~= match a[0] {
            BlockView::ToolUse { id, name, input } => seq![(id, name, input)],
            _ => Seq::empty(),
        });
    }
}

/// Whether a fact is an answer as it came, with its tokens and the mark of its prompt.
pub open spec fn is_answer(fact: PayloadView, answer: TurnView) -> bool {
    fact matches PayloadView::Message { message, usage, prompt_fingerprint } && message
        == answer.message && usage == Some(answer.usage) && prompt_fingerprint
        == answer.prompt_fingerprint
}

/// An answer with calls leads to running exactly these calls; when they have run, the answer is
/// stored as it came, and directly behind it a message of the user with their results.
pub proof fn law_calls_are_run_and_answered(
    run: RunView,
    answer: TurnView,
    results: CollectedView,
    cancelled: bool,
)
    requires
        run.phase is Asking,
        uses_of(answer.message.blocks).len() > 0,
        forall|i: int|
            0 <= i < uses_of(answer.message.blocks).len() ==> crate::text::trimmed(
                (#[trigger] uses_of(answer.message.blocks)[i]).0,
            ).len() > 0 && crate::text::trimmed(uses_of(answer.message.blocks)[i].1).len() > 0,
    ensures
        ({
            let a = advanced(run, InputView::Answered(answer), cancelled);
            let b = advanced(a.run, InputView::Worked(results), cancelled);
            &&& a.step == (RunStepView::Tools {
                calls: uses_of(answer.message.blocks),
                truncated: answer.stop is MaxTokens,
            })
            &&& a.run.usage == run.usage.plus(answer.usage)
            &&& a.run.round == run.round
            &&& b.step matches RunStepView::Commit { payloads } && payloads.len() == 2 && is_answer(
                payloads[0],
                answer,
            ) && is_plain_message(
                payloads[1],
                MessageView { role: Role::User, blocks: results.results },
            )
            &&& b.shown.len() == 0
        }),
{
    nothing_is_unanswerable(uses_of(answer.message.blocks));
}

proof fn nothing_is_unanswerable(calls: Seq<(Seq<char>, Seq<char>, JsonView)>)
    requires
        forall|i: int|
            0 <= i < calls.len() ==> crate::text::trimmed((#[trigger] calls[i]).0).len() > 0
                && crate::text::trimmed(calls[i].1).len() > 0,
    ensures
        crate::runtime::run::first_unanswerable(calls) is None,
    decreases calls.len(),
{
    if calls.len() > 0 {
        let rest = calls.drop_last();
        assert forall|i: int| 0 <= i < rest.len() implies crate::text::trimmed(
            (#[trigger] rest[i]).0,
        ).len() > 0 && crate::text::trimmed(rest[i].1).len() > 0 by {
            assert(rest[i] == calls[i]);
        }
        nothing_is_unanswerable(rest);
        assert(calls[calls.len() - 1] == calls.last());
    }
}

/// A call without an id or without a name ends the run: nothing of the answer is stored, and an
/// error says so.
pub proof fn law_unanswerable_calls_end_the_run(
    run: RunView,
    answer: TurnView,
    i: int,
    cancelled: bool,
)
    requires
        run.phase is Asking,
        0 <= i < uses_of(answer.message.blocks).len(),
        crate::text::trimmed(uses_of(answer.message.blocks)[i].0).len() == 0
            || crate::text::trimmed(uses_of(answer.message.blocks)[i].1).len() == 0,
    ensures
        ({
            let a = advanced(run, InputView::Answered(answer), cancelled);
            &&& a.step == (RunStepView::Finish { cancelled: false })
            &&& a.shown.last() is Error
        }),
{
    something_is_unanswerable(uses_of(answer.message.blocks), i);
}

proof fn something_is_unanswerable(calls: Seq<(Seq<char>, Seq<char>, JsonView)>, i: int)
    requires
        0 <= i < calls.len(),
        crate::text::trimmed(calls[i].0).len() == 0 || crate::text::trimmed(calls[i].1).len() == 0,
    ensures
        crate::runtime::run::first_unanswerable(calls) is Some,
    decreases calls.len(),
{
    if i < calls.len() - 1 {
        something_is_unanswerable(calls.drop_last(), i);
    }
}

/// An answer without calls ends the task: the hooks are asked about it, and unless one of them
/// objects it is stored as it came. One that was cut off is stored with a warning for people.
pub proof fn law_answers_without_calls_are_stored(
    run: RunView,
    answer: TurnView,
    stop: StopHooks,
    cancelled: bool,
)
    requires
        run.phase is Asking,
        uses_of(answer.message.blocks).len() == 0,
        !run.stop_hook_active,
        stop.prevent_stop is None,
    ensures
        ({
            let a = advanced(run, InputView::Answered(answer), cancelled);
            let b = advanced(a.run, InputView::Stopped(stop), cancelled);
            &&& a.step == (RunStepView::StopHooks { message: answer.message })
            &&& b.step matches RunStepView::Commit { payloads } && is_answer(payloads[0], answer)
                && payloads.len() == (if answer.stop is MaxTokens {
                2int
            } else {
                1
            }) && (answer.stop is MaxTokens ==> (payloads[1] matches PayloadView::Notice {
                level,
                ..
            } && level == NoticeLevel::Warning))
        }),
{
}

/// A hook that objects to the end keeps the answer and adds why, as a message of the user; then the
/// model is called again.
pub proof fn law_objections_go_to_the_model(
    run: RunView,
    answer: TurnView,
    stop: StopHooks,
    reason: Seq<char>,
    cancelled: bool,
)
    requires
        run.phase is Asking,
        uses_of(answer.message.blocks).len() == 0,
        !run.stop_hook_active,
        stop.prevent_stop == Some(reason),
    ensures
        ({
            let a = advanced(run, InputView::Answered(answer), cancelled);
            let b = advanced(a.run, InputView::Stopped(stop), cancelled);
            let c = advanced(b.run, InputView::Committed(None), false);
            &&& b.step matches RunStepView::Commit { payloads } && payloads.len() == 2 && is_answer(
                payloads[0],
                answer,
            ) && is_plain_message(
                payloads[1],
                MessageView {
                    role: Role::User,
                    blocks: seq![
                        BlockView::Text(
                            "[Stop Hook 要求继续] "@ + reason + "。请完成检查后给出最终答复。"@,
                        ),
                    ],
                },
            )
            &&& run.round < run.max_turns ==> c.step is Call
            &&& c.run.stop_hook_active
        }),
{
}

/// What an answer says is shown, together with the tokens that the run has used so far.
pub proof fn law_answers_are_shown(run: RunView, answer: TurnView, cancelled: bool)
    requires
        run.phase is Asking,
    ensures
        ({
            let a = advanced(run, InputView::Answered(answer), cancelled);
            let total = run.usage.plus(answer.usage);
            &&& a.shown.len() > 0
            &&& a.shown[0] == (AgentEventView::Usage {
                input_tokens: total.input_tokens,
                output_tokens: total.output_tokens,
                cache: total.cache,
            })
            &&& text_of(answer.message.blocks).len() > 0 ==> a.shown.len() > 1 && a.shown[1]
                == AgentEventView::AssistantMessage(text_of(answer.message.blocks))
            &&& text_of(answer.message.blocks).len() == 0 ==> !exists|i: int|
                0 <= i < a.shown.len() && (#[trigger] a.shown[i]) is AssistantMessage
        }),
{
}

/// Tokens are added up, each kind for itself; what is known of the cache stays known.
pub proof fn law_tokens_add_up(a: Usage, b: Usage)
    requires
        a.fits(b),
    ensures
        a.plus(b).input_tokens == a.input_tokens + b.input_tokens,
        a.plus(b).output_tokens == a.output_tokens + b.output_tokens,
        a.plus(b).cache is Some <==> a.cache is Some || b.cache is Some,
        a.cache is Some && b.cache is Some ==> a.plus(b).cache->0.read_tokens
            == a.cache->0.read_tokens + b.cache->0.read_tokens && a.plus(b).cache->0.write_tokens
            == a.cache->0.write_tokens + b.cache->0.write_tokens,
        a.cache is None ==> a.plus(b).cache == b.cache,
        b.cache is None ==> a.plus(b).cache == a.cache,
{
}

// ---- Between two rounds ----

/// Once results are stored, a run that was cancelled ends as such, one that a hook stops ends with
/// its reason, and any other looks for commands and then calls the model again.
pub proof fn law_results_go_to_the_model(
    run: RunView,
    aborted: bool,
    stop: Option<Seq<char>>,
    cancelled: bool,
)
    requires
        run.phase == (PhaseView::Recording { cancelled: aborted, stop }),
        run.queues.steering.len() == 0,
        run.round < run.max_turns,
    ensures
        ({
            let a = advanced(run, InputView::Committed(None), cancelled);
            &&& aborted ==> a.step == (RunStepView::Finish { cancelled: true })
            &&& !aborted && stop is Some ==> a.step == (RunStepView::Finish { cancelled: false })
                && a.shown == seq![AgentEventView::Notice(stop->0)]
            &&& !aborted && stop is None ==> {
                &&& a.step is Drain
                &&& advanced(a.run, InputView::Drained(seq![]), false).step is Call
                &&& advanced(a.run, InputView::Drained(seq![]), true).step == (
                RunStepView::Finish { cancelled: true })
            }
        }),
{
}

/// What is typed during a run goes to the model, as a message of the user, behind the results of the
/// calls that are under way; it is shown as said.
pub proof fn law_steering_is_injected(run: RunView, text: Seq<char>)
    requires
        run.phase == (PhaseView::Draining { after_batch: true }),
        run.queues.steering.len() == 0,
    ensures
        ({
            let a = advanced(run, InputView::Drained(seq![CommandView::Steer(text)]), false);
            &&& a.step matches RunStepView::Commit { payloads } && payloads.len() == 1
                && is_plain_message(
                payloads[0],
                MessageView { role: Role::User, blocks: seq![BlockView::Text(text)] },
            )
            &&& a.shown.last() == AgentEventView::UserMessage(text)
            &&& a.run.queues.steering.len() == 0
        }),
{
    let commands = seq![CommandView::Steer(text)];
    let s = Sorted { queues: run.queues, deferred: run.deferred, events: seq![], cancel: false };
    assert(commands.drop_last() =~= seq![]);
    assert(sorted_all(s, commands.drop_last()) == s);
    let queued = sorted_all(s, commands).queues;
    assert(queued.steering =~= seq![text]);
    assert(queued.steering.drop_first() =~= seq![]);
    let a = advanced(run, InputView::Drained(commands), false);
    assert(a.run.queues.steering =~= seq![]);
}

/// Where a command that arrives during a run goes: what is typed steers the run, what is meant for
/// later follows it, and everything else waits for its end.
pub proof fn law_commands_are_sorted(s: Sorted, command: CommandView)
    ensures
        ({
            let after = sorted_all(s, seq![command]);
            match command {
                CommandView::UserInput(t) | CommandView::Steer(t) => after.queues.steering
                    == s.queues.steering.push(t) && after.queues.follow_up == s.queues.follow_up
                    && after.deferred == s.deferred,
                CommandView::FollowUp(t) => after.queues.follow_up == s.queues.follow_up.push(t)
                    && after.queues.steering == s.queues.steering && after.deferred == s.deferred,
                _ => after.queues == s.queues && after.deferred == s.deferred.push(command),
            }
        }),
        sorted_all(s, seq![command]).cancel <==> s.cancel || command is Shutdown,
{
    assert(seq![command].drop_last() =~= seq![]);
    assert(sorted_all(s, seq![command].drop_last()) == s);
}

/// What arrives later is sorted behind what arrived before.
pub proof fn law_commands_are_sorted_in_order(s: Sorted, a: Seq<CommandView>, b: Seq<CommandView>)
    ensures
        sorted_all(s, a + b) == sorted_all(sorted_all(s, a), b),
    decreases b.len(),
{
    if b.len() == 0 {
        assert(a + b =~= a);
    } else {
        law_commands_are_sorted_in_order(s, a, b.drop_last());
        assert((a + b).drop_last() =~= a + b.drop_last());
    }
}

/// A run that ends says how it ends, and how many inputs it leaves unsaid where it leaves any; a run
/// that was not cancelled leaves what waits alone.
pub proof fn law_unsaid_inputs_are_counted(
    queues: QueuesView,
    waiting: Seq<CommandView>,
    deferred: Seq<CommandView>,
)
    ensures
        run_ended(queues, waiting, false, deferred).0 == deferred,
        queues.steering.len() + queues.follow_up.len() == 0 ==> run_ended(
            queues,
            waiting,
            false,
            deferred,
        ).1 == seq![AgentEventView::TurnFinished { cancelled: false }],
        queues.steering.len() + queues.follow_up.len() > 0 ==> run_ended(
            queues,
            waiting,
            false,
            deferred,
        ).1.len() == 2 && run_ended(queues, waiting, false, deferred).1[0]
            == AgentEventView::Notice(
            "本轮结束,已丢弃 "@ + crate::text::dec(
                queues.steering.len() + queues.follow_up.len(),
            ) + " 条未注入的排队输入"@,
        ),
{
}

/// A call that fails ends the run and says why; one that was cancelled ends it as cancelled.
pub proof fn law_failed_calls_end_the_run(run: RunView, failed: FailedView, cancelled: bool)
    ensures
        ({
            let a = advanced(run, InputView::CallFailed(failed), cancelled);
            let b = advanced(run, InputView::CallCancelled(failed), cancelled);
            &&& a.step == (RunStepView::Finish { cancelled: false })
            &&& b.step == (RunStepView::Finish { cancelled: true })
            &&& a.shown == seq![AgentEventView::Error(failed.error.message)]
            &&& b.shown == seq![AgentEventView::Error(failed.error.message)]
            &&& a.run.usage == run.usage
        }),
        advanced(run, InputView::Refused, cancelled).step == (RunStepView::Finish {
            cancelled: false,
        }),
{
}

// ---- The calls ----

/// Each call is answered in its place by a result under its own id, with the text that its outcome
/// has for the model; the result is an error exactly where the outcome is one.
pub proof fn law_results_say_what_happened(items: Seq<ItemView>, i: int)
    requires
        0 <= i < items.len(),
        items[i].outcome is Some,
    ensures
        collected(items).results.len() == items.len(),
        collected(items).results[i] matches BlockView::ToolResult { tool_use_id, content, is_error }
            && tool_use_id == items[i].id && content == items[i].outcome->0.output.model_text && (
        is_error <==> items[i].outcome->0.error is Some),
    decreases items.len(),
{
    crate::runtime::batch::law_results_follow_the_calls(items);
}

/// A batch is the sum of its parts, in their order: it counts as aborted where a part does, and where
/// hooks of several calls want the run to stop, the first of these calls says why. A single call
/// counts as aborted exactly where its outcome says so.
pub proof fn law_batches_add_up(a: Seq<ItemView>, b: Seq<ItemView>)
    ensures
        collected(a + b).results == collected(a).results + collected(b).results,
        collected(a + b).aborted == (collected(a).aborted || collected(b).aborted),
        collected(a + b).stop == (if collected(a).stop is Some {
            collected(a).stop
        } else {
            collected(b).stop
        }),
        a.len() == 1 ==> collected(a).stop == a[0].hook_stop,
        a.len() == 1 ==> (collected(a).aborted <==> (a[0].outcome matches Some(outcome) && (
        outcome.error matches Some(error) && error.code == ToolErrorCode::Aborted))),
        a.len() == 0 ==> !collected(a).aborted && collected(a).stop is None,
    decreases b.len(),
{
    if b.len() == 0 {
        assert(a + b =~= a);
        assert(collected(a).results + collected(b).results =~= collected(a).results);
    } else {
        law_batches_add_up(a, b.drop_last());
        assert((a + b).drop_last() =~= a + b.drop_last());
        assert(collected(a + b).results =~= collected(a).results + collected(b).results);
    }
    if a.len() == 1 {
        assert(a.drop_last() =~= seq![]);
        assert(collected(a.drop_last()).stop is None);
    }
}

/// The calls that may run are started in the order in which the model asked for them, each once.
pub proof fn law_calls_start_in_order(items: Seq<ItemView>)
    requires
        items.len() <= usize::MAX,
    ensures
        forall|s: int|
            0 <= s < runnable(items).len() ==> (#[trigger] runnable(items)[s]) < items.len()
                && items[runnable(items)[s] as int].call is Some,
        forall|s: int, t: int|
            0 <= s < t < runnable(items).len() ==> #[trigger] runnable(items)[s]
                < #[trigger] runnable(items)[t],
        forall|i: int|
            0 <= i < items.len() && (#[trigger] items[i]).call is Some ==> runnable(items).contains(
                i as usize,
            ),
    decreases items.len(),
{
    if items.len() > 0 {
        let rest = items.drop_last();
        let before = runnable(rest);
        let now = runnable(items);
        law_calls_start_in_order(rest);
        assert forall|s: int| 0 <= s < now.len() implies (#[trigger] now[s]) < items.len()
            && items[now[s] as int].call is Some by {
            if s < before.len() {
                assert(now[s] == before[s]);
            }
        }
        assert forall|s: int, t: int| 0 <= s < t < now.len() implies #[trigger] now[s]
            < #[trigger] now[t] by {
            assert(now[s] == before[s]);
            if t < before.len() {
                assert(now[t] == before[t]);
            }
        }
        assert forall|i: int|
            0 <= i < items.len() && (#[trigger] items[i]).call is Some implies now.contains(
            i as usize,
        ) by {
            if i < rest.len() {
                assert(rest[i] == items[i]);
                let s = choose|s: int| 0 <= s < before.len() && before[s] == i as usize;
                assert(now[s] == i as usize);
            } else {
                assert(now[now.len() - 1] == i as usize);
            }
        }
    }
}

/// A call that ends gets the outcome that the hooks leave, in its own place; what is shown closes it
/// under its own id and name.
pub proof fn law_ended_calls_keep_their_outcome(b: BatchView, slot: usize, post: PostView)
    requires
        sound(b),
        b.items.len() <= usize::MAX,
        slot < b.next,
        !b.settled[slot as int],
    ensures
        ({
            let place = b.slots[slot as int] as int;
            let after = finished(b, slot, post);
            &&& 0 <= place < b.items.len()
            &&& after.items[place].outcome == Some(normalized(post.outcome))
            &&& after.items[place].id == b.items[place].id
            &&& after.items[place].hook_stop == post.stop_after_commit
            &&& after.running == b.running - 1
            &&& after.completed == b.completed + 1
            &&& finish_shown(b, slot, post).last() matches AgentEventView::ToolCallFinished {
                id,
                name,
                output,
                error,
            } && id == b.items[place].id && name == b.items[place].name && output == normalized(
                post.outcome,
            ).output && error == normalized(post.outcome).error
        }),
{
    crate::runtime::batch::law_finishing_keeps_batches_sound(b, slot, post);
    crate::runtime::batch::law_launching_keeps_batches_sound(b, false);
    unsettled_slots_run(b, slot);
}

proof fn unsettled_slots_run(b: BatchView, slot: usize)
    requires
        sound(b),
        slot < b.next,
        !b.settled[slot as int],
    ensures
        b.running > 0,
        b.completed < usize::MAX,
{
    fewer_are_set(b.settled, b.next as int, slot as int);
}

proof fn fewer_are_set(flags: Seq<bool>, n: int, k: int)
    requires
        0 <= k < n <= flags.len(),
        !flags[k],
        forall|i: int| n <= i < flags.len() ==> !#[trigger] flags[i],
    ensures
        crate::runtime::batch::count(flags) < n,
    decreases flags.len(),
{
    let rest = flags.drop_last();
    assert forall|i: int| n <= i < rest.len() implies !#[trigger] rest[i] by {
        assert(!flags[i]);
    }
    if n == flags.len() {
        all_are_few(rest);
        if k < rest.len() {
            assert(!rest[k]);
            fewer_are_set(rest, rest.len() as int, k);
        }
    } else {
        assert(!flags[flags.len() - 1]);
        fewer_are_set(rest, n, k);
    }
}

proof fn all_are_few(flags: Seq<bool>)
    ensures
        crate::runtime::batch::count(flags) <= flags.len(),
    decreases flags.len(),
{
    if flags.len() > 0 {
        all_are_few(flags.drop_last());
    }
}

/// Calls that may all run side by side do, as many at once as there are, up to four; otherwise one
/// runs at a time.
pub proof fn law_parallel_calls_share_the_time(items: Seq<ItemView>)
    ensures
        1 <= width_of(items) <= 4,
        (forall|i: int|
            0 <= i < items.len() && (#[trigger] items[i]).call is Some
                ==> items[i].call->0.spec.capabilities.execution_mode
                == ToolExecutionMode::ParallelSafe) && 1 < runnable(items).len()
            <= 4 ==> width_of(items) == runnable(items).len(),
        (forall|i: int|
            0 <= i < items.len() && (#[trigger] items[i]).call is Some
                ==> items[i].call->0.spec.capabilities.execution_mode
                == ToolExecutionMode::ParallelSafe) && runnable(items).len() > 4 ==> width_of(items)
            == 4,
{
}

/// A call that has not started when the run is cancelled does not run: it is closed as aborted. One
/// that starts is the next in line.
pub proof fn law_cancelled_calls_do_not_start(b: BatchView)
    requires
        sound(b),
        b.items.len() <= usize::MAX,
        b.running < b.cap,
        b.next < b.slots.len(),
    ensures
        launched(b, false).1 == Launch::Start(b.next),
        launched(b, false).0.items == b.items,
        launched(b, false).0.next == b.next + 1,
        launched(b, false).0.running == b.running + 1,
        launched(b, false).0.completed == b.completed,
        launched(b, true).0.next == b.next + 1,
        launched(b, true).0.completed == b.completed + 1,
        launched(b, true).1 == Launch::Closed(b.next),
        launched(b, true).0.running == b.running,
        ({
            let place = b.slots[b.next as int] as int;
            &&& launched(b, true).0.items[place].outcome matches Some(outcome) && (outcome.error
                matches Some(error) && error.code == ToolErrorCode::Aborted && error.message
                == "[用户取消,本工具未执行]"@) && outcome.output.model_text
                == "[用户取消,本工具未执行]"@
            &&& launch_shown(b, true).len() == 1
            &&& launch_shown(b, true)[0] matches AgentEventView::ToolCallFinished { id, name, .. }
                && id == b.items[place].id && name == b.items[place].name
            &&& launch_shown(b, false).len() == 0
        }),
{
    crate::runtime::batch::law_launching_keeps_batches_sound(b, true);
}

/// A call that was stopped for its time says so, as a timeout; a call that succeeded, or failed by
/// itself, keeps its outcome although its time was over.
pub proof fn law_timeouts_are_told(outcome: OutcomeView, limit: Duration)
    ensures
        outcome.error is None ==> after_limit(outcome, limit) == outcome,
        outcome.error matches Some(error) && error.code != ToolErrorCode::Aborted ==> after_limit(
            outcome,
            limit,
        ) == outcome,
        outcome.error matches Some(error) ==> (error.code == ToolErrorCode::Aborted ==> (
        after_limit(outcome, limit).error matches Some(late) && late.code == ToolErrorCode::Timeout
            && late.message == after_limit(outcome, limit).output.model_text && late.message
            == "工具执行超过 "@ + seconds_of(limit) + "s 上限被中止: "@ + error.message && late.retryable
            == error.retryable && late.details == error.details)),
        after_limit(outcome, limit).effects == outcome.effects,
        after_limit(outcome, limit).output.details == outcome.output.details,
        after_limit(outcome, limit).output.ui_summary == outcome.output.ui_summary,
{
}

// ---- Before a call runs ----

/// Whether a call does not run and fails with a code.
pub open spec fn refused_with(step: PreflightView, code: ToolErrorCode) -> bool {
    step matches PreflightView::Settled { outcome } && (outcome.error matches Some(error)
        && error.code == code && !error.retryable)
}

/// The way of a call: its arguments are prepared, the rules judge it, the hooks see it, the rules
/// judge it again, and it runs, or a person is asked. What is forbidden, rejected or cut off does
/// not run, and says by its code why.
pub proof fn law_calls_go_their_way(
    arguments: JsonView,
    call: PreparedView,
    pre: PreView,
    reason: Seq<char>,
    scopes: Seq<ApprovalScope>,
    error: ErrorView,
)
    ensures
        preflight_begun(arguments, false) == (PreflightView::Prepare { arguments, rewritten: false }),
        refused_with(preflight_begun(arguments, true), ToolErrorCode::TruncatedInput),
        prepared_taken(Ok(call), false) == (PreflightView::Judge { call, last: false }),
        prepared_taken(Err(error), false) matches PreflightView::Settled { outcome } && (
        outcome.error matches Some(own) && own.code == error.code),
        refused_with(prepared_taken(Err(error), true), ToolErrorCode::HookRejected),
        decision_taken(call, false, DecisionView::Allow) == (PreflightView::Hooks { call }),
        decision_taken(call, false, DecisionView::Ask { reason, scopes }) == (
        PreflightView::Hooks { call }),
        decision_taken(call, true, DecisionView::Allow) == (PreflightView::Ready { call }),
        decision_taken(call, true, DecisionView::Ask { reason, scopes }) == (PreflightView::Ask {
            call,
            reason,
            scopes,
        }),
        refused_with(
            decision_taken(call, true, DecisionView::Deny { reason }),
            ToolErrorCode::PermissionDenied,
        ),
        pre.block is Some ==> refused_with(hooks_taken(call, pre), ToolErrorCode::HookRejected),
        approval_taken(call, None) == (PreflightView::Ready { call }),
        approval_taken(call, Some(error)) matches PreflightView::Settled { outcome } && (
        outcome.error matches Some(own) && own.code == error.code),
{
}

/// An answer to the very request decides: yes lets the call go ahead, for the session where that was
/// said, and no refuses it. Cancelling refuses it, too.
pub proof fn law_people_decide(request_id: Seq<char>, signal: ApprovalSignal)
    ensures
        signal matches ApprovalSignal::Response(response) ==> (response.request_id@ == request_id ==> ({
            let (step, shown) = approval_after(request_id, signal);
            match response.decision {
                ApprovalDecision::Allow(scope) => step == (ApprovalStepView::Allowed {
                    remember: scope == ApprovalScope::Session,
                }) && shown == seq![AgentEventView::PermissionResolved { request_id, allowed: true }],
                ApprovalDecision::Deny => (step matches ApprovalStepView::Refused(error)
                    && error.code == ToolErrorCode::PermissionDenied) && shown == seq![
                    AgentEventView::PermissionResolved { request_id, allowed: false },
                ],
            }
        })),
        signal matches ApprovalSignal::Response(response) && response.request_id@ != request_id
            ==> approval_after(request_id, signal).0 is Wait,
        signal is Tick ==> approval_after(request_id, signal).0 is Wait && approval_after(
            request_id,
            signal,
        ).1.len() == 0,
        signal is Cancelled ==> (approval_after(request_id, signal).0 matches
            ApprovalStepView::Refused(error) && error.code == ToolErrorCode::Aborted),
        signal is Closed ==> (approval_after(request_id, signal).0 matches
            ApprovalStepView::Refused(error) && error.code == ToolErrorCode::PermissionDenied),
{
}

/// A person is asked about the tool that is to run, with the reason and what may be answered.
pub proof fn law_people_are_told_what_is_asked(
    request_id: Seq<char>,
    call: PreparedView,
    reason: Seq<char>,
    scopes: Seq<ApprovalScope>,
)
    ensures
        ({
            let request = request_for(request_id, call, reason, scopes);
            &&& request.request_id == request_id
            &&& request.tool == call.spec.name
            &&& request.reason == reason
            &&& request.scopes == scopes
        }),
{
}

// ---- Calls of the model ----

/// What a stream brings is shown as what it is, in its order; where it is not to be shown, nothing
/// is.
pub proof fn law_streams_are_shown_in_order(a: Seq<EventView>, b: Seq<EventView>, event: EventView)
    ensures
        stream_shown(a + b, true) == stream_shown(a, true) + stream_shown(b, true),
        shown_event(event, true) matches Some(shown) && match event {
            EventView::TextDelta(t) => shown == AgentEventView::AssistantDelta(t),
            EventView::ThinkingDelta(t) => shown == AgentEventView::ThinkingDelta(t),
            EventView::ToolCallBegun { name } => shown == (AgentEventView::ToolCallPending { name }),
        },
        shown_event(event, false) is None,
    decreases b.len(),
{
    if b.len() == 0 {
        assert(a + b =~= a);
        assert(stream_shown(a, true) + stream_shown(b, true) =~= stream_shown(a, true));
    } else {
        law_streams_are_shown_in_order(a, b.drop_last(), event);
        assert((a + b).drop_last() =~= a + b.drop_last());
        assert(stream_shown(a + b, true) =~= stream_shown(a, true) + stream_shown(b, true));
    }
}

/// An attempt that succeeds is the answer; one that was cancelled is not tried again; one that failed
/// is tried again only where it may succeed, nothing has been shown, and attempts are left.
pub proof fn law_attempts_end(
    p: RetryPolicy,
    attempt: u32,
    output: TurnView,
    failed: FailedView,
    emitted: bool,
)
    ensures
        after_attempt(p, attempt, TerminalView::Done(output), emitted) == CallView::Done(output),
        after_attempt(p, attempt, TerminalView::Aborted(failed), emitted) == CallView::Cancelled(
            failed,
        ),
        (!failed.error.retryable || emitted || attempt >= p.max_attempts) ==> after_attempt(
            p,
            attempt,
            TerminalView::Error(failed),
            emitted,
        ) == CallView::Failed(failed),
        (failed.error.retryable && !emitted && attempt < p.max_attempts
            && failed.error.retry_after is None) ==> after_attempt(
            p,
            attempt,
            TerminalView::Error(failed),
            emitted,
        ) is Wait,
{
}

/// Each wait is twice the one before it, until the longest is reached.
pub proof fn law_waits_double(p: RetryPolicy, attempt: u32)
    requires
        1 <= attempt < 20,
        2 * backoff_of(p, attempt) <= p.max_delay.nanos,
        p.max_delay.nanos < u128::MAX,
    ensures
        backoff_of(p, 1) == (if p.base_delay.nanos <= p.max_delay.nanos {
            p.base_delay.nanos
        } else {
            p.max_delay.nanos
        }),
        backoff_of(p, attempt) > 0 ==> backoff_of(p, (attempt + 1) as u32) == 2 * backoff_of(p, attempt),
{
    let base = p.base_delay.nanos as int;
    let t = two_to((attempt - 1) as nat) as int;
    assert(two_to(0) == 1);
    assert(base * 1 == base);
    assert(two_to(attempt as nat) == 2 * t);
    assert(base * (2 * t) == 2 * (base * t)) by (nonlinear_arith);
}

/// Calls of which one may not run beside others run one at a time, and so does a single call.
pub proof fn law_other_calls_run_alone(items: Seq<ItemView>, i: int)
    requires
        0 <= i < items.len(),
    ensures
        items[i].call is Some && items[i].call->0.spec.capabilities.execution_mode
            == ToolExecutionMode::Sequential ==> width_of(items) == 1,
        runnable(items).len() <= 1 ==> width_of(items) == 1,
{
}

/// What is told of a call that ends before it runs: the text, cleaned and cut in its middle where it is
/// longer than a result may be, to the model as in the error.
pub open spec fn told_as(step: PreflightView, code: ToolErrorCode, text: Seq<char>) -> bool {
    step matches PreflightView::Settled { outcome } && {
        &&& outcome.output.model_text == middle_cut(cleaned(text), 24_000)
        &&& outcome.output.ui_summary is None
        &&& outcome.effects.len() == 0
        &&& outcome.error matches Some(told) && told.code == code && told.message == middle_cut(
            cleaned(text),
            24_000,
        )
    }
}

/// A call that ends before it runs tells the reason it was given. Arguments that a hook rewrote and that
/// do not pass are rejected as the hook's doing, and those that nobody rewrote as they were; the details
/// stay.
pub proof fn law_refused_calls_tell_the_reason(
    arguments: JsonView,
    call: PreparedView,
    last: bool,
    pre: PreView,
    reason: Seq<char>,
    error: ErrorView,
)
    ensures
        told_as(
            preflight_begun(arguments, true),
            ToolErrorCode::TruncatedInput,
            "模型输出达到 token 上限，工具参数可能不完整；本次未执行，请重新发起完整工具调用"@,
        ),
        told_as(prepared_taken(Err(error), false), error.code, error.message),
        told_as(
            prepared_taken(Err(error), true),
            ToolErrorCode::HookRejected,
            "Hook 改写后的参数未通过 preflight: "@ + error.message,
        ),
        prepared_taken(Err(error), true) matches PreflightView::Settled { outcome }
            && outcome.output.details == error.details,
        told_as(
            decision_taken(call, last, DecisionView::Deny { reason }),
            ToolErrorCode::PermissionDenied,
            reason,
        ),
        pre.block matches Some(why) ==> told_as(
            hooks_taken(call, pre),
            ToolErrorCode::HookRejected,
            why,
        ),
        told_as(approval_taken(call, Some(error)), error.code, error.message),
        pre.block is None && same_value(pre.arguments, call.arguments) ==> hooks_taken(call, pre) == (
        PreflightView::Judge { call, last: true }),
        pre.block is None && !same_value(pre.arguments, call.arguments) ==> hooks_taken(call, pre) == (
        PreflightView::Prepare { arguments: pre.arguments, rewritten: true }),
        prepared_taken(Ok(call), true) == (PreflightView::Judge { call, last: true }),
{
}

/// Who refused a call is told: nobody could be asked, the user said no or cancelled, or no answer can come
/// any more. An answer to another request is remarked on and changes nothing.
pub proof fn law_refusals_are_told(request_id: Seq<char>, signal: ApprovalSignal)
    ensures
        nobody_to_ask().code is PermissionDenied,
        nobody_to_ask().message
            == "当前前端不支持交互审批；请在 [permissions] 中显式 allow 或改用 TUI"@,
        signal is Cancelled ==> (approval_after(request_id, signal).0 matches
            ApprovalStepView::Refused(error) && error.message == "等待审批时被用户取消"@
            && !error.retryable),
        signal is Closed ==> (approval_after(request_id, signal).0 matches
            ApprovalStepView::Refused(error) && error.message
            == "审批通道已关闭，本次工具未执行"@ && !error.retryable),
        signal is Cancelled || signal is Closed ==> approval_after(request_id, signal).1 == seq![
            AgentEventView::PermissionResolved { request_id, allowed: false },
        ],
        signal matches ApprovalSignal::Response(response) ==> {
            &&& response.request_id@ != request_id ==> approval_after(request_id, signal).1 == seq![
                AgentEventView::Notice("忽略过期审批响应 "@ + response.request_id@),
            ]
            &&& response.request_id@ == request_id && response.decision is Deny ==> (approval_after(
                request_id,
                signal,
            ).0 matches ApprovalStepView::Refused(error) && error.message
                == "用户拒绝了本次工具调用"@ && !error.retryable)
        },
{
}

/// A call without an outcome is answered as an internal error.
pub proof fn law_lost_outcomes_are_errors(item: ItemView)
    requires
        item.outcome is None,
    ensures
        result_block(item) == (BlockView::ToolResult {
            tool_use_id: item.id,
            content: "[内部错误:工具执行器未产生结果]"@,
            is_error: true,
        }),
{
}

} // verus!
