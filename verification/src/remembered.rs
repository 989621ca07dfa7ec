//! What holds of the log and of what the model is shown of it, fact by fact.
use vstd::prelude::*;

use crate::context::{system_of, with_section};
use crate::context::budget::{
    estimate, fold_count, fold_notice, foldable, folded, folds, messages_cost, tokens_for,
    total_folds, ContextBudget,
};
use crate::context::instructions::default_instructions;
use crate::hooks::{
    is_plain_text, post_fold, pre_fold, prompt_fold, stop_fold, HookFailureMode,
    PostToolUseHookResult, PreToolUseHookResult, Reply, StopHookResult, UserPromptHookResult,
};
use crate::json::{printed_json, JsonView};
use crate::message::{text_of, user_message, uses_of, BlockView, MessageView, Role, Usage};
use crate::plan::{item_ok, plan_ok, with_status, PlanItemView, PlanStatus, PlanView};
use crate::session::{
    answered, append_flaw, appends_ok, baseline, batch_blocks, blocks_cost, calls_of, id_paired,
    ids_of, kept, kept_notes, kind_of, missing, missing_notes, model_form, names_unpaired,
    plan_after, plan_notes, repair_notes, repaired, repeat_notes, result_ids, said,
    since_compaction, spoken, stand_in, stand_in_notes, tail_cost, times, use_ids, ModelProjection,
    PayloadView, PlanReminderReason, PlanReminderRecord,
};
use crate::text::{dec, sorted_texts};
use crate::tools::OutcomeView;

verus! {

// ---- Messages ----

/// A user message of a text is that text and nothing else, and the user said it.
pub proof fn law_a_users_words(text: Seq<char>)
    ensures
        user_message(text).role == Role::User,
        user_message(text).blocks.len() == 1,
        user_message(text).blocks[0] == BlockView::Text(text),
        text_of(user_message(text).blocks) == text,
        uses_of(user_message(text).blocks).len() == 0,
{
    let blocks = user_message(text).blocks;
    assert(blocks.drop_last() =~= seq![]);
    assert(text_of(seq![]).len() == 0);
    assert(uses_of(seq![]).len() == 0);
    assert(text_of(blocks) =~= text);
}

/// The text of some blocks is the text of the first of them followed by that of the others.
pub proof fn law_texts_are_joined_in_order(a: Seq<BlockView>, b: Seq<BlockView>)
    ensures
        text_of(a + b) == text_of(a) + text_of(b),
    decreases b.len(),
{
    if b.len() == 0 {
        assert(a + b =~= a);
        assert(text_of(a + b) =~= text_of(a) + text_of(b));
    } else {
        law_texts_are_joined_in_order(a, b.drop_last());
        assert((a + b).drop_last() =~= a + b.drop_last());
        assert(text_of(a + b) =~= text_of(a) + text_of(b));
    }
}

/// The calls among some blocks are listed in their order.
pub proof fn law_calls_are_listed_in_order(a: Seq<BlockView>, b: Seq<BlockView>)
    ensures
        uses_of(a + b) == uses_of(a) + uses_of(b),
    decreases b.len(),
{
    if b.len() == 0 {
        assert(a + b =~= a);
        assert(uses_of(a + b) =~= uses_of(a) + uses_of(b));
    } else {
        law_calls_are_listed_in_order(a, b.drop_last());
        assert((a + b).drop_last() =~= a + b.drop_last());
        assert(uses_of(a + b) =~= uses_of(a) + uses_of(b));
    }
}

/// A call is listed with its id, its name and its arguments; no other block is a call, and only
/// texts are text.
pub proof fn law_a_block_is_what_it_is(block: BlockView)
    ensures
        block matches BlockView::ToolUse { id, name, input } ==> uses_of(seq![block]) == seq![
            (id, name, input),
        ],
        !(block is ToolUse) ==> uses_of(seq![block]).len() == 0,
        block matches BlockView::Text(text) ==> text_of(seq![block]) == text,
        !(block is Text) ==> text_of(seq![block]).len() == 0,
        block matches BlockView::ToolUse { id, .. } ==> use_ids(seq![block]) == seq![id],
        !(block is ToolUse) ==> use_ids(seq![block]).len() == 0,
        block matches BlockView::ToolResult { tool_use_id, .. } ==> result_ids(seq![block]) == seq![
            tool_use_id,
        ],
        !(block is ToolResult) ==> result_ids(seq![block]).len() == 0,
{
    assert(seq![block].drop_last() =~= seq![]);
    assert(uses_of(seq![]).len() == 0);
    assert(text_of(seq![]).len() == 0);
    assert(use_ids(seq![]).len() == 0);
    assert(result_ids(seq![]).len() == 0);
    assert(text_of(seq![block]) =~= (match block {
        BlockView::Text(text) => text,
        _ => seq![],
    }));
}

/// Tokens add up, each kind for itself.
pub proof fn law_usage_adds_up(a: Usage, b: Usage)
    requires
        a.fits(b),
    ensures
        a.plus(b).input_tokens == a.input_tokens + b.input_tokens,
        a.plus(b).output_tokens == a.output_tokens + b.output_tokens,
        a.cache is None ==> a.plus(b).cache == b.cache,
        b.cache is None ==> a.plus(b).cache == a.cache,
        a.cache is Some && b.cache is Some ==> (a.plus(b).cache matches Some(c) && c.read_tokens
            == a.cache->0.read_tokens + b.cache->0.read_tokens && c.write_tokens
            == a.cache->0.write_tokens + b.cache->0.write_tokens),
{
}

// ---- Facts ----

/// What some facts become for the model stands in the order of the facts.
pub proof fn law_facts_are_spoken_in_order(a: Seq<PayloadView>, b: Seq<PayloadView>)
    ensures
        spoken(a + b) == spoken(a) + spoken(b),
    decreases b.len(),
{
    if b.len() == 0 {
        assert(a + b =~= a);
        assert(spoken(a + b) =~= spoken(a) + spoken(b));
    } else {
        law_facts_are_spoken_in_order(a, b.drop_last());
        assert((a + b).drop_last() =~= a + b.drop_last());
        assert(spoken(a + b) =~= spoken(a) + spoken(b));
    }
}

/// The messages among some facts stand in their order.
pub proof fn law_messages_are_said_in_order(a: Seq<PayloadView>, b: Seq<PayloadView>)
    ensures
        said(a + b) == said(a) + said(b),
    decreases b.len(),
{
    if b.len() == 0 {
        assert(a + b =~= a);
        assert(said(a + b) =~= said(a) + said(b));
    } else {
        law_messages_are_said_in_order(a, b.drop_last());
        assert((a + b).drop_last() =~= a + b.drop_last());
        assert(said(a + b) =~= said(a) + said(b));
    }
}

/// The results among some blocks are listed in their order.
pub proof fn law_results_are_listed_in_order(a: Seq<BlockView>, b: Seq<BlockView>)
    ensures
        result_ids(a + b) == result_ids(a) + result_ids(b),
    decreases b.len(),
{
    if b.len() == 0 {
        assert(a + b =~= a);
        assert(result_ids(a + b) =~= result_ids(a) + result_ids(b));
    } else {
        law_results_are_listed_in_order(a, b.drop_last());
        assert((a + b).drop_last() =~= a + b.drop_last());
        assert(result_ids(a + b) =~= result_ids(a) + result_ids(b));
    }
}

/// The call ids among some blocks are listed in their order, with repetitions.
pub proof fn law_call_ids_are_listed_in_order(a: Seq<BlockView>, b: Seq<BlockView>)
    ensures
        use_ids(a + b) == use_ids(a) + use_ids(b),
    decreases b.len(),
{
    if b.len() == 0 {
        assert(a + b =~= a);
        assert(use_ids(a + b) =~= use_ids(a) + use_ids(b));
    } else {
        law_call_ids_are_listed_in_order(a, b.drop_last());
        assert((a + b).drop_last() =~= a + b.drop_last());
        assert(use_ids(a + b) =~= use_ids(a) + use_ids(b));
    }
}

/// The blocks of a batch are those of its messages, in their order.
pub proof fn law_batches_hold_all_blocks(a: Seq<PayloadView>, b: Seq<PayloadView>)
    ensures
        batch_blocks(a + b) == batch_blocks(a) + batch_blocks(b),
    decreases b.len(),
{
    if b.len() == 0 {
        assert(a + b =~= a);
        assert(batch_blocks(a + b) =~= batch_blocks(a) + batch_blocks(b));
    } else {
        law_batches_hold_all_blocks(a, b.drop_last());
        assert((a + b).drop_last() =~= a + b.drop_last());
        assert(batch_blocks(a + b) =~= batch_blocks(a) + batch_blocks(b));
    }
}

/// Occurrences add up.
pub proof fn law_occurrences_add_up(a: Seq<Seq<char>>, b: Seq<Seq<char>>, id: Seq<char>)
    ensures
        times(a + b, id) == times(a, id) + times(b, id),
    decreases b.len(),
{
    if b.len() == 0 {
        assert(a + b =~= a);
        assert(times(a + b, id) == times(a, id) + times(b, id));
    } else {
        law_occurrences_add_up(a, b.drop_last(), id);
        assert((a + b).drop_last() =~= a + b.drop_last());
        assert(times(a + b, id) == times(a, id) + times(b, id));
    }
}

/// The cost of some blocks is the sum of what they cost.
pub proof fn law_blocks_cost_their_sum(a: Seq<BlockView>, b: Seq<BlockView>)
    ensures
        blocks_cost(a + b) == blocks_cost(a) + blocks_cost(b),
    decreases b.len(),
{
    if b.len() == 0 {
        assert(a + b =~= a);
        assert(blocks_cost(a + b) == blocks_cost(a) + blocks_cost(b));
    } else {
        law_blocks_cost_their_sum(a, b.drop_last());
        assert((a + b).drop_last() =~= a + b.drop_last());
        assert(blocks_cost(a + b) == blocks_cost(a) + blocks_cost(b));
    }
}

/// A message is shown to the model as it is, and a summary and a reminder as words of the user; other
/// facts are not shown.
pub proof fn law_facts_become_messages(fact: PayloadView, revision: u64)
    ensures
        fact matches PayloadView::Message { message, .. } ==> spoken(seq![fact]) == seq![message]
            && said(seq![fact]) == seq![message] && batch_blocks(seq![fact]) == message.blocks,
        fact matches PayloadView::Compaction { summary, .. } ==> spoken(seq![fact]) == seq![
            user_message("[Earlier conversation summary]\n"@ + summary),
        ],
        (fact is Notice || fact is Artifact || fact is ModelChange || fact is PlanUpdated) ==> spoken(
            seq![fact],
        ).len() == 0,
        !(fact is Message) ==> said(seq![fact]).len() == 0 && batch_blocks(seq![fact]).len() == 0,
        model_form(
            PayloadView::PlanReminder(
                PlanReminderRecord { revision, reason: PlanReminderReason::Continue },
            ),
        ) == Some(
            user_message(
                "[Plan reminder] Plan revision "@ + dec(revision as nat)
                    + " still has active items. Continue the work. If the work is actually finished, call update_plan with the complete current snapshot before giving the final response."@,
            ),
        ),
        model_form(
            PayloadView::PlanReminder(
                PlanReminderRecord { revision, reason: PlanReminderReason::Cancelled },
            ),
        ) == Some(
            user_message(
                "[Plan state after cancellation] The in-progress item was returned to pending. The current plan revision is "@
                    + dec(revision as nat) + "."@,
            ),
        ),
{
    assert(seq![fact].drop_last() =~= seq![]);
    assert(spoken(seq![]).len() == 0);
    assert(said(seq![]).len() == 0);
    assert(batch_blocks(seq![]).len() == 0);
    match fact {
        PayloadView::Message { message, .. } => {
            assert(spoken(seq![fact]) =~= seq![message]);
            assert(said(seq![fact]) =~= seq![message]);
            assert(batch_blocks(seq![fact]) =~= message.blocks);
        },
        PayloadView::Compaction { summary, .. } => {
            assert(spoken(seq![fact]) =~= seq![
                user_message("[Earlier conversation summary]\n"@ + summary),
            ]);
        },
        _ => {},
    }
}

/// Every kind of fact is stored under a name of its own.
pub proof fn law_facts_have_names(fact: PayloadView)
    ensures
        fact is Message ==> kind_of(fact) == "message"@,
        fact is Notice ==> kind_of(fact) == "notice"@,
        fact is Artifact ==> kind_of(fact) == "artifact"@,
        fact is Compaction ==> kind_of(fact) == "compaction"@,
        fact is ModelChange ==> kind_of(fact) == "model_change"@,
        fact is PlanUpdated ==> kind_of(fact) == "plan_updated"@,
        fact is PlanReminder ==> kind_of(fact) == "plan_reminder"@,
{
}

/// The log counts from its last summary on: everything before that is passed over, and nothing
/// behind it is.
pub proof fn law_the_log_counts_from_its_last_summary(
    before: Seq<PayloadView>,
    summary: PayloadView,
    after: Seq<PayloadView>,
)
    requires
        summary is Compaction,
        forall|i: int| 0 <= i < after.len() ==> !((#[trigger] after[i]) is Compaction),
    ensures
        since_compaction(before.push(summary) + after) == seq![summary] + after,
        since_compaction(after) == after,
    decreases after.len(),
{
    let log = before.push(summary) + after;
    if after.len() == 0 {
        assert(log =~= before.push(summary));
        assert(seq![summary] + after =~= seq![summary]);
        assert(since_compaction(after) =~= after);
    } else {
        let rest = after.drop_last();
        assert forall|i: int| 0 <= i < rest.len() implies !((#[trigger] rest[i]) is Compaction) by {
            assert(!(after[i] is Compaction));
        }
        law_the_log_counts_from_its_last_summary(before, summary, rest);
        assert(log.drop_last() =~= before.push(summary) + rest);
        assert(!(after[after.len() - 1] is Compaction));
        assert(since_compaction(log) =~= seq![summary] + after);
        assert(since_compaction(after) =~= after);
    }
}

/// The token count comes from the last answer that reported one: its input and its output together.
/// What was said before that answer adds nothing, what was said behind it adds what it costs.
pub proof fn law_the_last_report_counts(a: Seq<PayloadView>, b: Seq<PayloadView>)
    ensures
        baseline(b) is Some ==> baseline(a + b) == baseline(b) && tail_cost(a + b) == tail_cost(b),
        baseline(b) is None ==> baseline(a + b) == baseline(a) && tail_cost(a + b) == tail_cost(a)
            + tail_cost(b),
    decreases b.len(),
{
    if b.len() == 0 {
        assert(a + b =~= a);
    } else {
        law_the_last_report_counts(a, b.drop_last());
        assert((a + b).drop_last() =~= a + b.drop_last());
    }
}

/// Only answers of the assistant report tokens, and only where the service did.
pub proof fn law_answers_report_their_tokens(
    message: MessageView,
    usage: Usage,
    fingerprint: Option<Seq<char>>,
)
    ensures
        ({
            let fact = PayloadView::Message {
                message,
                usage: Some(usage),
                prompt_fingerprint: fingerprint,
            };
            let silent = PayloadView::Message {
                message,
                usage: None,
                prompt_fingerprint: fingerprint,
            };
            &&& message.role == Role::Assistant && usage.input_tokens + usage.output_tokens <= u64::MAX
                ==> baseline(seq![fact]) == Some(
                (usage.input_tokens + usage.output_tokens) as u64,
            ) && tail_cost(seq![fact]) == 0
            &&& message.role == Role::User ==> baseline(seq![fact]) is None && tail_cost(seq![fact])
                == blocks_cost(message.blocks)
            &&& baseline(seq![silent]) is None
            &&& tail_cost(seq![silent]) == blocks_cost(message.blocks)
        }),
{
    let fact = PayloadView::Message { message, usage: Some(usage), prompt_fingerprint: fingerprint };
    let silent = PayloadView::Message { message, usage: None, prompt_fingerprint: fingerprint };
    assert(seq![fact].drop_last() =~= seq![]);
    assert(seq![silent].drop_last() =~= seq![]);
    assert(baseline(seq![]) is None);
    assert(tail_cost(seq![]) == 0);
}

/// A block costs its characters and sixteen more for its frame; a call costs its name and its
/// arguments as they are printed.
pub proof fn law_blocks_cost_their_characters(block: BlockView)
    ensures
        block matches BlockView::Text(text) ==> blocks_cost(seq![block]) == text.len() + 16,
        block matches BlockView::Thinking { text, .. } ==> blocks_cost(seq![block]) == text.len() + 16,
        block matches BlockView::ToolUse { name, input, .. } ==> blocks_cost(seq![block]) == name.len()
            + printed_json(input).len() + 16,
        block matches BlockView::ToolResult { content, .. } ==> blocks_cost(seq![block])
            == content.len() + 16,
{
    assert(seq![block].drop_last() =~= seq![]);
    assert(blocks_cost(seq![]) == 0);
}

// ---- Repairs ----

/// A call under a new id waits behind the others; under a known id only the name changes.
pub proof fn law_calls_wait_in_order(
    blocks: Seq<BlockView>,
    id: Seq<char>,
    name: Seq<char>,
    input: JsonView,
)
    ensures
        ({
            let before = calls_of(blocks);
            let after = calls_of(blocks.push(BlockView::ToolUse { id, name, input }));
            &&& (forall|k: int| 0 <= k < before.len() ==> (#[trigger] before[k]).0 != id) ==> after
                == before.push((id, name))
            &&& (exists|k: int| 0 <= k < before.len() && (#[trigger] before[k]).0 == id) ==> {
                &&& after.len() == before.len()
                &&& forall|k: int|
                    0 <= k < before.len() ==> (#[trigger] after[k]) == (if before[k].0 == id {
                        (id, name)
                    } else {
                        before[k]
                    })
            }
        }),
{
    let before = calls_of(blocks);
    let more = blocks.push(BlockView::ToolUse { id, name, input });
    assert(more.drop_last() =~= blocks);
    if forall|k: int| 0 <= k < before.len() ==> (#[trigger] before[k]).0 != id {
        assert(!ids_of(before).contains(id));
    } else {
        let k = choose|k: int| 0 <= k < before.len() && (#[trigger] before[k]).0 == id;
        assert(ids_of(before)[k] == id);
    }
}

/// Blocks that are no calls leave the calls alone.
pub proof fn law_only_calls_wait(blocks: Seq<BlockView>, block: BlockView)
    requires
        !(block is ToolUse),
    ensures
        calls_of(blocks.push(block)) == calls_of(blocks),
        calls_of(seq![]).len() == 0,
        repeat_notes(blocks.push(block)) == repeat_notes(blocks),
{
    assert(blocks.push(block).drop_last() =~= blocks);
}

/// A result stays where it answers a call that waits and that nothing before it answered; any other
/// result is dropped with a remark that says why. All other blocks stay.
pub proof fn law_results_stay_where_they_answer(
    blocks: Seq<BlockView>,
    ids: Seq<Seq<char>>,
    block: BlockView,
)
    ensures
        !(block is ToolResult) ==> kept(blocks.push(block), ids) == kept(blocks, ids).push(block)
            && kept_notes(blocks.push(block), ids) == kept_notes(blocks, ids),
        block matches BlockView::ToolResult { tool_use_id, .. } ==> {
            let waits = ids.contains(tool_use_id);
            let fresh = !result_ids(blocks).contains(tool_use_id);
            &&& waits && fresh ==> kept(blocks.push(block), ids) == kept(blocks, ids).push(block)
                && kept_notes(blocks.push(block), ids) == kept_notes(blocks, ids)
            &&& !waits ==> kept(blocks.push(block), ids) == kept(blocks, ids) && kept_notes(
                blocks.push(block),
                ids,
            ) == kept_notes(blocks, ids).push("移除孤立 ToolResult "@ + tool_use_id)
            &&& waits && !fresh ==> kept(blocks.push(block), ids) == kept(blocks, ids) && kept_notes(
                blocks.push(block),
                ids,
            ) == kept_notes(blocks, ids).push("移除重复 ToolResult "@ + tool_use_id)
        },
        kept(seq![], ids).len() == 0,
        kept_notes(seq![], ids).len() == 0,
{
    assert(blocks.push(block).drop_last() =~= blocks);
}

/// A result is made up for each call that has none, in the order of the calls: an error that says
/// that the call was not run again.
pub proof fn law_lost_results_are_made_up(
    calls: Seq<(Seq<char>, Seq<char>)>,
    id: Seq<char>,
    name: Seq<char>,
    present: Seq<Seq<char>>,
)
    ensures
        ({
            let ids = ids_of(calls);
            &&& present.contains(id) ==> missing(ids.push(id), present) == missing(ids, present)
                && missing_notes(calls.push((id, name)), present) == missing_notes(calls, present)
            &&& !present.contains(id) ==> {
                &&& missing(ids.push(id), present) == missing(ids, present).push(
                    BlockView::ToolResult {
                        tool_use_id: id,
                        content: "[会话恢复修复：工具结果缺失，原调用未重新执行]"@,
                        is_error: true,
                    },
                )
                &&& missing_notes(calls.push((id, name)), present) == missing_notes(
                    calls,
                    present,
                ).push("为工具 "@ + name + " 合成缺失的 ToolResult "@ + id)
            }
            &&& missing(seq![], present).len() == 0
            &&& missing_notes(seq![], present).len() == 0
        }),
{
    assert(ids_of(calls).push(id).drop_last() =~= ids_of(calls));
    assert(calls.push((id, name)).drop_last() =~= calls);
}

/// An answer keeps its own blocks in front and gets what is missing behind them. Calls that nobody
/// answered get a message of the user of their own, before the next thing that is said.
pub proof fn law_answers_are_completed(
    message: MessageView,
    open: Seq<Seq<char>>,
    rest: Seq<MessageView>,
)
    ensures
        answered(message, open).role == message.role,
        answered(message, open).blocks == kept(message.blocks, open) + missing(
            open,
            result_ids(message.blocks),
        ),
        stand_in(open).role == Role::User,
        stand_in(open).blocks == missing(sorted_texts(open), seq![]),
        open.len() == 0 ==> repaired(seq![], open).len() == 0,
        open.len() > 0 ==> repaired(seq![], open) == seq![stand_in(open)],
        message.role == Role::User ==> repaired(seq![message] + rest, open) == seq![
            answered(message, open),
        ] + repaired(rest, seq![]),
        message.role == Role::Assistant && open.len() == 0 ==> repaired(seq![message] + rest, open)
            == seq![message] + repaired(rest, ids_of(calls_of(message.blocks))),
        message.role == Role::Assistant && open.len() > 0 ==> repaired(seq![message] + rest, open)
            == seq![stand_in(open), message] + repaired(rest, ids_of(calls_of(message.blocks))),
{
    assert((seq![message] + rest).drop_first() =~= rest);
}

/// Every repair is remarked on, in the order in which the messages stand.
pub proof fn law_repairs_are_remarked_on(
    message: MessageView,
    open: Seq<(Seq<char>, Seq<char>)>,
    rest: Seq<MessageView>,
    blocks: Seq<BlockView>,
    id: Seq<char>,
    name: Seq<char>,
    input: JsonView,
)
    ensures
        message.role == Role::User ==> repair_notes(seq![message] + rest, open) == kept_notes(
            message.blocks,
            ids_of(open),
        ) + missing_notes(open, result_ids(message.blocks)) + repair_notes(rest, seq![]),
        message.role == Role::Assistant ==> repair_notes(seq![message] + rest, open) == stand_in_notes(
            sorted_texts(ids_of(open)),
        ) + repeat_notes(message.blocks) + repair_notes(rest, calls_of(message.blocks)),
        repair_notes(seq![], open) == stand_in_notes(sorted_texts(ids_of(open))),
        stand_in_notes(seq![id]) == seq!["为末尾 ToolUse 合成缺失的 ToolResult "@ + id],
        stand_in_notes(ids_of(open).push(id)) == stand_in_notes(ids_of(open)) + stand_in_notes(seq![id]),
        ids_of(calls_of(blocks)).contains(id) ==> repeat_notes(
            blocks.push(BlockView::ToolUse { id, name, input }),
        ) == repeat_notes(blocks).push("assistant 内 ToolUse ID "@ + id + " 重复"@),
        !ids_of(calls_of(blocks)).contains(id) ==> repeat_notes(
            blocks.push(BlockView::ToolUse { id, name, input }),
        ) == repeat_notes(blocks),
{
    assert((seq![message] + rest).drop_first() =~= rest);
    assert(stand_in_notes(seq![id]) =~= seq!["为末尾 ToolUse 合成缺失的 ToolResult "@ + id]);
    assert(stand_in_notes(ids_of(open).push(id)) =~= stand_in_notes(ids_of(open)) + stand_in_notes(
        seq![id],
    ));
    assert(blocks.push(BlockView::ToolUse { id, name, input }).drop_last() =~= blocks);
}

// ---- Plans in the log ----

/// An update takes effect exactly where it is the next revision and acceptable; otherwise the plan
/// stays and a remark is left. Other facts leave the plan alone.
pub proof fn law_updates_take_effect_in_turn(
    log: Seq<PayloadView>,
    next: PlanView,
    other: PayloadView,
)
    requires
        !(other is PlanUpdated),
    ensures
        ({
            let current = plan_after(log);
            let updated = log.push(PayloadView::PlanUpdated(next));
            let fits = next.revision == current.revision + 1 && plan_ok(next.items, next.explanation);
            &&& fits ==> plan_after(updated) == next && plan_notes(updated) == plan_notes(log)
            &&& !fits ==> plan_after(updated) == current && plan_notes(updated) == plan_notes(log).push(
                "忽略不连续或无效的计划修订 "@ + dec(next.revision),
            )
            &&& plan_after(log.push(other)) == current
            &&& plan_notes(log.push(other)) == plan_notes(log)
        }),
        plan_after(seq![]).revision == 0,
        plan_after(seq![]).items.len() == 0,
        plan_notes(seq![]).len() == 0,
{
    assert(log.push(PayloadView::PlanUpdated(next)).drop_last() =~= log);
    assert(log.push(other).drop_last() =~= log);
}

/// A batch is refused exactly where one of its updates may not follow, and the refusal names the
/// first such update.
pub proof fn law_refused_updates_are_named(
    current: PlanView,
    next: PlanView,
    rest: Seq<PayloadView>,
)
    ensures
        append_flaw(current, rest) is None <==> appends_ok(current, rest),
        append_flaw(current, seq![]) is None,
        ({
            let batch = seq![PayloadView::PlanUpdated(next)] + rest;
            let fits = next.revision == current.revision + 1 && plan_ok(next.items, next.explanation);
            &&& !fits ==> append_flaw(current, batch) == Some(
                "计划修订 "@ + dec(next.revision) + " 不能接在当前计划之后"@,
            )
            &&& fits ==> append_flaw(current, batch) == append_flaw(next, rest)
        }),
    decreases rest.len(),
{
    assert((seq![PayloadView::PlanUpdated(next)] + rest).drop_first() =~= rest);
    if rest.len() > 0 {
        match rest[0] {
            PayloadView::PlanUpdated(then) => {
                law_refused_updates_are_named(then, next, rest.drop_first());
            },
            _ => {
                law_refused_updates_are_named(current, next, rest.drop_first());
            },
        }
    }
}

// ---- The budget ----

/// What the answer is promised is not available for the question; one token always is. Without a
/// known window nothing is enforced.
pub proof fn law_room_is_left_for_the_answer(budget: ContextBudget)
    ensures
        budget.available() is None <==> budget.context_window is None,
        budget.context_window matches Some(window) ==> {
            &&& window > budget.reserve_output ==> budget.available() == Some(
                (window - budget.reserve_output) as u64,
            )
            &&& window <= budget.reserve_output ==> budget.available() == Some(1u64)
        },
{
}

/// A token is counted for every four characters, and one more. A count that the service reported is
/// taken as it is, with what was said behind it; without one everything is counted.
pub proof fn law_tokens_are_estimated(
    chars: u64,
    system: u64,
    tools: u64,
    projection: ModelProjection,
)
    ensures
        4 * (tokens_for(chars) - 1) <= chars < 4 * tokens_for(chars),
        projection.known_token_baseline matches Some(known) ==> (known
            + projection.tail_chars_after_baseline / 4 + 1 <= u64::MAX ==> estimate(
            system,
            tools,
            projection,
        ) == known + projection.tail_chars_after_baseline / 4 + 1),
        ({
            let all = system + tools + messages_cost(projection.messages.deep_view());
            projection.known_token_baseline is None && all <= u64::MAX ==> estimate(
                system,
                tools,
                projection,
            ) == all / 4 + 1
        }),
{
}

/// The cost of some messages is the sum of what they cost.
pub proof fn law_messages_cost_their_sum(a: Seq<MessageView>, b: Seq<MessageView>)
    ensures
        messages_cost(a + b) == messages_cost(a) + messages_cost(b),
    decreases b.len(),
{
    if b.len() == 0 {
        assert(a + b =~= a);
        assert(messages_cost(a + b) == messages_cost(a) + messages_cost(b));
    } else {
        law_messages_cost_their_sum(a, b.drop_last());
        assert((a + b).drop_last() =~= a + b.drop_last());
        assert(messages_cost(a + b) == messages_cost(a) + messages_cost(b));
    }
}

/// Folded results add up over the messages.
pub proof fn law_folds_add_up(a: Seq<MessageView>, b: Seq<MessageView>)
    ensures
        folds(a + b) == folds(a) + folds(b),
    decreases b.len(),
{
    if b.len() == 0 {
        assert(a + b =~= a);
        assert(folds(a + b) == folds(a) + folds(b));
    } else {
        law_folds_add_up(a, b.drop_last());
        assert((a + b).drop_last() =~= a + b.drop_last());
        assert(folds(a + b) == folds(a) + folds(b));
    }
}

/// Folded results add up over the blocks.
pub proof fn law_folds_of_blocks_add_up(a: Seq<BlockView>, b: Seq<BlockView>)
    ensures
        fold_count(a + b) == fold_count(a) + fold_count(b),
    decreases b.len(),
{
    if b.len() == 0 {
        assert(a + b =~= a);
        assert(fold_count(a + b) == fold_count(a) + fold_count(b));
    } else {
        law_folds_of_blocks_add_up(a, b.drop_last());
        assert((a + b).drop_last() =~= a + b.drop_last());
        assert(fold_count(a + b) == fold_count(a) + fold_count(b));
    }
}

/// A message costs what its blocks cost, and results fold in words of the user only.
pub proof fn law_a_message_counts_once(message: MessageView, block: BlockView)
    ensures
        messages_cost(seq![message]) == blocks_cost(message.blocks),
        message.role == Role::User ==> folds(seq![message]) == fold_count(message.blocks),
        message.role == Role::Assistant ==> folds(seq![message]) == 0,
        foldable(block) ==> fold_count(seq![block]) == 1,
        !foldable(block) ==> fold_count(seq![block]) == 0,
{
    assert(seq![message].drop_last() =~= seq![]);
    assert(seq![block].drop_last() =~= seq![]);
    assert(messages_cost(seq![]) == 0);
    assert(folds(seq![]) == 0);
    assert(fold_count(seq![]) == 0);
}

/// Folding cuts a long result of the user's messages down to its first hundred and sixty characters
/// and says how long it was; the last two messages, the words of the assistant and everything else
/// stay as they are.
pub proof fn law_old_results_are_folded(messages: Seq<MessageView>, i: int, j: int)
    requires
        0 <= i < messages.len(),
        0 <= j < messages[i].blocks.len(),
    ensures
        ({
            let before = messages[i].blocks[j];
            let after = folded(messages)[i].blocks[j];
            let short = before->content.take(160) + "\n[已按上下文预算折叠,原文 "@ + dec(
                before->content.len(),
            ) + " 字符;完整内容保留在会话事实日志中]"@;
            let folds_here = i + 2 < messages.len() && messages[i].role == Role::User
                && before is ToolResult && before->content.len() > 160 && short.len()
                < before->content.len();
            &&& folds_here ==> after == (BlockView::ToolResult {
                tool_use_id: before->tool_use_id,
                content: short,
                is_error: before->is_error,
            })
            &&& !folds_here ==> after == before
            &&& folded(messages)[i].role == messages[i].role
        }),
        folded(messages).len() == messages.len(),
        total_folds(messages) == (if messages.len() > 2 {
            folds(messages.take(messages.len() - 2))
        } else {
            0
        }),
        fold_notice(total_folds(messages)) == "上下文接近预算,已在本轮视图中折叠 "@ + dec(
            total_folds(messages),
        ) + " 个旧工具结果(事实日志未修改)"@,
{
    assert(messages.take(0) =~= seq![]);
    assert(folds(seq![]) == 0);
}

/// The sections of the system text stand in their order with blank lines between them; a new section
/// comes last.
pub proof fn law_sections_stand_in_order(prompt: crate::context::PromptView, section: Seq<char>)
    ensures
        with_section(prompt, section).messages == prompt.messages,
        with_section(prompt, section).system_sections == prompt.system_sections.push(section),
        prompt.system_sections.len() > 0 ==> system_of(with_section(prompt, section)) == system_of(prompt)
            + "\n\n"@ + section,
        prompt.system_sections.len() == 0 ==> system_of(with_section(prompt, section)) == section,
{
    assert(prompt.system_sections.push(section).drop_last() =~= prompt.system_sections);
}

// ---- Hooks ----

/// Before a prompt is taken, each hook in turn may add plain words of the user, which stand in the
/// order of the hooks, or block the prompt and say why. One that fails blocks the prompt where it is
/// not allowed to fail, and leaves a warning otherwise.
pub proof fn law_hooks_judge_prompts(
    replies: Seq<Reply<UserPromptHookResult>>,
    reply: Reply<UserPromptHookResult>,
)
    ensures
        ({
            let before = prompt_fold(replies);
            let after = prompt_fold(replies.push(reply));
            let failed = "Hook "@ + reply.name + " 在 "@ + "UserPromptSubmit"@ + " 失败: "@ + (
            reply.result->Err_0)@;
            &&& reply.result == Ok::<UserPromptHookResult, String>(UserPromptHookResult::Continue)
                ==> after == before
            &&& reply.result matches Ok(UserPromptHookResult::Block(reason)) ==> after.block == Some(
                "Hook "@ + reply.name + ": "@ + reason@,
            ) && after.added_context == before.added_context && after.warnings == before.warnings
            &&& reply.result matches Ok(UserPromptHookResult::AddContext(message)) ==> {
                &&& is_plain_text(message.deep_view()) ==> after.added_context
                    == before.added_context.push(message.deep_view()) && after.block == before.block
                &&& !is_plain_text(message.deep_view()) ==> after.added_context
                    == before.added_context && after.block == Some(
                    "Hook "@ + reply.name + " 返回了非法上下文；只允许纯文本 user 消息"@,
                )
                &&& after.warnings == before.warnings
            }
            &&& reply.result is Err && reply.mode == HookFailureMode::Open ==> after.warnings
                == before.warnings.push(failed) && after.block == before.block
                && after.added_context == before.added_context
            &&& reply.result is Err && reply.mode == HookFailureMode::Closed ==> after.block == Some(
                failed,
            ) && after.warnings == before.warnings && after.added_context == before.added_context
        }),
        prompt_fold(seq![]).block is None,
        prompt_fold(seq![]).added_context.len() == 0,
        prompt_fold(seq![]).warnings.len() == 0,
{
    assert(replies.push(reply).drop_last() =~= replies);
}

/// Before a call is run, each hook in turn may put other arguments in the place of the ones it was
/// shown, or block the call and say why.
pub proof fn law_hooks_judge_calls(
    arguments: JsonView,
    replies: Seq<Reply<PreToolUseHookResult>>,
    reply: Reply<PreToolUseHookResult>,
)
    ensures
        ({
            let before = pre_fold(arguments, replies);
            let after = pre_fold(arguments, replies.push(reply));
            let failed = "Hook "@ + reply.name + " 在 "@ + "PreToolUse"@ + " 失败: "@ + (
            reply.result->Err_0)@;
            &&& reply.result == Ok::<PreToolUseHookResult, String>(PreToolUseHookResult::Continue)
                ==> after == before
            &&& reply.result matches Ok(PreToolUseHookResult::Block(reason)) ==> after.block == Some(
                "Hook "@ + reply.name + ": "@ + reason@,
            ) && after.arguments == before.arguments && after.warnings == before.warnings
            &&& reply.result matches Ok(PreToolUseHookResult::ReplaceArguments(other))
                ==> after.arguments == other@ && after.block == before.block && after.warnings
                == before.warnings
            &&& reply.result is Err && reply.mode == HookFailureMode::Open ==> after.warnings
                == before.warnings.push(failed) && after.block == before.block && after.arguments
                == before.arguments
            &&& reply.result is Err && reply.mode == HookFailureMode::Closed ==> after.block == Some(
                failed,
            ) && after.warnings == before.warnings && after.arguments == before.arguments
        }),
        pre_fold(arguments, seq![]).arguments == arguments,
        pre_fold(arguments, seq![]).block is None,
        pre_fold(arguments, seq![]).warnings.len() == 0,
{
    assert(replies.push(reply).drop_last() =~= replies);
}

/// After a call was run, each hook in turn may put another outcome in the place of the one it was
/// shown, or ask for the run to stop once the outcome is stored.
pub proof fn law_hooks_judge_outcomes(
    outcome: OutcomeView,
    replies: Seq<Reply<PostToolUseHookResult>>,
    reply: Reply<PostToolUseHookResult>,
)
    ensures
        ({
            let before = post_fold(outcome, replies);
            let after = post_fold(outcome, replies.push(reply));
            let failed = "Hook "@ + reply.name + " 在 "@ + "PostToolUse"@ + " 失败: "@ + (
            reply.result->Err_0)@;
            &&& reply.result == Ok::<PostToolUseHookResult, String>(PostToolUseHookResult::Continue)
                ==> after == before
            &&& reply.result matches Ok(PostToolUseHookResult::ReplaceOutcome(other))
                ==> after.outcome.output == other.deep_view().output && after.outcome.error
                == other.deep_view().error && after.stop_after_commit == before.stop_after_commit
                && after.warnings == before.warnings
            &&& reply.result matches Ok(PostToolUseHookResult::StopAfterCommit(reason))
                ==> after.stop_after_commit == Some("Hook "@ + reply.name + ": "@ + reason@)
                && after.outcome == before.outcome && after.warnings == before.warnings
            &&& reply.result is Err && reply.mode == HookFailureMode::Open ==> after.warnings
                == before.warnings.push(failed) && after.stop_after_commit
                == before.stop_after_commit && after.outcome == before.outcome
            &&& reply.result is Err && reply.mode == HookFailureMode::Closed
                ==> after.stop_after_commit == Some(failed) && after.warnings == before.warnings
                && after.outcome == before.outcome
        }),
        post_fold(outcome, seq![]).outcome == outcome,
        post_fold(outcome, seq![]).stop_after_commit is None,
        post_fold(outcome, seq![]).warnings.len() == 0,
{
    assert(replies.push(reply).drop_last() =~= replies);
}

/// Before a run ends, each hook in turn may object and say why.
pub proof fn law_hooks_judge_endings(
    replies: Seq<Reply<StopHookResult>>,
    reply: Reply<StopHookResult>,
)
    ensures
        ({
            let before = stop_fold(replies);
            let after = stop_fold(replies.push(reply));
            let failed = "Hook "@ + reply.name + " 在 "@ + "Stop"@ + " 失败: "@ + (
            reply.result->Err_0)@;
            &&& reply.result == Ok::<StopHookResult, String>(StopHookResult::Continue) ==> after
                == before
            &&& reply.result matches Ok(StopHookResult::PreventStop(reason)) ==> after.prevent_stop
                == Some("Hook "@ + reply.name + ": "@ + reason@) && after.warnings
                == before.warnings
            &&& reply.result is Err && reply.mode == HookFailureMode::Open ==> after.warnings
                == before.warnings.push(failed) && after.prevent_stop == before.prevent_stop
            &&& reply.result is Err && reply.mode == HookFailureMode::Closed ==> after.prevent_stop
                == Some(failed) && after.warnings == before.warnings
        }),
        stop_fold(seq![]).prevent_stop is None,
        stop_fold(seq![]).warnings.len() == 0,
{
    assert(replies.push(reply).drop_last() =~= replies);
}

/// A hook may add nothing but plain text of the user.
pub proof fn law_plain_text_is_text(text: Seq<char>, blocks: Seq<BlockView>)
    ensures
        is_plain_text(user_message(text)),
        !is_plain_text(MessageView { role: Role::Assistant, blocks }),
        forall|i: int|
            0 <= i < blocks.len() && !((#[trigger] blocks[i]) is Text) ==> !is_plain_text(
                MessageView { role: Role::User, blocks },
            ),
{
}

// ---- Plans that are acceptable ----

/// A plan is acceptable where it has at most 64 items, each with a name of 1 to 64 characters that no
/// other one has and a text of 1 to 500, at most one of them in progress, and an explanation of at most
/// 1000 characters.
pub proof fn law_plans_have_limits(items: Seq<PlanItemView>, explanation: Option<Seq<char>>)
    ensures
        plan_ok(items, explanation) <==> {
            &&& items.len() <= 64
            &&& forall|i: int|
                0 <= i < items.len() ==> 1 <= (#[trigger] items[i]).id.len() <= 64 && 1
                    <= items[i].text.len() <= 500
            &&& forall|i: int, j: int|
                0 <= i < items.len() && 0 <= j < items.len() && i != j ==> items[i].id != items[j].id
            &&& with_status(items, PlanStatus::InProgress) <= 1
            &&& explanation is None || explanation->0.len() <= 1000
        },
{
    if plan_ok(items, explanation) {
        assert forall|i: int| 0 <= i < items.len() implies 1 <= (#[trigger] items[i]).id.len() <= 64 && 1
            <= items[i].text.len() <= 500 by {
            assert(item_ok(items[i]));
        }
    }
}

/// A transaction that is refused names a call without its one result, or a result without its call.
pub proof fn law_unpaired_blocks_are_named(
    blocks: Seq<BlockView>,
    id: Seq<char>,
    name: Seq<char>,
    input: JsonView,
    is_error: bool,
    text: Seq<char>,
)
    ensures
        names_unpaired(seq![BlockView::ToolUse { id, name, input }], text) ==> text
            == "事务中的 ToolUse "@ + id + " 必须恰好配对一个 ToolResult"@,
        names_unpaired(seq![BlockView::ToolResult { tool_use_id: id, content: name, is_error }], text)
            ==> text == "事务含有孤立 ToolResult "@ + id,
        names_unpaired(blocks, text) ==> {
            ||| exists|a: Seq<char>|
                use_ids(blocks).contains(a) && !(times(use_ids(blocks), a) == 1 && times(
                    result_ids(blocks),
                    a,
                ) == 1) && text == #[trigger] ("事务中的 ToolUse "@ + a)
                    + " 必须恰好配对一个 ToolResult"@
            ||| exists|a: Seq<char>|
                result_ids(blocks).contains(a) && !use_ids(blocks).contains(a) && text == #[trigger] (
                "事务含有孤立 ToolResult "@ + a)
        },
{
    let call = seq![BlockView::ToolUse { id, name, input }];
    let answer = seq![BlockView::ToolResult { tool_use_id: id, content: name, is_error }];
    assert(call.drop_last() =~= seq![]);
    assert(answer.drop_last() =~= seq![]);
    assert(use_ids(seq![]) =~= seq![]);
    assert(result_ids(seq![]) =~= seq![]);
    assert(use_ids(call) =~= seq![id]);
    assert(result_ids(call) =~= seq![]);
    assert(use_ids(answer) =~= seq![]);
    assert(result_ids(answer) =~= seq![id]);
    if names_unpaired(blocks, text) {
        if exists|a: Seq<char>|
            use_ids(blocks).contains(a) && !(#[trigger] id_paired(blocks, a)) && text
                == "事务中的 ToolUse "@ + a + " 必须恰好配对一个 ToolResult"@ {
            let a = choose|a: Seq<char>|
                use_ids(blocks).contains(a) && !(#[trigger] id_paired(blocks, a)) && text
                    == "事务中的 ToolUse "@ + a + " 必须恰好配对一个 ToolResult"@;
            assert(text == ("事务中的 ToolUse "@ + a) + " 必须恰好配对一个 ToolResult"@);
        } else {
            let a = choose|a: Seq<char>| #[trigger]
                result_ids(blocks).contains(a) && !use_ids(blocks).contains(a) && text
                    == "事务含有孤立 ToolResult "@ + a;
            assert(text == ("事务含有孤立 ToolResult "@ + a));
        }
    }
}

/// Counts can be added where no sum of theirs goes beyond 64 bits.
pub proof fn law_counts_fit(a: Usage, b: Usage)
    ensures
        a.fits(b) <==> b.fits(a),
        a.cache is None || b.cache is None ==> (a.fits(b) <==> a.input_tokens + b.input_tokens
            <= 0xffff_ffff_ffff_ffff && a.output_tokens + b.output_tokens <= 0xffff_ffff_ffff_ffff),
        a.cache matches Some(x) ==> (b.cache matches Some(y) ==> (a.fits(b) <==> a.input_tokens
            + b.input_tokens <= 0xffff_ffff_ffff_ffff && a.output_tokens + b.output_tokens
            <= 0xffff_ffff_ffff_ffff && x.read_tokens + y.read_tokens <= 0xffff_ffff_ffff_ffff
            && x.write_tokens + y.write_tokens <= 0xffff_ffff_ffff_ffff)),
{
}

/// Without instructions of its own, an agent is told these.
pub proof fn law_agents_are_told_what_they_are()
    ensures
        default_instructions()
            == "You are Onemore, a coding agent running in a terminal.\n\nGuidelines:\n- Use the provided tools to inspect and modify files and to run commands. Do not guess file contents: read before you edit.\n- edit_file does exact string replacement. Copy the original text verbatim (including indentation) from a previous read_file result.\n- Commands must be non-interactive. Never start commands that wait for input.\n- After changing code, verify it when possible (build / run tests).\n- Reply in the same language the user uses. Be concise; avoid dumping large file contents into your reply unless asked."@,
{
}

} // verus!
