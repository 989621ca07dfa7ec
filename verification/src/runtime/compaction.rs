//! Replacing a long history by a summary.
//!
//! The history goes to the model as plain text in a single message: what is summarised is data, and
//! a request without tools must not hold tool calls.
use vstd::prelude::*;

use crate::context::budget::{estimate, estimate_tokens, ContextBudget};
use crate::context::{PromptContext, PromptView};
use crate::event::{AgentEvent, AgentEventView};
use crate::list::{empty, one, put, take_all, take_next};
use crate::message::{
    text_of, user_message, Block, BlockView, ChatMessage, MessageView, Role, Usage,
};
use crate::provider::{EventView, TurnOutput, TurnView};
use crate::runtime::agent::{projects, Agent, AgentView};
use crate::runtime::retry::{attempts_shown, stream_shown, Attempt, CallStep, CallView};
use crate::runtime::run::{commit_failure, show_commit_failure, show_usage, usage_event};
use crate::session::{
    all_answered, law_compaction_replaces_the_view, law_sound_history_is_left_alone, payloads_of,
    project_model_messages, repaired, result_ids, since_compaction, spoken, CompactionRecord,
    EntryView, ModelProjection, PayloadView, SessionEntry, SessionEntryPayload,
};
use crate::text::{
    concat2, concat3, dec, decimal, trim, trim_end, trimmed, trimmed_end,
};
use crate::tools::{ToolSpec, ToolSpecView};
use crate::util::{args_summary, middle_cut, summary_of, truncate_middle};

verus! {

/// What the model is told about its task.
pub open spec fn compaction_prompt() -> Seq<char> {
    "你是会话压缩器。把给出的完整对话压缩成一段可以替代旧历史的摘要,必须保留:用户的目标与约束、已完成/未完成的事项、关键文件路径与修改内容、重要的命令输出结论、当前待办。省略寒暄与失败后已被纠正的探索。直接输出摘要正文,不要加任何前后缀。"@
}

/// How much of a tool result goes into the transcript.
pub const TOOL_RESULT_CHARS: usize = 1500;

/// A block as a line of the transcript. Thoughts are left out.
pub open spec fn block_text(block: BlockView) -> Seq<char> {
    match block {
        BlockView::Text(text) => if trimmed(text).len() > 0 {
            trimmed_end(text) + "\n"@
        } else {
            seq![]
        },
        BlockView::Thinking { .. } => seq![],
        BlockView::ToolUse { name, input, .. } => "[调用工具 "@ + name + "("@ + summary_of(input)
            + ")]\n"@,
        BlockView::ToolResult { content, is_error, .. } => (if is_error {
            "[工具失败] "@
        } else {
            "[工具结果] "@
        }) + middle_cut(content, TOOL_RESULT_CHARS as nat) + "\n"@,
    }
}

pub open spec fn blocks_text(blocks: Seq<BlockView>) -> Seq<char>
    decreases blocks.len(),
{
    if blocks.len() == 0 {
        seq![]
    } else {
        blocks_text(blocks.drop_last()) + block_text(blocks.last())
    }
}

/// A message under the name of who said it; one that says nothing is left out.
pub open spec fn message_text(message: MessageView) -> Seq<char> {
    let body = trimmed_end(blocks_text(message.blocks));
    if body.len() == 0 {
        seq![]
    } else {
        (match message.role {
            Role::User => "用户"@,
            Role::Assistant => "助手"@,
        }) + ":\n"@ + body + "\n\n"@
    }
}

pub open spec fn messages_text(messages: Seq<MessageView>) -> Seq<char>
    decreases messages.len(),
{
    if messages.len() == 0 {
        seq![]
    } else {
        messages_text(messages.drop_last()) + message_text(messages.last())
    }
}

/// The conversation as plain text.
pub open spec fn transcript_of(messages: Seq<MessageView>) -> Seq<char> {
    trimmed_end(messages_text(messages))
}

fn push_block(body: &mut String, block: &Block)
    ensures
        final(body)@ == old(body)@ + block_text(block.deep_view()),
{
    let ghost before = body@;
    match block {
        Block::Text(text) => {
            if trim(text.as_str()).unicode_len() > 0 {
                body.push_str(trim_end(text.as_str()));
                body.push_str("\n");
            }
        },
        Block::Thinking { .. } => {},
        Block::ToolUse { name, input, .. } => {
            body.push_str("[调用工具 ");
            body.push_str(name.as_str());
            body.push_str("(");
            body.push_str(args_summary(input).as_str());
            body.push_str(")]\n");
        },
        Block::ToolResult { content, is_error, .. } => {
            body.push_str(
                if *is_error {
                    "[工具失败] "
                } else {
                    "[工具结果] "
                },
            );
            body.push_str(truncate_middle(content.as_str(), TOOL_RESULT_CHARS).as_str());
            body.push_str("\n");
        },
    }
    assert(body@ =~= before + block_text(block.deep_view()));
}

fn push_message(out: &mut String, message: &ChatMessage)
    ensures
        final(out)@ == old(out)@ + message_text(message.deep_view()),
{
    let ghost before = out@;
    let ghost all = message.deep_view().blocks;
    let mut body = String::new();
    let mut i: usize = 0;
    assert(body@ =~= blocks_text(all.take(0)));
    while i < message.blocks.len()
        invariant
            i <= message.blocks@.len(),
            all == message.blocks.deep_view(),
            body@ == blocks_text(all.take(i as int)),
        decreases message.blocks@.len() - i,
    {
        proof {
            take_next(all, i as int);
        }
        assert(all[i as int] == message.blocks@[i as int].deep_view());
        push_block(&mut body, &message.blocks[i]);
        i = i + 1;
    }
    proof {
        take_all(all);
    }
    let body = trim_end(body.as_str());
    if body.unicode_len() > 0 {
        out.push_str(
            match message.role {
                Role::User => "用户",
                Role::Assistant => "助手",
            },
        );
        out.push_str(":\n");
        out.push_str(body);
        out.push_str("\n\n");
    }
    assert(out@ =~= before + message_text(message.deep_view()));
}

/// Writes the conversation down as plain text.
pub fn render_transcript_for_compaction(messages: &Vec<ChatMessage>) -> (s: String)
    ensures
        s@ == transcript_of(messages.deep_view()),
{
    let ghost all = messages.deep_view();
    let mut out = String::new();
    let mut i: usize = 0;
    assert(out@ =~= messages_text(all.take(0)));
    while i < messages.len()
        invariant
            i <= messages@.len(),
            all == messages.deep_view(),
            out@ == messages_text(all.take(i as int)),
        decreases messages@.len() - i,
    {
        proof {
            take_next(all, i as int);
        }
        assert(all[i as int] == messages@[i as int].deep_view());
        push_message(&mut out, &messages[i]);
        i = i + 1;
    }
    proof {
        take_all(all);
    }
    trim_end(out.as_str()).to_owned()
}

/// How many characters a compaction request may have.
pub open spec fn room_for(budget: ContextBudget) -> Option<usize> {
    match budget.available() {
        Some(available) => Some(
            if available * 3 <= usize::MAX {
                (available * 3) as usize
            } else {
                usize::MAX
            },
        ),
        None => None,
    }
}

fn room(budget: &ContextBudget) -> (r: Option<usize>)
    ensures
        r == room_for(*budget),
{
    match budget.available_input() {
        Some(available) => {
            let wide: u128 = available as u128 * 3;
            Some(
                if wide <= usize::MAX as u128 {
                    wide as usize
                } else {
                    usize::MAX
                },
            )
        },
        None => None,
    }
}

/// The text of a compaction request: its beginning and its end are kept where it is too long.
pub open spec fn request_text(transcript: Seq<char>, budget: ContextBudget) -> Seq<char> {
    let whole = "以下是一段完整的对话记录:\n\n"@ + transcript
        + "\n\n请压缩以上对话。直接输出摘要正文。"@;
    match room_for(budget) {
        Some(max) => middle_cut(whole, max as nat),
        None => whole,
    }
}

/// A compaction request. It offers no tools, and its stream is not shown: it is no part of the
/// conversation.
#[derive(Debug)]
pub struct CompactionRequest {
    pub prompt: PromptContext,
    pub tools: Vec<ToolSpec>,
    pub forward: bool,
    /// About how many tokens the history had.
    pub tokens_before: u64,
}

#[verifier::ext_equal]
pub struct RequestView {
    pub prompt: PromptView,
    pub tools: Seq<ToolSpecView>,
    pub forward: bool,
    pub tokens_before: u64,
}

impl DeepView for CompactionRequest {
    type V = RequestView;

    open spec fn deep_view(&self) -> RequestView {
        RequestView {
            prompt: self.prompt.deep_view(),
            tools: self.tools.deep_view(),
            forward: self.forward,
            tokens_before: self.tokens_before,
        }
    }
}

/// The prompt that asks for a summary.
pub open spec fn compaction_of(transcript: Seq<char>, budget: ContextBudget) -> PromptView {
    PromptView {
        system_sections: seq![compaction_prompt()],
        messages: seq![user_message(request_text(transcript, budget))],
    }
}

/// How a compaction of what the model is shown begins: the request, unless there is nothing to
/// compact, and what is shown.
pub open spec fn compaction_begun(projection: ModelProjection, budget: ContextBudget) -> (
    Option<RequestView>,
    Seq<AgentEventView>,
) {
    let transcript = transcript_of(projection.messages.deep_view());
    if transcript.len() == 0 {
        (None, seq![AgentEventView::Notice("当前会话没有可压缩的历史"@)])
    } else {
        (
            Some(
                RequestView {
                    prompt: compaction_of(transcript, budget),
                    tools: seq![],
                    forward: false,
                    tokens_before: estimate(0, 0, projection),
                },
            ),
            seq![AgentEventView::TurnStarted],
        )
    }
}

/// Begins a compaction, unless there is nothing to compact.
pub fn begin_compaction(entries: &Vec<SessionEntry>, budget: &ContextBudget, events: &mut Vec<AgentEvent>) -> (r:
    Option<CompactionRequest>)
    ensures
        exists|projection: ModelProjection| #[trigger]
            projects(entries.deep_view(), projection) && {
                let (request, shown) = compaction_begun(projection, *budget);
                &&& r.deep_view() == request
                &&& final(events).deep_view() == old(events).deep_view() + shown
            },
{
    let ghost before = events.deep_view();
    let projection = project_model_messages(entries.as_slice());
    assert(projects(entries.deep_view(), projection));
    let ghost shown = compaction_begun(projection, *budget).1;
    let transcript = render_transcript_for_compaction(&projection.messages);
    if transcript.as_str().unicode_len() == 0 {
        put(events, AgentEvent::Notice("当前会话没有可压缩的历史".to_owned()));
        assert(events.deep_view() =~= before + shown);
        return None;
    }
    put(events, AgentEvent::TurnStarted);
    let tokens_before = estimate_tokens(0, 0, &projection);
    let whole = concat3(
        "以下是一段完整的对话记录:\n\n",
        transcript.as_str(),
        "\n\n请压缩以上对话。直接输出摘要正文。",
    );
    let text = match room(budget) {
        Some(max) => truncate_middle(whole.as_str(), max),
        None => whole,
    };
    let prompt = PromptContext {
        system_sections: one(
            "你是会话压缩器。把给出的完整对话压缩成一段可以替代旧历史的摘要,必须保留:用户的目标与约束、已完成/未完成的事项、关键文件路径与修改内容、重要的命令输出结论、当前待办。省略寒暄与失败后已被纠正的探索。直接输出摘要正文,不要加任何前后缀。".to_owned(),
        ),
        messages: one(ChatMessage::user_text(text)),
    };
    assert(events.deep_view() =~= before + shown);
    let request = CompactionRequest { prompt, tools: empty(), forward: false, tokens_before };
    assert(request.deep_view().prompt =~= compaction_of(transcript@, *budget));
    Some(request)
}

pub open spec fn over(cancelled: bool) -> AgentEventView {
    AgentEventView::TurnFinished { cancelled }
}

/// What an answer comes to: the fact to store, and what is shown.
pub open spec fn summary_taken(answer: TurnView, usage: Usage, tokens_before: u64) -> (
    Option<PayloadView>,
    Seq<AgentEventView>,
) {
    let summary = trimmed(text_of(answer.message.blocks));
    let counted = seq![usage_event(usage.plus(answer.usage))];
    if summary.len() == 0 {
        (
            None,
            counted.push(AgentEventView::Error("压缩失败:模型返回了空摘要"@)).push(over(false)),
        )
    } else {
        (Some(PayloadView::Compaction { summary, tokens_before }), counted)
    }
}

/// Takes in the answer: the fact to store, if there is one.
pub fn take_summary(
    answer: TurnOutput,
    usage: &mut Usage,
    tokens_before: u64,
    events: &mut Vec<AgentEvent>,
) -> (r: Option<SessionEntryPayload>)
    requires
        old(usage).fits(answer.usage),
    ensures
        *final(usage) == old(usage).plus(answer.usage),
        r.deep_view() == summary_taken(answer.deep_view(), *old(usage), tokens_before).0,
        final(events).deep_view() == old(events).deep_view() + summary_taken(
            answer.deep_view(),
            *old(usage),
            tokens_before,
        ).1,
{
    let ghost before = events.deep_view();
    let ghost goal = summary_taken(answer.deep_view(), *usage, tokens_before).1;
    let text = answer.message.text();
    let summary = trim(text.as_str());
    usage.add(answer.usage);
    show_usage(*usage, events);
    if summary.unicode_len() == 0 {
        put(events, AgentEvent::Error("压缩失败:模型返回了空摘要".to_owned()));
        put(events, AgentEvent::TurnFinished { cancelled: false });
        assert(events.deep_view() =~= before + goal);
        return None;
    }
    assert(events.deep_view() =~= before + goal);
    Some(
        SessionEntryPayload::Compaction(
            CompactionRecord { summary: summary.to_owned(), tokens_before },
        ),
    )
}

pub open spec fn compacted_notice(tokens_before: u64, chars: nat) -> AgentEventView {
    AgentEventView::Notice(
        "历史已压缩:压缩前估算约 "@ + dec(tokens_before as nat) + " tokens,摘要 "@ + dec(chars)
            + " 字符。事实日志保留全部原始记录。"@,
    )
}

/// The end of a compaction whose summary was stored, or could not be.
pub open spec fn compaction_stored(
    error: Option<Seq<char>>,
    summary: Seq<char>,
    tokens_before: u64,
) -> Seq<AgentEventView> {
    seq![
        match error {
            Some(error) => commit_failure(error),
            None => compacted_notice(tokens_before, summary.len()),
        },
        over(false),
    ]
}

pub fn end_compaction(error: Option<String>, record: &CompactionRecord, events: &mut Vec<AgentEvent>)
    ensures
        final(events).deep_view() == old(events).deep_view() + compaction_stored(
            error.deep_view(),
            record.summary@,
            record.tokens_before,
        ),
{
    let ghost before = events.deep_view();
    match &error {
        Some(error) => {
            show_commit_failure(error.as_str(), events);
        },
        None => {
            let mut text = concat3(
                "历史已压缩:压缩前估算约 ",
                decimal(record.tokens_before).as_str(),
                " tokens,摘要 ",
            );
            text.push_str(decimal(record.summary.as_str().unicode_len() as u64).as_str());
            text.push_str(" 字符。事实日志保留全部原始记录。");
            put(events, AgentEvent::Notice(text));
        },
    }
    put(events, AgentEvent::TurnFinished { cancelled: false });
    assert(events.deep_view() =~= before + compaction_stored(
        error.deep_view(),
        record.summary@,
        record.tokens_before,
    ));
}

/// The end of a compaction that was cancelled.
pub fn cancel_compaction(events: &mut Vec<AgentEvent>)
    ensures
        final(events).deep_view() == old(events).deep_view().push(
            AgentEventView::Notice("压缩已取消,历史未变化"@),
        ).push(over(true)),
{
    put(events, AgentEvent::Notice("压缩已取消,历史未变化".to_owned()));
    put(events, AgentEvent::TurnFinished { cancelled: true });
}

/// The end of a compaction that failed.
pub fn fail_compaction(error: &str, events: &mut Vec<AgentEvent>)
    ensures
        final(events).deep_view() == old(events).deep_view().push(
            AgentEventView::Error("压缩失败,历史未变化: "@ + error@),
        ).push(over(false)),
{
    put(events, AgentEvent::Error(concat2("压缩失败,历史未变化: ", error)));
    put(events, AgentEvent::TurnFinished { cancelled: false });
}

// ---- A whole compaction ----

/// An agent once the call for a summary has ended: the fact to store, if there is one, and what is
/// shown.
pub open spec fn answer_taken(agent: AgentView, answer: CallView, tokens_before: u64) -> (
    AgentView,
    Option<PayloadView>,
    Seq<AgentEventView>,
) {
    match answer {
        CallView::Done(output) => {
            let (fact, shown) = summary_taken(output, agent.usage_total, tokens_before);
            (AgentView { usage_total: agent.usage_total.plus(output.usage), ..agent }, fact, shown)
        },
        CallView::Cancelled(_) => (
            agent,
            None,
            seq![AgentEventView::Notice("压缩已取消,历史未变化"@), over(true)],
        ),
        CallView::Failed(failed) => (
            agent,
            None,
            seq![
                AgentEventView::Error("压缩失败,历史未变化: "@ + failed.error.message),
                over(false),
            ],
        ),
        CallView::Wait { .. } => (agent, None, seq![]),
    }
}

/// An agent once its summary has been stored, or could not be.
pub open spec fn summary_kept(
    agent: AgentView,
    summary: Seq<char>,
    tokens_before: u64,
    stored: Result<Seq<EntryView>, Seq<char>>,
) -> (AgentView, Seq<AgentEventView>) {
    match stored {
        Ok(added) => (
            AgentView { entries: agent.entries + added, ..agent },
            compaction_stored(None, summary, tokens_before),
        ),
        Err(error) => (agent, compaction_stored(Some(error), summary, tokens_before)),
    }
}

impl Agent {
    /// Takes in how the call for a summary ended: the record to store, if there is one.
    pub fn take_answer(&mut self, answer: CallStep, tokens_before: u64, events: &mut Vec<AgentEvent>) -> (r:
        Option<CompactionRecord>)
        requires
            !(answer is Wait),
            answer matches CallStep::Done(output) ==> old(self).usage_total.fits(output.usage),
        ensures
            ({
                let (agent, fact, shown) = answer_taken(
                    old(self).deep_view(),
                    answer.deep_view(),
                    tokens_before,
                );
                &&& final(self).deep_view() == agent
                &&& fact == match r {
                    Some(record) => Some(
                        PayloadView::Compaction {
                            summary: record.summary@,
                            tokens_before: record.tokens_before,
                        },
                    ),
                    None => None,
                }
                &&& final(events).deep_view() == old(events).deep_view() + shown
            }),
    {
        let ghost before = events.deep_view();
        let ghost shown = answer_taken(self.deep_view(), answer.deep_view(), tokens_before).2;
        match answer {
            CallStep::Done(output) => match take_summary(
                output,
                &mut self.usage_total,
                tokens_before,
                events,
            ) {
                Some(SessionEntryPayload::Compaction(record)) => Some(record),
                _ => None,
            },
            CallStep::Cancelled(_) => {
                cancel_compaction(events);
                assert(events.deep_view() =~= before + shown);
                None
            },
            CallStep::Failed(failed) => {
                fail_compaction(failed.error.describe(), events);
                assert(events.deep_view() =~= before + shown);
                None
            },
            CallStep::Wait { .. } => None,
        }
    }

    /// Takes in whether a summary was stored.
    pub fn keep_summary(
        &mut self,
        record: &CompactionRecord,
        stored: Result<Vec<SessionEntry>, String>,
        events: &mut Vec<AgentEvent>,
    )
        ensures
            ({
                let (agent, shown) = summary_kept(
                    old(self).deep_view(),
                    record.summary@,
                    record.tokens_before,
                    match stored {
                        Ok(added) => Ok(added.deep_view()),
                        Err(error) => Err(error@),
                    },
                );
                &&& final(self).deep_view() == agent
                &&& final(events).deep_view() == old(events).deep_view() + shown
            }),
    {
        match stored {
            Ok(added) => {
                self.stored(added);
                end_compaction(None, record, events);
            },
            Err(error) => end_compaction(Some(error), record, events),
        }
    }
}

/// What is shown while a call for a summary is under way: never a part of its text.
pub open spec fn quiet(event: AgentEventView) -> bool {
    !(event is AssistantDelta || event is ThinkingDelta)
}

/// What comes of a compaction.
#[verifier::ext_equal]
pub struct Compacted {
    pub agent: AgentView,
    /// What the model was asked, where it was asked at all.
    pub request: Option<RequestView>,
    pub shown: Seq<AgentEventView>,
}

/// A compaction as a whole: it begins, the model is called as often as it takes, the answer is
/// taken, and the summary is stored or is not.
pub open spec fn compacted(
    agent: AgentView,
    projection: ModelProjection,
    attempts: Seq<Attempt>,
    answer: CallView,
    stored: Result<Seq<EntryView>, Seq<char>>,
) -> Compacted {
    let (request, opening) = compaction_begun(projection, agent.budget);
    match request {
        None => Compacted { agent, request, shown: opening },
        Some(asked) => {
            let (answered, fact, told) = answer_taken(agent, answer, asked.tokens_before);
            let shown = opening + attempts_shown(attempts, asked.forward) + told;
            match fact {
                Some(PayloadView::Compaction { summary, tokens_before }) => {
                    let (after, end) = summary_kept(answered, summary, tokens_before, stored);
                    Compacted { agent: after, request, shown: shown + end }
                },
                _ => Compacted { agent: answered, request, shown },
            }
        },
    }
}

proof fn hidden_attempts_are_quiet(attempts: Seq<Attempt>)
    ensures
        forall|i: int|
            0 <= i < attempts_shown(attempts, false).len() ==> (#[trigger] attempts_shown(
                attempts,
                false,
            )[i]) is Notice,
    decreases attempts.len(),
{
    if attempts.len() > 0 {
        let before = attempts_shown(attempts.drop_last(), false);
        let now = attempts_shown(attempts, false);
        hidden_attempts_are_quiet(attempts.drop_last());
        hidden_streams_show_nothing(attempts.last().streamed);
        assert forall|i: int| 0 <= i < now.len() implies (#[trigger] now[i]) is Notice by {
            if i < before.len() {
                assert(now[i] == before[i]);
            }
        }
    }
}

proof fn hidden_streams_show_nothing(streamed: Seq<EventView>)
    ensures
        stream_shown(streamed, false).len() == 0,
    decreases streamed.len(),
{
    if streamed.len() > 0 {
        hidden_streams_show_nothing(streamed.drop_last());
    }
}

/// A whole compaction.
///
/// The log stays as it was, or grows by one summary. It grows exactly where the call brought a text
/// that is more than white space and the fact was stored; from then on the model sees one message
/// with that text, trimmed, and nothing else. Nothing else about the agent changes but for the
/// tokens that were spent.
///
/// The model is asked without tools, by a single message of the user that is text alone, and nothing
/// of its stream is shown. What is shown begins with the opening event and ends with the one closing
/// event; where there is nothing to compact, a notice is all that is shown.
pub proof fn law_a_whole_compaction(
    agent: AgentView,
    projection: ModelProjection,
    attempts: Seq<Attempt>,
    answer: CallView,
    stored: Result<Seq<EntryView>, Seq<char>>,
)
    requires
        projects(agent.entries, projection),
        !(answer is Wait),
        stored matches Ok(added) ==> (answer_taken(
            agent,
            answer,
            estimate(0, 0, projection),
        ).1 matches Some(fact) ==> payloads_of(added) == seq![fact]),
    ensures
        ({
            let end = compacted(agent, projection, attempts, answer, stored);
            let shown = end.shown;
            let grown = end.request is Some && stored is Ok && (answer matches CallView::Done(
                output,
            ) && trimmed(text_of(output.message.blocks)).len() > 0);
            &&& end.agent == (AgentView {
                entries: end.agent.entries,
                usage_total: end.agent.usage_total,
                ..agent
            })
            &&& !grown ==> end.agent.entries == agent.entries
            &&& grown ==> {
                let added = end.agent.entries.last().payload;
                &&& end.agent.entries.drop_last() == agent.entries
                &&& end.agent.entries.len() == agent.entries.len() + 1
                &&& added is Compaction
                &&& added->summary == trimmed(text_of(answer->Done_0.message.blocks))
                &&& repaired(spoken(since_compaction(payloads_of(end.agent.entries))), seq![])
                    == seq![user_message("[Earlier conversation summary]\n"@ + added->summary)]
            }
            &&& end.agent.usage_total == (if end.request is Some && answer is Done {
                agent.usage_total.plus(answer->Done_0.usage)
            } else {
                agent.usage_total
            })
            &&& end.request matches Some(asked) ==> {
                &&& asked.tools.len() == 0
                &&& asked.prompt.messages.len() == 1
                &&& asked.prompt.messages[0].role == Role::User
                &&& asked.prompt.messages[0].blocks.len() == 1
                &&& asked.prompt.messages[0].blocks[0] is Text
                &&& shown[0] is TurnStarted
                &&& shown.last() is TurnFinished
                &&& forall|i: int|
                    0 <= i < shown.len() - 1 ==> !((#[trigger] shown[i]) is TurnFinished)
            }
            &&& end.request is None ==> shown.len() == 1 && shown[0] is Notice
            &&& forall|i: int| 0 <= i < shown.len() ==> quiet(#[trigger] shown[i])
        }),
{
    let end = compacted(agent, projection, attempts, answer, stored);
    let (request, opening) = compaction_begun(projection, agent.budget);
    if let Some(asked) = request {
        let tries = attempts_shown(attempts, false);
        let (answered, fact, told) = answer_taken(agent, answer, asked.tokens_before);
        hidden_attempts_are_quiet(attempts);
        assert forall|i: int| 0 <= i < end.shown.len() implies quiet(#[trigger] end.shown[i]) && (i
            < end.shown.len() - 1 ==> !(end.shown[i] is TurnFinished)) by {
            if 1 <= i < 1 + tries.len() {
                assert(end.shown[i] == tries[i - 1]);
            }
        }
        if fact is Some {
            assert(answer is Done);
            let summary = trimmed(text_of(answer->Done_0.message.blocks));
            if let Ok(added) = stored {
                let log = payloads_of(agent.entries);
                assert(payloads_of(added).len() == added.len());
                assert(payloads_of(added)[0] == fact->0);
                assert(end.agent.entries.drop_last() =~= agent.entries);
                assert(payloads_of(agent.entries + added) =~= log.push(fact->0));
                law_compaction_replaces_the_view(log, summary, asked.tokens_before);
                plain_text_is_sound(user_message("[Earlier conversation summary]\n"@ + summary));
            }
        }
    }
}

proof fn plain_text_is_sound(message: MessageView)
    requires
        message.role == Role::User,
        message.blocks.len() == 1,
        message.blocks[0] is Text,
    ensures
        repaired(seq![message], seq![]) == seq![message],
{
    let blocks = message.blocks;
    assert(blocks.drop_last() =~= seq![]);
    assert(result_ids(blocks.drop_last()) =~= seq![]);
    assert(result_ids(blocks) =~= seq![]);
    assert(seq![message].drop_first() =~= seq![]);
    assert(all_answered(seq![message].drop_first(), seq![]));
    assert(all_answered(seq![message], seq![]));
    law_sound_history_is_left_alone(seq![message], seq![]);
}

// ---- Laws ----

/// A compaction request is one plain text of the user, whatever the history holds: no calls, no
/// results, no thoughts.
pub proof fn law_compaction_requests_are_plain_text(transcript: Seq<char>, budget: ContextBudget)
    ensures
        compaction_of(transcript, budget).messages.len() == 1,
        compaction_of(transcript, budget).messages[0].role == Role::User,
        compaction_of(transcript, budget).messages[0].blocks.len() == 1,
        compaction_of(transcript, budget).messages[0].blocks[0] is Text,
{
}

/// Thoughts leave no trace in a transcript.
pub proof fn law_thoughts_are_not_compacted(blocks: Seq<BlockView>, thought: BlockView)
    requires
        thought is Thinking,
    ensures
        blocks_text(blocks.push(thought)) == blocks_text(blocks),
{
    assert(blocks.push(thought).drop_last() =~= blocks);
    assert(blocks_text(blocks) + block_text(thought) =~= blocks_text(blocks));
}

} // verus!
