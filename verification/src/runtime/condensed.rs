//! What holds of compactions: who is quoted how, in which order, and what becomes of the answer.
use vstd::prelude::*;

use crate::context::budget::{estimate, ContextBudget};
use crate::event::AgentEventView;
use crate::message::{text_of, BlockView, MessageView, Role, Usage};
use crate::provider::TurnView;
use crate::runtime::agent::AgentView;
use crate::runtime::compaction::{
    answer_taken, blocks_text, compaction_begun, compaction_of, message_text, messages_text,
    summary_kept, summary_taken, transcript_of,
};
use crate::runtime::retry::CallView;
use crate::session::{EntryView, ModelProjection, PayloadView};
use crate::text::{dec, is_white, trimmed, trimmed_end};
use crate::util::{middle_cut, summary_of};

verus! {

/// White space at the end of a text does not count.
proof fn white_ends_are_trimmed(text: Seq<char>, end: Seq<char>)
    requires
        forall|i: int| 0 <= i < end.len() ==> is_white(#[trigger] end[i]),
    ensures
        trimmed_end(text + end) == trimmed_end(text),
    decreases end.len(),
{
    if end.len() == 0 {
        assert(text + end =~= text);
    } else {
        let rest = end.drop_last();
        assert forall|i: int| 0 <= i < rest.len() implies is_white(#[trigger] rest[i]) by {
            assert(is_white(end[i]));
        }
        white_ends_are_trimmed(text, rest);
        assert((text + end).drop_last() =~= text + rest);
        assert(is_white(end[end.len() - 1]));
    }
}

/// The messages of a conversation are told in their order, one after the other.
pub proof fn law_messages_are_told_in_order(a: Seq<MessageView>, b: Seq<MessageView>)
    ensures
        messages_text(a + b) == messages_text(a) + messages_text(b),
    decreases b.len(),
{
    if b.len() == 0 {
        assert(a + b =~= a);
        assert(messages_text(a + b) =~= messages_text(a) + messages_text(b));
    } else {
        law_messages_are_told_in_order(a, b.drop_last());
        assert((a + b).drop_last() =~= a + b.drop_last());
        assert(messages_text(a + b) =~= messages_text(a) + messages_text(b));
    }
}

/// What is said is told under the name of who said it: the user or the assistant. A message that
/// says nothing is left out.
pub proof fn law_speakers_are_named(message: MessageView)
    ensures
        ({
            let body = trimmed_end(blocks_text(message.blocks));
            let told = messages_text(seq![message]);
            &&& body.len() == 0 ==> told.len() == 0
            &&& body.len() > 0 && message.role == Role::User ==> told == "用户"@ + ":\n"@ + body
                + "\n\n"@
            &&& body.len() > 0 && message.role == Role::Assistant ==> told == "助手"@ + ":\n"@ + body
                + "\n\n"@
        }),
{
    assert(seq![message].drop_last() =~= seq![]);
    assert(messages_text(seq![]).len() == 0);
    assert(messages_text(seq![message]) =~= message_text(message));
}

/// A question and its answer: first the words of the user, then those of the assistant, each under
/// the name of who said them.
pub proof fn law_a_question_is_told_before_its_answer(question: Seq<char>, answer: Seq<char>)
    requires
        question.len() > 0,
        !is_white(question[0]),
        !is_white(question.last()),
        answer.len() > 0,
        !is_white(answer[0]),
        !is_white(answer.last()),
    ensures
        transcript_of(
            seq![
                MessageView { role: Role::User, blocks: seq![BlockView::Text(question)] },
                MessageView { role: Role::Assistant, blocks: seq![BlockView::Text(answer)] },
            ],
        ) == "用户"@ + ":\n"@ + question + "\n\n"@ + "助手"@ + ":\n"@ + answer,
{
    let asked = MessageView { role: Role::User, blocks: seq![BlockView::Text(question)] };
    let said = MessageView { role: Role::Assistant, blocks: seq![BlockView::Text(answer)] };
    reveal_strlit("\n");
    reveal_strlit("\n\n");
    law_plain_words_are_quoted(question);
    law_plain_words_are_quoted(answer);
    law_speakers_are_named(asked);
    law_speakers_are_named(said);
    law_messages_are_told_in_order(seq![asked], seq![said]);
    assert(seq![asked] + seq![said] =~= seq![asked, said]);
    let whole = "用户"@ + ":\n"@ + question + "\n\n"@ + "助手"@ + ":\n"@ + answer;
    assert(messages_text(seq![asked, said]) =~= whole + "\n\n"@);
    white_ends_are_trimmed(whole, "\n\n"@);
    assert(whole.last() == answer.last());
}

/// A text that neither begins nor ends with white space is quoted as it is.
pub proof fn law_plain_words_are_quoted(text: Seq<char>)
    requires
        text.len() > 0,
        !is_white(text[0]),
        !is_white(text.last()),
    ensures
        trimmed_end(blocks_text(seq![BlockView::Text(text)])) == text,
{
    reveal_strlit("\n");
    law_blocks_are_told(seq![], BlockView::Text(text));
    assert(blocks_text(seq![BlockView::Text(text)]) =~= text + "\n"@) by {
        assert(seq![BlockView::Text(text)].drop_last() =~= seq![]);
        assert(trimmed_end(text) == text);
        assert(trimmed(text) == text);
    }
    white_ends_are_trimmed(text, "\n"@);
}

/// The blocks of a message are told in their order. A call is told by the name of the tool and the
/// gist of its arguments, a result by its text and by whether it failed; long results lose their
/// middle.
pub proof fn law_blocks_are_told(before: Seq<BlockView>, block: BlockView)
    ensures
        blocks_text(before.push(block)) == blocks_text(before) + (match block {
            BlockView::Text(text) => if trimmed(text).len() == 0 {
                seq![]
            } else {
                trimmed_end(text) + "\n"@
            },
            BlockView::Thinking { .. } => seq![],
            BlockView::ToolUse { name, input, .. } => "[调用工具 "@ + name + "("@ + summary_of(input)
                + ")]\n"@,
            BlockView::ToolResult { content, is_error, .. } => if is_error {
                "[工具失败] "@ + middle_cut(content, 1500) + "\n"@
            } else {
                "[工具结果] "@ + middle_cut(content, 1500) + "\n"@
            },
        }),
{
    assert(before.push(block).drop_last() =~= before);
}

/// The transcript stands in the request whole where it fits: behind one sentence that says what it
/// is and before one that says what to do. What is too long loses its middle. There is room for
/// three characters for each token that is available.
pub proof fn law_transcripts_are_handed_over(transcript: Seq<char>, budget: ContextBudget)
    ensures
        ({
            let whole = "以下是一段完整的对话记录:\n\n"@ + transcript
                + "\n\n请压缩以上对话。直接输出摘要正文。"@;
            let asked = compaction_of(transcript, budget);
            let text = asked.messages[0].blocks[0]->Text_0;
            &&& asked.messages.len() == 1
            &&& asked.messages[0].role == Role::User
            &&& asked.messages[0].blocks == seq![BlockView::Text(text)]
            &&& asked.system_sections == seq![
                "你是会话压缩器。把给出的完整对话压缩成一段可以替代旧历史的摘要,必须保留:用户的目标与约束、已完成/未完成的事项、关键文件路径与修改内容、重要的命令输出结论、当前待办。省略寒暄与失败后已被纠正的探索。直接输出摘要正文,不要加任何前后缀。"@,
            ]
            &&& budget.available() is None ==> text == whole
            &&& budget.available() matches Some(tokens) ==> {
                &&& whole.len() <= 3 * tokens && whole.len() <= usize::MAX ==> text == whole
                &&& whole.len() > 3 * tokens && 3 * tokens <= usize::MAX ==> text == middle_cut(
                    whole,
                    (3 * tokens) as nat,
                )
            }
        }),
{
}

/// An answer that says something becomes the summary, trimmed; an empty one is a failure. The tokens
/// of the call are counted either way.
pub proof fn law_answers_become_summaries(
    answer: TurnView,
    usage: Usage,
    tokens_before: u64,
    text: Seq<char>,
)
    requires
        answer.message.blocks == seq![BlockView::Text(text)],
    ensures
        ({
            let (fact, shown) = summary_taken(answer, usage, tokens_before);
            &&& trimmed(text).len() > 0 ==> fact == Some(
                PayloadView::Compaction { summary: trimmed(text), tokens_before },
            ) && shown.len() == 1
            &&& trimmed(text).len() == 0 ==> fact is None && shown.len() == 3 && shown[1]
                == AgentEventView::Error("压缩失败:模型返回了空摘要"@) && shown[2]
                == (AgentEventView::TurnFinished { cancelled: false })
            &&& shown[0] is Usage
        }),
{
    assert(answer.message.blocks.drop_last() =~= seq![]);
    reveal_with_fuel(text_of, 2);
    assert(text_of(answer.message.blocks) =~= text);
}

/// A call that failed or was cancelled changes nothing and says so.
pub proof fn law_failed_compactions_change_nothing(
    agent: AgentView,
    answer: CallView,
    tokens_before: u64,
)
    ensures
        ({
            let (after, fact, shown) = answer_taken(agent, answer, tokens_before);
            &&& answer is Cancelled ==> after == agent && fact is None && shown == seq![
                AgentEventView::Notice("压缩已取消,历史未变化"@),
                AgentEventView::TurnFinished { cancelled: true },
            ]
            &&& answer matches CallView::Failed(failed) ==> after == agent && fact is None && shown
                == seq![
                AgentEventView::Error("压缩失败,历史未变化: "@ + failed.error.message),
                AgentEventView::TurnFinished { cancelled: false },
            ]
        }),
{
}

/// A summary that was stored is added behind the log and announced with its size and with how much
/// it stands for.
pub proof fn law_summaries_are_announced(
    agent: AgentView,
    summary: Seq<char>,
    tokens_before: u64,
    added: Seq<EntryView>,
    error: Seq<char>,
)
    ensures
        summary_kept(agent, summary, tokens_before, Ok(added)).0.entries == agent.entries + added,
        summary_kept(agent, summary, tokens_before, Ok(added)).1 == seq![
            AgentEventView::Notice(
                "历史已压缩:压缩前估算约 "@ + dec(tokens_before as nat) + " tokens,摘要 "@ + dec(
                    summary.len(),
                ) + " 字符。事实日志保留全部原始记录。"@,
            ),
            AgentEventView::TurnFinished { cancelled: false },
        ],
        summary_kept(agent, summary, tokens_before, Err(error)).0 == agent,
        summary_kept(agent, summary, tokens_before, Err(error)).1.last() == (
        AgentEventView::TurnFinished { cancelled: false }),
        summary_kept(agent, summary, tokens_before, Err(error)).1.len() == 2,
{
}

/// A history that says nothing is not condensed. Any other one is handed over without tools and without
/// showing what comes back, and what it cost before is kept.
pub proof fn law_compactions_begin(p: ModelProjection, budget: ContextBudget)
    ensures
        ({
            let transcript = transcript_of(p.messages.deep_view());
            let (request, shown) = compaction_begun(p, budget);
            &&& transcript.len() == 0 ==> request is None && shown == seq![
                AgentEventView::Notice("当前会话没有可压缩的历史"@),
            ]
            &&& transcript.len() > 0 ==> shown == seq![AgentEventView::TurnStarted] && (request
                matches Some(asked) && {
                &&& asked.prompt == compaction_of(transcript, budget)
                &&& asked.tools.len() == 0
                &&& !asked.forward
                &&& asked.tokens_before == estimate(0, 0, p)
            })
        }),
{
}

} // verus!
