//! The context budget: estimate, fold old tool results where that helps, else refuse.
//!
//! An estimate starts from the token count of the last call that reported one and adds the
//! characters said since, about four to a token; without such a call everything is counted in
//! characters. Folding shortens texts in the view of this one request only. What does not fit
//! after that is refused: messages are never dropped.
use vstd::prelude::*;

use crate::list::{empty, one, put, take_all, take_next};
use crate::message::{Block, BlockView, ChatMessage, MessageView, Role};
use crate::session::{
    all_answered, answers_exactly, blocks_cost, calls_of, capped, ids_of, message_chars, result_ids,
    ModelProjection,
};
use crate::text::{dec, decimal};

verus! {

/// The characters that a folded tool result keeps.
pub const SHORTENED_RESULT_HEAD_CHARS: usize = 160;

/// The messages at the end that are never folded.
pub const PROTECTED_TAIL_MESSAGES: usize = 2;

#[derive(Debug, Clone, Copy)]
pub struct ContextBudget {
    /// The model's context window in tokens; without one nothing is enforced.
    pub context_window: Option<u64>,
    /// Tokens kept free for the answer.
    pub reserve_output: u64,
}

impl ContextBudget {
    /// The tokens left for the input: at least one.
    pub open spec fn available(self) -> Option<u64> {
        match self.context_window {
            Some(window) => Some(
                if window > self.reserve_output {
                    (window - self.reserve_output) as u64
                } else {
                    1
                },
            ),
            None => None,
        }
    }

    pub fn disabled() -> (b: ContextBudget)
        ensures
            b == (ContextBudget { context_window: None, reserve_output: 0 }),
            b.available() is None,
    {
        ContextBudget { context_window: None, reserve_output: 0 }
    }

    pub fn available_input(&self) -> (r: Option<u64>)
        ensures
            r == self.available(),
    {
        match self.context_window {
            Some(window) => {
                let left: u64 = window.saturating_sub(self.reserve_output);
                Some(if left < 1 { 1 } else { left })
            },
            None => None,
        }
    }
}

#[derive(Debug)]
pub enum BudgetDecision {
    /// The request may go out with these messages, some of them perhaps folded.
    Send { messages: Vec<ChatMessage>, estimated_tokens: u64, notices: Vec<String> },
    /// Folding was not enough.
    Refuse { estimated_tokens: u64, available_tokens: u64 },
}

pub open spec fn tokens_for(chars: u64) -> u64 {
    (chars / 4 + 1) as u64
}

pub fn chars_to_tokens(chars: u64) -> (tokens: u64)
    ensures
        tokens == tokens_for(chars),
{
    chars / 4 + 1
}

/// The characters of all messages.
pub open spec fn messages_cost(messages: Seq<MessageView>) -> nat
    decreases messages.len(),
{
    if messages.len() == 0 {
        0
    } else {
        messages_cost(messages.drop_last()) + blocks_cost(messages.last().blocks)
    }
}

/// The tokens of a request counted in characters alone.
pub open spec fn estimate_by_chars(
    system_chars: u64,
    tools_chars: u64,
    messages: Seq<MessageView>,
) -> u64 {
    tokens_for(capped((system_chars + tools_chars + messages_cost(messages)) as nat))
}

/// The tokens of a request: from the last reported count where there is one.
pub open spec fn estimate(system_chars: u64, tools_chars: u64, projection: ModelProjection) -> u64 {
    match projection.known_token_baseline {
        Some(known) => capped((known + tokens_for(projection.tail_chars_after_baseline)) as nat),
        None => estimate_by_chars(system_chars, tools_chars, projection.messages.deep_view()),
    }
}

fn count_by_chars(system_chars: u64, tools_chars: u64, messages: &Vec<ChatMessage>) -> (tokens: u64)
    ensures
        tokens == estimate_by_chars(system_chars, tools_chars, messages.deep_view()),
{
    let ghost all = messages.deep_view();
    let mut chars: u64 = system_chars.saturating_add(tools_chars);
    let mut i: usize = 0;
    while i < messages.len()
        invariant
            i <= messages@.len(),
            all == messages.deep_view(),
            chars == capped((system_chars + tools_chars + messages_cost(all.take(i as int))) as nat),
        decreases messages@.len() - i,
    {
        proof {
            take_next(all, i as int);
        }
        chars = chars.saturating_add(message_chars(&messages[i]));
        i = i + 1;
    }
    proof {
        take_all(all);
    }
    chars_to_tokens(chars)
}

pub fn estimate_tokens(system_chars: u64, tools_chars: u64, projection: &ModelProjection) -> (r: u64)
    ensures
        r == estimate(system_chars, tools_chars, *projection),
{
    match projection.known_token_baseline {
        Some(known) => known.saturating_add(chars_to_tokens(projection.tail_chars_after_baseline)),
        None => count_by_chars(system_chars, tools_chars, &projection.messages),
    }
}

/// A text cut down to its head, with a note of how long it was.
pub open spec fn head_of(content: Seq<char>) -> Seq<char> {
    content.take(SHORTENED_RESULT_HEAD_CHARS as int) + "\n[已按上下文预算折叠,原文 "@ + dec(
        content.len(),
    ) + " 字符;完整内容保留在会话事实日志中]"@
}

/// A tool result that folding makes shorter.
pub open spec fn foldable(block: BlockView) -> bool {
    &&& block is ToolResult
    &&& block->content.len() > SHORTENED_RESULT_HEAD_CHARS
    &&& head_of(block->content).len() < block->content.len()
}

/// The block with a long tool result cut down to its head.
pub open spec fn folded_block(block: BlockView) -> BlockView {
    match block {
        BlockView::ToolResult { tool_use_id, content, is_error } => if foldable(block) {
            BlockView::ToolResult {
                tool_use_id,
                content: head_of(content),
                is_error,
            }
        } else {
            block
        },
        _ => block,
    }
}

pub open spec fn folded_blocks(blocks: Seq<BlockView>) -> Seq<BlockView> {
    Seq::new(blocks.len(), |i: int| folded_block(blocks[i]))
}

/// How many of the blocks fold.
pub open spec fn fold_count(blocks: Seq<BlockView>) -> nat
    decreases blocks.len(),
{
    if blocks.len() == 0 {
        0
    } else {
        fold_count(blocks.drop_last()) + if foldable(blocks.last()) {
            1nat
        } else {
            0
        }
    }
}

/// The first message that is protected from folding.
pub open spec fn protected_from(len: nat) -> int {
    if len > PROTECTED_TAIL_MESSAGES {
        len - PROTECTED_TAIL_MESSAGES
    } else {
        0
    }
}

pub open spec fn folded_message(message: MessageView) -> MessageView {
    match message.role {
        Role::User => MessageView { role: Role::User, blocks: folded_blocks(message.blocks) },
        Role::Assistant => message,
    }
}

/// The messages with every long tool result before the protected tail folded.
pub open spec fn folded(messages: Seq<MessageView>) -> Seq<MessageView> {
    Seq::new(
        messages.len(),
        |i: int|
            if i < protected_from(messages.len()) {
                folded_message(messages[i])
            } else {
                messages[i]
            },
    )
}

/// How many tool results of some messages fold.
pub open spec fn folds(messages: Seq<MessageView>) -> nat
    decreases messages.len(),
{
    if messages.len() == 0 {
        0
    } else {
        folds(messages.drop_last()) + match messages.last().role {
            Role::User => fold_count(messages.last().blocks),
            Role::Assistant => 0,
        }
    }
}

/// How many tool results [`folded`] shortens.
pub open spec fn total_folds(messages: Seq<MessageView>) -> nat {
    folds(messages.take(protected_from(messages.len())))
}

/// A text cut down to its head, where that makes it shorter.
fn fold_text(content: &str) -> (r: Option<String>)
    ensures
        r is Some <==> content@.len() > SHORTENED_RESULT_HEAD_CHARS && head_of(content@).len()
            < content@.len(),
        r is Some ==> r->0@ == head_of(content@),
{
    let total: usize = content.unicode_len();
    if total <= SHORTENED_RESULT_HEAD_CHARS {
        return None;
    }
    let mut text = content.substring_char(0, SHORTENED_RESULT_HEAD_CHARS).to_owned();
    assert(text@ =~= content@.take(SHORTENED_RESULT_HEAD_CHARS as int));
    text.push_str("\n[已按上下文预算折叠,原文 ");
    text.push_str(decimal(total as u64).as_str());
    text.push_str(" 字符;完整内容保留在会话事实日志中]");
    if text.as_str().unicode_len() < total {
        Some(text)
    } else {
        None
    }
}

fn fold_blocks(blocks: &Vec<Block>) -> (r: (Vec<Block>, u64))
    ensures
        r.0.deep_view() == folded_blocks(blocks.deep_view()),
        r.1 == capped(fold_count(blocks.deep_view())),
{
    let ghost all = blocks.deep_view();
    let mut out: Vec<Block> = empty();
    let mut count: u64 = 0;
    let mut i: usize = 0;
    while i < blocks.len()
        invariant
            i <= blocks@.len(),
            all == blocks.deep_view(),
            out.deep_view() == folded_blocks(all).take(i as int),
            count == capped(fold_count(all.take(i as int))),
        decreases blocks@.len() - i,
    {
        proof {
            take_next(all, i as int);
            take_next(folded_blocks(all), i as int);
        }
        match &blocks[i] {
            Block::ToolResult { tool_use_id, content, is_error } => {
                match fold_text(content.as_str()) {
                    Some(text) => {
                        put(
                            &mut out,
                            Block::ToolResult {
                                tool_use_id: tool_use_id.clone(),
                                content: text,
                                is_error: *is_error,
                            },
                        );
                        count = count.saturating_add(1);
                    },
                    None => {
                        put(&mut out, blocks[i].clone());
                    },
                }
            },
            _ => {
                put(&mut out, blocks[i].clone());
            },
        }
        i = i + 1;
    }
    proof {
        take_all(all);
        take_all(folded_blocks(all));
    }
    (out, count)
}

/// Whether a block is another one with at most a shorter tool result.
pub open spec fn at_most_shorter(before: BlockView, after: BlockView) -> bool {
    match (before, after) {
        (
            BlockView::ToolResult { tool_use_id, content, is_error },
            BlockView::ToolResult { tool_use_id: id, content: text, is_error: failed },
        ) => id == tool_use_id && failed == is_error && (text == content || text.len()
            < content.len()),
        _ => after == before,
    }
}

/// Folds the long tool results before the protected tail. Blocks are shortened, never removed, and
/// none gets longer.
pub fn shorten_old_tool_results(messages: Vec<ChatMessage>) -> (r: (Vec<ChatMessage>, u64))
    ensures
        r.0.deep_view() == folded(messages.deep_view()),
        r.1 == capped(total_folds(messages.deep_view())),
        forall|i: int, j: int|
            0 <= i < messages@.len() && 0 <= j < messages.deep_view()[i].blocks.len()
                ==> at_most_shorter(
                messages.deep_view()[i].blocks[j],
                #[trigger] r.0.deep_view()[i].blocks[j],
            ),
{
    let ghost all = messages.deep_view();
    let protected: usize = messages.len().saturating_sub(PROTECTED_TAIL_MESSAGES);
    let mut messages = messages;
    let mut count: u64 = 0;
    let mut i: usize = 0;
    let ghost head = all.take(protected as int);
    while i < protected
        invariant
            i <= protected <= messages@.len(),
            protected == protected_from(all.len()),
            messages@.len() == all.len(),
            head == all.take(protected as int),
            forall|k: int|
                0 <= k < all.len() ==> messages@[k].deep_view() == (if k < i {
                    folded_message(all[k])
                } else {
                    all[k]
                }),
            count == capped(folds(head.take(i as int))),
        decreases protected - i,
    {
        proof {
            take_next(head, i as int);
        }
        match messages[i].role {
            Role::User => {
                let (blocks, shortened) = fold_blocks(&messages[i].blocks);
                count = count.saturating_add(shortened);
                messages.set(i, ChatMessage { role: Role::User, blocks });
            },
            Role::Assistant => {},
        }
        i = i + 1;
    }
    proof {
        take_all(head);
        assert(messages.deep_view() =~= folded(all));
    }
    (messages, count)
}

/// What a request that had to be folded tells the user.
pub open spec fn fold_notice(count: nat) -> Seq<char> {
    "上下文接近预算,已在本轮视图中折叠 "@ + dec(count) + " 个旧工具结果(事实日志未修改)"@
}

/// Decides whether a request fits. What is sent within a known window is estimated to fit it.
pub fn apply_budget(
    budget: &ContextBudget,
    system_chars: u64,
    tools_chars: u64,
    projection: ModelProjection,
) -> (r: BudgetDecision)
    ensures
        ({
            let original = projection.messages.deep_view();
            let first = estimate(system_chars, tools_chars, projection);
            let second = estimate_by_chars(system_chars, tools_chars, folded(original));
            let fits = budget.available() is None || first <= budget.available()->0;
            let count = capped(total_folds(original));
            match r {
                BudgetDecision::Send { messages, estimated_tokens, notices } => if fits {
                    &&& messages.deep_view() == original
                    &&& estimated_tokens == first
                    &&& notices.deep_view() == Seq::<Seq<char>>::empty()
                } else {
                    &&& count > 0
                    &&& second <= budget.available()->0
                    &&& messages.deep_view() == folded(original)
                    &&& estimated_tokens == second
                    &&& notices.deep_view() == seq![fold_notice(count as nat)]
                },
                BudgetDecision::Refuse { estimated_tokens, available_tokens } => {
                    &&& !fits
                    &&& available_tokens == budget.available()->0
                    &&& count > 0 ==> second > available_tokens
                    &&& estimated_tokens == (if count > 0 {
                        second
                    } else {
                        first
                    })
                    &&& estimated_tokens > available_tokens
                },
            }
        }),
        r is Send ==> budget.available() is None || r->Send_estimated_tokens
            <= budget.available()->0,
{
    let estimated = estimate_tokens(system_chars, tools_chars, &projection);
    let available = match budget.available_input() {
        Some(available) => available,
        None => {
            return BudgetDecision::Send {
                messages: projection.messages,
                estimated_tokens: estimated,
                notices: empty(),
            };
        },
    };
    if estimated <= available {
        return BudgetDecision::Send {
            messages: projection.messages,
            estimated_tokens: estimated,
            notices: empty(),
        };
    }
    let (messages, shortened) = shorten_old_tool_results(projection.messages);
    if shortened == 0 {
        return BudgetDecision::Refuse {
            estimated_tokens: estimated,
            available_tokens: available,
        };
    }
    let again = count_by_chars(system_chars, tools_chars, &messages);
    if again <= available {
        let mut notice = "上下文接近预算,已在本轮视图中折叠 ".to_owned();
        notice.push_str(decimal(shortened).as_str());
        notice.push_str(" 个旧工具结果(事实日志未修改)");
        BudgetDecision::Send { messages, estimated_tokens: again, notices: one(notice) }
    } else {
        BudgetDecision::Refuse { estimated_tokens: again, available_tokens: available }
    }
}

proof fn folding_keeps_ids(blocks: Seq<BlockView>)
    ensures
        result_ids(folded_blocks(blocks)) == result_ids(blocks),
        calls_of(folded_blocks(blocks)) == calls_of(blocks),
    decreases blocks.len(),
{
    if blocks.len() > 0 {
        folding_keeps_ids(blocks.drop_last());
        assert(folded_blocks(blocks).drop_last() =~= folded_blocks(blocks.drop_last()));
        assert(folded_blocks(blocks).last() == folded_block(blocks.last()));
    }
}

/// Some leading messages folded, the others as they were.
spec fn folded_upto(messages: Seq<MessageView>, n: int) -> Seq<MessageView> {
    Seq::new(
        messages.len(),
        |i: int|
            if i < n {
                folded_message(messages[i])
            } else {
                messages[i]
            },
    )
}

proof fn folding_keeps_answers(messages: Seq<MessageView>, n: int, open: Seq<Seq<char>>)
    requires
        all_answered(messages, open),
    ensures
        all_answered(folded_upto(messages, n), open),
    decreases messages.len(),
{
    let now = folded_upto(messages, n);
    if messages.len() > 0 {
        let m = messages[0];
        folding_keeps_ids(m.blocks);
        assert(now.drop_first() =~= folded_upto(messages.drop_first(), n - 1));
        match m.role {
            Role::User => {
                folding_keeps_answers(messages.drop_first(), n - 1, seq![]);
                assert(answers_exactly(now[0].blocks, open));
            },
            Role::Assistant => {
                folding_keeps_answers(messages.drop_first(), n - 1, ids_of(calls_of(m.blocks)));
            },
        }
    }
}

/// Folding never breaks the pairing of calls and results.
pub proof fn law_folding_keeps_pairs(messages: Seq<MessageView>)
    requires
        all_answered(messages, seq![]),
    ensures
        all_answered(folded(messages), seq![]),
{
    let n = protected_from(messages.len());
    folding_keeps_answers(messages, n, seq![]);
    assert(folded(messages) =~= folded_upto(messages, n));
}

/// Folding changes a block exactly where it counts as folded, and only by making its text shorter.
pub proof fn law_folding_only_shortens(block: BlockView)
    ensures
        foldable(block) <==> folded_block(block) != block,
        at_most_shorter(block, folded_block(block)),
{
}

/// Folding keeps the number of messages, each message's role and number of blocks, and the last
/// messages altogether.
pub proof fn law_folding_keeps_structure(messages: Seq<MessageView>)
    ensures
        folded(messages).len() == messages.len(),
        forall|i: int|
            0 <= i < messages.len() ==> {
                &&& (#[trigger] folded(messages)[i]).role == messages[i].role
                &&& folded(messages)[i].blocks.len() == messages[i].blocks.len()
                &&& i >= messages.len() - PROTECTED_TAIL_MESSAGES ==> folded(messages)[i]
                    == messages[i]
            },
{
}

} // verus!
