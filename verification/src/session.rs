//! The session log: facts, and the one-way projection from facts to what the model sees.
use vstd::prelude::*;

use crate::json::printed_json;
use crate::list::{empty, extend, put, take_all, take_next};
use crate::message::{
    copy_opt_text, user_message, Block, BlockView, ChatMessage, MessageView, Role, Usage,
};
use crate::plan::{check_follows, may_follow, no_plan, PlanError, PlanErrorKind, PlanSnapshot, PlanView};
use crate::text::{concat2, dec, decimal, same, sort_texts, sorted_texts, sorted_texts_keeps};

verus! {

/// A fact of the session, linked to the fact before it.
#[derive(Debug)]
pub struct SessionEntry {
    pub id: String,
    pub parent_id: Option<String>,
    pub created_at: i64,
    pub payload: SessionEntryPayload,
}

#[derive(Debug)]
pub enum SessionEntryPayload {
    Message(MessageRecord),
    Notice(NoticeRecord),
    Artifact(ArtifactRef),
    Compaction(CompactionRecord),
    ModelChange(ModelChangeRecord),
    PlanUpdated(PlanSnapshot),
    PlanReminder(PlanReminderRecord),
}

#[derive(Debug)]
pub struct MessageRecord {
    pub message: ChatMessage,
    pub usage: Option<Usage>,
    pub prompt_fingerprint: Option<String>,
}

#[derive(Debug)]
pub struct NoticeRecord {
    pub text: String,
    pub level: NoticeLevel,
}

#[derive(Debug, Clone, Copy, PartialEq, Eq, Structural)]
pub enum NoticeLevel {
    Info,
    Warning,
    Error,
}

#[derive(Debug, PartialEq, Eq)]
pub struct ArtifactRef {
    pub id: String,
    pub media_type: String,
    pub byte_len: usize,
}

#[derive(Debug)]
pub struct ArtifactDraft {
    pub reference: ArtifactRef,
    pub bytes: Vec<u8>,
}

#[derive(Debug)]
pub struct CompactionRecord {
    pub summary: String,
    pub tokens_before: u64,
}

#[derive(Debug)]
pub struct ModelChangeRecord {
    pub provider: String,
    pub model: String,
    pub effort: String,
}

#[derive(Debug, Clone, Copy, PartialEq, Eq, Structural)]
pub struct PlanReminderRecord {
    pub revision: u64,
    pub reason: PlanReminderReason,
}

#[derive(Debug, Clone, Copy, PartialEq, Eq, Structural)]
pub enum PlanReminderReason {
    Continue,
    Cancelled,
}

#[derive(Debug)]
pub struct SessionSnapshot {
    pub entries: Vec<SessionEntry>,
    pub usage: Usage,
}

/// What a payload denotes.
#[verifier::ext_equal]
pub enum PayloadView {
    Message { message: MessageView, usage: Option<Usage>, prompt_fingerprint: Option<Seq<char>> },
    Notice { text: Seq<char>, level: NoticeLevel },
    Artifact { id: Seq<char>, media_type: Seq<char>, byte_len: usize },
    Compaction { summary: Seq<char>, tokens_before: u64 },
    ModelChange { provider: Seq<char>, model: Seq<char>, effort: Seq<char> },
    PlanUpdated(PlanView),
    PlanReminder(PlanReminderRecord),
}

#[verifier::ext_equal]
pub struct EntryView {
    pub id: Seq<char>,
    pub parent_id: Option<Seq<char>>,
    pub created_at: i64,
    pub payload: PayloadView,
}

impl DeepView for SessionEntryPayload {
    type V = PayloadView;

    open spec fn deep_view(&self) -> PayloadView {
        match *self {
            SessionEntryPayload::Message(r) => PayloadView::Message {
                message: r.message.deep_view(),
                usage: r.usage,
                prompt_fingerprint: r.prompt_fingerprint.deep_view(),
            },
            SessionEntryPayload::Notice(r) => PayloadView::Notice { text: r.text@, level: r.level },
            SessionEntryPayload::Artifact(r) => PayloadView::Artifact {
                id: r.id@,
                media_type: r.media_type@,
                byte_len: r.byte_len,
            },
            SessionEntryPayload::Compaction(r) => PayloadView::Compaction {
                summary: r.summary@,
                tokens_before: r.tokens_before,
            },
            SessionEntryPayload::ModelChange(r) => PayloadView::ModelChange {
                provider: r.provider@,
                model: r.model@,
                effort: r.effort@,
            },
            SessionEntryPayload::PlanUpdated(p) => PayloadView::PlanUpdated(p.deep_view()),
            SessionEntryPayload::PlanReminder(r) => PayloadView::PlanReminder(r),
        }
    }
}

impl DeepView for SessionEntry {
    type V = EntryView;

    open spec fn deep_view(&self) -> EntryView {
        EntryView {
            id: self.id@,
            parent_id: self.parent_id.deep_view(),
            created_at: self.created_at,
            payload: self.payload.deep_view(),
        }
    }
}

impl Clone for SessionEntryPayload {
    fn clone(&self) -> (r: SessionEntryPayload)
        ensures
            r.deep_view() == self.deep_view(),
    {
        match self {
            SessionEntryPayload::Message(r) => SessionEntryPayload::Message(
                MessageRecord {
                    message: r.message.clone(),
                    usage: r.usage,
                    prompt_fingerprint: copy_opt_text(&r.prompt_fingerprint),
                },
            ),
            SessionEntryPayload::Notice(r) => SessionEntryPayload::Notice(
                NoticeRecord { text: r.text.clone(), level: r.level },
            ),
            SessionEntryPayload::Artifact(r) => SessionEntryPayload::Artifact(
                ArtifactRef {
                    id: r.id.clone(),
                    media_type: r.media_type.clone(),
                    byte_len: r.byte_len,
                },
            ),
            SessionEntryPayload::Compaction(r) => SessionEntryPayload::Compaction(
                CompactionRecord { summary: r.summary.clone(), tokens_before: r.tokens_before },
            ),
            SessionEntryPayload::ModelChange(r) => SessionEntryPayload::ModelChange(
                ModelChangeRecord {
                    provider: r.provider.clone(),
                    model: r.model.clone(),
                    effort: r.effort.clone(),
                },
            ),
            SessionEntryPayload::PlanUpdated(p) => SessionEntryPayload::PlanUpdated(p.clone()),
            SessionEntryPayload::PlanReminder(r) => SessionEntryPayload::PlanReminder(*r),
        }
    }
}

impl Clone for SessionEntry {
    fn clone(&self) -> (r: SessionEntry)
        ensures
            r.deep_view() == self.deep_view(),
    {
        SessionEntry {
            id: self.id.clone(),
            parent_id: copy_opt_text(&self.parent_id),
            created_at: self.created_at,
            payload: self.payload.clone(),
        }
    }
}

pub fn copy_entries(entries: &Vec<SessionEntry>) -> (out: Vec<SessionEntry>)
    ensures
        out.deep_view() == entries.deep_view(),
{
    let mut out: Vec<SessionEntry> = empty();
    let mut i: usize = 0;
    while i < entries.len()
        invariant
            i <= entries@.len(),
            out.deep_view() == entries.deep_view().take(i as int),
        decreases entries@.len() - i,
    {
        put(&mut out, entries[i].clone());
        i = i + 1;
    }
    proof {
        take_all(entries.deep_view());
    }
    out
}

/// The payloads of some entries.
pub open spec fn payloads_of(entries: Seq<EntryView>) -> Seq<PayloadView> {
    Seq::new(entries.len(), |i: int| entries[i].payload)
}

/// The name that a kind of fact is stored under.
pub open spec fn kind_of(payload: PayloadView) -> Seq<char> {
    match payload {
        PayloadView::Message { .. } => "message"@,
        PayloadView::Notice { .. } => "notice"@,
        PayloadView::Artifact { .. } => "artifact"@,
        PayloadView::Compaction { .. } => "compaction"@,
        PayloadView::ModelChange { .. } => "model_change"@,
        PayloadView::PlanUpdated(_) => "plan_updated"@,
        PayloadView::PlanReminder(_) => "plan_reminder"@,
    }
}

impl SessionEntryPayload {
    pub fn message(message: ChatMessage, usage: Option<Usage>) -> (p: SessionEntryPayload)
        ensures
            p.deep_view() == (PayloadView::Message {
                message: message.deep_view(),
                usage,
                prompt_fingerprint: None,
            }),
    {
        SessionEntryPayload::Message(MessageRecord { message, usage, prompt_fingerprint: None })
    }

    pub fn message_with_prompt(
        message: ChatMessage,
        usage: Usage,
        prompt_fingerprint: Option<String>,
    ) -> (p: SessionEntryPayload)
        ensures
            p.deep_view() == (PayloadView::Message {
                message: message.deep_view(),
                usage: Some(usage),
                prompt_fingerprint: prompt_fingerprint.deep_view(),
            }),
    {
        SessionEntryPayload::Message(
            MessageRecord { message, usage: Some(usage), prompt_fingerprint },
        )
    }

    pub fn kind(&self) -> (k: &'static str)
        ensures
            k@ == kind_of(self.deep_view()),
    {
        match self {
            SessionEntryPayload::Message(_) => "message",
            SessionEntryPayload::Notice(_) => "notice",
            SessionEntryPayload::Artifact(_) => "artifact",
            SessionEntryPayload::Compaction(_) => "compaction",
            SessionEntryPayload::ModelChange(_) => "model_change",
            SessionEntryPayload::PlanUpdated(_) => "plan_updated",
            SessionEntryPayload::PlanReminder(_) => "plan_reminder",
        }
    }
}

/// The reminder as the model reads it.
pub open spec fn reminder_text(r: PlanReminderRecord) -> Seq<char> {
    match r.reason {
        PlanReminderReason::Continue => "[Plan reminder] Plan revision "@ + dec(r.revision as nat)
            + " still has active items. Continue the work. If the work is actually finished, call update_plan with the complete current snapshot before giving the final response."@,
        PlanReminderReason::Cancelled =>
            "[Plan state after cancellation] The in-progress item was returned to pending. The current plan revision is "@
            + dec(r.revision as nat) + "."@,
    }
}

impl PlanReminderRecord {
    pub fn model_message(self) -> (m: ChatMessage)
        ensures
            m.deep_view() == user_message(reminder_text(self)),
    {
        let text = match self.reason {
            PlanReminderReason::Continue => {
                let mut t = "[Plan reminder] Plan revision ".to_owned();
                t.push_str(decimal(self.revision).as_str());
                t.push_str(
                    " still has active items. Continue the work. If the work is actually finished, call update_plan with the complete current snapshot before giving the final response.",
                );
                t
            },
            PlanReminderReason::Cancelled => {
                let mut t =
                    "[Plan state after cancellation] The in-progress item was returned to pending. The current plan revision is ".to_owned();
                t.push_str(decimal(self.revision).as_str());
                t.push_str(".");
                t
            },
        };
        ChatMessage::user_text(text)
    }
}

/// A count held in 64 bits; beyond that it stays at the largest one.
pub open spec fn capped(n: nat) -> u64 {
    if n <= u64::MAX {
        n as u64
    } else {
        u64::MAX
    }
}

/// The characters that a block adds to a request: its content and its frame.
pub open spec fn block_cost(block: BlockView) -> nat {
    16 + match block {
        BlockView::Text(text) => text.len(),
        BlockView::Thinking { text, .. } => text.len(),
        BlockView::ToolUse { name, input, .. } => name.len() + printed_json(input).len(),
        BlockView::ToolResult { content, .. } => content.len(),
    }
}

pub open spec fn blocks_cost(blocks: Seq<BlockView>) -> nat
    decreases blocks.len(),
{
    if blocks.len() == 0 {
        0
    } else {
        blocks_cost(blocks.drop_last()) + block_cost(blocks.last())
    }
}

/// About how many characters a message adds to a request body.
pub fn message_chars(message: &ChatMessage) -> (chars: u64)
    ensures
        chars == capped(blocks_cost(message.deep_view().blocks)),
{
    let mut chars: u64 = 0;
    let ghost all = message.blocks.deep_view();
    let mut i: usize = 0;
    while i < message.blocks.len()
        invariant
            i <= message.blocks@.len(),
            all == message.blocks.deep_view(),
            chars == capped(blocks_cost(all.take(i as int))),
        decreases message.blocks@.len() - i,
    {
        proof {
            take_next(all, i as int);
        }
        chars = chars.saturating_add(16);
        match &message.blocks[i] {
            Block::Text(text) => {
                chars = chars.saturating_add(text.as_str().unicode_len() as u64);
            },
            Block::Thinking { text, .. } => {
                chars = chars.saturating_add(text.as_str().unicode_len() as u64);
            },
            Block::ToolUse { name, input, .. } => {
                chars = chars.saturating_add(name.as_str().unicode_len() as u64);
                chars = chars.saturating_add(input.print().as_str().unicode_len() as u64);
            },
            Block::ToolResult { content, .. } => {
                chars = chars.saturating_add(content.as_str().unicode_len() as u64);
            },
        }
        i = i + 1;
    }
    proof {
        take_all(all);
    }
    chars
}

/// The messages among some facts, in order.
pub open spec fn said(payloads: Seq<PayloadView>) -> Seq<MessageView>
    decreases payloads.len(),
{
    if payloads.len() == 0 {
        seq![]
    } else {
        match payloads.last() {
            PayloadView::Message { message, .. } => said(payloads.drop_last()).push(message),
            _ => said(payloads.drop_last()),
        }
    }
}

/// The messages of a session as the application shows them.
pub fn application_messages(entries: &[SessionEntry]) -> (out: Vec<ChatMessage>)
    ensures
        out.deep_view() == said(payloads_of(entries.deep_view())),
{
    let mut out: Vec<ChatMessage> = empty();
    let ghost all = payloads_of(entries.deep_view());
    let mut i: usize = 0;
    while i < entries.len()
        invariant
            i <= entries@.len(),
            all == payloads_of(entries.deep_view()),
            out.deep_view() == said(all.take(i as int)),
        decreases entries@.len() - i,
    {
        proof {
            take_next(all, i as int);
            assert(all[i as int] == entries@[i as int].payload.deep_view());
        }
        match &entries[i].payload {
            SessionEntryPayload::Message(record) => {
                put(&mut out, record.message.clone());
            },
            _ => {},
        }
        i = i + 1;
    }
    proof {
        take_all(all);
    }
    out
}

// ---- What the model sees ----

/// The facts from the last compaction on.
pub open spec fn since_compaction(payloads: Seq<PayloadView>) -> Seq<PayloadView>
    decreases payloads.len(),
{
    if payloads.len() == 0 {
        seq![]
    } else if payloads.last() is Compaction {
        seq![payloads.last()]
    } else {
        since_compaction(payloads.drop_last()).push(payloads.last())
    }
}

/// The message that a fact becomes for the model; other facts are for people only.
pub open spec fn model_form(payload: PayloadView) -> Option<MessageView> {
    match payload {
        PayloadView::Message { message, .. } => Some(message),
        PayloadView::Compaction { summary, .. } => Some(
            user_message("[Earlier conversation summary]\n"@ + summary),
        ),
        PayloadView::PlanReminder(r) => Some(user_message(reminder_text(r))),
        _ => None,
    }
}

/// The messages that some facts become, in order.
pub open spec fn spoken(payloads: Seq<PayloadView>) -> Seq<MessageView>
    decreases payloads.len(),
{
    if payloads.len() == 0 {
        seq![]
    } else {
        match model_form(payloads.last()) {
            Some(message) => spoken(payloads.drop_last()).push(message),
            None => spoken(payloads.drop_last()),
        }
    }
}

/// The tokens of the call that produced an assistant message, where they were reported.
pub open spec fn reported(payload: PayloadView) -> Option<u64> {
    match payload {
        PayloadView::Message { message, usage: Some(usage), .. } => if message.role
            == Role::Assistant {
            Some(capped((usage.input_tokens + usage.output_tokens) as nat))
        } else {
            None
        },
        _ => None,
    }
}

/// The last reported token count.
pub open spec fn baseline(payloads: Seq<PayloadView>) -> Option<u64>
    decreases payloads.len(),
{
    if payloads.len() == 0 {
        None
    } else {
        match reported(payloads.last()) {
            Some(tokens) => Some(tokens),
            None => baseline(payloads.drop_last()),
        }
    }
}

/// The characters said after the last reported token count.
pub open spec fn tail_cost(payloads: Seq<PayloadView>) -> nat
    decreases payloads.len(),
{
    if payloads.len() == 0 || reported(payloads.last()) is Some {
        0
    } else {
        tail_cost(payloads.drop_last()) + match model_form(payloads.last()) {
            Some(message) => blocks_cost(message.blocks),
            None => 0,
        }
    }
}

/// The calls among some blocks as (id, name), each id once.
pub open spec fn calls_of(blocks: Seq<BlockView>) -> Seq<(Seq<char>, Seq<char>)>
    decreases blocks.len(),
{
    if blocks.len() == 0 {
        seq![]
    } else {
        match blocks.last() {
            BlockView::ToolUse { id, name, .. } => with_call(calls_of(blocks.drop_last()), id, name),
            _ => calls_of(blocks.drop_last()),
        }
    }
}

pub open spec fn ids_of(calls: Seq<(Seq<char>, Seq<char>)>) -> Seq<Seq<char>> {
    Seq::new(calls.len(), |k: int| calls[k].0)
}

/// One more call; under a known id only the name is taken over.
pub open spec fn with_call(
    calls: Seq<(Seq<char>, Seq<char>)>,
    id: Seq<char>,
    name: Seq<char>,
) -> Seq<(Seq<char>, Seq<char>)> {
    if ids_of(calls).contains(id) {
        Seq::new(
            calls.len(),
            |k: int|
                if calls[k].0 == id {
                    (id, name)
                } else {
                    calls[k]
                },
        )
    } else {
        calls.push((id, name))
    }
}

/// The ids that the tool results among some blocks answer.
pub open spec fn result_ids(blocks: Seq<BlockView>) -> Seq<Seq<char>>
    decreases blocks.len(),
{
    if blocks.len() == 0 {
        seq![]
    } else {
        match blocks.last() {
            BlockView::ToolResult { tool_use_id, .. } => result_ids(blocks.drop_last()).push(
                tool_use_id,
            ),
            _ => result_ids(blocks.drop_last()),
        }
    }
}

/// The blocks without tool results, but for the first result to each of `ids`.
pub open spec fn kept(blocks: Seq<BlockView>, ids: Seq<Seq<char>>) -> Seq<BlockView>
    decreases blocks.len(),
{
    if blocks.len() == 0 {
        seq![]
    } else {
        match blocks.last() {
            BlockView::ToolResult { tool_use_id, .. } => if ids.contains(tool_use_id)
                && !result_ids(blocks.drop_last()).contains(tool_use_id) {
                kept(blocks.drop_last(), ids).push(blocks.last())
            } else {
                kept(blocks.drop_last(), ids)
            },
            _ => kept(blocks.drop_last(), ids).push(blocks.last()),
        }
    }
}

/// The result that stands in for a lost one.
pub open spec fn missing_result(id: Seq<char>) -> BlockView {
    BlockView::ToolResult {
        tool_use_id: id,
        content: "[会话恢复修复：工具结果缺失，原调用未重新执行]"@,
        is_error: true,
    }
}

/// Stand-ins for the results to `ids` that are not `present`.
pub open spec fn missing(ids: Seq<Seq<char>>, present: Seq<Seq<char>>) -> Seq<BlockView>
    decreases ids.len(),
{
    if ids.len() == 0 {
        seq![]
    } else if present.contains(ids.last()) {
        missing(ids.drop_last(), present)
    } else {
        missing(ids.drop_last(), present).push(missing_result(ids.last()))
    }
}

/// A user message that answers each open call exactly once and no other.
pub open spec fn answered(message: MessageView, open: Seq<Seq<char>>) -> MessageView {
    MessageView {
        role: message.role,
        blocks: kept(message.blocks, open) + missing(open, result_ids(message.blocks)),
    }
}

/// The user message made up where nobody answered the open calls.
pub open spec fn stand_in(open: Seq<Seq<char>>) -> MessageView {
    MessageView { role: Role::User, blocks: missing(sorted_texts(open), seq![]) }
}

/// The messages with every tool call answered right behind it. `open` are the calls that still
/// wait for an answer.
pub open spec fn repaired(messages: Seq<MessageView>, open: Seq<Seq<char>>) -> Seq<MessageView>
    decreases messages.len(),
{
    if messages.len() == 0 {
        if open.len() > 0 {
            seq![stand_in(open)]
        } else {
            seq![]
        }
    } else {
        let m = messages[0];
        match m.role {
            Role::User => seq![answered(m, open)] + repaired(messages.drop_first(), seq![]),
            Role::Assistant => (if open.len() > 0 {
                seq![stand_in(open), m]
            } else {
                seq![m]
            }) + repaired(messages.drop_first(), ids_of(calls_of(m.blocks))),
        }
    }
}

/// The remarks on the results that [`kept`] drops.
pub open spec fn kept_notes(blocks: Seq<BlockView>, ids: Seq<Seq<char>>) -> Seq<Seq<char>>
    decreases blocks.len(),
{
    if blocks.len() == 0 {
        seq![]
    } else {
        let before = kept_notes(blocks.drop_last(), ids);
        match blocks.last() {
            BlockView::ToolResult { tool_use_id, .. } => if !ids.contains(tool_use_id) {
                before.push("移除孤立 ToolResult "@ + tool_use_id)
            } else if result_ids(blocks.drop_last()).contains(tool_use_id) {
                before.push("移除重复 ToolResult "@ + tool_use_id)
            } else {
                before
            },
            _ => before,
        }
    }
}

/// The remarks on the results that are made up inside an answer.
pub open spec fn missing_notes(
    calls: Seq<(Seq<char>, Seq<char>)>,
    present: Seq<Seq<char>>,
) -> Seq<Seq<char>>
    decreases calls.len(),
{
    if calls.len() == 0 {
        seq![]
    } else {
        let before = missing_notes(calls.drop_last(), present);
        if present.contains(calls.last().0) {
            before
        } else {
            before.push(
                "为工具 "@ + calls.last().1 + " 合成缺失的 ToolResult "@ + calls.last().0,
            )
        }
    }
}

/// The remarks on a made-up message.
pub open spec fn stand_in_notes(ids: Seq<Seq<char>>) -> Seq<Seq<char>> {
    Seq::new(ids.len(), |k: int| "为末尾 ToolUse 合成缺失的 ToolResult "@ + ids[k])
}

/// The remarks on call ids that a message uses twice.
pub open spec fn repeat_notes(blocks: Seq<BlockView>) -> Seq<Seq<char>>
    decreases blocks.len(),
{
    if blocks.len() == 0 {
        seq![]
    } else {
        let before = repeat_notes(blocks.drop_last());
        match blocks.last() {
            BlockView::ToolUse { id, .. } => if ids_of(calls_of(blocks.drop_last())).contains(id) {
                before.push("assistant 内 ToolUse ID "@ + id + " 重复"@)
            } else {
                before
            },
            _ => before,
        }
    }
}

/// All remarks that repairing the messages gives.
pub open spec fn repair_notes(
    messages: Seq<MessageView>,
    open: Seq<(Seq<char>, Seq<char>)>,
) -> Seq<Seq<char>>
    decreases messages.len(),
{
    if messages.len() == 0 {
        stand_in_notes(sorted_texts(ids_of(open)))
    } else {
        let m = messages[0];
        match m.role {
            Role::User => kept_notes(m.blocks, ids_of(open)) + missing_notes(
                open,
                result_ids(m.blocks),
            ) + repair_notes(messages.drop_first(), seq![]),
            Role::Assistant => stand_in_notes(sorted_texts(ids_of(open))) + repeat_notes(m.blocks)
                + repair_notes(messages.drop_first(), calls_of(m.blocks)),
        }
    }
}

/// Whether some texts hold `id`.
fn holds(ids: &Vec<String>, id: &str) -> (r: bool)
    ensures
        r == ids.deep_view().contains(id@),
{
    let mut i: usize = 0;
    while i < ids.len()
        invariant
            i <= ids@.len(),
            forall|k: int| 0 <= k < i ==> ids.deep_view()[k] != id@,
        decreases ids@.len() - i,
    {
        if same(ids[i].as_str(), id) {
            assert(ids.deep_view()[i as int] == id@);
            return true;
        }
        i = i + 1;
    }
    false
}

/// Whether some calls hold `id`.
fn holds_call(calls: &Vec<(String, String)>, id: &str) -> (r: bool)
    ensures
        r == ids_of(calls.deep_view()).contains(id@),
{
    let mut i: usize = 0;
    while i < calls.len()
        invariant
            i <= calls@.len(),
            forall|k: int| 0 <= k < i ==> ids_of(calls.deep_view())[k] != id@,
        decreases calls@.len() - i,
    {
        if same(calls[i].0.as_str(), id) {
            assert(ids_of(calls.deep_view())[i as int] == id@);
            return true;
        }
        i = i + 1;
    }
    false
}

fn missing_tool_result(id: &str) -> (b: Block)
    ensures
        b.deep_view() == missing_result(id@),
{
    Block::ToolResult {
        tool_use_id: id.to_owned(),
        content: "[会话恢复修复：工具结果缺失，原调用未重新执行]".to_owned(),
        is_error: true,
    }
}

/// Makes a user message answer the open calls.
fn answer_calls(
    message: ChatMessage,
    open: &Vec<(String, String)>,
    notes: &mut Vec<String>,
) -> (r: ChatMessage)
    ensures
        r.deep_view() == answered(message.deep_view(), ids_of(open.deep_view())),
        final(notes).deep_view() == old(notes).deep_view() + kept_notes(
            message.deep_view().blocks,
            ids_of(open.deep_view()),
        ) + missing_notes(open.deep_view(), result_ids(message.deep_view().blocks)),
{
    let ghost all = message.blocks.deep_view();
    let ghost ids = ids_of(open.deep_view());
    let ghost start = notes.deep_view();
    let mut blocks: Vec<Block> = empty();
    let mut seen: Vec<String> = empty();
    let mut i: usize = 0;
    assert(start + kept_notes(all.take(0), ids) =~= start);
    while i < message.blocks.len()
        invariant
            i <= message.blocks@.len(),
            all == message.blocks.deep_view(),
            ids == ids_of(open.deep_view()),
            blocks.deep_view() == kept(all.take(i as int), ids),
            seen.deep_view() == result_ids(all.take(i as int)),
            notes.deep_view() == start + kept_notes(all.take(i as int), ids),
        decreases message.blocks@.len() - i,
    {
        proof {
            take_next(all, i as int);
        }
        let block = &message.blocks[i];
        match block {
            Block::ToolResult { tool_use_id, .. } => {
                if !holds_call(open, tool_use_id.as_str()) {
                    put(notes, concat2("移除孤立 ToolResult ", tool_use_id.as_str()));
                } else if holds(&seen, tool_use_id.as_str()) {
                    put(notes, concat2("移除重复 ToolResult ", tool_use_id.as_str()));
                } else {
                    put(&mut blocks, block.clone());
                }
                put(&mut seen, tool_use_id.clone());
            },
            _ => {
                put(&mut blocks, block.clone());
            },
        }
        assert(notes.deep_view() =~= start + kept_notes(all.take(i + 1), ids));
        i = i + 1;
    }
    proof {
        take_all(all);
    }
    let ghost before = blocks.deep_view();
    let ghost present = seen.deep_view();
    let ghost calls = open.deep_view();
    let ghost noted = notes.deep_view();
    let mut j: usize = 0;
    assert(before + missing(ids.take(0), present) =~= before);
    assert(noted + missing_notes(calls.take(0), present) =~= noted);
    while j < open.len()
        invariant
            j <= open@.len(),
            calls == open.deep_view(),
            ids == ids_of(calls),
            present == seen.deep_view(),
            blocks.deep_view() == before + missing(ids.take(j as int), present),
            notes.deep_view() == noted + missing_notes(calls.take(j as int), present),
        decreases open@.len() - j,
    {
        proof {
            take_next(ids, j as int);
            take_next(calls, j as int);
        }
        if !holds(&seen, open[j].0.as_str()) {
            let mut note = concat2("为工具 ", open[j].1.as_str());
            note.push_str(" 合成缺失的 ToolResult ");
            note.push_str(open[j].0.as_str());
            put(notes, note);
            put(&mut blocks, missing_tool_result(open[j].0.as_str()));
        }
        assert(blocks.deep_view() =~= before + missing(ids.take(j + 1), present));
        assert(notes.deep_view() =~= noted + missing_notes(calls.take(j + 1), present));
        j = j + 1;
    }
    proof {
        take_all(ids);
        take_all(calls);
    }
    ChatMessage { role: message.role, blocks }
}

/// Makes up the answer to calls that nobody answered.
fn synthetic_results(open: &Vec<(String, String)>, notes: &mut Vec<String>) -> (r: ChatMessage)
    ensures
        r.deep_view() == stand_in(ids_of(open.deep_view())),
        final(notes).deep_view() == old(notes).deep_view() + stand_in_notes(
            sorted_texts(ids_of(open.deep_view())),
        ),
{
    let ghost ids = ids_of(open.deep_view());
    let mut list: Vec<String> = empty();
    let mut i: usize = 0;
    while i < open.len()
        invariant
            i <= open@.len(),
            ids == ids_of(open.deep_view()),
            list.deep_view() == ids.take(i as int),
        decreases open@.len() - i,
    {
        proof {
            take_next(ids, i as int);
        }
        put(&mut list, open[i].0.clone());
        i = i + 1;
    }
    proof {
        take_all(ids);
    }
    let list = sort_texts(list);
    let ghost sorted = list.deep_view();
    let ghost start = notes.deep_view();
    let mut blocks: Vec<Block> = empty();
    let mut j: usize = 0;
    assert(start + stand_in_notes(sorted).take(0) =~= start);
    while j < list.len()
        invariant
            j <= list@.len(),
            sorted == list.deep_view(),
            blocks.deep_view() == missing(sorted.take(j as int), seq![]),
            notes.deep_view() == start + stand_in_notes(sorted).take(j as int),
        decreases list@.len() - j,
    {
        proof {
            take_next(sorted, j as int);
            take_next(stand_in_notes(sorted), j as int);
        }
        put(notes, concat2("为末尾 ToolUse 合成缺失的 ToolResult ", list[j].as_str()));
        put(&mut blocks, missing_tool_result(list[j].as_str()));
        assert(notes.deep_view() =~= start + stand_in_notes(sorted).take(j + 1));
        j = j + 1;
    }
    proof {
        take_all(sorted);
        take_all(stand_in_notes(sorted));
    }
    ChatMessage { role: Role::User, blocks }
}

/// The distinct calls of a message.
fn open_calls(message: &ChatMessage, notes: &mut Vec<String>) -> (calls: Vec<(String, String)>)
    ensures
        calls.deep_view() == calls_of(message.deep_view().blocks),
        final(notes).deep_view() == old(notes).deep_view() + repeat_notes(message.deep_view().blocks),
{
    let ghost all = message.blocks.deep_view();
    let ghost start = notes.deep_view();
    let mut calls: Vec<(String, String)> = empty();
    let mut i: usize = 0;
    assert(start + repeat_notes(all.take(0)) =~= start);
    while i < message.blocks.len()
        invariant
            i <= message.blocks@.len(),
            all == message.blocks.deep_view(),
            calls.deep_view() == calls_of(all.take(i as int)),
            notes.deep_view() == start + repeat_notes(all.take(i as int)),
        decreases message.blocks@.len() - i,
    {
        proof {
            take_next(all, i as int);
        }
        match &message.blocks[i] {
            Block::ToolUse { id, name, .. } => {
                if holds_call(&calls, id.as_str()) {
                    let mut note = concat2("assistant 内 ToolUse ID ", id.as_str());
                    note.push_str(" 重复");
                    put(notes, note);
                    rename_call(&mut calls, id.as_str(), name.as_str());
                } else {
                    put(&mut calls, (id.clone(), name.clone()));
                }
            },
            _ => {},
        }
        assert(notes.deep_view() =~= start + repeat_notes(all.take(i + 1)));
        i = i + 1;
    }
    proof {
        take_all(all);
    }
    calls
}

fn rename_call(calls: &mut Vec<(String, String)>, id: &str, name: &str)
    requires
        ids_of(old(calls).deep_view()).contains(id@),
    ensures
        final(calls).deep_view() == with_call(old(calls).deep_view(), id@, name@),
{
    let ghost before = calls.deep_view();
    let mut i: usize = 0;
    while i < calls.len()
        invariant
            i <= calls@.len(),
            calls@.len() == before.len(),
            forall|k: int|
                0 <= k < before.len() ==> calls@[k].deep_view() == (if k < i && before[k].0 == id@ {
                    (id@, name@)
                } else {
                    before[k]
                }),
        decreases calls@.len() - i,
    {
        if same(calls[i].0.as_str(), id) {
            calls.set(i, (id.to_owned(), name.to_owned()));
        }
        i = i + 1;
    }
    assert(calls.deep_view() =~= with_call(before, id@, name@));
}

/// Restores the pairing of calls and results in messages that an old or damaged log gave.
pub fn repair_tool_pairs(messages: Vec<ChatMessage>) -> (r: (Vec<ChatMessage>, Vec<String>))
    ensures
        r.0.deep_view() == repaired(messages.deep_view(), seq![]),
        r.1.deep_view() == repair_notes(messages.deep_view(), seq![]),
{
    let ghost all = messages.deep_view();
    let mut projected: Vec<ChatMessage> = empty();
    let mut notes: Vec<String> = empty();
    let mut open: Vec<(String, String)> = empty();
    let mut i: usize = 0;
    assert(all.skip(0) =~= all);
    assert(ids_of(open.deep_view()) =~= seq![]);
    assert(Seq::<MessageView>::empty() + repaired(all, seq![]) =~= repaired(all, seq![]));
    assert(Seq::<Seq<char>>::empty() + repair_notes(all, seq![]) =~= repair_notes(all, seq![]));
    while i < messages.len()
        invariant
            i <= messages@.len(),
            all == messages.deep_view(),
            repaired(all, seq![]) == projected.deep_view() + repaired(
                all.skip(i as int),
                ids_of(open.deep_view()),
            ),
            repair_notes(all, seq![]) == notes.deep_view() + repair_notes(
                all.skip(i as int),
                open.deep_view(),
            ),
        decreases messages@.len() - i,
    {
        let ghost rest = all.skip(i as int);
        let ghost was_projected = projected.deep_view();
        let ghost was_notes = notes.deep_view();
        let ghost was_open = open.deep_view();
        proof {
            assert(rest[0] == messages@[i as int].deep_view());
            assert(rest.drop_first() =~= all.skip(i + 1));
        }
        let message = messages[i].clone();
        match message.role {
            Role::User => {
                let message = answer_calls(message, &open, &mut notes);
                put(&mut projected, message);
                open = empty();
                proof {
                    assert(ids_of(open.deep_view()) =~= seq![]);
                    assert(projected.deep_view() + repaired(all.skip(i + 1), seq![])
                        =~= was_projected + repaired(rest, ids_of(was_open)));
                    assert(notes.deep_view() + repair_notes(all.skip(i + 1), seq![])
                        =~= was_notes + repair_notes(rest, was_open));
                }
            },
            Role::Assistant => {
                if open.len() > 0 {
                    let made_up = synthetic_results(&open, &mut notes);
                    put(&mut projected, made_up);
                } else {
                    assert(stand_in_notes(sorted_texts(ids_of(was_open))) =~= seq![]);
                    assert(notes.deep_view() =~= was_notes + stand_in_notes(
                        sorted_texts(ids_of(was_open)),
                    ));
                }
                open = open_calls(&message, &mut notes);
                put(&mut projected, message);
                proof {
                    assert(projected.deep_view() + repaired(
                        all.skip(i + 1),
                        ids_of(open.deep_view()),
                    ) =~= was_projected + repaired(rest, ids_of(was_open)));
                    assert(notes.deep_view() + repair_notes(all.skip(i + 1), open.deep_view())
                        =~= was_notes + repair_notes(rest, was_open));
                }
            },
        }
        i = i + 1;
    }
    assert(all.skip(i as int) =~= seq![]);
    if open.len() > 0 {
        let made_up = synthetic_results(&open, &mut notes);
        let ghost was = projected.deep_view();
        put(&mut projected, made_up);
        assert(projected.deep_view() =~= was + seq![stand_in(ids_of(open.deep_view()))]);
    } else {
        assert(stand_in_notes(sorted_texts(ids_of(open.deep_view()))) =~= seq![]);
    }
    (projected, notes)
}

// ---- The plan among the facts ----

/// The plan that the facts lead to. An update that may not follow the plan before it is skipped.
pub open spec fn plan_after(payloads: Seq<PayloadView>) -> PlanView
    decreases payloads.len(),
{
    if payloads.len() == 0 {
        no_plan()
    } else {
        let before = plan_after(payloads.drop_last());
        match payloads.last() {
            PayloadView::PlanUpdated(next) => if may_follow(before, next) {
                next
            } else {
                before
            },
            _ => before,
        }
    }
}

/// The remarks on skipped updates.
pub open spec fn plan_notes(payloads: Seq<PayloadView>) -> Seq<Seq<char>>
    decreases payloads.len(),
{
    if payloads.len() == 0 {
        seq![]
    } else {
        let before = plan_notes(payloads.drop_last());
        match payloads.last() {
            PayloadView::PlanUpdated(next) => if may_follow(
                plan_after(payloads.drop_last()),
                next,
            ) {
                before
            } else {
                before.push("忽略不连续或无效的计划修订 "@ + dec(next.revision))
            },
            _ => before,
        }
    }
}

pub struct PlanState {
    pub snapshot: PlanSnapshot,
    pub diagnostics: Vec<String>,
}

/// The current plan of a session.
pub fn reduce_plan(entries: &[SessionEntry]) -> (state: PlanState)
    ensures
        state.snapshot.deep_view() == plan_after(payloads_of(entries.deep_view())),
        state.diagnostics.deep_view() == plan_notes(payloads_of(entries.deep_view())),
{
    let ghost all = payloads_of(entries.deep_view());
    let mut snapshot = PlanSnapshot::default();
    let mut diagnostics: Vec<String> = empty();
    let mut i: usize = 0;
    while i < entries.len()
        invariant
            i <= entries@.len(),
            all == payloads_of(entries.deep_view()),
            snapshot.deep_view() == plan_after(all.take(i as int)),
            diagnostics.deep_view() == plan_notes(all.take(i as int)),
        decreases entries@.len() - i,
    {
        proof {
            take_next(all, i as int);
            assert(all[i as int] == entries@[i as int].payload.deep_view());
        }
        match &entries[i].payload {
            SessionEntryPayload::PlanUpdated(next) => {
                if check_follows(&snapshot, next) {
                    snapshot = next.clone();
                } else {
                    put(
                        &mut diagnostics,
                        concat2("忽略不连续或无效的计划修订 ", decimal(next.revision).as_str()),
                    );
                }
            },
            _ => {},
        }
        i = i + 1;
    }
    proof {
        take_all(all);
    }
    PlanState { snapshot, diagnostics }
}

/// Every plan update among `payloads` may follow the plan before it, starting from `current`.
pub open spec fn appends_ok(current: PlanView, payloads: Seq<PayloadView>) -> bool
    decreases payloads.len(),
{
    payloads.len() > 0 ==> match payloads[0] {
        PayloadView::PlanUpdated(next) => may_follow(current, next) && appends_ok(
            next,
            payloads.drop_first(),
        ),
        _ => appends_ok(current, payloads.drop_first()),
    }
}

/// Why the first plan update among `payloads` that may not follow the plan before it is refused.
pub open spec fn append_flaw(current: PlanView, payloads: Seq<PayloadView>) -> Option<Seq<char>>
    decreases payloads.len(),
{
    if payloads.len() == 0 {
        None
    } else {
        match payloads[0] {
            PayloadView::PlanUpdated(next) => if may_follow(current, next) {
                append_flaw(next, payloads.drop_first())
            } else {
                Some("计划修订 "@ + dec(next.revision) + " 不能接在当前计划之后"@)
            },
            _ => append_flaw(current, payloads.drop_first()),
        }
    }
}

/// Checks a batch before it is stored: plan updates advance the stored plan one by one.
pub fn validate_plan_append(existing: &[SessionEntry], payloads: &[SessionEntryPayload]) -> (r: Result<
    (),
    PlanError,
>)
    ensures
        r is Ok <==> appends_ok(plan_after(payloads_of(existing.deep_view())), payloads.deep_view()),
        r is Err ==> r->Err_0.kind == PlanErrorKind::Conflict && append_flaw(
            plan_after(payloads_of(existing.deep_view())),
            payloads.deep_view(),
        ) == Some(r->Err_0.message@),
{
    let ghost all = payloads.deep_view();
    let mut current = reduce_plan(existing).snapshot;
    let ghost start = current.deep_view();
    let mut i: usize = 0;
    assert(all.skip(0) =~= all);
    while i < payloads.len()
        invariant
            i <= payloads@.len(),
            all == payloads.deep_view(),
            appends_ok(start, all) == appends_ok(current.deep_view(), all.skip(i as int)),
            append_flaw(start, all) == append_flaw(current.deep_view(), all.skip(i as int)),
            start == plan_after(payloads_of(existing.deep_view())),
        decreases payloads@.len() - i,
    {
        proof {
            assert(all.skip(i as int)[0] == payloads@[i as int].deep_view());
            assert(all.skip(i as int).drop_first() =~= all.skip(i + 1));
        }
        match &payloads[i] {
            SessionEntryPayload::PlanUpdated(next) => {
                if !check_follows(&current, next) {
                    let mut message = concat2("计划修订 ", decimal(next.revision).as_str());
                    message.push_str(" 不能接在当前计划之后");
                    return Err(PlanError { kind: PlanErrorKind::Conflict, message });
                }
                current = next.clone();
            },
            _ => {},
        }
        i = i + 1;
    }
    Ok(())
}

/// A batch that was let through never leaves a skipped update in the log.
pub proof fn law_checked_plan_batches_apply(log: Seq<PayloadView>, batch: Seq<PayloadView>)
    requires
        appends_ok(plan_after(log), batch),
    ensures
        plan_notes(log + batch) == plan_notes(log),
    decreases batch.len(),
{
    if batch.len() == 0 {
        assert(log + batch =~= log);
    } else {
        let next = log.push(batch[0]);
        assert(next.drop_last() =~= log);
        assert(log + batch =~= next + batch.drop_first());
        law_checked_plan_batches_apply(next, batch.drop_first());
    }
}

// ---- The projection ----

/// The model's view of a session.
#[derive(Debug)]
pub struct ModelProjection {
    pub messages: Vec<ChatMessage>,
    pub diagnostics: Vec<String>,
    /// Input and output tokens of the last assistant message whose call reported them. They
    /// cover everything that call saw. Calls before the last compaction do not count.
    pub known_token_baseline: Option<u64>,
    /// The characters said after that message, or all of them where there is none.
    pub tail_chars_after_baseline: u64,
}

proof fn since_compaction_is_suffix(payloads: Seq<PayloadView>, at: int)
    requires
        at == 0 || (0 < at < payloads.len() && payloads[at] is Compaction),
        forall|k: int| at < k < payloads.len() ==> !(payloads[k] is Compaction),
    ensures
        since_compaction(payloads) == payloads.skip(at),
    decreases payloads.len(),
{
    if payloads.len() == 0 {
        assert(payloads.skip(at) =~= seq![]);
    } else if payloads.last() is Compaction {
        assert(payloads.skip(at) =~= seq![payloads.last()]) by {
            if at < payloads.len() - 1 {
                assert(payloads[payloads.len() - 1] is Compaction);
            }
            assert(at == payloads.len() - 1);
        }
    } else {
        let shorter = payloads.drop_last();
        since_compaction_is_suffix(shorter, at);
        assert(payloads.skip(at) =~= shorter.skip(at).push(payloads.last()));
    }
}

/// Projects the facts to the model's messages.
pub fn project_model_messages(entries: &[SessionEntry]) -> (p: ModelProjection)
    ensures
        ({
            let log = payloads_of(entries.deep_view());
            let current = since_compaction(log);
            &&& p.messages.deep_view() == repaired(spoken(current), seq![])
            &&& p.diagnostics.deep_view() == repair_notes(spoken(current), seq![]) + plan_notes(log)
            &&& p.known_token_baseline == baseline(current)
            &&& p.tail_chars_after_baseline == capped(tail_cost(current))
        }),
{
    let plan = reduce_plan(entries);
    let ghost log = payloads_of(entries.deep_view());
    let ghost current = since_compaction(log);
    let start = last_compaction(entries);
    proof {
        since_compaction_is_suffix(log, start as int);
    }
    let mut messages: Vec<ChatMessage> = empty();
    let mut known_token_baseline: Option<u64> = None;
    let mut tail_chars_after_baseline: u64 = 0;
    let mut i: usize = start;
    while i < entries.len()
        invariant
            start <= i <= entries@.len(),
            log == payloads_of(entries.deep_view()),
            current == log.skip(start as int),
            messages.deep_view() == spoken(current.take(i - start)),
            known_token_baseline == baseline(current.take(i - start)),
            tail_chars_after_baseline == capped(tail_cost(current.take(i - start))),
        decreases entries@.len() - i,
    {
        proof {
            take_next(current, i - start);
            assert(current[i - start] == entries@[i as int].payload.deep_view());
        }
        match &entries[i].payload {
            SessionEntryPayload::Message(record) => {
                put(&mut messages, record.message.clone());
                let usage = match record.message.role {
                    Role::Assistant => record.usage,
                    Role::User => None,
                };
                match usage {
                    Some(usage) => {
                        known_token_baseline = Some(
                            usage.input_tokens.saturating_add(usage.output_tokens),
                        );
                        tail_chars_after_baseline = 0;
                    },
                    None => {
                        tail_chars_after_baseline =
                        tail_chars_after_baseline.saturating_add(message_chars(&record.message));
                    },
                }
            },
            SessionEntryPayload::Compaction(record) => {
                let summary = ChatMessage::user_text(
                    concat2("[Earlier conversation summary]\n", record.summary.as_str()),
                );
                tail_chars_after_baseline =
                tail_chars_after_baseline.saturating_add(message_chars(&summary));
                put(&mut messages, summary);
            },
            SessionEntryPayload::PlanReminder(reminder) => {
                let message = reminder.model_message();
                tail_chars_after_baseline =
                tail_chars_after_baseline.saturating_add(message_chars(&message));
                put(&mut messages, message);
            },
            _ => {},
        }
        i = i + 1;
    }
    proof {
        take_all(current);
    }
    let (messages, mut diagnostics) = repair_tool_pairs(messages);
    extend(&mut diagnostics, plan.diagnostics);
    ModelProjection { messages, diagnostics, known_token_baseline, tail_chars_after_baseline }
}

/// Where the last compaction stands, or 0 where there is none.
fn last_compaction(entries: &[SessionEntry]) -> (at: usize)
    ensures
        ({
            let log = payloads_of(entries.deep_view());
            &&& at == 0 || (at < log.len() && log[at as int] is Compaction)
            &&& forall|k: int| at < k < log.len() ==> !(log[k] is Compaction)
        }),
{
    let ghost log = payloads_of(entries.deep_view());
    let mut i: usize = entries.len();
    while i > 0
        invariant
            i <= entries@.len(),
            log == payloads_of(entries.deep_view()),
            forall|k: int| i <= k < log.len() ==> !(log[k] is Compaction),
        decreases i,
    {
        i = i - 1;
        assert(log[i as int] == entries@[i as int].payload.deep_view());
        if let SessionEntryPayload::Compaction(_) = &entries[i].payload {
            return i;
        }
    }
    0
}

// ---- New batches ----

/// How often `id` occurs.
pub open spec fn times(ids: Seq<Seq<char>>, id: Seq<char>) -> nat
    decreases ids.len(),
{
    if ids.len() == 0 {
        0
    } else {
        times(ids.drop_last(), id) + if ids.last() == id {
            1nat
        } else {
            0
        }
    }
}

/// The ids of the calls among some blocks, repetitions included.
pub open spec fn use_ids(blocks: Seq<BlockView>) -> Seq<Seq<char>>
    decreases blocks.len(),
{
    if blocks.len() == 0 {
        seq![]
    } else {
        match blocks.last() {
            BlockView::ToolUse { id, .. } => use_ids(blocks.drop_last()).push(id),
            _ => use_ids(blocks.drop_last()),
        }
    }
}

/// All blocks of the messages of a batch.
pub open spec fn batch_blocks(payloads: Seq<PayloadView>) -> Seq<BlockView>
    decreases payloads.len(),
{
    if payloads.len() == 0 {
        seq![]
    } else {
        batch_blocks(payloads.drop_last()) + match payloads.last() {
            PayloadView::Message { message, .. } => message.blocks,
            _ => seq![],
        }
    }
}

/// A call id is used once and answered once.
pub open spec fn id_paired(blocks: Seq<BlockView>, id: Seq<char>) -> bool {
    times(use_ids(blocks), id) == 1 && times(result_ids(blocks), id) == 1
}

/// Every call of the batch is answered in the batch, exactly once, and nothing else is.
pub open spec fn batch_paired(payloads: Seq<PayloadView>) -> bool {
    let blocks = batch_blocks(payloads);
    &&& forall|id: Seq<char>| use_ids(blocks).contains(id) ==> #[trigger] id_paired(blocks, id)
    &&& forall|id: Seq<char>| #[trigger]
        result_ids(blocks).contains(id) ==> use_ids(blocks).contains(id)
}

fn times_of(ids: &Vec<String>, id: &str) -> (n: usize)
    ensures
        n == times(ids.deep_view(), id@),
{
    let ghost all = ids.deep_view();
    let mut n: usize = 0;
    let mut i: usize = 0;
    while i < ids.len()
        invariant
            n <= i <= ids@.len(),
            all == ids.deep_view(),
            n == times(all.take(i as int), id@),
        decreases ids@.len() - i,
    {
        proof {
            take_next(all, i as int);
        }
        if same(ids[i].as_str(), id) {
            n = n + 1;
        }
        i = i + 1;
    }
    proof {
        take_all(all);
    }
    n
}

/// Whether a text names a call among some blocks that is not paired, or a result to no call.
pub open spec fn names_unpaired(blocks: Seq<BlockView>, text: Seq<char>) -> bool {
    ||| exists|id: Seq<char>|
        use_ids(blocks).contains(id) && !(#[trigger] id_paired(blocks, id)) && text
            == "事务中的 ToolUse "@ + id + " 必须恰好配对一个 ToolResult"@
    ||| exists|id: Seq<char>| #[trigger]
        result_ids(blocks).contains(id) && !use_ids(blocks).contains(id) && text
            == "事务含有孤立 ToolResult "@ + id
}

/// Checks a batch before it is stored: calls and results pair up inside it. Of several that do not,
/// any may be named.
pub fn validate_new_message_batch(payloads: &[SessionEntryPayload]) -> (r: Result<(), String>)
    ensures
        r is Ok <==> batch_paired(payloads.deep_view()),
        r is Err ==> names_unpaired(batch_blocks(payloads.deep_view()), r->Err_0@),
{
    let ghost all = payloads.deep_view();
    let ghost blocks = batch_blocks(all);
    let mut uses: Vec<String> = empty();
    let mut results: Vec<String> = empty();
    let mut i: usize = 0;
    while i < payloads.len()
        invariant
            i <= payloads@.len(),
            all == payloads.deep_view(),
            uses.deep_view() == use_ids(batch_blocks(all.take(i as int))),
            results.deep_view() == result_ids(batch_blocks(all.take(i as int))),
        decreases payloads@.len() - i,
    {
        proof {
            take_next(all, i as int);
        }
        let ghost before = batch_blocks(all.take(i as int));
        match &payloads[i] {
            SessionEntryPayload::Message(record) => {
                let ghost own = record.message.blocks.deep_view();
                let mut j: usize = 0;
                assert(before + own.take(0) =~= before);
                while j < record.message.blocks.len()
                    invariant
                        j <= record.message.blocks@.len(),
                        own == record.message.blocks.deep_view(),
                        uses.deep_view() == use_ids(before + own.take(j as int)),
                        results.deep_view() == result_ids(before + own.take(j as int)),
                    decreases record.message.blocks@.len() - j,
                {
                    proof {
                        take_next(own, j as int);
                        assert((before + own.take(j + 1)).drop_last() =~= before + own.take(j as int));
                        assert((before + own.take(j + 1)).last() == own[j as int]);
                    }
                    match &record.message.blocks[j] {
                        Block::ToolUse { id, .. } => {
                            put(&mut uses, id.clone());
                        },
                        Block::ToolResult { tool_use_id, .. } => {
                            put(&mut results, tool_use_id.clone());
                        },
                        _ => {},
                    }
                    j = j + 1;
                }
                proof {
                    take_all(own);
                }
            },
            _ => {
                assert(before + Seq::<BlockView>::empty() =~= before);
            },
        }
        i = i + 1;
    }
    proof {
        take_all(all);
    }
    let mut k: usize = 0;
    while k < uses.len()
        invariant
            k <= uses@.len(),
            all == payloads.deep_view(),
            blocks == batch_blocks(all),
            uses.deep_view() == use_ids(blocks),
            results.deep_view() == result_ids(blocks),
            forall|j: int| 0 <= j < k ==> id_paired(blocks, #[trigger] uses.deep_view()[j]),
        decreases uses@.len() - k,
    {
        let id = &uses[k];
        proof {
            assert(uses.deep_view()[k as int] == id@);
            assert(use_ids(blocks).contains(id@));
        }
        if times_of(&uses, id.as_str()) != 1 || times_of(&results, id.as_str()) != 1 {
            assert(!id_paired(blocks, id@));
            let mut text = concat2("事务中的 ToolUse ", id.as_str());
            text.push_str(" 必须恰好配对一个 ToolResult");
            return Err(text);
        }
        assert(id_paired(blocks, id@));
        k = k + 1;
    }
    assert forall|id: Seq<char>| use_ids(blocks).contains(id) implies #[trigger] id_paired(
        blocks,
        id,
    ) by {
        let j = choose|j: int| 0 <= j < uses.deep_view().len() && uses.deep_view()[j] == id;
        assert(id_paired(blocks, uses.deep_view()[j]));
    }
    let mut l: usize = 0;
    while l < results.len()
        invariant
            l <= results@.len(),
            all == payloads.deep_view(),
            blocks == batch_blocks(all),
            uses.deep_view() == use_ids(blocks),
            results.deep_view() == result_ids(blocks),
            forall|j: int| 0 <= j < l ==> use_ids(blocks).contains(#[trigger] results.deep_view()[j]),
            forall|id: Seq<char>| use_ids(blocks).contains(id) ==> #[trigger] id_paired(blocks, id),
        decreases results@.len() - l,
    {
        let id = &results[l];
        proof {
            assert(results.deep_view()[l as int] == id@);
            assert(result_ids(blocks).contains(id@));
        }
        if !holds(&uses, id.as_str()) {
            return Err(concat2("事务含有孤立 ToolResult ", id.as_str()));
        }
        l = l + 1;
    }
    Ok(())
}

// ---- Artifacts ----

/// Whether a text has the hyphenated form of a UUID: 36 characters, hyphens at four places and small
/// hexadecimal digits at the others.
pub open spec fn uuid_form(id: Seq<char>) -> bool {
    id.len() == 36 && forall|i: int|
        0 <= i < 36 ==> if i == 8 || i == 13 || i == 18 || i == 23 {
            (#[trigger] id[i]) == '-'
        } else {
            '0' <= id[i] <= '9' || 'a' <= id[i] <= 'f'
        }
}

/// `uuid::Uuid::new_v4().to_string()`: a fresh random id in its hyphenated form. That no two are the
/// same is left to chance.
#[verifier::external_body]
pub(crate) fn fresh_id() -> (id: String)
    ensures
        uuid_form(id@),
{
    uuid::Uuid::new_v4().to_string()
}

impl ArtifactDraft {
    /// A text artifact under a given id.
    pub fn text_with_id(id: String, text: String) -> (a: ArtifactDraft)
        ensures
            a.reference.id == id,
            a.reference.media_type@ == "text/plain; charset=utf-8"@,
            a.bytes@ == vstd::utf8::encode_utf8(text@),
            a.reference.byte_len == a.bytes@.len(),
    {
        let bytes = text.as_str().as_bytes_vec();
        ArtifactDraft {
            reference: ArtifactRef {
                id,
                media_type: "text/plain; charset=utf-8".to_owned(),
                byte_len: bytes.len(),
            },
            bytes,
        }
    }

    /// A text artifact under a fresh id.
    pub fn text(text: String) -> (a: ArtifactDraft)
        ensures
            a.reference.id@.len() == 36,
            a.reference.media_type@ == "text/plain; charset=utf-8"@,
            a.bytes@ == vstd::utf8::encode_utf8(text@),
            a.reference.byte_len == a.bytes@.len(),
    {
        ArtifactDraft::text_with_id(fresh_id(), text)
    }
}

// ---- Laws ----

/// The blocks answer each of `ids` exactly once, and nothing else.
pub open spec fn answers_exactly(blocks: Seq<BlockView>, ids: Seq<Seq<char>>) -> bool {
    &&& result_ids(blocks).no_duplicates()
    &&& forall|id: Seq<char>| #[trigger] result_ids(blocks).contains(id) <==> ids.contains(id)
}

/// Every tool call is answered by the user message right behind it, and no user message answers
/// anything else. `open` are the calls that wait for the first message.
pub open spec fn all_answered(messages: Seq<MessageView>, open: Seq<Seq<char>>) -> bool
    decreases messages.len(),
{
    if messages.len() == 0 {
        open.len() == 0
    } else {
        let m = messages[0];
        match m.role {
            Role::User => answers_exactly(m.blocks, open) && all_answered(
                messages.drop_first(),
                seq![],
            ),
            Role::Assistant => open.len() == 0 && all_answered(
                messages.drop_first(),
                ids_of(calls_of(m.blocks)),
            ),
        }
    }
}

proof fn result_ids_joined(a: Seq<BlockView>, b: Seq<BlockView>)
    ensures
        result_ids(a + b) == result_ids(a) + result_ids(b),
    decreases b.len(),
{
    if b.len() == 0 {
        assert(a + b =~= a);
        assert(result_ids(a) + result_ids(b) =~= result_ids(a));
    } else {
        result_ids_joined(a, b.drop_last());
        assert((a + b).drop_last() =~= a + b.drop_last());
        assert((a + b).last() == b.last());
        assert(result_ids(a + b) =~= result_ids(a) + result_ids(b));
    }
}

/// A list with one more element holds the element and what it held before.
proof fn push_holds<A>(s: Seq<A>, x: A)
    ensures
        forall|y: A| #[trigger] s.push(x).contains(y) <==> s.contains(y) || y == x,
        s.no_duplicates() && !s.contains(x) ==> s.push(x).no_duplicates(),
{
    assert forall|y: A| s.contains(y) || y == x implies #[trigger] s.push(x).contains(y) by {
        if y == x {
            assert(s.push(x)[s.len() as int] == y);
        } else {
            let k = choose|k: int| 0 <= k < s.len() && s[k] == y;
            assert(s.push(x)[k] == y);
        }
    }
    assert forall|y: A| #[trigger] s.push(x).contains(y) implies s.contains(y) || y == x by {
        let k = choose|k: int| 0 <= k < s.len() + 1 && s.push(x)[k] == y;
        if k < s.len() {
            assert(s[k] == y);
        }
    }
}

proof fn calls_are_distinct(blocks: Seq<BlockView>)
    ensures
        ids_of(calls_of(blocks)).no_duplicates(),
    decreases blocks.len(),
{
    if blocks.len() > 0 {
        let before = calls_of(blocks.drop_last());
        calls_are_distinct(blocks.drop_last());
        if let BlockView::ToolUse { id, name, .. } = blocks.last() {
            if ids_of(before).contains(id) {
                assert(ids_of(calls_of(blocks)) =~= ids_of(before));
            } else {
                assert(ids_of(calls_of(blocks)) =~= ids_of(before).push(id));
                push_holds(ids_of(before), id);
            }
        }
    }
}

proof fn kept_answers(blocks: Seq<BlockView>, ids: Seq<Seq<char>>)
    ensures
        result_ids(kept(blocks, ids)).no_duplicates(),
        forall|id: Seq<char>| #[trigger]
            result_ids(kept(blocks, ids)).contains(id) <==> ids.contains(id) && result_ids(
                blocks,
            ).contains(id),
    decreases blocks.len(),
{
    if blocks.len() > 0 {
        let before = blocks.drop_last();
        kept_answers(before, ids);
        let last = blocks.last();
        let was = kept(before, ids);
        assert(was.push(last).drop_last() =~= was);
        if let BlockView::ToolResult { tool_use_id, .. } = last {
            push_holds(result_ids(before), tool_use_id);
            push_holds(result_ids(was), tool_use_id);
        }
    }
}

proof fn missing_answers(ids: Seq<Seq<char>>, present: Seq<Seq<char>>)
    requires
        ids.no_duplicates(),
    ensures
        result_ids(missing(ids, present)).no_duplicates(),
        forall|id: Seq<char>| #[trigger]
            result_ids(missing(ids, present)).contains(id) <==> ids.contains(id)
                && !present.contains(id),
    decreases ids.len(),
{
    if ids.len() > 0 {
        let before = ids.drop_last();
        missing_answers(before, present);
        push_holds(before, ids.last());
        assert(ids =~= before.push(ids.last()));
        assert(!before.contains(ids.last()));
        let was = missing(before, present);
        assert(was.push(missing_result(ids.last())).drop_last() =~= was);
        push_holds(result_ids(was), ids.last());
    }
}

proof fn answer_is_exact(message: MessageView, open: Seq<Seq<char>>)
    requires
        open.no_duplicates(),
    ensures
        answers_exactly(answered(message, open).blocks, open),
{
    let present = result_ids(message.blocks);
    let a = kept(message.blocks, open);
    let b = missing(open, present);
    kept_answers(message.blocks, open);
    missing_answers(open, present);
    result_ids_joined(a, b);
    let ra = result_ids(a);
    let rb = result_ids(b);
    assert forall|id: Seq<char>| #[trigger] (ra + rb).contains(id) <==> open.contains(id) by {
        if (ra + rb).contains(id) {
            let k = choose|k: int| 0 <= k < (ra + rb).len() && (ra + rb)[k] == id;
            if k < ra.len() {
                assert(ra.contains(id));
            } else {
                assert(rb[k - ra.len()] == id);
                assert(rb.contains(id));
            }
        }
        if open.contains(id) {
            if present.contains(id) {
                assert(ra.contains(id));
                let k = choose|k: int| 0 <= k < ra.len() && ra[k] == id;
                assert((ra + rb)[k] == id);
            } else {
                assert(rb.contains(id));
                let k = choose|k: int| 0 <= k < rb.len() && rb[k] == id;
                assert((ra + rb)[ra.len() + k] == id);
            }
        }
    }
    assert((ra + rb).no_duplicates()) by {
        assert forall|i: int, j: int|
            0 <= i < (ra + rb).len() && 0 <= j < (ra + rb).len() && i != j implies (ra + rb)[i] != (
        ra + rb)[j] by {
            if i < ra.len() && j >= ra.len() {
                assert(ra.contains(ra[i]));
                assert(rb.contains(rb[j - ra.len()]));
            }
            if j < ra.len() && i >= ra.len() {
                assert(ra.contains(ra[j]));
                assert(rb.contains(rb[i - ra.len()]));
            }
        }
    }
}

proof fn stand_in_is_exact(open: Seq<Seq<char>>)
    requires
        open.no_duplicates(),
    ensures
        answers_exactly(stand_in(open).blocks, open),
{
    sorted_texts_keeps(open);
    missing_answers(sorted_texts(open), seq![]);
}

/// What the model is shown always pairs: every tool call is answered once, right behind it, and
/// nothing else is answered, whatever the log holds.
pub proof fn law_projection_pairs(messages: Seq<MessageView>, open: Seq<Seq<char>>)
    requires
        open.no_duplicates(),
    ensures
        all_answered(repaired(messages, open), open),
    decreases messages.len(),
{
    let out = repaired(messages, open);
    if messages.len() == 0 {
        if open.len() > 0 {
            stand_in_is_exact(open);
            assert(out.drop_first() =~= seq![]);
            assert(all_answered(out.drop_first(), seq![]));
        }
    } else {
        let m = messages[0];
        match m.role {
            Role::User => {
                answer_is_exact(m, open);
                law_projection_pairs(messages.drop_first(), seq![]);
                assert(out.drop_first() =~= repaired(messages.drop_first(), seq![]));
            },
            Role::Assistant => {
                let ids = ids_of(calls_of(m.blocks));
                let rest = repaired(messages.drop_first(), ids);
                calls_are_distinct(m.blocks);
                law_projection_pairs(messages.drop_first(), ids);
                if open.len() > 0 {
                    stand_in_is_exact(open);
                    assert(out.drop_first() =~= seq![m] + rest);
                    assert((seq![m] + rest).drop_first() =~= rest);
                    assert((seq![m] + rest)[0] == m);
                    assert(all_answered(seq![m] + rest, seq![]));
                } else {
                    assert(out.drop_first() =~= rest);
                }
            },
        }
    }
}

proof fn exact_answer_is_kept(blocks: Seq<BlockView>, ids: Seq<Seq<char>>)
    requires
        result_ids(blocks).no_duplicates(),
        forall|id: Seq<char>| #[trigger] result_ids(blocks).contains(id) ==> ids.contains(id),
    ensures
        kept(blocks, ids) == blocks,
    decreases blocks.len(),
{
    if blocks.len() > 0 {
        let before = blocks.drop_last();
        if let BlockView::ToolResult { tool_use_id, .. } = blocks.last() {
            push_holds(result_ids(before), tool_use_id);
            let now = result_ids(blocks);
            assert(now.drop_last() =~= result_ids(before));
            assert forall|i: int, j: int|
                0 <= i < result_ids(before).len() && 0 <= j < result_ids(before).len() && i
                    != j implies result_ids(before)[i] != result_ids(before)[j] by {
                assert(now[i] != now[j]);
            }
            if result_ids(before).contains(tool_use_id) {
                let k = choose|k: int|
                    0 <= k < result_ids(before).len() && result_ids(before)[k] == tool_use_id;
                assert(now[k] == now[now.len() - 1]);
            }
            assert(now.contains(tool_use_id));
            assert forall|id: Seq<char>| #[trigger] result_ids(before).contains(id) implies ids.contains(
                id,
            ) by {
                assert(now.contains(id));
            }
        }
        exact_answer_is_kept(before, ids);
        assert(before.push(blocks.last()) =~= blocks);
    }
}

proof fn nothing_missing(ids: Seq<Seq<char>>, present: Seq<Seq<char>>)
    requires
        forall|id: Seq<char>| ids.contains(id) ==> #[trigger] present.contains(id),
    ensures
        missing(ids, present) == Seq::<BlockView>::empty(),
    decreases ids.len(),
{
    if ids.len() > 0 {
        assert(ids.contains(ids.last()));
        assert forall|id: Seq<char>| ids.drop_last().contains(id) implies #[trigger] present.contains(
            id,
        ) by {
            let k = choose|k: int| 0 <= k < ids.len() - 1 && ids.drop_last()[k] == id;
            assert(ids[k] == id);
        }
        nothing_missing(ids.drop_last(), present);
    }
}

/// Repairing changes nothing in messages that already pair.
pub proof fn law_sound_history_is_left_alone(messages: Seq<MessageView>, open: Seq<Seq<char>>)
    requires
        all_answered(messages, open),
    ensures
        repaired(messages, open) == messages,
    decreases messages.len(),
{
    if messages.len() == 0 {
        assert(messages =~= seq![]);
    } else {
        let m = messages[0];
        match m.role {
            Role::User => {
                law_sound_history_is_left_alone(messages.drop_first(), seq![]);
                exact_answer_is_kept(m.blocks, open);
                nothing_missing(open, result_ids(m.blocks));
                assert(answered(m, open).blocks =~= m.blocks);
                assert(answered(m, open) == m);
            },
            Role::Assistant => {
                law_sound_history_is_left_alone(
                    messages.drop_first(),
                    ids_of(calls_of(m.blocks)),
                );
            },
        }
        assert(seq![m] + messages.drop_first() =~= messages);
    }
}

/// Facts that are for people only leave the model's view and the token baseline as they were.
pub proof fn law_ui_facts_do_not_reach_the_model(log: Seq<PayloadView>, fact: PayloadView)
    requires
        model_form(fact) is None,
    ensures
        spoken(since_compaction(log.push(fact))) == spoken(since_compaction(log)),
        baseline(since_compaction(log.push(fact))) == baseline(since_compaction(log)),
        tail_cost(since_compaction(log.push(fact))) == tail_cost(since_compaction(log)),
{
    let now = since_compaction(log.push(fact));
    assert(log.push(fact).drop_last() =~= log);
    assert(now.drop_last() =~= since_compaction(log));
}

/// A compaction replaces the model's view by the summary, whatever was said before; the log only
/// grows by it.
pub proof fn law_compaction_replaces_the_view(
    log: Seq<PayloadView>,
    summary: Seq<char>,
    tokens_before: u64,
)
    ensures
        ({
            let next = log.push(PayloadView::Compaction { summary, tokens_before });
            &&& spoken(since_compaction(next)) == seq![
                user_message("[Earlier conversation summary]\n"@ + summary),
            ]
            &&& baseline(since_compaction(next)) is None
            &&& next.drop_last() == log
        }),
{
    let fact = PayloadView::Compaction { summary, tokens_before };
    let next = log.push(fact);
    assert(next.drop_last() =~= log);
    assert(since_compaction(next) == seq![fact]);
    assert(seq![fact].drop_last() =~= seq![]);
    assert(seq![fact].last() == fact);
    assert(spoken(seq![fact].drop_last()) == Seq::<MessageView>::empty());
    assert(baseline(seq![fact].drop_last()) is None);
    assert(spoken(seq![fact]) =~= seq![user_message("[Earlier conversation summary]\n"@ + summary)]);
}

/// The facts among some that become messages for the model.
pub open spec fn heard(payloads: Seq<PayloadView>) -> Seq<PayloadView>
    decreases payloads.len(),
{
    if payloads.len() == 0 {
        seq![]
    } else if model_form(payloads.last()) is Some {
        heard(payloads.drop_last()).push(payloads.last())
    } else {
        heard(payloads.drop_last())
    }
}

proof fn hearing_keeps_the_view(payloads: Seq<PayloadView>)
    ensures
        spoken(heard(payloads)) == spoken(payloads),
        baseline(heard(payloads)) == baseline(payloads),
        tail_cost(heard(payloads)) == tail_cost(payloads),
    decreases payloads.len(),
{
    if payloads.len() > 0 {
        hearing_keeps_the_view(payloads.drop_last());
        if model_form(payloads.last()) is Some {
            assert(heard(payloads).drop_last() =~= heard(payloads.drop_last()));
        }
    }
}

proof fn heard_since_compaction(log: Seq<PayloadView>)
    ensures
        since_compaction(heard(since_compaction(log))) == heard(since_compaction(log)),
    decreases log.len(),
{
    if log.len() > 0 {
        let before = since_compaction(log.drop_last());
        let current = since_compaction(log);
        if log.last() is Compaction {
            assert(current.drop_last() =~= seq![]);
            assert(current.last() == log.last());
            assert(heard(current.drop_last()) =~= seq![]);
            assert(heard(current) =~= seq![log.last()]);
        } else {
            heard_since_compaction(log.drop_last());
            assert(current.drop_last() =~= before);
            if model_form(log.last()) is Some {
                assert(heard(current).drop_last() =~= heard(before));
            }
        }
    }
}

/// Wherever they stand in the log, facts that are for people only, and all facts before the last
/// compaction, make no difference to what the model is shown and to the token count it starts from.
pub proof fn law_only_current_messages_reach_the_model(log: Seq<PayloadView>)
    ensures
        ({
            let current = since_compaction(log);
            let shown = since_compaction(heard(current));
            &&& spoken(shown) == spoken(current)
            &&& repaired(spoken(shown), seq![]) == repaired(spoken(current), seq![])
            &&& baseline(shown) == baseline(current)
            &&& tail_cost(shown) == tail_cost(current)
        }),
{
    heard_since_compaction(log);
    hearing_keeps_the_view(since_compaction(log));
}

/// Whether repairing leaves a block of a message alone: only results in user messages are touched.
pub open spec fn untouched(role: Role, block: BlockView) -> bool {
    role == Role::Assistant || !(block is ToolResult)
}

/// The blocks of a message that repairing leaves alone, each with who said it.
pub open spec fn words_of(role: Role, blocks: Seq<BlockView>) -> Seq<(Role, BlockView)>
    decreases blocks.len(),
{
    if blocks.len() == 0 {
        seq![]
    } else if untouched(role, blocks.last()) {
        words_of(role, blocks.drop_last()).push((role, blocks.last()))
    } else {
        words_of(role, blocks.drop_last())
    }
}

/// The blocks of some messages that repairing leaves alone, in order.
pub open spec fn words(messages: Seq<MessageView>) -> Seq<(Role, BlockView)>
    decreases messages.len(),
{
    if messages.len() == 0 {
        seq![]
    } else {
        words_of(messages[0].role, messages[0].blocks) + words(messages.drop_first())
    }
}

/// Whether a block stands in one of some messages.
pub open spec fn stands_in(messages: Seq<MessageView>, block: BlockView) -> bool {
    exists|i: int| 0 <= i < messages.len() && (#[trigger] messages[i]).blocks.contains(block)
}

/// Whether every result in a message was given before, or is a made-up one, which is an error.
pub open spec fn results_are_known(given: Seq<MessageView>, message: MessageView) -> bool {
    forall|j: int|
        0 <= j < message.blocks.len() && (#[trigger] message.blocks[j]) is ToolResult ==> stands_in(
            given,
            message.blocks[j],
        ) || (message.blocks[j]->is_error && message.blocks[j] == missing_result(
            message.blocks[j]->tool_use_id,
        ))
}

proof fn made_up_are_errors(ids: Seq<Seq<char>>, present: Seq<Seq<char>>)
    ensures
        words_of(Role::User, missing(ids, present)) == Seq::<(Role, BlockView)>::empty(),
        forall|j: int|
            0 <= j < missing(ids, present).len() ==> (#[trigger] missing(ids, present)[j])
                == missing_result(missing(ids, present)[j]->tool_use_id),
    decreases ids.len(),
{
    if ids.len() > 0 {
        made_up_are_errors(ids.drop_last(), present);
        let m = missing(ids, present);
        if !present.contains(ids.last()) {
            assert(m.drop_last() =~= missing(ids.drop_last(), present));
            assert forall|j: int| 0 <= j < m.len() implies (#[trigger] m[j]) == missing_result(
                m[j]->tool_use_id,
            ) by {
                if j < m.len() - 1 {
                    assert(m[j] == missing(ids.drop_last(), present)[j]);
                }
            }
        }
    }
}

proof fn kept_words(blocks: Seq<BlockView>, ids: Seq<Seq<char>>)
    ensures
        words_of(Role::User, kept(blocks, ids)) == words_of(Role::User, blocks),
        forall|j: int|
            0 <= j < kept(blocks, ids).len() ==> blocks.contains(#[trigger] kept(blocks, ids)[j]),
    decreases blocks.len(),
{
    if blocks.len() > 0 {
        let before = blocks.drop_last();
        kept_words(before, ids);
        let k = kept(blocks, ids);
        if k != kept(before, ids) {
            assert(k.drop_last() =~= kept(before, ids));
        }
        assert forall|j: int| 0 <= j < k.len() implies blocks.contains(#[trigger] k[j]) by {
            if j < kept(before, ids).len() {
                assert(k[j] == kept(before, ids)[j]);
                let i = choose|i: int| 0 <= i < before.len() && before[i] == k[j];
                assert(blocks[i] == k[j]);
            } else {
                assert(blocks[blocks.len() - 1] == k[j]);
            }
        }
    }
}

proof fn words_joined(role: Role, a: Seq<BlockView>, b: Seq<BlockView>)
    ensures
        words_of(role, a + b) == words_of(role, a) + words_of(role, b),
    decreases b.len(),
{
    if b.len() > 0 {
        words_joined(role, a, b.drop_last());
        assert((a + b).drop_last() =~= a + b.drop_last());
    } else {
        assert(a + b =~= a);
    }
    assert(words_of(role, a + b) =~= words_of(role, a) + words_of(role, b));
}

proof fn words_of_first(first: MessageView, rest: Seq<MessageView>)
    ensures
        words(seq![first] + rest) == words_of(first.role, first.blocks) + words(rest),
{
    assert((seq![first] + rest).drop_first() =~= rest);
}

proof fn made_up_message(open: Seq<Seq<char>>, given: Seq<MessageView>)
    ensures
        words_of(Role::User, stand_in(open).blocks) == Seq::<(Role, BlockView)>::empty(),
        results_are_known(given, stand_in(open)),
{
    made_up_are_errors(sorted_texts(open), seq![]);
}

proof fn repairing_keeps(messages: Seq<MessageView>, open: Seq<Seq<char>>, given: Seq<MessageView>)
    requires
        forall|i: int| 0 <= i < messages.len() ==> given.contains(#[trigger] messages[i]),
    ensures
        words(repaired(messages, open)) == words(messages),
        forall|i: int|
            0 <= i < repaired(messages, open).len() ==> results_are_known(
                given,
                #[trigger] repaired(messages, open)[i],
            ),
    decreases messages.len(),
{
    let out = repaired(messages, open);
    made_up_message(open, given);
    if messages.len() == 0 {
        if open.len() > 0 {
            words_of_first(stand_in(open), seq![]);
            assert(out =~= seq![stand_in(open)] + Seq::<MessageView>::empty());
            assert(words(out) =~= words(messages));
        }
    } else {
        let m = messages[0];
        let tail = messages.drop_first();
        assert forall|i: int| 0 <= i < tail.len() implies given.contains(#[trigger] tail[i]) by {
            assert(tail[i] == messages[i + 1]);
        }
        assert(given.contains(m));
        let at = choose|at: int| 0 <= at < given.len() && given[at] == m;
        match m.role {
            Role::User => {
                repairing_keeps(tail, seq![], given);
                let rest = repaired(tail, seq![]);
                let a = answered(m, open);
                kept_words(m.blocks, open);
                made_up_are_errors(open, result_ids(m.blocks));
                words_joined(
                    Role::User,
                    kept(m.blocks, open),
                    missing(open, result_ids(m.blocks)),
                );
                words_of_first(a, rest);
                assert(words(out) =~= words(messages));
                assert(results_are_known(given, a)) by {
                    let k = kept(m.blocks, open);
                    assert forall|j: int|
                        0 <= j < a.blocks.len() && (#[trigger] a.blocks[j])
                            is ToolResult implies stands_in(given, a.blocks[j]) || (
                    a.blocks[j]->is_error && a.blocks[j] == missing_result(
                        a.blocks[j]->tool_use_id,
                    )) by {
                        if j < k.len() {
                            assert(m.blocks.contains(k[j]));
                            assert(given[at].blocks.contains(a.blocks[j]));
                        } else {
                            assert(a.blocks[j] == missing(open, result_ids(m.blocks))[j - k.len()]);
                        }
                    }
                }
                assert forall|i: int| 0 <= i < out.len() implies results_are_known(
                    given,
                    #[trigger] out[i],
                ) by {
                    if i > 0 {
                        assert(out[i] == rest[i - 1]);
                    }
                }
            },
            Role::Assistant => {
                let ids = ids_of(calls_of(m.blocks));
                repairing_keeps(tail, ids, given);
                let rest = repaired(tail, ids);
                words_of_first(m, rest);
                let told = seq![m] + rest;
                assert(results_are_known(given, m)) by {
                    assert forall|j: int|
                        0 <= j < m.blocks.len() && (#[trigger] m.blocks[j])
                            is ToolResult implies stands_in(given, m.blocks[j]) || (
                    m.blocks[j]->is_error && m.blocks[j] == missing_result(
                        m.blocks[j]->tool_use_id,
                    )) by {
                        assert(given[at].blocks.contains(m.blocks[j]));
                    }
                }
                assert forall|i: int| 0 <= i < told.len() implies results_are_known(
                    given,
                    #[trigger] told[i],
                ) by {
                    if i > 0 {
                        assert(told[i] == rest[i - 1]);
                    }
                }
                if open.len() > 0 {
                    assert(out =~= seq![stand_in(open)] + told);
                    words_of_first(stand_in(open), told);
                    assert forall|i: int| 0 <= i < out.len() implies results_are_known(
                        given,
                        #[trigger] out[i],
                    ) by {
                        if i > 0 {
                            assert(out[i] == told[i - 1]);
                        }
                    }
                } else {
                    assert(out =~= told);
                }
                assert(words(out) =~= words(messages));
            },
        }
    }
}

/// Repairing touches nothing but the results in user messages: all other blocks stay, in order and
/// with who said them. A result that was not there before is an error.
pub proof fn law_repairing_keeps_all_else(messages: Seq<MessageView>)
    ensures
        words(repaired(messages, seq![])) == words(messages),
        forall|i: int|
            0 <= i < repaired(messages, seq![]).len() ==> results_are_known(
                messages,
                #[trigger] repaired(messages, seq![])[i],
            ),
{
    repairing_keeps(messages, seq![], messages);
}

/// Repairing what was repaired changes nothing.
pub proof fn law_one_repair_is_enough(messages: Seq<MessageView>)
    ensures
        repaired(repaired(messages, seq![]), seq![]) == repaired(messages, seq![]),
{
    law_projection_pairs(messages, seq![]);
    law_sound_history_is_left_alone(repaired(messages, seq![]), seq![]);
}

} // verus!
