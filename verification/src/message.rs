//! The one message model that every part of the agent shares.
//!
//! A message is a role and a list of blocks. Adapters turn it into the request formats of the
//! model services and back; nothing else knows those formats.
use vstd::prelude::*;

use crate::json::{Json, JsonView};
use crate::list::{empty, one, put};

verus! {

/// Who speaks. Tool results are blocks of a user message.
#[derive(Debug, Clone, Copy, PartialEq, Eq, Structural)]
pub enum Role {
    User,
    Assistant,
}

/// A role and its content blocks.
#[derive(Debug)]
pub struct ChatMessage {
    pub role: Role,
    pub blocks: Vec<Block>,
}

/// One block of a message.
#[derive(Debug)]
pub enum Block {
    /// Plain text.
    Text(String),
    /// Reasoning. `provider_kind` and `raw` keep what a service needs to get back unchanged.
    Thinking { text: String, provider_kind: Option<String>, raw: Option<Json> },
    /// A tool call of the model. Arguments that are not JSON are kept as a JSON string.
    ToolUse { id: String, name: String, input: Json },
    /// The answer to the tool call `tool_use_id`.
    ToolResult { tool_use_id: String, content: String, is_error: bool },
}

/// What a [`Block`] denotes.
#[verifier::ext_equal]
pub enum BlockView {
    Text(Seq<char>),
    Thinking { text: Seq<char>, provider_kind: Option<Seq<char>>, raw: Option<JsonView> },
    ToolUse { id: Seq<char>, name: Seq<char>, input: JsonView },
    ToolResult { tool_use_id: Seq<char>, content: Seq<char>, is_error: bool },
}

/// What a [`ChatMessage`] denotes.
#[verifier::ext_equal]
pub struct MessageView {
    pub role: Role,
    pub blocks: Seq<BlockView>,
}

impl DeepView for Role {
    type V = Role;

    open spec fn deep_view(&self) -> Role {
        *self
    }
}

impl DeepView for Block {
    type V = BlockView;

    open spec fn deep_view(&self) -> BlockView {
        match *self {
            Block::Text(text) => BlockView::Text(text@),
            Block::Thinking { text, provider_kind, raw } => BlockView::Thinking {
                text: text@,
                provider_kind: provider_kind.deep_view(),
                raw: raw.deep_view(),
            },
            Block::ToolUse { id, name, input } => BlockView::ToolUse {
                id: id@,
                name: name@,
                input: input@,
            },
            Block::ToolResult { tool_use_id, content, is_error } => BlockView::ToolResult {
                tool_use_id: tool_use_id@,
                content: content@,
                is_error,
            },
        }
    }
}

impl DeepView for ChatMessage {
    type V = MessageView;

    open spec fn deep_view(&self) -> MessageView {
        MessageView { role: self.role, blocks: self.blocks.deep_view() }
    }
}

/// A copy of an optional text.
pub fn copy_opt_text(text: &Option<String>) -> (r: Option<String>)
    ensures
        r.deep_view() == text.deep_view(),
{
    match text {
        Some(t) => Some(t.clone()),
        None => None,
    }
}

/// A copy of an optional JSON value.
pub fn copy_opt_json(value: &Option<Json>) -> (r: Option<Json>)
    ensures
        r.deep_view() == value.deep_view(),
{
    match value {
        Some(v) => Some(v.clone()),
        None => None,
    }
}

impl Clone for Block {
    fn clone(&self) -> (r: Block)
        ensures
            r.deep_view() == self.deep_view(),
    {
        match self {
            Block::Text(text) => Block::Text(text.clone()),
            Block::Thinking { text, provider_kind, raw } => Block::Thinking {
                text: text.clone(),
                provider_kind: copy_opt_text(provider_kind),
                raw: copy_opt_json(raw),
            },
            Block::ToolUse { id, name, input } => Block::ToolUse {
                id: id.clone(),
                name: name.clone(),
                input: input.clone(),
            },
            Block::ToolResult { tool_use_id, content, is_error } => Block::ToolResult {
                tool_use_id: tool_use_id.clone(),
                content: content.clone(),
                is_error: *is_error,
            },
        }
    }
}

impl Clone for ChatMessage {
    fn clone(&self) -> (r: ChatMessage)
        ensures
            r.deep_view() == self.deep_view(),
    {
        let mut blocks: Vec<Block> = empty();
        let mut i: usize = 0;
        while i < self.blocks.len()
            invariant
                i <= self.blocks@.len(),
                blocks.deep_view() == self.blocks.deep_view().take(i as int),
            decreases self.blocks@.len() - i,
        {
            put(&mut blocks, self.blocks[i].clone());
            i = i + 1;
        }
        assert(self.blocks.deep_view().take(i as int) =~= self.blocks.deep_view());
        ChatMessage { role: self.role, blocks }
    }
}

/// A copy of a list of messages.
pub fn copy_messages(messages: &Vec<ChatMessage>) -> (out: Vec<ChatMessage>)
    ensures
        out.deep_view() == messages.deep_view(),
{
    let mut out: Vec<ChatMessage> = empty();
    let mut i: usize = 0;
    while i < messages.len()
        invariant
            i <= messages@.len(),
            out.deep_view() == messages.deep_view().take(i as int),
        decreases messages@.len() - i,
    {
        put(&mut out, messages[i].clone());
        i = i + 1;
    }
    assert(messages.deep_view().take(i as int) =~= messages.deep_view());
    out
}

/// The user message with one text block.
pub open spec fn user_message(text: Seq<char>) -> MessageView {
    MessageView { role: Role::User, blocks: seq![BlockView::Text(text)] }
}

/// The tool calls among some blocks, in order.
pub open spec fn uses_of(blocks: Seq<BlockView>) -> Seq<(Seq<char>, Seq<char>, JsonView)>
    decreases blocks.len(),
{
    if blocks.len() == 0 {
        seq![]
    } else {
        let before = uses_of(blocks.drop_last());
        match blocks.last() {
            BlockView::ToolUse { id, name, input } => before.push((id, name, input)),
            _ => before,
        }
    }
}

/// The text blocks joined, in order.
pub open spec fn text_of(blocks: Seq<BlockView>) -> Seq<char>
    decreases blocks.len(),
{
    if blocks.len() == 0 {
        seq![]
    } else {
        let before = text_of(blocks.drop_last());
        match blocks.last() {
            BlockView::Text(text) => before + text,
            _ => before,
        }
    }
}

impl ChatMessage {
    pub fn user_text(text: String) -> (m: ChatMessage)
        ensures
            m.deep_view() == user_message(text@),
    {
        ChatMessage { role: Role::User, blocks: one(Block::Text(text)) }
    }

    /// An assistant message without any block.
    pub fn empty_assistant() -> (m: ChatMessage)
        ensures
            m.deep_view() == (MessageView { role: Role::Assistant, blocks: seq![] }),
    {
        ChatMessage { role: Role::Assistant, blocks: empty() }
    }

    /// The tool calls of the message; the agent loop goes on while there are any.
    pub fn tool_uses(&self) -> (out: Vec<(&str, &str, &Json)>)
        ensures
            out.deep_view() == uses_of(self.deep_view().blocks),
    {
        let mut out: Vec<(&str, &str, &Json)> = empty();
        let ghost all = self.blocks.deep_view();
        let mut i: usize = 0;
        while i < self.blocks.len()
            invariant
                i <= self.blocks@.len(),
                all == self.blocks.deep_view(),
                out.deep_view() == uses_of(all.take(i as int)),
            decreases self.blocks@.len() - i,
        {
            assert(all.take(i + 1).drop_last() =~= all.take(i as int));
            assert(all.take(i + 1).last() == self.blocks@[i as int].deep_view());
            match &self.blocks[i] {
                Block::ToolUse { id, name, input } => {
                    put(&mut out, (id.as_str(), name.as_str(), input));
                },
                _ => {},
            }
            i = i + 1;
        }
        assert(all.take(i as int) =~= all);
        out
    }

    /// The plain text of the message.
    pub fn text(&self) -> (out: String)
        ensures
            out@ == text_of(self.deep_view().blocks),
    {
        let mut out = String::new();
        let ghost all = self.blocks.deep_view();
        let mut i: usize = 0;
        while i < self.blocks.len()
            invariant
                i <= self.blocks@.len(),
                all == self.blocks.deep_view(),
                out@ == text_of(all.take(i as int)),
            decreases self.blocks@.len() - i,
        {
            assert(all.take(i + 1).drop_last() =~= all.take(i as int));
            assert(all.take(i + 1).last() == self.blocks@[i as int].deep_view());
            match &self.blocks[i] {
                Block::Text(text) => {
                    out.push_str(text.as_str());
                },
                _ => {},
            }
            i = i + 1;
        }
        assert(all.take(i as int) =~= all);
        out
    }
}

/// Prompt-cache traffic of model calls.
#[derive(Debug, Clone, Copy, PartialEq, Eq, Structural)]
pub struct CacheUsage {
    pub read_tokens: u64,
    pub write_tokens: u64,
}

/// Token counts, added up over the calls of a session.
#[derive(Debug, Clone, Copy, PartialEq, Eq)]
pub struct Usage {
    pub input_tokens: u64,
    pub output_tokens: u64,
    pub cache: Option<CacheUsage>,
}

impl Default for Usage {
    fn default() -> (u: Usage)
        ensures
            u == (Usage { input_tokens: 0, output_tokens: 0, cache: None }),
    {
        Usage { input_tokens: 0, output_tokens: 0, cache: None }
    }
}

impl Usage {
    /// The sum of two counts; the cache part is known as soon as one of them knows it.
    pub open spec fn plus(self, other: Usage) -> Usage {
        Usage {
            input_tokens: (self.input_tokens + other.input_tokens) as u64,
            output_tokens: (self.output_tokens + other.output_tokens) as u64,
            cache: match (self.cache, other.cache) {
                (None, c) => c,
                (c, None) => c,
                (Some(a), Some(b)) => Some(
                    CacheUsage {
                        read_tokens: (a.read_tokens + b.read_tokens) as u64,
                        write_tokens: (a.write_tokens + b.write_tokens) as u64,
                    },
                ),
            },
        }
    }

    /// No counter leaves its range when `other` is added.
    pub open spec fn fits(self, other: Usage) -> bool {
        &&& self.input_tokens + other.input_tokens <= u64::MAX
        &&& self.output_tokens + other.output_tokens <= u64::MAX
        &&& (self.cache is Some && other.cache is Some ==> {
            &&& self.cache->0.read_tokens + other.cache->0.read_tokens <= u64::MAX
            &&& self.cache->0.write_tokens + other.cache->0.write_tokens <= u64::MAX
        })
    }

    /// Whether the sum stays in range.
    pub fn can_add(&self, other: Usage) -> (r: bool)
        ensures
            r == self.fits(other),
    {
        let cache = match (self.cache, other.cache) {
            (Some(a), Some(b)) => a.read_tokens <= u64::MAX - b.read_tokens && a.write_tokens
                <= u64::MAX - b.write_tokens,
            _ => true,
        };
        self.input_tokens <= u64::MAX - other.input_tokens && self.output_tokens <= u64::MAX
            - other.output_tokens && cache
    }

    pub fn add(&mut self, other: Usage)
        requires
            old(self).fits(other),
        ensures
            *final(self) == old(self).plus(other),
    {
        self.input_tokens = self.input_tokens + other.input_tokens;
        self.output_tokens = self.output_tokens + other.output_tokens;
        self.cache = match (self.cache, other.cache) {
            (None, c) => c,
            (c, None) => c,
            (Some(a), Some(b)) => Some(
                CacheUsage {
                    read_tokens: a.read_tokens + b.read_tokens,
                    write_tokens: a.write_tokens + b.write_tokens,
                },
            ),
        };
    }
}

/// Why a model call stopped.
#[derive(Debug)]
pub enum StopReason {
    EndTurn,
    ToolUse,
    /// The output limit was hit; the content may be cut off.
    MaxTokens,
    Other(String),
}

#[verifier::ext_equal]
pub enum StopView {
    EndTurn,
    ToolUse,
    MaxTokens,
    Other(Seq<char>),
}

impl DeepView for StopReason {
    type V = StopView;

    open spec fn deep_view(&self) -> StopView {
        match *self {
            StopReason::EndTurn => StopView::EndTurn,
            StopReason::ToolUse => StopView::ToolUse,
            StopReason::MaxTokens => StopView::MaxTokens,
            StopReason::Other(reason) => StopView::Other(reason@),
        }
    }
}

} // verus!
