//! The Messages interface.
//!
//! Three things are peculiar to it: `max_tokens` has to be sent; the messages of a request have to
//! alternate between the roles and none may be empty, so neighbours of one role are merged and
//! empty ones are left out; and the arguments of a tool call arrive in pieces that make JSON only
//! when they are put together.
use vstd::prelude::*;

use crate::config::{ProviderSettings, SettingsView};
use crate::context::{system_of, PromptContext, PromptView};
use crate::json::{
    array, at, boolean, member, nil, number, number_at, number_in, number_or, number_or_else, obj,
    printed_json, text, text_at, text_in, text_or, text_or_else, Fields, Json, JsonView,
};
use crate::list::{empty, extend, find_slot, pull, put, put_slot, slot_at, take_all, take_next, with_slot};
use crate::message::{
    Block, BlockView, CacheUsage, ChatMessage, MessageView, Role, StopReason, StopView, Usage,
};
use crate::provider::{
    args_object, args_to_object, event_data, fatal_error, joined_url, parse_args, parsed_args,
    prompt_fingerprint, read_event_data, sorted_items, sorted_tools, stable_hash, url_join,
    EventData, EventView, HttpRequest, Provider, ProviderError, ProviderErrorView, ProviderEvent,
    RequestView, StepView, StreamStep, ToolStyle, TurnOutput, TurnView,
};
use crate::text::{concat2, concat3, same};
use crate::tools::{ToolSpec, ToolSpecView};

verus! {

pub const DEFAULT_MAX_TOKENS: u64 = 8192;

// ---- Requests ----

/// How a block is sent; thinking is not sent back, and neither is an empty text.
pub open spec fn content_item(block: BlockView) -> Option<JsonView> {
    match block {
        BlockView::Text(t) => if t.len() == 0 {
            None
        } else {
            Some(
                obj(
                    nil().push(("type"@, JsonView::Str("text"@))).push(("text"@, JsonView::Str(t))),
                ),
            )
        },
        BlockView::Thinking { .. } => None,
        BlockView::ToolUse { id, name, input } => Some(
            obj(
                nil().push(("type"@, JsonView::Str("tool_use"@))).push(("id"@, JsonView::Str(id))).push(
                    ("name"@, JsonView::Str(name)),
                ).push(("input"@, args_object(input))),
            ),
        ),
        BlockView::ToolResult { tool_use_id, content, is_error } => {
            let plain = nil().push(("type"@, JsonView::Str("tool_result"@))).push(
                ("tool_use_id"@, JsonView::Str(tool_use_id)),
            ).push(("content"@, JsonView::Str(content)));
            Some(
                obj(
                    if is_error {
                        plain.push(("is_error"@, JsonView::Bool(true)))
                    } else {
                        plain
                    },
                ),
            )
        },
    }
}

fn encode_block(block: &Block) -> (r: Option<Json>)
    ensures
        r.deep_view() == content_item(block.deep_view()),
{
    match block {
        Block::Text(t) => if t.as_str().unicode_len() == 0 {
            None
        } else {
            Some(Fields::new().with("type", text("text")).with("text", Json::Str(t.clone())).done())
        },
        Block::Thinking { .. } => None,
        Block::ToolUse { id, name, input } => Some(
            Fields::new().with("type", text("tool_use")).with("id", Json::Str(id.clone())).with(
                "name",
                Json::Str(name.clone()),
            ).with("input", args_to_object(input)).done(),
        ),
        Block::ToolResult { tool_use_id, content, is_error } => {
            let plain = Fields::new().with("type", text("tool_result")).with(
                "tool_use_id",
                Json::Str(tool_use_id.clone()),
            ).with("content", Json::Str(content.clone()));
            if *is_error {
                Some(plain.with("is_error", boolean(true)).done())
            } else {
                Some(plain.done())
            }
        },
    }
}

/// The items that some blocks are sent as.
pub open spec fn content_of(blocks: Seq<BlockView>) -> Seq<JsonView>
    decreases blocks.len(),
{
    if blocks.len() == 0 {
        seq![]
    } else {
        match content_item(blocks.last()) {
            Some(item) => content_of(blocks.drop_last()).push(item),
            None => content_of(blocks.drop_last()),
        }
    }
}

fn encode_blocks(blocks: &Vec<Block>) -> (out: Vec<Json>)
    ensures
        out.deep_view() == content_of(blocks.deep_view()),
{
    let ghost all = blocks.deep_view();
    let mut out: Vec<Json> = empty();
    let mut i: usize = 0;
    while i < blocks.len()
        invariant
            i <= blocks@.len(),
            all == blocks.deep_view(),
            out.deep_view() == content_of(all.take(i as int)),
        decreases blocks@.len() - i,
    {
        proof {
            take_next(all, i as int);
        }
        if let Some(item) = encode_block(&blocks[i]) {
            put(&mut out, item);
        }
        i = i + 1;
    }
    proof {
        take_all(all);
    }
    out
}

/// A message of a request.
struct Turn {
    role: Role,
    content: Vec<Json>,
}

#[verifier::ext_equal]
pub struct TurnItems {
    pub role: Role,
    pub content: Seq<JsonView>,
}

impl DeepView for Turn {
    type V = TurnItems;

    closed spec fn deep_view(&self) -> TurnItems {
        TurnItems { role: self.role, content: self.content.deep_view() }
    }
}

/// The messages of a request: empty ones are left out, and neighbours of one role are one message.
pub open spec fn alternating(messages: Seq<MessageView>) -> Seq<TurnItems>
    decreases messages.len(),
{
    if messages.len() == 0 {
        seq![]
    } else {
        let before = alternating(messages.drop_last());
        let role = messages.last().role;
        let content = content_of(messages.last().blocks);
        if content.len() == 0 {
            before
        } else if before.len() > 0 && before.last().role == role {
            before.drop_last().push(TurnItems { role, content: before.last().content + content })
        } else {
            before.push(TurnItems { role, content })
        }
    }
}

fn merge_messages(messages: &Vec<ChatMessage>) -> (out: Vec<Turn>)
    ensures
        out.deep_view() == alternating(messages.deep_view()),
{
    let ghost all = messages.deep_view();
    let mut out: Vec<Turn> = empty();
    let mut i: usize = 0;
    while i < messages.len()
        invariant
            i <= messages@.len(),
            all == messages.deep_view(),
            out.deep_view() == alternating(all.take(i as int)),
        decreases messages@.len() - i,
    {
        proof {
            take_next(all, i as int);
        }
        let role = messages[i].role;
        let content = encode_blocks(&messages[i].blocks);
        if content.len() > 0 {
            let ghost before = out.deep_view();
            match out.pop() {
                Some(last) => {
                    proof {
                        assert(before.last() == last.deep_view());
                        assert(out.deep_view() =~= before.drop_last());
                    }
                    if last.role == role {
                        let mut merged = last.content;
                        extend(&mut merged, content);
                        put(&mut out, Turn { role, content: merged });
                    } else {
                        put(&mut out, last);
                        assert(out.deep_view() =~= before);
                        put(&mut out, Turn { role, content });
                    }
                },
                None => {
                    put(&mut out, Turn { role, content });
                },
            }
        }
        i = i + 1;
    }
    proof {
        take_all(all);
    }
    out
}

pub open spec fn role_text(role: Role) -> Seq<char> {
    match role {
        Role::User => "user"@,
        Role::Assistant => "assistant"@,
    }
}

pub open spec fn turn_item(turn: TurnItems) -> JsonView {
    obj(
        nil().push(("role"@, JsonView::Str(role_text(turn.role)))).push(
            ("content"@, JsonView::Array(turn.content)),
        ),
    )
}

/// The `messages` of a request.
pub open spec fn message_items(messages: Seq<MessageView>) -> Seq<JsonView> {
    let turns = alternating(messages);
    Seq::new(turns.len(), |i: int| turn_item(turns[i]))
}

fn encode_messages(messages: &Vec<ChatMessage>) -> (out: Vec<Json>)
    ensures
        out.deep_view() == message_items(messages.deep_view()),
{
    let mut turns = merge_messages(messages);
    let ghost all = alternating(messages.deep_view());
    let ghost goal = message_items(messages.deep_view());
    let mut out: Vec<Json> = empty();
    let ghost mut done: int = 0;
    while turns.len() > 0
        invariant
            0 <= done <= all.len(),
            all == alternating(messages.deep_view()),
            goal == message_items(messages.deep_view()),
            turns.deep_view() == all.skip(done),
            out.deep_view() == goal.take(done),
        decreases turns@.len(),
    {
        let turn = pull(&mut turns);
        proof {
            take_next(goal, done);
            assert(all.skip(done)[0] == all[done]);
            assert(all.skip(done).drop_first() =~= all.skip(done + 1));
        }
        let role = match turn.role {
            Role::User => "user",
            Role::Assistant => "assistant",
        };
        put(
            &mut out,
            Fields::new().with("role", text(role)).with("content", array(turn.content)).done(),
        );
        proof {
            done = done + 1;
        }
    }
    proof {
        take_all(goal);
    }
    out
}

/// The body of a request.
pub open spec fn request_body(
    settings: SettingsView,
    prompt: PromptView,
    tools: Seq<ToolSpecView>,
) -> JsonView {
    let max_tokens = match settings.max_tokens {
        Some(n) => n,
        None => DEFAULT_MAX_TOKENS,
    };
    let base = nil().push(("model"@, JsonView::Str(settings.model))).push(
        ("max_tokens"@, JsonView::Number(max_tokens as int)),
    ).push(("messages"@, JsonView::Array(message_items(prompt.messages)))).push(
        ("stream"@, JsonView::Bool(true)),
    );
    let with_system = if system_of(prompt).len() == 0 {
        base
    } else {
        base.push(("system"@, JsonView::Str(system_of(prompt))))
    };
    obj(
        if tools.len() == 0 {
            with_system
        } else {
            with_system.push(
                ("tools"@, JsonView::Array(sorted_items(ToolStyle::Messages, tools))),
            )
        },
    )
}

/// The headers of a request, beside the content type. Without a key there is none for it.
pub open spec fn request_headers(settings: SettingsView) -> Seq<(Seq<char>, Seq<char>)> {
    let key = if settings.api_key.len() == 0 {
        seq![]
    } else {
        seq![("x-api-key"@, settings.api_key)]
    };
    if settings.profile.capabilities_spec().canonical_version_header {
        key.push(("anthropic-version"@, "2023-06-01"@))
    } else {
        key
    }
}

/// An adapter of the Messages interface.
#[derive(Debug)]
pub struct AnthropicProvider {
    pub settings: ProviderSettings,
}

impl Provider for AnthropicProvider {
    open spec fn settings(&self) -> SettingsView {
        self.settings.deep_view()
    }

    fn label(&self) -> (s: String) {
        concat3(self.settings.name.as_str(), " / ", self.settings.model.as_str())
    }

    fn model(&self) -> (s: &str) {
        self.settings.model.as_str()
    }

    fn set_model(&mut self, model: String) {
        self.settings.model = model;
    }
}

impl AnthropicProvider {
    pub fn new(settings: ProviderSettings) -> (p: AnthropicProvider)
        ensures
            p.settings() == settings.deep_view(),
    {
        AnthropicProvider { settings }
    }

    pub fn build_body(&self, prompt: &PromptContext, tools: &Vec<ToolSpec>) -> (j: Json)
        ensures
            j@ == request_body(self.settings(), prompt.deep_view(), tools.deep_view()),
    {
        let max_tokens: u64 = match self.settings.max_tokens {
            Some(n) => n,
            None => DEFAULT_MAX_TOKENS,
        };
        let mut body = Fields::new().with("model", Json::Str(self.settings.model.clone())).with(
            "max_tokens",
            number(max_tokens),
        ).with("messages", array(encode_messages(&prompt.messages))).with("stream", boolean(true));
        let system = prompt.system_text();
        if system.as_str().unicode_len() > 0 {
            body.set("system", Json::Str(system));
        }
        if tools.len() > 0 {
            body.set("tools", array(sorted_tools(ToolStyle::Messages, tools)));
        }
        body.done()
    }

    /// The request that a prompt makes.
    pub fn request(&self, prompt: &PromptContext, tools: &Vec<ToolSpec>) -> (r: HttpRequest)
        ensures
            r.deep_view() == (RequestView {
                url: joined_url(self.settings().base_url, "v1/messages"@),
                headers: request_headers(self.settings()),
                body: printed_json(
                    request_body(self.settings(), prompt.deep_view(), tools.deep_view()),
                ),
            }),
    {
        let mut headers: Vec<(String, String)> = empty();
        if self.settings.api_key.as_str().unicode_len() > 0 {
            put(&mut headers, ("x-api-key".to_owned(), self.settings.api_key.clone()));
        }
        assert(headers.deep_view() =~= (if self.settings().api_key.len() == 0 {
            seq![]
        } else {
            seq![("x-api-key"@, self.settings().api_key)]
        }));
        if self.settings.profile.capabilities().canonical_version_header {
            put(&mut headers, ("anthropic-version".to_owned(), "2023-06-01".to_owned()));
        }
        HttpRequest {
            url: url_join(self.settings.base_url.as_str(), "v1/messages"),
            headers,
            body: self.build_body(prompt, tools).print(),
        }
    }

    /// A stream that has brought nothing yet, for the answer to a prompt.
    pub fn begin(&self, prompt: &PromptContext, tools: &Vec<ToolSpec>) -> (s: AnthropicStream)
        ensures
            s.deep_view() == fresh_stream(
                "sha256:"@ + stable_hash(
                    self.settings().profile,
                    self.settings().model,
                    prompt.deep_view(),
                    tools.deep_view(),
                ),
            ),
    {
        AnthropicStream {
            partials: empty(),
            blocks: empty(),
            usage: Usage::default(),
            stop: StopReason::EndTurn,
            prompt_fingerprint: prompt_fingerprint(
                self.settings.profile,
                self.settings.model.as_str(),
                prompt,
                tools,
            ),
        }
    }
}

// ---- Streams ----

/// A block that is still arriving.
#[derive(Debug)]
pub enum Partial {
    Text(String),
    Thinking(String),
    ToolUse { id: String, name: String, args: String },
}

#[verifier::ext_equal]
pub enum PartialView {
    Text(Seq<char>),
    Thinking(Seq<char>),
    ToolUse { id: Seq<char>, name: Seq<char>, args: Seq<char> },
}

impl DeepView for Partial {
    type V = PartialView;

    open spec fn deep_view(&self) -> PartialView {
        match *self {
            Partial::Text(t) => PartialView::Text(t@),
            Partial::Thinking(t) => PartialView::Thinking(t@),
            Partial::ToolUse { id, name, args } => PartialView::ToolUse {
                id: id@,
                name: name@,
                args: args@,
            },
        }
    }
}

/// What a stream has brought so far.
#[derive(Debug)]
pub struct AnthropicStream {
    pub partials: Vec<(u64, Partial)>,
    pub blocks: Vec<Block>,
    pub usage: Usage,
    pub stop: StopReason,
    pub prompt_fingerprint: String,
}

#[verifier::ext_equal]
pub struct StreamView {
    pub partials: Seq<(u64, PartialView)>,
    pub blocks: Seq<BlockView>,
    pub usage: Usage,
    pub stop: StopView,
    pub prompt_fingerprint: Seq<char>,
}

impl DeepView for AnthropicStream {
    type V = StreamView;

    open spec fn deep_view(&self) -> StreamView {
        StreamView {
            partials: self.partials.deep_view(),
            blocks: self.blocks.deep_view(),
            usage: self.usage,
            stop: self.stop.deep_view(),
            prompt_fingerprint: self.prompt_fingerprint@,
        }
    }
}

pub open spec fn fresh_stream(prompt_fingerprint: Seq<char>) -> StreamView {
    StreamView {
        partials: seq![],
        blocks: seq![],
        usage: Usage { input_tokens: 0, output_tokens: 0, cache: None },
        stop: StopView::EndTurn,
        prompt_fingerprint,
    }
}

/// The prompt-cache traffic that a usage report tells of.
pub open spec fn cache_of(usage: Option<JsonView>) -> Option<CacheUsage> {
    let read = number_at(at(usage, "cache_read_input_tokens"@));
    let write = number_at(at(usage, "cache_creation_input_tokens"@));
    if read is Some || write is Some {
        Some(
            CacheUsage {
                read_tokens: if read is Some {
                    read->0
                } else {
                    0
                },
                write_tokens: if write is Some {
                    write->0
                } else {
                    0
                },
            },
        )
    } else {
        None
    }
}

pub fn cache_usage(usage: Option<&Json>) -> (r: Option<CacheUsage>)
    ensures
        r == cache_of(usage.deep_view()),
{
    let read = number_in(member(usage, "cache_read_input_tokens"));
    let write = number_in(member(usage, "cache_creation_input_tokens"));
    if read.is_none() && write.is_none() {
        return None;
    }
    let read_tokens: u64 = match read {
        Some(n) => n,
        None => 0,
    };
    let write_tokens: u64 = match write {
        Some(n) => n,
        None => 0,
    };
    Some(CacheUsage { read_tokens, write_tokens })
}

pub open spec fn capped_sum(a: u64, b: u64) -> u64 {
    if a + b > u64::MAX {
        u64::MAX
    } else {
        (a + b) as u64
    }
}

/// The usage at the start of a message. The service counts cached input apart; `input_tokens` is
/// made to cover the whole prompt.
pub open spec fn opening_usage(report: Option<JsonView>) -> Usage {
    let input = number_or(at(report, "input_tokens"@), 0);
    let cache = cache_of(report);
    Usage {
        input_tokens: match cache {
            Some(c) => capped_sum(capped_sum(input, c.read_tokens), c.write_tokens),
            None => input,
        },
        output_tokens: number_or(at(report, "output_tokens"@), 0),
        cache,
    }
}

fn read_opening_usage(report: Option<&Json>) -> (u: Usage)
    ensures
        u == opening_usage(report.deep_view()),
{
    let input: u64 = number_or_else(member(report, "input_tokens"), 0);
    let cache = cache_usage(report);
    let input_tokens: u64 = match cache {
        Some(c) => input.saturating_add(c.read_tokens).saturating_add(c.write_tokens),
        None => input,
    };
    Usage {
        input_tokens,
        output_tokens: number_or_else(member(report, "output_tokens"), 0),
        cache,
    }
}

pub open spec fn stop_of(reason: Seq<char>) -> StopView {
    if reason == "end_turn"@ || reason == "stop_sequence"@ {
        StopView::EndTurn
    } else if reason == "tool_use"@ {
        StopView::ToolUse
    } else if reason == "max_tokens"@ {
        StopView::MaxTokens
    } else {
        StopView::Other(reason)
    }
}

fn read_stop(reason: &str) -> (s: StopReason)
    ensures
        s.deep_view() == stop_of(reason@),
{
    if same(reason, "end_turn") || same(reason, "stop_sequence") {
        StopReason::EndTurn
    } else if same(reason, "tool_use") {
        StopReason::ToolUse
    } else if same(reason, "max_tokens") {
        StopReason::MaxTokens
    } else {
        StopReason::Other(reason.to_owned())
    }
}

/// The block that a partial one becomes.
pub open spec fn whole(partial: PartialView) -> BlockView {
    match partial {
        PartialView::Text(t) => BlockView::Text(t),
        PartialView::Thinking(t) => BlockView::Thinking {
            text: t,
            provider_kind: Some("anthropic"@),
            raw: None,
        },
        PartialView::ToolUse { id, name, args } => BlockView::ToolUse {
            id,
            name,
            input: parsed_args(args),
        },
    }
}

fn complete(partial: Partial) -> (b: Block)
    ensures
        b.deep_view() == whole(partial.deep_view()),
{
    match partial {
        Partial::Text(t) => Block::Text(t),
        Partial::Thinking(t) => Block::Thinking {
            text: t,
            provider_kind: Some("anthropic".to_owned()),
            raw: None,
        },
        Partial::ToolUse { id, name, args } => {
            let input = parse_args(args.as_str());
            Block::ToolUse { id, name, input }
        },
    }
}

/// A block begins.
pub open spec fn block_started(s: StreamView, data: Option<JsonView>) -> (StreamView, StepView) {
    let index = number_or(at(data, "index"@), 0);
    let block = at(data, "content_block"@);
    let kind = text_or(at(block, "type"@), ""@);
    if kind == "text"@ {
        (
            StreamView { partials: with_slot(s.partials, index, PartialView::Text(""@)), ..s },
            StepView::More,
        )
    } else if kind == "thinking"@ {
        (
            StreamView { partials: with_slot(s.partials, index, PartialView::Thinking(""@)), ..s },
            StepView::More,
        )
    } else if kind == "tool_use"@ {
        let name = text_or(at(block, "name"@), ""@);
        (
            StreamView {
                partials: with_slot(
                    s.partials,
                    index,
                    PartialView::ToolUse { id: text_or(at(block, "id"@), ""@), name, args: ""@ },
                ),
                ..s
            },
            StepView::Event(EventView::ToolCallBegun { name }),
        )
    } else {
        (s, StepView::More)
    }
}

/// The slots with a piece of text behind the partial text under `index`.
pub open spec fn text_grown(slots: Seq<(u64, PartialView)>, index: u64, piece: Seq<char>) -> Seq<
    (u64, PartialView),
> {
    match slot_at(slots, index) {
        Some(k) => match slots[k as int].1 {
            PartialView::Text(t) => slots.update(k as int, (index, PartialView::Text(t + piece))),
            _ => slots,
        },
        None => slots,
    }
}

pub open spec fn thinking_grown(slots: Seq<(u64, PartialView)>, index: u64, piece: Seq<char>) -> Seq<
    (u64, PartialView),
> {
    match slot_at(slots, index) {
        Some(k) => match slots[k as int].1 {
            PartialView::Thinking(t) => slots.update(
                k as int,
                (index, PartialView::Thinking(t + piece)),
            ),
            _ => slots,
        },
        None => slots,
    }
}

pub open spec fn args_grown(slots: Seq<(u64, PartialView)>, index: u64, piece: Seq<char>) -> Seq<
    (u64, PartialView),
> {
    match slot_at(slots, index) {
        Some(k) => match slots[k as int].1 {
            PartialView::ToolUse { id, name, args } => slots.update(
                k as int,
                (index, PartialView::ToolUse { id, name, args: args + piece }),
            ),
            _ => slots,
        },
        None => slots,
    }
}

/// A piece of a block arrives.
pub open spec fn block_grown(s: StreamView, data: Option<JsonView>) -> (StreamView, StepView) {
    let index = number_or(at(data, "index"@), 0);
    let delta = at(data, "delta"@);
    let kind = text_or(at(delta, "type"@), ""@);
    if kind == "text_delta"@ {
        let piece = text_or(at(delta, "text"@), ""@);
        (
            StreamView { partials: text_grown(s.partials, index, piece), ..s },
            StepView::Event(EventView::TextDelta(piece)),
        )
    } else if kind == "thinking_delta"@ {
        let piece = text_or(at(delta, "thinking"@), ""@);
        (
            StreamView { partials: thinking_grown(s.partials, index, piece), ..s },
            StepView::Event(EventView::ThinkingDelta(piece)),
        )
    } else if kind == "input_json_delta"@ {
        let piece = text_or(at(delta, "partial_json"@), ""@);
        (StreamView { partials: args_grown(s.partials, index, piece), ..s }, StepView::More)
    } else {
        (s, StepView::More)
    }
}

/// A block is complete.
pub open spec fn block_stopped(s: StreamView, data: Option<JsonView>) -> StreamView {
    let index = number_or(at(data, "index"@), 0);
    match slot_at(s.partials, index) {
        Some(k) => StreamView {
            partials: s.partials.remove(k as int),
            blocks: s.blocks.push(whole(s.partials[k as int].1)),
            ..s
        },
        None => s,
    }
}

/// The message's end is announced; the count of output tokens is a total.
pub open spec fn message_grown(s: StreamView, data: Option<JsonView>) -> StreamView {
    let reason = text_at(at(at(data, "delta"@), "stop_reason"@));
    let output = number_at(at(at(data, "usage"@), "output_tokens"@));
    StreamView {
        stop: match reason {
            Some(r) => stop_of(r),
            None => s.stop,
        },
        usage: match output {
            Some(n) => Usage { output_tokens: n, ..s.usage },
            None => s.usage,
        },
        ..s
    }
}

/// What an event makes of a stream, and what is reported of it. Unknown events change nothing.
pub open spec fn after_event(s: StreamView, event: JsonView) -> (StreamView, StepView) {
    let data = Some(event);
    let kind = text_or(at(data, "type"@), ""@);
    if kind == "message_start"@ {
        (
            StreamView { usage: opening_usage(at(at(data, "message"@), "usage"@)), ..s },
            StepView::More,
        )
    } else if kind == "content_block_start"@ {
        block_started(s, data)
    } else if kind == "content_block_delta"@ {
        block_grown(s, data)
    } else if kind == "content_block_stop"@ {
        (block_stopped(s, data), StepView::More)
    } else if kind == "message_delta"@ {
        (message_grown(s, data), StepView::More)
    } else if kind == "message_stop"@ {
        (s, StepView::Finished)
    } else if kind == "error"@ {
        (
            s,
            StepView::Failed(
                fatal_error(
                    "API 流错误: "@ + text_or(at(at(data, "error"@), "message"@), "未知"@),
                ),
            ),
        )
    } else {
        (s, StepView::More)
    }
}

/// The blocks with those that never got their end, in the order of their numbers.
pub open spec fn swept(blocks: Seq<BlockView>, partials: Seq<(u64, PartialView)>) -> Seq<BlockView>
    decreases partials.len(),
{
    if partials.len() == 0 {
        blocks
    } else {
        swept(blocks, partials.drop_last()).push(whole(partials.last().1))
    }
}

/// What a stream comes to when it ends; it has to have seen its last event.
pub open spec fn stream_outcome(s: StreamView, finished: bool) -> Result<TurnView, ProviderErrorView> {
    if !finished {
        Err(fatal_error("流在终止事件前结束"@))
    } else {
        Ok(
            TurnView {
                message: MessageView {
                    role: Role::Assistant,
                    blocks: swept(s.blocks, s.partials),
                },
                usage: s.usage,
                stop: s.stop,
                prompt_fingerprint: Some(s.prompt_fingerprint),
            },
        )
    }
}

impl AnthropicStream {
    fn start_block(&mut self, data: Option<&Json>) -> (step: StreamStep)
        ensures
            (final(self).deep_view(), step.deep_view()) == block_started(
                old(self).deep_view(),
                data.deep_view(),
            ),
    {
        let index: u64 = number_or_else(member(data, "index"), 0);
        let block = member(data, "content_block");
        let kind = text_or_else(member(block, "type"), "");
        if same(kind, "text") {
            put_slot(&mut self.partials, index, Partial::Text("".to_owned()));
            StreamStep::More
        } else if same(kind, "thinking") {
            put_slot(&mut self.partials, index, Partial::Thinking("".to_owned()));
            StreamStep::More
        } else if same(kind, "tool_use") {
            let name = text_or_else(member(block, "name"), "");
            let id = text_or_else(member(block, "id"), "").to_owned();
            put_slot(
                &mut self.partials,
                index,
                Partial::ToolUse { id, name: name.to_owned(), args: "".to_owned() },
            );
            StreamStep::Event(ProviderEvent::ToolCallBegun { name: name.to_owned() })
        } else {
            StreamStep::More
        }
    }

    fn grow_block(&mut self, data: Option<&Json>) -> (step: StreamStep)
        ensures
            (final(self).deep_view(), step.deep_view()) == block_grown(
                old(self).deep_view(),
                data.deep_view(),
            ),
    {
        let index: u64 = number_or_else(member(data, "index"), 0);
        let delta = member(data, "delta");
        let kind = text_or_else(member(delta, "type"), "");
        let ghost before = self.partials.deep_view();
        if same(kind, "text_delta") {
            let piece = text_or_else(member(delta, "text"), "");
            if let Some(k) = find_slot(&self.partials, index) {
                let grown = match &self.partials[k].1 {
                    Partial::Text(t) => Some(concat2(t.as_str(), piece)),
                    _ => None,
                };
                if let Some(t) = grown {
                    self.partials.set(k, (index, Partial::Text(t)));
                    assert(self.partials.deep_view() =~= text_grown(before, index, piece@));
                }
            }
            assert(self.partials.deep_view() =~= text_grown(before, index, piece@));
            StreamStep::Event(ProviderEvent::TextDelta(piece.to_owned()))
        } else if same(kind, "thinking_delta") {
            let piece = text_or_else(member(delta, "thinking"), "");
            if let Some(k) = find_slot(&self.partials, index) {
                let grown = match &self.partials[k].1 {
                    Partial::Thinking(t) => Some(concat2(t.as_str(), piece)),
                    _ => None,
                };
                if let Some(t) = grown {
                    self.partials.set(k, (index, Partial::Thinking(t)));
                }
            }
            assert(self.partials.deep_view() =~= thinking_grown(before, index, piece@));
            StreamStep::Event(ProviderEvent::ThinkingDelta(piece.to_owned()))
        } else if same(kind, "input_json_delta") {
            let piece = text_or_else(member(delta, "partial_json"), "");
            if let Some(k) = find_slot(&self.partials, index) {
                let grown = match &self.partials[k].1 {
                    Partial::ToolUse { id, name, args } => Some(
                        Partial::ToolUse {
                            id: id.clone(),
                            name: name.clone(),
                            args: concat2(args.as_str(), piece),
                        },
                    ),
                    _ => None,
                };
                if let Some(p) = grown {
                    self.partials.set(k, (index, p));
                }
            }
            assert(self.partials.deep_view() =~= args_grown(before, index, piece@));
            StreamStep::More
        } else {
            StreamStep::More
        }
    }

    fn stop_block(&mut self, data: Option<&Json>)
        ensures
            final(self).deep_view() == block_stopped(old(self).deep_view(), data.deep_view()),
    {
        let index: u64 = number_or_else(member(data, "index"), 0);
        let ghost before = self.partials.deep_view();
        if let Some(k) = find_slot(&self.partials, index) {
            let (_, partial) = self.partials.remove(k);
            proof {
                assert(before[k as int].1 == partial.deep_view());
                assert(self.partials.deep_view() =~= before.remove(k as int));
            }
            put(&mut self.blocks, complete(partial));
        }
    }

    fn grow_message(&mut self, data: Option<&Json>)
        ensures
            final(self).deep_view() == message_grown(old(self).deep_view(), data.deep_view()),
    {
        if let Some(reason) = text_in(member(member(data, "delta"), "stop_reason")) {
            self.stop = read_stop(reason);
        }
        if let Some(n) = number_in(member(member(data, "usage"), "output_tokens")) {
            self.usage.output_tokens = n;
        }
    }

    /// Takes in an event of the stream.
    pub fn on_event(&mut self, event: &Json) -> (step: StreamStep)
        ensures
            (final(self).deep_view(), step.deep_view()) == after_event(
                old(self).deep_view(),
                event@,
            ),
    {
        let data = Some(event);
        let kind = text_or_else(member(data, "type"), "");
        if same(kind, "message_start") {
            self.usage = read_opening_usage(member(member(data, "message"), "usage"));
            StreamStep::More
        } else if same(kind, "content_block_start") {
            self.start_block(data)
        } else if same(kind, "content_block_delta") {
            self.grow_block(data)
        } else if same(kind, "content_block_stop") {
            self.stop_block(data);
            StreamStep::More
        } else if same(kind, "message_delta") {
            self.grow_message(data);
            StreamStep::More
        } else if same(kind, "message_stop") {
            StreamStep::Finished
        } else if same(kind, "error") {
            let reason = text_or_else(member(member(data, "error"), "message"), "未知");
            StreamStep::Failed(ProviderError::fatal(concat2("API 流错误: ", reason)))
        } else {
            StreamStep::More
        }
    }

    /// Takes in the data of an event, as it stands in the stream.
    pub fn on_data(&mut self, text: &str) -> (step: StreamStep)
        ensures
            exists|data: EventData| #[trigger]
                event_data(text@, data) && match data {
                    EventData::End => final(self).deep_view() == old(self).deep_view()
                        && step.deep_view() == StepView::Finished,
                    EventData::Value(event) => (final(self).deep_view(), step.deep_view())
                        == after_event(old(self).deep_view(), event@),
                    EventData::Bad(error) => final(self).deep_view() == old(self).deep_view()
                        && step.deep_view() == StepView::Failed(error.deep_view()),
                },
    {
        let data = read_event_data(text);
        let ghost shown = data;
        assert(event_data(text@, shown));
        match data {
            EventData::End => StreamStep::Finished,
            EventData::Value(event) => self.on_event(&event),
            EventData::Bad(error) => StreamStep::Failed(error),
        }
    }

    /// What the stream comes to; `finished` says whether its last event was seen.
    pub fn finish(self, finished: bool) -> (r: Result<TurnOutput, ProviderError>)
        ensures
            match stream_outcome(self.deep_view(), finished) {
                Ok(output) => r is Ok && r->Ok_0.deep_view() == output,
                Err(error) => r is Err && r->Err_0.deep_view() == error,
            },
    {
        if !finished {
            return Err(ProviderError::fatal("流在终止事件前结束".to_owned()));
        }
        let ghost start = self.blocks.deep_view();
        let ghost all = self.partials.deep_view();
        let AnthropicStream { partials, blocks, usage, stop, prompt_fingerprint } = self;
        let mut rest = partials;
        let mut blocks = blocks;
        let ghost mut done: int = 0;
        proof {
            assert(all.skip(0) =~= all);
            assert(all.take(0) =~= seq![]);
        }
        while rest.len() > 0
            invariant
                0 <= done <= all.len(),
                rest.deep_view() == all.skip(done),
                blocks.deep_view() == swept(start, all.take(done)),
            decreases rest@.len(),
        {
            let (_, partial) = pull(&mut rest);
            proof {
                take_next(all, done);
                assert(all.skip(done)[0] == all[done]);
                assert(all.skip(done).drop_first() =~= all.skip(done + 1));
            }
            put(&mut blocks, complete(partial));
            proof {
                done = done + 1;
            }
        }
        proof {
            take_all(all);
        }
        Ok(
            TurnOutput {
                message: ChatMessage { role: Role::Assistant, blocks },
                usage,
                stop,
                prompt_fingerprint: Some(prompt_fingerprint),
            },
        )
    }
}

// ---- Laws ----

/// Every message has content, and neighbours have different roles.
pub open spec fn alternates(turns: Seq<TurnItems>) -> bool {
    &&& forall|i: int| 0 <= i < turns.len() ==> (#[trigger] turns[i]).content.len() > 0
    &&& forall|i: int, j: int|
        0 <= i && j == i + 1 && j < turns.len() ==> (#[trigger] turns[i]).role != (
        #[trigger] turns[j]).role
}

/// The messages of a request are never empty, and their roles alternate strictly.
pub proof fn law_requests_alternate(messages: Seq<MessageView>)
    ensures
        alternates(alternating(messages)),
    decreases messages.len(),
{
    if messages.len() > 0 {
        law_requests_alternate(messages.drop_last());
    }
}

/// The items of some turns, one behind the other.
pub open spec fn all_items(turns: Seq<TurnItems>) -> Seq<JsonView>
    decreases turns.len(),
{
    if turns.len() == 0 {
        seq![]
    } else {
        all_items(turns.drop_last()) + turns.last().content
    }
}

/// The items of some messages, one behind the other.
pub open spec fn all_content(messages: Seq<MessageView>) -> Seq<JsonView>
    decreases messages.len(),
{
    if messages.len() == 0 {
        seq![]
    } else {
        all_content(messages.drop_last()) + content_of(messages.last().blocks)
    }
}

/// Merging neighbours loses nothing and reorders nothing.
pub proof fn law_merging_keeps_the_content(messages: Seq<MessageView>)
    ensures
        all_items(alternating(messages)) == all_content(messages),
    decreases messages.len(),
{
    if messages.len() > 0 {
        law_merging_keeps_the_content(messages.drop_last());
        let before = alternating(messages.drop_last());
        let after = alternating(messages);
        let content = content_of(messages.last().blocks);
        if content.len() == 0 {
            assert(all_content(messages) =~= all_content(messages.drop_last()));
        } else if before.len() > 0 && before.last().role == messages.last().role {
            assert(after.drop_last() =~= before.drop_last());
            assert(all_items(after) =~= all_items(before) + content);
        } else {
            assert(after.drop_last() =~= before);
        }
    }
}

/// A stream that ends before its last event is an error, whatever it has brought.
pub proof fn law_truncated_streams_fail(s: StreamView)
    ensures
        stream_outcome(s, false) == Err::<TurnView, ProviderErrorView>(
            fatal_error("流在终止事件前结束"@),
        ),
{
}

} // verus!
