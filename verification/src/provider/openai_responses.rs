//! The Responses interface.
//!
//! A conversation is a list of items here: messages, function calls, their outputs and reasoning
//! stand side by side. The service keeps nothing between calls (`store` is off), so its reasoning
//! items are kept as they came and sent back unchanged.
use vstd::prelude::*;

use crate::config::{ProviderSettings, ReasoningEffortPolicy, SettingsView};
use crate::context::{system_of, PromptContext, PromptView};
use crate::json::{
    array, at, boolean, member, nil, number, number_at, number_in, number_or, number_or_else, obj,
    printed_json, text, text_at, text_in, text_or, text_or_else, Fields, Json, JsonView,
};
use crate::list::{empty, find_slot, one, pull, put, put_slot, slot_at, take_all, take_next, with_slot};
use crate::message::{
    Block, BlockView, CacheUsage, ChatMessage, MessageView, Role, StopReason, StopView, Usage,
};
use crate::provider::{
    args_text, args_to_string, event_data, fatal_error, joined_url, parse_args, parsed_args,
    prompt_cache_key, read_event_data, stable_hash, tool_item, url_join, EventData, EventView,
    HttpRequest, Provider, ProviderError, ProviderErrorView, ProviderEvent, RequestView, StepView,
    StreamStep, ToolStyle, TurnOutput, TurnView,
};
use crate::text::{concat2, concat3, same};
use crate::tools::{ToolSpec, ToolSpecView};

verus! {

/// The mark of reasoning that this adapter has stored.
pub open spec fn own_kind() -> Seq<char> {
    "openai_responses"@
}

// ---- Requests ----

/// A message with one piece of content.
pub open spec fn text_message(role: Seq<char>, kind: Seq<char>, t: Seq<char>) -> JsonView {
    obj(
        nil().push(("type"@, JsonView::Str("message"@))).push(("role"@, JsonView::Str(role))).push(
            (
                "content"@,
                JsonView::Array(
                    seq![
                        obj(
                            nil().push(("type"@, JsonView::Str(kind))).push(
                                ("text"@, JsonView::Str(t)),
                            ),
                        ),
                    ],
                ),
            ),
        ),
    )
}

fn encode_text(role: &str, kind: &str, t: &str) -> (j: Json)
    ensures
        j@ == text_message(role@, kind@, t@),
{
    let content = one(Fields::new().with("type", text(kind)).with("text", text(t)).done());
    Fields::new().with("type", text("message")).with("role", text(role)).with(
        "content",
        array(content),
    ).done()
}

/// How a block is sent. Reasoning goes back only to the service that it came from, and only where
/// the profile asks for it.
pub open spec fn input_item(role: Role, block: BlockView, replay: bool) -> Option<JsonView> {
    match (role, block) {
        (Role::User, BlockView::Text(t)) => if t.len() == 0 {
            None
        } else {
            Some(text_message("user"@, "input_text"@, t))
        },
        (Role::User, BlockView::ToolResult { tool_use_id, content, is_error }) => Some(
            obj(
                nil().push(("type"@, JsonView::Str("function_call_output"@))).push(
                    ("call_id"@, JsonView::Str(tool_use_id)),
                ).push(
                    (
                        "output"@,
                        JsonView::Str(
                            if is_error {
                                "ERROR: "@ + content
                            } else {
                                content
                            },
                        ),
                    ),
                ),
            ),
        ),
        (Role::Assistant, BlockView::Text(t)) => if t.len() == 0 {
            None
        } else {
            Some(text_message("assistant"@, "output_text"@, t))
        },
        (Role::Assistant, BlockView::ToolUse { id, name, input }) => Some(
            obj(
                nil().push(("type"@, JsonView::Str("function_call"@))).push(
                    ("call_id"@, JsonView::Str(id)),
                ).push(("name"@, JsonView::Str(name))).push(
                    ("arguments"@, JsonView::Str(args_text(input))),
                ),
            ),
        ),
        (Role::Assistant, BlockView::Thinking { provider_kind, raw, .. }) => if replay && raw is Some
            && provider_kind == Some(own_kind()) {
            raw
        } else {
            None
        },
        _ => None,
    }
}

fn encode_block(role: Role, block: &Block, replay: bool) -> (r: Option<Json>)
    ensures
        r.deep_view() == input_item(role, block.deep_view(), replay),
{
    match (role, block) {
        (Role::User, Block::Text(t)) => if t.as_str().unicode_len() == 0 {
            None
        } else {
            Some(encode_text("user", "input_text", t.as_str()))
        },
        (Role::User, Block::ToolResult { tool_use_id, content, is_error }) => {
            let output = if *is_error {
                concat2("ERROR: ", content.as_str())
            } else {
                content.clone()
            };
            Some(
                Fields::new().with("type", text("function_call_output")).with(
                    "call_id",
                    Json::Str(tool_use_id.clone()),
                ).with("output", Json::Str(output)).done(),
            )
        },
        (Role::Assistant, Block::Text(t)) => if t.as_str().unicode_len() == 0 {
            None
        } else {
            Some(encode_text("assistant", "output_text", t.as_str()))
        },
        (Role::Assistant, Block::ToolUse { id, name, input }) => Some(
            Fields::new().with("type", text("function_call")).with(
                "call_id",
                Json::Str(id.clone()),
            ).with("name", Json::Str(name.clone())).with(
                "arguments",
                Json::Str(args_to_string(input)),
            ).done(),
        ),
        (Role::Assistant, Block::Thinking { provider_kind, raw, .. }) => match (raw, provider_kind) {
            (Some(item), Some(kind)) => if replay && same(kind.as_str(), "openai_responses") {
                Some(item.clone())
            } else {
                None
            },
            _ => None,
        },
        _ => None,
    }
}

/// The items that a message's blocks are sent as.
pub open spec fn items_of(role: Role, blocks: Seq<BlockView>, replay: bool) -> Seq<JsonView>
    decreases blocks.len(),
{
    if blocks.len() == 0 {
        seq![]
    } else {
        match input_item(role, blocks.last(), replay) {
            Some(item) => items_of(role, blocks.drop_last(), replay).push(item),
            None => items_of(role, blocks.drop_last(), replay),
        }
    }
}

/// The items that a conversation is sent as.
pub open spec fn input_of(messages: Seq<MessageView>, replay: bool) -> Seq<JsonView>
    decreases messages.len(),
{
    if messages.len() == 0 {
        seq![]
    } else {
        input_of(messages.drop_last(), replay) + items_of(
            messages.last().role,
            messages.last().blocks,
            replay,
        )
    }
}

fn encode_messages(messages: &Vec<ChatMessage>, replay: bool) -> (out: Vec<Json>)
    ensures
        out.deep_view() == input_of(messages.deep_view(), replay),
{
    let ghost all = messages.deep_view();
    let mut out: Vec<Json> = empty();
    let mut i: usize = 0;
    while i < messages.len()
        invariant
            i <= messages@.len(),
            all == messages.deep_view(),
            out.deep_view() == input_of(all.take(i as int), replay),
        decreases messages@.len() - i,
    {
        proof {
            take_next(all, i as int);
        }
        let role = messages[i].role;
        let blocks = &messages[i].blocks;
        let ghost before = out.deep_view();
        let ghost views = blocks.deep_view();
        let mut k: usize = 0;
        assert(before + items_of(role, views.take(0), replay) =~= before);
        while k < blocks.len()
            invariant
                k <= blocks@.len(),
                views == blocks.deep_view(),
                out.deep_view() == before + items_of(role, views.take(k as int), replay),
            decreases blocks@.len() - k,
        {
            proof {
                take_next(views, k as int);
            }
            if let Some(item) = encode_block(role, &blocks[k], replay) {
                put(&mut out, item);
                assert(out.deep_view() =~= before + items_of(role, views.take(k + 1), replay));
            }
            k = k + 1;
        }
        proof {
            take_all(views);
        }
        i = i + 1;
    }
    proof {
        take_all(all);
    }
    out
}

pub open spec fn flat_tools(tools: Seq<ToolSpecView>) -> Seq<JsonView> {
    Seq::new(tools.len(), |i: int| tool_item(ToolStyle::Responses, tools[i]))
}

fn encode_tools(tools: &Vec<ToolSpec>) -> (out: Vec<Json>)
    ensures
        out.deep_view() == flat_tools(tools.deep_view()),
{
    let ghost goal = flat_tools(tools.deep_view());
    let mut out: Vec<Json> = empty();
    let mut i: usize = 0;
    while i < tools.len()
        invariant
            i <= tools@.len(),
            goal == flat_tools(tools.deep_view()),
            out.deep_view() == goal.take(i as int),
        decreases tools@.len() - i,
    {
        proof {
            take_next(goal, i as int);
        }
        put(&mut out, crate::provider::encode_tool(ToolStyle::Responses, &tools[i]));
        i = i + 1;
    }
    proof {
        take_all(goal);
    }
    out
}

/// The body of a request.
pub open spec fn request_body(
    settings: SettingsView,
    prompt: PromptView,
    tools: Seq<ToolSpecView>,
) -> JsonView {
    let caps = settings.profile.capabilities_spec();
    let a = nil().push(("model"@, JsonView::Str(settings.model))).push(
        ("input"@, JsonView::Array(input_of(prompt.messages, caps.stateless_reasoning))),
    ).push(("stream"@, JsonView::Bool(true)));
    let b = if caps.stateless_reasoning {
        a.push(("store"@, JsonView::Bool(false))).push(
            ("include"@, JsonView::Array(seq![JsonView::Str("reasoning.encrypted_content"@)])),
        )
    } else {
        a
    };
    let c = if caps.prompt_cache_key {
        b.push(
            (
                "prompt_cache_key"@,
                JsonView::Str(
                    "onemore:v1:openai-responses:"@ + stable_hash(
                        settings.profile,
                        settings.model,
                        prompt,
                        tools,
                    ),
                ),
            ),
        )
    } else {
        b
    };
    let d = if system_of(prompt).len() == 0 {
        c
    } else {
        c.push(("instructions"@, JsonView::Str(system_of(prompt))))
    };
    let e = if tools.len() == 0 {
        d
    } else {
        d.push(("tools"@, JsonView::Array(flat_tools(tools))))
    };
    let f = match settings.reasoning_effort {
        Some(effort) => e.push(
            ("reasoning"@, obj(nil().push(("effort"@, JsonView::Str(effort))))),
        ),
        None => e,
    };
    obj(
        match settings.max_tokens {
            Some(n) => f.push(("max_output_tokens"@, JsonView::Number(n as int))),
            None => f,
        },
    )
}

/// The headers of a request, beside the content type.
pub open spec fn request_headers(settings: SettingsView) -> Seq<(Seq<char>, Seq<char>)> {
    if settings.api_key.len() == 0 {
        seq![]
    } else {
        seq![("authorization"@, "Bearer "@ + settings.api_key)]
    }
}

/// An adapter of the Responses interface.
#[derive(Debug)]
pub struct ResponsesProvider {
    pub settings: ProviderSettings,
}

impl Provider for ResponsesProvider {
    open spec fn settings(&self) -> SettingsView {
        self.settings.deep_view()
    }

    fn label(&self) -> (s: String) {
        concat3(self.settings.name.as_str(), " / ", self.settings.model.as_str())
    }

    fn model(&self) -> (s: &str) {
        self.settings.model.as_str()
    }

    fn set_model(&mut self, model: String) {
        self.settings.model = model;
    }
}

impl ResponsesProvider {
    pub fn new(settings: ProviderSettings) -> (p: ResponsesProvider)
        ensures
            p.settings() == settings.deep_view(),
    {
        ResponsesProvider { settings }
    }

    pub fn build_body(&self, prompt: &PromptContext, tools: &Vec<ToolSpec>) -> (j: Json)
        ensures
            j@ == request_body(self.settings(), prompt.deep_view(), tools.deep_view()),
    {
        let caps = self.settings.profile.capabilities();
        let mut body = Fields::new().with("model", Json::Str(self.settings.model.clone())).with(
            "input",
            array(encode_messages(&prompt.messages, caps.stateless_reasoning)),
        ).with("stream", boolean(true));
        if caps.stateless_reasoning {
            body.set("store", boolean(false));
            body.set("include", array(one(text("reasoning.encrypted_content"))));
        }
        if caps.prompt_cache_key {
            let key = prompt_cache_key(
                self.settings.profile,
                self.settings.model.as_str(),
                prompt,
                tools,
            );
            body.set("prompt_cache_key", Json::Str(key));
        }
        let system = prompt.system_text();
        if system.as_str().unicode_len() > 0 {
            body.set("instructions", Json::Str(system));
        }
        if tools.len() > 0 {
            body.set("tools", array(encode_tools(tools)));
        }
        if let ReasoningEffortPolicy::Send(effort) = &self.settings.reasoning_effort {
            body.set("reasoning", Fields::new().with("effort", text(effort.as_str())).done());
        }
        if let Some(n) = self.settings.max_tokens {
            body.set("max_output_tokens", number(n));
        }
        body.done()
    }

    /// The request that a prompt makes.
    pub fn request(&self, prompt: &PromptContext, tools: &Vec<ToolSpec>) -> (r: HttpRequest)
        ensures
            r.deep_view() == (RequestView {
                url: joined_url(self.settings().base_url, "v1/responses"@),
                headers: request_headers(self.settings()),
                body: printed_json(
                    request_body(self.settings(), prompt.deep_view(), tools.deep_view()),
                ),
            }),
    {
        let headers: Vec<(String, String)> = if self.settings.api_key.as_str().unicode_len() == 0 {
            empty()
        } else {
            one(
                (
                    "authorization".to_owned(),
                    concat2("Bearer ", self.settings.api_key.as_str()),
                ),
            )
        };
        HttpRequest {
            url: url_join(self.settings.base_url.as_str(), "v1/responses"),
            headers,
            body: self.build_body(prompt, tools).print(),
        }
    }

    /// A stream that has brought nothing yet, for the answer to a prompt.
    pub fn begin(&self, prompt: &PromptContext, tools: &Vec<ToolSpec>) -> (s: ResponsesStream)
        ensures
            s.deep_view() == fresh_stream(
                "sha256:"@ + stable_hash(
                    self.settings().profile,
                    self.settings().model,
                    prompt.deep_view(),
                    tools.deep_view(),
                ),
            ),
    {
        ResponsesStream {
            partials: empty(),
            blocks: empty(),
            usage: Usage::default(),
            stop: None,
            prompt_fingerprint: crate::provider::prompt_fingerprint(
                self.settings.profile,
                self.settings.model.as_str(),
                prompt,
                tools,
            ),
        }
    }
}

// ---- Streams ----

/// An item that is still arriving; it only counts if its end never comes.
#[derive(Debug)]
pub enum Partial {
    Msg(String),
    Fc { call_id: String, name: String, args: String },
    Reasoning(String),
}

#[verifier::ext_equal]
pub enum PartialView {
    Msg(Seq<char>),
    Fc { call_id: Seq<char>, name: Seq<char>, args: Seq<char> },
    Reasoning(Seq<char>),
}

impl DeepView for Partial {
    type V = PartialView;

    open spec fn deep_view(&self) -> PartialView {
        match *self {
            Partial::Msg(t) => PartialView::Msg(t@),
            Partial::Fc { call_id, name, args } => PartialView::Fc {
                call_id: call_id@,
                name: name@,
                args: args@,
            },
            Partial::Reasoning(t) => PartialView::Reasoning(t@),
        }
    }
}

/// What a stream has brought so far.
#[derive(Debug)]
pub struct ResponsesStream {
    pub partials: Vec<(u64, Partial)>,
    pub blocks: Vec<Block>,
    pub usage: Usage,
    pub stop: Option<StopReason>,
    pub prompt_fingerprint: String,
}

#[verifier::ext_equal]
pub struct StreamView {
    pub partials: Seq<(u64, PartialView)>,
    pub blocks: Seq<BlockView>,
    pub usage: Usage,
    pub stop: Option<StopView>,
    pub prompt_fingerprint: Seq<char>,
}

impl DeepView for ResponsesStream {
    type V = StreamView;

    open spec fn deep_view(&self) -> StreamView {
        StreamView {
            partials: self.partials.deep_view(),
            blocks: self.blocks.deep_view(),
            usage: self.usage,
            stop: self.stop.deep_view(),
            prompt_fingerprint: self.prompt_fingerprint@,
        }
    }
}

pub open spec fn fresh_stream(prompt_fingerprint: Seq<char>) -> StreamView {
    StreamView {
        partials: seq![],
        blocks: seq![],
        usage: Usage { input_tokens: 0, output_tokens: 0, cache: None },
        stop: None,
        prompt_fingerprint,
    }
}

/// The parts of an item's list; none where it has no such list.
pub open spec fn parts_of(item: Option<JsonView>, key: Seq<char>) -> Seq<JsonView> {
    match at(item, key) {
        Some(JsonView::Array(parts)) => parts,
        _ => seq![],
    }
}

/// The output text among the parts of a message.
pub open spec fn output_text(parts: Seq<JsonView>) -> Seq<char>
    decreases parts.len(),
{
    if parts.len() == 0 {
        seq![]
    } else {
        let last = Some(parts.last());
        if text_at(at(last, "type"@)) == Some("output_text"@) {
            output_text(parts.drop_last()) + text_or(at(last, "text"@), ""@)
        } else {
            output_text(parts.drop_last())
        }
    }
}

/// The text of the parts of a summary.
pub open spec fn summary_text(parts: Seq<JsonView>) -> Seq<char>
    decreases parts.len(),
{
    if parts.len() == 0 {
        seq![]
    } else {
        summary_text(parts.drop_last()) + text_or(at(Some(parts.last()), "text"@), ""@)
    }
}

fn read_output_text(parts: &Vec<Json>) -> (out: String)
    ensures
        out@ == output_text(parts.deep_view()),
{
    let ghost all = parts.deep_view();
    let mut out = "".to_owned();
    proof {
        reveal_strlit("");
        assert(out@ =~= output_text(all.take(0)));
    }
    let mut i: usize = 0;
    while i < parts.len()
        invariant
            i <= parts@.len(),
            all == parts.deep_view(),
            out@ == output_text(all.take(i as int)),
        decreases parts@.len() - i,
    {
        proof {
            take_next(all, i as int);
        }
        let part = Some(&parts[i]);
        let shown = match text_in(member(part, "type")) {
            Some(kind) => same(kind, "output_text"),
            None => false,
        };
        if shown {
            out.push_str(text_or_else(member(part, "text"), ""));
        }
        i = i + 1;
    }
    proof {
        take_all(all);
    }
    out
}

fn read_summary(parts: &Vec<Json>) -> (out: String)
    ensures
        out@ == summary_text(parts.deep_view()),
{
    let ghost all = parts.deep_view();
    let mut out = "".to_owned();
    proof {
        reveal_strlit("");
        assert(out@ =~= summary_text(all.take(0)));
    }
    let mut i: usize = 0;
    while i < parts.len()
        invariant
            i <= parts@.len(),
            all == parts.deep_view(),
            out@ == summary_text(all.take(i as int)),
        decreases parts@.len() - i,
    {
        proof {
            take_next(all, i as int);
        }
        out.push_str(text_or_else(member(Some(&parts[i]), "text"), ""));
        i = i + 1;
    }
    proof {
        take_all(all);
    }
    out
}

/// The block that a complete item becomes; other items become none.
pub open spec fn block_of(item: Option<JsonView>) -> Option<BlockView> {
    let kind = text_or(at(item, "type"@), ""@);
    if kind == "message"@ {
        let t = output_text(parts_of(item, "content"@));
        if t.len() == 0 {
            None
        } else {
            Some(BlockView::Text(t))
        }
    } else if kind == "function_call"@ {
        Some(
            BlockView::ToolUse {
                id: match text_at(at(item, "call_id"@)) {
                    Some(id) => id,
                    None => text_or(at(item, "id"@), ""@),
                },
                name: text_or(at(item, "name"@), ""@),
                input: parsed_args(text_or(at(item, "arguments"@), ""@)),
            },
        )
    } else if kind == "reasoning"@ {
        Some(
            BlockView::Thinking {
                text: summary_text(parts_of(item, "summary"@)),
                provider_kind: Some(own_kind()),
                raw: item,
            },
        )
    } else {
        None
    }
}

pub fn block_from_item(item: Option<&Json>) -> (r: Option<Block>)
    ensures
        r.deep_view() == block_of(item.deep_view()),
{
    let kind = text_or_else(member(item, "type"), "");
    if same(kind, "message") {
        let t = match member(item, "content") {
            Some(Json::Array(parts)) => {
                assert(parts.deep_view() =~= parts_of(item.deep_view(), "content"@));
                read_output_text(parts)
            },
            _ => "".to_owned(),
        };
        proof {
            reveal_strlit("");
            assert(t@ =~= output_text(parts_of(item.deep_view(), "content"@)));
        }
        if t.as_str().unicode_len() == 0 {
            None
        } else {
            Some(Block::Text(t))
        }
    } else if same(kind, "function_call") {
        let id = match text_in(member(item, "call_id")) {
            Some(id) => id,
            None => text_or_else(member(item, "id"), ""),
        };
        Some(
            Block::ToolUse {
                id: id.to_owned(),
                name: text_or_else(member(item, "name"), "").to_owned(),
                input: parse_args(text_or_else(member(item, "arguments"), "")),
            },
        )
    } else if same(kind, "reasoning") {
        let summary = match member(item, "summary") {
            Some(Json::Array(parts)) => {
                assert(parts.deep_view() =~= parts_of(item.deep_view(), "summary"@));
                read_summary(parts)
            },
            _ => "".to_owned(),
        };
        proof {
            reveal_strlit("");
            assert(summary@ =~= summary_text(parts_of(item.deep_view(), "summary"@)));
        }
        let raw = match item {
            Some(j) => Some(j.clone()),
            None => None,
        };
        Some(
            Block::Thinking {
                text: summary,
                provider_kind: Some("openai_responses".to_owned()),
                raw,
            },
        )
    } else {
        None
    }
}

/// An item begins.
pub open spec fn item_added(s: StreamView, index: u64, item: Option<JsonView>) -> (
    StreamView,
    StepView,
) {
    let kind = text_or(at(item, "type"@), ""@);
    if kind == "message"@ {
        (
            StreamView { partials: with_slot(s.partials, index, PartialView::Msg(""@)), ..s },
            StepView::More,
        )
    } else if kind == "reasoning"@ {
        (
            StreamView { partials: with_slot(s.partials, index, PartialView::Reasoning(""@)), ..s },
            StepView::More,
        )
    } else if kind == "function_call"@ {
        let name = text_or(at(item, "name"@), ""@);
        (
            StreamView {
                partials: with_slot(
                    s.partials,
                    index,
                    PartialView::Fc {
                        call_id: text_or(at(item, "call_id"@), ""@),
                        name,
                        args: ""@,
                    },
                ),
                ..s
            },
            StepView::Event(EventView::ToolCallBegun { name }),
        )
    } else {
        (s, StepView::More)
    }
}

pub open spec fn text_grown(slots: Seq<(u64, PartialView)>, index: u64, piece: Seq<char>) -> Seq<
    (u64, PartialView),
> {
    match slot_at(slots, index) {
        Some(k) => match slots[k as int].1 {
            PartialView::Msg(t) => slots.update(k as int, (index, PartialView::Msg(t + piece))),
            _ => slots,
        },
        None => slots,
    }
}

pub open spec fn reasoning_grown(slots: Seq<(u64, PartialView)>, index: u64, piece: Seq<char>) -> Seq<
    (u64, PartialView),
> {
    match slot_at(slots, index) {
        Some(k) => match slots[k as int].1 {
            PartialView::Reasoning(t) => slots.update(
                k as int,
                (index, PartialView::Reasoning(t + piece)),
            ),
            _ => slots,
        },
        None => slots,
    }
}

pub open spec fn args_grown(slots: Seq<(u64, PartialView)>, index: u64, piece: Seq<char>) -> Seq<
    (u64, PartialView),
> {
    match slot_at(slots, index) {
        Some(k) => match slots[k as int].1 {
            PartialView::Fc { call_id, name, args } => slots.update(
                k as int,
                (index, PartialView::Fc { call_id, name, args: args + piece }),
            ),
            _ => slots,
        },
        None => slots,
    }
}

/// An item is complete: the whole item counts, not the pieces that came before.
pub open spec fn item_done(s: StreamView, index: u64, item: Option<JsonView>) -> StreamView {
    StreamView {
        partials: match slot_at(s.partials, index) {
            Some(k) => s.partials.remove(k as int),
            None => s.partials,
        },
        blocks: match block_of(item) {
            Some(block) => s.blocks.push(block),
            None => s.blocks,
        },
        ..s
    }
}

/// The prompt-cache traffic that a usage report tells of.
pub open spec fn cache_of(usage: Option<JsonView>) -> Option<CacheUsage> {
    let details = at(usage, "input_tokens_details"@);
    let read = number_at(at(details, "cached_tokens"@));
    let write = number_at(at(details, "cache_write_tokens"@));
    if read is Some || write is Some {
        Some(
            CacheUsage {
                read_tokens: if read is Some {
                    read->0
                } else {
                    0
                },
                write_tokens: if write is Some {
                    write->0
                } else {
                    0
                },
            },
        )
    } else {
        None
    }
}

fn cache_usage(usage: Option<&Json>) -> (r: Option<CacheUsage>)
    ensures
        r == cache_of(usage.deep_view()),
{
    let details = member(usage, "input_tokens_details");
    let read = number_in(member(details, "cached_tokens"));
    let write = number_in(member(details, "cache_write_tokens"));
    if read.is_none() && write.is_none() {
        return None;
    }
    let read_tokens: u64 = match read {
        Some(n) => n,
        None => 0,
    };
    let write_tokens: u64 = match write {
        Some(n) => n,
        None => 0,
    };
    Some(CacheUsage { read_tokens, write_tokens })
}

/// The usage after a report of the whole response; without one it stays.
pub open spec fn final_usage(before: Usage, report: Option<JsonView>) -> Usage {
    match report {
        None => before,
        Some(JsonView::Null) => before,
        Some(_) => Usage {
            input_tokens: number_or(at(report, "input_tokens"@), 0),
            output_tokens: number_or(at(report, "output_tokens"@), 0),
            cache: cache_of(report),
        },
    }
}

fn read_final_usage(before: Usage, report: Option<&Json>) -> (u: Usage)
    ensures
        u == final_usage(before, report.deep_view()),
{
    match report {
        None => before,
        Some(Json::Null) => before,
        Some(_) => Usage {
            input_tokens: number_or_else(member(report, "input_tokens"), 0),
            output_tokens: number_or_else(member(report, "output_tokens"), 0),
            cache: cache_usage(report),
        },
    }
}

/// The response is over.
pub open spec fn response_over(s: StreamView, response: Option<JsonView>, incomplete: bool) -> StreamView {
    let reason = text_or(at(at(response, "incomplete_details"@), "reason"@), "incomplete"@);
    StreamView {
        usage: final_usage(s.usage, at(response, "usage"@)),
        stop: if !incomplete {
            s.stop
        } else if reason == "max_output_tokens"@ {
            Some(StopView::MaxTokens)
        } else {
            Some(StopView::Other(reason))
        },
        ..s
    }
}

/// What an event makes of a stream, and what is reported of it. Unknown events change nothing.
pub open spec fn after_event(s: StreamView, event: JsonView) -> (StreamView, StepView) {
    let data = Some(event);
    let index = number_or(at(data, "output_index"@), 0);
    let kind = text_or(at(data, "type"@), ""@);
    let piece = text_or(at(data, "delta"@), ""@);
    let response = at(data, "response"@);
    if kind == "response.output_item.added"@ {
        item_added(s, index, at(data, "item"@))
    } else if kind == "response.output_text.delta"@ {
        (
            StreamView { partials: text_grown(s.partials, index, piece), ..s },
            StepView::Event(EventView::TextDelta(piece)),
        )
    } else if kind == "response.reasoning_summary_text.delta"@ || kind
        == "response.reasoning_text.delta"@ {
        (
            StreamView { partials: reasoning_grown(s.partials, index, piece), ..s },
            StepView::Event(EventView::ThinkingDelta(piece)),
        )
    } else if kind == "response.function_call_arguments.delta"@ {
        (StreamView { partials: args_grown(s.partials, index, piece), ..s }, StepView::More)
    } else if kind == "response.output_item.done"@ {
        (item_done(s, index, at(data, "item"@)), StepView::More)
    } else if kind == "response.completed"@ {
        (response_over(s, response, false), StepView::Finished)
    } else if kind == "response.incomplete"@ {
        (response_over(s, response, true), StepView::Finished)
    } else if kind == "response.failed"@ {
        (
            s,
            StepView::Failed(
                fatal_error(
                    "API 错误: "@ + text_or(
                        at(at(response, "error"@), "message"@),
                        "response.failed(无详情)"@,
                    ),
                ),
            ),
        )
    } else if kind == "error"@ {
        (
            s,
            StepView::Failed(
                fatal_error("API 流错误: "@ + text_or(at(data, "message"@), "未知"@)),
            ),
        )
    } else {
        (s, StepView::More)
    }
}

/// The block that an unfinished item leaves, if it leaves one. Its reasoning cannot be sent back.
pub open spec fn remnant(partial: PartialView) -> Option<BlockView> {
    match partial {
        PartialView::Msg(t) => if t.len() > 0 {
            Some(BlockView::Text(t))
        } else {
            None
        },
        PartialView::Fc { call_id, name, args } => Some(
            BlockView::ToolUse { id: call_id, name, input: parsed_args(args) },
        ),
        PartialView::Reasoning(t) => if t.len() > 0 {
            Some(BlockView::Thinking { text: t, provider_kind: None, raw: None })
        } else {
            None
        },
    }
}

fn salvage(partial: Partial) -> (r: Option<Block>)
    ensures
        r.deep_view() == remnant(partial.deep_view()),
{
    match partial {
        Partial::Msg(t) => if t.as_str().unicode_len() > 0 {
            Some(Block::Text(t))
        } else {
            None
        },
        Partial::Fc { call_id, name, args } => {
            let input = parse_args(args.as_str());
            Some(Block::ToolUse { id: call_id, name, input })
        },
        Partial::Reasoning(t) => if t.as_str().unicode_len() > 0 {
            Some(Block::Thinking { text: t, provider_kind: None, raw: None })
        } else {
            None
        },
    }
}

/// The blocks with what unfinished items leave, in the order of their numbers.
pub open spec fn swept(blocks: Seq<BlockView>, partials: Seq<(u64, PartialView)>) -> Seq<BlockView>
    decreases partials.len(),
{
    if partials.len() == 0 {
        blocks
    } else {
        match remnant(partials.last().1) {
            Some(block) => swept(blocks, partials.drop_last()).push(block),
            None => swept(blocks, partials.drop_last()),
        }
    }
}

pub open spec fn has_calls(blocks: Seq<BlockView>) -> bool {
    exists|i: int| 0 <= i < blocks.len() && (#[trigger] blocks[i]) is ToolUse
}

fn any_calls(blocks: &Vec<Block>) -> (r: bool)
    ensures
        r == has_calls(blocks.deep_view()),
{
    let mut i: usize = 0;
    while i < blocks.len()
        invariant
            i <= blocks@.len(),
            forall|k: int| 0 <= k < i ==> !((#[trigger] blocks.deep_view()[k]) is ToolUse),
        decreases blocks@.len() - i,
    {
        if let Block::ToolUse { .. } = &blocks[i] {
            assert(blocks.deep_view()[i as int] is ToolUse);
            return true;
        }
        i = i + 1;
    }
    false
}

/// What a stream comes to when it ends; it has to have seen its last event.
pub open spec fn stream_outcome(s: StreamView, finished: bool) -> Result<TurnView, ProviderErrorView> {
    let blocks = swept(s.blocks, s.partials);
    if !finished {
        Err(fatal_error("流在 response terminal 事件前结束"@))
    } else {
        Ok(
            TurnView {
                message: MessageView { role: Role::Assistant, blocks },
                usage: s.usage,
                stop: match s.stop {
                    Some(stop) => stop,
                    None => if has_calls(blocks) {
                        StopView::ToolUse
                    } else {
                        StopView::EndTurn
                    },
                },
                prompt_fingerprint: Some(s.prompt_fingerprint),
            },
        )
    }
}

impl ResponsesStream {
    fn add_item(&mut self, index: u64, item: Option<&Json>) -> (step: StreamStep)
        ensures
            (final(self).deep_view(), step.deep_view()) == item_added(
                old(self).deep_view(),
                index,
                item.deep_view(),
            ),
    {
        let kind = text_or_else(member(item, "type"), "");
        if same(kind, "message") {
            put_slot(&mut self.partials, index, Partial::Msg("".to_owned()));
            StreamStep::More
        } else if same(kind, "reasoning") {
            put_slot(&mut self.partials, index, Partial::Reasoning("".to_owned()));
            StreamStep::More
        } else if same(kind, "function_call") {
            let name = text_or_else(member(item, "name"), "");
            let call_id = text_or_else(member(item, "call_id"), "").to_owned();
            put_slot(
                &mut self.partials,
                index,
                Partial::Fc { call_id, name: name.to_owned(), args: "".to_owned() },
            );
            StreamStep::Event(ProviderEvent::ToolCallBegun { name: name.to_owned() })
        } else {
            StreamStep::More
        }
    }

    fn grow_text(&mut self, index: u64, piece: &str)
        ensures
            final(self).deep_view() == (StreamView {
                partials: text_grown(old(self).deep_view().partials, index, piece@),
                ..old(self).deep_view()
            }),
    {
        let ghost before = self.partials.deep_view();
        if let Some(k) = find_slot(&self.partials, index) {
            let grown = match &self.partials[k].1 {
                Partial::Msg(t) => Some(concat2(t.as_str(), piece)),
                _ => None,
            };
            if let Some(t) = grown {
                self.partials.set(k, (index, Partial::Msg(t)));
            }
        }
        assert(self.partials.deep_view() =~= text_grown(before, index, piece@));
    }

    fn grow_reasoning(&mut self, index: u64, piece: &str)
        ensures
            final(self).deep_view() == (StreamView {
                partials: reasoning_grown(old(self).deep_view().partials, index, piece@),
                ..old(self).deep_view()
            }),
    {
        let ghost before = self.partials.deep_view();
        if let Some(k) = find_slot(&self.partials, index) {
            let grown = match &self.partials[k].1 {
                Partial::Reasoning(t) => Some(concat2(t.as_str(), piece)),
                _ => None,
            };
            if let Some(t) = grown {
                self.partials.set(k, (index, Partial::Reasoning(t)));
            }
        }
        assert(self.partials.deep_view() =~= reasoning_grown(before, index, piece@));
    }

    fn grow_args(&mut self, index: u64, piece: &str)
        ensures
            final(self).deep_view() == (StreamView {
                partials: args_grown(old(self).deep_view().partials, index, piece@),
                ..old(self).deep_view()
            }),
    {
        let ghost before = self.partials.deep_view();
        if let Some(k) = find_slot(&self.partials, index) {
            let grown = match &self.partials[k].1 {
                Partial::Fc { call_id, name, args } => Some(
                    Partial::Fc {
                        call_id: call_id.clone(),
                        name: name.clone(),
                        args: concat2(args.as_str(), piece),
                    },
                ),
                _ => None,
            };
            if let Some(p) = grown {
                self.partials.set(k, (index, p));
            }
        }
        assert(self.partials.deep_view() =~= args_grown(before, index, piece@));
    }

    fn complete_item(&mut self, index: u64, item: Option<&Json>)
        ensures
            final(self).deep_view() == item_done(old(self).deep_view(), index, item.deep_view()),
    {
        let ghost before = self.partials.deep_view();
        if let Some(k) = find_slot(&self.partials, index) {
            let _ = self.partials.remove(k);
            assert(self.partials.deep_view() =~= before.remove(k as int));
        }
        if let Some(block) = block_from_item(item) {
            put(&mut self.blocks, block);
        }
    }

    fn close_response(&mut self, response: Option<&Json>, incomplete: bool)
        ensures
            final(self).deep_view() == response_over(
                old(self).deep_view(),
                response.deep_view(),
                incomplete,
            ),
    {
        self.usage = read_final_usage(self.usage, member(response, "usage"));
        if incomplete {
            let reason = text_or_else(
                member(member(response, "incomplete_details"), "reason"),
                "incomplete",
            );
            self.stop =
            Some(
                if same(reason, "max_output_tokens") {
                    StopReason::MaxTokens
                } else {
                    StopReason::Other(reason.to_owned())
                },
            );
        }
    }

    /// Takes in an event of the stream.
    pub fn on_event(&mut self, event: &Json) -> (step: StreamStep)
        ensures
            (final(self).deep_view(), step.deep_view()) == after_event(
                old(self).deep_view(),
                event@,
            ),
    {
        let data = Some(event);
        let index: u64 = number_or_else(member(data, "output_index"), 0);
        let kind = text_or_else(member(data, "type"), "");
        let piece = text_or_else(member(data, "delta"), "");
        let response = member(data, "response");
        if same(kind, "response.output_item.added") {
            self.add_item(index, member(data, "item"))
        } else if same(kind, "response.output_text.delta") {
            self.grow_text(index, piece);
            StreamStep::Event(ProviderEvent::TextDelta(piece.to_owned()))
        } else if same(kind, "response.reasoning_summary_text.delta") || same(
            kind,
            "response.reasoning_text.delta",
        ) {
            self.grow_reasoning(index, piece);
            StreamStep::Event(ProviderEvent::ThinkingDelta(piece.to_owned()))
        } else if same(kind, "response.function_call_arguments.delta") {
            self.grow_args(index, piece);
            StreamStep::More
        } else if same(kind, "response.output_item.done") {
            self.complete_item(index, member(data, "item"));
            StreamStep::More
        } else if same(kind, "response.completed") {
            self.close_response(response, false);
            StreamStep::Finished
        } else if same(kind, "response.incomplete") {
            self.close_response(response, true);
            StreamStep::Finished
        } else if same(kind, "response.failed") {
            let reason = text_or_else(
                member(member(response, "error"), "message"),
                "response.failed(无详情)",
            );
            StreamStep::Failed(ProviderError::fatal(concat2("API 错误: ", reason)))
        } else if same(kind, "error") {
            let reason = text_or_else(member(data, "message"), "未知");
            StreamStep::Failed(ProviderError::fatal(concat2("API 流错误: ", reason)))
        } else {
            StreamStep::More
        }
    }

    /// Takes in the data of an event, as it stands in the stream.
    pub fn on_data(&mut self, text: &str) -> (step: StreamStep)
        ensures
            exists|data: EventData| #[trigger]
                event_data(text@, data) && match data {
                    EventData::End => final(self).deep_view() == old(self).deep_view()
                        && step.deep_view() == StepView::Finished,
                    EventData::Value(event) => (final(self).deep_view(), step.deep_view())
                        == after_event(old(self).deep_view(), event@),
                    EventData::Bad(error) => final(self).deep_view() == old(self).deep_view()
                        && step.deep_view() == StepView::Failed(error.deep_view()),
                },
    {
        let data = read_event_data(text);
        let ghost shown = data;
        assert(event_data(text@, shown));
        match data {
            EventData::End => StreamStep::Finished,
            EventData::Value(event) => self.on_event(&event),
            EventData::Bad(error) => StreamStep::Failed(error),
        }
    }

    /// What the stream comes to; `finished` says whether its last event was seen.
    pub fn finish(self, finished: bool) -> (r: Result<TurnOutput, ProviderError>)
        ensures
            match stream_outcome(self.deep_view(), finished) {
                Ok(output) => r is Ok && r->Ok_0.deep_view() == output,
                Err(error) => r is Err && r->Err_0.deep_view() == error,
            },
    {
        if !finished {
            return Err(ProviderError::fatal("流在 response terminal 事件前结束".to_owned()));
        }
        let ghost start = self.blocks.deep_view();
        let ghost all = self.partials.deep_view();
        let ResponsesStream { partials, blocks, usage, stop, prompt_fingerprint } = self;
        let mut rest = partials;
        let mut blocks = blocks;
        let ghost mut done: int = 0;
        proof {
            assert(all.skip(0) =~= all);
            assert(all.take(0) =~= seq![]);
        }
        while rest.len() > 0
            invariant
                0 <= done <= all.len(),
                rest.deep_view() == all.skip(done),
                blocks.deep_view() == swept(start, all.take(done)),
            decreases rest@.len(),
        {
            let (_, partial) = pull(&mut rest);
            proof {
                take_next(all, done);
                assert(all.skip(done)[0] == all[done]);
                assert(all.skip(done).drop_first() =~= all.skip(done + 1));
            }
            if let Some(block) = salvage(partial) {
                put(&mut blocks, block);
            }
            proof {
                done = done + 1;
            }
        }
        proof {
            take_all(all);
        }
        let stop = match stop {
            Some(stop) => stop,
            None => if any_calls(&blocks) {
                StopReason::ToolUse
            } else {
                StopReason::EndTurn
            },
        };
        Ok(
            TurnOutput {
                message: ChatMessage { role: Role::Assistant, blocks },
                usage,
                stop,
                prompt_fingerprint: Some(prompt_fingerprint),
            },
        )
    }
}

// ---- Laws ----

/// A reasoning item that came from the service goes back to it exactly as it came.
pub proof fn law_reasoning_goes_back_unchanged(item: JsonView)
    requires
        text_at(at(Some(item), "type"@)) == Some("reasoning"@),
    ensures
        block_of(Some(item)) is Some,
        input_item(Role::Assistant, block_of(Some(item))->0, true) == Some(item),
{
    reveal_strlit("message");
    reveal_strlit("reasoning");
    reveal_strlit("function_call");
    assert("message"@.len() == 7 && "reasoning"@.len() == 9 && "function_call"@.len() == 13);
}

/// Reasoning that another adapter stored, or that is not complete, is never sent.
pub proof fn law_foreign_reasoning_is_dropped(
    thought: Seq<char>,
    provider_kind: Option<Seq<char>>,
    raw: Option<JsonView>,
    replay: bool,
)
    requires
        provider_kind != Some(own_kind()) || raw is None || !replay,
    ensures
        input_item(
            Role::Assistant,
            BlockView::Thinking { text: thought, provider_kind, raw },
            replay,
        ) is None,
{
}

/// A stream that ends before its last event is an error, whatever it has brought.
pub proof fn law_truncated_streams_fail(s: StreamView)
    ensures
        stream_outcome(s, false) == Err::<TurnView, ProviderErrorView>(
            fatal_error("流在 response terminal 事件前结束"@),
        ),
{
}

} // verus!
