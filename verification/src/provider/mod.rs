//! Model services: the common interface of the adapters, and what they share.
//!
//! An adapter turns a prompt and the tool declarations into a request of its service, and the
//! service's event stream back into messages and events that are the same for all of them.
use vstd::prelude::*;

use crate::config::{profile_label, ApiKind, ProviderProfile, ProviderSettings, SettingsView};
use crate::context::{system_of, PromptContext, PromptView};
use crate::hash::{hash_text, text_hash};
use crate::json::{
    at, member, nil, obj, parsed_json, printed_json, text_at, text_in, Fields, Json, JsonView,
};
use crate::list::{empty, take_all, take_next};
use crate::message::{ChatMessage, MessageView, Role, StopReason, StopView, Usage};
use crate::provider::anthropic::{AnthropicProvider, AnthropicStream};
use crate::provider::openai_responses::{ResponsesProvider, ResponsesStream};
use crate::text::{
    begins, concat2, concat3, dec, decimal, ends, ends_with, put_entry, read_number, number_of,
    same, sorted_entries, trim, trim_end_char, trim_start_text, trimmed, without_end, without_start,
};
use crate::time::Duration;
use crate::tools::{ToolSpec, ToolSpecView};
use crate::util::{ellipsis, end_cut};

pub mod anthropic;
pub mod heard;
pub mod openai_responses;
pub mod replies;
pub mod sent;
pub mod sse;

verus! {

/// What a stream reports on its way.
#[derive(Debug)]
pub enum ProviderEvent {
    TextDelta(String),
    ThinkingDelta(String),
    /// The model begins a tool call, whose arguments are still on their way.
    ToolCallBegun { name: String },
}

#[verifier::ext_equal]
pub enum EventView {
    TextDelta(Seq<char>),
    ThinkingDelta(Seq<char>),
    ToolCallBegun { name: Seq<char> },
}

impl DeepView for ProviderEvent {
    type V = EventView;

    open spec fn deep_view(&self) -> EventView {
        match *self {
            ProviderEvent::TextDelta(t) => EventView::TextDelta(t@),
            ProviderEvent::ThinkingDelta(t) => EventView::ThinkingDelta(t@),
            ProviderEvent::ToolCallBegun { name } => EventView::ToolCallBegun { name: name@ },
        }
    }
}

/// What a model call brought.
#[derive(Debug)]
pub struct TurnOutput {
    pub message: ChatMessage,
    pub usage: Usage,
    pub stop: StopReason,
    pub prompt_fingerprint: Option<String>,
}

#[verifier::ext_equal]
pub struct TurnView {
    pub message: MessageView,
    pub usage: Usage,
    pub stop: StopView,
    pub prompt_fingerprint: Option<Seq<char>>,
}

impl DeepView for TurnOutput {
    type V = TurnView;

    open spec fn deep_view(&self) -> TurnView {
        TurnView {
            message: self.message.deep_view(),
            usage: self.usage,
            stop: self.stop.deep_view(),
            prompt_fingerprint: self.prompt_fingerprint.deep_view(),
        }
    }
}

/// Why a model call failed. A retryable failure may be gone at the next try.
#[derive(Debug)]
pub struct ProviderError {
    pub message: String,
    pub retryable: bool,
    pub retry_after: Option<Duration>,
}

#[verifier::ext_equal]
pub struct ProviderErrorView {
    pub message: Seq<char>,
    pub retryable: bool,
    pub retry_after: Option<Duration>,
}

impl DeepView for ProviderError {
    type V = ProviderErrorView;

    open spec fn deep_view(&self) -> ProviderErrorView {
        ProviderErrorView {
            message: self.message@,
            retryable: self.retryable,
            retry_after: self.retry_after,
        }
    }
}

impl Clone for ProviderError {
    fn clone(&self) -> (r: ProviderError)
        ensures
            r.deep_view() == self.deep_view(),
    {
        ProviderError {
            message: self.message.clone(),
            retryable: self.retryable,
            retry_after: self.retry_after,
        }
    }
}

/// A failure that no retry mends.
pub open spec fn fatal_error(message: Seq<char>) -> ProviderErrorView {
    ProviderErrorView { message, retryable: false, retry_after: None }
}

impl ProviderError {
    pub fn fatal(message: String) -> (e: ProviderError)
        ensures
            e.deep_view() == fatal_error(message@),
    {
        ProviderError { message, retryable: false, retry_after: None }
    }

    /// The error as it is shown.
    pub fn describe(&self) -> (s: &str)
        ensures
            s@ == self.message@,
    {
        self.message.as_str()
    }
}

/// How a model call ended.
#[derive(Debug)]
pub enum StreamTerminal {
    Done(TurnOutput),
    Error(FailedTurn),
    Aborted(FailedTurn),
}

#[verifier::ext_equal]
pub enum TerminalView {
    Done(TurnView),
    Error(FailedView),
    Aborted(FailedView),
}

impl DeepView for StreamTerminal {
    type V = TerminalView;

    open spec fn deep_view(&self) -> TerminalView {
        match *self {
            StreamTerminal::Done(output) => TerminalView::Done(output.deep_view()),
            StreamTerminal::Error(failed) => TerminalView::Error(failed.deep_view()),
            StreamTerminal::Aborted(failed) => TerminalView::Aborted(failed.deep_view()),
        }
    }
}

/// What is left of a failed model call.
#[derive(Debug)]
pub struct FailedTurn {
    pub message: ChatMessage,
    pub error: ProviderError,
}

#[verifier::ext_equal]
pub struct FailedView {
    pub message: MessageView,
    pub error: ProviderErrorView,
}

impl DeepView for FailedTurn {
    type V = FailedView;

    open spec fn deep_view(&self) -> FailedView {
        FailedView { message: self.message.deep_view(), error: self.error.deep_view() }
    }
}

/// A failure without any content.
pub open spec fn failed_with(error: ProviderErrorView) -> FailedView {
    FailedView { message: MessageView { role: Role::Assistant, blocks: seq![] }, error }
}

impl FailedTurn {
    pub fn from_error(error: ProviderError) -> (f: FailedTurn)
        ensures
            f.deep_view() == failed_with(error.deep_view()),
    {
        FailedTurn { message: ChatMessage::empty_assistant(), error }
    }

    pub fn aborted() -> (f: FailedTurn)
        ensures
            f.deep_view() == failed_with(fatal_error("模型调用已取消"@)),
    {
        FailedTurn::from_error(ProviderError::fatal("模型调用已取消".to_owned()))
    }
}

/// What a decoded stream event comes to.
#[derive(Debug)]
pub enum StreamStep {
    /// Nothing to report; the stream goes on.
    More,
    Event(ProviderEvent),
    /// The last event; nothing behind it is read.
    Finished,
    Failed(ProviderError),
}

#[verifier::ext_equal]
pub enum StepView {
    More,
    Event(EventView),
    Finished,
    Failed(ProviderErrorView),
}

impl DeepView for StreamStep {
    type V = StepView;

    open spec fn deep_view(&self) -> StepView {
        match *self {
            StreamStep::More => StepView::More,
            StreamStep::Event(event) => StepView::Event(event.deep_view()),
            StreamStep::Finished => StepView::Finished,
            StreamStep::Failed(error) => StepView::Failed(error.deep_view()),
        }
    }
}

/// A request that asks for an event stream.
#[derive(Debug)]
pub struct HttpRequest {
    pub url: String,
    pub headers: Vec<(String, String)>,
    pub body: String,
}

#[verifier::ext_equal]
pub struct RequestView {
    pub url: Seq<char>,
    pub headers: Seq<(Seq<char>, Seq<char>)>,
    pub body: Seq<char>,
}

impl DeepView for HttpRequest {
    type V = RequestView;

    open spec fn deep_view(&self) -> RequestView {
        RequestView {
            url: self.url@,
            headers: self.headers.deep_view(),
            body: self.body@,
        }
    }
}

/// How a provider is shown.
pub open spec fn label_of(settings: SettingsView) -> Seq<char> {
    settings.name + " / "@ + settings.model
}

/// An adapter of a model service.
pub trait Provider {
    spec fn settings(&self) -> SettingsView;

    /// What the status line shows, such as `openai / gpt-5`.
    fn label(&self) -> (s: String)
        ensures
            s@ == label_of(self.settings()),
    ;

    fn model(&self) -> (s: &str)
        ensures
            s@ == self.settings().model,
    ;

    fn set_model(&mut self, model: String)
        ensures
            final(self).settings() == (SettingsView { model: model@, ..old(self).settings() }),
    ;
}

// ---- What the adapters share ----

/// Where an endpoint is, whether the base names the version or not.
pub open spec fn joined_url(base: Seq<char>, versioned_path: Seq<char>) -> Seq<char> {
    let b = without_end(base, '/');
    if ends(b, "/v1"@) {
        b + "/"@ + without_start(versioned_path, "v1/"@)
    } else {
        b + "/"@ + versioned_path
    }
}

pub fn url_join(base: &str, versioned_path: &str) -> (s: String)
    ensures
        s@ == joined_url(base@, versioned_path@),
{
    let b = trim_end_char(base, '/');
    if ends_with(b, "/v1") {
        concat3(b, "/", trim_start_text(versioned_path, "v1/"))
    } else {
        concat3(b, "/", versioned_path)
    }
}

/// A base address works with and without the version: both lead to the same endpoint.
pub proof fn law_version_in_the_base_makes_no_difference(base: Seq<char>, path: Seq<char>)
    requires
        without_end(base, '/') == base,
        !ends(base, "/v1"@),
        !begins(path, "v1/"@),
    ensures
        joined_url(base + "/v1"@, "v1/"@ + path) == joined_url(base, "v1/"@ + path),
{
    reveal_strlit("/v1");
    reveal_strlit("v1/");
    reveal_strlit("/");
    let long = base + "/v1"@;
    let p = "v1/"@ + path;
    assert(long.last() == '1');
    assert(without_end(long, '/') == long);
    assert(long.skip(long.len() - 3) =~= "/v1"@);
    assert(p.take(3) =~= "v1/"@);
    assert(p.skip(3) =~= path);
    assert(without_start(p, "v1/"@) == without_start(path, "v1/"@));
    assert(without_start(path, "v1/"@) == path);
    assert(long + "/"@ + path =~= base + "/"@ + p);
}

/// Slashes at the end of a base address make no difference.
pub proof fn law_trailing_slashes_make_no_difference(base: Seq<char>, path: Seq<char>)
    ensures
        joined_url(base + "/"@, path) == joined_url(base, path),
{
    reveal_strlit("/");
    let long = base + "/"@;
    assert(long.drop_last() =~= base);
    assert(long.last() == '/');
}

/// The arguments of a tool call as one text. What did not parse is sent back as it came.
pub open spec fn args_text(input: JsonView) -> Seq<char> {
    match input {
        JsonView::Str(t) => t,
        _ => printed_json(input),
    }
}

pub fn args_to_string(input: &Json) -> (s: String)
    ensures
        s@ == args_text(input@),
{
    match input {
        Json::Str(t) => t.clone(),
        _ => input.print(),
    }
}

/// The arguments that a stream brought: an empty text is an empty object, and what is not JSON
/// stays a text, so that the tool can say what is wrong with it.
pub open spec fn parsed_args(raw: Seq<char>) -> JsonView {
    if trimmed(raw).len() == 0 {
        obj(nil())
    } else {
        match parsed_json(trimmed(raw)) {
            Ok(value) => value,
            Err(_) => JsonView::Str(raw),
        }
    }
}

pub fn parse_args(raw: &str) -> (j: Json)
    ensures
        j@ == parsed_args(raw@),
{
    let t = trim(raw);
    if t.unicode_len() == 0 {
        return Fields::new().done();
    }
    match Json::parse(t) {
        Ok(value) => value,
        Err(_) => Json::Str(raw.to_owned()),
    }
}

/// The arguments of a tool call as an object.
pub open spec fn args_object(input: JsonView) -> JsonView {
    match input {
        JsonView::Object(_) => input,
        _ => obj(nil().push(("_raw"@, JsonView::Str(args_text(input))))),
    }
}

pub fn args_to_object(input: &Json) -> (j: Json)
    ensures
        j@ == args_object(input@),
{
    match input {
        Json::Object(_) => input.clone(),
        _ => Fields::new().with("_raw", Json::Str(args_to_string(input))).done(),
    }
}

/// What a service says is wrong, out of the body of its answer.
pub open spec fn api_error(body: Seq<char>) -> Seq<char> {
    let root: Option<JsonView> = match parsed_json(body) {
        Ok(value) => Some(value),
        Err(_) => None,
    };
    let inner = text_at(at(at(root, "error"@), "message"@));
    let outer = text_at(at(root, "message"@));
    if inner is Some {
        inner->0
    } else if outer is Some {
        outer->0
    } else if trimmed(body).len() == 0 {
        "(空响应体)"@
    } else {
        end_cut(trimmed(body), 400)
    }
}

pub fn extract_api_error(body: &str) -> (s: String)
    ensures
        s@ == api_error(body@),
{
    let parsed = Json::parse(body);
    let root = match &parsed {
        Ok(value) => Some(value),
        Err(_) => None,
    };
    if let Some(t) = text_in(member(member(root, "error"), "message")) {
        return t.to_owned();
    }
    if let Some(t) = text_in(member(root, "message")) {
        return t.to_owned();
    }
    let t = trim(body);
    if t.unicode_len() == 0 {
        "(空响应体)".to_owned()
    } else {
        ellipsis(t, 400)
    }
}

/// When a service asks to be tried again: the header in milliseconds goes before the one in
/// seconds.
pub open spec fn asked_delay(millis: Option<Seq<char>>, secs: Option<Seq<char>>) -> Option<Duration> {
    let a = match millis {
        Some(t) => number_of(t),
        None => None,
    };
    let b = match secs {
        Some(t) => number_of(t),
        None => None,
    };
    if a is Some {
        Some(Duration { nanos: (a->0 * 1_000_000) as u128 })
    } else if b is Some {
        Some(Duration { nanos: (b->0 * 1_000_000_000) as u128 })
    } else {
        None
    }
}

pub fn retry_after(millis: Option<&str>, secs: Option<&str>) -> (r: Option<Duration>)
    ensures
        r == asked_delay(millis.deep_view(), secs.deep_view()),
{
    if let Some(t) = millis {
        if let Some(n) = read_number(t) {
            return Some(Duration::from_millis(n));
        }
    }
    if let Some(t) = secs {
        if let Some(n) = read_number(t) {
            return Some(Duration::from_secs(n));
        }
    }
    None
}

/// Whether a status may be gone at the next try: timeouts, rate limits and faults of the service.
pub open spec fn retryable_status(code: u16) -> bool {
    code == 408 || code == 429 || code >= 500
}

/// The error for an answer with a status that is no success.
pub fn status_error(code: u16, millis: Option<&str>, secs: Option<&str>, body: &str) -> (e:
    ProviderError)
    ensures
        e.deep_view() == (ProviderErrorView {
            message: "HTTP "@ + dec(code as nat) + ": "@ + api_error(body@),
            retryable: retryable_status(code),
            retry_after: asked_delay(millis.deep_view(), secs.deep_view()),
        }),
{
    let mut message = concat3("HTTP ", decimal(code as u64).as_str(), ": ");
    message.push_str(extract_api_error(body).as_str());
    ProviderError {
        message,
        retryable: code == 408 || code == 429 || code >= 500,
        retry_after: retry_after(millis, secs),
    }
}

/// The error for a request that got no answer.
pub fn transport_error(text: &str) -> (e: ProviderError)
    ensures
        e.deep_view() == (ProviderErrorView {
            message: "网络错误: "@ + text@,
            retryable: true,
            retry_after: None,
        }),
{
    ProviderError { message: concat2("网络错误: ", text), retryable: true, retry_after: None }
}

/// The error for a stream that broke off while it was read.
pub fn read_error(text: &str) -> (e: ProviderError)
    ensures
        e.deep_view() == fatal_error("读取流失败: "@ + text@),
{
    ProviderError::fatal(concat2("读取流失败: ", text))
}

/// What an event's data holds: the mark that ends a stream, a JSON value, or neither.
#[derive(Debug)]
pub enum EventData {
    End,
    Value(Json),
    Bad(ProviderError),
}

pub open spec fn event_data(text: Seq<char>, data: EventData) -> bool {
    if text == "[DONE]"@ {
        data is End
    } else {
        match parsed_json(text) {
            Ok(value) => data is Value && data->Value_0@ == value,
            Err(e) => data is Bad && data->Bad_0.deep_view() == fatal_error(
                "流事件 JSON 无效: "@ + e,
            ),
        }
    }
}

pub fn read_event_data(text: &str) -> (data: EventData)
    ensures
        event_data(text@, data),
{
    if same(text, "[DONE]") {
        return EventData::End;
    }
    match Json::parse(text) {
        Ok(value) => EventData::Value(value),
        Err(e) => EventData::Bad(
            ProviderError::fatal(concat2("流事件 JSON 无效: ", e.as_str())),
        ),
    }
}

// ---- Tools and fingerprints ----

/// How a service wants a tool declared.
#[derive(Debug, Clone, Copy, PartialEq, Eq, Structural)]
pub enum ToolStyle {
    Messages,
    Responses,
}

pub open spec fn tool_item(style: ToolStyle, tool: ToolSpecView) -> JsonView {
    match style {
        ToolStyle::Messages => obj(
            nil().push(("name"@, JsonView::Str(tool.name))).push(
                ("description"@, JsonView::Str(tool.description)),
            ).push(("input_schema"@, tool.schema)),
        ),
        ToolStyle::Responses => obj(
            nil().push(("type"@, JsonView::Str("function"@))).push(
                ("name"@, JsonView::Str(tool.name)),
            ).push(("description"@, JsonView::Str(tool.description))).push(
                ("parameters"@, tool.schema),
            ),
        ),
    }
}

pub(crate) fn encode_tool(style: ToolStyle, tool: &ToolSpec) -> (j: Json)
    ensures
        j@ == tool_item(style, tool.deep_view()),
{
    match style {
        ToolStyle::Messages => Fields::new().with("name", Json::Str(tool.name.clone())).with(
            "description",
            Json::Str(tool.description.clone()),
        ).with("input_schema", tool.schema.clone()).done(),
        ToolStyle::Responses => Fields::new().with("type", crate::json::text("function")).with(
            "name",
            Json::Str(tool.name.clone()),
        ).with("description", Json::Str(tool.description.clone())).with(
            "parameters",
            tool.schema.clone(),
        ).done(),
    }
}

/// The tools' declarations under their names.
pub open spec fn tool_entries(style: ToolStyle, tools: Seq<ToolSpecView>) -> Seq<(Seq<char>, JsonView)> {
    Seq::new(tools.len(), |i: int| (tools[i].name, tool_item(style, tools[i])))
}

/// The tools' declarations in the order of their names, so that the same tools always make the
/// same request.
pub open spec fn sorted_items(style: ToolStyle, tools: Seq<ToolSpecView>) -> Seq<JsonView> {
    let sorted = sorted_entries(tool_entries(style, tools));
    Seq::new(sorted.len(), |i: int| sorted[i].1)
}

pub fn sorted_tools(style: ToolStyle, tools: &Vec<ToolSpec>) -> (out: Vec<Json>)
    ensures
        out.deep_view() == sorted_items(style, tools.deep_view()),
{
    let ghost all = tool_entries(style, tools.deep_view());
    let mut entries: Vec<(String, Json)> = empty();
    let mut i: usize = 0;
    while i < tools.len()
        invariant
            i <= tools@.len(),
            all == tool_entries(style, tools.deep_view()),
            entries.deep_view() == sorted_entries(all.take(i as int)),
        decreases tools@.len() - i,
    {
        proof {
            take_next(all, i as int);
        }
        put_entry(&mut entries, (tools[i].name.clone(), encode_tool(style, &tools[i])));
        i = i + 1;
    }
    proof {
        take_all(all);
    }
    let mut out: Vec<Json> = Vec::new();
    let mut k: usize = 0;
    while k < entries.len()
        invariant
            k <= entries@.len(),
            entries.deep_view() == sorted_entries(all),
            out@.len() == k,
            forall|n: int| 0 <= n < k ==> (#[trigger] out@[n])@ == entries@[n].1@,
        decreases entries@.len() - k,
    {
        out.push(entries[k].1.clone());
        k = k + 1;
    }
    proof {
        assert(out.deep_view() =~= sorted_items(style, tools.deep_view())) by {
            let sorted = sorted_entries(all);
            assert forall|n: int| 0 <= n < sorted.len() implies out.deep_view()[n] == sorted[n].1 by {
                assert(entries.deep_view()[n].1 == entries@[n].1@);
            }
        }
    }
    out
}

/// The part of a prompt that stays the same from one turn to the next: which model is asked, what
/// the system text says and which tools there are.
pub open spec fn stable_part(
    profile: ProviderProfile,
    model: Seq<char>,
    prompt: PromptView,
    tools: Seq<ToolSpecView>,
) -> JsonView {
    obj(
        nil().push(("profile"@, JsonView::Str(profile_label(profile)))).push(
            ("model"@, JsonView::Str(model)),
        ).push(("system"@, JsonView::Str(system_of(prompt)))).push(
            ("tools"@, JsonView::Array(sorted_items(ToolStyle::Messages, tools))),
        ),
    )
}

/// The hash of what stays the same.
pub open spec fn stable_hash(
    profile: ProviderProfile,
    model: Seq<char>,
    prompt: PromptView,
    tools: Seq<ToolSpecView>,
) -> Seq<char> {
    text_hash(printed_json(stable_part(profile, model, prompt, tools)))
}

fn hash_stable_part(
    profile: ProviderProfile,
    model: &str,
    prompt: &PromptContext,
    tools: &Vec<ToolSpec>,
) -> (s: String)
    ensures
        s@ == stable_hash(profile, model@, prompt.deep_view(), tools.deep_view()),
{
    let items = sorted_tools(ToolStyle::Messages, tools);
    let part = Fields::new().with("profile", crate::json::text(profile.label())).with(
        "model",
        crate::json::text(model),
    ).with("system", Json::Str(prompt.system_text())).with(
        "tools",
        crate::json::array(items),
    ).done();
    hash_text(part.print().as_str())
}

pub fn prompt_fingerprint(
    profile: ProviderProfile,
    model: &str,
    prompt: &PromptContext,
    tools: &Vec<ToolSpec>,
) -> (s: String)
    ensures
        s@ == "sha256:"@ + stable_hash(profile, model@, prompt.deep_view(), tools.deep_view()),
{
    concat2("sha256:", hash_stable_part(profile, model, prompt, tools).as_str())
}

/// The key under which the service may cache the prompt.
pub fn prompt_cache_key(
    profile: ProviderProfile,
    model: &str,
    prompt: &PromptContext,
    tools: &Vec<ToolSpec>,
) -> (s: String)
    ensures
        s@ == "onemore:v1:openai-responses:"@ + stable_hash(
            profile,
            model@,
            prompt.deep_view(),
            tools.deep_view(),
        ),
{
    concat2(
        "onemore:v1:openai-responses:",
        hash_stable_part(profile, model, prompt, tools).as_str(),
    )
}

/// Neither the fingerprint nor the cache key depends on the conversation.
pub proof fn law_fingerprints_ignore_messages(
    profile: ProviderProfile,
    model: Seq<char>,
    a: PromptView,
    b: PromptView,
    tools: Seq<ToolSpecView>,
)
    requires
        a.system_sections == b.system_sections,
    ensures
        stable_hash(profile, model, a, tools) == stable_hash(profile, model, b, tools),
{
}

// ---- Any adapter ----

/// The adapter that a configuration asks for.
#[derive(Debug)]
pub enum AnyProvider {
    Messages(AnthropicProvider),
    Responses(ResponsesProvider),
}

impl Provider for AnyProvider {
    open spec fn settings(&self) -> SettingsView {
        match *self {
            AnyProvider::Messages(p) => p.settings.deep_view(),
            AnyProvider::Responses(p) => p.settings.deep_view(),
        }
    }

    fn label(&self) -> (s: String) {
        match self {
            AnyProvider::Messages(p) => p.label(),
            AnyProvider::Responses(p) => p.label(),
        }
    }

    fn model(&self) -> (s: &str) {
        match self {
            AnyProvider::Messages(p) => p.model(),
            AnyProvider::Responses(p) => p.model(),
        }
    }

    fn set_model(&mut self, model: String)
        ensures
            final(self).api() == old(self).api(),
    {
        match self {
            AnyProvider::Messages(p) => p.set_model(model),
            AnyProvider::Responses(p) => p.set_model(model),
        }
    }
}

/// Makes the adapter for the interface that the settings name.
pub fn build_provider(settings: ProviderSettings) -> (p: AnyProvider)
    ensures
        p.settings() == settings.deep_view(),
        p.api() == settings.api,
{
    match settings.api {
        ApiKind::Messages => AnyProvider::Messages(AnthropicProvider::new(settings)),
        ApiKind::Responses => AnyProvider::Responses(ResponsesProvider::new(settings)),
    }
}

/// The request that a prompt makes of a service.
pub open spec fn request_of(
    api: ApiKind,
    settings: SettingsView,
    prompt: PromptView,
    tools: Seq<ToolSpecView>,
) -> RequestView {
    match api {
        ApiKind::Messages => RequestView {
            url: joined_url(settings.base_url, "v1/messages"@),
            headers: anthropic::request_headers(settings),
            body: printed_json(anthropic::request_body(settings, prompt, tools)),
        },
        ApiKind::Responses => RequestView {
            url: joined_url(settings.base_url, "v1/responses"@),
            headers: openai_responses::request_headers(settings),
            body: printed_json(openai_responses::request_body(settings, prompt, tools)),
        },
    }
}

/// What any adapter's stream has brought so far.
#[derive(Debug)]
pub enum AnyStream {
    Messages(AnthropicStream),
    Responses(ResponsesStream),
}

/// What a stream comes to when it ends.
pub open spec fn outcome_of(s: AnyStream, finished: bool) -> Result<TurnView, ProviderErrorView> {
    match s {
        AnyStream::Messages(s) => anthropic::stream_outcome(s.deep_view(), finished),
        AnyStream::Responses(s) => openai_responses::stream_outcome(s.deep_view(), finished),
    }
}

/// Whether an event turns one stream into another and reports `step`.
pub open spec fn event_taken(before: AnyStream, event: JsonView, after: AnyStream, step: StepView) -> bool {
    match (before, after) {
        (AnyStream::Messages(a), AnyStream::Messages(b)) => (b.deep_view(), step)
            == anthropic::after_event(a.deep_view(), event),
        (AnyStream::Responses(a), AnyStream::Responses(b)) => (b.deep_view(), step)
            == openai_responses::after_event(a.deep_view(), event),
        _ => false,
    }
}

/// Whether two streams have brought the same.
pub open spec fn same_stream(a: AnyStream, b: AnyStream) -> bool {
    match (a, b) {
        (AnyStream::Messages(a), AnyStream::Messages(b)) => a.deep_view() == b.deep_view(),
        (AnyStream::Responses(a), AnyStream::Responses(b)) => a.deep_view() == b.deep_view(),
        _ => false,
    }
}

impl AnyProvider {
    pub open spec fn api(self) -> ApiKind {
        match self {
            AnyProvider::Messages(_) => ApiKind::Messages,
            AnyProvider::Responses(_) => ApiKind::Responses,
        }
    }

    /// The effort that was chosen, whether it is sent or not.
    pub fn selected_effort(&self) -> (s: &str)
        ensures
            s@ == self.settings().selected_effort,
    {
        match self {
            AnyProvider::Messages(p) => p.settings.selected_effort.as_str(),
            AnyProvider::Responses(p) => p.settings.selected_effort.as_str(),
        }
    }

    pub fn request(&self, prompt: &PromptContext, tools: &Vec<ToolSpec>) -> (r: HttpRequest)
        ensures
            r.deep_view() == request_of(
                self.api(),
                self.settings(),
                prompt.deep_view(),
                tools.deep_view(),
            ),
    {
        match self {
            AnyProvider::Messages(p) => p.request(prompt, tools),
            AnyProvider::Responses(p) => p.request(prompt, tools),
        }
    }

    /// A stream that has brought nothing yet, for the answer to a prompt.
    pub fn begin(&self, prompt: &PromptContext, tools: &Vec<ToolSpec>) -> (s: AnyStream)
        ensures
            ({
                let mark = "sha256:"@ + stable_hash(
                    self.settings().profile,
                    self.settings().model,
                    prompt.deep_view(),
                    tools.deep_view(),
                );
                match (*self, s) {
                    (AnyProvider::Messages(_), AnyStream::Messages(s)) => s.deep_view()
                        == anthropic::fresh_stream(mark),
                    (AnyProvider::Responses(_), AnyStream::Responses(s)) => s.deep_view()
                        == openai_responses::fresh_stream(mark),
                    _ => false,
                }
            }),
    {
        match self {
            AnyProvider::Messages(p) => AnyStream::Messages(p.begin(prompt, tools)),
            AnyProvider::Responses(p) => AnyStream::Responses(p.begin(prompt, tools)),
        }
    }
}

impl AnyStream {
    /// Takes in the data of an event, as it stands in the stream.
    pub fn on_data(&mut self, text: &str) -> (step: StreamStep)
        ensures
            exists|data: EventData| #[trigger]
                event_data(text@, data) && match data {
                    EventData::End => same_stream(*old(self), *final(self)) && step.deep_view()
                        == StepView::Finished,
                    EventData::Value(event) => event_taken(
                        *old(self),
                        event@,
                        *final(self),
                        step.deep_view(),
                    ),
                    EventData::Bad(error) => same_stream(*old(self), *final(self))
                        && step.deep_view() == StepView::Failed(error.deep_view()),
                },
    {
        match self {
            AnyStream::Messages(s) => s.on_data(text),
            AnyStream::Responses(s) => s.on_data(text),
        }
    }

    /// What the stream comes to; `finished` says whether its last event was seen.
    pub fn finish(self, finished: bool) -> (r: Result<TurnOutput, ProviderError>)
        ensures
            match outcome_of(self, finished) {
                Ok(output) => r is Ok && r->Ok_0.deep_view() == output,
                Err(error) => r is Err && r->Err_0.deep_view() == error,
            },
    {
        match self {
            AnyStream::Messages(s) => s.finish(finished),
            AnyStream::Responses(s) => s.finish(finished),
        }
    }

    /// How a call ends: with what the stream brought, as cancelled (nothing came), or as failed.
    pub fn conclude(end: Result<Option<TurnOutput>, ProviderError>) -> (t: StreamTerminal)
        ensures
            t.deep_view() == (match end {
                Ok(Some(output)) => TerminalView::Done(output.deep_view()),
                Ok(None) => TerminalView::Aborted(
                    failed_with(fatal_error("模型调用已取消"@)),
                ),
                Err(error) => TerminalView::Error(failed_with(error.deep_view())),
            }),
    {
        match end {
            Ok(Some(output)) => StreamTerminal::Done(output),
            Ok(None) => StreamTerminal::Aborted(FailedTurn::aborted()),
            Err(error) => StreamTerminal::Error(FailedTurn::from_error(error)),
        }
    }
}

} // verus!
