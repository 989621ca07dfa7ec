//! The configuration: its file format, its rules, and how a model selection is resolved.
//!
//! `[providers.*]` are named ways to reach a model service; `[agent].provider` says which of them
//! is used first. A key is taken from `api_key` (empty for a service that wants none), else from the
//! environment variable in `api_key_env`, else from the one that is usual for the interface.
use vstd::prelude::*;

pub mod file;
pub mod refused;
pub mod settled;

use crate::config::file::{
    entry_names, file_flaw, read_file_config, says_file, says_provider, subtables, FileConfig,
    PermissionsSection, RawModelSection, RawProviderSection,
};
use crate::json::{children_are_tidy, from_toml, parsed_toml, Json};
use crate::list::{empty, one, put, take_all, take_next};
use crate::message::copy_opt_text;
use crate::permission::{rule_named, PermissionRule, PermissionRules};
use crate::text::{
    begins, concat2, concat3, distinct, find_named, join, joined, law_sorting_by_name, list_names,
    named, named_by_entry, names_of, quoted, quoted_text, same, sort_named, sorted_named,
    sorting_keeps_names_apart, starts_with, text_le, trim, trim_end_char, trimmed, unique_names,
    without_end,
};
use crate::time::Duration;
use crate::tools::{copy_texts, own_texts};

verus! {

/// The interface of a model service.
#[derive(Debug, Clone, Copy, PartialEq, Eq, Structural)]
pub enum ApiKind {
    Messages,
    Responses,
}

/// Which dialect of its interface a service speaks.
#[derive(Debug, Clone, Copy, PartialEq, Eq, Structural)]
pub enum ProviderProfile {
    OpenAiResponses,
    AnthropicMessages,
    DeepSeekResponses,
    DeepSeekMessages,
}

/// What requests of a profile hold.
#[derive(Debug, Clone, Copy, PartialEq, Eq, Structural)]
pub struct ProfileCapabilities {
    /// Send the version header of the Messages interface.
    pub canonical_version_header: bool,
    /// Ask the service not to store responses, and for reasoning that can be sent back.
    pub stateless_reasoning: bool,
    /// Send a key under which the service may cache the prompt.
    pub prompt_cache_key: bool,
}

#[derive(Debug, PartialEq, Eq)]
pub enum ReasoningEffortPolicy {
    Omit,
    Send(String),
}

impl DeepView for ReasoningEffortPolicy {
    type V = Option<Seq<char>>;

    open spec fn deep_view(&self) -> Option<Seq<char>> {
        match *self {
            ReasoningEffortPolicy::Omit => None,
            ReasoningEffortPolicy::Send(effort) => Some(effort@),
        }
    }
}

#[derive(Debug, Clone, PartialEq, Eq)]
pub struct ActiveModelSelection {
    pub provider: String,
    pub model: String,
    pub effort: String,
}

#[derive(Debug, PartialEq, Eq)]
pub struct ProviderCatalogEntry {
    pub name: String,
    pub default_model: String,
    pub models: Vec<ModelCatalogEntry>,
}

#[derive(Debug, PartialEq, Eq)]
pub struct ModelCatalogEntry {
    pub id: String,
    pub context_window: Option<u64>,
    pub max_tokens: Option<u64>,
    pub efforts: Vec<String>,
    pub default_effort: String,
    pub sends_effort: bool,
}

/// The effort that stands for none where a model takes none.
pub open spec fn default_effort_text() -> Seq<char> {
    "medium"@
}

pub open spec fn profile_named(name: Seq<char>) -> Option<ProviderProfile> {
    if name == "openai"@ {
        Some(ProviderProfile::OpenAiResponses)
    } else if name == "anthropic"@ {
        Some(ProviderProfile::AnthropicMessages)
    } else if name == "deepseek-responses"@ {
        Some(ProviderProfile::DeepSeekResponses)
    } else if name == "deepseek-messages"@ {
        Some(ProviderProfile::DeepSeekMessages)
    } else {
        None
    }
}

/// The interface that a profile is a dialect of.
pub open spec fn family(profile: ProviderProfile) -> ApiKind {
    match profile {
        ProviderProfile::OpenAiResponses => ApiKind::Responses,
        ProviderProfile::DeepSeekResponses => ApiKind::Responses,
        ProviderProfile::AnthropicMessages => ApiKind::Messages,
        ProviderProfile::DeepSeekMessages => ApiKind::Messages,
    }
}

/// The profile that a configuration asks for; it has to belong to the interface.
pub open spec fn profile_of(value: Option<Seq<char>>, api: ApiKind) -> Result<
    ProviderProfile,
    Seq<char>,
> {
    match value {
        None => Ok(
            match api {
                ApiKind::Messages => ProviderProfile::AnthropicMessages,
                ApiKind::Responses => ProviderProfile::OpenAiResponses,
            },
        ),
        Some(name) => match profile_named(name) {
            None => Err(
                "未知 provider profile "@ + quoted_text(name)
                    + ",可选: openai | anthropic | deepseek-responses | deepseek-messages"@,
            ),
            Some(profile) => if family(profile) == api {
                Ok(profile)
            } else {
                Err("provider profile 与 api 类型不匹配"@)
            },
        },
    }
}

pub open spec fn profile_label(profile: ProviderProfile) -> Seq<char> {
    match profile {
        ProviderProfile::OpenAiResponses => "OpenAiResponses"@,
        ProviderProfile::AnthropicMessages => "AnthropicMessages"@,
        ProviderProfile::DeepSeekResponses => "DeepSeekResponses"@,
        ProviderProfile::DeepSeekMessages => "DeepSeekMessages"@,
    }
}

/// The efforts that a profile knows where a model lists none; nothing where it takes no effort.
pub open spec fn standard(profile: ProviderProfile) -> Option<Seq<Seq<char>>> {
    match profile {
        ProviderProfile::OpenAiResponses => Some(
            seq!["none"@, "minimal"@, "low"@, "medium"@, "high"@, "xhigh"@, "max"@],
        ),
        ProviderProfile::AnthropicMessages => Some(
            seq!["low"@, "medium"@, "high"@, "xhigh"@, "max"@],
        ),
        _ => None,
    }
}

impl ProviderProfile {
    pub fn parse(value: Option<&str>, api: ApiKind) -> (r: Result<ProviderProfile, String>)
        ensures
            match profile_of(value.deep_view(), api) {
                Ok(profile) => r == Ok::<ProviderProfile, String>(profile),
                Err(text) => r is Err && r->Err_0@ == text,
            },
    {
        let name = match value {
            None => {
                return Ok(
                    match api {
                        ApiKind::Messages => ProviderProfile::AnthropicMessages,
                        ApiKind::Responses => ProviderProfile::OpenAiResponses,
                    },
                );
            },
            Some(name) => name,
        };
        let profile = if same(name, "openai") {
            ProviderProfile::OpenAiResponses
        } else if same(name, "anthropic") {
            ProviderProfile::AnthropicMessages
        } else if same(name, "deepseek-responses") {
            ProviderProfile::DeepSeekResponses
        } else if same(name, "deepseek-messages") {
            ProviderProfile::DeepSeekMessages
        } else {
            return Err(
                concat3(
                    "未知 provider profile ",
                    quoted(name).as_str(),
                    ",可选: openai | anthropic | deepseek-responses | deepseek-messages",
                ),
            );
        };
        let own = match profile {
            ProviderProfile::OpenAiResponses => ApiKind::Responses,
            ProviderProfile::DeepSeekResponses => ApiKind::Responses,
            ProviderProfile::AnthropicMessages => ApiKind::Messages,
            ProviderProfile::DeepSeekMessages => ApiKind::Messages,
        };
        if own == api {
            Ok(profile)
        } else {
            Err("provider profile 与 api 类型不匹配".to_owned())
        }
    }

    pub fn standard_efforts(self) -> (r: Option<Vec<String>>)
        ensures
            r.deep_view() == standard(self),
    {
        match self {
            ProviderProfile::OpenAiResponses => {
                let list = ["none", "minimal", "low", "medium", "high", "xhigh", "max"];
                let out = own_texts(&list);
                assert(out.deep_view() =~= standard(self)->0);
                Some(out)
            },
            ProviderProfile::AnthropicMessages => {
                let list = ["low", "medium", "high", "xhigh", "max"];
                let out = own_texts(&list);
                assert(out.deep_view() =~= standard(self)->0);
                Some(out)
            },
            _ => None,
        }
    }

    pub fn label(self) -> (s: &'static str)
        ensures
            s@ == profile_label(self),
    {
        match self {
            ProviderProfile::OpenAiResponses => "OpenAiResponses",
            ProviderProfile::AnthropicMessages => "AnthropicMessages",
            ProviderProfile::DeepSeekResponses => "DeepSeekResponses",
            ProviderProfile::DeepSeekMessages => "DeepSeekMessages",
        }
    }

    pub open spec fn capabilities_spec(self) -> ProfileCapabilities {
        ProfileCapabilities {
            canonical_version_header: self == ProviderProfile::AnthropicMessages,
            stateless_reasoning: self == ProviderProfile::OpenAiResponses,
            prompt_cache_key: self == ProviderProfile::OpenAiResponses,
        }
    }

    pub fn capabilities(self) -> (c: ProfileCapabilities)
        ensures
            c == self.capabilities_spec(),
    {
        let openai = self == ProviderProfile::OpenAiResponses;
        ProfileCapabilities {
            canonical_version_header: self == ProviderProfile::AnthropicMessages,
            stateless_reasoning: openai,
            prompt_cache_key: openai,
        }
    }
}

pub open spec fn api_named(name: Seq<char>) -> Result<ApiKind, Seq<char>> {
    if name == "messages"@ {
        Ok(ApiKind::Messages)
    } else if name == "responses"@ {
        Ok(ApiKind::Responses)
    } else {
        Err("未知 api 类型 "@ + quoted_text(name) + ",可选: messages | responses"@)
    }
}

impl ApiKind {
    pub fn parse(s: &str) -> (r: Result<ApiKind, String>)
        ensures
            match api_named(s@) {
                Ok(kind) => r == Ok::<ApiKind, String>(kind),
                Err(text) => r is Err && r->Err_0@ == text,
            },
    {
        if same(s, "messages") {
            Ok(ApiKind::Messages)
        } else if same(s, "responses") {
            Ok(ApiKind::Responses)
        } else {
            Err(concat3("未知 api 类型 ", quoted(s).as_str(), ",可选: messages | responses"))
        }
    }

    pub open spec fn key_env(self) -> Seq<char> {
        match self {
            ApiKind::Messages => "ANTHROPIC_API_KEY"@,
            ApiKind::Responses => "OPENAI_API_KEY"@,
        }
    }

    pub fn default_key_env(&self) -> (s: &'static str)
        ensures
            s@ == self.key_env(),
    {
        match self {
            ApiKind::Messages => "ANTHROPIC_API_KEY",
            ApiKind::Responses => "OPENAI_API_KEY",
        }
    }
}

/// A provider and a model, ready to be called.
#[derive(Debug)]
pub struct ProviderSettings {
    pub name: String,
    pub api: ApiKind,
    pub profile: ProviderProfile,
    pub base_url: String,
    /// Empty where the service wants no key.
    pub api_key: String,
    pub model: String,
    pub max_tokens: Option<u64>,
    /// The model's context window in tokens; with one the budget is enforced.
    pub context_window: Option<u64>,
    pub selected_effort: String,
    pub reasoning_effort: ReasoningEffortPolicy,
}

// ---- Models ----

/// Which efforts a model takes, and the one it starts with; or none.
#[derive(Debug)]
pub enum ModelReasoning {
    Omit,
    Send { efforts: Vec<String>, default_effort: String },
}

#[verifier::ext_equal]
pub enum ReasoningView {
    Omit,
    Send { efforts: Seq<Seq<char>>, default_effort: Seq<char> },
}

impl DeepView for ModelReasoning {
    type V = ReasoningView;

    open spec fn deep_view(&self) -> ReasoningView {
        match *self {
            ModelReasoning::Omit => ReasoningView::Omit,
            ModelReasoning::Send { efforts, default_effort } => ReasoningView::Send {
                efforts: efforts.deep_view(),
                default_effort: default_effort@,
            },
        }
    }
}

pub open spec fn efforts_of(r: ReasoningView) -> Seq<Seq<char>> {
    match r {
        ReasoningView::Omit => seq![default_effort_text()],
        ReasoningView::Send { efforts, .. } => efforts,
    }
}

pub open spec fn first_effort(r: ReasoningView) -> Seq<char> {
    match r {
        ReasoningView::Omit => default_effort_text(),
        ReasoningView::Send { default_effort, .. } => default_effort,
    }
}

/// What an effort means for a model: whether one is sent, or why the effort is refused.
pub open spec fn effort_policy(r: ReasoningView, effort: Seq<char>) -> Result<
    Option<Seq<char>>,
    Seq<char>,
> {
    match r {
        ReasoningView::Omit => if effort == default_effort_text() {
            Ok(None)
        } else {
            Err("该模型未配置可发送的 reasoning effort,只能使用 "@ + default_effort_text())
        },
        ReasoningView::Send { efforts, .. } => if efforts.contains(effort) {
            Ok(Some(effort))
        } else {
            Err(
                "未知 reasoning effort "@ + quoted_text(effort) + ",可选: "@ + joined(
                    efforts,
                    ", "@,
                ),
            )
        },
    }
}

/// Whether some texts hold `text`.
pub fn holds(texts: &Vec<String>, text: &str) -> (r: bool)
    ensures
        r == texts.deep_view().contains(text@),
{
    let mut i: usize = 0;
    while i < texts.len()
        invariant
            i <= texts@.len(),
            forall|k: int| 0 <= k < i ==> texts.deep_view()[k] != text@,
        decreases texts@.len() - i,
    {
        if same(texts[i].as_str(), text) {
            assert(texts.deep_view()[i as int] == text@);
            return true;
        }
        i = i + 1;
    }
    false
}

impl ModelReasoning {
    pub fn efforts(&self) -> (out: Vec<String>)
        ensures
            out.deep_view() == efforts_of(self.deep_view()),
    {
        match self {
            ModelReasoning::Omit => crate::list::one("medium".to_owned()),
            ModelReasoning::Send { efforts, .. } => copy_texts(efforts),
        }
    }

    pub fn default_effort(&self) -> (s: &str)
        ensures
            s@ == first_effort(self.deep_view()),
    {
        match self {
            ModelReasoning::Omit => "medium",
            ModelReasoning::Send { default_effort, .. } => default_effort.as_str(),
        }
    }

    pub fn resolve(&self, effort: &str) -> (r: Result<ReasoningEffortPolicy, String>)
        ensures
            match effort_policy(self.deep_view(), effort@) {
                Ok(policy) => r is Ok && r->Ok_0.deep_view() == policy,
                Err(text) => r is Err && r->Err_0@ == text,
            },
    {
        match self {
            ModelReasoning::Omit => if same(effort, "medium") {
                Ok(ReasoningEffortPolicy::Omit)
            } else {
                Err(
                    concat2(
                        "该模型未配置可发送的 reasoning effort,只能使用 ",
                        "medium",
                    ),
                )
            },
            ModelReasoning::Send { efforts, .. } => if holds(efforts, effort) {
                Ok(ReasoningEffortPolicy::Send(effort.to_owned()))
            } else {
                let mut text = concat3("未知 reasoning effort ", quoted(effort).as_str(), ",可选: ");
                text.push_str(join(efforts, ", ").as_str());
                Err(text)
            },
        }
    }
}

#[derive(Debug)]
pub struct ModelSection {
    pub context_window: Option<u64>,
    pub max_tokens: Option<u64>,
    pub reasoning: ModelReasoning,
}

#[verifier::ext_equal]
pub struct ModelView {
    pub context_window: Option<u64>,
    pub max_tokens: Option<u64>,
    pub reasoning: ReasoningView,
}

impl DeepView for ModelSection {
    type V = ModelView;

    open spec fn deep_view(&self) -> ModelView {
        ModelView {
            context_window: self.context_window,
            max_tokens: self.max_tokens,
            reasoning: self.reasoning.deep_view(),
        }
    }
}

/// How messages name a model of a provider.
pub open spec fn place(provider: Seq<char>, model: Seq<char>) -> Seq<char> {
    "[providers."@ + provider + ".models."@ + quoted_text(model) + "]"@
}

fn make_place(provider: &str, model: &str) -> (s: String)
    ensures
        s@ == place(provider@, model@),
{
    let mut s = concat3("[providers.", provider, ".models.");
    s.push_str(quoted(model).as_str());
    s.push_str("]");
    s
}

/// What is wrong with a model's limits, if anything.
pub open spec fn limits_error(
    provider: Seq<char>,
    model: Seq<char>,
    context_window: Option<u64>,
    max_tokens: Option<u64>,
) -> Option<Seq<char>> {
    if context_window == Some(0u64) {
        Some(place(provider, model) + ".context_window 必须大于 0"@)
    } else if max_tokens == Some(0u64) {
        Some(place(provider, model) + ".max_tokens 必须大于 0"@)
    } else if context_window is Some && max_tokens is Some && max_tokens->0 > context_window->0 {
        Some(place(provider, model) + ".max_tokens 不能大于 context_window"@)
    } else {
        None
    }
}

pub fn validate_model_limits(
    provider: &str,
    model: &str,
    context_window: Option<u64>,
    max_tokens: Option<u64>,
) -> (r: Result<(), String>)
    ensures
        match limits_error(provider@, model@, context_window, max_tokens) {
            None => r is Ok,
            Some(text) => r is Err && r->Err_0@ == text,
        },
{
    if let Some(window) = context_window {
        if window == 0 {
            return Err(
                concat2(make_place(provider, model).as_str(), ".context_window 必须大于 0"),
            );
        }
    }
    if let Some(max) = max_tokens {
        if max == 0 {
            return Err(concat2(make_place(provider, model).as_str(), ".max_tokens 必须大于 0"));
        }
        if let Some(window) = context_window {
            if max > window {
                return Err(
                    concat2(
                        make_place(provider, model).as_str(),
                        ".max_tokens 不能大于 context_window",
                    ),
                );
            }
        }
    }
    Ok(())
}

pub open spec fn trimmed_all(texts: Seq<Seq<char>>) -> Seq<Seq<char>> {
    Seq::new(texts.len(), |i: int| trimmed(texts[i]))
}

/// An effort name is neither empty nor long.
pub open spec fn effort_ok(effort: Seq<char>) -> bool {
    1 <= effort.len() <= 64
}

pub open spec fn all_efforts_ok(efforts: Seq<Seq<char>>) -> bool {
    forall|i: int| 0 <= i < efforts.len() ==> effort_ok(#[trigger] efforts[i])
}

/// The first text that stands further ahead already.
pub open spec fn first_repeat(texts: Seq<Seq<char>>) -> Option<Seq<char>>
    decreases texts.len(),
{
    if texts.len() == 0 {
        None
    } else {
        match first_repeat(texts.drop_last()) {
            Some(text) => Some(text),
            None => if texts.drop_last().contains(texts.last()) {
                Some(texts.last())
            } else {
                None
            },
        }
    }
}

/// The efforts of a model as configured, or why they are refused.
pub open spec fn reasoning_of(
    provider: Seq<char>,
    model: Seq<char>,
    profile: ProviderProfile,
    efforts: Option<Seq<Seq<char>>>,
    default: Option<Seq<char>>,
) -> Result<ReasoningView, Seq<char>> {
    let at = place(provider, model);
    match standard(profile) {
        None => if efforts is Some || default is Some {
            Err(
                at + " profile "@ + profile_label(profile) + " 不支持配置 efforts/default_effort"@,
            )
        } else {
            Ok(ReasoningView::Omit)
        },
        Some(usual) => {
            let listed = match efforts {
                Some(list) => list,
                None => usual,
            };
            if listed.len() == 0 {
                if default is Some {
                    Err(at + " efforts=[] 时不能配置 default_effort"@)
                } else {
                    Ok(ReasoningView::Omit)
                }
            } else {
                let list = trimmed_all(listed);
                if !all_efforts_ok(list) {
                    Err(at + ".efforts 含空值或超过 64 字符"@)
                } else if first_repeat(list) is Some {
                    Err(at + ".efforts 重复: "@ + quoted_text(first_repeat(list)->0))
                } else if default is Some && !effort_ok(trimmed(default->0)) {
                    Err(at + ".default_effort 不能为空或超过 64 字符"@)
                } else {
                    let chosen = match default {
                        Some(d) => trimmed(d),
                        None => if list.contains(default_effort_text()) {
                            default_effort_text()
                        } else {
                            list[0]
                        },
                    };
                    if !list.contains(chosen) {
                        Err(at + ".default_effort "@ + quoted_text(chosen) + " 不在 efforts 中"@)
                    } else {
                        Ok(ReasoningView::Send { efforts: list, default_effort: chosen })
                    }
                }
            }
        },
    }
}

fn trim_efforts(list: Vec<String>) -> (r: Option<Vec<String>>)
    ensures
        r is Some <==> all_efforts_ok(trimmed_all(list.deep_view())),
        r is Some ==> r->0.deep_view() == trimmed_all(list.deep_view()),
{
    let ghost goal = trimmed_all(list.deep_view());
    let mut out: Vec<String> = empty();
    let mut i: usize = 0;
    while i < list.len()
        invariant
            i <= list@.len(),
            goal == trimmed_all(list.deep_view()),
            out.deep_view() == goal.take(i as int),
            forall|k: int| 0 <= k < i ==> effort_ok(#[trigger] goal[k]),
        decreases list@.len() - i,
    {
        proof {
            take_next(goal, i as int);
        }
        let effort = trim(list[i].as_str());
        let len: usize = effort.unicode_len();
        assert(effort@ == goal[i as int]);
        if len < 1 || len > 64 {
            assert(!effort_ok(goal[i as int]));
            return None;
        }
        put(&mut out, effort.to_owned());
        i = i + 1;
    }
    proof {
        take_all(goal);
    }
    Some(out)
}

fn find_repeat(list: &Vec<String>) -> (r: Option<String>)
    ensures
        r.deep_view() == first_repeat(list.deep_view()),
{
    let ghost all = list.deep_view();
    let mut i: usize = 0;
    while i < list.len()
        invariant
            i <= list@.len(),
            all == list.deep_view(),
            first_repeat(all.take(i as int)) is None,
        decreases list@.len() - i,
    {
        proof {
            take_next(all, i as int);
        }
        let mut j: usize = 0;
        while j < i
            invariant
                j <= i < list@.len(),
                all == list.deep_view(),
                first_repeat(all.take(i as int)) is None,
                all.take(i + 1).drop_last() == all.take(i as int),
                all.take(i + 1).last() == all[i as int],
                forall|k: int| 0 <= k < j ==> all[k] != all[i as int],
            decreases i - j,
        {
            if same(list[j].as_str(), list[i].as_str()) {
                proof {
                    assert(all.take(i as int)[j as int] == all[i as int]);
                    assert(all.take(i as int).contains(all[i as int]));
                    repeat_stays(all, i + 1);
                }
                return Some(list[i].clone());
            }
            j = j + 1;
        }
        proof {
            if all.take(i as int).contains(all[i as int]) {
                let k = choose|k: int|
                    0 <= k < all.take(i as int).len() && all.take(i as int)[k] == all[i as int];
                assert(all[k] == all[i as int]);
            }
        }
        i = i + 1;
    }
    proof {
        take_all(all);
    }
    None
}

proof fn repeat_stays(texts: Seq<Seq<char>>, n: int)
    requires
        0 <= n <= texts.len(),
        first_repeat(texts.take(n)) is Some,
    ensures
        first_repeat(texts) == first_repeat(texts.take(n)),
    decreases texts.len() - n,
{
    if n < texts.len() {
        take_next(texts, n);
        repeat_stays(texts, n + 1);
    } else {
        take_all(texts);
    }
}

pub fn normalize_model_reasoning(
    provider: &str,
    model: &str,
    profile: ProviderProfile,
    configured_efforts: Option<Vec<String>>,
    configured_default: Option<String>,
) -> (r: Result<ModelReasoning, String>)
    ensures
        match reasoning_of(
            provider@,
            model@,
            profile,
            configured_efforts.deep_view(),
            configured_default.deep_view(),
        ) {
            Ok(view) => r is Ok && r->Ok_0.deep_view() == view,
            Err(text) => r is Err && r->Err_0@ == text,
        },
{
    let usual = match profile.standard_efforts() {
        Some(usual) => usual,
        None => {
            if configured_efforts.is_some() || configured_default.is_some() {
                let mut text = concat3(make_place(provider, model).as_str(), " profile ", profile.label());
                text.push_str(" 不支持配置 efforts/default_effort");
                return Err(text);
            }
            return Ok(ModelReasoning::Omit);
        },
    };
    let listed = match configured_efforts {
        Some(list) => list,
        None => usual,
    };
    if listed.len() == 0 {
        if configured_default.is_some() {
            return Err(
                concat2(
                    make_place(provider, model).as_str(),
                    " efforts=[] 时不能配置 default_effort",
                ),
            );
        }
        return Ok(ModelReasoning::Omit);
    }
    let efforts = match trim_efforts(listed) {
        Some(efforts) => efforts,
        None => {
            return Err(
                concat2(
                    make_place(provider, model).as_str(),
                    ".efforts 含空值或超过 64 字符",
                ),
            );
        },
    };
    if let Some(repeated) = find_repeat(&efforts) {
        return Err(
            concat3(
                make_place(provider, model).as_str(),
                ".efforts 重复: ",
                quoted(repeated.as_str()).as_str(),
            ),
        );
    }
    let default_effort = match configured_default {
        Some(default) => {
            let default = trim(default.as_str());
            let len: usize = default.unicode_len();
            if len < 1 || len > 64 {
                return Err(
                    concat2(
                        make_place(provider, model).as_str(),
                        ".default_effort 不能为空或超过 64 字符",
                    ),
                );
            }
            default.to_owned()
        },
        None => if holds(&efforts, "medium") {
            "medium".to_owned()
        } else {
            assert(efforts.deep_view()[0] == efforts@[0]@);
            efforts[0].clone()
        },
    };
    if !holds(&efforts, default_effort.as_str()) {
        let mut text = concat3(
            make_place(provider, model).as_str(),
            ".default_effort ",
            quoted(default_effort.as_str()).as_str(),
        );
        text.push_str(" 不在 efforts 中");
        return Err(text);
    }
    Ok(ModelReasoning::Send { efforts, default_effort })
}

/// A configured model, or why it is refused.
pub open spec fn model_of(
    provider: Seq<char>,
    model: Seq<char>,
    profile: ProviderProfile,
    raw: RawModelSection,
) -> Result<ModelView, Seq<char>> {
    match limits_error(provider, model, Some(raw.context_window), raw.max_tokens) {
        Some(text) => Err(text),
        None => match reasoning_of(
            provider,
            model,
            profile,
            raw.efforts.deep_view(),
            raw.default_effort.deep_view(),
        ) {
            Err(text) => Err(text),
            Ok(reasoning) => Ok(
                ModelView {
                    context_window: Some(raw.context_window),
                    max_tokens: raw.max_tokens,
                    reasoning,
                },
            ),
        },
    }
}

fn copy_opt_texts(texts: &Option<Vec<String>>) -> (r: Option<Vec<String>>)
    ensures
        r.deep_view() == texts.deep_view(),
{
    match texts {
        Some(list) => Some(copy_texts(list)),
        None => None,
    }
}

pub fn normalize_model(
    provider: &str,
    model: &str,
    profile: ProviderProfile,
    raw: &RawModelSection,
) -> (r: Result<ModelSection, String>)
    ensures
        match model_of(provider@, model@, profile, *raw) {
            Ok(view) => r is Ok && r->Ok_0.deep_view() == view,
            Err(text) => r is Err && r->Err_0@ == text,
        },
{
    let context_window = Some(raw.context_window);
    if let Err(text) = validate_model_limits(provider, model, context_window, raw.max_tokens) {
        return Err(text);
    }
    match normalize_model_reasoning(
        provider,
        model,
        profile,
        copy_opt_texts(&raw.efforts),
        copy_opt_text(&raw.default_effort),
    ) {
        Ok(reasoning) => Ok(ModelSection { context_window, max_tokens: raw.max_tokens, reasoning }),
        Err(text) => Err(text),
    }
}

// ---- Providers ----

#[derive(Debug)]
pub struct ProviderSection {
    pub api: ApiKind,
    pub profile: ProviderProfile,
    pub base_url: String,
    pub default_model: String,
    pub models: Vec<(String, ModelSection)>,
    pub api_key: Option<String>,
    pub api_key_env: Option<String>,
}

#[verifier::ext_equal]
pub struct SectionView {
    pub api: ApiKind,
    pub profile: ProviderProfile,
    pub base_url: Seq<char>,
    pub default_model: Seq<char>,
    pub models: Seq<(Seq<char>, ModelView)>,
    pub api_key: Option<Seq<char>>,
    pub api_key_env: Option<Seq<char>>,
}

impl DeepView for ProviderSection {
    type V = SectionView;

    open spec fn deep_view(&self) -> SectionView {
        SectionView {
            api: self.api,
            profile: self.profile,
            base_url: self.base_url@,
            default_model: self.default_model@,
            models: self.models.deep_view(),
            api_key: self.api_key.deep_view(),
            api_key_env: self.api_key_env.deep_view(),
        }
    }
}

/// The models of a provider, or the first reason to refuse one.
pub open spec fn models_of(
    provider: Seq<char>,
    profile: ProviderProfile,
    raw: Seq<(String, RawModelSection)>,
) -> Result<Seq<(Seq<char>, ModelView)>, Seq<char>>
    decreases raw.len(),
{
    if raw.len() == 0 {
        Ok(seq![])
    } else {
        match models_of(provider, profile, raw.drop_last()) {
            Err(text) => Err(text),
            Ok(models) => {
                let id = raw.last().0@;
                if trimmed(id).len() == 0 {
                    Err("[providers."@ + provider + "].models 含空模型 ID"@)
                } else {
                    match model_of(provider, id, profile, raw.last().1) {
                        Err(text) => Err(text),
                        Ok(model) => Ok(models.push((id, model))),
                    }
                }
            },
        }
    }
}

proof fn models_error_stays(
    provider: Seq<char>,
    profile: ProviderProfile,
    raw: Seq<(String, RawModelSection)>,
    n: int,
)
    requires
        0 <= n <= raw.len(),
        models_of(provider, profile, raw.take(n)) is Err,
    ensures
        models_of(provider, profile, raw) == models_of(provider, profile, raw.take(n)),
    decreases raw.len() - n,
{
    if n < raw.len() {
        take_next(raw, n);
        models_error_stays(provider, profile, raw, n + 1);
    } else {
        take_all(raw);
    }
}

fn normalize_models(
    provider: &str,
    profile: ProviderProfile,
    raw: &Vec<(String, RawModelSection)>,
) -> (r: Result<Vec<(String, ModelSection)>, String>)
    ensures
        match models_of(provider@, profile, raw@) {
            Ok(models) => r is Ok && r->Ok_0.deep_view() == models,
            Err(text) => r is Err && r->Err_0@ == text,
        },
{
    let mut out: Vec<(String, ModelSection)> = empty();
    let mut i: usize = 0;
    while i < raw.len()
        invariant
            i <= raw@.len(),
            models_of(provider@, profile, raw@.take(i as int)) == Ok::<
                Seq<(Seq<char>, ModelView)>,
                Seq<char>,
            >(out.deep_view()),
        decreases raw@.len() - i,
    {
        proof {
            take_next(raw@, i as int);
        }
        let id = raw[i].0.as_str();
        if trim(id).unicode_len() == 0 {
            proof {
                models_error_stays(provider@, profile, raw@, i + 1);
            }
            return Err(concat3("[providers.", provider, "].models 含空模型 ID"));
        }
        match normalize_model(provider, id, profile, &raw[i].1) {
            Ok(model) => {
                put(&mut out, (raw[i].0.clone(), model));
            },
            Err(text) => {
                proof {
                    models_error_stays(provider@, profile, raw@, i + 1);
                }
                return Err(text);
            },
        }
        i = i + 1;
    }
    proof {
        take_all(raw@);
    }
    Ok(out)
}

/// How messages name a provider's section.
pub open spec fn section_place(name: Seq<char>, rest: Seq<char>) -> Seq<char> {
    "[providers."@ + name + rest
}

fn section_error(name: &str, rest: &str) -> (s: String)
    ensures
        s@ == section_place(name@, rest@),
{
    concat3("[providers.", name, rest)
}

/// The default model and the models that a section names, or why it is refused.
pub open spec fn lineup(name: Seq<char>, profile: ProviderProfile, raw: RawProviderSection) -> Result<
    (Seq<char>, Seq<(Seq<char>, ModelView)>),
    Seq<char>,
> {
    let by_models = raw.default_model is Some || raw.models@.len() > 0;
    let by_fields = raw.model is Some || raw.max_tokens is Some || raw.context_window is Some;
    if by_models && by_fields {
        Err(
            section_place(
                name,
                "] 不能混用旧 model/max_tokens/context_window 与新 default_model/models"@,
            ),
        )
    } else if by_models {
        if raw.default_model is None {
            Err(section_place(name, "] 使用 models 时必须配置 default_model"@))
        } else if raw.models@.len() == 0 {
            Err(section_place(name, "].models 不能为空"@))
        } else {
            match models_of(name, profile, sorted_named(raw.models@)) {
                Err(text) => Err(text),
                Ok(models) => if named(models, raw.default_model->0@) is None {
                    Err(
                        section_place(name, "].default_model "@) + quoted_text(
                            raw.default_model->0@,
                        ) + " 不在 models 中"@,
                    )
                } else {
                    Ok((raw.default_model->0@, models))
                },
            }
        }
    } else if raw.model is None {
        Err(section_place(name, "] 缺少 model 或 models"@))
    } else {
        let model = raw.model->0@;
        match limits_error(name, model, raw.context_window, raw.max_tokens) {
            Some(text) => Err(text),
            None => match reasoning_of(name, model, profile, None, None) {
                Err(text) => Err(text),
                Ok(reasoning) => Ok(
                    (
                        model,
                        seq![
                            (
                                model,
                                ModelView {
                                    context_window: raw.context_window,
                                    max_tokens: raw.max_tokens,
                                    reasoning,
                                },
                            ),
                        ],
                    ),
                ),
            },
        }
    }
}

fn choose_models(name: &str, profile: ProviderProfile, raw: RawProviderSection) -> (r: Result<
    (String, Vec<(String, ModelSection)>),
    String,
>)
    ensures
        match lineup(name@, profile, raw) {
            Ok(pair) => r is Ok && r->Ok_0.deep_view() == pair,
            Err(text) => r is Err && r->Err_0@ == text,
        },
{
    let by_models = raw.default_model.is_some() || raw.models.len() > 0;
    let by_fields = raw.model.is_some() || raw.max_tokens.is_some() || raw.context_window.is_some();
    if by_models && by_fields {
        return Err(
            section_error(
                name,
                "] 不能混用旧 model/max_tokens/context_window 与新 default_model/models",
            ),
        );
    }
    if by_models {
        let default_model = match raw.default_model {
            Some(model) => model,
            None => {
                return Err(section_error(name, "] 使用 models 时必须配置 default_model"));
            },
        };
        if raw.models.len() == 0 {
            return Err(section_error(name, "].models 不能为空"));
        }
        let sorted = sort_named(raw.models);
        let models = match normalize_models(name, profile, &sorted) {
            Ok(models) => models,
            Err(text) => {
                return Err(text);
            },
        };
        if find_named(&models, default_model.as_str()).is_none() {
            return Err(
                concat3(
                    section_error(name, "].default_model ").as_str(),
                    quoted(default_model.as_str()).as_str(),
                    " 不在 models 中",
                ),
            );
        }
        return Ok((default_model, models));
    }
    let model = match raw.model {
        Some(model) => model,
        None => {
            return Err(section_error(name, "] 缺少 model 或 models"));
        },
    };
    if let Err(text) = validate_model_limits(name, model.as_str(), raw.context_window, raw.max_tokens) {
        return Err(text);
    }
    match normalize_model_reasoning(name, model.as_str(), profile, None, None) {
        Ok(reasoning) => {
            let section = ModelSection {
                context_window: raw.context_window,
                max_tokens: raw.max_tokens,
                reasoning,
            };
            Ok((model.clone(), one((model, section))))
        },
        Err(text) => Err(text),
    }
}

/// A configured provider, or why it is refused.
pub open spec fn section_of(name: Seq<char>, raw: RawProviderSection) -> Result<
    SectionView,
    Seq<char>,
> {
    let base_url = trimmed(raw.base_url@);
    if trimmed(name).len() == 0 {
        Err("provider 名称不能为空"@)
    } else if !begins(base_url, "http://"@) && !begins(base_url, "https://"@) {
        Err(section_place(name, "].base_url 必须是 http:// 或 https:// URL"@))
    } else if raw.api_key is Some && raw.api_key_env is Some {
        Err(section_place(name, "] 只能配置 api_key 或 api_key_env 其中一个"@))
    } else if raw.api_key_env is Some && trimmed(raw.api_key_env->0@).len() == 0 {
        Err(section_place(name, "].api_key_env 不能为空"@))
    } else {
        match api_named(raw.api@) {
            Err(text) => Err(section_place(name, "].api 无效: "@) + text),
            Ok(api) => match profile_of(raw.profile.deep_view(), api) {
                Err(text) => Err(section_place(name, "].profile 无效: "@) + text),
                Ok(profile) => match lineup(name, profile, raw) {
                    Err(text) => Err(text),
                    Ok((default_model, models)) => Ok(
                        SectionView {
                            api,
                            profile,
                            base_url,
                            default_model,
                            models,
                            api_key: raw.api_key.deep_view(),
                            api_key_env: match raw.api_key_env {
                                Some(variable) => Some(trimmed(variable@)),
                                None => None,
                            },
                        },
                    ),
                },
            },
        }
    }
}

fn as_text(text: &Option<String>) -> (r: Option<&str>)
    ensures
        r.deep_view() == text.deep_view(),
{
    match text {
        Some(t) => Some(t.as_str()),
        None => None,
    }
}

pub fn normalize_provider(name: &str, raw: RawProviderSection) -> (r: Result<
    ProviderSection,
    String,
>)
    ensures
        match section_of(name@, raw) {
            Ok(section) => r is Ok && r->Ok_0.deep_view() == section,
            Err(text) => r is Err && r->Err_0@ == text,
        },
{
    if trim(name).unicode_len() == 0 {
        return Err("provider 名称不能为空".to_owned());
    }
    let base_url = trim(raw.base_url.as_str()).to_owned();
    if !starts_with(base_url.as_str(), "http://") && !starts_with(base_url.as_str(), "https://") {
        return Err(section_error(name, "].base_url 必须是 http:// 或 https:// URL"));
    }
    if raw.api_key.is_some() && raw.api_key_env.is_some() {
        return Err(section_error(name, "] 只能配置 api_key 或 api_key_env 其中一个"));
    }
    let api_key_env = match &raw.api_key_env {
        Some(variable) => {
            let variable = trim(variable.as_str());
            if variable.unicode_len() == 0 {
                return Err(section_error(name, "].api_key_env 不能为空"));
            }
            Some(variable.to_owned())
        },
        None => None,
    };
    let api = match ApiKind::parse(raw.api.as_str()) {
        Ok(api) => api,
        Err(text) => {
            return Err(concat2(section_error(name, "].api 无效: ").as_str(), text.as_str()));
        },
    };
    let profile = match ProviderProfile::parse(as_text(&raw.profile), api) {
        Ok(profile) => profile,
        Err(text) => {
            return Err(concat2(section_error(name, "].profile 无效: ").as_str(), text.as_str()));
        },
    };
    let api_key = copy_opt_text(&raw.api_key);
    match choose_models(name, profile, raw) {
        Ok((default_model, models)) => Ok(
            ProviderSection { api, profile, base_url, default_model, models, api_key, api_key_env },
        ),
        Err(text) => Err(text),
    }
}

/// The providers of a configuration, or the first reason to refuse one.
pub open spec fn sections_of(raw: Seq<(String, RawProviderSection)>) -> Result<
    Seq<(Seq<char>, SectionView)>,
    Seq<char>,
>
    decreases raw.len(),
{
    if raw.len() == 0 {
        Ok(seq![])
    } else {
        match sections_of(raw.drop_last()) {
            Err(text) => Err(text),
            Ok(sections) => match section_of(raw.last().0@, raw.last().1) {
                Err(text) => Err(text),
                Ok(section) => Ok(sections.push((raw.last().0@, section))),
            },
        }
    }
}

proof fn sections_error_stays(raw: Seq<(String, RawProviderSection)>, n: int)
    requires
        0 <= n <= raw.len(),
        sections_of(raw.take(n)) is Err,
    ensures
        sections_of(raw) == sections_of(raw.take(n)),
    decreases raw.len() - n,
{
    if n < raw.len() {
        take_next(raw, n);
        sections_error_stays(raw, n + 1);
    } else {
        take_all(raw);
    }
}

fn normalize_providers(raw: Vec<(String, RawProviderSection)>) -> (r: Result<
    Vec<(String, ProviderSection)>,
    String,
>)
    ensures
        match sections_of(raw@) {
            Ok(sections) => r is Ok && r->Ok_0.deep_view() == sections,
            Err(text) => r is Err && r->Err_0@ == text,
        },
{
    let ghost all = raw@;
    let ghost mut done: int = 0;
    let mut rest = raw;
    let mut out: Vec<(String, ProviderSection)> = empty();
    while rest.len() > 0
        invariant
            0 <= done <= all.len(),
            all == raw@,
            rest@ == all.skip(done),
            sections_of(all.take(done)) == Ok::<Seq<(Seq<char>, SectionView)>, Seq<char>>(
                out.deep_view(),
            ),
        ensures
            done == all.len(),
            sections_of(all.take(done)) == Ok::<Seq<(Seq<char>, SectionView)>, Seq<char>>(
                out.deep_view(),
            ),
        decreases rest@.len(),
    {
        proof {
            take_next(all, done);
            assert(all.skip(done)[0] == all[done]);
            assert(all.skip(done).remove(0) =~= all.skip(done + 1));
        }
        let (name, section) = rest.remove(0);
        match normalize_provider(name.as_str(), section) {
            Ok(section) => {
                put(&mut out, (name, section));
            },
            Err(text) => {
                proof {
                    sections_error_stays(all, done + 1);
                }
                return Err(text);
            },
        }
        proof {
            done = done + 1;
        }
    }
    proof {
        take_all(all);
    }
    Ok(out)
}

// ---- The configuration ----

pub open spec fn rule_of(value: Option<Seq<char>>, default: PermissionRule, field: Seq<char>) -> Result<
    PermissionRule,
    Seq<char>,
> {
    match value {
        None => Ok(default),
        Some(text) => match rule_named(text) {
            Some(rule) => Ok(rule),
            None => Err(
                "[permissions]."@ + field + ": "@ + ("未知权限规则 "@ + quoted_text(text)
                    + "，可选 allow | ask | deny"@),
            ),
        },
    }
}

pub fn parse_permission_rule(value: Option<&str>, default: PermissionRule, field: &str) -> (r: Result<
    PermissionRule,
    String,
>)
    ensures
        match rule_of(value.deep_view(), default, field@) {
            Ok(rule) => r == Ok::<PermissionRule, String>(rule),
            Err(text) => r is Err && r->Err_0@ == text,
        },
{
    match value {
        None => Ok(default),
        Some(text) => match PermissionRule::parse(text) {
            Ok(rule) => Ok(rule),
            Err(e) => {
                let mut text = concat3("[permissions].", field, ": ");
                text.push_str(e.as_str());
                Err(text)
            },
        },
    }
}

pub open spec fn rules_of(raw: PermissionsSection) -> Result<PermissionRules, Seq<char>> {
    match rule_of(raw.workspace_read.deep_view(), PermissionRule::Allow, "workspace_read"@) {
        Err(e) => Err(e),
        Ok(workspace_read) => match rule_of(
            raw.workspace_write.deep_view(),
            PermissionRule::Allow,
            "workspace_write"@,
        ) {
            Err(e) => Err(e),
            Ok(workspace_write) => match rule_of(
                raw.outside_workspace.deep_view(),
                PermissionRule::Ask,
                "outside_workspace"@,
            ) {
                Err(e) => Err(e),
                Ok(outside_workspace) => match rule_of(
                    raw.commands.deep_view(),
                    PermissionRule::Ask,
                    "commands"@,
                ) {
                    Err(e) => Err(e),
                    Ok(opaque_side_effect) => Ok(
                        PermissionRules {
                            workspace_read,
                            workspace_write,
                            outside_workspace,
                            opaque_side_effect,
                        },
                    ),
                },
            },
        },
    }
}

fn read_rules(raw: &PermissionsSection) -> (r: Result<PermissionRules, String>)
    ensures
        match rules_of(*raw) {
            Ok(rules) => r == Ok::<PermissionRules, String>(rules),
            Err(text) => r is Err && r->Err_0@ == text,
        },
{
    let defaults = PermissionRules::default();
    let workspace_read = match parse_permission_rule(
        as_text(&raw.workspace_read),
        defaults.workspace_read,
        "workspace_read",
    ) {
        Ok(rule) => rule,
        Err(e) => {
            return Err(e);
        },
    };
    let workspace_write = match parse_permission_rule(
        as_text(&raw.workspace_write),
        defaults.workspace_write,
        "workspace_write",
    ) {
        Ok(rule) => rule,
        Err(e) => {
            return Err(e);
        },
    };
    let outside_workspace = match parse_permission_rule(
        as_text(&raw.outside_workspace),
        defaults.outside_workspace,
        "outside_workspace",
    ) {
        Ok(rule) => rule,
        Err(e) => {
            return Err(e);
        },
    };
    let opaque_side_effect = match parse_permission_rule(
        as_text(&raw.commands),
        defaults.opaque_side_effect,
        "commands",
    ) {
        Ok(rule) => rule,
        Err(e) => {
            return Err(e);
        },
    };
    Ok(
        PermissionRules { workspace_read, workspace_write, outside_workspace, opaque_side_effect },
    )
}

/// An effort that a model starts with is one that it takes.
pub open spec fn reasoning_ok(r: ReasoningView) -> bool {
    match r {
        ReasoningView::Omit => true,
        ReasoningView::Send { efforts, default_effort } => efforts.contains(default_effort),
    }
}

/// A provider has its default model, and its models' default efforts are theirs.
pub open spec fn section_ok(s: SectionView) -> bool {
    &&& named(s.models, s.default_model) is Some
    &&& forall|i: int| 0 <= i < s.models.len() ==> reasoning_ok((#[trigger] s.models[i]).1.reasoning)
}

pub open spec fn sections_ok(sections: Seq<(Seq<char>, SectionView)>) -> bool {
    forall|i: int| 0 <= i < sections.len() ==> section_ok((#[trigger] sections[i]).1)
}

proof fn models_are_ok(provider: Seq<char>, profile: ProviderProfile, raw: Seq<(String, RawModelSection)>)
    requires
        models_of(provider, profile, raw) is Ok,
    ensures
        forall|i: int|
            0 <= i < models_of(provider, profile, raw)->Ok_0.len() ==> reasoning_ok(
                (#[trigger] models_of(provider, profile, raw)->Ok_0[i]).1.reasoning,
            ),
    decreases raw.len(),
{
    if raw.len() > 0 {
        models_are_ok(provider, profile, raw.drop_last());
    }
}

proof fn section_is_ok(name: Seq<char>, raw: RawProviderSection)
    requires
        section_of(name, raw) is Ok,
    ensures
        section_ok(section_of(name, raw)->Ok_0),
{
    let section = section_of(name, raw)->Ok_0;
    if raw.default_model is Some || raw.models@.len() > 0 {
        models_are_ok(name, section.profile, sorted_named(raw.models@));
    } else {
        let models = section.models;
        assert(models.drop_last() =~= seq![]);
        assert(models.last().0 == section.default_model);
        reveal_with_fuel(named, 2);
    }
}

proof fn sections_are_ok(raw: Seq<(String, RawProviderSection)>)
    requires
        sections_of(raw) is Ok,
    ensures
        sections_ok(sections_of(raw)->Ok_0),
    decreases raw.len(),
{
    if raw.len() > 0 {
        sections_are_ok(raw.drop_last());
        section_is_ok(raw.last().0@, raw.last().1);
    }
}

/// The checked providers of a configuration.
#[derive(Debug)]
struct Sections {
    list: Vec<(String, ProviderSection)>,
}

impl Sections {
    #[verifier::type_invariant]
    spec fn sound(self) -> bool {
        sections_ok(self.list.deep_view())
    }
}

/// A checked configuration.
#[derive(Debug)]
pub struct Config {
    pub active_provider: String,
    /// auto | gitbash | powershell | cmd
    pub shell: String,
    pub system_prompt: Option<String>,
    /// How often one prompt may call the model in a row.
    pub max_turns: u32,
    /// How long a tool may run; without one, as long as it takes.
    pub tool_timeout: Option<Duration>,
    pub permission_rules: PermissionRules,
    providers: Sections,
}

#[verifier::ext_equal]
pub struct ConfigView {
    pub active_provider: Seq<char>,
    pub shell: Seq<char>,
    pub system_prompt: Option<Seq<char>>,
    pub max_turns: u32,
    pub tool_timeout: Option<Duration>,
    pub permission_rules: PermissionRules,
    pub providers: Seq<(Seq<char>, SectionView)>,
}

impl DeepView for Config {
    type V = ConfigView;

    closed spec fn deep_view(&self) -> ConfigView {
        ConfigView {
            active_provider: self.active_provider@,
            shell: self.shell@,
            system_prompt: self.system_prompt.deep_view(),
            max_turns: self.max_turns,
            tool_timeout: self.tool_timeout,
            permission_rules: self.permission_rules,
            providers: self.providers.list.deep_view(),
        }
    }
}

pub open spec fn shell_known(shell: Seq<char>) -> bool {
    shell == "auto"@ || shell == "gitbash"@ || shell == "powershell"@ || shell == "cmd"@
}

/// What a configuration file comes to, or why it is refused.
pub open spec fn config_of(raw: FileConfig) -> Result<ConfigView, Seq<char>> {
    let sorted = sorted_named(raw.providers@);
    let shell = match raw.agent.shell {
        Some(shell) => shell@,
        None => "auto"@,
    };
    let max_turns = match raw.agent.max_turns {
        Some(n) => n,
        None => 50,
    };
    if raw.providers@.len() == 0 {
        Err("配置里没有任何 [providers.*]"@)
    } else if !entry_names(sorted).contains(raw.agent.provider@) {
        Err(
            "[agent].provider = "@ + quoted_text(raw.agent.provider@) + " 不存在,可选: "@ + joined(
                entry_names(sorted),
                ", "@,
            ),
        )
    } else {
        match sections_of(sorted) {
            Err(text) => Err(text),
            Ok(providers) => match rules_of(raw.permissions) {
                Err(text) => Err(text),
                Ok(permission_rules) => if !shell_known(shell) {
                    Err(
                        "[agent].shell = "@ + quoted_text(shell)
                            + " 无效,可选: auto | gitbash | powershell | cmd"@,
                    )
                } else if max_turns == 0 {
                    Err("[agent].max_turns 必须大于 0"@)
                } else {
                    Ok(
                        ConfigView {
                            active_provider: raw.agent.provider@,
                            shell,
                            system_prompt: raw.agent.system_prompt.deep_view(),
                            max_turns,
                            tool_timeout: match raw.agent.tool_timeout_secs {
                                Some(secs) => if secs > 0 {
                                    Some(Duration { nanos: (secs * 1_000_000_000) as u128 })
                                } else {
                                    None
                                },
                                None => None,
                            },
                            permission_rules,
                            providers,
                        },
                    )
                },
            },
        }
    }
}

fn section_names(list: &Vec<(String, RawProviderSection)>) -> (out: Vec<String>)
    ensures
        out.deep_view() == entry_names(list@),
{
    let ghost all = entry_names(list@);
    let mut out: Vec<String> = empty();
    let mut i: usize = 0;
    while i < list.len()
        invariant
            i <= list@.len(),
            all == entry_names(list@),
            out.deep_view() == all.take(i as int),
        decreases list@.len() - i,
    {
        proof {
            take_next(all, i as int);
        }
        put(&mut out, list[i].0.clone());
        i = i + 1;
    }
    proof {
        take_all(all);
    }
    out
}

/// What a selection names: the provider's section and the model's.
pub open spec fn selected(providers: Seq<(Seq<char>, SectionView)>, provider: Seq<char>, model: Seq<char>) -> Option<
    (SectionView, ModelView),
> {
    match named(providers, provider) {
        None => None,
        Some(section) => match named(section.models, model) {
            None => None,
            Some(m) => Some((section, m)),
        },
    }
}

pub open spec fn no_provider(providers: Seq<(Seq<char>, SectionView)>, name: Seq<char>) -> Seq<char> {
    "provider "@ + quoted_text(name) + " 不存在,可选: "@ + joined(names_of(providers), ", "@)
}

pub open spec fn no_model(provider: Seq<char>, model: Seq<char>) -> Seq<char> {
    "provider "@ + quoted_text(provider) + " 没有模型 "@ + quoted_text(model)
}

/// The variable of the environment that holds a provider's key; none where the key is configured.
pub open spec fn key_variable_of(section: SectionView) -> Option<Seq<char>> {
    if section.api_key is Some {
        None
    } else {
        match section.api_key_env {
            Some(variable) => Some(variable),
            None => Some(section.api.key_env()),
        }
    }
}

#[verifier::ext_equal]
pub struct SettingsView {
    pub name: Seq<char>,
    pub api: ApiKind,
    pub profile: ProviderProfile,
    pub base_url: Seq<char>,
    pub api_key: Seq<char>,
    pub model: Seq<char>,
    pub max_tokens: Option<u64>,
    pub context_window: Option<u64>,
    pub selected_effort: Seq<char>,
    pub reasoning_effort: Option<Seq<char>>,
}

impl DeepView for ProviderSettings {
    type V = SettingsView;

    open spec fn deep_view(&self) -> SettingsView {
        SettingsView {
            name: self.name@,
            api: self.api,
            profile: self.profile,
            base_url: self.base_url@,
            api_key: self.api_key@,
            model: self.model@,
            max_tokens: self.max_tokens,
            context_window: self.context_window,
            selected_effort: self.selected_effort@,
            reasoning_effort: self.reasoning_effort.deep_view(),
        }
    }
}

#[verifier::ext_equal]
pub struct SelectionView {
    pub provider: Seq<char>,
    pub model: Seq<char>,
    pub effort: Seq<char>,
}

impl DeepView for ActiveModelSelection {
    type V = SelectionView;

    open spec fn deep_view(&self) -> SelectionView {
        SelectionView { provider: self.provider@, model: self.model@, effort: self.effort@ }
    }
}

#[verifier::ext_equal]
pub struct ModelEntryView {
    pub id: Seq<char>,
    pub context_window: Option<u64>,
    pub max_tokens: Option<u64>,
    pub efforts: Seq<Seq<char>>,
    pub default_effort: Seq<char>,
    pub sends_effort: bool,
}

#[verifier::ext_equal]
pub struct ProviderEntryView {
    pub name: Seq<char>,
    pub default_model: Seq<char>,
    pub models: Seq<ModelEntryView>,
}

impl DeepView for ModelCatalogEntry {
    type V = ModelEntryView;

    open spec fn deep_view(&self) -> ModelEntryView {
        ModelEntryView {
            id: self.id@,
            context_window: self.context_window,
            max_tokens: self.max_tokens,
            efforts: self.efforts.deep_view(),
            default_effort: self.default_effort@,
            sends_effort: self.sends_effort,
        }
    }
}

impl DeepView for ProviderCatalogEntry {
    type V = ProviderEntryView;

    open spec fn deep_view(&self) -> ProviderEntryView {
        ProviderEntryView {
            name: self.name@,
            default_model: self.default_model@,
            models: self.models.deep_view(),
        }
    }
}

/// A model as the catalog shows it.
pub open spec fn model_entry(id: Seq<char>, model: ModelView) -> ModelEntryView {
    ModelEntryView {
        id,
        context_window: model.context_window,
        max_tokens: model.max_tokens,
        efforts: efforts_of(model.reasoning),
        default_effort: first_effort(model.reasoning),
        sends_effort: model.reasoning is Send,
    }
}

/// A provider as the catalog shows it.
pub open spec fn provider_entry(name: Seq<char>, section: SectionView) -> ProviderEntryView {
    ProviderEntryView {
        name,
        default_model: section.default_model,
        models: Seq::new(
            section.models.len(),
            |i: int| model_entry(section.models[i].0, section.models[i].1),
        ),
    }
}

/// Names with some more, as far as they are not there.
pub open spec fn with_names(names: Seq<Seq<char>>, more: Seq<Seq<char>>) -> Seq<Seq<char>>
    decreases more.len(),
{
    if more.len() == 0 {
        names
    } else {
        let before = with_names(names, more.drop_last());
        if before.contains(more.last()) {
            before
        } else {
            before.push(more.last())
        }
    }
}

fn add_names(names: &mut Vec<String>, more: Vec<String>)
    ensures
        final(names).deep_view() == with_names(old(names).deep_view(), more.deep_view()),
{
    let ghost all = more.deep_view();
    let ghost start = names.deep_view();
    let mut i: usize = 0;
    while i < more.len()
        invariant
            i <= more@.len(),
            all == more.deep_view(),
            names.deep_view() == with_names(start, all.take(i as int)),
        decreases more@.len() - i,
    {
        proof {
            take_next(all, i as int);
        }
        if !holds(names, more[i].as_str()) {
            put(names, more[i].clone());
        }
        i = i + 1;
    }
    proof {
        take_all(all);
    }
}

/// The models of some providers, each once.
pub open spec fn models_among(providers: Seq<(Seq<char>, SectionView)>) -> Seq<Seq<char>>
    decreases providers.len(),
{
    if providers.len() == 0 {
        seq![]
    } else {
        with_names(models_among(providers.drop_last()), names_of(providers.last().1.models))
    }
}

fn list_models(models: &Vec<(String, ModelSection)>) -> (out: Vec<ModelCatalogEntry>)
    ensures
        out.deep_view() == Seq::new(
            models@.len(),
            |i: int| model_entry(models.deep_view()[i].0, models.deep_view()[i].1),
        ),
{
    let mut out: Vec<ModelCatalogEntry> = Vec::new();
    let mut i: usize = 0;
    while i < models.len()
        invariant
            i <= models@.len(),
            out@.len() == i,
            forall|k: int|
                0 <= k < i ==> (#[trigger] out@[k]).deep_view() == model_entry(
                    models.deep_view()[k].0,
                    models.deep_view()[k].1,
                ),
        decreases models@.len() - i,
    {
        let model = &models[i].1;
        let sends_effort = match model.reasoning {
            ModelReasoning::Send { .. } => true,
            ModelReasoning::Omit => false,
        };
        out.push(
            ModelCatalogEntry {
                id: models[i].0.clone(),
                context_window: model.context_window,
                max_tokens: model.max_tokens,
                efforts: model.reasoning.efforts(),
                default_effort: model.reasoning.default_effort().to_owned(),
                sends_effort,
            },
        );
        i = i + 1;
    }
    out
}

/// What a selection comes to, given what the environment holds under the key's variable; or why it
/// is refused.
pub open spec fn settings_of(
    providers: Seq<(Seq<char>, SectionView)>,
    selection: SelectionView,
    variable: Option<Seq<char>>,
) -> Result<SettingsView, Seq<char>> {
    match named(providers, selection.provider) {
        None => Err(no_provider(providers, selection.provider)),
        Some(section) => match named(section.models, selection.model) {
            None => Err(
                no_model(selection.provider, selection.model) + ",可选: "@ + joined(
                    names_of(section.models),
                    ", "@,
                ),
            ),
            Some(model) => match effort_policy(model.reasoning, selection.effort) {
                Err(text) => Err(text),
                Ok(reasoning_effort) => if section.api_key is None && variable is None {
                    Err(
                        "找不到 API key:请设置环境变量 "@ + key_variable_of(section)->0
                            + ",或在 config.toml 的 [providers."@ + selection.provider
                            + "] 里写 api_key = \"...\"(本地无鉴权服务写 api_key = \"\")"@,
                    )
                } else {
                    Ok(
                        SettingsView {
                            name: selection.provider,
                            api: section.api,
                            profile: section.profile,
                            base_url: without_end(section.base_url, '/'),
                            api_key: match section.api_key {
                                Some(key) => key,
                                None => variable->0,
                            },
                            model: selection.model,
                            max_tokens: model.max_tokens,
                            context_window: model.context_window,
                            selected_effort: selection.effort,
                            reasoning_effort,
                        },
                    )
                },
            },
        },
    }
}

/// What is wrong with a selection, if anything.
pub open spec fn selection_error(
    providers: Seq<(Seq<char>, SectionView)>,
    selection: SelectionView,
) -> Option<Seq<char>> {
    match named(providers, selection.provider) {
        None => Some(no_provider(providers, selection.provider)),
        Some(section) => match named(section.models, selection.model) {
            None => Some(no_model(selection.provider, selection.model)),
            Some(model) => match effort_policy(model.reasoning, selection.effort) {
                Err(text) => Some(text),
                Ok(_) => None,
            },
        },
    }
}

/// The selection that a provider starts with.
pub open spec fn default_of(provider: Seq<char>, section: SectionView) -> SelectionView {
    SelectionView {
        provider,
        model: section.default_model,
        effort: first_effort(named(section.models, section.default_model)->0.reasoning),
    }
}

impl Config {
    /// Checks the sections of a configuration file.
    pub fn from_file(raw: FileConfig) -> (r: Result<Config, String>)
        ensures
            match config_of(raw) {
                Ok(config) => r is Ok && r->Ok_0.deep_view() == config && sections_ok(config.providers),
                Err(text) => r is Err && r->Err_0@ == text,
            },
    {
        let FileConfig { agent, permissions, providers } = raw;
        if providers.len() == 0 {
            return Err("配置里没有任何 [providers.*]".to_owned());
        }
        let sorted = sort_named(providers);
        let names = section_names(&sorted);
        if !holds(&names, agent.provider.as_str()) {
            let mut text = concat3(
                "[agent].provider = ",
                quoted(agent.provider.as_str()).as_str(),
                " 不存在,可选: ",
            );
            text.push_str(join(&names, ", ").as_str());
            return Err(text);
        }
        proof {
            if sections_of(sorted@) is Ok {
                sections_are_ok(sorted@);
            }
        }
        let list = match normalize_providers(sorted) {
            Ok(list) => list,
            Err(text) => {
                return Err(text);
            },
        };
        let permission_rules = match read_rules(&permissions) {
            Ok(rules) => rules,
            Err(text) => {
                return Err(text);
            },
        };
        let shell = match agent.shell {
            Some(shell) => shell,
            None => "auto".to_owned(),
        };
        if !same(shell.as_str(), "auto") && !same(shell.as_str(), "gitbash") && !same(
            shell.as_str(),
            "powershell",
        ) && !same(shell.as_str(), "cmd") {
            return Err(
                concat3(
                    "[agent].shell = ",
                    quoted(shell.as_str()).as_str(),
                    " 无效,可选: auto | gitbash | powershell | cmd",
                ),
            );
        }
        let max_turns: u32 = match agent.max_turns {
            Some(n) => n,
            None => 50,
        };
        if max_turns == 0 {
            return Err("[agent].max_turns 必须大于 0".to_owned());
        }
        let tool_timeout = match agent.tool_timeout_secs {
            Some(secs) => if secs > 0 {
                Some(Duration::from_secs(secs))
            } else {
                None
            },
            None => None,
        };
        Ok(
            Config {
                active_provider: agent.provider,
                shell,
                system_prompt: agent.system_prompt,
                max_turns,
                tool_timeout,
                permission_rules,
                providers: Sections { list },
            },
        )
    }

    /// Reads a configuration file's text.
    pub fn parse(text: &str) -> (r: Result<Config, String>)
        ensures
            match parsed_toml(text@) {
                Err(e) => r is Err && r->Err_0@ == e,
                Ok(view) => exists|table: Json| #[trigger]
                    table@ == view && match file_flaw(table) {
                        Some(flaw) => r is Err && r->Err_0@ == flaw,
                        None => exists|raw: FileConfig| #[trigger]
                            says_file(table, raw) && match config_of(raw) {
                                Ok(config) => r is Ok && r->Ok_0.deep_view() == config,
                                Err(e) => r is Err && r->Err_0@ == e,
                            },
                    },
            },
            r is Ok ==> sections_ok(r->Ok_0.deep_view().providers),
            r is Ok ==> orderly(r->Ok_0.deep_view().providers),
            r is Ok ==> names_of(r->Ok_0.deep_view().providers).contains(
                r->Ok_0.deep_view().active_provider,
            ),
    {
        match from_toml(text) {
            Err(e) => Err(e),
            Ok(table) => match read_file_config(&table) {
                Err(e) => {
                    assert(table@ == table@);
                    Err(e)
                },
                Ok(raw) => {
                    assert(says_file(table, raw));
                    proof {
                        if config_of(raw) is Ok {
                            law_loaded_names_ascend(table, raw);
                        }
                    }
                    Config::from_file(raw)
                },
            },
        }
    }

    pub fn provider_names(&self) -> (out: Vec<String>)
        ensures
            out.deep_view() == names_of(self.deep_view().providers),
    {
        list_names(&self.providers.list)
    }

    /// The names of all models, each once.
    pub fn model_names(&self) -> (out: Vec<String>)
        ensures
            out.deep_view() == models_among(self.deep_view().providers),
    {
        let list = &self.providers.list;
        let ghost all = list.deep_view();
        let mut out: Vec<String> = empty();
        let mut i: usize = 0;
        while i < list.len()
            invariant
                i <= list@.len(),
                all == list.deep_view(),
                out.deep_view() == models_among(all.take(i as int)),
            decreases list@.len() - i,
        {
            proof {
                take_next(all, i as int);
            }
            add_names(&mut out, list_names(&list[i].1.models));
            i = i + 1;
        }
        proof {
            take_all(all);
        }
        out
    }

    /// The providers and their models, as a chooser shows them.
    pub fn provider_catalog(&self) -> (out: Vec<ProviderCatalogEntry>)
        ensures
            out.deep_view() == Seq::new(
                self.deep_view().providers.len(),
                |i: int|
                    provider_entry(
                        self.deep_view().providers[i].0,
                        self.deep_view().providers[i].1,
                    ),
            ),
    {
        let list = &self.providers.list;
        let mut out: Vec<ProviderCatalogEntry> = Vec::new();
        let mut i: usize = 0;
        while i < list.len()
            invariant
                i <= list@.len(),
                out@.len() == i,
                forall|k: int|
                    0 <= k < i ==> (#[trigger] out@[k]).deep_view() == provider_entry(
                        list.deep_view()[k].0,
                        list.deep_view()[k].1,
                    ),
            decreases list@.len() - i,
        {
            let section = &list[i].1;
            let models = list_models(&section.models);
            assert(models.deep_view() =~= provider_entry(list@[i as int].0@, section.deep_view()).models);
            out.push(
                ProviderCatalogEntry {
                    name: list[i].0.clone(),
                    default_model: section.default_model.clone(),
                    models,
                },
            );
            i = i + 1;
        }
        out
    }

    fn provider(&self, name: &str) -> (r: Result<&ProviderSection, String>)
        ensures
            match r {
                Ok(section) => named(self.deep_view().providers, name@) == Some(
                    section.deep_view(),
                ) && section_ok(section.deep_view()),
                Err(text) => named(self.deep_view().providers, name@) is None && text@ == no_provider(
                    self.deep_view().providers,
                    name@,
                ),
            },
    {
        proof {
            use_type_invariant(&self.providers);
        }
        match find_named(&self.providers.list, name) {
            Some(section) => {
                let ghost list = self.providers.list@;
                proof {
                    let i = choose|i: int| 0 <= i < list.len() && (#[trigger] list[i]).1 == *section;
                    assert(self.providers.list.deep_view()[i].1 == section.deep_view());
                }
                Ok(section)
            },
            None => {
                let mut text = concat3("provider ", quoted(name).as_str(), " 不存在,可选: ");
                text.push_str(join(&self.provider_names(), ", ").as_str());
                Err(text)
            },
        }
    }

    pub fn default_selection(&self, provider: &str) -> (r: Result<ActiveModelSelection, String>)
        ensures
            match named(self.deep_view().providers, provider@) {
                Some(section) => r is Ok && r->Ok_0.deep_view() == default_of(provider@, section),
                None => r is Err && r->Err_0@ == no_provider(self.deep_view().providers, provider@),
            },
    {
        match self.provider(provider) {
            Err(text) => Err(text),
            Ok(section) => match find_named(&section.models, section.default_model.as_str()) {
                Some(model) => Ok(
                    ActiveModelSelection {
                        provider: provider.to_owned(),
                        model: section.default_model.clone(),
                        effort: model.reasoning.default_effort().to_owned(),
                    },
                ),
                None => {
                    assert(false);
                    Err("".to_owned())
                },
            },
        }
    }

    pub fn model_default_effort(&self, provider: &str, model: &str) -> (r: Result<&str, String>)
        ensures
            match named(self.deep_view().providers, provider@) {
                None => r is Err && r->Err_0@ == no_provider(self.deep_view().providers, provider@),
                Some(section) => match named(section.models, model@) {
                    None => r is Err && r->Err_0@ == no_model(provider@, model@),
                    Some(m) => r is Ok && r->Ok_0@ == first_effort(m.reasoning),
                },
            },
    {
        match self.provider(provider) {
            Err(text) => Err(text),
            Ok(section) => match find_named(&section.models, model) {
                Some(m) => Ok(m.reasoning.default_effort()),
                None => Err(missing_model(provider, model)),
            },
        }
    }

    /// Which variable of the environment a provider's key is read from, if any.
    pub fn key_variable(&self, provider: &str) -> (r: Result<Option<String>, String>)
        ensures
            match named(self.deep_view().providers, provider@) {
                None => r is Err && r->Err_0@ == no_provider(self.deep_view().providers, provider@),
                Some(section) => r is Ok && r->Ok_0.deep_view() == key_variable_of(section),
            },
    {
        match self.provider(provider) {
            Err(text) => Err(text),
            Ok(section) => if section.api_key.is_some() {
                Ok(None)
            } else {
                match &section.api_key_env {
                    Some(variable) => Ok(Some(variable.clone())),
                    None => Ok(Some(section.api.default_key_env().to_owned())),
                }
            },
        }
    }

    /// The settings of a provider's default model. `variable` is what the environment holds under
    /// the provider's key variable.
    pub fn resolve_provider(&self, name: &str, variable: Option<String>) -> (r: Result<
        ProviderSettings,
        String,
    >)
        ensures
            match named(self.deep_view().providers, name@) {
                None => r is Err && r->Err_0@ == no_provider(self.deep_view().providers, name@),
                Some(section) => match settings_of(
                    self.deep_view().providers,
                    default_of(name@, section),
                    variable.deep_view(),
                ) {
                    Ok(settings) => r is Ok && r->Ok_0.deep_view() == settings,
                    Err(text) => r is Err && r->Err_0@ == text,
                },
            },
    {
        match self.default_selection(name) {
            Ok(selection) => self.resolve_selection(&selection, variable),
            Err(text) => Err(text),
        }
    }

    /// The settings of a selection. `variable` is what the environment holds under the provider's
    /// key variable.
    pub fn resolve_selection(&self, selection: &ActiveModelSelection, variable: Option<String>) -> (r:
        Result<ProviderSettings, String>)
        ensures
            match settings_of(
                self.deep_view().providers,
                selection.deep_view(),
                variable.deep_view(),
            ) {
                Ok(settings) => r is Ok && r->Ok_0.deep_view() == settings,
                Err(text) => r is Err && r->Err_0@ == text,
            },
    {
        let section = match self.provider(selection.provider.as_str()) {
            Ok(section) => section,
            Err(text) => {
                return Err(text);
            },
        };
        let model = match find_named(&section.models, selection.model.as_str()) {
            Some(model) => model,
            None => {
                let mut text = missing_model(selection.provider.as_str(), selection.model.as_str());
                text.push_str(",可选: ");
                text.push_str(join(&list_names(&section.models), ", ").as_str());
                return Err(text);
            },
        };
        let reasoning_effort = match model.reasoning.resolve(selection.effort.as_str()) {
            Ok(policy) => policy,
            Err(text) => {
                return Err(text);
            },
        };
        let api_key = match &section.api_key {
            Some(key) => key.clone(),
            None => match variable {
                Some(key) => key,
                None => {
                    let name = match &section.api_key_env {
                        Some(variable) => variable.as_str(),
                        None => section.api.default_key_env(),
                    };
                    let mut text = concat3(
                        "找不到 API key:请设置环境变量 ",
                        name,
                        ",或在 config.toml 的 [providers.",
                    );
                    text.push_str(selection.provider.as_str());
                    text.push_str(
                        "] 里写 api_key = \"...\"(本地无鉴权服务写 api_key = \"\")",
                    );
                    return Err(text);
                },
            },
        };
        Ok(
            ProviderSettings {
                name: selection.provider.clone(),
                api: section.api,
                profile: section.profile,
                base_url: trim_end_char(section.base_url.as_str(), '/').to_owned(),
                api_key,
                model: selection.model.clone(),
                max_tokens: model.max_tokens,
                context_window: model.context_window,
                selected_effort: selection.effort.clone(),
                reasoning_effort,
            },
        )
    }

    pub fn validate_selection(&self, selection: &ActiveModelSelection) -> (r: Result<(), String>)
        ensures
            match selection_error(self.deep_view().providers, selection.deep_view()) {
                None => r is Ok,
                Some(text) => r is Err && r->Err_0@ == text,
            },
    {
        match self.provider(selection.provider.as_str()) {
            Err(text) => Err(text),
            Ok(section) => match find_named(&section.models, selection.model.as_str()) {
                None => Err(
                    missing_model(selection.provider.as_str(), selection.model.as_str()),
                ),
                Some(model) => match model.reasoning.resolve(selection.effort.as_str()) {
                    Ok(_) => Ok(()),
                    Err(text) => Err(text),
                },
            },
        }
    }
}

fn missing_model(provider: &str, model: &str) -> (s: String)
    ensures
        s@ == no_model(provider@, model@),
{
    let mut s = concat3("provider ", quoted(provider).as_str(), " 没有模型 ");
    s.push_str(quoted(model).as_str());
    s
}

proof fn named_is_listed<V>(s: Seq<(Seq<char>, V)>, name: Seq<char>)
    requires
        named(s, name) is Some,
    ensures
        exists|i: int| 0 <= i < s.len() && (#[trigger] s[i]) == (name, named(s, name)->0),
    decreases s.len(),
{
    if named(s.drop_last(), name) is Some {
        named_is_listed(s.drop_last(), name);
        let i = choose|i: int|
            0 <= i < s.len() - 1 && (#[trigger] s.drop_last()[i]) == (name, named(s, name)->0);
        assert(s[i] == (name, named(s, name)->0));
    } else {
        assert(s[s.len() - 1] == (name, named(s, name)->0));
    }
}

/// The selection that a provider starts with is always a valid one; it resolves as soon as the key
/// is at hand.
pub proof fn law_default_selections_are_valid(
    providers: Seq<(Seq<char>, SectionView)>,
    provider: Seq<char>,
    key: Seq<char>,
)
    requires
        sections_ok(providers),
        named(providers, provider) is Some,
    ensures
        selection_error(providers, default_of(provider, named(providers, provider)->0)) is None,
        settings_of(providers, default_of(provider, named(providers, provider)->0), Some(key)) is Ok,
{
    named_is_listed(providers, provider);
    let section = named(providers, provider)->0;
    named_is_listed(section.models, section.default_model);
}

/// Whether the names of some providers ascend strictly, so that none occurs twice, and no provider
/// names a model twice.
pub open spec fn orderly(providers: Seq<(Seq<char>, SectionView)>) -> bool {
    &&& forall|i: int, j: int|
        0 <= i < j < providers.len() ==> text_le(
            (#[trigger] providers[i]).0,
            (#[trigger] providers[j]).0,
        ) && providers[i].0 != providers[j].0
    &&& forall|i: int| 0 <= i < providers.len() ==> distinct((#[trigger] providers[i]).1.models)
}

proof fn sections_are_those(raw: Seq<(String, RawProviderSection)>)
    requires
        sections_of(raw) is Ok,
    ensures
        sections_of(raw)->Ok_0.len() == raw.len(),
        forall|i: int|
            0 <= i < raw.len() ==> {
                let section = #[trigger] sections_of(raw)->Ok_0[i];
                &&& section.0 == raw[i].0@
                &&& section_of(raw[i].0@, raw[i].1) == Ok::<SectionView, Seq<char>>(section.1)
            },
    decreases raw.len(),
{
    if raw.len() > 0 {
        sections_are_those(raw.drop_last());
        let before = sections_of(raw.drop_last())->Ok_0;
        let all = sections_of(raw)->Ok_0;
        assert forall|i: int| 0 <= i < raw.len() implies {
            let section = #[trigger] all[i];
            &&& section.0 == raw[i].0@
            &&& section_of(raw[i].0@, raw[i].1) == Ok::<SectionView, Seq<char>>(section.1)
        } by {
            if i < before.len() {
                assert(all[i] == before[i]);
                assert(raw.drop_last()[i] == raw[i]);
            }
        }
    }
}

proof fn models_are_those(
    provider: Seq<char>,
    profile: ProviderProfile,
    raw: Seq<(String, RawModelSection)>,
)
    requires
        models_of(provider, profile, raw) is Ok,
    ensures
        models_of(provider, profile, raw)->Ok_0.len() == raw.len(),
        forall|i: int|
            0 <= i < raw.len() ==> (#[trigger] models_of(provider, profile, raw)->Ok_0[i]).0
                == raw[i].0@,
    decreases raw.len(),
{
    if raw.len() > 0 {
        models_are_those(provider, profile, raw.drop_last());
        let before = models_of(provider, profile, raw.drop_last())->Ok_0;
        let all = models_of(provider, profile, raw)->Ok_0;
        assert forall|i: int| 0 <= i < raw.len() implies (#[trigger] all[i]).0 == raw[i].0@ by {
            if i < before.len() {
                assert(all[i] == before[i]);
                assert(raw.drop_last()[i] == raw[i]);
            }
        }
    }
}

proof fn section_models_differ(name: Seq<char>, raw: RawProviderSection)
    requires
        section_of(name, raw) is Ok,
        unique_names(raw.models@),
    ensures
        distinct(section_of(name, raw)->Ok_0.models),
{
    let section = section_of(name, raw)->Ok_0;
    if raw.default_model is Some || raw.models@.len() > 0 {
        let sorted = sorted_named(raw.models@);
        sorting_keeps_names_apart(raw.models@);
        models_are_those(name, section.profile, sorted);
        assert forall|i: int, j: int| 0 <= i < j < section.models.len() implies (
        #[trigger] section.models[i]).0 != (#[trigger] section.models[j]).0 by {
            assert(sorted[i].0@ != sorted[j].0@);
        }
    }
}

proof fn table_names_differ(table: Json, key: Seq<char>)
    requires
        table.tidy(),
    ensures
        unique_names(subtables(table, key)),
        forall|i: int|
            0 <= i < subtables(table, key).len() ==> (#[trigger] subtables(table, key)[i]).1.tidy(),
{
    if let Some(Json::Object(entries)) = table.child(key) {
        children_are_tidy(table, key);
    }
}

/// The names of a loaded configuration's providers ascend strictly, so that none occurs twice, and
/// the active provider is one of them.
pub proof fn law_loaded_names_ascend(table: Json, raw: FileConfig)
    requires
        table.tidy(),
        says_file(table, raw),
        config_of(raw) is Ok,
    ensures
        orderly(config_of(raw)->Ok_0.providers),
        names_of(config_of(raw)->Ok_0.providers).contains(config_of(raw)->Ok_0.active_provider),
{
    let config = config_of(raw)->Ok_0;
    let list = raw.providers@;
    let sorted = sorted_named(list);
    let tables = subtables(table, "providers"@);
    let all = config.providers;
    table_names_differ(table, "providers"@);
    assert forall|i: int, j: int| 0 <= i < j < list.len() implies (#[trigger] list[i]).0@ != (
    #[trigger] list[j]).0@ by {
        assert(tables[i].0@ != tables[j].0@);
    }
    law_sorting_by_name(list);
    sorting_keeps_names_apart(list);
    sections_are_those(sorted);
    assert forall|i: int, j: int| 0 <= i < j < all.len() implies text_le(
        (#[trigger] all[i]).0,
        (#[trigger] all[j]).0,
    ) && all[i].0 != all[j].0 by {
        assert(text_le(sorted[i].0@, sorted[j].0@));
        assert(sorted[i].0@ != sorted[j].0@);
    }
    assert forall|i: int| 0 <= i < all.len() implies distinct((#[trigger] all[i]).1.models) by {
        let k = choose|k: int| 0 <= k < list.len() && list[k] == sorted[i];
        assert(tables[k].1.tidy());
        table_names_differ(tables[k].1, "models"@);
        let models = list[k].1.models@;
        let entries = subtables(tables[k].1, "models"@);
        assert(says_provider(tables[k].1, list[k].1));
        assert forall|a: int, b: int| 0 <= a < b < models.len() implies (#[trigger] models[a]).0@
            != (#[trigger] models[b]).0@ by {
            assert(entries[a].0@ != entries[b].0@);
        }
        section_models_differ(sorted[i].0@, sorted[i].1);
    }
    let i = choose|i: int| 0 <= i < sorted.len() && entry_names(sorted)[i] == raw.agent.provider@;
    assert(names_of(all)[i] == raw.agent.provider@);
}

/// The catalog lists the providers in the order of their names.
pub proof fn law_the_catalog_lists_the_names(providers: Seq<(Seq<char>, SectionView)>)
    ensures
        Seq::new(
            providers.len(),
            |i: int| provider_entry(providers[i].0, providers[i].1),
        ).map_values(|e: ProviderEntryView| e.name) == names_of(providers),
{
    assert(Seq::new(
        providers.len(),
        |i: int| provider_entry(providers[i].0, providers[i].1),
    ).map_values(|e: ProviderEntryView| e.name) =~= names_of(providers));
}

/// Whether a provider's entry in the catalog offers a selection, by its model at `j`.
pub open spec fn offers(entry: ProviderEntryView, j: int, selection: SelectionView) -> bool {
    &&& entry.name == selection.provider
    &&& 0 <= j < entry.models.len()
    &&& entry.models[j].id == selection.model
    &&& entry.models[j].efforts.contains(selection.effort)
}

/// Whether the catalog of some providers offers a selection.
pub open spec fn offered(providers: Seq<(Seq<char>, SectionView)>, selection: SelectionView) -> bool {
    exists|i: int, j: int|
        0 <= i < providers.len() && #[trigger] offers(
            provider_entry(providers[i].0, providers[i].1),
            j,
            selection,
        )
}

/// A selection is valid exactly when the catalog offers it.
pub proof fn law_offered_selections_are_valid(
    providers: Seq<(Seq<char>, SectionView)>,
    selection: SelectionView,
)
    requires
        orderly(providers),
    ensures
        selection_error(providers, selection) is None <==> offered(providers, selection),
{
    if selection_error(providers, selection) is None {
        named_is_listed(providers, selection.provider);
        let section = named(providers, selection.provider)->0;
        let i = choose|i: int|
            0 <= i < providers.len() && (#[trigger] providers[i]) == (selection.provider, section);
        named_is_listed(section.models, selection.model);
        let model = named(section.models, selection.model)->0;
        let j = choose|j: int|
            0 <= j < section.models.len() && (#[trigger] section.models[j]) == (
                selection.model,
                model,
            );
        let entry = provider_entry(providers[i].0, providers[i].1);
        assert(entry.models[j] == model_entry(selection.model, model));
        if model.reasoning is Omit {
            assert(efforts_of(model.reasoning)[0] == selection.effort);
        }
        assert(offers(entry, j, selection));
    }
    if offered(providers, selection) {
        let (i, j) = choose|i: int, j: int|
            0 <= i < providers.len() && #[trigger] offers(
                provider_entry(providers[i].0, providers[i].1),
                j,
                selection,
            );
        let section = providers[i].1;
        assert(distinct(providers)) by {
            assert forall|a: int, b: int| 0 <= a < b < providers.len() implies (
            #[trigger] providers[a]).0 != (#[trigger] providers[b]).0 by {}
        }
        named_by_entry(providers, selection.provider);
        named_by_entry(section.models, selection.model);
        let entry = provider_entry(providers[i].0, section);
        let model = section.models[j].1;
        assert(entry.models[j] == model_entry(section.models[j].0, model));
        assert(named(providers, selection.provider) == Some(section));
        assert(named(section.models, selection.model) == Some(model));
    }
}

/// A selection resolves only if it is valid.
pub proof fn law_only_valid_selections_resolve(
    providers: Seq<(Seq<char>, SectionView)>,
    selection: SelectionView,
    variable: Option<Seq<char>>,
)
    ensures
        settings_of(providers, selection, variable) is Ok ==> selection_error(providers, selection) is None,
        selection_error(providers, selection) is None && variable is Some ==> settings_of(
            providers,
            selection,
            variable,
        ) is Ok,
{
}

/// The file that is written where there is none yet.
pub const EXAMPLE_CONFIG: &'static str = r#"# Onemore 全局配置文件(Windows 默认 %APPDATA%/onemore/config.toml)
# [agent].provider 决定当前用哪个 [providers.*];TUI 里可用 /provider 名字 热切换。

[agent]
provider = "anthropic"
# run_command 用的 shell:auto | gitbash | powershell | cmd
# auto = 找到 Git Bash 就用它(模型对 bash 语法最熟),否则退回 PowerShell
shell = "auto"
# 一轮对话里最多连续调用模型的次数(防止失控空转)
max_turns = 50
# 可选：单个工具调用超时秒数；省略或 0 表示不限制。
# tool_timeout_secs = 300
# 想完全接管系统提示就取消下面的注释:
# system_prompt = "You are ..."

# 权限规则:allow | ask | deny。hard deny(设备路径、无法安全解析的路径)不受这里覆盖。
[permissions]
workspace_read = "allow"
workspace_write = "allow"
outside_workspace = "ask"
commands = "ask"

# ---- Anthropic Messages API ----
[providers.anthropic]
api = "messages"
profile = "anthropic"
base_url = "https://api.anthropic.com"
api_key_env = "ANTHROPIC_API_KEY"
default_model = "sonnet-5"
# api_key = "sk-ant-..."           # 不想用环境变量就直接写(请保护好此文件)

[providers.anthropic.models."sonnet-5"]
context_window = 200000
max_tokens = 32000
# 省略 efforts：按 profile="anthropic" 使用标准列表
# low | medium | high | xhigh | max，默认 medium。

[providers.anthropic.models."opus-5"]
context_window = 200000
max_tokens = 32000
# 模型不支持 effort 时显式写空数组；TUI 只显示 medium，请求不发送 effort。
efforts = []

# ---- OpenAI Responses API(OpenAI 当前主推)----
# profile 决定请求字段和流事件语义，不要求模型名称必须是 OpenAI 品牌；
# 接受 OpenAI Responses reasoning 字段的兼容网关也应使用 profile="openai"。
[providers.openai]
api = "responses"
profile = "openai"
base_url = "https://api.openai.com/v1"
api_key_env = "OPENAI_API_KEY"
default_model = "gpt-5"

[providers.openai.models."gpt-5"]
context_window = 400000
max_tokens = 128000
# 省略 efforts：按 profile="openai" 使用标准列表
# none | minimal | low | medium | high | xhigh | max，默认 medium。

[providers.openai.models."gpt-5-pro"]
context_window = 400000
max_tokens = 128000
# 非空数组完整覆盖 profile 标准列表；不要求包含 medium。
efforts = ["low", "high", "max"]
# 可选；省略时优先选 medium，不存在 medium 则选数组第一项。
default_effort = "high"

# ---- DeepSeek Responses API ----
[providers.deepseek]
api = "responses"
profile = "deepseek-responses"
base_url = "https://api.deepseek.com"
api_key_env = "DEEPSEEK_API_KEY"
default_model = "deepseek-v4-flash"

[providers.deepseek.models."deepseek-v4-flash"]
context_window = 131072
max_tokens = 8192
# deepseek-* profile 不定义标准 effort，也不允许配置 efforts；
# TUI 默认 medium，请求不发送 effort 字段。
"#;

} // verus!
