//! What settings come to: names, defaults, limits, keys and selections.
use vstd::prelude::*;

use crate::config::{
    api_named, config_of, default_effort_text, default_of, effort_policy, efforts_of, family,
    first_effort, first_repeat, key_variable_of, limits_error, lineup, model_entry, model_of,
    models_among, models_of, profile_label, profile_named, profile_of, provider_entry, reasoning_of,
    rule_of, rules_of, section_of, sections_of, selection_error, settings_of, shell_known, standard,
    with_names, ApiKind, ModelView, ProviderProfile, ReasoningView, SectionView, SelectionView,
    SettingsView,
};
use crate::config::file::{
    agent_flaw, agent_keys, bad_field, either, entry_names, file_flaw, file_keys, first_stranger,
    is_opt_number, is_opt_table, is_opt_text, is_opt_texts, model_keys, models_flaw, opt_number,
    opt_text, opt_texts, permission_keys, permissions_flaw, provider_keys, providers_flaw,
    raw_model_flaw, raw_provider_flaw, says_agent, says_model, says_models, says_permissions,
    says_provider, subtables, table_flaw, AgentSection, FileConfig, PermissionsSection,
    RawModelSection, RawProviderSection,
};
use crate::json::{lookup, Json, JsonView};
use crate::permission::{PermissionRule, PermissionRules};
use crate::text::{begins, joined, named, names_of, quoted_text, sorted_named, trimmed, without_end};

verus! {

proof fn profile_names()
    ensures
        "openai"@ != "anthropic"@,
        "openai"@ != "deepseek-responses"@,
        "openai"@ != "deepseek-messages"@,
        "anthropic"@ != "deepseek-responses"@,
        "anthropic"@ != "deepseek-messages"@,
        "deepseek-responses"@ != "deepseek-messages"@,
{
    reveal_strlit("openai");
    reveal_strlit("anthropic");
    reveal_strlit("deepseek-responses");
    reveal_strlit("deepseek-messages");
    assert("openai"@.len() != "anthropic"@.len());
    assert("openai"@.len() != "deepseek-responses"@.len());
    assert("openai"@.len() != "deepseek-messages"@.len());
    assert("anthropic"@.len() != "deepseek-responses"@.len());
    assert("anthropic"@.len() != "deepseek-messages"@.len());
    assert("deepseek-responses"@.len() != "deepseek-messages"@.len());
}

proof fn api_names()
    ensures
        "messages"@ != "responses"@,
{
    reveal_strlit("messages");
    reveal_strlit("responses");
    assert("messages"@.len() != "responses"@.len());
}

proof fn shell_names()
    ensures
        "auto"@ != "gitbash"@,
        "auto"@ != "powershell"@,
        "auto"@ != "cmd"@,
        "gitbash"@ != "powershell"@,
        "gitbash"@ != "cmd"@,
        "powershell"@ != "cmd"@,
{
    reveal_strlit("auto");
    reveal_strlit("gitbash");
    reveal_strlit("powershell");
    reveal_strlit("cmd");
    assert("auto"@.len() != "gitbash"@.len());
    assert("auto"@.len() != "powershell"@.len());
    assert("auto"@.len() != "cmd"@.len());
    assert("gitbash"@.len() != "powershell"@.len());
    assert("gitbash"@.len() != "cmd"@.len());
    assert("powershell"@.len() != "cmd"@.len());
}

// ---- Names ----

/// Interfaces and their dialects go by their names. Without a name the interface has its usual
/// dialect; a dialect of another interface is refused.
pub proof fn law_dialects_have_names(name: Seq<char>)
    ensures
        api_named("messages"@) == Ok::<ApiKind, Seq<char>>(ApiKind::Messages),
        api_named("responses"@) == Ok::<ApiKind, Seq<char>>(ApiKind::Responses),
        name != "messages"@ && name != "responses"@ ==> api_named(name) == Err::<ApiKind, Seq<char>>(
            "未知 api 类型 "@ + quoted_text(name) + ",可选: messages | responses"@,
        ),
        profile_of(None, ApiKind::Messages) == Ok::<ProviderProfile, Seq<char>>(
            ProviderProfile::AnthropicMessages,
        ),
        profile_of(None, ApiKind::Responses) == Ok::<ProviderProfile, Seq<char>>(
            ProviderProfile::OpenAiResponses,
        ),
        profile_of(Some("openai"@), ApiKind::Responses) == Ok::<ProviderProfile, Seq<char>>(
            ProviderProfile::OpenAiResponses,
        ),
        profile_of(Some("anthropic"@), ApiKind::Messages) == Ok::<ProviderProfile, Seq<char>>(
            ProviderProfile::AnthropicMessages,
        ),
        profile_of(Some("deepseek-responses"@), ApiKind::Responses) == Ok::<
            ProviderProfile,
            Seq<char>,
        >(ProviderProfile::DeepSeekResponses),
        profile_of(Some("deepseek-messages"@), ApiKind::Messages) == Ok::<ProviderProfile, Seq<char>>(
            ProviderProfile::DeepSeekMessages,
        ),
        profile_of(Some("openai"@), ApiKind::Messages) == Err::<ProviderProfile, Seq<char>>(
            "provider profile 与 api 类型不匹配"@,
        ),
        profile_of(Some("anthropic"@), ApiKind::Responses) == Err::<ProviderProfile, Seq<char>>(
            "provider profile 与 api 类型不匹配"@,
        ),
        profile_named(name) is None ==> profile_of(Some(name), ApiKind::Messages) == Err::<
            ProviderProfile,
            Seq<char>,
        >(
            "未知 provider profile "@ + quoted_text(name)
                + ",可选: openai | anthropic | deepseek-responses | deepseek-messages"@,
        ),
        profile_label(ProviderProfile::OpenAiResponses) == "OpenAiResponses"@,
        profile_label(ProviderProfile::AnthropicMessages) == "AnthropicMessages"@,
        profile_label(ProviderProfile::DeepSeekResponses) == "DeepSeekResponses"@,
        profile_label(ProviderProfile::DeepSeekMessages) == "DeepSeekMessages"@,
{
    api_names();
    profile_names();
}

/// What a dialect can do: only the original of each interface has its specialities, and only those take
/// an effort.
pub proof fn law_dialects_can_do_different_things(profile: ProviderProfile)
    ensures
        profile.capabilities_spec().canonical_version_header <==> profile is AnthropicMessages,
        profile.capabilities_spec().stateless_reasoning <==> profile is OpenAiResponses,
        profile.capabilities_spec().prompt_cache_key <==> profile is OpenAiResponses,
        family(profile) == ApiKind::Messages <==> profile is AnthropicMessages
            || profile is DeepSeekMessages,
        standard(profile) is None <==> profile is DeepSeekResponses || profile is DeepSeekMessages,
        standard(ProviderProfile::OpenAiResponses) == Some(
            seq!["none"@, "minimal"@, "low"@, "medium"@, "high"@, "xhigh"@, "max"@],
        ),
        standard(ProviderProfile::AnthropicMessages) == Some(
            seq!["low"@, "medium"@, "high"@, "xhigh"@, "max"@],
        ),
        ApiKind::Messages.key_env() == "ANTHROPIC_API_KEY"@,
        ApiKind::Responses.key_env() == "OPENAI_API_KEY"@,
{
}

// ---- Models ----

/// Limits are positive, and an answer may not be longer than the window.
pub proof fn law_limits_are_checked(provider: Seq<char>, model: Seq<char>, window: u64, max: u64)
    ensures
        ({
            let at = "[providers."@ + provider + ".models."@ + quoted_text(model) + "]"@;
            &&& limits_error(provider, model, None, None) is None
            &&& limits_error(provider, model, Some(0u64), Some(max)) == Some(
                at + ".context_window 必须大于 0"@,
            )
            &&& window > 0 ==> limits_error(provider, model, Some(window), None) is None
            &&& window > 0 ==> limits_error(provider, model, Some(window), Some(0u64)) == Some(
                at + ".max_tokens 必须大于 0"@,
            )
            &&& 0 < max <= window ==> limits_error(provider, model, Some(window), Some(max)) is None
            &&& max > window > 0 ==> limits_error(provider, model, Some(window), Some(max)) == Some(
                at + ".max_tokens 不能大于 context_window"@,
            )
        }),
{
}

/// A name that stands further ahead already is a repetition, and the first one is named.
pub proof fn law_repetitions_are_found(texts: Seq<Seq<char>>, text: Seq<char>)
    ensures
        first_repeat(texts) is None <==> texts.no_duplicates(),
        first_repeat(texts) is Some ==> first_repeat(texts.push(text)) == first_repeat(texts),
        first_repeat(texts) is None && texts.contains(text) ==> first_repeat(texts.push(text)) == Some(
            text,
        ),
    decreases texts.len(),
{
    assert(texts.push(text).drop_last() =~= texts);
    if texts.len() > 0 {
        let rest = texts.drop_last();
        law_repetitions_are_found(rest, text);
        if texts.no_duplicates() {
            assert(rest.no_duplicates());
            if rest.contains(texts.last()) {
                let i = choose|i: int| 0 <= i < rest.len() && rest[i] == texts.last();
                assert(texts[i] == texts[texts.len() - 1]);
            }
        } else if first_repeat(texts) is None {
            assert forall|i: int, j: int|
                0 <= i < texts.len() && 0 <= j < texts.len() && i != j implies texts[i] != texts[j] by {
                if i < rest.len() && j < rest.len() {
                    assert(rest[i] != rest[j]);
                } else if i < rest.len() {
                    assert(rest.contains(rest[i]));
                } else {
                    assert(rest.contains(rest[j]));
                }
            }
        }
    }
}

/// Without a list of its own a model takes the usual efforts of its dialect, and starts with the middle
/// one. A list of its own is taken as it stands, but for white space; an empty one takes no effort.
pub proof fn law_efforts_are_settled(
    provider: Seq<char>,
    model: Seq<char>,
    effort: Seq<char>,
    default: Seq<char>,
)
    ensures
        reasoning_of(provider, model, ProviderProfile::DeepSeekMessages, None, None) == Ok::<
            ReasoningView,
            Seq<char>,
        >(ReasoningView::Omit),
        reasoning_of(provider, model, ProviderProfile::DeepSeekResponses, Some(seq![effort]), None)
            is Err,
        reasoning_of(provider, model, ProviderProfile::OpenAiResponses, Some(seq![]), None) == Ok::<
            ReasoningView,
            Seq<char>,
        >(ReasoningView::Omit),
        reasoning_of(provider, model, ProviderProfile::OpenAiResponses, Some(seq![]), Some(default))
            is Err,
        1 <= trimmed(effort).len() <= 64 ==> reasoning_of(
            provider,
            model,
            ProviderProfile::AnthropicMessages,
            Some(seq![effort]),
            None,
        ) == Ok::<ReasoningView, Seq<char>>(
            ReasoningView::Send {
                efforts: seq![trimmed(effort)],
                default_effort: trimmed(effort),
            },
        ),
        1 <= trimmed(effort).len() <= 64 && 1 <= trimmed(default).len() <= 64 && trimmed(effort)
            != trimmed(default) ==> reasoning_of(
            provider,
            model,
            ProviderProfile::AnthropicMessages,
            Some(seq![effort]),
            Some(default),
        ) == Err::<ReasoningView, Seq<char>>(
            "[providers."@ + provider + ".models."@ + quoted_text(model) + "]"@ + ".default_effort "@
                + quoted_text(trimmed(default)) + " 不在 efforts 中"@,
        ),
        default_effort_text() == "medium"@,
{
    let one = seq![effort];
    let list = crate::config::trimmed_all(one);
    assert(list =~= seq![trimmed(effort)]);
    assert(list.drop_last() =~= seq![]);
    assert(first_repeat(seq![]) is None);
    assert(!list.drop_last().contains(list.last()));
    assert(first_repeat(list) is None);
    assert(list[0] == trimmed(effort));
    assert(list.contains(list[0]));
    if trimmed(effort) != trimmed(default) {
        assert(!list.contains(trimmed(default)));
    }
}

/// An effort is sent where the model takes it. A model that takes none is asked for the one that stands
/// for none; everything else is refused.
pub proof fn law_efforts_are_sent(efforts: Seq<Seq<char>>, first: Seq<char>, effort: Seq<char>)
    ensures
        effort_policy(ReasoningView::Omit, "medium"@) == Ok::<Option<Seq<char>>, Seq<char>>(None),
        effort != "medium"@ ==> effort_policy(ReasoningView::Omit, effort) == Err::<
            Option<Seq<char>>,
            Seq<char>,
        >("该模型未配置可发送的 reasoning effort,只能使用 "@ + "medium"@),
        efforts.contains(effort) ==> effort_policy(
            ReasoningView::Send { efforts, default_effort: first },
            effort,
        ) == Ok::<Option<Seq<char>>, Seq<char>>(Some(effort)),
        !efforts.contains(effort) ==> effort_policy(
            ReasoningView::Send { efforts, default_effort: first },
            effort,
        ) == Err::<Option<Seq<char>>, Seq<char>>(
            "未知 reasoning effort "@ + quoted_text(effort) + ",可选: "@ + joined(efforts, ", "@),
        ),
        efforts_of(ReasoningView::Omit) == seq!["medium"@],
        first_effort(ReasoningView::Omit) == "medium"@,
        efforts_of(ReasoningView::Send { efforts, default_effort: first }) == efforts,
        first_effort(ReasoningView::Send { efforts, default_effort: first }) == first,
{
}

/// A model has the limits that were written down for it.
pub proof fn law_models_keep_their_limits(
    provider: Seq<char>,
    model: Seq<char>,
    profile: ProviderProfile,
    raw: RawModelSection,
)
    ensures
        model_of(provider, model, profile, raw) matches Ok(made) ==> made.context_window == Some(
            raw.context_window,
        ) && made.max_tokens == raw.max_tokens && reasoning_of(
            provider,
            model,
            profile,
            raw.efforts.deep_view(),
            raw.default_effort.deep_view(),
        ) == Ok::<ReasoningView, Seq<char>>(made.reasoning),
        model_of(provider, model, profile, raw) is Ok <==> limits_error(
            provider,
            model,
            Some(raw.context_window),
            raw.max_tokens,
        ) is None && reasoning_of(
            provider,
            model,
            profile,
            raw.efforts.deep_view(),
            raw.default_effort.deep_view(),
        ) is Ok,
{
}

/// Models stand in their order, each under its name; a blank name is refused.
pub proof fn law_models_keep_their_order(
    provider: Seq<char>,
    profile: ProviderProfile,
    raw: Seq<(String, RawModelSection)>,
    entry: (String, RawModelSection),
)
    ensures
        models_of(provider, profile, seq![]) == Ok::<Seq<(Seq<char>, ModelView)>, Seq<char>>(seq![]),
        models_of(provider, profile, raw) matches Err(text) ==> models_of(
            provider,
            profile,
            raw.push(entry),
        ) == Err::<Seq<(Seq<char>, ModelView)>, Seq<char>>(text),
        models_of(provider, profile, raw) matches Ok(models) ==> {
            &&& trimmed(entry.0@).len() == 0 ==> models_of(provider, profile, raw.push(entry)) == Err::<
                Seq<(Seq<char>, ModelView)>,
                Seq<char>,
            >("[providers."@ + provider + "].models 含空模型 ID"@)
            &&& trimmed(entry.0@).len() > 0 ==> (match model_of(provider, entry.0@, profile, entry.1) {
                Ok(model) => models_of(provider, profile, raw.push(entry)) == Ok::<
                    Seq<(Seq<char>, ModelView)>,
                    Seq<char>,
                >(models.push((entry.0@, model))),
                Err(text) => models_of(provider, profile, raw.push(entry)) == Err::<
                    Seq<(Seq<char>, ModelView)>,
                    Seq<char>,
                >(text),
            })
        },
{
    assert(raw.push(entry).drop_last() =~= raw);
}

// ---- Providers ----

/// A provider names its models in a table, with a default among them, or a single model by itself; it
/// cannot do both.
pub proof fn law_providers_name_their_models(
    name: Seq<char>,
    profile: ProviderProfile,
    raw: RawProviderSection,
)
    ensures
        ({
            let table = raw.default_model is Some || raw.models@.len() > 0;
            let single = raw.model is Some || raw.max_tokens is Some || raw.context_window is Some;
            let made = lineup(name, profile, raw);
            &&& table && single ==> made is Err
            &&& !table && raw.model is None ==> made is Err
            &&& table && !single && raw.default_model is None ==> made is Err
            &&& table && !single ==> (made matches Ok((default, models)) ==> raw.default_model is Some
                && default == raw.default_model->0@ && models_of(
                name,
                profile,
                sorted_named(raw.models@),
            ) == Ok::<Seq<(Seq<char>, ModelView)>, Seq<char>>(models) && named(models, default) is Some)
            &&& !table ==> (made matches Ok((default, models)) ==> raw.model is Some && default
                == raw.model->0@ && models.len() == 1 && models[0].0 == default
                && models[0].1.context_window == raw.context_window && models[0].1.max_tokens
                == raw.max_tokens)
        }),
{
}

/// A provider is what was written down for it. Its address begins with the name of the protocol, and
/// its key is given in one way only.
pub proof fn law_providers_are_settled(name: Seq<char>, raw: RawProviderSection)
    ensures
        ({
            let url = trimmed(raw.base_url@);
            &&& trimmed(name).len() == 0 ==> section_of(name, raw) == Err::<SectionView, Seq<char>>(
                "provider 名称不能为空"@,
            )
            &&& !begins(url, "http://"@) && !begins(url, "https://"@) ==> section_of(name, raw) is Err
            &&& raw.api_key is Some && raw.api_key_env is Some ==> section_of(name, raw) is Err
            &&& section_of(name, raw) matches Ok(made) ==> {
                &&& made.base_url == url
                &&& api_named(raw.api@) == Ok::<ApiKind, Seq<char>>(made.api)
                &&& profile_of(raw.profile.deep_view(), made.api) == Ok::<ProviderProfile, Seq<char>>(
                    made.profile,
                )
                &&& lineup(name, made.profile, raw) == Ok::<
                    (Seq<char>, Seq<(Seq<char>, ModelView)>),
                    Seq<char>,
                >((made.default_model, made.models))
                &&& raw.api_key matches Some(key) ==> made.api_key == Some(key@)
                &&& raw.api_key is None ==> made.api_key is None
                &&& raw.api_key_env matches Some(variable) ==> made.api_key_env == Some(
                    trimmed(variable@),
                )
                &&& raw.api_key_env is None ==> made.api_key_env is None
            }
        }),
{
}

/// Providers stand in their order, each under its name.
pub proof fn law_providers_keep_their_order(
    raw: Seq<(String, RawProviderSection)>,
    entry: (String, RawProviderSection),
)
    ensures
        sections_of(seq![]) == Ok::<Seq<(Seq<char>, SectionView)>, Seq<char>>(seq![]),
        sections_of(raw) matches Err(text) ==> sections_of(raw.push(entry)) == Err::<
            Seq<(Seq<char>, SectionView)>,
            Seq<char>,
        >(text),
        sections_of(raw) matches Ok(sections) ==> (match section_of(entry.0@, entry.1) {
            Ok(section) => sections_of(raw.push(entry)) == Ok::<
                Seq<(Seq<char>, SectionView)>,
                Seq<char>,
            >(sections.push((entry.0@, section))),
            Err(text) => sections_of(raw.push(entry)) == Err::<
                Seq<(Seq<char>, SectionView)>,
                Seq<char>,
            >(text),
        }),
{
    assert(raw.push(entry).drop_last() =~= raw);
}

// ---- The whole file ----

/// Inside of the workspace reading and writing are allowed, and everything else is asked about, unless
/// the file says otherwise; each rule is the one that is written for it.
pub proof fn law_rules_have_defaults(raw: PermissionsSection, text: Seq<char>, field: Seq<char>)
    ensures
        raw.workspace_read is None && raw.workspace_write is None && raw.outside_workspace is None
            && raw.commands is None ==> rules_of(raw) == Ok::<PermissionRules, Seq<char>>(
            PermissionRules {
                workspace_read: PermissionRule::Allow,
                workspace_write: PermissionRule::Allow,
                outside_workspace: PermissionRule::Ask,
                opaque_side_effect: PermissionRule::Ask,
            },
        ),
        rules_of(raw) matches Ok(rules) ==> {
            &&& raw.workspace_read matches Some(t) ==> rule_of(
                Some(t@),
                PermissionRule::Allow,
                "workspace_read"@,
            ) == Ok::<PermissionRule, Seq<char>>(rules.workspace_read)
            &&& raw.workspace_write matches Some(t) ==> rule_of(
                Some(t@),
                PermissionRule::Allow,
                "workspace_write"@,
            ) == Ok::<PermissionRule, Seq<char>>(rules.workspace_write)
            &&& raw.outside_workspace matches Some(t) ==> rule_of(
                Some(t@),
                PermissionRule::Ask,
                "outside_workspace"@,
            ) == Ok::<PermissionRule, Seq<char>>(rules.outside_workspace)
            &&& raw.commands matches Some(t) ==> rule_of(Some(t@), PermissionRule::Ask, "commands"@)
                == Ok::<PermissionRule, Seq<char>>(rules.opaque_side_effect)
        },
        rule_of(None, PermissionRule::Deny, field) == Ok::<PermissionRule, Seq<char>>(
            PermissionRule::Deny,
        ),
        rule_of(Some("allow"@), PermissionRule::Deny, field) == Ok::<PermissionRule, Seq<char>>(
            PermissionRule::Allow,
        ),
        crate::permission::rule_named(text) is None ==> rule_of(Some(text), PermissionRule::Allow, field)
            == Err::<PermissionRule, Seq<char>>(
            "[permissions]."@ + field + ": "@ + ("未知权限规则 "@ + quoted_text(text)
                + "，可选 allow | ask | deny"@),
        ),
{
}

/// The four shells that may be asked for.
pub proof fn law_shells_have_names(shell: Seq<char>)
    ensures
        shell_known("auto"@),
        shell_known("gitbash"@),
        shell_known("powershell"@),
        shell_known("cmd"@),
        shell_known(shell) ==> shell == "auto"@ || shell == "gitbash"@ || shell == "powershell"@ || shell
            == "cmd"@,
{
}

/// A configuration is what the file says, with fifty turns, any shell and no time limit where it says
/// nothing. It has providers, the active one among them, a shell that is known and at least one turn.
pub proof fn law_configurations_are_settled(raw: FileConfig)
    ensures
        raw.providers@.len() == 0 ==> config_of(raw) is Err,
        raw.agent.max_turns == Some(0u32) ==> config_of(raw) is Err,
        config_of(raw) matches Ok(made) ==> {
            &&& made.active_provider == raw.agent.provider@
            &&& raw.agent.max_turns is None ==> made.max_turns == 50
            &&& raw.agent.max_turns matches Some(n) ==> made.max_turns == n && n > 0
            &&& raw.agent.shell is None ==> made.shell == "auto"@
            &&& raw.agent.shell matches Some(shell) ==> made.shell == shell@
            &&& shell_known(made.shell)
            &&& raw.agent.system_prompt is None ==> made.system_prompt is None
            &&& raw.agent.system_prompt matches Some(text) ==> made.system_prompt == Some(text@)
            &&& raw.agent.tool_timeout_secs is None ==> made.tool_timeout is None
            &&& raw.agent.tool_timeout_secs == Some(0u64) ==> made.tool_timeout is None
            &&& raw.agent.tool_timeout_secs matches Some(secs) ==> (secs > 0 ==> (made.tool_timeout
                matches Some(limit) && limit.nanos == secs * 1_000_000_000))
            &&& rules_of(raw.permissions) == Ok::<PermissionRules, Seq<char>>(made.permission_rules)
            &&& sections_of(sorted_named(raw.providers@)) == Ok::<
                Seq<(Seq<char>, SectionView)>,
                Seq<char>,
            >(made.providers)
        },
{
}

// ---- Selections ----

/// A provider's key is the one that is written down; else it is looked for in the variable that the
/// file names, and else in the usual one.
pub proof fn law_keys_are_looked_for(section: SectionView)
    ensures
        section.api_key is Some ==> key_variable_of(section) is None,
        section.api_key is None ==> (section.api_key_env matches Some(variable) ==> key_variable_of(
            section,
        ) == Some(variable)),
        section.api_key is None && section.api_key_env is None && section.api == ApiKind::Messages
            ==> key_variable_of(section) == Some("ANTHROPIC_API_KEY"@),
        section.api_key is None && section.api_key_env is None && section.api == ApiKind::Responses
            ==> key_variable_of(section) == Some("OPENAI_API_KEY"@),
{
}

/// A selection comes to the settings of its provider and its model, with its effort and the key at hand.
/// What it names and is not there is named in the refusal.
pub proof fn law_selections_are_settled(
    providers: Seq<(Seq<char>, SectionView)>,
    selection: SelectionView,
    variable: Option<Seq<char>>,
)
    ensures
        named(providers, selection.provider) is None ==> settings_of(providers, selection, variable)
            == Err::<SettingsView, Seq<char>>(
            "provider "@ + quoted_text(selection.provider) + " 不存在,可选: "@ + joined(
                names_of(providers),
                ", "@,
            ),
        ) && selection_error(providers, selection) is Some,
        named(providers, selection.provider) matches Some(section) ==> {
            &&& named(section.models, selection.model) is None ==> settings_of(
                providers,
                selection,
                variable,
            ) == Err::<SettingsView, Seq<char>>(
                "provider "@ + quoted_text(selection.provider) + " 没有模型 "@ + quoted_text(
                    selection.model,
                ) + ",可选: "@ + joined(names_of(section.models), ", "@),
            ) && selection_error(providers, selection) == Some(
                "provider "@ + quoted_text(selection.provider) + " 没有模型 "@ + quoted_text(
                    selection.model,
                ),
            )
            &&& named(section.models, selection.model) matches Some(model) ==> {
                &&& effort_policy(model.reasoning, selection.effort) matches Err(text) ==> settings_of(
                    providers,
                    selection,
                    variable,
                ) == Err::<SettingsView, Seq<char>>(text) && selection_error(providers, selection)
                    == Some(text)
                &&& effort_policy(model.reasoning, selection.effort) matches Ok(sent) ==> {
                    &&& selection_error(providers, selection) is None
                    &&& section.api_key is None && variable is None ==> settings_of(
                        providers,
                        selection,
                        variable,
                    ) is Err
                    &&& section.api_key is Some || variable is Some ==> (settings_of(
                        providers,
                        selection,
                        variable,
                    ) matches Ok(made) && {
                        &&& made.name == selection.provider
                        &&& made.api == section.api
                        &&& made.profile == section.profile
                        &&& made.base_url == without_end(section.base_url, '/')
                        &&& section.api_key matches Some(key) ==> made.api_key == key
                        &&& section.api_key is None ==> Some(made.api_key) == variable
                        &&& made.model == selection.model
                        &&& made.max_tokens == model.max_tokens
                        &&& made.context_window == model.context_window
                        &&& made.selected_effort == selection.effort
                        &&& made.reasoning_effort == sent
                    })
                }
            }
        },
{
}

/// A provider starts with its default model, and that with its first effort.
pub proof fn law_providers_start_with_their_default(provider: Seq<char>, section: SectionView)
    ensures
        default_of(provider, section).provider == provider,
        default_of(provider, section).model == section.default_model,
        named(section.models, section.default_model) matches Some(model) ==> default_of(
            provider,
            section,
        ).effort == first_effort(model.reasoning),
{
}

/// The catalog shows each model with its limits and its efforts.
pub proof fn law_the_catalog_shows_the_models(
    name: Seq<char>,
    section: SectionView,
    id: Seq<char>,
    model: ModelView,
)
    ensures
        model_entry(id, model).id == id,
        model_entry(id, model).context_window == model.context_window,
        model_entry(id, model).max_tokens == model.max_tokens,
        model_entry(id, model).efforts == efforts_of(model.reasoning),
        model_entry(id, model).default_effort == first_effort(model.reasoning),
        model_entry(id, model).sends_effort <==> model.reasoning is Send,
        provider_entry(name, section).name == name,
        provider_entry(name, section).default_model == section.default_model,
        provider_entry(name, section).models.len() == section.models.len(),
        forall|i: int|
            0 <= i < section.models.len() ==> (#[trigger] provider_entry(name, section).models[i])
                == model_entry(section.models[i].0, section.models[i].1),
{
}

/// Models that several providers have are listed once, in the order in which they first come.
pub proof fn law_models_are_listed_once(
    providers: Seq<(Seq<char>, SectionView)>,
    provider: (Seq<char>, SectionView),
    names: Seq<Seq<char>>,
    more: Seq<Seq<char>>,
    name: Seq<char>,
)
    ensures
        models_among(seq![]).len() == 0,
        models_among(providers.push(provider)) == with_names(
            models_among(providers),
            names_of(provider.1.models),
        ),
        with_names(names, seq![]) == names,
        with_names(names, more).contains(name) ==> with_names(names, more.push(name)) == with_names(
            names,
            more,
        ),
        !with_names(names, more).contains(name) ==> with_names(names, more.push(name)) == with_names(
            names,
            more,
        ).push(name),
{
    assert(providers.push(provider).drop_last() =~= providers);
    assert(more.push(name).drop_last() =~= more);
}

// ---- Fields ----

/// The first flaw counts.
pub proof fn law_the_first_flaw_counts(a: Seq<char>, b: Option<Seq<char>>)
    ensures
        either(Some(a), b) == Some(a),
        either(None, b) == b,
{
}

/// A field that nothing reads is named, the first one first; what is no table is said to be none.
pub proof fn law_strange_fields_are_named(
    names: Seq<Seq<char>>,
    name: Seq<char>,
    allowed: Seq<Seq<char>>,
    table: Json,
)
    ensures
        first_stranger(seq![], allowed) is None,
        first_stranger(names, allowed) is Some ==> first_stranger(names.push(name), allowed)
            == first_stranger(names, allowed),
        first_stranger(names, allowed) is None ==> first_stranger(names.push(name), allowed) == (
        if allowed.contains(name) {
            None
        } else {
            Some(name)
        }),
        !(table is Object) ==> table_flaw(table, allowed) == Some("此处应为表"@),
        table matches Json::Object(entries) ==> {
            &&& first_stranger(entry_names(entries@), allowed) is None ==> table_flaw(table, allowed)
                is None
            &&& first_stranger(entry_names(entries@), allowed) matches Some(name) ==> table_flaw(
                table,
                allowed,
            ) == Some("未知字段 `"@ + name + "`"@)
        },
        model_keys() == seq!["context_window"@, "max_tokens"@, "efforts"@, "default_effort"@],
        agent_keys() == seq![
            "provider"@,
            "shell"@,
            "system_prompt"@,
            "max_turns"@,
            "tool_timeout_secs"@,
        ],
        permission_keys() == seq![
            "workspace_read"@,
            "workspace_write"@,
            "outside_workspace"@,
            "commands"@,
        ],
        file_keys() == seq!["agent"@, "permissions"@, "providers"@],
        provider_keys().len() == 10,
{
    assert(names.push(name).drop_last() =~= names);
}

/// A model is read from the fields of its table.
pub proof fn law_models_are_read(table: Json, raw: RawModelSection)
    requires
        says_model(table, raw),
    ensures
        lookup(table@, "context_window"@) == Some(JsonView::Number(raw.context_window as int)),
        raw.max_tokens matches Some(n) ==> lookup(table@, "max_tokens"@) == Some(JsonView::Number(n as int)),
        lookup(table@, "max_tokens"@) is None ==> raw.max_tokens is None,
        raw.default_effort is None ==> !(lookup(table@, "default_effort"@) matches Some(JsonView::Str(_))),
        raw.default_effort matches Some(text) ==> lookup(table@, "default_effort"@) == Some(JsonView::Str(text@)),
        raw.efforts matches Some(list) ==> (lookup(table@, "efforts"@) matches Some(JsonView::Array(items))
            && items.len() == list.deep_view().len()),
        lookup(table@, "efforts"@) is None ==> raw.efforts is None,
{
    if raw.efforts is Some {
        assert(raw.efforts.deep_view() == Some(raw.efforts->0.deep_view()));
    }
}

/// A provider is read from the fields of its table.
pub proof fn law_providers_are_read(table: Json, raw: RawProviderSection)
    requires
        says_provider(table, raw),
    ensures
        lookup(table@, "api"@) == Some(JsonView::Str(raw.api@)),
        lookup(table@, "base_url"@) == Some(JsonView::Str(raw.base_url@)),
        raw.profile is None ==> !(lookup(table@, "profile"@) matches Some(JsonView::Str(_))),
        raw.profile matches Some(text) ==> lookup(table@, "profile"@) == Some(JsonView::Str(text@)),
        raw.model is None ==> !(lookup(table@, "model"@) matches Some(JsonView::Str(_))),
        raw.model matches Some(text) ==> lookup(table@, "model"@) == Some(JsonView::Str(text@)),
        raw.default_model is None ==> !(lookup(table@, "default_model"@) matches Some(JsonView::Str(_))),
        raw.default_model matches Some(text) ==> lookup(table@, "default_model"@) == Some(JsonView::Str(text@)),
        raw.api_key is None ==> !(lookup(table@, "api_key"@) matches Some(JsonView::Str(_))),
        raw.api_key matches Some(text) ==> lookup(table@, "api_key"@) == Some(JsonView::Str(text@)),
        raw.api_key_env is None ==> !(lookup(table@, "api_key_env"@) matches Some(JsonView::Str(_))),
        raw.api_key_env matches Some(text) ==> lookup(table@, "api_key_env"@) == Some(JsonView::Str(text@)),
        raw.max_tokens matches Some(n) ==> lookup(table@, "max_tokens"@) == Some(JsonView::Number(n as int)),
        lookup(table@, "max_tokens"@) is None ==> raw.max_tokens is None,
        raw.context_window matches Some(n) ==> lookup(table@, "context_window"@) == Some(JsonView::Number(n as int)),
        lookup(table@, "context_window"@) is None ==> raw.context_window is None,
        says_models(subtables(table, "models"@), raw.models@),
{
}

/// The agent's settings are read from the fields of their table.
pub proof fn law_agents_are_read(table: Json, raw: AgentSection)
    requires
        says_agent(table, raw),
    ensures
        lookup(table@, "provider"@) == Some(JsonView::Str(raw.provider@)),
        raw.shell is None ==> !(lookup(table@, "shell"@) matches Some(JsonView::Str(_))),
        raw.shell matches Some(text) ==> lookup(table@, "shell"@) == Some(JsonView::Str(text@)),
        raw.system_prompt is None ==> !(lookup(table@, "system_prompt"@) matches Some(JsonView::Str(_))),
        raw.system_prompt matches Some(text) ==> lookup(table@, "system_prompt"@) == Some(JsonView::Str(text@)),
        raw.max_turns matches Some(n) ==> lookup(table@, "max_turns"@) == Some(JsonView::Number(n as int)),
        lookup(table@, "max_turns"@) is None ==> raw.max_turns is None,
        raw.tool_timeout_secs matches Some(n) ==> lookup(table@, "tool_timeout_secs"@) == Some(JsonView::Number(n as int)),
        lookup(table@, "tool_timeout_secs"@) is None ==> raw.tool_timeout_secs is None,
{
}

/// The rules are read from the fields of their table.
pub proof fn law_rules_are_read(table: Json, raw: PermissionsSection)
    requires
        says_permissions(table, raw),
    ensures
        raw.workspace_read is None ==> !(lookup(table@, "workspace_read"@) matches Some(JsonView::Str(_))),
        raw.workspace_read matches Some(text) ==> lookup(table@, "workspace_read"@) == Some(JsonView::Str(text@)),
        raw.workspace_write is None ==> !(lookup(table@, "workspace_write"@) matches Some(JsonView::Str(_))),
        raw.workspace_write matches Some(text) ==> lookup(table@, "workspace_write"@) == Some(JsonView::Str(text@)),
        raw.outside_workspace is None ==> !(lookup(table@, "outside_workspace"@) matches Some(JsonView::Str(_))),
        raw.outside_workspace matches Some(text) ==> lookup(table@, "outside_workspace"@) == Some(JsonView::Str(text@)),
        raw.commands is None ==> !(lookup(table@, "commands"@) matches Some(JsonView::Str(_))),
        raw.commands matches Some(text) ==> lookup(table@, "commands"@) == Some(JsonView::Str(text@)),
{
}

/// A table of the file is sound where it is a table without strange fields, has the fields that it
/// needs, and each field that it has is of its kind.
pub proof fn law_sound_tables(table: Json)
    ensures
        raw_model_flaw(table) is None <==> {
            &&& table_flaw(table, model_keys()) is None
            &&& opt_number(table@, "context_window"@) is Some
            &&& is_opt_number(table@, "max_tokens"@, u64::MAX)
            &&& is_opt_texts(table@, "efforts"@)
            &&& is_opt_text(table@, "default_effort"@)
        },
        agent_flaw(table) is None <==> {
            &&& table_flaw(table, agent_keys()) is None
            &&& opt_text(table@, "provider"@) is Some
            &&& is_opt_text(table@, "shell"@)
            &&& is_opt_text(table@, "system_prompt"@)
            &&& is_opt_number(table@, "max_turns"@, 0xffff_ffff)
            &&& is_opt_number(table@, "tool_timeout_secs"@, u64::MAX)
        },
        permissions_flaw(table) is None <==> {
            &&& table_flaw(table, permission_keys()) is None
            &&& is_opt_text(table@, "workspace_read"@)
            &&& is_opt_text(table@, "workspace_write"@)
            &&& is_opt_text(table@, "outside_workspace"@)
            &&& is_opt_text(table@, "commands"@)
        },
        raw_provider_flaw(table) is None <==> {
            &&& table_flaw(table, provider_keys()) is None
            &&& opt_text(table@, "api"@) is Some
            &&& is_opt_text(table@, "profile"@)
            &&& opt_text(table@, "base_url"@) is Some
            &&& is_opt_text(table@, "model"@)
            &&& is_opt_text(table@, "default_model"@)
            &&& is_opt_table(table, "models"@)
            &&& models_flaw(subtables(table, "models"@)) is None
            &&& is_opt_text(table@, "api_key"@)
            &&& is_opt_text(table@, "api_key_env"@)
            &&& is_opt_number(table@, "max_tokens"@, u64::MAX)
            &&& is_opt_number(table@, "context_window"@, u64::MAX)
        },
        file_flaw(table) is None ==> {
            &&& table_flaw(table, file_keys()) is None
            &&& table.child("agent"@) is Some
            &&& agent_flaw(table.child("agent"@)->0) is None
            &&& table.child("permissions"@) matches Some(t) ==> permissions_flaw(t) is None
            &&& providers_flaw(subtables(table, "providers"@)) is None
        },
{
}

/// What is kept of a field is what the table says under its name.
pub proof fn law_fields_are_read(table: JsonView, key: Seq<char>, text: Seq<char>, n: u64, max: u64)
    ensures
        lookup(table, key) is None ==> opt_text(table, key) is None && opt_number(table, key) is None
            && opt_texts(table, key) is None && is_opt_number(table, key, max),
        lookup(table, key) == Some(JsonView::Str(text)) ==> opt_text(table, key) == Some(text)
            && !is_opt_number(table, key, max),
        lookup(table, key) == Some(JsonView::Number(n as int)) ==> opt_number(table, key) == Some(n) && (
        is_opt_number(table, key, max) <==> n <= max) && !is_opt_text(table, key),
        bad_field(key) == "字段 `"@ + key + "` 缺失或类型不符"@,
{
}

} // verus!
