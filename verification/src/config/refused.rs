//! Which settings are refused, where, and in which words.
use vstd::prelude::*;

use crate::config::{
    all_efforts_ok, api_named, config_of, effort_ok, effort_policy, first_repeat, lineup, model_of,
    models_of, profile_of, reasoning_of, rules_of, section_of, sections_of, selection_error,
    settings_of, trimmed_all, ApiKind, ConfigView, ModelView, ProviderProfile, ReasoningView,
    SectionView, SelectionView, SettingsView,
};
use crate::config::file::{
    agent_flaw, entry_names, file_flaw, is_opt_number, is_opt_table, is_opt_text, is_opt_texts,
    models_flaw, opt_number, opt_text, opt_texts, permissions_flaw, provider_keys, providers_flaw,
    raw_model_flaw, raw_provider_flaw, says_agent, says_file, says_model, says_models,
    says_permissions, says_provider, says_providers, subtables, table_flaw, FileConfig,
    RawModelSection, RawProviderSection,
};
use crate::json::{lookup, Json, JsonView};
use crate::text::{begins, joined, named, names_of, quoted_text, sorted_named, trimmed};

verus! {

// ---- Tables of the file ----

/// A model's table is refused for its first flaw: a strange field, or the first of its fields that is
/// missing or of another kind, by its name.
pub proof fn law_broken_models_name_the_field(table: Json)
    ensures
        ({
            let outline = table_flaw(
                table,
                seq!["context_window"@, "max_tokens"@, "efforts"@, "default_effort"@],
            );
            let v = table@;
            &&& outline is Some ==> raw_model_flaw(table) == outline
            &&& outline is None ==> {
                &&& opt_number(v, "context_window"@) is None ==> raw_model_flaw(table) == Some(
                    "字段 `"@ + "context_window"@ + "` 缺失或类型不符"@,
                )
                &&& opt_number(v, "context_window"@) is Some ==> {
                    &&& !is_opt_number(v, "max_tokens"@, 0xffff_ffff_ffff_ffff) ==> raw_model_flaw(
                        table,
                    ) == Some("字段 `"@ + "max_tokens"@ + "` 缺失或类型不符"@)
                    &&& is_opt_number(v, "max_tokens"@, 0xffff_ffff_ffff_ffff) ==> {
                        &&& !is_opt_texts(v, "efforts"@) ==> raw_model_flaw(table) == Some(
                            "字段 `"@ + "efforts"@ + "` 缺失或类型不符"@,
                        )
                        &&& is_opt_texts(v, "efforts"@) && !is_opt_text(v, "default_effort"@)
                            ==> raw_model_flaw(table) == Some(
                            "字段 `"@ + "default_effort"@ + "` 缺失或类型不符"@,
                        )
                    }
                }
            }
        }),
{
    assert(crate::config::file::model_keys() =~= seq![
        "context_window"@,
        "max_tokens"@,
        "efforts"@,
        "default_effort"@,
    ]);
}

/// A provider's table has ten fields, and only those.
pub proof fn law_providers_have_these_fields()
    ensures
        provider_keys() == seq![
            "api"@,
            "profile"@,
            "base_url"@,
            "model"@,
            "default_model"@,
            "models"@,
            "api_key"@,
            "api_key_env"@,
            "max_tokens"@,
            "context_window"@,
        ],
{
}

/// A provider's table is refused for its first flaw, in the order of its fields, and the flaws of its
/// models count where their field stands.
pub proof fn law_broken_providers_name_the_field(table: Json)
    requires
        table_flaw(table, provider_keys()) is None,
    ensures
        ({
            let v = table@;
            let flaw = raw_provider_flaw(table);
            let a = opt_text(v, "api"@) is Some;
            let b = a && is_opt_text(v, "profile"@);
            let c = b && opt_text(v, "base_url"@) is Some;
            let d = c && is_opt_text(v, "model"@);
            let e = d && is_opt_text(v, "default_model"@);
            let f = e && is_opt_table(table, "models"@);
            let g = f && models_flaw(subtables(table, "models"@)) is None;
            let h = g && is_opt_text(v, "api_key"@);
            let i = h && is_opt_text(v, "api_key_env"@);
            let j = i && is_opt_number(v, "max_tokens"@, 0xffff_ffff_ffff_ffff);
            let k = j && is_opt_number(v, "context_window"@, 0xffff_ffff_ffff_ffff);
            &&& !a ==> flaw == Some("字段 `"@ + "api"@ + "` 缺失或类型不符"@)
            &&& a && !b ==> flaw == Some("字段 `"@ + "profile"@ + "` 缺失或类型不符"@)
            &&& b && !c ==> flaw == Some("字段 `"@ + "base_url"@ + "` 缺失或类型不符"@)
            &&& c && !d ==> flaw == Some("字段 `"@ + "model"@ + "` 缺失或类型不符"@)
            &&& d && !e ==> flaw == Some("字段 `"@ + "default_model"@ + "` 缺失或类型不符"@)
            &&& e && !f ==> flaw == Some("字段 `"@ + "models"@ + "` 缺失或类型不符"@)
            &&& f && !g ==> flaw == models_flaw(subtables(table, "models"@))
            &&& g && !h ==> flaw == Some("字段 `"@ + "api_key"@ + "` 缺失或类型不符"@)
            &&& h && !i ==> flaw == Some("字段 `"@ + "api_key_env"@ + "` 缺失或类型不符"@)
            &&& i && !j ==> flaw == Some("字段 `"@ + "max_tokens"@ + "` 缺失或类型不符"@)
            &&& j && !k ==> flaw == Some("字段 `"@ + "context_window"@ + "` 缺失或类型不符"@)
            &&& k ==> flaw is None
        }),
{
}

/// The agent's table is refused for its first flaw, in the order of its fields.
pub proof fn law_broken_agents_name_the_field(table: Json)
    ensures
        ({
            let v = table@;
            let outline = table_flaw(
                table,
                seq!["provider"@, "shell"@, "system_prompt"@, "max_turns"@, "tool_timeout_secs"@],
            );
            let flaw = agent_flaw(table);
            let a = outline is None;
            let b = a && opt_text(v, "provider"@) is Some;
            let c = b && is_opt_text(v, "shell"@);
            let d = c && is_opt_text(v, "system_prompt"@);
            let e = d && is_opt_number(v, "max_turns"@, 0xffff_ffff);
            let f = e && is_opt_number(v, "tool_timeout_secs"@, 0xffff_ffff_ffff_ffff);
            &&& !a ==> flaw == outline
            &&& a && !b ==> flaw == Some("字段 `"@ + "provider"@ + "` 缺失或类型不符"@)
            &&& b && !c ==> flaw == Some("字段 `"@ + "shell"@ + "` 缺失或类型不符"@)
            &&& c && !d ==> flaw == Some("字段 `"@ + "system_prompt"@ + "` 缺失或类型不符"@)
            &&& d && !e ==> flaw == Some("字段 `"@ + "max_turns"@ + "` 缺失或类型不符"@)
            &&& e && !f ==> flaw == Some("字段 `"@ + "tool_timeout_secs"@ + "` 缺失或类型不符"@)
            &&& f ==> flaw is None
        }),
{
    assert(crate::config::file::agent_keys() =~= seq![
        "provider"@,
        "shell"@,
        "system_prompt"@,
        "max_turns"@,
        "tool_timeout_secs"@,
    ]);
}

/// The table of rules is refused for its first flaw, in the order of its fields.
pub proof fn law_broken_rules_name_the_field(table: Json)
    ensures
        ({
            let v = table@;
            let outline = table_flaw(
                table,
                seq!["workspace_read"@, "workspace_write"@, "outside_workspace"@, "commands"@],
            );
            let flaw = permissions_flaw(table);
            let a = outline is None;
            let b = a && is_opt_text(v, "workspace_read"@);
            let c = b && is_opt_text(v, "workspace_write"@);
            let d = c && is_opt_text(v, "outside_workspace"@);
            let e = d && is_opt_text(v, "commands"@);
            &&& !a ==> flaw == outline
            &&& a && !b ==> flaw == Some("字段 `"@ + "workspace_read"@ + "` 缺失或类型不符"@)
            &&& b && !c ==> flaw == Some("字段 `"@ + "workspace_write"@ + "` 缺失或类型不符"@)
            &&& c && !d ==> flaw == Some("字段 `"@ + "outside_workspace"@ + "` 缺失或类型不符"@)
            &&& d && !e ==> flaw == Some("字段 `"@ + "commands"@ + "` 缺失或类型不符"@)
            &&& e ==> flaw is None
        }),
{
    assert(crate::config::file::permission_keys() =~= seq![
        "workspace_read"@,
        "workspace_write"@,
        "outside_workspace"@,
        "commands"@,
    ]);
}

/// The file is refused for its first flaw: a strange table, then the agent's table, then the rules, then
/// the providers.
pub proof fn law_broken_files_name_the_flaw(table: Json)
    ensures
        ({
            let outline = table_flaw(table, seq!["agent"@, "permissions"@, "providers"@]);
            let flaw = file_flaw(table);
            let rules = match table.child("permissions"@) {
                Some(t) => permissions_flaw(t),
                None => None,
            };
            let a = outline is None;
            let b = a && table.child("agent"@) is Some;
            let c = b && agent_flaw(table.child("agent"@)->0) is None;
            let d = c && rules is None;
            let e = d && is_opt_table(table, "providers"@);
            let f = e && providers_flaw(subtables(table, "providers"@)) is None;
            &&& !a ==> flaw == outline
            &&& a && !b ==> flaw == Some("字段 `"@ + "agent"@ + "` 缺失或类型不符"@)
            &&& b && !c ==> flaw == agent_flaw(table.child("agent"@)->0)
            &&& c && !d ==> flaw == rules
            &&& d && !e ==> flaw == Some("字段 `"@ + "providers"@ + "` 缺失或类型不符"@)
            &&& e && !f ==> flaw == providers_flaw(subtables(table, "providers"@))
            &&& f ==> flaw is None
        }),
{
    assert(crate::config::file::file_keys() =~= seq!["agent"@, "permissions"@, "providers"@]);
}

/// Tables of tables are refused for the first flaw among them.
pub proof fn law_the_first_broken_table_counts(entries: Seq<(String, Json)>, entry: (String, Json))
    ensures
        models_flaw(seq![]) is None,
        models_flaw(entries) is Some ==> models_flaw(entries.push(entry)) == models_flaw(entries),
        models_flaw(entries) is None ==> models_flaw(entries.push(entry)) == raw_model_flaw(entry.1),
        providers_flaw(seq![]) is None,
        providers_flaw(entries) is Some ==> providers_flaw(entries.push(entry)) == providers_flaw(
            entries,
        ),
        providers_flaw(entries) is None ==> providers_flaw(entries.push(entry)) == raw_provider_flaw(
            entry.1,
        ),
{
    assert(entries.push(entry).drop_last() =~= entries);
}

/// The efforts of a model are read in their order.
pub proof fn law_efforts_are_read_in_order(table: Json, raw: RawModelSection, items: Seq<JsonView>, i: int)
    requires
        says_model(table, raw),
        is_opt_texts(table@, "efforts"@),
        lookup(table@, "efforts"@) == Some(JsonView::Array(items)),
        0 <= i < items.len(),
    ensures
        raw.efforts matches Some(list) && list.deep_view().len() == items.len() && items[i]
            == JsonView::Str(list.deep_view()[i]),
{
    assert(raw.efforts is Some && raw.efforts->0.deep_view() == opt_texts(table@, "efforts"@)->0);
    assert(items[i] is Str);
}

/// Models and providers are read in their order, each under its name and from its own table.
pub proof fn law_tables_are_read_in_order(
    entries: Seq<(String, Json)>,
    models: Seq<(String, RawModelSection)>,
    providers: Seq<(String, RawProviderSection)>,
    i: int,
)
    requires
        0 <= i < entries.len(),
    ensures
        says_models(entries, models) ==> models.len() == entries.len() && models[i].0@ == entries[i].0@
            && says_model(entries[i].1, models[i].1),
        says_providers(entries, providers) ==> providers.len() == entries.len() && providers[i].0@
            == entries[i].0@ && says_provider(entries[i].1, providers[i].1),
{
}

// ---- Efforts ----

/// Why efforts are refused: where the dialect takes none, where a default is given without any, where
/// one is blank or long, where one stands twice, where the default is blank, long or not among them.
pub proof fn law_refused_efforts_say_why(
    provider: Seq<char>,
    model: Seq<char>,
    profile: ProviderProfile,
    efforts: Seq<Seq<char>>,
    default: Option<Seq<char>>,
)
    requires
        profile == ProviderProfile::OpenAiResponses || profile == ProviderProfile::AnthropicMessages,
    ensures
        ({
            let at = "[providers."@ + provider + ".models."@ + quoted_text(model) + "]"@;
            let list = trimmed_all(efforts);
            let made = reasoning_of(provider, model, profile, Some(efforts), default);
            let short = forall|i: int| 0 <= i < list.len() ==> 1 <= (#[trigger] list[i]).len() <= 64;
            &&& reasoning_of(provider, model, ProviderProfile::DeepSeekMessages, Some(efforts), default)
                == Err::<ReasoningView, Seq<char>>(
                at + " profile "@ + "DeepSeekMessages"@ + " 不支持配置 efforts/default_effort"@,
            )
            &&& default is Some ==> reasoning_of(
                provider,
                model,
                ProviderProfile::DeepSeekResponses,
                None,
                default,
            ) == Err::<ReasoningView, Seq<char>>(
                at + " profile "@ + "DeepSeekResponses"@ + " 不支持配置 efforts/default_effort"@,
            )
            &&& efforts.len() == 0 && default is Some ==> made == Err::<ReasoningView, Seq<char>>(
                at + " efforts=[] 时不能配置 default_effort"@,
            )
            &&& efforts.len() == 0 && default is None ==> made == Ok::<ReasoningView, Seq<char>>(
                ReasoningView::Omit,
            )
            &&& efforts.len() > 0 ==> {
                &&& !short ==> made == Err::<ReasoningView, Seq<char>>(
                    at + ".efforts 含空值或超过 64 字符"@,
                )
                &&& short ==> {
                    &&& first_repeat(list) matches Some(twice) ==> made == Err::<
                        ReasoningView,
                        Seq<char>,
                    >(at + ".efforts 重复: "@ + quoted_text(twice))
                    &&& first_repeat(list) is None ==> {
                        &&& default matches Some(d) ==> {
                            &&& !(1 <= trimmed(d).len() <= 64) ==> made == Err::<
                                ReasoningView,
                                Seq<char>,
                            >(at + ".default_effort 不能为空或超过 64 字符"@)
                            &&& 1 <= trimmed(d).len() <= 64 && !list.contains(trimmed(d)) ==> made
                                == Err::<ReasoningView, Seq<char>>(
                                at + ".default_effort "@ + quoted_text(trimmed(d)) + " 不在 efforts 中"@,
                            )
                            &&& 1 <= trimmed(d).len() <= 64 && list.contains(trimmed(d)) ==> made
                                == Ok::<ReasoningView, Seq<char>>(
                                ReasoningView::Send { efforts: list, default_effort: trimmed(d) },
                            )
                        }
                        &&& default is None && list.contains("medium"@) ==> made == Ok::<
                            ReasoningView,
                            Seq<char>,
                        >(ReasoningView::Send { efforts: list, default_effort: "medium"@ })
                        &&& default is None && !list.contains("medium"@) ==> made == Ok::<
                            ReasoningView,
                            Seq<char>,
                        >(ReasoningView::Send { efforts: list, default_effort: trimmed(efforts[0]) })
                    }
                }
            }
        }),
{
    let list = trimmed_all(efforts);
    assert(all_efforts_ok(list) <==> forall|i: int|
        0 <= i < list.len() ==> 1 <= (#[trigger] list[i]).len() <= 64) by {
        assert forall|i: int| 0 <= i < list.len() implies (effort_ok(#[trigger] list[i]) <==> 1
            <= list[i].len() <= 64) by {}
        if all_efforts_ok(list) {
            assert forall|i: int| 0 <= i < list.len() implies 1 <= (#[trigger] list[i]).len() <= 64 by {
                assert(effort_ok(list[i]));
            }
        }
    }
    if efforts.len() > 0 {
        assert(list[0] == trimmed(efforts[0]));
        assert(list.contains(list[0]));
    }
}

/// What is refused of a model is refused of it where it stands: first its limits, then its efforts.
pub proof fn law_refused_models_say_why(
    provider: Seq<char>,
    model: Seq<char>,
    profile: ProviderProfile,
    raw: RawModelSection,
)
    ensures
        ({
            let at = "[providers."@ + provider + ".models."@ + quoted_text(model) + "]"@;
            let made = model_of(provider, model, profile, raw);
            &&& raw.context_window == 0 ==> made == Err::<ModelView, Seq<char>>(
                at + ".context_window 必须大于 0"@,
            )
            &&& raw.context_window > 0 && raw.max_tokens == Some(0u64) ==> made == Err::<
                ModelView,
                Seq<char>,
            >(at + ".max_tokens 必须大于 0"@)
            &&& raw.context_window > 0 ==> (raw.max_tokens matches Some(most) ==> (most
                > raw.context_window ==> made == Err::<ModelView, Seq<char>>(
                at + ".max_tokens 不能大于 context_window"@,
            )))
            &&& raw.context_window > 0 && (raw.max_tokens is None || 0 < raw.max_tokens->0
                <= raw.context_window) ==> (reasoning_of(
                provider,
                model,
                profile,
                raw.efforts.deep_view(),
                raw.default_effort.deep_view(),
            ) matches Err(text) ==> made == Err::<ModelView, Seq<char>>(text))
        }),
{
}

// ---- Providers ----

/// Why the models of a provider are refused.
pub proof fn law_refused_lineups_say_why(
    name: Seq<char>,
    profile: ProviderProfile,
    raw: RawProviderSection,
)
    ensures
        ({
            let table = raw.default_model is Some || raw.models@.len() > 0;
            let single = raw.model is Some || raw.max_tokens is Some || raw.context_window is Some;
            let made = lineup(name, profile, raw);
            &&& table && single ==> made == Err::<
                (Seq<char>, Seq<(Seq<char>, ModelView)>),
                Seq<char>,
            >(
                "[providers."@ + name
                    + "] 不能混用旧 model/max_tokens/context_window 与新 default_model/models"@,
            )
            &&& table && !single && raw.default_model is None ==> made == Err::<
                (Seq<char>, Seq<(Seq<char>, ModelView)>),
                Seq<char>,
            >("[providers."@ + name + "] 使用 models 时必须配置 default_model"@)
            &&& !single ==> (raw.default_model matches Some(default) ==> {
                &&& raw.models@.len() == 0 ==> made == Err::<
                    (Seq<char>, Seq<(Seq<char>, ModelView)>),
                    Seq<char>,
                >("[providers."@ + name + "].models 不能为空"@)
                &&& raw.models@.len() > 0 ==> (match models_of(
                    name,
                    profile,
                    sorted_named(raw.models@),
                ) {
                    Err(text) => made == Err::<(Seq<char>, Seq<(Seq<char>, ModelView)>), Seq<char>>(
                        text,
                    ),
                    Ok(models) => if named(models, default@) is Some {
                        made == Ok::<(Seq<char>, Seq<(Seq<char>, ModelView)>), Seq<char>>(
                            (default@, models),
                        )
                    } else {
                        made == Err::<(Seq<char>, Seq<(Seq<char>, ModelView)>), Seq<char>>(
                            "[providers."@ + name + "].default_model "@ + quoted_text(default@)
                                + " 不在 models 中"@,
                        )
                    },
                })
            })
            &&& !table && raw.model is None ==> made == Err::<
                (Seq<char>, Seq<(Seq<char>, ModelView)>),
                Seq<char>,
            >("[providers."@ + name + "] 缺少 model 或 models"@)
            &&& !table ==> (raw.model matches Some(model) ==> ({
                let at = "[providers."@ + name + ".models."@ + quoted_text(model@) + "]"@;
                &&& raw.context_window == Some(0u64) ==> made == Err::<
                    (Seq<char>, Seq<(Seq<char>, ModelView)>),
                    Seq<char>,
                >(at + ".context_window 必须大于 0"@)
                &&& raw.context_window != Some(0u64) && raw.max_tokens == Some(0u64) ==> made == Err::<
                    (Seq<char>, Seq<(Seq<char>, ModelView)>),
                    Seq<char>,
                >(at + ".max_tokens 必须大于 0"@)
            }))
        }),
{
}

/// Why a provider is refused: for its name, its address, its keys, its interface, its dialect or its
/// models, in this order. One that has nothing of that is settled.
pub proof fn law_refused_providers_say_why(name: Seq<char>, raw: RawProviderSection)
    requires
        trimmed(name).len() > 0,
    ensures
        ({
            let url = trimmed(raw.base_url@);
            let made = section_of(name, raw);
            let a = begins(url, "http://"@) || begins(url, "https://"@);
            let b = a && !(raw.api_key is Some && raw.api_key_env is Some);
            let c = b && (raw.api_key_env is None || trimmed(raw.api_key_env->0@).len() > 0);
            &&& !a ==> made == Err::<SectionView, Seq<char>>(
                "[providers."@ + name + "].base_url 必须是 http:// 或 https:// URL"@,
            )
            &&& a && !b ==> made == Err::<SectionView, Seq<char>>(
                "[providers."@ + name + "] 只能配置 api_key 或 api_key_env 其中一个"@,
            )
            &&& b && !c ==> made == Err::<SectionView, Seq<char>>(
                "[providers."@ + name + "].api_key_env 不能为空"@,
            )
            &&& c ==> (match api_named(raw.api@) {
                Err(text) => made == Err::<SectionView, Seq<char>>(
                    "[providers."@ + name + "].api 无效: "@ + text,
                ),
                Ok(api) => match profile_of(raw.profile.deep_view(), api) {
                    Err(text) => made == Err::<SectionView, Seq<char>>(
                        "[providers."@ + name + "].profile 无效: "@ + text,
                    ),
                    Ok(profile) => match lineup(name, profile, raw) {
                        Err(text) => made == Err::<SectionView, Seq<char>>(text),
                        Ok(_) => made is Ok,
                    },
                },
            })
        }),
{
}

/// A dialect that does not belong to the interface is refused.
pub proof fn law_dialects_fit_their_interface()
    ensures
        profile_of(Some("deepseek-messages"@), ApiKind::Responses) is Err,
        profile_of(Some("deepseek-responses"@), ApiKind::Messages) is Err,
        crate::config::family(ProviderProfile::OpenAiResponses) == ApiKind::Responses,
        crate::config::family(ProviderProfile::DeepSeekResponses) == ApiKind::Responses,
        crate::config::family(ProviderProfile::AnthropicMessages) == ApiKind::Messages,
        crate::config::family(ProviderProfile::DeepSeekMessages) == ApiKind::Messages,
{
    reveal_strlit("openai");
    reveal_strlit("anthropic");
    reveal_strlit("deepseek-responses");
    reveal_strlit("deepseek-messages");
    assert("deepseek-messages"@.len() != "deepseek-responses"@.len());
    assert("deepseek-messages"@.len() != "openai"@.len());
    assert("deepseek-messages"@.len() != "anthropic"@.len());
    assert("deepseek-responses"@.len() != "openai"@.len());
    assert("deepseek-responses"@.len() != "anthropic"@.len());
}

// ---- The whole file ----

/// Why a configuration is refused: without providers, where the agent's provider is not among them, for
/// a provider, for a rule, for the shell or for having no turns, in this order. One that has nothing of
/// that is settled.
pub proof fn law_refused_configurations_say_why(raw: FileConfig)
    ensures
        ({
            let sorted = sorted_named(raw.providers@);
            let made = config_of(raw);
            let shell = match raw.agent.shell {
                Some(shell) => shell@,
                None => "auto"@,
            };
            let known = shell == "auto"@ || shell == "gitbash"@ || shell == "powershell"@ || shell
                == "cmd"@;
            &&& raw.providers@.len() == 0 ==> made == Err::<ConfigView, Seq<char>>(
                "配置里没有任何 [providers.*]"@,
            )
            &&& raw.providers@.len() > 0 && !entry_names(sorted).contains(raw.agent.provider@) ==> made
                == Err::<ConfigView, Seq<char>>(
                "[agent].provider = "@ + quoted_text(raw.agent.provider@) + " 不存在,可选: "@ + joined(
                    entry_names(sorted),
                    ", "@,
                ),
            )
            &&& raw.providers@.len() > 0 && entry_names(sorted).contains(raw.agent.provider@) ==> (
            match sections_of(sorted) {
                Err(text) => made == Err::<ConfigView, Seq<char>>(text),
                Ok(_) => match rules_of(raw.permissions) {
                    Err(text) => made == Err::<ConfigView, Seq<char>>(text),
                    Ok(_) => {
                        &&& !known ==> made == Err::<ConfigView, Seq<char>>(
                            "[agent].shell = "@ + quoted_text(shell)
                                + " 无效,可选: auto | gitbash | powershell | cmd"@,
                        )
                        &&& known && raw.agent.max_turns == Some(0u32) ==> made == Err::<
                            ConfigView,
                            Seq<char>,
                        >("[agent].max_turns 必须大于 0"@)
                        &&& known && raw.agent.max_turns != Some(0u32) ==> made is Ok
                    },
                },
            })
        }),
{
}

/// The first rule that is not one is named, in the order of the table.
pub proof fn law_refused_rules_say_which(raw: crate::config::file::PermissionsSection, text: String)
    requires
        crate::permission::rule_named(text@) is None,
    ensures
        ({
            let why = "未知权限规则 "@ + quoted_text(text@) + "，可选 allow | ask | deny"@;
            &&& raw.workspace_read == Some(text) ==> rules_of(raw) == Err::<
                crate::permission::PermissionRules,
                Seq<char>,
            >("[permissions]."@ + "workspace_read"@ + ": "@ + why)
            &&& raw.workspace_read is None && raw.workspace_write == Some(text) ==> rules_of(raw) == Err::<
                crate::permission::PermissionRules,
                Seq<char>,
            >("[permissions]."@ + "workspace_write"@ + ": "@ + why)
            &&& raw.workspace_read is None && raw.workspace_write is None && raw.outside_workspace == Some(
                text,
            ) ==> rules_of(raw) == Err::<crate::permission::PermissionRules, Seq<char>>(
                "[permissions]."@ + "outside_workspace"@ + ": "@ + why,
            )
            &&& raw.workspace_read is None && raw.workspace_write is None && raw.outside_workspace is None
                && raw.commands == Some(text) ==> rules_of(raw) == Err::<
                crate::permission::PermissionRules,
                Seq<char>,
            >("[permissions]."@ + "commands"@ + ": "@ + why)
        }),
{
}

/// Without a key anywhere, the refusal names the variable to set and the provider whose key is missing;
/// a selection that names an unknown provider is told the known ones.
pub proof fn law_a_missing_key_is_told(
    providers: Seq<(Seq<char>, SectionView)>,
    selection: SelectionView,
    section: SectionView,
    model: ModelView,
)
    ensures
        named(providers, selection.provider) == Some(section) && named(section.models, selection.model)
            == Some(model) && effort_policy(model.reasoning, selection.effort) is Ok && section.api_key
            is None ==> settings_of(providers, selection, None) == Err::<SettingsView, Seq<char>>(
            "找不到 API key:请设置环境变量 "@ + (match section.api_key_env {
                Some(variable) => variable,
                None => if section.api == ApiKind::Messages {
                    "ANTHROPIC_API_KEY"@
                } else {
                    "OPENAI_API_KEY"@
                },
            }) + ",或在 config.toml 的 [providers."@ + selection.provider
                + "] 里写 api_key = \"...\"(本地无鉴权服务写 api_key = \"\")"@,
        ),
        named(providers, selection.provider) is None ==> selection_error(providers, selection) == Some(
            "provider "@ + quoted_text(selection.provider) + " 不存在,可选: "@ + joined(
                names_of(providers),
                ", "@,
            ),
        ),
{
}

/// A file is read table by table; rules that it does not have are not set.
pub proof fn law_files_are_read(table: Json, raw: FileConfig)
    requires
        says_file(table, raw),
    ensures
        says_agent(table.child("agent"@)->0, raw.agent),
        table.child("permissions"@) matches Some(t) ==> says_permissions(t, raw.permissions),
        table.child("permissions"@) is None ==> raw.permissions.workspace_read is None
            && raw.permissions.workspace_write is None && raw.permissions.outside_workspace is None
            && raw.permissions.commands is None,
        says_providers(subtables(table, "providers"@), raw.providers@),
{
}

/// The tables below a table are those that stand under the key, in their order.
pub proof fn law_tables_below_a_table(table: Json, key: Seq<char>, entries: Vec<(String, Json)>)
    ensures
        table.child(key) == Some(Json::Object(entries)) ==> subtables(table, key) == entries@
            && is_opt_table(table, key),
        table.child(key) is None ==> subtables(table, key).len() == 0 && is_opt_table(table, key),
        table.child(key) matches Some(other) ==> (!(other is Object) ==> !is_opt_table(table, key)),
{
}

} // verus!
