//! The configuration file: TOML text, and the tables that are read from it.
use vstd::prelude::*;

use crate::json::{lookup, spec_u64, Json, JsonView};
use crate::list::{empty, put, take_all, take_next};
use crate::text::{concat3, same};

verus! {

#[derive(Debug)]
pub struct FileConfig {
    pub agent: AgentSection,
    pub permissions: PermissionsSection,
    pub providers: Vec<(String, RawProviderSection)>,
}

#[derive(Debug)]
pub struct PermissionsSection {
    pub workspace_read: Option<String>,
    pub workspace_write: Option<String>,
    pub outside_workspace: Option<String>,
    pub commands: Option<String>,
}

#[derive(Debug)]
pub struct AgentSection {
    pub provider: String,
    pub shell: Option<String>,
    pub system_prompt: Option<String>,
    pub max_turns: Option<u32>,
    pub tool_timeout_secs: Option<u64>,
}

#[derive(Debug)]
pub struct RawProviderSection {
    pub api: String,
    pub profile: Option<String>,
    pub base_url: String,
    pub model: Option<String>,
    pub default_model: Option<String>,
    pub models: Vec<(String, RawModelSection)>,
    pub api_key: Option<String>,
    pub api_key_env: Option<String>,
    pub max_tokens: Option<u64>,
    pub context_window: Option<u64>,
}

#[derive(Debug)]
pub struct RawModelSection {
    pub context_window: u64,
    pub max_tokens: Option<u64>,
    pub efforts: Option<Vec<String>>,
    pub default_effort: Option<String>,
}

// ---- Fields ----

/// The message about a field that is missing or holds the wrong kind of value.
pub open spec fn bad_field(key: Seq<char>) -> Seq<char> {
    "字段 `"@ + key + "` 缺失或类型不符"@
}

fn field_error(key: &str) -> (s: String)
    ensures
        s@ == bad_field(key@),
{
    concat3("字段 `", key, "` 缺失或类型不符")
}

/// The first flaw of two.
pub open spec fn either(a: Option<Seq<char>>, b: Option<Seq<char>>) -> Option<Seq<char>> {
    if a is Some {
        a
    } else {
        b
    }
}

pub open spec fn flaw_unless(ok: bool, key: Seq<char>) -> Option<Seq<char>> {
    if ok {
        None
    } else {
        Some(bad_field(key))
    }
}

pub open spec fn is_text(value: JsonView) -> bool {
    value is Str
}

pub open spec fn is_opt_text(table: JsonView, key: Seq<char>) -> bool {
    lookup(table, key) is None || is_text(lookup(table, key)->0)
}

pub open spec fn opt_text(table: JsonView, key: Seq<char>) -> Option<Seq<char>> {
    match lookup(table, key) {
        Some(JsonView::Str(t)) => Some(t),
        _ => None,
    }
}

pub open spec fn opt_number(table: JsonView, key: Seq<char>) -> Option<u64> {
    match lookup(table, key) {
        Some(value) => spec_u64(value),
        None => None,
    }
}

/// Whether a field is absent or holds an integer of at most `max`.
pub open spec fn is_opt_number(table: JsonView, key: Seq<char>, max: u64) -> bool {
    lookup(table, key) is None || (opt_number(table, key) is Some && opt_number(table, key)->0
        <= max)
}

pub open spec fn is_opt_texts(table: JsonView, key: Seq<char>) -> bool {
    match lookup(table, key) {
        None => true,
        Some(JsonView::Array(items)) => forall|i: int|
            0 <= i < items.len() ==> is_text(#[trigger] items[i]),
        Some(_) => false,
    }
}

pub open spec fn opt_texts(table: JsonView, key: Seq<char>) -> Option<Seq<Seq<char>>> {
    match lookup(table, key) {
        Some(JsonView::Array(items)) => Some(Seq::new(items.len(), |i: int| items[i]->Str_0)),
        _ => None,
    }
}

fn read_text(table: &Json, key: &str) -> (r: Result<Option<String>, String>)
    ensures
        match r {
            Ok(text) => is_opt_text(table@, key@) && text.deep_view() == opt_text(table@, key@),
            Err(e) => !is_opt_text(table@, key@) && e@ == bad_field(key@),
        },
{
    match table.get(key) {
        None => Ok(None),
        Some(value) => match value {
            Json::Str(t) => Ok(Some(t.clone())),
            _ => Err(field_error(key)),
        },
    }
}

fn need_text(table: &Json, key: &str) -> (r: Result<String, String>)
    ensures
        match r {
            Ok(text) => Some(text@) == opt_text(table@, key@),
            Err(e) => opt_text(table@, key@) is None && e@ == bad_field(key@),
        },
{
    match read_text(table, key) {
        Ok(Some(text)) => Ok(text),
        Ok(None) => Err(field_error(key)),
        Err(e) => Err(e),
    }
}

fn read_number(table: &Json, key: &str, max: u64) -> (r: Result<Option<u64>, String>)
    ensures
        match r {
            Ok(n) => is_opt_number(table@, key@, max) && n == opt_number(table@, key@),
            Err(e) => !is_opt_number(table@, key@, max) && e@ == bad_field(key@),
        },
{
    match table.get(key) {
        None => Ok(None),
        Some(value) => match value.as_u64() {
            Some(n) => if n <= max {
                Ok(Some(n))
            } else {
                Err(field_error(key))
            },
            None => Err(field_error(key)),
        },
    }
}

fn read_texts(table: &Json, key: &str) -> (r: Result<Option<Vec<String>>, String>)
    ensures
        match r {
            Ok(texts) => is_opt_texts(table@, key@) && texts.deep_view() == opt_texts(table@, key@),
            Err(e) => !is_opt_texts(table@, key@) && e@ == bad_field(key@),
        },
{
    let value = match table.get(key) {
        None => {
            return Ok(None);
        },
        Some(value) => value,
    };
    let items = match value {
        Json::Array(items) => items,
        _ => {
            return Err(field_error(key));
        },
    };
    let ghost views = lookup(table@, key@)->0->Array_0;
    let ghost goal = Seq::new(views.len(), |i: int| views[i]->Str_0);
    let mut out: Vec<String> = empty();
    let mut i: usize = 0;
    while i < items.len()
        invariant
            i <= items@.len() == views.len(),
            lookup(table@, key@) == Some(JsonView::Array(views)),
            forall|k: int| 0 <= k < views.len() ==> views[k] == items@[k]@,
            goal == Seq::new(views.len(), |i: int| views[i]->Str_0),
            out.deep_view() == goal.take(i as int),
            forall|k: int| 0 <= k < i ==> is_text(#[trigger] views[k]),
        decreases items@.len() - i,
    {
        proof {
            take_next(goal, i as int);
        }
        match &items[i] {
            Json::Str(t) => {
                assert(is_text(views[i as int]));
                put(&mut out, t.clone());
            },
            _ => {
                assert(!is_text(views[i as int]));
                return Err(field_error(key));
            },
        }
        i = i + 1;
    }
    proof {
        take_all(goal);
    }
    Ok(Some(out))
}

// ---- Tables ----

/// The first of some names that is not among the allowed ones.
pub open spec fn first_stranger(names: Seq<Seq<char>>, allowed: Seq<Seq<char>>) -> Option<Seq<char>>
    decreases names.len(),
{
    if names.len() == 0 {
        None
    } else {
        match first_stranger(names.drop_last(), allowed) {
            Some(name) => Some(name),
            None => if allowed.contains(names.last()) {
                None
            } else {
                Some(names.last())
            },
        }
    }
}

/// The names of a table's entries, as they stand in it.
pub open spec fn entry_names<T>(entries: Seq<(String, T)>) -> Seq<Seq<char>> {
    Seq::new(entries.len(), |i: int| entries[i].0@)
}

/// What is wrong with the outline of a table: it is no table, or it has a field that nothing reads.
pub open spec fn table_flaw(table: Json, allowed: Seq<Seq<char>>) -> Option<Seq<char>> {
    match table {
        Json::Object(entries) => match first_stranger(entry_names(entries@), allowed) {
            Some(name) => Some("未知字段 `"@ + name + "`"@),
            None => None,
        },
        _ => Some("此处应为表"@),
    }
}

proof fn stranger_stays(names: Seq<Seq<char>>, allowed: Seq<Seq<char>>, n: int)
    requires
        0 <= n <= names.len(),
        first_stranger(names.take(n), allowed) is Some,
    ensures
        first_stranger(names, allowed) == first_stranger(names.take(n), allowed),
    decreases names.len() - n,
{
    if n < names.len() {
        take_next(names, n);
        stranger_stays(names, allowed, n + 1);
    } else {
        take_all(names);
    }
}

fn check_table(table: &Json, allowed: &[&str]) -> (r: Result<(), String>)
    ensures
        match table_flaw(*table, allowed.deep_view()) {
            None => r is Ok,
            Some(text) => r is Err && r->Err_0@ == text,
        },
{
    let entries = match table {
        Json::Object(entries) => entries,
        _ => {
            return Err("此处应为表".to_owned());
        },
    };
    let ghost names = entry_names(entries@);
    let ghost list = allowed.deep_view();
    let mut i: usize = 0;
    while i < entries.len()
        invariant
            i <= entries@.len(),
            *table == Json::Object(*entries),
            names == entry_names(entries@),
            list == allowed.deep_view(),
            first_stranger(names.take(i as int), list) is None,
        decreases entries@.len() - i,
    {
        proof {
            take_next(names, i as int);
        }
        let mut known = false;
        let mut j: usize = 0;
        while j < allowed.len()
            invariant
                j <= allowed@.len(),
                i < entries@.len(),
                names == entry_names(entries@),
                list == allowed.deep_view(),
                known <==> exists|k: int| 0 <= k < j && list[k] == names[i as int],
            decreases allowed@.len() - j,
        {
            if same(allowed[j], entries[i].0.as_str()) {
                assert(list[j as int] == names[i as int]);
                known = true;
            }
            j = j + 1;
        }
        if !known {
            proof {
                stranger_stays(names, list, i + 1);
            }
            return Err(concat3("未知字段 `", entries[i].0.as_str(), "`"));
        }
        i = i + 1;
    }
    proof {
        take_all(names);
    }
    Ok(())
}

// ---- A model ----

pub open spec fn model_keys() -> Seq<Seq<char>> {
    seq!["context_window"@, "max_tokens"@, "efforts"@, "default_effort"@]
}

pub open spec fn raw_model_flaw(table: Json) -> Option<Seq<char>> {
    let a = either(
        table_flaw(table, model_keys()),
        flaw_unless(opt_number(table@, "context_window"@) is Some, "context_window"@),
    );
    let b = either(
        a,
        flaw_unless(is_opt_number(table@, "max_tokens"@, u64::MAX), "max_tokens"@),
    );
    let c = either(b, flaw_unless(is_opt_texts(table@, "efforts"@), "efforts"@));
    either(c, flaw_unless(is_opt_text(table@, "default_effort"@), "default_effort"@))
}

/// Whether a table says what a model section holds.
pub open spec fn says_model(table: Json, raw: RawModelSection) -> bool {
    &&& Some(raw.context_window) == opt_number(table@, "context_window"@)
    &&& raw.max_tokens == opt_number(table@, "max_tokens"@)
    &&& raw.efforts.deep_view() == opt_texts(table@, "efforts"@)
    &&& raw.default_effort.deep_view() == opt_text(table@, "default_effort"@)
}

fn read_model(table: &Json) -> (r: Result<RawModelSection, String>)
    ensures
        match r {
            Ok(raw) => raw_model_flaw(*table) is None && says_model(*table, raw),
            Err(e) => raw_model_flaw(*table) == Some(e@),
        },
{
    let keys = ["context_window", "max_tokens", "efforts", "default_effort"];
    assert(keys.deep_view() =~= model_keys());
    match check_table(table, &keys) {
        Ok(_) => {},
        Err(e) => {
            return Err(e);
        },
    }
    let context_window = match read_number(table, "context_window", u64::MAX) {
        Ok(Some(n)) => n,
        Ok(None) => {
            return Err(field_error("context_window"));
        },
        Err(e) => {
            return Err(e);
        },
    };
    let max_tokens = match read_number(table, "max_tokens", u64::MAX) {
        Ok(n) => n,
        Err(e) => {
            return Err(e);
        },
    };
    let efforts = match read_texts(table, "efforts") {
        Ok(texts) => texts,
        Err(e) => {
            return Err(e);
        },
    };
    let default_effort = match read_text(table, "default_effort") {
        Ok(text) => text,
        Err(e) => {
            return Err(e);
        },
    };
    Ok(RawModelSection { context_window, max_tokens, efforts, default_effort })
}

/// The first flaw among some model tables.
pub open spec fn models_flaw(entries: Seq<(String, Json)>) -> Option<Seq<char>>
    decreases entries.len(),
{
    if entries.len() == 0 {
        None
    } else {
        either(models_flaw(entries.drop_last()), raw_model_flaw(entries.last().1))
    }
}

pub open spec fn says_models(entries: Seq<(String, Json)>, raw: Seq<(String, RawModelSection)>) -> bool {
    &&& entries.len() == raw.len()
    &&& forall|i: int|
        0 <= i < raw.len() ==> (#[trigger] raw[i]).0@ == entries[i].0@ && says_model(
            entries[i].1,
            raw[i].1,
        )
}

proof fn models_flaw_stays(entries: Seq<(String, Json)>, n: int)
    requires
        0 <= n <= entries.len(),
        models_flaw(entries.take(n)) is Some,
    ensures
        models_flaw(entries) == models_flaw(entries.take(n)),
    decreases entries.len() - n,
{
    if n < entries.len() {
        take_next(entries, n);
        models_flaw_stays(entries, n + 1);
    } else {
        take_all(entries);
    }
}

fn read_models(entries: &Vec<(String, Json)>) -> (r: Result<Vec<(String, RawModelSection)>, String>)
    ensures
        match r {
            Ok(raw) => models_flaw(entries@) is None && says_models(entries@, raw@),
            Err(e) => models_flaw(entries@) == Some(e@),
        },
{
    let mut out: Vec<(String, RawModelSection)> = Vec::new();
    let mut i: usize = 0;
    while i < entries.len()
        invariant
            i <= entries@.len(),
            out@.len() == i,
            models_flaw(entries@.take(i as int)) is None,
            forall|k: int|
                0 <= k < i ==> (#[trigger] out@[k]).0@ == entries@[k].0@ && says_model(
                    entries@[k].1,
                    out@[k].1,
                ),
        decreases entries@.len() - i,
    {
        proof {
            take_next(entries@, i as int);
        }
        match read_model(&entries[i].1) {
            Ok(raw) => {
                out.push((entries[i].0.clone(), raw));
            },
            Err(e) => {
                proof {
                    models_flaw_stays(entries@, i + 1);
                }
                return Err(e);
            },
        }
        i = i + 1;
    }
    proof {
        take_all(entries@);
    }
    Ok(out)
}

// ---- A provider ----

pub open spec fn provider_keys() -> Seq<Seq<char>> {
    seq![
        "api"@,
        "profile"@,
        "base_url"@,
        "model"@,
        "default_model"@,
        "models"@,
        "api_key"@,
        "api_key_env"@,
        "max_tokens"@,
        "context_window"@,
    ]
}

/// The entries of a table of tables; none where the field is absent.
pub open spec fn subtables(table: Json, key: Seq<char>) -> Seq<(String, Json)> {
    match table.child(key) {
        Some(Json::Object(entries)) => entries@,
        _ => seq![],
    }
}

pub open spec fn is_opt_table(table: Json, key: Seq<char>) -> bool {
    table.child(key) is None || table.child(key)->0 is Object
}

pub open spec fn raw_provider_flaw(table: Json) -> Option<Seq<char>> {
    let v = table@;
    let a = either(
        table_flaw(table, provider_keys()),
        flaw_unless(opt_text(v, "api"@) is Some, "api"@),
    );
    let b = either(a, flaw_unless(is_opt_text(v, "profile"@), "profile"@));
    let c = either(b, flaw_unless(opt_text(v, "base_url"@) is Some, "base_url"@));
    let d = either(c, flaw_unless(is_opt_text(v, "model"@), "model"@));
    let e = either(d, flaw_unless(is_opt_text(v, "default_model"@), "default_model"@));
    let f = either(e, flaw_unless(is_opt_table(table, "models"@), "models"@));
    let g = either(f, models_flaw(subtables(table, "models"@)));
    let h = either(g, flaw_unless(is_opt_text(v, "api_key"@), "api_key"@));
    let i = either(h, flaw_unless(is_opt_text(v, "api_key_env"@), "api_key_env"@));
    let j = either(i, flaw_unless(is_opt_number(v, "max_tokens"@, u64::MAX), "max_tokens"@));
    either(j, flaw_unless(is_opt_number(v, "context_window"@, u64::MAX), "context_window"@))
}

/// Whether a table says what a provider section holds.
pub open spec fn says_provider(table: Json, raw: RawProviderSection) -> bool {
    let v = table@;
    &&& Some(raw.api@) == opt_text(v, "api"@)
    &&& raw.profile.deep_view() == opt_text(v, "profile"@)
    &&& Some(raw.base_url@) == opt_text(v, "base_url"@)
    &&& raw.model.deep_view() == opt_text(v, "model"@)
    &&& raw.default_model.deep_view() == opt_text(v, "default_model"@)
    &&& says_models(subtables(table, "models"@), raw.models@)
    &&& raw.api_key.deep_view() == opt_text(v, "api_key"@)
    &&& raw.api_key_env.deep_view() == opt_text(v, "api_key_env"@)
    &&& raw.max_tokens == opt_number(v, "max_tokens"@)
    &&& raw.context_window == opt_number(v, "context_window"@)
}

fn read_provider(table: &Json) -> (r: Result<RawProviderSection, String>)
    ensures
        match r {
            Ok(raw) => raw_provider_flaw(*table) is None && says_provider(*table, raw),
            Err(e) => raw_provider_flaw(*table) == Some(e@),
        },
{
    let keys = [
        "api",
        "profile",
        "base_url",
        "model",
        "default_model",
        "models",
        "api_key",
        "api_key_env",
        "max_tokens",
        "context_window",
    ];
    assert(keys.deep_view() =~= provider_keys());
    match check_table(table, &keys) {
        Ok(_) => {},
        Err(e) => {
            return Err(e);
        },
    }
    let api = match need_text(table, "api") {
        Ok(text) => text,
        Err(e) => {
            return Err(e);
        },
    };
    let profile = match read_text(table, "profile") {
        Ok(text) => text,
        Err(e) => {
            return Err(e);
        },
    };
    let base_url = match need_text(table, "base_url") {
        Ok(text) => text,
        Err(e) => {
            return Err(e);
        },
    };
    let model = match read_text(table, "model") {
        Ok(text) => text,
        Err(e) => {
            return Err(e);
        },
    };
    let default_model = match read_text(table, "default_model") {
        Ok(text) => text,
        Err(e) => {
            return Err(e);
        },
    };
    let models = match table.get("models") {
        None => Vec::new(),
        Some(value) => match value {
            Json::Object(entries) => match read_models(entries) {
                Ok(models) => models,
                Err(e) => {
                    return Err(e);
                },
            },
            _ => {
                return Err(field_error("models"));
            },
        },
    };
    let api_key = match read_text(table, "api_key") {
        Ok(text) => text,
        Err(e) => {
            return Err(e);
        },
    };
    let api_key_env = match read_text(table, "api_key_env") {
        Ok(text) => text,
        Err(e) => {
            return Err(e);
        },
    };
    let max_tokens = match read_number(table, "max_tokens", u64::MAX) {
        Ok(n) => n,
        Err(e) => {
            return Err(e);
        },
    };
    let context_window = match read_number(table, "context_window", u64::MAX) {
        Ok(n) => n,
        Err(e) => {
            return Err(e);
        },
    };
    Ok(
        RawProviderSection {
            api,
            profile,
            base_url,
            model,
            default_model,
            models,
            api_key,
            api_key_env,
            max_tokens,
            context_window,
        },
    )
}

/// The first flaw among some provider tables.
pub open spec fn providers_flaw(entries: Seq<(String, Json)>) -> Option<Seq<char>>
    decreases entries.len(),
{
    if entries.len() == 0 {
        None
    } else {
        either(providers_flaw(entries.drop_last()), raw_provider_flaw(entries.last().1))
    }
}

pub open spec fn says_providers(
    entries: Seq<(String, Json)>,
    raw: Seq<(String, RawProviderSection)>,
) -> bool {
    &&& entries.len() == raw.len()
    &&& forall|i: int|
        0 <= i < raw.len() ==> (#[trigger] raw[i]).0@ == entries[i].0@ && says_provider(
            entries[i].1,
            raw[i].1,
        )
}

proof fn providers_flaw_stays(entries: Seq<(String, Json)>, n: int)
    requires
        0 <= n <= entries.len(),
        providers_flaw(entries.take(n)) is Some,
    ensures
        providers_flaw(entries) == providers_flaw(entries.take(n)),
    decreases entries.len() - n,
{
    if n < entries.len() {
        take_next(entries, n);
        providers_flaw_stays(entries, n + 1);
    } else {
        take_all(entries);
    }
}

fn read_providers(entries: &Vec<(String, Json)>) -> (r: Result<
    Vec<(String, RawProviderSection)>,
    String,
>)
    ensures
        match r {
            Ok(raw) => providers_flaw(entries@) is None && says_providers(entries@, raw@),
            Err(e) => providers_flaw(entries@) == Some(e@),
        },
{
    let mut out: Vec<(String, RawProviderSection)> = Vec::new();
    let mut i: usize = 0;
    while i < entries.len()
        invariant
            i <= entries@.len(),
            out@.len() == i,
            providers_flaw(entries@.take(i as int)) is None,
            forall|k: int|
                0 <= k < i ==> (#[trigger] out@[k]).0@ == entries@[k].0@ && says_provider(
                    entries@[k].1,
                    out@[k].1,
                ),
        decreases entries@.len() - i,
    {
        proof {
            take_next(entries@, i as int);
        }
        match read_provider(&entries[i].1) {
            Ok(raw) => {
                out.push((entries[i].0.clone(), raw));
            },
            Err(e) => {
                proof {
                    providers_flaw_stays(entries@, i + 1);
                }
                return Err(e);
            },
        }
        i = i + 1;
    }
    proof {
        take_all(entries@);
    }
    Ok(out)
}

// ---- The file ----

pub open spec fn agent_keys() -> Seq<Seq<char>> {
    seq!["provider"@, "shell"@, "system_prompt"@, "max_turns"@, "tool_timeout_secs"@]
}

pub open spec fn agent_flaw(table: Json) -> Option<Seq<char>> {
    let v = table@;
    let a = either(
        table_flaw(table, agent_keys()),
        flaw_unless(opt_text(v, "provider"@) is Some, "provider"@),
    );
    let b = either(a, flaw_unless(is_opt_text(v, "shell"@), "shell"@));
    let c = either(b, flaw_unless(is_opt_text(v, "system_prompt"@), "system_prompt"@));
    let d = either(c, flaw_unless(is_opt_number(v, "max_turns"@, 0xffff_ffff), "max_turns"@));
    either(
        d,
        flaw_unless(is_opt_number(v, "tool_timeout_secs"@, u64::MAX), "tool_timeout_secs"@),
    )
}

pub open spec fn says_agent(table: Json, raw: AgentSection) -> bool {
    let v = table@;
    &&& Some(raw.provider@) == opt_text(v, "provider"@)
    &&& raw.shell.deep_view() == opt_text(v, "shell"@)
    &&& raw.system_prompt.deep_view() == opt_text(v, "system_prompt"@)
    &&& (raw.max_turns is Some) == (opt_number(v, "max_turns"@) is Some)
    &&& raw.max_turns is Some ==> raw.max_turns->0 == opt_number(v, "max_turns"@)->0
    &&& raw.tool_timeout_secs == opt_number(v, "tool_timeout_secs"@)
}

fn read_agent(table: &Json) -> (r: Result<AgentSection, String>)
    ensures
        match r {
            Ok(raw) => agent_flaw(*table) is None && says_agent(*table, raw),
            Err(e) => agent_flaw(*table) == Some(e@),
        },
{
    let keys = ["provider", "shell", "system_prompt", "max_turns", "tool_timeout_secs"];
    assert(keys.deep_view() =~= agent_keys());
    match check_table(table, &keys) {
        Ok(_) => {},
        Err(e) => {
            return Err(e);
        },
    }
    let provider = match need_text(table, "provider") {
        Ok(text) => text,
        Err(e) => {
            return Err(e);
        },
    };
    let shell = match read_text(table, "shell") {
        Ok(text) => text,
        Err(e) => {
            return Err(e);
        },
    };
    let system_prompt = match read_text(table, "system_prompt") {
        Ok(text) => text,
        Err(e) => {
            return Err(e);
        },
    };
    let max_turns = match read_number(table, "max_turns", 0xffff_ffff) {
        Ok(Some(n)) => Some(n as u32),
        Ok(None) => None,
        Err(e) => {
            return Err(e);
        },
    };
    let tool_timeout_secs = match read_number(table, "tool_timeout_secs", u64::MAX) {
        Ok(n) => n,
        Err(e) => {
            return Err(e);
        },
    };
    Ok(AgentSection { provider, shell, system_prompt, max_turns, tool_timeout_secs })
}

pub open spec fn permission_keys() -> Seq<Seq<char>> {
    seq!["workspace_read"@, "workspace_write"@, "outside_workspace"@, "commands"@]
}

pub open spec fn permissions_flaw(table: Json) -> Option<Seq<char>> {
    let v = table@;
    let a = either(
        table_flaw(table, permission_keys()),
        flaw_unless(is_opt_text(v, "workspace_read"@), "workspace_read"@),
    );
    let b = either(a, flaw_unless(is_opt_text(v, "workspace_write"@), "workspace_write"@));
    let c = either(b, flaw_unless(is_opt_text(v, "outside_workspace"@), "outside_workspace"@));
    either(c, flaw_unless(is_opt_text(v, "commands"@), "commands"@))
}

pub open spec fn says_permissions(table: Json, raw: PermissionsSection) -> bool {
    let v = table@;
    &&& raw.workspace_read.deep_view() == opt_text(v, "workspace_read"@)
    &&& raw.workspace_write.deep_view() == opt_text(v, "workspace_write"@)
    &&& raw.outside_workspace.deep_view() == opt_text(v, "outside_workspace"@)
    &&& raw.commands.deep_view() == opt_text(v, "commands"@)
}

fn read_permissions(table: &Json) -> (r: Result<PermissionsSection, String>)
    ensures
        match r {
            Ok(raw) => permissions_flaw(*table) is None && says_permissions(*table, raw),
            Err(e) => permissions_flaw(*table) == Some(e@),
        },
{
    let keys = ["workspace_read", "workspace_write", "outside_workspace", "commands"];
    assert(keys.deep_view() =~= permission_keys());
    match check_table(table, &keys) {
        Ok(_) => {},
        Err(e) => {
            return Err(e);
        },
    }
    let workspace_read = match read_text(table, "workspace_read") {
        Ok(text) => text,
        Err(e) => {
            return Err(e);
        },
    };
    let workspace_write = match read_text(table, "workspace_write") {
        Ok(text) => text,
        Err(e) => {
            return Err(e);
        },
    };
    let outside_workspace = match read_text(table, "outside_workspace") {
        Ok(text) => text,
        Err(e) => {
            return Err(e);
        },
    };
    let commands = match read_text(table, "commands") {
        Ok(text) => text,
        Err(e) => {
            return Err(e);
        },
    };
    Ok(PermissionsSection { workspace_read, workspace_write, outside_workspace, commands })
}

/// A table without entries.
pub open spec fn blank(table: Json) -> bool {
    table is Object && table->Object_0@.len() == 0
}

pub open spec fn file_keys() -> Seq<Seq<char>> {
    seq!["agent"@, "permissions"@, "providers"@]
}

pub open spec fn file_flaw(table: Json) -> Option<Seq<char>> {
    let a = table_flaw(table, file_keys());
    let b = either(a, flaw_unless(table.child("agent"@) is Some, "agent"@));
    let c = either(b, agent_flaw(table.child("agent"@)->0));
    let d = either(
        c,
        match table.child("permissions"@) {
            Some(t) => permissions_flaw(t),
            None => None,
        },
    );
    let e = either(d, flaw_unless(is_opt_table(table, "providers"@), "providers"@));
    either(e, providers_flaw(subtables(table, "providers"@)))
}

/// Whether a table says what a configuration file holds.
pub open spec fn says_file(table: Json, raw: FileConfig) -> bool {
    &&& says_agent(table.child("agent"@)->0, raw.agent)
    &&& match table.child("permissions"@) {
        Some(t) => says_permissions(t, raw.permissions),
        None => {
            &&& raw.permissions.workspace_read is None
            &&& raw.permissions.workspace_write is None
            &&& raw.permissions.outside_workspace is None
            &&& raw.permissions.commands is None
        },
    }
    &&& says_providers(subtables(table, "providers"@), raw.providers@)
}

/// Reads the sections of a configuration. A field that no section knows is refused.
pub fn read_file_config(table: &Json) -> (r: Result<FileConfig, String>)
    ensures
        match r {
            Ok(raw) => file_flaw(*table) is None && says_file(*table, raw),
            Err(e) => file_flaw(*table) == Some(e@),
        },
{
    let keys = ["agent", "permissions", "providers"];
    assert(keys.deep_view() =~= file_keys());
    match check_table(table, &keys) {
        Ok(_) => {},
        Err(e) => {
            return Err(e);
        },
    }
    let agent = match table.get("agent") {
        None => {
            return Err(field_error("agent"));
        },
        Some(section) => match read_agent(section) {
            Ok(agent) => agent,
            Err(e) => {
                return Err(e);
            },
        },
    };
    let permissions = match table.get("permissions") {
        None => PermissionsSection {
            workspace_read: None,
            workspace_write: None,
            outside_workspace: None,
            commands: None,
        },
        Some(section) => match read_permissions(section) {
            Ok(permissions) => permissions,
            Err(e) => {
                return Err(e);
            },
        },
    };
    let providers = match table.get("providers") {
        None => Vec::new(),
        Some(value) => match value {
            Json::Object(entries) => match read_providers(entries) {
                Ok(providers) => providers,
                Err(e) => {
                    return Err(e);
                },
            },
            _ => {
                return Err(field_error("providers"));
            },
        },
    };
    Ok(FileConfig { agent, permissions, providers })
}

} // verus!
