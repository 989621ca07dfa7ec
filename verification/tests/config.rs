use onemore::config::{
    normalize_provider, parse_permission_rule, ActiveModelSelection, ApiKind, Config,
    ProviderProfile, ReasoningEffortPolicy, EXAMPLE_CONFIG,
};
use onemore::config::file::RawProviderSection;
use onemore::permission::PermissionRule;

fn select(provider: &str, model: &str, effort: &str) -> ActiveModelSelection {
    ActiveModelSelection {
        provider: provider.to_string(),
        model: model.to_string(),
        effort: effort.to_string(),
    }
}

#[test]
fn permission_rules_reject_unknown_values() {
    assert_eq!(
        parse_permission_rule(Some("deny"), PermissionRule::Allow, "commands").unwrap(),
        PermissionRule::Deny
    );
    assert!(parse_permission_rule(Some("maybe"), PermissionRule::Allow, "commands").is_err());
    assert_eq!(
        parse_permission_rule(None, PermissionRule::Ask, "commands").unwrap(),
        PermissionRule::Ask
    );
}

#[test]
fn chat_completions_is_not_a_supported_api_kind() {
    assert!(ApiKind::parse("chat").is_err());
}

#[test]
fn provider_profiles_are_family_checked() {
    assert_eq!(
        ProviderProfile::parse(None, ApiKind::Responses).unwrap(),
        ProviderProfile::OpenAiResponses
    );
    assert!(ProviderProfile::parse(Some("anthropic"), ApiKind::Responses).is_err());
}

#[test]
fn the_example_is_a_valid_configuration() {
    let config = Config::parse(EXAMPLE_CONFIG).unwrap();
    assert_eq!(config.max_turns, 50);
    assert!(!config.provider_names().is_empty());
}

#[test]
fn multi_model_catalog_resolves_limits_and_reasoning() {
    let config = Config::parse(
        r#"
[agent]
provider = "mock"

[providers.mock]
api = "responses"
profile = "openai"
base_url = "https://example.invalid/v1"
api_key = ""
default_model = "gpt.main/v1"

[providers.mock.models."gpt.main/v1"]
context_window = 400000
max_tokens = 128000
efforts = ["none", "medium", "vendor_ultra"]
default_effort = "vendor_ultra"

[providers.mock.models."small:model"]
context_window = 64000
max_tokens = 8000
efforts = []
"#,
    )
    .unwrap();

    let catalog = config.provider_catalog();
    assert_eq!(catalog.len(), 1);
    assert_eq!(catalog[0].default_model, "gpt.main/v1");
    assert_eq!(catalog[0].models.len(), 2);
    let main = catalog[0]
        .models
        .iter()
        .find(|model| model.id == "gpt.main/v1")
        .unwrap();
    assert_eq!(main.context_window, Some(400000));
    assert_eq!(main.max_tokens, Some(128000));
    assert_eq!(main.efforts, ["none", "medium", "vendor_ultra"]);
    assert_eq!(main.default_effort, "vendor_ultra");
    assert!(main.sends_effort);
    assert_eq!(
        config.default_selection("mock").unwrap().effort,
        "vendor_ultra"
    );

    let settings = config
        .resolve_selection(&select("mock", "gpt.main/v1", "vendor_ultra"), None)
        .unwrap();
    assert_eq!(settings.context_window, Some(400000));
    assert_eq!(settings.max_tokens, Some(128000));
    assert_eq!(
        settings.reasoning_effort,
        ReasoningEffortPolicy::Send("vendor_ultra".to_string())
    );

    let small = config
        .resolve_selection(&select("mock", "small:model", "medium"), None)
        .unwrap();
    assert_eq!(small.context_window, Some(64000));
    assert_eq!(small.reasoning_effort, ReasoningEffortPolicy::Omit);

    assert!(config
        .validate_selection(&select("mock", "gpt.main/v1", "vendor_ultra"))
        .is_ok());
    assert!(config
        .validate_selection(&select("mock", "gpt.main/v1", "low"))
        .is_err());
    assert!(config
        .validate_selection(&select("mock", "missing", "low"))
        .is_err());
    assert!(config
        .validate_selection(&select("missing", "gpt.main/v1", "low"))
        .is_err());
    assert_eq!(
        config.model_default_effort("mock", "small:model").unwrap(),
        "medium"
    );
}

#[test]
fn legacy_single_model_config_still_loads() {
    let config = Config::parse(
        r#"
[agent]
provider = "legacy"
[providers.legacy]
api = "responses"
base_url = "https://example.invalid/v1"
api_key = ""
model = "old-model"
context_window = 32000
max_tokens = 4096
"#,
    )
    .unwrap();
    let settings = config.resolve_provider("legacy", None).unwrap();
    assert_eq!(settings.model, "old-model");
    assert_eq!(settings.context_window, Some(32000));
    assert_eq!(
        settings.reasoning_effort,
        ReasoningEffortPolicy::Send("medium".to_string())
    );
    assert_eq!(
        config.provider_catalog()[0].models[0].efforts,
        ["none", "minimal", "low", "medium", "high", "xhigh", "max"]
    );
}

#[test]
fn rejects_mixed_formats_and_unknown_reasoning_fields() {
    let mixed = r#"
[agent]
provider = "mock"
[providers.mock]
api = "responses"
base_url = "https://example.invalid/v1"
api_key = ""
model = "old"
default_model = "new"
[providers.mock.models.new]
context_window = 32000
"#;
    assert!(Config::parse(mixed).unwrap_err().contains("不能混用"));

    let removed_send_effort = r#"
[agent]
provider = "mock"
[providers.mock]
api = "responses"
base_url = "https://example.invalid/v1"
api_key = ""
default_model = "new"
[providers.mock.models.new]
context_window = 32000
send_effort = true
efforts = ["low", "high"]
"#;
    assert!(Config::parse(removed_send_effort)
        .unwrap_err()
        .contains("send_effort"));
}

#[test]
fn profile_defaults_and_custom_efforts_do_not_require_medium() {
    let config = Config::parse(
        r#"
[agent]
provider = "openai"

[providers.openai]
api = "responses"
profile = "openai"
base_url = "https://example.invalid/v1"
api_key = ""
default_model = "custom"

[providers.openai.models.custom]
context_window = 400000
efforts = ["low", "high", "max"]

[providers.anthropic]
api = "messages"
profile = "anthropic"
base_url = "https://example.invalid"
api_key = ""
default_model = "standard"

[providers.anthropic.models.standard]
context_window = 200000
"#,
    )
    .unwrap();

    let catalog = config.provider_catalog();
    let openai = catalog
        .iter()
        .find(|provider| provider.name == "openai")
        .unwrap();
    assert_eq!(openai.models[0].efforts, ["low", "high", "max"]);
    assert_eq!(openai.models[0].default_effort, "low");
    assert_eq!(config.default_selection("openai").unwrap().effort, "low");
    assert_eq!(
        config
            .resolve_selection(&select("openai", "custom", "max"), None)
            .unwrap()
            .reasoning_effort,
        ReasoningEffortPolicy::Send("max".to_string())
    );
    let anthropic = catalog
        .iter()
        .find(|provider| provider.name == "anthropic")
        .unwrap();
    assert_eq!(
        anthropic.models[0].efforts,
        ["low", "medium", "high", "xhigh", "max"]
    );
    assert_eq!(anthropic.models[0].default_effort, "medium");
    assert_eq!(config.provider_names(), ["anthropic", "openai"]);
}

#[test]
fn rejects_unsafe_or_ambiguous_basic_configuration() {
    let invalid_shell = r#"
[agent]
provider = "mock"
shell = "bash"
[providers.mock]
api = "responses"
base_url = "https://example.invalid/v1"
api_key = ""
model = "model"
context_window = 32000
"#;
    assert!(Config::parse(invalid_shell).unwrap_err().contains("shell"));

    let zero_turns = invalid_shell.replace("shell = \"bash\"", "max_turns = 0");
    assert!(Config::parse(&zero_turns).unwrap_err().contains("max_turns"));

    let duplicate_key_sources = r#"
[agent]
provider = "mock"
[providers.mock]
api = "responses"
base_url = "https://example.invalid/v1"
api_key = ""
api_key_env = "OPENAI_API_KEY"
model = "model"
context_window = 32000
"#;
    assert!(Config::parse(duplicate_key_sources)
        .unwrap_err()
        .contains("只能配置 api_key 或 api_key_env"));
}

#[test]
fn keys_come_from_the_declared_variable() {
    let config = Config::parse(
        r#"
[agent]
provider = "mock"
[providers.mock]
api = "messages"
base_url = "https://example.invalid"
model = "model"
context_window = 32000
"#,
    )
    .unwrap();
    assert_eq!(
        config.key_variable("mock").unwrap().as_deref(),
        Some("ANTHROPIC_API_KEY")
    );
    let settings = config
        .resolve_provider("mock", Some("value".to_string()))
        .unwrap();
    assert_eq!(settings.api_key, "value");
    assert!(config
        .resolve_provider("mock", None)
        .unwrap_err()
        .contains("ANTHROPIC_API_KEY"));
}

#[test]
fn broken_files_are_refused() {
    assert!(Config::parse("[agent").is_err());
    assert!(Config::parse("[agent]\nprovider = 3\n").is_err());
    assert!(Config::parse("[agent]\nprovider = \"gone\"\n[providers]\n").is_err());
}

#[test]
fn sections_without_a_model_are_refused() {
    let raw = RawProviderSection {
        api: "responses".to_string(),
        profile: None,
        base_url: "https://example.invalid".to_string(),
        api_key: Some(String::new()),
        api_key_env: None,
        model: None,
        default_model: None,
        max_tokens: None,
        context_window: None,
        models: Vec::new(),
    };
    assert!(normalize_provider("mock", raw).is_err());
}

#[test]
fn models_are_named_once() {
    let config = Config::parse(
        r#"
[agent]
provider = "one"

[providers.one]
api = "responses"
profile = "openai"
base_url = "https://one.invalid/v1"
api_key = ""
default_model = "shared"

[providers.one.models.shared]
context_window = 1000
max_tokens = 100
efforts = []

[providers.two]
api = "responses"
profile = "openai"
base_url = "https://two.invalid/v1"
api_key = ""
default_model = "shared"

[providers.two.models.own]
context_window = 1000
max_tokens = 100
efforts = []

[providers.two.models.shared]
context_window = 1000
max_tokens = 100
efforts = []
"#,
    )
    .unwrap();
    let mut names = config.model_names();
    names.sort();
    assert_eq!(names, ["own", "shared"]);
}

#[test]
fn loaded_names_ascend_and_the_catalog_offers_what_is_valid() {
    let section = |name: &str| {
        format!(
            "[providers.{}]\napi = \"responses\"\nprofile = \"openai\"\nbase_url = \"https://x.invalid\"\napi_key = \"\"\nmodel = \"m\"\n",
            name
        )
    };
    let text = format!(
        "[agent]\nprovider = \"b\"\n{}{}{}",
        section("c"),
        section("a"),
        section("b")
    );
    let config = Config::parse(&text).unwrap();
    assert_eq!(config.provider_names(), ["a", "b", "c"]);
    let catalog = config.provider_catalog();
    let names: Vec<&str> = catalog.iter().map(|entry| entry.name.as_str()).collect();
    assert_eq!(names, ["a", "b", "c"]);
    assert!(names.contains(&config.active_provider.as_str()));
    let valid = |provider: &str, model: &str, effort: &str| {
        config
            .validate_selection(&ActiveModelSelection {
                provider: provider.to_string(),
                model: model.to_string(),
                effort: effort.to_string(),
            })
            .is_ok()
    };
    for entry in &catalog {
        for model in &entry.models {
            for effort in &model.efforts {
                assert!(valid(&entry.name, &model.id, effort));
            }
            assert!(!valid(&entry.name, &model.id, "unheard-of"));
        }
        assert!(!valid(&entry.name, "other", "medium"));
    }
    assert!(!valid("d", "m", "medium"));
}
