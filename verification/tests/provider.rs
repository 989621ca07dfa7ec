use onemore::config::{ApiKind, ProviderProfile, ProviderSettings, ReasoningEffortPolicy};
use onemore::context::PromptContext;
use onemore::json::{equal, Json};
use onemore::message::{Block, ChatMessage, Role};
use onemore::provider::anthropic::AnthropicProvider;
use onemore::provider::openai_responses::ResponsesProvider;
use onemore::provider::sse::SseReader;
use onemore::provider::{
    args_to_object, args_to_string, build_provider, extract_api_error, parse_args, retry_after,
    status_error, transport_error, url_join, AnyStream, Provider, ProviderError, StreamTerminal,
};
use onemore::time::Duration;
use onemore::tools::{ToolCapabilities, ToolPermissionSpec, ToolSpec};

fn json(text: &str) -> Json {
    Json::parse(text).unwrap()
}

fn settings(api: ApiKind, profile: ProviderProfile) -> ProviderSettings {
    ProviderSettings {
        name: "test".to_string(),
        api,
        profile,
        base_url: "https://api.example.com/v1".to_string(),
        api_key: "test".to_string(),
        model: "model-5".to_string(),
        max_tokens: None,
        context_window: None,
        selected_effort: "medium".to_string(),
        reasoning_effort: ReasoningEffortPolicy::Omit,
    }
}

fn anthropic() -> AnthropicProvider {
    AnthropicProvider::new(settings(
        ApiKind::Messages,
        ProviderProfile::AnthropicMessages,
    ))
}

fn responses() -> ResponsesProvider {
    ResponsesProvider::new(settings(
        ApiKind::Responses,
        ProviderProfile::OpenAiResponses,
    ))
}

fn tools() -> Vec<ToolSpec> {
    vec![ToolSpec {
        name: "read_file".to_string(),
        description: "读".to_string(),
        schema: json("{\"type\": \"object\", \"properties\": {}}"),
        capabilities: ToolCapabilities::read_only(),
        permission: ToolPermissionSpec::default(),
    }]
}

fn at<'a>(value: &'a Json, path: &[&str]) -> Option<&'a Json> {
    let mut value = value;
    for key in path {
        value = match value {
            Json::Array(items) => items.get(key.parse::<usize>().unwrap())?,
            other => other.get(key)?,
        };
    }
    Some(value)
}

fn text_at<'a>(value: &'a Json, path: &[&str]) -> &'a str {
    at(value, path).and_then(|v| v.as_str()).unwrap_or("")
}

fn len_at(value: &Json, path: &[&str]) -> usize {
    match at(value, path) {
        Some(Json::Array(items)) => items.len(),
        other => panic!("{:?}", other),
    }
}

#[test]
fn url_join_handles_v1() {
    assert_eq!(
        url_join("https://api.anthropic.com", "v1/messages"),
        "https://api.anthropic.com/v1/messages"
    );
    assert_eq!(
        url_join("https://api.openai.com/v1", "v1/chat/completions"),
        "https://api.openai.com/v1/chat/completions"
    );
    assert_eq!(
        url_join("http://localhost:11434/v1/", "v1/chat/completions"),
        "http://localhost:11434/v1/chat/completions"
    );
}

#[test]
fn parse_args_variants() {
    assert!(equal(&parse_args(""), &json("{}")));
    assert!(equal(&parse_args("{\"a\":1}"), &json("{\"a\":1}")));
    assert!(matches!(parse_args("{broken"), Json::Str(_)));
}

#[test]
fn arguments_that_do_not_parse_are_sent_back_raw() {
    assert_eq!(args_to_string(&json("{\"a\":1}")), "{\"a\":1}");
    assert_eq!(args_to_string(&Json::Str("{broken".to_string())), "{broken");
    assert!(equal(
        &args_to_object(&Json::Str("{broken".to_string())),
        &json("{\"_raw\":\"{broken\"}")
    ));
    assert!(equal(&args_to_object(&json("{\"a\":1}")), &json("{\"a\":1}")));
}

#[test]
fn anthropic_request_body_shape() {
    let mut prompt = PromptContext::default();
    prompt.system_sections.push("sys".to_string());
    prompt.messages.push(ChatMessage::user_text("你好".to_string()));
    prompt.messages.push(ChatMessage {
        role: Role::Assistant,
        blocks: vec![
            Block::Text("我看看".to_string()),
            Block::ToolUse {
                id: "toolu_1".to_string(),
                name: "read_file".to_string(),
                input: json("{\"path\":\"a.txt\"}"),
            },
        ],
    });
    prompt.messages.push(ChatMessage {
        role: Role::User,
        blocks: vec![Block::ToolResult {
            tool_use_id: "toolu_1".to_string(),
            content: "内容".to_string(),
            is_error: false,
        }],
    });

    let body = anthropic().build_body(&prompt, &tools());

    assert_eq!(text_at(&body, &["system"]), "sys");
    assert_eq!(
        at(&body, &["max_tokens"]).and_then(|v| v.as_u64()),
        Some(8192)
    );
    assert_eq!(text_at(&body, &["messages", "0", "role"]), "user");
    assert_eq!(
        text_at(&body, &["messages", "1", "content", "1", "type"]),
        "tool_use"
    );
    assert_eq!(
        text_at(&body, &["messages", "2", "content", "0", "tool_use_id"]),
        "toolu_1"
    );
    assert_eq!(
        text_at(&body, &["tools", "0", "input_schema", "type"]),
        "object"
    );
}

#[test]
fn merges_consecutive_user_messages() {
    let mut prompt = PromptContext::default();
    prompt.messages.push(ChatMessage {
        role: Role::User,
        blocks: vec![Block::ToolResult {
            tool_use_id: "t1".to_string(),
            content: "r".to_string(),
            is_error: false,
        }],
    });
    prompt.messages.push(ChatMessage::user_text("继续".to_string()));
    let body = anthropic().build_body(&prompt, &Vec::new());
    assert_eq!(len_at(&body, &["messages"]), 1);
    assert_eq!(len_at(&body, &["messages", "0", "content"]), 2);
}

#[test]
fn openai_responses_request_body_shape() {
    let mut prompt = PromptContext::default();
    prompt.system_sections.push("sys".to_string());
    prompt.messages.push(ChatMessage::user_text("hi".to_string()));
    prompt.messages.push(ChatMessage {
        role: Role::Assistant,
        blocks: vec![
            Block::Thinking {
                text: "…".to_string(),
                provider_kind: Some("openai_responses".to_string()),
                raw: Some(json(
                    "{\"type\":\"reasoning\",\"id\":\"rs_1\",\"summary\":[],\"encrypted_content\":\"xxx\"}",
                )),
            },
            Block::ToolUse {
                id: "fc_call_1".to_string(),
                name: "read_file".to_string(),
                input: json("{\"path\":\"a.txt\"}"),
            },
        ],
    });
    prompt.messages.push(ChatMessage {
        role: Role::User,
        blocks: vec![Block::ToolResult {
            tool_use_id: "fc_call_1".to_string(),
            content: "内容".to_string(),
            is_error: false,
        }],
    });

    let body = responses().build_body(&prompt, &tools());

    assert_eq!(text_at(&body, &["instructions"]), "sys");
    assert_eq!(at(&body, &["store"]).and_then(|v| v.as_bool()), Some(false));
    assert_eq!(text_at(&body, &["input", "0", "type"]), "message");
    assert_eq!(
        text_at(&body, &["input", "0", "content", "0", "type"]),
        "input_text"
    );
    assert_eq!(text_at(&body, &["input", "1", "type"]), "reasoning");
    assert_eq!(text_at(&body, &["input", "1", "encrypted_content"]), "xxx");
    assert_eq!(text_at(&body, &["input", "2", "type"]), "function_call");
    assert_eq!(text_at(&body, &["input", "2", "call_id"]), "fc_call_1");
    assert_eq!(
        text_at(&body, &["input", "3", "type"]),
        "function_call_output"
    );
    assert_eq!(text_at(&body, &["tools", "0", "name"]), "read_file");
    assert!(at(&body, &["tools", "0", "function"]).is_none());
}

#[test]
fn foreign_thinking_is_dropped() {
    let mut prompt = PromptContext::default();
    prompt.messages.push(ChatMessage {
        role: Role::Assistant,
        blocks: vec![Block::Thinking {
            text: "deepseek 的思考".to_string(),
            provider_kind: None,
            raw: None,
        }],
    });
    let body = responses().build_body(&prompt, &Vec::new());
    assert_eq!(len_at(&body, &["input"]), 0);
}

#[test]
fn requests_carry_their_key_and_address() {
    let provider = build_provider(settings(
        ApiKind::Messages,
        ProviderProfile::AnthropicMessages,
    ));
    assert_eq!(provider.model(), "model-5");
    let request = provider.request(&PromptContext::default(), &Vec::new());
    assert_eq!(request.url, "https://api.example.com/v1/messages");
    assert!(request
        .headers
        .iter()
        .any(|h| h.0 == "x-api-key" && h.1 == "test"));
    assert!(Json::parse(&request.body).is_ok());
    let provider = build_provider(settings(
        ApiKind::Responses,
        ProviderProfile::OpenAiResponses,
    ));
    let request = provider.request(&PromptContext::default(), &Vec::new());
    assert_eq!(request.url, "https://api.example.com/v1/responses");
}

#[test]
fn refusals_say_whether_another_try_helps() {
    assert!(status_error(429, None, Some("3"), "{}").retryable);
    assert!(status_error(503, None, None, "").retryable);
    assert!(!status_error(401, None, None, "{}").retryable);
    assert_eq!(
        status_error(429, None, Some("3"), "{}").retry_after,
        Some(Duration::from_secs(3))
    );
    assert_eq!(
        retry_after(Some("1500"), Some("3")),
        Some(Duration::from_millis(1500))
    );
    assert_eq!(retry_after(None, None), None);
    assert!(transport_error("reset").retryable);
    assert!(status_error(400, None, None, "{\"error\":{\"message\":\"bad model\"}}")
        .message
        .contains("bad model"));
    assert_eq!(
        extract_api_error("{\"error\":{\"message\":\"m\"}}"),
        "m"
    );
}

#[test]
fn streams_are_read_line_by_line() {
    let mut reader = SseReader::new();
    assert!(reader.push_line("event: x").is_none());
    assert!(reader.push_line("data: a").is_none());
    assert!(reader.push_line("data: b").is_none());
    let event = reader.push_line("").unwrap();
    assert_eq!(event.data, "a\nb");
    assert!(reader.push_line("").is_none());
}

#[test]
fn ends_are_done_aborted_or_failed() {
    assert!(matches!(
        AnyStream::conclude(Ok(None)),
        StreamTerminal::Aborted(_)
    ));
    assert!(matches!(
        AnyStream::conclude(Err(ProviderError::fatal("x".to_string()))),
        StreamTerminal::Error(failed) if failed.error.describe() == "x"
    ));
}

#[test]
fn empty_keys_send_no_authentication_header() {
    for (api, profile) in [
        (ApiKind::Messages, ProviderProfile::AnthropicMessages),
        (ApiKind::Responses, ProviderProfile::OpenAiResponses),
    ] {
        let mut open = settings(api, profile);
        open.api_key = String::new();
        let request = build_provider(open).request(&PromptContext::default(), &Vec::new());
        assert!(!request
            .headers
            .iter()
            .any(|h| h.0 == "x-api-key" || h.0 == "authorization"));
    }
}
