use onemore::context::budget::{
    apply_budget, estimate_tokens, shorten_old_tool_results, BudgetDecision, ContextBudget,
};
use onemore::json::Json;
use onemore::message::{Block, ChatMessage, Role, Usage};
use onemore::session::{project_model_messages, SessionEntry, SessionEntryPayload};

fn entry(payload: SessionEntryPayload) -> SessionEntry {
    SessionEntry {
        id: "id".to_string(),
        parent_id: None,
        created_at: 0,
        payload,
    }
}

fn said(text: String) -> SessionEntryPayload {
    SessionEntryPayload::message(ChatMessage::user_text(text), None)
}

fn assistant_with_usage(text: &str, input: u64, output: u64) -> SessionEntryPayload {
    SessionEntryPayload::message(
        ChatMessage {
            role: Role::Assistant,
            blocks: vec![Block::Text(text.to_string())],
        },
        Some(Usage {
            input_tokens: input,
            output_tokens: output,
            cache: None,
        }),
    )
}

fn tool_roundtrip(id: &str, result_chars: usize) -> Vec<SessionEntryPayload> {
    vec![
        SessionEntryPayload::message(
            ChatMessage {
                role: Role::Assistant,
                blocks: vec![Block::ToolUse {
                    id: id.to_string(),
                    name: "read_file".to_string(),
                    input: Json::parse("{\"path\": \"big.txt\"}").unwrap(),
                }],
            },
            None,
        ),
        SessionEntryPayload::message(
            ChatMessage {
                role: Role::User,
                blocks: vec![Block::ToolResult {
                    tool_use_id: id.to_string(),
                    content: "x".repeat(result_chars),
                    is_error: false,
                }],
            },
            None,
        ),
    ]
}

fn result_of(messages: &[ChatMessage], id: &str) -> Option<String> {
    messages
        .iter()
        .flat_map(|m| m.blocks.iter())
        .find_map(|b| match b {
            Block::ToolResult {
                tool_use_id,
                content,
                ..
            } if tool_use_id == id => Some(content.clone()),
            _ => None,
        })
}

#[test]
fn estimate_uses_real_usage_baseline_plus_tail() {
    let entries = vec![
        entry(said("很长的第一问".repeat(100))),
        entry(assistant_with_usage("答", 1000, 50)),
        entry(said("x".repeat(400))),
    ];
    let projection = project_model_messages(&entries);
    assert_eq!(projection.known_token_baseline, Some(1050));
    assert_eq!(projection.tail_chars_after_baseline, 416);
    let estimated = estimate_tokens(10_000, 10_000, &projection);
    assert_eq!(estimated, 1050 + 416 / 4 + 1);
}

#[test]
fn without_baseline_estimate_counts_everything() {
    let entries = vec![entry(said("x".repeat(400)))];
    let projection = project_model_messages(&entries);
    assert_eq!(projection.known_token_baseline, None);
    let estimated = estimate_tokens(400, 200, &projection);
    assert_eq!(estimated, (400 + 200 + 416) / 4 + 1);
}

#[test]
fn within_budget_sends_untouched_view() {
    let entries = vec![entry(said("hi".to_string()))];
    let projection = project_model_messages(&entries);
    let budget = ContextBudget {
        context_window: Some(10_000),
        reserve_output: 1_000,
    };
    match apply_budget(&budget, 0, 0, projection) {
        BudgetDecision::Send {
            messages, notices, ..
        } => {
            assert_eq!(messages.len(), 1);
            assert!(notices.is_empty());
        }
        other => panic!("应直接发送: {:?}", other),
    }
}

#[test]
fn over_budget_shortens_old_tool_results_but_keeps_pairing() {
    let mut payloads = vec![said("查日志".to_string())];
    payloads.extend(tool_roundtrip("old-call", 40_000));
    payloads.push(assistant_with_usage("看完了", 30_000, 100));
    payloads.extend(tool_roundtrip("new-call", 500));
    let entries: Vec<SessionEntry> = payloads.into_iter().map(entry).collect();
    let projection = project_model_messages(&entries);
    let budget = ContextBudget {
        context_window: Some(16_000),
        reserve_output: 1_000,
    };
    match apply_budget(&budget, 100, 100, projection) {
        BudgetDecision::Send {
            messages, notices, ..
        } => {
            assert_eq!(notices.len(), 1);
            let old_result = result_of(&messages, "old-call").expect("配对未被破坏");
            assert!(old_result.contains("已按上下文预算折叠"));
            let new_result = result_of(&messages, "new-call").unwrap();
            assert!(!new_result.contains("折叠"));
        }
        other => panic!("折叠后应可发送: {:?}", other),
    }
}

#[test]
fn refuses_to_send_when_shortening_is_not_enough() {
    let entries = vec![entry(said("x".repeat(100_000)))];
    let projection = project_model_messages(&entries);
    let budget = ContextBudget {
        context_window: Some(2_000),
        reserve_output: 1_000,
    };
    match apply_budget(&budget, 0, 0, projection) {
        BudgetDecision::Refuse {
            estimated_tokens,
            available_tokens,
        } => {
            assert!(estimated_tokens > available_tokens);
            assert_eq!(available_tokens, 1_000);
        }
        other => panic!("应拒绝发送: {:?}", other),
    }
}

#[test]
fn without_a_window_everything_is_sent() {
    let entries = vec![entry(said("x".repeat(100_000)))];
    let projection = project_model_messages(&entries);
    match apply_budget(&ContextBudget::disabled(), 0, 0, projection) {
        BudgetDecision::Send { messages, .. } => assert_eq!(messages.len(), 1),
        other => panic!("{:?}", other),
    }
}

#[test]
fn a_window_smaller_than_the_reserve_leaves_one_token() {
    let budget = ContextBudget {
        context_window: Some(10),
        reserve_output: 1_000,
    };
    assert_eq!(budget.available_input(), Some(1));
}

#[test]
fn folding_never_makes_a_result_longer() {
    for (chars, folds) in [(160, 0), (161, 0), (197, 0), (198, 1), (5000, 1)] {
        let mut payloads = tool_roundtrip("call", chars);
        payloads.push(said("a".to_string()));
        payloads.push(said("b".to_string()));
        let entries: Vec<SessionEntry> = payloads.into_iter().map(entry).collect();
        let messages = project_model_messages(&entries).messages;
        let (folded, count) = shorten_old_tool_results(messages);
        assert_eq!(count, folds);
        let content = result_of(&folded, "call").unwrap();
        assert!(content.chars().count() <= chars);
        assert_eq!(content.chars().count() == chars, folds == 0);
    }
}
