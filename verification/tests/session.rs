use onemore::json::Json;
use onemore::message::{Block, CacheUsage, ChatMessage, Role, Usage};
use onemore::plan::{PlanItem, PlanSnapshot, PlanStatus};
use onemore::session::{
    application_messages, message_chars, project_model_messages, reduce_plan, repair_tool_pairs,
    validate_new_message_batch, validate_plan_append, ArtifactDraft, CompactionRecord, NoticeLevel,
    NoticeRecord, PlanReminderReason, PlanReminderRecord, SessionEntry, SessionEntryPayload,
};

fn entry(payload: SessionEntryPayload) -> SessionEntry {
    SessionEntry {
        id: "entry".to_string(),
        parent_id: None,
        created_at: 0,
        payload,
    }
}

fn empty_object() -> Json {
    Json::Object(Vec::new())
}

fn call(id: &str) -> SessionEntryPayload {
    SessionEntryPayload::message(
        ChatMessage {
            role: Role::Assistant,
            blocks: vec![Block::ToolUse {
                id: id.to_string(),
                name: "dynamic".to_string(),
                input: empty_object(),
            }],
        },
        None,
    )
}

fn result(id: &str) -> SessionEntryPayload {
    SessionEntryPayload::message(
        ChatMessage {
            role: Role::User,
            blocks: vec![Block::ToolResult {
                tool_use_id: id.to_string(),
                content: "done".to_string(),
                is_error: false,
            }],
        },
        None,
    )
}

#[test]
fn ui_only_entries_are_not_projected_to_model() {
    let entries = vec![
        entry(SessionEntryPayload::Notice(NoticeRecord {
            text: "visible in UI only".to_string(),
            level: NoticeLevel::Info,
        })),
        entry(SessionEntryPayload::message(
            ChatMessage::user_text("hello".to_string()),
            None,
        )),
    ];
    let projection = project_model_messages(&entries);
    assert_eq!(projection.messages.len(), 1);
    assert_eq!(projection.messages[0].text(), "hello");
}

#[test]
fn plan_state_is_not_chat_but_bounded_reminders_are_projected() {
    let entries = vec![
        entry(SessionEntryPayload::PlanUpdated(PlanSnapshot {
            revision: 1,
            items: vec![PlanItem {
                id: "work".to_string(),
                text: "Do the work".to_string(),
                status: PlanStatus::Pending,
            }],
            explanation: None,
        })),
        entry(SessionEntryPayload::PlanReminder(PlanReminderRecord {
            revision: 1,
            reason: PlanReminderReason::Continue,
        })),
    ];
    assert!(application_messages(&entries).is_empty());
    let projection = project_model_messages(&entries);
    assert_eq!(projection.messages.len(), 1);
    assert!(projection.messages[0].text().contains("Plan revision 1"));
}

#[test]
fn compaction_changes_model_view_without_deleting_facts() {
    let entries = vec![
        entry(SessionEntryPayload::message(
            ChatMessage::user_text("old fact".to_string()),
            None,
        )),
        entry(SessionEntryPayload::Compaction(CompactionRecord {
            summary: "old task summary".to_string(),
            tokens_before: 100,
        })),
        entry(SessionEntryPayload::message(
            ChatMessage::user_text("new fact".to_string()),
            None,
        )),
    ];
    let projection = project_model_messages(&entries);
    assert_eq!(entries.len(), 3);
    assert_eq!(projection.messages.len(), 2);
    assert!(projection.messages[0].text().contains("old task summary"));
    assert_eq!(projection.messages[1].text(), "new fact");
}

#[test]
fn projector_repairs_missing_tool_result_without_reexecution() {
    let entries = vec![entry(call("call-1"))];
    let projection = project_model_messages(&entries);
    assert_eq!(projection.messages.len(), 2);
    assert!(matches!(
        projection.messages[1].blocks[0],
        Block::ToolResult { is_error: true, .. }
    ));
    assert_eq!(projection.diagnostics.len(), 1);
}

#[test]
fn new_batches_reject_half_tool_pairs() {
    assert!(validate_new_message_batch(&[call("call-1")]).is_err());
}

#[test]
fn new_batches_accept_full_tool_pairs() {
    assert!(validate_new_message_batch(&[call("call-1"), result("call-1")]).is_ok());
    assert!(validate_new_message_batch(&[call("call-1"), result("call-2")]).is_err());
    assert!(validate_new_message_batch(&[result("call-1")]).is_err());
    assert!(
        validate_new_message_batch(&[call("call-1"), result("call-1"), result("call-1")]).is_err()
    );
}

#[test]
fn sound_histories_are_projected_unchanged() {
    let entries = vec![
        entry(SessionEntryPayload::message(
            ChatMessage::user_text("go".to_string()),
            None,
        )),
        entry(call("call-1")),
        entry(result("call-1")),
    ];
    let projection = project_model_messages(&entries);
    assert_eq!(projection.messages.len(), 3);
    assert!(projection.diagnostics.is_empty());
}

#[test]
fn projector_drops_results_that_nobody_asked_for() {
    let entries = vec![entry(result("call-9"))];
    let projection = project_model_messages(&entries);
    assert_eq!(projection.diagnostics.len(), 1);
    assert!(projection
        .messages
        .iter()
        .flat_map(|m| m.blocks.iter())
        .all(|b| !matches!(b, Block::ToolResult { .. })));
}

#[test]
fn plans_follow_each_other() {
    let plan = |revision: u64| {
        SessionEntryPayload::PlanUpdated(PlanSnapshot {
            revision,
            items: vec![PlanItem {
                id: "a".to_string(),
                text: "A".to_string(),
                status: PlanStatus::InProgress,
            }],
            explanation: None,
        })
    };
    assert!(validate_plan_append(&[], &[plan(1)]).is_ok());
    assert!(validate_plan_append(&[], &[plan(2)]).is_err());
    let existing = vec![entry(plan(1))];
    assert!(validate_plan_append(&existing, &[plan(2)]).is_ok());
    assert!(validate_plan_append(&existing, &[plan(1)]).is_err());
    let state = reduce_plan(&[entry(plan(1)), entry(plan(7))]);
    assert_eq!(state.snapshot.revision, 1);
    assert_eq!(state.diagnostics.len(), 1);
}

#[test]
fn reminders_read_as_the_model_sees_them() {
    let reminder = PlanReminderRecord {
        revision: 4,
        reason: PlanReminderReason::Cancelled,
    };
    assert_eq!(
        reminder.model_message().text(),
        "[Plan state after cancellation] The in-progress item was returned to pending. The current plan revision is 4."
    );
}

#[test]
fn messages_cost_their_content_and_a_frame() {
    assert_eq!(message_chars(&ChatMessage::user_text("abcd".to_string())), 20);
}

#[test]
fn usage_adds_up_and_keeps_known_cache_counts() {
    let mut total = Usage::default();
    total.add(Usage {
        input_tokens: 10,
        output_tokens: 2,
        cache: None,
    });
    assert_eq!(total.cache, None);
    let more = Usage {
        input_tokens: 5,
        output_tokens: 1,
        cache: Some(CacheUsage {
            read_tokens: 3,
            write_tokens: 4,
        }),
    };
    assert!(total.can_add(more));
    total.add(more);
    total.add(more);
    assert_eq!(total.input_tokens, 20);
    assert_eq!(total.output_tokens, 4);
    assert_eq!(
        total.cache,
        Some(CacheUsage {
            read_tokens: 6,
            write_tokens: 8,
        })
    );
    let full = Usage {
        input_tokens: u64::MAX,
        output_tokens: 0,
        cache: None,
    };
    assert!(!full.can_add(more));
}

#[test]
fn payload_kinds_have_stable_names() {
    assert_eq!(call("x").kind(), "message");
    assert_eq!(
        SessionEntryPayload::Compaction(CompactionRecord {
            summary: String::new(),
            tokens_before: 0,
        })
        .kind(),
        "compaction"
    );
}

#[test]
fn text_artifacts_count_their_bytes() {
    let artifact = ArtifactDraft::text("héllo".to_string());
    assert_eq!(artifact.reference.byte_len, 6);
    assert_eq!(artifact.bytes.len(), 6);
    assert_eq!(artifact.reference.media_type, "text/plain; charset=utf-8");
    assert_eq!(artifact.reference.id.len(), 36);
    let other = ArtifactDraft::text("héllo".to_string());
    assert_ne!(artifact.reference.id, other.reference.id);
}

#[test]
fn repairing_keeps_everything_but_results() {
    let mixed = ChatMessage {
        role: Role::User,
        blocks: vec![
            Block::Text("before".to_string()),
            Block::ToolResult {
                tool_use_id: "nobody".to_string(),
                content: "lost".to_string(),
                is_error: false,
            },
            Block::Text("after".to_string()),
        ],
    };
    let SessionEntryPayload::Message(asked) = call("asked") else {
        unreachable!()
    };
    let (out, notes) = repair_tool_pairs(vec![asked.message, mixed]);
    assert_eq!(out.len(), 2);
    assert_eq!(out[1].text(), "beforeafter");
    assert_eq!(notes.len(), 2);
    let results: Vec<bool> = out[1]
        .blocks
        .iter()
        .filter_map(|block| match block {
            Block::ToolResult { is_error, .. } => Some(*is_error),
            _ => None,
        })
        .collect();
    assert_eq!(results, [true]);
    let (again, notes) = repair_tool_pairs(out);
    assert!(notes.is_empty());
    assert_eq!(again.len(), 2);
}

#[test]
fn facts_for_people_make_no_difference_anywhere() {
    let notice = || {
        entry(SessionEntryPayload::Notice(NoticeRecord {
            text: "for people".to_string(),
            level: NoticeLevel::Info,
        }))
    };
    let spoken = || {
        vec![
            entry(SessionEntryPayload::message(
                ChatMessage::user_text("old".to_string()),
                None,
            )),
            entry(SessionEntryPayload::Compaction(CompactionRecord {
                summary: "s".to_string(),
                tokens_before: 1,
            })),
            entry(SessionEntryPayload::message(
                ChatMessage::user_text("new".to_string()),
                None,
            )),
        ]
    };
    let mut noisy = Vec::new();
    for fact in spoken() {
        noisy.push(notice());
        noisy.push(fact);
        noisy.push(notice());
    }
    let plain = project_model_messages(&spoken()[1..]);
    let seen = project_model_messages(&noisy);
    let texts = |messages: &[ChatMessage]| -> Vec<String> { messages.iter().map(|m| m.text()).collect() };
    assert_eq!(texts(&seen.messages), texts(&plain.messages));
    assert_eq!(seen.known_token_baseline, plain.known_token_baseline);
    assert_eq!(seen.tail_chars_after_baseline, plain.tail_chars_after_baseline);
}
