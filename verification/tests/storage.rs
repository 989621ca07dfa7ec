use onemore::json::{equal, Json};
use onemore::message::{Block, CacheUsage, ChatMessage, Role, Usage};
use onemore::plan::{PlanItem, PlanSnapshot, PlanStatus};
use onemore::session::{NoticeLevel, NoticeRecord, SessionEntry, SessionEntryPayload};
use onemore::storage::codec::{encode_message, read_fact, write_fact};
use onemore::storage::preferences::{preference_path, WorkspacePreferences};
use onemore::storage::rows::{
    append_rows, count_messages, counts_facts, plan_schema, read_messages, read_rows, MessageRow,
    Row, SchemaPlan,
};
use onemore::storage::{
    check_owner, cleared, migrate_messages, read_usage, resolve_id,
    sort_sessions, usage_columns, workspace_key, AppPaths, SessionHeader, SessionSummary,
    Surroundings,
};
use onemore::workspace::PathStyle;

fn json(text: &str) -> Json {
    Json::parse(text).unwrap()
}

/// A store that keeps its rows in memory, as a database would.
struct Rows {
    workspace: String,
    header: SessionHeader,
    rows: Vec<Row>,
}

impl Rows {
    fn new(workspace: &str) -> Rows {
        Rows {
            workspace: workspace.to_string(),
            header: cleared(0),
            rows: Vec::new(),
        }
    }

    fn copy(&self) -> Vec<Row> {
        self.rows
            .iter()
            .map(|row| Row {
                id: row.id.clone(),
                parent_id: row.parent_id.clone(),
                kind: row.kind.clone(),
                payload: row.payload.clone(),
                created_at: row.created_at,
            })
            .collect()
    }

    fn load(&self) -> Vec<SessionEntry> {
        read_rows(self.copy()).unwrap()
    }

    fn append(
        &mut self,
        payloads: Vec<SessionEntryPayload>,
        usage: Usage,
    ) -> Result<Vec<SessionEntry>, String> {
        let header = SessionHeader {
            title: self.header.title.clone(),
            updated_at: self.header.updated_at,
            usage: self.header.usage,
            leaf_id: self.header.leaf_id.clone(),
        };
        let leaf = self.header.leaf_id.clone();
        let append = append_rows(self.copy(), payloads, &leaf, header, usage, 7)?;
        self.rows.extend(append.rows);
        self.header = append.header;
        Ok(append.entries)
    }

    fn clear(&mut self) {
        self.rows.clear();
        self.header = cleared(9);
    }
}

fn message_payload(message: ChatMessage) -> SessionEntryPayload {
    SessionEntryPayload::message(message, None)
}

fn user(text: &str) -> ChatMessage {
    ChatMessage::user_text(text.to_string())
}

#[test]
fn workspace_reasoning_preferences_only_store_model_overrides() {
    let path = preference_path(PathStyle::Posix, "/preferences", "/workspace-a");
    let other = preference_path(PathStyle::Posix, "/preferences", "/workspace-b");
    assert!(path != other);
    let preferences = WorkspacePreferences::none(path.clone());
    assert_eq!(preferences.effort("openai", "gpt-5"), None);
    let next = preferences.set_effort("openai", "gpt-5", "high", "low");
    assert_eq!(next.path(), path);
    let content = next.content().unwrap();

    let reloaded = WorkspacePreferences::from_json(path, &json(&content)).unwrap();
    assert_eq!(reloaded.effort("openai", "gpt-5"), Some("high"));
    let other = WorkspacePreferences::none(other);
    assert_eq!(other.effort("openai", "gpt-5"), None);

    let back = reloaded.set_effort("openai", "gpt-5", "low", "low");
    assert_eq!(back.effort("openai", "gpt-5"), None);
    assert!(back.content().is_none());
    assert!(WorkspacePreferences::from_json("x".to_string(), &json("7")).is_none());
}

#[test]
fn persists_lists_loads_and_clears_session() {
    let mut store = Rows::new("/w");
    let appended = store
        .append(
            vec![
                message_payload(user("第一条问题")),
                SessionEntryPayload::message_with_prompt(
                    ChatMessage {
                        role: Role::Assistant,
                        blocks: vec![Block::Text("回答".to_string())],
                    },
                    Usage::default(),
                    Some("sha256:test".to_string()),
                ),
                SessionEntryPayload::Notice(NoticeRecord {
                    text: "仅 UI 可见".to_string(),
                    level: NoticeLevel::Info,
                }),
            ],
            Usage {
                input_tokens: 12,
                output_tokens: 7,
                cache: Some(CacheUsage {
                    read_tokens: 8,
                    write_tokens: 3,
                }),
            },
        )
        .unwrap();
    assert_eq!(appended[0].parent_id, None);
    assert_eq!(appended[1].parent_id, Some(appended[0].id.clone()));
    assert_eq!(appended[2].parent_id, Some(appended[1].id.clone()));
    assert_eq!(store.header.title, "第一条问题");
    let kinds = store.rows.iter().map(|row| row.kind.clone()).collect();
    assert_eq!(count_messages(&kinds), 2, "Notice 不计入消息数");

    let loaded = store.load();
    assert_eq!(loaded.len(), 3);
    assert!(matches!(loaded[2].payload, SessionEntryPayload::Notice(_)));
    let (read, write) = usage_columns(store.header.usage);
    let usage = read_usage(
        store.header.usage.input_tokens,
        store.header.usage.output_tokens,
        read,
        write,
    );
    assert_eq!(usage.input_tokens, 12);
    assert_eq!(usage.cache.unwrap().read_tokens, 8);
    let SessionEntryPayload::Message(assistant) = &loaded[1].payload else {
        panic!("第二条事实应是 assistant message");
    };
    assert_eq!(assistant.prompt_fingerprint.as_deref(), Some("sha256:test"));
    store.clear();
    assert!(store.load().is_empty());
    store
        .append(vec![message_payload(user("再来"))], Usage::default())
        .unwrap();
}

#[test]
fn sessions_are_scoped_to_workspace() {
    let first = Rows::new("/first");
    let row = Some((first.workspace.clone(), None));
    assert!(check_owner(row.clone(), "id", "/db", "/first").is_ok());
    assert!(check_owner(row, "id", "/db", "/second").is_err());
    assert!(check_owner(None, "id", "/db", "/first").is_err());
}

#[test]
fn preserves_tool_messages_as_provider_neutral_json() {
    let mut store = Rows::new("/w");
    store
        .append(
            vec![
                message_payload(user("读取文件")),
                message_payload(ChatMessage {
                    role: Role::Assistant,
                    blocks: vec![
                        Block::Thinking {
                            text: "先读取".to_string(),
                            provider_kind: Some("responses".to_string()),
                            raw: Some(json("{\"id\": \"reasoning-1\"}")),
                        },
                        Block::ToolUse {
                            id: "call-1".to_string(),
                            name: "read_file".to_string(),
                            input: json("{\"path\": \"README.md\"}"),
                        },
                    ],
                }),
                message_payload(ChatMessage {
                    role: Role::User,
                    blocks: vec![Block::ToolResult {
                        tool_use_id: "call-1".to_string(),
                        content: "file body".to_string(),
                        is_error: false,
                    }],
                }),
            ],
            Usage::default(),
        )
        .unwrap();

    let loaded = store.load();
    assert_eq!(loaded.len(), 3);
    let SessionEntryPayload::Message(assistant) = &loaded[1].payload else {
        panic!("应为 Message 事实");
    };
    assert_eq!(assistant.message.tool_uses()[0].0, "call-1");
    assert!(matches!(
        &assistant.message.blocks[0],
        Block::Thinking { raw: Some(raw), .. } if equal(raw, &json("{\"id\": \"reasoning-1\"}"))
    ));
}

#[test]
fn half_tool_batches_are_rejected_at_commit() {
    let mut store = Rows::new("/w");
    let orphan = message_payload(ChatMessage {
        role: Role::Assistant,
        blocks: vec![Block::ToolUse {
            id: "call-1".to_string(),
            name: "read_file".to_string(),
            input: json("{}"),
        }],
    });
    assert!(store.append(vec![orphan], Usage::default()).is_err());
    let appended = store
        .append(vec![message_payload(user("ok"))], Usage::default())
        .unwrap();
    assert_eq!(appended[0].parent_id, None);
}

#[test]
fn plan_facts_are_validated_atomically_at_commit() {
    let mut store = Rows::new("/w");
    let invalid = SessionEntryPayload::PlanUpdated(PlanSnapshot {
        revision: 2,
        items: vec![PlanItem {
            id: "inspect".to_string(),
            text: "Inspect the code".to_string(),
            status: PlanStatus::InProgress,
        }],
        explanation: None,
    });
    assert!(store
        .append(
            vec![
                message_payload(user("before")),
                invalid,
                message_payload(user("after")),
            ],
            Usage::default(),
        )
        .is_err());

    let valid = SessionEntryPayload::PlanUpdated(PlanSnapshot {
        revision: 1,
        items: Vec::new(),
        explanation: Some("clear".to_string()),
    });
    let appended = store.append(vec![valid], Usage::default()).unwrap();
    assert_eq!(appended.len(), 1, "rejected batch must leave no entries");
    assert_eq!(
        appended[0].parent_id, None,
        "leaf must not advance on failure"
    );

    let loaded = store.load();
    assert_eq!(loaded.len(), 1);
    assert!(matches!(
        loaded[0].payload,
        SessionEntryPayload::PlanUpdated(PlanSnapshot { revision: 1, .. })
    ));
}

#[test]
fn v1_databases_migrate_to_entries_preserving_order() {
    let rows = [
        encode_message(&user("旧问题")).print(),
        encode_message(&ChatMessage {
            role: Role::Assistant,
            blocks: vec![Block::Text("旧回答".to_string())],
        })
        .print(),
    ];
    assert_eq!(
        plan_schema(0, true),
        SchemaPlan::Upgrade { migrate: true }
    );
    let messages = read_messages(
        rows.iter()
            .map(|row| MessageRow {
                sequence: 1,
                payload: row.clone(),
            })
            .collect(),
    )
    .unwrap();
    let entries = migrate_messages(messages, vec!["a".to_string(), "b".to_string()], 100);
    assert_eq!(entries.len(), 2);
    assert_eq!(entries[0].parent_id, None);
    assert_eq!(entries[1].parent_id, Some(entries[0].id.clone()));
    let SessionEntryPayload::Message(first) = &entries[0].payload else {
        panic!("应迁移成 Message 事实");
    };
    assert_eq!(first.message.text(), "旧问题");
    assert_eq!(first.usage, None, "v1 无逐消息 usage");
}

#[test]
fn failed_migration_rolls_back_and_keeps_v1_database() {
    let good = encode_message(&user("好消息")).print();
    let error = read_messages(vec![
        MessageRow {
            sequence: 1,
            payload: good,
        },
        MessageRow {
            sequence: 2,
            payload: "{not json".to_string(),
        },
    ])
    .unwrap_err();
    assert!(error.contains("迁移中止"));
    assert_eq!(error, "v1 消息 #2 无法解析,迁移中止");
}

#[test]
fn v2_schema_gains_nullable_cache_usage_columns() {
    assert_eq!(
        plan_schema(2, false),
        SchemaPlan::Upgrade { migrate: false }
    );
    assert_eq!(plan_schema(4, false), SchemaPlan::Ready);
    assert!(counts_facts(2));
    assert!(!counts_facts(0));
    assert_eq!(read_usage(1, 2, None, None).cache, None);
}

#[test]
fn one_unreadable_row_makes_a_session_unreadable() {
    let row = |payload: String| Row {
        id: "a".to_string(),
        parent_id: None,
        kind: "message".to_string(),
        payload,
        created_at: 1,
    };
    let good = write_fact(&message_payload(user("hi")));
    assert_eq!(read_rows(vec![row(good.clone())]).unwrap().len(), 1);
    assert_eq!(
        read_rows(vec![row(good), row("{}".to_string())]).unwrap_err(),
        "会话数据库含有无法解析的事实"
    );
}

#[test]
fn facts_are_stored_under_their_kind() {
    let row = write_fact(&message_payload(user("hi")));
    let stored = json(&row);
    assert_eq!(stored.get("type").and_then(|v| v.as_str()), Some("message"));
    let notice = SessionEntryPayload::Notice(NoticeRecord {
        text: "x".to_string(),
        level: NoticeLevel::Warning,
    });
    assert!(matches!(
        read_fact(&write_fact(&notice)).unwrap(),
        SessionEntryPayload::Notice(NoticeRecord { level: NoticeLevel::Warning, .. })
    ));
}

fn summary(id: &str, updated_at: i64) -> SessionSummary {
    SessionSummary {
        id: id.to_string(),
        title: String::new(),
        message_count: 0,
        updated_at,
    }
}

#[test]
fn sessions_are_listed_newest_first_and_found_by_prefix() {
    let sorted = sort_sessions(vec![
        summary("abc1", 1),
        summary("abd2", 3),
        summary("xyz3", 2),
    ]);
    let ids: Vec<&str> = sorted.iter().map(|s| s.id.as_str()).collect();
    assert_eq!(ids, ["abd2", "xyz3", "abc1"]);
    assert_eq!(resolve_id(&sorted, "x").unwrap(), "xyz3");
    assert!(resolve_id(&sorted, "ab").is_err());
    assert!(resolve_id(&sorted, "q").is_err());
}

#[test]
fn data_lies_below_one_root() {
    let around = |app_home: Option<&str>, data_home: Option<&str>, home: Option<&str>| {
        AppPaths::discover(
            PathStyle::Posix,
            Surroundings {
                app_home: app_home.map(|s| s.to_string()),
                data_home: data_home.map(|s| s.to_string()),
                home: home.map(|s| s.to_string()),
            },
        )
    };
    assert_eq!(around(Some("/x"), Some("/d"), None).unwrap().root, "/x");
    assert_eq!(
        around(Some(""), Some("/d"), None).unwrap().root,
        "/d/onemore"
    );
    let paths = around(None, None, Some("/home/u")).unwrap();
    assert_eq!(paths.root, "/home/u/.local/share/onemore");
    assert_eq!(paths.config, "/home/u/.local/share/onemore/config.toml");
    assert!(around(None, None, None).is_err());
    assert_eq!(workspace_key(PathStyle::Windows, r"E:\Proj"), r"e:\proj");
    assert_eq!(workspace_key(PathStyle::Posix, "/Proj"), "/Proj");
}

#[test]
fn stored_preferences_read_back() {
    let first = WorkspacePreferences::none("/p".to_string());
    let next = first
        .set_effort("a", "m", "high", "low")
        .set_effort("a", "n", "low", "high")
        .set_effort("b", "m", "\"quoted\"", "low");
    let again =
        WorkspacePreferences::from_json("/p".to_string(), &json(&next.content().unwrap())).unwrap();
    for provider in ["a", "b", "c"] {
        for model in ["m", "n", "o"] {
            assert_eq!(again.effort(provider, model), next.effort(provider, model));
        }
    }
    assert_eq!(again.effort("b", "m"), Some("\"quoted\""));
}

#[test]
fn appended_facts_load_behind_the_stored_ones() {
    let mut store = Rows::new("/w");
    store
        .append(vec![message_payload(user("one"))], Usage::default())
        .unwrap();
    let leaf = store.header.leaf_id.clone();
    let usage = Usage {
        input_tokens: 3,
        output_tokens: 4,
        cache: None,
    };
    let added = store
        .append(
            vec![message_payload(user("two")), message_payload(user("three"))],
            usage,
        )
        .unwrap();
    assert_eq!(added[0].parent_id, leaf);
    assert_eq!(added[1].parent_id, Some(added[0].id.clone()));
    let loaded = store.load();
    let ids: Vec<&String> = loaded.iter().map(|entry| &entry.id).collect();
    assert_eq!(ids[1..], [&added[0].id, &added[1].id]);
    assert_eq!(store.header.usage, usage);

    let orphan = ChatMessage {
        role: Role::Assistant,
        blocks: vec![Block::ToolUse {
            id: "x".to_string(),
            name: "t".to_string(),
            input: json("{}"),
        }],
    };
    let before = store.header.leaf_id.clone();
    assert_eq!(
        store
            .append(vec![message_payload(orphan)], Usage::default())
            .unwrap_err(),
        "事务中的 ToolUse x 必须恰好配对一个 ToolResult"
    );
    assert_eq!(store.load().len(), 3);
    assert_eq!(store.header.leaf_id, before);
    assert_eq!(store.header.usage, usage);
    assert!(store.append(Vec::new(), Usage::default()).unwrap().is_empty());
    assert_eq!(store.header.usage, usage);
}

#[test]
fn broken_preferences_are_refused() {
    let read = |text: &str| WorkspacePreferences::parse("/p".to_string(), text);
    assert!(read("{").is_err());
    assert_eq!(read("7").unwrap_err(), "reasoning_efforts 的格式无效");
    assert!(read("{\"reasoning_efforts\": null}").is_err());
    assert!(read("[{}, {}]").is_err());
    assert!(read("[]").unwrap().reasoning_efforts().is_empty());
    let listed = read("[{\"a\": {\"m\": \"high\"}}]").unwrap();
    assert_eq!(listed.effort("a", "m"), Some("high"));
    let held = read("{\"reasoning_efforts\": {\"a\": {\"m\": \"high\"}}}").unwrap();
    assert_eq!(held.effort("a", "m"), Some("high"));
    assert_eq!(held.path(), "/p");
}

#[test]
fn preferences_are_listed_by_name() {
    let preferences = WorkspacePreferences::none("/p".to_string())
        .set_effort("b", "n", "high", "low")
        .set_effort("b", "m", "low", "high")
        .set_effort("a", "x", "high", "low");
    let pair = |model: &str, effort: &str| (model.to_string(), effort.to_string());
    assert_eq!(
        preferences.reasoning_efforts(),
        vec![
            ("a".to_string(), vec![pair("x", "high")]),
            ("b".to_string(), vec![pair("m", "low"), pair("n", "high")]),
        ]
    );
}

#[test]
fn preference_files_are_named_by_a_known_hash() {
    assert_eq!(
        preference_path(PathStyle::Posix, "/d", "/workspace-a"),
        "/d/42014dc2664ed3076eb17b02a65598dde9b0f7794002ab46210476d7de104a0f.json"
    );
}

#[test]
fn deep_and_fractional_arguments_read_back() {
    let deep = format!("{}1{}", "[".repeat(121), "]".repeat(121));
    for text in [deep.as_str(), "{\"share\": 0.25, \"low\": -0.0}"] {
        let mut store = Rows::new("/w");
        let message = ChatMessage {
            role: Role::Assistant,
            blocks: vec![Block::ToolUse {
                id: "c".to_string(),
                name: "t".to_string(),
                input: json(text),
            }],
        };
        let answer = ChatMessage {
            role: Role::User,
            blocks: vec![Block::ToolResult {
                tool_use_id: "c".to_string(),
                content: "ok".to_string(),
                is_error: false,
            }],
        };
        store
            .append(vec![message_payload(message), message_payload(answer)], Usage::default())
            .unwrap();
        let loaded = store.load();
        let SessionEntryPayload::Message(record) = &loaded[0].payload else {
            panic!("no message");
        };
        assert!(matches!(
            &record.message.blocks[0],
            Block::ToolUse { input, .. } if equal(input, &json(text))
        ));
    }
}
