use onemore::event::{AgentCommand, AgentEvent};
use onemore::permission::{ApprovalDecision, ApprovalRequest, ApprovalResponse, ApprovalScope};
use onemore::storage::SessionSummary;
use onemore::time::Duration;
use onemore::tools::ToolOutput;
use onemore::tui::app::{short_id, App, Output, Overlay, PickerKind};
use onemore::tui::cells::clear_wide_continuation_cells;
use onemore::tui::command::{find, SlashCommand};
use onemore::tui::input::InputBox;
use onemore::tui::keys::{enter_means_newline, Held, Key, Pending};
use onemore::tui::picker::{Picker, PickerItem};
use onemore::tui::transcript::Cell;
use onemore::tui::wrap::wrap;

const NONE: Held = Held {
    shift: false,
    alt: false,
    control: false,
};

const CONTROL: Held = Held {
    shift: false,
    alt: false,
    control: true,
};

fn dummy_app() -> App {
    App::new(
        "mock / test-model".to_string(),
        "12345678-1234-1234-1234-123456789abc".to_string(),
        vec!["mock".to_string()],
        vec!["test-model".to_string(), "other-model".to_string()],
    )
}

fn press(app: &mut App, key: Key) {
    app.on_key(key, NONE, false, Duration::from_secs(1));
}

fn write(app: &mut App, text: &str) {
    for c in text.chars() {
        press(app, Key::Char(c));
    }
}

fn one_command(app: &mut App) -> AgentCommand {
    let mut out = app.take_output();
    assert_eq!(out.len(), 1);
    match out.remove(0) {
        Output::Command(command) => command,
        other => panic!("{:?}", other),
    }
}

fn one_answer(app: &mut App) -> ApprovalResponse {
    let mut out = app.take_output();
    assert_eq!(out.len(), 1);
    match out.remove(0) {
        Output::Approval(response) => response,
        other => panic!("{:?}", other),
    }
}

#[test]
fn a_turn_is_shown_as_it_goes() {
    let mut app = dummy_app();
    for event in [
        AgentEvent::UserMessage("读一下 main.rs,中文也要能换行显示".to_string()),
        AgentEvent::TurnStarted,
        AgentEvent::ThinkingDelta("让我想想……".to_string()),
        AgentEvent::AssistantDelta("好的,".to_string()),
        AgentEvent::AssistantDelta("我来读取。".to_string()),
        AgentEvent::ToolCallPending {
            name: "read_file".to_string(),
        },
        AgentEvent::ToolCallStarted {
            id: "t1".to_string(),
            name: "read_file".to_string(),
            summary: "path=src/main.rs".to_string(),
        },
    ] {
        app.on_agent_event(event);
    }
    assert!(app.busy);
    app.on_agent_event(AgentEvent::ToolCallFinished {
        id: "t1".to_string(),
        name: "read_file".to_string(),
        output: ToolOutput::text("1 | line".to_string()),
        error: None,
    });
    app.on_agent_event(AgentEvent::Usage {
        input_tokens: 1234,
        output_tokens: 567,
        cache: None,
    });
    app.on_agent_event(AgentEvent::AssistantMessage("完成了。".to_string()));
    app.on_agent_event(AgentEvent::Error("演示一个错误".to_string()));
    app.on_agent_event(AgentEvent::TurnFinished { cancelled: false });
    assert!(!app.busy);
    assert_eq!(app.usage, (1234, 567));
    assert!(app.tokens().contains("1.2k"));
    let cells = &app.transcript.cells;
    assert!(matches!(&cells[0], Cell::User(t) if t.contains("main.rs")));
    assert!(matches!(&cells[1], Cell::Thinking { open: false, .. }));
    assert!(matches!(
        &cells[2],
        Cell::Assistant { text, open: false } if text == "好的,我来读取。"
    ));
    assert!(matches!(
        &cells[3],
        Cell::Tool { result: Some(end), open: false, .. } if !end.is_error
    ));
    assert!(matches!(&cells[4], Cell::Assistant { text, .. } if text == "完成了。"));
    assert!(matches!(&cells[5], Cell::Error(_)));
}

#[test]
fn scroll_is_clamped() {
    let mut app = dummy_app();
    for i in 0..50 {
        app.on_agent_event(AgentEvent::Notice(format!("第 {} 条", i)));
    }
    app.scroll_up = 10_000;
    app.clamp_scroll(100, 18);
    assert!(app.scroll_up < 10_000);
    assert_eq!(app.scroll_up, 82);
}

#[test]
fn enter_submits() {
    let mut app = dummy_app();
    write(&mut app, "你好");
    press(&mut app, Key::Enter);
    match one_command(&mut app) {
        AgentCommand::UserInput(t) => assert_eq!(t, "你好"),
        other => panic!("应收到 UserInput,得到 {:?}", other),
    }
}

#[test]
fn session_slash_commands_are_forwarded() {
    let mut app = dummy_app();
    app.handle_slash("session");
    assert!(matches!(one_command(&mut app), AgentCommand::ListSessions));

    app.handle_slash("session abc12345");
    match one_command(&mut app) {
        AgentCommand::LoadSession(id) => assert_eq!(id, "abc12345"),
        other => panic!("应收到 LoadSession，得到 {:?}", other),
    }
}

#[test]
fn session_list_becomes_an_interactive_picker() {
    let mut app = dummy_app();
    app.handle_slash("session");
    assert!(matches!(one_command(&mut app), AgentCommand::ListSessions));
    assert!(matches!(
        app.overlay,
        Some(Overlay::Loading {
            kind: PickerKind::Session,
            ..
        })
    ));

    app.on_agent_event(AgentEvent::SessionsListed {
        current_id: "current-session".to_string(),
        sessions: vec![
            SessionSummary {
                id: "current-session".to_string(),
                title: "当前工作".to_string(),
                message_count: 8,
                updated_at: 2,
            },
            SessionSummary {
                id: "older-session".to_string(),
                title: "旧会话".to_string(),
                message_count: 3,
                updated_at: 1,
            },
        ],
    });
    assert!(matches!(
        app.overlay,
        Some(Overlay::Picker {
            kind: PickerKind::Session,
            ..
        })
    ));

    press(&mut app, Key::Down);
    press(&mut app, Key::Enter);
    assert!(matches!(
        one_command(&mut app),
        AgentCommand::LoadSession(id) if id == "older-session"
    ));
}

#[test]
fn backslash_enter_continues_line() {
    let mut app = dummy_app();
    write(&mut app, "第一行\\");
    press(&mut app, Key::Enter);
    assert!(app.take_output().is_empty(), "续行不应发送");
    write(&mut app, "第二行");
    press(&mut app, Key::Enter);
    match one_command(&mut app) {
        AgentCommand::UserInput(t) => assert_eq!(t, "第一行\n第二行"),
        other => panic!("应收到 UserInput,得到 {:?}", other),
    }
}

#[test]
fn slash_popup_navigates_completes_and_dispatches() {
    let mut app = dummy_app();
    press(&mut app, Key::Char('/'));
    press(&mut app, Key::Char('p'));
    assert_eq!(app.selected_slash_command().unwrap().name, "provider");

    press(&mut app, Key::Tab);
    assert_eq!(app.input.text(), "/provider ");
    write(&mut app, "mock");
    press(&mut app, Key::Enter);
    assert!(app.overlay.is_none());
    assert!(matches!(
        one_command(&mut app),
        AgentCommand::SwitchProvider(name) if name == "mock"
    ));
}

#[test]
fn provider_picker_sends_selected_provider() {
    let mut app = dummy_app();
    app.handle_slash("provider");
    assert!(matches!(
        app.overlay,
        Some(Overlay::Picker {
            kind: PickerKind::Provider,
            ..
        })
    ));
    press(&mut app, Key::Enter);
    match one_command(&mut app) {
        AgentCommand::SwitchProvider(name) => assert_eq!(name, "mock"),
        other => panic!("应收到 SwitchProvider,得到 {:?}", other),
    }
}

#[test]
fn model_picker_supports_custom_model_input() {
    let mut app = dummy_app();
    app.handle_slash("model");
    press(&mut app, Key::Down);
    press(&mut app, Key::Down);
    press(&mut app, Key::Enter);
    assert!(matches!(app.overlay, Some(Overlay::ModelInput(_))));
    write(&mut app, "new-model");
    press(&mut app, Key::Enter);
    match one_command(&mut app) {
        AgentCommand::SetModel(model) => assert_eq!(model, "new-model"),
        other => panic!("应收到 SetModel,得到 {:?}", other),
    }
}

#[test]
fn approval_overlay_uses_the_dedicated_response_channel() {
    let mut app = dummy_app();
    app.on_agent_event(AgentEvent::PermissionRequested {
        request: ApprovalRequest {
            request_id: "approval-once".to_string(),
            tool: "dynamic_tool".to_string(),
            summary: "action=true".to_string(),
            reason: "external side effect".to_string(),
            scopes: vec![ApprovalScope::Once, ApprovalScope::Session],
        },
    });
    assert!(matches!(app.overlay, Some(Overlay::Approval(_))));
    press(&mut app, Key::Enter);
    assert_eq!(
        one_answer(&mut app),
        ApprovalResponse {
            request_id: "approval-once".to_string(),
            decision: ApprovalDecision::Allow(ApprovalScope::Once),
        }
    );
    assert!(app.overlay.is_none());

    app.on_agent_event(AgentEvent::PermissionRequested {
        request: ApprovalRequest {
            request_id: "approval-deny".to_string(),
            tool: "dynamic_tool".to_string(),
            summary: String::new(),
            reason: "ask".to_string(),
            scopes: vec![ApprovalScope::Once],
        },
    });
    press(&mut app, Key::Esc);
    assert_eq!(
        one_answer(&mut app),
        ApprovalResponse {
            request_id: "approval-deny".to_string(),
            decision: ApprovalDecision::Deny,
        }
    );
}

#[test]
fn only_offered_scopes_can_be_given() {
    let mut app = dummy_app();
    app.on_agent_event(AgentEvent::PermissionRequested {
        request: ApprovalRequest {
            request_id: "r".to_string(),
            tool: "t".to_string(),
            summary: String::new(),
            reason: "ask".to_string(),
            scopes: vec![ApprovalScope::Once],
        },
    });
    press(&mut app, Key::Char('s'));
    assert!(app.take_output().is_empty());
    assert!(matches!(app.overlay, Some(Overlay::Approval(_))));
}

#[test]
fn slash_and_picker_views_render_expected_content() {
    let mut app = dummy_app();
    app.input.set("/mo".to_string());
    let offered: Vec<&str> = app.slash_matches().iter().map(|c| c.name).collect();
    assert!(offered.contains(&"model"));

    app.handle_slash("model");
    let Some(Overlay::Picker { picker, .. }) = &app.overlay else {
        panic!("{:?}", app.overlay);
    };
    assert!(picker.title.contains("选择模型"));
    assert!(picker
        .visible()
        .iter()
        .any(|item| item.label.contains("自定义模型")));
}

#[test]
fn scrollback_buffer_clears_wide_character_continuations() {
    let row: Vec<String> = ["完", " ", "成", " ", " ", " ", " ", " "]
        .iter()
        .map(|s| s.to_string())
        .collect();
    let cleaned = clear_wide_continuation_cells(row);
    assert_eq!(cleaned[0], "完");
    assert_eq!(cleaned[1], "");
    assert_eq!(cleaned[2], "成");
    assert_eq!(cleaned[3], "");
    assert_eq!(cleaned[4], " ");
    assert_eq!(cleaned.len(), 8);
}

#[test]
fn pressing_twice_leaves() {
    let mut app = dummy_app();
    app.on_key(Key::Char('c'), CONTROL, false, Duration::from_secs(1));
    assert!(!app.should_quit);
    app.on_key(Key::Char('c'), CONTROL, false, Duration::from_secs(2));
    assert!(app.should_quit);

    let mut late = dummy_app();
    late.on_key(Key::Char('c'), CONTROL, false, Duration::from_secs(1));
    assert!(late.expire_quit(Duration::from_secs(4)));
    late.on_key(Key::Char('c'), CONTROL, false, Duration::from_secs(4));
    assert!(!late.should_quit);
}

#[test]
fn drafts_come_back_from_the_history() {
    let mut app = dummy_app();
    write(&mut app, "first");
    press(&mut app, Key::Enter);
    app.take_output();
    write(&mut app, "draft");
    press(&mut app, Key::Up);
    assert_eq!(app.input.text(), "first");
    press(&mut app, Key::Down);
    assert_eq!(app.input.text(), "draft");
}

#[test]
fn unknown_commands_are_reported() {
    let mut app = dummy_app();
    app.handle_slash("nothing");
    assert!(app.take_output().is_empty());
    assert!(!app.transcript.cells.is_empty());
    assert!(matches!(find("help"), Some(SlashCommand::Help)));
    assert!(find("nothing").is_none());
    app.handle_slash("queue 后续");
    assert!(matches!(
        one_command(&mut app),
        AgentCommand::FollowUp(t) if t == "后续"
    ));
}

#[test]
fn pasted_lines_are_not_sent() {
    let mut app = dummy_app();
    app.on_paste("a\nb");
    assert_eq!(app.input.text(), "a\nb");
    assert!(app.take_output().is_empty());
    assert!(!enter_means_newline(&Vec::new()));
    assert!(enter_means_newline(&vec![Pending::Press(Key::Char('x'))]));
    assert!(app.looks_ahead(Key::Enter, NONE));
}

#[test]
fn editing_moves_by_words_and_lines() {
    let mut input = InputBox::default();
    input.insert_str("一二 ab\ncd");
    assert!(input.is_multiline());
    input.backspace();
    assert_eq!(input.text(), "一二 ab\nc");
    input.insert_char('d');
    input.backspace();
    assert_eq!(input.text(), "一二 ab\nc");
    input.move_vertical(true);
    input.move_end();
    input.delete_word_left();
    assert_eq!(input.text(), "一二 \nc");
    input.move_home();
    input.delete_to_line_end();
    assert_eq!(input.text(), "\nc");
    input.delete();
    assert_eq!(input.text(), "c");
    input.move_left();
    assert_eq!(input.cursor(), 0);
    input.move_end_all();
    assert_eq!(input.take(), "c");
    assert!(input.is_empty());
}

#[test]
fn pickers_filter_and_turn_round() {
    let item = |label: &str| PickerItem {
        label: label.to_string(),
        description: String::new(),
        value: Some(label.to_string()),
        current: false,
    };
    let mut picker = Picker::new("t".to_string(), vec![item("one"), item("two")]);
    assert_eq!(picker.visible().len(), 2);
    picker.move_up();
    assert_eq!(picker.selected().unwrap().label, "two");
    picker.move_down();
    assert_eq!(picker.selected().unwrap().label, "one");
    picker.push_filter('T');
    assert_eq!(picker.visible().len(), 1);
    assert_eq!(picker.selected().unwrap().label, "two");
    picker.pop_filter();
    assert_eq!(picker.visible().len(), 2);
}

#[test]
fn ids_are_shown_short() {
    assert_eq!(short_id("12345678-1234"), "12345678");
    assert_eq!(short_id("123"), "123");
}

#[test]
fn typed_text_goes_before_the_program_does() {
    let mut app = dummy_app();
    write(&mut app, "a");
    app.on_key(Key::Char('c'), CONTROL, false, Duration::from_secs(1));
    assert_eq!(app.input.text(), "");
    assert!(!app.should_quit);
    assert!(app.take_output().is_empty());
    app.on_key(Key::Char('c'), CONTROL, false, Duration::from_secs(2));
    assert!(app.should_quit);
    let output = app.take_output();
    assert_eq!(output.len(), 2);
    assert!(matches!(output[0], Output::Cancel));
    assert!(matches!(output[1], Output::Command(AgentCommand::Shutdown)));
}

#[test]
fn pressing_twice_leaves_from_an_overlay() {
    let mut app = dummy_app();
    app.overlay = Some(Overlay::ModelInput(InputBox::default()));
    app.on_key(Key::Char('c'), CONTROL, false, Duration::from_secs(1));
    assert!(!app.should_quit);
    app.on_key(Key::Char('c'), CONTROL, false, Duration::from_secs(2));
    assert!(app.should_quit);

    let mut loading = dummy_app();
    loading.overlay = Some(Overlay::Loading {
        kind: PickerKind::Session,
        title: "t".to_string(),
    });
    loading.on_key(Key::Char('c'), CONTROL, false, Duration::from_secs(1));
    assert!(loading.overlay.is_none());
    assert!(!loading.should_quit);
    loading.on_key(Key::Char('c'), CONTROL, false, Duration::from_secs(2));
    assert!(loading.should_quit);
}

#[test]
fn text_is_cut_into_rows() {
    assert_eq!(wrap("abcde", 2), ["ab", "cd", "e"]);
    assert_eq!(wrap("a\nb\n", 9), ["a", "b", ""]);
    assert_eq!(wrap("", 3), [""]);
    assert_eq!(wrap("完成了", 5), ["完成", "了"]);
    assert_eq!(wrap("完a", 1), ["完", "a"]);
}

#[test]
fn the_cursor_stays_in_view() {
    let mut input = InputBox::default();
    for c in "abcdefgh".chars() {
        input.insert_char(c);
    }
    let view = input.view(3, 2);
    assert_eq!(view.rows, ["def", "gh"]);
    assert_eq!(view.total_rows, 3);
    assert_eq!((view.cursor_row, view.cursor_col), (1, 2));
    input.move_start();
    let view = input.view(3, 2);
    assert_eq!(view.rows, ["abc", "def"]);
    assert_eq!((view.cursor_row, view.cursor_col), (0, 0));
}
