use std::sync::atomic::{AtomicBool, AtomicUsize, Ordering};
use std::sync::Arc;

use onemore::json::{equal, Json};
use onemore::plan::{PlanItem, PlanSnapshot, PlanStatus};
use onemore::tools::list_dir::{fmt_size, ListDir, Listing};
use onemore::tools::read_file::{ReadFile, ReadRequest};
use onemore::tools::run_command::{
    build_invocation, detect_shell, CommandRun, Ending, Pipe, PipeChunk, RunCommand, Shell, Waited,
};
use onemore::tools::schema::validate_json_schema;
use onemore::tools::update_plan::UpdatePlan;
use onemore::tools::write_file::WriteFile;
use onemore::tools::{
    optional_u64, require_str, sanitize_and_bound, Tool, ToolCapabilities, ToolContext,
    ToolEffect, ToolError, ToolErrorCode, ToolOutput, ToolPermissionSpec, ToolRegistry, ToolSpec,
};
use onemore::workspace::{DirItem, Workspace};

fn json(text: &str) -> Json {
    Json::parse(text).unwrap()
}

fn no_plan() -> PlanSnapshot {
    PlanSnapshot {
        revision: 0,
        items: Vec::new(),
        explanation: None,
    }
}

fn context<'a>(workspace: &'a Workspace, cancel: &'a AtomicBool) -> ToolContext<'a> {
    ToolContext {
        workspace,
        cancel,
        session_id: "session-1",
        current_plan: no_plan(),
        progress: Vec::new(),
        effects: Vec::new(),
    }
}

enum TestTool {
    Typed {
        name: String,
        fail: bool,
    },
    Preflight {
        prepares: Arc<AtomicUsize>,
        executes: Arc<AtomicUsize>,
    },
    Progress,
}

impl Tool for TestTool {
    fn spec(&self) -> ToolSpec {
        let (name, schema, capabilities) = match self {
            TestTool::Typed { name, .. } => (
                name.clone(),
                "{\"type\": \"object\"}",
                ToolCapabilities::read_only(),
            ),
            TestTool::Preflight { .. } => (
                "preflight".to_string(),
                "{\"type\": \"object\", \"additionalProperties\": false, \"properties\": {\"name\": {\"type\": \"string\", \"minLength\": 1}, \"count\": {\"type\": \"integer\", \"minimum\": 1, \"maximum\": 3}}, \"required\": [\"name\", \"count\"]}",
                ToolCapabilities::mutation(),
            ),
            TestTool::Progress => (
                "progress".to_string(),
                "{\"type\": \"object\"}",
                ToolCapabilities::read_only(),
            ),
        };
        ToolSpec {
            name,
            description: "test tool".to_string(),
            schema: json(schema),
            capabilities,
            permission: ToolPermissionSpec::default(),
        }
    }

    fn prepare_arguments(&self, args: Json) -> Result<Json, ToolError> {
        if let TestTool::Preflight { prepares, .. } = self {
            prepares.fetch_add(1, Ordering::Relaxed);
            if let Some(legacy) = args.get("legacy") {
                return Ok(Json::Object(vec![
                    ("count".to_string(), json("2")),
                    ("name".to_string(), legacy.clone()),
                ]));
            }
        }
        Ok(args)
    }

    fn execute(&self, args: &Json, ctx: &mut ToolContext<'_>) -> Result<ToolOutput, ToolError> {
        match self {
            TestTool::Typed { fail, .. } => {
                assert_eq!(ctx.session_id, "session-1");
                if *fail {
                    return Err(ToolError {
                        code: ToolErrorCode::Conflict,
                        message: "\u{1b}[31m冲突\u{1b}[0m".to_string(),
                        retryable: false,
                        details: Some(json("{\"source\": \"test\"}")),
                    });
                }
                Ok(ToolOutput {
                    model_text: "\u{1b}[32m模型正文\u{1b}[0m".to_string(),
                    ui_summary: Some("UI 摘要".to_string()),
                    details: Some(json("{\"count\": 1}")),
                })
            }
            TestTool::Preflight { executes, .. } => {
                executes.fetch_add(1, Ordering::Relaxed);
                Ok(ToolOutput::text(args.print()))
            }
            TestTool::Progress => {
                ctx.report_progress(ToolOutput {
                    model_text: "\u{1b}[31mworking\u{1b}[0m".to_string(),
                    ui_summary: Some("\u{1b}[32mone item\u{1b}[0m".to_string()),
                    details: Some(json("{\"completed\": 1}")),
                });
                Ok(ToolOutput::text("done".to_string()))
            }
        }
    }
}

#[test]
fn typed_output_keeps_model_ui_and_details_separate() {
    let registry = ToolRegistry::new(vec![TestTool::Typed {
        name: "dynamic_name".to_string(),
        fail: false,
    }]);
    let workspace = Workspace::new(".".to_string());
    let cancel = AtomicBool::new(false);
    let outcome = registry.execute(
        "dynamic_name",
        &json("{}"),
        &mut context(&workspace, &cancel),
    );

    assert!(!outcome.is_error());
    assert_eq!(outcome.output.model_text, "模型正文");
    assert_eq!(outcome.output.ui_text(), "UI 摘要");
    assert!(equal(
        outcome.output.details.as_ref().unwrap(),
        &json("{\"count\": 1}")
    ));
    assert_eq!(
        registry.specs()[0].capabilities,
        ToolCapabilities::read_only()
    );
}

#[test]
fn typed_error_code_survives_observation_conversion() {
    let registry = ToolRegistry::new(vec![TestTool::Typed {
        name: "fails".to_string(),
        fail: true,
    }]);
    let workspace = Workspace::new(".".to_string());
    let cancel = AtomicBool::new(false);
    let outcome = registry.execute("fails", &json("{}"), &mut context(&workspace, &cancel));

    assert_eq!(outcome.output.model_text, "冲突");
    let error = outcome.error.unwrap();
    assert_eq!(error.code, ToolErrorCode::Conflict);
    assert!(equal(
        error.details.as_ref().unwrap(),
        &json("{\"source\": \"test\"}")
    ));
}

#[test]
fn unknown_tool_has_stable_error_code() {
    let registry: ToolRegistry<TestTool> = ToolRegistry::new(Vec::new());
    let workspace = Workspace::new(".".to_string());
    let cancel = AtomicBool::new(false);
    let outcome = registry.execute("missing", &json("{}"), &mut context(&workspace, &cancel));
    assert_eq!(outcome.error.unwrap().code, ToolErrorCode::UnknownTool);
}

#[test]
fn schema_failures_never_reach_execute() {
    let prepares = Arc::new(AtomicUsize::new(0));
    let executes = Arc::new(AtomicUsize::new(0));
    let registry = ToolRegistry::new(vec![TestTool::Preflight {
        prepares: Arc::clone(&prepares),
        executes: Arc::clone(&executes),
    }]);
    let workspace = Workspace::new(".".to_string());
    let cancel = AtomicBool::new(false);

    for arguments in [
        "{\"count\": 1}",
        "{\"name\": \"ok\", \"count\": \"one\"}",
        "{\"name\": \"ok\", \"count\": 1, \"extra\": true}",
        "{\"name\": \"ok\", \"count\": 4}",
    ] {
        let outcome = registry.execute(
            "preflight",
            &json(arguments),
            &mut context(&workspace, &cancel),
        );
        assert_eq!(
            outcome.error.as_ref().map(|error| error.code),
            Some(ToolErrorCode::InvalidArguments),
            "arguments should fail: {}",
            arguments
        );
    }

    assert_eq!(prepares.load(Ordering::Relaxed), 4);
    assert_eq!(executes.load(Ordering::Relaxed), 0);
}

#[test]
fn compatibility_prepare_runs_before_validation_and_is_retained() {
    let prepares = Arc::new(AtomicUsize::new(0));
    let executes = Arc::new(AtomicUsize::new(0));
    let registry = ToolRegistry::new(vec![TestTool::Preflight {
        prepares: Arc::clone(&prepares),
        executes: Arc::clone(&executes),
    }]);

    let prepared = registry
        .prepare("preflight", &json("{\"legacy\": \"converted\"}"))
        .unwrap();

    assert!(equal(
        &prepared.arguments,
        &json("{\"name\": \"converted\", \"count\": 2}")
    ));
    assert_eq!(prepares.load(Ordering::Relaxed), 1);
    assert_eq!(executes.load(Ordering::Relaxed), 0);
}

#[test]
fn progress_is_structured_and_sanitized_within_execute() {
    let registry = ToolRegistry::new(vec![TestTool::Progress]);
    let workspace = Workspace::new(".".to_string());
    let cancel = AtomicBool::new(false);
    let mut ctx = context(&workspace, &cancel);
    let outcome = registry.execute("progress", &json("{}"), &mut ctx);
    let updates = ctx.progress;

    assert!(!outcome.is_error());
    assert_eq!(updates.len(), 1);
    assert_eq!(updates[0].model_text, "working");
    assert_eq!(updates[0].ui_text(), "one item");
    assert!(equal(
        updates[0].details.as_ref().unwrap(),
        &json("{\"completed\": 1}")
    ));
}

// ---- The plan ----

fn execute(
    args: &str,
    current_plan: PlanSnapshot,
) -> (Result<ToolOutput, ToolError>, Vec<ToolEffect>) {
    let workspace = Workspace::new("/tmp".to_string());
    let cancel = AtomicBool::new(false);
    let mut ctx = ToolContext {
        current_plan,
        ..context(&workspace, &cancel)
    };
    let result = UpdatePlan.execute(&json(args), &mut ctx);
    let effects = ctx.take_effects();
    (result, effects)
}

#[test]
fn emits_an_explicit_plan_effect() {
    let (result, effects) = execute(
        "{\"expected_revision\": 0, \"explanation\": \"Starting\", \"plan\": [{\"id\": \"inspect\", \"text\": \"Inspect code\", \"status\": \"in_progress\"}]}",
        no_plan(),
    );
    assert!(result.is_ok());
    assert_eq!(effects.len(), 1);
    let ToolEffect::PlanUpdated(snapshot) = &effects[0];
    assert_eq!(snapshot.revision, 1);
    assert_eq!(snapshot.items[0].status, PlanStatus::InProgress);
}

#[test]
fn rejects_stale_revisions_without_an_effect() {
    let (result, effects) = execute(
        "{\"expected_revision\": 0, \"plan\": []}",
        PlanSnapshot {
            revision: 2,
            ..no_plan()
        },
    );
    assert_eq!(result.unwrap_err().code, ToolErrorCode::Conflict);
    assert!(effects.is_empty());
}

#[test]
fn plans_have_at_most_one_item_under_way() {
    let (result, effects) = execute(
        "{\"expected_revision\": 0, \"plan\": [{\"id\": \"a\", \"text\": \"A\", \"status\": \"in_progress\"}, {\"id\": \"b\", \"text\": \"B\", \"status\": \"in_progress\"}]}",
        no_plan(),
    );
    assert_eq!(result.unwrap_err().code, ToolErrorCode::InvalidArguments);
    assert!(effects.is_empty());
    let plan = PlanSnapshot {
        revision: 1,
        items: vec![PlanItem {
            id: "a".to_string(),
            text: "A".to_string(),
            status: PlanStatus::Completed,
        }],
        explanation: None,
    };
    assert!(plan.is_ok());
    assert_eq!(plan.counts().completed, 1);
}

// ---- Arguments ----

#[test]
fn arguments_are_read_by_type() {
    let args = json("{\"path\": \"a\", \"n\": 3, \"bad\": \"x\"}");
    assert_eq!(require_str(&args, "path").unwrap(), "a");
    assert_eq!(
        require_str(&args, "n").unwrap_err().code,
        ToolErrorCode::InvalidArguments
    );
    assert_eq!(optional_u64(&args, "n").unwrap(), Some(3));
    assert_eq!(optional_u64(&args, "gone").unwrap(), None);
    assert!(optional_u64(&args, "bad").is_err());
}

#[test]
fn schemas_report_every_violation() {
    let schema = json("{\"type\": \"object\", \"properties\": {\"a\": {\"type\": \"string\", \"enum\": [\"x\"]}, \"b\": {\"type\": \"integer\", \"minimum\": 1, \"maximum\": 3}, \"c\": {\"type\": \"string\", \"minLength\": 2, \"maxLength\": 3}}, \"required\": [\"a\"], \"additionalProperties\": false}");
    let errors = |value: &str| match validate_json_schema(&schema, &json(value)) {
        Ok(()) => Vec::new(),
        Err(errors) => errors,
    };
    assert!(errors("{\"a\": \"x\", \"b\": 3, \"c\": \"中文\"}").is_empty());
    assert_eq!(errors("[]"), ["期望类型 object,实际为 array"]);
    assert_eq!(errors("{\"b\": 1}"), ["缺少必填字段 \"a\""]);
    assert_eq!(errors("{\"a\": \"x\", \"b\": 0}"), ["b: 数值不得小于 1"]);
    assert_eq!(errors("{\"a\": \"x\", \"b\": 4}"), ["b: 数值不得大于 3"]);
    assert_eq!(errors("{\"a\": \"x\", \"c\": \"中\"}"), ["c: 字符串长度不得小于 2"]);
    assert_eq!(errors("{\"a\": \"x\", \"c\": \"long\"}"), ["c: 字符串长度不得大于 3"]);
    assert_eq!(
        errors("{\"a\": \"y\", \"d\": 1}"),
        [
            "不允许额外字段 \"d\"",
            "a: 值不在 enum [String(\"x\")] 中"
        ]
    );
    assert_eq!(
        validate_json_schema(&json("3"), &json("3")).unwrap_err(),
        ["schema 必须是 object"]
    );
    assert_eq!(
        validate_json_schema(&json("{\"type\": \"odd\"}"), &json("3")).unwrap_err(),
        ["不支持的 schema type \"odd\""]
    );
}

#[test]
fn output_is_bounded() {
    let long = "字".repeat(100_000);
    let bounded = sanitize_and_bound(&long);
    assert!(bounded.chars().count() < 100_000);
    assert_eq!(sanitize_and_bound("a\u{7}b"), "ab");
}

// ---- Files ----

#[test]
fn pages_number_their_lines() {
    let workspace = Workspace::new("/w".to_string());
    let request = ReadFile
        .request(
            &json("{\"path\": \"a.txt\", \"offset\": 2, \"limit\": 1}"),
            &workspace,
        )
        .unwrap();
    assert_eq!(request.path, "/w/a.txt");
    let page = ReadFile
        .page(&workspace, &request, "one\ntwo\nthree\n")
        .unwrap();
    assert!(page.model_text.contains("2 | two"));
    assert!(!page.model_text.contains("three"));
    let beyond = ReadRequest {
        offset: 9,
        ..request
    };
    assert!(ReadFile.page(&workspace, &beyond, "one\n").is_err());
}

#[test]
fn writes_name_their_target() {
    let workspace = Workspace::new("/w".to_string());
    let request = WriteFile
        .request(&json("{\"path\": \"a.txt\", \"content\": \"x\"}"), &workspace)
        .unwrap();
    assert_eq!(request.path, "/w/a.txt");
    assert_eq!(request.content, "x");
    let fresh = WriteFile.report(&workspace, &request, false);
    let again = WriteFile.report(&workspace, &request, true);
    assert!(fresh.model_text.contains("a.txt"));
    assert!(fresh.model_text != again.model_text);
}

#[test]
fn sizes_are_shown_in_their_unit() {
    assert_eq!(fmt_size(12), "12 B");
    assert_eq!(fmt_size(1536), "1.5 KB");
    assert_eq!(fmt_size(3 * 1024 * 1024), "3.0 MB");
}

#[test]
fn listings_walk_the_tree() {
    let workspace = Workspace::new("/w".to_string());
    let request = ListDir.request(&json("{\"depth\": 2}"), &workspace).unwrap();
    assert_eq!(request.path, "/w");
    let mut listing = Listing::new("w".to_string(), 2, "/".to_string());
    listing.feed(
        "/w",
        1,
        vec![
            DirItem {
                name: "src".to_string(),
                is_dir: true,
                size: 0,
            },
            DirItem {
                name: "a.txt".to_string(),
                is_dir: false,
                size: 12,
            },
        ],
    );
    let descent = listing.advance().unwrap();
    assert_eq!(descent.dir, "/w/src");
    listing.feed(&descent.dir, descent.depth, Vec::new());
    assert!(listing.advance().is_none());
    let shown = listing.finish("w", 2);
    assert!(shown.model_text.contains("src/"));
    assert!(shown.model_text.contains("a.txt"));
    assert!(shown.model_text.contains("12 B"));
}

// ---- Commands ----

#[test]
fn shells_are_chosen_by_preference() {
    assert!(matches!(detect_shell("cmd", true, None), Shell::Cmd));
    assert!(matches!(
        detect_shell("auto", true, Some("bash.exe".to_string())),
        Shell::GitBash(_)
    ));
    assert!(matches!(
        detect_shell("auto", true, None),
        Shell::PowerShell
    ));
}

const SECOND: u64 = 1_000_000_000;

/// A process that prints some text at its start and exits at some time, if it is not killed.
fn run_process(
    tool: &RunCommand,
    args: &str,
    prints: &str,
    exits: Option<(u64, i32)>,
) -> (Result<ToolOutput, ToolError>, Vec<ToolOutput>, u64) {
    let workspace = Workspace::new("/tmp".to_string());
    let request = tool.request(&json(args), &workspace).unwrap();
    let mut run = CommandRun::new(request.timeout_secs);
    let mut reports = Vec::new();
    let mut chunks = vec![PipeChunk {
        pipe: Pipe::Stdout,
        bytes: prints.as_bytes().to_vec(),
    }];
    let mut now = 0;
    loop {
        let waited = match exits {
            Some((at, code)) if at <= now => Waited::Exited(Some(code)),
            _ => Waited::Running,
        };
        let tick = run.tick(&chunks, now, waited, false);
        chunks.clear();
        reports.extend(tick.report);
        if let Some(ending) = tick.ending {
            reports.extend(run.close(&Vec::new(), now));
            let result = tool.conclude(&run, ending, None, &request.command, "/tmp", now);
            return (result, reports, now);
        }
        now += SECOND / 20;
    }
}

#[test]
fn echo_roundtrip() {
    let tool = RunCommand::new(detect_shell("auto", false, None));
    let (r, _, _) = run_process(
        &tool,
        "{\"command\": \"echo hello-onemore\"}",
        "hello-onemore\n",
        Some((SECOND / 100, 0)),
    );
    assert!(r.unwrap().model_text.contains("hello-onemore"));
}

#[test]
fn nonzero_exit_is_error() {
    let tool = RunCommand::new(detect_shell("auto", false, None));
    let (r, _, _) = run_process(&tool, "{\"command\": \"exit 3\"}", "", Some((0, 3)));
    let error = r.unwrap_err();
    assert_eq!(error.code, ToolErrorCode::ProcessExit);
    assert!(error.message.contains("退出码 3"));
}

#[test]
fn timeout_kills() {
    let tool = RunCommand::new(detect_shell("auto", false, None));
    let (r, _, elapsed) = run_process(
        &tool,
        "{\"command\": \"sleep 30\", \"timeout_secs\": 2}",
        "",
        Some((30 * SECOND, 0)),
    );
    let error = r.unwrap_err();
    assert_eq!(error.code, ToolErrorCode::Timeout);
    assert!(error.message.contains("超时"));
    assert!(elapsed < 20 * SECOND);
}

#[test]
fn output_is_reported_before_command_settles() {
    let tool = RunCommand::new(detect_shell("auto", false, None));
    let (result, updates, _) = run_process(
        &tool,
        "{\"command\": \"echo progress-onemore; sleep 0.4\"}",
        "progress-onemore\n",
        Some((2 * SECOND / 5, 0)),
    );
    assert!(result.is_ok());
    assert!(updates
        .iter()
        .any(|update| update.model_text.contains("progress-onemore")));
    assert!(updates.iter().all(|update| update.details.is_some()));
}

#[test]
fn commands_end_by_exit_timeout_or_cancellation() {
    let mut run = CommandRun::new(1);
    let tick = run.tick(&Vec::new(), SECOND, Waited::Running, false);
    assert!(tick.ending.is_none());
    assert!(!tick.kill);
    let tick = run.tick(&Vec::new(), SECOND, Waited::Exited(Some(0)), false);
    assert!(matches!(tick.ending, Some(Ending::Exited(Some(0)))));
    assert!(!tick.kill);
    let tick = run.tick(&Vec::new(), SECOND + 1, Waited::Running, false);
    assert!(matches!(tick.ending, Some(Ending::TimedOut(1))));
    assert!(tick.kill);
    let tick = run.tick(&Vec::new(), SECOND + 1, Waited::Running, true);
    assert!(matches!(tick.ending, Some(Ending::Cancelled)));
    let tick = run.tick(
        &Vec::new(),
        SECOND + 1,
        Waited::Failed("lost".to_string()),
        false,
    );
    assert!(matches!(tick.ending, Some(Ending::WaitFailed(_))));
    let tool = RunCommand::new(Shell::Sh);
    let failed = tool.conclude(&run, Ending::Cancelled, None, "x", "/tmp", 5);
    assert_eq!(failed.unwrap_err().code, ToolErrorCode::Aborted);
    let pipes = Some("broken".to_string());
    let failed = tool.conclude(&run, Ending::Exited(Some(0)), pipes, "x", "/tmp", 5);
    assert_eq!(failed.unwrap_err().code, ToolErrorCode::Io);
}

#[test]
fn scripts_run_under_their_shell() {
    let invocation = build_invocation(&Shell::PowerShell, "echo hi", "/tmp/script.ps1");
    assert!(invocation.program.contains("powershell"));
    assert!(invocation.arguments.iter().any(|arg| arg.contains("script.ps1")));
    let tool = RunCommand::new(Shell::PowerShell);
    let workspace = Workspace::new("/w".to_string());
    let request = tool
        .request(&json("{\"command\": \"echo hi\"}"), &workspace)
        .unwrap();
    assert!(request.cwd.is_none());
    assert!(tool.request(&json("{}"), &workspace).is_err());
}

#[test]
fn declarations_are_sorted_by_name() {
    let names = ["write", "list", "read"];
    let registry = ToolRegistry::new(
        names
            .iter()
            .map(|name| TestTool::Typed {
                name: name.to_string(),
                fail: false,
            })
            .collect(),
    );
    let sorted: Vec<String> = registry.sorted_specs().into_iter().map(|s| s.name).collect();
    assert_eq!(sorted, ["list", "read", "write"]);
}

#[test]
fn lists_are_checked_element_by_element() {
    let schema = json("{\"type\": \"array\", \"maxItems\": 2, \"items\": {\"type\": \"integer\", \"minimum\": 0}}");
    assert!(validate_json_schema(&schema, &json("[]")).is_ok());
    assert!(validate_json_schema(&schema, &json("[0, 7]")).is_ok());
    assert_eq!(
        validate_json_schema(&schema, &json("[1, 2, 3]")).unwrap_err(),
        ["数组元素不得多于 2"]
    );
    assert_eq!(
        validate_json_schema(&schema, &json("[1, \"two\"]")).unwrap_err(),
        ["[1]: 期望类型 integer,实际为 string"]
    );
    assert_eq!(
        validate_json_schema(&schema, &json("[-1]")).unwrap_err(),
        ["[0]: 数值不得小于 0"]
    );
    assert!(validate_json_schema(&json("{\"type\": \"array\", \"maxItems\": 1}"), &json("[1, 2]")).is_err());
}

#[test]
fn plans_are_checked_against_their_declaration() {
    let schema = UpdatePlan.spec().schema;
    let item = |id: usize| {
        format!("{{\"id\": \"{}\", \"text\": \"t\", \"status\": \"pending\"}}", id)
    };
    let plan = |n: usize| {
        let items: Vec<String> = (0..n).map(item).collect();
        json(&format!(
            "{{\"expected_revision\": 0, \"plan\": [{}]}}",
            items.join(",")
        ))
    };
    assert!(validate_json_schema(&schema, &plan(64)).is_ok());
    assert_eq!(
        validate_json_schema(&schema, &plan(65)).unwrap_err(),
        ["plan: 数组元素不得多于 64"]
    );
    let odd = json("{\"expected_revision\": 0, \"plan\": [{\"id\": \"1\", \"text\": \"t\"}]}");
    assert_eq!(
        validate_json_schema(&schema, &odd).unwrap_err(),
        ["plan: [0]: 缺少必填字段 \"status\""]
    );
}

#[test]
fn zero_has_no_sign_of_its_own() {
    assert!(equal(&json("0.0"), &json("-0.0")));
    assert!(equal(&json("{\"a\": [0.0, 1.5]}"), &json("{\"a\": [-0.0, 1.5]}")));
    assert!(!equal(&json("0.5"), &json("-0.5")));
    assert!(!equal(&json("0.0"), &json("0")));
    assert!(!equal(&json("{\"a\": 1}"), &json("{\"a\": 1, \"b\": 1}")));
    let schema = json("{\"enum\": [0.0]}");
    assert!(validate_json_schema(&schema, &json("-0.0")).is_ok());
    assert!(validate_json_schema(&schema, &json("0.5")).is_err());
}

#[test]
fn remarks_come_in_the_order_of_the_names() {
    let schema = ReadFile.spec().schema;
    let remarks =
        validate_json_schema(&schema, &json("{\"path\": 1, \"limit\": 0, \"offset\": 0}")).unwrap_err();
    let at = |name: &str| remarks.iter().position(|r| r.starts_with(name)).unwrap();
    assert!(at("limit: ") < at("offset: ") && at("offset: ") < at("path: "));
    let schema = RunCommand::new(Shell::PowerShell).spec().schema;
    let remarks =
        validate_json_schema(&schema, &json("{\"command\": 1, \"timeout_secs\": 0, \"cwd\": 1}"))
            .unwrap_err();
    let at = |name: &str| remarks.iter().position(|r| r.starts_with(name)).unwrap();
    assert!(at("command: ") < at("cwd: ") && at("cwd: ") < at("timeout_secs: "));
}
