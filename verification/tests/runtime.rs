use std::cell::RefCell;
use std::collections::VecDeque;
use std::rc::Rc;
use std::sync::atomic::{AtomicBool, AtomicUsize, Ordering};
use std::sync::Arc;

use onemore::config::Config;
use onemore::context::budget::ContextBudget;
use onemore::context::instructions::Instructions;
use onemore::context::skills::SkillsContext;
use onemore::context::workspace_info::WorkspaceInfo;
use onemore::context::PromptContext;
use onemore::event::{AgentCommand, AgentEvent};
use onemore::hooks::{
    Hook, HookRegistry, PreToolUseContext, PreToolUseHookResult, StopContext, StopHookResult,
};
use onemore::json::Json;
use onemore::message::{Block, CacheUsage, ChatMessage, Role, StopReason, Usage};
use onemore::permission::{
    ApprovalDecision, ApprovalResponse, ApprovalScope, Located, PermissionDecision,
    PermissionManager, PermissionRule, PermissionRules, Places,
};
use onemore::plan::PlanSnapshot;
use onemore::provider::sse::SseReader;
use onemore::provider::{
    AnyStream, FailedTurn, ProviderError, ProviderEvent, StreamStep, StreamTerminal, TurnOutput,
};
use onemore::runtime::agent::{build_system_prompt, project_for_model, Agent};
use onemore::runtime::approval::{
    new_request, on_approval_signal, refuse_unasked, ApprovalSignal, ApprovalStep,
};
use onemore::runtime::batch::{announce, apply_limit, BatchItem, BatchRun, Launch};
use onemore::runtime::compaction::begin_compaction;
use onemore::runtime::preflight::{
    begin_preflight, take_approval, take_decision, take_hooks, take_prepared, PreflightStep,
};
use onemore::runtime::commands::{Change, CommandReply, CommandStep};
use onemore::runtime::retry::{nap, CallStep, ModelCall, Nap, RetryPolicy};
use onemore::runtime::run::{ActiveRun, CallRequest, RunInput, RunStep};
use onemore::session::{
    copy_entries, project_model_messages, SessionEntry, SessionEntryPayload,
};
use onemore::skills::SkillCatalog;
use onemore::storage::{append_payloads, cleared, SessionHeader};
use onemore::time::Duration;
use onemore::tools::run_command::Shell;
use onemore::tools::{
    Tool, ToolCapabilities, ToolContext, ToolError, ToolErrorCode, ToolExecutionMode, ToolOutput,
    ToolPermissionSpec, ToolRegistry, ToolSpec,
};
use onemore::workspace::Workspace;

fn json(text: &str) -> Json {
    Json::parse(text).unwrap()
}

// ---- Tools and hooks for the tests ----

enum TestTool {
    Counted {
        executions: Arc<AtomicUsize>,
        capabilities: ToolCapabilities,
        permission: ToolPermissionSpec,
    },
    Progress,
    WaitForCancel,
    ProgressThenWait,
    Sleep {
        name: &'static str,
        millis: u64,
        mode: ToolExecutionMode,
    },
    Write {
        executions: Arc<AtomicUsize>,
    },
    Read {
        content: &'static str,
    },
}

impl TestTool {
    /// How long the tool works, if nobody stops it.
    fn millis(&self) -> u64 {
        match self {
            TestTool::Sleep { millis, .. } => *millis,
            TestTool::WaitForCancel | TestTool::ProgressThenWait => 5_000,
            _ => 1,
        }
    }
}

fn simple_spec(name: &str) -> ToolSpec {
    ToolSpec {
        name: name.to_string(),
        description: format!("{} test tool", name),
        schema: json("{\"type\": \"object\"}"),
        capabilities: ToolCapabilities::read_only(),
        permission: ToolPermissionSpec::default(),
    }
}

impl Tool for TestTool {
    fn spec(&self) -> ToolSpec {
        match self {
            TestTool::Counted {
                capabilities,
                permission,
                ..
            } => ToolSpec {
                name: "counted".to_string(),
                description: "counted test tool".to_string(),
                schema: json(
                    "{\"type\": \"object\", \"additionalProperties\": false, \"properties\": {\"path\": {\"type\": \"string\"}}, \"required\": [\"path\"]}",
                ),
                capabilities: *capabilities,
                permission: permission.clone(),
            },
            TestTool::Progress => simple_spec("runtime_progress"),
            TestTool::WaitForCancel => simple_spec("wait_for_cancel"),
            TestTool::ProgressThenWait => simple_spec("progress_then_wait"),
            TestTool::Sleep { name, mode, .. } => ToolSpec {
                capabilities: ToolCapabilities {
                    read_only: true,
                    destructive: false,
                    execution_mode: *mode,
                    supports_background: false,
                },
                ..simple_spec(name)
            },
            TestTool::Write { .. } => simple_spec("write_file"),
            TestTool::Read { .. } => simple_spec("read_file"),
        }
    }

    fn execute(&self, _args: &Json, ctx: &mut ToolContext<'_>) -> Result<ToolOutput, ToolError> {
        let stopped = ctx.cancel.load(Ordering::Relaxed);
        match self {
            TestTool::Counted { executions, .. } | TestTool::Write { executions } => {
                executions.fetch_add(1, Ordering::Relaxed);
                Ok(ToolOutput::text("executed".to_string()))
            }
            TestTool::Progress => {
                ctx.report_progress(ToolOutput {
                    model_text: "halfway".to_string(),
                    ui_summary: Some("1/2".to_string()),
                    details: Some(json("{\"completed\": 1, \"total\": 2}")),
                });
                Ok(ToolOutput::text("done".to_string()))
            }
            TestTool::WaitForCancel | TestTool::ProgressThenWait => {
                if matches!(self, TestTool::ProgressThenWait) {
                    ctx.report_progress(ToolOutput::text("已启动".to_string()));
                }
                if stopped {
                    Err(ToolError::new(ToolErrorCode::Aborted, "已取消".to_string()))
                } else {
                    Err(ToolError::execution(
                        "测试超时:未收到取消传播".to_string(),
                    ))
                }
            }
            TestTool::Sleep { name, .. } => {
                if stopped {
                    Err(ToolError::new(ToolErrorCode::Aborted, "已中止".to_string()))
                } else {
                    Ok(ToolOutput::text(format!("{} 完成", name)))
                }
            }
            TestTool::Read { content } => Ok(ToolOutput::text(content.to_string())),
        }
    }
}

enum TestHook {
    ReplacePath {
        calls: Arc<AtomicUsize>,
        replacement: String,
    },
    PreventStop {
        calls: Arc<AtomicUsize>,
    },
}

impl Hook for TestHook {
    fn name(&self) -> &str {
        match self {
            TestHook::ReplacePath { .. } => "replace_path",
            TestHook::PreventStop { .. } => "verify_once",
        }
    }

    fn pre_tool_use(
        &mut self,
        _ctx: &PreToolUseContext<'_>,
    ) -> Result<PreToolUseHookResult, String> {
        match self {
            TestHook::ReplacePath { calls, replacement } => {
                calls.fetch_add(1, Ordering::Relaxed);
                Ok(PreToolUseHookResult::ReplaceArguments(Json::Object(vec![(
                    "path".to_string(),
                    Json::Str(replacement.clone()),
                )])))
            }
            _ => Ok(PreToolUseHookResult::Continue),
        }
    }

    fn stop(&mut self, _ctx: &StopContext<'_>) -> Result<StopHookResult, String> {
        match self {
            TestHook::PreventStop { calls } => {
                calls.fetch_add(1, Ordering::Relaxed);
                Ok(StopHookResult::PreventStop("run verification".to_string()))
            }
            _ => Ok(StopHookResult::Continue),
        }
    }
}

// ---- A host without a disk, a network or threads ----

enum Model {
    Script(VecDeque<StreamTerminal>),
    Wire(VecDeque<String>),
}

struct Host {
    agent: Agent,
    tools: ToolRegistry<TestTool>,
    kinds: Vec<(String, u64)>,
    hooks: HookRegistry<TestHook>,
    workspace: Workspace,
    header: SessionHeader,
    model: Model,
    prompts: Vec<Vec<ChatMessage>>,
    bodies: Vec<Json>,
    inbox: Vec<AgentCommand>,
    /// How a person answers; without it nobody can be asked.
    person: Option<fn() -> ApprovalDecision>,
    cancel: AtomicBool,
    cancel_on: fn(&AgentEvent) -> bool,
    max_turns: u32,
    timeout: Option<Duration>,
    retry: RetryPolicy,
    instructions: Instructions,
    info: WorkspaceInfo,
    skills: SkillsContext,
    events: Rc<RefCell<Vec<AgentEvent>>>,
    waited: Vec<Duration>,
}

fn config_text(api: &str, profile: &str) -> String {
    format!(
        "[agent]\nprovider = \"mock\"\nmax_turns = 2\n\n[providers.mock]\napi = \"{}\"\n{}\nbase_url = \"http://127.0.0.1:1\"\nmodel = \"scripted\"\napi_key = \"\"\n",
        api, profile
    )
}

fn host_for(api: &str, profile: &str, tools: Vec<TestTool>, model: Model) -> Host {
    let config = Config::parse(&config_text(api, profile)).unwrap();
    let settings = config.resolve_provider("mock", None).unwrap();
    let kinds = tools
        .iter()
        .map(|tool| (tool.spec().name, tool.millis()))
        .collect();
    Host {
        agent: Agent::new(settings, PermissionManager::new(PermissionRules::default())),
        tools: ToolRegistry::new(tools),
        kinds,
        hooks: HookRegistry::new(Vec::new()),
        workspace: Workspace::new("/work".to_string()),
        header: cleared(0),
        model,
        prompts: Vec::new(),
        bodies: Vec::new(),
        inbox: Vec::new(),
        person: None,
        cancel: AtomicBool::new(false),
        cancel_on: |_| false,
        max_turns: 2,
        timeout: None,
        retry: RetryPolicy::default(),
        instructions: Instructions::new(None),
        info: WorkspaceInfo::new(&Shell::PowerShell, "linux".to_string()),
        skills: SkillsContext::new(Arc::new(SkillCatalog::empty())),
        events: Rc::new(RefCell::new(Vec::new())),
        waited: Vec::new(),
    }
}

fn host(tools: Vec<TestTool>, steps: Vec<StreamTerminal>) -> Host {
    host_for("responses", "", tools, Model::Script(steps.into()))
}

fn counted(capabilities: ToolCapabilities, permission: ToolPermissionSpec) -> (TestTool, Arc<AtomicUsize>) {
    let executions = Arc::new(AtomicUsize::new(0));
    (
        TestTool::Counted {
            executions: Arc::clone(&executions),
            capabilities,
            permission,
        },
        executions,
    )
}

impl Host {
    fn cancelled(&self) -> bool {
        self.cancel.load(Ordering::Relaxed)
    }

    fn emit(&mut self, shown: Vec<AgentEvent>) {
        for event in shown {
            if (self.cancel_on)(&event) {
                self.cancel.store(true, Ordering::Relaxed);
            }
            self.events.borrow_mut().push(event);
        }
    }

    fn commit(&mut self, payloads: Vec<SessionEntryPayload>) -> Option<String> {
        match self.store(payloads) {
            Ok(entries) => {
                self.agent.stored(entries);
                None
            }
            Err(text) => Some(text),
        }
    }

    fn store(&mut self, payloads: Vec<SessionEntryPayload>) -> Result<Vec<SessionEntry>, String> {
        let header = std::mem::replace(&mut self.header, cleared(0));
        let leaf = header.leaf_id.clone();
        let kept = SessionHeader {
            title: header.title.clone(),
            updated_at: header.updated_at,
            usage: header.usage,
            leaf_id: header.leaf_id.clone(),
        };
        match append_payloads(
            &self.agent.entries,
            payloads,
            &leaf,
            header,
            self.agent.usage_total,
            1,
        ) {
            Ok(commit) => {
                self.header = commit.header;
                Ok(commit.entries)
            }
            Err(text) => {
                self.header = kept;
                Err(text)
            }
        }
    }

    fn stream(
        &mut self,
        prompt: &PromptContext,
        specs: &Vec<ToolSpec>,
        call: &mut ModelCall,
    ) -> StreamTerminal {
        self.prompts
            .push(prompt.messages.iter().map(|m| m.clone()).collect());
        let text = match &mut self.model {
            Model::Script(steps) => {
                return steps.pop_front().expect("script exhausted");
            }
            Model::Wire(texts) => texts.pop_front().expect("wire exhausted"),
        };
        let request = self.agent.provider.request(prompt, specs);
        self.bodies.push(Json::parse(&request.body).unwrap());
        let mut stream = self.agent.provider.begin(prompt, specs);
        let mut reader = SseReader::new();
        let mut finished = false;
        let mut shown = Vec::new();
        let mut failed = None;
        for line in text.split('\n') {
            if let Some(event) = reader.push_line(line) {
                match stream.on_data(&event.data) {
                    StreamStep::More => {}
                    StreamStep::Event(event) => {
                        if let Some(event) = call.on_event(event) {
                            shown.push(event);
                        }
                    }
                    StreamStep::Finished => finished = true,
                    StreamStep::Failed(error) => failed = Some(error),
                }
            }
            if finished || failed.is_some() {
                break;
            }
        }
        self.emit(shown);
        let end = match failed {
            Some(error) => Err(error),
            None => stream.finish(finished).map(Some),
        };
        AnyStream::conclude(end)
    }

    fn call(&mut self, prompt: &PromptContext, specs: &Vec<ToolSpec>, forward: bool) -> CallStep {
        let mut call = ModelCall::new(forward);
        loop {
            let terminal = self.stream(prompt, specs, &mut call);
            match call.on_end(&self.retry, terminal) {
                CallStep::Wait { delay, notice } => {
                    self.emit(vec![AgentEvent::Notice(notice)]);
                    self.waited.push(delay);
                }
                step => return step,
            }
        }
    }

    fn handle(&mut self, command: AgentCommand) -> bool {
        let mut step = self.agent.handle_command(command);
        loop {
            let reply = match step {
                CommandStep::Run { input } => {
                    self.run(&input);
                    CommandReply::Ran
                }
                CommandStep::Compact => {
                    self.compact();
                    CommandReply::Ran
                }
                CommandStep::Clear => CommandReply::Cleared(None),
                CommandStep::Resolve { provider } => {
                    let config = Config::parse(&config_text("responses", "")).unwrap();
                    CommandReply::Resolved(config.resolve_provider(&provider, None))
                }
                CommandStep::Record { fact, change } => {
                    let leaf = self.header.leaf_id.clone();
                    let header = std::mem::replace(&mut self.header, cleared(0));
                    let usage = self.agent.usage_total;
                    let commit =
                        append_payloads(&self.agent.entries, vec![fact], &leaf, header, usage, 1);
                    let stored = commit.map(|commit| {
                        self.header = commit.header;
                        commit.entries
                    });
                    CommandReply::Recorded { change, stored }
                }
                CommandStep::List => CommandReply::Listed {
                    current_id: "current".to_string(),
                    sessions: Err("locked".to_string()),
                },
                CommandStep::Load { id } => CommandReply::Loaded {
                    current_id: id,
                    session: Ok((copy_entries(&self.agent.entries), Usage::default())),
                },
                CommandStep::Done { more } => return more,
            };
            let mut shown = Vec::new();
            step = self.agent.take_reply(reply, &mut shown);
            self.emit(shown);
        }
    }

    fn approve(&mut self, request_id: &str, shown: &mut Vec<AgentEvent>) -> ApprovalStep {
        loop {
            let signal = if self.cancelled() {
                ApprovalSignal::Cancelled
            } else {
                match self.person {
                    Some(person) => ApprovalSignal::Response(ApprovalResponse {
                        request_id: request_id.to_string(),
                        decision: person(),
                    }),
                    None => ApprovalSignal::Closed,
                }
            };
            match on_approval_signal(request_id, signal, shown) {
                ApprovalStep::Wait => {}
                step => return step,
            }
        }
    }

    fn preflight(&mut self, call: CallRequest, truncated: bool) -> BatchItem {
        let mut shown = Vec::new();
        announce(&call.id, &call.name, &call.arguments, &mut shown);
        self.emit(shown);
        let mut step = begin_preflight(call.arguments, truncated);
        loop {
            let mut shown = Vec::new();
            step = match step {
                PreflightStep::Prepare {
                    arguments,
                    rewritten,
                } => take_prepared(self.tools.prepare(&call.name, &arguments), rewritten),
                PreflightStep::Judge { call: ready, last } => {
                    let paths = ready
                        .spec
                        .permission
                        .path_arguments
                        .iter()
                        .map(|name| {
                            let given = ready.arguments.get(name).and_then(|v| v.as_str());
                            Located::Path(self.workspace.resolve(given.unwrap_or("")))
                        })
                        .collect();
                    let places = Places {
                        root: Located::Path(self.workspace.root().to_string()),
                        paths,
                    };
                    let decision =
                        self.agent
                            .permissions
                            .evaluate(&ready, &self.workspace, &places);
                    take_decision(ready, last, decision)
                }
                PreflightStep::Hooks { call: ready } => {
                    let pre = self
                        .hooks
                        .run_pre_tool(&ready.spec, &ready.arguments, "session");
                    take_hooks(ready, pre, &mut shown)
                }
                PreflightStep::Ask {
                    call: ready,
                    reason,
                    scopes,
                } => {
                    let request = new_request(&ready, reason, scopes);
                    let id = request.request_id.clone();
                    self.emit(vec![AgentEvent::PermissionRequested { request }]);
                    let asked = match self.person.is_some() || self.cancelled() {
                        true => self.approve(&id, &mut shown),
                        false => ApprovalStep::Refused(refuse_unasked(&id, &mut shown)),
                    };
                    match asked {
                        ApprovalStep::Allowed { remember } => {
                            if remember {
                                self.agent.permissions.remember_session_grant(&ready);
                            }
                            take_approval(ready, None)
                        }
                        ApprovalStep::Refused(error) => take_approval(ready, Some(error)),
                        ApprovalStep::Wait => unreachable!(),
                    }
                }
                PreflightStep::Ready { call: ready } => {
                    return BatchItem::ready(call.id, call.name, ready);
                }
                PreflightStep::Settled { outcome } => {
                    let item = BatchItem::settled(call.id, call.name, outcome, &mut shown);
                    self.emit(shown);
                    return item;
                }
            };
            self.emit(shown);
        }
    }

    /// Runs a batch in simulated time: what takes less time ends first.
    fn run_batch(&mut self, items: Vec<BatchItem>) -> onemore::runtime::batch::Collected {
        let mut batch = BatchRun::new(items);
        let mut running: Vec<(u64, usize, bool)> = Vec::new();
        let mut clock: u64 = 0;
        while !batch.done() {
            loop {
                let mut shown = Vec::new();
                let launch = batch.launch(self.cancelled(), &mut shown);
                self.emit(shown);
                match launch {
                    Launch::Start(slot) => {
                        let call = batch.call(slot).unwrap();
                        let millis = self
                            .kinds
                            .iter()
                            .find(|k| k.0 == call.spec.name)
                            .unwrap()
                            .1;
                        let limit = self.timeout.map(|t| t.nanos / 1_000_000);
                        let late = limit.is_some_and(|l| u128::from(millis) >= l);
                        let ends = match (late, limit) {
                            (true, Some(l)) => u64::try_from(l).unwrap(),
                            _ => millis,
                        };
                        running.push((clock + ends, slot, late));
                    }
                    Launch::Closed(_) => {}
                    Launch::Hold => break,
                }
            }
            running.sort();
            if running.is_empty() {
                continue;
            }
            let (at, slot, late) = running.remove(0);
            clock = at;
            let flag = AtomicBool::new(late || self.cancelled());
            let prepared = batch.call(slot).unwrap().clone();
            let mut ctx = ToolContext {
                workspace: &self.workspace,
                cancel: &flag,
                session_id: "session",
                current_plan: PlanSnapshot {
                    revision: 0,
                    items: Vec::new(),
                    explanation: None,
                },
                progress: Vec::new(),
                effects: Vec::new(),
            };
            let mut outcome = self.tools.execute_prepared(&prepared, &mut ctx);
            let reports: Vec<ToolOutput> = ctx.progress.drain(..).collect();
            for report in reports {
                let mut shown = Vec::new();
                batch.note_progress(slot, report, &mut shown);
                self.emit(shown);
            }
            if self.cancelled() && !flag.load(Ordering::Relaxed) {
                // The run was cancelled while the tool was at work: it notices and stops.
                flag.store(true, Ordering::Relaxed);
                let mut ctx = ToolContext {
                    workspace: &self.workspace,
                    cancel: &flag,
                    session_id: "session",
                    current_plan: PlanSnapshot {
                        revision: 0,
                        items: Vec::new(),
                        explanation: None,
                    },
                    progress: Vec::new(),
                    effects: Vec::new(),
                };
                outcome = self.tools.execute_prepared(&prepared, &mut ctx);
            }
            if late && !self.cancelled() {
                outcome = apply_limit(outcome, self.timeout.unwrap());
            }
            let post = self.hooks.run_post_tool(
                &prepared.spec,
                &prepared.arguments,
                outcome,
                "session",
            );
            let mut shown = Vec::new();
            batch.finish(slot, post, &mut shown);
            self.emit(shown);
        }
        batch.collect()
    }

    fn run(&mut self, input: &str) {
        let mut specs = self.tools.specs();
        specs.sort_by(|a, b| a.name.cmp(&b.name));
        let mut shown = Vec::new();
        let (mut run, mut step) = ActiveRun::begin(
            input.to_string(),
            self.max_turns,
            self.agent.usage_total,
            &mut shown,
        );
        self.emit(shown);
        loop {
            let input = match step {
                RunStep::PromptHooks { prompt } => {
                    RunInput::Hooked(self.hooks.run_user_prompt(&prompt, "session"))
                }
                RunStep::Commit { payloads } => {
                    self.agent.usage_total = run.usage;
                    RunInput::Committed(self.commit(payloads))
                }
                RunStep::Call => {
                    let mut prompt = build_system_prompt(
                        &self.instructions,
                        &self.info,
                        &self.skills,
                        &self.workspace,
                    );
                    let mut shown = Vec::new();
                    let messages = project_for_model(
                        &self.agent.entries,
                        &self.agent.budget,
                        &prompt,
                        &specs,
                        &mut shown,
                    );
                    self.emit(shown);
                    match messages {
                        None => RunInput::Refused,
                        Some(messages) => {
                            prompt.messages = messages;
                            match self.call(&prompt, &specs, true) {
                                CallStep::Done(output) => RunInput::Answered(output),
                                CallStep::Cancelled(failed) => RunInput::CallCancelled(failed),
                                CallStep::Failed(failed) => RunInput::CallFailed(failed),
                                CallStep::Wait { .. } => unreachable!(),
                            }
                        }
                    }
                }
                RunStep::StopHooks { message } => {
                    RunInput::Stopped(self.hooks.run_stop(&message, "session"))
                }
                RunStep::Drain => {
                    let commands: Vec<AgentCommand> = self.inbox.drain(..).collect();
                    if commands.iter().any(|c| matches!(c, AgentCommand::Shutdown)) {
                        self.cancel.store(true, Ordering::Relaxed);
                    }
                    RunInput::Drained(commands)
                }
                RunStep::Tools { calls, truncated } => {
                    let items = calls
                        .into_iter()
                        .map(|call| self.preflight(call, truncated))
                        .collect();
                    RunInput::Worked(self.run_batch(items))
                }
                RunStep::Finish { cancelled } => {
                    let waiting = match cancelled {
                        true => self.inbox.drain(..).collect(),
                        false => Vec::new(),
                    };
                    let mut shown = Vec::new();
                    self.agent.usage_total = run.usage;
                    self.agent
                        .deferred
                        .extend(run.finish(waiting, cancelled, &mut shown));
                    self.emit(shown);
                    return;
                }
            };
            let mut shown = Vec::new();
            step = run.advance(input, self.cancelled(), &mut shown);
            self.emit(shown);
        }
    }

    fn compact(&mut self) {
        let mut shown = Vec::new();
        let request = begin_compaction(&self.agent.entries, &self.agent.budget, &mut shown);
        self.emit(shown);
        let Some(request) = request else { return };
        let answer = self.call(&request.prompt, &request.tools, request.forward);
        let mut shown = Vec::new();
        if let Some(record) = self
            .agent
            .take_answer(answer, request.tokens_before, &mut shown)
        {
            let fact = SessionEntryPayload::Compaction(onemore::session::CompactionRecord {
                summary: record.summary.clone(),
                tokens_before: record.tokens_before,
            });
            let stored = self.store(vec![fact]);
            self.agent.keep_summary(&record, stored, &mut shown);
        }
        self.emit(shown);
    }

    fn saw(&self, test: fn(&AgentEvent) -> bool) -> bool {
        self.events.borrow().iter().any(test)
    }

    fn count(&self, test: fn(&AgentEvent) -> bool) -> usize {
        self.events.borrow().iter().filter(|e| test(e)).count()
    }

    fn finished_order(&self) -> Vec<String> {
        self.events
            .borrow()
            .iter()
            .filter_map(|event| match event {
                AgentEvent::ToolCallFinished { id, .. } => Some(id.clone()),
                _ => None,
            })
            .collect()
    }

    fn error_codes(&self) -> Vec<ToolErrorCode> {
        self.events
            .borrow()
            .iter()
            .filter_map(|event| match event {
                AgentEvent::ToolCallFinished {
                    error: Some(error), ..
                } => Some(error.code),
                _ => None,
            })
            .collect()
    }
}

fn output(message: ChatMessage, stop: StopReason) -> TurnOutput {
    TurnOutput {
        message,
        usage: Usage::default(),
        stop,
        prompt_fingerprint: None,
    }
}

fn says(text: &str) -> StreamTerminal {
    StreamTerminal::Done(output(
        ChatMessage {
            role: Role::Assistant,
            blocks: vec![Block::Text(text.to_string())],
        },
        StopReason::EndTurn,
    ))
}

fn silent() -> StreamTerminal {
    StreamTerminal::Done(output(ChatMessage::empty_assistant(), StopReason::EndTurn))
}

fn calls(calls: Vec<(&str, &str)>) -> StreamTerminal {
    let mut blocks = Vec::new();
    for (name, arguments) in calls {
        blocks.push(Block::ToolUse {
            id: format!("call-{}", blocks.len() + 1),
            name: name.to_string(),
            input: json(arguments),
        });
    }
    StreamTerminal::Done(output(
        ChatMessage {
            role: Role::Assistant,
            blocks,
        },
        StopReason::ToolUse,
    ))
}

fn finishes(cancelled: bool) -> fn(&AgentEvent) -> bool {
    match cancelled {
        true => |e| matches!(e, AgentEvent::TurnFinished { cancelled: true }),
        false => |e| matches!(e, AgentEvent::TurnFinished { cancelled: false }),
    }
}

fn user_texts(entries: &[SessionEntry]) -> Vec<String> {
    entries
        .iter()
        .filter_map(|entry| match &entry.payload {
            SessionEntryPayload::Message(record) if record.message.role == Role::User => {
                let text = record.message.text();
                (!text.is_empty()).then_some(text)
            }
            _ => None,
        })
        .collect()
}

fn result_block_order(entries: &[SessionEntry]) -> Vec<String> {
    let mut ids = Vec::new();
    for entry in entries {
        if let SessionEntryPayload::Message(record) = &entry.payload {
            for block in &record.message.blocks {
                if let Block::ToolResult { tool_use_id, .. } = block {
                    ids.push(tool_use_id.clone());
                }
            }
        }
    }
    ids
}

// ---- Runs ----

#[test]
fn terminal_protocol_keeps_final_message_on_error() {
    let mut host = host(
        Vec::new(),
        vec![StreamTerminal::Error(FailedTurn::from_error(
            ProviderError::fatal("boom".to_string()),
        ))],
    );
    let mut call = ModelCall::new(true);
    match host.stream(&PromptContext::default(), &Vec::new(), &mut call) {
        StreamTerminal::Error(failed) => {
            assert!(failed.message.role == Role::Assistant);
            assert_eq!(failed.error.message, "boom");
        }
        other => panic!("应得到 Error 终止，实际为 {:?}", other),
    }
}

#[test]
fn runtime_emits_closed_error_and_abort_turns() {
    let mut first = host(
        Vec::new(),
        vec![StreamTerminal::Error(FailedTurn::from_error(
            ProviderError::fatal("boom".to_string()),
        ))],
    );
    first.run("失败");
    assert!(first.saw(|e| matches!(e, AgentEvent::Error(text) if text == "boom")));
    assert!(first.saw(finishes(false)));

    let mut second = host(
        Vec::new(),
        vec![StreamTerminal::Aborted(FailedTurn::aborted())],
    );
    second.run("取消");
    assert!(second.saw(finishes(true)));
}

#[test]
fn max_tokens_tool_calls_are_returned_as_errors_without_execution() {
    let executions = Arc::new(AtomicUsize::new(0));
    let first = StreamTerminal::Done(output(
        ChatMessage {
            role: Role::Assistant,
            blocks: vec![Block::ToolUse {
                id: "call-1".to_string(),
                name: "write_file".to_string(),
                input: json(
                    "{\"path\": \"should-not-exist.txt\", \"content\": \"unsafe partial output\"}",
                ),
            }],
        },
        StopReason::MaxTokens,
    ));
    let mut host = host(
        vec![TestTool::Write {
            executions: Arc::clone(&executions),
        }],
        vec![first, silent()],
    );
    host.run("写文件");
    assert_eq!(executions.load(Ordering::Relaxed), 0);
    assert!(host.saw(|e| matches!(e, AgentEvent::ToolCallFinished { error: Some(_), .. })));
    assert_eq!(host.error_codes(), vec![ToolErrorCode::TruncatedInput]);
}

#[test]
fn tool_progress_is_mapped_to_runtime_event_before_finish() {
    let first = StreamTerminal::Done(output(
        ChatMessage {
            role: Role::Assistant,
            blocks: vec![Block::ToolUse {
                id: "progress-1".to_string(),
                name: "runtime_progress".to_string(),
                input: json("{}"),
            }],
        },
        StopReason::ToolUse,
    ));
    let mut host = host(vec![TestTool::Progress], vec![first, silent()]);
    host.run("运行");
    let events = host.events.borrow();
    let updated = events.iter().position(|event| {
        matches!(
            event,
            AgentEvent::ToolCallUpdated { id, name, output }
                if id == "progress-1" && name == "runtime_progress" && output.ui_text() == "1/2"
        )
    });
    let finished = events.iter().position(
        |event| matches!(event, AgentEvent::ToolCallFinished { id, .. } if id == "progress-1"),
    );
    assert!(updated.is_some());
    assert!(updated.unwrap() < finished.expect("应收到工具完成事件"));
}

#[test]
fn permission_deny_never_executes_and_still_finishes_tool_pair() {
    let (tool, executions) = counted(
        ToolCapabilities::mutation(),
        ToolPermissionSpec::paths(&["path"]),
    );
    let mut host = host(
        vec![tool],
        vec![calls(vec![("counted", "{\"path\": \"inside\"}")]), silent()],
    );
    host.agent.permissions = PermissionManager::new(PermissionRules {
        workspace_write: PermissionRule::Deny,
        ..PermissionRules::default()
    });
    host.run("deny");
    assert_eq!(executions.load(Ordering::Relaxed), 0);
    assert_eq!(host.error_codes(), vec![ToolErrorCode::PermissionDenied]);
    assert!(host.saw(finishes(false)));
}

#[test]
fn approval_rejection_is_a_tool_result_not_a_runtime_failure() {
    let (tool, executions) = counted(
        ToolCapabilities::command(),
        ToolPermissionSpec::opaque_side_effect(&[]),
    );
    let mut host = host(
        vec![tool],
        vec![calls(vec![("counted", "{\"path\": \"opaque\"}")]), silent()],
    );
    host.person = Some(|| ApprovalDecision::Deny);
    host.run("ask");
    assert_eq!(executions.load(Ordering::Relaxed), 0);
    assert!(host.saw(|e| matches!(e, AgentEvent::PermissionResolved { allowed: false, .. })));
    assert_eq!(host.error_codes(), vec![ToolErrorCode::PermissionDenied]);
}

#[test]
fn session_approval_only_skips_identical_following_call() {
    let (tool, executions) = counted(
        ToolCapabilities::command(),
        ToolPermissionSpec::opaque_side_effect(&[]),
    );
    let mut host = host(
        vec![tool],
        vec![
            calls(vec![
                ("counted", "{\"path\": \"same\"}"),
                ("counted", "{\"path\": \"same\"}"),
            ]),
            silent(),
        ],
    );
    host.person = Some(|| ApprovalDecision::Allow(ApprovalScope::Session));
    host.run("session grant");
    assert_eq!(
        host.count(|e| matches!(e, AgentEvent::PermissionRequested { .. })),
        1
    );
    assert_eq!(executions.load(Ordering::Relaxed), 2);
}

#[test]
fn cancelling_an_approval_wait_aborts_without_executing() {
    let (tool, executions) = counted(
        ToolCapabilities::command(),
        ToolPermissionSpec::opaque_side_effect(&[]),
    );
    let mut host = host(
        vec![tool],
        vec![calls(vec![("counted", "{\"path\": \"opaque\"}")])],
    );
    host.person = Some(|| ApprovalDecision::Deny);
    host.cancel_on = |e| matches!(e, AgentEvent::PermissionRequested { .. });
    host.run("cancel approval");
    assert_eq!(executions.load(Ordering::Relaxed), 0);
    assert!(host.saw(finishes(true)));
    assert_eq!(host.error_codes(), vec![ToolErrorCode::Aborted]);
}

#[test]
fn without_anybody_to_ask_calls_are_refused() {
    let (tool, executions) = counted(
        ToolCapabilities::command(),
        ToolPermissionSpec::opaque_side_effect(&[]),
    );
    let mut host = host(
        vec![tool],
        vec![calls(vec![("counted", "{\"path\": \"opaque\"}")]), silent()],
    );
    host.run("ask");
    assert_eq!(executions.load(Ordering::Relaxed), 0);
    assert_eq!(host.error_codes(), vec![ToolErrorCode::PermissionDenied]);
}

#[test]
fn hook_replacement_is_revalidated_and_rechecked_by_permission() {
    let (tool, executions) = counted(
        ToolCapabilities::mutation(),
        ToolPermissionSpec::paths(&["path"]),
    );
    let mut host = host(
        vec![tool],
        vec![calls(vec![("counted", "{\"path\": \"inside\"}")]), silent()],
    );
    host.agent.permissions = PermissionManager::new(PermissionRules {
        outside_workspace: PermissionRule::Deny,
        ..PermissionRules::default()
    });
    let hook_calls = Arc::new(AtomicUsize::new(0));
    host.hooks = HookRegistry::new(vec![TestHook::ReplacePath {
        calls: Arc::clone(&hook_calls),
        replacement: "/outside/target.txt".to_string(),
    }]);
    host.run("hook");
    assert_eq!(hook_calls.load(Ordering::Relaxed), 1);
    assert_eq!(executions.load(Ordering::Relaxed), 0);
}

#[test]
fn hard_deny_runs_before_pre_tool_hook() {
    let (tool, executions) = counted(
        ToolCapabilities::mutation(),
        ToolPermissionSpec::paths(&["path"]),
    );
    let mut host = host(
        vec![tool],
        vec![calls(vec![("counted", "{\"path\": \"NUL.txt\"}")]), silent()],
    );
    host.workspace = Workspace::new("E:\\proj".to_string());
    let hook_calls = Arc::new(AtomicUsize::new(0));
    host.hooks = HookRegistry::new(vec![TestHook::ReplacePath {
        calls: Arc::clone(&hook_calls),
        replacement: "safe.txt".to_string(),
    }]);
    host.run("hard deny");
    assert_eq!(hook_calls.load(Ordering::Relaxed), 0);
    assert_eq!(executions.load(Ordering::Relaxed), 0);
}

#[test]
fn stop_hook_can_prevent_stop_only_once_per_run() {
    let mut host = host(Vec::new(), vec![says("first"), says("verified")]);
    let hook_calls = Arc::new(AtomicUsize::new(0));
    host.hooks = HookRegistry::new(vec![TestHook::PreventStop {
        calls: Arc::clone(&hook_calls),
    }]);
    host.run("verify");
    assert_eq!(hook_calls.load(Ordering::Relaxed), 1);
    assert!(host.saw(|e| matches!(e, AgentEvent::AssistantMessage(text) if text == "verified")));
    assert!(host.saw(finishes(false)));
}

#[test]
fn assistant_usage_is_recorded_as_fact_and_seeds_baseline() {
    let mut host = host(
        Vec::new(),
        vec![StreamTerminal::Done(TurnOutput {
            message: ChatMessage {
                role: Role::Assistant,
                blocks: vec![Block::Text("答复".to_string())],
            },
            usage: Usage {
                input_tokens: 1200,
                output_tokens: 34,
                cache: None,
            },
            stop: StopReason::EndTurn,
            prompt_fingerprint: Some("sha256:test".to_string()),
        })],
    );
    host.run("问题");
    let assistant = host
        .agent
        .entries
        .iter()
        .find_map(|entry| match &entry.payload {
            SessionEntryPayload::Message(record) if record.message.role == Role::Assistant => {
                Some(record)
            }
            _ => None,
        })
        .expect("assistant 应成为 Message 事实");
    assert_eq!(
        assistant.usage,
        Some(Usage {
            input_tokens: 1200,
            output_tokens: 34,
            cache: None,
        })
    );
    assert_eq!(assistant.prompt_fingerprint.as_deref(), Some("sha256:test"));
    let projection = project_model_messages(&host.agent.entries);
    assert_eq!(projection.known_token_baseline, Some(1234));
    assert_eq!(projection.tail_chars_after_baseline, 0);
    assert_eq!(host.header.usage.input_tokens, 1200);
}

#[test]
fn over_budget_refuses_to_call_provider() {
    let mut host = host(Vec::new(), Vec::new());
    host.agent.budget = ContextBudget {
        context_window: Some(100),
        reserve_output: 50,
    };
    host.run(&"长输入".repeat(2000));
    assert!(host.saw(|e| matches!(e, AgentEvent::Error(text) if text.contains("/compact"))));
    assert!(host.saw(finishes(false)));
    assert_eq!(host.agent.entries.len(), 1);
}

#[test]
fn compact_appends_fact_and_shrinks_model_view() {
    let mut host = host(
        Vec::new(),
        vec![says("旧回答"), says("摘要:讨论了旧问题")],
    );
    host.run("旧问题");
    let facts_before = host.agent.entries.len();
    host.events.borrow_mut().clear();
    host.compact();
    assert_eq!(host.agent.entries.len(), facts_before + 1);
    assert!(matches!(
        host.agent.entries.last().unwrap().payload,
        SessionEntryPayload::Compaction(_)
    ));
    let projection = project_model_messages(&host.agent.entries);
    assert_eq!(projection.messages.len(), 1);
    assert!(projection.messages[0].text().contains("摘要:讨论了旧问题"));
    assert!(!host.saw(|e| matches!(e, AgentEvent::AssistantDelta(_))));
    assert!(host.saw(|e| matches!(e, AgentEvent::Notice(text) if text.contains("历史已压缩"))));
}

#[test]
fn compact_request_is_plain_text_without_tool_blocks() {
    let (tool, _) = counted(ToolCapabilities::read_only(), ToolPermissionSpec::default());
    let mut host = host(
        vec![tool],
        vec![
            calls(vec![("counted", "{\"path\": \"a\"}")]),
            says("做完了"),
            says("摘要"),
        ],
    );
    host.run("做点事");
    host.prompts.clear();
    host.compact();
    assert_eq!(host.prompts.len(), 1);
    let request = &host.prompts[0];
    assert_eq!(request.len(), 1);
    assert!(request[0].role == Role::User);
    assert!(request[0]
        .blocks
        .iter()
        .all(|block| matches!(block, Block::Text(_))));
    let text = request[0].text();
    assert!(text.contains("counted"));
    assert!(text.contains("executed"));
}

#[test]
fn compaction_ends_however_the_call_ends() {
    let mut empty = host(Vec::new(), Vec::new());
    empty.compact();
    assert!(empty.saw(|e| matches!(e, AgentEvent::Notice(t) if t == "当前会话没有可压缩的历史")));

    let mut failing = host(
        Vec::new(),
        vec![
            says("回答"),
            silent(),
            StreamTerminal::Error(FailedTurn::from_error(ProviderError::fatal(
                "boom".to_string(),
            ))),
            StreamTerminal::Aborted(FailedTurn::aborted()),
        ],
    );
    failing.run("问题");
    failing.compact();
    assert!(failing.saw(|e| matches!(e, AgentEvent::Error(t) if t == "压缩失败:模型返回了空摘要")));
    failing.compact();
    assert!(failing.saw(|e| matches!(e, AgentEvent::Error(t) if t == "压缩失败,历史未变化: boom")));
    failing.compact();
    assert!(failing.saw(|e| matches!(e, AgentEvent::Notice(t) if t == "压缩已取消,历史未变化")));
    assert_eq!(failing.agent.entries.len(), 2);
}

#[test]
fn session_restore_returns_full_facts_including_ui_only() {
    let mut host = host(
        Vec::new(),
        vec![StreamTerminal::Done(output(
            ChatMessage {
                role: Role::Assistant,
                blocks: vec![Block::Text("被截断的回答".to_string())],
            },
            StopReason::MaxTokens,
        ))],
    );
    host.run("问题");
    let stored = copy_entries(&host.agent.entries);
    let mut shown = Vec::new();
    host.agent
        .loaded("target".to_string(), stored, Usage::default(), &mut shown);
    let entries = match &shown[0] {
        AgentEvent::SessionLoaded { id, entries, .. } if id == "target" => entries,
        other => panic!("应恢复目标会话: {:?}", other),
    };
    assert_eq!(entries.len(), 3);
    assert!(entries
        .iter()
        .any(|entry| matches!(entry.payload, SessionEntryPayload::Notice(_))));
    let projection = project_model_messages(entries);
    assert_eq!(projection.messages.len(), 2);
}

#[test]
fn commit_failure_stops_memory_advance_and_reports() {
    let mut host = host(Vec::new(), Vec::new());
    let orphan = SessionEntryPayload::message(
        ChatMessage {
            role: Role::Assistant,
            blocks: vec![Block::ToolUse {
                id: "orphan".to_string(),
                name: "read_file".to_string(),
                input: json("{}"),
            }],
        },
        None,
    );
    let error = host.commit(vec![orphan]);
    assert!(error.is_some());
    assert!(host.agent.entries.is_empty());

    let mut shown = Vec::new();
    let (mut run, _) = ActiveRun::begin("x".to_string(), 2, Usage::default(), &mut shown);
    let hooked = host.hooks.run_user_prompt("x", "session");
    run.advance(RunInput::Hooked(hooked), false, &mut shown);
    let step = run.advance(RunInput::Committed(error), false, &mut shown);
    assert!(matches!(step, RunStep::Finish { cancelled: false }));
    assert!(shown
        .iter()
        .any(|event| matches!(event, AgentEvent::Error(text) if text.contains("保存会话失败"))));
}

#[test]
fn oversized_retry_after_fails_without_waiting() {
    let mut host = host(
        Vec::new(),
        vec![StreamTerminal::Error(FailedTurn::from_error(ProviderError {
            message: "overloaded".to_string(),
            retryable: true,
            retry_after: Some(Duration::from_secs(300)),
        }))],
    );
    host.run("hi");
    assert!(host.waited.is_empty());
    assert!(host.saw(|e| matches!(e, AgentEvent::Error(text) if text.contains("overloaded"))));
}

#[test]
fn failures_that_may_pass_are_retried_after_a_wait() {
    let mut host = host(
        Vec::new(),
        vec![
            StreamTerminal::Error(FailedTurn::from_error(ProviderError {
                message: "busy".to_string(),
                retryable: true,
                retry_after: Some(Duration::from_millis(2500)),
            })),
            says("ok"),
        ],
    );
    host.run("hi");
    assert_eq!(host.waited, vec![Duration::from_millis(2500)]);
    assert!(host.saw(|e| matches!(e, AgentEvent::Notice(t) if t == "busy,2.5s 后重试(1/2)")));
    assert!(host.saw(|e| matches!(e, AgentEvent::AssistantMessage(t) if t == "ok")));
}

#[test]
fn steering_is_injected_only_after_full_tool_batch() {
    let (tool, _) = counted(ToolCapabilities::read_only(), ToolPermissionSpec::default());
    let mut host = host(
        vec![tool],
        vec![
            calls(vec![
                ("counted", "{\"path\": \"a\"}"),
                ("counted", "{\"path\": \"b\"}"),
            ]),
            says("changed course"),
        ],
    );
    host.inbox = vec![AgentCommand::Steer("换个方向".to_string())];
    host.run("开始");
    let kinds: Vec<String> = host
        .agent
        .entries
        .iter()
        .map(|entry| match &entry.payload {
            SessionEntryPayload::Message(record) => {
                let has_results = record
                    .message
                    .blocks
                    .iter()
                    .any(|block| matches!(block, Block::ToolResult { .. }));
                if record.message.role == Role::Assistant {
                    "assistant".to_string()
                } else if has_results {
                    "results".to_string()
                } else {
                    format!("user:{}", record.message.text())
                }
            }
            other => other.kind().to_string(),
        })
        .collect();
    assert_eq!(
        kinds,
        vec!["user:开始", "assistant", "results", "user:换个方向", "assistant"]
    );
    assert_eq!(host.prompts.len(), 2);
    assert_eq!(host.prompts[1].last().unwrap().text(), "换个方向");
    assert_eq!(host.count(|e| matches!(e, AgentEvent::TurnStarted)), 1);
    assert_eq!(
        host.count(|e| matches!(e, AgentEvent::TurnFinished { .. })),
        1
    );
}

#[test]
fn user_input_during_active_run_is_classified_as_steering() {
    let (tool, _) = counted(ToolCapabilities::read_only(), ToolPermissionSpec::default());
    let mut host = host(
        vec![tool],
        vec![calls(vec![("counted", "{\"path\": \"a\"}")]), silent()],
    );
    host.inbox = vec![AgentCommand::UserInput("第二条".to_string())];
    host.run("第一条");
    assert!(host.saw(|e| matches!(e, AgentEvent::Notice(text) if text.contains("steering"))));
    assert_eq!(host.count(|e| matches!(e, AgentEvent::TurnStarted)), 1);
    assert!(user_texts(&host.agent.entries).contains(&"第二条".to_string()));
}

#[test]
fn follow_up_runs_only_after_current_task_would_stop() {
    let mut host = host(Vec::new(), vec![says("第一件事完成"), says("第二件事完成")]);
    host.inbox = vec![AgentCommand::FollowUp("下一件事".to_string())];
    host.run("第一件事");
    assert_eq!(
        user_texts(&host.agent.entries),
        vec!["第一件事".to_string(), "下一件事".to_string()]
    );
    assert_eq!(host.prompts.len(), 2);
    assert_eq!(host.prompts[1].last().unwrap().text(), "下一件事");
    assert_eq!(
        host.count(|e| matches!(e, AgentEvent::TurnFinished { .. })),
        1
    );
}

#[test]
fn queued_inputs_are_injected_one_at_a_time() {
    let (tool, _) = counted(ToolCapabilities::read_only(), ToolPermissionSpec::default());
    let mut host = host(
        vec![tool],
        vec![
            calls(vec![("counted", "{\"path\": \"a\"}")]),
            calls(vec![("counted", "{\"path\": \"b\"}")]),
            silent(),
        ],
    );
    host.max_turns = 5;
    host.inbox = vec![
        AgentCommand::Steer("s1".to_string()),
        AgentCommand::Steer("s2".to_string()),
    ];
    host.run("go");
    assert_eq!(host.prompts.len(), 3);
    let second: Vec<String> = host.prompts[1].iter().map(|m| m.text()).collect();
    assert!(second.contains(&"s1".to_string()));
    assert!(!second.contains(&"s2".to_string()));
    let third: Vec<String> = host.prompts[2].iter().map(|m| m.text()).collect();
    assert!(third.contains(&"s2".to_string()));
}

#[test]
fn cancel_drops_queued_inputs_with_notice() {
    let mut host = host(
        vec![TestTool::WaitForCancel],
        vec![calls(vec![("wait_for_cancel", "{}")])],
    );
    host.inbox = vec![AgentCommand::Steer("不该注入".to_string())];
    host.cancel_on = |e| matches!(e, AgentEvent::ToolCallStarted { .. });
    host.run("go");
    assert!(host.saw(finishes(true)));
    assert!(host.saw(|e| matches!(e, AgentEvent::Notice(text) if text.contains("丢弃"))));
    assert!(!user_texts(&host.agent.entries).contains(&"不该注入".to_string()));
}

#[test]
fn shutdown_during_run_cancels_and_defers_exit() {
    let (tool, _) = counted(ToolCapabilities::read_only(), ToolPermissionSpec::default());
    let mut host = host(
        vec![tool],
        vec![calls(vec![("counted", "{\"path\": \"a\"}")])],
    );
    host.inbox = vec![AgentCommand::Shutdown];
    host.run("go");
    assert!(host.cancelled());
    assert!(matches!(
        host.agent.take_deferred(),
        Some(AgentCommand::Shutdown)
    ));
    assert!(host.saw(finishes(true)));
}

#[test]
fn runs_stop_at_the_limit_of_model_calls() {
    let (tool, _) = counted(ToolCapabilities::read_only(), ToolPermissionSpec::default());
    let mut host = host(
        vec![tool],
        vec![
            calls(vec![("counted", "{\"path\": \"a\"}")]),
            calls(vec![("counted", "{\"path\": \"b\"}")]),
        ],
    );
    host.run("go");
    assert_eq!(host.prompts.len(), 2);
    assert!(host.saw(|e| matches!(
        e,
        AgentEvent::Notice(t) if t == "连续调用模型达到上限(2 次),强制结束本轮;可直接输入\"继续\"接着跑"
    )));
}

#[test]
fn calls_without_an_id_end_the_run() {
    let mut host = host(
        Vec::new(),
        vec![StreamTerminal::Done(output(
            ChatMessage {
                role: Role::Assistant,
                blocks: vec![Block::ToolUse {
                    id: " ".to_string(),
                    name: "x".to_string(),
                    input: json("{}"),
                }],
            },
            StopReason::ToolUse,
        ))],
    );
    host.run("go");
    assert!(host.saw(|e| matches!(
        e,
        AgentEvent::Error(t) if t == "模型返回了无效工具调用(id=\" \",name=\"x\");本次 assistant 消息未写入历史，会话仍可继续"
    )));
    assert_eq!(host.agent.entries.len(), 1);
}

#[test]
fn parallel_batch_finishes_by_completion_but_history_keeps_source_order() {
    let mut host = host(
        vec![
            TestTool::Sleep {
                name: "slow",
                millis: 300,
                mode: ToolExecutionMode::ParallelSafe,
            },
            TestTool::Sleep {
                name: "fast",
                millis: 10,
                mode: ToolExecutionMode::ParallelSafe,
            },
        ],
        vec![calls(vec![("slow", "{}"), ("fast", "{}")]), silent()],
    );
    host.run("go");
    assert_eq!(host.finished_order(), vec!["call-2", "call-1"]);
    assert_eq!(
        result_block_order(&host.agent.entries),
        vec!["call-1", "call-2"]
    );
    let events = host.events.borrow();
    let first_finished = events
        .iter()
        .position(|event| matches!(event, AgentEvent::ToolCallFinished { .. }))
        .unwrap();
    let started_before = events[..first_finished]
        .iter()
        .filter(|event| matches!(event, AgentEvent::ToolCallStarted { .. }))
        .count();
    assert_eq!(started_before, 2);
}

#[test]
fn any_sequential_tool_forces_whole_batch_sequential() {
    let mut host = host(
        vec![
            TestTool::Sleep {
                name: "slow_seq",
                millis: 150,
                mode: ToolExecutionMode::Sequential,
            },
            TestTool::Sleep {
                name: "fast_par",
                millis: 5,
                mode: ToolExecutionMode::ParallelSafe,
            },
        ],
        vec![calls(vec![("slow_seq", "{}"), ("fast_par", "{}")]), silent()],
    );
    host.run("go");
    assert_eq!(host.finished_order(), vec!["call-1", "call-2"]);
}

#[test]
fn cancel_during_parallel_execution_still_pairs_every_call() {
    let mut host = host(
        vec![
            TestTool::ProgressThenWait,
            TestTool::Sleep {
                name: "long_sleep",
                millis: 5_000,
                mode: ToolExecutionMode::ParallelSafe,
            },
        ],
        vec![calls(vec![("progress_then_wait", "{}"), ("long_sleep", "{}")])],
    );
    host.cancel_on = |e| matches!(e, AgentEvent::ToolCallUpdated { .. });
    host.run("go");
    assert_eq!(
        result_block_order(&host.agent.entries),
        vec!["call-1", "call-2"]
    );
    assert!(host.saw(finishes(true)));
}

#[test]
fn cancelled_runs_start_no_further_calls() {
    let (tool, executions) = counted(ToolCapabilities::command(), ToolPermissionSpec::default());
    let mut host = host(
        vec![tool],
        vec![calls(vec![
            ("counted", "{\"path\": \"a\"}"),
            ("counted", "{\"path\": \"b\"}"),
        ])],
    );
    host.person = Some(|| ApprovalDecision::Allow(ApprovalScope::Once));
    host.cancel_on = |e| matches!(e, AgentEvent::ToolCallFinished { .. });
    host.run("go");
    assert_eq!(executions.load(Ordering::Relaxed), 1);
    assert_eq!(
        result_block_order(&host.agent.entries),
        vec!["call-1", "call-2"]
    );
    assert_eq!(host.error_codes(), vec![ToolErrorCode::Aborted]);
}

#[test]
fn tool_timeout_rewrites_obedient_abort_to_timeout() {
    let mut host = host(
        vec![TestTool::Sleep {
            name: "sleepy",
            millis: 10_000,
            mode: ToolExecutionMode::ParallelSafe,
        }],
        vec![calls(vec![("sleepy", "{}")]), silent()],
    );
    host.timeout = Some(Duration::from_millis(120));
    host.run("go");
    assert_eq!(host.error_codes(), vec![ToolErrorCode::Timeout]);
    assert!(host.saw(finishes(false)));
}

// ---- On the wire ----

fn wire(api: &str, profile: &str, texts: Vec<String>) -> Host {
    let mut host = host_for(
        api,
        profile,
        vec![TestTool::Read {
            content: "hello from onemore\n",
        }],
        Model::Wire(texts.into()),
    );
    host.run("请读取 hello.txt");
    host
}

fn sse(events: &[(&str, &str)]) -> String {
    let mut out = String::new();
    for (name, data) in events {
        out.push_str(&format!("event: {}\ndata: {}\n\n", name, data));
    }
    out
}

fn at<'a>(value: &'a Json, path: &[&str]) -> Option<&'a Json> {
    let mut value = value;
    for key in path {
        value = match value {
            Json::Array(items) => items.get(key.parse::<usize>().unwrap())?,
            other => other.get(key)?,
        };
    }
    Some(value)
}

fn text_at<'a>(value: &'a Json, path: &[&str]) -> &'a str {
    at(value, path).and_then(|v| v.as_str()).unwrap_or("")
}

fn items<'a>(value: &'a Json, key: &str) -> &'a Vec<Json> {
    match value.get(key) {
        Some(Json::Array(items)) => items,
        other => panic!("no list under {}: {:?}", key, other),
    }
}

fn last_cache_usage(host: &Host) -> Option<CacheUsage> {
    host.events.borrow().iter().rev().find_map(|event| match event {
        AgentEvent::Usage { cache, .. } => *cache,
        _ => None,
    })
}

fn assert_common_events(host: &Host) {
    let mut saw_tool_ok = false;
    let mut final_texts: Vec<String> = Vec::new();
    let mut finished_ok = false;
    for event in host.events.borrow().iter() {
        match event {
            AgentEvent::ToolCallFinished {
                name,
                output,
                error,
                ..
            } => {
                assert_eq!(name, "read_file");
                assert!(error.is_none());
                assert!(output.model_text.contains("hello from onemore"));
                saw_tool_ok = true;
            }
            AgentEvent::AssistantMessage(t) => final_texts.push(t.clone()),
            AgentEvent::TurnFinished { cancelled } => {
                assert!(!cancelled);
                finished_ok = true;
            }
            AgentEvent::Error(message) => panic!("不应出现错误事件: {}", message),
            _ => {}
        }
    }
    assert!(saw_tool_ok);
    assert!(finished_ok);
    assert!(final_texts.iter().any(|t| t.contains("读取完成")));
}

#[test]
fn anthropic_full_tool_roundtrip() {
    let turn1 = sse(&[
        ("message_start", r#"{"type":"message_start","message":{"usage":{"input_tokens":12,"output_tokens":1,"cache_read_input_tokens":6,"cache_creation_input_tokens":4}}}"#),
        ("content_block_start", r#"{"type":"content_block_start","index":0,"content_block":{"type":"text","text":""}}"#),
        ("content_block_delta", r#"{"type":"content_block_delta","index":0,"delta":{"type":"text_delta","text":"我读一下。"}}"#),
        ("content_block_stop", r#"{"type":"content_block_stop","index":0}"#),
        ("content_block_start", r#"{"type":"content_block_start","index":1,"content_block":{"type":"tool_use","id":"toolu_01","name":"read_file","input":{}}}"#),
        ("content_block_delta", r#"{"type":"content_block_delta","index":1,"delta":{"type":"input_json_delta","partial_json":"{\"path\":\"hello.txt\"}"}}"#),
        ("content_block_stop", r#"{"type":"content_block_stop","index":1}"#),
        ("message_delta", r#"{"type":"message_delta","delta":{"stop_reason":"tool_use"},"usage":{"output_tokens":30}}"#),
        ("message_stop", r#"{"type":"message_stop"}"#),
    ]);
    let turn2 = sse(&[
        ("message_start", r#"{"type":"message_start","message":{"usage":{"input_tokens":60,"output_tokens":1,"cache_read_input_tokens":30,"cache_creation_input_tokens":0}}}"#),
        ("content_block_start", r#"{"type":"content_block_start","index":0,"content_block":{"type":"text","text":""}}"#),
        ("content_block_delta", r#"{"type":"content_block_delta","index":0,"delta":{"type":"text_delta","text":"读取完成。"}}"#),
        ("content_block_stop", r#"{"type":"content_block_stop","index":0}"#),
        ("message_delta", r#"{"type":"message_delta","delta":{"stop_reason":"end_turn"},"usage":{"output_tokens":8}}"#),
        ("message_stop", r#"{"type":"message_stop"}"#),
    ]);
    let host = wire("messages", "", vec![turn1, turn2]);
    assert_common_events(&host);
    let cache = last_cache_usage(&host).expect("Anthropic 应上报缓存用量");
    assert_eq!(cache.read_tokens, 36);
    assert_eq!(cache.write_tokens, 4);

    let body = &host.bodies[1];
    let messages = items(body, "messages");
    assert_eq!(messages.len(), 3);
    assert_eq!(text_at(&messages[1], &["role"]), "assistant");
    assert_eq!(text_at(&messages[1], &["content", "1", "type"]), "tool_use");
    assert_eq!(text_at(&messages[1], &["content", "1", "id"]), "toolu_01");
    assert_eq!(
        text_at(&messages[1], &["content", "1", "input", "path"]),
        "hello.txt"
    );
    assert_eq!(text_at(&messages[2], &["role"]), "user");
    assert_eq!(text_at(&messages[2], &["content", "0", "type"]), "tool_result");
    assert_eq!(
        text_at(&messages[2], &["content", "0", "tool_use_id"]),
        "toolu_01"
    );
    assert!(text_at(&messages[2], &["content", "0", "content"]).contains("hello from onemore"));
    assert!(items(body, "tools").iter().any(|tool| {
        text_at(tool, &["name"]) == "read_file"
            && text_at(tool, &["input_schema", "type"]) == "object"
    }));
    assert!(text_at(body, &["system"]).contains("Onemore"));
}

#[test]
fn responses_full_tool_roundtrip() {
    let turn1 = sse(&[
        ("response.created", r#"{"type":"response.created","response":{"id":"resp_1"}}"#),
        ("response.output_item.added", r#"{"type":"response.output_item.added","output_index":0,"item":{"type":"reasoning","id":"rs_1","summary":[]}}"#),
        ("response.output_item.done", r#"{"type":"response.output_item.done","output_index":0,"item":{"type":"reasoning","id":"rs_1","summary":[],"encrypted_content":"ENC_BLOB"}}"#),
        ("response.output_item.added", r#"{"type":"response.output_item.added","output_index":1,"item":{"type":"function_call","id":"fc_1","call_id":"call_r1","name":"read_file","arguments":""}}"#),
        ("response.function_call_arguments.delta", r#"{"type":"response.function_call_arguments.delta","output_index":1,"delta":"{\"path\":"}"#),
        ("response.function_call_arguments.delta", r#"{"type":"response.function_call_arguments.delta","output_index":1,"delta":"\"hello.txt\"}"}"#),
        ("response.output_item.done", r#"{"type":"response.output_item.done","output_index":1,"item":{"type":"function_call","id":"fc_1","call_id":"call_r1","name":"read_file","arguments":"{\"path\":\"hello.txt\"}","status":"completed"}}"#),
        ("response.completed", r#"{"type":"response.completed","response":{"id":"resp_1","status":"completed","usage":{"input_tokens":20,"output_tokens":18,"input_tokens_details":{"cached_tokens":8,"cache_write_tokens":2}}}}"#),
    ]);
    let turn2 = sse(&[
        ("response.created", r#"{"type":"response.created","response":{"id":"resp_2"}}"#),
        ("response.output_item.added", r#"{"type":"response.output_item.added","output_index":0,"item":{"type":"message","id":"msg_1","role":"assistant","content":[]}}"#),
        ("response.output_text.delta", r#"{"type":"response.output_text.delta","output_index":0,"delta":"读取"}"#),
        ("response.output_text.delta", r#"{"type":"response.output_text.delta","output_index":0,"delta":"完成。"}"#),
        ("response.output_item.done", r#"{"type":"response.output_item.done","output_index":0,"item":{"type":"message","id":"msg_1","role":"assistant","content":[{"type":"output_text","text":"读取完成。"}]}}"#),
        ("response.completed", r#"{"type":"response.completed","response":{"id":"resp_2","status":"completed","usage":{"input_tokens":90,"output_tokens":7,"input_tokens_details":{"cached_tokens":60,"cache_write_tokens":0}}}}"#),
    ]);
    let host = wire("responses", "", vec![turn1, turn2]);
    assert_common_events(&host);
    let cache = last_cache_usage(&host).expect("OpenAI 应上报缓存用量");
    assert_eq!(cache.read_tokens, 68);
    assert_eq!(cache.write_tokens, 2);

    let first = &host.bodies[0];
    let body = &host.bodies[1];
    let key = text_at(body, &["prompt_cache_key"]);
    assert_eq!(text_at(first, &["prompt_cache_key"]), key);
    assert!(key.starts_with("onemore:v1:openai-responses:"));
    assert_eq!(at(body, &["store"]).and_then(|v| v.as_bool()), Some(false));
    assert!(text_at(body, &["instructions"]).contains("Onemore"));
    let input = items(body, "input");
    assert_eq!(text_at(&input[0], &["type"]), "message");
    assert_eq!(text_at(&input[0], &["content", "0", "type"]), "input_text");
    assert_eq!(text_at(&input[1], &["type"]), "reasoning");
    assert_eq!(text_at(&input[1], &["encrypted_content"]), "ENC_BLOB");
    assert_eq!(text_at(&input[2], &["type"]), "function_call");
    assert_eq!(text_at(&input[2], &["call_id"]), "call_r1");
    assert_eq!(text_at(&input[3], &["type"]), "function_call_output");
    assert_eq!(text_at(&input[3], &["call_id"]), "call_r1");
    assert!(text_at(&input[3], &["output"]).contains("hello from onemore"));
    let read_file = items(body, "tools")
        .iter()
        .find(|tool| text_at(tool, &["name"]) == "read_file")
        .unwrap();
    assert_eq!(text_at(read_file, &["type"]), "function");
    assert!(read_file.get("function").is_none());
}

#[test]
fn deepseek_reasoning_text_is_streamed_without_encrypted_replay() {
    let turn1 = sse(&[
        ("response.created", r#"{"type":"response.created","response":{"id":"ds_resp_1"}}"#),
        ("response.output_item.added", r#"{"type":"response.output_item.added","output_index":0,"item":{"type":"reasoning","id":"rs_ds"}}"#),
        ("response.reasoning_text.delta", r#"{"type":"response.reasoning_text.delta","output_index":0,"delta":"先看文件。"}"#),
        ("response.reasoning_text.done", r#"{"type":"response.reasoning_text.done","output_index":0,"text":"先看文件。"}"#),
        ("response.output_item.done", r#"{"type":"response.output_item.done","output_index":0,"item":{"type":"reasoning","id":"rs_ds","text":"先看文件。"}}"#),
        ("response.output_item.added", r#"{"type":"response.output_item.added","output_index":1,"item":{"type":"function_call","id":"fc_ds","call_id":"call_ds","name":"read_file","arguments":""}}"#),
        ("response.function_call_arguments.delta", r#"{"type":"response.function_call_arguments.delta","output_index":1,"delta":"{\"path\":\"hello.txt\"}"}"#),
        ("response.output_item.done", r#"{"type":"response.output_item.done","output_index":1,"item":{"type":"function_call","id":"fc_ds","call_id":"call_ds","name":"read_file","arguments":"{\"path\":\"hello.txt\"}"}}"#),
        ("response.completed", r#"{"type":"response.completed","response":{"id":"ds_resp_1","usage":{"input_tokens":10,"output_tokens":12,"input_tokens_details":{"cached_tokens":6}}}}"#),
    ]);
    let turn2 = sse(&[
        ("response.output_item.added", r#"{"type":"response.output_item.added","output_index":0,"item":{"type":"message","id":"ds_msg_2","role":"assistant","content":[]}}"#),
        ("response.output_text.delta", r#"{"type":"response.output_text.delta","output_index":0,"delta":"读取完成。"}"#),
        ("response.completed", r#"{"type":"response.completed","response":{"id":"ds_resp_2","usage":{"input_tokens":20,"output_tokens":4,"input_tokens_details":{"cached_tokens":15}}}}"#),
    ]);
    let host = wire(
        "responses",
        "profile = \"deepseek-responses\"",
        vec![turn1, turn2],
    );
    assert_common_events(&host);
    let cache = last_cache_usage(&host).expect("DeepSeek 应上报缓存读取量");
    assert_eq!(cache.read_tokens, 21);
    assert_eq!(cache.write_tokens, 0);
    assert!(host.saw(|e| matches!(e, AgentEvent::ThinkingDelta(t) if t.contains("先看文件"))));

    let body = &host.bodies[1];
    assert!(body.get("store").is_none());
    assert!(body.get("include").is_none());
    assert!(body.get("prompt_cache_key").is_none());
    assert!(items(body, "input")
        .iter()
        .all(|item| text_at(item, &["type"]) != "reasoning"));
}

#[test]
fn anthropic_eof_before_message_stop_is_an_error() {
    let host = wire(
        "messages",
        "",
        vec![sse(&[
            ("message_start", r#"{"type":"message_start","message":{"usage":{"input_tokens":1,"output_tokens":0}}}"#),
            ("content_block_start", r#"{"type":"content_block_start","index":0,"content_block":{"type":"text","text":""}}"#),
            ("content_block_delta", r#"{"type":"content_block_delta","index":0,"delta":{"type":"text_delta","text":"partial"}}"#),
            ("content_block_stop", r#"{"type":"content_block_stop","index":0}"#),
        ])],
    );
    assert!(host.saw(|e| matches!(e, AgentEvent::Error(m) if m.contains("终止事件"))));
    assert!(host.saw(finishes(false)));
}

#[test]
fn responses_eof_before_terminal_is_an_error() {
    let host = wire(
        "responses",
        "",
        vec![sse(&[
            ("response.created", r#"{"type":"response.created","response":{"id":"eof"}}"#),
            ("response.output_item.added", r#"{"type":"response.output_item.added","output_index":0,"item":{"type":"message","id":"m"}}"#),
            ("response.output_text.delta", r#"{"type":"response.output_text.delta","output_index":0,"delta":"partial"}"#),
        ])],
    );
    assert!(host.saw(|e| matches!(e, AgentEvent::Error(m) if m.contains("terminal"))));
    assert!(host.saw(finishes(false)));
}

// ---- The pieces ----

#[test]
fn retry_policy_is_deterministic_and_bounded() {
    let policy = RetryPolicy {
        max_attempts: 3,
        base_delay: Duration::from_secs(2),
        max_delay: Duration::from_secs(30),
        max_retry_after: Duration::from_secs(60),
        jitter_seed: 42,
    };
    assert_eq!(policy.delay_for(3, None), None);
    assert_eq!(policy.delay_for(1, Some(Duration::from_secs(120))), None);
    assert_eq!(
        policy.delay_for(1, Some(Duration::from_millis(2500))),
        Some(Duration::from_millis(2500))
    );
    let first = policy.delay_for(1, None).unwrap();
    assert!(first >= Duration::from_secs(2) && first < Duration::from_millis(2500));
    assert_eq!(policy.delay_for(1, None), Some(first));
    let second = policy.delay_for(2, None).unwrap();
    assert!(second >= Duration::from_secs(4) && second < Duration::from_secs(5));
    let capped = RetryPolicy {
        base_delay: Duration::from_secs(20),
        max_delay: Duration::from_secs(30),
        ..policy
    };
    assert!(capped.delay_for(2, None).unwrap() <= Duration::from_secs(30));
}

#[test]
fn stale_answers_are_ignored() {
    let mut shown = Vec::new();
    let step = on_approval_signal(
        "now",
        ApprovalSignal::Response(ApprovalResponse {
            request_id: "before".to_string(),
            decision: ApprovalDecision::Allow(ApprovalScope::Once),
        }),
        &mut shown,
    );
    assert!(matches!(step, ApprovalStep::Wait));
    assert!(matches!(&shown[0], AgentEvent::Notice(t) if t == "忽略过期审批响应 before"));
    let step = on_approval_signal("now", ApprovalSignal::Closed, &mut shown);
    assert!(matches!(step, ApprovalStep::Refused(_)));
    let step = on_approval_signal("now", ApprovalSignal::Tick, &mut shown);
    assert!(matches!(step, ApprovalStep::Wait));
}

#[test]
fn hidden_calls_show_no_stream() {
    let mut hidden = ModelCall::new(false);
    assert!(hidden
        .on_event(ProviderEvent::TextDelta("x".to_string()))
        .is_none());
    assert!(hidden.emitted_any);
    let mut shown = ModelCall::new(true);
    assert!(matches!(
        shown.on_event(ProviderEvent::ToolCallBegun { name: "n".to_string() }),
        Some(AgentEvent::ToolCallPending { name }) if name == "n"
    ));
}

#[test]
fn calls_that_showed_anything_are_not_repeated() {
    let failure = || {
        StreamTerminal::Error(FailedTurn::from_error(ProviderError {
            message: "busy".to_string(),
            retryable: true,
            retry_after: None,
        }))
    };
    let policy = RetryPolicy::default();
    let mut call = ModelCall::new(true);
    assert!(matches!(
        call.on_end(&policy, failure()),
        CallStep::Wait { .. }
    ));
    assert_eq!(call.attempt, 2);
    call.on_event(ProviderEvent::TextDelta("x".to_string()));
    assert!(matches!(
        call.on_end(&policy, failure()),
        CallStep::Failed(_)
    ));
}

#[test]
fn waits_can_be_cancelled() {
    let wait = Duration::from_millis(250);
    assert!(matches!(
        nap(wait, Duration::from_millis(200), false),
        Nap::Sleep(d) if d == Duration::from_millis(100)
    ));
    assert!(matches!(
        nap(wait, Duration::from_millis(200), true),
        Nap::Cancelled(_)
    ));
    assert!(matches!(
        nap(wait, Duration::from_millis(300), true),
        Nap::Over
    ));
}

#[test]
fn agents_change_their_model_and_forget_their_past() {
    let mut host = host(Vec::new(), vec![says("回答")]);
    assert!(host.handle(AgentCommand::UserInput("问题".to_string())));
    assert_eq!(host.agent.provider_label(), "mock / scripted");
    assert!(host.handle(AgentCommand::SetModel("next".to_string())));
    match &host.agent.entries.last().unwrap().payload {
        SessionEntryPayload::ModelChange(change) => {
            assert_eq!(change.provider, "mock / next");
            assert_eq!(change.model, "next");
            assert_eq!(change.effort, "medium");
        }
        other => panic!("{:?}", other),
    }
    assert!(host.saw(|e| matches!(e, AgentEvent::Notice(t) if t == "模型已设为 mock / next")));
    assert!(host.handle(AgentCommand::SwitchProvider("gone".to_string())));
    assert!(host.saw(|e| matches!(e, AgentEvent::Error(t) if t.starts_with("切换失败: "))));
    assert!(host.handle(AgentCommand::SwitchProvider("mock".to_string())));
    assert!(host.saw(
        |e| matches!(e, AgentEvent::Notice(t) if t == "已切换到 mock / scripted(历史保留)")
    ));
    assert_eq!(host.agent.entries.len(), 4);
    assert!(host.handle(AgentCommand::ListSessions));
    assert!(host.saw(|e| matches!(e, AgentEvent::Error(t) if t == "读取会话列表失败: locked")));
    assert!(host.handle(AgentCommand::LoadSession("other".to_string())));
    assert!(host.saw(|e| matches!(e, AgentEvent::SessionLoaded { id, .. } if id == "other")));
    let mut shown = Vec::new();
    host.agent
        .take_reply(CommandReply::Cleared(Some("锁".to_string())), &mut shown);
    assert_eq!(host.agent.entries.len(), 4);
    assert!(host.handle(AgentCommand::ClearConversation));
    assert!(host.agent.entries.is_empty());
    assert!(host.saw(|e| matches!(e, AgentEvent::ConversationCleared)));
    assert!(!host.handle(AgentCommand::Shutdown));
}

#[test]
fn models_change_although_the_fact_is_not_stored() {
    let mut host = host(Vec::new(), Vec::new());
    let step = host
        .agent
        .handle_command(AgentCommand::SetModel("next".to_string()));
    assert!(matches!(
        step,
        CommandStep::Record {
            change: Change::Model,
            ..
        }
    ));
    let mut shown = Vec::new();
    host.agent.take_reply(
        CommandReply::Recorded {
            change: Change::Model,
            stored: Err("full".to_string()),
        },
        &mut shown,
    );
    assert!(matches!(&shown[0], AgentEvent::Error(t) if t.contains("full")));
    assert!(matches!(&shown[1], AgentEvent::ProviderChanged { .. }));
    assert!(host.agent.entries.is_empty());
    assert_eq!(host.agent.provider_label(), "mock / next");
}

#[test]
fn waits_do_not_shrink() {
    let policy = RetryPolicy {
        max_attempts: 22,
        base_delay: Duration::from_millis(1),
        max_delay: Duration::from_secs(30),
        max_retry_after: Duration::from_secs(60),
        jitter_seed: 7,
    };
    for attempt in 1..21 {
        assert!(policy.delay_for(attempt, None) <= policy.delay_for(attempt + 1, None));
    }
}

#[test]
fn runs_are_shown_from_the_prompt_to_the_end() {
    let (tool, _) = counted(ToolCapabilities::read_only(), ToolPermissionSpec::default());
    let mut host = host(
        vec![tool],
        vec![
            calls(vec![("counted", "{\"path\": \"a\"}"), ("unknown", "{}")]),
            says("done"),
        ],
    );
    host.run("go");
    let events = host.events.borrow();
    assert!(matches!(&events[0], AgentEvent::UserMessage(text) if text == "go"));
    assert!(matches!(events.last(), Some(AgentEvent::TurnFinished { cancelled: false })));
    let ends = events.iter().filter(|e| matches!(e, AgentEvent::TurnFinished { .. }));
    assert_eq!(ends.count(), 1);
    let begins = events.iter().filter(|e| matches!(e, AgentEvent::TurnStarted));
    assert_eq!(begins.count(), 1);
    let mut open: Vec<&String> = Vec::new();
    for event in events.iter() {
        match event {
            AgentEvent::ToolCallStarted { id, .. } => open.push(id),
            AgentEvent::ToolCallFinished { id, .. } => {
                let at = open.iter().position(|own| *own == id).unwrap();
                open.remove(at);
            }
            _ => {}
        }
    }
    assert!(open.is_empty());
}

#[test]
fn switched_agents_speak_the_interface_of_their_provider() {
    let mut host = host(Vec::new(), Vec::new());
    let url = |host: &Host| host.agent.provider.request(&PromptContext::default(), &Vec::new()).url;
    assert!(url(&host).ends_with("v1/responses"));
    let mut shown = Vec::new();
    let refused = host
        .agent
        .take_reply(CommandReply::Resolved(Err("gone".to_string())), &mut shown);
    assert!(matches!(refused, CommandStep::Done { more: true }));
    assert!(matches!(shown.as_slice(), [AgentEvent::Error(_)]));
    assert!(url(&host).ends_with("v1/responses"));
    let config = Config::parse(&config_text("messages", "")).unwrap();
    host.agent.take_reply(
        CommandReply::Resolved(config.resolve_provider("mock", None)),
        &mut shown,
    );
    assert!(url(&host).ends_with("v1/messages"));
    host.agent.handle_command(AgentCommand::SetModel("next".to_string()));
    assert!(url(&host).ends_with("v1/messages"));
}

#[test]
fn rules_outlive_the_conversation() {
    let (tool, _) = counted(ToolCapabilities::mutation(), ToolPermissionSpec::paths(&["path"]));
    let mut host = host(vec![tool], Vec::new());
    let rules = PermissionRules {
        workspace_write: PermissionRule::Deny,
        ..PermissionRules::default()
    };
    host.agent.permissions = PermissionManager::new(rules);
    host.handle(AgentCommand::ClearConversation);
    host.handle(AgentCommand::LoadSession("other".to_string()));
    host.handle(AgentCommand::SwitchProvider("mock".to_string()));
    let arguments = Json::parse("{\"path\": \"a\"}").unwrap();
    let call = host.tools.prepare("counted", &arguments).unwrap();
    let place = |path: &str| Located::Path(path.to_string());
    let places = Places {
        root: place("/work"),
        paths: vec![place("/work/a")],
    };
    let decision = host.agent.permissions.evaluate(&call, &host.workspace, &places);
    assert!(matches!(decision, PermissionDecision::Deny { .. }));
}
