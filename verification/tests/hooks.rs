use onemore::hooks::{
    Hook, HookEvent, HookFailureMode, HookRegistry, PostToolUseContext, PostToolUseHookResult,
    PreToolUseContext, PreToolUseHookResult, StopContext, StopHookResult, UserPromptContext,
    UserPromptHookResult,
};
use onemore::json::{equal, Json};
use onemore::message::ChatMessage;
use onemore::plan::PlanSnapshot;
use onemore::tools::{
    ToolCapabilities, ToolEffect, ToolOutcome, ToolOutput, ToolPermissionSpec, ToolSpec,
};

fn object(text: &str) -> Json {
    Json::parse(text).unwrap()
}

struct ReplaceHook {
    name: &'static str,
    replacement: Json,
}

impl Hook for ReplaceHook {
    fn name(&self) -> &str {
        self.name
    }

    fn pre_tool_use(
        &mut self,
        _ctx: &PreToolUseContext<'_>,
    ) -> Result<PreToolUseHookResult, String> {
        Ok(PreToolUseHookResult::ReplaceArguments(
            self.replacement.clone(),
        ))
    }
}

struct FailingHook {
    mode: HookFailureMode,
}

impl Hook for FailingHook {
    fn name(&self) -> &str {
        "failing"
    }

    fn failure_mode(&self, _event: HookEvent) -> HookFailureMode {
        self.mode
    }

    fn pre_tool_use(
        &mut self,
        _ctx: &PreToolUseContext<'_>,
    ) -> Result<PreToolUseHookResult, String> {
        Err("boom".to_string())
    }
}

fn spec() -> ToolSpec {
    ToolSpec {
        name: "test".to_string(),
        description: "test".to_string(),
        schema: object("{\"type\": \"object\"}"),
        capabilities: ToolCapabilities::read_only(),
        permission: ToolPermissionSpec::default(),
    }
}

#[test]
fn hooks_run_in_registration_order_with_deterministic_last_replacement() {
    let mut registry = HookRegistry::new(vec![
        ReplaceHook {
            name: "first",
            replacement: object("{\"step\": 1}"),
        },
        ReplaceHook {
            name: "second",
            replacement: object("{\"step\": 2}"),
        },
    ]);
    let result = registry.run_pre_tool(&spec(), &object("{}"), "session");
    assert!(equal(&result.arguments, &object("{\"step\": 2}")));
    assert!(result.block.is_none());
}

#[test]
fn hook_failure_mode_is_explicit() {
    let mut open = HookRegistry::new(vec![FailingHook {
        mode: HookFailureMode::Open,
    }]);
    let result = open.run_pre_tool(&spec(), &object("{}"), "session");
    assert!(result.block.is_none());
    assert_eq!(result.warnings.len(), 1);
    assert_eq!(result.warnings[0], "Hook failing 在 PreToolUse 失败: boom");

    let mut closed = HookRegistry::new(vec![FailingHook {
        mode: HookFailureMode::Closed,
    }]);
    let result = closed.run_pre_tool(&spec(), &object("{}"), "session");
    assert!(result.block.is_some());
    assert!(result.warnings.is_empty());
}

struct PostHook;

impl Hook for PostHook {
    fn name(&self) -> &str {
        "post"
    }

    fn post_tool_use(
        &mut self,
        _ctx: &PostToolUseContext<'_>,
    ) -> Result<PostToolUseHookResult, String> {
        Ok(PostToolUseHookResult::ReplaceOutcome(ToolOutcome::success(
            ToolOutput::text("redacted".to_string()),
        )))
    }
}

#[test]
fn post_hook_can_replace_structured_outcome_without_losing_type() {
    let mut registry = HookRegistry::new(vec![PostHook]);
    let result = registry.run_post_tool(
        &spec(),
        &object("{}"),
        ToolOutcome::success(ToolOutput::text("secret".to_string())),
        "session",
    );
    assert_eq!(result.outcome.output.model_text, "redacted");
}

#[test]
fn post_hooks_cannot_erase_effects() {
    let mut registry = HookRegistry::new(vec![PostHook, PostHook]);
    let mut outcome = ToolOutcome::success(ToolOutput::text("secret".to_string()));
    outcome.effects.push(ToolEffect::PlanUpdated(PlanSnapshot {
        revision: 3,
        items: Vec::new(),
        explanation: None,
    }));
    let result = registry.run_post_tool(&spec(), &object("{}"), outcome, "session");
    assert_eq!(result.outcome.effects.len(), 1);
}

struct PromptHook {
    adds: bool,
}

impl Hook for PromptHook {
    fn name(&self) -> &str {
        "prompt"
    }

    fn user_prompt_submit(
        &mut self,
        ctx: &UserPromptContext<'_>,
    ) -> Result<UserPromptHookResult, String> {
        if self.adds {
            Ok(UserPromptHookResult::AddContext(ChatMessage::user_text(
                format!("about {}", ctx.prompt),
            )))
        } else {
            Ok(UserPromptHookResult::AddContext(
                ChatMessage::empty_assistant(),
            ))
        }
    }

    fn stop(&mut self, _ctx: &StopContext<'_>) -> Result<StopHookResult, String> {
        Ok(StopHookResult::PreventStop("not yet".to_string()))
    }
}

#[test]
fn prompt_hooks_add_plain_text_only() {
    let mut registry = HookRegistry::new(vec![PromptHook { adds: true }]);
    let result = registry.run_user_prompt("tests", "session");
    assert_eq!(result.added_context.len(), 1);
    assert_eq!(result.added_context[0].text(), "about tests");
    assert!(result.block.is_none());

    let mut registry = HookRegistry::new(vec![PromptHook { adds: false }]);
    let result = registry.run_user_prompt("tests", "session");
    assert!(result.added_context.is_empty());
    assert_eq!(
        result.block.as_deref(),
        Some("Hook prompt 返回了非法上下文；只允许纯文本 user 消息")
    );
}

#[test]
fn stop_hooks_name_themselves() {
    let mut registry = HookRegistry::new(vec![PromptHook { adds: true }]);
    let result = registry.run_stop(&ChatMessage::empty_assistant(), "session");
    assert_eq!(result.prevent_stop.as_deref(), Some("Hook prompt: not yet"));
}
