//! The four extension points of the agent loop.
//!
//! Hooks run in the order of their registration. A hook that fails open leaves a warning; one that
//! fails closed stops what has not happened yet, or, where the tool has already run, asks to stop
//! once its outcome is recorded.
use vstd::prelude::*;

use crate::json::{Json, JsonView};
use crate::list::{empty, put};
use crate::message::{Block, ChatMessage, MessageView, Role};
use crate::text::concat3;
use crate::tools::{OutcomeView, ToolOutcome, ToolSpec};

verus! {

#[derive(Debug, Clone, Copy, PartialEq, Eq, Structural)]
pub enum HookEvent {
    UserPromptSubmit,
    PreToolUse,
    PostToolUse,
    Stop,
}

impl HookEvent {
    pub open spec fn label(self) -> Seq<char> {
        match self {
            HookEvent::UserPromptSubmit => "UserPromptSubmit"@,
            HookEvent::PreToolUse => "PreToolUse"@,
            HookEvent::PostToolUse => "PostToolUse"@,
            HookEvent::Stop => "Stop"@,
        }
    }

    pub fn text(self) -> (s: &'static str)
        ensures
            s@ == self.label(),
    {
        match self {
            HookEvent::UserPromptSubmit => "UserPromptSubmit",
            HookEvent::PreToolUse => "PreToolUse",
            HookEvent::PostToolUse => "PostToolUse",
            HookEvent::Stop => "Stop",
        }
    }
}

#[derive(Debug, Clone, Copy, PartialEq, Eq, Structural)]
pub enum HookFailureMode {
    Open,
    Closed,
}

pub struct UserPromptContext<'a> {
    pub prompt: &'a str,
    pub session_id: &'a str,
}

pub struct PreToolUseContext<'a> {
    pub spec: &'a ToolSpec,
    pub arguments: &'a Json,
    pub session_id: &'a str,
}

pub struct PostToolUseContext<'a> {
    pub spec: &'a ToolSpec,
    pub arguments: &'a Json,
    pub outcome: &'a ToolOutcome,
    pub session_id: &'a str,
}

pub struct StopContext<'a> {
    pub assistant: &'a ChatMessage,
    pub session_id: &'a str,
}

pub enum UserPromptHookResult {
    Continue,
    Block(String),
    AddContext(ChatMessage),
}

pub enum PreToolUseHookResult {
    Continue,
    Block(String),
    ReplaceArguments(Json),
}

pub enum PostToolUseHookResult {
    Continue,
    ReplaceOutcome(ToolOutcome),
    StopAfterCommit(String),
}

pub enum StopHookResult {
    Continue,
    PreventStop(String),
}

/// A hook. An error is the text of what went wrong. A hook that leaves an event alone lets it go
/// on.
pub trait Hook {
    fn name(&self) -> (s: &str);

    fn failure_mode(&self, event: HookEvent) -> (m: HookFailureMode)
        default_ensures
            m == HookFailureMode::Closed,
    {
        HookFailureMode::Closed
    }

    fn user_prompt_submit(&mut self, ctx: &UserPromptContext<'_>) -> (r: Result<
        UserPromptHookResult,
        String,
    >)
        default_ensures
            r == Ok::<UserPromptHookResult, String>(UserPromptHookResult::Continue),
    {
        Ok(UserPromptHookResult::Continue)
    }

    fn pre_tool_use(&mut self, ctx: &PreToolUseContext<'_>) -> (r: Result<
        PreToolUseHookResult,
        String,
    >)
        default_ensures
            r == Ok::<PreToolUseHookResult, String>(PreToolUseHookResult::Continue),
    {
        Ok(PreToolUseHookResult::Continue)
    }

    fn post_tool_use(&mut self, ctx: &PostToolUseContext<'_>) -> (r: Result<
        PostToolUseHookResult,
        String,
    >)
        default_ensures
            r == Ok::<PostToolUseHookResult, String>(PostToolUseHookResult::Continue),
    {
        Ok(PostToolUseHookResult::Continue)
    }

    fn stop(&mut self, ctx: &StopContext<'_>) -> (r: Result<StopHookResult, String>)
        default_ensures
            r == Ok::<StopHookResult, String>(StopHookResult::Continue),
    {
        Ok(StopHookResult::Continue)
    }
}

pub struct UserPromptPipeline {
    pub added_context: Vec<ChatMessage>,
    pub block: Option<String>,
    pub warnings: Vec<String>,
}

pub struct PreToolUsePipeline {
    pub arguments: Json,
    pub block: Option<String>,
    pub warnings: Vec<String>,
}

pub struct PostToolUsePipeline {
    pub outcome: ToolOutcome,
    pub stop_after_commit: Option<String>,
    pub warnings: Vec<String>,
}

pub struct StopPipeline {
    pub prevent_stop: Option<String>,
    pub warnings: Vec<String>,
}

#[verifier::ext_equal]
pub struct PromptView {
    pub added_context: Seq<MessageView>,
    pub block: Option<Seq<char>>,
    pub warnings: Seq<Seq<char>>,
}

#[verifier::ext_equal]
pub struct PreView {
    pub arguments: JsonView,
    pub block: Option<Seq<char>>,
    pub warnings: Seq<Seq<char>>,
}

#[verifier::ext_equal]
pub struct PostView {
    pub outcome: OutcomeView,
    pub stop_after_commit: Option<Seq<char>>,
    pub warnings: Seq<Seq<char>>,
}

#[verifier::ext_equal]
pub struct StopView {
    pub prevent_stop: Option<Seq<char>>,
    pub warnings: Seq<Seq<char>>,
}

impl DeepView for UserPromptPipeline {
    type V = PromptView;

    open spec fn deep_view(&self) -> PromptView {
        PromptView {
            added_context: self.added_context.deep_view(),
            block: self.block.deep_view(),
            warnings: self.warnings.deep_view(),
        }
    }
}

impl DeepView for PreToolUsePipeline {
    type V = PreView;

    open spec fn deep_view(&self) -> PreView {
        PreView {
            arguments: self.arguments@,
            block: self.block.deep_view(),
            warnings: self.warnings.deep_view(),
        }
    }
}

impl DeepView for PostToolUsePipeline {
    type V = PostView;

    open spec fn deep_view(&self) -> PostView {
        PostView {
            outcome: self.outcome.deep_view(),
            stop_after_commit: self.stop_after_commit.deep_view(),
            warnings: self.warnings.deep_view(),
        }
    }
}

impl DeepView for StopPipeline {
    type V = StopView;

    open spec fn deep_view(&self) -> StopView {
        StopView {
            prevent_stop: self.prevent_stop.deep_view(),
            warnings: self.warnings.deep_view(),
        }
    }
}

/// What a hook said: its name, its failure mode for the event, and its result.
pub struct Reply<R> {
    pub name: Seq<char>,
    pub mode: HookFailureMode,
    pub result: Result<R, String>,
}

/// The text of a hook that failed.
pub open spec fn failure_text(name: Seq<char>, event: HookEvent, error: Seq<char>) -> Seq<char> {
    "Hook "@ + name + " 在 "@ + event.label() + " 失败: "@ + error
}

fn describe_failure(name: &str, event: HookEvent, error: &str) -> (s: String)
    ensures
        s@ == failure_text(name@, event, error@),
{
    let mut s = concat3("Hook ", name, " 在 ");
    s.push_str(event.text());
    s.push_str(" 失败: ");
    s.push_str(error);
    s
}

/// The text of a hook that objects.
pub open spec fn objection(name: Seq<char>, reason: Seq<char>) -> Seq<char> {
    "Hook "@ + name + ": "@ + reason
}

fn describe_objection(name: &str, reason: &str) -> (s: String)
    ensures
        s@ == objection(name@, reason@),
{
    let mut s = concat3("Hook ", name, ": ");
    s.push_str(reason);
    s
}

/// A warning, or a reason to stop, depending on how the hook fails.
fn handle_failure(
    name: &str,
    mode: HookFailureMode,
    event: HookEvent,
    error: &str,
    warnings: &mut Vec<String>,
    block: &mut Option<String>,
)
    ensures
        mode == HookFailureMode::Open ==> final(block).deep_view() == old(block).deep_view()
            && final(warnings).deep_view() == old(warnings).deep_view().push(
            failure_text(name@, event, error@),
        ),
        mode == HookFailureMode::Closed ==> final(warnings).deep_view() == old(warnings).deep_view()
            && final(block).deep_view() == Some(failure_text(name@, event, error@)),
{
    let message = describe_failure(name, event, error);
    match mode {
        HookFailureMode::Open => put(warnings, message),
        HookFailureMode::Closed => {
            *block = Some(message);
        },
    }
}

/// A hook may only add plain text of the user.
pub open spec fn is_plain_text(message: MessageView) -> bool {
    message.role == Role::User && forall|i: int|
        0 <= i < message.blocks.len() ==> (#[trigger] message.blocks[i]) is Text
}

fn plain_text(message: &ChatMessage) -> (r: bool)
    ensures
        r == is_plain_text(message.deep_view()),
{
    if message.role != Role::User {
        return false;
    }
    let mut i: usize = 0;
    while i < message.blocks.len()
        invariant
            i <= message.blocks@.len(),
            message.role == Role::User,
            forall|k: int|
                0 <= k < i ==> (#[trigger] message.deep_view().blocks[k]) is Text,
        decreases message.blocks@.len() - i,
    {
        if !matches!(message.blocks[i], Block::Text(_)) {
            assert(!(message.deep_view().blocks[i as int] is Text));
            return false;
        }
        i = i + 1;
    }
    true
}

// ---- What each reply does to its pipeline ----

pub open spec fn after_prompt(p: PromptView, reply: Reply<UserPromptHookResult>) -> PromptView {
    match reply.result {
        Ok(UserPromptHookResult::Continue) => p,
        Ok(UserPromptHookResult::Block(reason)) => PromptView {
            block: Some(objection(reply.name, reason@)),
            ..p
        },
        Ok(UserPromptHookResult::AddContext(message)) => if is_plain_text(message.deep_view()) {
            PromptView { added_context: p.added_context.push(message.deep_view()), ..p }
        } else {
            PromptView {
                block: Some(
                    "Hook "@ + reply.name + " 返回了非法上下文；只允许纯文本 user 消息"@,
                ),
                ..p
            }
        },
        Err(error) => match reply.mode {
            HookFailureMode::Open => PromptView {
                warnings: p.warnings.push(
                    failure_text(reply.name, HookEvent::UserPromptSubmit, error@),
                ),
                ..p
            },
            HookFailureMode::Closed => PromptView {
                block: Some(failure_text(reply.name, HookEvent::UserPromptSubmit, error@)),
                ..p
            },
        },
    }
}

pub open spec fn after_pre(p: PreView, reply: Reply<PreToolUseHookResult>) -> PreView {
    match reply.result {
        Ok(PreToolUseHookResult::Continue) => p,
        Ok(PreToolUseHookResult::Block(reason)) => PreView {
            block: Some(objection(reply.name, reason@)),
            ..p
        },
        Ok(PreToolUseHookResult::ReplaceArguments(arguments)) => PreView {
            arguments: arguments@,
            ..p
        },
        Err(error) => match reply.mode {
            HookFailureMode::Open => PreView {
                warnings: p.warnings.push(
                    failure_text(reply.name, HookEvent::PreToolUse, error@),
                ),
                ..p
            },
            HookFailureMode::Closed => PreView {
                block: Some(failure_text(reply.name, HookEvent::PreToolUse, error@)),
                ..p
            },
        },
    }
}

pub open spec fn after_post(p: PostView, reply: Reply<PostToolUseHookResult>) -> PostView {
    match reply.result {
        Ok(PostToolUseHookResult::Continue) => p,
        Ok(PostToolUseHookResult::ReplaceOutcome(outcome)) => PostView {
            outcome: OutcomeView { effects: p.outcome.effects, ..outcome.deep_view() },
            ..p
        },
        Ok(PostToolUseHookResult::StopAfterCommit(reason)) => PostView {
            stop_after_commit: Some(objection(reply.name, reason@)),
            ..p
        },
        Err(error) => match reply.mode {
            HookFailureMode::Open => PostView {
                warnings: p.warnings.push(
                    failure_text(reply.name, HookEvent::PostToolUse, error@),
                ),
                ..p
            },
            HookFailureMode::Closed => PostView {
                stop_after_commit: Some(
                    failure_text(reply.name, HookEvent::PostToolUse, error@),
                ),
                ..p
            },
        },
    }
}

pub open spec fn after_stop(p: StopView, reply: Reply<StopHookResult>) -> StopView {
    match reply.result {
        Ok(StopHookResult::Continue) => p,
        Ok(StopHookResult::PreventStop(reason)) => StopView {
            prevent_stop: Some(objection(reply.name, reason@)),
            ..p
        },
        Err(error) => match reply.mode {
            HookFailureMode::Open => StopView {
                warnings: p.warnings.push(failure_text(reply.name, HookEvent::Stop, error@)),
                ..p
            },
            HookFailureMode::Closed => StopView {
                prevent_stop: Some(failure_text(reply.name, HookEvent::Stop, error@)),
                ..p
            },
        },
    }
}

pub fn take_prompt_reply(
    p: &mut UserPromptPipeline,
    name: &str,
    mode: HookFailureMode,
    result: Result<UserPromptHookResult, String>,
)
    ensures
        final(p).deep_view() == after_prompt(
            old(p).deep_view(),
            Reply { name: name@, mode, result },
        ),
{
    match result {
        Ok(UserPromptHookResult::Continue) => {},
        Ok(UserPromptHookResult::Block(reason)) => {
            p.block = Some(describe_objection(name, reason.as_str()));
        },
        Ok(UserPromptHookResult::AddContext(message)) => {
            if plain_text(&message) {
                put(&mut p.added_context, message);
            } else {
                p.block = Some(
                    concat3("Hook ", name, " 返回了非法上下文；只允许纯文本 user 消息"),
                );
            }
        },
        Err(error) => {
            handle_failure(
                name,
                mode,
                HookEvent::UserPromptSubmit,
                error.as_str(),
                &mut p.warnings,
                &mut p.block,
            );
        },
    }
}

pub fn take_pre_reply(
    p: &mut PreToolUsePipeline,
    name: &str,
    mode: HookFailureMode,
    result: Result<PreToolUseHookResult, String>,
)
    ensures
        final(p).deep_view() == after_pre(old(p).deep_view(), Reply { name: name@, mode, result }),
{
    match result {
        Ok(PreToolUseHookResult::Continue) => {},
        Ok(PreToolUseHookResult::Block(reason)) => {
            p.block = Some(describe_objection(name, reason.as_str()));
        },
        Ok(PreToolUseHookResult::ReplaceArguments(arguments)) => {
            p.arguments = arguments;
        },
        Err(error) => {
            handle_failure(
                name,
                mode,
                HookEvent::PreToolUse,
                error.as_str(),
                &mut p.warnings,
                &mut p.block,
            );
        },
    }
}

pub fn take_post_reply(
    p: &mut PostToolUsePipeline,
    name: &str,
    mode: HookFailureMode,
    result: Result<PostToolUseHookResult, String>,
)
    ensures
        final(p).deep_view() == after_post(
            old(p).deep_view(),
            Reply { name: name@, mode, result },
        ),
{
    match result {
        Ok(PostToolUseHookResult::Continue) => {},
        Ok(PostToolUseHookResult::ReplaceOutcome(outcome)) => {
            p.outcome.output = outcome.output;
            p.outcome.error = outcome.error;
        },
        Ok(PostToolUseHookResult::StopAfterCommit(reason)) => {
            p.stop_after_commit = Some(describe_objection(name, reason.as_str()));
        },
        Err(error) => {
            handle_failure(
                name,
                mode,
                HookEvent::PostToolUse,
                error.as_str(),
                &mut p.warnings,
                &mut p.stop_after_commit,
            );
        },
    }
}

pub fn take_stop_reply(
    p: &mut StopPipeline,
    name: &str,
    mode: HookFailureMode,
    result: Result<StopHookResult, String>,
)
    ensures
        final(p).deep_view() == after_stop(old(p).deep_view(), Reply { name: name@, mode, result }),
{
    match result {
        Ok(StopHookResult::Continue) => {},
        Ok(StopHookResult::PreventStop(reason)) => {
            p.prevent_stop = Some(describe_objection(name, reason.as_str()));
        },
        Err(error) => {
            handle_failure(
                name,
                mode,
                HookEvent::Stop,
                error.as_str(),
                &mut p.warnings,
                &mut p.prevent_stop,
            );
        },
    }
}

// ---- Pipelines: the replies one after the other ----

pub open spec fn prompt_fold(replies: Seq<Reply<UserPromptHookResult>>) -> PromptView
    decreases replies.len(),
{
    if replies.len() == 0 {
        PromptView { added_context: seq![], block: None, warnings: seq![] }
    } else {
        after_prompt(prompt_fold(replies.drop_last()), replies.last())
    }
}

pub open spec fn pre_fold(arguments: JsonView, replies: Seq<Reply<PreToolUseHookResult>>) -> PreView
    decreases replies.len(),
{
    if replies.len() == 0 {
        PreView { arguments, block: None, warnings: seq![] }
    } else {
        after_pre(pre_fold(arguments, replies.drop_last()), replies.last())
    }
}

pub open spec fn post_fold(outcome: OutcomeView, replies: Seq<Reply<PostToolUseHookResult>>) -> PostView
    decreases replies.len(),
{
    if replies.len() == 0 {
        PostView { outcome, stop_after_commit: None, warnings: seq![] }
    } else {
        after_post(post_fold(outcome, replies.drop_last()), replies.last())
    }
}

pub open spec fn stop_fold(replies: Seq<Reply<StopHookResult>>) -> StopView
    decreases replies.len(),
{
    if replies.len() == 0 {
        StopView { prevent_stop: None, warnings: seq![] }
    } else {
        after_stop(stop_fold(replies.drop_last()), replies.last())
    }
}

// ---- What the hooks are asked ----

/// Whether a hook sees a prompt, in a session.
pub open spec fn sees_prompt(ctx: UserPromptContext<'_>, prompt: Seq<char>, session: Seq<char>) -> bool {
    ctx.prompt@ == prompt && ctx.session_id@ == session
}

/// Whether a hook sees a call with some arguments, in a session.
pub open spec fn sees_call(
    ctx: PreToolUseContext<'_>,
    spec: ToolSpec,
    arguments: JsonView,
    session: Seq<char>,
) -> bool {
    *ctx.spec == spec && ctx.arguments@ == arguments && ctx.session_id@ == session
}

/// Whether a hook sees an outcome of a call, in a session.
pub open spec fn sees_outcome(
    ctx: PostToolUseContext<'_>,
    spec: ToolSpec,
    arguments: JsonView,
    outcome: OutcomeView,
    session: Seq<char>,
) -> bool {
    &&& *ctx.spec == spec
    &&& ctx.arguments@ == arguments
    &&& ctx.outcome.deep_view() == outcome
    &&& ctx.session_id@ == session
}

/// Whether a hook sees an answer, in a session.
pub open spec fn sees_answer(ctx: StopContext<'_>, answer: MessageView, session: Seq<char>) -> bool {
    ctx.assistant.deep_view() == answer && ctx.session_id@ == session
}

/// What the hooks see of a prompt.
pub fn prompt_context<'a>(prompt: &'a str, session_id: &'a str) -> (ctx: UserPromptContext<'a>)
    ensures
        sees_prompt(ctx, prompt@, session_id@),
{
    UserPromptContext { prompt, session_id }
}

/// What the next hook sees of a call: the arguments as the hooks before it left them.
pub fn pre_context<'a>(spec: &'a ToolSpec, p: &'a PreToolUsePipeline, session_id: &'a str) -> (ctx:
    PreToolUseContext<'a>)
    ensures
        sees_call(ctx, *spec, p.deep_view().arguments, session_id@),
{
    PreToolUseContext { spec, arguments: &p.arguments, session_id }
}

/// What the next hook sees of an outcome: as the hooks before it left it.
pub fn post_context<'a>(
    spec: &'a ToolSpec,
    arguments: &'a Json,
    p: &'a PostToolUsePipeline,
    session_id: &'a str,
) -> (ctx: PostToolUseContext<'a>)
    ensures
        sees_outcome(ctx, *spec, arguments@, p.deep_view().outcome, session_id@),
{
    PostToolUseContext { spec, arguments, outcome: &p.outcome, session_id }
}

/// What the hooks see of an answer.
pub fn stop_context<'a>(assistant: &'a ChatMessage, session_id: &'a str) -> (ctx: StopContext<'a>)
    ensures
        sees_answer(ctx, assistant.deep_view(), session_id@),
{
    StopContext { assistant, session_id }
}

proof fn heads_stay<A>(s: Seq<A>, x: A)
    ensures
        forall|i: int| 0 <= i < s.len() ==> (#[trigger] s.push(x).take(i)) == s.take(i),
        s.push(x).take(s.len() as int) == s,
        s.push(x).drop_last() == s,
{
    assert forall|i: int| 0 <= i < s.len() implies (#[trigger] s.push(x).take(i)) == s.take(i) by {
        assert(s.push(x).take(i) =~= s.take(i));
    }
    assert(s.push(x).take(s.len() as int) =~= s);
    assert(s.push(x).drop_last() =~= s);
}

/// Whether a reply bears the name of a hook and the way in which it fails at an event.
pub open spec fn is_from<H: Hook, R>(hook: H, event: HookEvent, reply: Reply<R>) -> bool {
    &&& call_ensures(H::failure_mode, (&hook, event), reply.mode)
    &&& exists|name: &str|
        name@ == reply.name && #[trigger] call_ensures(H::name, (&hook,), name)
}

pub struct HookRegistry<H: Hook> {
    pub hooks: Vec<H>,
}

impl<H: Hook> HookRegistry<H> {
    pub fn new(hooks: Vec<H>) -> (r: HookRegistry<H>)
        ensures
            r.hooks == hooks,
    {
        HookRegistry { hooks }
    }

    /// Asks the hooks about a prompt, up to the first that blocks it.
    pub fn run_user_prompt(&mut self, prompt: &str, session_id: &str) -> (p: UserPromptPipeline)
        ensures
            final(self).hooks@.len() == old(self).hooks@.len(),
            exists|replies: Seq<Reply<UserPromptHookResult>>|
                #![trigger prompt_fold(replies)]
                {
                    &&& p.deep_view() == prompt_fold(replies)
                    &&& replies.len() <= old(self).hooks@.len()
                    &&& p.block is None ==> replies.len() == old(self).hooks@.len()
                    &&& forall|i: int|
                        0 <= i < replies.len() ==> prompt_fold(#[trigger] replies.take(i)).block
                            is None
                    &&& forall|i: int|
                        0 <= i < replies.len() ==> is_from(
                            final(self).hooks@[i],
                            HookEvent::UserPromptSubmit,
                            #[trigger] replies[i],
                        ) && exists|hook: &mut H, ctx: UserPromptContext<'_>|
                            *hook == old(self).hooks@[i] && *final(hook) == final(self).hooks@[i]
                                && sees_prompt(
                                ctx,
                                prompt@,
                                session_id@,
                            ) && #[trigger] call_ensures(
                                H::user_prompt_submit,
                                (hook, &ctx),
                                replies[i].result,
                            )
                    &&& forall|i: int|
                        replies.len() <= i < old(self).hooks@.len() ==> final(self).hooks@[i]
                            == #[trigger] old(self).hooks@[i]
                },
    {
        let mut p = UserPromptPipeline { added_context: empty(), block: None, warnings: empty() };
        let ghost mut replies: Seq<Reply<UserPromptHookResult>> = seq![];
        let mut i: usize = 0;
        while i < self.hooks.len() && p.block.is_none()
            invariant
                i <= self.hooks@.len(),
                self.hooks@.len() == old(self).hooks@.len(),
                replies.len() == i,
                p.deep_view() == prompt_fold(replies),
                forall|i: int|
                    0 <= i < replies.len() ==> is_from(
                        self.hooks@[i],
                        HookEvent::UserPromptSubmit,
                        #[trigger] replies[i],
                    ) && exists|hook: &mut H, ctx: UserPromptContext<'_>|
                        *hook == old(self).hooks@[i] && *final(hook) == self.hooks@[i]
                            && sees_prompt(
                            ctx,
                            prompt@,
                            session_id@,
                        ) && #[trigger] call_ensures(
                            H::user_prompt_submit,
                            (hook, &ctx),
                            replies[i].result,
                        ),
                forall|i: int|
                    replies.len() <= i < old(self).hooks@.len() ==> self.hooks@[i]
                        == #[trigger] old(self).hooks@[i],
                forall|i: int|
                    0 <= i < replies.len() ==> prompt_fold(#[trigger] replies.take(i)).block
                        is None,
            decreases self.hooks@.len() - i,
        {
            let ctx = prompt_context(prompt, session_id);
            let result = self.hooks[i].user_prompt_submit(&ctx);
            let mode = self.hooks[i].failure_mode(HookEvent::UserPromptSubmit);
            let name = self.hooks[i].name();
            proof {
                let reply = Reply { name: name@, mode, result };
                heads_stay(replies, reply);
                replies = replies.push(reply);
            }
            take_prompt_reply(&mut p, name, mode, result);
            i = i + 1;
        }
        p
    }

    /// Asks the hooks about a call, up to the first that blocks it. Each sees the arguments as the
    /// ones before it left them.
    pub fn run_pre_tool(&mut self, spec: &ToolSpec, arguments: &Json, session_id: &str) -> (p:
        PreToolUsePipeline)
        ensures
            final(self).hooks@.len() == old(self).hooks@.len(),
            exists|replies: Seq<Reply<PreToolUseHookResult>>|
                #![trigger pre_fold(arguments@, replies)]
                {
                    &&& p.deep_view() == pre_fold(arguments@, replies)
                    &&& replies.len() <= old(self).hooks@.len()
                    &&& p.block is None ==> replies.len() == old(self).hooks@.len()
                    &&& forall|i: int|
                        0 <= i < replies.len() ==> pre_fold(arguments@, #[trigger] replies.take(i)).block
                            is None
                    &&& forall|i: int|
                        0 <= i < replies.len() ==> is_from(
                            final(self).hooks@[i],
                            HookEvent::PreToolUse,
                            #[trigger] replies[i],
                        ) && exists|hook: &mut H, ctx: PreToolUseContext<'_>|
                            *hook == old(self).hooks@[i] && *final(hook) == final(self).hooks@[i]
                                && sees_call(
                                ctx,
                                *spec,
                                pre_fold(arguments@, replies.take(i)).arguments,
                                session_id@,
                            ) && #[trigger] call_ensures(
                                H::pre_tool_use,
                                (hook, &ctx),
                                replies[i].result,
                            )
                    &&& forall|i: int|
                        replies.len() <= i < old(self).hooks@.len() ==> final(self).hooks@[i]
                            == #[trigger] old(self).hooks@[i]
                },
    {
        let mut p = PreToolUsePipeline {
            arguments: arguments.clone(),
            block: None,
            warnings: empty(),
        };
        let ghost mut replies: Seq<Reply<PreToolUseHookResult>> = seq![];
        let mut i: usize = 0;
        while i < self.hooks.len() && p.block.is_none()
            invariant
                i <= self.hooks@.len(),
                self.hooks@.len() == old(self).hooks@.len(),
                replies.len() == i,
                p.deep_view() == pre_fold(arguments@, replies),
                forall|i: int|
                    0 <= i < replies.len() ==> is_from(
                        self.hooks@[i],
                        HookEvent::PreToolUse,
                        #[trigger] replies[i],
                    ) && exists|hook: &mut H, ctx: PreToolUseContext<'_>|
                        *hook == old(self).hooks@[i] && *final(hook) == self.hooks@[i]
                            && sees_call(
                            ctx,
                            *spec,
                            pre_fold(arguments@, replies.take(i)).arguments,
                            session_id@,
                        ) && #[trigger] call_ensures(
                            H::pre_tool_use,
                            (hook, &ctx),
                            replies[i].result,
                        ),
                forall|i: int|
                    replies.len() <= i < old(self).hooks@.len() ==> self.hooks@[i]
                        == #[trigger] old(self).hooks@[i],
                forall|i: int|
                    0 <= i < replies.len() ==> pre_fold(arguments@, #[trigger] replies.take(i)).block
                        is None,
            decreases self.hooks@.len() - i,
        {
            let ctx = pre_context(spec, &p, session_id);
            let result = self.hooks[i].pre_tool_use(&ctx);
            let mode = self.hooks[i].failure_mode(HookEvent::PreToolUse);
            let name = self.hooks[i].name();
            proof {
                let reply = Reply { name: name@, mode, result };
                heads_stay(replies, reply);
                replies = replies.push(reply);
            }
            take_pre_reply(&mut p, name, mode, result);
            i = i + 1;
        }
        p
    }

    /// Tells all hooks about an outcome. Each sees it as the ones before it left it.
    pub fn run_post_tool(
        &mut self,
        spec: &ToolSpec,
        arguments: &Json,
        outcome: ToolOutcome,
        session_id: &str,
    ) -> (p: PostToolUsePipeline)
        ensures
            final(self).hooks@.len() == old(self).hooks@.len(),
            exists|replies: Seq<Reply<PostToolUseHookResult>>|
                #![trigger post_fold(outcome.deep_view(), replies)]
                {
                    &&& p.deep_view() == post_fold(outcome.deep_view(), replies)
                    &&& replies.len() == old(self).hooks@.len()
                    &&& forall|i: int|
                        0 <= i < replies.len() ==> is_from(
                            final(self).hooks@[i],
                            HookEvent::PostToolUse,
                            #[trigger] replies[i],
                        ) && exists|hook: &mut H, ctx: PostToolUseContext<'_>|
                            *hook == old(self).hooks@[i] && *final(hook) == final(self).hooks@[i]
                                && sees_outcome(
                                ctx,
                                *spec,
                                arguments@,
                                post_fold(outcome.deep_view(), replies.take(i)).outcome,
                                session_id@,
                            ) && #[trigger] call_ensures(
                                H::post_tool_use,
                                (hook, &ctx),
                                replies[i].result,
                            )
                },
            p.outcome.deep_view().effects == outcome.deep_view().effects,
    {
        let ghost start = outcome.deep_view();
        let mut p = PostToolUsePipeline { outcome, stop_after_commit: None, warnings: empty() };
        let ghost mut replies: Seq<Reply<PostToolUseHookResult>> = seq![];
        let mut i: usize = 0;
        while i < self.hooks.len()
            invariant
                i <= self.hooks@.len(),
                self.hooks@.len() == old(self).hooks@.len(),
                replies.len() == i,
                p.deep_view() == post_fold(start, replies),
                forall|i: int|
                    0 <= i < replies.len() ==> is_from(
                        self.hooks@[i],
                        HookEvent::PostToolUse,
                        #[trigger] replies[i],
                    ) && exists|hook: &mut H, ctx: PostToolUseContext<'_>|
                        *hook == old(self).hooks@[i] && *final(hook) == self.hooks@[i]
                            && sees_outcome(
                            ctx,
                            *spec,
                            arguments@,
                            post_fold(start, replies.take(i)).outcome,
                            session_id@,
                        ) && #[trigger] call_ensures(
                            H::post_tool_use,
                            (hook, &ctx),
                            replies[i].result,
                        ),
                forall|i: int|
                    replies.len() <= i < old(self).hooks@.len() ==> self.hooks@[i]
                        == #[trigger] old(self).hooks@[i],
            decreases self.hooks@.len() - i,
        {
            let ctx = post_context(spec, arguments, &p, session_id);
            let result = self.hooks[i].post_tool_use(&ctx);
            let mode = self.hooks[i].failure_mode(HookEvent::PostToolUse);
            let name = self.hooks[i].name();
            proof {
                let reply = Reply { name: name@, mode, result };
                heads_stay(replies, reply);
                replies = replies.push(reply);
            }
            take_post_reply(&mut p, name, mode, result);
            i = i + 1;
        }
        proof {
            law_post_hooks_keep_effects(start, replies);
        }
        p
    }

    /// Asks the hooks whether the agent may stop, up to the first that prevents it.
    pub fn run_stop(&mut self, assistant: &ChatMessage, session_id: &str) -> (p: StopPipeline)
        ensures
            final(self).hooks@.len() == old(self).hooks@.len(),
            exists|replies: Seq<Reply<StopHookResult>>|
                #![trigger stop_fold(replies)]
                {
                    &&& p.deep_view() == stop_fold(replies)
                    &&& replies.len() <= old(self).hooks@.len()
                    &&& p.prevent_stop is None ==> replies.len() == old(self).hooks@.len()
                    &&& forall|i: int|
                        0 <= i < replies.len() ==> stop_fold(#[trigger] replies.take(i)).prevent_stop
                            is None
                    &&& forall|i: int|
                        0 <= i < replies.len() ==> is_from(
                            final(self).hooks@[i],
                            HookEvent::Stop,
                            #[trigger] replies[i],
                        ) && exists|hook: &mut H, ctx: StopContext<'_>|
                            *hook == old(self).hooks@[i] && *final(hook) == final(self).hooks@[i]
                                && sees_answer(
                                ctx,
                                assistant.deep_view(),
                                session_id@,
                            ) && #[trigger] call_ensures(
                                H::stop,
                                (hook, &ctx),
                                replies[i].result,
                            )
                    &&& forall|i: int|
                        replies.len() <= i < old(self).hooks@.len() ==> final(self).hooks@[i]
                            == #[trigger] old(self).hooks@[i]
                },
    {
        let mut p = StopPipeline { prevent_stop: None, warnings: empty() };
        let ghost mut replies: Seq<Reply<StopHookResult>> = seq![];
        let mut i: usize = 0;
        while i < self.hooks.len() && p.prevent_stop.is_none()
            invariant
                i <= self.hooks@.len(),
                self.hooks@.len() == old(self).hooks@.len(),
                replies.len() == i,
                p.deep_view() == stop_fold(replies),
                forall|i: int|
                    0 <= i < replies.len() ==> is_from(
                        self.hooks@[i],
                        HookEvent::Stop,
                        #[trigger] replies[i],
                    ) && exists|hook: &mut H, ctx: StopContext<'_>|
                        *hook == old(self).hooks@[i] && *final(hook) == self.hooks@[i]
                            && sees_answer(
                            ctx,
                            assistant.deep_view(),
                            session_id@,
                        ) && #[trigger] call_ensures(
                            H::stop,
                            (hook, &ctx),
                            replies[i].result,
                        ),
                forall|i: int|
                    replies.len() <= i < old(self).hooks@.len() ==> self.hooks@[i]
                        == #[trigger] old(self).hooks@[i],
                forall|i: int|
                    0 <= i < replies.len() ==> stop_fold(#[trigger] replies.take(i)).prevent_stop
                        is None,
            decreases self.hooks@.len() - i,
        {
            let ctx = stop_context(assistant, session_id);
            let result = self.hooks[i].stop(&ctx);
            let mode = self.hooks[i].failure_mode(HookEvent::Stop);
            let name = self.hooks[i].name();
            proof {
                let reply = Reply { name: name@, mode, result };
                heads_stay(replies, reply);
                replies = replies.push(reply);
            }
            take_stop_reply(&mut p, name, mode, result);
            i = i + 1;
        }
        p
    }
}

/// Whatever hooks make of an outcome, the lasting effects of the tool stay as they were: a hook can
/// neither forge nor erase one.
pub proof fn law_post_hooks_keep_effects(
    outcome: OutcomeView,
    replies: Seq<Reply<PostToolUseHookResult>>,
)
    ensures
        post_fold(outcome, replies).outcome.effects == outcome.effects,
    decreases replies.len(),
{
    if replies.len() > 0 {
        law_post_hooks_keep_effects(outcome, replies.drop_last());
    }
}

/// The last hook that replaces the arguments has the last word on them.
pub proof fn law_last_replacement_wins(
    arguments: JsonView,
    replies: Seq<Reply<PreToolUseHookResult>>,
    last: Reply<PreToolUseHookResult>,
)
    requires
        last.result matches Ok(PreToolUseHookResult::ReplaceArguments(_)),
    ensures
        pre_fold(arguments, replies.push(last)).arguments == last.result->Ok_0->ReplaceArguments_0@,
{
    assert(replies.push(last).drop_last() =~= replies);
}

/// Hooks that fail open never block and never replace anything; they only leave warnings.
pub proof fn law_open_failures_only_warn(p: PreView, reply: Reply<PreToolUseHookResult>)
    requires
        reply.result is Err,
        reply.mode == HookFailureMode::Open,
    ensures
        after_pre(p, reply).arguments == p.arguments,
        after_pre(p, reply).block == p.block,
        after_pre(p, reply).warnings.len() == p.warnings.len() + 1,
{
}

/// Only plain text of the user ever gets into the conversation through a hook.
pub proof fn law_added_context_is_plain_text(replies: Seq<Reply<UserPromptHookResult>>)
    ensures
        forall|i: int|
            0 <= i < prompt_fold(replies).added_context.len() ==> is_plain_text(
                #[trigger] prompt_fold(replies).added_context[i],
            ),
    decreases replies.len(),
{
    if replies.len() > 0 {
        law_added_context_is_plain_text(replies.drop_last());
        let before = prompt_fold(replies.drop_last());
        let now = prompt_fold(replies);
        assert forall|i: int| 0 <= i < now.added_context.len() implies is_plain_text(
            #[trigger] now.added_context[i],
        ) by {
            if i < before.added_context.len() {
                assert(now.added_context[i] == before.added_context[i]);
            }
        }
    }
}

} // verus!
