//! The tool platform: what a tool declares, how a call is checked, and what its outcome is.
//!
//! A failed call is still an observation for the model. Its stable code, its summary for people
//! and its structured details are kept apart from the text that the model reads.
use vstd::prelude::*;

use std::sync::atomic::AtomicBool;
use crate::json::{lookup, nil, obj, spec_u64, Json, JsonView};
use crate::list::{empty, put, take_all, take_next};
use crate::message::{copy_opt_json, copy_opt_text};
use crate::plan::{PlanSnapshot, PlanView};
use crate::text::{
    concat2, concat3, join, joined, put_entry, quoted, quoted_text, same, sorted_entries,
};
use crate::util::{cleaned, middle_cut, sanitize, truncate_middle};
use crate::workspace::Workspace;

use self::schema::{schema_errors, validate_json_schema};

pub mod conformance;
pub mod declared;
pub mod list_dir;
pub mod load_skill;
pub mod outcomes;
pub mod read_file;
pub mod run_command;
pub mod schema;
pub mod update_plan;
pub mod write_file;

verus! {

/// The longest text of an outcome.
pub const RESULT_MAX_CHARS: usize = 24000;

#[derive(Debug, Clone, Copy, PartialEq, Eq, Structural)]
pub enum ToolExecutionMode {
    Sequential,
    ParallelSafe,
}

/// What the scheduling and permission layers know of a tool.
#[derive(Debug, Clone, Copy, PartialEq, Eq, Structural)]
pub struct ToolCapabilities {
    pub read_only: bool,
    pub destructive: bool,
    pub execution_mode: ToolExecutionMode,
    pub supports_background: bool,
}

impl ToolCapabilities {
    /// A tool that only reads; calls of it may run side by side.
    pub open spec fn reading() -> ToolCapabilities {
        ToolCapabilities {
            read_only: true,
            destructive: false,
            execution_mode: ToolExecutionMode::ParallelSafe,
            supports_background: false,
        }
    }

    /// A tool that changes something; calls of it run one after the other.
    pub open spec fn changing() -> ToolCapabilities {
        ToolCapabilities {
            read_only: false,
            destructive: true,
            execution_mode: ToolExecutionMode::Sequential,
            supports_background: false,
        }
    }

    pub fn read_only() -> (c: ToolCapabilities)
        ensures
            c == ToolCapabilities::reading(),
    {
        ToolCapabilities {
            read_only: true,
            destructive: false,
            execution_mode: ToolExecutionMode::ParallelSafe,
            supports_background: false,
        }
    }

    pub fn mutation() -> (c: ToolCapabilities)
        ensures
            c == ToolCapabilities::changing(),
    {
        ToolCapabilities {
            read_only: false,
            destructive: true,
            execution_mode: ToolExecutionMode::Sequential,
            supports_background: false,
        }
    }

    pub fn command() -> (c: ToolCapabilities)
        ensures
            c == ToolCapabilities::changing(),
    {
        ToolCapabilities {
            read_only: false,
            destructive: true,
            execution_mode: ToolExecutionMode::Sequential,
            supports_background: false,
        }
    }
}

/// The declaration of a tool, independent of any model service.
#[derive(Debug)]
pub struct ToolSpec {
    pub name: String,
    pub description: String,
    pub schema: Json,
    pub capabilities: ToolCapabilities,
    pub permission: ToolPermissionSpec,
}

/// The side effects that a tool declares: which arguments are paths, and whether it does what
/// cannot be judged from its arguments.
#[derive(Debug, PartialEq, Eq)]
pub struct ToolPermissionSpec {
    pub path_arguments: Vec<String>,
    pub always_ask: bool,
}

#[verifier::ext_equal]
pub struct PermissionSpecView {
    pub path_arguments: Seq<Seq<char>>,
    pub always_ask: bool,
}

impl DeepView for ToolPermissionSpec {
    type V = PermissionSpecView;

    open spec fn deep_view(&self) -> PermissionSpecView {
        PermissionSpecView {
            path_arguments: self.path_arguments.deep_view(),
            always_ask: self.always_ask,
        }
    }
}

#[verifier::ext_equal]
pub struct ToolSpecView {
    pub name: Seq<char>,
    pub description: Seq<char>,
    pub schema: JsonView,
    pub capabilities: ToolCapabilities,
    pub permission: PermissionSpecView,
}

impl DeepView for ToolSpec {
    type V = ToolSpecView;

    open spec fn deep_view(&self) -> ToolSpecView {
        ToolSpecView {
            name: self.name@,
            description: self.description@,
            schema: self.schema@,
            capabilities: self.capabilities,
            permission: self.permission.deep_view(),
        }
    }
}

/// A list of texts of its own.
pub fn own_texts(texts: &[&str]) -> (out: Vec<String>)
    ensures
        out.deep_view() == texts.deep_view(),
{
    let mut out: Vec<String> = empty();
    let mut i: usize = 0;
    while i < texts.len()
        invariant
            i <= texts@.len(),
            out.deep_view() == texts.deep_view().take(i as int),
        decreases texts@.len() - i,
    {
        put(&mut out, texts[i].to_owned());
        i = i + 1;
    }
    proof {
        take_all(texts.deep_view());
    }
    out
}

/// A copy of a list of texts.
pub fn copy_texts(texts: &Vec<String>) -> (out: Vec<String>)
    ensures
        out.deep_view() == texts.deep_view(),
{
    let mut out: Vec<String> = empty();
    let mut i: usize = 0;
    while i < texts.len()
        invariant
            i <= texts@.len(),
            out.deep_view() == texts.deep_view().take(i as int),
        decreases texts@.len() - i,
    {
        put(&mut out, texts[i].clone());
        i = i + 1;
    }
    proof {
        take_all(texts.deep_view());
    }
    out
}

impl Default for ToolPermissionSpec {
    fn default() -> (p: ToolPermissionSpec)
        ensures
            p.deep_view() == (PermissionSpecView { path_arguments: seq![], always_ask: false }),
    {
        ToolPermissionSpec { path_arguments: empty(), always_ask: false }
    }
}

impl ToolPermissionSpec {
    pub fn paths(arguments: &[&str]) -> (p: ToolPermissionSpec)
        ensures
            p.deep_view() == (PermissionSpecView {
                path_arguments: arguments.deep_view(),
                always_ask: false,
            }),
    {
        ToolPermissionSpec { path_arguments: own_texts(arguments), always_ask: false }
    }

    pub fn opaque_side_effect(arguments: &[&str]) -> (p: ToolPermissionSpec)
        ensures
            p.deep_view() == (PermissionSpecView {
                path_arguments: arguments.deep_view(),
                always_ask: true,
            }),
    {
        ToolPermissionSpec { path_arguments: own_texts(arguments), always_ask: true }
    }
}

impl Clone for ToolPermissionSpec {
    fn clone(&self) -> (r: ToolPermissionSpec)
        ensures
            r.deep_view() == self.deep_view(),
    {
        ToolPermissionSpec {
            path_arguments: copy_texts(&self.path_arguments),
            always_ask: self.always_ask,
        }
    }
}

impl Clone for ToolSpec {
    fn clone(&self) -> (r: ToolSpec)
        ensures
            r.deep_view() == self.deep_view(),
    {
        ToolSpec {
            name: self.name.clone(),
            description: self.description.clone(),
            schema: self.schema.clone(),
            capabilities: self.capabilities,
            permission: self.permission.clone(),
        }
    }
}

/// What a tool gives back.
#[derive(Debug)]
pub struct ToolOutput {
    /// The only text that the model reads.
    pub model_text: String,
    /// A summary for people; without one they read `model_text`.
    pub ui_summary: Option<String>,
    /// Structured information that the model does not see.
    pub details: Option<Json>,
}

#[verifier::ext_equal]
pub struct OutputView {
    pub model_text: Seq<char>,
    pub ui_summary: Option<Seq<char>>,
    pub details: Option<JsonView>,
}

impl DeepView for ToolOutput {
    type V = OutputView;

    open spec fn deep_view(&self) -> OutputView {
        OutputView {
            model_text: self.model_text@,
            ui_summary: self.ui_summary.deep_view(),
            details: self.details.deep_view(),
        }
    }
}

/// The output that is only a text.
pub open spec fn text_output(text: Seq<char>) -> OutputView {
    OutputView { model_text: text, ui_summary: None, details: None }
}

impl ToolOutput {
    pub fn text(text: String) -> (o: ToolOutput)
        ensures
            o.deep_view() == text_output(text@),
    {
        ToolOutput { model_text: text, ui_summary: None, details: None }
    }

    pub fn ui_text(&self) -> (t: &str)
        ensures
            t@ == (match self.deep_view().ui_summary {
                Some(summary) => summary,
                None => self.deep_view().model_text,
            }),
    {
        match &self.ui_summary {
            Some(summary) => summary.as_str(),
            None => self.model_text.as_str(),
        }
    }
}

impl Clone for ToolOutput {
    fn clone(&self) -> (r: ToolOutput)
        ensures
            r.deep_view() == self.deep_view(),
    {
        ToolOutput {
            model_text: self.model_text.clone(),
            ui_summary: copy_opt_text(&self.ui_summary),
            details: copy_opt_json(&self.details),
        }
    }
}

#[derive(Debug, Clone, Copy, PartialEq, Eq, Structural)]
pub enum ToolErrorCode {
    UnknownTool,
    InvalidArguments,
    NotFound,
    NotDirectory,
    Io,
    Conflict,
    TruncatedInput,
    Aborted,
    Timeout,
    ProcessExit,
    PermissionDenied,
    HookRejected,
    ExecutionFailed,
    Internal,
}

/// The stable name of a code.
pub open spec fn code_text(code: ToolErrorCode) -> Seq<char> {
    match code {
        ToolErrorCode::UnknownTool => "unknown_tool"@,
        ToolErrorCode::InvalidArguments => "invalid_arguments"@,
        ToolErrorCode::NotFound => "not_found"@,
        ToolErrorCode::NotDirectory => "not_directory"@,
        ToolErrorCode::Io => "io"@,
        ToolErrorCode::Conflict => "conflict"@,
        ToolErrorCode::TruncatedInput => "truncated_input"@,
        ToolErrorCode::Aborted => "aborted"@,
        ToolErrorCode::Timeout => "timeout"@,
        ToolErrorCode::ProcessExit => "process_exit"@,
        ToolErrorCode::PermissionDenied => "permission_denied"@,
        ToolErrorCode::HookRejected => "hook_rejected"@,
        ToolErrorCode::ExecutionFailed => "execution_failed"@,
        ToolErrorCode::Internal => "internal"@,
    }
}

impl ToolErrorCode {
    pub fn as_str(self) -> (s: &'static str)
        ensures
            s@ == code_text(self),
    {
        match self {
            ToolErrorCode::UnknownTool => "unknown_tool",
            ToolErrorCode::InvalidArguments => "invalid_arguments",
            ToolErrorCode::NotFound => "not_found",
            ToolErrorCode::NotDirectory => "not_directory",
            ToolErrorCode::Io => "io",
            ToolErrorCode::Conflict => "conflict",
            ToolErrorCode::TruncatedInput => "truncated_input",
            ToolErrorCode::Aborted => "aborted",
            ToolErrorCode::Timeout => "timeout",
            ToolErrorCode::ProcessExit => "process_exit",
            ToolErrorCode::PermissionDenied => "permission_denied",
            ToolErrorCode::HookRejected => "hook_rejected",
            ToolErrorCode::ExecutionFailed => "execution_failed",
            ToolErrorCode::Internal => "internal",
        }
    }
}

#[derive(Debug)]
pub struct ToolError {
    pub code: ToolErrorCode,
    pub message: String,
    pub retryable: bool,
    pub details: Option<Json>,
}

#[verifier::ext_equal]
pub struct ErrorView {
    pub code: ToolErrorCode,
    pub message: Seq<char>,
    pub retryable: bool,
    pub details: Option<JsonView>,
}

impl DeepView for ToolError {
    type V = ErrorView;

    open spec fn deep_view(&self) -> ErrorView {
        ErrorView {
            code: self.code,
            message: self.message@,
            retryable: self.retryable,
            details: self.details.deep_view(),
        }
    }
}

/// An error that is only a code and a message.
pub open spec fn plain_error(code: ToolErrorCode, message: Seq<char>) -> ErrorView {
    ErrorView { code, message, retryable: false, details: None }
}

impl ToolError {
    pub fn new(code: ToolErrorCode, message: String) -> (e: ToolError)
        ensures
            e.deep_view() == plain_error(code, message@),
    {
        ToolError { code, message, retryable: false, details: None }
    }

    pub fn invalid_arguments(message: String) -> (e: ToolError)
        ensures
            e.deep_view() == plain_error(ToolErrorCode::InvalidArguments, message@),
    {
        ToolError::new(ToolErrorCode::InvalidArguments, message)
    }

    pub fn io(message: String) -> (e: ToolError)
        ensures
            e.deep_view() == plain_error(ToolErrorCode::Io, message@),
    {
        ToolError::new(ToolErrorCode::Io, message)
    }

    pub fn execution(message: String) -> (e: ToolError)
        ensures
            e.deep_view() == plain_error(ToolErrorCode::ExecutionFailed, message@),
    {
        ToolError::new(ToolErrorCode::ExecutionFailed, message)
    }

    /// The error in one line: its code and its message.
    pub fn describe(&self) -> (s: String)
        ensures
            s@ == code_text(self.code) + ": "@ + self.message@,
    {
        concat3(self.code.as_str(), ": ", self.message.as_str())
    }
}

impl Clone for ToolError {
    fn clone(&self) -> (r: ToolError)
        ensures
            r.deep_view() == self.deep_view(),
    {
        ToolError {
            code: self.code,
            message: self.message.clone(),
            retryable: self.retryable,
            details: copy_opt_json(&self.details),
        }
    }
}

/// A lasting effect that a tool asks for.
#[derive(Debug)]
pub enum ToolEffect {
    PlanUpdated(PlanSnapshot),
}

impl DeepView for ToolEffect {
    type V = PlanView;

    open spec fn deep_view(&self) -> PlanView {
        match *self {
            ToolEffect::PlanUpdated(p) => p.deep_view(),
        }
    }
}

/// The outcome of a call, as the model and people see it.
#[derive(Debug)]
pub struct ToolOutcome {
    pub output: ToolOutput,
    pub error: Option<ToolError>,
    pub effects: Vec<ToolEffect>,
}

#[verifier::ext_equal]
pub struct OutcomeView {
    pub output: OutputView,
    pub error: Option<ErrorView>,
    pub effects: Seq<PlanView>,
}

impl DeepView for ToolOutcome {
    type V = OutcomeView;

    open spec fn deep_view(&self) -> OutcomeView {
        OutcomeView {
            output: self.output.deep_view(),
            error: self.error.deep_view(),
            effects: self.effects.deep_view(),
        }
    }
}

pub open spec fn success_of(output: OutputView) -> OutcomeView {
    OutcomeView { output, error: None, effects: seq![] }
}

/// A failure reads as its message.
pub open spec fn failure_of(error: ErrorView) -> OutcomeView {
    OutcomeView {
        output: OutputView { model_text: error.message, ui_summary: None, details: error.details },
        error: Some(error),
        effects: seq![],
    }
}

impl ToolOutcome {
    pub fn success(output: ToolOutput) -> (o: ToolOutcome)
        ensures
            o.deep_view() == success_of(output.deep_view()),
    {
        ToolOutcome { output, error: None, effects: empty() }
    }

    pub fn failure(error: ToolError) -> (o: ToolOutcome)
        ensures
            o.deep_view() == failure_of(error.deep_view()),
    {
        ToolOutcome {
            output: ToolOutput {
                model_text: error.message.clone(),
                ui_summary: None,
                details: copy_opt_json(&error.details),
            },
            error: Some(error),
            effects: empty(),
        }
    }

    pub fn is_error(&self) -> (r: bool)
        ensures
            r == self.deep_view().error is Some,
    {
        self.error.is_some()
    }
}

/// The text cleaned and cut to what an outcome may hold.
pub open spec fn bounded(text: Seq<char>) -> Seq<char> {
    middle_cut(cleaned(text), RESULT_MAX_CHARS as nat)
}

pub open spec fn bounded_opt(text: Option<Seq<char>>) -> Option<Seq<char>> {
    match text {
        Some(t) => Some(bounded(t)),
        None => None,
    }
}

pub fn sanitize_and_bound(text: &str) -> (out: String)
    ensures
        out@ == bounded(text@),
{
    truncate_middle(sanitize(text).as_str(), RESULT_MAX_CHARS)
}

fn bound_opt(text: Option<String>) -> (out: Option<String>)
    ensures
        out.deep_view() == bounded_opt(text.deep_view()),
{
    match text {
        Some(t) => Some(sanitize_and_bound(t.as_str())),
        None => None,
    }
}

/// An outcome with all its texts bounded; after a failure the model reads exactly the error's
/// message.
pub open spec fn normalized(outcome: OutcomeView) -> OutcomeView {
    OutcomeView {
        output: OutputView {
            model_text: match outcome.error {
                Some(error) => bounded(error.message),
                None => bounded(outcome.output.model_text),
            },
            ui_summary: bounded_opt(outcome.output.ui_summary),
            details: outcome.output.details,
        },
        error: match outcome.error {
            Some(error) => Some(ErrorView { message: bounded(error.message), ..error }),
            None => None,
        },
        effects: outcome.effects,
    }
}

pub fn normalize_outcome(outcome: ToolOutcome) -> (r: ToolOutcome)
    ensures
        r.deep_view() == normalized(outcome.deep_view()),
{
    let ui_summary = bound_opt(outcome.output.ui_summary);
    match outcome.error {
        Some(error) => {
            let message = sanitize_and_bound(error.message.as_str());
            ToolOutcome {
                output: ToolOutput {
                    model_text: message.clone(),
                    ui_summary,
                    details: outcome.output.details,
                },
                error: Some(
                    ToolError {
                        code: error.code,
                        message,
                        retryable: error.retryable,
                        details: error.details,
                    },
                ),
                effects: outcome.effects,
            }
        },
        None => ToolOutcome {
            output: ToolOutput {
                model_text: sanitize_and_bound(outcome.output.model_text.as_str()),
                ui_summary,
                details: outcome.output.details,
            },
            error: None,
            effects: outcome.effects,
        },
    }
}

/// What a tool may use while it runs.
pub struct ToolContext<'a> {
    pub workspace: &'a Workspace,
    pub cancel: &'a AtomicBool,
    pub session_id: &'a str,
    pub current_plan: PlanSnapshot,
    /// The progress reported so far, oldest first.
    pub progress: Vec<ToolOutput>,
    pub effects: Vec<ToolEffect>,
}

/// A progress report as it is shown: its texts are bounded.
pub open spec fn shown_progress(output: OutputView) -> OutputView {
    OutputView {
        model_text: bounded(output.model_text),
        ui_summary: bounded_opt(output.ui_summary),
        details: output.details,
    }
}

/// Bounds the texts of a progress report.
pub fn bound_progress(output: ToolOutput) -> (r: ToolOutput)
    ensures
        r.deep_view() == shown_progress(output.deep_view()),
{
    ToolOutput {
        model_text: sanitize_and_bound(output.model_text.as_str()),
        ui_summary: bound_opt(output.ui_summary),
        details: output.details,
    }
}

impl<'a> ToolContext<'a> {
    pub fn report_progress(&mut self, output: ToolOutput)
        ensures
            final(self).progress.deep_view() == old(self).progress.deep_view().push(
                shown_progress(output.deep_view()),
            ),
            final(self).effects == old(self).effects,
            final(self).current_plan == old(self).current_plan,
    {
        put(&mut self.progress, bound_progress(output));
    }

    pub fn record_effect(&mut self, effect: ToolEffect)
        ensures
            final(self).effects.deep_view() == old(self).effects.deep_view().push(
                effect.deep_view(),
            ),
            final(self).progress == old(self).progress,
            final(self).current_plan == old(self).current_plan,
    {
        put(&mut self.effects, effect);
    }

    pub fn take_effects(&mut self) -> (effects: Vec<ToolEffect>)
        ensures
            effects == old(self).effects,
            final(self).effects.deep_view() == Seq::<PlanView>::empty(),
            final(self).progress == old(self).progress,
            final(self).current_plan == old(self).current_plan,
    {
        let mut taken: Vec<ToolEffect> = empty();
        core::mem::swap(&mut taken, &mut self.effects);
        taken
    }
}

/// A tool. What it declares is asked for once, when it is registered.
pub trait Tool {
    fn spec(&self) -> (s: ToolSpec);

    /// Brings arguments in an older shape into the declared one.
    fn prepare_arguments(&self, args: Json) -> (r: Result<Json, ToolError>)
        default_ensures
            r == Ok::<Json, ToolError>(args),
    {
        Ok(args)
    }

    fn execute(&self, args: &Json, ctx: &mut ToolContext<'_>) -> (r: Result<ToolOutput, ToolError>);
}

/// A call whose arguments conform to the tool's schema.
#[derive(Debug)]
pub struct PreparedToolCall {
    pub tool_index: usize,
    pub generation: u64,
    pub spec: ToolSpec,
    pub arguments: Json,
}

#[verifier::ext_equal]
pub struct PreparedView {
    pub tool_index: usize,
    pub generation: u64,
    pub spec: ToolSpecView,
    pub arguments: JsonView,
}

impl DeepView for PreparedToolCall {
    type V = PreparedView;

    open spec fn deep_view(&self) -> PreparedView {
        PreparedView {
            tool_index: self.tool_index,
            generation: self.generation,
            spec: self.spec.deep_view(),
            arguments: self.arguments@,
        }
    }
}

impl Clone for PreparedToolCall {
    fn clone(&self) -> (r: PreparedToolCall)
        ensures
            r.deep_view() == self.deep_view(),
    {
        PreparedToolCall {
            tool_index: self.tool_index,
            generation: self.generation,
            spec: self.spec.clone(),
            arguments: self.arguments.clone(),
        }
    }
}

/// The first place at which `name` stands.
pub open spec fn first_named(names: Seq<Seq<char>>, name: Seq<char>) -> Option<nat>
    decreases names.len(),
{
    if names.len() == 0 {
        None
    } else {
        match first_named(names.drop_last(), name) {
            Some(i) => Some(i),
            None => if names.last() == name {
                Some((names.len() - 1) as nat)
            } else {
                None
            },
        }
    }
}

/// A list of texts as JSON.
pub open spec fn text_array(texts: Seq<Seq<char>>) -> JsonView {
    JsonView::Array(Seq::new(texts.len(), |i: int| JsonView::Str(texts[i])))
}

pub fn json_texts(texts: &Vec<String>) -> (j: Json)
    ensures
        j@ == text_array(texts.deep_view()),
{
    let mut items: Vec<Json> = Vec::new();
    let mut i: usize = 0;
    while i < texts.len()
        invariant
            i <= texts@.len(),
            items@.len() == i,
            forall|k: int| 0 <= k < i ==> items@[k]@ == JsonView::Str(texts@[k]@),
        decreases texts@.len() - i,
    {
        items.push(Json::Str(texts[i].clone()));
        i = i + 1;
    }
    let j = Json::Array(items);
    assert(j@->Array_0 =~= text_array(texts.deep_view())->Array_0);
    j
}

/// An object with one member.
pub fn json_member(key: &str, value: Json) -> (j: Json)
    ensures
        j@ == obj(nil().push((key@, value@))),
{
    crate::json::Fields::new().with(key, value).done()
}

/// The error for a name that no tool has.
pub open spec fn unknown_tool(name: Seq<char>, names: Seq<Seq<char>>) -> ErrorView {
    plain_error(
        ToolErrorCode::UnknownTool,
        "未知工具 "@ + quoted_text(name) + "。可用工具: "@ + joined(names, ", "@),
    )
}

/// The error for arguments that do not conform.
pub open spec fn nonconforming(name: Seq<char>, errors: Seq<Seq<char>>) -> ErrorView {
    ErrorView {
        code: ToolErrorCode::InvalidArguments,
        message: "工具 "@ + name + " 参数校验失败: "@ + joined(errors, "; "@),
        retryable: false,
        details: Some(obj(nil().push(("errors"@, text_array(errors))))),
    }
}

/// Declarations under their names.
pub open spec fn named_specs(specs: Seq<ToolSpecView>) -> Seq<(Seq<char>, ToolSpecView)> {
    Seq::new(specs.len(), |i: int| (specs[i].name, specs[i]))
}

/// Declarations in the order of their names.
pub open spec fn by_name(specs: Seq<ToolSpecView>) -> Seq<ToolSpecView> {
    let sorted = sorted_entries(named_specs(specs));
    Seq::new(sorted.len(), |i: int| sorted[i].1)
}

pub struct ToolRegistry<T: Tool> {
    tools: Vec<T>,
    specs: Vec<ToolSpec>,
    generation: u64,
}

impl<T: Tool> ToolRegistry<T> {
    #[verifier::type_invariant]
    spec fn one_spec_each(&self) -> bool {
        self.specs@.len() == self.tools@.len()
    }

    /// The tools, in the order of registration.
    pub closed spec fn registered(&self) -> Seq<T> {
        self.tools@
    }

    /// What the tools declare, in the order of registration.
    pub closed spec fn declared(&self) -> Seq<ToolSpec> {
        self.specs@
    }

    /// Calls prepared under another generation are not run.
    pub closed spec fn current_generation(&self) -> u64 {
        self.generation
    }

    /// The names of the tools.
    pub open spec fn names(&self) -> Seq<Seq<char>> {
        Seq::new(self.declared().len(), |i: int| self.declared()[i].name@)
    }

    pub fn new(tools: Vec<T>) -> (r: ToolRegistry<T>)
        ensures
            r.registered() == tools@,
            r.declared().len() == tools@.len(),
            forall|i: int|
                0 <= i < tools@.len() ==> call_ensures(
                    T::spec,
                    (&tools@[i],),
                    #[trigger] r.declared()[i],
                ),
            r.current_generation() == 0,
    {
        let mut specs: Vec<ToolSpec> = Vec::new();
        let mut i: usize = 0;
        while i < tools.len()
            invariant
                i <= tools@.len(),
                specs@.len() == i,
                forall|k: int|
                    0 <= k < i ==> call_ensures(T::spec, (&tools@[k],), #[trigger] specs@[k]),
            decreases tools@.len() - i,
        {
            specs.push(tools[i].spec());
            i = i + 1;
        }
        ToolRegistry { tools, specs, generation: 0 }
    }

    pub fn specs(&self) -> (out: Vec<ToolSpec>)
        ensures
            out.deep_view() == Seq::new(
                self.declared().len(),
                |i: int| self.declared()[i].deep_view(),
            ),
    {
        let ghost all = Seq::new(self.declared().len(), |i: int| self.declared()[i].deep_view());
        let mut out: Vec<ToolSpec> = empty();
        let mut i: usize = 0;
        while i < self.specs.len()
            invariant
                i <= self.specs@.len(),
                all == Seq::new(self.declared().len(), |i: int| self.declared()[i].deep_view()),
                out.deep_view() == all.take(i as int),
            decreases self.specs@.len() - i,
        {
            proof {
                take_next(all, i as int);
            }
            put(&mut out, self.specs[i].clone());
            i = i + 1;
        }
        proof {
            take_all(all);
        }
        out
    }

    /// What the tools declare, in the order of their names.
    pub fn sorted_specs(&self) -> (out: Vec<ToolSpec>)
        ensures
            out.deep_view() == by_name(
                Seq::new(self.declared().len(), |i: int| self.declared()[i].deep_view()),
            ),
    {
        let ghost all = named_specs(
            Seq::new(self.declared().len(), |i: int| self.declared()[i].deep_view()),
        );
        let mut entries: Vec<(String, ToolSpec)> = empty();
        let mut i: usize = 0;
        while i < self.specs.len()
            invariant
                i <= self.specs@.len(),
                all == named_specs(
                    Seq::new(self.declared().len(), |i: int| self.declared()[i].deep_view()),
                ),
                entries.deep_view() == sorted_entries(all.take(i as int)),
            decreases self.specs@.len() - i,
        {
            proof {
                take_next(all, i as int);
            }
            put_entry(&mut entries, (self.specs[i].name.clone(), self.specs[i].clone()));
            i = i + 1;
        }
        proof {
            take_all(all);
        }
        let ghost goal = Seq::new(sorted_entries(all).len(), |i: int| sorted_entries(all)[i].1);
        let mut out: Vec<ToolSpec> = empty();
        let mut k: usize = 0;
        while k < entries.len()
            invariant
                k <= entries@.len(),
                entries.deep_view() == sorted_entries(all),
                goal == Seq::new(sorted_entries(all).len(), |i: int| sorted_entries(all)[i].1),
                out.deep_view() == goal.take(k as int),
            decreases entries@.len() - k,
        {
            proof {
                take_next(goal, k as int);
                assert(entries.deep_view()[k as int].1 == entries@[k as int].1.deep_view());
            }
            put(&mut out, entries[k].1.clone());
            k = k + 1;
        }
        proof {
            take_all(goal);
        }
        out
    }

    fn name_list(&self) -> (out: Vec<String>)
        ensures
            out.deep_view() == self.names(),
    {
        let mut out: Vec<String> = empty();
        let mut i: usize = 0;
        while i < self.specs.len()
            invariant
                i <= self.specs@.len(),
                out.deep_view() == self.names().take(i as int),
            decreases self.specs@.len() - i,
        {
            proof {
                take_next(self.names(), i as int);
            }
            put(&mut out, self.specs[i].name.clone());
            i = i + 1;
        }
        proof {
            take_all(self.names());
        }
        out
    }

    fn position(&self, name: &str) -> (r: Option<usize>)
        ensures
            r is Some == first_named(self.names(), name@) is Some,
            r is Some ==> r->0 == first_named(self.names(), name@)->0 && r->0
                < self.declared().len(),
    {
        let ghost all = self.names();
        let mut i: usize = 0;
        while i < self.specs.len()
            invariant
                i <= self.specs@.len(),
                all == self.names(),
                first_named(all.take(i as int), name@) is None,
            decreases self.specs@.len() - i,
        {
            proof {
                take_next(all, i as int);
            }
            if same(self.specs[i].name.as_str(), name) {
                proof {
                    first_named_grows(all, i + 1, name@);
                }
                return Some(i);
            }
            i = i + 1;
        }
        proof {
            take_all(all);
        }
        None
    }

    /// What comes of the arguments as the tool adapted them: they are taken where they conform to
    /// the declared schema, and refused otherwise.
    pub open spec fn accepts(
        &self,
        index: int,
        adapted: Result<Json, ToolError>,
        r: Result<PreparedToolCall, ToolError>,
    ) -> bool {
        let declared = self.declared()[index];
        match adapted {
            Err(error) => r is Err && r->Err_0.deep_view() == error.deep_view(),
            Ok(arguments) => {
                let errors = schema_errors(declared.schema, arguments);
                if errors.len() == 0 {
                    &&& r is Ok
                    &&& r->Ok_0.tool_index == index
                    &&& r->Ok_0.generation == self.current_generation()
                    &&& r->Ok_0.spec.deep_view() == declared.deep_view()
                    &&& r->Ok_0.arguments == arguments
                } else {
                    r is Err && r->Err_0.deep_view() == nonconforming(declared.name@, errors)
                }
            },
        }
    }

    /// Checks adapted arguments against the schema of the tool at `index`.
    pub fn accept(&self, index: usize, adapted: Result<Json, ToolError>) -> (r: Result<
        PreparedToolCall,
        ToolError,
    >)
        requires
            index < self.declared().len(),
        ensures
            self.accepts(index as int, adapted, r),
    {
        let declared = &self.specs[index];
        let arguments = match adapted {
            Ok(arguments) => arguments,
            Err(error) => {
                return Err(error);
            },
        };
        match validate_json_schema(&declared.schema, &arguments) {
            Ok(()) => Ok(
                PreparedToolCall {
                    tool_index: index,
                    generation: self.generation,
                    spec: declared.clone(),
                    arguments,
                },
            ),
            Err(errors) => {
                let mut message = concat3("工具 ", declared.name.as_str(), " 参数校验失败: ");
                message.push_str(join(&errors, "; ").as_str());
                Err(
                    ToolError {
                        code: ToolErrorCode::InvalidArguments,
                        message,
                        retryable: false,
                        details: Some(json_member("errors", json_texts(&errors))),
                    },
                )
            },
        }
    }

    /// Finds the tool, lets it adapt the arguments and checks them.
    pub fn prepare(&self, name: &str, args: &Json) -> (r: Result<PreparedToolCall, ToolError>)
        ensures
            match first_named(self.names(), name@) {
                None => r is Err && r->Err_0.deep_view() == unknown_tool(name@, self.names()),
                Some(index) => exists|given: Json, adapted: Result<Json, ToolError>|
                    given@ == args@ && #[trigger] call_ensures(
                        T::prepare_arguments,
                        (&self.registered()[index as int], given),
                        adapted,
                    ) && self.accepts(index as int, adapted, r),
            },
    {
        match self.position(name) {
            None => {
                let mut message = concat3("未知工具 ", quoted(name).as_str(), "。可用工具: ");
                message.push_str(join(&self.name_list(), ", ").as_str());
                Err(ToolError::new(ToolErrorCode::UnknownTool, message))
            },
            Some(index) => {
                proof {
                    use_type_invariant(&*self);
                }
                let given = args.clone();
                let ghost handed = given;
                let adapted = self.tools[index].prepare_arguments(given);
                let r = self.accept(index, adapted);
                assert(call_ensures(
                    T::prepare_arguments,
                    (&self.registered()[index as int], handed),
                    adapted,
                ) && self.accepts(index as int, adapted, r));
                r
            },
        }
    }

    /// Why a prepared call cannot run any more, if it cannot.
    pub open spec fn stale(&self, prepared: PreparedView) -> Option<ErrorView> {
        if prepared.generation != self.current_generation() {
            Some(
                plain_error(ToolErrorCode::Conflict, "工具注册表已变化，请重新准备本次调用"@),
            )
        } else if prepared.tool_index >= self.declared().len() {
            Some(
                plain_error(
                    ToolErrorCode::UnknownTool,
                    "工具 "@ + prepared.spec.name + " 已不可用"@,
                ),
            )
        } else {
            None
        }
    }

    /// Checks that a prepared call still fits the registry.
    pub fn check_prepared(&self, prepared: &PreparedToolCall) -> (r: Result<(), ToolError>)
        ensures
            match self.stale(prepared.deep_view()) {
                None => r is Ok,
                Some(error) => r is Err && r->Err_0.deep_view() == error,
            },
    {
        if prepared.generation != self.generation {
            return Err(
                ToolError::new(
                    ToolErrorCode::Conflict,
                    "工具注册表已变化，请重新准备本次调用".to_owned(),
                ),
            );
        }
        if prepared.tool_index >= self.specs.len() {
            return Err(
                ToolError::new(
                    ToolErrorCode::UnknownTool,
                    concat3("工具 ", prepared.spec.name.as_str(), " 已不可用"),
                ),
            );
        }
        Ok(())
    }

    /// The tool of a prepared call, for whoever runs it on another thread.
    pub fn tool(&self, prepared: &PreparedToolCall) -> (r: Result<&T, ToolError>)
        ensures
            match self.stale(prepared.deep_view()) {
                None => r is Ok && *r->Ok_0 == self.registered()[prepared.tool_index as int],
                Some(error) => r is Err && r->Err_0.deep_view() == error,
            },
    {
        self.check_prepared(prepared)?;
        proof {
            use_type_invariant(&*self);
        }
        Ok(&self.tools[prepared.tool_index])
    }

    /// Runs a prepared call.
    pub fn execute_prepared(&self, prepared: &PreparedToolCall, ctx: &mut ToolContext<'_>) -> (r:
        ToolOutcome)
        ensures
            match self.stale(prepared.deep_view()) {
                Some(error) => r.deep_view() == failure_of(error) && *final(ctx) == *old(ctx),
                None => exists|
                    handed: &mut ToolContext<'_>,
                    result: Result<ToolOutput, ToolError>,
                |
                    *handed == *old(ctx) && *final(handed) == *final(ctx)
                        && #[trigger] call_ensures(
                        T::execute,
                        (
                            &self.registered()[prepared.tool_index as int],
                            &prepared.arguments,
                            handed,
                        ),
                        result,
                    ) && r.deep_view() == outcome_of(result_view(result)),
            },
    {
        if let Err(error) = self.check_prepared(prepared) {
            return ToolOutcome::failure(error);
        }
        proof {
            use_type_invariant(&*self);
        }
        let tool = &self.tools[prepared.tool_index];
        assert(*tool == self.registered()[prepared.tool_index as int]);
        let result = tool.execute(&prepared.arguments, ctx);
        settle(result)
    }

    /// Prepares a call and runs it. What is refused before it runs is a failure too, and leaves
    /// the context as it was.
    pub fn execute(&self, name: &str, args: &Json, ctx: &mut ToolContext<'_>) -> (r: ToolOutcome)
        ensures
            match first_named(self.names(), name@) {
                None => r.deep_view() == failure_of(unknown_tool(name@, self.names()))
                    && *final(ctx) == *old(ctx),
                Some(index) => exists|
                    given: Json,
                    adapted: Result<Json, ToolError>,
                    prepared: Result<PreparedToolCall, ToolError>,
                |
                    given@ == args@ && #[trigger] call_ensures(
                        T::prepare_arguments,
                        (&self.registered()[index as int], given),
                        adapted,
                    ) && #[trigger] self.accepts(index as int, adapted, prepared)
                        && match prepared {
                        Err(error) => r.deep_view() == failure_of(error.deep_view()) && *final(ctx)
                            == *old(ctx),
                        Ok(call) => exists|
                            handed: &mut ToolContext<'_>,
                            result: Result<ToolOutput, ToolError>,
                        |
                            *handed == *old(ctx) && *final(handed) == *final(ctx)
                                && #[trigger] call_ensures(
                                T::execute,
                                (&self.registered()[index as int], &call.arguments, handed),
                                result,
                            ) && r.deep_view() == outcome_of(result_view(result)),
                    },
            },
    {
        let prepared = self.prepare(name, args);
        let ghost seen = prepared;
        let outcome = match prepared {
            Ok(prepared) => {
                proof {
                    let index = first_named(self.names(), name@)->0;
                    first_named_inside(self.names(), name@);
                    assert(self.stale(prepared.deep_view()) is None);
                }
                self.execute_prepared(&prepared, ctx)
            },
            Err(error) => ToolOutcome::failure(error),
        };
        proof {
            if let Some(index) = first_named(self.names(), name@) {
                let (given, adapted) = choose|given: Json, adapted: Result<Json, ToolError>|
                    given@ == args@ && #[trigger] call_ensures(
                        T::prepare_arguments,
                        (&self.registered()[index as int], given),
                        adapted,
                    ) && self.accepts(index as int, adapted, seen);
                assert(self.accepts(index as int, adapted, seen));
            }
        }
        outcome
    }
}

proof fn first_named_inside(names: Seq<Seq<char>>, name: Seq<char>)
    ensures
        first_named(names, name) is Some ==> first_named(names, name)->0 < names.len(),
    decreases names.len(),
{
    if names.len() > 0 {
        first_named_inside(names.drop_last(), name);
    }
}

proof fn first_named_grows(names: Seq<Seq<char>>, n: int, name: Seq<char>)
    requires
        0 <= n <= names.len(),
        first_named(names.take(n), name) is Some,
    ensures
        first_named(names, name) == first_named(names.take(n), name),
    decreases names.len() - n,
{
    if n < names.len() {
        take_next(names, n);
        first_named_grows(names, n + 1, name);
    } else {
        take_all(names);
    }
}

/// What a tool's result denotes.
pub open spec fn result_view(result: Result<ToolOutput, ToolError>) -> Result<OutputView, ErrorView> {
    match result {
        Ok(output) => Ok(output.deep_view()),
        Err(error) => Err(error.deep_view()),
    }
}

/// The outcome that a tool's result becomes.
pub open spec fn outcome_of(result: Result<OutputView, ErrorView>) -> OutcomeView {
    match result {
        Ok(output) => normalized(success_of(output)),
        Err(error) => normalized(failure_of(error)),
    }
}

/// Turns a tool's result into its outcome.
pub fn settle(result: Result<ToolOutput, ToolError>) -> (r: ToolOutcome)
    ensures
        r.deep_view() == outcome_of(result_view(result)),
{
    match result {
        Ok(output) => normalize_outcome(ToolOutcome::success(output)),
        Err(error) => normalize_outcome(ToolOutcome::failure(error)),
    }
}

/// After a failure the model reads the error's message, and nothing else.
pub proof fn law_failures_read_as_their_message(result: Result<OutputView, ErrorView>)
    ensures
        match outcome_of(result).error {
            Some(error) => outcome_of(result).output.model_text == error.message,
            None => result is Ok,
        },
{
}

pub open spec fn missing_text_argument(key: Seq<char>) -> ErrorView {
    plain_error(
        ToolErrorCode::InvalidArguments,
        "缺少必填字符串参数 "@ + quoted_text(key),
    )
}

pub fn require_str<'a>(args: &'a Json, key: &str) -> (r: Result<&'a str, ToolError>)
    ensures
        match lookup(args@, key@) {
            Some(JsonView::Str(text)) => r is Ok && r->Ok_0@ == text,
            _ => r is Err && r->Err_0.deep_view() == missing_text_argument(key@),
        },
{
    if let Some(value) = args.get(key) {
        if let Some(text) = value.as_str() {
            return Ok(text);
        }
    }
    Err(ToolError::invalid_arguments(concat2("缺少必填字符串参数 ", quoted(key).as_str())))
}

/// The error for an argument that is no count.
pub open spec fn bad_number_argument(key: Seq<char>) -> ErrorView {
    plain_error(
        ToolErrorCode::InvalidArguments,
        "参数 "@ + quoted_text(key) + " 应为非负整数"@,
    )
}

pub fn optional_u64(args: &Json, key: &str) -> (r: Result<Option<u64>, ToolError>)
    ensures
        match lookup(args@, key@) {
            None => r == Ok::<Option<u64>, ToolError>(None),
            Some(JsonView::Null) => r == Ok::<Option<u64>, ToolError>(None),
            Some(value) => match spec_u64(value) {
                Some(n) => r == Ok::<Option<u64>, ToolError>(Some(n)),
                None => r is Err && r->Err_0.deep_view() == bad_number_argument(key@),
            },
        },
{
    match args.get(key) {
        None => Ok(None),
        Some(Json::Null) => Ok(None),
        Some(value) => match value.as_u64() {
            Some(n) => Ok(Some(n)),
            None => Err(
                ToolError::invalid_arguments(
                    concat3("参数 ", quoted(key).as_str(), " 应为非负整数"),
                ),
            ),
        },
    }
}

} // verus!
