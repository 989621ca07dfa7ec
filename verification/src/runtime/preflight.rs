//! What a tool call goes through before it may run.
//!
//! Its arguments are checked, the permission rules are asked, the hooks are asked, arguments that a
//! hook changed are checked again, the rules are asked again, and a person where the rules say so.
//! A call that fails anywhere on the way is settled there and never runs.
use vstd::prelude::*;

use crate::event::{AgentEvent, AgentEventView};
use crate::hooks::{PreToolUsePipeline, PreView};
use crate::json::{equal, law_values_are_their_own_equals, same_value, Json, JsonView};
use crate::list::{put, take_all, take_next};
use crate::permission::{ApprovalScope, DecisionView, PermissionDecision};
use crate::text::concat2;
use crate::tools::{
    failure_of, normalize_outcome, normalized, plain_error, ErrorView, OutcomeView, PreparedToolCall,
    PreparedView, ToolError, ToolErrorCode, ToolOutcome,
};

verus! {

/// What a call needs next.
#[derive(Debug)]
pub enum PreflightStep {
    /// Prepare these arguments; `rewritten` says whether a hook gave them.
    Prepare { arguments: Json, rewritten: bool },
    /// Ask the permission rules; `last` says whether the hooks have been asked.
    Judge { call: PreparedToolCall, last: bool },
    /// Ask the hooks.
    Hooks { call: PreparedToolCall },
    /// Ask a person.
    Ask { call: PreparedToolCall, reason: String, scopes: Vec<ApprovalScope> },
    /// The call may run.
    Ready { call: PreparedToolCall },
    /// The call does not run; this is its outcome.
    Settled { outcome: ToolOutcome },
}

#[verifier::ext_equal]
pub enum PreflightView {
    Prepare { arguments: JsonView, rewritten: bool },
    Judge { call: PreparedView, last: bool },
    Hooks { call: PreparedView },
    Ask { call: PreparedView, reason: Seq<char>, scopes: Seq<ApprovalScope> },
    Ready { call: PreparedView },
    Settled { outcome: OutcomeView },
}

impl DeepView for PreflightStep {
    type V = PreflightView;

    open spec fn deep_view(&self) -> PreflightView {
        match *self {
            PreflightStep::Prepare { arguments, rewritten } => PreflightView::Prepare {
                arguments: arguments@,
                rewritten,
            },
            PreflightStep::Judge { call, last } => PreflightView::Judge {
                call: call.deep_view(),
                last,
            },
            PreflightStep::Hooks { call } => PreflightView::Hooks { call: call.deep_view() },
            PreflightStep::Ask { call, reason, scopes } => PreflightView::Ask {
                call: call.deep_view(),
                reason: reason@,
                scopes: scopes@,
            },
            PreflightStep::Ready { call } => PreflightView::Ready { call: call.deep_view() },
            PreflightStep::Settled { outcome } => PreflightView::Settled {
                outcome: outcome.deep_view(),
            },
        }
    }
}

/// A call that ends with an error.
pub open spec fn settled_with(error: ErrorView) -> PreflightView {
    PreflightView::Settled { outcome: normalized(failure_of(error)) }
}

fn settle_with(error: ToolError) -> (r: PreflightStep)
    ensures
        r.deep_view() == settled_with(error.deep_view()),
{
    PreflightStep::Settled { outcome: normalize_outcome(ToolOutcome::failure(error)) }
}

/// The outcome of a call that the rules forbid.
pub open spec fn denied(reason: Seq<char>) -> PreflightView {
    settled_with(plain_error(ToolErrorCode::PermissionDenied, reason))
}

/// An answer that was cut off may have cut the arguments: none of its calls runs.
pub open spec fn preflight_begun(arguments: JsonView, truncated: bool) -> PreflightView {
    if truncated {
        settled_with(
            plain_error(
                ToolErrorCode::TruncatedInput,
                "模型输出达到 token 上限，工具参数可能不完整；本次未执行，请重新发起完整工具调用"@,
            ),
        )
    } else {
        PreflightView::Prepare { arguments, rewritten: false }
    }
}

pub fn begin_preflight(arguments: Json, truncated: bool) -> (r: PreflightStep)
    ensures
        r.deep_view() == preflight_begun(arguments@, truncated),
{
    if truncated {
        settle_with(
            ToolError::new(
                ToolErrorCode::TruncatedInput,
                "模型输出达到 token 上限，工具参数可能不完整；本次未执行，请重新发起完整工具调用".to_owned(),
            ),
        )
    } else {
        PreflightStep::Prepare { arguments, rewritten: false }
    }
}

/// The error for arguments of a hook that do not pass.
pub open spec fn bad_rewrite(error: ErrorView) -> ErrorView {
    ErrorView {
        code: ToolErrorCode::HookRejected,
        message: "Hook 改写后的参数未通过 preflight: "@ + error.message,
        retryable: false,
        details: error.details,
    }
}

pub open spec fn prepared_taken(result: Result<PreparedView, ErrorView>, rewritten: bool) -> PreflightView {
    match result {
        Ok(call) => PreflightView::Judge { call, last: rewritten },
        Err(error) => settled_with(
            if rewritten {
                bad_rewrite(error)
            } else {
                error
            },
        ),
    }
}

pub open spec fn preparation(result: Result<PreparedToolCall, ToolError>) -> Result<
    PreparedView,
    ErrorView,
> {
    match result {
        Ok(call) => Ok(call.deep_view()),
        Err(error) => Err(error.deep_view()),
    }
}

/// After the arguments have been checked.
pub fn take_prepared(result: Result<PreparedToolCall, ToolError>, rewritten: bool) -> (r: PreflightStep)
    ensures
        r.deep_view() == prepared_taken(preparation(result), rewritten),
{
    match result {
        Ok(call) => PreflightStep::Judge { call, last: rewritten },
        Err(error) => {
            if rewritten {
                settle_with(
                    ToolError {
                        code: ToolErrorCode::HookRejected,
                        message: concat2(
                            "Hook 改写后的参数未通过 preflight: ",
                            error.message.as_str(),
                        ),
                        retryable: false,
                        details: error.details,
                    },
                )
            } else {
                settle_with(error)
            }
        },
    }
}

/// Before the hooks only a refusal counts; after them the rules have the last word.
pub open spec fn decision_taken(call: PreparedView, last: bool, decision: DecisionView) -> PreflightView {
    match decision {
        DecisionView::Deny { reason } => denied(reason),
        DecisionView::Allow => if last {
            PreflightView::Ready { call }
        } else {
            PreflightView::Hooks { call }
        },
        DecisionView::Ask { reason, scopes } => if last {
            PreflightView::Ask { call, reason, scopes }
        } else {
            PreflightView::Hooks { call }
        },
    }
}

/// After the rules have been asked.
pub fn take_decision(call: PreparedToolCall, last: bool, decision: PermissionDecision) -> (r:
    PreflightStep)
    ensures
        r.deep_view() == decision_taken(call.deep_view(), last, decision.deep_view()),
{
    match decision {
        PermissionDecision::Deny { reason } => settle_with(
            ToolError::new(ToolErrorCode::PermissionDenied, reason),
        ),
        PermissionDecision::Allow => if last {
            PreflightStep::Ready { call }
        } else {
            PreflightStep::Hooks { call }
        },
        PermissionDecision::Ask { reason, scopes } => if last {
            PreflightStep::Ask { call, reason, scopes }
        } else {
            PreflightStep::Hooks { call }
        },
    }
}

/// What the hooks had to warn about, as it is shown.
pub open spec fn warnings_shown(warnings: Seq<Seq<char>>) -> Seq<AgentEventView> {
    Seq::new(warnings.len(), |i: int| AgentEventView::Notice(warnings[i]))
}

pub fn show_warnings(warnings: &Vec<String>, events: &mut Vec<AgentEvent>)
    ensures
        final(events).deep_view() == old(events).deep_view() + warnings_shown(warnings.deep_view()),
{
    let ghost before = events.deep_view();
    let ghost all = warnings.deep_view();
    let mut i: usize = 0;
    assert(before + warnings_shown(all.take(0)) =~= before);
    while i < warnings.len()
        invariant
            i <= warnings@.len(),
            all == warnings.deep_view(),
            events.deep_view() == before + warnings_shown(all.take(i as int)),
        decreases warnings@.len() - i,
    {
        proof {
            take_next(all, i as int);
        }
        put(events, AgentEvent::Notice(warnings[i].clone()));
        i = i + 1;
        assert(events.deep_view() =~= before + warnings_shown(all.take(i as int)));
    }
    proof {
        take_all(all);
    }
}

/// A hook may stop the call or change its arguments; what it changed is prepared anew.
pub open spec fn hooks_taken(call: PreparedView, pre: PreView) -> PreflightView {
    match pre.block {
        Some(reason) => settled_with(plain_error(ToolErrorCode::HookRejected, reason)),
        None => if same_value(pre.arguments, call.arguments) {
            PreflightView::Judge { call, last: true }
        } else {
            PreflightView::Prepare { arguments: pre.arguments, rewritten: true }
        },
    }
}

/// After the hooks have been asked.
pub fn take_hooks(call: PreparedToolCall, pre: PreToolUsePipeline, events: &mut Vec<AgentEvent>) -> (r:
    PreflightStep)
    ensures
        r.deep_view() == hooks_taken(call.deep_view(), pre.deep_view()),
        final(events).deep_view() == old(events).deep_view() + warnings_shown(
            pre.deep_view().warnings,
        ),
{
    show_warnings(&pre.warnings, events);
    match pre.block {
        Some(reason) => settle_with(ToolError::new(ToolErrorCode::HookRejected, reason)),
        None => {
            if equal(&pre.arguments, &call.arguments) {
                PreflightStep::Judge { call, last: true }
            } else {
                PreflightStep::Prepare { arguments: pre.arguments, rewritten: true }
            }
        },
    }
}

pub open spec fn approval_taken(call: PreparedView, refused: Option<ErrorView>) -> PreflightView {
    match refused {
        None => PreflightView::Ready { call },
        Some(error) => settled_with(error),
    }
}

/// After a person has been asked.
pub fn take_approval(call: PreparedToolCall, refused: Option<ToolError>) -> (r: PreflightStep)
    ensures
        r.deep_view() == approval_taken(call.deep_view(), refused.deep_view()),
{
    match refused {
        None => PreflightStep::Ready { call },
        Some(error) => settle_with(error),
    }
}

// ---- Laws ----

/// No part of the way but its end lets a call run: the rules allow it after the hooks have spoken,
/// or a person does.
pub proof fn law_calls_run_only_when_allowed(
    arguments: JsonView,
    truncated: bool,
    result: Result<PreparedView, ErrorView>,
    call: PreparedView,
    flag: bool,
    decision: DecisionView,
    pre: PreView,
    refused: Option<ErrorView>,
)
    ensures
        !(preflight_begun(arguments, truncated) is Ready),
        !(prepared_taken(result, flag) is Ready),
        !(hooks_taken(call, pre) is Ready),
        decision_taken(call, flag, decision) is Ready ==> flag && decision is Allow,
        approval_taken(call, refused) is Ready ==> refused is None,
{
}

/// What the rules forbid is not shown to the hooks, nor to a person.
pub proof fn law_refusals_are_final(call: PreparedView, last: bool, reason: Seq<char>)
    ensures
        decision_taken(call, last, DecisionView::Deny { reason }) is Settled,
{
}

/// Arguments that a hook changed are checked, and judged by the rules, before anything else.
pub proof fn law_rewritten_arguments_are_checked_again(
    call: PreparedView,
    pre: PreView,
    rewritten: PreparedView,
)
    requires
        pre.block is None,
        !same_value(pre.arguments, call.arguments),
    ensures
        hooks_taken(call, pre) == (PreflightView::Prepare {
            arguments: pre.arguments,
            rewritten: true,
        }),
        prepared_taken(Ok(rewritten), true) == (PreflightView::Judge {
            call: rewritten,
            last: true,
        }),
{
}

/// Arguments that no hook changed are not prepared anew: the rules judge the call once more, and
/// it is the call as it was.
pub proof fn law_kept_arguments_are_not_prepared_again(call: PreparedView, pre: PreView)
    requires
        pre.block is None,
        pre.arguments == call.arguments,
    ensures
        hooks_taken(call, pre) == (PreflightView::Judge { call, last: true }),
{
    law_values_are_their_own_equals(call.arguments);
}

} // verus!
