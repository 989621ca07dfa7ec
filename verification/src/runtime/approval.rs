//! The wait for a person's decision about a tool call.
use vstd::prelude::*;

use crate::event::{AgentEvent, AgentEventView};

use crate::list::put;
use crate::permission::{
    ApprovalDecision, ApprovalRequest, ApprovalResponse, ApprovalScope, ApprovalView,
};
use crate::session::{fresh_id, uuid_form};
use crate::text::{concat2, same};
use crate::tools::{plain_error, ErrorView, PreparedToolCall, PreparedView, ToolError, ToolErrorCode};
use crate::util::{args_summary, summary_of};

verus! {

/// What happens while a decision is awaited.
#[derive(Debug)]
pub enum ApprovalSignal {
    /// Nothing, for a while.
    Tick,
    /// The run was cancelled.
    Cancelled,
    Response(ApprovalResponse),
    /// Nobody will answer any more.
    Closed,
}

/// What comes of it.
#[derive(Debug)]
pub enum ApprovalStep {
    Wait,
    /// The call may go ahead; `remember` says whether the same call may do so without asking for
    /// the rest of the session.
    Allowed { remember: bool },
    Refused(ToolError),
}

#[verifier::ext_equal]
pub enum ApprovalStepView {
    Wait,
    Allowed { remember: bool },
    Refused(ErrorView),
}

impl DeepView for ApprovalStep {
    type V = ApprovalStepView;

    open spec fn deep_view(&self) -> ApprovalStepView {
        match *self {
            ApprovalStep::Wait => ApprovalStepView::Wait,
            ApprovalStep::Allowed { remember } => ApprovalStepView::Allowed { remember },
            ApprovalStep::Refused(e) => ApprovalStepView::Refused(e.deep_view()),
        }
    }
}

/// The request about a call, under a given id.
pub open spec fn request_for(
    request_id: Seq<char>,
    call: PreparedView,
    reason: Seq<char>,
    scopes: Seq<ApprovalScope>,
) -> ApprovalView {
    ApprovalView {
        request_id,
        tool: call.spec.name,
        summary: summary_of(call.arguments),
        reason,
        scopes,
    }
}

pub fn make_request(
    request_id: String,
    call: &PreparedToolCall,
    reason: String,
    scopes: Vec<ApprovalScope>,
) -> (r: ApprovalRequest)
    ensures
        r.deep_view() == request_for(request_id@, call.deep_view(), reason@, scopes@),
{
    ApprovalRequest {
        request_id,
        tool: call.spec.name.clone(),
        summary: args_summary(&call.arguments),
        reason,
        scopes,
    }
}

/// A request under a fresh id.
pub fn new_request(call: &PreparedToolCall, reason: String, scopes: Vec<ApprovalScope>) -> (r:
    ApprovalRequest)
    ensures
        r.deep_view() == request_for(r.request_id@, call.deep_view(), reason@, scopes@),
        uuid_form(r.request_id@),
{
    make_request(fresh_id(), call, reason, scopes)
}

pub open spec fn resolved(request_id: Seq<char>, allowed: bool) -> AgentEventView {
    AgentEventView::PermissionResolved { request_id, allowed }
}

/// The refusal where nobody can be asked.
pub open spec fn nobody_to_ask() -> ErrorView {
    plain_error(
        ToolErrorCode::PermissionDenied,
        "当前前端不支持交互审批；请在 [permissions] 中显式 allow 或改用 TUI"@,
    )
}

/// Refuses a request because nobody can be asked.
pub fn refuse_unasked(request_id: &str, events: &mut Vec<AgentEvent>) -> (e: ToolError)
    ensures
        e.deep_view() == nobody_to_ask(),
        final(events).deep_view() == old(events).deep_view().push(resolved(request_id@, false)),
{
    put(
        events,
        AgentEvent::PermissionResolved { request_id: request_id.to_owned(), allowed: false },
    );
    ToolError::new(
        ToolErrorCode::PermissionDenied,
        "当前前端不支持交互审批；请在 [permissions] 中显式 allow 或改用 TUI".to_owned(),
    )
}

/// What a signal comes to, and what is shown of it. Answers to other requests are ignored.
pub open spec fn approval_after(request_id: Seq<char>, signal: ApprovalSignal) -> (
    ApprovalStepView,
    Seq<AgentEventView>,
) {
    match signal {
        ApprovalSignal::Tick => (ApprovalStepView::Wait, seq![]),
        ApprovalSignal::Cancelled => (
            ApprovalStepView::Refused(
                plain_error(ToolErrorCode::Aborted, "等待审批时被用户取消"@),
            ),
            seq![resolved(request_id, false)],
        ),
        ApprovalSignal::Closed => (
            ApprovalStepView::Refused(
                plain_error(
                    ToolErrorCode::PermissionDenied,
                    "审批通道已关闭，本次工具未执行"@,
                ),
            ),
            seq![resolved(request_id, false)],
        ),
        ApprovalSignal::Response(response) => if response.request_id@ != request_id {
            (
                ApprovalStepView::Wait,
                seq![AgentEventView::Notice("忽略过期审批响应 "@ + response.request_id@)],
            )
        } else {
            match response.decision {
                ApprovalDecision::Allow(scope) => (
                    ApprovalStepView::Allowed { remember: scope == ApprovalScope::Session },
                    seq![resolved(request_id, true)],
                ),
                ApprovalDecision::Deny => (
                    ApprovalStepView::Refused(
                        plain_error(
                            ToolErrorCode::PermissionDenied,
                            "用户拒绝了本次工具调用"@,
                        ),
                    ),
                    seq![resolved(request_id, false)],
                ),
            }
        },
    }
}

pub fn on_approval_signal(request_id: &str, signal: ApprovalSignal, events: &mut Vec<AgentEvent>) -> (r:
    ApprovalStep)
    ensures
        r.deep_view() == approval_after(request_id@, signal).0,
        final(events).deep_view() == old(events).deep_view() + approval_after(
            request_id@,
            signal,
        ).1,
{
    let ghost before = events.deep_view();
    let ghost goal = before + approval_after(request_id@, signal).1;
    match signal {
        ApprovalSignal::Tick => {
            assert(events.deep_view() =~= goal);
            ApprovalStep::Wait
        },
        ApprovalSignal::Cancelled => {
            put(
                events,
                AgentEvent::PermissionResolved { request_id: request_id.to_owned(), allowed: false },
            );
            assert(events.deep_view() =~= goal);
            ApprovalStep::Refused(
                ToolError::new(
                    ToolErrorCode::Aborted,
                    "等待审批时被用户取消".to_owned(),
                ),
            )
        },
        ApprovalSignal::Closed => {
            put(
                events,
                AgentEvent::PermissionResolved { request_id: request_id.to_owned(), allowed: false },
            );
            assert(events.deep_view() =~= goal);
            ApprovalStep::Refused(
                ToolError::new(
                    ToolErrorCode::PermissionDenied,
                    "审批通道已关闭，本次工具未执行".to_owned(),
                ),
            )
        },
        ApprovalSignal::Response(response) => {
            if !same(response.request_id.as_str(), request_id) {
                put(
                    events,
                    AgentEvent::Notice(
                        concat2("忽略过期审批响应 ", response.request_id.as_str()),
                    ),
                );
                assert(events.deep_view() =~= goal);
                return ApprovalStep::Wait;
            }
            match response.decision {
                ApprovalDecision::Allow(scope) => {
                    put(
                        events,
                        AgentEvent::PermissionResolved {
                            request_id: request_id.to_owned(),
                            allowed: true,
                        },
                    );
                    assert(events.deep_view() =~= goal);
                    ApprovalStep::Allowed { remember: scope == ApprovalScope::Session }
                },
                ApprovalDecision::Deny => {
                    put(
                        events,
                        AgentEvent::PermissionResolved {
                            request_id: request_id.to_owned(),
                            allowed: false,
                        },
                    );
                    assert(events.deep_view() =~= goal);
                    ApprovalStep::Refused(
                        ToolError::new(
                            ToolErrorCode::PermissionDenied,
                            "用户拒绝了本次工具调用".to_owned(),
                        ),
                    )
                },
            }
        },
    }
}

/// Nothing but an answer to the very request lets a call go ahead.
pub proof fn law_only_an_answer_allows(request_id: Seq<char>, signal: ApprovalSignal)
    requires
        approval_after(request_id, signal).0 is Allowed,
    ensures
        signal is Response,
        signal->Response_0.request_id@ == request_id,
        signal->Response_0.decision is Allow,
{
}

} // verus!
