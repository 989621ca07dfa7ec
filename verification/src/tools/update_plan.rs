//! `update_plan`: replaces the plan as a whole.
use vstd::prelude::*;

use crate::json::{
    boolean, lookup, nil, number, obj, printed_json, spec_u64, text, Fields, Json, JsonView,
};
use crate::list::{empty, put, take_all, take_next};
use crate::plan::{
    plan_ok, update_plan, with_status, PlanErrorKind, PlanItem, PlanItemView, PlanStatus, PlanView,
    MAX_PLAN_EXPLANATION_CHARS, MAX_PLAN_ID_CHARS, MAX_PLAN_ITEMS, MAX_PLAN_TEXT_CHARS,
};
use crate::text::{concat3, dec, decimal, same};

use super::{
    json_texts, own_texts, plain_error, text_array, OutputView, PermissionSpecView, Tool, ToolCapabilities,
    ToolContext, ToolEffect, ToolError, ToolErrorCode, ToolExecutionMode, ToolOutput,
    ToolPermissionSpec, ToolSpec, ToolSpecView,
};

verus! {

pub struct UpdatePlan;

/// The arguments of an update.
#[derive(Debug)]
pub struct UpdatePlanArgs {
    pub expected_revision: u64,
    pub explanation: Option<String>,
    pub plan: Vec<PlanItem>,
}

#[verifier::ext_equal]
pub struct ArgsView {
    pub expected_revision: u64,
    pub explanation: Option<Seq<char>>,
    pub plan: Seq<PlanItemView>,
}

impl DeepView for UpdatePlanArgs {
    type V = ArgsView;

    open spec fn deep_view(&self) -> ArgsView {
        ArgsView {
            expected_revision: self.expected_revision,
            explanation: self.explanation.deep_view(),
            plan: self.plan.deep_view(),
        }
    }
}

pub open spec fn status_named(name: Seq<char>) -> Option<PlanStatus> {
    if name == "pending"@ {
        Some(PlanStatus::Pending)
    } else if name == "in_progress"@ {
        Some(PlanStatus::InProgress)
    } else if name == "completed"@ {
        Some(PlanStatus::Completed)
    } else {
        None
    }
}

/// The item that a JSON value describes.
pub open spec fn item_in(value: JsonView) -> Option<PlanItemView> {
    match (lookup(value, "id"@), lookup(value, "text"@), lookup(value, "status"@)) {
        (
            Some(JsonView::Str(id)),
            Some(JsonView::Str(text)),
            Some(JsonView::Str(status)),
        ) => match status_named(status) {
            Some(status) => Some(PlanItemView { id, text, status }),
            None => None,
        },
        _ => None,
    }
}

/// The items that JSON values describe, where all of them do.
pub open spec fn items_in(values: Seq<JsonView>) -> Option<Seq<PlanItemView>>
    decreases values.len(),
{
    if values.len() == 0 {
        Some(seq![])
    } else {
        match (items_in(values.drop_last()), item_in(values.last())) {
            (Some(before), Some(item)) => Some(before.push(item)),
            _ => None,
        }
    }
}

/// The argument keys are among those that an update has.
pub open spec fn known_keys(value: Json) -> bool {
    value is Object && forall|i: int|
        0 <= i < value->Object_0@.len() ==> {
            let key = (#[trigger] value->Object_0@[i]).0@;
            key == "expected_revision"@ || key == "explanation"@ || key == "plan"@
        }
}

/// The update that the arguments ask for, where they ask for one.
pub open spec fn args_in(value: Json) -> Option<ArgsView> {
    let revision = match lookup(value@, "expected_revision"@) {
        Some(v) => spec_u64(v),
        None => None,
    };
    let explanation: Option<Option<Seq<char>>> = match lookup(value@, "explanation"@) {
        None => Some(None),
        Some(JsonView::Null) => Some(None),
        Some(JsonView::Str(text)) => Some(Some(text)),
        _ => None,
    };
    let plan = match lookup(value@, "plan"@) {
        Some(JsonView::Array(values)) => items_in(values),
        _ => None,
    };
    match (revision, explanation, plan) {
        (Some(expected_revision), Some(explanation), Some(plan)) => if known_keys(value) {
            Some(ArgsView { expected_revision, explanation, plan })
        } else {
            None
        },
        _ => None,
    }
}

fn read_item(value: &Json) -> (r: Option<PlanItem>)
    ensures
        r.deep_view() == item_in(value@),
{
    let id = match value.get("id") {
        Some(v) => v.as_str(),
        None => None,
    };
    let body = match value.get("text") {
        Some(v) => v.as_str(),
        None => None,
    };
    let status = match value.get("status") {
        Some(v) => v.as_str(),
        None => None,
    };
    match (id, body, status) {
        (Some(id), Some(body), Some(status)) => {
            let status = if same(status, "pending") {
                PlanStatus::Pending
            } else if same(status, "in_progress") {
                PlanStatus::InProgress
            } else if same(status, "completed") {
                PlanStatus::Completed
            } else {
                return None;
            };
            Some(PlanItem { id: id.to_owned(), text: body.to_owned(), status })
        },
        _ => None,
    }
}

fn read_items(values: &Vec<Json>) -> (r: Option<Vec<PlanItem>>)
    ensures
        r.deep_view() == items_in(values.deep_view()),
{
    let ghost all = values.deep_view();
    let mut out: Vec<PlanItem> = empty();
    let mut i: usize = 0;
    while i < values.len()
        invariant
            i <= values@.len(),
            all == values.deep_view(),
            items_in(all.take(i as int)) == Some(out.deep_view()),
        decreases values@.len() - i,
    {
        proof {
            take_next(all, i as int);
        }
        match read_item(&values[i]) {
            Some(item) => put(&mut out, item),
            None => {
                proof {
                    items_fail_on(all, i + 1);
                }
                return None;
            },
        }
        i = i + 1;
    }
    proof {
        take_all(all);
    }
    Some(out)
}

proof fn items_fail_on(values: Seq<JsonView>, n: int)
    requires
        0 <= n <= values.len(),
        items_in(values.take(n)) is None,
    ensures
        items_in(values) is None,
    decreases values.len() - n,
{
    if n < values.len() {
        take_next(values, n);
        items_fail_on(values, n + 1);
    } else {
        take_all(values);
    }
}

fn keys_known(value: &Json) -> (r: bool)
    ensures
        r == known_keys(*value),
{
    match value {
        Json::Object(entries) => {
            let mut i: usize = 0;
            while i < entries.len()
                invariant
                    i <= entries@.len(),
                    *value == Json::Object(*entries),
                    forall|k: int|
                        0 <= k < i ==> {
                            let key = (#[trigger] entries@[k]).0@;
                            key == "expected_revision"@ || key == "explanation"@ || key == "plan"@
                        },
                decreases entries@.len() - i,
            {
                let key = entries[i].0.as_str();
                if !(same(key, "expected_revision") || same(key, "explanation") || same(
                    key,
                    "plan",
                )) {
                    assert(value->Object_0@[i as int].0@ == key@);
                    return false;
                }
                i = i + 1;
            }
            true
        },
        _ => false,
    }
}

/// Reads an update out of the arguments.
pub fn read_args(value: &Json) -> (r: Option<UpdatePlanArgs>)
    ensures
        r.deep_view() == args_in(*value),
{
    let revision = match value.get("expected_revision") {
        Some(v) => v.as_u64(),
        None => None,
    };
    let expected_revision = match revision {
        Some(n) => n,
        None => {
            return None;
        },
    };
    let explanation = match value.get("explanation") {
        None => None,
        Some(Json::Null) => None,
        Some(Json::Str(t)) => Some(t.clone()),
        Some(_) => {
            return None;
        },
    };
    let plan = match value.get("plan") {
        Some(Json::Array(values)) => {
            assert(Json::Array(*values)@->Array_0 =~= values.deep_view());
            read_items(values)
        },
        _ => None,
    };
    match plan {
        Some(plan) => if keys_known(value) {
            Some(UpdatePlanArgs { expected_revision, explanation, plan })
        } else {
            None
        },
        None => None,
    }
}

pub open spec fn limited_text(max: int) -> JsonView {
    obj(nil()
        .push(("type"@, JsonView::Str("string"@)))
        .push(("minLength"@, JsonView::Number(1)))
        .push(("maxLength"@, JsonView::Number(max))))
}

fn limited(max: u64) -> (j: Json)
    ensures
        j@ == limited_text(max as int),
{
    Fields::new().with("type", text("string")).with("minLength", number(1)).with(
        "maxLength",
        number(max),
    ).done()
}

/// The schema of one item.
pub open spec fn item_schema() -> JsonView {
    obj(nil()
        .push(("type"@, JsonView::Str("object"@)))
        .push(("additionalProperties"@, JsonView::Bool(false)))
        .push(("properties"@, obj(nil()
            .push(("id"@, limited_text(MAX_PLAN_ID_CHARS as int)))
            .push(("status"@, obj(nil()
                .push(("type"@, JsonView::Str("string"@)))
                .push(("enum"@, text_array(seq!["pending"@, "in_progress"@, "completed"@]))))))
            .push(("text"@, limited_text(MAX_PLAN_TEXT_CHARS as int))))))
        .push(("required"@, text_array(seq!["id"@, "text"@, "status"@]))))
}

fn make_item_schema() -> (j: Json)
    ensures
        j@ == item_schema(),
{
    let names = ["pending", "in_progress", "completed"];
    let keys = ["id", "text", "status"];
    let statuses = own_texts(&names);
    let required = own_texts(&keys);
    assert(statuses.deep_view() =~= seq!["pending"@, "in_progress"@, "completed"@]);
    assert(required.deep_view() =~= seq!["id"@, "text"@, "status"@]);
    let status = Fields::new().with("type", text("string")).with("enum", json_texts(&statuses)).done();
    let properties = Fields::new().with("id", limited(MAX_PLAN_ID_CHARS as u64)).with(
        "status",
        status,
    ).with("text", limited(MAX_PLAN_TEXT_CHARS as u64)).done();
    Fields::new().with("type", text("object")).with("additionalProperties", boolean(false)).with(
        "properties",
        properties,
    ).with("required", json_texts(&required)).done()
}

/// What the model reads of a plan that was taken.
pub open spec fn plan_report(plan: PlanView) -> JsonView {
    obj(nil()
        .push(("revision"@, JsonView::Number(plan.revision as int)))
        .push(("pending"@, JsonView::Number(with_status(plan.items, PlanStatus::Pending) as int)))
        .push(("in_progress"@, JsonView::Number(with_status(plan.items, PlanStatus::InProgress) as int)))
        .push(("completed"@, JsonView::Number(with_status(plan.items, PlanStatus::Completed) as int))))
}

pub open spec fn plan_output(plan: PlanView) -> OutputView {
    OutputView {
        model_text: printed_json(plan_report(plan)),
        ui_summary: Some(
            "计划 #"@ + dec(plan.revision) + ": "@ + dec(
                with_status(plan.items, PlanStatus::Pending),
            ) + " 待处理，"@ + dec(with_status(plan.items, PlanStatus::InProgress)) + " 进行中，"@
                + dec(with_status(plan.items, PlanStatus::Completed)) + " 已完成"@,
        ),
        details: None,
    }
}

impl UpdatePlan {
    pub open spec fn declaration() -> ToolSpecView {
        ToolSpecView {
            name: "update_plan"@,
            description:
                "Replace the complete structured plan. Use for multi-step work; keep at most one item in_progress, preserve stable item ids, and pass the current revision as expected_revision. An empty plan clears it."@,
            schema: obj(nil()
                .push(("type"@, JsonView::Str("object"@)))
                .push(("additionalProperties"@, JsonView::Bool(false)))
                .push(("properties"@, obj(nil()
                    .push(("expected_revision"@, obj(nil()
                        .push(("type"@, JsonView::Str("integer"@)))
                        .push(("minimum"@, JsonView::Number(0))))))
                    .push(("explanation"@, obj(nil()
                        .push(("type"@, JsonView::Str("string"@)))
                        .push(("maxLength"@, JsonView::Number(MAX_PLAN_EXPLANATION_CHARS as int))))))
                    .push(("plan"@, obj(nil()
                        .push(("type"@, JsonView::Str("array"@)))
                        .push(("maxItems"@, JsonView::Number(MAX_PLAN_ITEMS as int)))
                        .push(("items"@, item_schema()))))))))
                .push(("required"@, text_array(seq!["expected_revision"@, "plan"@])))),
            capabilities: ToolCapabilities {
                read_only: true,
                destructive: false,
                execution_mode: ToolExecutionMode::Sequential,
                supports_background: false,
            },
            permission: PermissionSpecView { path_arguments: seq![], always_ask: false },
        }
    }
}

impl Tool for UpdatePlan {
    fn spec(&self) -> (s: ToolSpec)
        ensures
            s.deep_view() == UpdatePlan::declaration(),
    {
        let keys = ["expected_revision", "plan"];
        let required = own_texts(&keys);
        assert(required.deep_view() =~= seq!["expected_revision"@, "plan"@]);
        let revision = Fields::new().with("type", text("integer")).with("minimum", number(0)).done();
        let explanation = Fields::new().with("type", text("string")).with(
            "maxLength",
            number(MAX_PLAN_EXPLANATION_CHARS as u64),
        ).done();
        let plan = Fields::new().with("type", text("array")).with(
            "maxItems",
            number(MAX_PLAN_ITEMS as u64),
        ).with("items", make_item_schema()).done();
        let properties = Fields::new().with("expected_revision", revision).with(
            "explanation",
            explanation,
        ).with("plan", plan).done();
        ToolSpec {
            name: "update_plan".to_owned(),
            description:
                "Replace the complete structured plan. Use for multi-step work; keep at most one item in_progress, preserve stable item ids, and pass the current revision as expected_revision. An empty plan clears it.".to_owned(),
            schema: Fields::new().with("type", text("object")).with(
                "additionalProperties",
                boolean(false),
            ).with("properties", properties).with("required", json_texts(&required)).done(),
            capabilities: ToolCapabilities {
                read_only: true,
                destructive: false,
                execution_mode: ToolExecutionMode::Sequential,
                supports_background: false,
            },
            permission: ToolPermissionSpec::default(),
        }
    }

    fn execute(&self, args: &Json, ctx: &mut ToolContext<'_>) -> (r: Result<ToolOutput, ToolError>)
        ensures
            ({
                let current = old(ctx).current_plan.deep_view();
                let unchanged = final(ctx).effects.deep_view() == old(ctx).effects.deep_view();
                match args_in(*args) {
                    None => {
                        &&& r is Err
                        &&& r->Err_0.deep_view() == plain_error(
                            ToolErrorCode::InvalidArguments,
                            "invalid update_plan arguments"@,
                        )
                        &&& unchanged
                    },
                    Some(a) => if a.expected_revision != current.revision {
                        &&& r is Err
                        &&& r->Err_0.deep_view() == plain_error(
                            ToolErrorCode::Conflict,
                            "plan revision conflict: expected "@ + dec(a.expected_revision as nat)
                                + ", current "@ + dec(current.revision),
                        )
                        &&& unchanged
                    } else if current.revision == u64::MAX || !plan_ok(a.plan, a.explanation) {
                        &&& r is Err
                        &&& r->Err_0.deep_view() == plain_error(
                            ToolErrorCode::InvalidArguments,
                            "invalid plan"@,
                        )
                        &&& unchanged
                    } else {
                        let next = PlanView {
                            revision: current.revision + 1,
                            items: a.plan,
                            explanation: a.explanation,
                        };
                        &&& r is Ok
                        &&& r->Ok_0.deep_view() == plan_output(next)
                        &&& final(ctx).effects.deep_view() == old(ctx).effects.deep_view().push(next)
                    },
                }
            }),
    {
        let args = match read_args(args) {
            Some(args) => args,
            None => {
                return Err(
                    ToolError::invalid_arguments("invalid update_plan arguments".to_owned()),
                );
            },
        };
        match update_plan(&ctx.current_plan, args.expected_revision, args.plan, args.explanation) {
            Err(error) => {
                let code = match error.kind {
                    PlanErrorKind::Invalid => ToolErrorCode::InvalidArguments,
                    PlanErrorKind::Conflict => ToolErrorCode::Conflict,
                };
                Err(ToolError::new(code, error.message))
            },
            Ok(snapshot) => {
                let counts = snapshot.counts();
                let pending: u64 = counts.pending as u64;
                let in_progress: u64 = counts.in_progress as u64;
                let completed: u64 = counts.completed as u64;
                let report = Fields::new().with("revision", number(snapshot.revision)).with(
                    "pending",
                    number(pending),
                ).with("in_progress", number(in_progress)).with(
                    "completed",
                    number(completed),
                ).done();
                let mut summary = concat3("计划 #", decimal(snapshot.revision).as_str(), ": ");
                summary.push_str(decimal(pending).as_str());
                summary.push_str(" 待处理，");
                summary.push_str(decimal(in_progress).as_str());
                summary.push_str(" 进行中，");
                summary.push_str(decimal(completed).as_str());
                summary.push_str(" 已完成");
                ctx.record_effect(ToolEffect::PlanUpdated(snapshot));
                Ok(
                    ToolOutput {
                        model_text: report.print(),
                        ui_summary: Some(summary),
                        details: None,
                    },
                )
            },
        }
    }
}

} // verus!
