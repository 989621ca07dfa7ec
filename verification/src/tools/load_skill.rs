//! `load_skill`: brings the full text of a skill into the conversation.
use std::sync::Arc;

use vstd::prelude::*;

use crate::json::{lookup, nil, number, obj, text, Fields, Json, JsonView};
use crate::skills::{
    message_of, render_loaded_skill, rendered, LoadErrorView, LoadedSkill, SkillCatalog,
    SkillLoadError,
};

use super::read_file::{closed_arguments, closed_schema};
use super::{
    missing_text_argument, plain_error, require_str, result_view, text_output, ErrorView,
    OutputView, PermissionSpecView, ToolCapabilities, ToolError, ToolErrorCode, ToolOutput,
    ToolPermissionSpec, ToolSpec, ToolSpecView,
};

verus! {

#[derive(Debug)]
pub struct LoadSkill {
    pub catalog: Arc<SkillCatalog>,
}

pub open spec fn load_code(e: LoadErrorView) -> ToolErrorCode {
    match e {
        LoadErrorView::NotFound(_) => ToolErrorCode::NotFound,
        LoadErrorView::Stale(_) => ToolErrorCode::Conflict,
        LoadErrorView::Io(_) => ToolErrorCode::Io,
        LoadErrorView::Invalid(_) => ToolErrorCode::InvalidArguments,
    }
}

impl LoadSkill {
    pub fn new(catalog: Arc<SkillCatalog>) -> (t: LoadSkill)
        ensures
            t.catalog == catalog,
    {
        LoadSkill { catalog }
    }

    pub open spec fn declaration() -> ToolSpecView {
        ToolSpecView {
            name: "load_skill"@,
            description:
                "Load the full instructions for one skill from the startup catalog. Use this before following a named skill. If the user asks to install a skill or provides a documentation/GitHub link, ask whether the target is global or workspace-local and confirm their intent, then use the existing run_command or write_file tools to install it; those tools enforce normal permissions. The catalog refreshes after restarting Onemore."@,
            schema: closed_schema(
                obj(
                    nil().push(
                        (
                            "name"@,
                            obj(
                                nil().push(("type"@, JsonView::Str("string"@))).push(
                                    ("minLength"@, JsonView::Number(1)),
                                ).push(("maxLength"@, JsonView::Number(64))),
                            ),
                        ),
                    ),
                ),
                seq!["name"@],
            ),
            capabilities: ToolCapabilities::reading(),
            permission: PermissionSpecView { path_arguments: seq![], always_ask: false },
        }
    }

    pub fn spec(&self) -> (s: ToolSpec)
        ensures
            s.deep_view() == LoadSkill::declaration(),
    {
        let one = ["name"];
        let s = ToolSpec {
            name: "load_skill".to_owned(),
            description:
                "Load the full instructions for one skill from the startup catalog. Use this before following a named skill. If the user asks to install a skill or provides a documentation/GitHub link, ask whether the target is global or workspace-local and confirm their intent, then use the existing run_command or write_file tools to install it; those tools enforce normal permissions. The catalog refreshes after restarting Onemore.".to_owned(),
            schema: closed_arguments(
                Fields::new().with(
                    "name",
                    Fields::new().with("type", text("string")).with("minLength", number(1)).with(
                        "maxLength",
                        number(64),
                    ).done(),
                ).done(),
                &one,
            ),
            capabilities: ToolCapabilities::read_only(),
            permission: ToolPermissionSpec::default(),
        };
        assert(one.deep_view() =~= seq!["name"@]);
        s
    }

    /// Which skill is asked for.
    pub fn request<'a>(&self, args: &'a Json) -> (r: Result<&'a str, ToolError>)
        ensures
            match lookup(args@, "name"@) {
                Some(JsonView::Str(name)) => r is Ok && r->Ok_0@ == name,
                _ => r is Err && r->Err_0.deep_view() == missing_text_argument("name"@),
            },
    {
        require_str(args, "name")
    }

    /// What the model gets to see of a load.
    pub fn conclude(&self, loaded: Result<LoadedSkill, SkillLoadError>) -> (r: Result<
        ToolOutput,
        ToolError,
    >)
        ensures
            result_view(r) == (match loaded {
                Ok(skill) => Ok::<OutputView, ErrorView>(text_output(rendered(skill.deep_view()))),
                Err(e) => Err::<OutputView, ErrorView>(
                    plain_error(load_code(e.deep_view()), message_of(e.deep_view())),
                ),
            }),
    {
        match loaded {
            Ok(skill) => Ok(ToolOutput::text(render_loaded_skill(&skill))),
            Err(e) => Err(
                match e {
                    SkillLoadError::NotFound(message) => ToolError::new(
                        ToolErrorCode::NotFound,
                        message,
                    ),
                    SkillLoadError::Stale(message) => ToolError::new(
                        ToolErrorCode::Conflict,
                        message,
                    ),
                    SkillLoadError::Io(message) => ToolError::new(ToolErrorCode::Io, message),
                    SkillLoadError::Invalid(message) => ToolError::new(
                        ToolErrorCode::InvalidArguments,
                        message,
                    ),
                },
            ),
        }
    }
}

} // verus!
