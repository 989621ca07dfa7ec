//! What the tools declare, and what becomes of arguments.
use vstd::prelude::*;

use crate::json::{entries_are_said, lookup, Json, JsonView};
use crate::skills::LoadErrorView;
use crate::text::{dec, quoted_text, sorted_entries, text_le};
use crate::tools::{
    bad_number_argument, by_name, missing_text_argument, named_specs, nonconforming, plain_error,
    text_array, text_output, PreparedToolCall, PreparedView, Tool, ToolCapabilities, ToolError,
    ToolErrorCode, ToolRegistry, ToolSpecView,
};
use crate::tools::list_dir::ListDir;
use crate::tools::load_skill::{load_code, LoadSkill};
use crate::tools::read_file::{closed_schema, integer_schema, text_schema, ReadFile};
use crate::tools::run_command::{RunCommand, Shell};
use crate::tools::schema::schema_errors;
use crate::tools::update_plan::{
    args_in, item_schema, items_in, known_keys, limited_text, UpdatePlan,
};
use crate::tools::write_file::WriteFile;
use crate::wording::law_entries_are_in_order;

verus! {

proof fn schema_keys()
    ensures
        "type"@ != "additionalProperties"@,
        "type"@ != "properties"@,
        "type"@ != "required"@,
        "type"@ != "minLength"@,
        "type"@ != "maxLength"@,
        "type"@ != "minimum"@,
        "type"@ != "maximum"@,
        "type"@ != "description"@,
        "type"@ != "enum"@,
        "type"@ != "items"@,
        "type"@ != "maxItems"@,
        "additionalProperties"@ != "properties"@,
        "additionalProperties"@ != "required"@,
        "additionalProperties"@ != "minLength"@,
        "additionalProperties"@ != "maxLength"@,
        "additionalProperties"@ != "minimum"@,
        "additionalProperties"@ != "maximum"@,
        "additionalProperties"@ != "description"@,
        "additionalProperties"@ != "enum"@,
        "additionalProperties"@ != "items"@,
        "additionalProperties"@ != "maxItems"@,
        "properties"@ != "required"@,
        "properties"@ != "minLength"@,
        "properties"@ != "maxLength"@,
        "properties"@ != "minimum"@,
        "properties"@ != "maximum"@,
        "properties"@ != "description"@,
        "properties"@ != "enum"@,
        "properties"@ != "items"@,
        "properties"@ != "maxItems"@,
        "required"@ != "minLength"@,
        "required"@ != "maxLength"@,
        "required"@ != "minimum"@,
        "required"@ != "maximum"@,
        "required"@ != "description"@,
        "required"@ != "enum"@,
        "required"@ != "items"@,
        "required"@ != "maxItems"@,
        "minLength"@ != "maxLength"@,
        "minLength"@ != "minimum"@,
        "minLength"@ != "maximum"@,
        "minLength"@ != "description"@,
        "minLength"@ != "enum"@,
        "minLength"@ != "items"@,
        "minLength"@ != "maxItems"@,
        "maxLength"@ != "minimum"@,
        "maxLength"@ != "maximum"@,
        "maxLength"@ != "description"@,
        "maxLength"@ != "enum"@,
        "maxLength"@ != "items"@,
        "maxLength"@ != "maxItems"@,
        "minimum"@ != "maximum"@,
        "minimum"@ != "description"@,
        "minimum"@ != "enum"@,
        "minimum"@ != "items"@,
        "minimum"@ != "maxItems"@,
        "maximum"@ != "description"@,
        "maximum"@ != "enum"@,
        "maximum"@ != "items"@,
        "maximum"@ != "maxItems"@,
        "description"@ != "enum"@,
        "description"@ != "items"@,
        "description"@ != "maxItems"@,
        "enum"@ != "items"@,
        "enum"@ != "maxItems"@,
        "items"@ != "maxItems"@,
{
    reveal_strlit("type");
    reveal_strlit("additionalProperties");
    reveal_strlit("properties");
    reveal_strlit("required");
    reveal_strlit("minLength");
    reveal_strlit("maxLength");
    reveal_strlit("minimum");
    reveal_strlit("maximum");
    reveal_strlit("description");
    reveal_strlit("enum");
    reveal_strlit("items");
    reveal_strlit("maxItems");
    assert("type"@.len() != "additionalProperties"@.len());
    assert("type"@.len() != "properties"@.len());
    assert("type"@.len() != "required"@.len());
    assert("type"@.len() != "minLength"@.len());
    assert("type"@.len() != "maxLength"@.len());
    assert("type"@.len() != "minimum"@.len());
    assert("type"@.len() != "maximum"@.len());
    assert("type"@.len() != "description"@.len());
    assert("type"@[0] != "enum"@[0]);
    assert("type"@.len() != "items"@.len());
    assert("type"@.len() != "maxItems"@.len());
    assert("additionalProperties"@.len() != "properties"@.len());
    assert("additionalProperties"@.len() != "required"@.len());
    assert("additionalProperties"@.len() != "minLength"@.len());
    assert("additionalProperties"@.len() != "maxLength"@.len());
    assert("additionalProperties"@.len() != "minimum"@.len());
    assert("additionalProperties"@.len() != "maximum"@.len());
    assert("additionalProperties"@.len() != "description"@.len());
    assert("additionalProperties"@.len() != "enum"@.len());
    assert("additionalProperties"@.len() != "items"@.len());
    assert("additionalProperties"@.len() != "maxItems"@.len());
    assert("properties"@.len() != "required"@.len());
    assert("properties"@.len() != "minLength"@.len());
    assert("properties"@.len() != "maxLength"@.len());
    assert("properties"@.len() != "minimum"@.len());
    assert("properties"@.len() != "maximum"@.len());
    assert("properties"@.len() != "description"@.len());
    assert("properties"@.len() != "enum"@.len());
    assert("properties"@.len() != "items"@.len());
    assert("properties"@.len() != "maxItems"@.len());
    assert("required"@.len() != "minLength"@.len());
    assert("required"@.len() != "maxLength"@.len());
    assert("required"@.len() != "minimum"@.len());
    assert("required"@.len() != "maximum"@.len());
    assert("required"@.len() != "description"@.len());
    assert("required"@.len() != "enum"@.len());
    assert("required"@.len() != "items"@.len());
    assert("required"@[0] != "maxItems"@[0]);
    assert("minLength"@[1] != "maxLength"@[1]);
    assert("minLength"@.len() != "minimum"@.len());
    assert("minLength"@.len() != "maximum"@.len());
    assert("minLength"@.len() != "description"@.len());
    assert("minLength"@.len() != "enum"@.len());
    assert("minLength"@.len() != "items"@.len());
    assert("minLength"@.len() != "maxItems"@.len());
    assert("maxLength"@.len() != "minimum"@.len());
    assert("maxLength"@.len() != "maximum"@.len());
    assert("maxLength"@.len() != "description"@.len());
    assert("maxLength"@.len() != "enum"@.len());
    assert("maxLength"@.len() != "items"@.len());
    assert("maxLength"@.len() != "maxItems"@.len());
    assert("minimum"@[1] != "maximum"@[1]);
    assert("minimum"@.len() != "description"@.len());
    assert("minimum"@.len() != "enum"@.len());
    assert("minimum"@.len() != "items"@.len());
    assert("minimum"@.len() != "maxItems"@.len());
    assert("maximum"@.len() != "description"@.len());
    assert("maximum"@.len() != "enum"@.len());
    assert("maximum"@.len() != "items"@.len());
    assert("maximum"@.len() != "maxItems"@.len());
    assert("description"@.len() != "enum"@.len());
    assert("description"@.len() != "items"@.len());
    assert("description"@.len() != "maxItems"@.len());
    assert("enum"@.len() != "items"@.len());
    assert("enum"@.len() != "maxItems"@.len());
    assert("items"@.len() != "maxItems"@.len());
}

proof fn argument_keys()
    ensures
        "path"@ != "offset"@,
        "path"@ != "limit"@,
        "path"@ != "content"@,
        "path"@ != "command"@,
        "path"@ != "cwd"@,
        "path"@ != "timeout_secs"@,
        "path"@ != "depth"@,
        "path"@ != "name"@,
        "path"@ != "expected_revision"@,
        "path"@ != "explanation"@,
        "path"@ != "plan"@,
        "path"@ != "id"@,
        "path"@ != "text"@,
        "path"@ != "status"@,
        "offset"@ != "limit"@,
        "offset"@ != "content"@,
        "offset"@ != "command"@,
        "offset"@ != "cwd"@,
        "offset"@ != "timeout_secs"@,
        "offset"@ != "depth"@,
        "offset"@ != "name"@,
        "offset"@ != "expected_revision"@,
        "offset"@ != "explanation"@,
        "offset"@ != "plan"@,
        "offset"@ != "id"@,
        "offset"@ != "text"@,
        "offset"@ != "status"@,
        "limit"@ != "content"@,
        "limit"@ != "command"@,
        "limit"@ != "cwd"@,
        "limit"@ != "timeout_secs"@,
        "limit"@ != "depth"@,
        "limit"@ != "name"@,
        "limit"@ != "expected_revision"@,
        "limit"@ != "explanation"@,
        "limit"@ != "plan"@,
        "limit"@ != "id"@,
        "limit"@ != "text"@,
        "limit"@ != "status"@,
        "content"@ != "command"@,
        "content"@ != "cwd"@,
        "content"@ != "timeout_secs"@,
        "content"@ != "depth"@,
        "content"@ != "name"@,
        "content"@ != "expected_revision"@,
        "content"@ != "explanation"@,
        "content"@ != "plan"@,
        "content"@ != "id"@,
        "content"@ != "text"@,
        "content"@ != "status"@,
        "command"@ != "cwd"@,
        "command"@ != "timeout_secs"@,
        "command"@ != "depth"@,
        "command"@ != "name"@,
        "command"@ != "expected_revision"@,
        "command"@ != "explanation"@,
        "command"@ != "plan"@,
        "command"@ != "id"@,
        "command"@ != "text"@,
        "command"@ != "status"@,
        "cwd"@ != "timeout_secs"@,
        "cwd"@ != "depth"@,
        "cwd"@ != "name"@,
        "cwd"@ != "expected_revision"@,
        "cwd"@ != "explanation"@,
        "cwd"@ != "plan"@,
        "cwd"@ != "id"@,
        "cwd"@ != "text"@,
        "cwd"@ != "status"@,
        "timeout_secs"@ != "depth"@,
        "timeout_secs"@ != "name"@,
        "timeout_secs"@ != "expected_revision"@,
        "timeout_secs"@ != "explanation"@,
        "timeout_secs"@ != "plan"@,
        "timeout_secs"@ != "id"@,
        "timeout_secs"@ != "text"@,
        "timeout_secs"@ != "status"@,
        "depth"@ != "name"@,
        "depth"@ != "expected_revision"@,
        "depth"@ != "explanation"@,
        "depth"@ != "plan"@,
        "depth"@ != "id"@,
        "depth"@ != "text"@,
        "depth"@ != "status"@,
        "name"@ != "expected_revision"@,
        "name"@ != "explanation"@,
        "name"@ != "plan"@,
        "name"@ != "id"@,
        "name"@ != "text"@,
        "name"@ != "status"@,
        "expected_revision"@ != "explanation"@,
        "expected_revision"@ != "plan"@,
        "expected_revision"@ != "id"@,
        "expected_revision"@ != "text"@,
        "expected_revision"@ != "status"@,
        "explanation"@ != "plan"@,
        "explanation"@ != "id"@,
        "explanation"@ != "text"@,
        "explanation"@ != "status"@,
        "plan"@ != "id"@,
        "plan"@ != "text"@,
        "plan"@ != "status"@,
        "id"@ != "text"@,
        "id"@ != "status"@,
        "text"@ != "status"@,
{
    reveal_strlit("path");
    reveal_strlit("offset");
    reveal_strlit("limit");
    reveal_strlit("content");
    reveal_strlit("command");
    reveal_strlit("cwd");
    reveal_strlit("timeout_secs");
    reveal_strlit("depth");
    reveal_strlit("name");
    reveal_strlit("expected_revision");
    reveal_strlit("explanation");
    reveal_strlit("plan");
    reveal_strlit("id");
    reveal_strlit("text");
    reveal_strlit("status");
    assert("path"@.len() != "offset"@.len());
    assert("path"@.len() != "limit"@.len());
    assert("path"@.len() != "content"@.len());
    assert("path"@.len() != "command"@.len());
    assert("path"@.len() != "cwd"@.len());
    assert("path"@.len() != "timeout_secs"@.len());
    assert("path"@.len() != "depth"@.len());
    assert("path"@[0] != "name"@[0]);
    assert("path"@.len() != "expected_revision"@.len());
    assert("path"@.len() != "explanation"@.len());
    assert("path"@[1] != "plan"@[1]);
    assert("path"@.len() != "id"@.len());
    assert("path"@[0] != "text"@[0]);
    assert("path"@.len() != "status"@.len());
    assert("offset"@.len() != "limit"@.len());
    assert("offset"@.len() != "content"@.len());
    assert("offset"@.len() != "command"@.len());
    assert("offset"@.len() != "cwd"@.len());
    assert("offset"@.len() != "timeout_secs"@.len());
    assert("offset"@.len() != "depth"@.len());
    assert("offset"@.len() != "name"@.len());
    assert("offset"@.len() != "expected_revision"@.len());
    assert("offset"@.len() != "explanation"@.len());
    assert("offset"@.len() != "plan"@.len());
    assert("offset"@.len() != "id"@.len());
    assert("offset"@.len() != "text"@.len());
    assert("offset"@[0] != "status"@[0]);
    assert("limit"@.len() != "content"@.len());
    assert("limit"@.len() != "command"@.len());
    assert("limit"@.len() != "cwd"@.len());
    assert("limit"@.len() != "timeout_secs"@.len());
    assert("limit"@[0] != "depth"@[0]);
    assert("limit"@.len() != "name"@.len());
    assert("limit"@.len() != "expected_revision"@.len());
    assert("limit"@.len() != "explanation"@.len());
    assert("limit"@.len() != "plan"@.len());
    assert("limit"@.len() != "id"@.len());
    assert("limit"@.len() != "text"@.len());
    assert("limit"@.len() != "status"@.len());
    assert("content"@[2] != "command"@[2]);
    assert("content"@.len() != "cwd"@.len());
    assert("content"@.len() != "timeout_secs"@.len());
    assert("content"@.len() != "depth"@.len());
    assert("content"@.len() != "name"@.len());
    assert("content"@.len() != "expected_revision"@.len());
    assert("content"@.len() != "explanation"@.len());
    assert("content"@.len() != "plan"@.len());
    assert("content"@.len() != "id"@.len());
    assert("content"@.len() != "text"@.len());
    assert("content"@.len() != "status"@.len());
    assert("command"@.len() != "cwd"@.len());
    assert("command"@.len() != "timeout_secs"@.len());
    assert("command"@.len() != "depth"@.len());
    assert("command"@.len() != "name"@.len());
    assert("command"@.len() != "expected_revision"@.len());
    assert("command"@.len() != "explanation"@.len());
    assert("command"@.len() != "plan"@.len());
    assert("command"@.len() != "id"@.len());
    assert("command"@.len() != "text"@.len());
    assert("command"@.len() != "status"@.len());
    assert("cwd"@.len() != "timeout_secs"@.len());
    assert("cwd"@.len() != "depth"@.len());
    assert("cwd"@.len() != "name"@.len());
    assert("cwd"@.len() != "expected_revision"@.len());
    assert("cwd"@.len() != "explanation"@.len());
    assert("cwd"@.len() != "plan"@.len());
    assert("cwd"@.len() != "id"@.len());
    assert("cwd"@.len() != "text"@.len());
    assert("cwd"@.len() != "status"@.len());
    assert("timeout_secs"@.len() != "depth"@.len());
    assert("timeout_secs"@.len() != "name"@.len());
    assert("timeout_secs"@.len() != "expected_revision"@.len());
    assert("timeout_secs"@.len() != "explanation"@.len());
    assert("timeout_secs"@.len() != "plan"@.len());
    assert("timeout_secs"@.len() != "id"@.len());
    assert("timeout_secs"@.len() != "text"@.len());
    assert("timeout_secs"@.len() != "status"@.len());
    assert("depth"@.len() != "name"@.len());
    assert("depth"@.len() != "expected_revision"@.len());
    assert("depth"@.len() != "explanation"@.len());
    assert("depth"@.len() != "plan"@.len());
    assert("depth"@.len() != "id"@.len());
    assert("depth"@.len() != "text"@.len());
    assert("depth"@.len() != "status"@.len());
    assert("name"@.len() != "expected_revision"@.len());
    assert("name"@.len() != "explanation"@.len());
    assert("name"@[0] != "plan"@[0]);
    assert("name"@.len() != "id"@.len());
    assert("name"@[0] != "text"@[0]);
    assert("name"@.len() != "status"@.len());
    assert("expected_revision"@.len() != "explanation"@.len());
    assert("expected_revision"@.len() != "plan"@.len());
    assert("expected_revision"@.len() != "id"@.len());
    assert("expected_revision"@.len() != "text"@.len());
    assert("expected_revision"@.len() != "status"@.len());
    assert("explanation"@.len() != "plan"@.len());
    assert("explanation"@.len() != "id"@.len());
    assert("explanation"@.len() != "text"@.len());
    assert("explanation"@.len() != "status"@.len());
    assert("plan"@.len() != "id"@.len());
    assert("plan"@[0] != "text"@[0]);
    assert("plan"@.len() != "status"@.len());
    assert("id"@.len() != "text"@.len());
    assert("id"@.len() != "status"@.len());
    assert("text"@.len() != "status"@.len());
}

/// The keywords of the arguments' schemas say what they are given to say.
pub proof fn law_schemas_say_what_they_are_given(
    n: int,
    text: Seq<char>,
    properties: JsonView,
    required: Seq<Seq<char>>,
)
    ensures
        lookup(text_schema(Some(n), text), "type"@) == Some(JsonView::Str("string"@)),
        lookup(text_schema(Some(n), text), "minLength"@) == Some(JsonView::Number(n)),
        lookup(text_schema(Some(n), text), "description"@) == Some(JsonView::Str(text)),
        lookup(text_schema(None, text), "type"@) == Some(JsonView::Str("string"@)),
        lookup(text_schema(None, text), "minLength"@) is None,
        lookup(text_schema(None, text), "description"@) == Some(JsonView::Str(text)),
        lookup(integer_schema(Some(n), text), "type"@) == Some(JsonView::Str("integer"@)),
        lookup(integer_schema(Some(n), text), "minimum"@) == Some(JsonView::Number(1)),
        lookup(integer_schema(Some(n), text), "maximum"@) == Some(JsonView::Number(n)),
        lookup(integer_schema(Some(n), text), "description"@) == Some(JsonView::Str(text)),
        lookup(integer_schema(None, text), "minimum"@) == Some(JsonView::Number(1)),
        lookup(integer_schema(None, text), "maximum"@) is None,
        lookup(closed_schema(properties, required), "type"@) == Some(JsonView::Str("object"@)),
        lookup(closed_schema(properties, required), "additionalProperties"@) == Some(
            JsonView::Bool(false),
        ),
        lookup(closed_schema(properties, required), "properties"@) == Some(properties),
        lookup(closed_schema(properties, required), "required"@) == Some(text_array(required)),
        lookup(limited_text(n), "type"@) == Some(JsonView::Str("string"@)),
        lookup(limited_text(n), "minLength"@) == Some(JsonView::Number(1)),
        lookup(limited_text(n), "maxLength"@) == Some(JsonView::Number(n)),
        text_array(required) matches JsonView::Array(items) && items.len() == required.len() && forall|i: int|
            0 <= i < items.len() ==> (#[trigger] items[i]) == JsonView::Str(required[i]),
{
    broadcast use entries_are_said;

    schema_keys();
}

/// What a declaration says of an argument.
pub open spec fn argument(spec: ToolSpecView, name: Seq<char>) -> Option<JsonView> {
    match lookup(spec.schema, "properties"@) {
        Some(properties) => lookup(properties, name),
        None => None,
    }
}

/// Files are read by their path, from a line on and up to a number of lines; reading changes nothing and
/// may go on beside other calls.
pub proof fn law_reading_is_declared()
    ensures
        ({
            let spec = ReadFile::declaration();
            &&& spec.name == "read_file"@
            &&& spec.description
                == "读取文本文件内容,带行号返回。大文件可用 offset(起始行号,从 1 开始)与 limit(行数,默认 1000)分段读取。修改文件前应先用本工具查看现状。"@
            &&& argument(spec, "path"@) == Some(
                text_schema(Some(1), "文件路径,相对工作目录或绝对路径"@),
            )
            &&& argument(spec, "offset"@) == Some(
                integer_schema(None, "起始行号(1-based),默认 1"@),
            )
            &&& argument(spec, "limit"@) == Some(
                integer_schema(Some(4000), "最多读取的行数,默认 1000"@),
            )
            &&& lookup(spec.schema, "required"@) == Some(text_array(seq!["path"@]))
            &&& spec.capabilities.read_only && !spec.capabilities.destructive
            &&& spec.capabilities.execution_mode is ParallelSafe
            &&& spec.permission.path_arguments == seq!["path"@] && !spec.permission.always_ask
        }),
{
    broadcast use entries_are_said;

    schema_keys();
    argument_keys();
}

/// Files are written by their path and their content; that changes something and goes on alone.
pub proof fn law_writing_is_declared()
    ensures
        ({
            let spec = WriteFile::declaration();
            &&& spec.name == "write_file"@
            &&& spec.description
                == "把完整内容写入文件(不存在则创建,存在则整体覆盖,父目录自动创建)。只在新建文件或整文件重写时使用;修改既有文件的局部请用 edit_file。"@
            &&& argument(spec, "path"@) == Some(text_schema(None, "文件路径"@))
            &&& argument(spec, "content"@) == Some(text_schema(None, "写入的完整内容"@))
            &&& lookup(spec.schema, "required"@) == Some(text_array(seq!["path"@, "content"@]))
            &&& !spec.capabilities.read_only && spec.capabilities.destructive
            &&& spec.capabilities.execution_mode is Sequential
            &&& spec.permission.path_arguments == seq!["path"@] && !spec.permission.always_ask
        }),
{
    broadcast use entries_are_said;

    schema_keys();
    argument_keys();
}

/// Directories are listed by their path and a depth.
pub proof fn law_listing_is_declared()
    ensures
        ({
            let spec = ListDir::declaration();
            &&& spec.name == "list_dir"@
            &&& spec.description
                == "列出目录内容(目录在前,附文件大小)。depth 可控制递归层数(默认 1,最大 4);.git/target/node_modules 等目录不会展开。"@
            &&& argument(spec, "path"@) == Some(text_schema(None, "目录路径,默认工作目录"@))
            &&& argument(spec, "depth"@) == Some(integer_schema(Some(4), "递归层数,默认 1"@))
            &&& lookup(spec.schema, "required"@) == Some(text_array(seq![]))
            &&& spec.capabilities.read_only && !spec.capabilities.destructive
            &&& spec.capabilities.execution_mode is ParallelSafe
            &&& spec.permission.path_arguments == seq!["path"@] && !spec.permission.always_ask
        }),
{
    broadcast use entries_are_said;

    schema_keys();
    argument_keys();
}

/// Commands are run by their text, in a directory and for some time; they are always asked about.
pub proof fn law_running_is_declared(shell: Shell)
    ensures
        ({
            let spec = RunCommand::declaration(shell);
            &&& spec.name == "run_command"@
            &&& spec.description == "执行一条 shell 命令并返回 stdout/stderr 与退出码。"@ + shell.hint_text()
                + "。命令必须是非交互式的(stdin 已接 null,任何等待输入的命令会得到 EOF);默认超时 "@ + dec(
                120,
            ) + "s,可用 timeout_secs 调整(上限 "@ + dec(600)
                + "s);cwd 可指定工作目录(默认为项目根目录,且每次调用互相独立、不保留 cd 状态)。"@
            &&& argument(spec, "command"@) == Some(text_schema(Some(1), "要执行的命令"@))
            &&& argument(spec, "cwd"@) == Some(text_schema(None, "工作目录,默认项目根目录"@))
            &&& argument(spec, "timeout_secs"@) == Some(
                integer_schema(Some(600), "超时秒数,默认 120"@),
            )
            &&& lookup(spec.schema, "required"@) == Some(text_array(seq!["command"@]))
            &&& !spec.capabilities.read_only && spec.capabilities.destructive
            &&& spec.capabilities.execution_mode is Sequential
            &&& spec.permission.path_arguments == seq!["cwd"@] && spec.permission.always_ask
        }),
        shell is GitBash ==> shell.label_text() == "Git Bash"@,
        shell is PowerShell ==> shell.label_text() == "PowerShell 5.1"@,
        shell is Cmd ==> shell.label_text() == "cmd.exe"@,
        shell is Sh ==> shell.label_text() == "sh"@,
        shell is GitBash ==> shell.hint_text()
            == "命令由 Git Bash 执行:用 POSIX 语法(&&、|、$VAR、/dev/null),路径正斜杠;Windows 盘符写作 /e/xxx 或直接 E:/xxx"@,
        shell is PowerShell ==> shell.hint_text()
            == "命令由 Windows PowerShell 5.1 执行:不支持 && 与 ||(用 ; 或 if $?),环境变量 $env:NAME,null 设备是 $null"@,
        shell is Sh ==> shell.hint_text() == "命令由 /bin/sh 执行,POSIX 语法"@,
        shell is Cmd ==> shell.hint_text() == "命令由 cmd.exe 执行:用 batch 语法(&、%VAR%、nul)"@,
{
    broadcast use entries_are_said;

    schema_keys();
    argument_keys();
}

/// Plans are replaced by a list of items and the revision that they are made against; items are named,
/// described and have one of three states.
pub proof fn law_planning_is_declared()
    ensures
        ({
            let spec = UpdatePlan::declaration();
            let plan = argument(spec, "plan"@);
            &&& spec.name == "update_plan"@
            &&& spec.description
                == "Replace the complete structured plan. Use for multi-step work; keep at most one item in_progress, preserve stable item ids, and pass the current revision as expected_revision. An empty plan clears it."@
            &&& argument(spec, "expected_revision"@) is Some && lookup(
                argument(spec, "expected_revision"@)->0,
                "minimum"@,
            ) == Some(JsonView::Number(0))
            &&& lookup(argument(spec, "expected_revision"@)->0, "type"@) == Some(
                JsonView::Str("integer"@),
            )
            &&& argument(spec, "explanation"@) is Some && lookup(
                argument(spec, "explanation"@)->0,
                "type"@,
            ) == Some(JsonView::Str("string"@)) && lookup(
                argument(spec, "explanation"@)->0,
                "maxLength"@,
            ) == Some(JsonView::Number(1000))
            &&& lookup(spec.schema, "type"@) == Some(JsonView::Str("object"@))
            &&& lookup(spec.schema, "additionalProperties"@) == Some(JsonView::Bool(false))
            &&& plan is Some && lookup(plan->0, "type"@) == Some(JsonView::Str("array"@)) && lookup(
                plan->0,
                "maxItems"@,
            ) == Some(JsonView::Number(64)) && lookup(plan->0, "items"@) == Some(item_schema())
            &&& lookup(spec.schema, "required"@) == Some(
                text_array(seq!["expected_revision"@, "plan"@]),
            )
            &&& spec.capabilities.read_only && !spec.capabilities.destructive
            &&& spec.capabilities.execution_mode is Sequential
            &&& spec.permission.path_arguments.len() == 0 && !spec.permission.always_ask
        }),
        ({
            let members = lookup(item_schema(), "properties"@);
            &&& members is Some
            &&& lookup(members->0, "id"@) == Some(limited_text(64))
            &&& lookup(members->0, "text"@) == Some(limited_text(500))
            &&& lookup(limited_text(500), "type"@) == Some(JsonView::Str("string"@))
            &&& lookup(limited_text(500), "minLength"@) == Some(JsonView::Number(1))
            &&& lookup(limited_text(500), "maxLength"@) == Some(JsonView::Number(500))
            &&& lookup(item_schema(), "type"@) == Some(JsonView::Str("object"@))
            &&& lookup(item_schema(), "additionalProperties"@) == Some(JsonView::Bool(false))
            &&& lookup(lookup(members->0, "status"@)->0, "type"@) == Some(JsonView::Str("string"@))
            &&& lookup(members->0, "status"@) is Some && lookup(
                lookup(members->0, "status"@)->0,
                "enum"@,
            ) == Some(text_array(seq!["pending"@, "in_progress"@, "completed"@]))
            &&& lookup(item_schema(), "required"@) == Some(
                text_array(seq!["id"@, "text"@, "status"@]),
            )
        }),
{
    broadcast use entries_are_said;

    schema_keys();
    argument_keys();
}

/// Skills are loaded by their names.
pub proof fn law_loading_is_declared()
    ensures
        ({
            let spec = LoadSkill::declaration();
            &&& spec.name == "load_skill"@
            &&& spec.description
                == "Load the full instructions for one skill from the startup catalog. Use this before following a named skill. If the user asks to install a skill or provides a documentation/GitHub link, ask whether the target is global or workspace-local and confirm their intent, then use the existing run_command or write_file tools to install it; those tools enforce normal permissions. The catalog refreshes after restarting Onemore."@
            &&& argument(spec, "name"@) is Some && lookup(argument(spec, "name"@)->0, "maxLength"@)
                == Some(JsonView::Number(64))
            &&& lookup(spec.schema, "required"@) == Some(text_array(seq!["name"@]))
            &&& spec.capabilities.read_only && spec.capabilities.execution_mode is ParallelSafe
            &&& spec.permission.path_arguments.len() == 0 && !spec.permission.always_ask
        }),
        forall|t: Seq<char>| #[trigger]
            load_code(LoadErrorView::NotFound(t)) == ToolErrorCode::NotFound,
        forall|t: Seq<char>| #[trigger] load_code(LoadErrorView::Stale(t)) == ToolErrorCode::Conflict,
        forall|t: Seq<char>| #[trigger] load_code(LoadErrorView::Io(t)) == ToolErrorCode::Io,
        forall|t: Seq<char>| #[trigger]
            load_code(LoadErrorView::Invalid(t)) == ToolErrorCode::InvalidArguments,
{
    broadcast use entries_are_said;

    schema_keys();
    argument_keys();
}

/// A plan update is read from its three arguments and no others.
pub proof fn law_plan_updates_are_read(value: Json, text: Seq<char>, n: u64, values: Seq<JsonView>)
    ensures
        args_in(value) matches Some(args) ==> {
            &&& lookup(value@, "expected_revision"@) == Some(
                JsonView::Number(args.expected_revision as int),
            )
            &&& lookup(value@, "explanation"@) == Some(JsonView::Str(text)) ==> args.explanation == Some(
                text,
            )
            &&& lookup(value@, "explanation"@) is None ==> args.explanation is None
            &&& lookup(value@, "plan"@) == Some(JsonView::Array(values)) ==> items_in(values) == Some(
                args.plan,
            )
            &&& known_keys(value)
        },
        known_keys(value) && lookup(value@, "expected_revision"@) == Some(JsonView::Number(n as int))
            && lookup(value@, "explanation"@) is None && lookup(value@, "plan"@) == Some(
            JsonView::Array(values),
        ) && items_in(values) is Some ==> args_in(value) is Some,
        !known_keys(value) ==> args_in(value) is None,
        lookup(value@, "plan"@) is None ==> args_in(value) is None,
        value matches Json::Object(entries) ==> (known_keys(value) <==> forall|i: int|
            0 <= i < entries@.len() ==> (#[trigger] entries@[i]).0@ == "expected_revision"@ || entries@[i].0@
                == "explanation"@ || entries@[i].0@ == "plan"@),
{
}

/// An argument that is missing or of the wrong kind is named.
pub proof fn law_bad_arguments_are_named(key: Seq<char>, text: Seq<char>, code: ToolErrorCode)
    ensures
        missing_text_argument(key).code == ToolErrorCode::InvalidArguments,
        missing_text_argument(key).message == "缺少必填字符串参数 "@ + quoted_text(key),
        bad_number_argument(key).code == ToolErrorCode::InvalidArguments,
        bad_number_argument(key).message == "参数 "@ + quoted_text(key) + " 应为非负整数"@,
        plain_error(code, text).code == code,
        plain_error(code, text).message == text,
        !plain_error(code, text).retryable,
        plain_error(code, text).details is None,
        text_output(text).model_text == text,
        text_output(text).ui_summary is None,
        text_output(text).details is None,
{
}

/// Tools that read go on side by side, tools that change something one after the other.
pub proof fn law_two_kinds_of_tools()
    ensures
        ToolCapabilities::reading().read_only,
        !ToolCapabilities::reading().destructive,
        ToolCapabilities::reading().execution_mode is ParallelSafe,
        !ToolCapabilities::reading().supports_background,
        !ToolCapabilities::changing().read_only,
        ToolCapabilities::changing().destructive,
        ToolCapabilities::changing().execution_mode is Sequential,
        !ToolCapabilities::changing().supports_background,
{
}

/// Declarations are handed out in the order of their names.
pub proof fn law_declarations_are_sorted(specs: Seq<ToolSpecView>, i: int)
    requires
        0 <= i < specs.len(),
    ensures
        by_name(specs).len() == specs.len(),
        named_specs(specs)[i] == (specs[i].name, specs[i]),
        by_name(specs)[i] == sorted_entries(named_specs(specs))[i].1,
        i + 1 < specs.len() ==> text_le(
            sorted_entries(named_specs(specs))[i].0,
            sorted_entries(named_specs(specs))[i + 1].0,
        ),
{
    law_entries_are_in_order(named_specs(specs));
}

/// A call that was prepared runs as long as the tools are the same; afterwards it does not.
pub proof fn law_prepared_calls_grow_stale<T: Tool>(
    registry: ToolRegistry<T>,
    prepared: PreparedView,
)
    ensures
        prepared.generation != registry.current_generation() ==> (registry.stale(prepared) matches Some(e)
            && e.code == ToolErrorCode::Conflict && e.message == "工具注册表已变化，请重新准备本次调用"@),
        prepared.generation == registry.current_generation() && prepared.tool_index
            >= registry.declared().len() ==> (registry.stale(prepared) matches Some(e) && e.code
            == ToolErrorCode::UnknownTool && e.message == "工具 "@ + prepared.spec.name + " 已不可用"@),
        prepared.generation == registry.current_generation() && prepared.tool_index
            < registry.declared().len() ==> registry.stale(prepared) is None,
{
}

/// Arguments are taken where they conform to what the tool declares, and refused with what they lack
/// otherwise; what a tool itself refuses is refused as it says.
pub proof fn law_arguments_are_taken_where_they_conform<T: Tool>(
    registry: ToolRegistry<T>,
    index: int,
    arguments: Json,
    error: ToolError,
    r: Result<PreparedToolCall, ToolError>,
    s: Result<PreparedToolCall, ToolError>,
)
    requires
        registry.accepts(index, Ok(arguments), r),
        registry.accepts(index, Err(error), s),
    ensures
        r is Ok <==> schema_errors(registry.declared()[index].schema, arguments).len() == 0,
        r matches Ok(call) ==> call.arguments == arguments && call.tool_index == index && call.generation
            == registry.current_generation(),
        r matches Err(e) ==> e.deep_view() == nonconforming(
            registry.declared()[index].name@,
            schema_errors(registry.declared()[index].schema, arguments),
        ),
        s matches Err(e) && e.deep_view() == error.deep_view(),
{
}

} // verus!
