//! `read_file`: reads a text file page by page, with line numbers.
use vstd::prelude::*;

use crate::json::{boolean, lookup, nil, number, obj, spec_u64, text, Fields, Json, JsonView};

use crate::text::{
    concat3, dec, decimal, pad_left, padded, split, split_on, trim_end_char, without_end,
};
use crate::workspace::{path_text, style_of, Workspace};

use super::{
    bad_number_argument, json_texts, missing_text_argument, optional_u64, own_texts, plain_error,
    require_str, text_array,
    ErrorView, OutputView, PermissionSpecView, ToolCapabilities, ToolError, ToolErrorCode, ToolOutput,
    ToolPermissionSpec, ToolSpec, ToolSpecView,
};

verus! {

pub const DEFAULT_LIMIT: u64 = 1000;

pub const MAX_LIMIT: u64 = 4000;

/// Longer lines are cut.
pub const MAX_LINE_CHARS: usize = 500;

pub struct ReadFile;

/// A checked request for a page.
#[derive(Debug)]
pub struct ReadRequest {
    pub path: String,
    /// The first line, counted from 1.
    pub offset: u64,
    /// At most this many lines.
    pub limit: u64,
}

pub open spec fn or_default(value: Option<JsonView>, default: u64) -> Option<u64> {
    match value {
        None => Some(default),
        Some(JsonView::Null) => Some(default),
        Some(v) => spec_u64(v),
    }
}

pub open spec fn clamped(n: u64, low: u64, high: u64) -> u64 {
    if n < low {
        low
    } else if n > high {
        high
    } else {
        n
    }
}

pub fn clamp(n: u64, low: u64, high: u64) -> (r: u64)
    ensures
        r == clamped(n, low, high),
{
    if n < low {
        low
    } else if n > high {
        high
    } else {
        n
    }
}

/// The line as it is shown: without carriage returns at its end, and cut where it is long.
pub open spec fn shown_line(line: Seq<char>) -> Seq<char> {
    let line = without_end(line, '\r');
    if line.len() > MAX_LINE_CHARS {
        line.take(MAX_LINE_CHARS as int) + "……[本行截断]"@
    } else {
        line
    }
}

fn show_line(line: &str) -> (out: String)
    ensures
        out@ == shown_line(line@),
{
    let line = trim_end_char(line, '\r');
    if line.unicode_len() > MAX_LINE_CHARS {
        let head = line.substring_char(0, MAX_LINE_CHARS);
        assert(head@ =~= line@.take(MAX_LINE_CHARS as int));
        let mut out = head.to_owned();
        out.push_str("……[本行截断]");
        out
    } else {
        line.to_owned()
    }
}

/// The lines from `start` (counted from 0) to before `end`, each with its number.
pub open spec fn numbered(lines: Seq<Seq<char>>, start: int, end: int) -> Seq<char>
    decreases end - start,
{
    if start >= end {
        seq![]
    } else {
        numbered(lines, start, end - 1) + (padded(dec(end as nat), 6) + " | "@ + shown_line(
            lines[end - 1],
        ) + "\n"@)
    }
}

pub open spec fn page_end(total: nat, offset: u64, limit: u64) -> nat {
    if offset - 1 + limit < total {
        (offset - 1 + limit) as nat
    } else {
        total
    }
}

/// The note under a page that is not the last.
pub open spec fn more_note(start: nat, end: nat, total: nat) -> Seq<char> {
    "……[仅显示第 "@ + dec(start + 1) + "-"@ + dec(end) + " 行,共 "@ + dec(total)
        + " 行;继续读请传 offset="@ + dec(end + 1) + "]"@
}

/// The page of a file, or the error where it lies behind the end.
pub open spec fn page_of(shown: Seq<char>, content: Seq<char>, offset: u64, limit: u64) -> Result<
    OutputView,
    ErrorView,
> {
    let lines = split_on(content, '\n');
    let total = lines.len();
    let start = (offset - 1) as nat;
    let end = page_end(total, offset, limit);
    if offset > total {
        Err(
            plain_error(
                ToolErrorCode::InvalidArguments,
                "offset="@ + dec(offset as nat) + " 超出范围,文件共 "@ + dec(total) + " 行"@,
            ),
        )
    } else {
        Ok(
            OutputView {
                model_text: if end < total {
                    numbered(lines, start as int, end as int) + more_note(start, end, total)
                } else {
                    numbered(lines, start as int, end as int)
                },
                ui_summary: Some(
                    "已读取 "@ + shown + " 第 "@ + dec(start + 1) + "-"@ + dec(end) + " 行"@,
                ),
                details: Some(
                    obj(nil().push(("path"@, JsonView::Str(shown))).push(("start_line"@, JsonView::Number((start + 1) as int))).push(("end_line"@, JsonView::Number(end as int))).push(("total_lines"@, JsonView::Number(total as int))).push(("truncated"@, JsonView::Bool(end < total))).push((
                                "next_offset"@,
                                if end < total {
                                    JsonView::Number((end + 1) as int)
                                } else {
                                    JsonView::Null
                                },
                            ))),
                ),
            },
        )
    }
}

pub open spec fn text_schema(min_length: Option<int>, description: Seq<char>) -> JsonView {
    match min_length {
        Some(n) => obj(nil().push(("type"@, JsonView::Str("string"@))).push(("minLength"@, JsonView::Number(n))).push(("description"@, JsonView::Str(description)))),
        None => obj(nil().push(("type"@, JsonView::Str("string"@))).push(("description"@, JsonView::Str(description)))),
    }
}

/// The schema of a text argument.
pub fn text_argument(min_length: Option<u64>, description: &str) -> (j: Json)
    ensures
        j@ == text_schema(
            match min_length {
                Some(n) => Some(n as int),
                None => None,
            },
            description@,
        ),
{
    match min_length {
        Some(n) => Fields::new().with("type", text("string")).with("minLength", number(n)).with(
            "description",
            text(description),
        ).done(),
        None => Fields::new().with("type", text("string")).with(
            "description",
            text(description),
        ).done(),
    }
}

pub open spec fn integer_schema(maximum: Option<int>, description: Seq<char>) -> JsonView {
    match maximum {
        Some(n) => obj(nil().push(("type"@, JsonView::Str("integer"@))).push(("minimum"@, JsonView::Number(1))).push(("maximum"@, JsonView::Number(n))).push(("description"@, JsonView::Str(description)))),
        None => obj(nil().push(("type"@, JsonView::Str("integer"@))).push(("minimum"@, JsonView::Number(1))).push(("description"@, JsonView::Str(description)))),
    }
}

/// The schema of a positive integer argument.
pub fn integer_argument(maximum: Option<u64>, description: &str) -> (j: Json)
    ensures
        j@ == integer_schema(
            match maximum {
                Some(n) => Some(n as int),
                None => None,
            },
            description@,
        ),
{
    match maximum {
        Some(n) => Fields::new().with("type", text("integer")).with("minimum", number(1)).with(
            "maximum",
            number(n),
        ).with("description", text(description)).done(),
        None => Fields::new().with("type", text("integer")).with("minimum", number(1)).with(
            "description",
            text(description),
        ).done(),
    }
}

/// The schema of closed arguments: an object with these properties and no others.
pub open spec fn closed_schema(properties: JsonView, required: Seq<Seq<char>>) -> JsonView {
    obj(nil().push(("type"@, JsonView::Str("object"@))).push(("additionalProperties"@, JsonView::Bool(false))).push(("properties"@, properties)).push(("required"@, text_array(required))))
}

pub fn closed_arguments(properties: Json, required: &[&str]) -> (j: Json)
    ensures
        j@ == closed_schema(properties@, required.deep_view()),
{
    Fields::new().with("type", text("object")).with("additionalProperties", boolean(false)).with(
        "properties",
        properties,
    ).with("required", json_texts(&own_texts(required))).done()
}

impl ReadFile {
    pub open spec fn declaration() -> ToolSpecView {
        ToolSpecView {
            name: "read_file"@,
            description:
                "读取文本文件内容,带行号返回。大文件可用 offset(起始行号,从 1 开始)与 limit(行数,默认 1000)分段读取。修改文件前应先用本工具查看现状。"@,
            schema: closed_schema(
                obj(nil()
                    .push(("limit"@, integer_schema(Some(4000), "最多读取的行数,默认 1000"@)))
                    .push(("offset"@, integer_schema(None, "起始行号(1-based),默认 1"@)))
                    .push(("path"@, text_schema(Some(1), "文件路径,相对工作目录或绝对路径"@)))),
                seq!["path"@],
            ),
            capabilities: ToolCapabilities::reading(),
            permission: PermissionSpecView { path_arguments: seq!["path"@], always_ask: false },
        }
    }

    pub fn spec(&self) -> (s: ToolSpec)
        ensures
            s.deep_view() == ReadFile::declaration(),
    {
        let one = ["path"];
        let s = ToolSpec {
            name: "read_file".to_owned(),
            description:
                "读取文本文件内容,带行号返回。大文件可用 offset(起始行号,从 1 开始)与 limit(行数,默认 1000)分段读取。修改文件前应先用本工具查看现状。".to_owned(),
            schema: closed_arguments(
                Fields::new().with(
                    "limit",
                    integer_argument(Some(4000), "最多读取的行数,默认 1000"),
                ).with("offset", integer_argument(None, "起始行号(1-based),默认 1")).with(
                    "path",
                    text_argument(Some(1), "文件路径,相对工作目录或绝对路径"),
                ).done(),
                &one,
            ),
            capabilities: ToolCapabilities::read_only(),
            permission: ToolPermissionSpec::paths(&one),
        };
        assert(s.permission.deep_view().path_arguments =~= seq!["path"@]);
        s
    }

    /// Reads the request out of the arguments.
    pub fn request(&self, args: &Json, workspace: &Workspace) -> (r: Result<ReadRequest, ToolError>)
        ensures
            match lookup(args@, "path"@) {
                Some(JsonView::Str(path)) => {
                    let offset = or_default(lookup(args@, "offset"@), 1);
                    let limit = or_default(lookup(args@, "limit"@), DEFAULT_LIMIT);
                    if offset is Some && limit is Some {
                        &&& r is Ok
                        &&& r->Ok_0.path@ == path_text(
                            style_of(workspace@),
                            Workspace::resolved(workspace@, path),
                        )
                        &&& r->Ok_0.offset == clamped(offset->0, 1, u64::MAX)
                        &&& r->Ok_0.limit == clamped(limit->0, 1, MAX_LIMIT)
                    } else {
                        r is Err && r->Err_0.deep_view() == bad_number_argument(
                            if offset is None {
                                "offset"@
                            } else {
                                "limit"@
                            },
                        )
                    }
                },
                _ => r is Err && r->Err_0.deep_view() == missing_text_argument("path"@),
            },
    {
        let path = match require_str(args, "path") {
            Ok(path) => workspace.resolve(path),
            Err(error) => {
                return Err(error);
            },
        };
        let offset: u64 = match optional_u64(args, "offset") {
            Ok(offset) => offset.unwrap_or(1),
            Err(error) => {
                return Err(error);
            },
        };
        let limit: u64 = match optional_u64(args, "limit") {
            Ok(limit) => limit.unwrap_or(DEFAULT_LIMIT),
            Err(error) => {
                return Err(error);
            },
        };
        Ok(
            ReadRequest {
                path,
                offset: clamp(offset, 1, u64::MAX),
                limit: clamp(limit, 1, MAX_LIMIT),
            },
        )
    }

    /// Shows the requested page of a file's content.
    pub fn page(&self, workspace: &Workspace, request: &ReadRequest, content: &str) -> (r: Result<
        ToolOutput,
        ToolError,
    >)
        requires
            request.offset >= 1,
            request.limit <= MAX_LIMIT,
        ensures
            super::result_view(r) == page_of(
                Workspace::shown(workspace@, request.path@),
                content@,
                request.offset,
                request.limit,
            ),
    {
        let lines = split(content, '\n');
        let ghost all = lines.deep_view();
        let total: usize = lines.len();
        if request.offset > total as u64 {
            let mut message = concat3("offset=", decimal(request.offset).as_str(), " 超出范围,文件共 ");
            message.push_str(decimal(total as u64).as_str());
            message.push_str(" 行");
            return Err(ToolError::new(ToolErrorCode::InvalidArguments, message));
        }
        let start: usize = (request.offset - 1) as usize;
        let left: usize = total - start;
        let end: usize = if request.limit < left as u64 {
            start + request.limit as usize
        } else {
            total
        };
        let mut out = String::new();
        let mut i: usize = start;
        while i < end
            invariant
                start <= i <= end <= lines@.len(),
                all == lines.deep_view(),
                out@ == numbered(all, start as int, i as int),
            decreases end - i,
        {
            let mut line = pad_left(decimal((i + 1) as u64).as_str(), 6);
            line.push_str(" | ");
            line.push_str(show_line(lines[i].as_str()).as_str());
            line.push_str("\n");
            out.push_str(line.as_str());
            i = i + 1;
        }
        let more = end < total;
        let first = decimal((start + 1) as u64);
        let last = decimal(end as u64);
        if more {
            let mut note = concat3("……[仅显示第 ", first.as_str(), "-");
            note.push_str(last.as_str());
            note.push_str(" 行,共 ");
            note.push_str(decimal(total as u64).as_str());
            note.push_str(" 行;继续读请传 offset=");
            note.push_str(decimal((end + 1) as u64).as_str());
            note.push_str("]");
            out.push_str(note.as_str());
        }
        let shown = workspace.display(request.path.as_str());
        let mut summary = concat3("已读取 ", shown.as_str(), " 第 ");
        summary.push_str(first.as_str());
        summary.push_str("-");
        summary.push_str(last.as_str());
        summary.push_str(" 行");
        let next = if more {
            number((end + 1) as u64)
        } else {
            Json::Null
        };
        Ok(
            ToolOutput {
                model_text: out,
                ui_summary: Some(summary),
                details: Some(
                    Fields::new().with("path", text(shown.as_str())).with(
                        "start_line",
                        number((start + 1) as u64),
                    ).with("end_line", number(end as u64)).with(
                        "total_lines",
                        number(total as u64),
                    ).with("truncated", boolean(more)).with("next_offset", next).done(),
                ),
            },
        )
    }
}

} // verus!
