//! `write_file`: writes a whole file.
use vstd::prelude::*;

use crate::json::{lookup, nil, obj, text, Fields, Json, JsonView};
use crate::text::{concat2, dec, decimal, split, split_on};
use crate::workspace::{path_text, style_of, Workspace};

use super::read_file::{text_argument, text_schema};
use super::{
    json_texts, missing_text_argument, own_texts, require_str, text_array, text_output,
    PermissionSpecView, ToolCapabilities, ToolError, ToolOutput, ToolPermissionSpec, ToolSpec,
    ToolSpecView,
};

verus! {

pub struct WriteFile;

/// A checked request to write.
#[derive(Debug)]
pub struct WriteRequest {
    pub path: String,
    pub content: String,
}

/// What is said of a file that was written.
pub open spec fn written_text(shown: Seq<char>, content: Seq<char>, existed: bool) -> Seq<char> {
    (if existed {
        "已覆盖"@
    } else {
        "已创建"@
    }) + " "@ + shown + ","@ + dec(vstd::utf8::encode_utf8(content).len()) + " 字节,"@ + dec(
        split_on(content, '\n').len(),
    ) + " 行"@
}

impl WriteFile {
    pub open spec fn declaration() -> ToolSpecView {
        ToolSpecView {
            name: "write_file"@,
            description:
                "把完整内容写入文件(不存在则创建,存在则整体覆盖,父目录自动创建)。只在新建文件或整文件重写时使用;修改既有文件的局部请用 edit_file。"@,
            schema: obj(nil()
                .push(("type"@, JsonView::Str("object"@)))
                .push(("properties"@, obj(nil()
                    .push(("content"@, text_schema(None, "写入的完整内容"@)))
                    .push(("path"@, text_schema(None, "文件路径"@))))))
                .push(("required"@, text_array(seq!["path"@, "content"@])))),
            capabilities: ToolCapabilities::changing(),
            permission: PermissionSpecView { path_arguments: seq!["path"@], always_ask: false },
        }
    }

    pub fn spec(&self) -> (s: ToolSpec)
        ensures
            s.deep_view() == WriteFile::declaration(),
    {
        let both = ["path", "content"];
        let one = ["path"];
        let required = own_texts(&both);
        assert(required.deep_view() =~= seq!["path"@, "content"@]);
        let s = ToolSpec {
            name: "write_file".to_owned(),
            description:
                "把完整内容写入文件(不存在则创建,存在则整体覆盖,父目录自动创建)。只在新建文件或整文件重写时使用;修改既有文件的局部请用 edit_file。".to_owned(),
            schema: Fields::new().with("type", text("object")).with(
                "properties",
                Fields::new().with("content", text_argument(None, "写入的完整内容")).with(
                    "path",
                    text_argument(None, "文件路径"),
                ).done(),
            ).with("required", json_texts(&required)).done(),
            capabilities: ToolCapabilities::mutation(),
            permission: ToolPermissionSpec::paths(&one),
        };
        assert(s.permission.deep_view().path_arguments =~= seq!["path"@]);
        s
    }

    /// Reads the request out of the arguments.
    pub fn request(&self, args: &Json, workspace: &Workspace) -> (r: Result<WriteRequest, ToolError>)
        ensures
            match (lookup(args@, "path"@), lookup(args@, "content"@)) {
                (Some(JsonView::Str(path)), Some(JsonView::Str(content))) => {
                    &&& r is Ok
                    &&& r->Ok_0.path@ == path_text(
                        style_of(workspace@),
                        Workspace::resolved(workspace@, path),
                    )
                    &&& r->Ok_0.content@ == content
                },
                (Some(JsonView::Str(_)), _) => r is Err && r->Err_0.deep_view()
                    == missing_text_argument("content"@),
                _ => r is Err && r->Err_0.deep_view() == missing_text_argument("path"@),
            },
    {
        let path = match require_str(args, "path") {
            Ok(path) => workspace.resolve(path),
            Err(error) => {
                return Err(error);
            },
        };
        match require_str(args, "content") {
            Ok(content) => Ok(WriteRequest { path, content: content.to_owned() }),
            Err(error) => Err(error),
        }
    }

    /// The output once the file is written; `existed` says whether there was one before.
    pub fn report(&self, workspace: &Workspace, request: &WriteRequest, existed: bool) -> (o:
        ToolOutput)
        ensures
            o.deep_view() == text_output(
                written_text(
                    Workspace::shown(workspace@, request.path@),
                    request.content@,
                    existed,
                ),
            ),
    {
        let mut out = concat2(
            if existed {
                "已覆盖"
            } else {
                "已创建"
            },
            " ",
        );
        let bytes: usize = request.content.as_str().as_bytes_vec().len();
        out.push_str(workspace.display(request.path.as_str()).as_str());
        out.push_str(",");
        out.push_str(decimal(bytes as u64).as_str());
        out.push_str(" 字节,");
        out.push_str(decimal(split(request.content.as_str(), '\n').len() as u64).as_str());
        out.push_str(" 行");
        ToolOutput::text(out)
    }
}

} // verus!
