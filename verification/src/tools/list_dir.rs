//! `list_dir`: lists a directory, some levels deep, without opening the usual large ones.
use vstd::prelude::*;

use crate::json::{boolean, lookup, nil, number, obj, text, Fields, Json, JsonView};
use crate::list::{put, take_all, take_next};
use crate::text::{concat2, concat3, dec, decimal, same};
use crate::workspace::{path_text, style_of, DirItem, DirItemView, Workspace};

use super::read_file::{
    clamp, clamped, closed_arguments, closed_schema, integer_argument, integer_schema, or_default,
    text_argument, text_schema,
};
use super::{
    bad_number_argument, optional_u64, OutputView, PermissionSpecView, ToolCapabilities, ToolError,
    ToolErrorCode,
    ToolOutput, ToolPermissionSpec, ToolSpec, ToolSpecView,
};

verus! {

/// A listing stops at this many entries.
pub const MAX_ENTRIES: usize = 500;

pub struct ListDir;

/// Directories that are named but not opened.
pub open spec fn is_skipped(name: Seq<char>) -> bool {
    name == ".git"@ || name == "target"@ || name == "node_modules"@ || name == "__pycache__"@ || name
        == ".venv"@
}

fn skipped(name: &str) -> (r: bool)
    ensures
        r == is_skipped(name@),
{
    same(name, ".git") || same(name, "target") || same(name, "node_modules") || same(
        name,
        "__pycache__",
    ) || same(name, ".venv")
}

/// `n / d` in tenths, rounded to the nearest, halves to the even neighbour.
pub open spec fn tenths(n: int, d: int) -> int {
    let q = n * 10 / d;
    let r = n * 10 % d;
    if 2 * r > d || (2 * r == d && q % 2 == 1) {
        q + 1
    } else {
        q
    }
}

/// A number given in tenths, with one decimal.
pub open spec fn tenths_text(t: int) -> Seq<char> {
    dec((t / 10) as nat) + "."@ + dec((t % 10) as nat)
}

/// A size for people.
pub open spec fn size_text(bytes: u64) -> Seq<char> {
    if bytes < 1024 {
        dec(bytes as nat) + " B"@
    } else if bytes < 1048576 {
        tenths_text(tenths(bytes as int, 1024)) + " KB"@
    } else {
        tenths_text(tenths(bytes as int, 1048576)) + " MB"@
    }
}

/// `n / d` with one decimal.
pub fn one_decimal(n: u64, d: u64) -> (s: String)
    requires
        d >= 1024,
    ensures
        s@ == tenths_text(tenths(n as int, d as int)),
{
    let scaled: u128 = n as u128 * 10;
    let q: u128 = scaled / d as u128;
    let r: u128 = scaled % d as u128;
    let up = 2 * r > d as u128 || (2 * r == d as u128 && q % 2 == 1);
    assert(q * 1024 <= scaled) by (nonlinear_arith)
        requires
            q == scaled / d as u128,
            d >= 1024,
    ;
    let t: u128 = if up { q + 1 } else { q };
    let t: u64 = t as u64;
    concat3(decimal(t / 10).as_str(), ".", decimal(t % 10).as_str())
}

pub fn fmt_size(bytes: u64) -> (s: String)
    ensures
        s@ == size_text(bytes),
{
    if bytes < 1024 {
        concat2(decimal(bytes).as_str(), " B")
    } else if bytes < 1048576 {
        concat2(one_decimal(bytes, 1024).as_str(), " KB")
    } else {
        concat2(one_decimal(bytes, 1048576).as_str(), " MB")
    }
}

pub open spec fn indent(depth: nat) -> Seq<char>
    decreases depth,
{
    if depth == 0 {
        seq![]
    } else {
        indent((depth - 1) as nat) + "  "@
    }
}

fn make_indent(depth: usize) -> (s: String)
    ensures
        s@ == indent(depth as nat),
{
    let mut s = String::new();
    let mut i: usize = 0;
    while i < depth
        invariant
            i <= depth,
            s@ == indent(i as nat),
        decreases depth - i,
    {
        s.push_str("  ");
        i = i + 1;
    }
    s
}

/// The line of an entry.
pub open spec fn entry_line(item: DirItemView, depth: nat) -> Seq<char> {
    if item.is_dir {
        if is_skipped(item.name) {
            indent(depth) + item.name + "/"@ + "  [不展开]"@ + "\n"@
        } else {
            indent(depth) + item.name + "/"@ + "\n"@
        }
    } else {
        indent(depth) + item.name + "  ("@ + size_text(item.size) + ")\n"@
    }
}

/// An entry that waits to be listed.
pub struct Waiting {
    pub dir: String,
    pub item: DirItem,
    pub depth: usize,
}

#[verifier::ext_equal]
pub struct WaitingView {
    pub dir: Seq<char>,
    pub item: DirItemView,
    pub depth: usize,
}

impl DeepView for Waiting {
    type V = WaitingView;

    open spec fn deep_view(&self) -> WaitingView {
        WaitingView { dir: self.dir@, item: self.item.deep_view(), depth: self.depth }
    }
}

/// A listing under way. `stack` holds what is still to be listed, the next entry last.
pub struct Listing {
    pub text: String,
    pub count: usize,
    pub max_depth: usize,
    pub separator: String,
    pub stack: Vec<Waiting>,
}

#[verifier::ext_equal]
pub struct ListingView {
    pub text: Seq<char>,
    pub count: nat,
    pub max_depth: usize,
    pub separator: Seq<char>,
    pub stack: Seq<WaitingView>,
}

impl DeepView for Listing {
    type V = ListingView;

    open spec fn deep_view(&self) -> ListingView {
        ListingView {
            text: self.text@,
            count: self.count as nat,
            max_depth: self.max_depth,
            separator: self.separator@,
            stack: self.stack.deep_view(),
        }
    }
}

/// A directory that must be read before the listing can go on.
pub struct Descent {
    pub dir: String,
    pub depth: usize,
}

/// Whether the listing goes into the entry.
pub open spec fn opens(w: WaitingView, max_depth: usize) -> bool {
    w.item.is_dir && !is_skipped(w.item.name) && w.depth < max_depth
}

/// The listing behind its next entry.
pub open spec fn after_entry(s: ListingView) -> ListingView {
    ListingView {
        text: s.text + entry_line(s.stack.last().item, s.stack.last().depth as nat),
        count: s.count + 1,
        stack: s.stack.drop_last(),
        ..s
    }
}

/// The listing run on to the next directory that it opens, or to its end.
pub open spec fn run_on(s: ListingView) -> (ListingView, Option<(Seq<char>, usize)>)
    decreases s.stack.len(),
{
    if s.stack.len() == 0 || s.count >= MAX_ENTRIES {
        (s, None)
    } else {
        let w = s.stack.last();
        if opens(w, s.max_depth) {
            (
                after_entry(s),
                Some((w.dir + s.separator + w.item.name, (w.depth + 1) as usize)),
            )
        } else {
            run_on(after_entry(s))
        }
    }
}

/// The stack with the entries of a directory on top, the first of them next.
pub open spec fn stacked(
    stack: Seq<WaitingView>,
    dir: Seq<char>,
    depth: usize,
    items: Seq<DirItemView>,
) -> Seq<WaitingView>
    decreases items.len(),
{
    if items.len() == 0 {
        stack
    } else {
        stacked(
            stack.push(WaitingView { dir, item: items.last(), depth }),
            dir,
            depth,
            items.drop_last(),
        )
    }
}

impl Listing {
    /// A listing with the given heading and nothing to list yet.
    pub fn new(heading: String, max_depth: usize, separator: String) -> (l: Listing)
        ensures
            l.deep_view() == (ListingView {
                text: heading@,
                count: 0,
                max_depth,
                separator: separator@,
                stack: seq![],
            }),
    {
        Listing { text: heading, count: 0, max_depth, separator, stack: crate::list::empty() }
    }

    /// Lists entries until a directory has to be read, or until the end.
    pub fn advance(&mut self) -> (r: Option<Descent>)
        ensures
            final(self).deep_view() == run_on(old(self).deep_view()).0,
            match run_on(old(self).deep_view()).1 {
                None => r is None,
                Some((dir, depth)) => r is Some && r->0.dir@ == dir && r->0.depth == depth,
            },
    {
        let ghost start = self.deep_view();
        while self.stack.len() > 0 && self.count < MAX_ENTRIES
            invariant
                start == old(self).deep_view(),
                run_on(start) == run_on(self.deep_view()),
            decreases self.stack@.len(),
        {
            let ghost before = self.deep_view();
            if let Some(w) = self.stack.pop() {
                assert(before.stack.last() == w.deep_view());
                assert(self.stack.deep_view() =~= before.stack.drop_last());
                let mut line = make_indent(w.depth);
                line.push_str(w.item.name.as_str());
                let no_open = skipped(w.item.name.as_str());
                if w.item.is_dir {
                    line.push_str("/");
                    if no_open {
                        line.push_str("  [不展开]");
                    }
                    line.push_str("\n");
                } else {
                    line.push_str("  (");
                    line.push_str(fmt_size(w.item.size).as_str());
                    line.push_str(")\n");
                }
                self.text.push_str(line.as_str());
                self.count = self.count + 1;
                assert(self.deep_view() =~= after_entry(before));
                if w.item.is_dir && !no_open && w.depth < self.max_depth {
                    let mut dir = concat2(w.dir.as_str(), self.separator.as_str());
                    dir.push_str(w.item.name.as_str());
                    return Some(Descent { dir, depth: w.depth + 1 });
                }
            }
        }
        None
    }

    /// Takes the sorted entries of a directory that was read.
    pub fn feed(&mut self, dir: &str, depth: usize, items: Vec<DirItem>)
        ensures
            final(self).deep_view() == (ListingView {
                stack: stacked(old(self).deep_view().stack, dir@, depth, items.deep_view()),
                ..old(self).deep_view()
            }),
    {
        let ghost all = items.deep_view();
        let ghost start = self.deep_view();
        let mut i: usize = items.len();
        proof {
            take_all(all);
        }
        while i > 0
            invariant
                i <= items@.len(),
                all == items.deep_view(),
                self.deep_view() == (ListingView { stack: self.stack.deep_view(), ..start }),
                stacked(start.stack, dir@, depth, all) == stacked(
                    self.stack.deep_view(),
                    dir@,
                    depth,
                    all.take(i as int),
                ),
            decreases i,
        {
            i = i - 1;
            proof {
                take_next(all, i as int);
            }
            let item = &items[i];
            put(
                &mut self.stack,
                Waiting {
                    dir: dir.to_owned(),
                    item: DirItem { name: item.name.clone(), is_dir: item.is_dir, size: item.size },
                    depth,
                },
            );
        }
    }

    /// The output of a finished listing.
    pub open spec fn outcome(s: ListingView, shown: Seq<char>, depth: u64) -> OutputView {
        let cut = s.count >= MAX_ENTRIES;
        OutputView {
            model_text: if cut {
                s.text + "……[超过 "@ + dec(MAX_ENTRIES as nat) + " 条,已截断;请指定子目录查看]\n"@
            } else {
                s.text
            },
            ui_summary: Some("已列出 "@ + dec(s.count) + " 个条目"@),
            details: Some(obj(nil()
                .push(("path"@, JsonView::Str(shown)))
                .push(("entries"@, JsonView::Number(s.count as int)))
                .push(("depth"@, JsonView::Number(depth as int)))
                .push(("truncated"@, JsonView::Bool(cut))))),
        }
    }

    pub fn finish(self, shown: &str, depth: u64) -> (o: ToolOutput)
        ensures
            o.deep_view() == Listing::outcome(self.deep_view(), shown@, depth),
    {
        let cut = self.count >= MAX_ENTRIES;
        let count: u64 = self.count as u64;
        let mut out = self.text;
        if cut {
            out.push_str("……[超过 ");
            out.push_str(decimal(MAX_ENTRIES as u64).as_str());
            out.push_str(" 条,已截断;请指定子目录查看]\n");
        }
        ToolOutput {
            model_text: out,
            ui_summary: Some(concat3("已列出 ", decimal(count).as_str(), " 个条目")),
            details: Some(
                Fields::new().with("path", text(shown)).with("entries", number(count)).with(
                    "depth",
                    number(depth),
                ).with("truncated", boolean(cut)).done(),
            ),
        }
    }
}

/// A checked request for a listing.
#[derive(Debug)]
pub struct ListRequest {
    pub path: String,
    pub depth: u64,
}

pub open spec fn asked_path(args: JsonView) -> Seq<char> {
    match lookup(args, "path"@) {
        Some(JsonView::Str(path)) => path,
        _ => "."@,
    }
}

impl ListDir {
    pub open spec fn declaration() -> ToolSpecView {
        ToolSpecView {
            name: "list_dir"@,
            description:
                "列出目录内容(目录在前,附文件大小)。depth 可控制递归层数(默认 1,最大 4);.git/target/node_modules 等目录不会展开。"@,
            schema: closed_schema(
                obj(nil()
                    .push(("depth"@, integer_schema(Some(4), "递归层数,默认 1"@)))
                    .push(("path"@, text_schema(None, "目录路径,默认工作目录"@)))),
                seq![],
            ),
            capabilities: ToolCapabilities::reading(),
            permission: PermissionSpecView { path_arguments: seq!["path"@], always_ask: false },
        }
    }

    pub fn spec(&self) -> (s: ToolSpec)
        ensures
            s.deep_view() == ListDir::declaration(),
    {
        let none: [&str; 0] = [];
        let one = ["path"];
        let s = ToolSpec {
            name: "list_dir".to_owned(),
            description:
                "列出目录内容(目录在前,附文件大小)。depth 可控制递归层数(默认 1,最大 4);.git/target/node_modules 等目录不会展开。".to_owned(),
            schema: closed_arguments(
                Fields::new().with("depth", integer_argument(Some(4), "递归层数,默认 1")).with(
                    "path",
                    text_argument(None, "目录路径,默认工作目录"),
                ).done(),
                &none,
            ),
            capabilities: ToolCapabilities::read_only(),
            permission: ToolPermissionSpec::paths(&one),
        };
        assert(none.deep_view() =~= seq![]);
        assert(s.permission.deep_view().path_arguments =~= seq!["path"@]);
        s
    }

    /// Reads the request out of the arguments.
    pub fn request(&self, args: &Json, workspace: &Workspace) -> (r: Result<ListRequest, ToolError>)
        ensures
            match or_default(lookup(args@, "depth"@), 1) {
                Some(depth) => {
                    &&& r is Ok
                    &&& r->Ok_0.path@ == path_text(
                        style_of(workspace@),
                        Workspace::resolved(workspace@, asked_path(args@)),
                    )
                    &&& r->Ok_0.depth == clamped(depth, 1, 4)
                },
                None => r is Err && r->Err_0.deep_view() == bad_number_argument("depth"@),
            },
    {
        let given = match args.get("path") {
            Some(value) => match value.as_str() {
                Some(given) => given,
                None => ".",
            },
            None => ".",
        };
        let depth: u64 = match optional_u64(args, "depth") {
            Ok(depth) => depth.unwrap_or(1),
            Err(error) => {
                return Err(error);
            },
        };
        Ok(ListRequest { path: workspace.resolve(given), depth: clamp(depth, 1, 4) })
    }

    /// The error for a path that is no directory.
    pub fn not_directory(&self, path: &str) -> (e: ToolError)
        ensures
            e.deep_view() == super::plain_error(
                ToolErrorCode::NotDirectory,
                path@ + " 不是目录"@,
            ),
    {
        ToolError::new(ToolErrorCode::NotDirectory, concat2(path, " 不是目录"))
    }
}

/// A listing never holds more entries than its limit.
pub proof fn law_listing_is_bounded(s: ListingView)
    requires
        s.count <= MAX_ENTRIES,
    ensures
        run_on(s).0.count <= MAX_ENTRIES,
    decreases s.stack.len(),
{
    if s.stack.len() > 0 && s.count < MAX_ENTRIES && !opens(s.stack.last(), s.max_depth) {
        law_listing_is_bounded(after_entry(s));
    }
}

} // verus!
