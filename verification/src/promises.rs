//! What callers may rely on: relations between what goes into a function and what comes out.
use vstd::prelude::*;

use crate::config::ProviderProfile;
use crate::context::PromptContext;
use crate::json::{lookup, Json, JsonView};
use crate::message::Role;
use crate::plan::{plan_ok, update_plan, PlanError, PlanErrorKind, PlanItem, PlanSnapshot};
use crate::provider::{
    prompt_cache_key, prompt_fingerprint, AnyStream, ProviderError, StreamTerminal, TerminalView,
    TurnOutput,
};
use crate::runtime::batch::ran_over;
use crate::runtime::retry::{nap, Nap, RetryPolicy};
use crate::storage::check_owner;
use crate::storage::rows::{counts_facts, plan_schema, SchemaPlan};
use crate::text::{begins, dec, split_on};
use crate::time::Duration;
use crate::tools::{ToolError, ToolErrorCode, ToolOutput, ToolSpec};
use crate::tools::list_dir::{ListDir, ListRequest};
use crate::tools::outcomes::{law_rows_stand_in_order, law_shells_are_handed_the_command};
use crate::tools::read_file::{numbered, ReadFile, ReadRequest};
use crate::tools::run_command::{build_invocation, CommandRequest, Invocation, RunCommand, Shell};
use crate::workspace::{path_text, style_of, Workspace};

verus! {

/// A plan that was made against another revision than the current one is a conflict, and says both. One
/// that was made against the current one becomes the next revision where it is acceptable, and is
/// invalid otherwise.
pub proof fn law_plans_are_updated_in_turn(
    current: PlanSnapshot,
    expected: u64,
    items: Vec<PlanItem>,
    explanation: Option<String>,
    r: Result<PlanSnapshot, PlanError>,
)
    requires
        call_ensures(update_plan, (&current, expected, items, explanation), r),
    ensures
        expected != current.revision ==> (r matches Err(e) && e.kind == PlanErrorKind::Conflict && e.message@
            == "plan revision conflict: expected "@ + dec(expected as nat) + ", current "@ + dec(
            current.revision as nat,
        )),
        expected == current.revision && current.revision < u64::MAX && plan_ok(
            items.deep_view(),
            explanation.deep_view(),
        ) ==> (r matches Ok(next) && next.revision == expected + 1 && next.items.deep_view()
            == items.deep_view() && next.explanation.deep_view() == explanation.deep_view()),
        expected == current.revision && !plan_ok(items.deep_view(), explanation.deep_view()) ==> (r
            matches Err(e) && e.kind == PlanErrorKind::Invalid),
{
}

/// A wait is over when its time is, and only then; until then it can be cancelled, and otherwise goes on
/// for a tenth of a second.
pub proof fn law_waits_end_in_time(delay: Duration, slept: Duration, cancelled: bool, r: Nap)
    requires
        call_ensures(nap, (delay, slept, cancelled), r),
    ensures
        slept.nanos >= delay.nanos ==> r is Over,
        slept.nanos < delay.nanos && cancelled ==> (r matches Nap::Cancelled(failed)
            && failed.deep_view().message.blocks.len() == 0 && failed.deep_view().error.message
            == "模型调用已取消"@ && !failed.deep_view().error.retryable),
        slept.nanos < delay.nanos && !cancelled ==> (r matches Nap::Sleep(d) && d.nanos == 100_000_000),
{
}

/// A call runs over when its limit is reached; without a limit, and once the run is cancelled, it never
/// does.
pub proof fn law_limits_are_reached(
    elapsed: Duration,
    limit: Duration,
    cancelled: bool,
    r: bool,
    s: bool,
)
    requires
        call_ensures(ran_over, (elapsed, Some(limit), cancelled), r),
        call_ensures(ran_over, (elapsed, None, cancelled), s),
    ensures
        !s,
        cancelled ==> !r,
        !cancelled ==> (r <==> elapsed.nanos >= limit.nanos),
{
}

/// A call ends with what came of its stream: an answer, nothing where it was cancelled, or an error.
pub proof fn law_calls_end(
    output: TurnOutput,
    error: ProviderError,
    done: StreamTerminal,
    aborted: StreamTerminal,
    failed: StreamTerminal,
)
    requires
        call_ensures(AnyStream::conclude, (Ok(Some(output)),), done),
        call_ensures(AnyStream::conclude, (Ok(None),), aborted),
        call_ensures(AnyStream::conclude, (Err(error),), failed),
    ensures
        done.deep_view() == TerminalView::Done(output.deep_view()),
        aborted.deep_view() matches TerminalView::Aborted(f) && f.message.blocks.len() == 0
            && f.error.message == "模型调用已取消"@ && !f.error.retryable,
        failed.deep_view() matches TerminalView::Error(f) && f.message.blocks.len() == 0 && f.message.role
            == Role::Assistant && f.error == error.deep_view(),
{
}

/// A stored session opens in the workspace that it belongs to, at the end of its log; anywhere else it
/// does not.
pub proof fn law_sessions_open_where_they_belong(
    stored: String,
    leaf: Option<String>,
    id: &str,
    path: &str,
    workspace: &str,
    r: Result<Option<String>, String>,
    s: Result<Option<String>, String>,
)
    requires
        call_ensures(check_owner, (Some((stored, leaf)), id, path, workspace), r),
        call_ensures(check_owner, (None, id, path, workspace), s),
    ensures
        r is Ok <==> stored@ == workspace@,
        r matches Ok(end) ==> end.deep_view() == leaf.deep_view(),
        r matches Err(e) ==> e@ == "会话 "@ + id@ + " 不属于当前 workspace"@,
        s matches Err(e) && e@ == "会话数据库 "@ + path@ + " 缺少元数据"@,
{
}

/// A database of the fourth layout or a later one is used as it is; an older one is brought up to date,
/// and its messages become facts where it is of the very first one and has some. Facts are counted from
/// the second layout on.
pub proof fn law_databases_are_brought_up_to_date(
    version: i64,
    has_messages: bool,
    p: SchemaPlan,
    c: bool,
)
    requires
        call_ensures(plan_schema, (version, has_messages), p),
        call_ensures(counts_facts, (version,), c),
    ensures
        version >= 4 ==> p is Ready,
        version < 4 ==> (p matches SchemaPlan::Upgrade { migrate } && (migrate <==> version == 0
            && has_messages)),
        c <==> version >= 2,
{
}

/// A file is read from where its path leads, from the first line and for a thousand lines unless told
/// otherwise. Lines are counted from one; no page has more than four thousand.
pub proof fn law_read_requests(
    tool: ReadFile,
    args: Json,
    ws: Workspace,
    path: Seq<char>,
    n: u64,
    m: u64,
    r: Result<ReadRequest, ToolError>,
)
    requires
        call_ensures(ReadFile::request, (&tool, &args, &ws), r),
        lookup(args@, "path"@) == Some(JsonView::Str(path)),
    ensures
        lookup(args@, "offset"@) is None && lookup(args@, "limit"@) is None ==> (r matches Ok(q) && q.offset
            == 1 && q.limit == 1000),
        r matches Ok(q) ==> q.offset >= 1 && 1 <= q.limit <= 4000 && q.path@ == path_text(
            style_of(ws@),
            Workspace::resolved(ws@, path),
        ),
        lookup(args@, "offset"@) == Some(JsonView::Number(n as int)) && lookup(args@, "limit"@) == Some(
            JsonView::Number(m as int),
        ) ==> (r matches Ok(q) && q.offset == (if n < 1 {
            1
        } else {
            n
        }) && q.limit == (if m < 1 {
            1
        } else if m > 4000 {
            4000
        } else {
            m
        })),
        lookup(args@, "offset"@) == Some(JsonView::Number(-1)) ==> (r matches Err(e) && e.deep_view().code
            == ToolErrorCode::InvalidArguments),
{
}

/// A page that comes back begins with the line that was asked for and ends with the last one that there
/// is room for; wherever it is cut in two, the rows of the first part stand before those of the second.
pub proof fn law_pages_come_in_order(
    tool: ReadFile,
    ws: Workspace,
    request: ReadRequest,
    content: &str,
    middle: int,
    r: Result<ToolOutput, ToolError>,
)
    requires
        call_ensures(ReadFile::page, (&tool, &ws, &request, content), r),
        1 <= request.offset,
        1 <= request.limit <= 4000,
        ({
            let total = split_on(content@, '\n').len();
            request.offset - 1 <= middle <= total && total <= request.offset + request.limit - 1
        }),
    ensures
        ({
            let lines = split_on(content@, '\n');
            r matches Ok(output) ==> output.model_text@ == numbered(lines, request.offset - 1, middle)
                + numbered(lines, middle, lines.len() as int)
        }),
        request.offset > split_on(content@, '\n').len() ==> r is Err,
{
    let lines = split_on(content@, '\n');
    if request.offset <= lines.len() {
        law_rows_stand_in_order(lines, request.offset - 1, middle, lines.len() as int);
    }
}

/// What a shell is handed: for a POSIX shell `-c` and behind it the command as it stands.
pub proof fn law_commands_reach_the_shell(shell: Shell, command: &str, path: &str, made: Invocation)
    requires
        call_ensures(build_invocation, (&shell, command, path), made),
    ensures
        shell is Sh || shell is GitBash ==> made.arguments@.len() == 2 && made.arguments@[0]@ == "-c"@
            && made.arguments@[1]@ == command@ && made.script is None,
        shell is Cmd ==> made.arguments@.len() == 2 && made.arguments@[0]@ == "/C"@ && made.arguments@[1]@
            == command@ && made.script is None,
        shell is PowerShell ==> made.arguments@.len() == 6 && made.arguments@[5]@ == path@ && made.script
            is Some,
{
    law_shells_are_handed_the_command(shell, command@, path@);
    let view = made.deep_view();
    assert(view.arguments == made.arguments.deep_view());
    assert(view.arguments.len() == made.arguments@.len());
    assert forall|i: int| 0 <= i < view.arguments.len() implies #[trigger] view.arguments[i]
        == made.arguments@[i]@ by {}
    if shell is PowerShell {
        assert(made.deep_view().script is Some);
    }
}

/// A directory is listed one level deep unless told otherwise, and four levels at most.
pub proof fn law_list_requests(
    tool: ListDir,
    args: Json,
    ws: Workspace,
    n: u64,
    r: Result<ListRequest, ToolError>,
)
    requires
        call_ensures(ListDir::request, (&tool, &args, &ws), r),
    ensures
        lookup(args@, "depth"@) is None ==> (r matches Ok(q) && q.depth == 1),
        lookup(args@, "depth"@) == Some(JsonView::Number(n as int)) ==> (r matches Ok(q) && q.depth == (
        if n < 1 {
            1
        } else if n > 4 {
            4
        } else {
            n
        })),
        lookup(args@, "path"@) is None ==> (r matches Ok(q) ==> q.path@ == path_text(
            style_of(ws@),
            Workspace::resolved(ws@, "."@),
        )),
{
}

/// A command is run as it is given, for two minutes unless told otherwise and ten at most, in the
/// directory that is named, where one is.
pub proof fn law_command_requests(
    tool: RunCommand,
    args: Json,
    ws: Workspace,
    command: Seq<char>,
    cwd: Seq<char>,
    n: u64,
    r: Result<CommandRequest, ToolError>,
)
    requires
        call_ensures(RunCommand::request, (&tool, &args, &ws), r),
        lookup(args@, "command"@) == Some(JsonView::Str(command)),
    ensures
        r matches Ok(q) ==> q.command@ == command,
        lookup(args@, "timeout_secs"@) is None ==> (r matches Ok(q) && q.timeout_secs == 120),
        lookup(args@, "timeout_secs"@) == Some(JsonView::Number(n as int)) ==> (r matches Ok(q)
            && q.timeout_secs == (if n < 1 {
            1
        } else if n > 600 {
            600
        } else {
            n
        })),
        r matches Ok(q) ==> {
            &&& lookup(args@, "cwd"@) is None ==> q.cwd is None
            &&& lookup(args@, "cwd"@) == Some(JsonView::Str(cwd)) ==> q.cwd.deep_view() == Some(
                path_text(style_of(ws@), Workspace::resolved(ws@, cwd)),
            )
        },
{
}

/// A prompt's mark says how it was made, and its key in the cache says whose it is; both have the same
/// hash.
pub proof fn law_marks_say_what_they_are(
    profile: ProviderProfile,
    model: &str,
    prompt: PromptContext,
    tools: Vec<ToolSpec>,
    mark: String,
    key: String,
)
    requires
        call_ensures(prompt_fingerprint, (profile, model, &prompt, &tools), mark),
        call_ensures(prompt_cache_key, (profile, model, &prompt, &tools), key),
    ensures
        begins(mark@, "sha256:"@),
        begins(key@, "onemore:v1:openai-responses:"@),
        mark@.skip("sha256:"@.len() as int) == key@.skip("onemore:v1:openai-responses:"@.len() as int),
{
    let a = "sha256:"@;
    let b = "onemore:v1:openai-responses:"@;
    assert(mark@.take(a.len() as int) =~= a);
    assert(key@.take(b.len() as int) =~= b);
    assert(mark@.skip(a.len() as int) =~= key@.skip(b.len() as int));
}

/// A call is made three times at most; the first wait is two seconds, the longest thirty, and a service
/// that asks for more than a minute is not tried again.
pub proof fn law_the_usual_policy(p: RetryPolicy)
    requires
        call_ensures(RetryPolicy::default, (), p),
    ensures
        p.max_attempts == 3,
        p.base_delay.nanos == 2 * 1_000_000_000,
        p.max_delay.nanos == 30 * 1_000_000_000,
        p.max_retry_after.nanos == 60 * 1_000_000_000,
{
}

} // verus!
