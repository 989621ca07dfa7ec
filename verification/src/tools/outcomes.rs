//! What the tools answer, part by part.
use vstd::prelude::*;

use crate::json::{entries_are_said, lookup, printed_json, JsonView};
use crate::plan::{with_status, PlanItemView, PlanStatus, PlanView};
use crate::text::{dec, joined, padded, quoted_text, signed, split_on, trimmed, without_end};
use crate::tools::{
    code_text, failure_of, first_named, nonconforming, normalized, outcome_of, shown_progress,
    success_of, unknown_tool, ErrorView, OutcomeView, OutputView, ToolErrorCode,
};
use crate::tools::list_dir::{
    asked_path, entry_line, indent, is_skipped, opens, run_on, size_text, stacked, tenths, Listing,
    ListingView, WaitingView,
};
use crate::tools::read_file::{clamped, numbered, or_default, page_of, DEFAULT_LIMIT, MAX_LIMIT};
use crate::tools::run_command::{
    drained, ending_at, invocation_of, last_line, line_at, lossy_text, piped, preview_of, printed,
    progress_due, progress_of, result_of, shell_for, tail_of, DEFAULT_TIMEOUT_SECS,
    MAX_TIMEOUT_SECS, ChunkView, Ending, Pipe, RunView, Shell, Waited,
};
use crate::tools::update_plan::{item_in, items_in, plan_output, plan_report, status_named};
use crate::tools::write_file::written_text;
use crate::util::{cleaned, end_cut, middle_cut};
use crate::workspace::DirItemView;

verus! {

proof fn detail_keys()
    ensures
        "path"@ != "start_line"@,
        "path"@ != "end_line"@,
        "path"@ != "total_lines"@,
        "path"@ != "truncated"@,
        "path"@ != "next_offset"@,
        "path"@ != "elapsed_ms"@,
        "path"@ != "stdout_bytes"@,
        "path"@ != "stderr_bytes"@,
        "path"@ != "command"@,
        "path"@ != "cwd"@,
        "path"@ != "exit_code"@,
        "path"@ != "timeout_secs"@,
        "path"@ != "entries"@,
        "path"@ != "depth"@,
        "path"@ != "errors"@,
        "start_line"@ != "end_line"@,
        "start_line"@ != "total_lines"@,
        "start_line"@ != "truncated"@,
        "start_line"@ != "next_offset"@,
        "start_line"@ != "elapsed_ms"@,
        "start_line"@ != "stdout_bytes"@,
        "start_line"@ != "stderr_bytes"@,
        "start_line"@ != "command"@,
        "start_line"@ != "cwd"@,
        "start_line"@ != "exit_code"@,
        "start_line"@ != "timeout_secs"@,
        "start_line"@ != "entries"@,
        "start_line"@ != "depth"@,
        "start_line"@ != "errors"@,
        "end_line"@ != "total_lines"@,
        "end_line"@ != "truncated"@,
        "end_line"@ != "next_offset"@,
        "end_line"@ != "elapsed_ms"@,
        "end_line"@ != "stdout_bytes"@,
        "end_line"@ != "stderr_bytes"@,
        "end_line"@ != "command"@,
        "end_line"@ != "cwd"@,
        "end_line"@ != "exit_code"@,
        "end_line"@ != "timeout_secs"@,
        "end_line"@ != "entries"@,
        "end_line"@ != "depth"@,
        "end_line"@ != "errors"@,
        "total_lines"@ != "truncated"@,
        "total_lines"@ != "next_offset"@,
        "total_lines"@ != "elapsed_ms"@,
        "total_lines"@ != "stdout_bytes"@,
        "total_lines"@ != "stderr_bytes"@,
        "total_lines"@ != "command"@,
        "total_lines"@ != "cwd"@,
        "total_lines"@ != "exit_code"@,
        "total_lines"@ != "timeout_secs"@,
        "total_lines"@ != "entries"@,
        "total_lines"@ != "depth"@,
        "total_lines"@ != "errors"@,
        "truncated"@ != "next_offset"@,
        "truncated"@ != "elapsed_ms"@,
        "truncated"@ != "stdout_bytes"@,
        "truncated"@ != "stderr_bytes"@,
        "truncated"@ != "command"@,
        "truncated"@ != "cwd"@,
        "truncated"@ != "exit_code"@,
        "truncated"@ != "timeout_secs"@,
        "truncated"@ != "entries"@,
        "truncated"@ != "depth"@,
        "truncated"@ != "errors"@,
        "next_offset"@ != "elapsed_ms"@,
        "next_offset"@ != "stdout_bytes"@,
        "next_offset"@ != "stderr_bytes"@,
        "next_offset"@ != "command"@,
        "next_offset"@ != "cwd"@,
        "next_offset"@ != "exit_code"@,
        "next_offset"@ != "timeout_secs"@,
        "next_offset"@ != "entries"@,
        "next_offset"@ != "depth"@,
        "next_offset"@ != "errors"@,
        "elapsed_ms"@ != "stdout_bytes"@,
        "elapsed_ms"@ != "stderr_bytes"@,
        "elapsed_ms"@ != "command"@,
        "elapsed_ms"@ != "cwd"@,
        "elapsed_ms"@ != "exit_code"@,
        "elapsed_ms"@ != "timeout_secs"@,
        "elapsed_ms"@ != "entries"@,
        "elapsed_ms"@ != "depth"@,
        "elapsed_ms"@ != "errors"@,
        "stdout_bytes"@ != "stderr_bytes"@,
        "stdout_bytes"@ != "command"@,
        "stdout_bytes"@ != "cwd"@,
        "stdout_bytes"@ != "exit_code"@,
        "stdout_bytes"@ != "timeout_secs"@,
        "stdout_bytes"@ != "entries"@,
        "stdout_bytes"@ != "depth"@,
        "stdout_bytes"@ != "errors"@,
        "stderr_bytes"@ != "command"@,
        "stderr_bytes"@ != "cwd"@,
        "stderr_bytes"@ != "exit_code"@,
        "stderr_bytes"@ != "timeout_secs"@,
        "stderr_bytes"@ != "entries"@,
        "stderr_bytes"@ != "depth"@,
        "stderr_bytes"@ != "errors"@,
        "command"@ != "cwd"@,
        "command"@ != "exit_code"@,
        "command"@ != "timeout_secs"@,
        "command"@ != "entries"@,
        "command"@ != "depth"@,
        "command"@ != "errors"@,
        "cwd"@ != "exit_code"@,
        "cwd"@ != "timeout_secs"@,
        "cwd"@ != "entries"@,
        "cwd"@ != "depth"@,
        "cwd"@ != "errors"@,
        "exit_code"@ != "timeout_secs"@,
        "exit_code"@ != "entries"@,
        "exit_code"@ != "depth"@,
        "exit_code"@ != "errors"@,
        "timeout_secs"@ != "entries"@,
        "timeout_secs"@ != "depth"@,
        "timeout_secs"@ != "errors"@,
        "entries"@ != "depth"@,
        "entries"@ != "errors"@,
        "depth"@ != "errors"@,
{
    reveal_strlit("path");
    reveal_strlit("start_line");
    reveal_strlit("end_line");
    reveal_strlit("total_lines");
    reveal_strlit("truncated");
    reveal_strlit("next_offset");
    reveal_strlit("elapsed_ms");
    reveal_strlit("stdout_bytes");
    reveal_strlit("stderr_bytes");
    reveal_strlit("command");
    reveal_strlit("cwd");
    reveal_strlit("exit_code");
    reveal_strlit("timeout_secs");
    reveal_strlit("entries");
    reveal_strlit("depth");
    reveal_strlit("errors");
    assert("path"@.len() != "start_line"@.len());
    assert("path"@.len() != "end_line"@.len());
    assert("path"@.len() != "total_lines"@.len());
    assert("path"@.len() != "truncated"@.len());
    assert("path"@.len() != "next_offset"@.len());
    assert("path"@.len() != "elapsed_ms"@.len());
    assert("path"@.len() != "stdout_bytes"@.len());
    assert("path"@.len() != "stderr_bytes"@.len());
    assert("path"@.len() != "command"@.len());
    assert("path"@.len() != "cwd"@.len());
    assert("path"@.len() != "exit_code"@.len());
    assert("path"@.len() != "timeout_secs"@.len());
    assert("path"@.len() != "entries"@.len());
    assert("path"@.len() != "depth"@.len());
    assert("path"@.len() != "errors"@.len());
    assert("start_line"@.len() != "end_line"@.len());
    assert("start_line"@.len() != "total_lines"@.len());
    assert("start_line"@.len() != "truncated"@.len());
    assert("start_line"@.len() != "next_offset"@.len());
    assert("start_line"@[0] != "elapsed_ms"@[0]);
    assert("start_line"@.len() != "stdout_bytes"@.len());
    assert("start_line"@.len() != "stderr_bytes"@.len());
    assert("start_line"@.len() != "command"@.len());
    assert("start_line"@.len() != "cwd"@.len());
    assert("start_line"@.len() != "exit_code"@.len());
    assert("start_line"@.len() != "timeout_secs"@.len());
    assert("start_line"@.len() != "entries"@.len());
    assert("start_line"@.len() != "depth"@.len());
    assert("start_line"@.len() != "errors"@.len());
    assert("end_line"@.len() != "total_lines"@.len());
    assert("end_line"@.len() != "truncated"@.len());
    assert("end_line"@.len() != "next_offset"@.len());
    assert("end_line"@.len() != "elapsed_ms"@.len());
    assert("end_line"@.len() != "stdout_bytes"@.len());
    assert("end_line"@.len() != "stderr_bytes"@.len());
    assert("end_line"@.len() != "command"@.len());
    assert("end_line"@.len() != "cwd"@.len());
    assert("end_line"@.len() != "exit_code"@.len());
    assert("end_line"@.len() != "timeout_secs"@.len());
    assert("end_line"@.len() != "entries"@.len());
    assert("end_line"@.len() != "depth"@.len());
    assert("end_line"@.len() != "errors"@.len());
    assert("total_lines"@.len() != "truncated"@.len());
    assert("total_lines"@[0] != "next_offset"@[0]);
    assert("total_lines"@.len() != "elapsed_ms"@.len());
    assert("total_lines"@.len() != "stdout_bytes"@.len());
    assert("total_lines"@.len() != "stderr_bytes"@.len());
    assert("total_lines"@.len() != "command"@.len());
    assert("total_lines"@.len() != "cwd"@.len());
    assert("total_lines"@.len() != "exit_code"@.len());
    assert("total_lines"@.len() != "timeout_secs"@.len());
    assert("total_lines"@.len() != "entries"@.len());
    assert("total_lines"@.len() != "depth"@.len());
    assert("total_lines"@.len() != "errors"@.len());
    assert("truncated"@.len() != "next_offset"@.len());
    assert("truncated"@.len() != "elapsed_ms"@.len());
    assert("truncated"@.len() != "stdout_bytes"@.len());
    assert("truncated"@.len() != "stderr_bytes"@.len());
    assert("truncated"@.len() != "command"@.len());
    assert("truncated"@.len() != "cwd"@.len());
    assert("truncated"@[0] != "exit_code"@[0]);
    assert("truncated"@.len() != "timeout_secs"@.len());
    assert("truncated"@.len() != "entries"@.len());
    assert("truncated"@.len() != "depth"@.len());
    assert("truncated"@.len() != "errors"@.len());
    assert("next_offset"@.len() != "elapsed_ms"@.len());
    assert("next_offset"@.len() != "stdout_bytes"@.len());
    assert("next_offset"@.len() != "stderr_bytes"@.len());
    assert("next_offset"@.len() != "command"@.len());
    assert("next_offset"@.len() != "cwd"@.len());
    assert("next_offset"@.len() != "exit_code"@.len());
    assert("next_offset"@.len() != "timeout_secs"@.len());
    assert("next_offset"@.len() != "entries"@.len());
    assert("next_offset"@.len() != "depth"@.len());
    assert("next_offset"@.len() != "errors"@.len());
    assert("elapsed_ms"@.len() != "stdout_bytes"@.len());
    assert("elapsed_ms"@.len() != "stderr_bytes"@.len());
    assert("elapsed_ms"@.len() != "command"@.len());
    assert("elapsed_ms"@.len() != "cwd"@.len());
    assert("elapsed_ms"@.len() != "exit_code"@.len());
    assert("elapsed_ms"@.len() != "timeout_secs"@.len());
    assert("elapsed_ms"@.len() != "entries"@.len());
    assert("elapsed_ms"@.len() != "depth"@.len());
    assert("elapsed_ms"@.len() != "errors"@.len());
    assert("stdout_bytes"@[3] != "stderr_bytes"@[3]);
    assert("stdout_bytes"@.len() != "command"@.len());
    assert("stdout_bytes"@.len() != "cwd"@.len());
    assert("stdout_bytes"@.len() != "exit_code"@.len());
    assert("stdout_bytes"@[0] != "timeout_secs"@[0]);
    assert("stdout_bytes"@.len() != "entries"@.len());
    assert("stdout_bytes"@.len() != "depth"@.len());
    assert("stdout_bytes"@.len() != "errors"@.len());
    assert("stderr_bytes"@.len() != "command"@.len());
    assert("stderr_bytes"@.len() != "cwd"@.len());
    assert("stderr_bytes"@.len() != "exit_code"@.len());
    assert("stderr_bytes"@[0] != "timeout_secs"@[0]);
    assert("stderr_bytes"@.len() != "entries"@.len());
    assert("stderr_bytes"@.len() != "depth"@.len());
    assert("stderr_bytes"@.len() != "errors"@.len());
    assert("command"@.len() != "cwd"@.len());
    assert("command"@.len() != "exit_code"@.len());
    assert("command"@.len() != "timeout_secs"@.len());
    assert("command"@[0] != "entries"@[0]);
    assert("command"@.len() != "depth"@.len());
    assert("command"@.len() != "errors"@.len());
    assert("cwd"@.len() != "exit_code"@.len());
    assert("cwd"@.len() != "timeout_secs"@.len());
    assert("cwd"@.len() != "entries"@.len());
    assert("cwd"@.len() != "depth"@.len());
    assert("cwd"@.len() != "errors"@.len());
    assert("exit_code"@.len() != "timeout_secs"@.len());
    assert("exit_code"@.len() != "entries"@.len());
    assert("exit_code"@.len() != "depth"@.len());
    assert("exit_code"@.len() != "errors"@.len());
    assert("timeout_secs"@.len() != "entries"@.len());
    assert("timeout_secs"@.len() != "depth"@.len());
    assert("timeout_secs"@.len() != "errors"@.len());
    assert("entries"@.len() != "depth"@.len());
    assert("entries"@.len() != "errors"@.len());
    assert("depth"@.len() != "errors"@.len());
}

// ---- Reading files ----

/// The rows of a page stand in the order of the lines: wherever a page is cut in two, its rows are
/// those of the first part and then those of the second.
pub proof fn law_rows_stand_in_order(lines: Seq<Seq<char>>, start: int, middle: int, end: int)
    requires
        start <= middle <= end,
    ensures
        numbered(lines, start, end) == numbered(lines, start, middle) + numbered(lines, middle, end),
    decreases end - middle,
{
    if middle == end {
        assert(numbered(lines, start, end) =~= numbered(lines, start, middle) + numbered(
            lines,
            middle,
            end,
        ));
    } else {
        law_rows_stand_in_order(lines, start, middle, end - 1);
        assert(numbered(lines, start, end) =~= numbered(lines, start, middle) + numbered(
            lines,
            middle,
            end,
        ));
    }
}

/// A row is the number of its line, counted from one and set to the right of six places, a bar and
/// the line. Line breaks of the other kind do not show, and a long line is cut.
pub proof fn law_a_row_shows_its_line(lines: Seq<Seq<char>>, i: int)
    requires
        0 <= i,
    ensures
        ({
            let line = without_end(lines[i], '\r');
            let row = numbered(lines, i, i + 1);
            &&& line.len() <= 500 ==> row == padded(dec((i + 1) as nat), 6) + " | "@ + line + "\n"@
            &&& line.len() > 500 ==> row == padded(dec((i + 1) as nat), 6) + " | "@ + line.take(500)
                + "……[本行截断]"@ + "\n"@
        }),
        numbered(lines, i, i).len() == 0,
{
    let line = without_end(lines[i], '\r');
    assert(numbered(lines, i, i).len() == 0);
    if line.len() <= 500 {
        assert(numbered(lines, i, i + 1) =~= padded(dec((i + 1) as nat), 6) + " | "@ + line
            + "\n"@);
    } else {
        assert(numbered(lines, i, i + 1) =~= padded(dec((i + 1) as nat), 6) + " | "@ + line.take(
            500,
        ) + "……[本行截断]"@ + "\n"@);
    }
}

/// A page holds as many lines as were asked for, as far as there are any, from the one that was
/// asked for. Where lines are left, it says where to go on. A page behind the end is an error.
pub proof fn law_pages_hold_what_was_asked_for(
    shown: Seq<char>,
    content: Seq<char>,
    offset: u64,
    limit: u64,
)
    requires
        offset >= 1,
        limit >= 1,
    ensures
        ({
            let lines = split_on(content, '\n');
            let total = lines.len();
            let last: int = if offset + limit - 1 <= total {
                offset + limit - 1
            } else {
                total as int
            };
            let page = page_of(shown, content, offset, limit);
            &&& page is Err <==> offset > total
            &&& page matches Err(error) ==> error.code == ToolErrorCode::InvalidArguments
                && error.message == "offset="@ + dec(offset as nat) + " 超出范围,文件共 "@ + dec(total)
                + " 行"@
            &&& page matches Ok(output) ==> {
                &&& last == total ==> output.model_text == numbered(lines, offset - 1, last)
                &&& last < total ==> output.model_text == numbered(lines, offset - 1, last)
                    + "……[仅显示第 "@ + dec(offset as nat) + "-"@ + dec(last as nat) + " 行,共 "@
                    + dec(total) + " 行;继续读请传 offset="@ + dec((last + 1) as nat) + "]"@
                &&& output.ui_summary == Some(
                    "已读取 "@ + shown + " 第 "@ + dec(offset as nat) + "-"@ + dec(last as nat)
                        + " 行"@,
                )
                &&& output.details matches Some(details) && {
                    &&& lookup(details, "path"@) == Some(JsonView::Str(shown))
                    &&& lookup(details, "start_line"@) == Some(JsonView::Number(offset as int))
                    &&& lookup(details, "end_line"@) == Some(JsonView::Number(last))
                    &&& lookup(details, "total_lines"@) == Some(JsonView::Number(total as int))
                    &&& lookup(details, "truncated"@) == Some(JsonView::Bool(last < total))
                    &&& lookup(details, "next_offset"@) == Some(
                        if last < total {
                            JsonView::Number(last + 1)
                        } else {
                            JsonView::Null
                        },
                    )
                }
            }
        }),
{
    broadcast use entries_are_said;

    detail_keys();
    let lines = split_on(content, '\n');
    let total = lines.len();
    let last: int = if offset + limit - 1 <= total {
        offset + limit - 1
    } else {
        total as int
    };
    if offset <= total && last < total {
        assert(page_of(shown, content, offset, limit)->Ok_0.model_text =~= numbered(
            lines,
            offset - 1,
            last,
        ) + "……[仅显示第 "@ + dec(offset as nat) + "-"@ + dec(last as nat) + " 行,共 "@ + dec(total)
            + " 行;继续读请传 offset="@ + dec((last + 1) as nat) + "]"@);
    }
}

/// A number that was not given is the usual one; one outside of the bounds is moved to the nearer
/// bound. A page has a thousand lines unless told otherwise, and never more than four thousand.
pub proof fn law_numbers_keep_to_their_bounds(n: u64, low: u64, high: u64)
    requires
        low <= high,
    ensures
        low <= clamped(n, low, high) <= high,
        low <= n <= high ==> clamped(n, low, high) == n,
        n < low ==> clamped(n, low, high) == low,
        n > high ==> clamped(n, low, high) == high,
        or_default(None, n) == Some(n),
        or_default(Some(JsonView::Null), n) == Some(n),
        or_default(Some(JsonView::Number(high as int)), n) == Some(high),
        DEFAULT_LIMIT == 1000,
        MAX_LIMIT == 4000,
{
}

/// Only the given character is taken off the end, and all of it.
pub proof fn law_ends_are_taken_off(text: Seq<char>, c: char, n: nat)
    requires
        text.len() == 0 || text.last() != c,
    ensures
        without_end(text + Seq::new(n, |i: int| c), c) == text,
    decreases n,
{
    let whole = text + Seq::new(n, |i: int| c);
    if n == 0 {
        assert(whole =~= text);
    } else {
        law_ends_are_taken_off(text, c, (n - 1) as nat);
        assert(whole.drop_last() =~= text + Seq::new((n - 1) as nat, |i: int| c));
    }
}

// ---- Writing files ----

/// What is said of a file that was written tells a new file from an old one, names it, and gives its
/// size in bytes and in lines.
pub proof fn law_written_files_are_described(shown: Seq<char>, content: Seq<char>)
    ensures
        written_text(shown, content, true) == "已覆盖"@ + " "@ + shown + ","@ + dec(
            vstd::utf8::encode_utf8(content).len(),
        ) + " 字节,"@ + dec(split_on(content, '\n').len()) + " 行"@,
        written_text(shown, content, false) == "已创建"@ + " "@ + shown + ","@ + dec(
            vstd::utf8::encode_utf8(content).len(),
        ) + " 字节,"@ + dec(split_on(content, '\n').len()) + " 行"@,
{
}

// ---- Running commands ----

/// A POSIX shell gets two arguments: `-c`, and then the command as it stands. `cmd` gets `/C` in
/// place of `-c`. PowerShell gets the path of a script, which holds the command on lines of its own,
/// and no other shell has one.
pub proof fn law_shells_are_handed_the_command(shell: Shell, command: Seq<char>, path: Seq<char>)
    ensures
        ({
            let made = invocation_of(shell, command, path);
            &&& (shell is Sh || shell is GitBash) ==> {
                &&& made.arguments.len() == 2
                &&& made.arguments[0] == "-c"@
                &&& made.arguments[1] == command
                &&& made.script is None
            }
            &&& shell is Sh ==> made.program == "sh"@
            &&& shell matches Shell::GitBash(bash) ==> made.program == bash@
            &&& shell is Cmd ==> {
                &&& made.program == "cmd.exe"@
                &&& made.arguments.len() == 2
                &&& made.arguments[0] == "/C"@
                &&& made.arguments[1] == command
                &&& made.script is None
            }
            &&& shell is PowerShell ==> {
                &&& made.program == "powershell.exe"@
                &&& made.arguments.len() == 6
                &&& made.arguments[0] == "-NoProfile"@
                &&& made.arguments[1] == "-NonInteractive"@
                &&& made.arguments[2] == "-ExecutionPolicy"@
                &&& made.arguments[3] == "Bypass"@
                &&& made.arguments[4] == "-File"@
                &&& made.arguments[5] == path
                &&& made.script == Some(
                    "\u{feff}$ErrorActionPreference='Continue'\n$ProgressPreference='SilentlyContinue'\n[Console]::OutputEncoding=[System.Text.Encoding]::UTF8\n$OutputEncoding=[System.Text.Encoding]::UTF8\n"@
                        + command
                        + "\nif ($null -ne $LASTEXITCODE) { exit $LASTEXITCODE } else { exit 0 }\n"@,
                )
            }
        }),
{
}

/// Everywhere but on Windows the shell is `sh`. There `powershell` and `cmd` are taken at their word,
/// and otherwise Git Bash is used where it was found.
pub proof fn law_shells_are_chosen(preference: Seq<char>, git_bash: Option<String>, bash: String)
    ensures
        shell_for(preference, false, git_bash) == Shell::Sh,
        shell_for("powershell"@, true, git_bash) == Shell::PowerShell,
        shell_for("cmd"@, true, git_bash) == Shell::Cmd,
        preference != "powershell"@ && preference != "cmd"@ ==> shell_for(
            preference,
            true,
            Some(bash),
        ) == Shell::GitBash(bash) && shell_for(preference, true, None) == Shell::PowerShell,
{
    reveal_strlit("powershell");
    reveal_strlit("cmd");
    assert("powershell"@.len() != "cmd"@.len());
}

/// What a pipe brought stays in the order in which it came, and never mixes with the other pipe.
pub proof fn law_pipes_keep_their_order(a: Seq<ChunkView>, b: Seq<ChunkView>, pipe: Pipe)
    ensures
        piped(a + b, pipe) == piped(a, pipe) + piped(b, pipe),
    decreases b.len(),
{
    if b.len() == 0 {
        assert(a + b =~= a);
        assert(piped(a + b, pipe) =~= piped(a, pipe) + piped(b, pipe));
    } else {
        law_pipes_keep_their_order(a, b.drop_last(), pipe);
        assert((a + b).drop_last() =~= a + b.drop_last());
        assert(piped(a + b, pipe) =~= piped(a, pipe) + piped(b, pipe));
    }
}

/// A chunk is added to what came through its own pipe, at the end; the other pipe stays as it was.
pub proof fn law_chunks_go_to_their_pipe(s: RunView, bytes: Seq<u8>)
    ensures
        ({
            let out = drained(s, seq![ChunkView { pipe: Pipe::Stdout, bytes }]);
            &&& out.stdout == s.stdout + bytes
            &&& out.stderr == s.stderr
            &&& out.dirty
            &&& out.timeout_secs == s.timeout_secs
            &&& out.last_progress == s.last_progress
        }),
        ({
            let err = drained(s, seq![ChunkView { pipe: Pipe::Stderr, bytes }]);
            &&& err.stderr == s.stderr + bytes
            &&& err.stdout == s.stdout
            &&& err.dirty
        }),
        drained(s, seq![]) == s,
{
    let out = seq![ChunkView { pipe: Pipe::Stdout, bytes }];
    let err = seq![ChunkView { pipe: Pipe::Stderr, bytes }];
    assert(out.drop_last() =~= seq![]);
    assert(err.drop_last() =~= seq![]);
    assert(piped(seq![], Pipe::Stdout).len() == 0);
    assert(piped(seq![], Pipe::Stderr).len() == 0);
    assert(piped(out, Pipe::Stdout) =~= bytes);
    assert(piped(out, Pipe::Stderr) =~= seq![]);
    assert(piped(err, Pipe::Stderr) =~= bytes);
    assert(piped(err, Pipe::Stdout) =~= seq![]);
    assert(drained(s, out).stderr =~= s.stderr);
    assert(drained(s, err).stdout =~= s.stdout);
    assert(drained(s, seq![]).stdout =~= s.stdout);
    assert(drained(s, seq![]).stderr =~= s.stderr);
}

/// A process that has exited is done, whatever else happened. One that still runs is stopped when
/// the user asks for it, and when its seconds are over, and goes on otherwise.
pub proof fn law_runs_end(s: RunView, now: u64, cancelled: bool, code: Option<i32>)
    ensures
        ending_at(s, now, Waited::Exited(code), cancelled) == Some(Ending::Exited(code)),
        ending_at(s, now, Waited::Running, true) == Some(Ending::Cancelled),
        now > s.timeout_secs * 1_000_000_000 ==> ending_at(s, now, Waited::Running, false) == Some(
            Ending::TimedOut(s.timeout_secs),
        ),
        now <= s.timeout_secs * 1_000_000_000 ==> ending_at(s, now, Waited::Running, false) is None,
        DEFAULT_TIMEOUT_SECS == 120,
        MAX_TIMEOUT_SECS == 600,
{
}

/// Both outputs are shown, the ordinary one first; one that is blank is left out, and where both are
/// that is said.
pub proof fn law_outputs_are_shown(stdout: Seq<u8>, stderr: Seq<u8>)
    ensures
        ({
            let out = lossy_text(stdout);
            let err = lossy_text(stderr);
            let spoke = trimmed(out).len() > 0;
            let complained = trimmed(err).len() > 0;
            &&& spoke && complained ==> printed(stdout, stderr) == out + "\n--- stderr ---\n"@ + err
            &&& spoke && !complained ==> printed(stdout, stderr) == out
            &&& !spoke && complained ==> printed(stdout, stderr) == err
            &&& !spoke && !complained ==> printed(stdout, stderr) == "(无输出)"@
        }),
{
}

/// A command succeeds exactly where it exits with zero. Every other end is an error of its own, and
/// what the command printed is part of its message.
pub proof fn law_commands_end_well_or_badly(
    ending: Ending,
    command: Seq<char>,
    cwd: Seq<char>,
    out: Seq<char>,
    elapsed: u64,
)
    ensures
        ({
            let r = result_of(ending, command, cwd, out, elapsed);
            &&& r is Ok <==> ending == Ending::Exited(Some(0i32))
            &&& r matches Ok(output) ==> {
                &&& output.model_text == out
                &&& output.ui_summary == Some("命令执行成功"@)
                &&& output.details matches Some(details) && {
                    &&& lookup(details, "command"@) == Some(JsonView::Str(command))
                    &&& lookup(details, "cwd"@) == Some(JsonView::Str(cwd))
                    &&& lookup(details, "exit_code"@) == Some(JsonView::Number(0))
                    &&& lookup(details, "elapsed_ms"@) == Some(
                        JsonView::Number((elapsed / 1_000_000) as int),
                    )
                }
            }
            &&& r matches Err(error) ==> {
                &&& !error.retryable
                &&& error.message.len() >= out.len()
                &&& error.message.skip(error.message.len() - out.len()) == out
                &&& error.details matches Some(details) && lookup(details, "command"@) == Some(
                    JsonView::Str(command),
                )
            }
            &&& ending matches Ending::Exited(Some(n)) ==> (n != 0 ==> (r matches Err(error) && {
                &&& error.code == ToolErrorCode::ProcessExit
                &&& error.message == "命令退出码 "@ + signed(n as int) + "\n"@ + out
                &&& lookup(error.details->0, "exit_code"@) == Some(JsonView::Number(n as int))
            }))
            &&& ending == Ending::Exited(None) ==> (r matches Err(error) && {
                &&& error.code == ToolErrorCode::ProcessExit
                &&& error.message == "命令退出码 "@ + "未知"@ + "\n"@ + out
                &&& lookup(error.details->0, "exit_code"@) == Some(JsonView::Null)
            })
            &&& ending matches Ending::TimedOut(secs) ==> (r matches Err(error) && {
                &&& error.code == ToolErrorCode::Timeout
                &&& error.message == "命令超时("@ + dec(secs as nat) + "s),进程树已终止\n"@ + out
                &&& lookup(error.details->0, "timeout_secs"@) == Some(JsonView::Number(secs as int))
            })
            &&& ending is Cancelled ==> (r matches Err(error) && {
                &&& error.code == ToolErrorCode::Aborted
                &&& error.message == "命令被用户取消,进程树已终止\n"@ + out
            })
            &&& ending matches Ending::WaitFailed(reason) ==> (r matches Err(error) && {
                &&& error.code == ToolErrorCode::ExecutionFailed
                &&& error.message == "等待进程失败: "@ + reason@ + "\n"@ + out
            })
        }),
{
    broadcast use entries_are_said;

    detail_keys();
    let r = result_of(ending, command, cwd, out, elapsed);
    if r is Err {
        let message = r->Err_0.message;
        assert(message.skip(message.len() - out.len()) =~= out);
    }
}

/// A report shows the end of both outputs, the ordinary one first, and at most two thousand bytes of
/// each; its summary is the last line that is not blank. Reports come ten times a second at most, and
/// only where something is new.
pub proof fn law_progress_shows_the_end(s: RunView, now: u64, elapsed: u64)
    ensures
        s.stdout.len() <= 2000 ==> tail_of(s.stdout) == s.stdout,
        s.stdout.len() > 2000 ==> tail_of(s.stdout) == s.stdout.skip(s.stdout.len() - 2000),
        progress_due(s, now) <==> s.dirty && now - s.last_progress >= 100_000_000,
        s.stderr.len() == 0 && s.stdout.len() > 0 ==> preview_of(s.stdout, s.stderr) == lossy_text(
            tail_of(s.stdout),
        ),
        s.stdout.len() == 0 && s.stderr.len() > 0 ==> preview_of(s.stdout, s.stderr) == lossy_text(
            tail_of(s.stderr),
        ),
        s.stdout.len() > 0 && s.stderr.len() > 0 && lossy_text(tail_of(s.stdout)).len() > 0
            ==> preview_of(s.stdout, s.stderr) == lossy_text(tail_of(s.stdout))
            + "\n--- stderr (tail) ---\n"@ + lossy_text(tail_of(s.stderr)),
        ({
            let report = progress_of(s.stdout, s.stderr, elapsed);
            let pieces = split_on(report.model_text, '\n');
            let time = tenths(elapsed as int, 1_000_000_000);
            &&& report.model_text == preview_of(s.stdout, s.stderr)
            &&& report.ui_summary == Some(
                "运行 "@ + (dec((time / 10) as nat) + "."@ + dec((time % 10) as nat)) + "s: "@ + end_cut(
                    last_line(pieces, pieces.len() as int),
                    160,
                ),
            )
            &&& report.details matches Some(details) && {
                &&& lookup(details, "elapsed_ms"@) == Some(
                    JsonView::Number((elapsed / 1_000_000) as int),
                )
                &&& lookup(details, "stdout_bytes"@) == Some(
                    JsonView::Number(s.stdout.len() as int),
                )
                &&& lookup(details, "stderr_bytes"@) == Some(
                    JsonView::Number(s.stderr.len() as int),
                )
            }
        }),
{
    broadcast use entries_are_said;

    detail_keys();
}

/// The line that sums up a report is the last one that says something, without a carriage return
/// that belongs to its line break; where there is none, the output is still waited for.
pub proof fn law_the_last_line_that_says_something(pieces: Seq<Seq<char>>, n: int, piece: Seq<char>)
    requires
        0 < n <= pieces.len(),
    ensures
        last_line(pieces, 0) == "等待输出"@,
        trimmed(line_at(pieces, n - 1)).len() > 0 ==> last_line(pieces, n) == line_at(pieces, n - 1),
        trimmed(line_at(pieces, n - 1)).len() == 0 ==> last_line(pieces, n) == last_line(pieces, n - 1),
        n < pieces.len() && pieces[n - 1] == piece.push('\r') ==> line_at(pieces, n - 1) == piece,
        pieces[n - 1].len() == 0 || pieces[n - 1].last() != '\r' || n == pieces.len() ==> line_at(
            pieces,
            n - 1,
        ) == pieces[n - 1],
{
    assert(piece.push('\r').drop_last() =~= piece);
}

// ---- Listing directories ----

/// The entries of a directory are listed in their order, before everything that waited already.
pub proof fn law_entries_wait_in_order(
    stack: Seq<WaitingView>,
    dir: Seq<char>,
    depth: usize,
    items: Seq<DirItemView>,
)
    ensures
        ({
            let waiting = stacked(stack, dir, depth, items);
            &&& waiting.len() == stack.len() + items.len()
            &&& waiting.take(stack.len() as int) == stack
            &&& forall|k: int|
                0 <= k < items.len() ==> (#[trigger] waiting[waiting.len() - 1 - k]) == (WaitingView {
                    dir,
                    item: items[k],
                    depth,
                })
        }),
    decreases items.len(),
{
    let waiting = stacked(stack, dir, depth, items);
    if items.len() == 0 {
        assert(waiting.take(stack.len() as int) =~= stack);
    } else {
        let more = stack.push(WaitingView { dir, item: items.last(), depth });
        law_entries_wait_in_order(more, dir, depth, items.drop_last());
        assert(waiting.take(stack.len() as int) =~= waiting.take(more.len() as int).take(
            stack.len() as int,
        ));
        assert(more.take(stack.len() as int) =~= stack);
        assert forall|k: int| 0 <= k < items.len() implies (#[trigger] waiting[waiting.len() - 1 - k])
            == (WaitingView { dir, item: items[k], depth }) by {
            if k == items.len() - 1 {
                assert(waiting[stack.len() as int] == waiting.take(more.len() as int)[stack.len() as int]);
            } else {
                assert(items.drop_last()[k] == items[k]);
            }
        }
    }
}

/// The next entry is listed first: its line is added at the end. A directory that is to be opened
/// stops the listing until it has been read; a listing stops for good at five hundred entries.
pub proof fn law_the_next_entry_is_listed(s: ListingView)
    ensures
        s.stack.len() == 0 ==> run_on(s) == (s, None::<(Seq<char>, usize)>),
        s.count >= 500 ==> run_on(s) == (s, None::<(Seq<char>, usize)>),
        s.stack.len() > 0 && s.count < 500 ==> ({
            let next = s.stack.last();
            let listed = ListingView {
                text: s.text + entry_line(next.item, next.depth as nat),
                count: s.count + 1,
                max_depth: s.max_depth,
                separator: s.separator,
                stack: s.stack.drop_last(),
            };
            &&& opens(next, s.max_depth) ==> run_on(s) == (
                listed,
                Some((next.dir + s.separator + next.item.name, (next.depth + 1) as usize)),
            )
            &&& !opens(next, s.max_depth) ==> run_on(s) == run_on(listed)
        }),
{
}

/// Directories are opened down to the depth that was asked for, except those that are only named.
pub proof fn law_directories_are_opened(w: WaitingView, max_depth: usize)
    ensures
        opens(w, max_depth) ==> w.item.is_dir && w.depth < max_depth,
        w.item.is_dir && w.depth < max_depth && !is_skipped(w.item.name) ==> opens(w, max_depth),
        is_skipped(w.item.name) ==> !opens(w, max_depth),
        is_skipped(".git"@) && is_skipped("target"@) && is_skipped("node_modules"@) && is_skipped(
            "__pycache__"@,
        ) && is_skipped(".venv"@),
{
}

/// A line is indented by two spaces for each level. A directory ends with a slash, and says so where
/// it is not opened on purpose; a file has its size behind it.
pub proof fn law_lines_of_a_listing(item: DirItemView, depth: nat)
    ensures
        indent(depth).len() == 2 * depth,
        forall|i: int| 0 <= i < 2 * depth ==> (#[trigger] indent(depth)[i]) == ' ',
        item.is_dir && !is_skipped(item.name) ==> entry_line(item, depth) == indent(depth) + item.name
            + "/"@ + "\n"@,
        item.is_dir && is_skipped(item.name) ==> entry_line(item, depth) == indent(depth) + item.name
            + "/"@ + "  [不展开]"@ + "\n"@,
        !item.is_dir ==> entry_line(item, depth) == indent(depth) + item.name + "  ("@ + size_text(
            item.size,
        ) + ")\n"@,
    decreases depth,
{
    reveal_strlit("  ");
    if depth > 0 {
        law_lines_of_a_listing(item, (depth - 1) as nat);
        let less = indent((depth - 1) as nat);
        assert forall|i: int| 0 <= i < 2 * depth implies (#[trigger] indent(depth)[i]) == ' ' by {
            if i < less.len() {
                assert(indent(depth)[i] == less[i]);
            } else {
                assert(indent(depth)[i] == "  "@[i - less.len()]);
            }
        }
    }
}

/// Tenths are rounded to the nearest one.
pub proof fn law_tenths_are_near(n: int, d: int)
    requires
        n >= 0,
        d > 0,
    ensures
        tenths(n, d) >= 0,
        2 * (tenths(n, d) * d) <= 20 * n + d,
        20 * n <= 2 * (tenths(n, d) * d) + d,
        2 * (n * 10 % d) == d ==> tenths(n, d) % 2 == 0,
{
    let q = n * 10 / d;
    let r = n * 10 % d;
    assert(n * 10 == q * d + r && 0 <= r < d && q >= 0) by (nonlinear_arith)
        requires
            n >= 0,
            d > 0,
            q == n * 10 / d,
            r == n * 10 % d,
    ;
    assert((q + 1) * d == q * d + d) by (nonlinear_arith);
}

/// Sizes are shown in bytes below a thousand and twenty-four, in the next unit below its square, and
/// in the one after that from there on, with one decimal.
pub proof fn law_sizes_are_shown(bytes: u64)
    ensures
        bytes < 1024 ==> size_text(bytes) == dec(bytes as nat) + " B"@,
        1024 <= bytes < 1024 * 1024 ==> size_text(bytes) == dec(
            (tenths(bytes as int, 1024) / 10) as nat,
        ) + "."@ + dec((tenths(bytes as int, 1024) % 10) as nat) + " KB"@,
        bytes >= 1024 * 1024 ==> size_text(bytes) == dec(
            (tenths(bytes as int, 1048576) / 10) as nat,
        ) + "."@ + dec((tenths(bytes as int, 1048576) % 10) as nat) + " MB"@,
{
}

/// A finished listing is its text; where it was cut, that is said at its end.
pub proof fn law_listings_are_handed_over(s: ListingView, shown: Seq<char>, depth: u64)
    ensures
        ({
            let output = Listing::outcome(s, shown, depth);
            &&& s.count < 500 ==> output.model_text == s.text
            &&& s.count >= 500 ==> output.model_text == s.text + "……[超过 "@ + dec(500)
                + " 条,已截断;请指定子目录查看]\n"@
            &&& output.ui_summary == Some("已列出 "@ + dec(s.count) + " 个条目"@)
            &&& output.details matches Some(details) && {
                &&& lookup(details, "path"@) == Some(JsonView::Str(shown))
                &&& lookup(details, "entries"@) == Some(JsonView::Number(s.count as int))
                &&& lookup(details, "depth"@) == Some(JsonView::Number(depth as int))
                &&& lookup(details, "truncated"@) == Some(JsonView::Bool(s.count >= 500))
            }
        }),
{
    broadcast use entries_are_said;

    detail_keys();
}

/// A listing that names no directory is of the one that the session works in.
pub proof fn law_listings_begin_somewhere(args: JsonView, path: Seq<char>)
    ensures
        lookup(args, "path"@) == Some(JsonView::Str(path)) ==> asked_path(args) == path,
        lookup(args, "path"@) is None ==> asked_path(args) == "."@,
{
}

// ---- Outcomes ----

/// A success is its output and no error; a failure is its error, and reads as its message. Texts are
/// cleaned and kept within twenty-four thousand characters; all else is kept.
pub proof fn law_outcomes_say_what_came_of_it(
    output: OutputView,
    error: ErrorView,
    plans: Seq<PlanView>,
)
    ensures
        success_of(output).output == output,
        success_of(output).error is None,
        success_of(output).effects.len() == 0,
        failure_of(error).error == Some(error),
        failure_of(error).output.model_text == error.message,
        failure_of(error).output.details == error.details,
        failure_of(error).effects.len() == 0,
        ({
            let good = normalized(OutcomeView { output, error: None, effects: plans });
            &&& good.error is None
            &&& good.effects == plans
            &&& good.output.details == output.details
            &&& good.output.model_text == middle_cut(cleaned(output.model_text), 24000)
            &&& output.ui_summary is None ==> good.output.ui_summary is None
            &&& output.ui_summary matches Some(summary) ==> good.output.ui_summary == Some(
                middle_cut(cleaned(summary), 24000),
            )
        }),
        ({
            let bad = normalized(OutcomeView { output, error: Some(error), effects: plans });
            &&& bad.error matches Some(e) && e.code == error.code && e.retryable == error.retryable
                && e.details == error.details && e.message == middle_cut(cleaned(error.message), 24000)
            &&& bad.output.model_text == middle_cut(cleaned(error.message), 24000)
            &&& bad.effects == plans
        }),
        outcome_of(Ok(output)).error is None,
        outcome_of(Ok(output)).output.model_text == middle_cut(cleaned(output.model_text), 24000),
        outcome_of(Err(error)).error is Some,
        outcome_of(Err(error)).error->0.code == error.code,
        shown_progress(output).model_text == middle_cut(cleaned(output.model_text), 24000),
        shown_progress(output).details == output.details,
{
}

/// Every kind of error has a name of its own.
pub proof fn law_error_codes_have_names()
    ensures
        code_text(ToolErrorCode::UnknownTool) == "unknown_tool"@,
        code_text(ToolErrorCode::InvalidArguments) == "invalid_arguments"@,
        code_text(ToolErrorCode::NotFound) == "not_found"@,
        code_text(ToolErrorCode::NotDirectory) == "not_directory"@,
        code_text(ToolErrorCode::Io) == "io"@,
        code_text(ToolErrorCode::Conflict) == "conflict"@,
        code_text(ToolErrorCode::TruncatedInput) == "truncated_input"@,
        code_text(ToolErrorCode::Aborted) == "aborted"@,
        code_text(ToolErrorCode::Timeout) == "timeout"@,
        code_text(ToolErrorCode::ProcessExit) == "process_exit"@,
        code_text(ToolErrorCode::PermissionDenied) == "permission_denied"@,
        code_text(ToolErrorCode::HookRejected) == "hook_rejected"@,
        code_text(ToolErrorCode::ExecutionFailed) == "execution_failed"@,
        code_text(ToolErrorCode::Internal) == "internal"@,
{
}

/// A name stands for the first tool that has it, and a name that no tool has stands for none.
pub proof fn law_names_stand_for_the_first_tool(names: Seq<Seq<char>>, name: Seq<char>)
    ensures
        first_named(names, name) is None <==> !names.contains(name),
        first_named(names, name) matches Some(i) ==> i < names.len() && names[i as int] == name
            && forall|j: int| 0 <= j < i ==> (#[trigger] names[j]) != name,
    decreases names.len(),
{
    if names.len() > 0 {
        let rest = names.drop_last();
        law_names_stand_for_the_first_tool(rest, name);
        match first_named(rest, name) {
            Some(i) => {
                assert(names[i as int] == rest[i as int]);
                assert forall|j: int| 0 <= j < i implies (#[trigger] names[j]) != name by {
                    assert(rest[j] == names[j]);
                }
            },
            None => {
                assert forall|j: int| 0 <= j < rest.len() implies (#[trigger] names[j]) != name by {
                    assert(rest[j] == names[j]);
                    assert(rest.contains(rest[j]));
                }
                if names.last() == name {
                    assert(names[names.len() - 1] == name);
                }
            },
        }
    }
}

/// Calls that cannot be run say what is wrong: which tools there are, and what the arguments lack.
pub proof fn law_refused_calls_say_why(name: Seq<char>, names: Seq<Seq<char>>)
    ensures
        unknown_tool(name, names).code == ToolErrorCode::UnknownTool,
        unknown_tool(name, names).message == "未知工具 "@ + quoted_text(name) + "。可用工具: "@ + joined(
            names,
            ", "@,
        ),
        nonconforming(name, names).code == ToolErrorCode::InvalidArguments,
        nonconforming(name, names).message == "工具 "@ + name + " 参数校验失败: "@ + joined(
            names,
            "; "@,
        ),
        !unknown_tool(name, names).retryable && !nonconforming(name, names).retryable,
{
}

// ---- Plans ----

/// An item is what its three members say; the items of a plan keep their order.
pub proof fn law_plans_are_read_in_order(values: Seq<JsonView>, value: JsonView)
    ensures
        status_named("pending"@) == Some(PlanStatus::Pending),
        status_named("in_progress"@) == Some(PlanStatus::InProgress),
        status_named("completed"@) == Some(PlanStatus::Completed),
        item_in(value) matches Some(item) ==> {
            &&& lookup(value, "id"@) == Some(JsonView::Str(item.id))
            &&& lookup(value, "text"@) == Some(JsonView::Str(item.text))
            &&& item.status is Pending ==> lookup(value, "status"@) == Some(JsonView::Str("pending"@))
            &&& item.status is InProgress ==> lookup(value, "status"@) == Some(
                JsonView::Str("in_progress"@),
            )
            &&& item.status is Completed ==> lookup(value, "status"@) == Some(
                JsonView::Str("completed"@),
            )
        },
        items_in(values) matches Some(items) ==> items.len() == values.len() && forall|i: int|
            0 <= i < values.len() ==> item_in(#[trigger] values[i]) == Some(items[i]),
        items_in(values) is None ==> exists|i: int|
            0 <= i < values.len() && item_in(#[trigger] values[i]) is None,
    decreases values.len(),
{
    reveal_strlit("pending");
    reveal_strlit("in_progress");
    reveal_strlit("completed");
    assert("pending"@.len() != "in_progress"@.len());
    assert("pending"@.len() != "completed"@.len());
    assert("in_progress"@.len() != "completed"@.len());
    if values.len() > 0 {
        let rest = values.drop_last();
        law_plans_are_read_in_order(rest, value);
        if items_in(values) is None {
            if items_in(rest) is None {
                let i = choose|i: int| 0 <= i < rest.len() && item_in(#[trigger] rest[i]) is None;
                assert(item_in(values[i]) is None);
            } else {
                assert(item_in(values[values.len() - 1]) is None);
            }
        } else {
            let items = items_in(values)->0;
            assert forall|i: int| 0 <= i < values.len() implies item_in(#[trigger] values[i]) == Some(
                items[i],
            ) by {
                if i < rest.len() {
                    assert(rest[i] == values[i]);
                    assert(items_in(rest)->0[i] == items[i]);
                }
            }
        }
    }
}

/// Items are counted by their status, each once.
pub proof fn law_items_are_counted_by_status(
    items: Seq<PlanItemView>,
    more: Seq<PlanItemView>,
    item: PlanItemView,
)
    ensures
        with_status(items + more, item.status) == with_status(items, item.status) + with_status(
            more,
            item.status,
        ),
        with_status(seq![item], item.status) == 1,
        with_status(items, PlanStatus::Pending) + with_status(items, PlanStatus::InProgress)
            + with_status(items, PlanStatus::Completed) == items.len(),
    decreases items.len() + more.len(),
{
    assert(seq![item].drop_last() =~= seq![]);
    assert(with_status(seq![], item.status) == 0);
    if more.len() > 0 {
        law_items_are_counted_by_status(items, more.drop_last(), item);
        assert((items + more).drop_last() =~= items + more.drop_last());
    } else {
        assert(items + more =~= items);
        if items.len() > 0 {
            law_items_are_counted_by_status(items.drop_last(), seq![], item);
        }
    }
}

/// The report on a plan gives its revision and how many of its items have which status.
pub proof fn law_plans_are_reported(plan: PlanView)
    ensures
        plan_output(plan).model_text == printed_json(plan_report(plan)),
        lookup(plan_report(plan), "revision"@) == Some(JsonView::Number(plan.revision as int)),
        lookup(plan_report(plan), "pending"@) == Some(
            JsonView::Number(with_status(plan.items, PlanStatus::Pending) as int),
        ),
        lookup(plan_report(plan), "in_progress"@) == Some(
            JsonView::Number(with_status(plan.items, PlanStatus::InProgress) as int),
        ),
        lookup(plan_report(plan), "completed"@) == Some(
            JsonView::Number(with_status(plan.items, PlanStatus::Completed) as int),
        ),
        plan_output(plan).ui_summary == Some(
            "计划 #"@ + dec(plan.revision) + ": "@ + dec(with_status(plan.items, PlanStatus::Pending))
                + " 待处理，"@ + dec(with_status(plan.items, PlanStatus::InProgress)) + " 进行中，"@
                + dec(with_status(plan.items, PlanStatus::Completed)) + " 已完成"@,
        ),
{
    broadcast use entries_are_said;

    plan_keys();
}

proof fn plan_keys()
    ensures
        "revision"@ != "pending"@,
        "revision"@ != "in_progress"@,
        "revision"@ != "completed"@,
        "pending"@ != "in_progress"@,
        "pending"@ != "completed"@,
        "in_progress"@ != "completed"@,
{
    reveal_strlit("revision");
    reveal_strlit("pending");
    reveal_strlit("in_progress");
    reveal_strlit("completed");
    assert("revision"@.len() != "pending"@.len());
    assert("revision"@.len() != "in_progress"@.len());
    assert("revision"@.len() != "completed"@.len());
    assert("pending"@.len() != "in_progress"@.len());
    assert("pending"@.len() != "completed"@.len());
    assert("in_progress"@.len() != "completed"@.len());
}

} // verus!
