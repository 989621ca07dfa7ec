//! `run_command`: runs a shell command, with a time limit, progress and cancellation.
//!
//! The process itself is run elsewhere. Here is what is run, what each look at the running process
//! leads to, and what its end means.
use vstd::prelude::*;

use crate::json::{lookup, nil, number, obj, text, Fields, Json, JsonView};
use crate::text::{
    concat2, concat3, dec, decimal, same, signed, signed_decimal, split, split_on, trim, trimmed,
};
use crate::util::{ellipsis, end_cut};
use crate::workspace::{path_text, style_of, Workspace};

use super::list_dir::{one_decimal, tenths, tenths_text};
use super::read_file::{
    clamp, clamped, closed_arguments, closed_schema, integer_argument, integer_schema, or_default,
    text_argument, text_schema,
};
use super::{
    bad_number_argument, missing_text_argument, optional_u64, plain_error, require_str, ErrorView,
    OutputView,
    PermissionSpecView, ToolCapabilities, ToolError, ToolErrorCode, ToolOutput, ToolPermissionSpec,
    ToolSpec, ToolSpecView,
};

verus! {

pub const DEFAULT_TIMEOUT_SECS: u64 = 120;

pub const MAX_TIMEOUT_SECS: u64 = 600;

/// Chunks taken from the pipes at one look.
pub const MAX_DRAIN_CHUNKS_PER_TICK: usize = 256;

/// Nanoseconds between two progress reports.
pub const PROGRESS_INTERVAL_NANOS: u64 = 100000000;

pub const PROGRESS_TAIL_BYTES: usize = 2000;

pub const NANOS_PER_SEC: u64 = 1000000000;

pub const NANOS_PER_MILLI: u64 = 1000000;

/// The shell that runs a command.
#[derive(Debug, Clone)]
pub enum Shell {
    /// The `bash` of Git for Windows, by its path.
    GitBash(String),
    PowerShell,
    Cmd,
    Sh,
}

impl Shell {
    pub open spec fn label_text(self) -> Seq<char> {
        match self {
            Shell::GitBash(_) => "Git Bash"@,
            Shell::PowerShell => "PowerShell 5.1"@,
            Shell::Cmd => "cmd.exe"@,
            Shell::Sh => "sh"@,
        }
    }

    pub fn label(&self) -> (s: &'static str)
        ensures
            s@ == self.label_text(),
    {
        match self {
            Shell::GitBash(_) => "Git Bash",
            Shell::PowerShell => "PowerShell 5.1",
            Shell::Cmd => "cmd.exe",
            Shell::Sh => "sh",
        }
    }

    pub open spec fn hint_text(self) -> Seq<char> {
        match self {
            Shell::GitBash(_) =>
                "命令由 Git Bash 执行:用 POSIX 语法(&&、|、$VAR、/dev/null),路径正斜杠;Windows 盘符写作 /e/xxx 或直接 E:/xxx"@,
            Shell::PowerShell =>
                "命令由 Windows PowerShell 5.1 执行:不支持 && 与 ||(用 ; 或 if $?),环境变量 $env:NAME,null 设备是 $null"@,
            Shell::Cmd => "命令由 cmd.exe 执行:用 batch 语法(&、%VAR%、nul)"@,
            Shell::Sh => "命令由 /bin/sh 执行,POSIX 语法"@,
        }
    }

    /// What the model is told about the syntax.
    pub fn syntax_hint(&self) -> (s: &'static str)
        ensures
            s@ == self.hint_text(),
    {
        match self {
            Shell::GitBash(_) =>
                "命令由 Git Bash 执行:用 POSIX 语法(&&、|、$VAR、/dev/null),路径正斜杠;Windows 盘符写作 /e/xxx 或直接 E:/xxx",
            Shell::PowerShell =>
                "命令由 Windows PowerShell 5.1 执行:不支持 && 与 ||(用 ; 或 if $?),环境变量 $env:NAME,null 设备是 $null",
            Shell::Cmd => "命令由 cmd.exe 执行:用 batch 语法(&、%VAR%、nul)",
            Shell::Sh => "命令由 /bin/sh 执行,POSIX 语法",
        }
    }
}

/// The shell for a preference (`auto`, `gitbash`, `powershell`, `cmd`), given whether this is
/// Windows and where Git Bash was found there.
pub open spec fn shell_for(preference: Seq<char>, windows: bool, git_bash: Option<String>) -> Shell {
    if !windows {
        Shell::Sh
    } else if preference == "powershell"@ {
        Shell::PowerShell
    } else if preference == "cmd"@ {
        Shell::Cmd
    } else {
        match git_bash {
            Some(path) => Shell::GitBash(path),
            None => Shell::PowerShell,
        }
    }
}

pub fn detect_shell(preference: &str, windows: bool, git_bash: Option<String>) -> (s: Shell)
    ensures
        s == shell_for(preference@, windows, git_bash),
{
    if !windows {
        Shell::Sh
    } else if same(preference, "powershell") {
        Shell::PowerShell
    } else if same(preference, "cmd") {
        Shell::Cmd
    } else {
        match git_bash {
            Some(path) => Shell::GitBash(path),
            None => Shell::PowerShell,
        }
    }
}

pub struct RunCommand {
    pub shell: Shell,
}

/// A checked request to run a command.
#[derive(Debug)]
pub struct CommandRequest {
    pub command: String,
    pub timeout_secs: u64,
    /// The directory to run in, where one is asked for.
    pub cwd: Option<String>,
}

/// How a command is handed to its shell: a program and its arguments, and a script file to write
/// first where the shell takes one.
#[derive(Debug)]
pub struct Invocation {
    pub program: String,
    pub arguments: Vec<String>,
    pub script: Option<String>,
}

#[verifier::ext_equal]
pub struct InvocationView {
    pub program: Seq<char>,
    pub arguments: Seq<Seq<char>>,
    pub script: Option<Seq<char>>,
}

impl DeepView for Invocation {
    type V = InvocationView;

    open spec fn deep_view(&self) -> InvocationView {
        InvocationView {
            program: self.program@,
            arguments: self.arguments.deep_view(),
            script: self.script.deep_view(),
        }
    }
}

/// The script that PowerShell runs for a command. It begins with a byte order mark, without which
/// the shell reads it in the local code page.
pub open spec fn powershell_script(command: Seq<char>) -> Seq<char> {
    "\u{feff}$ErrorActionPreference='Continue'\n$ProgressPreference='SilentlyContinue'\n[Console]::OutputEncoding=[System.Text.Encoding]::UTF8\n$OutputEncoding=[System.Text.Encoding]::UTF8\n"@
        + command
        + "\nif ($null -ne $LASTEXITCODE) { exit $LASTEXITCODE } else { exit 0 }\n"@
}

/// The invocation of a command, given the path for a script file.
pub open spec fn invocation_of(shell: Shell, command: Seq<char>, script: Seq<char>) -> InvocationView {
    match shell {
        Shell::GitBash(bash) => InvocationView {
            program: bash@,
            arguments: seq!["-c"@, command],
            script: None,
        },
        Shell::PowerShell => InvocationView {
            program: "powershell.exe"@,
            arguments: seq![
                "-NoProfile"@,
                "-NonInteractive"@,
                "-ExecutionPolicy"@,
                "Bypass"@,
                "-File"@,
                script,
            ],
            script: Some(powershell_script(command)),
        },
        Shell::Cmd => InvocationView {
            program: "cmd.exe"@,
            arguments: seq!["/C"@, command],
            script: None,
        },
        Shell::Sh => InvocationView {
            program: "sh"@,
            arguments: seq!["-c"@, command],
            script: None,
        },
    }
}

pub fn build_invocation(shell: &Shell, command: &str, script_path: &str) -> (i: Invocation)
    ensures
        i.deep_view() == invocation_of(*shell, command@, script_path@),
{
    let i = match shell {
        Shell::GitBash(bash) => {
            let arguments = ["-c", command];
            Invocation {
                program: bash.clone(),
                arguments: super::own_texts(&arguments),
                script: None,
            }
        },
        Shell::PowerShell => {
            let arguments = [
                "-NoProfile",
                "-NonInteractive",
                "-ExecutionPolicy",
                "Bypass",
                "-File",
                script_path,
            ];
            let script = concat3(
                "\u{feff}$ErrorActionPreference='Continue'\n$ProgressPreference='SilentlyContinue'\n[Console]::OutputEncoding=[System.Text.Encoding]::UTF8\n$OutputEncoding=[System.Text.Encoding]::UTF8\n",
                command,
                "\nif ($null -ne $LASTEXITCODE) { exit $LASTEXITCODE } else { exit 0 }\n",
            );
            Invocation {
                program: "powershell.exe".to_owned(),
                arguments: super::own_texts(&arguments),
                script: Some(script),
            }
        },
        Shell::Cmd => {
            let arguments = ["/C", command];
            Invocation {
                program: "cmd.exe".to_owned(),
                arguments: super::own_texts(&arguments),
                script: None,
            }
        },
        Shell::Sh => {
            let arguments = ["-c", command];
            Invocation {
                program: "sh".to_owned(),
                arguments: super::own_texts(&arguments),
                script: None,
            }
        },
    };
    assert(i.deep_view().arguments =~= invocation_of(*shell, command@, script_path@).arguments);
    i
}

// ---- The running process ----

#[derive(Debug, Clone, Copy, PartialEq, Eq, Structural)]
pub enum Pipe {
    Stdout,
    Stderr,
}

/// Bytes read from one of the pipes.
#[derive(Debug)]
pub struct PipeChunk {
    pub pipe: Pipe,
    pub bytes: Vec<u8>,
}

#[verifier::ext_equal]
pub struct ChunkView {
    pub pipe: Pipe,
    pub bytes: Seq<u8>,
}

impl DeepView for PipeChunk {
    type V = ChunkView;

    open spec fn deep_view(&self) -> ChunkView {
        ChunkView { pipe: self.pipe, bytes: self.bytes@ }
    }
}

/// What a look at the process found.
#[derive(Debug)]
pub enum Waited {
    Running,
    Exited(Option<i32>),
    Failed(String),
}

/// How a run ended.
#[derive(Debug)]
pub enum Ending {
    Exited(Option<i32>),
    TimedOut(u64),
    Cancelled,
    WaitFailed(String),
}

/// A run under way.
pub struct CommandRun {
    pub timeout_secs: u64,
    pub stdout: Vec<u8>,
    pub stderr: Vec<u8>,
    /// When progress was last reported, in nanoseconds from the start.
    pub last_progress: u64,
    /// There is output that no report has shown.
    pub dirty: bool,
}

#[verifier::ext_equal]
pub struct RunView {
    pub timeout_secs: u64,
    pub stdout: Seq<u8>,
    pub stderr: Seq<u8>,
    pub last_progress: u64,
    pub dirty: bool,
}

impl DeepView for CommandRun {
    type V = RunView;

    open spec fn deep_view(&self) -> RunView {
        RunView {
            timeout_secs: self.timeout_secs,
            stdout: self.stdout@,
            stderr: self.stderr@,
            last_progress: self.last_progress,
            dirty: self.dirty,
        }
    }
}

/// What one look at a run leads to.
pub struct Tick {
    /// Progress to report first.
    pub report: Option<ToolOutput>,
    /// The end of the run, if it has ended.
    pub ending: Option<Ending>,
    /// Whether the process has to be killed.
    pub kill: bool,
}

/// The bytes that some chunks brought through one pipe.
pub open spec fn piped(chunks: Seq<ChunkView>, pipe: Pipe) -> Seq<u8>
    decreases chunks.len(),
{
    if chunks.len() == 0 {
        seq![]
    } else if chunks.last().pipe == pipe {
        piped(chunks.drop_last(), pipe) + chunks.last().bytes
    } else {
        piped(chunks.drop_last(), pipe)
    }
}

pub open spec fn drained(s: RunView, chunks: Seq<ChunkView>) -> RunView {
    RunView {
        stdout: s.stdout + piped(chunks, Pipe::Stdout),
        stderr: s.stderr + piped(chunks, Pipe::Stderr),
        dirty: s.dirty || chunks.len() > 0,
        ..s
    }
}

/// The text that `String::from_utf8_lossy` makes of bytes.
pub uninterp spec fn lossy_text(bytes: Seq<u8>) -> Seq<char>;

/// `String::from_utf8_lossy`: a function of the bytes alone.
#[verifier::external_body]
fn lossy(bytes: &[u8]) -> (s: String)
    ensures
        s@ == lossy_text(bytes@),
{
    String::from_utf8_lossy(bytes).into_owned()
}

pub open spec fn tail_of(bytes: Seq<u8>) -> Seq<u8> {
    if bytes.len() > PROGRESS_TAIL_BYTES {
        bytes.skip(bytes.len() - PROGRESS_TAIL_BYTES)
    } else {
        bytes
    }
}

pub fn lossy_tail(bytes: &[u8]) -> (s: String)
    ensures
        s@ == lossy_text(tail_of(bytes@)),
{
    let start: usize = bytes.len().saturating_sub(PROGRESS_TAIL_BYTES);
    let tail = vstd::slice::slice_subrange(bytes, start, bytes.len());
    assert(tail@ =~= tail_of(bytes@));
    lossy(tail)
}

/// The end of what was printed so far.
pub open spec fn preview_of(stdout: Seq<u8>, stderr: Seq<u8>) -> Seq<char> {
    let out = if stdout.len() > 0 {
        lossy_text(tail_of(stdout))
    } else {
        seq![]
    };
    if stderr.len() == 0 {
        out
    } else if out.len() > 0 {
        out + "\n--- stderr (tail) ---\n"@ + lossy_text(tail_of(stderr))
    } else {
        lossy_text(tail_of(stderr))
    }
}

pub fn output_tail(stdout: &[u8], stderr: &[u8]) -> (s: String)
    ensures
        s@ == preview_of(stdout@, stderr@),
{
    let mut out = String::new();
    if stdout.len() > 0 {
        out = lossy_tail(stdout);
    }
    if stderr.len() > 0 {
        if !out.as_str().is_empty() {
            out.push_str("\n--- stderr (tail) ---\n");
            out.push_str(lossy_tail(stderr).as_str());
        } else {
            out = lossy_tail(stderr);
        }
    }
    out
}

/// The line as `str::lines` gives it: a carriage return before the line break belongs to it.
pub open spec fn line_at(pieces: Seq<Seq<char>>, i: int) -> Seq<char> {
    let piece = pieces[i];
    if i < pieces.len() - 1 && piece.len() > 0 && piece.last() == '\r' {
        piece.drop_last()
    } else {
        piece
    }
}

/// The last of the first `n` lines that is not blank.
pub open spec fn last_line(pieces: Seq<Seq<char>>, n: int) -> Seq<char>
    decreases n,
{
    if n <= 0 || n > pieces.len() {
        "等待输出"@
    } else if trimmed(line_at(pieces, n - 1)).len() > 0 {
        line_at(pieces, n - 1)
    } else {
        last_line(pieces, n - 1)
    }
}

fn find_last_line(text: &str) -> (s: String)
    ensures
        s@ == last_line(split_on(text@, '\n'), split_on(text@, '\n').len() as int),
{
    let pieces = split(text, '\n');
    let ghost all = pieces.deep_view();
    let len: usize = pieces.len();
    let mut n: usize = len;
    while n > 0
        invariant
            n <= len,
            len == pieces@.len(),
            all == pieces.deep_view(),
            all == split_on(text@, '\n'),
            last_line(all, all.len() as int) == last_line(all, n as int),
        decreases n,
    {
        let piece = pieces[n - 1].as_str();
        let chars: usize = piece.unicode_len();
        let line = if n < len && chars > 0 && piece.get_char(chars - 1) == '\r' {
            let cut = piece.substring_char(0, chars - 1);
            assert(cut@ =~= piece@.drop_last());
            cut
        } else {
            piece
        };
        assert(line@ == line_at(all, n - 1));
        if !trim(line).is_empty() {
            return line.to_owned();
        }
        n = n - 1;
    }
    "等待输出".to_owned()
}

/// The progress report of a run.
pub open spec fn progress_of(stdout: Seq<u8>, stderr: Seq<u8>, elapsed: u64) -> OutputView {
    let preview = preview_of(stdout, stderr);
    let pieces = split_on(preview, '\n');
    OutputView {
        model_text: preview,
        ui_summary: Some(
            "运行 "@ + tenths_text(tenths(elapsed as int, NANOS_PER_SEC as int)) + "s: "@ + end_cut(
                last_line(pieces, pieces.len() as int),
                160,
            ),
        ),
        details: Some(obj(nil()
            .push(("elapsed_ms"@, JsonView::Number((elapsed / NANOS_PER_MILLI) as int)))
            .push(("stdout_bytes"@, JsonView::Number(stdout.len() as int)))
            .push(("stderr_bytes"@, JsonView::Number(stderr.len() as int))))),
    }
}

pub fn command_progress(stdout: &[u8], stderr: &[u8], elapsed: u64) -> (o: ToolOutput)
    ensures
        o.deep_view() == progress_of(stdout@, stderr@, elapsed),
{
    let preview = output_tail(stdout, stderr);
    let last = find_last_line(preview.as_str());
    let mut summary = concat3("运行 ", one_decimal(elapsed, NANOS_PER_SEC).as_str(), "s: ");
    summary.push_str(ellipsis(last.as_str(), 160).as_str());
    ToolOutput {
        model_text: preview,
        ui_summary: Some(summary),
        details: Some(
            Fields::new().with("elapsed_ms", number(elapsed / NANOS_PER_MILLI)).with(
                "stdout_bytes",
                number(stdout.len() as u64),
            ).with("stderr_bytes", number(stderr.len() as u64)).done(),
        ),
    }
}

/// Progress is due: there is something new and the last report is old enough.
pub open spec fn progress_due(s: RunView, now: u64) -> bool {
    s.dirty && now - s.last_progress >= PROGRESS_INTERVAL_NANOS
}

/// What a look at the process means: an exit counts before a cancellation, and that before the time
/// limit.
pub open spec fn ending_at(s: RunView, now: u64, waited: Waited, cancelled: bool) -> Option<Ending> {
    match waited {
        Waited::Exited(code) => Some(Ending::Exited(code)),
        Waited::Failed(error) => Some(Ending::WaitFailed(error)),
        Waited::Running => if cancelled {
            Some(Ending::Cancelled)
        } else if now > s.timeout_secs * NANOS_PER_SEC {
            Some(Ending::TimedOut(s.timeout_secs))
        } else {
            None
        },
    }
}

impl CommandRun {
    pub fn new(timeout_secs: u64) -> (r: CommandRun)
        ensures
            r.deep_view() == (RunView {
                timeout_secs,
                stdout: seq![],
                stderr: seq![],
                last_progress: 0,
                dirty: false,
            }),
    {
        let r = CommandRun {
            timeout_secs,
            stdout: Vec::new(),
            stderr: Vec::new(),
            last_progress: 0,
            dirty: false,
        };
        assert(r.stdout@ =~= seq![]);
        assert(r.stderr@ =~= seq![]);
        r
    }

    /// Takes what the pipes brought.
    pub fn drain_pipe_chunks(&mut self, chunks: &Vec<PipeChunk>) -> (received: usize)
        ensures
            final(self).deep_view() == drained(old(self).deep_view(), chunks.deep_view()),
            received == chunks@.len(),
    {
        let ghost all = chunks.deep_view();
        let ghost start = self.deep_view();
        let mut i: usize = 0;
        assert(start.stdout + piped(all.take(0), Pipe::Stdout) =~= start.stdout);
        assert(start.stderr + piped(all.take(0), Pipe::Stderr) =~= start.stderr);
        while i < chunks.len()
            invariant
                i <= chunks@.len(),
                all == chunks.deep_view(),
                self.stdout@ == start.stdout + piped(all.take(i as int), Pipe::Stdout),
                self.stderr@ == start.stderr + piped(all.take(i as int), Pipe::Stderr),
                self.timeout_secs == start.timeout_secs,
                self.last_progress == start.last_progress,
                self.dirty == start.dirty,
            decreases chunks@.len() - i,
        {
            proof {
                crate::list::take_next(all, i as int);
            }
            match chunks[i].pipe {
                Pipe::Stdout => {
                    let ghost before = self.stdout@;
                    self.stdout.extend_from_slice(chunks[i].bytes.as_slice());
                    assert(self.stdout@ =~= before + chunks@[i as int].bytes@);
                },
                Pipe::Stderr => {
                    let ghost before = self.stderr@;
                    self.stderr.extend_from_slice(chunks[i].bytes.as_slice());
                    assert(self.stderr@ =~= before + chunks@[i as int].bytes@);
                },
            }
            assert(self.stdout@ =~= start.stdout + piped(all.take(i + 1), Pipe::Stdout));
            assert(self.stderr@ =~= start.stderr + piped(all.take(i + 1), Pipe::Stderr));
            i = i + 1;
        }
        proof {
            crate::list::take_all(all);
        }
        if chunks.len() > 0 {
            self.dirty = true;
        }
        chunks.len()
    }

    /// One look at the run, `now` nanoseconds after its start.
    pub fn tick(&mut self, chunks: &Vec<PipeChunk>, now: u64, waited: Waited, cancelled: bool) -> (t:
        Tick)
        requires
            old(self).last_progress <= now,
            old(self).timeout_secs <= MAX_TIMEOUT_SECS,
        ensures
            ({
                let s = drained(old(self).deep_view(), chunks.deep_view());
                let due = progress_due(s, now);
                &&& t.report.deep_view() == (if due {
                    Some(progress_of(s.stdout, s.stderr, now))
                } else {
                    None
                })
                &&& final(self).deep_view() == (if due {
                    RunView { dirty: false, last_progress: now, ..s }
                } else {
                    s
                })
                &&& t.ending == ending_at(s, now, waited, cancelled)
                &&& t.kill == (t.ending is Some && !(waited is Exited))
            }),
    {
        self.drain_pipe_chunks(chunks);
        let mut report = None;
        if self.dirty && now - self.last_progress >= PROGRESS_INTERVAL_NANOS {
            report = Some(
                command_progress(self.stdout.as_slice(), self.stderr.as_slice(), now),
            );
            self.dirty = false;
            self.last_progress = now;
        }
        match waited {
            Waited::Exited(code) => Tick { report, ending: Some(Ending::Exited(code)), kill: false },
            Waited::Failed(error) => Tick {
                report,
                ending: Some(Ending::WaitFailed(error)),
                kill: true,
            },
            Waited::Running => if cancelled {
                Tick { report, ending: Some(Ending::Cancelled), kill: true }
            } else if now > self.timeout_secs * NANOS_PER_SEC {
                Tick { report, ending: Some(Ending::TimedOut(self.timeout_secs)), kill: true }
            } else {
                Tick { report, ending: None, kill: false }
            },
        }
    }

    /// Takes what was still in the pipes when the process had ended.
    pub fn close(&mut self, chunks: &Vec<PipeChunk>, now: u64) -> (report: Option<ToolOutput>)
        ensures
            ({
                let s = drained(old(self).deep_view(), chunks.deep_view());
                &&& report.deep_view() == (if s.dirty {
                    Some(progress_of(s.stdout, s.stderr, now))
                } else {
                    None
                })
                &&& final(self).deep_view() == s
            }),
    {
        self.drain_pipe_chunks(chunks);
        if self.dirty {
            Some(command_progress(self.stdout.as_slice(), self.stderr.as_slice(), now))
        } else {
            None
        }
    }
}

// ---- The result ----

/// Everything that was printed, as it is shown.
pub open spec fn printed(stdout: Seq<u8>, stderr: Seq<u8>) -> Seq<char> {
    let o = lossy_text(stdout);
    let e = lossy_text(stderr);
    let has_out = trimmed(o).len() > 0;
    let has_err = trimmed(e).len() > 0;
    if has_out && has_err {
        o + "\n--- stderr ---\n"@ + e
    } else if has_out {
        o
    } else if has_err {
        e
    } else {
        "(无输出)"@
    }
}

fn print_output(stdout: &[u8], stderr: &[u8]) -> (s: String)
    ensures
        s@ == printed(stdout@, stderr@),
{
    let o = lossy(stdout);
    let e = lossy(stderr);
    let has_out = !trim(o.as_str()).is_empty();
    let has_err = !trim(e.as_str()).is_empty();
    if has_out && has_err {
        concat3(o.as_str(), "\n--- stderr ---\n", e.as_str())
    } else if has_out {
        o
    } else if has_err {
        e
    } else {
        "(无输出)".to_owned()
    }
}

pub open spec fn code_value(code: Option<i32>) -> JsonView {
    match code {
        Some(n) => JsonView::Number(n as int),
        None => JsonView::Null,
    }
}

/// The result of a run that ended.
pub open spec fn result_of(
    ending: Ending,
    command: Seq<char>,
    cwd: Seq<char>,
    out: Seq<char>,
    elapsed: u64,
) -> Result<OutputView, ErrorView> {
    let with_command = obj(nil().push(("command"@, JsonView::Str(command))));
    match ending {
        Ending::Exited(code) => if code == Some(0i32) {
            Ok(
                OutputView {
                    model_text: out,
                    ui_summary: Some("命令执行成功"@),
                    details: Some(obj(nil()
                        .push(("command"@, JsonView::Str(command)))
                        .push(("cwd"@, JsonView::Str(cwd)))
                        .push(("exit_code"@, JsonView::Number(0)))
                        .push(("elapsed_ms"@, JsonView::Number((elapsed / NANOS_PER_MILLI) as int))))),
                },
            )
        } else {
            Err(
                ErrorView {
                    code: ToolErrorCode::ProcessExit,
                    message: "命令退出码 "@ + (match code {
                        Some(n) => signed(n as int),
                        None => "未知"@,
                    }) + "\n"@ + out,
                    retryable: false,
                    details: Some(obj(nil()
                        .push(("exit_code"@, code_value(code)))
                        .push(("command"@, JsonView::Str(command))))),
                },
            )
        },
        Ending::TimedOut(secs) => Err(
            ErrorView {
                code: ToolErrorCode::Timeout,
                message: "命令超时("@ + dec(secs as nat) + "s),进程树已终止\n"@ + out,
                retryable: false,
                details: Some(obj(nil()
                    .push(("timeout_secs"@, JsonView::Number(secs as int)))
                    .push(("command"@, JsonView::Str(command))))),
            },
        ),
        Ending::Cancelled => Err(
            ErrorView {
                code: ToolErrorCode::Aborted,
                message: "命令被用户取消,进程树已终止\n"@ + out,
                retryable: false,
                details: Some(with_command),
            },
        ),
        Ending::WaitFailed(error) => Err(
            ErrorView {
                code: ToolErrorCode::ExecutionFailed,
                message: "等待进程失败: "@ + error@ + "\n"@ + out,
                retryable: false,
                details: Some(with_command),
            },
        ),
    }
}

impl RunCommand {
    pub fn new(shell: Shell) -> (r: RunCommand)
        ensures
            r.shell == shell,
    {
        RunCommand { shell }
    }

    pub open spec fn declaration(shell: Shell) -> ToolSpecView {
        ToolSpecView {
            name: "run_command"@,
            description: "执行一条 shell 命令并返回 stdout/stderr 与退出码。"@ + shell.hint_text()
                + "。命令必须是非交互式的(stdin 已接 null,任何等待输入的命令会得到 EOF);默认超时 "@ + dec(
                DEFAULT_TIMEOUT_SECS as nat,
            ) + "s,可用 timeout_secs 调整(上限 "@ + dec(MAX_TIMEOUT_SECS as nat)
                + "s);cwd 可指定工作目录(默认为项目根目录,且每次调用互相独立、不保留 cd 状态)。"@,
            schema: closed_schema(
                obj(nil()
                    .push(("command"@, text_schema(Some(1), "要执行的命令"@)))
                    .push(("cwd"@, text_schema(None, "工作目录,默认项目根目录"@)))
                    .push(("timeout_secs"@, integer_schema(Some(600), "超时秒数,默认 120"@)))),
                seq!["command"@],
            ),
            capabilities: ToolCapabilities::changing(),
            permission: PermissionSpecView { path_arguments: seq!["cwd"@], always_ask: true },
        }
    }

    pub fn spec(&self) -> (s: ToolSpec)
        ensures
            s.deep_view() == RunCommand::declaration(self.shell),
    {
        let command = ["command"];
        let cwd = ["cwd"];
        let mut description = concat3(
            "执行一条 shell 命令并返回 stdout/stderr 与退出码。",
            self.shell.syntax_hint(),
            "。命令必须是非交互式的(stdin 已接 null,任何等待输入的命令会得到 EOF);默认超时 ",
        );
        description.push_str(decimal(DEFAULT_TIMEOUT_SECS).as_str());
        description.push_str("s,可用 timeout_secs 调整(上限 ");
        description.push_str(decimal(MAX_TIMEOUT_SECS).as_str());
        description.push_str(
            "s);cwd 可指定工作目录(默认为项目根目录,且每次调用互相独立、不保留 cd 状态)。",
        );
        let s = ToolSpec {
            name: "run_command".to_owned(),
            description,
            schema: closed_arguments(
                Fields::new().with("command", text_argument(Some(1), "要执行的命令")).with(
                    "cwd",
                    text_argument(None, "工作目录,默认项目根目录"),
                ).with("timeout_secs", integer_argument(Some(600), "超时秒数,默认 120")).done(),
                &command,
            ),
            capabilities: ToolCapabilities::command(),
            permission: ToolPermissionSpec::opaque_side_effect(&cwd),
        };
        assert(command.deep_view() =~= seq!["command"@]);
        assert(s.permission.deep_view().path_arguments =~= seq!["cwd"@]);
        s
    }

    /// Reads the request out of the arguments.
    pub fn request(&self, args: &Json, workspace: &Workspace) -> (r: Result<
        CommandRequest,
        ToolError,
    >)
        ensures
            match lookup(args@, "command"@) {
                Some(JsonView::Str(command)) => match or_default(
                    lookup(args@, "timeout_secs"@),
                    DEFAULT_TIMEOUT_SECS,
                ) {
                    Some(secs) => {
                        &&& r is Ok
                        &&& r->Ok_0.command@ == command
                        &&& r->Ok_0.timeout_secs == clamped(secs, 1, MAX_TIMEOUT_SECS)
                        &&& r->Ok_0.cwd.deep_view() == (match lookup(args@, "cwd"@) {
                            Some(JsonView::Str(cwd)) => Some(
                                path_text(
                                    style_of(workspace@),
                                    Workspace::resolved(workspace@, cwd),
                                ),
                            ),
                            _ => None,
                        })
                    },
                    None => r is Err && r->Err_0.deep_view() == bad_number_argument(
                        "timeout_secs"@,
                    ),
                },
                _ => r is Err && r->Err_0.deep_view() == missing_text_argument("command"@),
            },
    {
        let command = match require_str(args, "command") {
            Ok(command) => command.to_owned(),
            Err(error) => {
                return Err(error);
            },
        };
        let secs: u64 = match optional_u64(args, "timeout_secs") {
            Ok(secs) => secs.unwrap_or(DEFAULT_TIMEOUT_SECS),
            Err(error) => {
                return Err(error);
            },
        };
        let cwd = match args.get("cwd") {
            Some(value) => match value.as_str() {
                Some(given) => Some(workspace.resolve(given)),
                None => None,
            },
            None => None,
        };
        Ok(CommandRequest { command, timeout_secs: clamp(secs, 1, MAX_TIMEOUT_SECS), cwd })
    }

    /// The error for a directory that is none.
    pub fn cwd_error(&self, cwd: &str) -> (e: ToolError)
        ensures
            e.deep_view() == plain_error(
                ToolErrorCode::NotDirectory,
                "cwd "@ + cwd@ + " 不是目录"@,
            ),
    {
        ToolError::new(ToolErrorCode::NotDirectory, concat3("cwd ", cwd, " 不是目录"))
    }

    /// The error for a process that did not start.
    pub fn spawn_error(&self, error: &str) -> (e: ToolError)
        ensures
            e.deep_view() == plain_error(
                ToolErrorCode::ExecutionFailed,
                "启动 "@ + self.shell.label_text() + " 失败: "@ + error@,
            ),
    {
        let mut message = concat3("启动 ", self.shell.label(), " 失败: ");
        message.push_str(error);
        ToolError::execution(message)
    }

    /// The result of a run that ended; `pipes` is the first error of reading its output, if any.
    pub fn conclude(
        &self,
        run: &CommandRun,
        ending: Ending,
        pipes: Option<String>,
        command: &str,
        cwd: &str,
        elapsed: u64,
    ) -> (r: Result<ToolOutput, ToolError>)
        ensures
            super::result_view(r) == (match pipes {
                Some(error) => Err(plain_error(ToolErrorCode::Io, error@)),
                None => result_of(
                    ending,
                    command@,
                    cwd@,
                    printed(run.stdout@, run.stderr@),
                    elapsed,
                ),
            }),
    {
        if let Some(error) = pipes {
            return Err(ToolError::io(error));
        }
        let out = print_output(run.stdout.as_slice(), run.stderr.as_slice());
        match ending {
            Ending::Exited(code) => {
                let number_text = match code {
                    Some(n) => {
                        if n == 0 {
                            return Ok(
                                ToolOutput {
                                    model_text: out,
                                    ui_summary: Some("命令执行成功".to_owned()),
                                    details: Some(
                                        Fields::new().with("command", text(command)).with(
                                            "cwd",
                                            text(cwd),
                                        ).with("exit_code", number(0)).with(
                                            "elapsed_ms",
                                            number(elapsed / NANOS_PER_MILLI),
                                        ).done(),
                                    ),
                                },
                            );
                        }
                        signed_decimal(n)
                    },
                    None => "未知".to_owned(),
                };
                let code = match code {
                    Some(n) => Json::Int(n as i64),
                    None => Json::Null,
                };
                let mut message = concat3("命令退出码 ", number_text.as_str(), "\n");
                message.push_str(out.as_str());
                Err(
                    ToolError {
                        code: ToolErrorCode::ProcessExit,
                        message,
                        retryable: false,
                        details: Some(
                            Fields::new().with("exit_code", code).with(
                                "command",
                                text(command),
                            ).done(),
                        ),
                    },
                )
            },
            Ending::TimedOut(secs) => Err(
                ToolError {
                    code: ToolErrorCode::Timeout,
                    message: concat2(
                        concat3("命令超时(", decimal(secs).as_str(), "s),进程树已终止\n").as_str(),
                        out.as_str(),
                    ),
                    retryable: false,
                    details: Some(
                        Fields::new().with("timeout_secs", number(secs)).with(
                            "command",
                            text(command),
                        ).done(),
                    ),
                },
            ),
            Ending::Cancelled => Err(
                ToolError {
                    code: ToolErrorCode::Aborted,
                    message: concat2("命令被用户取消,进程树已终止\n", out.as_str()),
                    retryable: false,
                    details: Some(Fields::new().with("command", text(command)).done()),
                },
            ),
            Ending::WaitFailed(error) => Err(
                ToolError {
                    code: ToolErrorCode::ExecutionFailed,
                    message: concat2(
                        concat3("等待进程失败: ", error.as_str(), "\n").as_str(),
                        out.as_str(),
                    ),
                    retryable: false,
                    details: Some(Fields::new().with("command", text(command)).done()),
                },
            ),
        }
    }
}

/// A process that still runs when its run ends is always killed, and one that exited never is.
pub proof fn law_only_running_processes_are_killed(
    s: RunView,
    now: u64,
    waited: Waited,
    cancelled: bool,
)
    ensures
        ending_at(s, now, waited, cancelled) is Some && !(waited is Exited) <==> waited is Failed || (
        waited is Running && (cancelled || now > s.timeout_secs * NANOS_PER_SEC)),
{
}

} // verus!
