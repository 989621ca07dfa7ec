//! What keys do.
use vstd::prelude::*;

use crate::event::{AgentCommand, CommandView};
use crate::list::{empty, put, take_all, take_next};
use crate::permission::{
    ApprovalDecision, ApprovalRequest, ApprovalResponse, ApprovalScope, ApprovalView, ResponseView,
};
use crate::text::{chars_of, concat3, is_white, same, stands_at, trim, trimmed, white};
use crate::time::Duration;
use crate::tui::app::{App, AppView, OutView, Output, Overlay, OverlayView, PickerKind};
use crate::tui::command::{
    all_commands, command_named, find, matching, CommandInfo, CommandSpec, SlashCommand,
};
use crate::tui::input::{
    at_place, continues, deleted, erased, input_of, left_of, line_end, line_end_bounds, line_start, no_input, pasted,
    right_of, typed, vertical, without_line_rest, without_word, word_left, word_right, InputBox,
    InputState,
};
use crate::tui::picker::{
    chosen, moved, narrowed, opened, step_in_circle, stepped, widened, ItemInfo, Picker, PickerItem,
    PickerState,
};
use crate::tui::transcript::CellView;

verus! {

#[derive(Debug, Clone, Copy, PartialEq, Eq, Structural)]
pub enum Key {
    Char(char),
    Enter,
    Esc,
    Tab,
    BackTab,
    Backspace,
    Delete,
    Left,
    Right,
    Up,
    Down,
    Home,
    End,
    PageUp,
    PageDown,
    Other,
}

/// The keys that are held down meanwhile.
#[derive(Debug, Clone, Copy, PartialEq, Eq, Structural)]
pub struct Held {
    pub shift: bool,
    pub alt: bool,
    pub control: bool,
}

/// The list of commands that the program offers.
pub open spec fn help_text() -> Seq<char> {
    "斜杠命令\n  /model             选择或输入模型\n  /provider          选择 provider(对话历史保留)\n  /session [ID]      列出或恢复历史会话\n  /compact           压缩历史(摘要替代模型视图,事实保留)\n  /queue <内容>      排队后续任务(当前任务结束后执行)\n  /clear             清空会话\n  /quit              退出\n\n运行中输入并回车 = steering:在当前一批工具完成后注入,修正方向;Esc 取消当前轮\n编辑: Ctrl+A/E 行首/行尾 · Ctrl+W 删前一词 · Ctrl+K 删到行尾 · Alt+←/→ 按词移动\n操作: ↑/↓ 浏览候选或历史 · Tab 补全 · Esc 关闭/取消 · 滚轮浏览终端历史 · 鼠标拖动选择文本"@
}

// ---- The list of commands that opens while one is typed ----

/// Whether a text holds white space.
pub open spec fn has_white(text: Seq<char>) -> bool {
    exists|i: int| 0 <= i < text.len() && is_white(#[trigger] text[i])
}

/// The name that is being typed, if the first line is the beginning of a command and the cursor is
/// in it.
pub open spec fn slash_query(app: AppView) -> Option<Seq<char>> {
    let text = app.input.text;
    if app.slash_dismissed == Some(text) || text.len() == 0 || text[0] != '/' {
        None
    } else {
        let end = line_end(text, 0);
        let first = text.take(end);
        if app.input.cursor > end || has_white(first) {
            None
        } else {
            Some(first.skip(1))
        }
    }
}

pub open spec fn slash_list(app: AppView) -> Seq<CommandInfo> {
    match slash_query(app) {
        Some(query) => matching(all_commands(), query),
        None => seq![],
    }
}

/// The command of the list that is chosen.
pub open spec fn slash_chosen(app: AppView) -> Option<CommandInfo> {
    let list = slash_list(app);
    if list.len() == 0 {
        None
    } else if app.slash_selected < list.len() {
        Some(list[app.slash_selected as int])
    } else {
        Some(list.last())
    }
}

/// The input has changed.
pub open spec fn changed(app: AppView, input: InputState) -> AppView {
    AppView { input, slash_selected: 0, slash_dismissed: None, history_idx: None, ..app }
}

pub open spec fn slash_moved(app: AppView, down: bool) -> AppView {
    let n = slash_list(app).len();
    if n == 0 {
        app
    } else {
        AppView { slash_selected: stepped(app.slash_selected, n, down), ..app }
    }
}

pub open spec fn slash_completed(app: AppView) -> AppView {
    match slash_chosen(app) {
        Some(info) => {
            let text = "/"@ + info.name + (if info.accepts_args {
                " "@
            } else {
                ""@
            });
            AppView {
                input: input_of(text),
                slash_selected: 0,
                slash_dismissed: if info.accepts_args {
                    Some(text)
                } else {
                    None
                },
                ..app
            }
        },
        None => app,
    }
}

pub open spec fn slash_run(app: AppView) -> AppView {
    match slash_chosen(app) {
        Some(info) => executed(
            AppView { input: no_input(), slash_dismissed: None, ..app },
            info.command,
            seq![],
        ),
        None => app,
    }
}

// ---- Commands ----

pub open spec fn sends(app: AppView, command: CommandView) -> AppView {
    AppView { out: app.out.push(OutView::Command(command)), ..app }
}

pub open spec fn cancels(app: AppView) -> AppView {
    AppView { out: app.out.push(OutView::Cancel), ..app }
}

pub open spec fn quits(app: AppView) -> AppView {
    AppView { should_quit: true, ..sends(cancels(app), CommandView::Shutdown) }
}

pub open spec fn notes(app: AppView, text: Seq<char>) -> AppView {
    AppView { cells: app.cells.push(CellView::Notice(text)), ..app }
}

pub open spec fn complains(app: AppView, text: Seq<char>) -> AppView {
    AppView { cells: app.cells.push(CellView::Error(text)), ..app }
}

/// The first place at or after `i` where `part` stands.
pub open spec fn first_from(text: Seq<char>, part: Seq<char>, i: int) -> Option<int>
    decreases text.len() - i,
{
    if i + part.len() > text.len() {
        None
    } else if stands_at(text, part, i) {
        Some(i)
    } else if i >= text.len() {
        None
    } else {
        first_from(text, part, i + 1)
    }
}

/// The provider in a label such as `openai / gpt-5`.
pub open spec fn provider_in(label: Seq<char>) -> Seq<char> {
    match first_from(label, " / "@, 0) {
        Some(i) => label.take(i),
        None => label,
    }
}

/// The model in a label.
pub open spec fn model_in(label: Seq<char>) -> Seq<char> {
    match first_from(label, " / "@, 0) {
        Some(i) => provider_in(label.skip(i + 3)),
        None => seq![],
    }
}

pub open spec fn provider_item(name: Seq<char>, current: Seq<char>) -> ItemInfo {
    ItemInfo {
        label: name,
        description: if name == current {
            "当前 provider"@
        } else {
            "config.toml 中的 profile"@
        },
        value: Some(name),
        current: name == current,
    }
}

pub open spec fn provider_items(names: Seq<Seq<char>>, current: Seq<char>) -> Seq<ItemInfo> {
    Seq::new(names.len(), |i: int| provider_item(names[i], current))
}

pub open spec fn model_item(name: Seq<char>, current: Seq<char>) -> ItemInfo {
    ItemInfo {
        label: name,
        description: if name == current {
            "当前模型"@
        } else {
            "来自 config.toml"@
        },
        value: Some(name),
        current: name == current,
    }
}

/// The models that are offered: the current one is always among them.
pub open spec fn offered_models(names: Seq<Seq<char>>, current: Seq<char>) -> Seq<Seq<char>> {
    if current.len() > 0 && !names.contains(current) {
        seq![current] + names
    } else {
        names
    }
}

pub open spec fn model_items(names: Seq<Seq<char>>, current: Seq<char>) -> Seq<ItemInfo> {
    let models = offered_models(names, current);
    Seq::new(models.len(), |i: int| model_item(models[i], current)).push(
        ItemInfo {
            label: "自定义模型…"@,
            description: "输入服务端支持的模型名称"@,
            value: None,
            current: false,
        },
    )
}

pub open spec fn provider_picker(app: AppView) -> AppView {
    AppView {
        overlay: Some(
            OverlayView::Picker {
                kind: PickerKind::Provider,
                picker: opened(
                    "选择 provider"@,
                    provider_items(app.provider_names, provider_in(app.provider_label)),
                ),
            },
        ),
        ..app
    }
}

pub open spec fn model_picker(app: AppView) -> AppView {
    AppView {
        overlay: Some(
            OverlayView::Picker {
                kind: PickerKind::Model,
                picker: opened(
                    "选择模型"@,
                    model_items(app.model_names, model_in(app.provider_label)),
                ),
            },
        ),
        ..app
    }
}

/// A command with what stands behind it.
pub open spec fn executed(app: AppView, command: SlashCommand, rest: Seq<char>) -> AppView {
    match command {
        SlashCommand::Help => notes(app, help_text()),
        SlashCommand::Quit => quits(app),
        SlashCommand::Clear => sends(app, CommandView::ClearConversation),
        SlashCommand::Compact => sends(app, CommandView::Compact),
        SlashCommand::Queue => if rest.len() == 0 {
            complains(app, "/queue 需要内容,例如 /queue 跑一遍测试"@)
        } else {
            sends(
                notes(app, "已排队为后续任务,当前任务结束后执行"@),
                CommandView::FollowUp(rest),
            )
        },
        SlashCommand::Session => if rest.len() == 0 {
            sends(
                AppView {
                    overlay: Some(
                        OverlayView::Loading {
                            kind: PickerKind::Session,
                            title: "正在读取会话…"@,
                        },
                    ),
                    ..app
                },
                CommandView::ListSessions,
            )
        } else {
            sends(app, CommandView::LoadSession(rest))
        },
        SlashCommand::Provider => if rest.len() == 0 {
            provider_picker(app)
        } else {
            sends(app, CommandView::SwitchProvider(rest))
        },
        SlashCommand::Model => if rest.len() == 0 {
            model_picker(app)
        } else {
            sends(app, CommandView::SetModel(rest))
        },
    }
}

/// Where the first white space stands, or the end.
pub open spec fn first_white(text: Seq<char>, i: int) -> int
    decreases text.len() - i,
{
    if i >= text.len() || is_white(text[i]) {
        i
    } else {
        first_white(text, i + 1)
    }
}

/// A line that was typed behind a slash.
pub open spec fn slash_handled(app: AppView, line: Seq<char>) -> AppView {
    let end = first_white(line, 0);
    let head = line.take(end);
    let rest = if end < line.len() {
        trimmed(line.skip(end + 1))
    } else {
        seq![]
    };
    match command_named(head) {
        Some(command) => executed(app, command, rest),
        None => complains(app, "未知命令 /"@ + head + ",输入 / 查看可用命令"@),
    }
}

/// The input is sent.
pub open spec fn submitted(app: AppView) -> AppView {
    let text = trimmed(app.input.text);
    let after = AppView { input: no_input(), ..app };
    if text.len() == 0 {
        after
    } else if text[0] == '/' {
        slash_handled(after, trimmed(text.skip(1)))
    } else {
        let kept = AppView { history: app.history.push(text), history_idx: None, ..after };
        if app.busy {
            sends(
                notes(
                    kept,
                    "已排队为 steering,将在当前一批工具完成后注入(Esc 取消本轮)"@,
                ),
                CommandView::Steer(text),
            )
        } else {
            sends(AppView { scroll_up: 0, ..kept }, CommandView::UserInput(text))
        }
    }
}

// ---- Earlier inputs ----

pub open spec fn earlier(app: AppView) -> AppView {
    if app.history.len() == 0 {
        app
    } else {
        let (idx, draft) = match app.history_idx {
            None => ((app.history.len() - 1) as usize, app.input.text),
            Some(0) => (0usize, app.history_draft),
            Some(i) => ((i - 1) as usize, app.history_draft),
        };
        if idx < app.history.len() {
            AppView {
                history_idx: Some(idx),
                history_draft: draft,
                input: input_of(app.history[idx as int]),
                ..app
            }
        } else {
            app
        }
    }
}

pub open spec fn later(app: AppView) -> AppView {
    match app.history_idx {
        None => app,
        Some(idx) => if idx + 1 < app.history.len() {
            AppView {
                history_idx: Some((idx + 1) as usize),
                input: input_of(app.history[idx + 1]),
                ..app
            }
        } else {
            AppView {
                history_idx: None,
                history_draft: seq![],
                input: input_of(app.history_draft),
                ..app
            }
        },
    }
}

// ---- Keys while something lies over the input ----

pub open spec fn closed(app: AppView) -> AppView {
    AppView { overlay: None, ..app }
}

pub open spec fn answers(app: AppView, request_id: Seq<char>, decision: ApprovalDecision) -> AppView {
    closed(
        AppView {
            out: app.out.push(OutView::Approval(ResponseView { request_id, decision })),
            ..app
        },
    )
}

pub open spec fn accepted(app: AppView, kind: PickerKind, picker: PickerState) -> AppView {
    match chosen(picker) {
        None => app,
        Some(item) => match (kind, item.value) {
            (PickerKind::Provider, Some(name)) => closed(
                sends(app, CommandView::SwitchProvider(name)),
            ),
            (PickerKind::Model, Some(model)) => closed(sends(app, CommandView::SetModel(model))),
            (PickerKind::Model, None) => AppView {
                overlay: Some(OverlayView::ModelInput(no_input())),
                ..app
            },
            (PickerKind::Session, Some(id)) => closed(sends(app, CommandView::LoadSession(id))),
            _ => app,
        },
    }
}

pub open spec fn picker_key(app: AppView, kind: PickerKind, picker: PickerState, key: Key, held: Held) -> AppView {
    let with = |p: PickerState| AppView {
        overlay: Some(OverlayView::Picker { kind, picker: p }),
        ..app
    };
    match key {
        Key::Esc => closed(app),
        Key::Up => with(moved(picker, false)),
        Key::BackTab => with(moved(picker, false)),
        Key::Down => with(moved(picker, true)),
        Key::Tab => with(moved(picker, true)),
        Key::Enter => accepted(app, kind, picker),
        Key::Backspace => with(widened(picker)),
        Key::Char(c) => if held.control {
            if c == 'c' {
                closed(app)
            } else {
                app
            }
        } else {
            with(narrowed(picker, c))
        },
        _ => app,
    }
}

/// The keys that edit a line; nothing for the others.
pub open spec fn edited(s: InputState, key: Key, held: Held) -> Option<InputState> {
    match key {
        Key::Backspace => Some(erased(s)),
        Key::Delete => Some(deleted(s)),
        Key::Left => Some(
            if held.alt || held.control {
                at_place(s, word_left(s.text, s.cursor))
            } else {
                left_of(s)
            },
        ),
        Key::Right => Some(
            if held.alt || held.control {
                at_place(s, word_right(s.text, s.cursor))
            } else {
                right_of(s)
            },
        ),
        Key::Home => Some(at_place(s, line_start(s.text, s.cursor))),
        Key::End => Some(at_place(s, line_end(s.text, s.cursor))),
        Key::Char(c) => if held.control {
            if c == 'a' {
                Some(at_place(s, 0))
            } else if c == 'e' {
                Some(input_of(s.text))
            } else if c == 'w' {
                Some(without_word(s))
            } else if c == 'u' {
                Some(no_input())
            } else {
                None
            }
        } else {
            Some(typed(s, c))
        },
        _ => None,
    }
}

pub open spec fn model_key(app: AppView, input: InputState, key: Key, held: Held) -> AppView {
    match key {
        Key::Esc => closed(app),
        Key::Enter => {
            let model = trimmed(input.text);
            if model.len() > 0 {
                closed(sends(app, CommandView::SetModel(model)))
            } else {
                AppView { overlay: Some(OverlayView::ModelInput(no_input())), ..app }
            }
        },
        _ => match edited(input, key, held) {
            Some(after) => AppView { overlay: Some(OverlayView::ModelInput(after)), ..app },
            None => app,
        },
    }
}

pub open spec fn approval_key(app: AppView, request: ApprovalView, key: Key, held: Held) -> AppView {
    if (key is Enter || key == Key::Char('y')) && request.scopes.contains(ApprovalScope::Once) {
        answers(app, request.request_id, ApprovalDecision::Allow(ApprovalScope::Once))
    } else if key == Key::Char('a') && request.scopes.contains(ApprovalScope::Session) {
        answers(app, request.request_id, ApprovalDecision::Allow(ApprovalScope::Session))
    } else if key is Esc || key == Key::Char('n') || (key == Key::Char('c') && held.control) {
        answers(app, request.request_id, ApprovalDecision::Deny)
    } else {
        app
    }
}

pub open spec fn overlay_key(app: AppView, overlay: OverlayView, key: Key, held: Held) -> AppView {
    match overlay {
        OverlayView::Picker { kind, picker } => picker_key(app, kind, picker, key, held),
        OverlayView::ModelInput(input) => model_key(app, input, key, held),
        OverlayView::Loading { .. } => if key is Esc || (key == Key::Char('c') && held.control) {
            closed(app)
        } else {
            app
        },
        OverlayView::Approval(request) => approval_key(app, request, key, held),
    }
}

// ---- Keys otherwise ----

/// Whether the key that leaves was pressed within the last two seconds.
pub open spec fn armed(app: AppView, now: Duration) -> bool {
    app.quit_armed_at is Some && now.nanos <= app.quit_armed_at->0.nanos + 2_000_000_000
}

/// The key that leaves: what is typed goes first; pressed again within two seconds, it leaves.
pub open spec fn ctrl_c(app: AppView, now: Duration) -> AppView {
    if armed(app, now) {
        quits(app)
    } else if app.input.text.len() > 0 {
        AppView { input: no_input(), quit_armed_at: Some(now), ..app }
    } else {
        AppView {
            quit_armed_at: Some(now),
            ..(if app.busy {
                cancels(app)
            } else {
                app
            })
        }
    }
}

/// Half of the lines that are shown.
pub open spec fn page(app: AppView) -> int {
    if app.last_transcript_height == 0 {
        0
    } else {
        app.last_transcript_height as int / 2
    }
}

pub open spec fn escaped(app: AppView) -> AppView {
    if slash_list(app).len() > 0 {
        AppView { slash_dismissed: Some(app.input.text), ..app }
    } else if app.busy {
        AppView { status_note: "取消中…"@, ..cancels(app) }
    } else if app.scroll_up > 0 {
        AppView { scroll_up: 0, ..app }
    } else {
        changed(app, no_input())
    }
}

/// Enter: it runs the chosen command, breaks the line or sends. `pasting` says whether more text
/// follows at once, as when something is pasted.
pub open spec fn entered(app: AppView, held: Held, pasting: bool) -> AppView {
    if slash_list(app).len() > 0 {
        slash_run(app)
    } else if held.shift || held.alt || held.control {
        changed(app, typed(app.input, '\n'))
    } else if continues(app.input) {
        changed(app, typed(erased(app.input), '\n'))
    } else if pasting {
        changed(app, typed(app.input, '\n'))
    } else {
        submitted(app)
    }
}

pub open spec fn char_key(app: AppView, c: char, held: Held, now: Duration) -> AppView {
    if !held.control {
        changed(app, typed(app.input, c))
    } else if c == 'c' {
        ctrl_c(app, now)
    } else if c == 'l' {
        AppView { force_clear: true, ..app }
    } else if c == 'a' {
        AppView { input: at_place(app.input, 0), ..app }
    } else if c == 'e' {
        AppView { input: input_of(app.input.text), ..app }
    } else if c == 'w' {
        changed(app, without_word(app.input))
    } else if c == 'k' {
        changed(app, without_line_rest(app.input))
    } else if c == 'u' {
        changed(app, no_input())
    } else {
        app
    }
}

/// What a key does.
pub open spec fn key_taken(app: AppView, key: Key, held: Held, pasting: bool, now: Duration) -> AppView {
    match app.overlay {
        Some(overlay) => if key == Key::Char('c') && held.control {
            if armed(app, now) {
                quits(app)
            } else {
                overlay_key(AppView { quit_armed_at: Some(now), ..app }, overlay, key, held)
            }
        } else {
            overlay_key(app, overlay, key, held)
        },
        None => {
            let listing = slash_list(app).len() > 0;
            match key {
                Key::Char(c) => char_key(app, c, held, now),
                Key::Tab => if listing {
                    slash_completed(app)
                } else {
                    changed(app, pasted(app.input, "    "@))
                },
                Key::BackTab => if listing {
                    slash_moved(app, false)
                } else {
                    app
                },
                Key::Enter => entered(app, held, pasting),
                Key::Backspace => changed(app, erased(app.input)),
                Key::Delete => changed(app, deleted(app.input)),
                Key::Up => if listing {
                    slash_moved(app, false)
                } else if app.input.text.contains('\n') {
                    AppView { input: at_place(app.input, vertical(app.input, true)), ..app }
                } else {
                    earlier(app)
                },
                Key::Down => if listing {
                    slash_moved(app, true)
                } else if app.input.text.contains('\n') {
                    AppView { input: at_place(app.input, vertical(app.input, false)), ..app }
                } else {
                    later(app)
                },
                Key::PageUp => AppView {
                    scroll_up: if app.scroll_up + page(app) <= usize::MAX {
                        (app.scroll_up + page(app)) as usize
                    } else {
                        usize::MAX
                    },
                    ..app
                },
                Key::PageDown => AppView {
                    scroll_up: if app.scroll_up >= page(app) {
                        (app.scroll_up - page(app)) as usize
                    } else {
                        0
                    },
                    ..app
                },
                Key::Esc => escaped(app),
                _ => match edited(app.input, key, held) {
                    Some(input) => AppView { input, ..app },
                    None => app,
                },
            }
        },
    }
}

/// What pasting a text does.
pub open spec fn narrowed_by(p: PickerState, text: Seq<char>) -> PickerState
    decreases text.len(),
{
    if text.len() == 0 {
        p
    } else {
        narrowed(narrowed_by(p, text.drop_last()), text.last())
    }
}

pub open spec fn paste_taken(app: AppView, text: Seq<char>) -> AppView {
    match app.overlay {
        None => changed(app, pasted(app.input, text)),
        Some(OverlayView::ModelInput(input)) => AppView {
            overlay: Some(OverlayView::ModelInput(pasted(input, text))),
            ..app
        },
        Some(OverlayView::Picker { kind, picker }) => AppView {
            overlay: Some(OverlayView::Picker { kind, picker: narrowed_by(picker, text) }),
            ..app
        },
        _ => app,
    }
}

// ---- Running it ----

fn any_white(text: &str) -> (r: bool)
    ensures
        r == has_white(text@),
{
    let chars = chars_of(text);
    let mut i: usize = 0;
    while i < chars.len()
        invariant
            i <= chars@.len(),
            chars@ == text@,
            forall|k: int| 0 <= k < i ==> !is_white(#[trigger] text@[k]),
        decreases chars@.len() - i,
    {
        if white(chars[i]) {
            assert(is_white(text@[i as int]));
            return true;
        }
        i = i + 1;
    }
    false
}

fn end_of_first_line(chars: &Vec<char>) -> (r: usize)
    ensures
        r == line_end(chars@, 0),
        r <= chars@.len(),
{
    let mut r: usize = 0;
    while r < chars.len() && chars[r] != '\n'
        invariant
            r <= chars@.len(),
            line_end(chars@, 0) == line_end(chars@, r as int),
        decreases chars@.len() - r,
    {
        r = r + 1;
    }
    r
}

fn find_part(text: &str, part: &str) -> (r: Option<usize>)
    ensures
        match r {
            Some(i) => first_from(text@, part@, 0) == Some(i as int) && stands_at(
                text@,
                part@,
                i as int,
            ),
            None => first_from(text@, part@, 0) is None,
        },
{
    let n: usize = text.unicode_len();
    let m: usize = part.unicode_len();
    let mut i: usize = 0;
    loop
        invariant
            i <= n,
            n == text@.len(),
            m == part@.len(),
            first_from(text@, part@, 0) == first_from(text@, part@, i as int),
        decreases n - i,
    {
        if m > n - i {
            return None;
        }
        if same(text.substring_char(i, i + m), part) {
            return Some(i);
        }
        if i >= n {
            return None;
        }
        i = i + 1;
    }
}

fn provider_of(label: &str) -> (s: &str)
    ensures
        s@ == provider_in(label@),
{
    match find_part(label, " / ") {
        Some(i) => {
            let s = label.substring_char(0, i);
            assert(s@ =~= label@.take(i as int));
            s
        },
        None => label,
    }
}

fn model_of(label: &str) -> (s: &str)
    ensures
        s@ == model_in(label@),
{
    match find_part(label, " / ") {
        Some(i) => {
            proof {
                reveal_strlit(" / ");
                assert(" / "@.len() == 3);
            }
            let n: usize = label.unicode_len();
            let rest = label.substring_char(i + 3, n);
            assert(rest@ =~= label@.skip(i + 3));
            provider_of(rest)
        },
        None => {
            proof {
                reveal_strlit("");
                assert(""@ =~= seq![]);
            }
            ""
        },
    }
}

fn list_providers(names: &Vec<String>, current: &str) -> (out: Vec<PickerItem>)
    ensures
        out.deep_view() == provider_items(names.deep_view(), current@),
{
    let ghost goal = provider_items(names.deep_view(), current@);
    let mut out: Vec<PickerItem> = empty();
    let mut i: usize = 0;
    while i < names.len()
        invariant
            i <= names@.len(),
            goal == provider_items(names.deep_view(), current@),
            out.deep_view() == goal.take(i as int),
        decreases names@.len() - i,
    {
        proof {
            take_next(goal, i as int);
        }
        let is_current = same(names[i].as_str(), current);
        put(
            &mut out,
            PickerItem {
                label: names[i].clone(),
                description: if is_current {
                    "当前 provider".to_owned()
                } else {
                    "config.toml 中的 profile".to_owned()
                },
                value: Some(names[i].clone()),
                current: is_current,
            },
        );
        i = i + 1;
    }
    proof {
        take_all(goal);
    }
    out
}

fn entry_for(name: &str, current: &str) -> (item: PickerItem)
    ensures
        item.deep_view() == model_item(name@, current@),
{
    let is_current = same(name, current);
    PickerItem {
        label: name.to_owned(),
        description: if is_current {
            "当前模型".to_owned()
        } else {
            "来自 config.toml".to_owned()
        },
        value: Some(name.to_owned()),
        current: is_current,
    }
}

fn list_models(names: &Vec<String>, current: &str) -> (out: Vec<PickerItem>)
    ensures
        out.deep_view() == model_items(names.deep_view(), current@),
{
    let ghost all = names.deep_view();
    let ghost models = offered_models(all, current@);
    let mut known = false;
    let mut k: usize = 0;
    while k < names.len() && !known
        invariant
            k <= names@.len(),
            all == names.deep_view(),
            known ==> all.contains(current@),
            !known ==> forall|j: int| 0 <= j < k ==> all[j] != current@,
        decreases names@.len() - k,
    {
        if same(names[k].as_str(), current) {
            assert(all[k as int] == current@);
            known = true;
        }
        k = k + 1;
    }
    assert(known == all.contains(current@));
    let mut out: Vec<PickerItem> = empty();
    let extra = current.unicode_len() > 0 && !known;
    let ghost shift: int = if extra {
        1
    } else {
        0
    };
    if extra {
        put(&mut out, entry_for(current, current));
    }
    let ghost goal = Seq::new(models.len(), |i: int| model_item(models[i], current@));
    assert(out.deep_view() =~= goal.take(shift));
    let mut i: usize = 0;
    while i < names.len()
        invariant
            i <= names@.len(),
            all == names.deep_view(),
            0 <= shift <= 1,
            models.len() == all.len() + shift,
            forall|j: int| 0 <= j < all.len() ==> models[j + shift] == #[trigger] all[j],
            goal == Seq::new(models.len(), |i: int| model_item(models[i], current@)),
            out.deep_view() == goal.take(i + shift),
        decreases names@.len() - i,
    {
        proof {
            take_next(goal, i + shift);
            assert(models[i + shift] == all[i as int]);
        }
        put(&mut out, entry_for(names[i].as_str(), current));
        i = i + 1;
    }
    proof {
        take_all(goal);
    }
    put(
        &mut out,
        PickerItem {
            label: "自定义模型…".to_owned(),
            description: "输入服务端支持的模型名称".to_owned(),
            value: None,
            current: false,
        },
    );
    out
}

/// Lets a key edit a line; says whether it did.
fn edit(input: &mut InputBox, key: Key, held: Held) -> (r: bool)
    ensures
        match edited(old(input).deep_view(), key, held) {
            Some(after) => r && final(input).deep_view() == after,
            None => !r && final(input).deep_view() == old(input).deep_view(),
        },
{
    match key {
        Key::Backspace => input.backspace(),
        Key::Delete => input.delete(),
        Key::Left => if held.alt || held.control {
            input.move_word_left()
        } else {
            input.move_left()
        },
        Key::Right => if held.alt || held.control {
            input.move_word_right()
        } else {
            input.move_right()
        },
        Key::Home => input.move_home(),
        Key::End => input.move_end(),
        Key::Char(c) => {
            if held.control {
                if c == 'a' {
                    input.move_start();
                } else if c == 'e' {
                    input.move_end_all();
                } else if c == 'w' {
                    input.delete_word_left();
                } else if c == 'u' {
                    input.clear();
                } else {
                    return false;
                }
            } else {
                input.insert_char(c);
            }
        },
        _ => {
            return false;
        },
    }
    true
}

fn allows(scopes: &Vec<ApprovalScope>, scope: ApprovalScope) -> (r: bool)
    ensures
        r == scopes@.contains(scope),
{
    let mut i: usize = 0;
    while i < scopes.len()
        invariant
            i <= scopes@.len(),
            forall|k: int| 0 <= k < i ==> scopes@[k] != scope,
        decreases scopes@.len() - i,
    {
        if scopes[i] == scope {
            assert(scopes@[i as int] == scope);
            return true;
        }
        i = i + 1;
    }
    false
}

impl App {
    /// The name of the command that is being typed.
    pub fn slash_query(&self) -> (r: Option<String>)
        ensures
            r.deep_view() == slash_query(self.deep_view()),
    {
        let text = self.input.text();
        if let Some(dismissed) = &self.slash_dismissed {
            if same(dismissed.as_str(), text.as_str()) {
                return None;
            }
        }
        let chars = chars_of(text.as_str());
        if chars.len() == 0 || chars[0] != '/' {
            return None;
        }
        let end = end_of_first_line(&chars);
        let first = text.as_str().substring_char(0, end);
        assert(first@ =~= text@.take(end as int));
        if self.input.cursor() > end || any_white(first) {
            return None;
        }
        proof {
            line_end_bounds(text@, 1);
        }
        assert(end > 0);
        let query = first.substring_char(1, end).to_owned();
        assert(query@ =~= first@.skip(1));
        Some(query)
    }

    /// The commands that are offered.
    pub fn slash_matches(&self) -> (out: Vec<CommandSpec>)
        ensures
            out.deep_view() == slash_list(self.deep_view()),
    {
        match self.slash_query() {
            Some(query) => crate::tui::command::matches(query.as_str()),
            None => empty(),
        }
    }

    fn listing(&self) -> (r: bool)
        ensures
            r == (slash_list(self.deep_view()).len() > 0),
    {
        let list = self.slash_matches();
        assert(list.deep_view().len() == list@.len());
        list.len() > 0
    }

    /// The command of the list that is chosen.
    pub fn selected_slash_command(&self) -> (r: Option<CommandSpec>)
        ensures
            r.deep_view() == slash_chosen(self.deep_view()),
    {
        let list = self.slash_matches();
        let n: usize = list.len();
        assert(list.deep_view().len() == n);
        if n == 0 {
            None
        } else if self.slash_selected < n {
            assert(list.deep_view()[self.slash_selected as int]
                == list@[self.slash_selected as int].deep_view());
            Some(list[self.slash_selected])
        } else {
            assert(list.deep_view()[n - 1] == list@[n - 1].deep_view());
            Some(list[n - 1])
        }
    }

    fn on_input_changed(&mut self)
        ensures
            final(self).deep_view() == changed(
                old(self).deep_view(),
                old(self).deep_view().input,
            ),
    {
        self.slash_selected = 0;
        self.slash_dismissed = None;
        self.history_idx = None;
    }

    fn move_slash_selection(&mut self, down: bool)
        ensures
            final(self).deep_view() == slash_moved(old(self).deep_view(), down),
    {
        let list = self.slash_matches();
        let n: usize = list.len();
        assert(list.deep_view().len() == n);
        if n > 0 {
            self.slash_selected = step_in_circle(self.slash_selected, n, down);
        }
    }

    fn complete_slash_command(&mut self)
        ensures
            final(self).deep_view() == slash_completed(old(self).deep_view()),
    {
        if let Some(spec) = self.selected_slash_command() {
            let text = concat3(
                "/",
                spec.name,
                if spec.accepts_args {
                    " "
                } else {
                    ""
                },
            );
            self.slash_dismissed = if spec.accepts_args {
                Some(text.clone())
            } else {
                None
            };
            self.input.set(text);
            self.slash_selected = 0;
        }
    }

    fn send(&mut self, command: AgentCommand)
        ensures
            final(self).deep_view() == sends(old(self).deep_view(), command.deep_view()),
    {
        put(&mut self.out, Output::Command(command));
    }

    fn quit(&mut self)
        ensures
            final(self).deep_view() == quits(old(self).deep_view()),
    {
        put(&mut self.out, Output::Cancel);
        self.send(AgentCommand::Shutdown);
        self.should_quit = true;
    }

    fn open_provider_picker(&mut self)
        ensures
            final(self).deep_view() == provider_picker(old(self).deep_view()),
    {
        let items = list_providers(
            &self.provider_names,
            provider_of(self.provider_label.as_str()),
        );
        self.overlay = Some(
            Overlay::Picker {
                kind: PickerKind::Provider,
                picker: Picker::new("选择 provider".to_owned(), items),
            },
        );
    }

    fn open_model_picker(&mut self)
        ensures
            final(self).deep_view() == model_picker(old(self).deep_view()),
    {
        let items = list_models(&self.model_names, model_of(self.provider_label.as_str()));
        self.overlay = Some(
            Overlay::Picker {
                kind: PickerKind::Model,
                picker: Picker::new("选择模型".to_owned(), items),
            },
        );
    }

    fn execute_slash(&mut self, command: SlashCommand, rest: &str)
        ensures
            final(self).deep_view() == executed(old(self).deep_view(), command, rest@),
    {
        let bare = rest.unicode_len() == 0;
        match command {
            SlashCommand::Help => self.transcript.push_notice(
                "斜杠命令\n  /model             选择或输入模型\n  /provider          选择 provider(对话历史保留)\n  /session [ID]      列出或恢复历史会话\n  /compact           压缩历史(摘要替代模型视图,事实保留)\n  /queue <内容>      排队后续任务(当前任务结束后执行)\n  /clear             清空会话\n  /quit              退出\n\n运行中输入并回车 = steering:在当前一批工具完成后注入,修正方向;Esc 取消当前轮\n编辑: Ctrl+A/E 行首/行尾 · Ctrl+W 删前一词 · Ctrl+K 删到行尾 · Alt+←/→ 按词移动\n操作: ↑/↓ 浏览候选或历史 · Tab 补全 · Esc 关闭/取消 · 滚轮浏览终端历史 · 鼠标拖动选择文本".to_owned(),
            ),
            SlashCommand::Quit => self.quit(),
            SlashCommand::Clear => self.send(AgentCommand::ClearConversation),
            SlashCommand::Compact => self.send(AgentCommand::Compact),
            SlashCommand::Queue => if bare {
                self.transcript.push_error("/queue 需要内容,例如 /queue 跑一遍测试".to_owned());
            } else {
                self.transcript.push_notice("已排队为后续任务,当前任务结束后执行".to_owned());
                self.send(AgentCommand::FollowUp(rest.to_owned()));
            },
            SlashCommand::Session => if bare {
                self.overlay = Some(
                    Overlay::Loading {
                        kind: PickerKind::Session,
                        title: "正在读取会话…".to_owned(),
                    },
                );
                self.send(AgentCommand::ListSessions);
            } else {
                self.send(AgentCommand::LoadSession(rest.to_owned()));
            },
            SlashCommand::Provider => if bare {
                self.open_provider_picker();
            } else {
                self.send(AgentCommand::SwitchProvider(rest.to_owned()));
            },
            SlashCommand::Model => if bare {
                self.open_model_picker();
            } else {
                self.send(AgentCommand::SetModel(rest.to_owned()));
            },
        }
    }

    fn run_selected_slash_command(&mut self)
        ensures
            final(self).deep_view() == slash_run(old(self).deep_view()),
    {
        if let Some(spec) = self.selected_slash_command() {
            self.input.clear();
            self.slash_dismissed = None;
            proof {
                reveal_strlit("");
                assert(""@ =~= seq![]);
            }
            self.execute_slash(spec.command, "");
        }
    }

    /// Takes a line that was typed behind a slash.
    pub fn handle_slash(&mut self, line: &str)
        ensures
            final(self).deep_view() == slash_handled(old(self).deep_view(), line@),
    {
        let chars = chars_of(line);
        let n: usize = chars.len();
        let mut end: usize = 0;
        while end < n && !white(chars[end])
            invariant
                end <= n == chars@.len(),
                chars@ == line@,
                first_white(line@, 0) == first_white(line@, end as int),
            decreases n - end,
        {
            end = end + 1;
        }
        assert(n == line@.len());
        let head = line.substring_char(0, end);
        assert(head@ =~= line@.take(end as int));
        match find(head) {
            Some(command) => {
                if end < n {
                    let rest = line.substring_char(end + 1, n);
                    assert(rest@ =~= line@.skip(end + 1));
                    self.execute_slash(command, trim(rest));
                } else {
                    proof {
                        reveal_strlit("");
                        assert(""@ =~= seq![]);
                    }
                    self.execute_slash(command, "");
                }
            },
            None => {
                self.transcript.push_error(
                    concat3("未知命令 /", head, ",输入 / 查看可用命令"),
                );
            },
        }
    }

    fn submit(&mut self)
        ensures
            final(self).deep_view() == submitted(old(self).deep_view()),
    {
        let raw = self.input.take();
        let text = trim(raw.as_str());
        let n: usize = text.unicode_len();
        if n == 0 {
            return;
        }
        if text.get_char(0) == '/' {
            let rest = text.substring_char(1, n);
            assert(rest@ =~= text@.skip(1));
            self.handle_slash(trim(rest));
            return;
        }
        put(&mut self.history, text.to_owned());
        self.history_idx = None;
        if self.busy {
            self.transcript.push_notice(
                "已排队为 steering,将在当前一批工具完成后注入(Esc 取消本轮)".to_owned(),
            );
            self.send(AgentCommand::Steer(text.to_owned()));
        } else {
            self.scroll_up = 0;
            self.send(AgentCommand::UserInput(text.to_owned()));
        }
    }

    fn history_prev(&mut self)
        ensures
            final(self).deep_view() == earlier(old(self).deep_view()),
    {
        let n: usize = self.history.len();
        assert(self.history.deep_view().len() == n);
        if n == 0 {
            return;
        }
        let idx: usize = match self.history_idx {
            None => n - 1,
            Some(i) => if i == 0 {
                0
            } else {
                i - 1
            },
        };
        if idx < n {
            if self.history_idx.is_none() {
                self.history_draft = self.input.text();
            }
            self.history_idx = Some(idx);
            assert(self.history.deep_view()[idx as int] == self.history@[idx as int]@);
            let text = self.history[idx].clone();
            self.input.set(text);
        }
    }

    fn history_next(&mut self)
        ensures
            final(self).deep_view() == later(old(self).deep_view()),
    {
        let n: usize = self.history.len();
        assert(self.history.deep_view().len() == n);
        if let Some(idx) = self.history_idx {
            if n > 0 && idx < n - 1 {
                self.history_idx = Some(idx + 1);
                assert(self.history.deep_view()[idx + 1] == self.history@[idx + 1]@);
                let text = self.history[idx + 1].clone();
                self.input.set(text);
            } else {
                self.history_idx = None;
                let mut draft = String::new();
                assert(draft@ =~= seq![]);
                core::mem::swap(&mut draft, &mut self.history_draft);
                self.input.set(draft);
            }
        }
    }

    fn answer(&mut self, request_id: String, decision: ApprovalDecision)
        ensures
            final(self).deep_view() == answers(old(self).deep_view(), request_id@, decision),
    {
        put(&mut self.out, Output::Approval(ApprovalResponse { request_id, decision }));
        self.overlay = None;
    }

    fn accept_picker(&mut self, kind: PickerKind, picker: Picker)
        requires
            old(self).overlay is None,
        ensures
            final(self).deep_view() == accepted(
                AppView {
                    overlay: Some(OverlayView::Picker { kind, picker: picker.deep_view() }),
                    ..old(self).deep_view()
                },
                kind,
                picker.deep_view(),
            ),
    {
        match picker.selected() {
            None => {
                self.overlay = Some(Overlay::Picker { kind, picker });
            },
            Some(item) => match (kind, item.value) {
                (PickerKind::Provider, Some(name)) => self.send(AgentCommand::SwitchProvider(name)),
                (PickerKind::Model, Some(model)) => self.send(AgentCommand::SetModel(model)),
                (PickerKind::Model, None) => {
                    self.overlay = Some(Overlay::ModelInput(InputBox::default()));
                },
                (PickerKind::Session, Some(id)) => self.send(AgentCommand::LoadSession(id)),
                _ => {
                    self.overlay = Some(Overlay::Picker { kind, picker });
                },
            },
        }
    }

    fn on_picker_key(&mut self, kind: PickerKind, picker: Picker, key: Key, held: Held)
        requires
            old(self).overlay is None,
        ensures
            final(self).deep_view() == picker_key(
                AppView {
                    overlay: Some(OverlayView::Picker { kind, picker: picker.deep_view() }),
                    ..old(self).deep_view()
                },
                kind,
                picker.deep_view(),
                key,
                held,
            ),
    {
        let mut picker = picker;
        match key {
            Key::Esc => {
                return;
            },
            Key::Up => picker.move_up(),
            Key::BackTab => picker.move_up(),
            Key::Down => picker.move_down(),
            Key::Tab => picker.move_down(),
            Key::Enter => {
                self.accept_picker(kind, picker);
                return;
            },
            Key::Backspace => picker.pop_filter(),
            Key::Char(c) => {
                if held.control {
                    if c == 'c' {
                        return;
                    }
                } else {
                    picker.push_filter(c);
                }
            },
            _ => {},
        }
        self.overlay = Some(Overlay::Picker { kind, picker });
    }

    fn on_model_key(&mut self, input: InputBox, key: Key, held: Held)
        requires
            old(self).overlay is None,
        ensures
            final(self).deep_view() == model_key(
                AppView {
                    overlay: Some(OverlayView::ModelInput(input.deep_view())),
                    ..old(self).deep_view()
                },
                input.deep_view(),
                key,
                held,
            ),
    {
        let mut input = input;
        match key {
            Key::Esc => {},
            Key::Enter => {
                let text = input.take();
                let model = trim(text.as_str());
                if model.unicode_len() > 0 {
                    self.send(AgentCommand::SetModel(model.to_owned()));
                } else {
                    self.overlay = Some(Overlay::ModelInput(input));
                }
            },
            _ => {
                edit(&mut input, key, held);
                self.overlay = Some(Overlay::ModelInput(input));
            },
        }
    }

    fn on_approval_key(&mut self, request: ApprovalRequest, key: Key, held: Held)
        requires
            old(self).overlay is None,
        ensures
            final(self).deep_view() == approval_key(
                AppView {
                    overlay: Some(OverlayView::Approval(request.deep_view())),
                    ..old(self).deep_view()
                },
                request.deep_view(),
                key,
                held,
            ),
    {
        if (matches!(key, Key::Enter) || key == Key::Char('y')) && allows(
            &request.scopes,
            ApprovalScope::Once,
        ) {
            self.answer(request.request_id, ApprovalDecision::Allow(ApprovalScope::Once));
        } else if key == Key::Char('a') && allows(&request.scopes, ApprovalScope::Session) {
            self.answer(request.request_id, ApprovalDecision::Allow(ApprovalScope::Session));
        } else if matches!(key, Key::Esc) || key == Key::Char('n') || (key == Key::Char('c')
            && held.control) {
            self.answer(request.request_id, ApprovalDecision::Deny);
        } else {
            self.overlay = Some(Overlay::Approval(request));
        }
    }

    fn is_armed(&self, now: Duration) -> (r: bool)
        ensures
            r == armed(self.deep_view(), now),
    {
        match self.quit_armed_at {
            Some(t) => now.nanos <= t.nanos || now.nanos - t.nanos <= 2_000_000_000,
            None => false,
        }
    }

    fn on_ctrl_c(&mut self, now: Duration)
        ensures
            final(self).deep_view() == ctrl_c(old(self).deep_view(), now),
    {
        if self.is_armed(now) {
            self.quit();
            return;
        }
        if !self.input.is_empty() {
            self.input.clear();
            self.quit_armed_at = Some(now);
            return;
        }
        if self.busy {
            put(&mut self.out, Output::Cancel);
        }
        self.quit_armed_at = Some(now);
    }

    fn on_char(&mut self, c: char, held: Held, now: Duration)
        ensures
            final(self).deep_view() == char_key(old(self).deep_view(), c, held, now),
    {
        if !held.control {
            self.input.insert_char(c);
            self.on_input_changed();
        } else if c == 'c' {
            self.on_ctrl_c(now);
        } else if c == 'l' {
            self.force_clear = true;
        } else if c == 'a' {
            self.input.move_start();
        } else if c == 'e' {
            self.input.move_end_all();
        } else if c == 'w' {
            self.input.delete_word_left();
            self.on_input_changed();
        } else if c == 'k' {
            self.input.delete_to_line_end();
            self.on_input_changed();
        } else if c == 'u' {
            self.input.clear();
            self.on_input_changed();
        }
    }

    fn on_enter(&mut self, held: Held, pasting: bool)
        ensures
            final(self).deep_view() == entered(old(self).deep_view(), held, pasting),
    {
        if self.listing() {
            self.run_selected_slash_command();
            return;
        }
        let newline = held.shift || held.alt || held.control || self.input.pop_trailing_backslash()
            || pasting;
        if newline {
            self.input.insert_char('\n');
            self.on_input_changed();
        } else {
            self.submit();
        }
    }

    fn on_esc(&mut self)
        ensures
            final(self).deep_view() == escaped(old(self).deep_view()),
    {
        if self.listing() {
            self.slash_dismissed = Some(self.input.text());
        } else if self.busy {
            put(&mut self.out, Output::Cancel);
            self.status_note = "取消中…".to_owned();
        } else if self.scroll_up > 0 {
            self.scroll_up = 0;
        } else {
            self.input.clear();
            self.on_input_changed();
        }
    }

    /// Whether what a key does depends on what follows it at once: only for an Enter that would
    /// send.
    pub fn looks_ahead(&self, key: Key, held: Held) -> (r: bool)
        ensures
            !r ==> forall|a: bool, b: bool, now: Duration|
                #![trigger key_taken(self.deep_view(), key, held, a, now), key_taken(
                    self.deep_view(),
                    key,
                    held,
                    b,
                    now,
                )]
                key_taken(self.deep_view(), key, held, a, now) == key_taken(
                    self.deep_view(),
                    key,
                    held,
                    b,
                    now,
                ),
            r == (self.deep_view().overlay is None && key is Enter && slash_list(
                self.deep_view(),
            ).len() == 0 && !held.shift && !held.alt && !held.control && !continues(
                self.deep_view().input,
            )),
    {
        if self.overlay.is_some() || !matches!(key, Key::Enter) || self.listing() || held.shift
            || held.alt || held.control {
            return false;
        }
        let text = self.input.text();
        let n: usize = text.as_str().unicode_len();
        !(n > 0 && self.input.cursor() == n && text.as_str().get_char(n - 1) == '\\')
    }

    /// Takes a key. `pasting` says whether more text follows it at once; `now` is the time since
    /// the start.
    pub fn on_key(&mut self, key: Key, held: Held, pasting: bool, now: Duration)
        ensures
            final(self).deep_view() == key_taken(old(self).deep_view(), key, held, pasting, now),
    {
        if self.overlay.is_some() && key == Key::Char('c') && held.control {
            if self.is_armed(now) {
                self.quit();
                return;
            }
            self.quit_armed_at = Some(now);
        }
        let ghost start = self.deep_view();
        match self.overlay.take() {
            Some(Overlay::Picker { kind, picker }) => {
                self.on_picker_key(kind, picker, key, held);
                return;
            },
            Some(Overlay::ModelInput(input)) => {
                self.on_model_key(input, key, held);
                return;
            },
            Some(Overlay::Loading { kind, title }) => {
                if !(matches!(key, Key::Esc) || (key == Key::Char('c') && held.control)) {
                    self.overlay = Some(Overlay::Loading { kind, title });
                }
                return;
            },
            Some(Overlay::Approval(request)) => {
                self.on_approval_key(request, key, held);
                return;
            },
            None => {},
        }
        assert(self.deep_view() == start);
        let listing = self.listing();
        match key {
            Key::Char(c) => self.on_char(c, held, now),
            Key::Tab => if listing {
                self.complete_slash_command();
            } else {
                self.input.insert_str("    ");
                self.on_input_changed();
            },
            Key::BackTab => if listing {
                self.move_slash_selection(false);
            },
            Key::Enter => self.on_enter(held, pasting),
            Key::Backspace => {
                self.input.backspace();
                self.on_input_changed();
            },
            Key::Delete => {
                self.input.delete();
                self.on_input_changed();
            },
            Key::Up => if listing {
                self.move_slash_selection(false);
            } else if self.input.is_multiline() {
                self.input.move_vertical(true);
            } else {
                self.history_prev();
            },
            Key::Down => if listing {
                self.move_slash_selection(true);
            } else if self.input.is_multiline() {
                self.input.move_vertical(false);
            } else {
                self.history_next();
            },
            Key::PageUp => {
                self.scroll_up = self.scroll_up.saturating_add(
                    (self.last_transcript_height / 2) as usize,
                );
            },
            Key::PageDown => {
                self.scroll_up = self.scroll_up.saturating_sub(
                    (self.last_transcript_height / 2) as usize,
                );
            },
            Key::Esc => self.on_esc(),
            _ => {
                edit(&mut self.input, key, held);
            },
        }
    }

    /// Takes a text that was pasted.
    pub fn on_paste(&mut self, text: &str)
        ensures
            final(self).deep_view() == paste_taken(old(self).deep_view(), text@),
    {
        match self.overlay.take() {
            None => {
                self.input.insert_str(text);
                self.on_input_changed();
            },
            Some(Overlay::ModelInput(input)) => {
                let mut input = input;
                input.insert_str(text);
                self.overlay = Some(Overlay::ModelInput(input));
            },
            Some(Overlay::Picker { kind, picker }) => {
                let mut picker = picker;
                let ghost start = picker.deep_view();
                let chars = chars_of(text);
                let mut i: usize = 0;
                while i < chars.len()
                    invariant
                        i <= chars@.len(),
                        chars@ == text@,
                        picker.deep_view() == narrowed_by(start, text@.take(i as int)),
                    decreases chars@.len() - i,
                {
                    proof {
                        take_next(text@, i as int);
                    }
                    picker.push_filter(chars[i]);
                    i = i + 1;
                }
                proof {
                    take_all(text@);
                }
                self.overlay = Some(Overlay::Picker { kind, picker });
            },
            Some(other) => {
                self.overlay = Some(other);
            },
        }
    }
}

/// What has been read from the terminal and not been handled yet.
#[derive(Debug, Clone, Copy, PartialEq, Eq, Structural)]
pub enum Pending {
    /// A key that was pressed.
    Press(Key),
    Paste,
    Noise,
}

/// Whether more text follows: a key that writes was pressed, or something was pasted.
pub open spec fn more_follows(pending: Seq<Pending>) -> bool {
    exists|i: int| 0 <= i < pending.len() && #[trigger] writes(pending[i])
}

pub open spec fn writes(p: Pending) -> bool {
    match p {
        Pending::Press(key) => key is Char || key is Enter || key is Tab,
        Pending::Paste => true,
        Pending::Noise => false,
    }
}

/// Whether an Enter belongs to something that is being pasted.
pub fn enter_means_newline(pending: &Vec<Pending>) -> (r: bool)
    ensures
        r == more_follows(pending@),
{
    let mut i: usize = 0;
    while i < pending.len()
        invariant
            i <= pending@.len(),
            forall|k: int| 0 <= k < i ==> !#[trigger] writes(pending@[k]),
        decreases pending@.len() - i,
    {
        let text = match pending[i] {
            Pending::Press(key) => matches!(key, Key::Char(_) | Key::Enter | Key::Tab),
            Pending::Paste => true,
            Pending::Noise => false,
        };
        if text {
            assert(writes(pending@[i as int]));
            return true;
        }
        i = i + 1;
    }
    false
}

// ---- Laws ----

/// Pressing Ctrl+C twice within two seconds leaves at any time: whether a run is under way or not,
/// whatever is typed, and whatever lies over the input.
pub proof fn law_pressing_twice_leaves(
    app: AppView,
    held: Held,
    pasting: bool,
    first: Duration,
    second: Duration,
)
    requires
        held.control,
        first.nanos <= second.nanos <= first.nanos + 2_000_000_000,
    ensures
        key_taken(
            key_taken(app, Key::Char('c'), held, pasting, first),
            Key::Char('c'),
            held,
            pasting,
            second,
        ).should_quit,
{
}

/// Where text is typed, the first Ctrl+C takes it away; besides, it only counts as the first of two.
pub proof fn law_typed_text_goes_first(app: AppView, held: Held, pasting: bool, now: Duration)
    requires
        held.control,
        app.overlay is None,
        app.input.text.len() > 0,
        !armed(app, now),
    ensures
        key_taken(app, Key::Char('c'), held, pasting, now) == (AppView {
            input: no_input(),
            quit_armed_at: Some(now),
            ..app
        }),
{
}

/// An approval is answered only on the channel for approvals, and only once: the request is gone
/// with the answer.
pub proof fn law_answers_close_the_request(app: AppView, request: ApprovalView, key: Key, held: Held)
    requires
        app.overlay == Some(OverlayView::Approval(request)),
    ensures
        ({
            let after = approval_key(app, request, key, held);
            ||| after == app
            ||| after.overlay is None && after.out.len() == app.out.len() + 1
                && after.out.last() is Approval
        }),
{
}

/// A person can only allow what the request offers.
pub proof fn law_only_offered_scopes_are_given(app: AppView, request: ApprovalView, key: Key, held: Held, scope: ApprovalScope)
    requires
        app.overlay == Some(OverlayView::Approval(request)),
        approval_key(app, request, key, held).out == app.out.push(
            OutView::Approval(
                ResponseView {
                    request_id: request.request_id,
                    decision: ApprovalDecision::Allow(scope),
                },
            ),
        ),
    ensures
        request.scopes.contains(scope),
{
    let after = approval_key(app, request, key, held);
    assert(after.out.len() == app.out.len() + 1);
    assert(after.out.last() == OutView::Approval(
        ResponseView { request_id: request.request_id, decision: ApprovalDecision::Allow(scope) },
    ));
}

/// Going back in the history and forward again brings back what was being typed.
pub proof fn law_drafts_come_back(app: AppView)
    requires
        0 < app.history.len() <= usize::MAX,
        app.history_idx is None,
    ensures
        later(earlier(app)).input == input_of(app.input.text),
        later(earlier(app)).history_idx is None,
{
}

} // verus!
