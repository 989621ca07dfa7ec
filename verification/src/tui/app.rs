//! What the front end keeps, and what the runtime's events do to it.
use vstd::prelude::*;

use crate::event::{AgentCommand, AgentEvent, AgentEventView, CommandView};
use crate::list::{empty, put, take_all, take_next};
use crate::message::{Block, BlockView, ChatMessage, MessageView, Role};
use crate::permission::{ApprovalRequest, ApprovalResponse, ApprovalView, ResponseView};
use crate::session::{
    batch_blocks, payloads_of, EntryView, PayloadView, SessionEntry, SessionEntryPayload,
};
use crate::storage::{SessionSummary, SummaryView};
use crate::text::{concat2, concat3, dec, decimal, same};
use crate::time::Duration;
use crate::tools::OutputView;
use crate::tui::input::{no_input, InputBox, InputState};
use crate::tui::picker::{opened, ItemInfo, Picker, PickerItem, PickerState};
use crate::tui::transcript::{
    all_closed, answer_ended, answer_grown, call_begun, call_ended, thought_grown, CellView,
    Transcript,
};
use crate::util::{
    args_summary, fmt_tokens, middle_cut, summary_of, token_text, truncate_middle,
};

verus! {

#[derive(Debug, Clone, Copy, PartialEq, Eq, Structural)]
pub enum PickerKind {
    Provider,
    Model,
    Session,
}

/// What lies over the input.
#[derive(Debug)]
pub enum Overlay {
    Picker { kind: PickerKind, picker: Picker },
    ModelInput(InputBox),
    Loading { kind: PickerKind, title: String },
    Approval(ApprovalRequest),
}

#[verifier::ext_equal]
pub enum OverlayView {
    Picker { kind: PickerKind, picker: PickerState },
    ModelInput(InputState),
    Loading { kind: PickerKind, title: Seq<char> },
    Approval(ApprovalView),
}

impl DeepView for Overlay {
    type V = OverlayView;

    open spec fn deep_view(&self) -> OverlayView {
        match *self {
            Overlay::Picker { kind, picker } => OverlayView::Picker {
                kind,
                picker: picker.deep_view(),
            },
            Overlay::ModelInput(input) => OverlayView::ModelInput(input.deep_view()),
            Overlay::Loading { kind, title } => OverlayView::Loading { kind, title: title@ },
            Overlay::Approval(request) => OverlayView::Approval(request.deep_view()),
        }
    }
}

/// What the front end sends.
#[derive(Debug)]
pub enum Output {
    Command(AgentCommand),
    Approval(ApprovalResponse),
    /// Cancel the run that is under way.
    Cancel,
}

#[verifier::ext_equal]
pub enum OutView {
    Command(CommandView),
    Approval(ResponseView),
    Cancel,
}

impl DeepView for Output {
    type V = OutView;

    open spec fn deep_view(&self) -> OutView {
        match *self {
            Output::Command(c) => OutView::Command(c.deep_view()),
            Output::Approval(r) => OutView::Approval(r.deep_view()),
            Output::Cancel => OutView::Cancel,
        }
    }
}

/// The front end.
#[derive(Debug)]
pub struct App {
    pub transcript: Transcript,
    pub input: InputBox,
    pub overlay: Option<Overlay>,
    pub slash_selected: usize,
    /// The text for which the list of commands was sent away.
    pub slash_dismissed: Option<String>,
    pub history: Vec<String>,
    pub history_idx: Option<usize>,
    pub history_draft: String,
    pub busy: bool,
    pub status_note: String,
    pub provider_label: String,
    pub session_id: String,
    pub usage: (u64, u64),
    pub scroll_up: usize,
    pub last_transcript_height: u16,
    pub quit_armed_at: Option<Duration>,
    pub should_quit: bool,
    pub force_clear: bool,
    pub provider_names: Vec<String>,
    pub model_names: Vec<String>,
    /// What is to be sent, oldest first.
    pub out: Vec<Output>,
}

#[verifier::ext_equal]
pub struct AppView {
    pub cells: Seq<CellView>,
    pub input: InputState,
    pub overlay: Option<OverlayView>,
    pub slash_selected: usize,
    pub slash_dismissed: Option<Seq<char>>,
    pub history: Seq<Seq<char>>,
    pub history_idx: Option<usize>,
    pub history_draft: Seq<char>,
    pub busy: bool,
    pub status_note: Seq<char>,
    pub provider_label: Seq<char>,
    pub session_id: Seq<char>,
    pub usage: (u64, u64),
    pub scroll_up: usize,
    pub last_transcript_height: u16,
    pub quit_armed_at: Option<Duration>,
    pub should_quit: bool,
    pub force_clear: bool,
    pub provider_names: Seq<Seq<char>>,
    pub model_names: Seq<Seq<char>>,
    pub out: Seq<OutView>,
}

impl DeepView for App {
    type V = AppView;

    open spec fn deep_view(&self) -> AppView {
        AppView {
            cells: self.transcript.deep_view(),
            input: self.input.deep_view(),
            overlay: self.overlay.deep_view(),
            slash_selected: self.slash_selected,
            slash_dismissed: self.slash_dismissed.deep_view(),
            history: self.history.deep_view(),
            history_idx: self.history_idx,
            history_draft: self.history_draft@,
            busy: self.busy,
            status_note: self.status_note@,
            provider_label: self.provider_label@,
            session_id: self.session_id@,
            usage: self.usage,
            scroll_up: self.scroll_up,
            last_transcript_height: self.last_transcript_height,
            quit_armed_at: self.quit_armed_at,
            should_quit: self.should_quit,
            force_clear: self.force_clear,
            provider_names: self.provider_names.deep_view(),
            model_names: self.model_names.deep_view(),
            out: self.out.deep_view(),
        }
    }
}

// ---- Short ids ----

/// How many bytes a character takes in UTF-8.
pub open spec fn byte_len(c: char) -> nat {
    if (c as u32) < 0x80 {
        1
    } else if (c as u32) < 0x800 {
        2
    } else if (c as u32) < 0x10000 {
        3
    } else {
        4
    }
}

pub open spec fn bytes_in(text: Seq<char>) -> nat
    decreases text.len(),
{
    if text.len() == 0 {
        0
    } else {
        bytes_in(text.drop_last()) + byte_len(text.last())
    }
}

/// The first eight bytes of an id, where they end with a character; else the whole id.
pub open spec fn short_of(id: Seq<char>, n: int) -> Seq<char>
    decreases id.len() + 1 - n,
{
    if n > id.len() || bytes_in(id.take(n)) > 8 {
        id
    } else if bytes_in(id.take(n)) == 8 {
        id.take(n)
    } else {
        short_of(id, n + 1)
    }
}

pub fn short_id(id: &str) -> (s: &str)
    ensures
        s@ == short_of(id@, 0),
{
    let chars = crate::text::chars_of(id);
    let mut bytes: u64 = 0;
    let mut n: usize = 0;
    loop
        invariant
            n <= chars@.len(),
            chars@ == id@,
            bytes == bytes_in(id@.take(n as int)),
            bytes <= 12,
            short_of(id@, 0) == short_of(id@, n as int),
        decreases chars@.len() - n,
    {
        if bytes > 8 {
            return id;
        }
        if bytes == 8 {
            let s = id.substring_char(0, n);
            assert(s@ =~= id@.take(n as int));
            return s;
        }
        if n >= chars.len() {
            assert(short_of(id@, n + 1) == id@);
            return id;
        }
        proof {
            take_next(id@, n as int);
        }
        let code: u32 = chars[n] as u32;
        bytes = bytes + if code < 0x80 {
            1
        } else if code < 0x800 {
            2
        } else if code < 0x10000 {
            3
        } else {
            4
        };
        n = n + 1;
    }
}

// ---- Restoring a session ----

/// The last result for a call among some blocks.
pub open spec fn last_result(blocks: Seq<BlockView>, id: Seq<char>) -> Option<(Seq<char>, bool)>
    decreases blocks.len(),
{
    if blocks.len() == 0 {
        None
    } else {
        let before = last_result(blocks.drop_last(), id);
        match blocks.last() {
            BlockView::ToolResult { tool_use_id, content, is_error } => if tool_use_id == id {
                Some((content, is_error))
            } else {
                before
            },
            _ => before,
        }
    }
}

/// A message of the user as cells: its texts.
pub open spec fn user_cells(cells: Seq<CellView>, blocks: Seq<BlockView>) -> Seq<CellView>
    decreases blocks.len(),
{
    if blocks.len() == 0 {
        cells
    } else {
        let before = user_cells(cells, blocks.drop_last());
        match blocks.last() {
            BlockView::Text(text) => before.push(CellView::User(text)),
            _ => before,
        }
    }
}

/// An answer as cells. `log` are all blocks of the session: the results of the calls are there.
pub open spec fn answer_cells(cells: Seq<CellView>, blocks: Seq<BlockView>, log: Seq<BlockView>) -> Seq<
    CellView,
>
    decreases blocks.len(),
{
    if blocks.len() == 0 {
        cells
    } else {
        let before = answer_cells(cells, blocks.drop_last(), log);
        match blocks.last() {
            BlockView::Text(text) => answer_grown(before, text),
            BlockView::Thinking { text, .. } => if text.len() > 0 {
                thought_grown(before, text)
            } else {
                before
            },
            BlockView::ToolUse { id, name, input } => {
                let begun = call_begun(before, id, name, summary_of(input));
                match last_result(log, id) {
                    Some((content, is_error)) => call_ended(
                        begun,
                        id,
                        middle_cut(content, 4000),
                        is_error,
                    ),
                    None => begun,
                }
            },
            _ => before,
        }
    }
}

pub open spec fn message_cells(cells: Seq<CellView>, message: MessageView, log: Seq<BlockView>) -> Seq<
    CellView,
> {
    match message.role {
        Role::User => user_cells(cells, message.blocks),
        Role::Assistant => all_closed(answer_cells(cells, message.blocks, log)),
    }
}

/// A fact as cells. What is no message becomes a notice, or nothing.
pub open spec fn fact_cells(cells: Seq<CellView>, fact: PayloadView, log: Seq<BlockView>) -> Seq<CellView> {
    match fact {
        PayloadView::Message { message, .. } => message_cells(cells, message, log),
        PayloadView::Notice { text, .. } => cells.push(CellView::Notice(text)),
        PayloadView::Compaction { tokens_before, .. } => cells.push(
            CellView::Notice(
                "—— 历史已压缩(压缩前约 "@ + dec(tokens_before as nat)
                    + " tokens);此后模型视图从摘要开始 ——"@,
            ),
        ),
        PayloadView::ModelChange { provider, .. } => cells.push(
            CellView::Notice("模型切换: "@ + provider),
        ),
        _ => cells,
    }
}

pub open spec fn facts_cells(facts: Seq<PayloadView>, log: Seq<BlockView>) -> Seq<CellView>
    decreases facts.len(),
{
    if facts.len() == 0 {
        seq![]
    } else {
        fact_cells(facts_cells(facts.drop_last(), log), facts.last(), log)
    }
}

/// What a session looks like.
pub open spec fn session_cells(entries: Seq<EntryView>) -> Seq<CellView> {
    let facts = payloads_of(entries);
    facts_cells(facts, batch_blocks(facts))
}

pub open spec fn result_pair(r: Option<(String, bool)>) -> Option<(Seq<char>, bool)> {
    match r {
        Some((content, is_error)) => Some((content@, is_error)),
        None => None,
    }
}

fn find_result(entries: &Vec<SessionEntry>, id: &str) -> (r: Option<(String, bool)>)
    ensures
        result_pair(r) == last_result(batch_blocks(payloads_of(entries.deep_view())), id@),
{
    let ghost facts = payloads_of(entries.deep_view());
    let mut found: Option<(String, bool)> = None;
    let mut i: usize = 0;
    while i < entries.len()
        invariant
            i <= entries@.len(),
            facts == payloads_of(entries.deep_view()),
            facts.len() == entries@.len(),
            result_pair(found) == last_result(batch_blocks(facts.take(i as int)), id@),
        decreases entries@.len() - i,
    {
        proof {
            take_next(facts, i as int);
        }
        assert(facts[i as int] == entries@[i as int].payload.deep_view());
        let ghost before = batch_blocks(facts.take(i as int));
        if let SessionEntryPayload::Message(record) = &entries[i].payload {
            let blocks = &record.message.blocks;
            let ghost all = blocks.deep_view();
            let mut k: usize = 0;
            assert(before + all.take(0) =~= before);
            while k < blocks.len()
                invariant
                    k <= blocks@.len(),
                    all == blocks.deep_view(),
                    result_pair(found) == last_result(before + all.take(k as int), id@),
                decreases blocks@.len() - k,
            {
                proof {
                    take_next(all, k as int);
                    assert((before + all.take(k + 1)).drop_last() =~= before + all.take(k as int));
                    assert((before + all.take(k + 1)).last() == all[k as int]);
                }
                assert(all[k as int] == blocks@[k as int].deep_view());
                if let Block::ToolResult { tool_use_id, content, is_error } = &blocks[k] {
                    if same(tool_use_id.as_str(), id) {
                        found = Some((content.clone(), *is_error));
                    }
                }
                k = k + 1;
            }
            proof {
                take_all(all);
            }
        } else {
            assert(before + Seq::<BlockView>::empty() =~= before);
        }
        i = i + 1;
    }
    proof {
        take_all(facts);
    }
    found
}

// ---- Events ----

/// A session as a choice.
pub open spec fn session_item(current_id: Seq<char>, session: SummaryView) -> ItemInfo {
    let current = session.id == current_id;
    ItemInfo {
        label: if session.title.len() == 0 {
            "会话 "@ + short_of(session.id, 0)
        } else {
            session.title
        },
        description: dec(session.message_count as nat) + " 条消息 · "@ + short_of(session.id, 0) + (
        if current {
            " · 当前"@
        } else {
            ""@
        }),
        value: Some(session.id),
        current,
    }
}

pub open spec fn session_items(current_id: Seq<char>, sessions: Seq<SummaryView>) -> Seq<ItemInfo> {
    Seq::new(sessions.len(), |i: int| session_item(current_id, sessions[i]))
}

fn list_sessions(current_id: &str, sessions: &Vec<SessionSummary>) -> (out: Vec<PickerItem>)
    ensures
        out.deep_view() == session_items(current_id@, sessions.deep_view()),
{
    let ghost goal = session_items(current_id@, sessions.deep_view());
    let mut out: Vec<PickerItem> = empty();
    let mut i: usize = 0;
    while i < sessions.len()
        invariant
            i <= sessions@.len(),
            goal == session_items(current_id@, sessions.deep_view()),
            out.deep_view() == goal.take(i as int),
        decreases sessions@.len() - i,
    {
        proof {
            take_next(goal, i as int);
        }
        let session = &sessions[i];
        assert(sessions.deep_view()[i as int] == session.deep_view());
        let current = same(session.id.as_str(), current_id);
        let label = if session.title.as_str().unicode_len() == 0 {
            concat2("会话 ", short_id(session.id.as_str()))
        } else {
            session.title.clone()
        };
        let mut description = concat3(
            decimal(session.message_count as u64).as_str(),
            " 条消息 · ",
            short_id(session.id.as_str()),
        );
        description.push_str(
            if current {
                " · 当前"
            } else {
                ""
            },
        );
        put(
            &mut out,
            PickerItem { label, description, value: Some(session.id.clone()), current },
        );
        i = i + 1;
    }
    proof {
        take_all(goal);
    }
    out
}

/// How many of the facts are messages.
pub open spec fn messages_in(facts: Seq<PayloadView>) -> nat
    decreases facts.len(),
{
    if facts.len() == 0 {
        0
    } else {
        messages_in(facts.drop_last()) + (if facts.last() is Message {
            1nat
        } else {
            0nat
        })
    }
}

fn count_messages(entries: &Vec<SessionEntry>) -> (n: usize)
    ensures
        n == messages_in(payloads_of(entries.deep_view())),
{
    let ghost facts = payloads_of(entries.deep_view());
    let mut n: usize = 0;
    let mut i: usize = 0;
    while i < entries.len()
        invariant
            n <= i <= entries@.len(),
            facts == payloads_of(entries.deep_view()),
            facts.len() == entries@.len(),
            n == messages_in(facts.take(i as int)),
        decreases entries@.len() - i,
    {
        proof {
            take_next(facts, i as int);
        }
        assert(facts[i as int] == entries@[i as int].payload.deep_view());
        if let SessionEntryPayload::Message(_) = &entries[i].payload {
            n = n + 1;
        }
        i = i + 1;
    }
    proof {
        take_all(facts);
    }
    n
}

/// What people read of an output.
pub open spec fn ui_of(output: OutputView) -> Seq<char> {
    match output.ui_summary {
        Some(text) => text,
        None => output.model_text,
    }
}

/// A picker that waits for the list of sessions.
pub open spec fn awaits_sessions(overlay: Option<OverlayView>) -> bool {
    overlay matches Some(OverlayView::Loading { kind, .. }) && kind == PickerKind::Session
}

/// What an event does to the front end.
pub open spec fn event_shown(app: AppView, event: AgentEventView) -> AppView {
    match event {
        AgentEventView::UserMessage(t) => AppView { cells: app.cells.push(CellView::User(t)), ..app },
        AgentEventView::TurnStarted => AppView { busy: true, status_note: "思考中"@, ..app },
        AgentEventView::AssistantDelta(t) => AppView { cells: answer_grown(app.cells, t), ..app },
        AgentEventView::ThinkingDelta(t) => AppView { cells: thought_grown(app.cells, t), ..app },
        AgentEventView::AssistantMessage(t) => AppView { cells: answer_ended(app.cells, t), ..app },
        AgentEventView::ToolCallPending { name } => AppView {
            status_note: "正在生成 "@ + name + " 的参数"@,
            ..app
        },
        AgentEventView::ToolCallStarted { id, name, summary } => AppView {
            status_note: "执行 "@ + name,
            cells: call_begun(app.cells, id, name, summary),
            ..app
        },
        AgentEventView::ToolCallUpdated { output, .. } => AppView {
            status_note: "工具进度: "@ + ui_of(output),
            ..app
        },
        AgentEventView::ToolCallFinished { id, output, error, .. } => AppView {
            status_note: "思考中"@,
            cells: call_ended(app.cells, id, ui_of(output), error is Some),
            ..app
        },
        AgentEventView::PermissionRequested { request } => AppView {
            status_note: "等待审批: "@ + request.tool,
            overlay: Some(OverlayView::Approval(request)),
            ..app
        },
        AgentEventView::PermissionResolved { request_id, allowed } => AppView {
            overlay: if app.overlay matches Some(OverlayView::Approval(request))
                && request.request_id == request_id {
                None
            } else {
                app.overlay
            },
            status_note: if allowed {
                "审批通过，正在执行"@
            } else {
                "审批未通过"@
            },
            ..app
        },
        AgentEventView::Usage { input_tokens, output_tokens, .. } => AppView {
            usage: (input_tokens, output_tokens),
            ..app
        },
        AgentEventView::Notice(t) => AppView { cells: app.cells.push(CellView::Notice(t)), ..app },
        AgentEventView::Error(t) => AppView {
            overlay: if app.overlay matches Some(OverlayView::Loading { .. }) {
                None
            } else {
                app.overlay
            },
            cells: app.cells.push(CellView::Error(t)),
            ..app
        },
        AgentEventView::ConversationCleared => AppView {
            cells: seq![CellView::Notice("会话已清空"@)],
            usage: (0, 0),
            ..app
        },
        AgentEventView::ProviderChanged { label } => AppView { provider_label: label, ..app },
        AgentEventView::SessionsListed { current_id, sessions } => if awaits_sessions(app.overlay) {
            AppView {
                overlay: Some(
                    OverlayView::Picker {
                        kind: PickerKind::Session,
                        picker: opened("恢复会话"@, session_items(current_id, sessions)),
                    },
                ),
                ..app
            }
        } else {
            app
        },
        AgentEventView::SessionLoaded { id, entries, input_tokens, output_tokens, .. } => AppView {
            session_id: id,
            usage: (input_tokens, output_tokens),
            cells: session_cells(entries).push(
                CellView::Notice(
                    "已恢复会话 "@ + short_of(id, 0) + "("@ + dec(
                        messages_in(payloads_of(entries)),
                    ) + " 条历史消息,"@ + dec(entries.len()) + " 条事实)"@,
                ),
            ),
            scroll_up: 0,
            ..app
        },
        AgentEventView::TurnFinished { cancelled } => AppView {
            busy: false,
            status_note: seq![],
            cells: if cancelled {
                all_closed(app.cells).push(CellView::Notice("已取消"@))
            } else {
                all_closed(app.cells)
            },
            ..app
        },
    }
}

impl App {
    /// A front end that has shown nothing yet.
    pub fn new(
        provider_label: String,
        session_id: String,
        provider_names: Vec<String>,
        model_names: Vec<String>,
    ) -> (a: App)
        ensures
            a.deep_view() == (AppView {
                cells: seq![],
                input: no_input(),
                overlay: None,
                slash_selected: 0,
                slash_dismissed: None,
                history: seq![],
                history_idx: None,
                history_draft: seq![],
                busy: false,
                status_note: seq![],
                provider_label: provider_label@,
                session_id: session_id@,
                usage: (0, 0),
                scroll_up: 0,
                last_transcript_height: 20,
                quit_armed_at: None,
                should_quit: false,
                force_clear: false,
                provider_names: provider_names.deep_view(),
                model_names: model_names.deep_view(),
                out: seq![],
            }),
    {
        let draft = String::new();
        let note = String::new();
        assert(draft@ =~= seq![]);
        assert(note@ =~= seq![]);
        App {
            transcript: Transcript::default(),
            input: InputBox::default(),
            overlay: None,
            slash_selected: 0,
            slash_dismissed: None,
            history: empty(),
            history_idx: None,
            history_draft: draft,
            busy: false,
            status_note: note,
            provider_label,
            session_id,
            usage: (0, 0),
            scroll_up: 0,
            last_transcript_height: 20,
            quit_armed_at: None,
            should_quit: false,
            force_clear: false,
            provider_names,
            model_names,
            out: empty(),
        }
    }

    fn restore_message(&mut self, message: &ChatMessage, entries: &Vec<SessionEntry>)
        ensures
            final(self).deep_view() == (AppView {
                cells: message_cells(
                    old(self).deep_view().cells,
                    message.deep_view(),
                    batch_blocks(payloads_of(entries.deep_view())),
                ),
                ..old(self).deep_view()
            }),
    {
        let ghost log = batch_blocks(payloads_of(entries.deep_view()));
        let ghost start = self.deep_view();
        let ghost all = message.deep_view().blocks;
        let blocks = &message.blocks;
        let mut i: usize = 0;
        let user = matches!(message.role, Role::User);
        while i < blocks.len()
            invariant
                i <= blocks@.len(),
                all == blocks.deep_view(),
                log == batch_blocks(payloads_of(entries.deep_view())),
                self.deep_view() == (AppView {
                    cells: if user {
                        user_cells(start.cells, all.take(i as int))
                    } else {
                        answer_cells(start.cells, all.take(i as int), log)
                    },
                    ..start
                }),
            decreases blocks@.len() - i,
        {
            proof {
                take_next(all, i as int);
            }
            assert(all[i as int] == blocks@[i as int].deep_view());
            match &blocks[i] {
                Block::Text(text) => {
                    if user {
                        self.transcript.push_user(text.clone());
                    } else {
                        self.transcript.append_assistant(text.as_str());
                    }
                },
                Block::Thinking { text, .. } => {
                    if !user && text.as_str().unicode_len() > 0 {
                        self.transcript.append_thinking(text.as_str());
                    }
                },
                Block::ToolUse { id, name, input } => {
                    if !user {
                        self.transcript.push_tool(id.clone(), name.clone(), args_summary(input));
                        if let Some((content, is_error)) = find_result(entries, id.as_str()) {
                            self.transcript.finish_tool(
                                id.as_str(),
                                truncate_middle(content.as_str(), 4000),
                                is_error,
                            );
                        }
                    }
                },
                Block::ToolResult { .. } => {},
            }
            i = i + 1;
        }
        proof {
            take_all(all);
        }
        if !user {
            self.transcript.close_open_cells();
        }
    }

    /// Shows a session as its facts tell it.
    pub fn restore_transcript(&mut self, entries: &Vec<SessionEntry>)
        ensures
            final(self).deep_view() == (AppView {
                cells: session_cells(entries.deep_view()),
                ..old(self).deep_view()
            }),
    {
        let ghost facts = payloads_of(entries.deep_view());
        let ghost log = batch_blocks(facts);
        let ghost start = self.deep_view();
        self.transcript.clear();
        let mut i: usize = 0;
        while i < entries.len()
            invariant
                i <= entries@.len(),
                facts == payloads_of(entries.deep_view()),
                facts.len() == entries@.len(),
                log == batch_blocks(facts),
                self.deep_view() == (AppView {
                    cells: facts_cells(facts.take(i as int), log),
                    ..start
                }),
            decreases entries@.len() - i,
        {
            proof {
                take_next(facts, i as int);
            }
            assert(facts[i as int] == entries@[i as int].payload.deep_view());
            match &entries[i].payload {
                SessionEntryPayload::Message(record) => {
                    self.restore_message(&record.message, entries);
                },
                SessionEntryPayload::Notice(notice) => {
                    self.transcript.push_notice(notice.text.clone());
                },
                SessionEntryPayload::Compaction(compaction) => {
                    self.transcript.push_notice(
                        concat3(
                            "—— 历史已压缩(压缩前约 ",
                            decimal(compaction.tokens_before).as_str(),
                            " tokens);此后模型视图从摘要开始 ——",
                        ),
                    );
                },
                SessionEntryPayload::ModelChange(change) => {
                    self.transcript.push_notice(concat2("模型切换: ", change.provider.as_str()));
                },
                SessionEntryPayload::Artifact(_) => {},
                SessionEntryPayload::PlanUpdated(_) => {},
                SessionEntryPayload::PlanReminder(_) => {},
            }
            i = i + 1;
        }
        proof {
            take_all(facts);
        }
    }

    /// Takes in an event of the runtime.
    pub fn on_agent_event(&mut self, event: AgentEvent)
        ensures
            final(self).deep_view() == event_shown(old(self).deep_view(), event.deep_view()),
    {
        match event {
            AgentEvent::UserMessage(t) => self.transcript.push_user(t),
            AgentEvent::TurnStarted => {
                self.busy = true;
                self.status_note = "思考中".to_owned();
            },
            AgentEvent::AssistantDelta(t) => self.transcript.append_assistant(t.as_str()),
            AgentEvent::ThinkingDelta(t) => self.transcript.append_thinking(t.as_str()),
            AgentEvent::AssistantMessage(t) => self.transcript.finalize_assistant(t),
            AgentEvent::ToolCallPending { name } => {
                self.status_note = concat3("正在生成 ", name.as_str(), " 的参数");
            },
            AgentEvent::ToolCallStarted { id, name, summary } => {
                self.status_note = concat2("执行 ", name.as_str());
                self.transcript.push_tool(id, name, summary);
            },
            AgentEvent::ToolCallUpdated { output, .. } => {
                self.status_note = concat2("工具进度: ", output.ui_text());
            },
            AgentEvent::ToolCallFinished { id, output, error, .. } => {
                self.status_note = "思考中".to_owned();
                self.transcript.finish_tool(
                    id.as_str(),
                    output.ui_text().to_owned(),
                    error.is_some(),
                );
            },
            AgentEvent::PermissionRequested { request } => {
                self.status_note = concat2("等待审批: ", request.tool.as_str());
                self.overlay = Some(Overlay::Approval(request));
            },
            AgentEvent::PermissionResolved { request_id, allowed } => {
                let ours = match &self.overlay {
                    Some(Overlay::Approval(request)) => same(
                        request.request_id.as_str(),
                        request_id.as_str(),
                    ),
                    _ => false,
                };
                if ours {
                    self.overlay = None;
                }
                self.status_note = if allowed {
                    "审批通过，正在执行".to_owned()
                } else {
                    "审批未通过".to_owned()
                };
            },
            AgentEvent::Usage { input_tokens, output_tokens, .. } => {
                self.usage = (input_tokens, output_tokens);
            },
            AgentEvent::Notice(t) => self.transcript.push_notice(t),
            AgentEvent::Error(t) => {
                if let Some(Overlay::Loading { .. }) = &self.overlay {
                    self.overlay = None;
                }
                self.transcript.push_error(t);
            },
            AgentEvent::ConversationCleared => {
                self.transcript.clear();
                self.usage = (0, 0);
                self.transcript.push_notice("会话已清空".to_owned());
                assert(self.transcript.deep_view() =~= seq![CellView::Notice("会话已清空"@)]);
            },
            AgentEvent::ProviderChanged { label } => {
                self.provider_label = label;
            },
            AgentEvent::SessionsListed { current_id, sessions } => {
                let waiting = match &self.overlay {
                    Some(Overlay::Loading { kind, .. }) => *kind == PickerKind::Session,
                    _ => false,
                };
                if waiting {
                    let items = list_sessions(current_id.as_str(), &sessions);
                    self.overlay = Some(
                        Overlay::Picker {
                            kind: PickerKind::Session,
                            picker: Picker::new("恢复会话".to_owned(), items),
                        },
                    );
                }
            },
            AgentEvent::SessionLoaded { id, entries, input_tokens, output_tokens, .. } => {
                assert(entries.deep_view().len() == entries@.len());
                let messages = count_messages(&entries);
                self.restore_transcript(&entries);
                let mut text = concat3("已恢复会话 ", short_id(id.as_str()), "(");
                text.push_str(decimal(messages as u64).as_str());
                text.push_str(" 条历史消息,");
                text.push_str(decimal(entries.len() as u64).as_str());
                text.push_str(" 条事实)");
                self.session_id = id;
                self.usage = (input_tokens, output_tokens);
                self.transcript.push_notice(text);
                self.scroll_up = 0;
            },
            AgentEvent::TurnFinished { cancelled } => {
                self.busy = false;
                self.status_note = String::new();
                assert(self.status_note@ =~= seq![]);
                self.transcript.close_open_cells();
                if cancelled {
                    self.transcript.push_notice("已取消".to_owned());
                }
            },
        }
    }
}

// ---- The status line ----

/// What the status line suggests.
pub open spec fn hint_of(app: AppView) -> Seq<char> {
    if app.quit_armed_at is Some {
        "  再按一次 Ctrl+C 退出"@
    } else if app.scroll_up > 0 {
        "  已上翻 "@ + dec(app.scroll_up as nat) + " 行,Esc 回到底部"@
    } else if app.busy {
        "  Esc 取消"@
    } else {
        "  Enter 发送 · Shift+Enter 换行 · / 命令"@
    }
}

pub open spec fn tokens_shown(app: AppView) -> Seq<char> {
    "  ↑"@ + token_text(app.usage.0 as nat) + " ↓"@ + token_text(app.usage.1 as nat) + " "@
}

impl App {
    pub fn hint(&self) -> (s: String)
        ensures
            s@ == hint_of(self.deep_view()),
    {
        if self.quit_armed_at.is_some() {
            "  再按一次 Ctrl+C 退出".to_owned()
        } else if self.scroll_up > 0 {
            concat3(
                "  已上翻 ",
                decimal(self.scroll_up as u64).as_str(),
                " 行,Esc 回到底部",
            )
        } else if self.busy {
            "  Esc 取消".to_owned()
        } else {
            "  Enter 发送 · Shift+Enter 换行 · / 命令".to_owned()
        }
    }

    pub fn tokens(&self) -> (s: String)
        ensures
            s@ == tokens_shown(self.deep_view()),
    {
        let mut s = concat3("  ↑", fmt_tokens(self.usage.0).as_str(), " ↓");
        s.push_str(fmt_tokens(self.usage.1).as_str());
        s.push_str(" ");
        s
    }

    /// Keeps the view inside the lines that there are.
    pub fn clamp_scroll(&mut self, total: usize, height: usize)
        ensures
            final(self).deep_view() == (AppView {
                scroll_up: ({
                    let most = if total > height {
                        (total - height) as usize
                    } else {
                        0
                    };
                    if old(self).scroll_up <= most {
                        old(self).scroll_up
                    } else {
                        most
                    }
                }),
                ..old(self).deep_view()
            }),
    {
        let most = total.saturating_sub(height);
        if self.scroll_up > most {
            self.scroll_up = most;
        }
    }

    /// Forgets that leaving was announced, once two seconds are over.
    pub fn expire_quit(&mut self, now: Duration) -> (changed: bool)
        ensures
            changed == (old(self).quit_armed_at is Some && now.nanos
                > old(self).quit_armed_at->0.nanos + 2_000_000_000),
            final(self).deep_view() == (AppView {
                quit_armed_at: if changed {
                    None
                } else {
                    old(self).quit_armed_at
                },
                ..old(self).deep_view()
            }),
    {
        match self.quit_armed_at {
            Some(t) => {
                if now.nanos > t.nanos && now.nanos - t.nanos > 2_000_000_000 {
                    self.quit_armed_at = None;
                    true
                } else {
                    false
                }
            },
            None => false,
        }
    }

    /// Hands over what is to be sent.
    pub fn take_output(&mut self) -> (out: Vec<Output>)
        ensures
            out.deep_view() == old(self).deep_view().out,
            final(self).deep_view() == (AppView { out: seq![], ..old(self).deep_view() }),
    {
        let mut out: Vec<Output> = empty();
        core::mem::swap(&mut out, &mut self.out);
        out
    }
}

// ---- Laws ----

/// Events of the runtime neither send anything nor touch what is being typed.
pub proof fn law_events_leave_the_input_alone(app: AppView, event: AgentEventView)
    ensures
        event_shown(app, event).out == app.out,
        event_shown(app, event).input == app.input,
        event_shown(app, event).history == app.history,
{
}

} // verus!
