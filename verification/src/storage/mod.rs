//! What is kept on disk: where it lies, the log of a session, and the list of sessions.
//!
//! A session is a log of facts, each linked to the one before it. Facts are only ever added; the
//! one way to remove them is to clear the whole session. A batch of facts, the new end of the chain
//! and the counters are stored together or not at all.
use vstd::prelude::*;

use crate::list::{empty, pull, put, take_all, take_next};
use crate::message::{Block, BlockView, CacheUsage, ChatMessage, MessageView, Role, Usage};
use crate::session::{
    append_flaw, appends_ok, batch_blocks, batch_paired, fresh_id, names_unpaired, payloads_of,
    plan_after, uuid_form, validate_new_message_batch, validate_plan_append, EntryView, MessageRecord, PayloadView, SessionEntry, SessionEntryPayload,
};
use crate::text::{
    begins, concat2, concat3, no_later, quoted, quoted_text, same, starts_with, text_le, trim, trimmed,
};
use crate::workspace::{lowered_text, to_lower, PathStyle};

pub mod codec;
pub mod kept;
pub mod preferences;
pub mod rows;

verus! {

pub const APP_HOME_ENV: &'static str = "ONEMORE_HOME";

pub const APP_DIR_NAME: &'static str = ".onemore";

/// The layout of the database: facts, usage counters and checked plan facts.
pub const SCHEMA_VERSION: i64 = 4;

/// The first layout that has facts in place of plain messages.
pub const ENTRIES_SCHEMA_VERSION: i64 = 2;

// ---- Paths ----

#[derive(Debug)]
pub struct AppPaths {
    pub root: String,
    pub config: String,
    pub sessions: String,
    pub workspaces: String,
}

/// Whether a path ends with a separator.
pub open spec fn closed_path(style: PathStyle, path: Seq<char>) -> bool {
    path.len() == 0 || path.last() == '/' || (style == PathStyle::Windows && path.last() == '\\')
}

/// A name below a directory.
pub open spec fn below(style: PathStyle, dir: Seq<char>, name: Seq<char>) -> Seq<char> {
    if closed_path(style, dir) {
        dir + name
    } else {
        match style {
            PathStyle::Posix => dir + "/"@ + name,
            PathStyle::Windows => dir + "\\"@ + name,
        }
    }
}

pub fn join_path(style: PathStyle, dir: &str, name: &str) -> (s: String)
    ensures
        s@ == below(style, dir@, name@),
{
    let n: usize = dir.unicode_len();
    let closed = n == 0 || dir.get_char(n - 1) == '/' || (style == PathStyle::Windows && dir.get_char(
        n - 1,
    ) == '\\');
    if closed {
        concat2(dir, name)
    } else {
        match style {
            PathStyle::Posix => concat3(dir, "/", name),
            PathStyle::Windows => concat3(dir, "\\", name),
        }
    }
}

/// What the environment says about where data goes.
#[derive(Debug)]
pub struct Surroundings {
    /// The explicit choice, for tests and portable installations.
    pub app_home: Option<String>,
    /// The platform's directory for application data.
    pub data_home: Option<String>,
    /// The user's home directory.
    pub home: Option<String>,
}

/// Where the application's data lies.
pub open spec fn app_root(
    style: PathStyle,
    app_home: Option<Seq<char>>,
    data_home: Option<Seq<char>>,
    home: Option<Seq<char>>,
) -> Result<Seq<char>, Seq<char>> {
    if app_home is Some && app_home->0.len() > 0 {
        Ok(app_home->0)
    } else if data_home is Some {
        Ok(below(style, data_home->0, "onemore"@))
    } else if home is None {
        Err("无法确定用户主目录，请设置 "@ + APP_HOME_ENV@)
    } else {
        match style {
            PathStyle::Windows => Ok(
                below(
                    style,
                    below(style, below(style, home->0, "AppData"@), "Roaming"@),
                    "onemore"@,
                ),
            ),
            PathStyle::Posix => Ok(
                below(style, below(style, below(style, home->0, ".local"@), "share"@), "onemore"@),
            ),
        }
    }
}

impl AppPaths {
    /// Decides where data goes.
    pub fn discover(style: PathStyle, s: Surroundings) -> (r: Result<AppPaths, String>)
        ensures
            match app_root(
                style,
                s.app_home.deep_view(),
                s.data_home.deep_view(),
                s.home.deep_view(),
            ) {
                Ok(root) => r is Ok && r->Ok_0.root@ == root && r->Ok_0.laid_out(style),
                Err(e) => r is Err && r->Err_0@ == e,
            },
    {
        if let Some(path) = s.app_home {
            if path.as_str().unicode_len() > 0 {
                return Ok(AppPaths::from_root(style, path));
            }
        }
        if let Some(data) = s.data_home {
            return Ok(AppPaths::from_root(style, join_path(style, data.as_str(), "onemore")));
        }
        match s.home {
            None => Err(concat2("无法确定用户主目录，请设置 ", APP_HOME_ENV)),
            Some(home) => {
                let (first, second) = match style {
                    PathStyle::Windows => ("AppData", "Roaming"),
                    PathStyle::Posix => (".local", "share"),
                };
                let a = join_path(style, home.as_str(), first);
                let b = join_path(style, a.as_str(), second);
                Ok(AppPaths::from_root(style, join_path(style, b.as_str(), "onemore")))
            },
        }
    }

    /// Every file has its place below the root.
    pub open spec fn laid_out(self, style: PathStyle) -> bool {
        &&& self.config@ == below(style, self.root@, "config.toml"@)
        &&& self.sessions@ == below(style, self.root@, "sessions"@)
        &&& self.workspaces@ == below(style, self.root@, "workspaces"@)
    }

    pub fn from_root(style: PathStyle, root: String) -> (p: AppPaths)
        ensures
            p.root@ == root@,
            p.laid_out(style),
    {
        AppPaths {
            config: join_path(style, root.as_str(), "config.toml"),
            sessions: join_path(style, root.as_str(), "sessions"),
            workspaces: join_path(style, root.as_str(), "workspaces"),
            root,
        }
    }
}

/// The name that a workspace is known under.
pub open spec fn key_of(style: PathStyle, canonical: Seq<char>) -> Seq<char> {
    match style {
        PathStyle::Windows => lowered_text(canonical),
        PathStyle::Posix => canonical,
    }
}

pub fn workspace_key(style: PathStyle, canonical: &str) -> (s: String)
    ensures
        s@ == key_of(style, canonical@),
{
    match style {
        PathStyle::Windows => to_lower(canonical),
        PathStyle::Posix => canonical.to_owned(),
    }
}

// ---- The log ----

/// The facts of a batch as a chain: each is linked to the one before it, the first to `leaf`.
pub open spec fn chained(
    payloads: Seq<PayloadView>,
    ids: Seq<Seq<char>>,
    leaf: Option<Seq<char>>,
    now: i64,
) -> Seq<EntryView> {
    Seq::new(
        payloads.len(),
        |i: int|
            EntryView {
                id: ids[i],
                parent_id: if i == 0 {
                    leaf
                } else {
                    Some(ids[i - 1])
                },
                created_at: now,
                payload: payloads[i],
            },
    )
}

/// Links the facts of a batch.
pub fn chain_entries(
    payloads: Vec<SessionEntryPayload>,
    ids: Vec<String>,
    leaf: &Option<String>,
    now: i64,
) -> (out: Vec<SessionEntry>)
    requires
        ids@.len() == payloads@.len(),
    ensures
        out.deep_view() == chained(payloads.deep_view(), ids.deep_view(), leaf.deep_view(), now),
        out@.len() == payloads@.len(),
        forall|i: int|
            0 <= i < payloads@.len() ==> (#[trigger] out@[i]).payload == payloads@[i],
{
    let ghost given = payloads@;
    let ghost all = payloads.deep_view();
    let ghost names = ids.deep_view();
    let ghost goal = chained(all, names, leaf.deep_view(), now);
    let mut rest = payloads;
    let mut parent = crate::message::copy_opt_text(leaf);
    let mut out: Vec<SessionEntry> = empty();
    let n: usize = ids.len();
    let mut i: usize = 0;
    while rest.len() > 0
        invariant
            i <= n == ids@.len(),
            all.len() == ids@.len(),
            names == ids.deep_view(),
            rest.deep_view() == all.skip(i as int),
            rest.deep_view().len() == rest@.len(),
            given.len() == all.len(),
            rest@ == given.skip(i as int),
            out@.len() == i,
            forall|k: int| 0 <= k < i ==> (#[trigger] out@[k]).payload == given[k],
            goal == chained(all, names, leaf.deep_view(), now),
            out.deep_view() == goal.take(i as int),
            parent.deep_view() == (if i == 0 {
                leaf.deep_view()
            } else {
                Some(names[i - 1])
            }),
        decreases rest@.len(),
    {
        proof {
            take_next(goal, i as int);
            assert(all.skip(i as int)[0] == all[i as int]);
            assert(all.skip(i as int).drop_first() =~= all.skip(i + 1));
            assert(given.skip(i as int)[0] == given[i as int]);
            assert(given.skip(i as int).drop_first() =~= given.skip(i + 1));
        }
        let payload = pull(&mut rest);
        let id = ids[i].clone();
        let entry = SessionEntry { id: id.clone(), parent_id: parent, created_at: now, payload };
        put(&mut out, entry);
        parent = Some(id);
        i = i + 1;
    }
    proof {
        take_all(goal);
    }
    out
}

/// A batch is chained to the end of the log, and its last fact is the new end.
pub proof fn law_batches_form_one_chain(
    payloads: Seq<PayloadView>,
    ids: Seq<Seq<char>>,
    leaf: Option<Seq<char>>,
    now: i64,
)
    requires
        ids.len() == payloads.len(),
        payloads.len() > 0,
    ensures
        chained(payloads, ids, leaf, now)[0].parent_id == leaf,
        forall|i: int, j: int|
            0 <= i && j == i + 1 && j < payloads.len() ==> (#[trigger] chained(
                payloads,
                ids,
                leaf,
                now,
            )[j]).parent_id == Some((#[trigger] chained(payloads, ids, leaf, now)[i]).id),
        new_leaf(chained(payloads, ids, leaf, now), leaf) == Some(ids.last()),
        payloads_of(chained(payloads, ids, leaf, now)) == payloads,
{
    assert(payloads_of(chained(payloads, ids, leaf, now)) =~= payloads);
}

/// The end of the chain after some facts.
pub open spec fn new_leaf(entries: Seq<EntryView>, leaf: Option<Seq<char>>) -> Option<Seq<char>> {
    if entries.len() == 0 {
        leaf
    } else {
        Some(entries.last().id)
    }
}

/// The first text of a message that is more than white space.
pub open spec fn opening_text(blocks: Seq<BlockView>) -> Option<Seq<char>>
    decreases blocks.len(),
{
    if blocks.len() == 0 {
        None
    } else {
        match opening_text(blocks.drop_last()) {
            Some(t) => Some(t),
            None => match blocks.last() {
                BlockView::Text(t) => if trimmed(t).len() > 0 {
                    Some(trimmed(t))
                } else {
                    None
                },
                _ => None,
            },
        }
    }
}

pub open spec fn first_chars(text: Seq<char>, n: nat) -> Seq<char> {
    if text.len() <= n {
        text
    } else {
        text.take(n as int)
    }
}

/// What a fact offers as a session's title: the beginning of what the user said.
pub open spec fn title_in(payload: PayloadView) -> Seq<char> {
    match payload {
        PayloadView::Message { message, .. } => if message.role == Role::User {
            match opening_text(message.blocks) {
                Some(t) => first_chars(t, 80),
                None => seq![],
            }
        } else {
            seq![]
        },
        _ => seq![],
    }
}

/// What a batch offers as a title: the first that one of its facts offers.
pub open spec fn title_of(payloads: Seq<PayloadView>) -> Seq<char>
    decreases payloads.len(),
{
    if payloads.len() == 0 {
        seq![]
    } else {
        let before = title_of(payloads.drop_last());
        if before.len() > 0 {
            before
        } else {
            title_in(payloads.last())
        }
    }
}

fn read_opening(blocks: &Vec<Block>) -> (r: Option<&str>)
    ensures
        r.deep_view() == opening_text(blocks.deep_view()),
{
    let ghost all = blocks.deep_view();
    let mut i: usize = 0;
    while i < blocks.len()
        invariant
            i <= blocks@.len(),
            all == blocks.deep_view(),
            opening_text(all.take(i as int)) is None,
        decreases blocks@.len() - i,
    {
        proof {
            take_next(all, i as int);
        }
        if let Block::Text(t) = &blocks[i] {
            let t = trim(t.as_str());
            if t.unicode_len() > 0 {
                proof {
                    opening_stays(all, i + 1);
                }
                return Some(t);
            }
        }
        i = i + 1;
    }
    proof {
        take_all(all);
    }
    None
}

proof fn opening_stays(blocks: Seq<BlockView>, n: int)
    requires
        0 <= n <= blocks.len(),
        opening_text(blocks.take(n)) is Some,
    ensures
        opening_text(blocks) == opening_text(blocks.take(n)),
    decreases blocks.len() - n,
{
    if n < blocks.len() {
        take_next(blocks, n);
        opening_stays(blocks, n + 1);
    } else {
        take_all(blocks);
    }
}

fn read_title(payload: &SessionEntryPayload) -> (s: String)
    ensures
        s@ == title_in(payload.deep_view()),
{
    if let SessionEntryPayload::Message(record) = payload {
        if record.message.role == Role::User {
            if let Some(t) = read_opening(&record.message.blocks) {
                if t.unicode_len() <= 80 {
                    return t.to_owned();
                }
                let head = t.substring_char(0, 80);
                assert(head@ =~= t@.take(80));
                return head.to_owned();
            }
        }
    }
    String::new()
}

pub fn batch_title(payloads: &Vec<SessionEntryPayload>) -> (s: String)
    ensures
        s@ == title_of(payloads.deep_view()),
{
    let ghost all = payloads.deep_view();
    let mut title = String::new();
    let mut i: usize = 0;
    while i < payloads.len()
        invariant
            i <= payloads@.len(),
            all == payloads.deep_view(),
            title@ == title_of(all.take(i as int)),
        decreases payloads@.len() - i,
    {
        proof {
            take_next(all, i as int);
        }
        if title.as_str().unicode_len() == 0 {
            title = read_title(&payloads[i]);
        }
        i = i + 1;
    }
    proof {
        take_all(all);
    }
    title
}

/// The header of a session.
#[derive(Debug)]
pub struct SessionHeader {
    pub title: String,
    pub updated_at: i64,
    pub usage: Usage,
    pub leaf_id: Option<String>,
}

#[verifier::ext_equal]
pub struct HeaderView {
    pub title: Seq<char>,
    pub updated_at: i64,
    pub usage: Usage,
    pub leaf_id: Option<Seq<char>>,
}

impl DeepView for SessionHeader {
    type V = HeaderView;

    open spec fn deep_view(&self) -> HeaderView {
        HeaderView {
            title: self.title@,
            updated_at: self.updated_at,
            usage: self.usage,
            leaf_id: self.leaf_id.deep_view(),
        }
    }
}

/// What a batch writes: its facts and the new header.
#[derive(Debug)]
pub struct Commit {
    pub entries: Vec<SessionEntry>,
    pub header: SessionHeader,
}

/// The header after a batch. The title is set once.
pub open spec fn header_after(
    header: HeaderView,
    entries: Seq<EntryView>,
    usage: Usage,
    now: i64,
) -> HeaderView {
    HeaderView {
        title: if header.title.len() == 0 {
            title_of(payloads_of(entries))
        } else {
            header.title
        },
        updated_at: now,
        usage,
        leaf_id: new_leaf(entries, header.leaf_id),
    }
}

pub open spec fn debug_opt(text: Option<Seq<char>>) -> Seq<char> {
    match text {
        None => "None"@,
        Some(t) => "Some("@ + quoted_text(t) + ")"@,
    }
}

fn print_opt(text: &Option<String>) -> (s: String)
    ensures
        s@ == debug_opt(text.deep_view()),
{
    match text {
        None => "None".to_owned(),
        Some(t) => concat3("Some(", quoted(t.as_str()).as_str(), ")"),
    }
}

fn same_opt(a: &Option<String>, b: &Option<String>) -> (r: bool)
    ensures
        r == (a.deep_view() == b.deep_view()),
{
    match (a, b) {
        (None, None) => true,
        (Some(x), Some(y)) => same(x.as_str(), y.as_str()),
        _ => false,
    }
}

/// The error where the stored end of the chain is not the expected one.
pub open spec fn leaf_error(expected: Option<Seq<char>>, stored: Option<Seq<char>>) -> Seq<char> {
    "会话链尾不一致(内存 "@ + debug_opt(expected) + ",库内 "@ + debug_opt(stored)
        + "),拒绝追加"@
}

/// A batch that may be stored: its tool calls are paired and its plan facts advance the plan.
pub open spec fn batch_ok(existing: Seq<EntryView>, payloads: Seq<PayloadView>) -> bool {
    batch_paired(payloads) && appends_ok(plan_after(payloads_of(existing)), payloads)
}

/// Whether a text says why a batch is not stored: a call that is not paired, else a plan update
/// that may not follow, else another end of the chain than the expected one.
pub open spec fn refused(
    existing: Seq<EntryView>,
    payloads: Seq<PayloadView>,
    leaf: Option<Seq<char>>,
    stored_leaf: Option<Seq<char>>,
    text: Seq<char>,
) -> bool {
    if !batch_paired(payloads) {
        names_unpaired(batch_blocks(payloads), text)
    } else if !appends_ok(plan_after(payloads_of(existing)), payloads) {
        append_flaw(plan_after(payloads_of(existing)), payloads) == Some(text)
    } else {
        leaf != stored_leaf && text == leaf_error(leaf, stored_leaf)
    }
}

/// Decides about a batch whose facts get the given ids. `leaf` is where the caller thinks the chain
/// ends, `header` what is stored. Nothing is stored unless everything is.
pub fn prepare_commit(
    existing: &Vec<SessionEntry>,
    payloads: Vec<SessionEntryPayload>,
    ids: Vec<String>,
    leaf: &Option<String>,
    header: SessionHeader,
    usage: Usage,
    now: i64,
) -> (r: Result<Commit, String>)
    requires
        ids@.len() == payloads@.len(),
    ensures
        r is Ok <==> batch_ok(existing.deep_view(), payloads.deep_view()) && leaf.deep_view()
            == header.deep_view().leaf_id,
        r is Err ==> refused(
            existing.deep_view(),
            payloads.deep_view(),
            leaf.deep_view(),
            header.deep_view().leaf_id,
            r->Err_0@,
        ),
        r is Ok ==> r->Ok_0.entries@.len() == payloads@.len() && forall|i: int|
            0 <= i < payloads@.len() ==> (#[trigger] r->Ok_0.entries@[i]).payload == payloads@[i],
        r is Ok ==> ({
            let entries = chained(
                payloads.deep_view(),
                ids.deep_view(),
                leaf.deep_view(),
                now,
            );
            &&& r->Ok_0.entries.deep_view() == entries
            &&& r->Ok_0.header.deep_view() == header_after(header.deep_view(), entries, usage, now)
        }),
{
    if let Err(reason) = validate_new_message_batch(payloads.as_slice()) {
        return Err(reason);
    }
    if let Err(error) = validate_plan_append(existing.as_slice(), payloads.as_slice()) {
        return Err(error.message);
    }
    if !same_opt(leaf, &header.leaf_id) {
        let mut text = concat3("会话链尾不一致(内存 ", print_opt(leaf).as_str(), ",库内 ");
        text.push_str(print_opt(&header.leaf_id).as_str());
        text.push_str("),拒绝追加");
        return Err(text);
    }
    let offered = batch_title(&payloads);
    let SessionHeader { title, updated_at: _, usage: _, leaf_id } = header;
    let next_leaf = if ids.len() == 0 {
        leaf_id
    } else {
        Some(ids[ids.len() - 1].clone())
    };
    let ghost views = payloads.deep_view();
    let entries = chain_entries(payloads, ids, leaf, now);
    proof {
        assert(payloads_of(entries.deep_view()) =~= views);
    }
    let title = if title.as_str().unicode_len() == 0 {
        offered
    } else {
        title
    };
    Ok(Commit { entries, header: SessionHeader { title, updated_at: now, usage, leaf_id: next_leaf } })
}

/// Fresh ids for the facts of a batch.
pub fn fresh_ids(n: usize) -> (ids: Vec<String>)
    ensures
        ids@.len() == n,
        forall|i: int| 0 <= i < n ==> uuid_form((#[trigger] ids@[i])@),
{
    let mut ids: Vec<String> = Vec::new();
    let mut i: usize = 0;
    while i < n
        invariant
            i <= n,
            ids@.len() == i,
            forall|k: int| 0 <= k < i ==> uuid_form((#[trigger] ids@[k])@),
        decreases n - i,
    {
        ids.push(fresh_id());
        i = i + 1;
    }
    ids
}

/// Decides about a batch under fresh ids.
pub fn append_payloads(
    existing: &Vec<SessionEntry>,
    payloads: Vec<SessionEntryPayload>,
    leaf: &Option<String>,
    header: SessionHeader,
    usage: Usage,
    now: i64,
) -> (r: Result<Commit, String>)
    ensures
        r is Ok <==> batch_ok(existing.deep_view(), payloads.deep_view()) && leaf.deep_view()
            == header.deep_view().leaf_id,
        r is Err ==> refused(
            existing.deep_view(),
            payloads.deep_view(),
            leaf.deep_view(),
            header.deep_view().leaf_id,
            r->Err_0@,
        ),
        r is Ok ==> r->Ok_0.entries@.len() == payloads@.len() && forall|i: int|
            0 <= i < payloads@.len() ==> (#[trigger] r->Ok_0.entries@[i]).payload == payloads@[i],
        r is Ok ==> exists|ids: Seq<Seq<char>>|
            ids.len() == payloads@.len() && r->Ok_0.entries.deep_view() == #[trigger] chained(
                payloads.deep_view(),
                ids,
                leaf.deep_view(),
                now,
            ),
        r is Ok ==> r->Ok_0.header.deep_view() == header_after(
            header.deep_view(),
            r->Ok_0.entries.deep_view(),
            usage,
            now,
        ),
{
    let ids = fresh_ids(payloads.len());
    prepare_commit(existing, payloads, ids, leaf, header, usage, now)
}

/// The header of a session without facts.
pub open spec fn blank_header(now: i64) -> HeaderView {
    HeaderView {
        title: ""@,
        updated_at: now,
        usage: Usage { input_tokens: 0, output_tokens: 0, cache: None },
        leaf_id: None,
    }
}

/// A session that holds nothing: a new one, or one that was cleared.
pub fn cleared(now: i64) -> (h: SessionHeader)
    ensures
        h.deep_view() == blank_header(now),
{
    SessionHeader {
        title: "".to_owned(),
        updated_at: now,
        usage: Usage::default(),
        leaf_id: None,
    }
}

/// The counters of a stored session; the cache part is known as soon as one of its counters is.
pub open spec fn stored_usage(
    input_tokens: u64,
    output_tokens: u64,
    read: Option<u64>,
    write: Option<u64>,
) -> Usage {
    Usage {
        input_tokens,
        output_tokens,
        cache: if read is None && write is None {
            None
        } else {
            Some(
                CacheUsage {
                    read_tokens: if read is Some {
                        read->0
                    } else {
                        0
                    },
                    write_tokens: if write is Some {
                        write->0
                    } else {
                        0
                    },
                },
            )
        },
    }
}

pub fn read_usage(input_tokens: u64, output_tokens: u64, read: Option<u64>, write: Option<u64>) -> (u:
    Usage)
    ensures
        u == stored_usage(input_tokens, output_tokens, read, write),
{
    let cache = match (read, write) {
        (None, None) => None,
        (Some(r), Some(w)) => Some(CacheUsage { read_tokens: r, write_tokens: w }),
        (Some(r), None) => Some(CacheUsage { read_tokens: r, write_tokens: 0 }),
        (None, Some(w)) => Some(CacheUsage { read_tokens: 0, write_tokens: w }),
    };
    Usage { input_tokens, output_tokens, cache }
}

/// The columns of a usage count.
pub fn usage_columns(usage: Usage) -> (r: (Option<u64>, Option<u64>))
    ensures
        stored_usage(usage.input_tokens, usage.output_tokens, r.0, r.1) == usage,
        usage.cache is None ==> r.0 is None && r.1 is None,
{
    match usage.cache {
        Some(cache) => (Some(cache.read_tokens), Some(cache.write_tokens)),
        None => (None, None),
    }
}

/// Whether a stored session may be opened here, and where its chain ends.
pub fn check_owner(row: Option<(String, Option<String>)>, id: &str, path: &str, workspace: &str) -> (r:
    Result<Option<String>, String>)
    ensures
        match row {
            Some((stored, leaf)) => if stored@ == workspace@ {
                r is Ok && r->Ok_0.deep_view() == leaf.deep_view()
            } else {
                r is Err && r->Err_0@ == "会话 "@ + id@ + " 不属于当前 workspace"@
            },
            None => r is Err && r->Err_0@ == "会话数据库 "@ + path@ + " 缺少元数据"@,
        },
{
    match row {
        Some((stored, leaf)) => if same(stored.as_str(), workspace) {
            Ok(leaf)
        } else {
            Err(concat3("会话 ", id, " 不属于当前 workspace"))
        },
        None => Err(concat3("会话数据库 ", path, " 缺少元数据")),
    }
}

/// The plain messages of an old database as facts.
pub open spec fn as_facts(messages: Seq<MessageView>) -> Seq<PayloadView> {
    Seq::new(
        messages.len(),
        |i: int|
            PayloadView::Message { message: messages[i], usage: None, prompt_fingerprint: None },
    )
}

/// Turns the messages of an old database into a chain of facts, in their order.
pub fn migrate_messages(messages: Vec<ChatMessage>, ids: Vec<String>, created_at: i64) -> (out: Vec<
    SessionEntry,
>)
    requires
        ids@.len() == messages@.len(),
    ensures
        out.deep_view() == chained(
            as_facts(messages.deep_view()),
            ids.deep_view(),
            None,
            created_at,
        ),
{
    let ghost all = messages.deep_view();
    let ghost goal = as_facts(all);
    let mut rest = messages;
    let mut payloads: Vec<SessionEntryPayload> = empty();
    let ghost mut done: int = 0;
    while rest.len() > 0
        invariant
            0 <= done <= all.len(),
            goal == as_facts(all),
            rest.deep_view() == all.skip(done),
            rest.deep_view().len() == rest@.len(),
            payloads.deep_view() == goal.take(done),
        decreases rest@.len(),
    {
        proof {
            take_next(goal, done);
            assert(all.skip(done)[0] == all[done]);
            assert(all.skip(done).drop_first() =~= all.skip(done + 1));
        }
        let message = pull(&mut rest);
        put(
            &mut payloads,
            SessionEntryPayload::Message(
                MessageRecord { message, usage: None, prompt_fingerprint: None },
            ),
        );
        proof {
            done = done + 1;
        }
    }
    proof {
        take_all(goal);
    }
    assert(payloads.deep_view().len() == payloads@.len());
    chain_entries(payloads, ids, &None, created_at)
}

// ---- The list of sessions ----

#[derive(Debug)]
pub struct SessionSummary {
    pub id: String,
    pub title: String,
    /// How many messages the session holds; other facts do not count.
    pub message_count: usize,
    pub updated_at: i64,
}

#[verifier::ext_equal]
pub struct SummaryView {
    pub id: Seq<char>,
    pub title: Seq<char>,
    pub message_count: usize,
    pub updated_at: i64,
}

impl DeepView for SessionSummary {
    type V = SummaryView;

    open spec fn deep_view(&self) -> SummaryView {
        SummaryView {
            id: self.id@,
            title: self.title@,
            message_count: self.message_count,
            updated_at: self.updated_at,
        }
    }
}

/// Whether a session is listed no later than another one: the one that was used last comes first.
pub open spec fn summary_le(a: SummaryView, b: SummaryView) -> bool {
    a.updated_at > b.updated_at || (a.updated_at == b.updated_at && text_le(b.id, a.id))
}

pub open spec fn insert_summary(s: Seq<SummaryView>, x: SummaryView) -> Seq<SummaryView>
    decreases s.len(),
{
    if s.len() == 0 {
        seq![x]
    } else if summary_le(s.last(), x) {
        s.push(x)
    } else {
        insert_summary(s.drop_last(), x).push(s.last())
    }
}

/// The sessions as they are listed.
pub open spec fn listed(s: Seq<SummaryView>) -> Seq<SummaryView>
    decreases s.len(),
{
    if s.len() == 0 {
        seq![]
    } else {
        insert_summary(listed(s.drop_last()), s.last())
    }
}

fn summary_no_later(a: &SessionSummary, b: &SessionSummary) -> (r: bool)
    ensures
        r == summary_le(a.deep_view(), b.deep_view()),
{
    a.updated_at > b.updated_at || (a.updated_at == b.updated_at && no_later(
        b.id.as_str(),
        a.id.as_str(),
    ))
}

fn put_summary(list: &mut Vec<SessionSummary>, x: SessionSummary)
    ensures
        final(list).deep_view() == insert_summary(old(list).deep_view(), x.deep_view()),
{
    let ghost before = list.deep_view();
    let ghost v = x.deep_view();
    let mut i: usize = list.len();
    assert(before.take(before.len() as int) =~= before);
    assert(before.skip(before.len() as int) =~= seq![]);
    while i > 0 && !summary_no_later(&list[i - 1], &x)
        invariant
            i <= list@.len(),
            before == list.deep_view(),
            v == x.deep_view(),
            insert_summary(before, v) == insert_summary(before.take(i as int), v) + before.skip(
                i as int,
            ),
        decreases i,
    {
        i = i - 1;
        proof {
            let shorter = before.take(i + 1);
            assert(shorter.drop_last() =~= before.take(i as int));
            assert(shorter.last() == before[i as int]);
            assert(insert_summary(before.take(i as int), v).push(before[i as int]) + before.skip(
                i + 1,
            ) =~= insert_summary(before.take(i as int), v) + before.skip(i as int));
        }
    }
    list.insert(i, x);
    proof {
        assert(list.deep_view() =~= before.take(i as int).push(v) + before.skip(i as int));
        if i > 0 {
            assert(before.take(i as int).last() == before[i - 1]);
        } else {
            assert(before.take(0).push(v) =~= seq![v]);
        }
    }
}

pub fn sort_sessions(sessions: Vec<SessionSummary>) -> (out: Vec<SessionSummary>)
    ensures
        out.deep_view() == listed(sessions.deep_view()),
{
    let ghost all = sessions.deep_view();
    let mut rest = sessions;
    let mut out: Vec<SessionSummary> = empty();
    let ghost mut done: int = 0;
    while rest.len() > 0
        invariant
            0 <= done <= all.len(),
            rest.deep_view() == all.skip(done),
            rest.deep_view().len() == rest@.len(),
            out.deep_view() == listed(all.take(done)),
        decreases rest@.len(),
    {
        proof {
            take_next(all, done);
            assert(all.skip(done)[0] == all[done]);
            assert(all.skip(done).drop_first() =~= all.skip(done + 1));
        }
        let x = pull(&mut rest);
        put_summary(&mut out, x);
        proof {
            done = done + 1;
        }
    }
    proof {
        take_all(all);
    }
    out
}

proof fn inserted_in_order(s: Seq<SummaryView>, x: SummaryView)
    requires
        forall|i: int, j: int|
            0 <= i <= j < s.len() ==> (#[trigger] s[i]).updated_at >= (#[trigger] s[j]).updated_at,
    ensures
        insert_summary(s, x).len() == s.len() + 1,
        forall|i: int|
            0 <= i < insert_summary(s, x).len() ==> (#[trigger] insert_summary(s, x)[i] == x
                || s.contains(insert_summary(s, x)[i])),
        forall|i: int, j: int|
            0 <= i <= j < insert_summary(s, x).len() ==> (#[trigger] insert_summary(s, x)[i]).updated_at
                >= (#[trigger] insert_summary(s, x)[j]).updated_at,
        insert_summary(s, x).to_multiset() == s.to_multiset().insert(x),
    decreases s.len(),
{
    broadcast use vstd::seq_lib::group_to_multiset_ensures;

    if s.len() == 0 {
        assert(seq![x] =~= s.push(x));
    } else if summary_le(s.last(), x) {
        let t = s.push(x);
        assert forall|i: int| 0 <= i < t.len() implies (#[trigger] t[i] == x || s.contains(t[i])) by {
            if i < s.len() {
                assert(s[i] == t[i]);
            }
        }
        assert forall|i: int, j: int| 0 <= i <= j < t.len() implies (#[trigger] t[i]).updated_at >= (
        #[trigger] t[j]).updated_at by {
            if j == s.len() && i < j {
                assert(s[i].updated_at >= s[s.len() - 1].updated_at);
            }
        }
    } else {
        let u = s.drop_last();
        assert forall|i: int, j: int| 0 <= i <= j < u.len() implies (#[trigger] u[i]).updated_at >= (
        #[trigger] u[j]).updated_at by {
            assert(s[i].updated_at >= s[j].updated_at);
        }
        inserted_in_order(u, x);
        let v = insert_summary(u, x);
        let t = v.push(s.last());
        assert forall|i: int| 0 <= i < v.len() implies (#[trigger] v[i]).updated_at
            >= s.last().updated_at by {
            if v[i] != x {
                assert(u.contains(v[i]));
                let k = choose|k: int| 0 <= k < u.len() && u[k] == v[i];
                assert(s[k].updated_at >= s[s.len() - 1].updated_at);
            }
        }
        assert forall|i: int| 0 <= i < t.len() implies (#[trigger] t[i] == x || s.contains(t[i])) by {
            if i < v.len() {
                if v[i] != x {
                    assert(u.contains(v[i]));
                    let k = choose|k: int| 0 <= k < u.len() && u[k] == v[i];
                    assert(s[k] == t[i]);
                }
            } else {
                assert(s[s.len() - 1] == t[i]);
            }
        }
        assert(s =~= u.push(s.last()));
        assert(t.to_multiset() =~= s.to_multiset().insert(x));
    }
}

/// The list holds every session once, the one that was used last first.
pub proof fn law_sessions_are_listed_by_age(s: Seq<SummaryView>)
    ensures
        listed(s).to_multiset() == s.to_multiset(),
        forall|i: int, j: int|
            0 <= i <= j < listed(s).len() ==> (#[trigger] listed(s)[i]).updated_at >= (
            #[trigger] listed(s)[j]).updated_at,
    decreases s.len(),
{
    broadcast use vstd::seq_lib::group_to_multiset_ensures;

    if s.len() > 0 {
        law_sessions_are_listed_by_age(s.drop_last());
        inserted_in_order(listed(s.drop_last()), s.last());
        assert(s =~= s.drop_last().push(s.last()));
    }
}

pub open spec fn id_char(c: char) -> bool {
    ('a' <= c <= 'z') || ('A' <= c <= 'Z') || ('0' <= c <= '9') || c == '-'
}

/// The ids that begin with a text.
pub open spec fn matching(sessions: Seq<SummaryView>, prefix: Seq<char>) -> Seq<Seq<char>>
    decreases sessions.len(),
{
    if sessions.len() == 0 {
        seq![]
    } else if begins(sessions.last().id, prefix) {
        matching(sessions.drop_last(), prefix).push(sessions.last().id)
    } else {
        matching(sessions.drop_last(), prefix)
    }
}

/// The session that a request means: an id, or the beginning of just one.
pub open spec fn meant(sessions: Seq<SummaryView>, requested: Seq<char>) -> Result<Seq<char>, Seq<char>> {
    let id = trimmed(requested);
    let found = matching(sessions, id);
    if id.len() == 0 || exists|i: int| 0 <= i < id.len() && !id_char(#[trigger] id[i]) {
        Err("无效的会话 ID "@ + quoted_text(id))
    } else if found.len() == 0 {
        Err("当前 workspace 找不到会话 "@ + id)
    } else if found.len() == 1 {
        Ok(found[0])
    } else {
        Err("会话 ID 前缀 "@ + id + " 不唯一，请输入更多字符"@)
    }
}

fn well_spelt(id: &str) -> (r: bool)
    ensures
        r == !(id@.len() == 0 || exists|i: int| 0 <= i < id@.len() && !id_char(#[trigger] id@[i])),
{
    let chars = crate::text::chars_of(id);
    if chars.len() == 0 {
        return false;
    }
    let mut i: usize = 0;
    while i < chars.len()
        invariant
            i <= chars@.len(),
            chars@ == id@,
            chars@.len() > 0,
            forall|k: int| 0 <= k < i ==> id_char(#[trigger] id@[k]),
        decreases chars@.len() - i,
    {
        let c = chars[i];
        if !((c >= 'a' && c <= 'z') || (c >= 'A' && c <= 'Z') || (c >= '0' && c <= '9') || c == '-') {
            assert(!id_char(id@[i as int]));
            return false;
        }
        i = i + 1;
    }
    true
}

pub fn resolve_id(sessions: &Vec<SessionSummary>, requested: &str) -> (r: Result<String, String>)
    ensures
        match meant(sessions.deep_view(), requested@) {
            Ok(id) => r is Ok && r->Ok_0@ == id,
            Err(e) => r is Err && r->Err_0@ == e,
        },
{
    let id = trim(requested);
    if !well_spelt(id) {
        return Err(concat2("无效的会话 ID ", quoted(id).as_str()));
    }
    let ghost all = sessions.deep_view();
    let mut found: Vec<String> = empty();
    let mut i: usize = 0;
    while i < sessions.len()
        invariant
            i <= sessions@.len(),
            all == sessions.deep_view(),
            found.deep_view() == matching(all.take(i as int), id@),
        decreases sessions@.len() - i,
    {
        proof {
            take_next(all, i as int);
        }
        if starts_with(sessions[i].id.as_str(), id) {
            put(&mut found, sessions[i].id.clone());
        }
        i = i + 1;
    }
    proof {
        take_all(all);
    }
    assert(found.deep_view().len() == found@.len());
    if found.len() == 0 {
        Err(concat2("当前 workspace 找不到会话 ", id))
    } else if found.len() == 1 {
        Ok(found.remove(0))
    } else {
        Err(concat3("会话 ID 前缀 ", id, " 不唯一，请输入更多字符"))
    }
}

} // verus!
