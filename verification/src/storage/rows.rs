//! The rows of a session database: what a batch writes, what a load reads, and which changes an
//! older database needs.
use vstd::prelude::*;

use crate::json::printed_json;
use crate::list::{empty, put, take_all, take_next};
use crate::message::{copy_opt_text, ChatMessage, MessageView, Usage};
use crate::session::{kind_of, EntryView, SessionEntry, SessionEntryPayload};
use crate::storage::codec::{
    fact_json, fact_within, read_fact, read_message, readable, storable, stored_fact, stored_message,
    write_fact,
};
use crate::storage::{
    append_payloads, batch_ok, chained, header_after, refused, SessionHeader,
    ENTRIES_SCHEMA_VERSION, SCHEMA_VERSION,
};
use crate::text::{dec, same};

verus! {

// ---- Facts ----

/// A row of the table of facts.
#[derive(Debug)]
pub struct Row {
    pub id: String,
    pub parent_id: Option<String>,
    pub kind: String,
    pub payload: String,
    pub created_at: i64,
}

#[verifier::ext_equal]
pub struct RowView {
    pub id: Seq<char>,
    pub parent_id: Option<Seq<char>>,
    pub kind: Seq<char>,
    pub payload: Seq<char>,
    pub created_at: i64,
}

impl DeepView for Row {
    type V = RowView;

    open spec fn deep_view(&self) -> RowView {
        RowView {
            id: self.id@,
            parent_id: self.parent_id.deep_view(),
            kind: self.kind@,
            payload: self.payload@,
            created_at: self.created_at,
        }
    }
}

/// The row of a fact.
pub open spec fn row_of(entry: EntryView) -> RowView {
    RowView {
        id: entry.id,
        parent_id: entry.parent_id,
        kind: kind_of(entry.payload),
        payload: printed_json(fact_json(entry.payload)),
        created_at: entry.created_at,
    }
}

/// The fact of a row, where it can be read.
pub open spec fn entry_in(row: RowView) -> Option<EntryView> {
    match stored_fact(row.payload) {
        Some(payload) => Some(
            EntryView {
                id: row.id,
                parent_id: row.parent_id,
                created_at: row.created_at,
                payload,
            },
        ),
        None => None,
    }
}

/// The facts of some rows; none at all where one cannot be read.
pub open spec fn entries_in(rows: Seq<RowView>) -> Option<Seq<EntryView>>
    decreases rows.len(),
{
    if rows.len() == 0 {
        Some(seq![])
    } else {
        match (entries_in(rows.drop_last()), entry_in(rows.last())) {
            (Some(entries), Some(entry)) => Some(entries.push(entry)),
            _ => None,
        }
    }
}

/// Whether a fact can be told from its row: its text reads as what was printed, as that of every
/// fact does that is not nested too deep and has no fractional numbers.
pub open spec fn keeps(entry: SessionEntry) -> bool {
    keeps_payload(entry.payload)
}

pub open spec fn keeps_payload(payload: SessionEntryPayload) -> bool {
    storable(payload.deep_view()) && (fact_within(payload) || readable(payload.deep_view()))
}

/// The rows that store some facts. A later load gives the same facts back.
pub fn write_rows(entries: &Vec<SessionEntry>) -> (rows: Vec<Row>)
    ensures
        rows.deep_view() == entries.deep_view().map_values(|e: EntryView| row_of(e)),
        (forall|i: int| 0 <= i < entries@.len() ==> keeps(#[trigger] entries@[i])) ==> entries_in(
            rows.deep_view(),
        ) == Some(entries.deep_view()),
{
    let ghost all = entries.deep_view();
    let ghost kept = forall|i: int| 0 <= i < entries@.len() ==> keeps(#[trigger] entries@[i]);
    let mut rows: Vec<Row> = empty();
    let mut i: usize = 0;
    while i < entries.len()
        invariant
            i <= entries@.len(),
            all == entries.deep_view(),
            kept == (forall|i: int| 0 <= i < entries@.len() ==> keeps(#[trigger] entries@[i])),
            rows.deep_view() == all.take(i as int).map_values(|e: EntryView| row_of(e)),
            kept ==> entries_in(rows.deep_view()) == Some(all.take(i as int)),
        decreases entries@.len() - i,
    {
        let entry = &entries[i];
        let payload = write_fact(&entry.payload);
        let row = Row {
            id: entry.id.clone(),
            parent_id: copy_opt_text(&entry.parent_id),
            kind: entry.payload.kind().to_owned(),
            payload,
            created_at: entry.created_at,
        };
        let ghost before = rows.deep_view();
        let ghost view = row.deep_view();
        put(&mut rows, row);
        proof {
            take_next(all, i as int);
            assert(rows.deep_view().drop_last() =~= before);
            if kept {
                assert(keeps(entries@[i as int]));
                assert(entry_in(view) == Some(all[i as int]));
            }
            assert(all.take(i as int).push(all[i as int]) =~= all.take(i + 1));
            assert(rows.deep_view() =~= all.take(i + 1).map_values(|e: EntryView| row_of(e)));
        }
        i = i + 1;
    }
    proof {
        take_all(all);
    }
    rows
}

/// The facts of a session, out of its rows in their order.
pub fn read_rows(rows: Vec<Row>) -> (r: Result<Vec<SessionEntry>, String>)
    ensures
        match entries_in(rows.deep_view()) {
            Some(entries) => r is Ok && r->Ok_0.deep_view() == entries,
            None => r is Err && r->Err_0@ == "会话数据库含有无法解析的事实"@,
        },
{
    let ghost all = rows.deep_view();
    let mut entries: Vec<SessionEntry> = empty();
    let mut i: usize = 0;
    while i < rows.len()
        invariant
            i <= rows@.len(),
            all == rows.deep_view(),
            entries_in(all.take(i as int)) == Some(entries.deep_view()),
        decreases rows@.len() - i,
    {
        let row = &rows[i];
        proof {
            take_next(all, i as int);
        }
        match read_fact(row.payload.as_str()) {
            Ok(payload) => {
                put(
                    &mut entries,
                    SessionEntry {
                        id: row.id.clone(),
                        parent_id: copy_opt_text(&row.parent_id),
                        created_at: row.created_at,
                        payload,
                    },
                );
            },
            Err(e) => {
                proof {
                    unreadable_rows_stay(all, i + 1);
                }
                return Err(e);
            },
        }
        i = i + 1;
    }
    proof {
        take_all(all);
    }
    Ok(entries)
}

/// How many of some kinds are messages; facts of other kinds do not count.
pub open spec fn messages_among(kinds: Seq<Seq<char>>) -> nat
    decreases kinds.len(),
{
    if kinds.len() == 0 {
        0
    } else {
        messages_among(kinds.drop_last()) + (if kinds.last() == "message"@ {
            1nat
        } else {
            0
        })
    }
}

/// How many messages a session has, out of the kinds of its facts.
pub fn count_messages(kinds: &Vec<String>) -> (n: usize)
    ensures
        n == messages_among(kinds.deep_view()),
{
    let ghost all = kinds.deep_view();
    let mut n: usize = 0;
    let mut i: usize = 0;
    while i < kinds.len()
        invariant
            i <= kinds@.len(),
            all == kinds.deep_view(),
            n <= i,
            n == messages_among(all.take(i as int)),
        decreases kinds@.len() - i,
    {
        proof {
            take_next(all, i as int);
        }
        if same(kinds[i].as_str(), "message") {
            n = n + 1;
        }
        i = i + 1;
    }
    proof {
        take_all(all);
    }
    n
}

/// How many of some facts are messages.
pub open spec fn messages_in_log(entries: Seq<EntryView>) -> nat
    decreases entries.len(),
{
    if entries.len() == 0 {
        0
    } else {
        messages_in_log(entries.drop_last()) + (if entries.last().payload is Message {
            1nat
        } else {
            0
        })
    }
}

/// The kinds that stored facts have tell how many of them are messages.
pub proof fn law_kinds_count_the_messages(entries: Seq<EntryView>)
    ensures
        messages_among(Seq::new(entries.len(), |i: int| row_of(entries[i]).kind))
            == messages_in_log(entries),
    decreases entries.len(),
{
    let kinds = Seq::new(entries.len(), |i: int| row_of(entries[i]).kind);
    if entries.len() > 0 {
        let rest = entries.drop_last();
        law_kinds_count_the_messages(rest);
        assert(kinds.drop_last() =~= Seq::new(rest.len(), |i: int| row_of(rest[i]).kind));
        reveal_strlit("message");
        reveal_strlit("notice");
        reveal_strlit("artifact");
        reveal_strlit("compaction");
        reveal_strlit("model_change");
        reveal_strlit("plan_updated");
        reveal_strlit("plan_reminder");
        assert("message"@[0] != "notice"@[0]);
        assert("message"@[0] != "artifact"@[0]);
        assert("message"@[0] != "compaction"@[0]);
        assert("message"@.len() != "model_change"@.len());
        assert("message"@[0] != "plan_updated"@[0]);
        assert("message"@[0] != "plan_reminder"@[0]);
    }
}

/// What an append writes: the rows that are added, and the header that replaces the stored one.
#[derive(Debug)]
pub struct Append {
    pub entries: Vec<SessionEntry>,
    pub rows: Vec<Row>,
    pub header: SessionHeader,
}

/// Decides about a batch, out of the rows that are stored. Where it is taken, the stored rows and
/// the added ones together load as the facts before and the batch behind them; where it is refused,
/// there is nothing to write. An empty batch changes nothing.
pub fn append_rows(
    rows: Vec<Row>,
    payloads: Vec<SessionEntryPayload>,
    leaf: &Option<String>,
    header: SessionHeader,
    usage: Usage,
    now: i64,
) -> (r: Result<Append, String>)
    ensures
        payloads@.len() == 0 ==> r is Ok && r->Ok_0.entries@.len() == 0 && r->Ok_0.rows@.len() == 0
            && r->Ok_0.header.deep_view() == header.deep_view(),
        payloads@.len() > 0 ==> match entries_in(rows.deep_view()) {
            None => r is Err && r->Err_0@ == "会话数据库含有无法解析的事实"@,
            Some(existing) => {
                &&& r is Ok <==> batch_ok(existing, payloads.deep_view()) && leaf.deep_view()
                    == header.deep_view().leaf_id
                &&& r is Err ==> refused(
                    existing,
                    payloads.deep_view(),
                    leaf.deep_view(),
                    header.deep_view().leaf_id,
                    r->Err_0@,
                )
                &&& r is Ok ==> {
                    let added = r->Ok_0.entries.deep_view();
                    &&& exists|ids: Seq<Seq<char>>|
                        ids.len() == payloads@.len() && added == #[trigger] chained(
                            payloads.deep_view(),
                            ids,
                            leaf.deep_view(),
                            now,
                        )
                    &&& r->Ok_0.rows.deep_view() == added.map_values(|e: EntryView| row_of(e))
                    &&& r->Ok_0.header.deep_view() == header_after(
                        header.deep_view(),
                        added,
                        usage,
                        now,
                    )
                    &&& (forall|i: int|
                        0 <= i < payloads@.len() ==> keeps_payload(#[trigger] payloads@[i]))
                        ==> entries_in(rows.deep_view() + r->Ok_0.rows.deep_view()) == Some(
                        existing + added,
                    )
                }
            },
        },
{
    if payloads.len() == 0 {
        return Ok(Append { entries: empty(), rows: empty(), header });
    }
    let ghost given = payloads@;
    let ghost stored = rows.deep_view();
    let existing = match read_rows(rows) {
        Ok(existing) => existing,
        Err(e) => {
            return Err(e);
        },
    };
    let commit = match append_payloads(&existing, payloads, leaf, header, usage, now) {
        Ok(commit) => commit,
        Err(e) => {
            return Err(e);
        },
    };
    let rows = write_rows(&commit.entries);
    proof {
        if forall|i: int| 0 <= i < given.len() ==> keeps_payload(#[trigger] given[i]) {
            assert forall|i: int| 0 <= i < commit.entries@.len() implies keeps(
                #[trigger] commit.entries@[i],
            ) by {
                assert(keeps_payload(given[i]));
            }
            law_rows_load_in_order(stored, rows.deep_view());
        }
    }
    Ok(Append { entries: commit.entries, rows, header: commit.header })
}

/// Rows that are added behind others load as their facts behind those of the others.
pub proof fn law_rows_load_in_order(rows: Seq<RowView>, added: Seq<RowView>)
    requires
        entries_in(rows) is Some,
        entries_in(added) is Some,
    ensures
        entries_in(rows + added) == Some(entries_in(rows)->0 + entries_in(added)->0),
    decreases added.len(),
{
    if added.len() == 0 {
        assert(rows + added =~= rows);
        assert(entries_in(rows)->0 + entries_in(added)->0 =~= entries_in(rows)->0);
    } else {
        law_rows_load_in_order(rows, added.drop_last());
        assert((rows + added).drop_last() =~= rows + added.drop_last());
        assert(entries_in(rows)->0 + entries_in(added)->0 =~= (entries_in(rows)->0 + entries_in(
            added.drop_last(),
        )->0).push(entry_in(added.last())->0));
    }
}

proof fn unreadable_rows_stay(rows: Seq<RowView>, n: int)
    requires
        0 <= n <= rows.len(),
        entries_in(rows.take(n)) is None,
    ensures
        entries_in(rows) is None,
    decreases rows.len() - n,
{
    if n == rows.len() {
        take_all(rows);
    } else {
        take_next(rows, n);
        unreadable_rows_stay(rows, n + 1);
    }
}

// ---- Messages of older databases ----

/// A row of the table of messages that databases had before there were facts.
#[derive(Debug)]
pub struct MessageRow {
    pub sequence: u64,
    pub payload: String,
}

#[verifier::ext_equal]
pub struct MessageRowView {
    pub sequence: u64,
    pub payload: Seq<char>,
}

impl DeepView for MessageRow {
    type V = MessageRowView;

    open spec fn deep_view(&self) -> MessageRowView {
        MessageRowView { sequence: self.sequence, payload: self.payload@ }
    }
}

/// The messages of some rows, or the first row that cannot be read.
pub open spec fn messages_in(rows: Seq<MessageRowView>) -> Result<Seq<MessageView>, u64>
    decreases rows.len(),
{
    if rows.len() == 0 {
        Ok(seq![])
    } else {
        match messages_in(rows.drop_last()) {
            Err(sequence) => Err(sequence),
            Ok(messages) => match stored_message(rows.last().payload) {
                Some(message) => Ok(messages.push(message)),
                None => Err(rows.last().sequence),
            },
        }
    }
}

/// Reads all messages of an older database, or none of them.
pub fn read_messages(rows: Vec<MessageRow>) -> (r: Result<Vec<ChatMessage>, String>)
    ensures
        match messages_in(rows.deep_view()) {
            Ok(messages) => r is Ok && r->Ok_0.deep_view() == messages,
            Err(sequence) => r is Err && r->Err_0@ == "v1 消息 #"@ + dec(sequence as nat)
                + " 无法解析,迁移中止"@,
        },
{
    let ghost all = rows.deep_view();
    let mut messages: Vec<ChatMessage> = empty();
    let mut i: usize = 0;
    while i < rows.len()
        invariant
            i <= rows@.len(),
            all == rows.deep_view(),
            messages_in(all.take(i as int)) == Ok::<Seq<MessageView>, u64>(messages.deep_view()),
        decreases rows@.len() - i,
    {
        let row = &rows[i];
        proof {
            take_next(all, i as int);
        }
        match read_message(row.sequence, row.payload.as_str()) {
            Ok(message) => put(&mut messages, message),
            Err(e) => {
                proof {
                    unreadable_messages_stay(all, i + 1);
                }
                return Err(e);
            },
        }
        i = i + 1;
    }
    proof {
        take_all(all);
    }
    Ok(messages)
}

proof fn unreadable_messages_stay(rows: Seq<MessageRowView>, n: int)
    requires
        0 <= n <= rows.len(),
        messages_in(rows.take(n)) is Err,
    ensures
        messages_in(rows) == messages_in(rows.take(n)),
    decreases rows.len() - n,
{
    if n == rows.len() {
        take_all(rows);
    } else {
        take_next(rows, n);
        unreadable_messages_stay(rows, n + 1);
    }
}

// ---- Layouts ----

/// What a database needs before it can be used.
#[derive(Debug, Clone, Copy, PartialEq, Eq, Structural)]
pub enum SchemaPlan {
    /// Nothing: its layout is the current one, or a later one.
    Ready,
    /// The current layout; `migrate` says whether there are messages to turn into facts.
    Upgrade { migrate: bool },
}

pub fn plan_schema(version: i64, has_messages: bool) -> (p: SchemaPlan)
    ensures
        p is Ready <==> version >= SCHEMA_VERSION,
        p matches SchemaPlan::Upgrade { migrate } ==> migrate == (version == 0 && has_messages),
{
    if version >= SCHEMA_VERSION {
        SchemaPlan::Ready
    } else {
        SchemaPlan::Upgrade { migrate: version == 0 && has_messages }
    }
}

/// Whether a database of this version counts its messages among its facts.
pub fn counts_facts(version: i64) -> (r: bool)
    ensures
        r == (version >= ENTRIES_SCHEMA_VERSION),
{
    version >= ENTRIES_SCHEMA_VERSION
}

} // verus!
