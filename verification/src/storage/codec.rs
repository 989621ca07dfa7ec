//! Facts as JSON, and back.
//!
//! A fact is an object with its kind under `type` and its content under `data`. Facts are read in
//! the form in which they are written: a list in place of an object is refused, and of a key that
//! stands twice the last value counts.
use vstd::prelude::*;

use crate::json::{
    array, boolean, fields, fields_hold, lookup, nil, number, number_at, obj, parsed_json,
    printed_json, text, text_at, Fields, Json, JsonView,
};
use crate::list::{empty, put, take_all, take_next};
use crate::message::{Block, BlockView, CacheUsage, ChatMessage, MessageView, Role, Usage};
use crate::plan::{PlanItem, PlanItemView, PlanSnapshot, PlanStatus, PlanView};
use crate::session::{
    ArtifactRef, CompactionRecord, MessageRecord, ModelChangeRecord, NoticeLevel, NoticeRecord,
    PayloadView, PlanReminderReason, PlanReminderRecord, SessionEntryPayload,
};
use crate::text::{concat3, dec, decimal, same};

verus! {

// ---- Pieces ----

pub open spec fn opt_text(t: Option<Seq<char>>) -> JsonView {
    match t {
        Some(t) => JsonView::Str(t),
        None => JsonView::Null,
    }
}

fn put_opt_text(t: &Option<String>) -> (j: Json)
    ensures
        j@ == opt_text(t.deep_view()),
        forall|depth: nat| #[trigger] j.within(depth),
{
    match t {
        Some(t) => text(t.as_str()),
        None => Json::Null,
    }
}

/// The text of a member that may be missing or null; nothing where it is something else.
pub open spec fn maybe_text(value: Option<JsonView>) -> Option<Option<Seq<char>>> {
    match value {
        None => Some(None),
        Some(JsonView::Null) => Some(None),
        Some(JsonView::Str(t)) => Some(Some(t)),
        _ => None,
    }
}

fn take_maybe_text(value: Option<&Json>) -> (r: Option<Option<String>>)
    ensures
        match maybe_text(value.deep_view()) {
            Some(t) => r is Some && r->0.deep_view() == t,
            None => r is None,
        },
{
    match value {
        None => Some(None),
        Some(Json::Null) => Some(None),
        Some(Json::Str(t)) => Some(Some(t.clone())),
        _ => None,
    }
}

/// The text of a member that must be there.
fn take_text(value: Option<&Json>) -> (r: Option<String>)
    ensures
        r.deep_view() == text_at(value.deep_view()),
{
    match value {
        Some(v) => match v.as_str() {
            Some(t) => Some(t.to_owned()),
            None => None,
        },
        None => None,
    }
}

fn take_number(value: Option<&Json>) -> (r: Option<u64>)
    ensures
        r == number_at(value.deep_view()),
{
    match value {
        Some(v) => v.as_u64(),
        None => None,
    }
}

pub open spec fn bool_at(value: Option<JsonView>) -> Option<bool> {
    match value {
        Some(JsonView::Bool(b)) => Some(b),
        _ => None,
    }
}

fn take_bool(value: Option<&Json>) -> (r: Option<bool>)
    ensures
        r == bool_at(value.deep_view()),
{
    match value {
        Some(v) => v.as_bool(),
        None => None,
    }
}

/// An object with this one key.
pub open spec fn only_key(value: JsonView, key: Seq<char>) -> bool {
    value is Object && value->Object_0.dom() == set![key]
}

fn has_only(value: &Json, key: &str) -> (r: bool)
    ensures
        r == only_key(value@, key@),
{
    match value {
        Json::Object(entries) => {
            let ghost views = Json::entry_views(*entries);
            assert forall|k: Seq<char>| #[trigger] fields(views).dom().contains(k) <==> exists|j: int|
                0 <= j < views.len() && (#[trigger] views[j]).0 == k by {
                fields_hold(views, k);
            }
            if entries.len() == 0 {
                assert(!fields(views).dom().contains(key@));
                return false;
            }
            let mut i: usize = 0;
            while i < entries.len()
                invariant
                    i <= entries@.len(),
                    views == Json::entry_views(*entries),
                    value@ == JsonView::Object(fields(views)),
                    forall|k: Seq<char>| #[trigger]
                        fields(views).dom().contains(k) <==> exists|j: int|
                            0 <= j < views.len() && (#[trigger] views[j]).0 == k,
                    forall|j: int| 0 <= j < i ==> (#[trigger] views[j]).0 == key@,
                decreases entries@.len() - i,
            {
                assert(views[i as int].0 == entries@[i as int].0@);
                if !same(entries[i].0.as_str(), key) {
                    assert(fields(views).dom().contains(views[i as int].0));
                    return false;
                }
                i = i + 1;
            }
            assert(fields(views).dom() =~= set![key@]) by {
                assert(views[0].0 == key@);
            }
            true
        },
        _ => false,
    }
}

/// The item at each place of an array, decoded; nothing where one cannot be.
pub open spec fn all_decoded<T>(items: Seq<JsonView>, decode: spec_fn(JsonView) -> Option<T>) -> Option<
    Seq<T>,
>
    decreases items.len(),
{
    if items.len() == 0 {
        Some(seq![])
    } else {
        match (all_decoded(items.drop_last(), decode), decode(items.last())) {
            (Some(before), Some(last)) => Some(before.push(last)),
            _ => None,
        }
    }
}

proof fn undecoded_stays<T>(items: Seq<JsonView>, decode: spec_fn(JsonView) -> Option<T>, n: int)
    requires
        0 <= n <= items.len(),
        all_decoded(items.take(n), decode) is None,
    ensures
        all_decoded(items, decode) is None,
    decreases items.len() - n,
{
    if n < items.len() {
        take_next(items, n);
        undecoded_stays(items, decode, n + 1);
    } else {
        take_all(items);
    }
}

// ---- Messages ----

pub open spec fn block_json(block: BlockView) -> JsonView {
    match block {
        BlockView::Text(t) => obj(nil().push(("Text"@, JsonView::Str(t)))),
        BlockView::Thinking { text, provider_kind, raw } => obj(
            nil().push(
                (
                    "Thinking"@,
                    obj(
                        nil().push(("text"@, JsonView::Str(text))).push(
                            ("provider_kind"@, opt_text(provider_kind)),
                        ).push(
                            (
                                "raw"@,
                                match raw {
                                    Some(v) => v,
                                    None => JsonView::Null,
                                },
                            ),
                        ),
                    ),
                ),
            ),
        ),
        BlockView::ToolUse { id, name, input } => obj(
            nil().push(
                (
                    "ToolUse"@,
                    obj(
                        nil().push(("id"@, JsonView::Str(id))).push(("name"@, JsonView::Str(name))).push(
                            ("input"@, input),
                        ),
                    ),
                ),
            ),
        ),
        BlockView::ToolResult { tool_use_id, content, is_error } => obj(
            nil().push(
                (
                    "ToolResult"@,
                    obj(
                        nil().push(("tool_use_id"@, JsonView::Str(tool_use_id))).push(
                            ("content"@, JsonView::Str(content)),
                        ).push(("is_error"@, JsonView::Bool(is_error))),
                    ),
                ),
            ),
        ),
    }
}

/// Whether the JSON in a block is such that it reads back from a store.
pub open spec fn block_within(block: Block) -> bool {
    match block {
        Block::ToolUse { input, .. } => input.within(121),
        Block::Thinking { raw: Some(raw), .. } => raw.within(121),
        _ => true,
    }
}

pub fn encode_block(block: &Block) -> (j: Json)
    ensures
        j@ == block_json(block.deep_view()),
        block_within(*block) ==> j.within(123),
{
    match block {
        Block::Text(t) => {
            let f = Fields::new().with("Text", text(t.as_str()));
            assert(f.within(122));
            f.done()
        },
        Block::Thinking { text: said, provider_kind, raw } => {
            let value = match raw {
                Some(v) => v.clone(),
                None => Json::Null,
            };
            assert(block_within(*block) ==> value.within(121));
            let inner = Fields::new().with("text", text(said.as_str())).with(
                "provider_kind",
                put_opt_text(provider_kind),
            ).with("raw", value);
            assert(block_within(*block) ==> inner.within(121));
            let f = Fields::new().with("Thinking", inner.done());
            assert(block_within(*block) ==> f.within(122));
            f.done()
        },
        Block::ToolUse { id, name, input } => {
            let value = input.clone();
            assert(block_within(*block) ==> value.within(121));
            let inner = Fields::new().with("id", text(id.as_str())).with(
                "name",
                text(name.as_str()),
            ).with("input", value);
            assert(block_within(*block) ==> inner.within(121));
            let f = Fields::new().with("ToolUse", inner.done());
            assert(block_within(*block) ==> f.within(122));
            f.done()
        },
        Block::ToolResult { tool_use_id, content, is_error } => {
            let inner = Fields::new().with("tool_use_id", text(tool_use_id.as_str())).with(
                "content",
                text(content.as_str()),
            ).with("is_error", boolean(*is_error));
            assert(inner.within(121));
            let f = Fields::new().with("ToolResult", inner.done());
            assert(f.within(122));
            f.done()
        },
    }
}

pub open spec fn block_of(value: JsonView) -> Option<BlockView> {
    if only_key(value, "Text"@) {
        match text_at(lookup(value, "Text"@)) {
            Some(t) => Some(BlockView::Text(t)),
            None => None,
        }
    } else if only_key(value, "Thinking"@) {
        let inner = value->Object_0["Thinking"@];
        match (text_at(lookup(inner, "text"@)), maybe_text(lookup(inner, "provider_kind"@))) {
            (Some(text), Some(provider_kind)) => Some(
                BlockView::Thinking {
                    text,
                    provider_kind,
                    raw: match lookup(inner, "raw"@) {
                        Some(JsonView::Null) => None,
                        other => other,
                    },
                },
            ),
            _ => None,
        }
    } else if only_key(value, "ToolUse"@) {
        let inner = value->Object_0["ToolUse"@];
        match (
            text_at(lookup(inner, "id"@)),
            text_at(lookup(inner, "name"@)),
            lookup(inner, "input"@),
        ) {
            (Some(id), Some(name), Some(input)) => Some(BlockView::ToolUse { id, name, input }),
            _ => None,
        }
    } else if only_key(value, "ToolResult"@) {
        let inner = value->Object_0["ToolResult"@];
        match (
            text_at(lookup(inner, "tool_use_id"@)),
            text_at(lookup(inner, "content"@)),
            bool_at(lookup(inner, "is_error"@)),
        ) {
            (Some(tool_use_id), Some(content), Some(is_error)) => Some(
                BlockView::ToolResult { tool_use_id, content, is_error },
            ),
            _ => None,
        }
    } else {
        None
    }
}

pub fn decode_block(value: &Json) -> (r: Option<Block>)
    ensures
        r.deep_view() == block_of(value@),
{
    if has_only(value, "Text") {
        match take_text(value.get("Text")) {
            Some(t) => Some(Block::Text(t)),
            None => None,
        }
    } else if has_only(value, "Thinking") {
        let inner = match value.get("Thinking") {
            Some(inner) => inner,
            None => {
                return None;
            },
        };
        match (take_text(inner.get("text")), take_maybe_text(inner.get("provider_kind"))) {
            (Some(said), Some(provider_kind)) => {
                let raw = match inner.get("raw") {
                    None => None,
                    Some(Json::Null) => None,
                    Some(v) => Some(v.clone()),
                };
                Some(Block::Thinking { text: said, provider_kind, raw })
            },
            _ => None,
        }
    } else if has_only(value, "ToolUse") {
        let inner = match value.get("ToolUse") {
            Some(inner) => inner,
            None => {
                return None;
            },
        };
        match (take_text(inner.get("id")), take_text(inner.get("name")), inner.get("input")) {
            (Some(id), Some(name), Some(input)) => Some(
                Block::ToolUse { id, name, input: input.clone() },
            ),
            _ => None,
        }
    } else if has_only(value, "ToolResult") {
        let inner = match value.get("ToolResult") {
            Some(inner) => inner,
            None => {
                return None;
            },
        };
        match (
            take_text(inner.get("tool_use_id")),
            take_text(inner.get("content")),
            take_bool(inner.get("is_error")),
        ) {
            (Some(tool_use_id), Some(content), Some(is_error)) => Some(
                Block::ToolResult { tool_use_id, content, is_error },
            ),
            _ => None,
        }
    } else {
        None
    }
}

pub open spec fn blocks_json(blocks: Seq<BlockView>) -> JsonView {
    JsonView::Array(Seq::new(blocks.len(), |i: int| block_json(blocks[i])))
}

pub open spec fn message_json(message: MessageView) -> JsonView {
    obj(
        nil().push(
            (
                "role"@,
                JsonView::Str(
                    match message.role {
                        Role::User => "User"@,
                        Role::Assistant => "Assistant"@,
                    },
                ),
            ),
        ).push(("blocks"@, blocks_json(message.blocks))),
    )
}

/// Whether the JSON in a message is such that it reads back from a store.
pub open spec fn message_within(message: ChatMessage) -> bool {
    forall|i: int|
        0 <= i < message.blocks@.len() ==> block_within(#[trigger] message.blocks@[i])
}

pub fn encode_message(message: &ChatMessage) -> (j: Json)
    ensures
        j@ == message_json(message.deep_view()),
        message_within(*message) ==> j.within(125),
{
    let ghost all = message.deep_view().blocks;
    let ghost goal = Seq::new(all.len(), |i: int| block_json(all[i]));
    let blocks = &message.blocks;
    let mut items: Vec<Json> = empty();
    let mut i: usize = 0;
    while i < blocks.len()
        invariant
            i <= blocks@.len(),
            all == blocks.deep_view(),
            goal == Seq::new(all.len(), |i: int| block_json(all[i])),
            items.deep_view() == goal.take(i as int),
            items@.len() == i,
            forall|k: int|
                #![trigger items@[k]]
                0 <= k < i && block_within(blocks@[k]) ==> items@[k].within(123),
        decreases blocks@.len() - i,
    {
        proof {
            take_next(goal, i as int);
        }
        assert(all[i as int] == blocks@[i as int].deep_view());
        put(&mut items, encode_block(&blocks[i]));
        i = i + 1;
    }
    proof {
        take_all(goal);
    }
    assert(message_within(*message) ==> forall|k: int|
        #![trigger items@[k]]
        0 <= k < items@.len() ==> items@[k].within(123)) by {
        if message_within(*message) {
            assert forall|k: int| #![trigger items@[k]] 0 <= k < items@.len() implies items@[k].within(
                123,
            ) by {
                assert(block_within(message.blocks@[k]));
            }
        }
    }
    let list = array(items);
    assert(message_within(*message) ==> list.within(123 + 1));
    let f = Fields::new().with(
        "role",
        text(
            match message.role {
                Role::User => "User",
                Role::Assistant => "Assistant",
            },
        ),
    ).with("blocks", list);
    assert(message_within(*message) ==> f.within(124));
    f.done()
}

pub open spec fn role_of(value: Option<JsonView>) -> Option<Role> {
    match text_at(value) {
        Some(t) => if t == "User"@ {
            Some(Role::User)
        } else if t == "Assistant"@ {
            Some(Role::Assistant)
        } else {
            None
        },
        None => None,
    }
}

pub open spec fn blocks_of(value: Option<JsonView>) -> Option<Seq<BlockView>> {
    match value {
        Some(JsonView::Array(items)) => all_decoded(items, |v: JsonView| block_of(v)),
        _ => None,
    }
}

pub open spec fn message_of(value: JsonView) -> Option<MessageView> {
    match (role_of(lookup(value, "role"@)), blocks_of(lookup(value, "blocks"@))) {
        (Some(role), Some(blocks)) => Some(MessageView { role, blocks }),
        _ => None,
    }
}

fn decode_blocks(value: Option<&Json>) -> (r: Option<Vec<Block>>)
    ensures
        r.deep_view() == blocks_of(value.deep_view()),
{
    match value {
        Some(Json::Array(items)) => {
            let ghost all = items.deep_view();
            let ghost decode = |v: JsonView| block_of(v);
            assert(value.deep_view() == Some(JsonView::Array(all))) by {
                assert(value->0@->Array_0 =~= all);
            }
            let mut out: Vec<Block> = empty();
            let mut i: usize = 0;
            while i < items.len()
                invariant
                    i <= items@.len(),
                    all == items.deep_view(),
                    value.deep_view() == Some(JsonView::Array(all)),
                    decode == (|v: JsonView| block_of(v)),
                    all_decoded(all.take(i as int), decode) == Some(out.deep_view()),
                decreases items@.len() - i,
            {
                proof {
                    take_next(all, i as int);
                }
                assert(all[i as int] == items@[i as int]@);
                match decode_block(&items[i]) {
                    Some(block) => put(&mut out, block),
                    None => {
                        proof {
                            undecoded_stays(all, decode, i + 1);
                        }
                        return None;
                    },
                }
                i = i + 1;
            }
            proof {
                take_all(all);
            }
            Some(out)
        },
        _ => None,
    }
}

pub fn decode_message(value: &Json) -> (r: Option<ChatMessage>)
    ensures
        r.deep_view() == message_of(value@),
{
    let role = match take_text(value.get("role")) {
        Some(t) => if same(t.as_str(), "User") {
            Role::User
        } else if same(t.as_str(), "Assistant") {
            Role::Assistant
        } else {
            return None;
        },
        None => {
            return None;
        },
    };
    match decode_blocks(value.get("blocks")) {
        Some(blocks) => Some(ChatMessage { role, blocks }),
        None => None,
    }
}

// ---- Usage ----

pub open spec fn usage_json(usage: Option<Usage>) -> JsonView {
    match usage {
        None => JsonView::Null,
        Some(u) => obj(
            nil().push(("input_tokens"@, JsonView::Number(u.input_tokens as int))).push(
                ("output_tokens"@, JsonView::Number(u.output_tokens as int)),
            ).push(
                (
                    "cache"@,
                    match u.cache {
                        None => JsonView::Null,
                        Some(c) => obj(
                            nil().push(
                                ("read_tokens"@, JsonView::Number(c.read_tokens as int)),
                            ).push(("write_tokens"@, JsonView::Number(c.write_tokens as int))),
                        ),
                    },
                ),
            ),
        ),
    }
}

fn encode_usage(usage: &Option<Usage>) -> (j: Json)
    ensures
        j@ == usage_json(*usage),
        j.within(125),
{
    match usage {
        None => Json::Null,
        Some(u) => {
            let cache = match u.cache {
                None => Json::Null,
                Some(c) => {
                    let f = Fields::new().with("read_tokens", number(c.read_tokens)).with(
                        "write_tokens",
                        number(c.write_tokens),
                    );
                    assert(f.within(123));
                    f.done()
                },
            };
            assert(cache.within(124));
            let f = Fields::new().with("input_tokens", number(u.input_tokens)).with(
                "output_tokens",
                number(u.output_tokens),
            ).with("cache", cache);
            assert(f.within(124));
            f.done()
        },
    }
}

/// The cache counts of a member that may be missing or null.
pub open spec fn cache_of(value: Option<JsonView>) -> Option<Option<CacheUsage>> {
    match value {
        None => Some(None),
        Some(JsonView::Null) => Some(None),
        Some(v) => match (number_at(lookup(v, "read_tokens"@)), number_at(lookup(v, "write_tokens"@))) {
            (Some(read_tokens), Some(write_tokens)) => Some(
                Some(CacheUsage { read_tokens, write_tokens }),
            ),
            _ => None,
        },
    }
}

pub open spec fn usage_of(value: Option<JsonView>) -> Option<Option<Usage>> {
    match value {
        None => Some(None),
        Some(JsonView::Null) => Some(None),
        Some(v) => match (
            number_at(lookup(v, "input_tokens"@)),
            number_at(lookup(v, "output_tokens"@)),
            cache_of(lookup(v, "cache"@)),
        ) {
            (Some(input_tokens), Some(output_tokens), Some(cache)) => Some(
                Some(Usage { input_tokens, output_tokens, cache }),
            ),
            _ => None,
        },
    }
}

fn decode_cache(value: Option<&Json>) -> (r: Option<Option<CacheUsage>>)
    ensures
        r == cache_of(value.deep_view()),
{
    match value {
        None => Some(None),
        Some(Json::Null) => Some(None),
        Some(v) => match (take_number(v.get("read_tokens")), take_number(v.get("write_tokens"))) {
            (Some(read_tokens), Some(write_tokens)) => Some(
                Some(CacheUsage { read_tokens, write_tokens }),
            ),
            _ => None,
        },
    }
}

fn decode_usage(value: Option<&Json>) -> (r: Option<Option<Usage>>)
    ensures
        r == usage_of(value.deep_view()),
{
    match value {
        None => Some(None),
        Some(Json::Null) => Some(None),
        Some(v) => match (
            take_number(v.get("input_tokens")),
            take_number(v.get("output_tokens")),
            decode_cache(v.get("cache")),
        ) {
            (Some(input_tokens), Some(output_tokens), Some(cache)) => Some(
                Some(Usage { input_tokens, output_tokens, cache }),
            ),
            _ => None,
        },
    }
}

// ---- Plans ----

pub open spec fn status_name(status: PlanStatus) -> Seq<char> {
    match status {
        PlanStatus::Pending => "pending"@,
        PlanStatus::InProgress => "in_progress"@,
        PlanStatus::Completed => "completed"@,
    }
}

pub open spec fn status_of(value: Option<JsonView>) -> Option<PlanStatus> {
    match text_at(value) {
        Some(t) => if t == "pending"@ {
            Some(PlanStatus::Pending)
        } else if t == "in_progress"@ {
            Some(PlanStatus::InProgress)
        } else if t == "completed"@ {
            Some(PlanStatus::Completed)
        } else {
            None
        },
        None => None,
    }
}

pub open spec fn item_json(item: PlanItemView) -> JsonView {
    obj(
        nil().push(("id"@, JsonView::Str(item.id))).push(("text"@, JsonView::Str(item.text))).push(
            ("status"@, JsonView::Str(status_name(item.status))),
        ),
    )
}

pub open spec fn item_of(value: JsonView) -> Option<PlanItemView> {
    match (
        text_at(lookup(value, "id"@)),
        text_at(lookup(value, "text"@)),
        status_of(lookup(value, "status"@)),
    ) {
        (Some(id), Some(text), Some(status)) => Some(PlanItemView { id, text, status }),
        _ => None,
    }
}

pub open spec fn plan_json(plan: PlanView) -> JsonView {
    obj(
        nil().push(("revision"@, JsonView::Number(plan.revision as int))).push(
            (
                "items"@,
                JsonView::Array(Seq::new(plan.items.len(), |i: int| item_json(plan.items[i]))),
            ),
        ).push(("explanation"@, opt_text(plan.explanation))),
    )
}

pub open spec fn items_of(value: Option<JsonView>) -> Option<Seq<PlanItemView>> {
    match value {
        Some(JsonView::Array(items)) => all_decoded(items, |v: JsonView| item_of(v)),
        _ => None,
    }
}

pub open spec fn plan_of(value: JsonView) -> Option<PlanView> {
    match (
        number_at(lookup(value, "revision"@)),
        items_of(lookup(value, "items"@)),
        maybe_text(lookup(value, "explanation"@)),
    ) {
        (Some(revision), Some(items), Some(explanation)) => Some(
            PlanView { revision: revision as nat, items, explanation },
        ),
        _ => None,
    }
}

fn encode_item(item: &PlanItem) -> (j: Json)
    ensures
        j@ == item_json(item.deep_view()),
        j.within(124),
{
    let f = Fields::new().with("id", text(item.id.as_str())).with(
        "text",
        text(item.text.as_str()),
    ).with(
        "status",
        text(
            match item.status {
                PlanStatus::Pending => "pending",
                PlanStatus::InProgress => "in_progress",
                PlanStatus::Completed => "completed",
            },
        ),
    );
    assert(f.within(123));
    f.done()
}

fn encode_plan(plan: &PlanSnapshot) -> (j: Json)
    ensures
        j@ == plan_json(plan.deep_view()),
        j.within(126),
{
    let ghost all = plan.deep_view().items;
    let ghost goal = Seq::new(all.len(), |i: int| item_json(all[i]));
    let mut items: Vec<Json> = empty();
    let mut i: usize = 0;
    while i < plan.items.len()
        invariant
            i <= plan.items@.len(),
            all == plan.items.deep_view(),
            goal == Seq::new(all.len(), |i: int| item_json(all[i])),
            items.deep_view() == goal.take(i as int),
            forall|k: int| #![trigger items@[k]] 0 <= k < items@.len() ==> items@[k].within(124),
        decreases plan.items@.len() - i,
    {
        proof {
            take_next(goal, i as int);
        }
        assert(all[i as int] == plan.items@[i as int].deep_view());
        put(&mut items, encode_item(&plan.items[i]));
        i = i + 1;
    }
    proof {
        take_all(goal);
    }
    let list = array(items);
    assert(list.within(124 + 1));
    let f = Fields::new().with("revision", number(plan.revision)).with("items", list).with(
        "explanation",
        put_opt_text(&plan.explanation),
    );
    assert(f.within(125));
    f.done()
}

fn decode_item(value: &Json) -> (r: Option<PlanItem>)
    ensures
        r.deep_view() == item_of(value@),
{
    let status = match take_text(value.get("status")) {
        Some(t) => if same(t.as_str(), "pending") {
            PlanStatus::Pending
        } else if same(t.as_str(), "in_progress") {
            PlanStatus::InProgress
        } else if same(t.as_str(), "completed") {
            PlanStatus::Completed
        } else {
            return None;
        },
        None => {
            return None;
        },
    };
    match (take_text(value.get("id")), take_text(value.get("text"))) {
        (Some(id), Some(said)) => Some(PlanItem { id, text: said, status }),
        _ => None,
    }
}

fn decode_items(value: Option<&Json>) -> (r: Option<Vec<PlanItem>>)
    ensures
        r.deep_view() == items_of(value.deep_view()),
{
    match value {
        Some(Json::Array(items)) => {
            let ghost all = items.deep_view();
            let ghost decode = |v: JsonView| item_of(v);
            assert(value.deep_view() == Some(JsonView::Array(all))) by {
                assert(value->0@->Array_0 =~= all);
            }
            let mut out: Vec<PlanItem> = empty();
            let mut i: usize = 0;
            while i < items.len()
                invariant
                    i <= items@.len(),
                    all == items.deep_view(),
                    value.deep_view() == Some(JsonView::Array(all)),
                    decode == (|v: JsonView| item_of(v)),
                    all_decoded(all.take(i as int), decode) == Some(out.deep_view()),
                decreases items@.len() - i,
            {
                proof {
                    take_next(all, i as int);
                }
                assert(all[i as int] == items@[i as int]@);
                match decode_item(&items[i]) {
                    Some(item) => put(&mut out, item),
                    None => {
                        proof {
                            undecoded_stays(all, decode, i + 1);
                        }
                        return None;
                    },
                }
                i = i + 1;
            }
            proof {
                take_all(all);
            }
            Some(out)
        },
        _ => None,
    }
}

fn decode_plan(value: &Json) -> (r: Option<PlanSnapshot>)
    ensures
        r.deep_view() == plan_of(value@),
{
    match (
        take_number(value.get("revision")),
        decode_items(value.get("items")),
        take_maybe_text(value.get("explanation")),
    ) {
        (Some(revision), Some(items), Some(explanation)) => Some(
            PlanSnapshot { revision, items, explanation },
        ),
        _ => None,
    }
}

// ---- Facts ----

pub open spec fn level_name(level: NoticeLevel) -> Seq<char> {
    match level {
        NoticeLevel::Info => "info"@,
        NoticeLevel::Warning => "warning"@,
        NoticeLevel::Error => "error"@,
    }
}

pub open spec fn level_of(value: Option<JsonView>) -> Option<NoticeLevel> {
    match text_at(value) {
        Some(t) => if t == "info"@ {
            Some(NoticeLevel::Info)
        } else if t == "warning"@ {
            Some(NoticeLevel::Warning)
        } else if t == "error"@ {
            Some(NoticeLevel::Error)
        } else {
            None
        },
        None => None,
    }
}

pub open spec fn reason_name(reason: PlanReminderReason) -> Seq<char> {
    match reason {
        PlanReminderReason::Continue => "continue"@,
        PlanReminderReason::Cancelled => "cancelled"@,
    }
}

pub open spec fn reason_of(value: Option<JsonView>) -> Option<PlanReminderReason> {
    match text_at(value) {
        Some(t) => if t == "continue"@ {
            Some(PlanReminderReason::Continue)
        } else if t == "cancelled"@ {
            Some(PlanReminderReason::Cancelled)
        } else {
            None
        },
        None => None,
    }
}

/// The content of a fact.
pub open spec fn data_json(fact: PayloadView) -> JsonView {
    match fact {
        PayloadView::Message { message, usage, prompt_fingerprint } => obj(
            nil().push(("message"@, message_json(message))).push(("usage"@, usage_json(usage))).push(
                ("prompt_fingerprint"@, opt_text(prompt_fingerprint)),
            ),
        ),
        PayloadView::Notice { text, level } => obj(
            nil().push(("text"@, JsonView::Str(text))).push(
                ("level"@, JsonView::Str(level_name(level))),
            ),
        ),
        PayloadView::Artifact { id, media_type, byte_len } => obj(
            nil().push(("id"@, JsonView::Str(id))).push(("media_type"@, JsonView::Str(media_type))).push(
                ("byte_len"@, JsonView::Number(byte_len as int)),
            ),
        ),
        PayloadView::Compaction { summary, tokens_before } => obj(
            nil().push(("summary"@, JsonView::Str(summary))).push(
                ("tokens_before"@, JsonView::Number(tokens_before as int)),
            ),
        ),
        PayloadView::ModelChange { provider, model, effort } => obj(
            nil().push(("provider"@, JsonView::Str(provider))).push(
                ("model"@, JsonView::Str(model)),
            ).push(("effort"@, JsonView::Str(effort))),
        ),
        PayloadView::PlanUpdated(plan) => plan_json(plan),
        PayloadView::PlanReminder(r) => obj(
            nil().push(("revision"@, JsonView::Number(r.revision as int))).push(
                ("reason"@, JsonView::Str(reason_name(r.reason))),
            ),
        ),
    }
}

/// A fact as JSON.
pub open spec fn fact_json(fact: PayloadView) -> JsonView {
    obj(
        nil().push(("type"@, JsonView::Str(crate::session::kind_of(fact)))).push(
            ("data"@, data_json(fact)),
        ),
    )
}

/// Whether the JSON in a fact is such that it reads back from a store.
pub open spec fn fact_within(fact: SessionEntryPayload) -> bool {
    match fact {
        SessionEntryPayload::Message(r) => message_within(r.message),
        _ => true,
    }
}

fn encode_data(fact: &SessionEntryPayload) -> (j: Json)
    ensures
        j@ == data_json(fact.deep_view()),
        fact_within(*fact) ==> j.within(126),
{
    let f = match fact {
        SessionEntryPayload::Message(r) => {
            let message = encode_message(&r.message);
            assert(fact_within(*fact) ==> message.within(125));
            Fields::new().with("message", message).with("usage", encode_usage(&r.usage)).with(
                "prompt_fingerprint",
                put_opt_text(&r.prompt_fingerprint),
            )
        },
        SessionEntryPayload::Notice(r) => Fields::new().with("text", text(r.text.as_str())).with(
            "level",
            text(
                match r.level {
                    NoticeLevel::Info => "info",
                    NoticeLevel::Warning => "warning",
                    NoticeLevel::Error => "error",
                },
            ),
        ),
        SessionEntryPayload::Artifact(r) => Fields::new().with("id", text(r.id.as_str())).with(
            "media_type",
            text(r.media_type.as_str()),
        ).with("byte_len", number(r.byte_len as u64)),
        SessionEntryPayload::Compaction(r) => Fields::new().with(
            "summary",
            text(r.summary.as_str()),
        ).with("tokens_before", number(r.tokens_before)),
        SessionEntryPayload::ModelChange(r) => Fields::new().with(
            "provider",
            text(r.provider.as_str()),
        ).with("model", text(r.model.as_str())).with("effort", text(r.effort.as_str())),
        SessionEntryPayload::PlanUpdated(p) => {
            return encode_plan(p);
        },
        SessionEntryPayload::PlanReminder(r) => Fields::new().with(
            "revision",
            number(r.revision),
        ).with(
            "reason",
            text(
                match r.reason {
                    PlanReminderReason::Continue => "continue",
                    PlanReminderReason::Cancelled => "cancelled",
                },
            ),
        ),
    };
    assert(fact_within(*fact) ==> f.within(125));
    f.done()
}

pub fn encode_fact(fact: &SessionEntryPayload) -> (j: Json)
    ensures
        j@ == fact_json(fact.deep_view()),
        fact_within(*fact) ==> j.within(127),
{
    let data = encode_data(fact);
    assert(fact_within(*fact) ==> data.within(126));
    let f = Fields::new().with("type", text(fact.kind())).with("data", data);
    assert(fact_within(*fact) ==> f.within(126));
    f.done()
}

pub open spec fn record_of(v: JsonView) -> Option<PayloadView> {
    match (
        match lookup(v, "message"@) {
            Some(m) => message_of(m),
            None => None,
        },
        usage_of(lookup(v, "usage"@)),
        maybe_text(lookup(v, "prompt_fingerprint"@)),
    ) {
        (Some(message), Some(usage), Some(prompt_fingerprint)) => Some(
            PayloadView::Message { message, usage, prompt_fingerprint },
        ),
        _ => None,
    }
}

pub open spec fn notice_of(v: JsonView) -> Option<PayloadView> {
    match (text_at(lookup(v, "text"@)), level_of(lookup(v, "level"@))) {
        (Some(text), Some(level)) => Some(PayloadView::Notice { text, level }),
        _ => None,
    }
}

pub open spec fn artifact_of(v: JsonView) -> Option<PayloadView> {
    match (
        text_at(lookup(v, "id"@)),
        text_at(lookup(v, "media_type"@)),
        number_at(lookup(v, "byte_len"@)),
    ) {
        (Some(id), Some(media_type), Some(n)) => if n <= usize::MAX {
            Some(PayloadView::Artifact { id, media_type, byte_len: n as usize })
        } else {
            None
        },
        _ => None,
    }
}

pub open spec fn compaction_of(v: JsonView) -> Option<PayloadView> {
    match (text_at(lookup(v, "summary"@)), number_at(lookup(v, "tokens_before"@))) {
        (Some(summary), Some(tokens_before)) => Some(
            PayloadView::Compaction { summary, tokens_before },
        ),
        _ => None,
    }
}

/// Facts from before efforts were recorded have the effort that stands for none.
pub open spec fn change_of(v: JsonView) -> Option<PayloadView> {
    match (text_at(lookup(v, "provider"@)), text_at(lookup(v, "model"@))) {
        (Some(provider), Some(model)) => match lookup(v, "effort"@) {
            None => Some(
                PayloadView::ModelChange {
                    provider,
                    model,
                    effort: crate::config::default_effort_text(),
                },
            ),
            Some(JsonView::Str(effort)) => Some(
                PayloadView::ModelChange { provider, model, effort },
            ),
            _ => None,
        },
        _ => None,
    }
}

pub open spec fn reminder_of(v: JsonView) -> Option<PayloadView> {
    match (number_at(lookup(v, "revision"@)), reason_of(lookup(v, "reason"@))) {
        (Some(revision), Some(reason)) => Some(
            PayloadView::PlanReminder(PlanReminderRecord { revision, reason }),
        ),
        _ => None,
    }
}

/// The fact that JSON stands for.
pub open spec fn fact_of(value: JsonView) -> Option<PayloadView> {
    match (text_at(lookup(value, "type"@)), lookup(value, "data"@)) {
        (Some(kind), Some(v)) => if kind == "message"@ {
            record_of(v)
        } else if kind == "notice"@ {
            notice_of(v)
        } else if kind == "artifact"@ {
            artifact_of(v)
        } else if kind == "compaction"@ {
            compaction_of(v)
        } else if kind == "model_change"@ {
            change_of(v)
        } else if kind == "plan_updated"@ {
            match plan_of(v) {
                Some(plan) => Some(PayloadView::PlanUpdated(plan)),
                None => None,
            }
        } else if kind == "plan_reminder"@ {
            reminder_of(v)
        } else {
            None
        },
        _ => None,
    }
}

fn decode_record(v: &Json) -> (r: Option<SessionEntryPayload>)
    ensures
        r.deep_view() == record_of(v@),
{
    let message = match v.get("message") {
        Some(m) => decode_message(m),
        None => None,
    };
    match (
        message,
        decode_usage(v.get("usage")),
        take_maybe_text(v.get("prompt_fingerprint")),
    ) {
        (Some(message), Some(usage), Some(prompt_fingerprint)) => Some(
            SessionEntryPayload::Message(MessageRecord { message, usage, prompt_fingerprint }),
        ),
        _ => None,
    }
}

fn decode_notice(v: &Json) -> (r: Option<SessionEntryPayload>)
    ensures
        r.deep_view() == notice_of(v@),
{
    let level = match take_text(v.get("level")) {
        Some(t) => if same(t.as_str(), "info") {
            NoticeLevel::Info
        } else if same(t.as_str(), "warning") {
            NoticeLevel::Warning
        } else if same(t.as_str(), "error") {
            NoticeLevel::Error
        } else {
            return None;
        },
        None => {
            return None;
        },
    };
    match take_text(v.get("text")) {
        Some(said) => Some(SessionEntryPayload::Notice(NoticeRecord { text: said, level })),
        None => None,
    }
}

fn decode_artifact(v: &Json) -> (r: Option<SessionEntryPayload>)
    ensures
        r.deep_view() == artifact_of(v@),
{
    match (
        take_text(v.get("id")),
        take_text(v.get("media_type")),
        take_number(v.get("byte_len")),
    ) {
        (Some(id), Some(media_type), Some(n)) => if n <= usize::MAX as u64 {
            Some(
                SessionEntryPayload::Artifact(
                    ArtifactRef { id, media_type, byte_len: n as usize },
                ),
            )
        } else {
            None
        },
        _ => None,
    }
}

fn decode_change(v: &Json) -> (r: Option<SessionEntryPayload>)
    ensures
        r.deep_view() == change_of(v@),
{
    match (take_text(v.get("provider")), take_text(v.get("model"))) {
        (Some(provider), Some(model)) => match v.get("effort") {
            None => Some(
                SessionEntryPayload::ModelChange(
                    ModelChangeRecord { provider, model, effort: "medium".to_owned() },
                ),
            ),
            Some(Json::Str(effort)) => Some(
                SessionEntryPayload::ModelChange(
                    ModelChangeRecord { provider, model, effort: effort.clone() },
                ),
            ),
            _ => None,
        },
        _ => None,
    }
}

fn decode_reminder(v: &Json) -> (r: Option<SessionEntryPayload>)
    ensures
        r.deep_view() == reminder_of(v@),
{
    let reason = match take_text(v.get("reason")) {
        Some(t) => if same(t.as_str(), "continue") {
            PlanReminderReason::Continue
        } else if same(t.as_str(), "cancelled") {
            PlanReminderReason::Cancelled
        } else {
            return None;
        },
        None => {
            return None;
        },
    };
    match take_number(v.get("revision")) {
        Some(revision) => Some(
            SessionEntryPayload::PlanReminder(PlanReminderRecord { revision, reason }),
        ),
        None => None,
    }
}

pub fn decode_fact(value: &Json) -> (r: Option<SessionEntryPayload>)
    ensures
        r.deep_view() == fact_of(value@),
{
    let kind = match take_text(value.get("type")) {
        Some(kind) => kind,
        None => {
            return None;
        },
    };
    let v = match value.get("data") {
        Some(v) => v,
        None => {
            return None;
        },
    };
    let kind = kind.as_str();
    if same(kind, "message") {
        decode_record(v)
    } else if same(kind, "notice") {
        decode_notice(v)
    } else if same(kind, "artifact") {
        decode_artifact(v)
    } else if same(kind, "compaction") {
        match (take_text(v.get("summary")), take_number(v.get("tokens_before"))) {
            (Some(summary), Some(tokens_before)) => Some(
                SessionEntryPayload::Compaction(CompactionRecord { summary, tokens_before }),
            ),
            _ => None,
        }
    } else if same(kind, "model_change") {
        decode_change(v)
    } else if same(kind, "plan_updated") {
        match decode_plan(v) {
            Some(plan) => Some(SessionEntryPayload::PlanUpdated(plan)),
            None => None,
        }
    } else if same(kind, "plan_reminder") {
        decode_reminder(v)
    } else {
        None
    }
}

// ---- Rows ----

/// Whether the text that a fact is stored as reads as the JSON it was printed from.
pub open spec fn readable(fact: PayloadView) -> bool {
    parsed_json(printed_json(fact_json(fact))) == Ok::<JsonView, Seq<char>>(fact_json(fact))
}

/// The text that a fact is stored as. It reads back as the fact wherever it reads as what was
/// printed, which it does at least of facts without fractional numbers that are not nested too
/// deep.
pub fn write_fact(fact: &SessionEntryPayload) -> (s: String)
    ensures
        s@ == printed_json(fact_json(fact.deep_view())),
        fact_within(*fact) ==> readable(fact.deep_view()),
        readable(fact.deep_view()) && storable(fact.deep_view()) ==> stored_fact(s@) == Some(
            fact.deep_view(),
        ),
{
    let json = encode_fact(fact);
    proof {
        if storable(fact.deep_view()) {
            law_facts_read_back(fact.deep_view());
        }
    }
    json.print()
}

pub open spec fn stored_fact(text: Seq<char>) -> Option<PayloadView> {
    match parsed_json(text) {
        Ok(value) => fact_of(value),
        Err(_) => None,
    }
}

/// Reads a fact back.
pub fn read_fact(row: &str) -> (r: Result<SessionEntryPayload, String>)
    ensures
        match stored_fact(row@) {
            Some(fact) => r is Ok && r->Ok_0.deep_view() == fact,
            None => r is Err && r->Err_0@ == "会话数据库含有无法解析的事实"@,
        },
{
    let fact = match Json::parse(row) {
        Ok(value) => decode_fact(&value),
        Err(_) => None,
    };
    match fact {
        Some(fact) => Ok(fact),
        None => Err("会话数据库含有无法解析的事实".to_owned()),
    }
}

pub open spec fn stored_message(text: Seq<char>) -> Option<MessageView> {
    match parsed_json(text) {
        Ok(value) => message_of(value),
        Err(_) => None,
    }
}

/// Reads a message of a store from before there were facts.
pub fn read_message(sequence: u64, row: &str) -> (r: Result<ChatMessage, String>)
    ensures
        match stored_message(row@) {
            Some(message) => r is Ok && r->Ok_0.deep_view() == message,
            None => r is Err && r->Err_0@ == "v1 消息 #"@ + dec(sequence as nat)
                + " 无法解析,迁移中止"@,
        },
{
    let message = match Json::parse(row) {
        Ok(value) => decode_message(&value),
        Err(_) => None,
    };
    match message {
        Some(message) => Ok(message),
        None => Err(
            concat3("v1 消息 #", decimal(sequence).as_str(), " 无法解析,迁移中止"),
        ),
    }
}

// ---- Laws ----

/// Whether a fact has a form of its own in JSON: an empty value that a service wants back is the
/// one thing that reads as if it were not there.
pub open spec fn storable(fact: PayloadView) -> bool {
    match fact {
        PayloadView::Message { message, .. } => forall|i: int|
            0 <= i < message.blocks.len() ==> block_storable(#[trigger] message.blocks[i]),
        PayloadView::PlanUpdated(plan) => plan.revision <= u64::MAX,
        _ => true,
    }
}

pub open spec fn block_storable(block: BlockView) -> bool {
    !(block matches BlockView::Thinking { raw: Some(JsonView::Null), .. })
}

proof fn sole_member(key: Seq<char>, value: JsonView)
    ensures
        ({
            let o = obj(nil().push((key, value)));
            &&& lookup(o, key) == Some(value)
            &&& o is Object
            &&& o->Object_0[key] == value
            &&& forall|other: Seq<char>| #[trigger] only_key(o, other) <==> other == key
        }),
{
    let entries = nil().push((key, value));
    assert(entries.drop_last() =~= nil());
    assert(fields(nil()) =~= Map::empty());
    assert(fields(entries) =~= fields(nil()).insert(key, value));
    let o = obj(entries);
    assert(o->Object_0.dom() =~= set![key]);
    assert forall|other: Seq<char>| #[trigger] only_key(o, other) <==> other == key by {
        if only_key(o, other) {
            assert(set![other].contains(key));
        }
    }
}

proof fn two_members(a: Seq<char>, x: JsonView, b: Seq<char>, y: JsonView)
    requires
        a != b,
    ensures
        lookup(obj(nil().push((a, x)).push((b, y))), a) == Some(x),
        lookup(obj(nil().push((a, x)).push((b, y))), b) == Some(y),
{
    let first = nil().push((a, x));
    let both = first.push((b, y));
    assert(first.drop_last() =~= nil());
    assert(both.drop_last() =~= first);
    assert(fields(both) =~= fields(first).insert(b, y));
    assert(fields(nil()) =~= Map::empty());
    assert(fields(first) =~= fields(nil()).insert(a, x));
}

proof fn three_members(
    a: Seq<char>,
    x: JsonView,
    b: Seq<char>,
    y: JsonView,
    c: Seq<char>,
    z: JsonView,
)
    requires
        a != b,
        a != c,
        b != c,
    ensures
        lookup(obj(nil().push((a, x)).push((b, y)).push((c, z))), a) == Some(x),
        lookup(obj(nil().push((a, x)).push((b, y)).push((c, z))), b) == Some(y),
        lookup(obj(nil().push((a, x)).push((b, y)).push((c, z))), c) == Some(z),
{
    let two = nil().push((a, x)).push((b, y));
    let all = two.push((c, z));
    two_members(a, x, b, y);
    assert(all.drop_last() =~= two);
    assert(fields(all) =~= fields(two).insert(c, z));
}

proof fn decoded_back<T>(items: Seq<T>, coded: Seq<JsonView>, decode: spec_fn(JsonView) -> Option<T>)
    requires
        items.len() == coded.len(),
        forall|i: int| 0 <= i < items.len() ==> decode(#[trigger] coded[i]) == Some(items[i]),
    ensures
        all_decoded(coded, decode) == Some(items),
    decreases items.len(),
{
    if items.len() == 0 {
        assert(items =~= seq![]);
    } else {
        assert forall|i: int| 0 <= i < items.drop_last().len() implies decode(
            #[trigger] coded.drop_last()[i],
        ) == Some(items.drop_last()[i]) by {
            assert(coded.drop_last()[i] == coded[i]);
        }
        decoded_back(items.drop_last(), coded.drop_last(), decode);
        assert(decode(coded[coded.len() - 1]) == Some(items[items.len() - 1]));
        assert(items.drop_last().push(items.last()) =~= items);
    }
}

proof fn block_reads_back(block: BlockView)
    requires
        block_storable(block),
    ensures
        block_of(block_json(block)) == Some(block),
{
    reveal_strlit("Text");
    reveal_strlit("Thinking");
    reveal_strlit("ToolUse");
    reveal_strlit("ToolResult");
    assert("Text"@.len() == 4 && "Thinking"@.len() == 8 && "ToolUse"@.len() == 7
        && "ToolResult"@.len() == 10);
    match block {
        BlockView::Text(t) => {
            sole_member("Text"@, JsonView::Str(t));
        },
        BlockView::Thinking { text, provider_kind, raw } => {
            reveal_strlit("text");
            reveal_strlit("provider_kind");
            reveal_strlit("raw");
            assert("text"@.len() == 4 && "provider_kind"@.len() == 13 && "raw"@.len() == 3);
            let value = match raw {
                Some(v) => v,
                None => JsonView::Null,
            };
            three_members(
                "text"@,
                JsonView::Str(text),
                "provider_kind"@,
                opt_text(provider_kind),
                "raw"@,
                value,
            );
            sole_member(
                "Thinking"@,
                obj(
                    nil().push(("text"@, JsonView::Str(text))).push(
                        ("provider_kind"@, opt_text(provider_kind)),
                    ).push(("raw"@, value)),
                ),
            );
        },
        BlockView::ToolUse { id, name, input } => {
            reveal_strlit("id");
            reveal_strlit("name");
            reveal_strlit("input");
            assert("id"@.len() == 2 && "name"@.len() == 4 && "input"@.len() == 5);
            three_members(
                "id"@,
                JsonView::Str(id),
                "name"@,
                JsonView::Str(name),
                "input"@,
                input,
            );
            sole_member(
                "ToolUse"@,
                obj(
                    nil().push(("id"@, JsonView::Str(id))).push(("name"@, JsonView::Str(name))).push(
                        ("input"@, input),
                    ),
                ),
            );
        },
        BlockView::ToolResult { tool_use_id, content, is_error } => {
            reveal_strlit("tool_use_id");
            reveal_strlit("content");
            reveal_strlit("is_error");
            assert("tool_use_id"@.len() == 11 && "content"@.len() == 7 && "is_error"@.len() == 8);
            three_members(
                "tool_use_id"@,
                JsonView::Str(tool_use_id),
                "content"@,
                JsonView::Str(content),
                "is_error"@,
                JsonView::Bool(is_error),
            );
            sole_member(
                "ToolResult"@,
                obj(
                    nil().push(("tool_use_id"@, JsonView::Str(tool_use_id))).push(
                        ("content"@, JsonView::Str(content)),
                    ).push(("is_error"@, JsonView::Bool(is_error))),
                ),
            );
        },
    }
}

/// A message reads back as it was written.
pub proof fn law_messages_read_back(message: MessageView)
    requires
        forall|i: int|
            0 <= i < message.blocks.len() ==> block_storable(#[trigger] message.blocks[i]),
    ensures
        message_of(message_json(message)) == Some(message),
{
    reveal_strlit("role");
    reveal_strlit("blocks");
    reveal_strlit("User");
    reveal_strlit("Assistant");
    assert("role"@.len() == 4 && "blocks"@.len() == 6 && "User"@.len() == 4 && "Assistant"@.len()
        == 9);
    let role = match message.role {
        Role::User => "User"@,
        Role::Assistant => "Assistant"@,
    };
    two_members("role"@, JsonView::Str(role), "blocks"@, blocks_json(message.blocks));
    let coded = Seq::new(message.blocks.len(), |i: int| block_json(message.blocks[i]));
    let decode = |v: JsonView| block_of(v);
    assert forall|i: int| 0 <= i < message.blocks.len() implies decode(#[trigger] coded[i]) == Some(
        message.blocks[i],
    ) by {
        block_reads_back(message.blocks[i]);
    }
    decoded_back(message.blocks, coded, decode);
}

proof fn usage_reads_back(usage: Option<Usage>)
    ensures
        usage_of(Some(usage_json(usage))) == Some(usage),
{
    if let Some(u) = usage {
        reveal_strlit("input_tokens");
        reveal_strlit("output_tokens");
        reveal_strlit("cache");
        reveal_strlit("read_tokens");
        reveal_strlit("write_tokens");
        assert("input_tokens"@.len() == 12 && "output_tokens"@.len() == 13 && "cache"@.len() == 5
            && "read_tokens"@.len() == 11 && "write_tokens"@.len() == 12);
        let cache = match u.cache {
            None => JsonView::Null,
            Some(c) => obj(
                nil().push(("read_tokens"@, JsonView::Number(c.read_tokens as int))).push(
                    ("write_tokens"@, JsonView::Number(c.write_tokens as int)),
                ),
            ),
        };
        if let Some(c) = u.cache {
            two_members(
                "read_tokens"@,
                JsonView::Number(c.read_tokens as int),
                "write_tokens"@,
                JsonView::Number(c.write_tokens as int),
            );
        }
        three_members(
            "input_tokens"@,
            JsonView::Number(u.input_tokens as int),
            "output_tokens"@,
            JsonView::Number(u.output_tokens as int),
            "cache"@,
            cache,
        );
    }
}

proof fn item_reads_back(item: PlanItemView)
    ensures
        item_of(item_json(item)) == Some(item),
{
    reveal_strlit("id");
    reveal_strlit("text");
    reveal_strlit("status");
    reveal_strlit("pending");
    reveal_strlit("in_progress");
    reveal_strlit("completed");
    assert("id"@.len() == 2 && "text"@.len() == 4 && "status"@.len() == 6 && "pending"@.len() == 7
        && "in_progress"@.len() == 11 && "completed"@.len() == 9);
    three_members(
        "id"@,
        JsonView::Str(item.id),
        "text"@,
        JsonView::Str(item.text),
        "status"@,
        JsonView::Str(status_name(item.status)),
    );
}

proof fn plan_reads_back(plan: PlanView)
    requires
        plan.revision <= u64::MAX,
    ensures
        plan_of(plan_json(plan)) == Some(plan),
{
    reveal_strlit("revision");
    reveal_strlit("items");
    reveal_strlit("explanation");
    assert("revision"@.len() == 8 && "items"@.len() == 5 && "explanation"@.len() == 11);
    let coded = Seq::new(plan.items.len(), |i: int| item_json(plan.items[i]));
    three_members(
        "revision"@,
        JsonView::Number(plan.revision as int),
        "items"@,
        JsonView::Array(coded),
        "explanation"@,
        opt_text(plan.explanation),
    );
    let decode = |v: JsonView| item_of(v);
    assert forall|i: int| 0 <= i < plan.items.len() implies decode(#[trigger] coded[i]) == Some(
        plan.items[i],
    ) by {
        item_reads_back(plan.items[i]);
    }
    decoded_back(plan.items, coded, decode);
}

proof fn data_reads_back(fact: PayloadView)
    requires
        storable(fact),
    ensures
        match fact {
            PayloadView::Message { .. } => record_of(data_json(fact)) == Some(fact),
            PayloadView::Notice { .. } => notice_of(data_json(fact)) == Some(fact),
            PayloadView::Artifact { .. } => artifact_of(data_json(fact)) == Some(fact),
            PayloadView::Compaction { .. } => compaction_of(data_json(fact)) == Some(fact),
            PayloadView::ModelChange { .. } => change_of(data_json(fact)) == Some(fact),
            PayloadView::PlanUpdated(plan) => plan_of(data_json(fact)) == Some(plan),
            PayloadView::PlanReminder(_) => reminder_of(data_json(fact)) == Some(fact),
        },
{
    match fact {
        PayloadView::Message { message, usage, prompt_fingerprint } => {
            reveal_strlit("message");
            reveal_strlit("usage");
            reveal_strlit("prompt_fingerprint");
            assert("message"@.len() == 7 && "usage"@.len() == 5 && "prompt_fingerprint"@.len() == 18);
            law_messages_read_back(message);
            usage_reads_back(usage);
            three_members(
                "message"@,
                message_json(message),
                "usage"@,
                usage_json(usage),
                "prompt_fingerprint"@,
                opt_text(prompt_fingerprint),
            );
        },
        PayloadView::Notice { text, level } => {
            reveal_strlit("text");
            reveal_strlit("level");
            reveal_strlit("info");
            reveal_strlit("warning");
            reveal_strlit("error");
            assert("text"@.len() == 4 && "level"@.len() == 5 && "info"@.len() == 4
                && "warning"@.len() == 7 && "error"@.len() == 5);
            two_members("text"@, JsonView::Str(text), "level"@, JsonView::Str(level_name(level)));
        },
        PayloadView::Artifact { id, media_type, byte_len } => {
            reveal_strlit("id");
            reveal_strlit("media_type");
            reveal_strlit("byte_len");
            assert("id"@.len() == 2 && "media_type"@.len() == 10 && "byte_len"@.len() == 8);
            three_members(
                "id"@,
                JsonView::Str(id),
                "media_type"@,
                JsonView::Str(media_type),
                "byte_len"@,
                JsonView::Number(byte_len as int),
            );
        },
        PayloadView::Compaction { summary, tokens_before } => {
            reveal_strlit("summary");
            reveal_strlit("tokens_before");
            assert("summary"@.len() == 7 && "tokens_before"@.len() == 13);
            two_members(
                "summary"@,
                JsonView::Str(summary),
                "tokens_before"@,
                JsonView::Number(tokens_before as int),
            );
        },
        PayloadView::ModelChange { provider, model, effort } => {
            reveal_strlit("provider");
            reveal_strlit("model");
            reveal_strlit("effort");
            assert("provider"@.len() == 8 && "model"@.len() == 5 && "effort"@.len() == 6);
            three_members(
                "provider"@,
                JsonView::Str(provider),
                "model"@,
                JsonView::Str(model),
                "effort"@,
                JsonView::Str(effort),
            );
        },
        PayloadView::PlanUpdated(plan) => {
            plan_reads_back(plan);
        },
        PayloadView::PlanReminder(r) => {
            reveal_strlit("revision");
            reveal_strlit("reason");
            reveal_strlit("continue");
            reveal_strlit("cancelled");
            assert("revision"@.len() == 8 && "reason"@.len() == 6 && "continue"@.len() == 8
                && "cancelled"@.len() == 9);
            two_members(
                "revision"@,
                JsonView::Number(r.revision as int),
                "reason"@,
                JsonView::Str(reason_name(r.reason)),
            );
        },
    }
}

/// A fact reads back as it was written.
pub proof fn law_facts_read_back(fact: PayloadView)
    requires
        storable(fact),
    ensures
        fact_of(fact_json(fact)) == Some(fact),
{
    data_reads_back(fact);
    reveal_strlit("type");
    reveal_strlit("data");
    assert("type"@[0] == 't' && "data"@[0] == 'd');
    two_members(
        "type"@,
        JsonView::Str(crate::session::kind_of(fact)),
        "data"@,
        data_json(fact),
    );
    reveal_strlit("message");
    reveal_strlit("notice");
    reveal_strlit("artifact");
    reveal_strlit("compaction");
    reveal_strlit("model_change");
    reveal_strlit("plan_updated");
    reveal_strlit("plan_reminder");
    assert("message"@.len() == 7 && "notice"@.len() == 6 && "artifact"@.len() == 8
        && "compaction"@.len() == 10 && "model_change"@.len() == 12 && "plan_updated"@.len() == 12
        && "plan_reminder"@.len() == 13);
    assert("model_change"@[0] == 'm' && "plan_updated"@[0] == 'p');
}

} // verus!
