//! What the events of a stream come to.
use vstd::prelude::*;

use crate::json::{lookup, JsonView};
use crate::list::{slot_at, with_slot};
use crate::message::{BlockView, CacheUsage, Role, StopView};
use crate::provider::{anthropic, openai_responses, parsed_args, EventView, StepView};

verus! {

/// Whether a value says a text under a key.
pub open spec fn says(value: JsonView, key: Seq<char>, text: Seq<char>) -> bool {
    lookup(value, key) == Some(JsonView::Str(text))
}

/// Whether a value says a number under a key.
pub open spec fn counts(value: JsonView, key: Seq<char>, n: u64) -> bool {
    lookup(value, key) == Some(JsonView::Number(n as int))
}

proof fn event_kinds()
    ensures
        "message_start"@ != "content_block_start"@,
        "message_start"@ != "content_block_delta"@,
        "message_start"@ != "content_block_stop"@,
        "message_start"@ != "message_delta"@,
        "message_start"@ != "message_stop"@,
        "message_start"@ != "error"@,
        "content_block_start"@ != "content_block_delta"@,
        "content_block_start"@ != "content_block_stop"@,
        "content_block_start"@ != "message_delta"@,
        "content_block_start"@ != "message_stop"@,
        "content_block_start"@ != "error"@,
        "content_block_delta"@ != "content_block_stop"@,
        "content_block_delta"@ != "message_delta"@,
        "content_block_delta"@ != "message_stop"@,
        "content_block_delta"@ != "error"@,
        "content_block_stop"@ != "message_delta"@,
        "content_block_stop"@ != "message_stop"@,
        "content_block_stop"@ != "error"@,
        "message_delta"@ != "message_stop"@,
        "message_delta"@ != "error"@,
        "message_stop"@ != "error"@,
{
    reveal_strlit("message_start");
    reveal_strlit("content_block_start");
    reveal_strlit("content_block_delta");
    reveal_strlit("content_block_stop");
    reveal_strlit("message_delta");
    reveal_strlit("message_stop");
    reveal_strlit("error");
    assert("message_start"@.len() != "content_block_start"@.len());
    assert("message_start"@.len() != "content_block_delta"@.len());
    assert("message_start"@.len() != "content_block_stop"@.len());
    assert("message_start"@[8] != "message_delta"@[8]);
    assert("message_start"@.len() != "message_stop"@.len());
    assert("message_start"@.len() != "error"@.len());
    assert("content_block_start"@[14] != "content_block_delta"@[14]);
    assert("content_block_start"@.len() != "content_block_stop"@.len());
    assert("content_block_start"@.len() != "message_delta"@.len());
    assert("content_block_start"@.len() != "message_stop"@.len());
    assert("content_block_start"@.len() != "error"@.len());
    assert("content_block_delta"@.len() != "content_block_stop"@.len());
    assert("content_block_delta"@.len() != "message_delta"@.len());
    assert("content_block_delta"@.len() != "message_stop"@.len());
    assert("content_block_delta"@.len() != "error"@.len());
    assert("content_block_stop"@.len() != "message_delta"@.len());
    assert("content_block_stop"@.len() != "message_stop"@.len());
    assert("content_block_stop"@.len() != "error"@.len());
    assert("message_delta"@.len() != "message_stop"@.len());
    assert("message_delta"@.len() != "error"@.len());
    assert("message_stop"@.len() != "error"@.len());
}

proof fn block_kinds()
    ensures
        "text"@ != "thinking"@,
        "text"@ != "tool_use"@,
        "thinking"@ != "tool_use"@,
{
    reveal_strlit("text");
    reveal_strlit("thinking");
    reveal_strlit("tool_use");
    assert("text"@.len() != "thinking"@.len());
    assert("text"@.len() != "tool_use"@.len());
    assert("thinking"@[1] != "tool_use"@[1]);
}

proof fn delta_kinds()
    ensures
        "text_delta"@ != "thinking_delta"@,
        "text_delta"@ != "input_json_delta"@,
        "thinking_delta"@ != "input_json_delta"@,
{
    reveal_strlit("text_delta");
    reveal_strlit("thinking_delta");
    reveal_strlit("input_json_delta");
    assert("text_delta"@.len() != "thinking_delta"@.len());
    assert("text_delta"@.len() != "input_json_delta"@.len());
    assert("thinking_delta"@.len() != "input_json_delta"@.len());
}

proof fn response_kinds()
    ensures
        ""@ != "response.output_item.added"@,
        ""@ != "response.output_text.delta"@,
        ""@ != "response.reasoning_summary_text.delta"@,
        ""@ != "response.reasoning_text.delta"@,
        ""@ != "response.function_call_arguments.delta"@,
        ""@ != "response.output_item.done"@,
        ""@ != "response.completed"@,
        ""@ != "response.incomplete"@,
        ""@ != "response.failed"@,
        ""@ != "error"@,
        "response.output_item.added"@ != "response.output_text.delta"@,
        "response.output_item.added"@ != "response.reasoning_summary_text.delta"@,
        "response.output_item.added"@ != "response.reasoning_text.delta"@,
        "response.output_item.added"@ != "response.function_call_arguments.delta"@,
        "response.output_item.added"@ != "response.output_item.done"@,
        "response.output_item.added"@ != "response.completed"@,
        "response.output_item.added"@ != "response.incomplete"@,
        "response.output_item.added"@ != "response.failed"@,
        "response.output_item.added"@ != "error"@,
        "response.output_text.delta"@ != "response.reasoning_summary_text.delta"@,
        "response.output_text.delta"@ != "response.reasoning_text.delta"@,
        "response.output_text.delta"@ != "response.function_call_arguments.delta"@,
        "response.output_text.delta"@ != "response.output_item.done"@,
        "response.output_text.delta"@ != "response.completed"@,
        "response.output_text.delta"@ != "response.incomplete"@,
        "response.output_text.delta"@ != "response.failed"@,
        "response.output_text.delta"@ != "error"@,
        "response.reasoning_summary_text.delta"@ != "response.reasoning_text.delta"@,
        "response.reasoning_summary_text.delta"@ != "response.function_call_arguments.delta"@,
        "response.reasoning_summary_text.delta"@ != "response.output_item.done"@,
        "response.reasoning_summary_text.delta"@ != "response.completed"@,
        "response.reasoning_summary_text.delta"@ != "response.incomplete"@,
        "response.reasoning_summary_text.delta"@ != "response.failed"@,
        "response.reasoning_summary_text.delta"@ != "error"@,
        "response.reasoning_text.delta"@ != "response.function_call_arguments.delta"@,
        "response.reasoning_text.delta"@ != "response.output_item.done"@,
        "response.reasoning_text.delta"@ != "response.completed"@,
        "response.reasoning_text.delta"@ != "response.incomplete"@,
        "response.reasoning_text.delta"@ != "response.failed"@,
        "response.reasoning_text.delta"@ != "error"@,
        "response.function_call_arguments.delta"@ != "response.output_item.done"@,
        "response.function_call_arguments.delta"@ != "response.completed"@,
        "response.function_call_arguments.delta"@ != "response.incomplete"@,
        "response.function_call_arguments.delta"@ != "response.failed"@,
        "response.function_call_arguments.delta"@ != "error"@,
        "response.output_item.done"@ != "response.completed"@,
        "response.output_item.done"@ != "response.incomplete"@,
        "response.output_item.done"@ != "response.failed"@,
        "response.output_item.done"@ != "error"@,
        "response.completed"@ != "response.incomplete"@,
        "response.completed"@ != "response.failed"@,
        "response.completed"@ != "error"@,
        "response.incomplete"@ != "response.failed"@,
        "response.incomplete"@ != "error"@,
        "response.failed"@ != "error"@,
{
    reveal_strlit("");
    reveal_strlit("response.output_item.added");
    reveal_strlit("response.output_text.delta");
    reveal_strlit("response.reasoning_summary_text.delta");
    reveal_strlit("response.reasoning_text.delta");
    reveal_strlit("response.function_call_arguments.delta");
    reveal_strlit("response.output_item.done");
    reveal_strlit("response.completed");
    reveal_strlit("response.incomplete");
    reveal_strlit("response.failed");
    reveal_strlit("error");
    assert(""@.len() != "response.output_item.added"@.len());
    assert(""@.len() != "response.output_text.delta"@.len());
    assert(""@.len() != "response.reasoning_summary_text.delta"@.len());
    assert(""@.len() != "response.reasoning_text.delta"@.len());
    assert(""@.len() != "response.function_call_arguments.delta"@.len());
    assert(""@.len() != "response.output_item.done"@.len());
    assert(""@.len() != "response.completed"@.len());
    assert(""@.len() != "response.incomplete"@.len());
    assert(""@.len() != "response.failed"@.len());
    assert(""@.len() != "error"@.len());
    assert("response.output_item.added"@[16] != "response.output_text.delta"@[16]);
    assert("response.output_item.added"@.len() != "response.reasoning_summary_text.delta"@.len());
    assert("response.output_item.added"@.len() != "response.reasoning_text.delta"@.len());
    assert("response.output_item.added"@.len() != "response.function_call_arguments.delta"@.len());
    assert("response.output_item.added"@.len() != "response.output_item.done"@.len());
    assert("response.output_item.added"@.len() != "response.completed"@.len());
    assert("response.output_item.added"@.len() != "response.incomplete"@.len());
    assert("response.output_item.added"@.len() != "response.failed"@.len());
    assert("response.output_item.added"@.len() != "error"@.len());
    assert("response.output_text.delta"@.len() != "response.reasoning_summary_text.delta"@.len());
    assert("response.output_text.delta"@.len() != "response.reasoning_text.delta"@.len());
    assert("response.output_text.delta"@.len() != "response.function_call_arguments.delta"@.len());
    assert("response.output_text.delta"@.len() != "response.output_item.done"@.len());
    assert("response.output_text.delta"@.len() != "response.completed"@.len());
    assert("response.output_text.delta"@.len() != "response.incomplete"@.len());
    assert("response.output_text.delta"@.len() != "response.failed"@.len());
    assert("response.output_text.delta"@.len() != "error"@.len());
    assert("response.reasoning_summary_text.delta"@.len() != "response.reasoning_text.delta"@.len());
    assert("response.reasoning_summary_text.delta"@.len() != "response.function_call_arguments.delta"@.len());
    assert("response.reasoning_summary_text.delta"@.len() != "response.output_item.done"@.len());
    assert("response.reasoning_summary_text.delta"@.len() != "response.completed"@.len());
    assert("response.reasoning_summary_text.delta"@.len() != "response.incomplete"@.len());
    assert("response.reasoning_summary_text.delta"@.len() != "response.failed"@.len());
    assert("response.reasoning_summary_text.delta"@.len() != "error"@.len());
    assert("response.reasoning_text.delta"@.len() != "response.function_call_arguments.delta"@.len());
    assert("response.reasoning_text.delta"@.len() != "response.output_item.done"@.len());
    assert("response.reasoning_text.delta"@.len() != "response.completed"@.len());
    assert("response.reasoning_text.delta"@.len() != "response.incomplete"@.len());
    assert("response.reasoning_text.delta"@.len() != "response.failed"@.len());
    assert("response.reasoning_text.delta"@.len() != "error"@.len());
    assert("response.function_call_arguments.delta"@.len() != "response.output_item.done"@.len());
    assert("response.function_call_arguments.delta"@.len() != "response.completed"@.len());
    assert("response.function_call_arguments.delta"@.len() != "response.incomplete"@.len());
    assert("response.function_call_arguments.delta"@.len() != "response.failed"@.len());
    assert("response.function_call_arguments.delta"@.len() != "error"@.len());
    assert("response.output_item.done"@.len() != "response.completed"@.len());
    assert("response.output_item.done"@.len() != "response.incomplete"@.len());
    assert("response.output_item.done"@.len() != "response.failed"@.len());
    assert("response.output_item.done"@.len() != "error"@.len());
    assert("response.completed"@.len() != "response.incomplete"@.len());
    assert("response.completed"@.len() != "response.failed"@.len());
    assert("response.completed"@.len() != "error"@.len());
    assert("response.incomplete"@.len() != "response.failed"@.len());
    assert("response.incomplete"@.len() != "error"@.len());
    assert("response.failed"@.len() != "error"@.len());
}

proof fn output_kinds()
    ensures
        "message"@ != "function_call"@,
        "message"@ != "reasoning"@,
        "function_call"@ != "reasoning"@,
{
    reveal_strlit("message");
    reveal_strlit("function_call");
    reveal_strlit("reasoning");
    assert("message"@.len() != "function_call"@.len());
    assert("message"@.len() != "reasoning"@.len());
    assert("function_call"@.len() != "reasoning"@.len());
}

proof fn reasons()
    ensures
        "end_turn"@ != "stop_sequence"@,
        "end_turn"@ != "tool_use"@,
        "end_turn"@ != "max_tokens"@,
        "stop_sequence"@ != "tool_use"@,
        "stop_sequence"@ != "max_tokens"@,
        "tool_use"@ != "max_tokens"@,
{
    reveal_strlit("end_turn");
    reveal_strlit("stop_sequence");
    reveal_strlit("tool_use");
    reveal_strlit("max_tokens");
    assert("end_turn"@.len() != "stop_sequence"@.len());
    assert("end_turn"@[0] != "tool_use"@[0]);
    assert("end_turn"@.len() != "max_tokens"@.len());
    assert("stop_sequence"@.len() != "tool_use"@.len());
    assert("stop_sequence"@.len() != "max_tokens"@.len());
    assert("tool_use"@.len() != "max_tokens"@.len());
}

// ---- Slots ----

proof fn slots_are_found<V>(s: Seq<(u64, V)>, key: u64, k: int)
    requires
        0 <= k < s.len(),
        s[k].0 == key,
        forall|j: int| k < j < s.len() ==> (#[trigger] s[j]).0 != key,
    ensures
        slot_at(s, key) == Some(k as nat),
    decreases s.len(),
{
    if k < s.len() - 1 {
        assert(s[s.len() - 1].0 != key);
        slots_are_found(s.drop_last(), key, k);
    }
}

proof fn found_slots_are_last<V>(s: Seq<(u64, V)>, key: u64)
    requires
        slot_at(s, key) is Some,
    ensures
        ({
            let k = slot_at(s, key)->0 as int;
            &&& 0 <= k < s.len()
            &&& s[k].0 == key
            &&& forall|j: int| k < j < s.len() ==> (#[trigger] s[j]).0 != key
        }),
    decreases s.len(),
{
    if s.last().0 != key {
        found_slots_are_last(s.drop_last(), key);
        let k = slot_at(s, key)->0 as int;
        assert forall|j: int| k < j < s.len() implies (#[trigger] s[j]).0 != key by {
            if j < s.len() - 1 {
                assert(s.drop_last()[j].0 != key);
            }
        }
    }
}

proof fn put_slots_are_found<V>(s: Seq<(u64, V)>, key: u64, value: V)
    ensures
        slot_at(with_slot(s, key, value), key) matches Some(k) && with_slot(s, key, value)[k as int]
            == (key, value),
    decreases s.len(),
{
    let t = with_slot(s, key, value);
    if s.len() == 0 {
        assert(t.last() == (key, value));
    } else if s.last().0 <= key {
        assert(t.last() == (key, value));
    } else {
        put_slots_are_found(s.drop_last(), key, value);
        assert(t.drop_last() =~= with_slot(s.drop_last(), key, value));
        found_slots_are_last(t.drop_last(), key);
    }
}

proof fn changed_slots_are_found<V>(s: Seq<(u64, V)>, key: u64, value: V)
    requires
        slot_at(s, key) is Some,
    ensures
        slot_at(s.update(slot_at(s, key)->0 as int, (key, value)), key) == slot_at(s, key),
        slot_at(s, key)->0 < s.len(),
{
    found_slots_are_last(s, key);
    let k = slot_at(s, key)->0 as int;
    let t = s.update(k, (key, value));
    assert forall|j: int| k < j < t.len() implies (#[trigger] t[j]).0 != key by {
        assert(s[j].0 != key);
    }
    slots_are_found(t, key, k);
}

// ---- The Messages interface ----

/// A stream after some events.
pub open spec fn messages_after(s: anthropic::StreamView, events: Seq<JsonView>) -> anthropic::StreamView
    decreases events.len(),
{
    if events.len() == 0 {
        s
    } else {
        anthropic::after_event(messages_after(s, events.drop_last()), events.last()).0
    }
}

/// Whether an event brings a piece of a text block.
pub open spec fn brings_text(event: JsonView, index: u64, piece: Seq<char>) -> bool {
    &&& says(event, "type"@, "content_block_delta"@)
    &&& counts(event, "index"@, index)
    &&& lookup(event, "delta"@) matches Some(delta) && says(delta, "type"@, "text_delta"@) && says(
        delta,
        "text"@,
        piece,
    )
}

proof fn text_so_far(
    s: anthropic::StreamView,
    deltas: Seq<JsonView>,
    pieces: Seq<Seq<char>>,
    index: u64,
)
    requires
        slot_at(s.partials, index) matches Some(k) && ({
            let said = Seq::<char>::empty();
            s.partials[k as int].1 == anthropic::PartialView::Text(said)
        }),
        deltas.len() == pieces.len(),
        forall|i: int|
            0 <= i < deltas.len() ==> brings_text(#[trigger] deltas[i], index, pieces[i]),
    ensures
        ({
            let now = messages_after(s, deltas);
            let said = pieces.flatten();
            &&& now == (anthropic::StreamView { partials: now.partials, ..s })
            &&& slot_at(now.partials, index) matches Some(k) && now.partials[k as int].1
                == anthropic::PartialView::Text(said)
        }),
    decreases deltas.len(),
{
    event_kinds();
    delta_kinds();
    if deltas.len() > 0 {
        let n = deltas.len() - 1;
        let first = deltas.drop_last();
        let rest = pieces.drop_last();
        assert forall|i: int| 0 <= i < first.len() implies brings_text(
            #[trigger] first[i],
            index,
            rest[i],
        ) by {
            assert(brings_text(deltas[i], index, pieces[i]));
        }
        text_so_far(s, first, rest, index);
        assert(brings_text(deltas[n], index, pieces[n]));
        assert(pieces =~= rest.push(pieces[n]));
        rest.lemma_flatten_push(pieces[n]);
        let said = pieces.flatten();
        changed_slots_are_found(
            messages_after(s, first).partials,
            index,
            anthropic::PartialView::Text(said),
        );
    }
}

/// A text block is what its pieces say one behind the other, in the order in which they arrive, and
/// each piece is reported as it arrives.
pub proof fn law_text_blocks_are_their_pieces(
    s: anthropic::StreamView,
    first: JsonView,
    deltas: Seq<JsonView>,
    last: JsonView,
    pieces: Seq<Seq<char>>,
    index: u64,
)
    requires
        says(first, "type"@, "content_block_start"@),
        counts(first, "index"@, index),
        lookup(first, "content_block"@) matches Some(block) && ({
            &&& says(block, "type"@, "text"@)
        }),
        deltas.len() == pieces.len(),
        forall|i: int|
            0 <= i < deltas.len() ==> brings_text(#[trigger] deltas[i], index, pieces[i]),
        says(last, "type"@, "content_block_stop"@),
        counts(last, "index"@, index),
    ensures
        messages_after(s, (seq![first] + deltas).push(last)).blocks == s.blocks.push(
            BlockView::Text(pieces.flatten()),
        ),
        forall|i: int, before: anthropic::StreamView|
            0 <= i < deltas.len() ==> (#[trigger] anthropic::after_event(before, deltas[i])).1
                == StepView::Event(EventView::TextDelta(pieces[i])),
{
    event_kinds();
    block_kinds();
    delta_kinds();
    reveal_strlit("");
    assert(""@ =~= Seq::<char>::empty());
    let begun = anthropic::after_event(s, first).0;
    let said = Seq::<char>::empty();
    put_slots_are_found(s.partials, index, anthropic::PartialView::Text(said));
    let opened = seq![first];
    assert(opened.drop_last() =~= seq![]);
    assert(messages_after(s, opened.drop_last()) == s);
    assert(messages_after(s, opened) == begun);
    text_so_far(begun, deltas, pieces, index);
    events_join(s, opened, deltas);
    let all = (opened + deltas).push(last);
    assert(all.drop_last() =~= opened + deltas);
    assert forall|i: int, before: anthropic::StreamView| 0 <= i < deltas.len() implies (
    #[trigger] anthropic::after_event(before, deltas[i])).1 == StepView::Event(EventView::TextDelta(pieces[i])) by {
        assert(brings_text(deltas[i], index, pieces[i]));
    }
}

/// Whether an event brings a piece of a thinking block.
pub open spec fn brings_thinking(event: JsonView, index: u64, piece: Seq<char>) -> bool {
    &&& says(event, "type"@, "content_block_delta"@)
    &&& counts(event, "index"@, index)
    &&& lookup(event, "delta"@) matches Some(delta) && says(delta, "type"@, "thinking_delta"@) && says(
        delta,
        "thinking"@,
        piece,
    )
}

proof fn thinking_so_far(
    s: anthropic::StreamView,
    deltas: Seq<JsonView>,
    pieces: Seq<Seq<char>>,
    index: u64,
)
    requires
        slot_at(s.partials, index) matches Some(k) && ({
            let said = Seq::<char>::empty();
            s.partials[k as int].1 == anthropic::PartialView::Thinking(said)
        }),
        deltas.len() == pieces.len(),
        forall|i: int|
            0 <= i < deltas.len() ==> brings_thinking(#[trigger] deltas[i], index, pieces[i]),
    ensures
        ({
            let now = messages_after(s, deltas);
            let said = pieces.flatten();
            &&& now == (anthropic::StreamView { partials: now.partials, ..s })
            &&& slot_at(now.partials, index) matches Some(k) && now.partials[k as int].1
                == anthropic::PartialView::Thinking(said)
        }),
    decreases deltas.len(),
{
    event_kinds();
    delta_kinds();
    if deltas.len() > 0 {
        let n = deltas.len() - 1;
        let first = deltas.drop_last();
        let rest = pieces.drop_last();
        assert forall|i: int| 0 <= i < first.len() implies brings_thinking(
            #[trigger] first[i],
            index,
            rest[i],
        ) by {
            assert(brings_thinking(deltas[i], index, pieces[i]));
        }
        thinking_so_far(s, first, rest, index);
        assert(brings_thinking(deltas[n], index, pieces[n]));
        assert(pieces =~= rest.push(pieces[n]));
        rest.lemma_flatten_push(pieces[n]);
        let said = pieces.flatten();
        changed_slots_are_found(
            messages_after(s, first).partials,
            index,
            anthropic::PartialView::Thinking(said),
        );
    }
}

/// A thought is what its pieces say one behind the other, in the order in which they arrive, and each
/// piece is reported as it arrives.
pub proof fn law_thoughts_are_their_pieces(
    s: anthropic::StreamView,
    first: JsonView,
    deltas: Seq<JsonView>,
    last: JsonView,
    pieces: Seq<Seq<char>>,
    index: u64,
)
    requires
        says(first, "type"@, "content_block_start"@),
        counts(first, "index"@, index),
        lookup(first, "content_block"@) matches Some(block) && ({
            &&& says(block, "type"@, "thinking"@)
        }),
        deltas.len() == pieces.len(),
        forall|i: int|
            0 <= i < deltas.len() ==> brings_thinking(#[trigger] deltas[i], index, pieces[i]),
        says(last, "type"@, "content_block_stop"@),
        counts(last, "index"@, index),
    ensures
        messages_after(s, (seq![first] + deltas).push(last)).blocks == s.blocks.push(
            BlockView::Thinking { text: pieces.flatten(), provider_kind: Some("anthropic"@), raw: None },
        ),
        forall|i: int, before: anthropic::StreamView|
            0 <= i < deltas.len() ==> (#[trigger] anthropic::after_event(before, deltas[i])).1
                == StepView::Event(EventView::ThinkingDelta(pieces[i])),
{
    event_kinds();
    block_kinds();
    delta_kinds();
    reveal_strlit("");
    assert(""@ =~= Seq::<char>::empty());
    let begun = anthropic::after_event(s, first).0;
    let said = Seq::<char>::empty();
    put_slots_are_found(s.partials, index, anthropic::PartialView::Thinking(said));
    let opened = seq![first];
    assert(opened.drop_last() =~= seq![]);
    assert(messages_after(s, opened.drop_last()) == s);
    assert(messages_after(s, opened) == begun);
    thinking_so_far(begun, deltas, pieces, index);
    events_join(s, opened, deltas);
    let all = (opened + deltas).push(last);
    assert(all.drop_last() =~= opened + deltas);
    assert forall|i: int, before: anthropic::StreamView| 0 <= i < deltas.len() implies (
    #[trigger] anthropic::after_event(before, deltas[i])).1 == StepView::Event(EventView::ThinkingDelta(pieces[i])) by {
        assert(brings_thinking(deltas[i], index, pieces[i]));
    }
}

/// Whether an event brings a piece of a call block.
pub open spec fn brings_call(event: JsonView, index: u64, piece: Seq<char>) -> bool {
    &&& says(event, "type"@, "content_block_delta"@)
    &&& counts(event, "index"@, index)
    &&& lookup(event, "delta"@) matches Some(delta) && says(delta, "type"@, "input_json_delta"@) && says(
        delta,
        "partial_json"@,
        piece,
    )
}

proof fn call_so_far(
    s: anthropic::StreamView,
    deltas: Seq<JsonView>,
    pieces: Seq<Seq<char>>,
    index: u64,
    id: Seq<char>,
    name: Seq<char>,
)
    requires
        slot_at(s.partials, index) matches Some(k) && ({
            let said = Seq::<char>::empty();
            s.partials[k as int].1 == anthropic::PartialView::ToolUse { id, name, args: said }
        }),
        deltas.len() == pieces.len(),
        forall|i: int|
            0 <= i < deltas.len() ==> brings_call(#[trigger] deltas[i], index, pieces[i]),
    ensures
        ({
            let now = messages_after(s, deltas);
            let said = pieces.flatten();
            &&& now == (anthropic::StreamView { partials: now.partials, ..s })
            &&& slot_at(now.partials, index) matches Some(k) && now.partials[k as int].1
                == anthropic::PartialView::ToolUse { id, name, args: said }
        }),
    decreases deltas.len(),
{
    event_kinds();
    delta_kinds();
    if deltas.len() > 0 {
        let n = deltas.len() - 1;
        let first = deltas.drop_last();
        let rest = pieces.drop_last();
        assert forall|i: int| 0 <= i < first.len() implies brings_call(
            #[trigger] first[i],
            index,
            rest[i],
        ) by {
            assert(brings_call(deltas[i], index, pieces[i]));
        }
        call_so_far(s, first, rest, index, id, name);
        assert(brings_call(deltas[n], index, pieces[n]));
        assert(pieces =~= rest.push(pieces[n]));
        rest.lemma_flatten_push(pieces[n]);
        let said = pieces.flatten();
        changed_slots_are_found(
            messages_after(s, first).partials,
            index,
            anthropic::PartialView::ToolUse { id, name, args: said },
        );
    }
}

/// A call has the id and the name that it begins with, and its arguments are read from what their
/// pieces say one behind the other, in the order in which they arrive.
pub proof fn law_calls_are_their_pieces(
    s: anthropic::StreamView,
    first: JsonView,
    deltas: Seq<JsonView>,
    last: JsonView,
    pieces: Seq<Seq<char>>,
    index: u64,
    id: Seq<char>,
    name: Seq<char>,
)
    requires
        says(first, "type"@, "content_block_start"@),
        counts(first, "index"@, index),
        lookup(first, "content_block"@) matches Some(block) && ({
            &&& says(block, "type"@, "tool_use"@)
            &&& says(block, "id"@, id)
            &&& says(block, "name"@, name)
        }),
        deltas.len() == pieces.len(),
        forall|i: int|
            0 <= i < deltas.len() ==> brings_call(#[trigger] deltas[i], index, pieces[i]),
        says(last, "type"@, "content_block_stop"@),
        counts(last, "index"@, index),
    ensures
        messages_after(s, (seq![first] + deltas).push(last)).blocks == s.blocks.push(
            BlockView::ToolUse { id, name, input: parsed_args(pieces.flatten()) },
        ),
        forall|i: int, before: anthropic::StreamView|
            0 <= i < deltas.len() ==> (#[trigger] anthropic::after_event(before, deltas[i])).1
                == StepView::More,
{
    event_kinds();
    block_kinds();
    delta_kinds();
    reveal_strlit("");
    assert(""@ =~= Seq::<char>::empty());
    let begun = anthropic::after_event(s, first).0;
    let said = Seq::<char>::empty();
    put_slots_are_found(s.partials, index, anthropic::PartialView::ToolUse { id, name, args: said });
    let opened = seq![first];
    assert(opened.drop_last() =~= seq![]);
    assert(messages_after(s, opened.drop_last()) == s);
    assert(messages_after(s, opened) == begun);
    call_so_far(begun, deltas, pieces, index, id, name);
    events_join(s, opened, deltas);
    let all = (opened + deltas).push(last);
    assert(all.drop_last() =~= opened + deltas);
    assert forall|i: int, before: anthropic::StreamView| 0 <= i < deltas.len() implies (
    #[trigger] anthropic::after_event(before, deltas[i])).1 == StepView::More by {
        assert(brings_call(deltas[i], index, pieces[i]));
    }
}

proof fn events_join(s: anthropic::StreamView, a: Seq<JsonView>, b: Seq<JsonView>)
    ensures
        messages_after(s, a + b) == messages_after(messages_after(s, a), b),
    decreases b.len(),
{
    if b.len() == 0 {
        assert(a + b =~= a);
    } else {
        events_join(s, a, b.drop_last());
        assert((a + b).drop_last() =~= a + b.drop_last());
    }
}

/// The blocks of an answer are those that its stream completed, in that order, and the answer is the
/// assistant's; its tokens and the reason of its end are those that the stream told of.
pub proof fn law_answers_are_what_the_stream_brought(s: anthropic::StreamView)
    requires
        s.partials.len() == 0,
    ensures
        anthropic::stream_outcome(s, true) matches Ok(turn) && {
            &&& turn.message.role == Role::Assistant
            &&& turn.message.blocks == s.blocks
            &&& turn.usage == s.usage
            &&& turn.stop == s.stop
            &&& turn.prompt_fingerprint == Some(s.prompt_fingerprint)
        },
{
}

/// The opening event tells how long the prompt was, with what came out of the cache and went into
/// it; the last but one tells how long the answer is and why it ended.
pub proof fn law_streams_tell_the_tokens(
    s: anthropic::StreamView,
    event: JsonView,
    input: u64,
    output: u64,
)
    ensures
        (says(event, "type"@, "message_start"@) && (lookup(event, "message"@) matches Some(message)
            && (lookup(message, "usage"@) matches Some(usage) && counts(usage, "input_tokens"@, input)
            && counts(usage, "output_tokens"@, output) && lookup(usage, "cache_read_input_tokens"@)
            is None && lookup(usage, "cache_creation_input_tokens"@) is None))) ==> ({
            let now = anthropic::after_event(s, event).0;
            &&& now.usage.input_tokens == input
            &&& now.usage.output_tokens == output
            &&& now.usage.cache is None
            &&& now == (anthropic::StreamView { usage: now.usage, ..s })
        }),
        (says(event, "type"@, "message_delta"@) && (lookup(event, "usage"@) matches Some(usage)
            && counts(usage, "output_tokens"@, output))) ==> ({
            let now = anthropic::after_event(s, event).0;
            &&& now.usage.output_tokens == output
            &&& now.usage.input_tokens == s.usage.input_tokens
            &&& now.usage.cache == s.usage.cache
            &&& now.blocks == s.blocks
            &&& now.partials == s.partials
        }),
{
    event_kinds();
}

/// Cached input counts as input: the tokens read from the cache and those written to it are part of
/// the prompt, and are told apart beside.
pub proof fn law_cached_tokens_are_input(usage: JsonView, input: u64, read: u64, write: u64)
    requires
        counts(usage, "input_tokens"@, input),
        counts(usage, "cache_read_input_tokens"@, read),
        counts(usage, "cache_creation_input_tokens"@, write),
        input + read + write <= u64::MAX,
    ensures
        ({
            let told = anthropic::opening_usage(Some(usage));
            &&& told.input_tokens == input + read + write
            &&& told.cache matches Some(cache) && cache.read_tokens == read && cache.write_tokens
                == write
        }),
{
}

/// Why an answer ended, from what the service calls it.
pub proof fn law_reasons_are_told_apart(
    s: anthropic::StreamView,
    event: JsonView,
    reason: Seq<char>,
)
    requires
        says(event, "type"@, "message_delta"@),
        lookup(event, "delta"@) matches Some(delta) && says(delta, "stop_reason"@, reason),
    ensures
        ({
            let stop = anthropic::after_event(s, event).0.stop;
            &&& (reason == "end_turn"@ || reason == "stop_sequence"@) ==> stop is EndTurn
            &&& reason == "tool_use"@ ==> stop is ToolUse
            &&& reason == "max_tokens"@ ==> stop is MaxTokens
            &&& stop matches StopView::Other(other) ==> other == reason
            &&& stop is EndTurn ==> (reason == "end_turn"@ || reason == "stop_sequence"@)
            &&& stop is ToolUse ==> reason == "tool_use"@
            &&& stop is MaxTokens ==> reason == "max_tokens"@
        }),
{
    event_kinds();
    reasons();
}

/// The last event ends a stream, and an error in it fails it with what the service says.
pub proof fn law_streams_end(s: anthropic::StreamView, event: JsonView, message: Seq<char>)
    ensures
        says(event, "type"@, "message_stop"@) ==> anthropic::after_event(s, event) == (
            s,
            StepView::Finished,
        ),
        (says(event, "type"@, "error"@) && (lookup(event, "error"@) matches Some(error) && says(
            error,
            "message"@,
            message,
        ))) ==> (anthropic::after_event(s, event).1 matches StepView::Failed(error)
            && error.message == "API 流错误: "@ + message && !error.retryable),
{
    event_kinds();
}

// ---- The Responses interface ----

/// A completed message is the text of its parts, one behind the other.
pub proof fn law_messages_are_their_parts(a: Seq<JsonView>, b: Seq<JsonView>, t: Seq<char>)
    ensures
        openai_responses::output_text(a + b) == openai_responses::output_text(a)
            + openai_responses::output_text(b),
        (a.len() == 1 && says(a[0], "type"@, "output_text"@) && says(a[0], "text"@, t))
            ==> openai_responses::output_text(a) == t,
    decreases b.len(),
{
    if b.len() == 0 {
        assert(a + b =~= a);
        assert(openai_responses::output_text(a) + openai_responses::output_text(b)
            =~= openai_responses::output_text(a));
    } else {
        law_messages_are_their_parts(a, b.drop_last(), t);
        assert((a + b).drop_last() =~= a + b.drop_last());
        assert(openai_responses::output_text(a + b) =~= openai_responses::output_text(a)
            + openai_responses::output_text(b));
    }
    if a.len() == 1 {
        assert(a.drop_last() =~= seq![]);
        assert(openai_responses::output_text(a.drop_last()) =~= seq![]);
        assert(a.last() == a[0]);
        if says(a[0], "type"@, "output_text"@) && says(a[0], "text"@, t) {
            assert(openai_responses::output_text(a) =~= t);
        }
    }
}

/// A completed item adds one block behind those that are there: a message its text, a call its id,
/// its name and its arguments, and reasoning the item as it came. Nothing else changes but the
/// slot of the item.
pub proof fn law_completed_items_become_blocks(
    s: openai_responses::StreamView,
    event: JsonView,
    item: JsonView,
    id: Seq<char>,
    name: Seq<char>,
    arguments: Seq<char>,
)
    requires
        says(event, "type"@, "response.output_item.done"@),
        lookup(event, "item"@) == Some(item),
    ensures
        ({
            let (now, step) = openai_responses::after_event(s, event);
            &&& step is More
            &&& now.usage == s.usage && now.stop == s.stop
            &&& (says(item, "type"@, "message"@) && (lookup(item, "content"@) matches Some(
                JsonView::Array(parts),
            ) && openai_responses::output_text(parts).len() > 0)) ==> now.blocks == s.blocks.push(
                BlockView::Text(
                    openai_responses::output_text(lookup(item, "content"@)->0->Array_0),
                ),
            )
            &&& (says(item, "type"@, "function_call"@) && says(item, "call_id"@, id) && says(
                item,
                "name"@,
                name,
            ) && says(item, "arguments"@, arguments)) ==> now.blocks == s.blocks.push(
                BlockView::ToolUse { id, name, input: parsed_args(arguments) },
            )
            &&& says(item, "type"@, "reasoning"@) ==> now.blocks.len() == s.blocks.len() + 1
                && now.blocks.drop_last() == s.blocks && (now.blocks.last() matches
                BlockView::Thinking { provider_kind, raw, .. } && raw == Some(item)
                && provider_kind == Some("openai_responses"@))
        }),
{
    response_kinds();
    output_kinds();
    assert(s.blocks.push(BlockView::Text(id)).drop_last() =~= s.blocks);
    let now = openai_responses::after_event(s, event).0;
    if says(item, "type"@, "reasoning"@) {
        assert(now.blocks.drop_last() =~= s.blocks);
    }
}

/// Pieces are reported as they arrive, texts as text and reasoning as thoughts.
pub proof fn law_pieces_are_reported(
    s: openai_responses::StreamView,
    event: JsonView,
    piece: Seq<char>,
)
    requires
        says(event, "delta"@, piece),
    ensures
        says(event, "type"@, "response.output_text.delta"@) ==> openai_responses::after_event(
            s,
            event,
        ).1 == StepView::Event(EventView::TextDelta(piece)),
        (says(event, "type"@, "response.reasoning_summary_text.delta"@) || says(
            event,
            "type"@,
            "response.reasoning_text.delta"@,
        )) ==> openai_responses::after_event(s, event).1 == StepView::Event(
            EventView::ThinkingDelta(piece),
        ),
        openai_responses::after_event(s, event).0.blocks == s.blocks || says(
            event,
            "type"@,
            "response.output_item.done"@,
        ),
{
    response_kinds();
}

/// What a message brought before its stream broke off is kept, its pieces in the order in which they
/// arrived.
pub proof fn law_unfinished_messages_keep_their_pieces(
    s: openai_responses::StreamView,
    events: Seq<JsonView>,
    pieces: Seq<Seq<char>>,
    index: u64,
)
    requires
        slot_at(s.partials, index) matches Some(k) && s.partials[k as int].1
            == openai_responses::PartialView::Msg(Seq::empty()),
        events.len() == pieces.len(),
        forall|i: int|
            0 <= i < events.len() ==> says(
                #[trigger] events[i],
                "type"@,
                "response.output_text.delta"@,
            ) && counts(events[i], "output_index"@, index) && says(events[i], "delta"@, pieces[i]),
    ensures
        ({
            let now = responses_after(s, events);
            slot_at(now.partials, index) matches Some(k) && now.partials[k as int].1
                == openai_responses::PartialView::Msg(pieces.flatten()) && (
            pieces.flatten().len() > 0 ==> openai_responses::remnant(now.partials[k as int].1)
                == Some(BlockView::Text(pieces.flatten())))
        }),
    decreases events.len(),
{
    response_kinds();
    if events.len() > 0 {
        let n = events.len() - 1;
        let first = events.drop_last();
        let rest = pieces.drop_last();
        assert forall|i: int| 0 <= i < first.len() implies says(
            #[trigger] first[i],
            "type"@,
            "response.output_text.delta"@,
        ) && counts(first[i], "output_index"@, index) && says(first[i], "delta"@, rest[i]) by {
            assert(first[i] == events[i]);
        }
        law_unfinished_messages_keep_their_pieces(s, first, rest, index);
        assert(events[n] == events.last());
        assert(pieces =~= rest.push(pieces[n]));
        rest.lemma_flatten_push(pieces[n]);
        changed_slots_are_found(
            responses_after(s, first).partials,
            index,
            openai_responses::PartialView::Msg(pieces.flatten()),
        );
    }
}

/// A stream after some events.
pub open spec fn responses_after(
    s: openai_responses::StreamView,
    events: Seq<JsonView>,
) -> openai_responses::StreamView
    decreases events.len(),
{
    if events.len() == 0 {
        s
    } else {
        openai_responses::after_event(responses_after(s, events.drop_last()), events.last()).0
    }
}

/// The last event tells the tokens that the whole response took, and ends the stream.
pub proof fn law_responses_tell_the_tokens(
    s: openai_responses::StreamView,
    event: JsonView,
    input: u64,
    output: u64,
)
    requires
        says(event, "type"@, "response.completed"@),
        lookup(event, "response"@) matches Some(response) && (lookup(response, "usage"@)
            matches Some(usage) && counts(usage, "input_tokens"@, input) && counts(
            usage,
            "output_tokens"@,
            output,
        )),
    ensures
        ({
            let (now, step) = openai_responses::after_event(s, event);
            &&& step is Finished
            &&& now.usage.input_tokens == input
            &&& now.usage.output_tokens == output
            &&& now.usage.cache == openai_responses::cache_of(
                lookup(lookup(event, "response"@)->0, "usage"@),
            )
            &&& now.blocks == s.blocks
            &&& now.stop == s.stop
        }),
{
    response_kinds();
}

/// Why a response ended: a limit that was hit is one, and otherwise it ended on its calls where it
/// has any, and by itself where it has none.
pub proof fn law_responses_end_for_a_reason(
    s: openai_responses::StreamView,
    event: JsonView,
    reason: Seq<char>,
)
    ensures
        (says(event, "type"@, "response.incomplete"@) && (lookup(event, "response"@) matches Some(
            response,
        ) && (lookup(response, "incomplete_details"@) matches Some(details) && says(
            details,
            "reason"@,
            reason,
        )))) ==> ({
            let (now, step) = openai_responses::after_event(s, event);
            &&& step is Finished
            &&& now.stop == Some(
                if reason == "max_output_tokens"@ {
                    StopView::MaxTokens
                } else {
                    StopView::Other(reason)
                },
            )
        }),
        (s.partials.len() == 0 && s.stop is None) ==> (openai_responses::stream_outcome(s, true)
            matches Ok(turn) && turn.message.role == Role::Assistant && turn.message.blocks
            == s.blocks && turn.usage == s.usage && turn.stop == (if exists|i: int|
            0 <= i < s.blocks.len() && (#[trigger] s.blocks[i]) is ToolUse {
            StopView::ToolUse
        } else {
            StopView::EndTurn
        })),
        s.stop matches Some(stop) ==> (openai_responses::stream_outcome(s, true) matches Ok(turn)
            && turn.stop == stop),
{
    response_kinds();
}

/// A stream that has brought nothing holds nothing, and has used nothing.
pub proof fn law_streams_begin_with_nothing(prompt_fingerprint: Seq<char>)
    ensures
        ({
            let s = anthropic::fresh_stream(prompt_fingerprint);
            &&& s.partials.len() == 0 && s.blocks.len() == 0
            &&& s.usage.input_tokens == 0 && s.usage.output_tokens == 0 && s.usage.cache is None
            &&& s.stop is EndTurn
            &&& s.prompt_fingerprint == prompt_fingerprint
        }),
        ({
            let s = openai_responses::fresh_stream(prompt_fingerprint);
            &&& s.partials.len() == 0 && s.blocks.len() == 0
            &&& s.usage.input_tokens == 0 && s.usage.output_tokens == 0 && s.usage.cache is None
            &&& s.stop is None
            &&& s.prompt_fingerprint == prompt_fingerprint
        }),
{
}

/// A response that failed, or a stream that broke off, fails with what the service says.
pub proof fn law_responses_fail(
    s: openai_responses::StreamView,
    event: JsonView,
    message: Seq<char>,
)
    ensures
        (says(event, "type"@, "response.failed"@) && (lookup(event, "response"@) matches Some(response)
            && (lookup(response, "error"@) matches Some(error) && says(error, "message"@, message))))
            ==> (openai_responses::after_event(s, event).1 matches StepView::Failed(error)
            && error.message == "API 错误: "@ + message && !error.retryable),
        says(event, "type"@, "response.failed"@) && lookup(event, "response"@) is None ==> (
        openai_responses::after_event(s, event).1 matches StepView::Failed(error) && error.message
            == "API 错误: "@ + "response.failed(无详情)"@),
        says(event, "type"@, "error"@) && says(event, "message"@, message) ==> (
        openai_responses::after_event(s, event).1 matches StepView::Failed(error) && error.message
            == "API 流错误: "@ + message && !error.retryable),
        says(event, "type"@, "response.incomplete"@) && lookup(event, "response"@) is None
            ==> openai_responses::after_event(s, event).0.stop == Some(
            StopView::Other("incomplete"@),
        ),
{
    response_kinds();
    reveal_strlit("incomplete");
    reveal_strlit("max_output_tokens");
    assert("incomplete"@.len() != "max_output_tokens"@.len());
}

/// A response tells what was read from the cache and what was written to it, where it tells one of them.
pub proof fn law_responses_tell_the_cache(usage: JsonView, details: JsonView, read: u64, write: u64)
    requires
        lookup(usage, "input_tokens_details"@) == Some(details),
    ensures
        counts(details, "cached_tokens"@, read) && counts(details, "cache_write_tokens"@, write)
            ==> openai_responses::cache_of(Some(usage)) == Some(
            CacheUsage { read_tokens: read, write_tokens: write },
        ),
        counts(details, "cached_tokens"@, read) && lookup(details, "cache_write_tokens"@) is None
            ==> openai_responses::cache_of(Some(usage)) == Some(
            CacheUsage { read_tokens: read, write_tokens: 0 },
        ),
        lookup(details, "cached_tokens"@) is None && counts(details, "cache_write_tokens"@, write)
            ==> openai_responses::cache_of(Some(usage)) == Some(
            CacheUsage { read_tokens: 0, write_tokens: write },
        ),
        lookup(details, "cached_tokens"@) is None && lookup(details, "cache_write_tokens"@) is None
            ==> openai_responses::cache_of(Some(usage)) is None,
{
}

} // verus!
