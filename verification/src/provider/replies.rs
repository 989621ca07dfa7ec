//! What a service answers besides its stream: events, errors and delays.
use vstd::prelude::*;

use crate::config::{profile_label, ProviderProfile, SettingsView};
use crate::context::{system_of, PromptView};
use crate::hash::text_hash;
use crate::json::{entries_are_said, lookup, parsed_json, printed_json, JsonView};
use crate::message::Role;
use crate::provider::{
    api_error, asked_delay, event_data, failed_with, fatal_error, label_of, retryable_status,
    sorted_items, stable_hash, stable_part, tool_entries, tool_item, EventData, ProviderErrorView,
    ToolStyle,
};
use crate::provider::sse::{after_line, after_lines, bare, field_value, ReaderView, SseView};
use crate::text::{begins, dec, number_of, sorted_entries, text_le, trimmed};
use crate::tools::ToolSpecView;
use crate::util::end_cut;
use crate::wording::{law_entries_are_in_order, law_numbers_are_read};

verus! {

proof fn reply_keys()
    ensures
        "error"@ != "message"@,
        "error"@ != "profile"@,
        "error"@ != "model"@,
        "error"@ != "system"@,
        "error"@ != "tools"@,
        "message"@ != "profile"@,
        "message"@ != "model"@,
        "message"@ != "system"@,
        "message"@ != "tools"@,
        "profile"@ != "model"@,
        "profile"@ != "system"@,
        "profile"@ != "tools"@,
        "model"@ != "system"@,
        "model"@ != "tools"@,
        "system"@ != "tools"@,
{
    reveal_strlit("error");
    reveal_strlit("message");
    reveal_strlit("profile");
    reveal_strlit("model");
    reveal_strlit("system");
    reveal_strlit("tools");
    assert("error"@.len() != "message"@.len());
    assert("error"@.len() != "profile"@.len());
    assert("error"@[0] != "model"@[0]);
    assert("error"@.len() != "system"@.len());
    assert("error"@[0] != "tools"@[0]);
    assert("message"@[0] != "profile"@[0]);
    assert("message"@.len() != "model"@.len());
    assert("message"@.len() != "system"@.len());
    assert("message"@.len() != "tools"@.len());
    assert("profile"@.len() != "model"@.len());
    assert("profile"@.len() != "system"@.len());
    assert("profile"@.len() != "tools"@.len());
    assert("model"@.len() != "system"@.len());
    assert("model"@[0] != "tools"@[0]);
    assert("system"@.len() != "tools"@.len());
}

/// A line that names data adds it, behind a line break where there was some already; one that names
/// the event sets it. One space behind the colon does not count, nor does a carriage return at the
/// end of the line. Other lines say nothing.
pub proof fn law_lines_fill_the_event(r: ReaderView, value: Seq<char>, line: Seq<char>)
    requires
        value.len() == 0 || (value[0] != ' ' && value.last() != '\r'),
        line.len() > 0,
        line.last() != '\r',
    ensures
        ({
            let first = ReaderView { event: r.event, data: None };
            &&& after_line(first, "data:"@ + value) == (
                ReaderView { event: r.event, data: Some(value) },
                None::<SseView>,
            )
            &&& after_line(first, "data: "@ + value) == (
                ReaderView { event: r.event, data: Some(value) },
                None::<SseView>,
            )
            &&& r.data matches Some(before) ==> after_line(r, "data: "@ + value) == (
                ReaderView { event: r.event, data: Some(before + "\n"@ + value) },
                None::<SseView>,
            )
            &&& after_line(r, "event: "@ + value) == (
                ReaderView { event: value, data: r.data },
                None::<SseView>,
            )
        }),
        !begins(line, "data:"@) && !begins(line, "event:"@) ==> after_line(r, line) == (
            r,
            None::<SseView>,
        ),
{
    reveal_strlit("data:");
    reveal_strlit("data: ");
    reveal_strlit("event:");
    reveal_strlit("event: ");
    reveal_strlit(" ");
    let a = "data:"@ + value;
    let b = "data: "@ + value;
    let c = "event: "@ + value;
    assert(a.take(5) =~= "data:"@);
    assert(b.take(5) =~= "data:"@);
    assert(c.take(6) =~= "event:"@);
    assert(a.skip(5) =~= value);
    assert(b.skip(5) =~= seq![' '] + value);
    assert(c.skip(6) =~= seq![' '] + value);
    assert((seq![' '] + value).drop_first() =~= value);
    assert((seq![' '] + value).take(1) =~= " "@);
    assert(c[0] != "data:"@[0]);
    assert(!begins(c, "data:"@)) by {
        if begins(c, "data:"@) {
            assert(c.take(5)[0] == "data:"@[0]);
        }
    }
    if value.len() > 0 {
        assert(!begins(value, " "@)) by {
            if begins(value, " "@) {
                assert(value.take(1)[0] == " "@[0]);
            }
        }
        assert(a.last() == value.last());
        assert(b.last() == value.last());
        assert(c.last() == value.last());
    }
    assert(bare(a) == a);
    assert(bare(b) == b);
    assert(bare(c) == c);
    assert(bare(line) == line);
    assert(field_value(a, "data:"@) == value);
    assert(field_value(b, "data:"@) == value);
    assert(field_value(c, "event:"@) == value);
}

/// An empty line completes the event that was read, where there is data, and begins the next one.
pub proof fn law_empty_lines_complete_events(r: ReaderView, data: Seq<char>)
    ensures
        after_line(ReaderView { event: r.event, data: Some(data) }, seq![]).1 == Some(
            SseView { event: r.event, data },
        ),
        after_line(ReaderView { event: r.event, data: None }, seq![]).1 is None,
        after_line(r, seq![]).0.data is None,
        after_line(r, seq![]).0.event.len() == 0,
        after_line(r, seq!['\r']) == after_line(r, seq![]),
{
    reveal_strlit("");
    assert(seq!['\r'].drop_last() =~= seq![]);
}

/// Lines are read one after the other.
pub proof fn law_lines_are_read_in_order(
    r: ReaderView,
    a: Seq<Seq<char>>,
    b: Seq<Seq<char>>,
    line: Seq<char>,
)
    ensures
        after_lines(r, a + b) == after_lines(after_lines(r, a), b),
        after_lines(r, seq![line]) == after_line(r, line).0,
        after_lines(r, seq![]) == r,
    decreases b.len(),
{
    assert(seq![line].drop_last() =~= seq![]);
    assert(after_lines(r, seq![]) == r);
    if b.len() == 0 {
        assert(a + b =~= a);
    } else {
        law_lines_are_read_in_order(r, a, b.drop_last(), line);
        assert((a + b).drop_last() =~= a + b.drop_last());
    }
}

/// The data of an event is its end mark, a value, or an error that no retry mends.
pub proof fn law_event_data_is_read(text: Seq<char>, data: EventData)
    requires
        event_data(text, data),
    ensures
        data is End <==> text == "[DONE]"@,
        data matches EventData::Value(value) ==> parsed_json(text) == Ok::<JsonView, Seq<char>>(value@),
        data matches EventData::Bad(error) ==> (parsed_json(text) matches Err(e)
            && error.deep_view().message == "流事件 JSON 无效: "@ + e && !error.deep_view().retryable),
{
}

/// What a service says is wrong is its own message, wherever it stands; without one it is what it
/// sent, shortened, or a note that it sent nothing.
pub proof fn law_services_say_what_is_wrong(body: Seq<char>, value: JsonView, text: Seq<char>)
    ensures
        parsed_json(body) == Ok::<JsonView, Seq<char>>(value) ==> {
            &&& (lookup(value, "error"@) matches Some(inner) && lookup(inner, "message"@) == Some(
                JsonView::Str(text),
            )) ==> api_error(body) == text
            &&& lookup(value, "error"@) is None && lookup(value, "message"@) == Some(
                JsonView::Str(text),
            ) ==> api_error(body) == text
            &&& lookup(value, "error"@) is None && lookup(value, "message"@) is None && trimmed(
                body,
            ).len() > 0 ==> api_error(body) == end_cut(trimmed(body), 400)
        },
        parsed_json(body) is Err && trimmed(body).len() == 0 ==> api_error(body) == "(空响应体)"@,
        parsed_json(body) is Err && trimmed(body).len() > 0 ==> api_error(body) == end_cut(
            trimmed(body),
            400,
        ),
{
}

/// A delay in milliseconds counts before one in seconds; what is no number is no delay.
pub proof fn law_services_ask_for_delays(millis: u64, secs: u64, text: Seq<char>)
    ensures
        asked_delay(None, None) is None,
        asked_delay(Some(dec(millis as nat)), Some(text)) matches Some(d) && d.nanos == millis
            * 1_000_000,
        asked_delay(None, Some(dec(secs as nat))) matches Some(d) && d.nanos == secs * 1_000_000_000,
        number_of(text) is None ==> asked_delay(Some(text), None) is None && asked_delay(
            Some(text),
            Some(dec(secs as nat)),
        ) == asked_delay(None, Some(dec(secs as nat))),
{
    law_numbers_are_read(millis, text);
    law_numbers_are_read(secs, text);
}

/// Timeouts, rate limits and faults of the service may be gone at the next try; nothing else is.
pub proof fn law_some_failures_pass(code: u16)
    ensures
        retryable_status(408),
        retryable_status(429),
        code >= 500 ==> retryable_status(code),
        code < 500 && code != 408 && code != 429 ==> !retryable_status(code),
{
}

/// A failure that no retry mends says what it is, and nothing of an answer is kept with it.
pub proof fn law_fatal_failures(message: Seq<char>, error: ProviderErrorView)
    ensures
        fatal_error(message).message == message,
        !fatal_error(message).retryable,
        fatal_error(message).retry_after is None,
        failed_with(error).error == error,
        failed_with(error).message.role == Role::Assistant,
        failed_with(error).message.blocks.len() == 0,
{
}

/// A provider is shown by its name and its model.
pub proof fn law_providers_are_shown(settings: SettingsView)
    ensures
        label_of(settings) == settings.name + " / "@ + settings.model,
{
}

/// The declarations of the tools stand in the order of their names, whatever order they come in.
pub proof fn law_declarations_are_ordered(style: ToolStyle, tools: Seq<ToolSpecView>, i: int)
    requires
        0 <= i < tools.len(),
    ensures
        sorted_items(style, tools).len() == tools.len(),
        ({
            let sorted = sorted_entries(tool_entries(style, tools));
            &&& sorted_items(style, tools)[i] == sorted[i].1
            &&& tool_entries(style, tools)[i] == (tools[i].name, tool_item(style, tools[i]))
            &&& i + 1 < tools.len() ==> text_le(sorted[i].0, sorted[i + 1].0)
        }),
{
    law_entries_are_in_order(tool_entries(style, tools));
}

/// A fingerprint covers the profile, the model, the system text and the tools.
pub proof fn law_fingerprints_cover_what_stays(
    profile: ProviderProfile,
    model: Seq<char>,
    prompt: PromptView,
    tools: Seq<ToolSpecView>,
)
    ensures
        ({
            let part = stable_part(profile, model, prompt, tools);
            &&& lookup(part, "profile"@) == Some(JsonView::Str(profile_label(profile)))
            &&& lookup(part, "model"@) == Some(JsonView::Str(model))
            &&& lookup(part, "system"@) == Some(JsonView::Str(system_of(prompt)))
            &&& lookup(part, "tools"@) == Some(
                JsonView::Array(sorted_items(ToolStyle::Messages, tools)),
            )
            &&& stable_hash(profile, model, prompt, tools) == text_hash(printed_json(part))
        }),
{
    broadcast use entries_are_said;

    reply_keys();
}

} // verus!
