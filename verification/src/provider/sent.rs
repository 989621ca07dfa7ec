//! What the services are sent, item by item.
use vstd::prelude::*;

use crate::config::{ApiKind, ProviderProfile, SettingsView};
use crate::context::{system_of, PromptView};
use crate::json::{entries_are_said, lookup, printed_json, JsonView};
use crate::message::{BlockView, MessageView, Role};
use crate::provider::{
    anthropic, args_text, openai_responses, parsed_args, request_of, sorted_items, stable_hash,
    tool_item, ToolStyle,
};
use crate::text::{ends, trimmed, without_end};
use crate::tools::ToolSpecView;

verus! {

proof fn message_keys()
    ensures
        "type"@ != "text"@,
        "type"@ != "id"@,
        "type"@ != "name"@,
        "type"@ != "input"@,
        "type"@ != "tool_use_id"@,
        "type"@ != "content"@,
        "type"@ != "is_error"@,
        "type"@ != "role"@,
        "text"@ != "id"@,
        "text"@ != "name"@,
        "text"@ != "input"@,
        "text"@ != "tool_use_id"@,
        "text"@ != "content"@,
        "text"@ != "is_error"@,
        "text"@ != "role"@,
        "id"@ != "name"@,
        "id"@ != "input"@,
        "id"@ != "tool_use_id"@,
        "id"@ != "content"@,
        "id"@ != "is_error"@,
        "id"@ != "role"@,
        "name"@ != "input"@,
        "name"@ != "tool_use_id"@,
        "name"@ != "content"@,
        "name"@ != "is_error"@,
        "name"@ != "role"@,
        "input"@ != "tool_use_id"@,
        "input"@ != "content"@,
        "input"@ != "is_error"@,
        "input"@ != "role"@,
        "tool_use_id"@ != "content"@,
        "tool_use_id"@ != "is_error"@,
        "tool_use_id"@ != "role"@,
        "content"@ != "is_error"@,
        "content"@ != "role"@,
        "is_error"@ != "role"@,
{
    reveal_strlit("type");
    reveal_strlit("text");
    reveal_strlit("id");
    reveal_strlit("name");
    reveal_strlit("input");
    reveal_strlit("tool_use_id");
    reveal_strlit("content");
    reveal_strlit("is_error");
    reveal_strlit("role");
    assert("type"@[1] != "text"@[1]);
    assert("type"@.len() != "id"@.len());
    assert("type"@[0] != "name"@[0]);
    assert("type"@.len() != "input"@.len());
    assert("type"@.len() != "tool_use_id"@.len());
    assert("type"@.len() != "content"@.len());
    assert("type"@.len() != "is_error"@.len());
    assert("type"@[0] != "role"@[0]);
    assert("text"@.len() != "id"@.len());
    assert("text"@[0] != "name"@[0]);
    assert("text"@.len() != "input"@.len());
    assert("text"@.len() != "tool_use_id"@.len());
    assert("text"@.len() != "content"@.len());
    assert("text"@.len() != "is_error"@.len());
    assert("text"@[0] != "role"@[0]);
    assert("id"@.len() != "name"@.len());
    assert("id"@.len() != "input"@.len());
    assert("id"@.len() != "tool_use_id"@.len());
    assert("id"@.len() != "content"@.len());
    assert("id"@.len() != "is_error"@.len());
    assert("id"@.len() != "role"@.len());
    assert("name"@.len() != "input"@.len());
    assert("name"@.len() != "tool_use_id"@.len());
    assert("name"@.len() != "content"@.len());
    assert("name"@.len() != "is_error"@.len());
    assert("name"@[0] != "role"@[0]);
    assert("input"@.len() != "tool_use_id"@.len());
    assert("input"@.len() != "content"@.len());
    assert("input"@.len() != "is_error"@.len());
    assert("input"@.len() != "role"@.len());
    assert("tool_use_id"@.len() != "content"@.len());
    assert("tool_use_id"@.len() != "is_error"@.len());
    assert("tool_use_id"@.len() != "role"@.len());
    assert("content"@.len() != "is_error"@.len());
    assert("content"@.len() != "role"@.len());
    assert("is_error"@.len() != "role"@.len());
}

proof fn body_keys()
    ensures
        "model"@ != "max_tokens"@,
        "model"@ != "messages"@,
        "model"@ != "stream"@,
        "model"@ != "system"@,
        "model"@ != "tools"@,
        "max_tokens"@ != "messages"@,
        "max_tokens"@ != "stream"@,
        "max_tokens"@ != "system"@,
        "max_tokens"@ != "tools"@,
        "messages"@ != "stream"@,
        "messages"@ != "system"@,
        "messages"@ != "tools"@,
        "stream"@ != "system"@,
        "stream"@ != "tools"@,
        "system"@ != "tools"@,
{
    reveal_strlit("model");
    reveal_strlit("max_tokens");
    reveal_strlit("messages");
    reveal_strlit("stream");
    reveal_strlit("system");
    reveal_strlit("tools");
    assert("model"@.len() != "max_tokens"@.len());
    assert("model"@.len() != "messages"@.len());
    assert("model"@.len() != "stream"@.len());
    assert("model"@.len() != "system"@.len());
    assert("model"@[0] != "tools"@[0]);
    assert("max_tokens"@.len() != "messages"@.len());
    assert("max_tokens"@.len() != "stream"@.len());
    assert("max_tokens"@.len() != "system"@.len());
    assert("max_tokens"@.len() != "tools"@.len());
    assert("messages"@.len() != "stream"@.len());
    assert("messages"@.len() != "system"@.len());
    assert("messages"@.len() != "tools"@.len());
    assert("stream"@[1] != "system"@[1]);
    assert("stream"@.len() != "tools"@.len());
    assert("system"@.len() != "tools"@.len());
}

proof fn item_keys()
    ensures
        "type"@ != "role"@,
        "type"@ != "content"@,
        "type"@ != "text"@,
        "type"@ != "call_id"@,
        "type"@ != "name"@,
        "type"@ != "arguments"@,
        "type"@ != "output"@,
        "role"@ != "content"@,
        "role"@ != "text"@,
        "role"@ != "call_id"@,
        "role"@ != "name"@,
        "role"@ != "arguments"@,
        "role"@ != "output"@,
        "content"@ != "text"@,
        "content"@ != "call_id"@,
        "content"@ != "name"@,
        "content"@ != "arguments"@,
        "content"@ != "output"@,
        "text"@ != "call_id"@,
        "text"@ != "name"@,
        "text"@ != "arguments"@,
        "text"@ != "output"@,
        "call_id"@ != "name"@,
        "call_id"@ != "arguments"@,
        "call_id"@ != "output"@,
        "name"@ != "arguments"@,
        "name"@ != "output"@,
        "arguments"@ != "output"@,
{
    reveal_strlit("type");
    reveal_strlit("role");
    reveal_strlit("content");
    reveal_strlit("text");
    reveal_strlit("call_id");
    reveal_strlit("name");
    reveal_strlit("arguments");
    reveal_strlit("output");
    assert("type"@[0] != "role"@[0]);
    assert("type"@.len() != "content"@.len());
    assert("type"@[1] != "text"@[1]);
    assert("type"@.len() != "call_id"@.len());
    assert("type"@[0] != "name"@[0]);
    assert("type"@.len() != "arguments"@.len());
    assert("type"@.len() != "output"@.len());
    assert("role"@.len() != "content"@.len());
    assert("role"@[0] != "text"@[0]);
    assert("role"@.len() != "call_id"@.len());
    assert("role"@[0] != "name"@[0]);
    assert("role"@.len() != "arguments"@.len());
    assert("role"@.len() != "output"@.len());
    assert("content"@.len() != "text"@.len());
    assert("content"@[1] != "call_id"@[1]);
    assert("content"@.len() != "name"@.len());
    assert("content"@.len() != "arguments"@.len());
    assert("content"@.len() != "output"@.len());
    assert("text"@.len() != "call_id"@.len());
    assert("text"@[0] != "name"@[0]);
    assert("text"@.len() != "arguments"@.len());
    assert("text"@.len() != "output"@.len());
    assert("call_id"@.len() != "name"@.len());
    assert("call_id"@.len() != "arguments"@.len());
    assert("call_id"@.len() != "output"@.len());
    assert("name"@.len() != "arguments"@.len());
    assert("name"@.len() != "output"@.len());
    assert("arguments"@.len() != "output"@.len());
}

proof fn response_keys()
    ensures
        "model"@ != "input"@,
        "model"@ != "stream"@,
        "model"@ != "store"@,
        "model"@ != "include"@,
        "model"@ != "prompt_cache_key"@,
        "model"@ != "instructions"@,
        "model"@ != "tools"@,
        "model"@ != "reasoning"@,
        "model"@ != "max_output_tokens"@,
        "input"@ != "stream"@,
        "input"@ != "store"@,
        "input"@ != "include"@,
        "input"@ != "prompt_cache_key"@,
        "input"@ != "instructions"@,
        "input"@ != "tools"@,
        "input"@ != "reasoning"@,
        "input"@ != "max_output_tokens"@,
        "stream"@ != "store"@,
        "stream"@ != "include"@,
        "stream"@ != "prompt_cache_key"@,
        "stream"@ != "instructions"@,
        "stream"@ != "tools"@,
        "stream"@ != "reasoning"@,
        "stream"@ != "max_output_tokens"@,
        "store"@ != "include"@,
        "store"@ != "prompt_cache_key"@,
        "store"@ != "instructions"@,
        "store"@ != "tools"@,
        "store"@ != "reasoning"@,
        "store"@ != "max_output_tokens"@,
        "include"@ != "prompt_cache_key"@,
        "include"@ != "instructions"@,
        "include"@ != "tools"@,
        "include"@ != "reasoning"@,
        "include"@ != "max_output_tokens"@,
        "prompt_cache_key"@ != "instructions"@,
        "prompt_cache_key"@ != "tools"@,
        "prompt_cache_key"@ != "reasoning"@,
        "prompt_cache_key"@ != "max_output_tokens"@,
        "instructions"@ != "tools"@,
        "instructions"@ != "reasoning"@,
        "instructions"@ != "max_output_tokens"@,
        "tools"@ != "reasoning"@,
        "tools"@ != "max_output_tokens"@,
        "reasoning"@ != "max_output_tokens"@,
{
    reveal_strlit("model");
    reveal_strlit("input");
    reveal_strlit("stream");
    reveal_strlit("store");
    reveal_strlit("include");
    reveal_strlit("prompt_cache_key");
    reveal_strlit("instructions");
    reveal_strlit("tools");
    reveal_strlit("reasoning");
    reveal_strlit("max_output_tokens");
    assert("model"@[0] != "input"@[0]);
    assert("model"@.len() != "stream"@.len());
    assert("model"@[0] != "store"@[0]);
    assert("model"@.len() != "include"@.len());
    assert("model"@.len() != "prompt_cache_key"@.len());
    assert("model"@.len() != "instructions"@.len());
    assert("model"@[0] != "tools"@[0]);
    assert("model"@.len() != "reasoning"@.len());
    assert("model"@.len() != "max_output_tokens"@.len());
    assert("input"@.len() != "stream"@.len());
    assert("input"@[0] != "store"@[0]);
    assert("input"@.len() != "include"@.len());
    assert("input"@.len() != "prompt_cache_key"@.len());
    assert("input"@.len() != "instructions"@.len());
    assert("input"@[0] != "tools"@[0]);
    assert("input"@.len() != "reasoning"@.len());
    assert("input"@.len() != "max_output_tokens"@.len());
    assert("stream"@.len() != "store"@.len());
    assert("stream"@.len() != "include"@.len());
    assert("stream"@.len() != "prompt_cache_key"@.len());
    assert("stream"@.len() != "instructions"@.len());
    assert("stream"@.len() != "tools"@.len());
    assert("stream"@.len() != "reasoning"@.len());
    assert("stream"@.len() != "max_output_tokens"@.len());
    assert("store"@.len() != "include"@.len());
    assert("store"@.len() != "prompt_cache_key"@.len());
    assert("store"@.len() != "instructions"@.len());
    assert("store"@[0] != "tools"@[0]);
    assert("store"@.len() != "reasoning"@.len());
    assert("store"@.len() != "max_output_tokens"@.len());
    assert("include"@.len() != "prompt_cache_key"@.len());
    assert("include"@.len() != "instructions"@.len());
    assert("include"@.len() != "tools"@.len());
    assert("include"@.len() != "reasoning"@.len());
    assert("include"@.len() != "max_output_tokens"@.len());
    assert("prompt_cache_key"@.len() != "instructions"@.len());
    assert("prompt_cache_key"@.len() != "tools"@.len());
    assert("prompt_cache_key"@.len() != "reasoning"@.len());
    assert("prompt_cache_key"@.len() != "max_output_tokens"@.len());
    assert("instructions"@.len() != "tools"@.len());
    assert("instructions"@.len() != "reasoning"@.len());
    assert("instructions"@.len() != "max_output_tokens"@.len());
    assert("tools"@.len() != "reasoning"@.len());
    assert("tools"@.len() != "max_output_tokens"@.len());
    assert("reasoning"@.len() != "max_output_tokens"@.len());
}

proof fn tool_keys()
    ensures
        "type"@ != "name"@,
        "type"@ != "description"@,
        "type"@ != "input_schema"@,
        "type"@ != "parameters"@,
        "name"@ != "description"@,
        "name"@ != "input_schema"@,
        "name"@ != "parameters"@,
        "description"@ != "input_schema"@,
        "description"@ != "parameters"@,
        "input_schema"@ != "parameters"@,
{
    reveal_strlit("type");
    reveal_strlit("name");
    reveal_strlit("description");
    reveal_strlit("input_schema");
    reveal_strlit("parameters");
    assert("type"@[0] != "name"@[0]);
    assert("type"@.len() != "description"@.len());
    assert("type"@.len() != "input_schema"@.len());
    assert("type"@.len() != "parameters"@.len());
    assert("name"@.len() != "description"@.len());
    assert("name"@.len() != "input_schema"@.len());
    assert("name"@.len() != "parameters"@.len());
    assert("description"@.len() != "input_schema"@.len());
    assert("description"@.len() != "parameters"@.len());
    assert("input_schema"@.len() != "parameters"@.len());
}

// ---- The Messages interface ----

/// A text is sent as an item of the kind `text`, as it is.
pub proof fn law_messages_carry_texts(t: Seq<char>)
    requires
        t.len() > 0,
    ensures
        anthropic::content_item(BlockView::Text(t)) matches Some(item) && {
            &&& lookup(item, "type"@) == Some(JsonView::Str("text"@))
            &&& lookup(item, "text"@) == Some(JsonView::Str(t))
        },
{
    broadcast use entries_are_said;

    message_keys();
}

/// A call is sent as an item of the kind `tool_use`, under the id and the name that the model gave
/// it and with its arguments; arguments that are no object stand in one.
pub proof fn law_messages_carry_calls(id: Seq<char>, name: Seq<char>, input: JsonView)
    ensures
        anthropic::content_item(BlockView::ToolUse { id, name, input }) matches Some(item) && {
            &&& lookup(item, "type"@) == Some(JsonView::Str("tool_use"@))
            &&& lookup(item, "id"@) == Some(JsonView::Str(id))
            &&& lookup(item, "name"@) == Some(JsonView::Str(name))
            &&& lookup(item, "input"@) matches Some(sent) && sent is Object && (input is Object
                ==> sent == input) && (input matches JsonView::Str(raw) ==> lookup(sent, "_raw"@)
                == Some(JsonView::Str(raw)))
        },
{
    broadcast use entries_are_said;

    message_keys();
}

/// A result is sent as an item of the kind `tool_result`, under the id of its call and with its
/// text; it is marked as an error exactly where it is one.
pub proof fn law_messages_carry_results(tool_use_id: Seq<char>, content: Seq<char>, is_error: bool)
    ensures
        anthropic::content_item(
            BlockView::ToolResult { tool_use_id, content, is_error },
        ) matches Some(item) && {
            &&& lookup(item, "type"@) == Some(JsonView::Str("tool_result"@))
            &&& lookup(item, "tool_use_id"@) == Some(JsonView::Str(tool_use_id))
            &&& lookup(item, "content"@) == Some(JsonView::Str(content))
            &&& lookup(item, "is_error"@) == (if is_error {
                Some(JsonView::Bool(true))
            } else {
                None
            })
        },
{
    broadcast use entries_are_said;

    message_keys();
}

/// Thoughts and empty texts are not sent, and nothing else is left out.
pub proof fn law_messages_leave_out_thoughts_only(block: BlockView)
    ensures
        anthropic::content_item(block) is None <==> (block is Thinking || block
            == BlockView::Text(Seq::empty())),
{
    if let BlockView::Text(t) = block {
        if t.len() == 0 {
            assert(t =~= Seq::empty());
        }
    }
}

/// The items of some blocks stand in the order of the blocks: those of the first part come first.
pub proof fn law_messages_keep_the_order_of_blocks(a: Seq<BlockView>, b: Seq<BlockView>)
    ensures
        anthropic::content_of(a + b) == anthropic::content_of(a) + anthropic::content_of(b),
        a.len() == 1 ==> anthropic::content_of(a) == (match anthropic::content_item(a[0]) {
            Some(item) => seq![item],
            None => seq![],
        }),
    decreases b.len(),
{
    if b.len() == 0 {
        assert(a + b =~= a);
        assert(anthropic::content_of(a) + anthropic::content_of(b) =~= anthropic::content_of(a));
    } else {
        law_messages_keep_the_order_of_blocks(a, b.drop_last());
        assert((a + b).drop_last() =~= a + b.drop_last());
        assert(anthropic::content_of(a + b) =~= anthropic::content_of(a) + anthropic::content_of(b));
    }
    if a.len() == 1 {
        assert(a.drop_last() =~= seq![]);
        assert(anthropic::content_of(a.drop_last()) =~= seq![]);
        assert(anthropic::content_of(a) =~= match anthropic::content_item(a[0]) {
            Some(item) => seq![item],
            None => seq![],
        });
    }
}

/// A conversation in which the two sides take turns is sent message by message: each under the role
/// of who said it, and with the items of its blocks.
pub proof fn law_turns_are_sent_one_by_one(messages: Seq<MessageView>, i: int)
    requires
        0 <= i < messages.len(),
        forall|k: int|
            0 <= k < messages.len() ==> anthropic::content_of((#[trigger] messages[k]).blocks).len()
                > 0,
        forall|k: int, l: int|
            0 <= k && l == k + 1 && l < messages.len() ==> (#[trigger] messages[k]).role != (
            #[trigger] messages[l]).role,
    ensures
        anthropic::message_items(messages).len() == messages.len(),
        lookup(anthropic::message_items(messages)[i], "role"@) == Some(
            JsonView::Str(
                if messages[i].role == Role::User {
                    "user"@
                } else {
                    "assistant"@
                },
            ),
        ),
        lookup(anthropic::message_items(messages)[i], "content"@) == Some(
            JsonView::Array(anthropic::content_of(messages[i].blocks)),
        ),
{
    broadcast use entries_are_said;

    message_keys();
    turns_stay(messages);
}

proof fn turns_stay(messages: Seq<MessageView>)
    requires
        forall|k: int|
            0 <= k < messages.len() ==> anthropic::content_of((#[trigger] messages[k]).blocks).len()
                > 0,
        forall|k: int, l: int|
            0 <= k && l == k + 1 && l < messages.len() ==> (#[trigger] messages[k]).role != (
            #[trigger] messages[l]).role,
    ensures
        anthropic::alternating(messages).len() == messages.len(),
        forall|k: int|
            0 <= k < messages.len() ==> (#[trigger] anthropic::alternating(messages)[k]).role
                == messages[k].role && anthropic::alternating(messages)[k].content
                == anthropic::content_of(messages[k].blocks),
    decreases messages.len(),
{
    if messages.len() > 0 {
        let rest = messages.drop_last();
        assert forall|k: int| 0 <= k < rest.len() implies anthropic::content_of(
            (#[trigger] rest[k]).blocks,
        ).len() > 0 by {
            assert(rest[k] == messages[k]);
        }
        assert forall|k: int, l: int| 0 <= k && l == k + 1 && l < rest.len() implies (
        #[trigger] rest[k]).role != (#[trigger] rest[l]).role by {
            assert(messages[k].role != messages[l].role);
        }
        turns_stay(rest);
        let n = messages.len() - 1;
        assert(messages[n] == messages.last());
        if n > 0 {
            assert(messages[n - 1].role != messages[n].role);
            assert(anthropic::alternating(rest)[n - 1].role == rest[n - 1].role);
        }
        let now = anthropic::alternating(messages);
        assert forall|k: int| 0 <= k < messages.len() implies (#[trigger] now[k]).role
            == messages[k].role && now[k].content == anthropic::content_of(messages[k].blocks) by {
            if k < n {
                assert(now[k] == anthropic::alternating(rest)[k]);
                assert(rest[k] == messages[k]);
            }
        }
    }
}

/// A request to the Messages interface names the model, asks for a stream and sends the
/// conversation; the output is limited as the settings say, and otherwise to a fixed length; the
/// system text and the tools are there exactly where there are any.
pub proof fn law_messages_requests_say_what_is_asked(
    settings: SettingsView,
    prompt: PromptView,
    tools: Seq<ToolSpecView>,
)
    ensures
        ({
            let body = anthropic::request_body(settings, prompt, tools);
            &&& lookup(body, "model"@) == Some(JsonView::Str(settings.model))
            &&& lookup(body, "stream"@) == Some(JsonView::Bool(true))
            &&& lookup(body, "messages"@) == Some(
                JsonView::Array(anthropic::message_items(prompt.messages)),
            )
            &&& lookup(body, "max_tokens"@) == Some(
                JsonView::Number(
                    match settings.max_tokens {
                        Some(n) => n as int,
                        None => 8192,
                    },
                ),
            )
            &&& lookup(body, "system"@) == (if system_of(prompt).len() == 0 {
                None
            } else {
                Some(JsonView::Str(system_of(prompt)))
            })
            &&& lookup(body, "tools"@) == (if tools.len() == 0 {
                None
            } else {
                Some(JsonView::Array(sorted_items(ToolStyle::Messages, tools)))
            })
        }),
{
    broadcast use entries_are_said;

    body_keys();
}

/// The key goes into the header `x-api-key`, where there is one; the version is named to the
/// service itself alone.
pub proof fn law_messages_headers(settings: SettingsView)
    ensures
        forall|i: int|
            0 <= i < anthropic::request_headers(settings).len() ==> (
            #[trigger] anthropic::request_headers(settings)[i] == (
                "x-api-key"@,
                settings.api_key,
            ) || anthropic::request_headers(settings)[i] == (
                "anthropic-version"@,
                "2023-06-01"@,
            )),
        settings.api_key.len() > 0 ==> anthropic::request_headers(settings).len() > 0
            && anthropic::request_headers(settings)[0] == ("x-api-key"@, settings.api_key),
        settings.profile == ProviderProfile::AnthropicMessages ==> anthropic::request_headers(
            settings,
        ).contains(("anthropic-version"@, "2023-06-01"@)),
        anthropic::request_headers(settings).len() == (if settings.api_key.len() > 0 {
            1int
        } else {
            0
        }) + (if settings.profile == ProviderProfile::AnthropicMessages {
            1int
        } else {
            0
        }),
{
    let headers = anthropic::request_headers(settings);
    if settings.profile == ProviderProfile::AnthropicMessages {
        assert(headers[headers.len() - 1] == ("anthropic-version"@, "2023-06-01"@));
    }
}

// ---- The Responses interface ----

/// What a person said is sent as a message of the user, what the model said as one of the
/// assistant, each as it is.
pub proof fn law_responses_carry_texts(role: Role, t: Seq<char>, replay: bool)
    requires
        t.len() > 0,
    ensures
        openai_responses::input_item(role, BlockView::Text(t), replay) matches Some(item) && {
            &&& lookup(item, "type"@) == Some(JsonView::Str("message"@))
            &&& lookup(item, "role"@) == Some(
                JsonView::Str(
                    if role == Role::User {
                        "user"@
                    } else {
                        "assistant"@
                    },
                ),
            )
            &&& lookup(item, "content"@) matches Some(JsonView::Array(parts)) && parts.len() == 1
                && lookup(parts[0], "text"@) == Some(JsonView::Str(t)) && lookup(
                parts[0],
                "type"@,
            ) == Some(
                JsonView::Str(
                    if role == Role::User {
                        "input_text"@
                    } else {
                        "output_text"@
                    },
                ),
            )
        },
{
    broadcast use entries_are_said;

    item_keys();
}

/// A call is sent as an item of the kind `function_call`, under its id and name, with its arguments
/// as one text.
pub proof fn law_responses_carry_calls(
    id: Seq<char>,
    name: Seq<char>,
    input: JsonView,
    replay: bool,
)
    ensures
        openai_responses::input_item(
            Role::Assistant,
            BlockView::ToolUse { id, name, input },
            replay,
        ) matches Some(item) && {
            &&& lookup(item, "type"@) == Some(JsonView::Str("function_call"@))
            &&& lookup(item, "call_id"@) == Some(JsonView::Str(id))
            &&& lookup(item, "name"@) == Some(JsonView::Str(name))
            &&& lookup(item, "arguments"@) == Some(
                JsonView::Str(
                    match input {
                        JsonView::Str(raw) => raw,
                        _ => printed_json(input),
                    },
                ),
            )
        },
{
    broadcast use entries_are_said;

    item_keys();
}

/// A result is sent as an item of the kind `function_call_output`, under the id of its call; its
/// text is marked where it is an error, and is sent as it is otherwise.
pub proof fn law_responses_carry_results(
    tool_use_id: Seq<char>,
    content: Seq<char>,
    is_error: bool,
    replay: bool,
)
    ensures
        openai_responses::input_item(
            Role::User,
            BlockView::ToolResult { tool_use_id, content, is_error },
            replay,
        ) matches Some(item) && {
            &&& lookup(item, "type"@) == Some(JsonView::Str("function_call_output"@))
            &&& lookup(item, "call_id"@) == Some(JsonView::Str(tool_use_id))
            &&& lookup(item, "output"@) == Some(
                JsonView::Str(
                    if is_error {
                        "ERROR: "@ + content
                    } else {
                        content
                    },
                ),
            )
        },
{
    broadcast use entries_are_said;

    item_keys();
}

/// The items of a conversation stand in its order: what was said first comes first.
pub proof fn law_responses_keep_the_order(a: Seq<MessageView>, b: Seq<MessageView>, replay: bool)
    ensures
        openai_responses::input_of(a + b, replay) == openai_responses::input_of(a, replay)
            + openai_responses::input_of(b, replay),
        a.len() == 1 ==> openai_responses::input_of(a, replay) == openai_responses::items_of(
            a[0].role,
            a[0].blocks,
            replay,
        ),
    decreases b.len(),
{
    if b.len() == 0 {
        assert(a + b =~= a);
        assert(openai_responses::input_of(a, replay) + openai_responses::input_of(b, replay)
            =~= openai_responses::input_of(a, replay));
    } else {
        law_responses_keep_the_order(a, b.drop_last(), replay);
        assert((a + b).drop_last() =~= a + b.drop_last());
        assert(openai_responses::input_of(a + b, replay) =~= openai_responses::input_of(a, replay)
            + openai_responses::input_of(b, replay));
    }
    if a.len() == 1 {
        assert(a.drop_last() =~= seq![]);
        assert(openai_responses::input_of(a.drop_last(), replay) =~= seq![]);
        assert(openai_responses::input_of(a, replay) =~= openai_responses::items_of(
            a[0].role,
            a[0].blocks,
            replay,
        ));
    }
}

/// The items of a message stand in the order of its blocks.
pub proof fn law_responses_keep_the_order_of_blocks(
    role: Role,
    a: Seq<BlockView>,
    b: Seq<BlockView>,
    replay: bool,
)
    ensures
        openai_responses::items_of(role, a + b, replay) == openai_responses::items_of(
            role,
            a,
            replay,
        ) + openai_responses::items_of(role, b, replay),
        a.len() == 1 ==> openai_responses::items_of(role, a, replay) == (
        match openai_responses::input_item(role, a[0], replay) {
            Some(item) => seq![item],
            None => seq![],
        }),
    decreases b.len(),
{
    if b.len() == 0 {
        assert(a + b =~= a);
        assert(openai_responses::items_of(role, a, replay) + openai_responses::items_of(
            role,
            b,
            replay,
        ) =~= openai_responses::items_of(role, a, replay));
    } else {
        law_responses_keep_the_order_of_blocks(role, a, b.drop_last(), replay);
        assert((a + b).drop_last() =~= a + b.drop_last());
        assert(openai_responses::items_of(role, a + b, replay) =~= openai_responses::items_of(
            role,
            a,
            replay,
        ) + openai_responses::items_of(role, b, replay));
    }
    if a.len() == 1 {
        assert(a.drop_last() =~= seq![]);
        assert(openai_responses::items_of(role, a.drop_last(), replay) =~= seq![]);
        assert(openai_responses::items_of(role, a, replay) =~= match openai_responses::input_item(
            role,
            a[0],
            replay,
        ) {
            Some(item) => seq![item],
            None => seq![],
        });
    }
}

/// A request to the Responses interface names the model, asks for a stream and sends the
/// conversation. The system text, the tools, the effort and the limit are there exactly where there
/// are any. OpenAI is asked to store nothing and to hand its reasoning out; others are asked
/// neither.
pub proof fn law_responses_requests_say_what_is_asked(
    settings: SettingsView,
    prompt: PromptView,
    tools: Seq<ToolSpecView>,
)
    ensures
        ({
            let body = openai_responses::request_body(settings, prompt, tools);
            let openai = settings.profile == ProviderProfile::OpenAiResponses;
            &&& lookup(body, "model"@) == Some(JsonView::Str(settings.model))
            &&& lookup(body, "stream"@) == Some(JsonView::Bool(true))
            &&& lookup(body, "input"@) == Some(
                JsonView::Array(openai_responses::input_of(prompt.messages, openai)),
            )
            &&& lookup(body, "store"@) == (if openai {
                Some(JsonView::Bool(false))
            } else {
                None
            })
            &&& lookup(body, "include"@) == (if openai {
                Some(JsonView::Array(seq![JsonView::Str("reasoning.encrypted_content"@)]))
            } else {
                None
            })
            &&& lookup(body, "prompt_cache_key"@) == (if openai {
                Some(
                    JsonView::Str(
                        "onemore:v1:openai-responses:"@ + stable_hash(
                            ProviderProfile::OpenAiResponses,
                            settings.model,
                            prompt,
                            tools,
                        ),
                    ),
                )
            } else {
                None
            })
            &&& lookup(body, "instructions"@) == (if system_of(prompt).len() == 0 {
                None
            } else {
                Some(JsonView::Str(system_of(prompt)))
            })
            &&& match lookup(body, "tools"@) {
                None => tools.len() == 0,
                Some(JsonView::Array(items)) => tools.len() > 0 && items.len() == tools.len()
                    && forall|i: int|
                    0 <= i < tools.len() ==> lookup(#[trigger] items[i], "name"@) == Some(
                        JsonView::Str(tools[i].name),
                    ) && lookup(items[i], "parameters"@) == Some(tools[i].schema),
                Some(_) => false,
            }
            &&& match (lookup(body, "reasoning"@), settings.reasoning_effort) {
                (None, None) => true,
                (Some(asked), Some(effort)) => lookup(asked, "effort"@) == Some(
                    JsonView::Str(effort),
                ),
                _ => false,
            }
            &&& lookup(body, "max_output_tokens"@) == (match settings.max_tokens {
                Some(n) => Some(JsonView::Number(n as int)),
                None => None,
            })
        }),
{
    broadcast use entries_are_said;

    response_keys();
    tool_keys();
}

/// The key goes into the header `authorization`, where there is one.
pub proof fn law_responses_headers(settings: SettingsView)
    ensures
        settings.api_key.len() == 0 ==> openai_responses::request_headers(settings).len() == 0,
        settings.api_key.len() > 0 ==> openai_responses::request_headers(settings).len() == 1
            && openai_responses::request_headers(settings)[0].0 == "authorization"@
            && openai_responses::request_headers(settings)[0].1 == "Bearer "@ + settings.api_key,
{
}

// ---- Both ----

/// A tool is declared to either interface under its name, with its description and the schema of
/// its arguments.
pub proof fn law_tools_are_declared(tool: ToolSpecView)
    ensures
        ({
            let item = tool_item(ToolStyle::Messages, tool);
            &&& lookup(item, "name"@) == Some(JsonView::Str(tool.name))
            &&& lookup(item, "description"@) == Some(JsonView::Str(tool.description))
            &&& lookup(item, "input_schema"@) == Some(tool.schema)
        }),
        ({
            let item = tool_item(ToolStyle::Responses, tool);
            &&& lookup(item, "type"@) == Some(JsonView::Str("function"@))
            &&& lookup(item, "name"@) == Some(JsonView::Str(tool.name))
            &&& lookup(item, "description"@) == Some(JsonView::Str(tool.description))
            &&& lookup(item, "parameters"@) == Some(tool.schema)
        }),
{
    broadcast use entries_are_said;

    tool_keys();
}

/// Each interface has its own endpoint below the address of the service, and what is posted there
/// is the request's own text.
pub proof fn law_requests_go_to_their_endpoint(
    settings: SettingsView,
    prompt: PromptView,
    tools: Seq<ToolSpecView>,
)
    requires
        without_end(settings.base_url, '/') == settings.base_url,
        !ends(settings.base_url, "/v1"@),
    ensures
        ({
            let request = request_of(ApiKind::Messages, settings, prompt, tools);
            &&& request.url == settings.base_url + "/"@ + "v1/messages"@
            &&& request.headers == anthropic::request_headers(settings)
            &&& request.body == printed_json(anthropic::request_body(settings, prompt, tools))
        }),
        ({
            let request = request_of(ApiKind::Responses, settings, prompt, tools);
            &&& request.url == settings.base_url + "/"@ + "v1/responses"@
            &&& request.headers == openai_responses::request_headers(settings)
            &&& request.body == printed_json(openai_responses::request_body(settings, prompt, tools))
        }),
{
}

/// The arguments of a call: a text of white space is an empty object, JSON is what it says, and
/// anything else stays the text that it is.
pub proof fn law_arguments_are_read(raw: Seq<char>)
    ensures
        trimmed(raw).len() == 0 ==> (parsed_args(raw) is Object && forall|key: Seq<char>|
            #[trigger] lookup(parsed_args(raw), key) is None),
        trimmed(raw).len() > 0 ==> match crate::json::parsed_json(trimmed(raw)) {
            Ok(value) => parsed_args(raw) == value,
            Err(_) => args_text(parsed_args(raw)) == raw,
        },
{
}

} // verus!
