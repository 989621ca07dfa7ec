//! What is written down where: the stored forms of facts, the places of files, the titles and the
//! order of sessions.
use vstd::prelude::*;

use crate::hash::text_hash;
use crate::json::{entries_are_said, lookup, printed_json, JsonView};
use crate::message::{BlockView, CacheUsage, MessageView, Role, Usage};
use crate::plan::{PlanItemView, PlanView};
use crate::session::{
    append_flaw, appends_ok, batch_blocks, batch_paired, kind_of, names_unpaired, payloads_of,
    plan_after, EntryView, PayloadView,
};
use crate::storage::{
    app_root, as_facts, below, blank_header, chained, first_chars, header_after, id_char, key_of,
    leaf_error, matching, meant, opening_text, refused, stored_usage, summary_le, title_in,
    title_of, AppPaths, HeaderView, SummaryView,
};
use crate::storage::codec::{
    block_json, data_json, fact_json, item_json, message_json, plan_json, stored_message,
    usage_json,
};
use crate::storage::preferences::preference_file;
use crate::storage::rows::{entry_in, messages_in, row_of, MessageRowView};
use crate::text::{begins, quoted_text, text_le, trimmed};
use crate::workspace::PathStyle;

verus! {

proof fn block_fields()
    ensures
        "text"@ != "provider_kind"@,
        "text"@ != "raw"@,
        "text"@ != "id"@,
        "text"@ != "name"@,
        "text"@ != "input"@,
        "text"@ != "tool_use_id"@,
        "text"@ != "content"@,
        "text"@ != "is_error"@,
        "provider_kind"@ != "raw"@,
        "provider_kind"@ != "id"@,
        "provider_kind"@ != "name"@,
        "provider_kind"@ != "input"@,
        "provider_kind"@ != "tool_use_id"@,
        "provider_kind"@ != "content"@,
        "provider_kind"@ != "is_error"@,
        "raw"@ != "id"@,
        "raw"@ != "name"@,
        "raw"@ != "input"@,
        "raw"@ != "tool_use_id"@,
        "raw"@ != "content"@,
        "raw"@ != "is_error"@,
        "id"@ != "name"@,
        "id"@ != "input"@,
        "id"@ != "tool_use_id"@,
        "id"@ != "content"@,
        "id"@ != "is_error"@,
        "name"@ != "input"@,
        "name"@ != "tool_use_id"@,
        "name"@ != "content"@,
        "name"@ != "is_error"@,
        "input"@ != "tool_use_id"@,
        "input"@ != "content"@,
        "input"@ != "is_error"@,
        "tool_use_id"@ != "content"@,
        "tool_use_id"@ != "is_error"@,
        "content"@ != "is_error"@,
{
    reveal_strlit("text");
    reveal_strlit("provider_kind");
    reveal_strlit("raw");
    reveal_strlit("id");
    reveal_strlit("name");
    reveal_strlit("input");
    reveal_strlit("tool_use_id");
    reveal_strlit("content");
    reveal_strlit("is_error");
    assert("text"@.len() != "provider_kind"@.len());
    assert("text"@.len() != "raw"@.len());
    assert("text"@.len() != "id"@.len());
    assert("text"@[0] != "name"@[0]);
    assert("text"@.len() != "input"@.len());
    assert("text"@.len() != "tool_use_id"@.len());
    assert("text"@.len() != "content"@.len());
    assert("text"@.len() != "is_error"@.len());
    assert("provider_kind"@.len() != "raw"@.len());
    assert("provider_kind"@.len() != "id"@.len());
    assert("provider_kind"@.len() != "name"@.len());
    assert("provider_kind"@.len() != "input"@.len());
    assert("provider_kind"@.len() != "tool_use_id"@.len());
    assert("provider_kind"@.len() != "content"@.len());
    assert("provider_kind"@.len() != "is_error"@.len());
    assert("raw"@.len() != "id"@.len());
    assert("raw"@.len() != "name"@.len());
    assert("raw"@.len() != "input"@.len());
    assert("raw"@.len() != "tool_use_id"@.len());
    assert("raw"@.len() != "content"@.len());
    assert("raw"@.len() != "is_error"@.len());
    assert("id"@.len() != "name"@.len());
    assert("id"@.len() != "input"@.len());
    assert("id"@.len() != "tool_use_id"@.len());
    assert("id"@.len() != "content"@.len());
    assert("id"@.len() != "is_error"@.len());
    assert("name"@.len() != "input"@.len());
    assert("name"@.len() != "tool_use_id"@.len());
    assert("name"@.len() != "content"@.len());
    assert("name"@.len() != "is_error"@.len());
    assert("input"@.len() != "tool_use_id"@.len());
    assert("input"@.len() != "content"@.len());
    assert("input"@.len() != "is_error"@.len());
    assert("tool_use_id"@.len() != "content"@.len());
    assert("tool_use_id"@.len() != "is_error"@.len());
    assert("content"@.len() != "is_error"@.len());
}

proof fn usage_fields()
    ensures
        "input_tokens"@ != "output_tokens"@,
        "input_tokens"@ != "cache"@,
        "input_tokens"@ != "read_tokens"@,
        "input_tokens"@ != "write_tokens"@,
        "output_tokens"@ != "cache"@,
        "output_tokens"@ != "read_tokens"@,
        "output_tokens"@ != "write_tokens"@,
        "cache"@ != "read_tokens"@,
        "cache"@ != "write_tokens"@,
        "read_tokens"@ != "write_tokens"@,
{
    reveal_strlit("input_tokens");
    reveal_strlit("output_tokens");
    reveal_strlit("cache");
    reveal_strlit("read_tokens");
    reveal_strlit("write_tokens");
    assert("input_tokens"@.len() != "output_tokens"@.len());
    assert("input_tokens"@.len() != "cache"@.len());
    assert("input_tokens"@.len() != "read_tokens"@.len());
    assert("input_tokens"@[0] != "write_tokens"@[0]);
    assert("output_tokens"@.len() != "cache"@.len());
    assert("output_tokens"@.len() != "read_tokens"@.len());
    assert("output_tokens"@.len() != "write_tokens"@.len());
    assert("cache"@.len() != "read_tokens"@.len());
    assert("cache"@.len() != "write_tokens"@.len());
    assert("read_tokens"@.len() != "write_tokens"@.len());
}

proof fn fact_fields()
    ensures
        "message"@ != "usage"@,
        "message"@ != "prompt_fingerprint"@,
        "message"@ != "text"@,
        "message"@ != "level"@,
        "message"@ != "id"@,
        "message"@ != "media_type"@,
        "message"@ != "byte_len"@,
        "message"@ != "summary"@,
        "message"@ != "tokens_before"@,
        "message"@ != "provider"@,
        "message"@ != "model"@,
        "message"@ != "effort"@,
        "message"@ != "revision"@,
        "message"@ != "reason"@,
        "message"@ != "items"@,
        "message"@ != "explanation"@,
        "message"@ != "status"@,
        "message"@ != "type"@,
        "message"@ != "data"@,
        "message"@ != "role"@,
        "message"@ != "blocks"@,
        "usage"@ != "prompt_fingerprint"@,
        "usage"@ != "text"@,
        "usage"@ != "level"@,
        "usage"@ != "id"@,
        "usage"@ != "media_type"@,
        "usage"@ != "byte_len"@,
        "usage"@ != "summary"@,
        "usage"@ != "tokens_before"@,
        "usage"@ != "provider"@,
        "usage"@ != "model"@,
        "usage"@ != "effort"@,
        "usage"@ != "revision"@,
        "usage"@ != "reason"@,
        "usage"@ != "items"@,
        "usage"@ != "explanation"@,
        "usage"@ != "status"@,
        "usage"@ != "type"@,
        "usage"@ != "data"@,
        "usage"@ != "role"@,
        "usage"@ != "blocks"@,
        "prompt_fingerprint"@ != "text"@,
        "prompt_fingerprint"@ != "level"@,
        "prompt_fingerprint"@ != "id"@,
        "prompt_fingerprint"@ != "media_type"@,
        "prompt_fingerprint"@ != "byte_len"@,
        "prompt_fingerprint"@ != "summary"@,
        "prompt_fingerprint"@ != "tokens_before"@,
        "prompt_fingerprint"@ != "provider"@,
        "prompt_fingerprint"@ != "model"@,
        "prompt_fingerprint"@ != "effort"@,
        "prompt_fingerprint"@ != "revision"@,
        "prompt_fingerprint"@ != "reason"@,
        "prompt_fingerprint"@ != "items"@,
        "prompt_fingerprint"@ != "explanation"@,
        "prompt_fingerprint"@ != "status"@,
        "prompt_fingerprint"@ != "type"@,
        "prompt_fingerprint"@ != "data"@,
        "prompt_fingerprint"@ != "role"@,
        "prompt_fingerprint"@ != "blocks"@,
        "text"@ != "level"@,
        "text"@ != "id"@,
        "text"@ != "media_type"@,
        "text"@ != "byte_len"@,
        "text"@ != "summary"@,
        "text"@ != "tokens_before"@,
        "text"@ != "provider"@,
        "text"@ != "model"@,
        "text"@ != "effort"@,
        "text"@ != "revision"@,
        "text"@ != "reason"@,
        "text"@ != "items"@,
        "text"@ != "explanation"@,
        "text"@ != "status"@,
        "text"@ != "type"@,
        "text"@ != "data"@,
        "text"@ != "role"@,
        "text"@ != "blocks"@,
        "level"@ != "id"@,
        "level"@ != "media_type"@,
        "level"@ != "byte_len"@,
        "level"@ != "summary"@,
        "level"@ != "tokens_before"@,
        "level"@ != "provider"@,
        "level"@ != "model"@,
        "level"@ != "effort"@,
        "level"@ != "revision"@,
        "level"@ != "reason"@,
        "level"@ != "items"@,
        "level"@ != "explanation"@,
        "level"@ != "status"@,
        "level"@ != "type"@,
        "level"@ != "data"@,
        "level"@ != "role"@,
        "level"@ != "blocks"@,
        "id"@ != "media_type"@,
        "id"@ != "byte_len"@,
        "id"@ != "summary"@,
        "id"@ != "tokens_before"@,
        "id"@ != "provider"@,
        "id"@ != "model"@,
        "id"@ != "effort"@,
        "id"@ != "revision"@,
        "id"@ != "reason"@,
        "id"@ != "items"@,
        "id"@ != "explanation"@,
        "id"@ != "status"@,
        "id"@ != "type"@,
        "id"@ != "data"@,
        "id"@ != "role"@,
        "id"@ != "blocks"@,
        "media_type"@ != "byte_len"@,
        "media_type"@ != "summary"@,
        "media_type"@ != "tokens_before"@,
        "media_type"@ != "provider"@,
        "media_type"@ != "model"@,
        "media_type"@ != "effort"@,
        "media_type"@ != "revision"@,
        "media_type"@ != "reason"@,
        "media_type"@ != "items"@,
        "media_type"@ != "explanation"@,
        "media_type"@ != "status"@,
        "media_type"@ != "type"@,
        "media_type"@ != "data"@,
        "media_type"@ != "role"@,
        "media_type"@ != "blocks"@,
        "byte_len"@ != "summary"@,
        "byte_len"@ != "tokens_before"@,
        "byte_len"@ != "provider"@,
        "byte_len"@ != "model"@,
        "byte_len"@ != "effort"@,
        "byte_len"@ != "revision"@,
        "byte_len"@ != "reason"@,
        "byte_len"@ != "items"@,
        "byte_len"@ != "explanation"@,
        "byte_len"@ != "status"@,
        "byte_len"@ != "type"@,
        "byte_len"@ != "data"@,
        "byte_len"@ != "role"@,
        "byte_len"@ != "blocks"@,
        "summary"@ != "tokens_before"@,
        "summary"@ != "provider"@,
        "summary"@ != "model"@,
        "summary"@ != "effort"@,
        "summary"@ != "revision"@,
        "summary"@ != "reason"@,
        "summary"@ != "items"@,
        "summary"@ != "explanation"@,
        "summary"@ != "status"@,
        "summary"@ != "type"@,
        "summary"@ != "data"@,
        "summary"@ != "role"@,
        "summary"@ != "blocks"@,
        "tokens_before"@ != "provider"@,
        "tokens_before"@ != "model"@,
        "tokens_before"@ != "effort"@,
        "tokens_before"@ != "revision"@,
        "tokens_before"@ != "reason"@,
        "tokens_before"@ != "items"@,
        "tokens_before"@ != "explanation"@,
        "tokens_before"@ != "status"@,
        "tokens_before"@ != "type"@,
        "tokens_before"@ != "data"@,
        "tokens_before"@ != "role"@,
        "tokens_before"@ != "blocks"@,
        "provider"@ != "model"@,
        "provider"@ != "effort"@,
        "provider"@ != "revision"@,
        "provider"@ != "reason"@,
        "provider"@ != "items"@,
        "provider"@ != "explanation"@,
        "provider"@ != "status"@,
        "provider"@ != "type"@,
        "provider"@ != "data"@,
        "provider"@ != "role"@,
        "provider"@ != "blocks"@,
        "model"@ != "effort"@,
        "model"@ != "revision"@,
        "model"@ != "reason"@,
        "model"@ != "items"@,
        "model"@ != "explanation"@,
        "model"@ != "status"@,
        "model"@ != "type"@,
        "model"@ != "data"@,
        "model"@ != "role"@,
        "model"@ != "blocks"@,
        "effort"@ != "revision"@,
        "effort"@ != "reason"@,
        "effort"@ != "items"@,
        "effort"@ != "explanation"@,
        "effort"@ != "status"@,
        "effort"@ != "type"@,
        "effort"@ != "data"@,
        "effort"@ != "role"@,
        "effort"@ != "blocks"@,
        "revision"@ != "reason"@,
        "revision"@ != "items"@,
        "revision"@ != "explanation"@,
        "revision"@ != "status"@,
        "revision"@ != "type"@,
        "revision"@ != "data"@,
        "revision"@ != "role"@,
        "revision"@ != "blocks"@,
        "reason"@ != "items"@,
        "reason"@ != "explanation"@,
        "reason"@ != "status"@,
        "reason"@ != "type"@,
        "reason"@ != "data"@,
        "reason"@ != "role"@,
        "reason"@ != "blocks"@,
        "items"@ != "explanation"@,
        "items"@ != "status"@,
        "items"@ != "type"@,
        "items"@ != "data"@,
        "items"@ != "role"@,
        "items"@ != "blocks"@,
        "explanation"@ != "status"@,
        "explanation"@ != "type"@,
        "explanation"@ != "data"@,
        "explanation"@ != "role"@,
        "explanation"@ != "blocks"@,
        "status"@ != "type"@,
        "status"@ != "data"@,
        "status"@ != "role"@,
        "status"@ != "blocks"@,
        "type"@ != "data"@,
        "type"@ != "role"@,
        "type"@ != "blocks"@,
        "data"@ != "role"@,
        "data"@ != "blocks"@,
        "role"@ != "blocks"@,
{
    reveal_strlit("message");
    reveal_strlit("usage");
    reveal_strlit("prompt_fingerprint");
    reveal_strlit("text");
    reveal_strlit("level");
    reveal_strlit("id");
    reveal_strlit("media_type");
    reveal_strlit("byte_len");
    reveal_strlit("summary");
    reveal_strlit("tokens_before");
    reveal_strlit("provider");
    reveal_strlit("model");
    reveal_strlit("effort");
    reveal_strlit("revision");
    reveal_strlit("reason");
    reveal_strlit("items");
    reveal_strlit("explanation");
    reveal_strlit("status");
    reveal_strlit("type");
    reveal_strlit("data");
    reveal_strlit("role");
    reveal_strlit("blocks");
    assert("message"@.len() != "usage"@.len());
    assert("message"@.len() != "prompt_fingerprint"@.len());
    assert("message"@.len() != "text"@.len());
    assert("message"@.len() != "level"@.len());
    assert("message"@.len() != "id"@.len());
    assert("message"@.len() != "media_type"@.len());
    assert("message"@.len() != "byte_len"@.len());
    assert("message"@[0] != "summary"@[0]);
    assert("message"@.len() != "tokens_before"@.len());
    assert("message"@.len() != "provider"@.len());
    assert("message"@.len() != "model"@.len());
    assert("message"@.len() != "effort"@.len());
    assert("message"@.len() != "revision"@.len());
    assert("message"@.len() != "reason"@.len());
    assert("message"@.len() != "items"@.len());
    assert("message"@.len() != "explanation"@.len());
    assert("message"@.len() != "status"@.len());
    assert("message"@.len() != "type"@.len());
    assert("message"@.len() != "data"@.len());
    assert("message"@.len() != "role"@.len());
    assert("message"@.len() != "blocks"@.len());
    assert("usage"@.len() != "prompt_fingerprint"@.len());
    assert("usage"@.len() != "text"@.len());
    assert("usage"@[0] != "level"@[0]);
    assert("usage"@.len() != "id"@.len());
    assert("usage"@.len() != "media_type"@.len());
    assert("usage"@.len() != "byte_len"@.len());
    assert("usage"@.len() != "summary"@.len());
    assert("usage"@.len() != "tokens_before"@.len());
    assert("usage"@.len() != "provider"@.len());
    assert("usage"@[0] != "model"@[0]);
    assert("usage"@.len() != "effort"@.len());
    assert("usage"@.len() != "revision"@.len());
    assert("usage"@.len() != "reason"@.len());
    assert("usage"@[0] != "items"@[0]);
    assert("usage"@.len() != "explanation"@.len());
    assert("usage"@.len() != "status"@.len());
    assert("usage"@.len() != "type"@.len());
    assert("usage"@.len() != "data"@.len());
    assert("usage"@.len() != "role"@.len());
    assert("usage"@.len() != "blocks"@.len());
    assert("prompt_fingerprint"@.len() != "text"@.len());
    assert("prompt_fingerprint"@.len() != "level"@.len());
    assert("prompt_fingerprint"@.len() != "id"@.len());
    assert("prompt_fingerprint"@.len() != "media_type"@.len());
    assert("prompt_fingerprint"@.len() != "byte_len"@.len());
    assert("prompt_fingerprint"@.len() != "summary"@.len());
    assert("prompt_fingerprint"@.len() != "tokens_before"@.len());
    assert("prompt_fingerprint"@.len() != "provider"@.len());
    assert("prompt_fingerprint"@.len() != "model"@.len());
    assert("prompt_fingerprint"@.len() != "effort"@.len());
    assert("prompt_fingerprint"@.len() != "revision"@.len());
    assert("prompt_fingerprint"@.len() != "reason"@.len());
    assert("prompt_fingerprint"@.len() != "items"@.len());
    assert("prompt_fingerprint"@.len() != "explanation"@.len());
    assert("prompt_fingerprint"@.len() != "status"@.len());
    assert("prompt_fingerprint"@.len() != "type"@.len());
    assert("prompt_fingerprint"@.len() != "data"@.len());
    assert("prompt_fingerprint"@.len() != "role"@.len());
    assert("prompt_fingerprint"@.len() != "blocks"@.len());
    assert("text"@.len() != "level"@.len());
    assert("text"@.len() != "id"@.len());
    assert("text"@.len() != "media_type"@.len());
    assert("text"@.len() != "byte_len"@.len());
    assert("text"@.len() != "summary"@.len());
    assert("text"@.len() != "tokens_before"@.len());
    assert("text"@.len() != "provider"@.len());
    assert("text"@.len() != "model"@.len());
    assert("text"@.len() != "effort"@.len());
    assert("text"@.len() != "revision"@.len());
    assert("text"@.len() != "reason"@.len());
    assert("text"@.len() != "items"@.len());
    assert("text"@.len() != "explanation"@.len());
    assert("text"@.len() != "status"@.len());
    assert("text"@[1] != "type"@[1]);
    assert("text"@[0] != "data"@[0]);
    assert("text"@[0] != "role"@[0]);
    assert("text"@.len() != "blocks"@.len());
    assert("level"@.len() != "id"@.len());
    assert("level"@.len() != "media_type"@.len());
    assert("level"@.len() != "byte_len"@.len());
    assert("level"@.len() != "summary"@.len());
    assert("level"@.len() != "tokens_before"@.len());
    assert("level"@.len() != "provider"@.len());
    assert("level"@[0] != "model"@[0]);
    assert("level"@.len() != "effort"@.len());
    assert("level"@.len() != "revision"@.len());
    assert("level"@.len() != "reason"@.len());
    assert("level"@[0] != "items"@[0]);
    assert("level"@.len() != "explanation"@.len());
    assert("level"@.len() != "status"@.len());
    assert("level"@.len() != "type"@.len());
    assert("level"@.len() != "data"@.len());
    assert("level"@.len() != "role"@.len());
    assert("level"@.len() != "blocks"@.len());
    assert("id"@.len() != "media_type"@.len());
    assert("id"@.len() != "byte_len"@.len());
    assert("id"@.len() != "summary"@.len());
    assert("id"@.len() != "tokens_before"@.len());
    assert("id"@.len() != "provider"@.len());
    assert("id"@.len() != "model"@.len());
    assert("id"@.len() != "effort"@.len());
    assert("id"@.len() != "revision"@.len());
    assert("id"@.len() != "reason"@.len());
    assert("id"@.len() != "items"@.len());
    assert("id"@.len() != "explanation"@.len());
    assert("id"@.len() != "status"@.len());
    assert("id"@.len() != "type"@.len());
    assert("id"@.len() != "data"@.len());
    assert("id"@.len() != "role"@.len());
    assert("id"@.len() != "blocks"@.len());
    assert("media_type"@.len() != "byte_len"@.len());
    assert("media_type"@.len() != "summary"@.len());
    assert("media_type"@.len() != "tokens_before"@.len());
    assert("media_type"@.len() != "provider"@.len());
    assert("media_type"@.len() != "model"@.len());
    assert("media_type"@.len() != "effort"@.len());
    assert("media_type"@.len() != "revision"@.len());
    assert("media_type"@.len() != "reason"@.len());
    assert("media_type"@.len() != "items"@.len());
    assert("media_type"@.len() != "explanation"@.len());
    assert("media_type"@.len() != "status"@.len());
    assert("media_type"@.len() != "type"@.len());
    assert("media_type"@.len() != "data"@.len());
    assert("media_type"@.len() != "role"@.len());
    assert("media_type"@.len() != "blocks"@.len());
    assert("byte_len"@.len() != "summary"@.len());
    assert("byte_len"@.len() != "tokens_before"@.len());
    assert("byte_len"@[0] != "provider"@[0]);
    assert("byte_len"@.len() != "model"@.len());
    assert("byte_len"@.len() != "effort"@.len());
    assert("byte_len"@[0] != "revision"@[0]);
    assert("byte_len"@.len() != "reason"@.len());
    assert("byte_len"@.len() != "items"@.len());
    assert("byte_len"@.len() != "explanation"@.len());
    assert("byte_len"@.len() != "status"@.len());
    assert("byte_len"@.len() != "type"@.len());
    assert("byte_len"@.len() != "data"@.len());
    assert("byte_len"@.len() != "role"@.len());
    assert("byte_len"@.len() != "blocks"@.len());
    assert("summary"@.len() != "tokens_before"@.len());
    assert("summary"@.len() != "provider"@.len());
    assert("summary"@.len() != "model"@.len());
    assert("summary"@.len() != "effort"@.len());
    assert("summary"@.len() != "revision"@.len());
    assert("summary"@.len() != "reason"@.len());
    assert("summary"@.len() != "items"@.len());
    assert("summary"@.len() != "explanation"@.len());
    assert("summary"@.len() != "status"@.len());
    assert("summary"@.len() != "type"@.len());
    assert("summary"@.len() != "data"@.len());
    assert("summary"@.len() != "role"@.len());
    assert("summary"@.len() != "blocks"@.len());
    assert("tokens_before"@.len() != "provider"@.len());
    assert("tokens_before"@.len() != "model"@.len());
    assert("tokens_before"@.len() != "effort"@.len());
    assert("tokens_before"@.len() != "revision"@.len());
    assert("tokens_before"@.len() != "reason"@.len());
    assert("tokens_before"@.len() != "items"@.len());
    assert("tokens_before"@.len() != "explanation"@.len());
    assert("tokens_before"@.len() != "status"@.len());
    assert("tokens_before"@.len() != "type"@.len());
    assert("tokens_before"@.len() != "data"@.len());
    assert("tokens_before"@.len() != "role"@.len());
    assert("tokens_before"@.len() != "blocks"@.len());
    assert("provider"@.len() != "model"@.len());
    assert("provider"@.len() != "effort"@.len());
    assert("provider"@[0] != "revision"@[0]);
    assert("provider"@.len() != "reason"@.len());
    assert("provider"@.len() != "items"@.len());
    assert("provider"@.len() != "explanation"@.len());
    assert("provider"@.len() != "status"@.len());
    assert("provider"@.len() != "type"@.len());
    assert("provider"@.len() != "data"@.len());
    assert("provider"@.len() != "role"@.len());
    assert("provider"@.len() != "blocks"@.len());
    assert("model"@.len() != "effort"@.len());
    assert("model"@.len() != "revision"@.len());
    assert("model"@.len() != "reason"@.len());
    assert("model"@[0] != "items"@[0]);
    assert("model"@.len() != "explanation"@.len());
    assert("model"@.len() != "status"@.len());
    assert("model"@.len() != "type"@.len());
    assert("model"@.len() != "data"@.len());
    assert("model"@.len() != "role"@.len());
    assert("model"@.len() != "blocks"@.len());
    assert("effort"@.len() != "revision"@.len());
    assert("effort"@[0] != "reason"@[0]);
    assert("effort"@.len() != "items"@.len());
    assert("effort"@.len() != "explanation"@.len());
    assert("effort"@[0] != "status"@[0]);
    assert("effort"@.len() != "type"@.len());
    assert("effort"@.len() != "data"@.len());
    assert("effort"@.len() != "role"@.len());
    assert("effort"@[0] != "blocks"@[0]);
    assert("revision"@.len() != "reason"@.len());
    assert("revision"@.len() != "items"@.len());
    assert("revision"@.len() != "explanation"@.len());
    assert("revision"@.len() != "status"@.len());
    assert("revision"@.len() != "type"@.len());
    assert("revision"@.len() != "data"@.len());
    assert("revision"@.len() != "role"@.len());
    assert("revision"@.len() != "blocks"@.len());
    assert("reason"@.len() != "items"@.len());
    assert("reason"@.len() != "explanation"@.len());
    assert("reason"@[0] != "status"@[0]);
    assert("reason"@.len() != "type"@.len());
    assert("reason"@.len() != "data"@.len());
    assert("reason"@.len() != "role"@.len());
    assert("reason"@[0] != "blocks"@[0]);
    assert("items"@.len() != "explanation"@.len());
    assert("items"@.len() != "status"@.len());
    assert("items"@.len() != "type"@.len());
    assert("items"@.len() != "data"@.len());
    assert("items"@.len() != "role"@.len());
    assert("items"@.len() != "blocks"@.len());
    assert("explanation"@.len() != "status"@.len());
    assert("explanation"@.len() != "type"@.len());
    assert("explanation"@.len() != "data"@.len());
    assert("explanation"@.len() != "role"@.len());
    assert("explanation"@.len() != "blocks"@.len());
    assert("status"@.len() != "type"@.len());
    assert("status"@.len() != "data"@.len());
    assert("status"@.len() != "role"@.len());
    assert("status"@[0] != "blocks"@[0]);
    assert("type"@[0] != "data"@[0]);
    assert("type"@[0] != "role"@[0]);
    assert("type"@.len() != "blocks"@.len());
    assert("data"@[0] != "role"@[0]);
    assert("data"@.len() != "blocks"@.len());
    assert("role"@.len() != "blocks"@.len());
}

// ---- Stored facts ----

/// A block is stored under the name of its kind, with each of its parts under a name of its own.
pub proof fn law_blocks_are_stored_by_name(block: BlockView)
    ensures
        block matches BlockView::Text(text) ==> lookup(block_json(block), "Text"@) == Some(
            JsonView::Str(text),
        ),
        block matches BlockView::Thinking { text, provider_kind, raw } ==> {
            let inner = lookup(block_json(block), "Thinking"@);
            &&& inner is Some
            &&& lookup(inner->0, "text"@) == Some(JsonView::Str(text))
            &&& provider_kind matches Some(kind) ==> lookup(inner->0, "provider_kind"@) == Some(
                JsonView::Str(kind),
            )
            &&& provider_kind is None ==> lookup(inner->0, "provider_kind"@) == Some(JsonView::Null)
            &&& raw matches Some(value) ==> lookup(inner->0, "raw"@) == Some(value)
            &&& raw is None ==> lookup(inner->0, "raw"@) == Some(JsonView::Null)
        },
        block matches BlockView::ToolUse { id, name, input } ==> {
            let inner = lookup(block_json(block), "ToolUse"@);
            &&& inner is Some
            &&& lookup(inner->0, "id"@) == Some(JsonView::Str(id))
            &&& lookup(inner->0, "name"@) == Some(JsonView::Str(name))
            &&& lookup(inner->0, "input"@) == Some(input)
        },
        block matches BlockView::ToolResult { tool_use_id, content, is_error } ==> {
            let inner = lookup(block_json(block), "ToolResult"@);
            &&& inner is Some
            &&& lookup(inner->0, "tool_use_id"@) == Some(JsonView::Str(tool_use_id))
            &&& lookup(inner->0, "content"@) == Some(JsonView::Str(content))
            &&& lookup(inner->0, "is_error"@) == Some(JsonView::Bool(is_error))
        },
{
    broadcast use entries_are_said;

    block_fields();
}

/// A message is stored with who said it and with its blocks in their order.
pub proof fn law_messages_are_stored(message: MessageView)
    ensures
        message.role == Role::User ==> lookup(message_json(message), "role"@) == Some(
            JsonView::Str("User"@),
        ),
        message.role == Role::Assistant ==> lookup(message_json(message), "role"@) == Some(
            JsonView::Str("Assistant"@),
        ),
        lookup(message_json(message), "blocks"@) matches Some(JsonView::Array(items)) && items.len()
            == message.blocks.len() && forall|i: int|
            0 <= i < items.len() ==> (#[trigger] items[i]) == block_json(message.blocks[i]),
{
    broadcast use entries_are_said;

    fact_fields();
}

/// Token counts are stored each under its name.
pub proof fn law_usage_is_stored(usage: Usage)
    ensures
        usage_json(None) == JsonView::Null,
        ({
            let stored = usage_json(Some(usage));
            &&& lookup(stored, "input_tokens"@) == Some(JsonView::Number(usage.input_tokens as int))
            &&& lookup(stored, "output_tokens"@) == Some(JsonView::Number(usage.output_tokens as int))
            &&& usage.cache is None ==> lookup(stored, "cache"@) == Some(JsonView::Null)
            &&& usage.cache matches Some(cache) ==> {
                let inner = lookup(stored, "cache"@);
                &&& inner is Some
                &&& lookup(inner->0, "read_tokens"@) == Some(JsonView::Number(cache.read_tokens as int))
                &&& lookup(inner->0, "write_tokens"@) == Some(
                    JsonView::Number(cache.write_tokens as int),
                )
            }
        }),
{
    broadcast use entries_are_said;

    usage_fields();
}

/// A plan is stored with its revision, its explanation and its items in their order.
pub proof fn law_plans_are_stored(plan: PlanView, item: PlanItemView)
    ensures
        lookup(plan_json(plan), "revision"@) == Some(JsonView::Number(plan.revision as int)),
        lookup(plan_json(plan), "items"@) matches Some(JsonView::Array(items)) && items.len()
            == plan.items.len() && forall|i: int|
            0 <= i < items.len() ==> (#[trigger] items[i]) == item_json(plan.items[i]),
        plan.explanation matches Some(text) ==> lookup(plan_json(plan), "explanation"@) == Some(
            JsonView::Str(text),
        ),
        plan.explanation is None ==> lookup(plan_json(plan), "explanation"@) == Some(JsonView::Null),
        lookup(item_json(item), "id"@) == Some(JsonView::Str(item.id)),
        lookup(item_json(item), "text"@) == Some(JsonView::Str(item.text)),
        item.status is Pending ==> lookup(item_json(item), "status"@) == Some(
            JsonView::Str("pending"@),
        ),
        item.status is InProgress ==> lookup(item_json(item), "status"@) == Some(
            JsonView::Str("in_progress"@),
        ),
        item.status is Completed ==> lookup(item_json(item), "status"@) == Some(
            JsonView::Str("completed"@),
        ),
{
    broadcast use entries_are_said;

    fact_fields();
}

/// A fact is stored with its kind and its content, each part of which has a name of its own.
pub proof fn law_facts_are_stored(fact: PayloadView)
    ensures
        lookup(fact_json(fact), "type"@) == Some(JsonView::Str(kind_of(fact))),
        lookup(fact_json(fact), "data"@) == Some(data_json(fact)),
        fact matches PayloadView::Message { message, usage, prompt_fingerprint } ==> {
            &&& lookup(data_json(fact), "message"@) == Some(message_json(message))
            &&& lookup(data_json(fact), "usage"@) == Some(usage_json(usage))
            &&& prompt_fingerprint matches Some(print) ==> lookup(
                data_json(fact),
                "prompt_fingerprint"@,
            ) == Some(JsonView::Str(print))
        },
        fact matches PayloadView::Notice { text, level } ==> {
            &&& lookup(data_json(fact), "text"@) == Some(JsonView::Str(text))
            &&& level is Info ==> lookup(data_json(fact), "level"@) == Some(JsonView::Str("info"@))
            &&& level is Warning ==> lookup(data_json(fact), "level"@) == Some(
                JsonView::Str("warning"@),
            )
            &&& level is Error ==> lookup(data_json(fact), "level"@) == Some(JsonView::Str("error"@))
        },
        fact matches PayloadView::Artifact { id, media_type, byte_len } ==> {
            &&& lookup(data_json(fact), "id"@) == Some(JsonView::Str(id))
            &&& lookup(data_json(fact), "media_type"@) == Some(JsonView::Str(media_type))
            &&& lookup(data_json(fact), "byte_len"@) == Some(JsonView::Number(byte_len as int))
        },
        fact matches PayloadView::Compaction { summary, tokens_before } ==> {
            &&& lookup(data_json(fact), "summary"@) == Some(JsonView::Str(summary))
            &&& lookup(data_json(fact), "tokens_before"@) == Some(
                JsonView::Number(tokens_before as int),
            )
        },
        fact matches PayloadView::ModelChange { provider, model, effort } ==> {
            &&& lookup(data_json(fact), "provider"@) == Some(JsonView::Str(provider))
            &&& lookup(data_json(fact), "model"@) == Some(JsonView::Str(model))
            &&& lookup(data_json(fact), "effort"@) == Some(JsonView::Str(effort))
        },
        fact matches PayloadView::PlanUpdated(plan) ==> data_json(fact) == plan_json(plan),
        fact matches PayloadView::PlanReminder(r) ==> {
            &&& lookup(data_json(fact), "revision"@) == Some(JsonView::Number(r.revision as int))
            &&& r.reason is Continue ==> lookup(data_json(fact), "reason"@) == Some(
                JsonView::Str("continue"@),
            )
            &&& r.reason is Cancelled ==> lookup(data_json(fact), "reason"@) == Some(
                JsonView::Str("cancelled"@),
            )
        },
{
    broadcast use entries_are_said;

    fact_fields();
}

/// A row holds what a fact is known by, its kind, and its stored form; a row that reads is the fact
/// that it was made of.
pub proof fn law_rows_hold_their_facts(entry: EntryView)
    ensures
        row_of(entry).id == entry.id,
        row_of(entry).parent_id == entry.parent_id,
        row_of(entry).created_at == entry.created_at,
        row_of(entry).kind == kind_of(entry.payload),
        row_of(entry).payload == printed_json(fact_json(entry.payload)),
        entry_in(row_of(entry)) matches Some(read) ==> read.id == entry.id && read.parent_id
            == entry.parent_id && read.created_at == entry.created_at,
{
}

/// Messages of an old database are read in their order; the first that cannot be read is named.
pub proof fn law_old_messages_are_read_in_order(rows: Seq<MessageRowView>, row: MessageRowView)
    ensures
        messages_in(seq![]) == Ok::<Seq<MessageView>, u64>(seq![]),
        messages_in(rows) matches Err(sequence) ==> messages_in(rows.push(row)) == Err::<
            Seq<MessageView>,
            u64,
        >(sequence),
        messages_in(rows) matches Ok(before) ==> (match stored_message(row.payload) {
            Some(message) => messages_in(rows.push(row)) == Ok::<Seq<MessageView>, u64>(
                before.push(message),
            ),
            None => messages_in(rows.push(row)) == Err::<Seq<MessageView>, u64>(row.sequence),
        }),
{
    assert(rows.push(row).drop_last() =~= rows);
}

/// They become facts in their order, without token counts.
pub proof fn law_old_messages_become_facts(messages: Seq<MessageView>, i: int)
    requires
        0 <= i < messages.len(),
    ensures
        as_facts(messages).len() == messages.len(),
        as_facts(messages)[i] == (PayloadView::Message {
            message: messages[i],
            usage: None,
            prompt_fingerprint: None,
        }),
{
}

// ---- Places ----

/// A name stands behind its directory with one separator between them.
pub proof fn law_names_stand_below(style: PathStyle, dir: Seq<char>, name: Seq<char>)
    ensures
        dir.len() > 0 && dir.last() != '/' && dir.last() != '\\' ==> below(
            PathStyle::Posix,
            dir,
            name,
        ) == dir + "/"@ + name && below(PathStyle::Windows, dir, name) == dir + "\\"@ + name,
        dir.len() > 0 && dir.last() == '/' ==> below(style, dir, name) == dir + name,
        dir.len() > 0 && dir.last() == '\\' ==> below(PathStyle::Windows, dir, name) == dir + name
            && below(PathStyle::Posix, dir, name) == dir + "/"@ + name,
{
}

/// The data lies where the user says, else in the platform's directory, else in the usual place below
/// the home directory; without any of these it has no place.
pub proof fn law_data_has_a_place(
    style: PathStyle,
    chosen: Seq<char>,
    data: Option<Seq<char>>,
    home: Option<Seq<char>>,
)
    ensures
        chosen.len() > 0 ==> app_root(style, Some(chosen), data, home) == Ok::<Seq<char>, Seq<char>>(
            chosen,
        ),
        data matches Some(dir) ==> app_root(style, None, data, home) == Ok::<Seq<char>, Seq<char>>(
            below(style, dir, "onemore"@),
        ) && app_root(style, Some(seq![]), data, home) == app_root(style, None, data, home),
        home matches Some(dir) ==> {
            &&& app_root(PathStyle::Posix, None, None, home) == Ok::<Seq<char>, Seq<char>>(
                below(
                    PathStyle::Posix,
                    below(PathStyle::Posix, below(PathStyle::Posix, dir, ".local"@), "share"@),
                    "onemore"@,
                ),
            )
            &&& app_root(PathStyle::Windows, None, None, home) == Ok::<Seq<char>, Seq<char>>(
                below(
                    PathStyle::Windows,
                    below(PathStyle::Windows, below(PathStyle::Windows, dir, "AppData"@), "Roaming"@),
                    "onemore"@,
                ),
            )
        },
        app_root(style, None, None, None) == Err::<Seq<char>, Seq<char>>(
            "无法确定用户主目录，请设置 "@ + "ONEMORE_HOME"@,
        ),
{
}

/// The settings, the sessions and what is kept for each workspace lie below the root of the data.
pub proof fn law_files_have_their_places(paths: AppPaths, style: PathStyle, key: Seq<char>)
    ensures
        paths.laid_out(style) <==> paths.config@ == below(style, paths.root@, "config.toml"@)
            && paths.sessions@ == below(style, paths.root@, "sessions"@) && paths.workspaces@ == below(
            style,
            paths.root@,
            "workspaces"@,
        ),
        preference_file(style, paths.workspaces@, key) == below(
            style,
            paths.workspaces@,
            text_hash(key) + ".json"@,
        ),
        key_of(PathStyle::Posix, key) == key,
{
}

// ---- Titles ----

/// A text is cut to its first characters where it has more.
pub proof fn law_beginnings_are_kept(text: Seq<char>, n: nat)
    ensures
        text.len() <= n ==> first_chars(text, n) == text,
        text.len() > n ==> first_chars(text, n) == text.take(n as int),
{
}

/// The first text of a message that says something opens it, whatever comes behind.
pub proof fn law_the_first_words_open(blocks: Seq<BlockView>, text: Seq<char>, more: Seq<BlockView>)
    requires
        forall|i: int|
            0 <= i < blocks.len() ==> !((#[trigger] blocks[i]) matches BlockView::Text(t) && trimmed(
                t,
            ).len() > 0),
    ensures
        opening_text(blocks) is None,
        trimmed(text).len() > 0 ==> opening_text(blocks.push(BlockView::Text(text)) + more) == Some(
            trimmed(text),
        ),
    decreases blocks.len() + more.len(),
{
    let first = blocks.push(BlockView::Text(text));
    if more.len() > 0 {
        law_the_first_words_open(blocks, text, more.drop_last());
        assert((first + more).drop_last() =~= first + more.drop_last());
    } else {
        assert(first + more =~= first);
        assert(first.drop_last() =~= blocks);
        if blocks.len() > 0 {
            let rest = blocks.drop_last();
            assert forall|i: int| 0 <= i < rest.len() implies !((#[trigger] rest[i]) matches BlockView::Text(
                t,
            ) && trimmed(t).len() > 0) by {
                assert(rest[i] == blocks[i]);
            }
            law_the_first_words_open(rest, text, seq![]);
            assert(blocks[blocks.len() - 1] == blocks.last());
        }
    }
}

/// A session is titled by the first eighty characters of what the user said first. The title is set
/// once; what the assistant says never is one.
pub proof fn law_sessions_are_titled(
    header: HeaderView,
    entries: Seq<EntryView>,
    entry: EntryView,
    usage: Usage,
    now: i64,
    text: Seq<char>,
)
    ensures
        ({
            let after = header_after(header, entries.push(entry), usage, now);
            &&& header.title.len() > 0 ==> after.title == header.title
            &&& header.title.len() == 0 ==> after.title == title_of(
                payloads_of(entries).push(entry.payload),
            )
            &&& after.updated_at == now
            &&& after.usage == usage
            &&& after.leaf_id == Some(entry.id)
            &&& header_after(header, seq![], usage, now).leaf_id == header.leaf_id
        }),
        title_of(payloads_of(entries)).len() > 0 ==> title_of(payloads_of(entries).push(entry.payload))
            == title_of(payloads_of(entries)),
        title_of(payloads_of(entries)).len() == 0 ==> title_of(payloads_of(entries).push(entry.payload))
            == title_in(entry.payload),
        entry.payload matches PayloadView::Message { message, .. } ==> {
            &&& message.role == Role::Assistant ==> title_in(entry.payload).len() == 0
            &&& message.role == Role::User && opening_text(message.blocks) == Some(text) ==> title_in(
                entry.payload,
            ) == (if text.len() <= 80 {
                text
            } else {
                text.take(80)
            })
        },
        !(entry.payload is Message) ==> title_in(entry.payload).len() == 0,
        title_of(seq![]).len() == 0,
{
    assert(payloads_of(entries.push(entry)) =~= payloads_of(entries).push(entry.payload));
    assert(payloads_of(entries).push(entry.payload).drop_last() =~= payloads_of(entries));
}

/// A new session has no title, no facts and no tokens.
pub proof fn law_new_sessions_are_blank(now: i64)
    ensures
        blank_header(now).title.len() == 0,
        blank_header(now).updated_at == now,
        blank_header(now).usage.input_tokens == 0,
        blank_header(now).usage.output_tokens == 0,
        blank_header(now).usage.cache is None,
        blank_header(now).leaf_id is None,
{
    reveal_strlit("");
}

/// Counters that are not known are zero; where none of the cache is known, there is no cache.
pub proof fn law_stored_counters(input: u64, output: u64, read: u64, write: u64)
    ensures
        stored_usage(input, output, None, None) == (Usage {
            input_tokens: input,
            output_tokens: output,
            cache: None,
        }),
        stored_usage(input, output, Some(read), Some(write)).cache == Some(
            CacheUsage { read_tokens: read, write_tokens: write },
        ),
        stored_usage(input, output, Some(read), None).cache == Some(
            CacheUsage { read_tokens: read, write_tokens: 0 },
        ),
        stored_usage(input, output, None, Some(write)).cache == Some(
            CacheUsage { read_tokens: 0, write_tokens: write },
        ),
        stored_usage(input, output, Some(read), Some(write)).input_tokens == input,
        stored_usage(input, output, Some(read), Some(write)).output_tokens == output,
{
}

/// A log whose end is not the expected one is named with both ends, the expected one first.
pub proof fn law_other_ends_are_named(expected: Seq<char>, stored: Seq<char>)
    ensures
        leaf_error(Some(expected), Some(stored)) == "会话链尾不一致(内存 "@ + ("Some("@ + quoted_text(
            expected,
        ) + ")"@) + ",库内 "@ + ("Some("@ + quoted_text(stored) + ")"@) + "),拒绝追加"@,
        leaf_error(Some(expected), None) == "会话链尾不一致(内存 "@ + ("Some("@ + quoted_text(expected)
            + ")"@) + ",库内 "@ + "None"@ + "),拒绝追加"@,
        leaf_error(None, Some(stored)) == "会话链尾不一致(内存 "@ + "None"@ + ",库内 "@ + ("Some("@
            + quoted_text(stored) + ")"@) + "),拒绝追加"@,
{
}

// ---- Finding sessions ----

/// Of two sessions that were used at the same time, the one with the greater id comes first.
pub proof fn law_ids_break_ties(a: SummaryView, b: SummaryView)
    ensures
        a.updated_at > b.updated_at ==> summary_le(a, b) && !summary_le(b, a),
        a.updated_at == b.updated_at ==> (summary_le(a, b) <==> text_le(b.id, a.id)),
{
}

/// The ids that begin with a text stand in the order of the sessions.
pub proof fn law_matches_keep_their_order(
    a: Seq<SummaryView>,
    b: Seq<SummaryView>,
    prefix: Seq<char>,
)
    ensures
        matching(a + b, prefix) == matching(a, prefix) + matching(b, prefix),
    decreases b.len(),
{
    if b.len() == 0 {
        assert(a + b =~= a);
        assert(matching(a + b, prefix) =~= matching(a, prefix) + matching(b, prefix));
    } else {
        law_matches_keep_their_order(a, b.drop_last(), prefix);
        assert((a + b).drop_last() =~= a + b.drop_last());
        assert(matching(a + b, prefix) =~= matching(a, prefix) + matching(b, prefix));
    }
}

/// An id matches where it begins with the text.
pub proof fn law_an_id_matches_its_beginning(session: SummaryView, prefix: Seq<char>)
    ensures
        begins(session.id, prefix) ==> matching(seq![session], prefix) == seq![session.id],
        !begins(session.id, prefix) ==> matching(seq![session], prefix).len() == 0,
        begins(session.id, prefix) <==> prefix.len() <= session.id.len() && session.id.take(
            prefix.len() as int,
        ) == prefix,
{
    assert(seq![session].drop_last() =~= seq![]);
    assert(matching(seq![], prefix).len() == 0);
    if begins(session.id, prefix) {
        assert(matching(seq![session], prefix) =~= seq![session.id]);
        assert(session.id.take(prefix.len() as int) =~= prefix);
    }
}

/// A request means the one session whose id begins with it. Where there is none, or more than one, or
/// where it can be no id, that is said.
pub proof fn law_requests_mean_one_session(sessions: Seq<SummaryView>, requested: Seq<char>)
    ensures
        ({
            let id = trimmed(requested);
            let found = matching(sessions, id);
            let proper = id.len() > 0 && forall|i: int|
                0 <= i < id.len() ==> (('a' <= (#[trigger] id[i]) <= 'z') || ('A' <= id[i] <= 'Z') || ('0'
                    <= id[i] <= '9') || id[i] == '-');
            &&& !proper ==> meant(sessions, requested) == Err::<Seq<char>, Seq<char>>(
                "无效的会话 ID "@ + quoted_text(id),
            )
            &&& proper && found.len() == 0 ==> meant(sessions, requested) == Err::<
                Seq<char>,
                Seq<char>,
            >("当前 workspace 找不到会话 "@ + id)
            &&& proper && found.len() == 1 ==> meant(sessions, requested) == Ok::<
                Seq<char>,
                Seq<char>,
            >(found[0])
            &&& proper && found.len() > 1 ==> meant(sessions, requested) == Err::<
                Seq<char>,
                Seq<char>,
            >("会话 ID 前缀 "@ + id + " 不唯一，请输入更多字符"@)
        }),
{
    let id = trimmed(requested);
    if exists|i: int| 0 <= i < id.len() && !id_char(#[trigger] id[i]) {
        let i = choose|i: int| 0 <= i < id.len() && !id_char(#[trigger] id[i]);
        assert(!(('a' <= id[i] <= 'z') || ('A' <= id[i] <= 'Z') || ('0' <= id[i] <= '9') || id[i]
            == '-'));
    } else {
        assert forall|i: int| 0 <= i < id.len() implies (('a' <= (#[trigger] id[i]) <= 'z') || ('A'
            <= id[i] <= 'Z') || ('0' <= id[i] <= '9') || id[i] == '-') by {
            assert(id_char(id[i]));
        }
    }
}

/// A fact of a batch is stored under its own id, at the time of the batch.
pub proof fn law_facts_of_a_batch_have_their_ids(
    payloads: Seq<PayloadView>,
    ids: Seq<Seq<char>>,
    leaf: Option<Seq<char>>,
    now: i64,
    i: int,
)
    requires
        0 <= i < payloads.len(),
        ids.len() == payloads.len(),
    ensures
        chained(payloads, ids, leaf, now).len() == payloads.len(),
        chained(payloads, ids, leaf, now)[i].id == ids[i],
        chained(payloads, ids, leaf, now)[i].created_at == now,
        chained(payloads, ids, leaf, now)[i].payload == payloads[i],
{
}

/// A batch is refused for calls and results that do not pair up, then for an update of the plan that may
/// not follow, then because the log ends elsewhere than expected, and says which.
pub proof fn law_refused_batches_say_why(
    existing: Seq<EntryView>,
    payloads: Seq<PayloadView>,
    leaf: Option<Seq<char>>,
    stored: Option<Seq<char>>,
    text: Seq<char>,
)
    requires
        refused(existing, payloads, leaf, stored, text),
    ensures
        ({
            let plan = plan_after(payloads_of(existing));
            &&& !batch_paired(payloads) ==> names_unpaired(batch_blocks(payloads), text)
            &&& batch_paired(payloads) && !appends_ok(plan, payloads) ==> append_flaw(plan, payloads)
                == Some(text)
            &&& batch_paired(payloads) && appends_ok(plan, payloads) ==> leaf != stored && text
                == leaf_error(leaf, stored)
        }),
{
}

} // verus!
