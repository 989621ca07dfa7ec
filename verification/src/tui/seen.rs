//! What keys do and what is shown, one by one.
use vstd::prelude::*;

use crate::event::{AgentEventView, CommandView};
use crate::message::{BlockView, Role};
use crate::permission::{ApprovalDecision, ApprovalScope, ApprovalView, ResponseView};
use crate::session::{batch_blocks, payloads_of, EntryView, PayloadView};
use crate::storage::SummaryView;
use crate::text::{begins, dec, holds_part, is_white, lower, stands_at, trimmed};
use crate::time::Duration;
use crate::tools::OutputView;
use crate::tui::app::{
    answer_cells, awaits_sessions, bytes_in, event_shown, fact_cells, facts_cells, hint_of,
    last_result, messages_in, session_cells, session_item, session_items, short_of, tokens_shown,
    ui_of, user_cells, AppView, OutView, OverlayView, PickerKind,
};
use crate::tui::cells::{cell_after, RowState};
use crate::tui::command::{
    all_commands, command_named, info_of, matching, CommandInfo, SlashCommand,
};
use crate::tui::input::{
    at_place, back_over_space, back_over_word, continues, deleted, erased, input_of, left_of,
    line_end, line_start, no_input, over_space, over_word, pasted, right_of, shown, typed, vertical,
    without_line_rest, without_word, word_left, word_right, InputState,
};
use crate::tui::keys::{
    accepted, approval_key, earlier, edited, entered, escaped, executed, first_from, first_white,
    key_taken, later, model_in, model_item, model_items, model_key, more_follows, narrowed_by,
    offered_models, paste_taken, picker_key, provider_in, provider_item, provider_items,
    slash_chosen, slash_completed, slash_handled, slash_list, slash_moved, slash_query, slash_run,
    submitted, writes, Held, Key, Pending,
};
use crate::tui::picker::{
    chosen, current_place, moved, narrowed, offered, opened, stepped, widened, ItemInfo,
    PickerState,
};
use crate::tui::transcript::{
    all_closed, answer_ended, answer_grown, call_begun, call_ended, is_open, running,
    settled_prefix, texts_closed, thought_grown, CellView,
};
use crate::tui::wrap::{char_put, rows_of, wrapped, Wrapped};
use crate::util::{middle_cut, summary_of, token_text};

verus! {

// ---- Editing ----

/// What is typed stands where the cursor is, and the cursor behind it.
pub proof fn law_typing_is_at_the_cursor(
    before: Seq<char>,
    after: Seq<char>,
    c: char,
    more: Seq<char>,
)
    ensures
        ({
            let s = InputState { text: before + after, cursor: before.len() as int };
            &&& typed(s, c) == (InputState {
                text: before.push(c) + after,
                cursor: before.len() as int + 1,
            })
            &&& pasted(s, more) == (InputState {
                text: before + more + after,
                cursor: before.len() as int + more.len(),
            })
            &&& no_input().text.len() == 0 && no_input().cursor == 0
            &&& input_of(before) == (InputState { text: before, cursor: before.len() as int })
        }),
{
    let s = InputState { text: before + after, cursor: before.len() as int };
    assert(typed(s, c).text =~= before.push(c) + after);
    assert(s.text.take(s.cursor) =~= before);
    assert(s.text.skip(s.cursor) =~= after);
}

/// Erasing takes the character before the cursor, deleting the one behind it; at an end of the text
/// there is none.
pub proof fn law_erasing_and_deleting(before: Seq<char>, c: char, after: Seq<char>)
    ensures
        erased(InputState { text: before.push(c) + after, cursor: before.len() as int + 1 }) == (
        InputState { text: before + after, cursor: before.len() as int }),
        deleted(InputState { text: before + seq![c] + after, cursor: before.len() as int }) == (
        InputState { text: before + after, cursor: before.len() as int }),
        erased(InputState { text: after, cursor: 0 }) == (InputState { text: after, cursor: 0 }),
        deleted(input_of(before)) == input_of(before),
{
    let s = InputState { text: before.push(c) + after, cursor: before.len() as int + 1 };
    let t = InputState { text: before + seq![c] + after, cursor: before.len() as int };
    assert(erased(s).text =~= before + after);
    assert(deleted(t).text =~= before + after);
}

/// The cursor moves by one character and stops at the ends of the text; the text stays.
pub proof fn law_moving_by_one(s: InputState, at: int)
    requires
        0 <= s.cursor <= s.text.len(),
    ensures
        left_of(s).text == s.text,
        right_of(s).text == s.text,
        at_place(s, at) == (InputState { text: s.text, cursor: at }),
        s.cursor > 0 ==> left_of(s).cursor == s.cursor - 1,
        s.cursor == 0 ==> left_of(s).cursor == 0,
        s.cursor < s.text.len() ==> right_of(s).cursor == s.cursor + 1,
        s.cursor == s.text.len() ==> right_of(s).cursor == s.cursor,
{
}

/// A line begins behind a line break and ends before one, or at an end of the text; between there is
/// none.
pub proof fn law_lines_have_ends(text: Seq<char>, at: int)
    requires
        0 <= at <= text.len(),
    ensures
        ({
            let a = line_start(text, at);
            let b = line_end(text, at);
            &&& 0 <= a <= at <= b <= text.len()
            &&& a > 0 ==> text[a - 1] == '\n'
            &&& b < text.len() ==> text[b] == '\n'
            &&& forall|i: int| a <= i < b ==> (#[trigger] text[i]) != '\n'
        }),
    decreases text.len(),
{
    line_starts(text, at);
    line_stops(text, at);
}

proof fn line_starts(text: Seq<char>, at: int)
    requires
        0 <= at <= text.len(),
    ensures
        0 <= line_start(text, at) <= at,
        line_start(text, at) > 0 ==> text[line_start(text, at) - 1] == '\n',
        forall|i: int| line_start(text, at) <= i < at ==> (#[trigger] text[i]) != '\n',
    decreases at,
{
    if at > 0 && text[at - 1] != '\n' {
        line_starts(text, at - 1);
    }
}

proof fn line_stops(text: Seq<char>, at: int)
    requires
        0 <= at <= text.len(),
    ensures
        at <= line_end(text, at) <= text.len(),
        line_end(text, at) < text.len() ==> text[line_end(text, at)] == '\n',
        forall|i: int| at <= i < line_end(text, at) ==> (#[trigger] text[i]) != '\n',
    decreases text.len() - at,
{
    if at < text.len() && text[at] != '\n' {
        line_stops(text, at + 1);
    }
}

/// A word to the left begins behind white space: between it and the cursor stand the word and then
/// white space only.
pub proof fn law_words_to_the_left(text: Seq<char>, at: int)
    requires
        0 <= at <= text.len(),
    ensures
        exists|m: int|
            #![trigger back_over_word(text, m)]
            {
                let a = word_left(text, at);
                &&& 0 <= a <= m <= at
                &&& forall|i: int| m <= i < at ==> is_white(#[trigger] text[i])
                &&& forall|i: int| a <= i < m ==> !is_white(#[trigger] text[i])
                &&& a > 0 ==> is_white(text[a - 1])
                &&& m > 0 ==> !is_white(text[m - 1])
            },
{
    spaces_back(text, at);
    let m = back_over_space(text, at);
    word_back(text, m);
    assert(word_left(text, at) == back_over_word(text, m));
}

proof fn spaces_back(text: Seq<char>, at: int)
    requires
        0 <= at <= text.len(),
    ensures
        0 <= back_over_space(text, at) <= at,
        back_over_space(text, at) > 0 ==> !is_white(text[back_over_space(text, at) - 1]),
        forall|i: int| back_over_space(text, at) <= i < at ==> is_white(#[trigger] text[i]),
    decreases at,
{
    if at > 0 && is_white(text[at - 1]) {
        spaces_back(text, at - 1);
    }
}

proof fn word_back(text: Seq<char>, at: int)
    requires
        0 <= at <= text.len(),
    ensures
        0 <= back_over_word(text, at) <= at,
        back_over_word(text, at) > 0 ==> is_white(text[back_over_word(text, at) - 1]),
        forall|i: int| back_over_word(text, at) <= i < at ==> !is_white(#[trigger] text[i]),
    decreases at,
{
    if at > 0 && !is_white(text[at - 1]) {
        word_back(text, at - 1);
    }
}

/// A word to the right ends before white space: between the cursor and it stand white space and then
/// the word only.
pub proof fn law_words_to_the_right(text: Seq<char>, at: int)
    requires
        0 <= at <= text.len(),
    ensures
        exists|m: int|
            #![trigger over_word(text, m)]
            {
                let b = word_right(text, at);
                &&& at <= m <= b <= text.len()
                &&& forall|i: int| at <= i < m ==> is_white(#[trigger] text[i])
                &&& forall|i: int| m <= i < b ==> !is_white(#[trigger] text[i])
                &&& b < text.len() ==> is_white(text[b])
                &&& m < text.len() ==> !is_white(text[m])
            },
{
    spaces_on(text, at);
    let m = over_space(text, at);
    word_on(text, m);
    assert(word_right(text, at) == over_word(text, m));
}

proof fn spaces_on(text: Seq<char>, at: int)
    requires
        0 <= at <= text.len(),
    ensures
        at <= over_space(text, at) <= text.len(),
        over_space(text, at) < text.len() ==> !is_white(text[over_space(text, at)]),
        forall|i: int| at <= i < over_space(text, at) ==> is_white(#[trigger] text[i]),
    decreases text.len() - at,
{
    if at < text.len() && is_white(text[at]) {
        spaces_on(text, at + 1);
    }
}

proof fn word_on(text: Seq<char>, at: int)
    requires
        0 <= at <= text.len(),
    ensures
        at <= over_word(text, at) <= text.len(),
        over_word(text, at) < text.len() ==> is_white(text[over_word(text, at)]),
        forall|i: int| at <= i < over_word(text, at) ==> !is_white(#[trigger] text[i]),
    decreases text.len() - at,
{
    if at < text.len() && !is_white(text[at]) {
        word_on(text, at + 1);
    }
}

/// A word before the cursor goes with the white space behind it; the rest of a line goes up to its
/// end. Everything else stays.
pub proof fn law_words_and_lines_go(s: InputState)
    ensures
        without_word(s).text == s.text.take(word_left(s.text, s.cursor)) + s.text.skip(s.cursor),
        without_word(s).cursor == word_left(s.text, s.cursor),
        without_line_rest(s).text == s.text.take(s.cursor) + s.text.skip(line_end(s.text, s.cursor)),
        without_line_rest(s).cursor == s.cursor,
        continues(s) <==> s.text.len() > 0 && s.cursor == s.text.len() && s.text[s.text.len() - 1]
            == '\\',
{
}

/// Up and down lead to the line above and below, to the same column or to the end of a shorter line;
/// from the first line there is no way up, and from the last none down.
pub proof fn law_moving_by_lines(s: InputState)
    requires
        0 <= s.cursor <= s.text.len(),
    ensures
        ({
            let start = line_start(s.text, s.cursor);
            let end = line_end(s.text, s.cursor);
            let column = s.cursor - start;
            let up = vertical(s, true);
            let down = vertical(s, false);
            &&& start == 0 ==> up == s.cursor
            &&& start > 0 ==> ({
                let above = line_start(s.text, start - 1);
                &&& above <= up <= start - 1
                &&& up - above == (if column <= start - 1 - above {
                    column
                } else {
                    start - 1 - above
                })
            })
            &&& end == s.text.len() ==> down == s.cursor
            &&& end < s.text.len() ==> ({
                let last = line_end(s.text, end + 1);
                &&& end + 1 <= down <= last
                &&& down - (end + 1) == (if column <= last - (end + 1) {
                    column
                } else {
                    last - (end + 1)
                })
            })
        }),
{
    law_lines_have_ends(s.text, s.cursor);
    let start = line_start(s.text, s.cursor);
    let end = line_end(s.text, s.cursor);
    if start > 0 {
        law_lines_have_ends(s.text, start - 1);
    }
    if end < s.text.len() {
        law_lines_have_ends(s.text, end + 1);
    }
}

// ---- Rows ----

/// A row goes on as long as there is room. A line break ends it, and so does a character for which
/// there is none; that one begins the next row.
pub proof fn law_rows_are_filled(w: Wrapped, c: char, taken: nat, width: nat)
    ensures
        char_put(w, '\n', taken, width) == (Wrapped { rows: w.rows.push(w.row), row: seq![], used: 0 }),
        c != '\n' && (w.row.len() == 0 || w.used + taken <= width) ==> char_put(w, c, taken, width) == (
        Wrapped { rows: w.rows, row: w.row.push(c), used: w.used + taken }),
        c != '\n' && w.row.len() > 0 && w.used + taken > width ==> char_put(w, c, taken, width) == (
        Wrapped { rows: w.rows.push(w.row), row: seq![c], used: taken }),
{
}

/// What is typed is shown row by row, the rows that have no room above left out, with the cursor where
/// the text before it ends.
pub proof fn law_input_is_shown(s: InputState, width: u16, max_rows: usize)
    requires
        0 <= s.cursor <= s.text.len(),
        width > 0,
        max_rows > 0,
    ensures
        ({
            let view = shown(s, width, max_rows);
            let rows = rows_of(s.text, width as nat);
            let before = wrapped(s.text.take(s.cursor), width as nat);
            let at = before.rows.len() as int;
            let first = at - view.cursor_row;
            &&& view.total_rows == rows.len()
            &&& first == (if at < max_rows {
                0
            } else {
                at + 1 - max_rows
            })
            &&& forall|i: int| 0 <= i < view.rows.len() ==> (#[trigger] view.rows[i]) == rows[first + i]
            &&& view.rows.len() == (if rows.len() - first < max_rows {
                rows.len() - first
            } else {
                max_rows as int
            })
            &&& before.used <= u16::MAX ==> view.cursor_col == before.used
        }),
        shown(s, 0, max_rows) == shown(s, 1, max_rows),
        shown(s, width, 0) == shown(s, width, 1),
{
    crate::tui::input::law_the_cursor_is_shown(s, width, max_rows);
    let rows = rows_of(s.text, width as nat);
    let before = wrapped(s.text.take(s.cursor), width as nat);
    crate::tui::wrap::law_full_rows_stay(s.text, width as nat, s.cursor);
}

/// A symbol that takes several columns empties the cells behind it that it covers.
pub proof fn law_wide_symbols_cover_cells(row: RowState, symbol: Seq<char>, width: nat)
    ensures
        row.filled > 0 ==> cell_after(row, symbol, width).cells.last().len() == 0 && cell_after(
            row,
            symbol,
            width,
        ).filled == row.filled - 1,
        row.filled == 0 ==> cell_after(row, symbol, width).cells.last() == symbol,
        row.filled == 0 && width > 0 ==> cell_after(row, symbol, width).filled == width - 1,
        row.filled == 0 && width == 0 ==> cell_after(row, symbol, width).filled == 0,
        cell_after(row, symbol, width).cells.drop_last() == row.cells,
{
    assert(cell_after(row, symbol, width).cells.drop_last() =~= row.cells);
}

// ---- The transcript ----

/// A piece of an answer is added behind what is shown of it; where none is open, a new one begins and
/// what was open is closed, but for calls.
pub proof fn law_answers_grow(cells: Seq<CellView>, before: Seq<char>, text: Seq<char>, i: int)
    requires
        0 <= i < cells.len(),
    ensures
        answer_grown(cells.push(CellView::Assistant { text: before, open: true }), text) == cells.push(
            CellView::Assistant { text: before + text, open: true },
        ),
        thought_grown(cells.push(CellView::Thinking { text: before, open: true }), text) == cells.push(
            CellView::Thinking { text: before + text, open: true },
        ),
        answer_ended(cells.push(CellView::Assistant { text: before, open: true }), text) == cells.push(
            CellView::Assistant { text, open: false },
        ),
        answer_grown(cells.push(CellView::User(before)), text).last() == (CellView::Assistant {
            text,
            open: true,
        }),
        thought_grown(cells.push(CellView::User(before)), text).last() == (CellView::Thinking {
            text,
            open: true,
        }),
        answer_ended(cells.push(CellView::User(before)), text).last() == (CellView::Assistant {
            text,
            open: false,
        }),
        answer_grown(cells.push(CellView::User(before)), text).len() == cells.len() + 2,
        texts_closed(cells).len() == cells.len(),
        cells[i] is Tool ==> texts_closed(cells)[i] == cells[i],
        cells[i] matches CellView::Assistant { text: t, .. } ==> texts_closed(cells)[i] == (
        CellView::Assistant { text: t, open: false }),
        cells[i] matches CellView::Thinking { text: t, .. } ==> texts_closed(cells)[i] == (
        CellView::Thinking { text: t, open: false }),
        cells[i] is User || cells[i] is Notice || cells[i] is Error ==> texts_closed(cells)[i] == cells[i],
{
    let a = cells.push(CellView::Assistant { text: before, open: true });
    let t = cells.push(CellView::Thinking { text: before, open: true });
    assert(a.drop_last() =~= cells);
    assert(t.drop_last() =~= cells);
}

/// A call is shown from its beginning to its end, with what it is asked and then with what came of
/// it. Of two calls under one id the last that runs is the one that ends.
pub proof fn law_calls_are_shown(
    cells: Seq<CellView>,
    id: Seq<char>,
    name: Seq<char>,
    summary: Seq<char>,
    output: Seq<char>,
    is_error: bool,
)
    ensures
        ({
            let begun = call_begun(cells, id, name, summary);
            let ended = call_ended(begun, id, output, is_error);
            &&& begun.len() == cells.len() + 1
            &&& begun.drop_last() == texts_closed(cells)
            &&& begun.last() == (CellView::Tool { id, name, summary, result: None, open: true })
            &&& ended.len() == begun.len()
            &&& ended.drop_last() == begun.drop_last()
            &&& ended.last() == (CellView::Tool {
                id,
                name,
                summary,
                result: Some((output, is_error)),
                open: false,
            })
        }),
        running(cells, id) is None ==> call_ended(cells, id, output, is_error) == cells,
{
    let begun = call_begun(cells, id, name, summary);
    assert(begun.drop_last() =~= texts_closed(cells));
    assert(running(begun, id) == Some(begun.len() - 1));
    let ended = call_ended(begun, id, output, is_error);
    assert(ended.drop_last() =~= begun.drop_last());
}

/// A call is found by its id as long as it has not ended, the last one first.
pub proof fn law_running_calls_are_found(cells: Seq<CellView>, id: Seq<char>, cell: CellView)
    ensures
        running(seq![], id) is None,
        (cell matches CellView::Tool { id: other, result, .. } && other == id && result is None)
            ==> running(cells.push(cell), id) == Some(cells.len() as int),
        !(cell matches CellView::Tool { id: other, result, .. } && other == id && result is None)
            ==> running(cells.push(cell), id) == running(cells, id),
{
    assert(cells.push(cell).drop_last() =~= cells);
}

/// Closing keeps everything but that a cell may grow; only answers, thoughts and calls can be open.
pub proof fn law_closing_keeps_the_text(cells: Seq<CellView>, i: int)
    requires
        0 <= i < cells.len(),
    ensures
        all_closed(cells).len() == cells.len(),
        !is_open(all_closed(cells)[i]),
        !is_open(cells[i]) ==> all_closed(cells)[i] == cells[i],
        cells[i] matches CellView::Assistant { text, open } ==> all_closed(cells)[i] == (
        CellView::Assistant { text, open: false }) && is_open(cells[i]) == open,
        cells[i] matches CellView::Thinking { text, open } ==> all_closed(cells)[i] == (
        CellView::Thinking { text, open: false }) && is_open(cells[i]) == open,
        cells[i] matches CellView::Tool { id, name, summary, result, open } ==> all_closed(cells)[i] == (
        CellView::Tool { id, name, summary, result, open: false }) && is_open(cells[i]) == open,
        cells[i] is User || cells[i] is Notice || cells[i] is Error ==> !is_open(cells[i]),
{
}

/// What stands before the first cell that may grow is final.
pub proof fn law_the_beginning_is_final(cells: Seq<CellView>)
    ensures
        ({
            let n = settled_prefix(cells);
            &&& 0 <= n <= cells.len()
            &&& forall|i: int| 0 <= i < n ==> !is_open(#[trigger] cells[i])
            &&& n < cells.len() ==> is_open(cells[n])
        }),
    decreases cells.len(),
{
    if cells.len() > 0 && !is_open(cells[0]) {
        let rest = cells.drop_first();
        law_the_beginning_is_final(rest);
        let n = settled_prefix(cells);
        assert forall|i: int| 0 <= i < n implies !is_open(#[trigger] cells[i]) by {
            if i > 0 {
                assert(rest[i - 1] == cells[i]);
            }
        }
        if n < cells.len() {
            assert(rest[n - 1] == cells[n]);
        }
    }
}

// ---- Commands ----

proof fn command_names()
    ensures
        "model"@ != "provider"@,
        "model"@ != "session"@,
        "model"@ != "compact"@,
        "model"@ != "queue"@,
        "model"@ != "clear"@,
        "model"@ != "help"@,
        "model"@ != "quit"@,
        "provider"@ != "session"@,
        "provider"@ != "compact"@,
        "provider"@ != "queue"@,
        "provider"@ != "clear"@,
        "provider"@ != "help"@,
        "provider"@ != "quit"@,
        "session"@ != "compact"@,
        "session"@ != "queue"@,
        "session"@ != "clear"@,
        "session"@ != "help"@,
        "session"@ != "quit"@,
        "compact"@ != "queue"@,
        "compact"@ != "clear"@,
        "compact"@ != "help"@,
        "compact"@ != "quit"@,
        "queue"@ != "clear"@,
        "queue"@ != "help"@,
        "queue"@ != "quit"@,
        "clear"@ != "help"@,
        "clear"@ != "quit"@,
        "help"@ != "quit"@,
{
    reveal_strlit("model");
    reveal_strlit("provider");
    reveal_strlit("session");
    reveal_strlit("compact");
    reveal_strlit("queue");
    reveal_strlit("clear");
    reveal_strlit("help");
    reveal_strlit("quit");
    assert("model"@.len() != "provider"@.len());
    assert("model"@.len() != "session"@.len());
    assert("model"@.len() != "compact"@.len());
    assert("model"@[0] != "queue"@[0]);
    assert("model"@[0] != "clear"@[0]);
    assert("model"@.len() != "help"@.len());
    assert("model"@.len() != "quit"@.len());
    assert("provider"@.len() != "session"@.len());
    assert("provider"@.len() != "compact"@.len());
    assert("provider"@.len() != "queue"@.len());
    assert("provider"@.len() != "clear"@.len());
    assert("provider"@.len() != "help"@.len());
    assert("provider"@.len() != "quit"@.len());
    assert("session"@[0] != "compact"@[0]);
    assert("session"@.len() != "queue"@.len());
    assert("session"@.len() != "clear"@.len());
    assert("session"@.len() != "help"@.len());
    assert("session"@.len() != "quit"@.len());
    assert("compact"@.len() != "queue"@.len());
    assert("compact"@.len() != "clear"@.len());
    assert("compact"@.len() != "help"@.len());
    assert("compact"@.len() != "quit"@.len());
    assert("queue"@[0] != "clear"@[0]);
    assert("queue"@.len() != "help"@.len());
    assert("queue"@.len() != "quit"@.len());
    assert("clear"@.len() != "help"@.len());
    assert("clear"@.len() != "quit"@.len());
    assert("help"@[0] != "quit"@[0]);
}

/// Commands go by their names, and are offered in this order.
pub proof fn law_commands_have_names(name: Seq<char>)
    ensures
        command_named("model"@) == Some(SlashCommand::Model),
        command_named("provider"@) == Some(SlashCommand::Provider),
        command_named("session"@) == Some(SlashCommand::Session),
        command_named("compact"@) == Some(SlashCommand::Compact),
        command_named("queue"@) == Some(SlashCommand::Queue),
        command_named("clear"@) == Some(SlashCommand::Clear),
        command_named("help"@) == Some(SlashCommand::Help),
        command_named("quit"@) == Some(SlashCommand::Quit),
        all_commands().len() == 8,
        all_commands()[0].command == SlashCommand::Model,
        all_commands()[1].command == SlashCommand::Provider,
        all_commands()[2].command == SlashCommand::Session,
        all_commands()[3].command == SlashCommand::Compact,
        all_commands()[4].command == SlashCommand::Queue,
        all_commands()[5].command == SlashCommand::Clear,
        all_commands()[6].command == SlashCommand::Help,
        all_commands()[7].command == SlashCommand::Quit,
        forall|i: int| 0 <= i < 8 ==> (#[trigger] all_commands()[i]) == info_of(all_commands()[i].command),
        info_of(SlashCommand::Model).name == "model"@,
        info_of(SlashCommand::Provider).name == "provider"@,
        info_of(SlashCommand::Session).name == "session"@,
        info_of(SlashCommand::Compact).name == "compact"@,
        info_of(SlashCommand::Queue).name == "queue"@,
        info_of(SlashCommand::Clear).name == "clear"@,
        info_of(SlashCommand::Help).name == "help"@,
        info_of(SlashCommand::Quit).name == "quit"@,
        info_of(SlashCommand::Model).description == "选择或输入模型"@,
        info_of(SlashCommand::Provider).description == "选择 provider(对话历史保留)"@,
        info_of(SlashCommand::Session).description == "列出或恢复历史会话"@,
        info_of(SlashCommand::Compact).description == "压缩历史(摘要替代模型视图,事实保留)"@,
        info_of(SlashCommand::Queue).description == "排队后续任务(当前任务结束后执行)"@,
        info_of(SlashCommand::Clear).description == "清空会话"@,
        info_of(SlashCommand::Help).description == "显示帮助"@,
        info_of(SlashCommand::Quit).description == "退出"@,
        info_of(SlashCommand::Model).accepts_args && info_of(SlashCommand::Provider).accepts_args
            && info_of(SlashCommand::Session).accepts_args && info_of(SlashCommand::Queue).accepts_args,
        !info_of(SlashCommand::Compact).accepts_args && !info_of(SlashCommand::Clear).accepts_args
            && !info_of(SlashCommand::Help).accepts_args && !info_of(SlashCommand::Quit).accepts_args,
{
    command_names();
}

/// The commands that match stand in their order.
pub proof fn law_matching_commands_keep_their_order(
    a: Seq<CommandInfo>,
    b: Seq<CommandInfo>,
    query: Seq<char>,
)
    ensures
        matching(a + b, query) == matching(a, query) + matching(b, query),
    decreases b.len(),
{
    if b.len() == 0 {
        assert(a + b =~= a);
        assert(matching(a + b, query) =~= matching(a, query) + matching(b, query));
    } else {
        law_matching_commands_keep_their_order(a, b.drop_last(), query);
        assert((a + b).drop_last() =~= a + b.drop_last());
        assert(matching(a + b, query) =~= matching(a, query) + matching(b, query));
    }
}

/// A command matches where its name begins with what is typed.
pub proof fn law_a_command_matches_its_beginning(command: CommandInfo, query: Seq<char>)
    ensures
        begins(command.name, query) ==> matching(seq![command], query) == seq![command],
        !begins(command.name, query) ==> matching(seq![command], query).len() == 0,
{
    assert(seq![command].drop_last() =~= seq![]);
    assert(matching(seq![], query).len() == 0);
    if begins(command.name, query) {
        assert(matching(seq![command], query) =~= seq![command]);
    }
}

/// What a command sends, and what it needs.
pub proof fn law_commands_do_what_they_say(app: AppView, rest: Seq<char>)
    requires
        rest.len() > 0,
    ensures
        ({
            let none: Seq<char> = seq![];
            &&& executed(app, SlashCommand::Clear, rest).out == app.out.push(
                OutView::Command(CommandView::ClearConversation),
            )
            &&& executed(app, SlashCommand::Compact, rest).out == app.out.push(
                OutView::Command(CommandView::Compact),
            )
            &&& executed(app, SlashCommand::Queue, rest).out == app.out.push(
                OutView::Command(CommandView::FollowUp(rest)),
            )
            &&& executed(app, SlashCommand::Queue, rest).cells == app.cells.push(
                CellView::Notice("已排队为后续任务,当前任务结束后执行"@),
            )
            &&& executed(app, SlashCommand::Queue, none).out == app.out
            &&& executed(app, SlashCommand::Queue, none).cells == app.cells.push(
                CellView::Error("/queue 需要内容,例如 /queue 跑一遍测试"@),
            )
            &&& executed(app, SlashCommand::Session, rest).out == app.out.push(
                OutView::Command(CommandView::LoadSession(rest)),
            )
            &&& executed(app, SlashCommand::Session, none).out == app.out.push(
                OutView::Command(CommandView::ListSessions),
            )
            &&& awaits_sessions(executed(app, SlashCommand::Session, none).overlay)
            &&& executed(app, SlashCommand::Session, none).overlay == Some(
                OverlayView::Loading { kind: PickerKind::Session, title: "正在读取会话…"@ },
            )
            &&& executed(app, SlashCommand::Provider, rest).out == app.out.push(
                OutView::Command(CommandView::SwitchProvider(rest)),
            )
            &&& executed(app, SlashCommand::Provider, none).out == app.out
            &&& executed(app, SlashCommand::Provider, none).overlay matches Some(
                OverlayView::Picker { kind, picker },
            ) && kind == PickerKind::Provider && picker.title == "选择 provider"@ && picker.items
                == provider_items(
                app.provider_names,
                provider_in(app.provider_label),
            )
            &&& executed(app, SlashCommand::Model, rest).out == app.out.push(
                OutView::Command(CommandView::SetModel(rest)),
            )
            &&& executed(app, SlashCommand::Model, none).out == app.out
            &&& executed(app, SlashCommand::Model, none).overlay matches Some(
                OverlayView::Picker { kind, picker },
            ) && kind == PickerKind::Model && picker.title == "选择模型"@ && picker.items == model_items(
                app.model_names,
                model_in(app.provider_label),
            )
            &&& executed(app, SlashCommand::Help, rest).out == app.out
            &&& executed(app, SlashCommand::Help, rest).cells == app.cells.push(
                CellView::Notice(
                    "斜杠命令\n  /model             选择或输入模型\n  /provider          选择 provider(对话历史保留)\n  /session [ID]      列出或恢复历史会话\n  /compact           压缩历史(摘要替代模型视图,事实保留)\n  /queue <内容>      排队后续任务(当前任务结束后执行)\n  /clear             清空会话\n  /quit              退出\n\n运行中输入并回车 = steering:在当前一批工具完成后注入,修正方向;Esc 取消当前轮\n编辑: Ctrl+A/E 行首/行尾 · Ctrl+W 删前一词 · Ctrl+K 删到行尾 · Alt+←/→ 按词移动\n操作: ↑/↓ 浏览候选或历史 · Tab 补全 · Esc 关闭/取消 · 滚轮浏览终端历史 · 鼠标拖动选择文本"@,
                ),
            )
            &&& executed(app, SlashCommand::Quit, rest).should_quit
            &&& executed(app, SlashCommand::Quit, rest).out == app.out.push(OutView::Cancel).push(
                OutView::Command(CommandView::Shutdown),
            )
        }),
{
}

/// A line behind a slash is a command and what stands behind it; a command that there is not is
/// complained about.
pub proof fn law_slash_lines_are_commands(app: AppView, head: Seq<char>, rest: Seq<char>)
    requires
        forall|i: int| 0 <= i < head.len() ==> !is_white(#[trigger] head[i]),
    ensures
        command_named(head) matches Some(command) ==> slash_handled(app, head + seq![' '] + rest)
            == executed(app, command, trimmed(rest)) && slash_handled(app, head) == executed(
            app,
            command,
            seq![],
        ),
        command_named(head) is None ==> slash_handled(app, head).out == app.out && slash_handled(
            app,
            head,
        ).cells == app.cells.push(CellView::Error("未知命令 /"@ + head + ",输入 / 查看可用命令"@)),
{
    let line = head + seq![' '] + rest;
    white_comes_first(line, 0, head.len() as int);
    white_comes_first(head, 0, head.len() as int);
    assert(line.take(head.len() as int) =~= head);
    assert(line.skip(head.len() as int + 1) =~= rest);
    assert(head.take(head.len() as int) =~= head);
}

proof fn white_comes_first(text: Seq<char>, i: int, end: int)
    requires
        0 <= i <= end <= text.len(),
        forall|k: int| i <= k < end ==> !is_white(#[trigger] text[k]),
        end == text.len() || is_white(text[end]),
    ensures
        first_white(text, i) == end,
    decreases end - i,
{
    if i < end {
        white_comes_first(text, i + 1, end);
    }
}

/// What is typed is sent when it is entered: to a run that is under way as a correction, otherwise as
/// a prompt. It is remembered, and the line is empty again. Nothing is sent of a blank line.
pub proof fn law_what_is_typed_is_sent(app: AppView)
    ensures
        ({
            let text = trimmed(app.input.text);
            let after = submitted(app);
            &&& text.len() == 0 ==> after.out == app.out && after.cells == app.cells && after.history
                == app.history
            &&& text.len() > 0 && text[0] != '/' && !app.busy ==> after.out == app.out.push(
                OutView::Command(CommandView::UserInput(text)),
            ) && after.history == app.history.push(text) && after.scroll_up == 0 && after.cells
                == app.cells
            &&& text.len() > 0 && text[0] != '/' && app.busy ==> after.out == app.out.push(
                OutView::Command(CommandView::Steer(text)),
            ) && after.history == app.history.push(text) && after.cells == app.cells.push(
                CellView::Notice(
                    "已排队为 steering,将在当前一批工具完成后注入(Esc 取消本轮)"@,
                ),
            )
            &&& text.len() > 0 && text[0] == '/' ==> after == slash_handled(
                AppView { input: no_input(), ..app },
                trimmed(text.skip(1)),
            )
            &&& text.len() == 0 || text[0] != '/' ==> after.input == no_input()
        }),
{
}

/// Enter runs the command that is chosen, breaks the line where a key is held, where the line ends with
/// a backslash, or where more follows at once, and sends otherwise.
pub proof fn law_enter_sends_or_breaks(app: AppView, held: Held, pasting: bool)
    ensures
        slash_list(app).len() > 0 ==> entered(app, held, pasting) == slash_run(app),
        slash_list(app).len() == 0 && (held.shift || held.alt || held.control) ==> entered(
            app,
            held,
            pasting,
        ).input == typed(app.input, '\n'),
        slash_list(app).len() == 0 && !held.shift && !held.alt && !held.control && continues(app.input)
            ==> entered(app, held, pasting).input == typed(erased(app.input), '\n'),
        slash_list(app).len() == 0 && !held.shift && !held.alt && !held.control && !continues(app.input)
            && pasting ==> entered(app, held, pasting).input == typed(app.input, '\n'),
        slash_list(app).len() == 0 && !held.shift && !held.alt && !held.control && !continues(app.input)
            && !pasting ==> entered(app, held, pasting) == submitted(app),
{
}

/// Earlier prompts come back one by one, the last one first, and what was typed is kept meanwhile.
pub proof fn law_history_goes_back_and_forth(app: AppView)
    requires
        app.history.len() <= usize::MAX,
    ensures
        app.history.len() == 0 ==> earlier(app) == app,
        app.history.len() > 0 && app.history_idx is None ==> earlier(app).input == input_of(
            app.history.last(),
        ) && earlier(app).history_draft == app.input.text && earlier(app).history_idx == Some(
            (app.history.len() - 1) as usize,
        ),
        app.history_idx matches Some(i) ==> (0 < i < app.history.len() ==> earlier(app).input == input_of(
            app.history[i - 1],
        ) && earlier(app).history_draft == app.history_draft),
        app.history_idx is None ==> later(app) == app,
        app.history_idx matches Some(i) ==> (i + 1 < app.history.len() ==> later(app).input == input_of(
            app.history[i + 1],
        )),
        app.history_idx matches Some(i) ==> (i + 1 >= app.history.len() ==> later(app).input == input_of(
            app.history_draft,
        ) && later(app).history_idx is None),
{
}

// ---- Keys ----

/// What the keys that edit do to a line.
pub proof fn law_editing_keys(s: InputState, c: char, held: Held)
    ensures
        edited(s, Key::Backspace, held) == Some(erased(s)),
        edited(s, Key::Delete, held) == Some(deleted(s)),
        !held.alt && !held.control ==> edited(s, Key::Left, held) == Some(left_of(s)) && edited(
            s,
            Key::Right,
            held,
        ) == Some(right_of(s)),
        held.alt || held.control ==> edited(s, Key::Left, held) == Some(
            InputState { text: s.text, cursor: word_left(s.text, s.cursor) },
        ) && edited(s, Key::Right, held) == Some(
            InputState { text: s.text, cursor: word_right(s.text, s.cursor) },
        ),
        edited(s, Key::Home, held) == Some(
            InputState { text: s.text, cursor: line_start(s.text, s.cursor) },
        ),
        edited(s, Key::End, held) == Some(
            InputState { text: s.text, cursor: line_end(s.text, s.cursor) },
        ),
        !held.control ==> edited(s, Key::Char(c), held) == Some(typed(s, c)),
        held.control ==> edited(s, Key::Char('a'), held) == Some(
            InputState { text: s.text, cursor: 0 },
        ) && edited(s, Key::Char('e'), held) == Some(input_of(s.text)) && edited(
            s,
            Key::Char('w'),
            held,
        ) == Some(without_word(s)) && edited(s, Key::Char('u'), held) == Some(no_input()),
        edited(s, Key::Enter, held) is None,
        edited(s, Key::Esc, held) is None,
{
}

/// What the keys do where nothing lies over the input and no command is being typed.
pub proof fn law_keys_of_the_input(app: AppView, c: char, held: Held, pasting: bool, now: Duration)
    requires
        app.overlay is None,
        slash_list(app).len() == 0,
    ensures
        !held.control ==> key_taken(app, Key::Char(c), held, pasting, now).input == typed(app.input, c),
        held.control ==> {
            &&& key_taken(app, Key::Char('l'), held, pasting, now).force_clear
            &&& key_taken(app, Key::Char('a'), held, pasting, now).input == at_place(app.input, 0)
            &&& key_taken(app, Key::Char('e'), held, pasting, now).input == input_of(app.input.text)
            &&& key_taken(app, Key::Char('w'), held, pasting, now).input == without_word(app.input)
            &&& key_taken(app, Key::Char('k'), held, pasting, now).input == without_line_rest(app.input)
            &&& key_taken(app, Key::Char('u'), held, pasting, now).input == no_input()
        },
        key_taken(app, Key::Tab, held, pasting, now).input == pasted(app.input, "    "@),
        key_taken(app, Key::BackTab, held, pasting, now) == app,
        key_taken(app, Key::Enter, held, pasting, now) == entered(app, held, pasting),
        key_taken(app, Key::Backspace, held, pasting, now).input == erased(app.input),
        key_taken(app, Key::Delete, held, pasting, now).input == deleted(app.input),
        app.input.text.contains('\n') ==> key_taken(app, Key::Up, held, pasting, now).input == at_place(
            app.input,
            vertical(app.input, true),
        ) && key_taken(app, Key::Down, held, pasting, now).input == at_place(
            app.input,
            vertical(app.input, false),
        ),
        !app.input.text.contains('\n') ==> key_taken(app, Key::Up, held, pasting, now) == earlier(app)
            && key_taken(app, Key::Down, held, pasting, now) == later(app),
        key_taken(app, Key::Esc, held, pasting, now) == escaped(app),
        ({
            let half = app.last_transcript_height as int / 2;
            &&& app.scroll_up + half <= usize::MAX ==> key_taken(
                app,
                Key::PageUp,
                held,
                pasting,
                now,
            ).scroll_up == app.scroll_up + half
            &&& app.scroll_up >= half ==> key_taken(app, Key::PageDown, held, pasting, now).scroll_up
                == app.scroll_up - half
            &&& app.scroll_up < half ==> key_taken(app, Key::PageDown, held, pasting, now).scroll_up
                == 0
        }),
{
}

/// Where commands are offered, the keys that move choose among them.
pub proof fn law_keys_of_the_commands(app: AppView, held: Held, pasting: bool, now: Duration)
    requires
        app.overlay is None,
        slash_list(app).len() > 0,
    ensures
        key_taken(app, Key::Up, held, pasting, now) == slash_moved(app, false),
        key_taken(app, Key::BackTab, held, pasting, now) == slash_moved(app, false),
        key_taken(app, Key::Down, held, pasting, now) == slash_moved(app, true),
        key_taken(app, Key::Tab, held, pasting, now) == slash_completed(app),
        key_taken(app, Key::Enter, held, pasting, now) == slash_run(app),
        key_taken(app, Key::Esc, held, pasting, now).slash_dismissed == Some(app.input.text),
        slash_moved(app, true).slash_selected == stepped(
            app.slash_selected,
            slash_list(app).len(),
            true,
        ),
        slash_moved(app, false).slash_selected == stepped(
            app.slash_selected,
            slash_list(app).len(),
            false,
        ),
{
}

/// Escape sends the list of commands away, else cancels what is under way, else goes back to the end
/// of what is shown, else empties the line.
pub proof fn law_escape_goes_step_by_step(app: AppView)
    ensures
        slash_list(app).len() > 0 ==> escaped(app) == (AppView {
            slash_dismissed: Some(app.input.text),
            ..app
        }),
        slash_list(app).len() == 0 && app.busy ==> escaped(app).out == app.out.push(OutView::Cancel)
            && escaped(app).status_note == "取消中…"@,
        slash_list(app).len() == 0 && !app.busy && app.scroll_up > 0 ==> escaped(app) == (AppView {
            scroll_up: 0,
            ..app
        }),
        slash_list(app).len() == 0 && !app.busy && app.scroll_up == 0 ==> escaped(app).input
            == no_input() && escaped(app).out == app.out,
{
}

/// Commands are offered while the first line is the beginning of one: a slash and no white space, with
/// the cursor in it, unless they were sent away for this very text.
pub proof fn law_commands_are_offered(app: AppView)
    ensures
        app.input.text.len() == 0 || app.input.text[0] != '/' ==> slash_query(app) is None,
        app.slash_dismissed == Some(app.input.text) ==> slash_query(app) is None,
        slash_query(app) is None ==> slash_list(app).len() == 0,
        slash_query(app) matches Some(query) ==> {
            let first = app.input.text.take(line_end(app.input.text, 0));
            &&& first == seq!['/'] + query
            &&& app.input.cursor <= first.len()
            &&& forall|i: int| 0 <= i < first.len() ==> !is_white(#[trigger] first[i])
            &&& slash_list(app) == matching(all_commands(), query)
        },
        slash_list(app).len() == 0 ==> slash_chosen(app) is None,
        0 < slash_list(app).len() && app.slash_selected < slash_list(app).len() ==> slash_chosen(app)
            == Some(slash_list(app)[app.slash_selected as int]),
        0 < slash_list(app).len() && app.slash_selected >= slash_list(app).len() ==> slash_chosen(app)
            == Some(slash_list(app).last()),
{
    if slash_query(app) is Some {
        let text = app.input.text;
        line_stops(text, 0);
        let first = text.take(line_end(text, 0));
        assert(text[0] == '/');
        assert(line_end(text, 0) > 0);
        assert(first =~= seq!['/'] + first.skip(1));
    }
}

/// A command that is completed stands in the line with a slash before it, and with a space behind it
/// where something may follow. One that is run takes the line away.
pub proof fn law_commands_are_completed(app: AppView, info: CommandInfo)
    requires
        slash_chosen(app) == Some(info),
    ensures
        info.accepts_args ==> slash_completed(app).input == input_of("/"@ + info.name + " "@),
        !info.accepts_args ==> slash_completed(app).input == input_of("/"@ + info.name + ""@),
        slash_completed(app).slash_selected == 0,
        info.accepts_args ==> slash_completed(app).slash_dismissed == Some("/"@ + info.name + " "@),
        !info.accepts_args ==> slash_completed(app).slash_dismissed is None,
        slash_completed(app) == (AppView {
            input: slash_completed(app).input,
            slash_selected: slash_completed(app).slash_selected,
            slash_dismissed: slash_completed(app).slash_dismissed,
            ..app
        }),
        slash_run(app) == executed(
            AppView { input: no_input(), slash_dismissed: None, ..app },
            info.command,
            seq![],
        ),
{
}

/// An approval is given, once or for the session, or refused, by these keys.
pub proof fn law_approvals_by_key(app: AppView, request: ApprovalView, held: Held)
    requires
        request.scopes.contains(ApprovalScope::Once),
        request.scopes.contains(ApprovalScope::Session),
    ensures
        ({
            let once = OutView::Approval(
                ResponseView {
                    request_id: request.request_id,
                    decision: ApprovalDecision::Allow(ApprovalScope::Once),
                },
            );
            let always = OutView::Approval(
                ResponseView {
                    request_id: request.request_id,
                    decision: ApprovalDecision::Allow(ApprovalScope::Session),
                },
            );
            let never = OutView::Approval(
                ResponseView { request_id: request.request_id, decision: ApprovalDecision::Deny },
            );
            &&& approval_key(app, request, Key::Enter, held).out == app.out.push(once)
            &&& approval_key(app, request, Key::Char('y'), held).out == app.out.push(once)
            &&& approval_key(app, request, Key::Char('a'), held).out == app.out.push(always)
            &&& approval_key(app, request, Key::Char('n'), held).out == app.out.push(never)
            &&& approval_key(app, request, Key::Esc, held).out == app.out.push(never)
            &&& approval_key(app, request, Key::Char('x'), held) == app
        }),
{
}

/// What the keys do to a list that is open.
pub proof fn law_keys_of_a_list(
    app: AppView,
    kind: PickerKind,
    picker: PickerState,
    c: char,
    held: Held,
)
    ensures
        picker_key(app, kind, picker, Key::Esc, held).overlay is None,
        picker_key(app, kind, picker, Key::Up, held).overlay == Some(
            OverlayView::Picker { kind, picker: moved(picker, false) },
        ),
        picker_key(app, kind, picker, Key::Down, held).overlay == Some(
            OverlayView::Picker { kind, picker: moved(picker, true) },
        ),
        picker_key(app, kind, picker, Key::Tab, held).overlay == Some(
            OverlayView::Picker { kind, picker: moved(picker, true) },
        ),
        picker_key(app, kind, picker, Key::BackTab, held).overlay == Some(
            OverlayView::Picker { kind, picker: moved(picker, false) },
        ),
        picker_key(app, kind, picker, Key::Backspace, held).overlay == Some(
            OverlayView::Picker { kind, picker: widened(picker) },
        ),
        !held.control ==> picker_key(app, kind, picker, Key::Char(c), held).overlay == Some(
            OverlayView::Picker { kind, picker: narrowed(picker, c) },
        ),
        picker_key(app, kind, picker, Key::Enter, held) == accepted(app, kind, picker),
        chosen(picker) is None ==> accepted(app, kind, picker) == app,
        chosen(picker) matches Some(item) ==> (item.value matches Some(value) ==> {
            &&& accepted(app, PickerKind::Provider, picker).out == app.out.push(
                OutView::Command(CommandView::SwitchProvider(value)),
            )
            &&& accepted(app, PickerKind::Model, picker).out == app.out.push(
                OutView::Command(CommandView::SetModel(value)),
            )
            &&& accepted(app, PickerKind::Session, picker).out == app.out.push(
                OutView::Command(CommandView::LoadSession(value)),
            )
            &&& accepted(app, kind, picker).overlay is None
        }),
        chosen(picker) matches Some(item) ==> (item.value is None ==> accepted(
            app,
            PickerKind::Model,
            picker,
        ).overlay == Some(OverlayView::ModelInput(no_input())) && accepted(
            app,
            PickerKind::Model,
            picker,
        ).out == app.out),
{
}

/// A model's name that is typed is sent when it is entered, where it says something.
pub proof fn law_models_are_typed(app: AppView, input: InputState, held: Held, c: char)
    ensures
        model_key(app, input, Key::Esc, held).overlay is None,
        trimmed(input.text).len() > 0 ==> model_key(app, input, Key::Enter, held).out == app.out.push(
            OutView::Command(CommandView::SetModel(trimmed(input.text))),
        ) && model_key(app, input, Key::Enter, held).overlay is None,
        trimmed(input.text).len() == 0 ==> model_key(app, input, Key::Enter, held).out == app.out
            && model_key(app, input, Key::Enter, held).overlay == Some(
            OverlayView::ModelInput(no_input()),
        ),
        !held.control ==> model_key(app, input, Key::Char(c), held).overlay == Some(
            OverlayView::ModelInput(typed(input, c)),
        ),
{
}

/// A text that is pasted goes where one would be typed.
pub proof fn law_pasting_goes_where_typing_goes(
    app: AppView,
    text: Seq<char>,
    p: PickerState,
    c: char,
)
    ensures
        app.overlay is None ==> paste_taken(app, text).input == pasted(app.input, text),
        app.overlay matches Some(OverlayView::ModelInput(input)) ==> paste_taken(app, text).overlay
            == Some(OverlayView::ModelInput(pasted(input, text))) && paste_taken(app, text).input
            == app.input,
        app.overlay matches Some(OverlayView::Picker { kind, picker }) ==> paste_taken(app, text).overlay
            == Some(OverlayView::Picker { kind, picker: narrowed_by(picker, text) }),
        app.overlay matches Some(OverlayView::Approval(_)) ==> paste_taken(app, text) == app,
        narrowed_by(p, seq![]) == p,
        narrowed_by(p, text.push(c)) == narrowed(narrowed_by(p, text), c),
        writes(Pending::Paste),
        writes(Pending::Press(Key::Char(c))),
        writes(Pending::Press(Key::Enter)),
        writes(Pending::Press(Key::Tab)),
        !writes(Pending::Press(Key::Esc)),
        !writes(Pending::Noise),
        more_follows(seq![Pending::Paste]),
        !more_follows(seq![]),
{
    assert(text.push(c).drop_last() =~= text);
    assert(writes(seq![Pending::Paste][0]));
}

// ---- Lists ----

/// The items that pass the filter are offered in their order. Case makes no difference, and a filter
/// may stand anywhere in the label or in the description.
pub proof fn law_items_are_filtered(items: Seq<ItemInfo>, item: ItemInfo, filter: Seq<char>)
    ensures
        offered(seq![], filter).len() == 0,
        filter.len() == 0 || holds_part(lower(item.label), lower(filter)) || holds_part(
            lower(item.description),
            lower(filter),
        ) ==> offered(items.push(item), filter) == offered(items, filter).push(item),
        filter.len() > 0 && !holds_part(lower(item.label), lower(filter)) && !holds_part(
            lower(item.description),
            lower(filter),
        ) ==> offered(items.push(item), filter) == offered(items, filter),
{
    assert(items.push(item).drop_last() =~= items);
}

/// A list opens with the first current item chosen, or with the first of all; a filter begins again at
/// the first.
pub proof fn law_lists_open_at_the_current_item(
    title: Seq<char>,
    items: Seq<ItemInfo>,
    p: PickerState,
    c: char,
)
    ensures
        opened(title, items).title == title,
        opened(title, items).items == items,
        opened(title, items).filter.len() == 0,
        current_place(items) is None ==> opened(title, items).selected == 0 && forall|i: int|
            0 <= i < items.len() ==> !(#[trigger] items[i]).current,
        current_place(items) matches Some(k) ==> 0 <= k < items.len() && items[k].current && forall|i: int|
            0 <= i < k ==> !(#[trigger] items[i]).current,
        current_place(items) matches Some(k) ==> (k <= usize::MAX ==> opened(title, items).selected == k),
        narrowed(p, c).filter == p.filter.push(c),
        narrowed(p, c).selected == 0,
        widened(narrowed(p, c)).filter == p.filter,
        widened(p).selected == 0,
        narrowed(p, c).items == p.items,
    decreases items.len(),
{
    assert(p.filter.push(c).drop_last() =~= p.filter);
    if items.len() > 0 {
        let rest = items.drop_last();
        law_lists_open_at_the_current_item(title, rest, p, c);
        match current_place(rest) {
            Some(k) => {
                assert(rest[k] == items[k]);
                assert forall|i: int| 0 <= i < k implies !(#[trigger] items[i]).current by {
                    assert(rest[i] == items[i]);
                }
            },
            None => {
                assert forall|i: int| 0 <= i < rest.len() implies !(#[trigger] items[i]).current by {
                    assert(rest[i] == items[i]);
                }
            },
        }
    }
}

/// The choice goes round: behind the last item comes the first, and before the first the last.
pub proof fn law_choices_go_round(selected: usize, n: nat, p: PickerState)
    requires
        0 < n <= usize::MAX,
        selected < n,
    ensures
        selected + 1 < n ==> stepped(selected, n, true) == selected + 1,
        selected + 1 == n ==> stepped(selected, n, true) == 0,
        selected > 0 ==> stepped(selected, n, false) == selected - 1,
        selected == 0 ==> stepped(selected, n, false) == n - 1,
        stepped(stepped(selected, n, true), n, false) == selected,
        p.selected < offered(p.items, p.filter).len() ==> chosen(p) == Some(
            offered(p.items, p.filter)[p.selected as int],
        ),
        p.selected >= offered(p.items, p.filter).len() ==> chosen(p) is None,
{
}

/// Providers and models are offered by their names, the current one marked; a model that is in use is
/// always offered, and one can be typed.
pub proof fn law_providers_and_models_are_offered(
    names: Seq<Seq<char>>,
    name: Seq<char>,
    current: Seq<char>,
)
    ensures
        provider_item(name, current).label == name,
        provider_item(name, current).value == Some(name),
        provider_item(name, current).current <==> name == current,
        provider_item(name, name).description == "当前 provider"@,
        name != current ==> provider_item(name, current).description == "config.toml 中的 profile"@,
        provider_items(names, current).len() == names.len(),
        model_item(name, current).label == name,
        model_item(name, current).value == Some(name),
        model_item(name, current).current <==> name == current,
        model_item(name, name).description == "当前模型"@,
        name != current ==> model_item(name, current).description == "来自 config.toml"@,
        model_items(names, current).last().value is None,
        model_items(names, current).last().label == "自定义模型…"@,
        model_items(names, current).last().description == "输入服务端支持的模型名称"@,
        !model_items(names, current).last().current,
        names.contains(current) || current.len() == 0 ==> offered_models(names, current) == names,
        !names.contains(current) && current.len() > 0 ==> offered_models(names, current) == seq![current]
            + names,
        model_items(names, current).len() == offered_models(names, current).len() + 1,
        forall|i: int|
            0 <= i < names.len() ==> (#[trigger] provider_items(names, current)[i]) == provider_item(
                names[i],
                current,
            ),
        forall|i: int|
            0 <= i < offered_models(names, current).len() ==> (#[trigger] model_items(names, current)[i])
                == model_item(offered_models(names, current)[i], current),
{
}

/// A label is the provider, a slash between spaces, and the model.
pub proof fn law_labels_name_provider_and_model(provider: Seq<char>, model: Seq<char>)
    requires
        !provider.contains('/'),
        !model.contains('/'),
    ensures
        provider_in(provider + " / "@ + model) == provider,
        model_in(provider + " / "@ + model) == model,
        provider_in(model) == model,
        model_in(model).len() == 0,
{
    reveal_strlit(" / ");
    let label = provider + " / "@ + model;
    let n = provider.len() as int;
    assert(label.subrange(n, n + 3) =~= " / "@);
    assert forall|i: int| 0 <= i < n implies !#[trigger] stands_at(label, " / "@, i) by {
        if stands_at(label, " / "@, i) {
            assert(label.subrange(i, i + 3)[1] == '/');
            assert(label[i + 1] == '/');
            if i + 1 < n {
                assert(provider[i + 1] == '/');
            } else {
                assert(label[n] == ' ');
            }
        }
    }
    place_is_found(label, " / "@, 0, n);
    assert(label.take(n) =~= provider);
    assert(label.skip(n + 3) =~= model);
    assert forall|i: int| 0 <= i <= model.len() implies !#[trigger] stands_at(model, " / "@, i) by {
        if stands_at(model, " / "@, i) {
            assert(model.subrange(i, i + 3)[1] == '/');
            assert(model[i + 1] == '/');
        }
    }
    no_place_is_found(model, " / "@, 0);
}

proof fn place_is_found(text: Seq<char>, part: Seq<char>, i: int, at: int)
    requires
        0 <= i <= at,
        part.len() > 0,
        stands_at(text, part, at),
        forall|k: int| i <= k < at ==> !#[trigger] stands_at(text, part, k),
    ensures
        first_from(text, part, i) == Some(at),
    decreases at - i,
{
    if i < at {
        assert(!stands_at(text, part, i));
        place_is_found(text, part, i + 1, at);
    }
}

proof fn no_place_is_found(text: Seq<char>, part: Seq<char>, i: int)
    requires
        0 <= i <= text.len(),
        forall|k: int| i <= k <= text.len() ==> !#[trigger] stands_at(text, part, k),
    ensures
        first_from(text, part, i) is None,
    decreases text.len() - i,
{
    assert(!stands_at(text, part, i));
    if i < text.len() {
        no_place_is_found(text, part, i + 1);
    }
}

// ---- Events ----

/// What each event shows.
pub proof fn law_events_are_shown(app: AppView, text: Seq<char>)
    ensures
        event_shown(app, AgentEventView::UserMessage(text)).cells == app.cells.push(CellView::User(text)),
        event_shown(app, AgentEventView::Notice(text)).cells == app.cells.push(CellView::Notice(text)),
        event_shown(app, AgentEventView::Error(text)).cells == app.cells.push(CellView::Error(text)),
        event_shown(app, AgentEventView::AssistantDelta(text)).cells == answer_grown(app.cells, text),
        event_shown(app, AgentEventView::ThinkingDelta(text)).cells == thought_grown(app.cells, text),
        event_shown(app, AgentEventView::AssistantMessage(text)).cells == answer_ended(app.cells, text),
        event_shown(app, AgentEventView::TurnStarted).busy,
        event_shown(app, AgentEventView::TurnStarted).status_note == "思考中"@,
        event_shown(app, AgentEventView::TurnStarted).cells == app.cells,
        !event_shown(app, AgentEventView::TurnFinished { cancelled: true }).busy,
        !event_shown(app, AgentEventView::TurnFinished { cancelled: false }).busy,
        event_shown(app, AgentEventView::TurnFinished { cancelled: false }).cells == all_closed(app.cells),
        event_shown(app, AgentEventView::TurnFinished { cancelled: true }).cells == all_closed(
            app.cells,
        ).push(CellView::Notice("已取消"@)),
        event_shown(app, AgentEventView::ToolCallPending { name: text }).status_note == "正在生成 "@ + text
            + " 的参数"@,
        event_shown(app, AgentEventView::ConversationCleared).cells == seq![
            CellView::Notice("会话已清空"@),
        ],
        event_shown(app, AgentEventView::ConversationCleared).usage == (0u64, 0u64),
        event_shown(app, AgentEventView::ProviderChanged { label: text }).provider_label == text,
{
}

/// What events about calls and approvals show.
pub proof fn law_calls_and_approvals_are_shown(
    app: AppView,
    id: Seq<char>,
    name: Seq<char>,
    summary: Seq<char>,
    output: OutputView,
    error: Option<crate::tools::ErrorView>,
    request: ApprovalView,
    input_tokens: u64,
    output_tokens: u64,
)
    ensures
        event_shown(app, AgentEventView::ToolCallStarted { id, name, summary }).cells == call_begun(
            app.cells,
            id,
            name,
            summary,
        ),
        event_shown(app, AgentEventView::ToolCallStarted { id, name, summary }).status_note == "执行 "@
            + name,
        output.ui_summary matches Some(text) ==> ui_of(output) == text,
        output.ui_summary is None ==> ui_of(output) == output.model_text,
        event_shown(app, AgentEventView::ToolCallUpdated { id, name, output }).status_note
            == "工具进度: "@ + ui_of(output),
        error is Some ==> event_shown(
            app,
            AgentEventView::ToolCallFinished { id, name, output, error },
        ).cells == call_ended(app.cells, id, ui_of(output), true),
        error is None ==> event_shown(
            app,
            AgentEventView::ToolCallFinished { id, name, output, error },
        ).cells == call_ended(app.cells, id, ui_of(output), false),
        event_shown(app, AgentEventView::PermissionRequested { request }).overlay == Some(
            OverlayView::Approval(request),
        ),
        event_shown(app, AgentEventView::PermissionRequested { request }).status_note == "等待审批: "@
            + request.tool,
        app.overlay == Some(OverlayView::Approval(request)) ==> event_shown(
            app,
            AgentEventView::PermissionResolved { request_id: request.request_id, allowed: true },
        ).overlay is None,
        app.overlay == Some(OverlayView::Approval(request)) && request.request_id != id ==> event_shown(
            app,
            AgentEventView::PermissionResolved { request_id: id, allowed: true },
        ).overlay == app.overlay,
        event_shown(app, AgentEventView::PermissionResolved { request_id: id, allowed: true }).status_note
            == "审批通过，正在执行"@,
        event_shown(app, AgentEventView::PermissionResolved { request_id: id, allowed: false }).status_note
            == "审批未通过"@,
        event_shown(
            app,
            AgentEventView::Usage { input_tokens, output_tokens, cache: None },
        ).usage == (input_tokens, output_tokens),
{
}

/// Sessions are offered where they are waited for; one that is loaded is shown as a whole.
pub proof fn law_sessions_are_shown(
    app: AppView,
    id: Seq<char>,
    sessions: Seq<SummaryView>,
    entries: Seq<EntryView>,
    input_tokens: u64,
    output_tokens: u64,
)
    ensures
        awaits_sessions(app.overlay) ==> (event_shown(
            app,
            AgentEventView::SessionsListed { current_id: id, sessions },
        ).overlay matches Some(OverlayView::Picker { kind, picker }) && kind == PickerKind::Session
            && picker == opened("恢复会话"@, session_items(id, sessions))),
        !awaits_sessions(app.overlay) ==> event_shown(
            app,
            AgentEventView::SessionsListed { current_id: id, sessions },
        ) == app,
        ({
            let after = event_shown(
                app,
                AgentEventView::SessionLoaded {
                    id,
                    entries,
                    input_tokens,
                    output_tokens,
                    cache: None,
                },
            );
            &&& after.session_id == id
            &&& after.usage == (input_tokens, output_tokens)
            &&& after.scroll_up == 0
            &&& after.cells == session_cells(entries).push(
                CellView::Notice(
                    "已恢复会话 "@ + short_of(id, 0) + "("@ + dec(messages_in(payloads_of(entries)))
                        + " 条历史消息,"@ + dec(entries.len()) + " 条事实)"@,
                ),
            )
        }),
        session_items(id, sessions).len() == sessions.len(),
        forall|i: int|
            0 <= i < sessions.len() ==> (#[trigger] session_items(id, sessions)[i]) == session_item(
                id,
                sessions[i],
            ),
{
}

/// A session is offered by its title, or by its id where it has none, with its number of messages.
pub proof fn law_sessions_are_offered(id: Seq<char>, session: SummaryView)
    ensures
        session_item(id, session).value == Some(session.id),
        session_item(id, session).current <==> session.id == id,
        session.title.len() > 0 ==> session_item(id, session).label == session.title,
        session.title.len() == 0 ==> session_item(id, session).label == "会话 "@ + short_of(session.id, 0),
        session.id == id ==> session_item(id, session).description == dec(session.message_count as nat)
            + " 条消息 · "@ + short_of(session.id, 0) + " · 当前"@,
        session.id != id ==> session_item(id, session).description == dec(session.message_count as nat)
            + " 条消息 · "@ + short_of(session.id, 0) + ""@,
{
}

/// The facts of a session are shown in their order: what the user said, what the assistant answered,
/// and a note for what changed.
pub proof fn law_facts_are_shown(
    facts: Seq<PayloadView>,
    fact: PayloadView,
    log: Seq<BlockView>,
    entries: Seq<EntryView>,
)
    ensures
        facts_cells(seq![], log).len() == 0,
        facts_cells(facts.push(fact), log) == fact_cells(facts_cells(facts, log), fact, log),
        session_cells(entries) == facts_cells(payloads_of(entries), batch_blocks(payloads_of(entries))),
        messages_in(seq![]) == 0,
        fact is Message ==> messages_in(facts.push(fact)) == messages_in(facts) + 1,
        !(fact is Message) ==> messages_in(facts.push(fact)) == messages_in(facts),
        ({
            let cells = facts_cells(facts, log);
            &&& fact matches PayloadView::Notice { text, .. } ==> fact_cells(cells, fact, log)
                == cells.push(CellView::Notice(text))
            &&& fact matches PayloadView::Compaction { tokens_before, .. } ==> fact_cells(
                cells,
                fact,
                log,
            ) == cells.push(
                CellView::Notice(
                    "—— 历史已压缩(压缩前约 "@ + dec(tokens_before as nat)
                        + " tokens);此后模型视图从摘要开始 ——"@,
                ),
            )
            &&& fact matches PayloadView::ModelChange { provider, .. } ==> fact_cells(cells, fact, log)
                == cells.push(CellView::Notice("模型切换: "@ + provider))
            &&& fact is Artifact || fact is PlanUpdated || fact is PlanReminder ==> fact_cells(
                cells,
                fact,
                log,
            ) == cells
            &&& fact matches PayloadView::Message { message, .. } ==> {
                &&& message.role == Role::User ==> fact_cells(cells, fact, log) == user_cells(
                    cells,
                    message.blocks,
                )
                &&& message.role == Role::Assistant ==> fact_cells(cells, fact, log) == all_closed(
                    answer_cells(cells, message.blocks, log),
                )
            }
        }),
{
    assert(facts.push(fact).drop_last() =~= facts);
}

/// The blocks of a message are shown in their order; a call is shown with the last result that there is
/// for it.
pub proof fn law_blocks_are_shown(
    cells: Seq<CellView>,
    blocks: Seq<BlockView>,
    block: BlockView,
    log: Seq<BlockView>,
)
    ensures
        user_cells(cells, seq![]) == cells,
        block matches BlockView::Text(text) ==> user_cells(cells, blocks.push(block)) == user_cells(
            cells,
            blocks,
        ).push(CellView::User(text)),
        !(block is Text) ==> user_cells(cells, blocks.push(block)) == user_cells(cells, blocks),
        answer_cells(cells, seq![], log) == cells,
        ({
            let before = answer_cells(cells, blocks, log);
            let after = answer_cells(cells, blocks.push(block), log);
            &&& block matches BlockView::Text(text) ==> after == answer_grown(before, text)
            &&& block matches BlockView::Thinking { text, .. } ==> {
                &&& text.len() > 0 ==> after == thought_grown(before, text)
                &&& text.len() == 0 ==> after == before
            }
            &&& block matches BlockView::ToolUse { id, name, input } ==> {
                let begun = call_begun(before, id, name, summary_of(input));
                &&& last_result(log, id) is None ==> after == begun
                &&& last_result(log, id) matches Some((content, is_error)) ==> after == call_ended(
                    begun,
                    id,
                    middle_cut(content, 4000),
                    is_error,
                )
            }
            &&& block is ToolResult ==> after == before
        }),
{
    assert(blocks.push(block).drop_last() =~= blocks);
}

/// Of several results to a call the last one counts.
pub proof fn law_the_last_result_counts(
    blocks: Seq<BlockView>,
    id: Seq<char>,
    other: Seq<char>,
    content: Seq<char>,
    is_error: bool,
)
    ensures
        last_result(seq![], id) is None,
        ({
            let result = BlockView::ToolResult { tool_use_id: other, content, is_error };
            &&& other == id ==> last_result(blocks.push(result), id) == Some((content, is_error))
            &&& other != id ==> last_result(blocks.push(result), id) == last_result(blocks, id)
            &&& last_result(blocks.push(BlockView::Text(content)), id) == last_result(blocks, id)
        }),
{
    assert(blocks.push(BlockView::ToolResult { tool_use_id: other, content, is_error }).drop_last()
        =~= blocks);
    assert(blocks.push(BlockView::Text(content)).drop_last() =~= blocks);
}

/// An id is shown by its first eight bytes where they end with a character, and as a whole otherwise.
pub proof fn law_ids_are_shortened(id: Seq<char>, n: int)
    requires
        0 <= n <= id.len(),
    ensures
        bytes_in(id.take(n)) == 8 ==> short_of(id, n) == id.take(n),
        bytes_in(id.take(n)) > 8 ==> short_of(id, n) == id,
        bytes_in(id.take(n)) < 8 ==> short_of(id, n) == short_of(id, n + 1),
        short_of(id, id.len() as int + 1) == id,
        bytes_in(seq![]) == 0,
        forall|t: Seq<char>, c: char| #[trigger]
            bytes_in(t.push(c)) == bytes_in(t) + (if (c as u32) < 0x80 {
                1nat
            } else if (c as u32) < 0x800 {
                2
            } else if (c as u32) < 0x10000 {
                3
            } else {
                4
            }),
{
    assert forall|t: Seq<char>, c: char| #[trigger]
        bytes_in(t.push(c)) == bytes_in(t) + (if (c as u32) < 0x80 {
            1nat
        } else if (c as u32) < 0x800 {
            2
        } else if (c as u32) < 0x10000 {
            3
        } else {
            4
        }) by {
        assert(t.push(c).drop_last() =~= t);
    }
}

/// The status line says what can be done, and how many tokens went up and came down.
pub proof fn law_the_status_line(app: AppView)
    ensures
        app.quit_armed_at is Some ==> hint_of(app) == "  再按一次 Ctrl+C 退出"@,
        app.quit_armed_at is None && app.scroll_up > 0 ==> hint_of(app) == "  已上翻 "@ + dec(
            app.scroll_up as nat,
        ) + " 行,Esc 回到底部"@,
        app.quit_armed_at is None && app.scroll_up == 0 && app.busy ==> hint_of(app) == "  Esc 取消"@,
        app.quit_armed_at is None && app.scroll_up == 0 && !app.busy ==> hint_of(app)
            == "  Enter 发送 · Shift+Enter 换行 · / 命令"@,
        tokens_shown(app) == "  ↑"@ + token_text(app.usage.0 as nat) + " ↓"@ + token_text(
            app.usage.1 as nat,
        ) + " "@,
{
}

/// The interrupt key asks twice: the first time it drops what is typed, or else what runs, and within two
/// seconds the second time ends the program. It is the letter with the control key, not the letter.
pub proof fn law_interrupts_ask_twice(app: AppView, held: Held, pasting: bool, now: Duration)
    ensures
        ({
            let again = app.quit_armed_at matches Some(then) && now.nanos <= then.nanos + 2_000_000_000;
            let after = key_taken(app, Key::Char('c'), held, pasting, now);
            &&& held.control && again ==> after.should_quit && after.out == app.out.push(
                OutView::Cancel,
            ).push(OutView::Command(CommandView::Shutdown))
            &&& held.control && !again && app.overlay is None ==> {
                &&& after.quit_armed_at == Some(now)
                &&& after.should_quit == app.should_quit
                &&& app.input.text.len() > 0 ==> after.input == no_input() && after.out == app.out
                &&& app.input.text.len() == 0 && app.busy ==> after.out == app.out.push(OutView::Cancel)
                &&& app.input.text.len() == 0 && !app.busy ==> after.out == app.out
            }
            &&& !held.control && app.overlay is None ==> after.input == typed(app.input, 'c')
        }),
{
}

/// While something lies over the input, keys go to it.
pub proof fn law_keys_go_to_what_lies_over(
    app: AppView,
    overlay: OverlayView,
    key: Key,
    held: Held,
    pasting: bool,
    now: Duration,
)
    requires
        app.overlay == Some(overlay),
        !(key == Key::Char('c') && held.control),
    ensures
        ({
            let after = key_taken(app, key, held, pasting, now);
            &&& overlay matches OverlayView::Picker { kind, picker } ==> after == picker_key(
                app,
                kind,
                picker,
                key,
                held,
            )
            &&& overlay matches OverlayView::ModelInput(input) ==> after == model_key(
                app,
                input,
                key,
                held,
            )
            &&& overlay matches OverlayView::Approval(request) ==> after == approval_key(
                app,
                request,
                key,
                held,
            )
            &&& overlay is Loading && key is Esc ==> after.overlay is None
            &&& overlay is Loading && !(key is Esc) ==> after == app
        }),
{
}

/// What a request does not offer cannot be granted, and only the keys that answer it do anything.
pub proof fn law_only_what_is_offered_is_granted(
    app: AppView,
    request: ApprovalView,
    key: Key,
    held: Held,
)
    ensures
        !request.scopes.contains(ApprovalScope::Once) ==> approval_key(app, request, Key::Enter, held)
            == app && approval_key(app, request, Key::Char('y'), held) == app,
        !request.scopes.contains(ApprovalScope::Session) ==> approval_key(
            app,
            request,
            Key::Char('a'),
            held,
        ) == app,
        !held.control && !(key is Enter) && !(key is Esc) && key != Key::Char('y') && key != Key::Char('a')
            && key != Key::Char('n') ==> approval_key(app, request, key, held) == app,
{
}

} // verus!
