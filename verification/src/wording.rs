//! What holds of texts: numbers, cuts, white space, pieces and their order.
use vstd::prelude::*;

use crate::json::{
    at, double_place, entries_are_said, lookup, nil, number_at, number_or, obj, printed_json,
    text_at, text_or, JsonView,
};
use crate::text::{
    begins, dec, digits_value, ends, holds_part, insert_entry, insert_text, is_white, joined, lower,
    number_of, padded, signed, sorted_entries, sorted_texts, split_on, stands_at, swapped, text_le,
    trimmed, trimmed_end, trimmed_start, without_start,
};
use crate::time::{in_units, seconds_of, tenths_of, Duration};
use crate::util::{
    cleaned, end_cut, escape_after, escape_state, is_noise, middle_cut, summary_of, token_text,
    Escape,
};

verus! {

// ---- Numbers ----

/// A number in decimal reads back as the number, has no digit too many, and is made of digits.
pub proof fn law_numbers_read_back(n: nat)
    ensures
        digits_value(dec(n)) == Some(n),
        dec(n).len() > 0,
        n > 0 ==> dec(n)[0] != '0',
        forall|i: int| 0 <= i < dec(n).len() ==> '0' <= (#[trigger] dec(n)[i]) <= '9',
        n == 0 ==> dec(n) == seq!['0'],
    decreases n,
{
    if n >= 10 {
        law_numbers_read_back(n / 10);
        assert(dec(n).drop_last() =~= dec(n / 10));
    } else {
        assert(dec(n).drop_last() =~= seq![]);
        assert(digits_value(dec(n).drop_last()) == Some(0nat));
    }
}

/// A negative number has its sign in front, and no other has one.
pub proof fn law_signs_lead(n: int)
    ensures
        n >= 0 ==> digits_value(signed(n)) == Some(n as nat),
        n < 0 ==> signed(n)[0] == '-' && digits_value(signed(n).drop_first()) == Some((-n) as nat),
{
    if n < 0 {
        law_numbers_read_back((-n) as nat);
        assert(signed(n).drop_first() =~= dec((-n) as nat));
    } else {
        law_numbers_read_back(n as nat);
    }
}

/// A text is filled up with spaces in front to the given width, and is never cut.
pub proof fn law_padding_fills_up(text: Seq<char>, width: nat)
    ensures
        padded(text, width).len() == (if text.len() < width {
            width
        } else {
            text.len()
        }),
        padded(text, width).skip(padded(text, width).len() - text.len()) == text,
        forall|i: int|
            0 <= i < padded(text, width).len() - text.len() ==> (#[trigger] padded(text, width)[i])
                == ' ',
    decreases width - text.len(),
{
    if text.len() < width {
        let more = seq![' '] + text;
        law_padding_fills_up(more, width);
        let all = padded(text, width);
        let tail = all.skip(all.len() - more.len());
        assert(tail == more);
        assert(all.skip(all.len() - text.len()) =~= tail.drop_first());
        assert(more.drop_first() =~= text);
        assert forall|i: int| 0 <= i < all.len() - text.len() implies (#[trigger] all[i]) == ' ' by {
            if i == all.len() - more.len() {
                assert(all[i] == tail[0]);
            }
        }
    } else {
        assert(padded(text, width).skip(0) =~= text);
    }
}

/// Rounding to units is never off by more than half a unit.
pub proof fn law_rounding_is_near(nanos: nat, unit: nat)
    requires
        unit > 0,
    ensures
        2 * (in_units(nanos, unit) * unit) <= 2 * nanos + unit,
        2 * nanos <= 2 * (in_units(nanos, unit) * unit) + unit,
{
    let q = nanos / unit;
    let r = nanos % unit;
    assert(nanos == q * unit + r && 0 <= r < unit) by (nonlinear_arith)
        requires
            unit > 0,
            q == nanos / unit,
            r == nanos % unit,
    ;
    assert((q + 1) * unit == q * unit + unit) by (nonlinear_arith);
}

/// A time is shown in seconds: whole ones, or with one decimal behind a point.
pub proof fn law_times_are_shown_in_seconds(d: Duration)
    ensures
        digits_value(seconds_of(d)) == Some(in_units(d.nanos as nat, 1_000_000_000)),
        ({
            let t = in_units(d.nanos as nat, 100_000_000);
            let text = tenths_of(d);
            let n = text.len();
            &&& n >= 3
            &&& text[n - 2] == '.'
            &&& digits_value(text.take(n - 2)) == Some(t / 10)
            &&& digits_value(text.skip(n - 1)) == Some(t % 10)
        }),
{
    let t = in_units(d.nanos as nat, 100_000_000);
    let text = tenths_of(d);
    let n = text.len();
    law_numbers_read_back(in_units(d.nanos as nat, 1_000_000_000));
    law_numbers_read_back(t / 10);
    law_numbers_read_back(t % 10);
    reveal_strlit(".");
    assert(dec(t % 10).len() == 1);
    assert(text.take(n - 2) =~= dec(t / 10));
    assert(text.skip(n - 1) =~= dec(t % 10));
    assert(text[n - 2] == "."@[0]);
}

/// Counts below a thousand are shown as they are; others in thousands, with one decimal that is
/// never rounded up.
pub proof fn law_counts_are_shown(n: nat)
    ensures
        n < 1000 ==> digits_value(token_text(n)) == Some(n),
        n >= 1000 ==> ({
            let text = token_text(n);
            let k = text.len();
            &&& k >= 4
            &&& text[k - 1] == 'k'
            &&& text[k - 3] == '.'
            &&& digits_value(text.take(k - 3)) == Some(n / 1000)
            &&& digits_value(text.subrange(k - 2, k - 1)) == Some(n % 1000 / 100)
        }),
{
    law_numbers_read_back(n);
    if n >= 1000 {
        let text = token_text(n);
        let k = text.len();
        law_numbers_read_back(n / 1000);
        law_numbers_read_back(n / 100 % 10);
        reveal_strlit(".");
        reveal_strlit("k");
        assert(n / 100 % 10 == n % 1000 / 100);
        assert(dec(n / 100 % 10).len() == 1);
        assert(text.take(k - 3) =~= dec(n / 1000));
        assert(text.subrange(k - 2, k - 1) =~= dec(n / 100 % 10));
        assert(text[k - 1] == "k"@[0]);
        assert(text[k - 3] == "."@[0]);
    }
}

// ---- Cuts ----

/// A text that fits is left alone. One that does not keeps its beginning and its end, as much of
/// both as there is room for, and says in between how much is missing.
pub proof fn law_middle_cuts_keep_both_ends(text: Seq<char>, max: nat)
    ensures
        text.len() <= max ==> middle_cut(text, max) == text,
        text.len() > max ==> ({
            let cut = middle_cut(text, max);
            let head = (max / 2) as int;
            let tail = max - head;
            &&& cut.take(head) == text.take(head)
            &&& cut.skip(cut.len() - tail) == text.skip(text.len() - tail)
            &&& cut.subrange(head, cut.len() - tail) == "\n……[中间省略 "@ + dec(
                (text.len() - max) as nat,
            ) + " 字符]……\n"@
        }),
{
    if text.len() > max {
        let cut = middle_cut(text, max);
        let head = (max / 2) as int;
        let tail = max - head;
        assert(cut.take(head) =~= text.take(head));
        assert(cut.skip(cut.len() - tail) =~= text.skip(text.len() - tail));
        assert(cut.subrange(head, cut.len() - tail) =~= "\n……[中间省略 "@ + dec(
            (text.len() - max) as nat,
        ) + " 字符]……\n"@);
    }
}

/// A text that fits is left alone. One that does not keeps its beginning and ends with a mark; it is
/// then exactly as long as it may be.
pub proof fn law_end_cuts_keep_the_beginning(text: Seq<char>, max: nat)
    ensures
        end_cut(text, max).len() <= max,
        text.len() <= max ==> end_cut(text, max) == text,
        text.len() > max > 0 ==> end_cut(text, max).len() == max && end_cut(text, max).take(max - 1)
            == text.take(max - 1) && end_cut(text, max)[max - 1] == '…',
{
    if text.len() > max && max > 0 {
        assert(end_cut(text, max).take(max - 1) =~= text.take(max - 1));
    }
}

/// Text without control characters is left alone.
pub proof fn law_plain_text_stays(text: Seq<char>)
    requires
        forall|i: int| 0 <= i < text.len() ==> !is_noise(#[trigger] text[i]),
    ensures
        cleaned(text) == text,
        escape_state(text) == Escape::Plain,
    decreases text.len(),
{
    if text.len() > 0 {
        let rest = text.drop_last();
        assert forall|i: int| 0 <= i < rest.len() implies !is_noise(#[trigger] rest[i]) by {
            assert(!is_noise(text[i]));
        }
        law_plain_text_stays(rest);
        assert(!is_noise(text[text.len() - 1]));
        assert(text =~= rest.push(text.last()));
    }
}

/// A colour, or any other control sequence, leaves nothing behind, and what stands behind it is
/// treated as if it were not there.
pub proof fn law_control_sequences_vanish(text: Seq<char>, parameters: Seq<char>, last: char)
    requires
        escape_state(text) == Escape::Plain,
        forall|i: int| 0 <= i < parameters.len() ==> !('@' <= (#[trigger] parameters[i]) <= '~'),
        '@' <= last <= '~',
    ensures
        ({
            let all = (text.push('\x1b').push('[') + parameters).push(last);
            &&& cleaned(all) == cleaned(text)
            &&& escape_state(all) == Escape::Plain
        }),
{
    let begun = text.push('\x1b');
    let opened = begun.push('[');
    assert(begun.drop_last() =~= text);
    assert(begun.last() == '\x1b');
    assert(escape_state(begun) == Escape::Begun);
    assert(opened.drop_last() =~= begun);
    assert(opened.last() == '[');
    assert(escape_state(opened) == Escape::Sequence);
    inside_a_sequence(opened, parameters);
    let all = (opened + parameters).push(last);
    assert(all.drop_last() =~= opened + parameters);
    assert(all.last() == last);
    assert(escape_state(all) == escape_after(Escape::Sequence, last));
    assert(cleaned(begun) == cleaned(text));
    assert(cleaned(opened) == cleaned(begun));
    assert(cleaned(all) == cleaned(opened + parameters));
}

proof fn inside_a_sequence(text: Seq<char>, parameters: Seq<char>)
    requires
        escape_state(text) == Escape::Sequence,
        forall|i: int| 0 <= i < parameters.len() ==> !('@' <= (#[trigger] parameters[i]) <= '~'),
    ensures
        escape_state(text + parameters) == Escape::Sequence,
        cleaned(text + parameters) == cleaned(text),
    decreases parameters.len(),
{
    if parameters.len() == 0 {
        assert(text + parameters =~= text);
    } else {
        let rest = parameters.drop_last();
        assert forall|i: int| 0 <= i < rest.len() implies !('@' <= (#[trigger] rest[i]) <= '~') by {
            assert(rest[i] == parameters[i]);
        }
        inside_a_sequence(text, rest);
        assert((text + parameters).drop_last() =~= text + rest);
        assert(parameters[parameters.len() - 1] == parameters.last());
    }
}

// ---- White space ----

/// Trimming takes white space from both ends and nothing else.
pub proof fn law_trimming_takes_white_space_only(text: Seq<char>)
    ensures
        exists|i: int, j: int|
            #![trigger text.subrange(i, j)]
            0 <= i <= j <= text.len() && trimmed(text) == text.subrange(i, j) && (forall|k: int|
                0 <= k < i ==> is_white(#[trigger] text[k])) && (forall|k: int|
                j <= k < text.len() ==> is_white(#[trigger] text[k])),
        trimmed(text).len() > 0 ==> !is_white(trimmed(text)[0]) && !is_white(trimmed(text).last()),
        trimmed_end(text).len() > 0 ==> !is_white(trimmed_end(text).last()),
{
    end_is_trimmed(text);
    let body = trimmed_end(text);
    start_is_trimmed(body);
    let j = body.len() as int;
    let i = j - trimmed(text).len();
    assert(trimmed(text) =~= text.subrange(i, j)) by {
        assert(trimmed(text) =~= body.skip(i));
    }
    assert forall|k: int| 0 <= k < i implies is_white(#[trigger] text[k]) by {
        assert(text[k] == body[k]);
    }
}

proof fn end_is_trimmed(text: Seq<char>)
    ensures
        trimmed_end(text).len() <= text.len(),
        trimmed_end(text) == text.take(trimmed_end(text).len() as int),
        forall|k: int| trimmed_end(text).len() <= k < text.len() ==> is_white(#[trigger] text[k]),
        trimmed_end(text).len() > 0 ==> !is_white(trimmed_end(text).last()),
    decreases text.len(),
{
    if text.len() > 0 && is_white(text.last()) {
        let rest = text.drop_last();
        end_is_trimmed(rest);
        assert(trimmed_end(text) =~= text.take(trimmed_end(text).len() as int));
        assert forall|k: int| trimmed_end(text).len() <= k < text.len() implies is_white(
            #[trigger] text[k],
        ) by {
            if k < rest.len() {
                assert(rest[k] == text[k]);
            }
        }
    } else {
        assert(text =~= text.take(text.len() as int));
    }
}

proof fn start_is_trimmed(text: Seq<char>)
    ensures
        trimmed_start(text).len() <= text.len(),
        trimmed_start(text) == text.skip(text.len() - trimmed_start(text).len()),
        forall|k: int|
            0 <= k < text.len() - trimmed_start(text).len() ==> is_white(#[trigger] text[k]),
        trimmed_start(text).len() > 0 ==> !is_white(trimmed_start(text)[0]) && trimmed_start(
            text,
        ).last() == text.last(),
    decreases text.len(),
{
    if text.len() > 0 && is_white(text[0]) {
        let rest = text.drop_first();
        start_is_trimmed(rest);
        assert(trimmed_start(text) =~= text.skip(text.len() - trimmed_start(text).len()));
        assert forall|k: int|
            0 <= k < text.len() - trimmed_start(text).len() implies is_white(#[trigger] text[k]) by {
            if k > 0 {
                assert(rest[k - 1] == text[k]);
            }
        }
    } else {
        assert(text =~= text.skip(0));
    }
}

/// Spaces, tabs, line breaks and carriage returns are white space; letters, digits and signs are not.
pub proof fn law_white_space_is_blank(c: char)
    ensures
        c == ' ' || c == '\t' || c == '\n' || c == '\r' ==> is_white(c),
        '!' <= c <= '~' ==> !is_white(c),
{
}

// ---- Pieces ----

/// The pieces of a text, with the separator put between them again, are the text; no piece holds the
/// separator.
pub proof fn law_pieces_make_the_text(text: Seq<char>, sep: char)
    ensures
        split_on(text, sep).len() > 0,
        joined(split_on(text, sep), seq![sep]) == text,
        forall|i: int, j: int|
            0 <= i < split_on(text, sep).len() && 0 <= j < split_on(text, sep)[i].len() ==> (
            #[trigger] split_on(text, sep)[i][j]) != sep,
    decreases text.len(),
{
    let pieces = split_on(text, sep);
    if text.len() == 0 {
        assert(joined(pieces, seq![sep]) =~= text);
    } else {
        let before = split_on(text.drop_last(), sep);
        law_pieces_make_the_text(text.drop_last(), sep);
        if text.last() == sep {
            assert(pieces.drop_last() =~= before);
            assert(pieces.last() =~= seq![]);
            assert(joined(pieces, seq![sep]) =~= text.drop_last() + seq![sep]);
            assert(joined(pieces, seq![sep]) =~= text);
        } else {
            let head = before.drop_last();
            assert(pieces.drop_last() =~= head);
            assert(pieces.last() =~= before.last().push(text.last()));
            assert(joined(pieces, seq![sep]) =~= joined(before, seq![sep]).push(text.last()));
            assert(joined(pieces, seq![sep]) =~= text);
        }
        assert forall|i: int, j: int|
            0 <= i < pieces.len() && 0 <= j < pieces[i].len() implies (#[trigger] pieces[i][j])
            != sep by {
            if i < before.len() && j < before[i].len() {
                assert(before[i][j] != sep);
            }
        }
    }
}

/// Joined texts stand in their order, with the separator between each two of them and nowhere else.
pub proof fn law_joined_texts_keep_their_order(a: Seq<Seq<char>>, b: Seq<Seq<char>>, sep: Seq<char>)
    ensures
        a.len() > 0 && b.len() > 0 ==> joined(a + b, sep) == joined(a, sep) + sep + joined(b, sep),
        a.len() == 1 ==> joined(a, sep) == a[0],
        a.len() == 0 ==> joined(a, sep).len() == 0,
    decreases b.len(),
{
    if a.len() > 0 && b.len() > 0 {
        assert((a + b).drop_last() =~= a + b.drop_last());
        if b.len() == 1 {
            assert((a + b).drop_last() =~= a);
        } else {
            law_joined_texts_keep_their_order(a, b.drop_last(), sep);
        }
        assert(joined(a + b, sep) =~= joined(a, sep) + sep + joined(b, sep));
    }
}

// ---- Order ----

/// Texts are ordered by their first difference, and a text comes before what it begins.
pub proof fn law_the_first_difference_orders(p: Seq<char>, a: Seq<char>, b: Seq<char>)
    requires
        a.len() == 0 || b.len() == 0 || a[0] != b[0],
    ensures
        text_le(p + a, p + b) <==> a.len() == 0 || (b.len() > 0 && a[0] < b[0]),
    decreases p.len(),
{
    if p.len() == 0 {
        assert(p + a =~= a);
        assert(p + b =~= b);
    } else {
        law_the_first_difference_orders(p.drop_first(), a, b);
        assert((p + a).drop_first() =~= p.drop_first() + a);
        assert((p + b).drop_first() =~= p.drop_first() + b);
    }
}

/// Sorting texts puts them in ascending order and keeps each as often as it occurs.
pub proof fn law_sorted_texts_ascend(s: Seq<Seq<char>>)
    ensures
        sorted_texts(s).len() == s.len(),
        sorted_texts(s).to_multiset() == s.to_multiset(),
        forall|i: int, j: int|
            0 <= i <= j < sorted_texts(s).len() ==> text_le(
                #[trigger] sorted_texts(s)[i],
                #[trigger] sorted_texts(s)[j],
            ),
    decreases s.len(),
{
    broadcast use vstd::seq_lib::group_to_multiset_ensures;

    if s.len() > 0 {
        law_sorted_texts_ascend(s.drop_last());
        inserted_texts_ascend(sorted_texts(s.drop_last()), s.last());
        assert(s =~= s.drop_last().push(s.last()));
    }
}

proof fn inserted_texts_ascend(s: Seq<Seq<char>>, x: Seq<char>)
    requires
        forall|i: int, j: int| 0 <= i <= j < s.len() ==> text_le(#[trigger] s[i], #[trigger] s[j]),
    ensures
        insert_text(s, x).len() == s.len() + 1,
        insert_text(s, x).to_multiset() == s.to_multiset().insert(x),
        forall|i: int|
            0 <= i < insert_text(s, x).len() ==> (#[trigger] insert_text(s, x)[i] == x
                || s.contains(insert_text(s, x)[i])),
        forall|i: int, j: int|
            0 <= i <= j < insert_text(s, x).len() ==> text_le(
                #[trigger] insert_text(s, x)[i],
                #[trigger] insert_text(s, x)[j],
            ),
    decreases s.len(),
{
    broadcast use vstd::seq_lib::group_to_multiset_ensures;

    let t = insert_text(s, x);
    le_is_reflexive(x);
    if s.len() == 0 {
        assert(s.push(x) =~= t);
    } else if text_le(s.last(), x) {
        assert forall|i: int| 0 <= i < t.len() implies (#[trigger] t[i] == x || s.contains(t[i])) by {
            if i < s.len() {
                assert(s[i] == t[i]);
            }
        }
        assert forall|i: int, j: int| 0 <= i <= j < t.len() implies text_le(
            #[trigger] t[i],
            #[trigger] t[j],
        ) by {
            if j == s.len() && i < s.len() {
                assert(text_le(s[i], s[s.len() - 1]));
                le_is_transitive(s[i], s.last(), x);
            } else if j < s.len() {
                assert(text_le(s[i], s[j]));
            }
        }
    } else {
        let rest = s.drop_last();
        assert forall|i: int, j: int| 0 <= i <= j < rest.len() implies text_le(
            #[trigger] rest[i],
            #[trigger] rest[j],
        ) by {
            assert(text_le(s[i], s[j]));
        }
        inserted_texts_ascend(rest, x);
        le_is_total(s.last(), x);
        let u = insert_text(rest, x);
        assert(s =~= rest.push(s.last()));
        assert(t =~= u.push(s.last()));
        assert(t.to_multiset() =~= s.to_multiset().insert(x));
        assert forall|i: int| 0 <= i < t.len() implies (#[trigger] t[i] == x || s.contains(t[i])) by {
            if i < u.len() {
                assert(u[i] == t[i]);
                if u[i] != x {
                    let k = choose|k: int| 0 <= k < rest.len() && rest[k] == u[i];
                    assert(s[k] == t[i]);
                }
            } else {
                assert(s[s.len() - 1] == t[i]);
            }
        }
        assert forall|i: int, j: int| 0 <= i <= j < t.len() implies text_le(
            #[trigger] t[i],
            #[trigger] t[j],
        ) by {
            if j < u.len() {
                assert(text_le(u[i], u[j]));
            } else if i < u.len() {
                assert(u[i] == t[i]);
                if u[i] != x {
                    let k = choose|k: int| 0 <= k < rest.len() && rest[k] == u[i];
                    assert(text_le(s[k], s[s.len() - 1]));
                }
            } else {
                le_is_reflexive(s.last());
            }
        }
    }
}

pub proof fn le_is_reflexive(a: Seq<char>)
    ensures
        text_le(a, a),
    decreases a.len(),
{
    if a.len() > 0 {
        le_is_reflexive(a.drop_first());
    }
}

pub proof fn le_is_total(a: Seq<char>, b: Seq<char>)
    ensures
        text_le(a, b) || text_le(b, a),
    decreases a.len(),
{
    if a.len() > 0 && b.len() > 0 {
        le_is_total(a.drop_first(), b.drop_first());
    }
}

pub proof fn le_is_transitive(a: Seq<char>, b: Seq<char>, c: Seq<char>)
    requires
        text_le(a, b),
        text_le(b, c),
    ensures
        text_le(a, c),
    decreases a.len(),
{
    if a.len() > 0 && a[0] == b[0] && b[0] == c[0] {
        le_is_transitive(a.drop_first(), b.drop_first(), c.drop_first());
    }
}

// ---- Characters ----

/// Lower case changes the letters from A to Z to those from a to z and leaves everything else alone.
pub proof fn law_lower_case_changes_letters_only(text: Seq<char>, i: int)
    requires
        0 <= i < text.len(),
    ensures
        lower(text).len() == text.len(),
        'A' <= text[i] <= 'Z' ==> lower(text)[i] as int == text[i] as int + 32,
        !('A' <= text[i] <= 'Z') ==> lower(text)[i] == text[i],
{
}

/// Replacing a character by another leaves all others alone.
pub proof fn law_replacing_leaves_the_rest(text: Seq<char>, from: char, to: char, i: int)
    requires
        0 <= i < text.len(),
    ensures
        swapped(text, from, to).len() == text.len(),
        text[i] == from ==> swapped(text, from, to)[i] == to,
        text[i] != from ==> swapped(text, from, to)[i] == text[i],
{
}

// ---- Tables ----

/// Entries are put in the order of their names, each as often as it occurs.
pub proof fn law_entries_are_in_order<V>(s: Seq<(Seq<char>, V)>)
    ensures
        sorted_entries(s).len() == s.len(),
        sorted_entries(s).to_multiset() == s.to_multiset(),
        forall|i: int, j: int|
            0 <= i && j == i + 1 && j < s.len() ==> text_le(
                (#[trigger] sorted_entries(s)[i]).0,
                (#[trigger] sorted_entries(s)[j]).0,
            ),
    decreases s.len(),
{
    broadcast use vstd::seq_lib::group_to_multiset_ensures;

    if s.len() > 0 {
        law_entries_are_in_order(s.drop_last());
        inserted_entries_are_in_order(sorted_entries(s.drop_last()), s.last());
        assert(s =~= s.drop_last().push(s.last()));
    }
}

proof fn inserted_entries_are_in_order<V>(s: Seq<(Seq<char>, V)>, x: (Seq<char>, V))
    requires
        forall|i: int, j: int|
            0 <= i && j == i + 1 && j < s.len() ==> text_le((#[trigger] s[i]).0, (#[trigger] s[j]).0),
    ensures
        insert_entry(s, x).len() == s.len() + 1,
        insert_entry(s, x).to_multiset() == s.to_multiset().insert(x),
        insert_entry(s, x).last() == x || (s.len() > 0 && insert_entry(s, x).last() == s.last()),
        forall|i: int, j: int|
            0 <= i && j == i + 1 && j < insert_entry(s, x).len() ==> text_le(
                (#[trigger] insert_entry(s, x)[i]).0,
                (#[trigger] insert_entry(s, x)[j]).0,
            ),
    decreases s.len(),
{
    broadcast use vstd::seq_lib::group_to_multiset_ensures;

    let t = insert_entry(s, x);
    if s.len() == 0 {
        assert(s.push(x) =~= t);
    } else if text_le(s.last().0, x.0) {
        assert forall|i: int, j: int| 0 <= i && j == i + 1 && j < t.len() implies text_le(
            (#[trigger] t[i]).0,
            (#[trigger] t[j]).0,
        ) by {
            if j < s.len() {
                assert(text_le(s[i].0, s[j].0));
            }
        }
    } else {
        let rest = s.drop_last();
        assert forall|i: int, j: int| 0 <= i && j == i + 1 && j < rest.len() implies text_le(
            (#[trigger] rest[i]).0,
            (#[trigger] rest[j]).0,
        ) by {
            assert(text_le(s[i].0, s[j].0));
        }
        inserted_entries_are_in_order(rest, x);
        le_is_total(s.last().0, x.0);
        let u = insert_entry(rest, x);
        assert(s =~= rest.push(s.last()));
        assert(t =~= u.push(s.last()));
        assert(t.to_multiset() =~= s.to_multiset().insert(x));
        assert forall|i: int, j: int| 0 <= i && j == i + 1 && j < t.len() implies text_le(
            (#[trigger] t[i]).0,
            (#[trigger] t[j]).0,
        ) by {
            if j < u.len() {
                assert(text_le(u[i].0, u[j].0));
            } else {
                assert(t[i] == u.last());
                if u.last() != x {
                    assert(text_le(s[s.len() - 2].0, s[s.len() - 1].0));
                }
            }
        }
    }
}

/// A text begins and ends with a part where that part stands there, and holds it where it stands
/// anywhere.
pub proof fn law_parts_of_texts(before: Seq<char>, part: Seq<char>, after: Seq<char>)
    ensures
        begins(part + after, part),
        ends(before + part, part),
        holds_part(before + part + after, part),
        part.len() > after.len() ==> !begins(after, part) && !ends(after, part),
{
    assert((part + after).take(part.len() as int) =~= part);
    assert((before + part).skip(before.len() as int) =~= part);
    let whole = before + part + after;
    assert(whole.subrange(before.len() as int, (before.len() + part.len()) as int) =~= part);
    assert(stands_at(whole, part, before.len() as int));
}

/// A number may have a plus sign in front of it; a text that is none, or one that is too large, is
/// not read.
pub proof fn law_numbers_are_read(n: u64, text: Seq<char>)
    ensures
        number_of(dec(n as nat)) == Some(n),
        number_of(seq!['+'] + dec(n as nat)) == Some(n),
        number_of(seq![]) is None,
        number_of(seq!['+']) is None,
        digits_value(text) is None && (text.len() == 0 || text[0] != '+') ==> number_of(text) is None,
{
    law_numbers_read_back(n as nat);
    assert((seq!['+'] + dec(n as nat)).drop_first() =~= dec(n as nat));
    assert(dec(n as nat)[0] != '+');
}

/// Copies of a part are taken off the start until there is none.
pub proof fn law_starts_are_taken_off(text: Seq<char>, part: Seq<char>)
    requires
        part.len() > 0,
    ensures
        without_start(part + text, part) == without_start(text, part),
        !begins(text, part) ==> without_start(text, part) == text,
{
    assert((part + text).take(part.len() as int) =~= part);
    assert((part + text).skip(part.len() as int) =~= text);
}

/// The gist of some arguments is what they print as, cleaned, in two hundred characters at most.
pub proof fn law_arguments_are_summed_up(args: JsonView)
    ensures
        summary_of(args) == end_cut(cleaned(printed_json(args)), 200),
        summary_of(args).len() <= 200,
{
}

// ---- Values ----

/// A member is found where the object has it; texts, numbers and nothing else are taken for what they
/// are.
pub proof fn law_members_are_read(value: JsonView, key: Seq<char>, other: Seq<char>, n: u64, m: u64)
    ensures
        lookup(obj(nil().push((key, value))), key) == Some(value),
        lookup(obj(nil().push((key, value))), other) is Some ==> other == key,
        lookup(obj(nil()), key) is None,
        lookup(JsonView::Null, key) is None,
        at(None, key) is None,
        at(Some(obj(nil().push((key, value)))), key) == Some(value),
        text_at(Some(JsonView::Str(other))) == Some(other),
        text_at(Some(JsonView::Null)) is None,
        text_at(None) is None,
        text_or(Some(JsonView::Str(other)), key) == other,
        text_or(None, key) == key,
        number_at(Some(JsonView::Number(n as int))) == Some(n),
        number_at(Some(JsonView::Number(-1))) is None,
        number_at(Some(JsonView::Str(other))) is None,
        number_or(Some(JsonView::Number(n as int)), m) == n,
        number_or(None, m) == m,
{
    broadcast use entries_are_said;

}

/// Doubles are ordered as they stand on the number line: those with a sign bit below those without,
/// and further down the larger they are.
pub proof fn law_doubles_have_places(a: u64, b: u64)
    ensures
        a < 0x8000_0000_0000_0000 && b < 0x8000_0000_0000_0000 ==> (double_place(a) < double_place(b)
            <==> a < b),
        a >= 0x8000_0000_0000_0000 && b >= 0x8000_0000_0000_0000 ==> (double_place(a) < double_place(
            b,
        ) <==> b < a),
        a > 0x8000_0000_0000_0000 && b < 0x8000_0000_0000_0000 ==> double_place(a) < double_place(b),
        double_place(0) == double_place(0x8000_0000_0000_0000),
{
}

} // verus!
