//! Text in rows of a width.
use vstd::prelude::*;

use crate::list::{empty, put};
use crate::text::chars_of;
use crate::tui::cells::{columns, count_columns};

verus! {

/// Text that is being cut into rows: the rows that are full, the one that is not, and how many
/// columns the latter takes.
#[verifier::ext_equal]
pub struct Wrapped {
    pub rows: Seq<Seq<char>>,
    pub row: Seq<char>,
    pub used: nat,
}

/// One more character, which takes `taken` columns. A row ends at a line's end, and before a
/// character that it has no room for; one that no row has room for gets a row of its own.
pub open spec fn char_put(w: Wrapped, c: char, taken: nat, width: nat) -> Wrapped {
    if c == '\n' {
        Wrapped { rows: w.rows.push(w.row), row: seq![], used: 0 }
    } else if w.row.len() > 0 && w.used + taken > width {
        Wrapped { rows: w.rows.push(w.row), row: seq![c], used: taken }
    } else {
        Wrapped { rows: w.rows, row: w.row.push(c), used: w.used + taken }
    }
}

pub open spec fn wrapped(text: Seq<char>, width: nat) -> Wrapped
    decreases text.len(),
{
    if text.len() == 0 {
        Wrapped { rows: seq![], row: seq![], used: 0 }
    } else {
        char_put(wrapped(text.drop_last(), width), text.last(), columns(seq![text.last()]), width)
    }
}

/// The rows of a text.
pub open spec fn rows_of(text: Seq<char>, width: nat) -> Seq<Seq<char>> {
    let w = wrapped(text, width);
    w.rows.push(w.row)
}

fn char_columns(c: char) -> (n: usize)
    ensures
        n == columns(seq![c]),
{
    let mut s = String::new();
    s.push(c);
    assert(s@ =~= seq![c]);
    count_columns(s.as_str())
}

/// The rows of the first `end` characters, and how many columns the last row takes.
pub(crate) fn wrap_chars(chars: &Vec<char>, end: usize, width: usize) -> (r: (Vec<String>, usize))
    requires
        end <= chars@.len(),
    ensures
        r.0.deep_view() == rows_of(chars@.take(end as int), width as nat),
        r.1 == wrapped(chars@.take(end as int), width as nat).used,
{
    let mut rows: Vec<String> = empty();
    let mut row = String::new();
    let mut used: usize = 0;
    let mut i: usize = 0;
    assert(row@ =~= seq![]);
    assert(rows.deep_view() =~= seq![]);
    while i < end
        invariant
            i <= end <= chars@.len(),
            row@.len() == 0 ==> used == 0,
            (Wrapped { rows: rows.deep_view(), row: row@, used: used as nat }) == wrapped(
                chars@.take(i as int),
                width as nat,
            ),
        decreases end - i,
    {
        let c = chars[i];
        proof {
            let next = chars@.take(i + 1);
            assert(next.drop_last() =~= chars@.take(i as int));
            assert(next.last() == c);
        }
        if c == '\n' {
            put(&mut rows, row);
            row = String::new();
            assert(row@ =~= seq![]);
            used = 0;
        } else {
            let taken = char_columns(c);
            if row.as_str().unicode_len() > 0 && (used > width || taken > width - used) {
                put(&mut rows, row);
                row = String::new();
                used = 0;
                assert(seq![c] =~= Seq::<char>::empty().push(c));
            }
            row.push(c);
            used = used + taken;
        }
        i = i + 1;
    }
    put(&mut rows, row);
    (rows, used)
}

/// A text in rows of a width.
pub fn wrap(text: &str, width: usize) -> (rows: Vec<String>)
    ensures
        rows.deep_view() == rows_of(text@, width as nat),
{
    let chars = chars_of(text);
    let end = chars.len();
    assert(chars@.take(end as int) =~= chars@);
    wrap_chars(&chars, end, width).0
}

/// How many columns the characters of a row take.
pub open spec fn row_columns(row: Seq<char>) -> nat
    decreases row.len(),
{
    if row.len() == 0 {
        0
    } else {
        row_columns(row.drop_last()) + columns(seq![row.last()])
    }
}

/// Whether a row fits a width: it does not take more columns, or is one character alone.
pub open spec fn fits(row: Seq<char>, width: nat) -> bool {
    row_columns(row) <= width || row.len() == 1
}

proof fn wrapping_fits(text: Seq<char>, width: nat)
    ensures
        ({
            let w = wrapped(text, width);
            &&& w.used == row_columns(w.row)
            &&& fits(w.row, width)
            &&& !w.row.contains('\n')
            &&& forall|i: int|
                0 <= i < w.rows.len() ==> fits(#[trigger] w.rows[i], width) && !w.rows[i].contains(
                    '\n',
                )
        }),
    decreases text.len(),
{
    if text.len() > 0 {
        let c = text.last();
        let before = wrapped(text.drop_last(), width);
        let w = wrapped(text, width);
        wrapping_fits(text.drop_last(), width);
        if c != '\n' {
            let kept = w.row.drop_last();
            if w.row == before.row.push(c) {
                assert(kept =~= before.row);
            } else {
                assert(kept =~= seq![]);
            }
            assert(w.row.last() == c);
            assert forall|k: int| 0 <= k < w.row.len() implies w.row[k] != '\n' by {
                if k < kept.len() {
                    assert(before.row.contains(before.row[k]));
                }
            }
        }
    } else {
        assert(fits(seq![], width));
    }
}

/// No row takes more columns than there are, but for a character that alone takes more; and no row
/// holds a line's end.
pub proof fn law_rows_fit(text: Seq<char>, width: nat, i: int)
    requires
        0 <= i < rows_of(text, width).len(),
    ensures
        fits(rows_of(text, width)[i], width),
        !rows_of(text, width)[i].contains('\n'),
{
    wrapping_fits(text, width);
}

/// What rows hold together.
pub open spec fn joined(rows: Seq<Seq<char>>) -> Seq<char>
    decreases rows.len(),
{
    if rows.len() == 0 {
        seq![]
    } else {
        joined(rows.drop_last()) + rows.last()
    }
}

/// A text without its line ends.
pub open spec fn unbroken(text: Seq<char>) -> Seq<char>
    decreases text.len(),
{
    if text.len() == 0 {
        seq![]
    } else if text.last() == '\n' {
        unbroken(text.drop_last())
    } else {
        unbroken(text.drop_last()).push(text.last())
    }
}

/// Rows hold the characters of the text in their order, and no others: none is lost, and none is
/// shown twice.
pub proof fn law_rows_hold_the_text(text: Seq<char>, width: nat)
    ensures
        joined(rows_of(text, width)) == unbroken(text),
    decreases text.len(),
{
    let w = wrapped(text, width);
    let rows = rows_of(text, width);
    assert(rows.drop_last() =~= w.rows);
    if text.len() > 0 {
        let before = wrapped(text.drop_last(), width);
        law_rows_hold_the_text(text.drop_last(), width);
        assert(rows_of(text.drop_last(), width).drop_last() =~= before.rows);
        assert(before.rows.push(before.row).drop_last() =~= before.rows);
        let c = text.last();
        if c == '\n' {
            assert(joined(w.rows) + w.row =~= joined(before.rows) + before.row);
        } else {
            assert(joined(w.rows) + w.row =~= (joined(before.rows) + before.row).push(c));
        }
    } else {
        assert(joined(w.rows) + w.row =~= seq![]);
    }
}

/// The rows that are full stay as they are whatever is written behind them.
pub proof fn law_full_rows_stay(text: Seq<char>, width: nat, n: int)
    requires
        0 <= n <= text.len(),
    ensures
        wrapped(text.take(n), width).rows.len() <= wrapped(text, width).rows.len(),
        wrapped(text, width).rows.take(wrapped(text.take(n), width).rows.len() as int) == wrapped(
            text.take(n),
            width,
        ).rows,
    decreases text.len(),
{
    let head = wrapped(text.take(n), width).rows;
    if n < text.len() {
        let shorter = text.drop_last();
        law_full_rows_stay(shorter, width, n);
        assert(shorter.take(n) =~= text.take(n));
        let before = wrapped(shorter, width).rows;
        let after = wrapped(text, width).rows;
        assert(after.take(head.len() as int) =~= before.take(head.len() as int));
    } else {
        assert(text.take(n) =~= text);
        assert(head.take(head.len() as int) =~= head);
    }
}

} // verus!
