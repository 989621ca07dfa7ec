//! Wide characters in a row of terminal cells.
//!
//! A wide character fills more than one cell; the cells behind it hold nothing of their own.
use vstd::prelude::*;

use crate::list::{empty, put, take_all, take_next};

verus! {

/// How many columns a text takes, as `UnicodeWidthStr::width` of the crate `unicode-width` counts
/// them.
pub uninterp spec fn columns(text: Seq<char>) -> nat;

/// Calls `UnicodeWidthStr::width` of the crate `unicode-width`, which counts the columns that a
/// text takes by the tables of Unicode; claims only that the same text always takes as many.
#[verifier::external_body]
pub(crate) fn count_columns(text: &str) -> (n: usize)
    ensures
        n == columns(text@),
{
    unicode_width::UnicodeWidthStr::width(text)
}

/// A row so far: its cells, and how many of the next ones a wide character still fills.
#[verifier::ext_equal]
pub struct RowState {
    pub cells: Seq<Seq<char>>,
    pub filled: nat,
}

/// One more cell, which takes `width` columns.
pub open spec fn cell_after(row: RowState, symbol: Seq<char>, width: nat) -> RowState {
    if row.filled > 0 {
        RowState { cells: row.cells.push(seq![]), filled: (row.filled - 1) as nat }
    } else {
        RowState {
            cells: row.cells.push(symbol),
            filled: if width > 0 {
                (width - 1) as nat
            } else {
                0
            },
        }
    }
}

pub open spec fn row_of(symbols: Seq<Seq<char>>) -> RowState
    decreases symbols.len(),
{
    if symbols.len() == 0 {
        RowState { cells: seq![], filled: 0 }
    } else {
        cell_after(row_of(symbols.drop_last()), symbols.last(), columns(symbols.last()))
    }
}

/// The text of a cell that a wide character does or does not fill, and how many cells are filled
/// behind it. `width` is how many columns the cell's own symbol takes.
pub fn next_cell(filled: usize, symbol: String, width: usize) -> (r: (String, usize))
    ensures
        forall|row: RowState|
            row.filled == filled ==> #[trigger] cell_after(row, symbol@, width as nat) == (RowState {
                cells: row.cells.push(r.0@),
                filled: r.1 as nat,
            }),
{
    if filled > 0 {
        let r = ("".to_owned(), filled - 1);
        proof {
            reveal_strlit("");
            assert(r.0@ =~= seq![]);
        }
        r
    } else {
        (symbol, width.saturating_sub(1))
    }
}

/// Empties the cells that wide characters fill.
pub fn clear_wide_continuation_cells(symbols: Vec<String>) -> (out: Vec<String>)
    ensures
        out.deep_view() == row_of(symbols.deep_view()).cells,
{
    let ghost all = symbols.deep_view();
    let mut out: Vec<String> = empty();
    let mut filled: usize = 0;
    let mut i: usize = 0;
    while i < symbols.len()
        invariant
            i <= symbols@.len(),
            all == symbols.deep_view(),
            (RowState { cells: out.deep_view(), filled: filled as nat }) == row_of(
                all.take(i as int),
            ),
        decreases symbols@.len() - i,
    {
        proof {
            take_next(all, i as int);
        }
        assert(all[i as int] == symbols@[i as int]@);
        let width = count_columns(symbols[i].as_str());
        let ghost before = row_of(all.take(i as int));
        let (symbol, rest) = next_cell(filled, symbols[i].clone(), width);
        assert(cell_after(before, symbols@[i as int]@, width as nat) == (RowState {
            cells: before.cells.push(symbol@),
            filled: rest as nat,
        }));
        put(&mut out, symbol);
        filled = rest;
        i = i + 1;
    }
    proof {
        take_all(all);
    }
    out
}

/// A row keeps its length, and each cell keeps its symbol or is emptied.
pub proof fn law_rows_keep_their_length(symbols: Seq<Seq<char>>)
    ensures
        row_of(symbols).cells.len() == symbols.len(),
        forall|i: int|
            0 <= i < symbols.len() ==> #[trigger] row_of(symbols).cells[i] == symbols[i] || row_of(
                symbols,
            ).cells[i].len() == 0,
    decreases symbols.len(),
{
    if symbols.len() > 0 {
        let rest = symbols.drop_last();
        law_rows_keep_their_length(rest);
        let now = row_of(symbols).cells;
        let before = row_of(rest).cells;
        assert forall|i: int| 0 <= i < symbols.len() implies #[trigger] now[i] == symbols[i]
            || now[i].len() == 0 by {
            if i < rest.len() {
                assert(now[i] == before[i]);
                assert(rest[i] == symbols[i]);
            }
        }
    }
}

} // verus!
