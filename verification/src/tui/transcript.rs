//! What has been said and done, as it is shown.
use vstd::prelude::*;

use crate::list::{empty, pull, put, take_all, take_next};
use crate::text::same;

verus! {

/// A piece of what is shown. An open one still grows.
#[derive(Debug)]
pub enum Cell {
    User(String),
    Assistant { text: String, open: bool },
    Thinking { text: String, open: bool },
    /// A tool call; once it has ended, `result` says how.
    Tool { id: String, name: String, summary: String, result: Option<ToolEnd>, open: bool },
    Notice(String),
    Error(String),
}

#[derive(Debug)]
pub struct ToolEnd {
    pub output: String,
    pub is_error: bool,
}

#[verifier::ext_equal]
pub enum CellView {
    User(Seq<char>),
    Assistant { text: Seq<char>, open: bool },
    Thinking { text: Seq<char>, open: bool },
    Tool {
        id: Seq<char>,
        name: Seq<char>,
        summary: Seq<char>,
        result: Option<(Seq<char>, bool)>,
        open: bool,
    },
    Notice(Seq<char>),
    Error(Seq<char>),
}

impl DeepView for Cell {
    type V = CellView;

    open spec fn deep_view(&self) -> CellView {
        match *self {
            Cell::User(t) => CellView::User(t@),
            Cell::Assistant { text, open } => CellView::Assistant { text: text@, open },
            Cell::Thinking { text, open } => CellView::Thinking { text: text@, open },
            Cell::Tool { id, name, summary, result, open } => CellView::Tool {
                id: id@,
                name: name@,
                summary: summary@,
                result: match result {
                    Some(end) => Some((end.output@, end.is_error)),
                    None => None,
                },
                open,
            },
            Cell::Notice(t) => CellView::Notice(t@),
            Cell::Error(t) => CellView::Error(t@),
        }
    }
}

/// Whether a cell still grows.
pub open spec fn is_open(cell: CellView) -> bool {
    match cell {
        CellView::Assistant { open, .. } => open,
        CellView::Thinking { open, .. } => open,
        CellView::Tool { open, .. } => open,
        _ => false,
    }
}

pub open spec fn closed_cell(cell: CellView) -> CellView {
    match cell {
        CellView::Assistant { text, .. } => CellView::Assistant { text, open: false },
        CellView::Thinking { text, .. } => CellView::Thinking { text, open: false },
        CellView::Tool { id, name, summary, result, .. } => CellView::Tool {
            id,
            name,
            summary,
            result,
            open: false,
        },
        other => other,
    }
}

/// All cells closed.
pub open spec fn all_closed(cells: Seq<CellView>) -> Seq<CellView> {
    Seq::new(cells.len(), |i: int| closed_cell(cells[i]))
}

/// Texts that are no tool calls are closed; calls go on.
pub open spec fn texts_closed(cells: Seq<CellView>) -> Seq<CellView> {
    Seq::new(
        cells.len(),
        |i: int|
            if cells[i] is Tool {
                cells[i]
            } else {
                closed_cell(cells[i])
            },
    )
}

/// More of an answer: it goes on where one is open at the end.
pub open spec fn answer_grown(cells: Seq<CellView>, text: Seq<char>) -> Seq<CellView> {
    if cells.len() > 0 && cells.last() is Assistant && cells.last()->Assistant_open {
        cells.drop_last().push(
            CellView::Assistant { text: cells.last()->Assistant_text + text, open: true },
        )
    } else {
        texts_closed(cells).push(CellView::Assistant { text, open: true })
    }
}

pub open spec fn thought_grown(cells: Seq<CellView>, text: Seq<char>) -> Seq<CellView> {
    if cells.len() > 0 && cells.last() is Thinking && cells.last()->Thinking_open {
        cells.drop_last().push(
            CellView::Thinking { text: cells.last()->Thinking_text + text, open: true },
        )
    } else {
        texts_closed(cells).push(CellView::Thinking { text, open: true })
    }
}

/// The whole text of an answer replaces what has been shown of it.
pub open spec fn answer_ended(cells: Seq<CellView>, text: Seq<char>) -> Seq<CellView> {
    if cells.len() > 0 && cells.last() is Assistant && cells.last()->Assistant_open {
        cells.drop_last().push(CellView::Assistant { text, open: false })
    } else {
        texts_closed(cells).push(CellView::Assistant { text, open: false })
    }
}

/// The last call of an id that has not ended.
pub open spec fn running(cells: Seq<CellView>, id: Seq<char>) -> Option<int>
    decreases cells.len(),
{
    if cells.len() == 0 {
        None
    } else if cells.last() matches CellView::Tool { id: other, result, .. } && other == id
        && result is None {
        Some(cells.len() - 1)
    } else {
        running(cells.drop_last(), id)
    }
}

pub open spec fn call_ended(cells: Seq<CellView>, id: Seq<char>, output: Seq<char>, is_error: bool) -> Seq<
    CellView,
> {
    match running(cells, id) {
        Some(i) => cells.update(
            i,
            CellView::Tool {
                id,
                name: cells[i]->Tool_name,
                summary: cells[i]->Tool_summary,
                result: Some((output, is_error)),
                open: false,
            },
        ),
        None => cells,
    }
}

#[derive(Debug)]
pub struct Transcript {
    pub cells: Vec<Cell>,
}

impl DeepView for Transcript {
    type V = Seq<CellView>;

    open spec fn deep_view(&self) -> Seq<CellView> {
        self.cells.deep_view()
    }
}

impl Default for Transcript {
    fn default() -> (t: Transcript)
        ensures
            t.deep_view() == Seq::<CellView>::empty(),
    {
        Transcript { cells: empty() }
    }
}

fn close(cell: Cell) -> (r: Cell)
    ensures
        r.deep_view() == closed_cell(cell.deep_view()),
{
    match cell {
        Cell::Assistant { text, open: _ } => Cell::Assistant { text, open: false },
        Cell::Thinking { text, open: _ } => Cell::Thinking { text, open: false },
        Cell::Tool { id, name, summary, result, open: _ } => Cell::Tool {
            id,
            name,
            summary,
            result,
            open: false,
        },
        other => other,
    }
}

impl Transcript {
    pub fn push_user(&mut self, text: String)
        ensures
            final(self).deep_view() == old(self).deep_view().push(CellView::User(text@)),
    {
        put(&mut self.cells, Cell::User(text));
    }

    pub fn push_notice(&mut self, text: String)
        ensures
            final(self).deep_view() == old(self).deep_view().push(CellView::Notice(text@)),
    {
        put(&mut self.cells, Cell::Notice(text));
    }

    pub fn push_error(&mut self, text: String)
        ensures
            final(self).deep_view() == old(self).deep_view().push(CellView::Error(text@)),
    {
        put(&mut self.cells, Cell::Error(text));
    }

    pub fn clear(&mut self)
        ensures
            final(self).deep_view() == Seq::<CellView>::empty(),
    {
        self.cells = empty();
    }

    fn close_some(&mut self, tools_too: bool)
        ensures
            final(self).deep_view() == (if tools_too {
                all_closed(old(self).deep_view())
            } else {
                texts_closed(old(self).deep_view())
            }),
    {
        let ghost all = self.cells.deep_view();
        let ghost goal = if tools_too {
            all_closed(all)
        } else {
            texts_closed(all)
        };
        let mut rest: Vec<Cell> = Vec::new();
        core::mem::swap(&mut rest, &mut self.cells);
        let mut out: Vec<Cell> = empty();
        let ghost mut done: int = 0;
        assert(all.skip(0) =~= all);
        assert(goal.take(0) =~= seq![]);
        while rest.len() > 0
            invariant
                0 <= done <= all.len(),
                rest.deep_view() == all.skip(done),
                rest.deep_view().len() == rest@.len(),
                goal == (if tools_too {
                    all_closed(all)
                } else {
                    texts_closed(all)
                }),
                out.deep_view() == goal.take(done),
            decreases rest@.len(),
        {
            proof {
                take_next(goal, done);
                assert(all.skip(done)[0] == all[done]);
                assert(all.skip(done).drop_first() =~= all.skip(done + 1));
            }
            let cell = pull(&mut rest);
            let keep = !tools_too && matches!(cell, Cell::Tool { .. });
            if keep {
                put(&mut out, cell);
            } else {
                put(&mut out, close(cell));
            }
            proof {
                done = done + 1;
            }
        }
        proof {
            take_all(goal);
        }
        self.cells = out;
    }

    /// Closes everything that is open.
    pub fn close_open_cells(&mut self)
        ensures
            final(self).deep_view() == all_closed(old(self).deep_view()),
    {
        self.close_some(true);
    }

    pub fn append_assistant(&mut self, text: &str)
        ensures
            final(self).deep_view() == answer_grown(old(self).deep_view(), text@),
    {
        let ghost before = self.cells.deep_view();
        assert(before.len() == self.cells@.len());
        match self.cells.pop() {
            Some(Cell::Assistant { text: said, open: true }) => {
                let mut said = said;
                assert(self.cells.deep_view() =~= before.drop_last());
                said.push_str(text);
                put(&mut self.cells, Cell::Assistant { text: said, open: true });
            },
            Some(other) => {
                put(&mut self.cells, other);
                assert(self.cells.deep_view() =~= before);
                self.close_some(false);
                put(&mut self.cells, Cell::Assistant { text: text.to_owned(), open: true });
            },
            None => {
                assert(self.cells.deep_view() =~= before);
                assert(texts_closed(before) =~= before);
                put(&mut self.cells, Cell::Assistant { text: text.to_owned(), open: true });
            },
        }
    }

    pub fn append_thinking(&mut self, text: &str)
        ensures
            final(self).deep_view() == thought_grown(old(self).deep_view(), text@),
    {
        let ghost before = self.cells.deep_view();
        assert(before.len() == self.cells@.len());
        match self.cells.pop() {
            Some(Cell::Thinking { text: said, open: true }) => {
                let mut said = said;
                assert(self.cells.deep_view() =~= before.drop_last());
                said.push_str(text);
                put(&mut self.cells, Cell::Thinking { text: said, open: true });
            },
            Some(other) => {
                put(&mut self.cells, other);
                assert(self.cells.deep_view() =~= before);
                self.close_some(false);
                put(&mut self.cells, Cell::Thinking { text: text.to_owned(), open: true });
            },
            None => {
                assert(self.cells.deep_view() =~= before);
                assert(texts_closed(before) =~= before);
                put(&mut self.cells, Cell::Thinking { text: text.to_owned(), open: true });
            },
        }
    }

    pub fn finalize_assistant(&mut self, text: String)
        ensures
            final(self).deep_view() == answer_ended(old(self).deep_view(), text@),
    {
        let ghost before = self.cells.deep_view();
        assert(before.len() == self.cells@.len());
        match self.cells.pop() {
            Some(Cell::Assistant { text: _, open: true }) => {
                assert(self.cells.deep_view() =~= before.drop_last());
                put(&mut self.cells, Cell::Assistant { text, open: false });
            },
            Some(other) => {
                put(&mut self.cells, other);
                assert(self.cells.deep_view() =~= before);
                self.close_some(false);
                put(&mut self.cells, Cell::Assistant { text, open: false });
            },
            None => {
                assert(self.cells.deep_view() =~= before);
                assert(texts_closed(before) =~= before);
                put(&mut self.cells, Cell::Assistant { text, open: false });
            },
        }
    }

    /// A call begins.
    pub fn push_tool(&mut self, id: String, name: String, summary: String)
        ensures
            final(self).deep_view() == call_begun(old(self).deep_view(), id@, name@, summary@),
    {
        self.close_some(false);
        put(&mut self.cells, Cell::Tool { id, name, summary, result: None, open: true });
    }

    /// A call has ended.
    pub fn finish_tool(&mut self, id: &str, output: String, is_error: bool)
        ensures
            final(self).deep_view() == call_ended(old(self).deep_view(), id@, output@, is_error),
    {
        let ghost all = self.cells.deep_view();
        let mut i: usize = self.cells.len();
        assert(all.len() == i);
        proof {
            take_all(all);
        }
        while i > 0
            invariant
                i <= self.cells@.len(),
                all == self.cells.deep_view(),
                all == old(self).deep_view(),
                running(all, id@) == running(all.take(i as int), id@),
            decreases i,
        {
            i = i - 1;
            proof {
                take_next(all, i as int);
            }
            assert(all[i as int] == self.cells@[i as int].deep_view());
            let found = match &self.cells[i] {
                Cell::Tool { id: other, result: None, .. } => same(other.as_str(), id),
                _ => false,
            };
            if found {
                let (name, summary) = match &self.cells[i] {
                    Cell::Tool { name, summary, .. } => (name.clone(), summary.clone()),
                    _ => ("".to_owned(), "".to_owned()),
                };
                let ghost ov = output@;
                self.cells.set(
                    i,
                    Cell::Tool {
                        id: id.to_owned(),
                        name,
                        summary,
                        result: Some(ToolEnd { output, is_error }),
                        open: false,
                    },
                );
                assert(self.cells.deep_view() =~= call_ended(all, id@, ov, is_error));
                return;
            }
        }
    }

    /// Takes the cells off the beginning that do not change any more.
    pub fn drain_finalized(&mut self) -> (out: Vec<Cell>)
        ensures
            out.deep_view() == old(self).deep_view().take(settled_prefix(old(self).deep_view())),
            final(self).deep_view() == old(self).deep_view().skip(
                settled_prefix(old(self).deep_view()),
            ),
    {
        let ghost all = self.cells.deep_view();
        let mut out: Vec<Cell> = empty();
        let ghost mut done: int = 0;
        assert(all.skip(0) =~= all);
        assert(all.take(0) =~= seq![]);
        assert(all.len() == self.cells@.len());
        while self.cells.len() > 0 && !open_cell(&self.cells[0])
            invariant
                0 <= done <= all.len(),
                self.cells.deep_view() == all.skip(done),
                self.cells.deep_view().len() == self.cells@.len(),
                out.deep_view() == all.take(done),
                settled_prefix(all) == done + settled_prefix(all.skip(done)),
            decreases self.cells@.len(),
        {
            proof {
                take_next(all, done);
                assert(all.skip(done)[0] == all[done]);
                assert(self.cells.deep_view()[0] == self.cells@[0].deep_view());
                assert(all.skip(done).drop_first() =~= all.skip(done + 1));
            }
            let cell = pull(&mut self.cells);
            put(&mut out, cell);
            proof {
                done = done + 1;
            }
        }
        proof {
            if self.cells@.len() > 0 {
                assert(self.cells.deep_view()[0] == self.cells@[0].deep_view());
            }
            assert(settled_prefix(all.skip(done)) == 0);
        }
        out
    }
}

fn open_cell(cell: &Cell) -> (r: bool)
    ensures
        r == is_open(cell.deep_view()),
{
    match cell {
        Cell::Assistant { open, .. } => *open,
        Cell::Thinking { open, .. } => *open,
        Cell::Tool { open, .. } => *open,
        _ => false,
    }
}

pub open spec fn call_begun(cells: Seq<CellView>, id: Seq<char>, name: Seq<char>, summary: Seq<char>) -> Seq<
    CellView,
> {
    texts_closed(cells).push(CellView::Tool { id, name, summary, result: None, open: true })
}

/// How many cells at the beginning do not change any more.
pub open spec fn settled_prefix(cells: Seq<CellView>) -> int
    decreases cells.len(),
{
    if cells.len() == 0 || is_open(cells[0]) {
        0
    } else {
        1 + settled_prefix(cells.drop_first())
    }
}

// ---- Laws ----

/// Once everything is closed, all of it is final.
pub proof fn law_closed_cells_are_final(cells: Seq<CellView>)
    ensures
        settled_prefix(all_closed(cells)) == cells.len(),
    decreases cells.len(),
{
    if cells.len() > 0 {
        law_closed_cells_are_final(cells.drop_first());
        assert(all_closed(cells).drop_first() =~= all_closed(cells.drop_first()));
    }
}

/// The pieces of an answer make up its text.
pub proof fn law_pieces_make_the_answer(cells: Seq<CellView>, a: Seq<char>, b: Seq<char>)
    ensures
        answer_grown(answer_grown(cells, a), b) == answer_grown(cells, a + b),
{
    let once = answer_grown(cells, a);
    assert(once.last() is Assistant && once.last()->Assistant_open);
    if cells.len() > 0 && cells.last() is Assistant && cells.last()->Assistant_open {
        let said = cells.last()->Assistant_text;
        assert(said + a + b =~= said + (a + b));
        assert(once.drop_last() =~= cells.drop_last());
    } else {
        assert(once.drop_last() =~= texts_closed(cells));
    }
}

} // verus!
