//! The line that is being typed.
use vstd::prelude::*;

use crate::list::{empty, put};
use crate::text::{chars_of, is_white, white};
use crate::tui::wrap::{law_full_rows_stay, rows_of, wrap_chars, wrapped};

verus! {

/// Text with a cursor between two of its characters.
#[derive(Debug)]
pub struct InputBox {
    chars: Vec<char>,
    cursor: usize,
}

#[verifier::ext_equal]
pub struct InputState {
    pub text: Seq<char>,
    pub cursor: int,
}

impl DeepView for InputBox {
    type V = InputState;

    closed spec fn deep_view(&self) -> InputState {
        InputState {
            text: self.chars@,
            cursor: if self.cursor <= self.chars@.len() {
                self.cursor as int
            } else {
                self.chars@.len() as int
            },
        }
    }
}

/// An empty line.
pub open spec fn no_input() -> InputState {
    InputState { text: seq![], cursor: 0 }
}

/// A text with the cursor at its end.
pub open spec fn input_of(text: Seq<char>) -> InputState {
    InputState { text, cursor: text.len() as int }
}

/// Where the line begins in which a place lies.
pub open spec fn line_start(text: Seq<char>, at: int) -> int
    decreases at,
{
    if at <= 0 {
        0
    } else if text[at - 1] == '\n' {
        at
    } else {
        line_start(text, at - 1)
    }
}

/// Where the line ends in which a place lies.
pub open spec fn line_end(text: Seq<char>, at: int) -> int
    decreases text.len() - at,
{
    if at >= text.len() {
        text.len() as int
    } else if text[at] == '\n' {
        at
    } else {
        line_end(text, at + 1)
    }
}

/// The first place at or before `at` that has no white space before it.
pub open spec fn back_over_space(text: Seq<char>, at: int) -> int
    decreases at,
{
    if at > 0 && is_white(text[at - 1]) {
        back_over_space(text, at - 1)
    } else {
        at
    }
}

pub open spec fn back_over_word(text: Seq<char>, at: int) -> int
    decreases at,
{
    if at > 0 && !is_white(text[at - 1]) {
        back_over_word(text, at - 1)
    } else {
        at
    }
}

/// Where the word before a place begins.
pub open spec fn word_left(text: Seq<char>, at: int) -> int {
    back_over_word(text, back_over_space(text, at))
}

pub open spec fn over_space(text: Seq<char>, at: int) -> int
    decreases text.len() - at,
{
    if at < text.len() && is_white(text[at]) {
        over_space(text, at + 1)
    } else {
        at
    }
}

pub open spec fn over_word(text: Seq<char>, at: int) -> int
    decreases text.len() - at,
{
    if at < text.len() && !is_white(text[at]) {
        over_word(text, at + 1)
    } else {
        at
    }
}

/// Where the word after a place ends.
pub open spec fn word_right(text: Seq<char>, at: int) -> int {
    over_word(text, over_space(text, at))
}

/// The text without the characters from `from` to `to`.
pub open spec fn without(text: Seq<char>, from: int, to: int) -> Seq<char> {
    text.take(from) + text.skip(to)
}

/// The place in the line above, or below, that lies as far from the line's beginning as can be.
pub open spec fn vertical(s: InputState, up: bool) -> int {
    let start = line_start(s.text, s.cursor);
    let column = s.cursor - start;
    if up {
        if start == 0 {
            s.cursor
        } else {
            let above = line_start(s.text, start - 1);
            if column <= start - 1 - above {
                above + column
            } else {
                start - 1
            }
        }
    } else {
        let end = line_end(s.text, s.cursor);
        if end >= s.text.len() {
            s.cursor
        } else {
            let below = end + 1;
            let last = line_end(s.text, below);
            if below + column <= last {
                below + column
            } else {
                last
            }
        }
    }
}

proof fn line_start_bounds(text: Seq<char>, at: int)
    requires
        0 <= at <= text.len(),
    ensures
        0 <= line_start(text, at) <= at,
        line_start(text, at) > 0 ==> text[line_start(text, at) - 1] == '\n',
    decreases at,
{
    if at > 0 && text[at - 1] != '\n' {
        line_start_bounds(text, at - 1);
    }
}

/// A line ends at or behind each of its places.
pub proof fn line_end_bounds(text: Seq<char>, at: int)
    requires
        0 <= at <= text.len(),
    ensures
        at <= line_end(text, at) <= text.len(),
    decreases text.len() - at,
{
    if at < text.len() && text[at] != '\n' {
        line_end_bounds(text, at + 1);
    }
}

proof fn back_bounds(text: Seq<char>, at: int)
    requires
        0 <= at <= text.len(),
    ensures
        0 <= back_over_space(text, at) <= at,
        0 <= back_over_word(text, at) <= at,
    decreases at,
{
    if at > 0 {
        back_bounds(text, at - 1);
    }
}

proof fn over_bounds(text: Seq<char>, at: int)
    requires
        0 <= at <= text.len(),
    ensures
        at <= over_space(text, at) <= text.len(),
        at <= over_word(text, at) <= text.len(),
    decreases text.len() - at,
{
    if at < text.len() {
        over_bounds(text, at + 1);
    }
}

// ---- What each key does to the line ----

pub open spec fn typed(s: InputState, c: char) -> InputState {
    InputState { text: s.text.insert(s.cursor, c), cursor: s.cursor + 1 }
}

pub open spec fn pasted(s: InputState, t: Seq<char>) -> InputState {
    InputState {
        text: s.text.take(s.cursor) + t + s.text.skip(s.cursor),
        cursor: s.cursor + t.len(),
    }
}

pub open spec fn erased(s: InputState) -> InputState {
    if s.cursor > 0 {
        InputState { text: s.text.remove(s.cursor - 1), cursor: s.cursor - 1 }
    } else {
        s
    }
}

pub open spec fn deleted(s: InputState) -> InputState {
    if s.cursor < s.text.len() {
        InputState { text: s.text.remove(s.cursor), cursor: s.cursor }
    } else {
        s
    }
}

pub open spec fn at_place(s: InputState, at: int) -> InputState {
    InputState { cursor: at, ..s }
}

pub open spec fn left_of(s: InputState) -> InputState {
    if s.cursor > 0 {
        at_place(s, s.cursor - 1)
    } else {
        s
    }
}

pub open spec fn right_of(s: InputState) -> InputState {
    if s.cursor < s.text.len() {
        at_place(s, s.cursor + 1)
    } else {
        s
    }
}

pub open spec fn without_word(s: InputState) -> InputState {
    let from = word_left(s.text, s.cursor);
    InputState { text: without(s.text, from, s.cursor), cursor: from }
}

pub open spec fn without_line_rest(s: InputState) -> InputState {
    InputState {
        text: without(s.text, s.cursor, line_end(s.text, s.cursor)),
        cursor: s.cursor,
    }
}

/// The text ends with a backslash and the cursor stands behind it.
pub open spec fn continues(s: InputState) -> bool {
    s.text.len() > 0 && s.cursor == s.text.len() && s.text.last() == '\\'
}

impl Default for InputBox {
    fn default() -> (b: InputBox)
        ensures
            b.deep_view() == no_input(),
    {
        InputBox { chars: Vec::new(), cursor: 0 }
    }
}

impl InputBox {
    /// Where the cursor stands.
    pub fn cursor(&self) -> (at: usize)
        ensures
            at == self.deep_view().cursor,
            at <= self.deep_view().text.len(),
    {
        if self.cursor <= self.chars.len() {
            self.cursor
        } else {
            self.chars.len()
        }
    }

    pub fn text(&self) -> (s: String)
        ensures
            s@ == self.deep_view().text,
    {
        let mut s = String::new();
        let mut i: usize = 0;
        assert(s@ =~= self.chars@.take(0));
        while i < self.chars.len()
            invariant
                i <= self.chars@.len(),
                s@ == self.chars@.take(i as int),
            decreases self.chars@.len() - i,
        {
            s.push(self.chars[i]);
            i = i + 1;
            assert(s@ =~= self.chars@.take(i as int));
        }
        assert(self.chars@.take(i as int) =~= self.chars@);
        s
    }

    pub fn is_empty(&self) -> (r: bool)
        ensures
            r == (self.deep_view().text.len() == 0),
    {
        self.chars.len() == 0
    }

    pub fn is_multiline(&self) -> (r: bool)
        ensures
            r == self.deep_view().text.contains('\n'),
    {
        let mut i: usize = 0;
        while i < self.chars.len()
            invariant
                i <= self.chars@.len(),
                forall|k: int| 0 <= k < i ==> self.chars@[k] != '\n',
            decreases self.chars@.len() - i,
        {
            if self.chars[i] == '\n' {
                assert(self.chars@[i as int] == '\n');
                return true;
            }
            i = i + 1;
        }
        false
    }

    pub fn clear(&mut self)
        ensures
            final(self).deep_view() == no_input(),
    {
        self.chars = Vec::new();
        self.cursor = 0;
    }

    pub fn set(&mut self, text: String)
        ensures
            final(self).deep_view() == input_of(text@),
    {
        self.chars = chars_of(text.as_str());
        self.cursor = self.chars.len();
    }

    /// Takes the text out.
    pub fn take(&mut self) -> (s: String)
        ensures
            s@ == old(self).deep_view().text,
            final(self).deep_view() == no_input(),
    {
        let s = self.text();
        self.clear();
        s
    }

    pub fn insert_char(&mut self, c: char)
        ensures
            final(self).deep_view() == typed(old(self).deep_view(), c),
    {
        let at = self.cursor();
        self.chars.insert(at, c);
        let n: usize = self.chars.len();
        assert(at < n);
        self.cursor = at + 1;
    }

    pub fn insert_str(&mut self, t: &str)
        ensures
            final(self).deep_view() == pasted(old(self).deep_view(), t@),
    {
        let ghost start = self.deep_view();
        let chars = chars_of(t);
        let mut i: usize = 0;
        assert(pasted(start, t@.take(0)) =~= start);
        while i < chars.len()
            invariant
                i <= chars@.len(),
                chars@ == t@,
                0 <= start.cursor <= start.text.len(),
                self.deep_view() == pasted(start, t@.take(i as int)),
            decreases chars@.len() - i,
        {
            self.insert_char(chars[i]);
            i = i + 1;
            assert(self.deep_view() =~= pasted(start, t@.take(i as int)));
        }
        assert(t@.take(i as int) =~= t@);
    }

    pub fn backspace(&mut self)
        ensures
            final(self).deep_view() == erased(old(self).deep_view()),
    {
        let at = self.cursor();
        if at > 0 {
            self.chars.remove(at - 1);
            self.cursor = at - 1;
        }
    }

    pub fn delete(&mut self)
        ensures
            final(self).deep_view() == deleted(old(self).deep_view()),
    {
        let at = self.cursor();
        if at < self.chars.len() {
            self.chars.remove(at);
            self.cursor = at;
        }
    }

    pub fn move_left(&mut self)
        ensures
            final(self).deep_view() == left_of(old(self).deep_view()),
    {
        let at = self.cursor();
        if at > 0 {
            self.cursor = at - 1;
        }
    }

    pub fn move_right(&mut self)
        ensures
            final(self).deep_view() == right_of(old(self).deep_view()),
    {
        let at = self.cursor();
        if at < self.chars.len() {
            self.cursor = at + 1;
        }
    }

    fn start_of_line(&self, at: usize) -> (r: usize)
        requires
            at <= self.deep_view().text.len(),
        ensures
            r == line_start(self.deep_view().text, at as int),
    {
        let mut r = at;
        while r > 0 && self.chars[r - 1] != '\n'
            invariant
                r <= at <= self.chars@.len(),
                line_start(self.chars@, at as int) == line_start(self.chars@, r as int),
            decreases r,
        {
            r = r - 1;
        }
        r
    }

    fn end_of_line(&self, at: usize) -> (r: usize)
        requires
            at <= self.deep_view().text.len(),
        ensures
            r == line_end(self.deep_view().text, at as int),
    {
        let mut r = at;
        while r < self.chars.len() && self.chars[r] != '\n'
            invariant
                r <= self.chars@.len(),
                line_end(self.chars@, at as int) == line_end(self.chars@, r as int),
            decreases self.chars@.len() - r,
        {
            r = r + 1;
        }
        r
    }

    pub fn move_home(&mut self)
        ensures
            final(self).deep_view() == at_place(
                old(self).deep_view(),
                line_start(old(self).deep_view().text, old(self).deep_view().cursor),
            ),
    {
        let at = self.cursor();
        proof {
            line_start_bounds(self.chars@, at as int);
        }
        self.cursor = self.start_of_line(at);
    }

    pub fn move_end(&mut self)
        ensures
            final(self).deep_view() == at_place(
                old(self).deep_view(),
                line_end(old(self).deep_view().text, old(self).deep_view().cursor),
            ),
    {
        let at = self.cursor();
        proof {
            line_end_bounds(self.chars@, at as int);
        }
        self.cursor = self.end_of_line(at);
    }

    pub fn move_start(&mut self)
        ensures
            final(self).deep_view() == at_place(old(self).deep_view(), 0),
    {
        self.cursor = 0;
    }

    pub fn move_end_all(&mut self)
        ensures
            final(self).deep_view() == input_of(old(self).deep_view().text),
    {
        self.cursor = self.chars.len();
    }

    fn left_word(&self) -> (r: usize)
        ensures
            r == word_left(self.deep_view().text, self.deep_view().cursor),
            r <= self.deep_view().cursor,
    {
        let at = self.cursor();
        let mut r = at;
        while r > 0 && white(self.chars[r - 1])
            invariant
                r <= at <= self.chars@.len(),
                back_over_space(self.chars@, at as int) == back_over_space(self.chars@, r as int),
            decreases r,
        {
            r = r - 1;
        }
        let ghost mid = r as int;
        while r > 0 && !white(self.chars[r - 1])
            invariant
                r <= mid <= at <= self.chars@.len(),
                back_over_word(self.chars@, mid) == back_over_word(self.chars@, r as int),
            decreases r,
        {
            r = r - 1;
        }
        r
    }

    pub fn move_word_left(&mut self)
        ensures
            final(self).deep_view() == at_place(
                old(self).deep_view(),
                word_left(old(self).deep_view().text, old(self).deep_view().cursor),
            ),
    {
        self.cursor = self.left_word();
    }

    pub fn move_word_right(&mut self)
        ensures
            final(self).deep_view() == at_place(
                old(self).deep_view(),
                word_right(old(self).deep_view().text, old(self).deep_view().cursor),
            ),
    {
        let at = self.cursor();
        let mut r = at;
        while r < self.chars.len() && white(self.chars[r])
            invariant
                r <= self.chars@.len(),
                over_space(self.chars@, at as int) == over_space(self.chars@, r as int),
            decreases self.chars@.len() - r,
        {
            r = r + 1;
        }
        let ghost mid = r as int;
        while r < self.chars.len() && !white(self.chars[r])
            invariant
                r <= self.chars@.len(),
                over_word(self.chars@, mid) == over_word(self.chars@, r as int),
            decreases self.chars@.len() - r,
        {
            r = r + 1;
        }
        self.cursor = r;
    }

    fn cut(&mut self, from: usize, to: usize)
        requires
            from <= to <= old(self).deep_view().text.len(),
        ensures
            final(self).deep_view() == (InputState {
                text: without(old(self).deep_view().text, from as int, to as int),
                cursor: from as int,
            }),
    {
        let ghost before = self.chars@;
        let mut out: Vec<char> = Vec::new();
        let mut i: usize = 0;
        while i < self.chars.len()
            invariant
                i <= self.chars@.len(),
                self.chars@ == before,
                from <= to <= before.len(),
                out@ == (if i <= from {
                    before.take(i as int)
                } else if i <= to {
                    before.take(from as int)
                } else {
                    before.take(from as int) + before.subrange(to as int, i as int)
                }),
            decreases self.chars@.len() - i,
        {
            if i < from || i >= to {
                out.push(self.chars[i]);
            }
            i = i + 1;
            assert(out@ =~= (if i <= from {
                before.take(i as int)
            } else if i <= to {
                before.take(from as int)
            } else {
                before.take(from as int) + before.subrange(to as int, i as int)
            }));
        }
        assert(out@ =~= without(before, from as int, to as int));
        self.chars = out;
        self.cursor = from;
    }

    pub fn delete_word_left(&mut self)
        ensures
            final(self).deep_view() == without_word(old(self).deep_view()),
    {
        let at = self.cursor();
        let from = self.left_word();
        self.cut(from, at);
    }

    pub fn delete_to_line_end(&mut self)
        ensures
            final(self).deep_view() == without_line_rest(old(self).deep_view()),
    {
        let at = self.cursor();
        proof {
            line_end_bounds(self.chars@, at as int);
        }
        let end = self.end_of_line(at);
        self.cut(at, end);
    }

    /// Moves the cursor to the line above, or below.
    pub fn move_vertical(&mut self, up: bool)
        ensures
            final(self).deep_view() == at_place(
                old(self).deep_view(),
                vertical(old(self).deep_view(), up),
            ),
    {
        let at = self.cursor();
        let ghost text = self.chars@;
        proof {
            line_start_bounds(text, at as int);
            line_end_bounds(text, at as int);
        }
        let start = self.start_of_line(at);
        let column = at - start;
        if up {
            if start > 0 {
                proof {
                    line_start_bounds(text, start - 1);
                }
                let above = self.start_of_line(start - 1);
                if column <= start - 1 - above {
                    self.cursor = above + column;
                } else {
                    self.cursor = start - 1;
                }
            }
        } else {
            let end = self.end_of_line(at);
            if end < self.chars.len() {
                let below = end + 1;
                proof {
                    line_end_bounds(text, below as int);
                }
                let last = self.end_of_line(below);
                if column <= last - below {
                    self.cursor = below + column;
                } else {
                    self.cursor = last;
                }
            }
        }
    }

    /// Takes the backslash off the end, if there is one.
    pub fn pop_trailing_backslash(&mut self) -> (r: bool)
        ensures
            r == continues(old(self).deep_view()),
            final(self).deep_view() == (if r {
                erased(old(self).deep_view())
            } else {
                old(self).deep_view()
            }),
    {
        let at = self.cursor();
        if at > 0 && at == self.chars.len() && self.chars[at - 1] == '\\' {
            self.backspace();
            true
        } else {
            false
        }
    }
}

// ---- Laws ----

/// Erasing what was just typed leaves the line as it was.
pub proof fn law_erasing_undoes_typing(s: InputState, c: char)
    requires
        0 <= s.cursor <= s.text.len(),
    ensures
        erased(typed(s, c)) == s,
{
    assert(erased(typed(s, c)).text =~= s.text);
}

/// The cursor never leaves the text.
pub proof fn law_cursor_stays_in_the_text(s: InputState, c: char, t: Seq<char>, up: bool)
    requires
        0 <= s.cursor <= s.text.len(),
    ensures
        0 <= typed(s, c).cursor <= typed(s, c).text.len(),
        0 <= pasted(s, t).cursor <= pasted(s, t).text.len(),
        0 <= erased(s).cursor <= erased(s).text.len(),
        0 <= deleted(s).cursor <= deleted(s).text.len(),
        0 <= left_of(s).cursor <= left_of(s).text.len(),
        0 <= right_of(s).cursor <= right_of(s).text.len(),
        0 <= without_word(s).cursor <= without_word(s).text.len(),
        0 <= without_line_rest(s).cursor <= without_line_rest(s).text.len(),
        0 <= word_left(s.text, s.cursor) <= s.text.len(),
        0 <= word_right(s.text, s.cursor) <= s.text.len(),
        0 <= vertical(s, up) <= s.text.len(),
{
    back_bounds(s.text, s.cursor);
    back_bounds(s.text, back_over_space(s.text, s.cursor));
    over_bounds(s.text, s.cursor);
    over_bounds(s.text, over_space(s.text, s.cursor));
    line_start_bounds(s.text, s.cursor);
    line_end_bounds(s.text, s.cursor);
    let start = line_start(s.text, s.cursor);
    if start > 0 {
        line_start_bounds(s.text, start - 1);
    }
    let end = line_end(s.text, s.cursor);
    if end < s.text.len() {
        line_end_bounds(s.text, end + 1);
    }
}

// ---- What is shown of it ----

/// The rows of a line that are shown, and where the cursor stands in them.
#[derive(Debug)]
pub struct InputView {
    pub rows: Vec<String>,
    /// How many rows the whole line takes.
    pub total_rows: usize,
    pub cursor_row: usize,
    pub cursor_col: u16,
}

#[verifier::ext_equal]
pub struct InputShown {
    pub rows: Seq<Seq<char>>,
    pub total_rows: nat,
    pub cursor_row: int,
    pub cursor_col: int,
}

impl DeepView for InputView {
    type V = InputShown;

    open spec fn deep_view(&self) -> InputShown {
        InputShown {
            rows: self.rows.deep_view(),
            total_rows: self.total_rows as nat,
            cursor_row: self.cursor_row as int,
            cursor_col: self.cursor_col as int,
        }
    }
}

/// What is shown of a line in `width` columns and at most `max_rows` rows, and never in less than
/// one: the row of the cursor, and as many of those above as there is room for.
pub open spec fn shown(s: InputState, width: u16, max_rows: usize) -> InputShown {
    let columns = if width == 0 {
        1
    } else {
        width as nat
    };
    let most = if max_rows == 0 {
        1
    } else {
        max_rows as int
    };
    let rows = rows_of(s.text, columns);
    let up_to = wrapped(s.text.take(s.cursor), columns);
    let at = up_to.rows.len() as int;
    let first = if at + 1 > most {
        at + 1 - most
    } else {
        0
    };
    InputShown {
        rows: rows.subrange(
            first,
            if first + most < rows.len() {
                first + most
            } else {
                rows.len() as int
            },
        ),
        total_rows: rows.len(),
        cursor_row: at - first,
        cursor_col: if up_to.used > u16::MAX {
            u16::MAX as int
        } else {
            up_to.used as int
        },
    }
}

impl InputBox {
    /// The rows to show in `width` columns, at most `max_rows` of them.
    pub fn view(&self, width: u16, max_rows: usize) -> (v: InputView)
        ensures
            v.deep_view() == shown(self.deep_view(), width, max_rows),
    {
        let columns: usize = if width == 0 {
            1
        } else {
            width as usize
        };
        let most: usize = if max_rows == 0 {
            1
        } else {
            max_rows
        };
        let cursor = self.cursor();
        let (all, _) = wrap_chars(&self.chars, self.chars.len(), columns);
        let (up_to, used) = wrap_chars(&self.chars, cursor, columns);
        let ghost text = self.chars@;
        proof {
            law_full_rows_stay(text, columns as nat, cursor as int);
            assert(text.take(text.len() as int) =~= text);
            assert(all.deep_view().len() == all@.len());
            assert(up_to.deep_view().len() == up_to@.len());
        }
        let at = up_to.len() - 1;
        let first: usize = if at >= most {
            at - most + 1
        } else {
            0
        };
        let last: usize = if most < all.len() - first {
            first + most
        } else {
            all.len()
        };
        let ghost goal = all.deep_view();
        let mut rows: Vec<String> = empty();
        let mut i: usize = first;
        assert(goal.subrange(first as int, first as int) =~= seq![]);
        while i < last
            invariant
                first <= i <= last <= all@.len(),
                goal == all.deep_view(),
                rows.deep_view() == goal.subrange(first as int, i as int),
            decreases last - i,
        {
            put(&mut rows, all[i].clone());
            i = i + 1;
            assert(rows.deep_view() =~= goal.subrange(first as int, i as int));
        }
        InputView {
            rows,
            total_rows: all.len(),
            cursor_row: at - first,
            cursor_col: if used > 65535 {
                65535
            } else {
                used as u16
            },
        }
    }
}

/// The cursor stands in a row that is shown.
pub proof fn law_the_cursor_is_shown(s: InputState, width: u16, max_rows: usize)
    requires
        0 <= s.cursor <= s.text.len(),
    ensures
        0 <= shown(s, width, max_rows).cursor_row < shown(s, width, max_rows).rows.len(),
        max_rows > 0 ==> shown(s, width, max_rows).rows.len() <= max_rows,
{
    let columns = if width == 0 {
        1
    } else {
        width as nat
    };
    law_full_rows_stay(s.text, columns, s.cursor);
}

} // verus!
