//! Text helpers: strings seen as sequences of characters.
use vstd::prelude::*;

use crate::list::{empty, put, take_all, take_next};

verus! {

/// `str::eq` answers whether two strings hold the same characters.
pub assume_specification[ <str as PartialEq>::eq ](a: &str, b: &str) -> (r: bool)
    ensures
        r == (a@ == b@),
;

/// `String::push` appends one character.
pub assume_specification[ String::push ](s: &mut String, c: char)
    ensures
        final(s)@ == old(s)@.push(c),
;

/// `String::push_str` appends the characters of `t`.
pub assume_specification[ String::push_str ](s: &mut String, t: &str)
    ensures
        final(s)@ == old(s)@ + t@,
;

/// How a text reads in quotes, with escapes: the `Debug` form of `str`.
pub uninterp spec fn quoted_text(text: Seq<char>) -> Seq<char>;

/// The `Debug` form of `str`: a function of the text alone.
#[verifier::external_body]
pub(crate) fn quoted(text: &str) -> (out: String)
    ensures
        out@ == quoted_text(text@),
{
    format!("{:?}", text)
}

pub fn same(a: &str, b: &str) -> (r: bool)
    ensures
        r == (a@ == b@),
{
    *a == *b
}

pub fn chars_of(s: &str) -> (out: Vec<char>)
    ensures
        out@ == s@,
{
    let mut out: Vec<char> = Vec::new();
    for c in it: s.chars()
        invariant
            out@ == it.seq().take(it.index()),
            it.seq() == s@,
    {
        out.push(c);
    }
    out
}

pub open spec fn dec(n: nat) -> Seq<char>
    decreases n,
{
    if n < 10 {
        seq![digit(n)]
    } else {
        dec(n / 10).push(digit(n % 10))
    }
}

pub open spec fn digit(n: nat) -> char {
    (n + 48) as char
}

fn digit_char(n: u64) -> (c: char)
    requires
        n < 10,
    ensures
        c == digit(n as nat),
{
    (48 + n as u8) as char
}

pub fn decimal(n: u64) -> (s: String)
    ensures
        s@ == dec(n as nat),
    decreases n,
{
    let mut s = if n < 10 { String::new() } else { decimal(n / 10) };
    s.push(digit_char(n % 10));
    s
}

/// A number of any size that the machine holds, in decimal.
pub fn decimal_wide(n: u128) -> (s: String)
    ensures
        s@ == dec(n as nat),
    decreases n,
{
    let mut s = if n < 10 {
        String::new()
    } else {
        decimal_wide(n / 10)
    };
    s.push(digit_char((n % 10) as u64));
    s
}

/// A signed number in decimal.
pub open spec fn signed(n: int) -> Seq<char> {
    if n < 0 {
        seq!['-'] + dec((-n) as nat)
    } else {
        dec(n as nat)
    }
}

pub fn signed_decimal(n: i32) -> (s: String)
    ensures
        s@ == signed(n as int),
{
    if n < 0 {
        let mut s = String::new();
        s.push('-');
        s.push_str(decimal((-(n as i64)) as u64).as_str());
        assert(s@ =~= signed(n as int));
        s
    } else {
        decimal(n as u64)
    }
}

/// Whether `a` comes no later than `b` in the order of strings (by code point, a prefix first).
pub open spec fn text_le(a: Seq<char>, b: Seq<char>) -> bool
    decreases a.len(),
{
    a.len() == 0 || (b.len() > 0 && (a[0] < b[0] || (a[0] == b[0] && text_le(
        a.drop_first(),
        b.drop_first(),
    ))))
}

pub fn no_later(a: &str, b: &str) -> (r: bool)
    ensures
        r == text_le(a@, b@),
{
    let x = chars_of(a);
    let y = chars_of(b);
    let mut i: usize = 0;
    assert(x@.skip(0) =~= x@);
    assert(y@.skip(0) =~= y@);
    while i < x.len() && i < y.len()
        invariant
            x@ == a@,
            y@ == b@,
            i <= x@.len(),
            i <= y@.len(),
            text_le(x@, y@) == text_le(x@.skip(i as int), y@.skip(i as int)),
        decreases x@.len() - i,
    {
        assert(x@.skip(i as int)[0] == x@[i as int]);
        assert(y@.skip(i as int)[0] == y@[i as int]);
        assert(x@.skip(i as int).drop_first() =~= x@.skip(i + 1));
        assert(y@.skip(i as int).drop_first() =~= y@.skip(i + 1));
        if x[i] < y[i] {
            return true;
        }
        if x[i] > y[i] {
            return false;
        }
        i = i + 1;
    }
    i == x.len()
}

/// `x` put into a sorted list, behind the entries that are no later.
pub open spec fn insert_text(s: Seq<Seq<char>>, x: Seq<char>) -> Seq<Seq<char>>
    decreases s.len(),
{
    if s.len() == 0 {
        seq![x]
    } else if text_le(s.last(), x) {
        s.push(x)
    } else {
        insert_text(s.drop_last(), x).push(s.last())
    }
}

/// The texts in ascending order.
pub open spec fn sorted_texts(s: Seq<Seq<char>>) -> Seq<Seq<char>>
    decreases s.len(),
{
    if s.len() == 0 {
        seq![]
    } else {
        insert_text(sorted_texts(s.drop_last()), s.last())
    }
}

pub fn put_sorted(list: &mut Vec<String>, x: String)
    ensures
        final(list).deep_view() == insert_text(old(list).deep_view(), x@),
{
    let ghost before = list.deep_view();
    let mut i: usize = list.len();
    assert(before.take(before.len() as int) =~= before);
    assert(before.skip(before.len() as int) =~= seq![]);
    while i > 0 && !no_later(list[i - 1].as_str(), x.as_str())
        invariant
            i <= list@.len(),
            before == list.deep_view(),
            insert_text(before, x@) == insert_text(before.take(i as int), x@) + before.skip(i as int),
        decreases i,
    {
        i = i - 1;
        proof {
            let shorter = before.take(i + 1);
            assert(shorter.drop_last() =~= before.take(i as int));
            assert(insert_text(before.take(i as int), x@).push(before[i as int]) + before.skip(i + 1)
                =~= insert_text(before.take(i as int), x@) + before.skip(i as int));
        }
    }
    list.insert(i, x);
    proof {
        assert(list.deep_view() =~= before.take(i as int).push(x@) + before.skip(i as int));
        if i > 0 {
            assert(before.take(i as int).last() == before[i - 1]);
        } else {
            assert(before.take(0).push(x@) =~= seq![x@]);
        }
    }
}

/// The texts in ascending order; equal ones keep their order.
pub fn sort_texts(list: Vec<String>) -> (out: Vec<String>)
    ensures
        out.deep_view() == sorted_texts(list.deep_view()),
{
    let mut out: Vec<String> = empty();
    let ghost all = list.deep_view();
    let mut i: usize = 0;
    while i < list.len()
        invariant
            i <= list@.len(),
            all == list.deep_view(),
            out.deep_view() == sorted_texts(all.take(i as int)),
        decreases list@.len() - i,
    {
        proof {
            take_next(all, i as int);
        }
        put_sorted(&mut out, list[i].clone());
        i = i + 1;
    }
    proof {
        take_all(all);
    }
    out
}

pub proof fn insert_text_keeps(s: Seq<Seq<char>>, x: Seq<char>)
    ensures
        insert_text(s, x).len() == s.len() + 1,
        forall|y: Seq<char>| insert_text(s, x).contains(y) <==> (s.contains(y) || y == x),
        s.no_duplicates() && !s.contains(x) ==> insert_text(s, x).no_duplicates(),
    decreases s.len(),
{
    broadcast use vstd::seq_lib::group_seq_properties;

    if s.len() == 0 {
    } else if text_le(s.last(), x) {
    } else {
        insert_text_keeps(s.drop_last(), x);
        assert(s =~= s.drop_last().push(s.last()));
        let t = insert_text(s.drop_last(), x);
        assert forall|y: Seq<char>| t.push(s.last()).contains(y) implies s.contains(y) || y == x by {
            if y != s.last() {
                assert(t.contains(y));
            }
        }
        assert forall|y: Seq<char>| s.contains(y) || y == x implies t.push(s.last()).contains(y) by {
            if y != s.last() {
                if y != x {
                    let k = choose|k: int| 0 <= k < s.len() && s[k] == y;
                    assert(s.drop_last()[k] == y);
                }
                assert(t.contains(y));
                let k = choose|k: int| 0 <= k < t.len() && t[k] == y;
                assert(t.push(s.last())[k] == y);
            } else {
                assert(t.push(s.last())[t.len() as int] == y);
            }
        }
        if s.no_duplicates() && !s.contains(x) {
            assert(!s.drop_last().contains(s.last()));
            assert(!t.contains(s.last()));
        }
    }
}

/// Sorting keeps every text, and adds none.
pub proof fn sorted_texts_keeps(s: Seq<Seq<char>>)
    ensures
        sorted_texts(s).len() == s.len(),
        forall|y: Seq<char>| sorted_texts(s).contains(y) <==> s.contains(y),
        s.no_duplicates() ==> sorted_texts(s).no_duplicates(),
    decreases s.len(),
{
    if s.len() > 0 {
        sorted_texts_keeps(s.drop_last());
        insert_text_keeps(sorted_texts(s.drop_last()), s.last());
        assert forall|y: Seq<char>| s.contains(y) implies s.drop_last().contains(y) || y == s.last() by {
            let k = choose|k: int| 0 <= k < s.len() && s[k] == y;
            if k < s.len() - 1 {
                assert(s.drop_last()[k] == y);
            }
        }
        assert forall|y: Seq<char>| s.drop_last().contains(y) implies s.contains(y) by {
            let k = choose|k: int| 0 <= k < s.len() - 1 && s.drop_last()[k] == y;
            assert(s[k] == y);
        }
        if s.no_duplicates() {
            assert(!s.drop_last().contains(s.last()));
        }
    }
}

// ---- Cutting and joining ----

/// The pieces of a text between occurrences of `sep`; always at least one.
pub open spec fn split_on(text: Seq<char>, sep: char) -> Seq<Seq<char>>
    decreases text.len(),
{
    if text.len() == 0 {
        seq![seq![]]
    } else {
        let before = split_on(text.drop_last(), sep);
        if text.last() == sep {
            before.push(seq![])
        } else {
            before.drop_last().push(before.last().push(text.last()))
        }
    }
}

pub fn split(text: &str, sep: char) -> (out: Vec<String>)
    ensures
        out.deep_view() == split_on(text@, sep),
        out@.len() > 0,
{
    let chars = chars_of(text);
    let mut out: Vec<String> = empty();
    let mut last = String::new();
    let mut i: usize = 0;
    assert(out.deep_view().push(last@) =~= seq![Seq::<char>::empty()]);
    while i < chars.len()
        invariant
            i <= chars@.len(),
            chars@ == text@,
            out.deep_view().push(last@) == split_on(text@.take(i as int), sep),
        decreases chars@.len() - i,
    {
        proof {
            take_next(text@, i as int);
        }
        let ghost was = out.deep_view().push(last@);
        assert(was.drop_last() =~= out.deep_view());
        let c = chars[i];
        if c == sep {
            put(&mut out, last);
            last = String::new();
        } else {
            last.push(c);
        }
        i = i + 1;
    }
    proof {
        take_all(text@);
    }
    put(&mut out, last);
    out
}

/// Whether `text` begins with `prefix`.
pub open spec fn begins(text: Seq<char>, prefix: Seq<char>) -> bool {
    prefix.len() <= text.len() && text.take(prefix.len() as int) == prefix
}

pub fn starts_with(text: &str, prefix: &str) -> (r: bool)
    ensures
        r == begins(text@, prefix@),
{
    let n: usize = prefix.unicode_len();
    if text.unicode_len() < n {
        return false;
    }
    let head = text.substring_char(0, n);
    assert(head@ =~= text@.take(n as int));
    same(head, prefix)
}

/// Whether `text` ends with `suffix`.
pub open spec fn ends(text: Seq<char>, suffix: Seq<char>) -> bool {
    suffix.len() <= text.len() && text.skip(text.len() - suffix.len()) == suffix
}

pub fn ends_with(text: &str, suffix: &str) -> (r: bool)
    ensures
        r == ends(text@, suffix@),
{
    let n: usize = suffix.unicode_len();
    let len: usize = text.unicode_len();
    if len < n {
        return false;
    }
    let tail = text.substring_char(len - n, len);
    assert(tail@ =~= text@.skip(len - n));
    same(tail, suffix)
}

/// The texts one behind the other with `sep` between them.
pub open spec fn joined(parts: Seq<Seq<char>>, sep: Seq<char>) -> Seq<char>
    decreases parts.len(),
{
    if parts.len() == 0 {
        seq![]
    } else if parts.len() == 1 {
        parts[0]
    } else {
        joined(parts.drop_last(), sep) + sep + parts.last()
    }
}

pub fn join(parts: &Vec<String>, sep: &str) -> (out: String)
    ensures
        out@ == joined(parts.deep_view(), sep@),
{
    let ghost all = parts.deep_view();
    if parts.len() == 0 {
        return String::new();
    }
    let mut out = parts[0].clone();
    let mut i: usize = 1;
    assert(all.take(1) =~= seq![all[0]]);
    while i < parts.len()
        invariant
            1 <= i <= parts@.len(),
            all == parts.deep_view(),
            out@ == joined(all.take(i as int), sep@),
        decreases parts@.len() - i,
    {
        proof {
            take_next(all, i as int);
        }
        out.push_str(sep);
        out.push_str(parts[i].as_str());
        i = i + 1;
    }
    proof {
        take_all(all);
    }
    out
}

/// The characters with the Unicode property `White_Space`.
pub open spec fn is_white(c: char) -> bool {
    ('\t' <= c && c <= '\r') || c == ' ' || c == '\u{85}' || c == '\u{a0}' || c == '\u{1680}' || (
    '\u{2000}' <= c && c <= '\u{200a}') || c == '\u{2028}' || c == '\u{2029}' || c == '\u{202f}' || c
        == '\u{205f}' || c == '\u{3000}'
}

pub fn white(c: char) -> (r: bool)
    ensures
        r == is_white(c),
{
    ('\t' <= c && c <= '\r') || c == ' ' || c == '\u{85}' || c == '\u{a0}' || c == '\u{1680}' || (
    '\u{2000}' <= c && c <= '\u{200a}') || c == '\u{2028}' || c == '\u{2029}' || c == '\u{202f}' || c
        == '\u{205f}' || c == '\u{3000}'
}

pub open spec fn trimmed_end(text: Seq<char>) -> Seq<char>
    decreases text.len(),
{
    if text.len() > 0 && is_white(text.last()) {
        trimmed_end(text.drop_last())
    } else {
        text
    }
}

pub open spec fn trimmed_start(text: Seq<char>) -> Seq<char>
    decreases text.len(),
{
    if text.len() > 0 && is_white(text[0]) {
        trimmed_start(text.drop_first())
    } else {
        text
    }
}

/// The text without white space at both ends.
pub open spec fn trimmed(text: Seq<char>) -> Seq<char> {
    trimmed_start(trimmed_end(text))
}

pub fn trim(text: &str) -> (r: &str)
    ensures
        r@ == trimmed(text@),
{
    let chars = chars_of(text);
    let mut end: usize = chars.len();
    assert(text@.take(end as int) =~= text@);
    while end > 0 && white(chars[end - 1])
        invariant
            end <= chars@.len(),
            chars@ == text@,
            trimmed_end(text@) == trimmed_end(text@.take(end as int)),
        decreases end,
    {
        end = end - 1;
        proof {
            take_next(text@, end as int);
        }
    }
    let ghost kept = text@.take(end as int);
    assert(end > 0 ==> kept.last() == text@[end - 1]);
    let mut start: usize = 0;
    assert(kept.skip(0) =~= kept);
    while start < end && white(chars[start])
        invariant
            start <= end <= chars@.len(),
            chars@ == text@,
            kept == text@.take(end as int),
            trimmed_start(kept) == trimmed_start(kept.skip(start as int)),
        decreases end - start,
    {
        assert(kept.skip(start as int)[0] == text@[start as int]);
        assert(kept.skip(start as int).drop_first() =~= kept.skip(start + 1));
        start = start + 1;
    }
    let r = text.substring_char(start, end);
    assert(r@ =~= kept.skip(start as int));
    assert(start < end ==> kept.skip(start as int)[0] == text@[start as int]);
    r
}

/// The text without white space at its end.
pub fn trim_end(text: &str) -> (r: &str)
    ensures
        r@ == trimmed_end(text@),
{
    let chars = chars_of(text);
    let mut end: usize = chars.len();
    assert(text@.take(end as int) =~= text@);
    while end > 0 && white(chars[end - 1])
        invariant
            end <= chars@.len(),
            chars@ == text@,
            trimmed_end(text@) == trimmed_end(text@.take(end as int)),
        decreases end,
    {
        end = end - 1;
        proof {
            take_next(text@, end as int);
        }
    }
    let r = text.substring_char(0, end);
    assert(r@ =~= text@.take(end as int));
    assert(end > 0 ==> text@.take(end as int).last() == text@[end - 1]);
    r
}

/// Upper case ASCII letters become lower case ones.
pub open spec fn lower(text: Seq<char>) -> Seq<char> {
    Seq::new(text.len(), |i: int| lower_char(text[i]))
}

pub open spec fn lower_char(c: char) -> char {
    if 'A' <= c && c <= 'Z' {
        (c as u8 + 32) as char
    } else {
        c
    }
}

pub fn lowercase(text: &str) -> (out: String)
    ensures
        out@ == lower(text@),
{
    let chars = chars_of(text);
    let mut out = String::new();
    let mut i: usize = 0;
    while i < chars.len()
        invariant
            i <= chars@.len(),
            chars@ == text@,
            out@ == lower(text@).take(i as int),
        decreases chars@.len() - i,
    {
        proof {
            take_next(lower(text@), i as int);
        }
        let c = chars[i];
        if 'A' <= c && c <= 'Z' {
            out.push((c as u8 + 32) as char);
        } else {
            out.push(c);
        }
        i = i + 1;
    }
    proof {
        take_all(lower(text@));
    }
    out
}

/// Every `from` becomes a `to`.
pub open spec fn swapped(text: Seq<char>, from: char, to: char) -> Seq<char> {
    Seq::new(
        text.len(),
        |i: int|
            if text[i] == from {
                to
            } else {
                text[i]
            },
    )
}

pub fn replace_char(text: &str, from: char, to: char) -> (out: String)
    ensures
        out@ == swapped(text@, from, to),
{
    let chars = chars_of(text);
    let mut out = String::new();
    let ghost goal = swapped(text@, from, to);
    let mut i: usize = 0;
    while i < chars.len()
        invariant
            i <= chars@.len(),
            chars@ == text@,
            goal == swapped(text@, from, to),
            out@ == goal.take(i as int),
        decreases chars@.len() - i,
    {
        proof {
            take_next(goal, i as int);
        }
        if chars[i] == from {
            out.push(to);
        } else {
            out.push(chars[i]);
        }
        i = i + 1;
    }
    proof {
        take_all(goal);
    }
    out
}

pub fn has_char(text: &str, c: char) -> (r: bool)
    ensures
        r == text@.contains(c),
{
    let chars = chars_of(text);
    let mut i: usize = 0;
    while i < chars.len()
        invariant
            i <= chars@.len(),
            chars@ == text@,
            forall|k: int| 0 <= k < i ==> text@[k] != c,
        decreases chars@.len() - i,
    {
        if chars[i] == c {
            return true;
        }
        i = i + 1;
    }
    false
}

/// Two texts one behind the other.
pub fn concat2(a: &str, b: &str) -> (s: String)
    ensures
        s@ == a@ + b@,
{
    let mut s = a.to_owned();
    s.push_str(b);
    s
}

/// Three texts one behind the other.
pub fn concat3(a: &str, b: &str, c: &str) -> (s: String)
    ensures
        s@ == a@ + b@ + c@,
{
    let mut s = concat2(a, b);
    s.push_str(c);
    s
}

/// The text with spaces before it, up to `width` characters.
pub open spec fn padded(text: Seq<char>, width: nat) -> Seq<char>
    decreases width - text.len(),
{
    if text.len() < width {
        padded(seq![' '] + text, width)
    } else {
        text
    }
}

pub fn pad_left(text: &str, width: usize) -> (out: String)
    ensures
        out@ == padded(text@, width as nat),
{
    let mut out = text.to_owned();
    while out.as_str().unicode_len() < width
        invariant
            padded(text@, width as nat) == padded(out@, width as nat),
        decreases width - out@.len(),
    {
        out = concat2(" ", out.as_str());
        proof {
            reveal_strlit(" ");
            assert(" "@ =~= seq![' ']);
        }
    }
    out
}

/// The text without occurrences of `c` at its end.
pub open spec fn without_end(text: Seq<char>, c: char) -> Seq<char>
    decreases text.len(),
{
    if text.len() > 0 && text.last() == c {
        without_end(text.drop_last(), c)
    } else {
        text
    }
}

pub fn trim_end_char(text: &str, c: char) -> (r: &str)
    ensures
        r@ == without_end(text@, c),
{
    let mut end: usize = text.unicode_len();
    assert(text@.take(end as int) =~= text@);
    while end > 0 && text.get_char(end - 1) == c
        invariant
            end <= text@.len(),
            without_end(text@, c) == without_end(text@.take(end as int), c),
        decreases end,
    {
        end = end - 1;
        proof {
            take_next(text@, end as int);
        }
    }
    let r = text.substring_char(0, end);
    assert(r@ =~= text@.take(end as int));
    assert(end > 0 ==> text@.take(end as int).last() == text@[end - 1]);
    r
}

/// Whether `part` stands in the text at `i`.
pub open spec fn stands_at(text: Seq<char>, part: Seq<char>, i: int) -> bool {
    0 <= i && i + part.len() <= text.len() && text.subrange(i, i + part.len()) == part
}

/// Whether `part` stands anywhere in the text.
pub open spec fn holds_part(text: Seq<char>, part: Seq<char>) -> bool {
    exists|i: int| stands_at(text, part, i)
}

pub fn contains_text(text: &str, part: &str) -> (r: bool)
    ensures
        r == holds_part(text@, part@),
{
    let n: usize = text.unicode_len();
    let m: usize = part.unicode_len();
    if m > n {
        return false;
    }
    let mut i: usize = 0;
    while i <= n - m
        invariant
            n == text@.len(),
            m == part@.len(),
            m <= n,
            i <= n - m + 1,
            forall|k: int| 0 <= k < i ==> !stands_at(text@, part@, k),
        decreases n - i,
    {
        if same(text.substring_char(i, i + m), part) {
            assert(stands_at(text@, part@, i as int));
            return true;
        }
        if i == n - m {
            assert forall|k: int| !stands_at(text@, part@, k) by {}
            return false;
        }
        i = i + 1;
    }
    false
}

// ---- Lists by name ----

/// An entry put into a list that is sorted by name, behind those that are no later.
pub open spec fn insert_named<T>(s: Seq<(String, T)>, x: (String, T)) -> Seq<(String, T)>
    decreases s.len(),
{
    if s.len() == 0 {
        seq![x]
    } else if text_le(s.last().0@, x.0@) {
        s.push(x)
    } else {
        insert_named(s.drop_last(), x).push(s.last())
    }
}

/// The entries in ascending order of their names; equal names keep their order.
pub open spec fn sorted_named<T>(s: Seq<(String, T)>) -> Seq<(String, T)>
    decreases s.len(),
{
    if s.len() == 0 {
        seq![]
    } else {
        insert_named(sorted_named(s.drop_last()), s.last())
    }
}

fn put_named<T>(list: &mut Vec<(String, T)>, x: (String, T))
    ensures
        final(list)@ == insert_named(old(list)@, x),
{
    let ghost before = list@;
    let mut i: usize = list.len();
    assert(before.take(before.len() as int) =~= before);
    assert(before.skip(before.len() as int) =~= seq![]);
    while i > 0 && !no_later(list[i - 1].0.as_str(), x.0.as_str())
        invariant
            i <= list@.len(),
            before == list@,
            insert_named(before, x) == insert_named(before.take(i as int), x) + before.skip(i as int),
        decreases i,
    {
        i = i - 1;
        proof {
            let shorter = before.take(i + 1);
            assert(shorter.drop_last() =~= before.take(i as int));
            assert(insert_named(before.take(i as int), x).push(before[i as int]) + before.skip(i + 1)
                =~= insert_named(before.take(i as int), x) + before.skip(i as int));
        }
    }
    list.insert(i, x);
    proof {
        assert(list@ =~= before.take(i as int).push(x) + before.skip(i as int));
        if i > 0 {
            assert(before.take(i as int).last() == before[i - 1]);
        } else {
            assert(before.take(0).push(x) =~= seq![x]);
        }
    }
}

pub fn sort_named<T>(list: Vec<(String, T)>) -> (out: Vec<(String, T)>)
    ensures
        out@ == sorted_named(list@),
{
    let mut out: Vec<(String, T)> = Vec::new();
    let mut rest = list;
    let ghost all = list@;
    let ghost mut done: int = 0;
    while rest.len() > 0
        invariant
            0 <= done <= all.len(),
            rest@ == all.skip(done),
            out@ == sorted_named(all.take(done)),
        decreases rest@.len(),
    {
        proof {
            take_next(all, done);
            assert(all.skip(done)[0] == all[done]);
            assert(all.skip(done).remove(0) =~= all.skip(done + 1));
        }
        let x = rest.remove(0);
        put_named(&mut out, x);
        proof {
            done = done + 1;
        }
    }
    proof {
        take_all(all);
    }
    out
}

/// Whether the names of a list ascend.
pub open spec fn ascending<T>(s: Seq<(String, T)>) -> bool {
    forall|i: int, j: int| 0 <= i <= j < s.len() ==> text_le(#[trigger] s[i].0@, #[trigger] s[j].0@)
}

proof fn text_le_total(a: Seq<char>, b: Seq<char>)
    ensures
        text_le(a, b) || text_le(b, a),
    decreases a.len(),
{
    if a.len() > 0 && b.len() > 0 {
        text_le_total(a.drop_first(), b.drop_first());
    }
}

proof fn text_le_trans(a: Seq<char>, b: Seq<char>, c: Seq<char>)
    requires
        text_le(a, b),
        text_le(b, c),
    ensures
        text_le(a, c),
    decreases a.len(),
{
    if a.len() > 0 {
        if a[0] == b[0] && b[0] == c[0] {
            text_le_trans(a.drop_first(), b.drop_first(), c.drop_first());
        }
    }
}

proof fn insert_named_ascends<T>(s: Seq<(String, T)>, x: (String, T))
    requires
        ascending(s),
    ensures
        ascending(insert_named(s, x)),
        insert_named(s, x).len() == s.len() + 1,
        forall|i: int|
            0 <= i < insert_named(s, x).len() ==> (#[trigger] insert_named(s, x)[i] == x
                || s.contains(insert_named(s, x)[i])),
        insert_named(s, x).to_multiset() == s.to_multiset().insert(x),
    decreases s.len(),
{
    broadcast use vstd::seq_lib::group_to_multiset_ensures;

    text_le_total(x.0@, x.0@);
    if s.len() == 0 {
        assert(seq![x] =~= s.push(x));
    } else if text_le(s.last().0@, x.0@) {
        let t = s.push(x);
        assert forall|i: int, j: int| 0 <= i <= j < t.len() implies text_le(
            #[trigger] t[i].0@,
            #[trigger] t[j].0@,
        ) by {
            if j == s.len() && i < j {
                assert(text_le(s[i].0@, s[s.len() - 1].0@));
                text_le_trans(s[i].0@, s.last().0@, x.0@);
            }
        }
        assert forall|i: int| 0 <= i < t.len() implies (#[trigger] t[i] == x || s.contains(t[i])) by {
            if i < s.len() {
                assert(s[i] == t[i]);
            }
        }
    } else {
        text_le_total(s.last().0@, x.0@);
        let u = s.drop_last();
        assert forall|i: int, j: int| 0 <= i <= j < u.len() implies text_le(
            #[trigger] u[i].0@,
            #[trigger] u[j].0@,
        ) by {
            assert(text_le(s[i].0@, s[j].0@));
        }
        insert_named_ascends(u, x);
        let v = insert_named(u, x);
        let t = v.push(s.last());
        text_le_total(s.last().0@, s.last().0@);
        assert forall|i: int| 0 <= i < v.len() implies text_le(#[trigger] v[i].0@, s.last().0@) by {
            if v[i] != x {
                assert(u.contains(v[i]));
                let k = choose|k: int| 0 <= k < u.len() && u[k] == v[i];
                assert(text_le(s[k].0@, s[s.len() - 1].0@));
            }
        }
        assert forall|i: int| 0 <= i < t.len() implies (#[trigger] t[i] == x || s.contains(t[i])) by {
            if i < v.len() {
                if v[i] != x {
                    assert(u.contains(v[i]));
                    let k = choose|k: int| 0 <= k < u.len() && u[k] == v[i];
                    assert(s[k] == t[i]);
                }
            } else {
                assert(s[s.len() - 1] == t[i]);
            }
        }
        assert(s =~= u.push(s.last()));
        assert(t.to_multiset() =~= s.to_multiset().insert(x));
    }
}

/// Whether no two entries have the same name.
pub open spec fn unique_names<T>(s: Seq<(String, T)>) -> bool {
    forall|i: int, j: int| 0 <= i < j < s.len() ==> (#[trigger] s[i]).0@ != (#[trigger] s[j]).0@
}

proof fn insert_named_is_unique<T>(s: Seq<(String, T)>, x: (String, T))
    requires
        unique_names(s),
        forall|i: int| 0 <= i < s.len() ==> (#[trigger] s[i]).0@ != x.0@,
    ensures
        unique_names(insert_named(s, x)),
        forall|i: int|
            0 <= i < insert_named(s, x).len() ==> (#[trigger] insert_named(s, x)[i] == x
                || s.contains(insert_named(s, x)[i])),
    decreases s.len(),
{
    let t = insert_named(s, x);
    if s.len() > 0 {
        if text_le(s.last().0@, x.0@) {
            assert forall|i: int| 0 <= i < t.len() implies (#[trigger] t[i] == x || s.contains(
                t[i],
            )) by {
                if i < s.len() {
                    assert(s[i] == t[i]);
                }
            }
        } else {
            let u = s.drop_last();
            assert forall|i: int, j: int| 0 <= i < j < u.len() implies (#[trigger] u[i]).0@ != (
            #[trigger] u[j]).0@ by {
                assert(s[i].0@ != s[j].0@);
            }
            assert forall|i: int| 0 <= i < u.len() implies (#[trigger] u[i]).0@ != x.0@ by {
                assert(s[i].0@ != x.0@);
            }
            insert_named_is_unique(u, x);
            let v = insert_named(u, x);
            assert forall|i: int| 0 <= i < v.len() implies (#[trigger] v[i]).0@ != s.last().0@
                && (v[i] == x || s.contains(v[i])) by {
                if v[i] != x {
                    let k = choose|k: int| 0 <= k < u.len() && u[k] == v[i];
                    assert(s[k].0@ != s[s.len() - 1].0@);
                    assert(s[k] == v[i]);
                } else {
                    assert(s[s.len() - 1].0@ != x.0@);
                }
            }
            assert forall|i: int| 0 <= i < t.len() implies (#[trigger] t[i] == x || s.contains(
                t[i],
            )) by {
                if i < v.len() {
                    assert(v[i] == x || s.contains(v[i]));
                } else {
                    assert(s[s.len() - 1] == t[i]);
                }
            }
            assert forall|i: int, j: int| 0 <= i < j < t.len() implies (#[trigger] t[i]).0@ != (
            #[trigger] t[j]).0@ by {
                assert(v[i].0@ != s.last().0@);
                if j < v.len() {
                    assert(v[i].0@ != v[j].0@);
                }
            }
        }
    }
}

/// Sorting by name keeps different names different, and brings in no entry of its own.
pub proof fn sorting_keeps_names_apart<T>(s: Seq<(String, T)>)
    requires
        unique_names(s),
    ensures
        unique_names(sorted_named(s)),
        forall|i: int|
            0 <= i < sorted_named(s).len() ==> s.contains(#[trigger] sorted_named(s)[i]),
    decreases s.len(),
{
    if s.len() > 0 {
        let u = s.drop_last();
        assert forall|i: int, j: int| 0 <= i < j < u.len() implies (#[trigger] u[i]).0@ != (
        #[trigger] u[j]).0@ by {
            assert(s[i].0@ != s[j].0@);
        }
        sorting_keeps_names_apart(u);
        let v = sorted_named(u);
        assert forall|i: int| 0 <= i < v.len() implies (#[trigger] v[i]).0@ != s.last().0@
            && s.contains(v[i]) by {
            let k = choose|k: int| 0 <= k < u.len() && u[k] == v[i];
            assert(s[k].0@ != s[s.len() - 1].0@);
            assert(s[k] == v[i]);
        }
        insert_named_is_unique(v, s.last());
        let t = sorted_named(s);
        assert forall|i: int| 0 <= i < t.len() implies s.contains(#[trigger] t[i]) by {
            if t[i] == s.last() {
                assert(s[s.len() - 1] == t[i]);
            } else {
                assert(v.contains(t[i]));
            }
        }
    }
}

/// Sorting by name puts the names in ascending order and keeps every entry, as often as it occurs.
pub proof fn law_sorting_by_name<T>(s: Seq<(String, T)>)
    ensures
        ascending(sorted_named(s)),
        sorted_named(s).to_multiset() == s.to_multiset(),
        sorted_named(s).len() == s.len(),
    decreases s.len(),
{
    broadcast use vstd::seq_lib::group_to_multiset_ensures;

    if s.len() > 0 {
        law_sorting_by_name(s.drop_last());
        insert_named_ascends(sorted_named(s.drop_last()), s.last());
        assert(s =~= s.drop_last().push(s.last()));
    }
}

/// The first entry under a name.
pub open spec fn named<V>(s: Seq<(Seq<char>, V)>, name: Seq<char>) -> Option<V>
    decreases s.len(),
{
    if s.len() == 0 {
        None
    } else {
        match named(s.drop_last(), name) {
            Some(v) => Some(v),
            None => if s.last().0 == name {
                Some(s.last().1)
            } else {
                None
            },
        }
    }
}

/// The names of a list.
pub open spec fn names_of<V>(s: Seq<(Seq<char>, V)>) -> Seq<Seq<char>> {
    Seq::new(s.len(), |i: int| s[i].0)
}

proof fn named_stays<V>(s: Seq<(Seq<char>, V)>, name: Seq<char>, n: int)
    requires
        0 <= n <= s.len(),
        named(s.take(n), name) is Some,
    ensures
        named(s, name) == named(s.take(n), name),
    decreases s.len() - n,
{
    if n < s.len() {
        take_next(s, n);
        named_stays(s, name, n + 1);
    } else {
        take_all(s);
    }
}

pub fn find_named<'a, T: DeepView>(list: &'a Vec<(String, T)>, name: &str) -> (r: Option<&'a T>)
    ensures
        r.deep_view() == named(list.deep_view(), name@),
        r is Some ==> exists|i: int| 0 <= i < list@.len() && (#[trigger] list@[i]).1 == *r->0,
{
    let ghost all = list.deep_view();
    let mut i: usize = 0;
    while i < list.len()
        invariant
            i <= list@.len(),
            all == list.deep_view(),
            named(all.take(i as int), name@) is None,
        decreases list@.len() - i,
    {
        proof {
            take_next(all, i as int);
        }
        if same(list[i].0.as_str(), name) {
            proof {
                named_stays(all, name@, i + 1);
                assert(list@[i as int].1 == list[i as int].1);
            }
            return Some(&list[i].1);
        }
        i = i + 1;
    }
    proof {
        take_all(all);
    }
    None
}

pub fn list_names<T: DeepView>(list: &Vec<(String, T)>) -> (out: Vec<String>)
    ensures
        out.deep_view() == names_of(list.deep_view()),
{
    let ghost all = names_of(list.deep_view());
    let mut out: Vec<String> = empty();
    let mut i: usize = 0;
    while i < list.len()
        invariant
            i <= list@.len(),
            all == names_of(list.deep_view()),
            out.deep_view() == all.take(i as int),
        decreases list@.len() - i,
    {
        proof {
            take_next(all, i as int);
        }
        put(&mut out, list[i].0.clone());
        i = i + 1;
    }
    proof {
        take_all(all);
    }
    out
}

/// An entry put into a list that is sorted by name, behind those that are no later.
pub open spec fn insert_entry<V>(s: Seq<(Seq<char>, V)>, x: (Seq<char>, V)) -> Seq<(Seq<char>, V)>
    decreases s.len(),
{
    if s.len() == 0 {
        seq![x]
    } else if text_le(s.last().0, x.0) {
        s.push(x)
    } else {
        insert_entry(s.drop_last(), x).push(s.last())
    }
}

/// The entries in ascending order of their names; equal names keep their order.
pub open spec fn sorted_entries<V>(s: Seq<(Seq<char>, V)>) -> Seq<(Seq<char>, V)>
    decreases s.len(),
{
    if s.len() == 0 {
        seq![]
    } else {
        insert_entry(sorted_entries(s.drop_last()), s.last())
    }
}

pub fn put_entry<T: DeepView>(list: &mut Vec<(String, T)>, x: (String, T))
    ensures
        final(list).deep_view() == insert_entry(old(list).deep_view(), x.deep_view()),
{
    let ghost before = list.deep_view();
    let ghost v = x.deep_view();
    let mut i: usize = list.len();
    assert(before.take(before.len() as int) =~= before);
    assert(before.skip(before.len() as int) =~= seq![]);
    while i > 0 && !no_later(list[i - 1].0.as_str(), x.0.as_str())
        invariant
            i <= list@.len(),
            before == list.deep_view(),
            v == x.deep_view(),
            insert_entry(before, v) == insert_entry(before.take(i as int), v) + before.skip(i as int),
        decreases i,
    {
        i = i - 1;
        proof {
            let shorter = before.take(i + 1);
            assert(shorter.drop_last() =~= before.take(i as int));
            assert(insert_entry(before.take(i as int), v).push(before[i as int]) + before.skip(i + 1)
                =~= insert_entry(before.take(i as int), v) + before.skip(i as int));
        }
    }
    list.insert(i, x);
    proof {
        assert(list.deep_view() =~= before.take(i as int).push(v) + before.skip(i as int));
        if i > 0 {
            assert(before.take(i as int).last() == before[i - 1]);
        } else {
            assert(before.take(0).push(v) =~= seq![v]);
        }
    }
}

// ---- Numbers ----

/// The number that decimal digits denote; nothing where there is another character.
pub open spec fn digits_value(text: Seq<char>) -> Option<nat>
    decreases text.len(),
{
    if text.len() == 0 {
        Some(0)
    } else {
        match digits_value(text.drop_last()) {
            Some(n) => if '0' <= text.last() <= '9' {
                Some((n * 10 + (text.last() as nat - '0' as nat)) as nat)
            } else {
                None
            },
            None => None,
        }
    }
}

/// An unsigned decimal number: digits, with or without a plus sign before them, in range.
pub open spec fn number_of(text: Seq<char>) -> Option<u64> {
    let digits = if text.len() > 0 && text[0] == '+' {
        text.drop_first()
    } else {
        text
    };
    if digits.len() == 0 {
        None
    } else {
        match digits_value(digits) {
            Some(n) => if n <= u64::MAX {
                Some(n as u64)
            } else {
                None
            },
            None => None,
        }
    }
}

proof fn digits_only_grow(text: Seq<char>, n: int)
    requires
        0 <= n <= text.len(),
    ensures
        digits_value(text.take(n)) is None ==> digits_value(text) is None,
        digits_value(text.take(n)) is Some && digits_value(text) is Some ==> digits_value(
            text.take(n),
        )->0 <= digits_value(text)->0,
    decreases text.len() - n,
{
    if n < text.len() {
        take_next(text, n);
        digits_only_grow(text, n + 1);
    } else {
        take_all(text);
    }
}

pub fn read_number(text: &str) -> (r: Option<u64>)
    ensures
        r == number_of(text@),
{
    let chars = chars_of(text);
    let start: usize = if chars.len() > 0 && chars[0] == '+' {
        1
    } else {
        0
    };
    let ghost digits = chars@.skip(start as int);
    proof {
        if start == 1 {
            assert(digits =~= chars@.drop_first());
        } else {
            assert(digits =~= chars@);
        }
        assert(digits.take(0) =~= seq![]);
    }
    if start == chars.len() {
        return None;
    }
    let mut value: u64 = 0;
    let mut i: usize = start;
    while i < chars.len()
        invariant
            start <= i <= chars@.len(),
            start < chars@.len(),
            digits == chars@.skip(start as int),
            number_of(text@) == (match digits_value(digits) {
                Some(n) => if n <= u64::MAX {
                    Some(n as u64)
                } else {
                    None
                },
                None => None::<u64>,
            }),
            digits_value(digits.take(i - start)) == Some(value as nat),
        decreases chars@.len() - i,
    {
        proof {
            take_next(digits, i - start);
            assert(digits[i - start] == chars@[i as int]);
            digits_only_grow(digits, i + 1 - start);
        }
        let c = chars[i];
        if c < '0' || c > '9' {
            return None;
        }
        let d: u64 = c as u64 - '0' as u64;
        let next: u128 = value as u128 * 10 + d as u128;
        if next > 0xffff_ffff_ffff_ffff {
            return None;
        }
        value = next as u64;
        i = i + 1;
    }
    proof {
        take_all(digits);
    }
    Some(value)
}

/// The text without the copies of `prefix` at its start.
pub open spec fn without_start(text: Seq<char>, prefix: Seq<char>) -> Seq<char>
    decreases text.len(),
{
    if prefix.len() > 0 && begins(text, prefix) {
        without_start(text.skip(prefix.len() as int), prefix)
    } else {
        text
    }
}

/// The text behind the copies of `prefix` at its start.
pub fn trim_start_text<'a>(text: &'a str, prefix: &str) -> (r: &'a str)
    ensures
        r@ == without_start(text@, prefix@),
{
    let n: usize = prefix.unicode_len();
    let len: usize = text.unicode_len();
    let mut from: usize = 0;
    assert(text@.skip(0) =~= text@);
    let mut rest = text.substring_char(0, len);
    assert(rest@ =~= text@);
    while n > 0 && starts_with(rest, prefix)
        invariant
            from <= len == text@.len(),
            n == prefix@.len(),
            rest@ == text@.skip(from as int),
            without_start(text@, prefix@) == without_start(rest@, prefix@),
        decreases rest@.len(),
    {
        proof {
            assert(rest@.skip(n as int) =~= text@.skip(from + n));
        }
        from = from + n;
        rest = text.substring_char(from, len);
        assert(rest@ =~= text@.skip(from as int));
    }
    rest
}

// ---- Tables by name ----

/// Where the first entry under a name stands.
pub open spec fn position<V>(s: Seq<(Seq<char>, V)>, name: Seq<char>) -> Option<nat>
    decreases s.len(),
{
    if s.len() == 0 {
        None
    } else {
        match position(s.drop_last(), name) {
            Some(k) => Some(k),
            None => if s.last().0 == name {
                Some((s.len() - 1) as nat)
            } else {
                None
            },
        }
    }
}

/// The table with a value under a name; a new name goes to its place in the order.
pub open spec fn with_named<V>(s: Seq<(Seq<char>, V)>, name: Seq<char>, value: V) -> Seq<
    (Seq<char>, V),
> {
    match position(s, name) {
        Some(k) => s.update(k as int, (name, value)),
        None => insert_entry(s, (name, value)),
    }
}

/// The table without the entry under a name.
pub open spec fn without_named<V>(s: Seq<(Seq<char>, V)>, name: Seq<char>) -> Seq<(Seq<char>, V)> {
    match position(s, name) {
        Some(k) => s.remove(k as int),
        None => s,
    }
}

/// No name occurs twice.
pub open spec fn distinct<V>(s: Seq<(Seq<char>, V)>) -> bool {
    forall|i: int, j: int| 0 <= i < j < s.len() ==> (#[trigger] s[i]).0 != (#[trigger] s[j]).0
}

proof fn position_stays<V>(s: Seq<(Seq<char>, V)>, name: Seq<char>, n: int)
    requires
        0 <= n <= s.len(),
        position(s.take(n), name) is Some,
    ensures
        position(s, name) == position(s.take(n), name),
    decreases s.len() - n,
{
    if n < s.len() {
        take_next(s, n);
        position_stays(s, name, n + 1);
    } else {
        take_all(s);
    }
}

pub fn find_position<T: DeepView>(list: &Vec<(String, T)>, name: &str) -> (r: Option<usize>)
    ensures
        match r {
            Some(k) => position(list.deep_view(), name@) == Some(k as nat) && k < list@.len(),
            None => position(list.deep_view(), name@) is None,
        },
{
    let ghost all = list.deep_view();
    let mut i: usize = 0;
    while i < list.len()
        invariant
            i <= list@.len(),
            all == list.deep_view(),
            position(all.take(i as int), name@) is None,
        decreases list@.len() - i,
    {
        proof {
            take_next(all, i as int);
        }
        if same(list[i].0.as_str(), name) {
            proof {
                position_stays(all, name@, i + 1);
            }
            return Some(i);
        }
        i = i + 1;
    }
    proof {
        take_all(all);
    }
    None
}

pub fn set_named<T: DeepView>(list: &mut Vec<(String, T)>, name: String, value: T)
    ensures
        final(list).deep_view() == with_named(old(list).deep_view(), name@, value.deep_view()),
{
    let ghost before = list.deep_view();
    let ghost v = value.deep_view();
    match find_position(list, name.as_str()) {
        Some(k) => {
            list.set(k, (name, value));
            assert(list.deep_view() =~= before.update(k as int, (name@, v)));
        },
        None => {
            put_entry(list, (name, value));
        },
    }
}

pub fn drop_named<T: DeepView>(list: &mut Vec<(String, T)>, name: &str)
    ensures
        final(list).deep_view() == without_named(old(list).deep_view(), name@),
{
    let ghost before = list.deep_view();
    if let Some(k) = find_position(list, name) {
        let _ = list.remove(k);
        assert(list.deep_view() =~= before.remove(k as int));
    }
}

proof fn position_is_there<V>(s: Seq<(Seq<char>, V)>, name: Seq<char>)
    ensures
        match position(s, name) {
            Some(k) => k < s.len() && s[k as int].0 == name && named(s, name) == Some(s[k as int].1)
                && forall|i: int| 0 <= i < k ==> (#[trigger] s[i]).0 != name,
            None => named(s, name) is None && forall|i: int|
                0 <= i < s.len() ==> (#[trigger] s[i]).0 != name,
        },
    decreases s.len(),
{
    if s.len() > 0 {
        position_is_there(s.drop_last(), name);
        assert forall|i: int| 0 <= i < s.len() - 1 implies s.drop_last()[i] == #[trigger] s[i] by {}
    }
}

/// What a distinct table says of a name is what the entry under it says.
pub proof fn named_by_entry<V>(s: Seq<(Seq<char>, V)>, name: Seq<char>)
    requires
        distinct(s),
    ensures
        forall|i: int| 0 <= i < s.len() && (#[trigger] s[i]).0 == name ==> named(s, name) == Some(s[i].1),
        (forall|i: int| 0 <= i < s.len() ==> (#[trigger] s[i]).0 != name) ==> named(s, name) is None,
        named(s, name) is Some ==> exists|i: int| 0 <= i < s.len() && (#[trigger] s[i]).0 == name,
{
    position_is_there(s, name);
    if position(s, name) is Some {
        let k = position(s, name)->0 as int;
        assert forall|i: int| 0 <= i < s.len() && (#[trigger] s[i]).0 == name implies named(s, name)
            == Some(s[i].1) by {
            if i < k {
                assert(s[i].0 != s[k].0);
            } else if i > k {
                assert(s[k].0 != s[i].0);
            }
        }
        assert(s[k].0 == name);
    }
}

proof fn inserted<V>(s: Seq<(Seq<char>, V)>, x: (Seq<char>, V))
    ensures
        insert_entry(s, x).len() == s.len() + 1,
        forall|i: int|
            0 <= i < insert_entry(s, x).len() ==> (#[trigger] insert_entry(s, x)[i] == x
                || s.contains(insert_entry(s, x)[i])),
        forall|i: int| 0 <= i < s.len() ==> insert_entry(s, x).contains(#[trigger] s[i]),
        insert_entry(s, x).contains(x),
        distinct(s) && (forall|i: int| 0 <= i < s.len() ==> (#[trigger] s[i]).0 != x.0) ==> distinct(
            insert_entry(s, x),
        ),
    decreases s.len(),
{
    let t = insert_entry(s, x);
    if s.len() == 0 {
        assert(t[0] == x);
    } else if text_le(s.last().0, x.0) {
        assert(t[s.len() as int] == x);
        assert forall|i: int| 0 <= i < s.len() implies t.contains(#[trigger] s[i]) by {
            assert(t[i] == s[i]);
        }
        assert forall|i: int| 0 <= i < t.len() implies (#[trigger] t[i] == x || s.contains(t[i])) by {
            if i < s.len() {
                assert(s[i] == t[i]);
            }
        }
    } else {
        let u = s.drop_last();
        inserted(u, x);
        let v = insert_entry(u, x);
        assert forall|i: int| 0 <= i < s.len() implies t.contains(#[trigger] s[i]) by {
            if i < u.len() {
                assert(v.contains(u[i]));
                let k = choose|k: int| 0 <= k < v.len() && v[k] == u[i];
                assert(t[k] == s[i]);
            } else {
                assert(t[v.len() as int] == s[i]);
            }
        }
        assert(v.contains(x));
        let k = choose|k: int| 0 <= k < v.len() && v[k] == x;
        assert(t[k] == x);
        assert forall|i: int| 0 <= i < t.len() implies (#[trigger] t[i] == x || s.contains(t[i])) by {
            if i < v.len() {
                if v[i] != x {
                    assert(u.contains(v[i]));
                    let k = choose|k: int| 0 <= k < u.len() && u[k] == v[i];
                    assert(s[k] == t[i]);
                }
            } else {
                assert(s[s.len() - 1] == t[i]);
            }
        }
        if distinct(s) && (forall|i: int| 0 <= i < s.len() ==> (#[trigger] s[i]).0 != x.0) {
            assert forall|i: int, j: int| 0 <= i < j < u.len() implies (#[trigger] u[i]).0 != (
            #[trigger] u[j]).0 by {
                assert(s[i].0 != s[j].0);
            }
            assert forall|i: int| 0 <= i < u.len() implies (#[trigger] u[i]).0 != x.0 by {
                assert(s[i].0 != x.0);
            }
            assert(distinct(v));
            assert forall|i: int, j: int| 0 <= i < j < t.len() implies (#[trigger] t[i]).0 != (
            #[trigger] t[j]).0 by {
                if j < v.len() {
                    assert(v[i].0 != v[j].0);
                } else {
                    assert(v[i] == x || u.contains(v[i]));
                    if v[i] != x {
                        let k = choose|k: int| 0 <= k < u.len() && u[k] == v[i];
                        assert(s[k].0 != s[s.len() - 1].0);
                    } else {
                        assert(s[s.len() - 1].0 != x.0);
                    }
                }
            }
        }
    }
}

/// Whether the names of a list ascend, no two of them alike.
pub open spec fn rising<V>(s: Seq<(Seq<char>, V)>) -> bool {
    forall|i: int, j: int|
        0 <= i < j < s.len() ==> text_le((#[trigger] s[i]).0, (#[trigger] s[j]).0) && s[i].0
            != s[j].0
}

/// Sorting a list of different names puts them in rising order, and changes nothing of what stands
/// under a name.
pub proof fn law_sorting_keeps_what_is_named<T: DeepView>(
    list: Vec<(String, T)>,
    sorted: Vec<(String, T)>,
    name: Seq<char>,
)
    requires
        distinct(list.deep_view()),
        sorted@ == sorted_named(list@),
    ensures
        sorted@.len() == list@.len(),
        rising(sorted.deep_view()),
        named(sorted.deep_view(), name) == named(list.deep_view(), name),
{
    broadcast use vstd::seq_lib::group_to_multiset_ensures;

    let a = list.deep_view();
    let b = sorted.deep_view();
    assert forall|i: int, j: int| 0 <= i < j < list@.len() implies (#[trigger] list@[i]).0@ != (
    #[trigger] list@[j]).0@ by {
        assert(a[i].0 != a[j].0);
    }
    law_sorting_by_name(list@);
    sorting_keeps_names_apart(list@);
    assert(rising(b)) by {
        assert forall|i: int, j: int| 0 <= i < j < b.len() implies text_le(
            (#[trigger] b[i]).0,
            (#[trigger] b[j]).0,
        ) && b[i].0 != b[j].0 by {
            assert(sorted@[i].0@ != sorted@[j].0@);
            assert(text_le(sorted@[i].0@, sorted@[j].0@));
        }
    }
    assert(distinct(b));
    named_by_entry(a, name);
    named_by_entry(b, name);
    if named(a, name) is Some {
        let i = choose|i: int| 0 <= i < a.len() && (#[trigger] a[i]).0 == name;
        assert(list@.contains(list@[i]));
        assert(list@.to_multiset().count(list@[i]) > 0);
        assert(sorted@.contains(list@[i]));
        let k = choose|k: int| 0 <= k < sorted@.len() && sorted@[k] == list@[i];
        assert(b[k] == a[i]);
    } else if named(b, name) is Some {
        let k = choose|k: int| 0 <= k < b.len() && (#[trigger] b[k]).0 == name;
        assert(list@.contains(sorted@[k]));
        let i = choose|i: int| 0 <= i < list@.len() && list@[i] == sorted@[k];
        assert(a[i].0 == name);
    }
}

/// A table says of a name what was last set under it, and of every other name what it said before.
pub proof fn law_setting_a_name<V>(s: Seq<(Seq<char>, V)>, name: Seq<char>, value: V, other: Seq<char>)
    requires
        distinct(s),
    ensures
        distinct(with_named(s, name, value)),
        named(with_named(s, name, value), name) == Some(value),
        other != name ==> named(with_named(s, name, value), other) == named(s, other),
        with_named(s, name, value).len() > 0,
{
    position_is_there(s, name);
    let t = with_named(s, name, value);
    match position(s, name) {
        Some(k) => {
            assert forall|i: int, j: int| 0 <= i < j < t.len() implies (#[trigger] t[i]).0 != (
            #[trigger] t[j]).0 by {
                assert(s[i].0 != s[j].0);
            }
            assert(t[k as int] == (name, value));
            named_by_entry(t, name);
            named_by_entry(t, other);
            named_by_entry(s, other);
            if other != name {
                if named(s, other) is Some {
                    let i = choose|i: int| 0 <= i < s.len() && (#[trigger] s[i]).0 == other;
                    assert(t[i] == s[i]);
                } else {
                    assert forall|i: int| 0 <= i < t.len() implies (#[trigger] t[i]).0 != other by {
                        if i != k {
                            assert(t[i] == s[i]);
                            if s[i].0 == other {
                                assert(named(s, other) == Some(s[i].1));
                            }
                        }
                    }
                }
            }
        },
        None => {
            inserted(s, (name, value));
            named_by_entry(t, name);
            named_by_entry(t, other);
            named_by_entry(s, other);
            let k = choose|k: int| 0 <= k < t.len() && t[k] == (name, value);
            assert(t[k].0 == name);
            if other != name {
                if named(s, other) is Some {
                    let i = choose|i: int| 0 <= i < s.len() && (#[trigger] s[i]).0 == other;
                    assert(t.contains(s[i]));
                    let j = choose|j: int| 0 <= j < t.len() && t[j] == s[i];
                    assert(t[j].0 == other);
                } else {
                    assert forall|i: int| 0 <= i < t.len() implies (#[trigger] t[i]).0 != other by {
                        if t[i] != (name, value) {
                            assert(s.contains(t[i]));
                            let j = choose|j: int| 0 <= j < s.len() && s[j] == t[i];
                            if s[j].0 == other {
                                assert(named(s, other) == Some(s[j].1));
                            }
                        }
                    }
                }
            }
        },
    }
}

/// A table says nothing of a name that was dropped, and of every other name what it said before.
pub proof fn law_dropping_a_name<V>(s: Seq<(Seq<char>, V)>, name: Seq<char>, other: Seq<char>)
    requires
        distinct(s),
    ensures
        distinct(without_named(s, name)),
        named(without_named(s, name), name) is None,
        other != name ==> named(without_named(s, name), other) == named(s, other),
{
    position_is_there(s, name);
    let t = without_named(s, name);
    if let Some(k) = position(s, name) {
        let k = k as int;
        assert forall|i: int| 0 <= i < t.len() implies #[trigger] t[i] == s[if i < k {
            i
        } else {
            i + 1
        }] by {}
        assert forall|i: int, j: int| 0 <= i < j < t.len() implies (#[trigger] t[i]).0 != (#[trigger] t[j]).0 by {
            let a = if i < k {
                i
            } else {
                i + 1
            };
            let b = if j < k {
                j
            } else {
                j + 1
            };
            assert(s[a].0 != s[b].0);
        }
        named_by_entry(t, name);
        named_by_entry(t, other);
        named_by_entry(s, other);
        assert forall|i: int| 0 <= i < t.len() implies (#[trigger] t[i]).0 != name by {
            let a = if i < k {
                i
            } else {
                i + 1
            };
            if a < k {
                assert(s[a].0 != s[k].0);
            } else {
                assert(s[k].0 != s[a].0);
            }
        }
        if other != name {
            if named(s, other) is Some {
                let i = choose|i: int| 0 <= i < s.len() && (#[trigger] s[i]).0 == other;
                let j = if i < k {
                    i
                } else {
                    i - 1
                };
                assert(t[j] == s[i]);
            } else {
                assert forall|i: int| 0 <= i < t.len() implies (#[trigger] t[i]).0 != other by {
                    let a = if i < k {
                        i
                    } else {
                        i + 1
                    };
                    if s[a].0 == other {
                        assert(named(s, other) == Some(s[a].1));
                    }
                }
            }
        }
    }
}

} // verus!
