//! `SKILL.md` files: a YAML head between two marks, and a body behind it.
use vstd::prelude::*;

use crate::list::{empty, put, take_all, take_next};
use crate::text::{chars_of, concat2, concat3, dec, decimal, join, joined, same};

verus! {

pub const FRONTMATTER_MAX_BYTES: usize = 8192;

// ---- YAML ----

/// A YAML value.
#[derive(Debug)]
pub enum Yaml {
    Null,
    Bool(bool),
    /// A number, as it is printed.
    Number(String),
    Str(String),
    List(Vec<Yaml>),
    Table(Vec<(Yaml, Yaml)>),
    Tagged(String, Box<Yaml>),
}

#[verifier::ext_equal]
pub enum YamlView {
    Null,
    Bool(bool),
    Number(Seq<char>),
    Str(Seq<char>),
    List(Seq<YamlView>),
    Table(Seq<(YamlView, YamlView)>),
    Tagged(Seq<char>, Box<YamlView>),
}

impl Yaml {
    pub open spec fn value(self) -> YamlView
        decreases self,
    {
        match self {
            Yaml::Null => YamlView::Null,
            Yaml::Bool(b) => YamlView::Bool(b),
            Yaml::Number(t) => YamlView::Number(t@),
            Yaml::Str(t) => YamlView::Str(t@),
            Yaml::List(items) => YamlView::List(
                Seq::new(
                    items@.len(),
                    |i: int|
                        if 0 <= i < items@.len() {
                            items@[i].value()
                        } else {
                            arbitrary()
                        },
                ),
            ),
            Yaml::Table(entries) => YamlView::Table(
                Seq::new(
                    entries@.len(),
                    |i: int|
                        if 0 <= i < entries@.len() {
                            (entries@[i].0.value(), entries@[i].1.value())
                        } else {
                            arbitrary()
                        },
                ),
            ),
            Yaml::Tagged(tag, inner) => YamlView::Tagged(tag@, Box::new(inner.value())),
        }
    }
}

impl View for Yaml {
    type V = YamlView;

    open spec fn view(&self) -> YamlView {
        self.value()
    }
}

impl DeepView for Yaml {
    type V = YamlView;

    open spec fn deep_view(&self) -> YamlView {
        self.value()
    }
}

/// `serde_yaml`'s value type; it occurs only in the conversion below.
#[verifier::external_type_specification]
#[verifier::external_body]
pub struct ExYamlValue(serde_yaml::Value);

/// Turns a `serde_yaml::Value` into a [`Yaml`], variant by variant. Nothing is claimed of the
/// result here: the caller that parses text names what it gets.
#[verifier::external_body]
fn from_yaml_value(value: serde_yaml::Value) -> (yaml: Yaml) {
    match value {
        serde_yaml::Value::Null => Yaml::Null,
        serde_yaml::Value::Bool(b) => Yaml::Bool(b),
        serde_yaml::Value::Number(n) => Yaml::Number(n.to_string()),
        serde_yaml::Value::String(t) => Yaml::Str(t),
        serde_yaml::Value::Sequence(a) => Yaml::List(a.into_iter().map(from_yaml_value).collect()),
        serde_yaml::Value::Mapping(m) => Yaml::Table(
            m.into_iter().map(|e| (from_yaml_value(e.0), from_yaml_value(e.1))).collect(),
        ),
        serde_yaml::Value::Tagged(t) => Yaml::Tagged(
            t.tag.to_string(),
            Box::new(from_yaml_value(t.value)),
        ),
    }
}

/// What `serde_yaml::from_str` reads in a text: a value, or its message where the text is not YAML.
pub uninterp spec fn parsed_yaml(text: Seq<char>) -> Result<YamlView, Seq<char>>;

/// `serde_yaml::from_str::<Value>`: its result is a function of the text alone.
#[verifier::external_body]
fn parse_yaml(text: &str) -> (r: Result<Yaml, String>)
    ensures
        match r {
            Ok(yaml) => parsed_yaml(text@) == Ok::<YamlView, Seq<char>>(yaml@),
            Err(e) => parsed_yaml(text@) == Err::<YamlView, Seq<char>>(e@),
        },
{
    serde_yaml::from_str(text).map(from_yaml_value).map_err(|e| e.to_string())
}

/// The value without the tags in front of it.
pub open spec fn untagged(value: YamlView) -> YamlView
    decreases value,
{
    match value {
        YamlView::Tagged(_, inner) => untagged(*inner),
        _ => value,
    }
}

fn untag(value: &Yaml) -> (r: &Yaml)
    ensures
        r@ == untagged(value@),
        !(r is Tagged),
    decreases value,
{
    match value {
        Yaml::Tagged(_, inner) => untag(&**inner),
        _ => value,
    }
}

/// The first entry of a table under a text.
pub open spec fn entry_named(entries: Seq<(YamlView, YamlView)>, key: Seq<char>) -> Option<YamlView>
    decreases entries.len(),
{
    if entries.len() == 0 {
        None
    } else {
        match entry_named(entries.drop_last(), key) {
            Some(value) => Some(value),
            None => if entries.last().0 == YamlView::Str(key) {
                Some(entries.last().1)
            } else {
                None
            },
        }
    }
}

/// The text under a key of a table, if it is a text.
pub open spec fn head_text(head: Seq<(YamlView, YamlView)>, key: Seq<char>) -> Option<Seq<char>> {
    match entry_named(head, key) {
        Some(value) => match untagged(value) {
            YamlView::Str(t) => Some(t),
            _ => None,
        },
        None => None,
    }
}

proof fn entry_stays(entries: Seq<(YamlView, YamlView)>, key: Seq<char>, n: int)
    requires
        0 <= n <= entries.len(),
        entry_named(entries.take(n), key) is Some,
    ensures
        entry_named(entries, key) == entry_named(entries.take(n), key),
    decreases entries.len() - n,
{
    if n < entries.len() {
        take_next(entries, n);
        entry_stays(entries, key, n + 1);
    } else {
        take_all(entries);
    }
}

/// The entries at the head of a file.
#[derive(Debug)]
pub struct Head {
    pub entries: Vec<(Yaml, Yaml)>,
}

impl Head {
    /// The text under a key, if it is a text.
    pub fn get(&self, key: &str) -> (r: Option<&str>)
        ensures
            r.deep_view() == head_text(self.entries.deep_view(), key@),
    {
        let entries = &self.entries;
        let ghost all = entries.deep_view();
        let mut i: usize = 0;
        while i < entries.len()
            invariant
                i <= entries@.len(),
                entries == &self.entries,
                all == entries.deep_view(),
                entry_named(all.take(i as int), key@) is None,
            decreases entries@.len() - i,
        {
            proof {
                take_next(all, i as int);
            }
            let found = match &entries[i].0 {
                Yaml::Str(t) => same(t.as_str(), key),
                _ => false,
            };
            if found {
                proof {
                    assert(all[i as int].0 == YamlView::Str(key@));
                    entry_stays(all, key@, i + 1);
                }
                return match untag(&entries[i].1) {
                    Yaml::Str(t) => Some(t.as_str()),
                    _ => None,
                };
            }
            i = i + 1;
        }
        proof {
            take_all(all);
        }
        None
    }
}

// ---- Lines ----

/// The lines of a text, each with its line break.
pub open spec fn inclusive_lines(text: Seq<char>) -> Seq<Seq<char>>
    decreases text.len(),
{
    if text.len() == 0 {
        seq![]
    } else {
        let before = inclusive_lines(text.drop_last());
        if before.len() > 0 && before.last().len() > 0 && before.last().last() != '\n' {
            before.drop_last().push(before.last().push(text.last()))
        } else {
            before.push(seq![text.last()])
        }
    }
}

fn split_lines(text: &str) -> (out: Vec<String>)
    ensures
        out.deep_view() == inclusive_lines(text@),
{
    let chars = chars_of(text);
    let mut out: Vec<String> = empty();
    let mut line = String::new();
    let mut i: usize = 0;
    while i < chars.len()
        invariant
            i <= chars@.len(),
            chars@ == text@,
            inclusive_lines(chars@.take(i as int)) == (if line@.len() > 0 {
                out.deep_view().push(line@)
            } else {
                out.deep_view()
            }),
            line@.len() > 0 ==> line@.last() != '\n',
            line@.len() == 0 && out.deep_view().len() > 0 ==> out.deep_view().last().len() > 0
                && out.deep_view().last().last() == '\n',
        decreases chars@.len() - i,
    {
        proof {
            take_next(chars@, i as int);
        }
        let c = chars[i];
        let ghost before = line@;
        line.push(c);
        proof {
            let old_lines = inclusive_lines(chars@.take(i as int));
            if before.len() > 0 {
                assert(old_lines.drop_last() =~= out.deep_view());
            } else {
                assert(line@ =~= seq![c]);
            }
        }
        if c == '\n' {
            let mut done = String::new();
            std::mem::swap(&mut done, &mut line);
            put(&mut out, done);
        }
        i = i + 1;
    }
    proof {
        take_all(chars@);
    }
    if line.as_str().unicode_len() > 0 {
        put(&mut out, line);
    }
    out
}

/// A line without its line break.
pub open spec fn mark_of(line: Seq<char>) -> Seq<char>
    decreases line.len(),
{
    if line.len() > 0 && (line.last() == '\r' || line.last() == '\n') {
        mark_of(line.drop_last())
    } else {
        line
    }
}

fn mark(line: &str) -> (r: &str)
    ensures
        r@ == mark_of(line@),
{
    let mut end: usize = line.unicode_len();
    assert(line@.take(end as int) =~= line@);
    while end > 0 && (line.get_char(end - 1) == '\r' || line.get_char(end - 1) == '\n')
        invariant
            end <= line@.len(),
            mark_of(line@) == mark_of(line@.take(end as int)),
        decreases end,
    {
        end = end - 1;
        proof {
            take_next(line@, end as int);
        }
    }
    let r = line.substring_char(0, end);
    assert(r@ =~= line@.take(end as int));
    assert(end > 0 ==> line@.take(end as int).last() == line@[end - 1]);
    r
}

/// How many bytes a text takes.
pub open spec fn byte_len(text: Seq<char>) -> nat {
    vstd::utf8::encode_utf8(text).len()
}

// ---- Documents ----

/// The line that closes the head, counted from 0; the search begins at line `k`, before which the
/// lines take `used` bytes.
pub open spec fn closing_line(lines: Seq<Seq<char>>, k: int, used: nat) -> Result<int, Seq<char>>
    decreases lines.len() - k,
{
    if k >= lines.len() {
        Err("frontmatter 缺少结束标记"@)
    } else {
        let now = used + byte_len(lines[k]);
        if now > FRONTMATTER_MAX_BYTES {
            Err("frontmatter 超过 "@ + dec(FRONTMATTER_MAX_BYTES as nat) + " bytes 上限"@)
        } else if mark_of(lines[k]) == "---"@ || mark_of(lines[k]) == "..."@ {
            Ok(k)
        } else {
            closing_line(lines, k + 1, now)
        }
    }
}

/// A text without the byte order mark in front of it.
pub open spec fn without_mark(text: Seq<char>) -> Seq<char> {
    if text.len() > 0 && text[0] == '\u{feff}' {
        text.drop_first()
    } else {
        text
    }
}

/// The head of a document as YAML, and its body; or why it has none.
pub open spec fn parts(text: Seq<char>) -> Result<(Seq<char>, Seq<char>), Seq<char>> {
    let lines = inclusive_lines(without_mark(text));
    if lines.len() == 0 || mark_of(lines[0]) != "---"@ {
        Err("必须以 --- frontmatter 开始"@)
    } else {
        match closing_line(lines, 1, byte_len(lines[0])) {
            Err(e) => Err(e),
            Ok(k) => Ok(
                (joined(lines.subrange(1, k), ""@), joined(lines.subrange(k + 1, lines.len() as int), ""@)),
            ),
        }
    }
}

/// The entries at the head of a document, and its body; or why it is refused.
pub open spec fn document(text: Seq<char>) -> Result<
    (Seq<(YamlView, YamlView)>, Seq<char>),
    Seq<char>,
> {
    match parts(text) {
        Err(e) => Err(e),
        Ok((yaml, body)) => match parsed_yaml(yaml) {
            Err(e) => Err("YAML 解析失败: "@ + e),
            Ok(value) => match untagged(value) {
                YamlView::Table(entries) => Ok((entries, body)),
                _ => Err("frontmatter 必须是 object"@),
            },
        },
    }
}

fn line_bytes(line: &str) -> (n: usize)
    ensures
        n == byte_len(line@),
{
    line.as_bytes_vec().len()
}

fn find_close(lines: &Vec<String>) -> (r: Result<usize, String>)
    requires
        lines@.len() > 0,
    ensures
        match closing_line(lines.deep_view(), 1, byte_len(lines.deep_view()[0])) {
            Ok(k) => r is Ok && r->Ok_0 == k && 1 <= k < lines@.len(),
            Err(e) => r is Err && r->Err_0@ == e,
        },
{
    let ghost all = lines.deep_view();
    let mut used: u128 = line_bytes(lines[0].as_str()) as u128;
    let mut k: usize = 1;
    while k < lines.len()
        invariant
            1 <= k <= lines@.len(),
            all == lines.deep_view(),
            k > 1 ==> used <= FRONTMATTER_MAX_BYTES,
            used <= usize::MAX,
            closing_line(all, 1, byte_len(all[0])) == closing_line(all, k as int, used as nat),
        decreases lines@.len() - k,
    {
        used = used + line_bytes(lines[k].as_str()) as u128;
        if used > FRONTMATTER_MAX_BYTES as u128 {
            return Err(
                concat3(
                    "frontmatter 超过 ",
                    decimal(FRONTMATTER_MAX_BYTES as u64).as_str(),
                    " bytes 上限",
                ),
            );
        }
        let m = mark(lines[k].as_str());
        if same(m, "---") || same(m, "...") {
            return Ok(k);
        }
        k = k + 1;
    }
    Err("frontmatter 缺少结束标记".to_owned())
}

fn slice_text(lines: &Vec<String>, from: usize, to: usize) -> (out: String)
    requires
        from <= to <= lines@.len(),
    ensures
        out@ == joined(lines.deep_view().subrange(from as int, to as int), ""@),
{
    let ghost goal = lines.deep_view().subrange(from as int, to as int);
    let mut part: Vec<String> = empty();
    let mut i: usize = from;
    while i < to
        invariant
            from <= i <= to <= lines@.len(),
            goal == lines.deep_view().subrange(from as int, to as int),
            part.deep_view() == goal.take(i - from),
        decreases to - i,
    {
        proof {
            take_next(goal, i - from);
        }
        put(&mut part, lines[i].clone());
        i = i + 1;
    }
    proof {
        take_all(goal);
    }
    join(&part, "")
}

/// Splits a document into its head and its body.
pub fn parse_document(text: &str) -> (r: Result<(Head, String), String>)
    ensures
        match document(text@) {
            Ok((entries, body)) => r is Ok && r->Ok_0.0.entries.deep_view() == entries && r->Ok_0.1@
                == body,
            Err(e) => r is Err && r->Err_0@ == e,
        },
{
    let len: usize = text.unicode_len();
    let bare = if len > 0 && text.get_char(0) == '\u{feff}' {
        let cut = text.substring_char(1, len);
        assert(cut@ =~= text@.drop_first());
        cut
    } else {
        text
    };
    let lines = split_lines(bare);
    if lines.len() == 0 {
        return Err("必须以 --- frontmatter 开始".to_owned());
    }
    if !same(mark(lines[0].as_str()), "---") {
        return Err("必须以 --- frontmatter 开始".to_owned());
    }
    let close: usize = match find_close(&lines) {
        Ok(k) => k,
        Err(e) => {
            return Err(e);
        },
    };
    let yaml = slice_text(&lines, 1, close);
    let body = slice_text(&lines, close + 1, lines.len());
    let value = match parse_yaml(yaml.as_str()) {
        Ok(value) => value,
        Err(e) => {
            return Err(concat2("YAML 解析失败: ", e.as_str()));
        },
    };
    match take_table(value) {
        Some(entries) => Ok((Head { entries }, body)),
        None => Err("frontmatter 必须是 object".to_owned()),
    }
}

fn take_table(value: Yaml) -> (r: Option<Vec<(Yaml, Yaml)>>)
    ensures
        match untagged(value@) {
            YamlView::Table(entries) => r is Some && r->0.deep_view() == entries,
            _ => r is None,
        },
    decreases value,
{
    match value {
        Yaml::Tagged(_, inner) => take_table(*inner),
        Yaml::Table(entries) => {
            assert(entries.deep_view() =~= value@->Table_0);
            Some(entries)
        },
        _ => None,
    }
}

// ---- Laws ----

proof fn joined_push(lines: Seq<Seq<char>>, line: Seq<char>)
    ensures
        joined(lines.push(line), ""@) == joined(lines, ""@) + line,
{
    reveal_strlit("");
    assert(lines.push(line).drop_last() =~= lines);
    if lines.len() == 0 {
        assert(joined(lines.push(line), ""@) =~= line);
        assert(joined(lines, ""@) =~= seq![]);
    } else {
        assert(joined(lines, ""@) + ""@ + line =~= joined(lines, ""@) + line);
    }
}

/// The lines of a text, put together again, are the text: no character of a document is lost
/// between its head and its body.
pub proof fn law_lines_make_the_text(text: Seq<char>)
    ensures
        joined(inclusive_lines(text), ""@) == text,
    decreases text.len(),
{
    reveal_strlit("");
    if text.len() > 0 {
        law_lines_make_the_text(text.drop_last());
        let before = inclusive_lines(text.drop_last());
        if before.len() > 0 && before.last().len() > 0 && before.last().last() != '\n' {
            joined_push(before.drop_last(), before.last());
            joined_push(before.drop_last(), before.last().push(text.last()));
            assert(before.drop_last().push(before.last()) =~= before);
            assert(joined(before.drop_last(), ""@) + before.last().push(text.last()) =~= (joined(
                before.drop_last(),
                ""@,
            ) + before.last()).push(text.last()));
        } else {
            joined_push(before, seq![text.last()]);
            assert(text.drop_last() + seq![text.last()] =~= text);
        }
        assert(text =~= text.drop_last().push(text.last()));
    } else {
        assert(joined(inclusive_lines(text), ""@) =~= text);
    }
}

} // verus!
