//! The working directory as the agent sees it: how given paths are resolved and shown.
//!
//! Paths are texts. Whether they follow the POSIX or the Windows grammar is decided by the root.
use vstd::prelude::*;

use crate::list::{empty, put, take_all, take_next};
use crate::text::{
    chars_of, concat2, concat3, dec, decimal, replace_char, same, split, split_on, swapped, text_le,
};

verus! {

/// The largest file that is read as text.
pub const MAX_FILE_BYTES: u64 = 10485760;

#[derive(Debug, Clone, Copy, PartialEq, Eq, Structural)]
pub enum PathStyle {
    Posix,
    Windows,
}

/// One part of a path.
#[derive(Debug)]
pub enum Part {
    /// A drive (`C:`) or a share (`\\server\share`).
    Prefix(String),
    RootDir,
    CurDir,
    ParentDir,
    Normal(String),
}

#[verifier::ext_equal]
pub enum PartView {
    Prefix(Seq<char>),
    RootDir,
    CurDir,
    ParentDir,
    Normal(Seq<char>),
}

impl DeepView for Part {
    type V = PartView;

    open spec fn deep_view(&self) -> PartView {
        match *self {
            Part::Prefix(t) => PartView::Prefix(t@),
            Part::RootDir => PartView::RootDir,
            Part::CurDir => PartView::CurDir,
            Part::ParentDir => PartView::ParentDir,
            Part::Normal(t) => PartView::Normal(t@),
        }
    }
}

impl Clone for Part {
    fn clone(&self) -> (r: Part)
        ensures
            r.deep_view() == self.deep_view(),
    {
        match self {
            Part::Prefix(t) => Part::Prefix(t.clone()),
            Part::RootDir => Part::RootDir,
            Part::CurDir => Part::CurDir,
            Part::ParentDir => Part::ParentDir,
            Part::Normal(t) => Part::Normal(t.clone()),
        }
    }
}

pub open spec fn separator(style: PathStyle) -> char {
    match style {
        PathStyle::Posix => '/',
        PathStyle::Windows => '\\',
    }
}

fn sep_char(style: PathStyle) -> (c: char)
    ensures
        c == separator(style),
{
    match style {
        PathStyle::Posix => '/',
        PathStyle::Windows => '\\',
    }
}

fn sep_text(style: PathStyle) -> (s: String)
    ensures
        s@ == seq![separator(style)],
{
    let mut s = String::new();
    s.push(sep_char(style));
    assert(s@ =~= seq![separator(style)]);
    s
}

/// The text with one kind of separator only.
pub open spec fn unified(style: PathStyle, text: Seq<char>) -> Seq<char> {
    match style {
        PathStyle::Posix => text,
        PathStyle::Windows => swapped(text, '/', '\\'),
    }
}

pub open spec fn is_letter(c: char) -> bool {
    ('a' <= c && c <= 'z') || ('A' <= c && c <= 'Z')
}

/// How many characters from `from` on are no separator.
pub open spec fn run_len(text: Seq<char>, from: int) -> nat
    decreases text.len() - from,
{
    if 0 <= from < text.len() && text[from] != '\\' {
        1 + run_len(text, from + 1)
    } else {
        0
    }
}

/// The length of the drive or share that a unified path begins with.
pub open spec fn prefix_len(style: PathStyle, text: Seq<char>) -> int {
    match style {
        PathStyle::Posix => 0,
        PathStyle::Windows => if text.len() >= 2 && is_letter(text[0]) && text[1] == ':' {
            2
        } else if text.len() >= 2 && text[0] == '\\' && text[1] == '\\' {
            let server = 2int + run_len(text, 2);
            if server < text.len() {
                server + 1 + run_len(text, server + 1)
            } else {
                server
            }
        } else {
            0
        },
    }
}

fn run(chars: &Vec<char>, from: usize) -> (n: usize)
    requires
        from <= chars@.len(),
    ensures
        n == run_len(chars@, from as int),
        from + n <= chars@.len(),
    decreases chars@.len() - from,
{
    if from < chars.len() && chars[from] != '\\' {
        1 + run(chars, from + 1)
    } else {
        0
    }
}

fn prefix_of(style: PathStyle, text: &str) -> (n: usize)
    ensures
        n == prefix_len(style, text@),
        n <= text@.len(),
{
    match style {
        PathStyle::Posix => 0,
        PathStyle::Windows => {
            let chars = chars_of(text);
            if chars.len() < 2 {
                return 0;
            }
            let first = chars[0];
            let letter = ('a' <= first && first <= 'z') || ('A' <= first && first <= 'Z');
            if letter && chars[1] == ':' {
                2
            } else if first == '\\' && chars[1] == '\\' {
                let server: usize = 2 + run(&chars, 2);
                if server < chars.len() {
                    server + 1 + run(&chars, server + 1)
                } else {
                    server
                }
            } else {
                0
            }
        },
    }
}

/// The parts that the pieces between separators stand for. Empty pieces stand for nothing; a
/// leading `.` counts only where nothing stands before it.
pub open spec fn named_parts(pieces: Seq<Seq<char>>, anchored: bool) -> Seq<PartView>
    decreases pieces.len(),
{
    if pieces.len() == 0 {
        seq![]
    } else {
        let before = named_parts(pieces.drop_last(), anchored);
        let piece = pieces.last();
        if piece.len() == 0 {
            before
        } else if piece == "."@ {
            if pieces.len() == 1 && !anchored {
                before.push(PartView::CurDir)
            } else {
                before
            }
        } else if piece == ".."@ {
            before.push(PartView::ParentDir)
        } else {
            before.push(PartView::Normal(piece))
        }
    }
}

/// The parts of a path.
pub open spec fn parts_of(style: PathStyle, path: Seq<char>) -> Seq<PartView> {
    let text = unified(style, path);
    let n = prefix_len(style, text);
    let rest = text.skip(n);
    let rooted = n > 2 || (rest.len() > 0 && rest[0] == separator(style));
    let prefix = if n > 0 {
        seq![PartView::Prefix(text.take(n))]
    } else {
        seq![]
    };
    let root = if rooted {
        seq![PartView::RootDir]
    } else {
        seq![]
    };
    prefix + root + named_parts(split_on(rest, separator(style)), n > 0 || rooted)
}

fn name_parts(pieces: &Vec<String>, anchored: bool) -> (out: Vec<Part>)
    ensures
        out.deep_view() == named_parts(pieces.deep_view(), anchored),
{
    let ghost all = pieces.deep_view();
    let mut out: Vec<Part> = empty();
    let mut i: usize = 0;
    while i < pieces.len()
        invariant
            i <= pieces@.len(),
            all == pieces.deep_view(),
            out.deep_view() == named_parts(all.take(i as int), anchored),
        decreases pieces@.len() - i,
    {
        proof {
            take_next(all, i as int);
        }
        let piece = pieces[i].as_str();
        if piece.is_empty() {
        } else if same(piece, ".") {
            if i == 0 && !anchored {
                put(&mut out, Part::CurDir);
            }
        } else if same(piece, "..") {
            put(&mut out, Part::ParentDir);
        } else {
            put(&mut out, Part::Normal(piece.to_owned()));
        }
        i = i + 1;
    }
    proof {
        take_all(all);
    }
    out
}

/// Takes a path apart.
pub fn components(style: PathStyle, path: &str) -> (out: Vec<Part>)
    ensures
        out.deep_view() == parts_of(style, path@),
{
    let text = match style {
        PathStyle::Posix => path.to_owned(),
        PathStyle::Windows => replace_char(path, '/', '\\'),
    };
    let len: usize = text.as_str().unicode_len();
    let n = prefix_of(style, text.as_str());
    let rest = text.as_str().substring_char(n, len);
    assert(rest@ =~= text@.skip(n as int));
    let sep = sep_char(style);
    let rooted = n > 2 || (!rest.is_empty() && rest.get_char(0) == sep);
    let mut out: Vec<Part> = empty();
    if n > 0 {
        let prefix = text.as_str().substring_char(0, n);
        assert(prefix@ =~= text@.take(n as int));
        put(&mut out, Part::Prefix(prefix.to_owned()));
    }
    if rooted {
        put(&mut out, Part::RootDir);
    }
    let names = name_parts(&split(rest, sep), n > 0 || rooted);
    crate::list::extend(&mut out, names);
    assert(out.deep_view() =~= parts_of(style, path@));
    out
}

/// How many characters some pieces take up, each with a separator behind it.
pub open spec fn width(pieces: Seq<Seq<char>>) -> nat
    decreases pieces.len(),
{
    if pieces.len() == 0 {
        0
    } else {
        width(pieces.drop_last()) + pieces.last().len() + 1
    }
}

/// How many pieces it takes, from the first on, to have this many names.
pub open spec fn pieces_for(pieces: Seq<Seq<char>>, anchored: bool, names: nat) -> nat
    decreases pieces.len(),
{
    if pieces.len() == 0 || named_parts(pieces.drop_last(), anchored).len() < names {
        pieces.len()
    } else {
        pieces_for(pieces.drop_last(), anchored, names)
    }
}

/// What stands in a path behind its first `k` parts, as it is written there: from where the next
/// part begins to where the last one ends.
pub open spec fn text_behind(style: PathStyle, path: Seq<char>, k: nat) -> Seq<char> {
    let text = unified(style, path);
    let n = prefix_len(style, text);
    let rest = text.skip(n);
    let slash = rest.len() > 0 && rest[0] == separator(style);
    let rooted = n > 2 || slash;
    let anchored = n > 0 || rooted;
    let heads = (if n > 0 {
        1int
    } else {
        0
    }) + (if rooted {
        1int
    } else {
        0
    });
    let pieces = split_on(rest, separator(style));
    let names = named_parts(pieces, anchored).len();
    let start = if k == 0 {
        0
    } else if k < heads {
        n
    } else {
        n + width(pieces.take(pieces_for(pieces, anchored, (k - heads + 1) as nat) - 1))
    };
    let end = if names == 0 {
        n + (if slash {
            1int
        } else {
            0
        })
    } else {
        n + width(pieces.take(pieces_for(pieces, anchored, names) as int)) - 1
    };
    path.subrange(start, end)
}

proof fn pieces_fill_the_text(text: Seq<char>, sep: char)
    ensures
        split_on(text, sep).len() > 0,
        width(split_on(text, sep)) == text.len() + 1,
    decreases text.len(),
{
    let pieces = split_on(text, sep);
    if text.len() == 0 {
        assert(pieces.drop_last() =~= seq![]);
        assert(width(pieces.drop_last()) == 0);
    } else {
        let before = split_on(text.drop_last(), sep);
        pieces_fill_the_text(text.drop_last(), sep);
        if text.last() == sep {
            assert(pieces.drop_last() =~= before);
        } else {
            assert(pieces.drop_last() =~= before.drop_last());
        }
    }
}

proof fn widths_grow(pieces: Seq<Seq<char>>, n: int)
    requires
        0 <= n <= pieces.len(),
    ensures
        width(pieces.take(n)) <= width(pieces),
        n < pieces.len() ==> width(pieces.take(n)) < width(pieces),
    decreases pieces.len(),
{
    if n < pieces.len() {
        widths_grow(pieces.drop_last(), n);
        assert(pieces.drop_last().take(n) =~= pieces.take(n));
    } else {
        take_all(pieces);
    }
}

/// Where the name number `want` begins among some pieces, and where the last name ends; both zero
/// where there are no names.
fn span_of_names(pieces: &Vec<String>, anchored: bool, want: usize) -> (r: (usize, usize, usize))
    requires
        width(pieces.deep_view()) <= usize::MAX + 1,
    ensures
        ({
            let all = pieces.deep_view();
            let names = named_parts(all, anchored).len();
            &&& r.2 == names
            &&& want < names ==> r.0 <= r.1 && r.0 == width(
                all.take(pieces_for(all, anchored, (want + 1) as nat) - 1),
            )
            &&& names > 0 ==> r.1 == width(all.take(pieces_for(all, anchored, names) as int)) - 1
                && r.1 < width(all)
        }),
{
    let ghost all = pieces.deep_view();
    let mut start: usize = 0;
    let mut end: usize = 0;
    let mut names: usize = 0;
    let mut offset: usize = 0;
    let mut i: usize = 0;
    while i < pieces.len()
        invariant
            i <= pieces@.len(),
            all == pieces.deep_view(),
            width(all) <= usize::MAX + 1,
            i < pieces@.len() ==> offset == width(all.take(i as int)),
            names <= i,
            names == named_parts(all.take(i as int), anchored).len(),
            want < names ==> start <= end && start == width(
                all.take(pieces_for(all.take(i as int), anchored, (want + 1) as nat) - 1),
            ),
            names > 0 ==> end == width(
                all.take(pieces_for(all.take(i as int), anchored, names as nat) as int),
            ) - 1 && end < width(all.take(i as int)),
        decreases pieces@.len() - i,
    {
        proof {
            take_next(all, i as int);
            widths_grow(all, i + 1);
        }
        let piece = pieces[i].as_str();
        assert(piece@ == all[i as int]);
        let len: usize = piece.unicode_len();
        let named = !piece.is_empty() && (!same(piece, ".") || (i == 0 && !anchored));
        if named {
            if names == want {
                start = offset;
            }
            end = offset + len;
            names = names + 1;
        }
        i = i + 1;
        if i < pieces.len() {
            offset = offset + len + 1;
        }
    }
    proof {
        take_all(all);
    }
    (start, end, names)
}

/// What stands in a path behind its first `k` parts, as it is written there.
fn behind(style: PathStyle, path: &str, k: usize) -> (s: String)
    requires
        k < parts_of(style, path@).len(),
    ensures
        s@ == text_behind(style, path@, k as nat),
{
    let text = match style {
        PathStyle::Posix => path.to_owned(),
        PathStyle::Windows => replace_char(path, '/', '\\'),
    };
    let len: usize = text.as_str().unicode_len();
    let n = prefix_of(style, text.as_str());
    let rest = text.as_str().substring_char(n, len);
    assert(rest@ =~= text@.skip(n as int));
    let sep = sep_char(style);
    let slash = !rest.is_empty() && rest.get_char(0) == sep;
    let rooted = n > 2 || slash;
    let mut heads: usize = 0;
    if n > 0 {
        heads = heads + 1;
    }
    if rooted {
        heads = heads + 1;
    }
    let pieces = split(rest, sep);
    proof {
        pieces_fill_the_text(rest@, sep);
    }
    let want: usize = if k < heads {
        0
    } else {
        k - heads
    };
    let (first, last, names) = span_of_names(&pieces, n > 0 || rooted, want);
    let start: usize = if k == 0 {
        0
    } else if k < heads {
        n
    } else {
        n + first
    };
    let end: usize = if names > 0 {
        n + last
    } else if slash {
        n + 1
    } else {
        n
    };
    path.substring_char(start, end).to_owned()
}

/// One more part behind some that are already normal.
pub open spec fn with_part(parts: Seq<PartView>, part: PartView) -> Seq<PartView> {
    match part {
        PartView::CurDir => parts,
        PartView::ParentDir => if parts.len() > 0 && parts.last() is Normal {
            parts.drop_last()
        } else {
            parts.push(part)
        },
        _ => parts.push(part),
    }
}

/// The parts without `.`, and with each `..` resolved against the name before it. A `..` that has
/// no name to resolve against stays.
pub open spec fn normal_form(parts: Seq<PartView>) -> Seq<PartView>
    decreases parts.len(),
{
    if parts.len() == 0 {
        seq![]
    } else {
        with_part(normal_form(parts.drop_last()), parts.last())
    }
}

pub fn normalize_lexically(parts: &Vec<Part>) -> (out: Vec<Part>)
    ensures
        out.deep_view() == normal_form(parts.deep_view()),
{
    let ghost all = parts.deep_view();
    let mut out: Vec<Part> = empty();
    let mut i: usize = 0;
    while i < parts.len()
        invariant
            i <= parts@.len(),
            all == parts.deep_view(),
            out.deep_view() == normal_form(all.take(i as int)),
        decreases parts@.len() - i,
    {
        proof {
            take_next(all, i as int);
        }
        match &parts[i] {
            Part::CurDir => {},
            Part::ParentDir => {
                let named = out.len() > 0 && matches!(out[out.len() - 1], Part::Normal(_));
                if named {
                    let ghost before = out.deep_view();
                    out.pop();
                    assert(out.deep_view() =~= before.drop_last());
                } else {
                    put(&mut out, Part::ParentDir);
                }
            },
            other => {
                put(&mut out, other.clone());
            },
        }
        i = i + 1;
    }
    proof {
        take_all(all);
    }
    out
}

pub open spec fn part_text(style: PathStyle, part: PartView) -> Seq<char> {
    match part {
        PartView::Prefix(t) => t,
        PartView::RootDir => seq![separator(style)],
        PartView::CurDir => "."@,
        PartView::ParentDir => ".."@,
        PartView::Normal(t) => t,
    }
}

/// Whether a separator follows the part where another one comes behind it.
pub open spec fn needs_separator(part: PartView) -> bool {
    !(part is Prefix || part is RootDir)
}

/// The path that the parts make up.
pub open spec fn path_text(style: PathStyle, parts: Seq<PartView>) -> Seq<char>
    decreases parts.len(),
{
    if parts.len() == 0 {
        seq![]
    } else {
        let before = path_text(style, parts.drop_last());
        if parts.len() >= 2 && needs_separator(parts[parts.len() - 2]) {
            before.push(separator(style)) + part_text(style, parts.last())
        } else {
            before + part_text(style, parts.last())
        }
    }
}

fn text_of_part(style: PathStyle, part: &Part) -> (s: String)
    ensures
        s@ == part_text(style, part.deep_view()),
{
    match part {
        Part::Prefix(t) => t.clone(),
        Part::RootDir => sep_text(style),
        Part::CurDir => ".".to_owned(),
        Part::ParentDir => "..".to_owned(),
        Part::Normal(t) => t.clone(),
    }
}

pub fn render(style: PathStyle, parts: &Vec<Part>) -> (out: String)
    ensures
        out@ == path_text(style, parts.deep_view()),
{
    let ghost all = parts.deep_view();
    let mut out = String::new();
    let mut i: usize = 0;
    while i < parts.len()
        invariant
            i <= parts@.len(),
            all == parts.deep_view(),
            out@ == path_text(style, all.take(i as int)),
        decreases parts@.len() - i,
    {
        proof {
            take_next(all, i as int);
        }
        if i >= 1 && !matches!(parts[i - 1], Part::Prefix(_) | Part::RootDir) {
            out.push(sep_char(style));
        }
        out.push_str(text_of_part(style, &parts[i]).as_str());
        i = i + 1;
    }
    proof {
        take_all(all);
    }
    out
}

pub open spec fn is_rooted(parts: Seq<PartView>) -> bool {
    (parts.len() > 0 && parts[0] is RootDir) || (parts.len() > 1 && parts[0] is Prefix
        && parts[1] is RootDir)
}

/// The parts that `given` stands for below `root`: an absolute path, or one with a drive of its
/// own, stands for itself; a rooted one keeps the drive of `root`.
pub open spec fn joined_parts(style: PathStyle, root: Seq<PartView>, given: Seq<PartView>) -> Seq<
    PartView,
> {
    if given.len() > 0 && given[0] is Prefix {
        given
    } else if is_rooted(given) {
        if style == PathStyle::Windows && root.len() > 0 && root[0] is Prefix {
            seq![root[0]] + given
        } else {
            given
        }
    } else {
        root + given
    }
}

/// The grammar of a root: Windows where it begins with a drive or a share.
pub open spec fn style_of(root: Seq<char>) -> PathStyle {
    if prefix_len(PathStyle::Windows, root) > 0 {
        PathStyle::Windows
    } else {
        PathStyle::Posix
    }
}

#[derive(Debug)]
pub struct Workspace {
    root: String,
    style: PathStyle,
}

impl View for Workspace {
    type V = Seq<char>;

    closed spec fn view(&self) -> Seq<char> {
        self.root@
    }
}

impl Workspace {
    #[verifier::type_invariant]
    spec fn style_fits(&self) -> bool {
        self.style == style_of(self.root@)
    }

    pub fn new(root: String) -> (w: Workspace)
        ensures
            w@ == root@,
    {
        let style = if prefix_of(PathStyle::Windows, root.as_str()) > 0 {
            PathStyle::Windows
        } else {
            PathStyle::Posix
        };
        Workspace { root, style }
    }

    pub fn root(&self) -> (r: &str)
        ensures
            r@ == self@,
    {
        self.root.as_str()
    }

    pub fn style(&self) -> (s: PathStyle)
        ensures
            s == style_of(self@),
    {
        proof {
            use_type_invariant(&*self);
        }
        self.style
    }

    /// The normal parts of the path that `given` stands for.
    pub open spec fn resolved(root: Seq<char>, given: Seq<char>) -> Seq<PartView> {
        let style = style_of(root);
        normal_form(joined_parts(style, parts_of(style, root), parts_of(style, given)))
    }

    /// The path that a given one stands for: relative ones are below the root, absolute ones stand
    /// for themselves, and `.` and `..` are resolved as far as the text allows.
    pub fn resolve(&self, given: &str) -> (path: String)
        ensures
            path@ == path_text(style_of(self@), Workspace::resolved(self@, given@)),
    {
        let style = self.style();
        let mut parts = components(style, given);
        let absolute = parts.len() > 0 && matches!(parts[0], Part::Prefix(_));
        let rooted = parts.len() > 0 && matches!(parts[0], Part::RootDir);
        let ghost asked = parts.deep_view();
        if !absolute {
            let mut base = components(style, self.root.as_str());
            let ghost root = base.deep_view();
            if rooted {
                if style == PathStyle::Windows && base.len() > 0 && matches!(
                    base[0],
                    Part::Prefix(_)
                ) {
                    let mut all: Vec<Part> = crate::list::one(base[0].clone());
                    crate::list::extend(&mut all, parts);
                    parts = all;
                }
            } else {
                crate::list::extend(&mut base, parts);
                parts = base;
            }
            assert(parts.deep_view() == joined_parts(style, root, asked));
        }
        render(style, &normalize_lexically(&parts))
    }

    /// What is shown for a path: where it lies below the root, what it says behind the root.
    pub open spec fn shown(root: Seq<char>, path: Seq<char>) -> Seq<char> {
        let style = style_of(root);
        let base = parts_of(style, root);
        let parts = parts_of(style, path);
        if base.len() < parts.len() && parts.take(base.len() as int) == base {
            text_behind(style, path, base.len())
        } else {
            path
        }
    }

    pub fn display(&self, path: &str) -> (s: String)
        ensures
            s@ == Workspace::shown(self@, path@),
    {
        let style = self.style();
        let base = components(style, self.root.as_str());
        let parts = components(style, path);
        let ghost bv = base.deep_view();
        let ghost pv = parts.deep_view();
        if base.len() >= parts.len() {
            return path.to_owned();
        }
        let mut i: usize = 0;
        while i < base.len()
            invariant
                i <= base@.len() < parts@.len(),
                bv == base.deep_view(),
                pv == parts.deep_view(),
                bv == parts_of(style, self@),
                pv == parts_of(style, path@),
                style == style_of(self@),
                forall|k: int| 0 <= k < i ==> bv[k] == pv[k],
            decreases base@.len() - i,
        {
            if !same_part(&base[i], &parts[i]) {
                assert(pv.take(bv.len() as int)[i as int] != bv[i as int]);
                return path.to_owned();
            }
            i = i + 1;
        }
        assert(pv.take(bv.len() as int) =~= bv);
        behind(style, path, base.len())
    }
}

fn same_part(a: &Part, b: &Part) -> (r: bool)
    ensures
        r == (a.deep_view() == b.deep_view()),
{
    match (a, b) {
        (Part::Prefix(x), Part::Prefix(y)) => same(x.as_str(), y.as_str()),
        (Part::RootDir, Part::RootDir) => true,
        (Part::CurDir, Part::CurDir) => true,
        (Part::ParentDir, Part::ParentDir) => true,
        (Part::Normal(x), Part::Normal(y)) => same(x.as_str(), y.as_str()),
        _ => false,
    }
}

/// Parts in which nothing is left to resolve: no `.`, and no `..` behind a name.
pub open spec fn is_normal(parts: Seq<PartView>) -> bool {
    forall|i: int|
        0 <= i < parts.len() ==> {
            &&& !(#[trigger] parts[i] is CurDir)
            &&& (parts[i] is ParentDir && i > 0 ==> !(parts[i - 1] is Normal))
        }
}

/// Resolving leaves nothing to resolve.
pub proof fn law_resolving_is_complete(parts: Seq<PartView>)
    ensures
        is_normal(normal_form(parts)),
    decreases parts.len(),
{
    if parts.len() > 0 {
        law_resolving_is_complete(parts.drop_last());
        let before = normal_form(parts.drop_last());
        let now = normal_form(parts);
        assert forall|i: int| 0 <= i < now.len() implies {
            &&& !(#[trigger] now[i] is CurDir)
            &&& (now[i] is ParentDir && i > 0 ==> !(now[i - 1] is Normal))
        } by {
            if i < before.len() {
                assert(now[i] == before[i]);
                if i > 0 {
                    assert(now[i - 1] == before[i - 1]);
                }
            }
        }
    }
}

/// What is resolved already stays as it is, so resolving twice is resolving once.
pub proof fn law_resolving_is_stable(parts: Seq<PartView>)
    requires
        is_normal(parts),
    ensures
        normal_form(parts) == parts,
    decreases parts.len(),
{
    if parts.len() > 0 {
        let before = parts.drop_last();
        assert(is_normal(before)) by {
            assert forall|i: int| 0 <= i < before.len() implies {
                &&& !(#[trigger] before[i] is CurDir)
                &&& (before[i] is ParentDir && i > 0 ==> !(before[i - 1] is Normal))
            } by {
                assert(before[i] == parts[i]);
            }
        }
        law_resolving_is_stable(before);
        assert(!(parts[parts.len() - 1] is CurDir));
        assert(before.push(parts.last()) =~= parts);
    } else {
        assert(parts =~= seq![]);
    }
}

// ---- What the file primitives decide ----

/// The text of a failed file operation.
pub open spec fn io_text(action: Seq<char>, path: Seq<char>, error: Seq<char>) -> Seq<char> {
    action + " "@ + path + " 失败: "@ + error
}

pub fn io_err(action: &str, path: &str, error: &str) -> (s: String)
    ensures
        s@ == io_text(action@, path@, error@),
{
    let mut s = concat3(action, " ", path);
    s.push_str(" 失败: ");
    s.push_str(error);
    s
}

/// Whether a file of this kind and size is read as text.
pub fn check_readable(path: &str, is_file: bool, len: u64) -> (r: Result<(), String>)
    ensures
        r is Ok <==> is_file && len <= MAX_FILE_BYTES,
        r is Err ==> r->Err_0@ == (if !is_file {
            path@ + " 不是文件"@
        } else {
            "文件过大("@ + dec(len as nat) + " 字节,上限 "@ + dec(MAX_FILE_BYTES as nat)
                + "),请用 run_command 处理"@
        }),
{
    if !is_file {
        return Err(concat2(path, " 不是文件"));
    }
    if len > MAX_FILE_BYTES {
        let mut s = concat3("文件过大(", decimal(len).as_str(), " 字节,上限 ");
        s.push_str(decimal(MAX_FILE_BYTES).as_str());
        s.push_str("),请用 run_command 处理");
        return Err(s);
    }
    Ok(())
}

/// `String::from_utf8`: the text that the bytes encode, where they are valid UTF-8.
#[verifier::external_body]
pub(crate) fn utf8_text(bytes: Vec<u8>) -> (r: Option<String>)
    ensures
        r is Some <==> vstd::utf8::valid_utf8(bytes@),
        r is Some ==> r->0@ == vstd::utf8::decode_utf8(bytes@),
        r is Some ==> vstd::utf8::encode_utf8(r->0@) == bytes@,
{
    String::from_utf8(bytes).ok()
}

/// The text of a file.
pub fn decode_file(path: &str, bytes: Vec<u8>) -> (r: Result<String, String>)
    ensures
        r is Ok <==> vstd::utf8::valid_utf8(bytes@),
        r is Ok ==> r->Ok_0@ == vstd::utf8::decode_utf8(bytes@),
        r is Ok ==> vstd::utf8::encode_utf8(r->Ok_0@) == bytes@,
        r is Err ==> r->Err_0@ == path@ + " 不是 UTF-8 文本(可能是二进制文件)"@,
{
    match utf8_text(bytes) {
        Some(text) => Ok(text),
        None => Err(concat2(path, " 不是 UTF-8 文本(可能是二进制文件)")),
    }
}

/// An entry of a directory.
#[derive(Debug)]
pub struct DirItem {
    pub name: String,
    pub is_dir: bool,
    pub size: u64,
}

#[verifier::ext_equal]
pub struct DirItemView {
    pub name: Seq<char>,
    pub is_dir: bool,
    pub size: u64,
}

impl DeepView for DirItem {
    type V = DirItemView;

    open spec fn deep_view(&self) -> DirItemView {
        DirItemView { name: self.name@, is_dir: self.is_dir, size: self.size }
    }
}

/// The text that `str::to_lowercase` gives.
pub uninterp spec fn lowered_text(text: Seq<char>) -> Seq<char>;

/// `str::to_lowercase`: a function of the text alone.
#[verifier::external_body]
pub(crate) fn to_lower(text: &str) -> (out: String)
    ensures
        out@ == lowered_text(text@),
{
    text.to_lowercase()
}

/// `a` is listed no later than `b`: directories first, then by name in lower case.
pub open spec fn listed_before(a: DirItemView, b: DirItemView) -> bool {
    if a.is_dir == b.is_dir {
        text_le(lowered_text(a.name), lowered_text(b.name))
    } else {
        a.is_dir
    }
}

pub open spec fn insert_item(items: Seq<DirItemView>, x: DirItemView) -> Seq<DirItemView>
    decreases items.len(),
{
    if items.len() == 0 {
        seq![x]
    } else if listed_before(items.last(), x) {
        items.push(x)
    } else {
        insert_item(items.drop_last(), x).push(items.last())
    }
}

/// The entries in the order in which they are listed; equal ones keep their order.
pub open spec fn sorted_items(items: Seq<DirItemView>) -> Seq<DirItemView>
    decreases items.len(),
{
    if items.len() == 0 {
        seq![]
    } else {
        insert_item(sorted_items(items.drop_last()), items.last())
    }
}

fn item_before(a: &DirItem, b: &DirItem) -> (r: bool)
    ensures
        r == listed_before(a.deep_view(), b.deep_view()),
{
    if a.is_dir == b.is_dir {
        crate::text::no_later(to_lower(a.name.as_str()).as_str(), to_lower(b.name.as_str()).as_str())
    } else {
        a.is_dir
    }
}

fn put_item(list: &mut Vec<DirItem>, x: DirItem)
    ensures
        final(list).deep_view() == insert_item(old(list).deep_view(), x.deep_view()),
{
    let ghost before = list.deep_view();
    let ghost xv = x.deep_view();
    let mut i: usize = list.len();
    assert(before.take(before.len() as int) =~= before);
    assert(before.skip(before.len() as int) =~= seq![]);
    while i > 0 && !item_before(&list[i - 1], &x)
        invariant
            i <= list@.len(),
            before == list.deep_view(),
            xv == x.deep_view(),
            insert_item(before, xv) == insert_item(before.take(i as int), xv) + before.skip(i as int),
        decreases i,
    {
        i = i - 1;
        proof {
            take_next(before, i as int);
            assert(insert_item(before.take(i as int), xv).push(before[i as int]) + before.skip(i + 1)
                =~= insert_item(before.take(i as int), xv) + before.skip(i as int));
        }
    }
    list.insert(i, x);
    proof {
        assert(list.deep_view() =~= before.take(i as int).push(xv) + before.skip(i as int));
        if i > 0 {
            assert(before.take(i as int).last() == before[i - 1]);
        } else {
            assert(before.take(0).push(xv) =~= seq![xv]);
        }
    }
}

/// Sorts the entries of a directory for listing.
pub fn sort_entries(items: Vec<DirItem>) -> (out: Vec<DirItem>)
    ensures
        out.deep_view() == sorted_items(items.deep_view()),
{
    let ghost all = items.deep_view();
    let mut out: Vec<DirItem> = empty();
    let mut i: usize = 0;
    while i < items.len()
        invariant
            i <= items@.len(),
            all == items.deep_view(),
            out.deep_view() == sorted_items(all.take(i as int)),
        decreases items@.len() - i,
    {
        proof {
            take_next(all, i as int);
        }
        let item = &items[i];
        put_item(
            &mut out,
            DirItem { name: item.name.clone(), is_dir: item.is_dir, size: item.size },
        );
        i = i + 1;
    }
    proof {
        take_all(all);
    }
    out
}

// ---- Shown paths ----

proof fn first_pieces(text: Seq<char>, sep: char, n: int)
    requires
        1 <= n <= split_on(text, sep).len(),
    ensures
        ({
            let pieces = split_on(text, sep);
            let end = width(pieces.take(n)) - 1;
            0 <= end <= text.len() && split_on(text.take(end), sep) == pieces.take(n)
        }),
    decreases text.len(),
{
    let pieces = split_on(text, sep);
    let end = width(pieces.take(n)) - 1;
    pieces_fill_the_text(text, sep);
    if n == pieces.len() {
        take_all(pieces);
        assert(text.take(end) =~= text);
    } else {
        let shorter = text.drop_last();
        let before = split_on(shorter, sep);
        assert(pieces.take(n) =~= before.take(n));
        first_pieces(shorter, sep, n);
        assert(text.take(end) =~= shorter.take(end));
    }
}

proof fn last_pieces(text: Seq<char>, sep: char, n: int)
    requires
        0 <= n < split_on(text, sep).len(),
    ensures
        ({
            let pieces = split_on(text, sep);
            let start = width(pieces.take(n)) as int;
            start <= text.len() && split_on(text.skip(start), sep) == pieces.skip(n)
        }),
    decreases text.len(),
{
    let pieces = split_on(text, sep);
    let start = width(pieces.take(n)) as int;
    pieces_fill_the_text(text, sep);
    widths_grow(pieces, n);
    if text.len() == 0 {
        assert(text.skip(start) =~= text);
        assert(pieces.skip(n) =~= pieces);
    } else {
        let shorter = text.drop_last();
        let before = split_on(shorter, sep);
        pieces_fill_the_text(shorter, sep);
        if n == before.len() {
            assert(pieces.take(n) =~= before);
            assert(text.skip(start) =~= seq![]);
            assert(pieces.skip(n) =~= seq![Seq::<char>::empty()]);
        } else {
            assert(pieces.take(n) =~= before.take(n));
            last_pieces(shorter, sep, n);
            assert(text.skip(start).drop_last() =~= shorter.skip(start));
            assert(text.skip(start).last() == text.last());
            if text.last() == sep {
                assert(pieces.skip(n) =~= before.skip(n).push(seq![]));
            } else {
                assert(pieces.skip(n) =~= before.skip(n).drop_last().push(
                    before.last().push(text.last()),
                ));
                assert(before.skip(n).last() == before.last());
            }
        }
    }
}

proof fn names_join(pieces: Seq<Seq<char>>, anchored: bool, n: int)
    requires
        0 <= n < pieces.len(),
        pieces[n].len() > 0,
        pieces[n] != "."@ || (n == 0 && !anchored),
    ensures
        named_parts(pieces, anchored) == named_parts(pieces.take(n), anchored) + named_parts(
            pieces.skip(n),
            false,
        ),
    decreases pieces.len(),
{
    let rest = pieces.skip(n);
    let before = pieces.drop_last();
    if n == before.len() {
        assert(before =~= pieces.take(n));
        assert(rest.drop_last() =~= seq![]);
        assert(named_parts(rest.drop_last(), false) =~= seq![]);
        assert(rest.last() == pieces.last());
        assert(named_parts(pieces, anchored) =~= named_parts(pieces.take(n), anchored)
            + named_parts(rest, false));
    } else {
        names_join(before, anchored, n);
        assert(before.take(n) =~= pieces.take(n));
        assert(before.skip(n) =~= rest.drop_last());
        assert(named_parts(pieces, anchored) =~= named_parts(pieces.take(n), anchored)
            + named_parts(rest, false));
    }
}

proof fn pieces_up_to_a_name(pieces: Seq<Seq<char>>, anchored: bool, names: nat)
    requires
        0 < names <= named_parts(pieces, anchored).len(),
    ensures
        ({
            let n = pieces_for(pieces, anchored, names) as int;
            &&& 0 < n <= pieces.len()
            &&& named_parts(pieces.take(n), anchored).len() == names
            &&& named_parts(pieces.take(n - 1), anchored).len() == names - 1
            &&& pieces[n - 1].len() > 0
            &&& pieces[n - 1] != "."@ || (n == 1 && !anchored)
            &&& names == named_parts(pieces, anchored).len() ==> named_parts(
                pieces.take(n),
                anchored,
            ) == named_parts(pieces, anchored)
        }),
    decreases pieces.len(),
{
    let n = pieces_for(pieces, anchored, names) as int;
    let before = pieces.drop_last();
    if named_parts(before, anchored).len() < names {
        take_all(pieces);
        assert(pieces.take(n - 1) =~= before);
    } else {
        pieces_up_to_a_name(before, anchored, names);
        assert(before.take(n) =~= pieces.take(n));
        assert(before.take(n - 1) =~= pieces.take(n - 1));
    }
}

/// What is shown for a path below a POSIX root names, behind the root, what the path names.
pub proof fn law_shown_paths_name_the_rest(root: Seq<char>, path: Seq<char>)
    requires
        style_of(root) == PathStyle::Posix,
        root.len() > 0,
        root[0] == '/',
        parts_of(PathStyle::Posix, root).len() < parts_of(PathStyle::Posix, path).len(),
        parts_of(PathStyle::Posix, root).is_prefix_of(parts_of(PathStyle::Posix, path)),
    ensures
        parts_of(PathStyle::Posix, root) + parts_of(
            PathStyle::Posix,
            Workspace::shown(root, path),
        ) == parts_of(PathStyle::Posix, path),
{
    let style = PathStyle::Posix;
    let base = parts_of(style, root);
    let parts = parts_of(style, path);
    let k = base.len();
    assert(root.skip(0) =~= root);
    assert(path.skip(0) =~= path);
    assert(base[0] is RootDir);
    assert(parts[0] == base[0]);
    let pieces = split_on(path, '/');
    let head = named_parts(pieces, true);
    if !(path.len() > 0 && path[0] == '/') {
        names_are_no_root(pieces, false);
        assert(false);
    }
    assert(parts =~= seq![PartView::RootDir] + head);
    assert(parts.take(k as int) =~= base);
    let c = (k - 1) as nat;
    pieces_up_to_a_name(pieces, true, (c + 1) as nat);
    pieces_up_to_a_name(pieces, true, head.len());
    let a = pieces_for(pieces, true, (c + 1) as nat) - 1;
    let b = pieces_for(pieces, true, head.len()) as int;
    let start = width(pieces.take(a)) as int;
    let end = width(pieces.take(b)) - 1;
    if b <= a {
        fewer_pieces_fewer_names(pieces.take(a), true, b);
        assert(pieces.take(a).take(b) =~= pieces.take(b));
    }
    first_pieces(path, '/', b);
    let text = path.take(end);
    let own = pieces.take(b);
    last_pieces(text, '/', a);
    assert(own.take(a) =~= pieces.take(a));
    let said = Workspace::shown(root, path);
    assert(said == text_behind(style, path, k));
    assert(said =~= text.skip(start));
    names_join(own, true, a);
    let rest = own.skip(a);
    assert(rest[0] == pieces[a]);
    first_piece_leads(said, '/');
    assert(parts_of(style, said) =~= named_parts(rest, false)) by {
        assert(said.skip(0) =~= said);
    }
    assert(base + parts_of(style, said) =~= parts);
}

proof fn names_are_no_root(pieces: Seq<Seq<char>>, anchored: bool)
    ensures
        forall|i: int|
            0 <= i < named_parts(pieces, anchored).len() ==> !((#[trigger] named_parts(
                pieces,
                anchored,
            )[i]) is RootDir),
    decreases pieces.len(),
{
    if pieces.len() > 0 {
        names_are_no_root(pieces.drop_last(), anchored);
    }
}

proof fn fewer_pieces_fewer_names(pieces: Seq<Seq<char>>, anchored: bool, n: int)
    requires
        0 <= n <= pieces.len(),
    ensures
        named_parts(pieces.take(n), anchored).len() <= named_parts(pieces, anchored).len(),
    decreases pieces.len(),
{
    if n < pieces.len() {
        fewer_pieces_fewer_names(pieces.drop_last(), anchored, n);
        assert(pieces.drop_last().take(n) =~= pieces.take(n));
    } else {
        take_all(pieces);
    }
}

proof fn first_piece_leads(text: Seq<char>, sep: char)
    ensures
        split_on(text, sep).len() > 0,
        text.len() > 0 && text[0] == sep ==> split_on(text, sep)[0].len() == 0,
    decreases text.len(),
{
    pieces_fill_the_text(text, sep);
    if text.len() == 1 {
        assert(text.drop_last() =~= seq![]);
        assert(split_on(text.drop_last(), sep) =~= seq![Seq::<char>::empty()]);
    } else if text.len() > 1 {
        first_piece_leads(text.drop_last(), sep);
        pieces_fill_the_text(text.drop_last(), sep);
        let before = split_on(text.drop_last(), sep);
        if text[0] == sep && text.last() != sep && before.len() == 1 {
            two_pieces(text.drop_last(), sep);
        }
    }
}

proof fn two_pieces(text: Seq<char>, sep: char)
    requires
        text.len() > 0,
        text[0] == sep,
    ensures
        split_on(text, sep).len() >= 2,
    decreases text.len(),
{
    if text.len() > 1 {
        two_pieces(text.drop_last(), sep);
    } else {
        assert(text.drop_last() =~= seq![]);
        assert(split_on(text.drop_last(), sep).len() == 1);
    }
}

} // verus!
