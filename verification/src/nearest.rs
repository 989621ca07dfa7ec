//! Where a path leads that may not exist yet: its nearest existing ancestor is located, and the
//! names below it are kept.
use vstd::prelude::*;

use crate::list::{empty, put};
use crate::permission::{is_below, same_component, Located};
use crate::storage::{below, closed_path, join_path};
use crate::text::split_on;
use crate::workspace::{
    components, is_letter, named_parts, parts_of, path_text, prefix_len, render, run_len, separator,
    unified, Part, PartView, PathStyle,
};

verus! {

/// What the file system says of a path: its canonical form, that it does not exist, or another
/// error.
#[derive(Debug)]
pub enum Probe {
    Found(String),
    Missing(String),
    Failed(String),
}

/// A search for the nearest existing ancestor.
#[derive(Debug)]
pub struct Nearest {
    pub style: PathStyle,
    /// The ancestor to ask for next.
    pub cursor: Vec<Part>,
    /// The names below it, the last one first.
    pub missing: Vec<String>,
}

#[verifier::ext_equal]
pub struct NearestView {
    pub style: PathStyle,
    pub cursor: Seq<PartView>,
    pub missing: Seq<Seq<char>>,
}

impl DeepView for Nearest {
    type V = NearestView;

    open spec fn deep_view(&self) -> NearestView {
        NearestView {
            style: self.style,
            cursor: self.cursor.deep_view(),
            missing: self.missing.deep_view(),
        }
    }
}

/// Some names below a directory, the last one of the list first.
pub open spec fn extended(style: PathStyle, base: Seq<char>, names: Seq<Seq<char>>) -> Seq<char>
    decreases names.len(),
{
    if names.len() == 0 {
        base
    } else {
        extended(style, below(style, base, names.last()), names.drop_last())
    }
}

/// The search one level further up; nothing where there is no name to step over.
pub open spec fn above(s: NearestView) -> Option<NearestView> {
    if s.cursor.len() > 0 {
        match s.cursor.last() {
            PartView::Normal(name) => Some(
                NearestView {
                    cursor: s.cursor.drop_last(),
                    missing: s.missing.push(name),
                    ..s
                },
            ),
            _ => None,
        }
    } else {
        None
    }
}

impl Nearest {
    pub fn new(style: PathStyle, path: &str) -> (s: Nearest)
        ensures
            s.deep_view() == (NearestView {
                style,
                cursor: parts_of(style, path@),
                missing: seq![],
            }),
    {
        Nearest { style, cursor: components(style, path), missing: empty() }
    }

    /// The path to ask the file system for.
    pub fn look(&self) -> (path: String)
        ensures
            path@ == path_text(self.style, self.deep_view().cursor),
    {
        render(self.style, &self.cursor)
    }

    /// Takes the answer; nothing where another path has to be asked for.
    pub fn answer(&mut self, probe: Probe) -> (r: Option<Located>)
        ensures
            match probe {
                Probe::Found(canonical) => r matches Some(Located::Path(path)) && path@ == extended(
                    old(self).style,
                    canonical@,
                    old(self).deep_view().missing,
                ),
                Probe::Missing(error) => match above(old(self).deep_view()) {
                    Some(next) => r is None && final(self).deep_view() == next,
                    None => r == Some(Located::Failed(error)),
                },
                Probe::Failed(error) => r == Some(Located::Failed(error)),
            },
    {
        match probe {
            Probe::Found(canonical) => {
                let mut path = canonical;
                let ghost goal = extended(self.style, path@, self.deep_view().missing);
                assert(self.missing.deep_view().len() == self.missing@.len());
                while self.missing.len() > 0
                    invariant
                        self.style == old(self).style,
                        goal == extended(self.style, path@, self.missing.deep_view()),
                        goal == extended(
                            old(self).style,
                            probe->Found_0@,
                            old(self).deep_view().missing,
                        ),
                    decreases self.missing@.len(),
                {
                    let ghost names = self.missing.deep_view();
                    assert(names.len() == self.missing@.len());
                    if let Some(name) = self.missing.pop() {
                        assert(self.missing.deep_view() =~= names.drop_last());
                        path = join_path(self.style, path.as_str(), name.as_str());
                    }
                }
                assert(self.missing.deep_view().len() == 0);
                Some(Located::Path(path))
            },
            Probe::Missing(error) => {
                let ghost parts = self.cursor.deep_view();
                assert(parts.len() == self.cursor@.len());
                match self.cursor.pop() {
                    Some(Part::Normal(name)) => {
                        assert(self.cursor.deep_view() =~= parts.drop_last());
                        put(&mut self.missing, name);
                        None
                    },
                    _ => Some(Located::Failed(error)),
                }
            },
            Probe::Failed(error) => Some(Located::Failed(error)),
        }
    }
}

// ---- Laws ----

/// The path that a search is about.
pub open spec fn whole(s: NearestView) -> Seq<PartView> {
    s.cursor + s.missing.reverse().map_values(|name: Seq<char>| PartView::Normal(name))
}

/// However far up a search goes, no part of the path is lost or changed.
pub proof fn law_no_name_is_lost(s: NearestView)
    requires
        above(s) is Some,
    ensures
        whole(above(s)->0) == whole(s),
{
    let next = above(s)->0;
    let name = next.missing.last();
    let keep = |name: Seq<char>| PartView::Normal(name);
    assert(next.missing.reverse() =~= seq![name] + s.missing.reverse());
    assert(next.missing.reverse().map_values(keep) =~= seq![PartView::Normal(name)]
        + s.missing.reverse().map_values(keep));
    assert(s.cursor =~= next.cursor.push(PartView::Normal(name)));
    assert(whole(next) =~= whole(s));
}

/// A search ends: each step up leaves fewer ancestors.
pub proof fn law_searches_end(s: NearestView)
    requires
        above(s) is Some,
    ensures
        above(s)->0.cursor.len() < s.cursor.len(),
{
}

/// A name as it stands between two separators.
pub open spec fn is_plain(style: PathStyle, name: Seq<char>) -> bool {
    &&& name.len() > 0
    &&& name != "."@
    &&& name != ".."@
    &&& forall|i: int|
        0 <= i < name.len() ==> #[trigger] unified(style, name)[i] != separator(style)
}

/// A path that begins at a root, as canonical paths do.
pub open spec fn is_anchored(style: PathStyle, path: Seq<char>) -> bool {
    let text = unified(style, path);
    let n = prefix_len(style, text);
    n < text.len() && text[n] == separator(style)
}

proof fn run_is_stable(text: Seq<char>, tail: Seq<char>, from: int)
    requires
        0 <= from,
        from + run_len(text, from) < text.len(),
    ensures
        run_len(text + tail, from) == run_len(text, from),
        text[from + run_len(text, from)] == '\\',
    decreases text.len() - from,
{
    assert((text + tail)[from] == text[from]);
    if text[from] != '\\' {
        run_is_stable(text, tail, from + 1);
    }
}

/// More names do not change the drive or share of a path that begins at a root.
proof fn prefix_is_stable(style: PathStyle, text: Seq<char>, tail: Seq<char>)
    requires
        prefix_len(style, text) < text.len(),
        text[prefix_len(style, text)] == separator(style),
        text.len() == 1 ==> tail.len() > 0 && tail[0] != separator(style),
    ensures
        prefix_len(style, text + tail) == prefix_len(style, text),
{
    if style == PathStyle::Windows {
        let more = text + tail;
        if text.len() >= 2 {
            assert(more[0] == text[0] && more[1] == text[1]);
            if !(is_letter(text[0]) && text[1] == ':') && text[0] == '\\' && text[1] == '\\' {
                let server = 2int + run_len(text, 2);
                if server >= text.len() {
                    assert(prefix_len(style, text) == server);
                    assert(false);
                }
                run_is_stable(text, tail, 2);
                run_is_stable(text, tail, server + 1);
            }
        } else {
            assert(more[0] == text[0]);
            assert(more[1] == tail[0]);
        }
    }
}

/// A run without separators continues the last piece.
proof fn pieces_grow(text: Seq<char>, name: Seq<char>, sep: char)
    requires
        forall|i: int| 0 <= i < name.len() ==> name[i] != sep,
    ensures
        split_on(text, sep).len() > 0,
        split_on(text + name, sep) == split_on(text, sep).drop_last().push(
            split_on(text, sep).last() + name,
        ),
    decreases name.len(),
{
    has_pieces(text, sep);
    let pieces = split_on(text, sep);
    if name.len() == 0 {
        assert(text + name =~= text);
        assert(pieces.last() + name =~= pieces.last());
        assert(pieces.drop_last().push(pieces.last()) =~= pieces);
    } else {
        let shorter = name.drop_last();
        pieces_grow(text, shorter, sep);
        assert((text + name).drop_last() =~= text + shorter);
        assert((text + name).last() == name.last());
        let before = split_on(text + shorter, sep);
        assert(before.last() =~= pieces.last() + shorter);
        assert(before.drop_last() =~= pieces.drop_last());
        assert((pieces.last() + shorter).push(name.last()) =~= pieces.last() + name);
    }
}

proof fn has_pieces(text: Seq<char>, sep: char)
    ensures
        split_on(text, sep).len() > 0,
    decreases text.len(),
{
    if text.len() > 0 {
        has_pieces(text.drop_last(), sep);
    }
}

/// A name below a directory is one part more.
pub proof fn law_names_are_parts(style: PathStyle, base: Seq<char>, name: Seq<char>)
    requires
        is_anchored(style, base),
        is_plain(style, name),
    ensures
        parts_of(style, below(style, base, name)) == parts_of(style, base).push(
            PartView::Normal(unified(style, name)),
        ),
        is_anchored(style, below(style, base, name)),
{
    let sep = separator(style);
    let text = unified(style, base);
    let tail = unified(style, name);
    let n = prefix_len(style, text);
    let rest = text.skip(n);
    reveal_strlit("/");
    reveal_strlit("\\");
    reveal_strlit(".");
    reveal_strlit("..");
    assert(tail != "."@ && tail != ".."@) by {
        if tail == "."@ {
            assert(name =~= "."@);
        }
        if tail == ".."@ {
            assert(name =~= ".."@);
        }
    }
    let pieces = split_on(rest, sep);
    has_pieces(rest, sep);
    if closed_path(style, base) {
        let more = text + tail;
        assert(text.last() == sep);
        assert(unified(style, below(style, base, name)) =~= more);
        prefix_is_stable(style, text, tail);
        assert(more.skip(n) =~= rest + tail);
        pieces_grow(rest, tail, sep);
        assert(rest.last() == sep);
        assert(pieces.last() =~= seq![]);
        assert(seq![] + tail =~= tail);
        let grown = pieces.drop_last().push(tail);
        assert(split_on(more.skip(n), sep) =~= grown);
        assert(grown.drop_last() =~= pieces.drop_last());
        assert(named_parts(pieces, true) == named_parts(pieces.drop_last(), true));
        assert(named_parts(grown, true) == named_parts(pieces.drop_last(), true).push(
            PartView::Normal(tail),
        ));
        assert(more.skip(n)[0] == rest[0]);
        assert(more.take(n) =~= text.take(n));
    } else {
        let joint = seq![sep] + tail;
        let more = text + joint;
        assert(unified(style, below(style, base, name)) =~= more);
        if text.len() == 1 {
            assert(text[0] == sep);
            assert(base.last() == text[0] || (base.last() == '/' && style == PathStyle::Windows));
            assert(false);
        }
        prefix_is_stable(style, text, joint);
        assert(more.skip(n) =~= rest.push(sep) + tail);
        pieces_grow(rest.push(sep), tail, sep);
        assert(rest.push(sep).drop_last() =~= rest);
        assert(split_on(rest.push(sep), sep) =~= pieces.push(seq![]));
        assert(seq![] + tail =~= tail);
        assert(split_on(rest.push(sep), sep).drop_last() =~= pieces);
        let grown = pieces.push(tail);
        assert(split_on(more.skip(n), sep) =~= grown);
        assert(grown.drop_last() =~= pieces);
        assert(more.skip(n)[0] == rest[0]);
        assert(more.take(n) =~= text.take(n));
    }
    assert(parts_of(style, below(style, base, name)) =~= parts_of(style, base).push(
        PartView::Normal(tail),
    ));
}

/// What is located lies below the ancestor that exists: a path through a link is judged by where
/// the link leads.
pub proof fn law_located_paths_stay_below(style: PathStyle, base: Seq<char>, names: Seq<Seq<char>>)
    requires
        is_anchored(style, base),
        forall|i: int| 0 <= i < names.len() ==> is_plain(style, #[trigger] names[i]),
    ensures
        is_below(style, parts_of(style, extended(style, base, names)), parts_of(style, base)),
        parts_of(style, extended(style, base, names)).len() == parts_of(style, base).len()
            + names.len(),
    decreases names.len(),
{
    if names.len() > 0 {
        assert(is_plain(style, names[names.len() - 1]));
        law_names_are_parts(style, base, names.last());
        let deeper = below(style, base, names.last());
        assert forall|i: int| 0 <= i < names.drop_last().len() implies is_plain(
            style,
            #[trigger] names.drop_last()[i],
        ) by {
            assert(is_plain(style, names[i]));
        }
        law_located_paths_stay_below(style, deeper, names.drop_last());
        let path = parts_of(style, extended(style, base, names));
        assert forall|i: int| 0 <= i < parts_of(style, base).len() implies same_component(
            style,
            #[trigger] path[i],
            parts_of(style, base)[i],
        ) by {
            assert(same_component(style, path[i], parts_of(style, deeper)[i]));
        }
    }
}

} // verus!
