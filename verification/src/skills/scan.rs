//! The search for skills, and the choice among what it finds.
//!
//! The walk itself (listing directories, following paths, reading files) happens outside; this
//! module decides at each step how it goes on, and what is kept.
use vstd::prelude::*;

use crate::list::{empty, put, take_all, take_next};
use crate::skills::{
    find_skill, inside, is_inside, parse_candidate, scope_rank, skill_in, skill_named, CatalogView,
    SkillCatalog, SkillMetadata, SkillScope, SkillView, MAX_DEPTH, MAX_ENTRIES, MAX_SKILLS,
};
use crate::text::{concat2, concat3, dec, decimal, no_later, quoted, quoted_text, same, text_le};
use crate::workspace::{components, parts_of, Part, PartView, PathStyle};

verus! {

// ---- The walk ----

/// What a walk has found so far.
#[derive(Debug)]
pub struct Scan {
    /// How many entries of the current root were looked at.
    pub visited: usize,
    pub found: Vec<SkillMetadata>,
    pub warnings: Vec<String>,
}

#[verifier::ext_equal]
pub struct ScanView {
    pub visited: usize,
    pub found: Seq<SkillView>,
    pub warnings: Seq<Seq<char>>,
}

impl DeepView for Scan {
    type V = ScanView;

    open spec fn deep_view(&self) -> ScanView {
        ScanView {
            visited: self.visited,
            found: self.found.deep_view(),
            warnings: self.warnings.deep_view(),
        }
    }
}

/// What an entry of a directory is, as far as that can be told.
#[derive(Debug, Clone, Copy, PartialEq, Eq, Structural)]
pub enum EntryKind {
    Dir,
    File,
    Other,
    Unknown,
}

/// What to do with an entry.
#[derive(Debug, Clone, Copy, PartialEq, Eq, Structural)]
pub enum Visit {
    Skip,
    Descend,
    Examine,
}

pub open spec fn warned(s: ScanView, warning: Seq<char>) -> ScanView {
    ScanView { warnings: s.warnings.push(warning), ..s }
}

/// Whether a directory at some depth is searched at all.
pub open spec fn searches(s: ScanView, depth: usize) -> bool {
    depth <= MAX_DEPTH && s.found.len() < MAX_SKILLS
}

/// The walk comes to the next entry of a directory: whether it looks at it.
pub open spec fn next_entry(s: ScanView, dir: Seq<char>) -> (ScanView, bool) {
    if s.visited >= MAX_ENTRIES {
        (
            warned(
                s,
                "技能目录 "@ + dir + " 超过 "@ + dec(MAX_ENTRIES as nat) + " entries 上限"@,
            ),
            false,
        )
    } else {
        (ScanView { visited: (s.visited + 1) as usize, ..s }, s.found.len() < MAX_SKILLS)
    }
}

/// What is done with an entry.
pub open spec fn visit_of(kind: EntryKind, file_name: Seq<char>) -> Visit {
    match kind {
        EntryKind::Dir => Visit::Descend,
        EntryKind::File => if file_name == "SKILL.md"@ {
            Visit::Examine
        } else {
            Visit::Skip
        },
        _ => Visit::Skip,
    }
}

/// A skill's file was followed to where it really is: whether it is read.
pub open spec fn followed(
    s: ScanView,
    style: PathStyle,
    dir: Seq<char>,
    path: Seq<char>,
    canonical: Result<Seq<char>, Seq<char>>,
) -> (ScanView, bool) {
    match canonical {
        Ok(target) => if inside(style, target, dir) {
            (s, true)
        } else {
            (warned(s, "技能路径 "@ + path + " 脱离批准目录，已忽略"@), false)
        },
        Err(e) => (warned(s, "技能路径 "@ + path + " 无法 canonicalize: "@ + e), false),
    }
}

/// A skill's file was read.
pub open spec fn taken(
    s: ScanView,
    path: Seq<char>,
    scope: SkillScope,
    bytes: Result<Seq<u8>, Seq<char>>,
) -> ScanView {
    let skill = match bytes {
        Ok(bytes) => skill_in(path, scope, bytes),
        Err(e) => Err(e),
    };
    match skill {
        Ok(skill) => ScanView { found: s.found.push(skill), ..s },
        Err(e) => warned(s, "忽略技能 "@ + path + ": "@ + e),
    }
}

impl Scan {
    pub fn new() -> (s: Scan)
        ensures
            s.deep_view() == (ScanView { visited: 0, found: seq![], warnings: seq![] }),
    {
        Scan { visited: 0, found: empty(), warnings: empty() }
    }

    /// The walk begins at another root.
    pub fn begin_root(&mut self)
        ensures
            final(self).deep_view() == (ScanView { visited: 0, ..old(self).deep_view() }),
    {
        self.visited = 0;
    }

    /// Whether to search a directory that is so many levels below the root.
    pub fn enters(&self, depth: usize) -> (r: bool)
        ensures
            r == searches(self.deep_view(), depth),
    {
        depth <= MAX_DEPTH && self.found.len() < MAX_SKILLS
    }

    /// A directory could not be listed.
    pub fn unreadable(&mut self, dir: &str, error: &str)
        ensures
            final(self).deep_view() == warned(
                old(self).deep_view(),
                "扫描技能目录 "@ + dir@ + " 失败: "@ + error@,
            ),
    {
        let mut text = concat3("扫描技能目录 ", dir, " 失败: ");
        text.push_str(error);
        put(&mut self.warnings, text);
    }

    /// The next entry of a directory: whether to look at it; if not, the directory is done with.
    pub fn looks_at(&mut self, dir: &str) -> (r: bool)
        ensures
            (final(self).deep_view(), r) == next_entry(old(self).deep_view(), dir@),
    {
        if self.visited >= MAX_ENTRIES {
            let mut text = concat3("技能目录 ", dir, " 超过 ");
            text.push_str(decimal(MAX_ENTRIES as u64).as_str());
            text.push_str(" entries 上限");
            put(&mut self.warnings, text);
            return false;
        }
        self.visited = self.visited + 1;
        self.found.len() < MAX_SKILLS
    }

    /// What to do with an entry.
    pub fn inspect(&mut self, path: &str, kind: EntryKind, file_name: &str) -> (v: Visit)
        ensures
            v == visit_of(kind, file_name@),
            final(self).deep_view() == (if kind == EntryKind::Unknown {
                warned(old(self).deep_view(), "无法读取技能目录项 "@ + path@)
            } else {
                old(self).deep_view()
            }),
    {
        match kind {
            EntryKind::Dir => Visit::Descend,
            EntryKind::File => if same(file_name, "SKILL.md") {
                Visit::Examine
            } else {
                Visit::Skip
            },
            EntryKind::Other => Visit::Skip,
            EntryKind::Unknown => {
                put(&mut self.warnings, concat2("无法读取技能目录项 ", path));
                Visit::Skip
            },
        }
    }

    /// Whether to read a file that was followed to `canonical`.
    pub fn follow(&mut self, style: PathStyle, dir: &str, path: &str, canonical: &Result<String, String>)
        -> (r: bool)
        ensures
            (final(self).deep_view(), r) == followed(
                old(self).deep_view(),
                style,
                dir@,
                path@,
                crate::skills::place_view(*canonical),
            ),
    {
        match canonical {
            Ok(target) => if is_inside(style, target.as_str(), dir) {
                true
            } else {
                put(
                    &mut self.warnings,
                    concat3("技能路径 ", path, " 脱离批准目录，已忽略"),
                );
                false
            },
            Err(e) => {
                let mut text = concat3("技能路径 ", path, " 无法 canonicalize: ");
                text.push_str(e.as_str());
                put(&mut self.warnings, text);
                false
            },
        }
    }

    /// Takes in what was read from a skill's file.
    pub fn take(&mut self, path: &str, scope: SkillScope, bytes: Result<Vec<u8>, String>)
        ensures
            final(self).deep_view() == taken(
                old(self).deep_view(),
                path@,
                scope,
                crate::skills::bytes_view(bytes),
            ),
    {
        let skill = match bytes {
            Ok(bytes) => parse_candidate(path, scope, bytes),
            Err(e) => Err(e),
        };
        match skill {
            Ok(skill) => put(&mut self.found, skill),
            Err(e) => {
                let mut text = concat3("忽略技能 ", path, ": ");
                text.push_str(e.as_str());
                put(&mut self.warnings, text);
            },
        }
    }
}

// ---- The order ----

pub open spec fn part_rank(part: PartView) -> nat {
    match part {
        PartView::Prefix(_) => 0,
        PartView::RootDir => 1,
        PartView::CurDir => 2,
        PartView::ParentDir => 3,
        PartView::Normal(_) => 4,
    }
}

pub open spec fn part_name(part: PartView) -> Seq<char> {
    match part {
        PartView::Prefix(t) => t,
        PartView::Normal(t) => t,
        _ => seq![],
    }
}

/// Whether a part comes before another one.
pub open spec fn part_before(a: PartView, b: PartView) -> bool {
    part_rank(a) < part_rank(b) || (part_rank(a) == part_rank(b) && a != b && text_le(
        part_name(a),
        part_name(b),
    ))
}

/// Whether a path comes no later than another one, part by part.
pub open spec fn parts_le(a: Seq<PartView>, b: Seq<PartView>) -> bool
    decreases a.len(),
{
    a.len() == 0 || (b.len() > 0 && (part_before(a[0], b[0]) || (a[0] == b[0] && parts_le(
        a.drop_first(),
        b.drop_first(),
    ))))
}

fn rank_of(part: &Part) -> (r: u8)
    ensures
        r == part_rank(part.deep_view()),
{
    match part {
        Part::Prefix(_) => 0,
        Part::RootDir => 1,
        Part::CurDir => 2,
        Part::ParentDir => 3,
        Part::Normal(_) => 4,
    }
}

/// How two parts compare: before, the same, or behind.
fn weigh_parts(a: &Part, b: &Part) -> (r: (bool, bool))
    ensures
        r.0 == part_before(a.deep_view(), b.deep_view()),
        r.1 == (a.deep_view() == b.deep_view()),
{
    match (a, b) {
        (Part::Prefix(x), Part::Prefix(y)) => {
            let equal = same(x.as_str(), y.as_str());
            (!equal && no_later(x.as_str(), y.as_str()), equal)
        },
        (Part::Normal(x), Part::Normal(y)) => {
            let equal = same(x.as_str(), y.as_str());
            (!equal && no_later(x.as_str(), y.as_str()), equal)
        },
        _ => {
            let x: u8 = rank_of(a);
            let y: u8 = rank_of(b);
            (x < y, x == y)
        },
    }
}

fn path_no_later(style: PathStyle, a: &str, b: &str) -> (r: bool)
    ensures
        r == parts_le(parts_of(style, a@), parts_of(style, b@)),
{
    let p = components(style, a);
    let q = components(style, b);
    let ghost pv = p.deep_view();
    let ghost qv = q.deep_view();
    let mut i: usize = 0;
    proof {
        assert(pv.skip(0) =~= pv);
        assert(qv.skip(0) =~= qv);
    }
    while i < p.len() && i < q.len()
        invariant
            pv == p.deep_view(),
            qv == q.deep_view(),
            pv == parts_of(style, a@),
            qv == parts_of(style, b@),
            i <= pv.len() == p@.len(),
            i <= qv.len() == q@.len(),
            parts_le(pv, qv) == parts_le(pv.skip(i as int), qv.skip(i as int)),
        decreases p@.len() - i,
    {
        proof {
            assert(pv.skip(i as int)[0] == pv[i as int]);
            assert(qv.skip(i as int)[0] == qv[i as int]);
            assert(pv.skip(i as int).drop_first() =~= pv.skip(i + 1));
            assert(qv.skip(i as int).drop_first() =~= qv.skip(i + 1));
        }
        let (before, equal) = weigh_parts(&p[i], &q[i]);
        if before {
            return true;
        }
        if !equal {
            return false;
        }
        i = i + 1;
    }
    i == p.len()
}

pub open spec fn insert_path(style: PathStyle, s: Seq<Seq<char>>, x: Seq<char>) -> Seq<Seq<char>>
    decreases s.len(),
{
    if s.len() == 0 {
        seq![x]
    } else if parts_le(parts_of(style, s.last()), parts_of(style, x)) {
        s.push(x)
    } else {
        insert_path(style, s.drop_last(), x).push(s.last())
    }
}

/// Some paths in order; equal ones stay as they came.
pub open spec fn sorted_paths(style: PathStyle, s: Seq<Seq<char>>) -> Seq<Seq<char>>
    decreases s.len(),
{
    if s.len() == 0 {
        seq![]
    } else {
        insert_path(style, sorted_paths(style, s.drop_last()), s.last())
    }
}

fn put_path(style: PathStyle, list: &mut Vec<String>, x: String)
    ensures
        final(list).deep_view() == insert_path(style, old(list).deep_view(), x@),
{
    let ghost before = list.deep_view();
    let mut i: usize = list.len();
    assert(before.take(before.len() as int) =~= before);
    assert(before.skip(before.len() as int) =~= seq![]);
    while i > 0 && !path_no_later(style, list[i - 1].as_str(), x.as_str())
        invariant
            i <= list@.len(),
            before == list.deep_view(),
            insert_path(style, before, x@) == insert_path(style, before.take(i as int), x@)
                + before.skip(i as int),
        decreases i,
    {
        i = i - 1;
        proof {
            let shorter = before.take(i + 1);
            assert(shorter.drop_last() =~= before.take(i as int));
            assert(shorter.last() == before[i as int]);
            assert(insert_path(style, before.take(i as int), x@).push(before[i as int])
                + before.skip(i + 1) =~= insert_path(style, before.take(i as int), x@)
                + before.skip(i as int));
        }
    }
    let ghost v = x@;
    list.insert(i, x);
    proof {
        assert(list.deep_view() =~= before.take(i as int).push(v) + before.skip(i as int));
        if i > 0 {
            assert(before.take(i as int).last() == before[i - 1]);
        } else {
            assert(before.take(0).push(v) =~= seq![v]);
        }
    }
}

/// The entries of a directory in the order in which they are looked at.
pub fn sort_paths(style: PathStyle, paths: Vec<String>) -> (out: Vec<String>)
    ensures
        out.deep_view() == sorted_paths(style, paths.deep_view()),
{
    let ghost all = paths.deep_view();
    let mut out: Vec<String> = empty();
    let mut i: usize = 0;
    while i < paths.len()
        invariant
            i <= paths@.len(),
            all == paths.deep_view(),
            out.deep_view() == sorted_paths(style, all.take(i as int)),
        decreases paths@.len() - i,
    {
        proof {
            take_next(all, i as int);
        }
        put_path(style, &mut out, paths[i].clone());
        i = i + 1;
    }
    proof {
        take_all(all);
    }
    out
}

/// Whether a skill comes no later than another one: by scope, then by name, then by path.
pub open spec fn skill_le(style: PathStyle, a: SkillView, b: SkillView) -> bool {
    if scope_rank(a.scope) != scope_rank(b.scope) {
        scope_rank(a.scope) < scope_rank(b.scope)
    } else if a.name != b.name {
        text_le(a.name, b.name)
    } else {
        parts_le(parts_of(style, a.path), parts_of(style, b.path))
    }
}

fn skill_no_later(style: PathStyle, a: &SkillMetadata, b: &SkillMetadata) -> (r: bool)
    ensures
        r == skill_le(style, a.deep_view(), b.deep_view()),
{
    let x: u8 = a.scope.rank();
    let y: u8 = b.scope.rank();
    if x != y {
        x < y
    } else if !same(a.name.as_str(), b.name.as_str()) {
        no_later(a.name.as_str(), b.name.as_str())
    } else {
        path_no_later(style, a.path.as_str(), b.path.as_str())
    }
}

pub open spec fn insert_skill(style: PathStyle, s: Seq<SkillView>, x: SkillView) -> Seq<SkillView>
    decreases s.len(),
{
    if s.len() == 0 {
        seq![x]
    } else if skill_le(style, s.last(), x) {
        s.push(x)
    } else {
        insert_skill(style, s.drop_last(), x).push(s.last())
    }
}

/// The skills in order; equal ones stay as they came.
pub open spec fn sorted_skills(style: PathStyle, s: Seq<SkillView>) -> Seq<SkillView>
    decreases s.len(),
{
    if s.len() == 0 {
        seq![]
    } else {
        insert_skill(style, sorted_skills(style, s.drop_last()), s.last())
    }
}

fn put_skill(style: PathStyle, list: &mut Vec<SkillMetadata>, x: SkillMetadata)
    ensures
        final(list).deep_view() == insert_skill(style, old(list).deep_view(), x.deep_view()),
{
    let ghost before = list.deep_view();
    let ghost v = x.deep_view();
    let mut i: usize = list.len();
    assert(before.take(before.len() as int) =~= before);
    assert(before.skip(before.len() as int) =~= seq![]);
    while i > 0 && !skill_no_later(style, &list[i - 1], &x)
        invariant
            i <= list@.len(),
            before == list.deep_view(),
            v == x.deep_view(),
            insert_skill(style, before, v) == insert_skill(style, before.take(i as int), v)
                + before.skip(i as int),
        decreases i,
    {
        i = i - 1;
        proof {
            let shorter = before.take(i + 1);
            assert(shorter.drop_last() =~= before.take(i as int));
            assert(shorter.last() == before[i as int]);
            assert(insert_skill(style, before.take(i as int), v).push(before[i as int])
                + before.skip(i + 1) =~= insert_skill(style, before.take(i as int), v)
                + before.skip(i as int));
        }
    }
    list.insert(i, x);
    proof {
        assert(list.deep_view() =~= before.take(i as int).push(v) + before.skip(i as int));
        if i > 0 {
            assert(before.take(i as int).last() == before[i - 1]);
        } else {
            assert(before.take(0).push(v) =~= seq![v]);
        }
    }
}

// ---- The choice ----

pub open spec fn has_path(skills: Seq<SkillView>, path: Seq<char>) -> bool {
    exists|i: int| 0 <= i < skills.len() && (#[trigger] skills[i]).path == path
}

fn knows_path(skills: &Vec<SkillMetadata>, path: &str) -> (r: bool)
    ensures
        r == has_path(skills.deep_view(), path@),
{
    let mut i: usize = 0;
    while i < skills.len()
        invariant
            i <= skills@.len(),
            forall|k: int| 0 <= k < i ==> (#[trigger] skills.deep_view()[k]).path != path@,
        decreases skills@.len() - i,
    {
        if same(skills[i].path.as_str(), path) {
            assert(skills.deep_view()[i as int].path == path@);
            return true;
        }
        i = i + 1;
    }
    false
}

/// What a choice has come to: the skills that are kept, the warnings, and whether there is no room
/// for more.
#[verifier::ext_equal]
pub struct Choice {
    pub kept: Seq<SkillView>,
    /// Every file that was considered.
    pub seen: Seq<SkillView>,
    pub warnings: Seq<Seq<char>>,
    pub full: bool,
}

/// The choice after one more skill. A file that was considered before does not count again; of two
/// skills with one name the first is kept.
pub open spec fn considered(c: Choice, skill: SkillView) -> Choice {
    if c.full || has_path(c.seen, skill.path) {
        c
    } else {
        let seen = c.seen.push(skill);
        if skill_named(c.kept, skill.name) is Some {
            Choice {
                seen,
                warnings: c.warnings.push(
                    "技能 "@ + quoted_text(skill.name) + " 存在同名冲突，已按 scope/path 忽略 "@
                        + skill.path,
                ),
                ..c
            }
        } else if c.kept.len() >= MAX_SKILLS {
            Choice {
                seen,
                warnings: c.warnings.push(
                    "技能数量超过 "@ + dec(MAX_SKILLS as nat) + " 上限，后续条目已忽略"@,
                ),
                full: true,
                ..c
            }
        } else {
            Choice { seen, kept: c.kept.push(skill), ..c }
        }
    }
}

/// The choice among some skills, in their order.
pub open spec fn chosen(skills: Seq<SkillView>, warnings: Seq<Seq<char>>) -> Choice
    decreases skills.len(),
{
    if skills.len() == 0 {
        Choice { kept: seq![], seen: seq![], warnings, full: false }
    } else {
        considered(chosen(skills.drop_last(), warnings), skills.last())
    }
}

#[derive(Debug)]
pub struct DiscoveryReport {
    pub catalog: SkillCatalog,
    pub warnings: Vec<String>,
}

/// What a walk comes to.
pub fn discover(scan: Scan, style: PathStyle, roots: Vec<String>) -> (r: DiscoveryReport)
    ensures
        ({
            let c = chosen(
                sorted_skills(style, scan.deep_view().found),
                scan.deep_view().warnings,
            );
            &&& r.catalog.deep_view() == (CatalogView { ordered: c.kept, roots: roots.deep_view() })
            &&& r.warnings.deep_view() == c.warnings
        }),
{
    let Scan { visited: _, found, warnings } = scan;
    let ghost all = found.deep_view();
    let ghost start = warnings.deep_view();
    let mut sorted: Vec<SkillMetadata> = empty();
    let mut i: usize = 0;
    while i < found.len()
        invariant
            i <= found@.len(),
            all == found.deep_view(),
            sorted.deep_view() == sorted_skills(style, all.take(i as int)),
        decreases found@.len() - i,
    {
        proof {
            take_next(all, i as int);
        }
        put_skill(style, &mut sorted, found[i].clone());
        i = i + 1;
    }
    proof {
        take_all(all);
    }
    let ghost order = sorted.deep_view();
    let mut kept: Vec<SkillMetadata> = empty();
    let mut seen: Vec<SkillMetadata> = empty();
    let mut warnings = warnings;
    let mut full = false;
    let mut k: usize = 0;
    while k < sorted.len()
        invariant
            k <= sorted@.len(),
            order == sorted.deep_view(),
            chosen(order.take(k as int), start) == (Choice {
                kept: kept.deep_view(),
                seen: seen.deep_view(),
                warnings: warnings.deep_view(),
                full,
            }),
        decreases sorted@.len() - k,
    {
        proof {
            take_next(order, k as int);
        }
        let skill = &sorted[k];
        if !full && !knows_path(&seen, skill.path.as_str()) {
            put(&mut seen, skill.clone());
            if find_skill(&kept, skill.name.as_str()).is_some() {
                let mut text = concat3(
                    "技能 ",
                    quoted(skill.name.as_str()).as_str(),
                    " 存在同名冲突，已按 scope/path 忽略 ",
                );
                text.push_str(skill.path.as_str());
                put(&mut warnings, text);
            } else if kept.len() >= MAX_SKILLS {
                put(
                    &mut warnings,
                    concat3(
                        "技能数量超过 ",
                        decimal(MAX_SKILLS as u64).as_str(),
                        " 上限，后续条目已忽略",
                    ),
                );
                full = true;
            } else {
                put(&mut kept, skill.clone());
            }
        }
        k = k + 1;
    }
    proof {
        take_all(order);
    }
    DiscoveryReport { catalog: SkillCatalog { ordered: kept, roots }, warnings }
}

// ---- Laws ----

proof fn unnamed(skills: Seq<SkillView>, name: Seq<char>)
    requires
        skill_named(skills, name) is None,
    ensures
        forall|i: int| 0 <= i < skills.len() ==> (#[trigger] skills[i]).name != name,
    decreases skills.len(),
{
    if skills.len() > 0 {
        unnamed(skills.drop_last(), name);
        assert forall|i: int| 0 <= i < skills.len() implies (#[trigger] skills[i]).name != name by {
            if i < skills.len() - 1 {
                assert(skills.drop_last()[i].name != name);
            }
        }
    }
}

/// A catalog holds no name twice, and not more skills than it may.
pub proof fn law_names_are_unique(skills: Seq<SkillView>, warnings: Seq<Seq<char>>)
    ensures
        chosen(skills, warnings).kept.len() <= MAX_SKILLS,
        forall|i: int, j: int|
            0 <= i < j < chosen(skills, warnings).kept.len() ==> (#[trigger] chosen(
                skills,
                warnings,
            ).kept[i]).name != (#[trigger] chosen(skills, warnings).kept[j]).name,
    decreases skills.len(),
{
    if skills.len() > 0 {
        law_names_are_unique(skills.drop_last(), warnings);
        let before = chosen(skills.drop_last(), warnings).kept;
        if skill_named(before, skills.last().name) is None {
            unnamed(before, skills.last().name);
        }
    }
}

/// The skill that a name stands for, once there is one, is not replaced by a later one.
pub proof fn law_first_skill_of_a_name_wins(c: Choice, skill: SkillView, name: Seq<char>)
    requires
        skill_named(c.kept, name) is Some,
    ensures
        skill_named(considered(c, skill).kept, name) == skill_named(c.kept, name),
{
    let after = considered(c, skill).kept;
    if after != c.kept {
        assert(after.drop_last() =~= c.kept);
    }
}

proof fn inserted_between(style: PathStyle, s: Seq<SkillView>, x: SkillView)
    requires
        forall|i: int, j: int|
            0 <= i <= j < s.len() ==> scope_rank((#[trigger] s[i]).scope) <= scope_rank(
                (#[trigger] s[j]).scope,
            ),
    ensures
        insert_skill(style, s, x).len() == s.len() + 1,
        forall|i: int|
            0 <= i < insert_skill(style, s, x).len() ==> (#[trigger] insert_skill(style, s, x)[i] == x
                || s.contains(insert_skill(style, s, x)[i])),
        forall|i: int, j: int|
            0 <= i <= j < insert_skill(style, s, x).len() ==> scope_rank(
                (#[trigger] insert_skill(style, s, x)[i]).scope,
            ) <= scope_rank((#[trigger] insert_skill(style, s, x)[j]).scope),
    decreases s.len(),
{
    if s.len() == 0 {
    } else if skill_le(style, s.last(), x) {
        let t = s.push(x);
        assert forall|i: int| 0 <= i < t.len() implies (#[trigger] t[i] == x || s.contains(t[i])) by {
            if i < s.len() {
                assert(s[i] == t[i]);
            }
        }
        assert forall|i: int, j: int| 0 <= i <= j < t.len() implies scope_rank((#[trigger] t[i]).scope)
            <= scope_rank((#[trigger] t[j]).scope) by {
            if j == s.len() && i < j {
                assert(scope_rank(s[i].scope) <= scope_rank(s[s.len() - 1].scope));
            }
        }
    } else {
        let u = s.drop_last();
        assert forall|i: int, j: int| 0 <= i <= j < u.len() implies scope_rank((#[trigger] u[i]).scope)
            <= scope_rank((#[trigger] u[j]).scope) by {
            assert(scope_rank(s[i].scope) <= scope_rank(s[j].scope));
        }
        inserted_between(style, u, x);
        let v = insert_skill(style, u, x);
        let t = v.push(s.last());
        assert forall|i: int| 0 <= i < v.len() implies scope_rank((#[trigger] v[i]).scope) <= scope_rank(
            s.last().scope,
        ) by {
            if v[i] != x {
                assert(u.contains(v[i]));
                let k = choose|k: int| 0 <= k < u.len() && u[k] == v[i];
                assert(scope_rank(s[k].scope) <= scope_rank(s[s.len() - 1].scope));
            }
        }
        assert forall|i: int| 0 <= i < t.len() implies (#[trigger] t[i] == x || s.contains(t[i])) by {
            if i < v.len() {
                if v[i] != x {
                    assert(u.contains(v[i]));
                    let k = choose|k: int| 0 <= k < u.len() && u[k] == v[i];
                    assert(s[k] == t[i]);
                }
            } else {
                assert(s[s.len() - 1] == t[i]);
            }
        }
    }
}

proof fn sorted_by_scope(style: PathStyle, s: Seq<SkillView>)
    ensures
        forall|i: int, j: int|
            0 <= i <= j < sorted_skills(style, s).len() ==> scope_rank(
                (#[trigger] sorted_skills(style, s)[i]).scope,
            ) <= scope_rank((#[trigger] sorted_skills(style, s)[j]).scope),
    decreases s.len(),
{
    if s.len() > 0 {
        sorted_by_scope(style, s.drop_last());
        inserted_between(style, sorted_skills(style, s.drop_last()), s.last());
    }
}

/// The skills of the repository are considered before those of the user, so that of one name the
/// repository's is kept.
pub proof fn law_repository_skills_come_first(style: PathStyle, s: Seq<SkillView>, i: int, j: int)
    requires
        0 <= i < sorted_skills(style, s).len(),
        0 <= j < sorted_skills(style, s).len(),
        sorted_skills(style, s)[i].scope == SkillScope::Repo,
        sorted_skills(style, s)[j].scope == SkillScope::User,
    ensures
        i < j,
{
    sorted_by_scope(style, s);
}

/// No walk looks at more entries below a root than it may.
pub proof fn law_walks_are_bounded(s: ScanView, dir: Seq<char>)
    requires
        s.visited <= MAX_ENTRIES,
    ensures
        next_entry(s, dir).0.visited <= MAX_ENTRIES,
        next_entry(s, dir).1 ==> next_entry(s, dir).0.visited == s.visited + 1,
{
}

} // verus!
