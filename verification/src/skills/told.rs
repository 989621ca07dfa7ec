//! What holds of skills: how they are read, found, chosen and told.
use vstd::prelude::*;

use crate::hash::sha256;
use crate::skills::{
    catalog_text, entity, escaped, inside, inside_any, loaded, located, name_ok, prompt_lines,
    prompt_text, rendered, scope_text, skill_in, skill_named, tidy, CatalogView, LoadErrorView,
    LoadedView, SkillScope, SkillView,
};
use crate::skills::document::{
    byte_len, closing_line, document, entry_named, head_text, inclusive_lines, mark_of, parsed_yaml,
    parts, without_mark, YamlView,
};
use crate::skills::scan::{
    chosen, followed, has_path, insert_path, insert_skill, next_entry, part_before, part_name,
    parts_le, searches, skill_le, sorted_paths, sorted_skills, taken, visit_of, EntryKind, ScanView,
    Visit,
};
use crate::text::{dec, joined, quoted_text, swapped, text_le, trimmed};
use crate::util::{cleaned, end_cut, middle_cut};
use crate::wording::le_is_total;
use crate::workspace::{parts_of, PartView, PathStyle};

verus! {

// ---- Markup ----

/// Escaping goes character by character, in order.
pub proof fn law_escaping_goes_character_by_character(a: Seq<char>, b: Seq<char>)
    ensures
        escaped(a + b) == escaped(a) + escaped(b),
    decreases b.len(),
{
    if b.len() == 0 {
        assert(a + b =~= a);
        assert(escaped(a + b) =~= escaped(a) + escaped(b));
    } else {
        law_escaping_goes_character_by_character(a, b.drop_last());
        assert((a + b).drop_last() =~= a + b.drop_last());
        assert(escaped(a + b) =~= escaped(a) + escaped(b));
    }
}

/// The five characters of markup are replaced by their entities, every other one stays.
pub proof fn law_markup_becomes_entities(c: char)
    ensures
        escaped(seq!['&']) == "&amp;"@,
        escaped(seq!['<']) == "&lt;"@,
        escaped(seq!['>']) == "&gt;"@,
        escaped(seq!['"']) == "&quot;"@,
        escaped(seq!['\'']) == "&apos;"@,
        c != '&' && c != '<' && c != '>' && c != '"' && c != '\'' ==> escaped(seq![c]) == seq![c],
{
    assert(seq!['&'].drop_last() =~= seq![]);
    assert(seq!['<'].drop_last() =~= seq![]);
    assert(seq!['>'].drop_last() =~= seq![]);
    assert(seq!['"'].drop_last() =~= seq![]);
    assert(seq!['\''].drop_last() =~= seq![]);
    assert(seq![c].drop_last() =~= seq![]);
    assert(escaped(seq![]).len() == 0);
    assert(escaped(seq!['&']) =~= "&amp;"@);
    assert(escaped(seq!['<']) =~= "&lt;"@);
    assert(escaped(seq!['>']) =~= "&gt;"@);
    assert(escaped(seq!['"']) =~= "&quot;"@);
    assert(escaped(seq!['\'']) =~= "&apos;"@);
    assert(escaped(seq![c]) =~= entity(c));
}

/// A loaded skill is told with its name, where it comes from, its path and its text, of which at most
/// twenty thousand characters are kept.
pub proof fn law_loaded_skills_are_told(skill: LoadedView)
    ensures
        rendered(skill) == "<skill name=\""@ + escaped(skill.metadata.name) + "\" scope=\""@ + (
        if skill.metadata.scope == SkillScope::Repo {
            "repo"@
        } else {
            "user"@
        }) + "\" path=\""@ + escaped(skill.metadata.path) + "\">\n"@ + middle_cut(
            escaped(skill.body),
            20000,
        ) + "\n</skill>"@,
        scope_text(SkillScope::Repo) == "repo"@,
        scope_text(SkillScope::User) == "user"@,
{
}

/// The catalog has a line for each skill, in order, between its opening and its closing line. Long
/// descriptions are shortened, and left out, where there are too many.
pub proof fn law_the_catalog_lists_the_skills(skills: Seq<SkillView>, skill: SkillView, n: nat)
    ensures
        prompt_text(skills, n) == prompt_lines(skills, n) + "</available_skills>"@,
        prompt_lines(seq![], n) == "<available_skills>\n"@,
        n > 0 ==> prompt_lines(skills.push(skill), n) == prompt_lines(skills, n) + (
        "  <skill name=\""@ + escaped(skill.name) + "\" scope=\""@ + scope_text(skill.scope)
            + "\" path=\""@ + escaped(end_cut(skill.path, 256)) + "\" description=\""@ + escaped(
            end_cut(skill.description, n),
        ) + "\" />\n"@),
        prompt_lines(skills.push(skill), 0) == prompt_lines(skills, 0) + ("  <skill name=\""@ + escaped(
            skill.name,
        ) + "\" />\n"@),
        skills.len() == 0 ==> catalog_text(skills).len() == 0,
        skills.len() > 0 && prompt_text(skills, 512).len() <= 24000 ==> catalog_text(skills)
            == prompt_text(skills, 512),
        skills.len() > 0 && prompt_text(skills, 512).len() > 24000 && prompt_text(skills, 96).len()
            <= 24000 ==> catalog_text(skills) == prompt_text(skills, 96),
        skills.len() > 0 && prompt_text(skills, 512).len() > 24000 && prompt_text(skills, 96).len()
            > 24000 ==> catalog_text(skills) == prompt_text(skills, 0),
{
    assert(skills.push(skill).drop_last() =~= skills);
}

// ---- Reading ----

/// A document has its head between two marks, each on a line of its own, at the very beginning; what
/// stands behind the second mark is the body. The head may take eight thousand bytes.
pub proof fn law_heads_stand_between_marks(text: Seq<char>)
    ensures
        ({
            let lines = inclusive_lines(without_mark(text));
            &&& lines.len() == 0 || mark_of(lines[0]) != "---"@ ==> parts(text) == Err::<
                (Seq<char>, Seq<char>),
                Seq<char>,
            >("必须以 --- frontmatter 开始"@)
            &&& lines.len() > 0 && mark_of(lines[0]) == "---"@ ==> (match closing_line(
                lines,
                1,
                byte_len(lines[0]),
            ) {
                Ok(k) => parts(text) == Ok::<(Seq<char>, Seq<char>), Seq<char>>(
                    (
                        joined(lines.subrange(1, k), ""@),
                        joined(lines.subrange(k + 1, lines.len() as int), ""@),
                    ),
                ),
                Err(e) => parts(text) == Err::<(Seq<char>, Seq<char>), Seq<char>>(e),
            })
        }),
{
}

/// The head ends at the first line that is a mark, three hyphens or three dots.
pub proof fn law_the_first_mark_ends_the_head(lines: Seq<Seq<char>>, k: int, used: nat)
    requires
        0 <= k,
    ensures
        closing_line(lines, k, used) matches Ok(i) ==> {
            &&& k <= i < lines.len()
            &&& (mark_of(lines[i]) == "---"@ || mark_of(lines[i]) == "..."@)
            &&& forall|j: int|
                k <= j < i ==> mark_of(#[trigger] lines[j]) != "---"@ && mark_of(lines[j]) != "..."@
        },
        k >= lines.len() ==> closing_line(lines, k, used) == Err::<int, Seq<char>>(
            "frontmatter 缺少结束标记"@,
        ),
        k < lines.len() && used + byte_len(lines[k]) > 8192 ==> closing_line(lines, k, used) == Err::<
            int,
            Seq<char>,
        >("frontmatter 超过 "@ + dec(8192) + " bytes 上限"@),
        k < lines.len() && used + byte_len(lines[k]) <= 8192 && mark_of(lines[k]) != "---"@ && mark_of(
            lines[k],
        ) != "..."@ ==> closing_line(lines, k, used) == closing_line(
            lines,
            k + 1,
            used + byte_len(lines[k]),
        ),
        k < lines.len() && used + byte_len(lines[k]) <= 8192 && (mark_of(lines[k]) == "---"@ || mark_of(
            lines[k],
        ) == "..."@) ==> closing_line(lines, k, used) == Ok::<int, Seq<char>>(k),
    decreases lines.len() - k,
{
    if k < lines.len() {
        law_the_first_mark_ends_the_head(lines, k + 1, used + byte_len(lines[k]));
    }
}

/// Line breaks of both kinds do not count at the end of a line, nor does a byte order mark at the
/// beginning of a text.
pub proof fn law_line_breaks_do_not_count(line: Seq<char>, text: Seq<char>)
    ensures
        mark_of(line.push('\n')) == mark_of(line),
        mark_of(line.push('\r')) == mark_of(line),
        line.len() == 0 || (line.last() != '\n' && line.last() != '\r') ==> mark_of(line) == line,
        without_mark(seq!['\u{feff}'] + text) == text,
        text.len() == 0 || text[0] != '\u{feff}' ==> without_mark(text) == text,
{
    assert(line.push('\n').drop_last() =~= line);
    assert(line.push('\r').drop_last() =~= line);
    assert((seq!['\u{feff}'] + text).drop_first() =~= text);
}

/// A line ends behind its line break, and nowhere else but at the end of the text.
pub proof fn law_lines_end_behind_breaks(text: Seq<char>)
    ensures
        forall|i: int, j: int|
            0 <= i < inclusive_lines(text).len() && 0 <= j < inclusive_lines(text)[i].len() - 1 ==> (
            #[trigger] inclusive_lines(text)[i][j]) != '\n',
        forall|i: int|
            0 <= i < inclusive_lines(text).len() ==> (#[trigger] inclusive_lines(text)[i]).len() > 0,
        forall|i: int|
            0 <= i < inclusive_lines(text).len() - 1 ==> (#[trigger] inclusive_lines(text)[i]).last()
                == '\n',
    decreases text.len(),
{
    if text.len() > 0 {
        law_lines_end_behind_breaks(text.drop_last());
        let before = inclusive_lines(text.drop_last());
        let lines = inclusive_lines(text);
        if before.len() > 0 && before.last().len() > 0 && before.last().last() != '\n' {
            assert forall|i: int, j: int|
                0 <= i < lines.len() && 0 <= j < lines[i].len() - 1 implies (#[trigger] lines[i][j])
                != '\n' by {
                if i < before.len() - 1 {
                    assert(before[i][j] != '\n');
                } else if j < before.last().len() - 1 {
                    assert(before[before.len() - 1][j] != '\n');
                } else {
                    assert(lines[i][j] == before.last().last());
                }
            }
            assert forall|i: int| 0 <= i < lines.len() - 1 implies (#[trigger] lines[i]).last()
                == '\n' by {
                assert(before[i].last() == '\n');
            }
            assert forall|i: int| 0 <= i < lines.len() implies (#[trigger] lines[i]).len() > 0 by {
                if i < before.len() - 1 {
                    assert(before[i].len() > 0);
                }
            }
        } else {
            assert forall|i: int, j: int|
                0 <= i < lines.len() && 0 <= j < lines[i].len() - 1 implies (#[trigger] lines[i][j])
                != '\n' by {
                assert(before[i][j] != '\n');
            }
            assert forall|i: int| 0 <= i < lines.len() implies (#[trigger] lines[i]).len() > 0 by {
                if i < before.len() {
                    assert(before[i].len() > 0);
                }
            }
            assert forall|i: int| 0 <= i < lines.len() - 1 implies (#[trigger] lines[i]).last()
                == '\n' by {
                assert(before[i].len() > 0);
                if i < before.len() - 1 {
                    assert(before[i].last() == '\n');
                }
            }
        }
    }
}

/// The head of a document is a table, whose texts are found by their keys; the first entry of a key
/// counts.
pub proof fn law_heads_are_tables(
    text: Seq<char>,
    head: Seq<(YamlView, YamlView)>,
    key: Seq<char>,
    value: YamlView,
)
    ensures
        parts(text) matches Ok((yaml, body)) ==> {
            &&& parsed_yaml(yaml) matches Err(e) ==> document(text) == Err::<
                (Seq<(YamlView, YamlView)>, Seq<char>),
                Seq<char>,
            >("YAML 解析失败: "@ + e)
            &&& parsed_yaml(yaml) matches Ok(YamlView::Table(entries)) ==> document(text) == Ok::<
                (Seq<(YamlView, YamlView)>, Seq<char>),
                Seq<char>,
            >((entries, body))
            &&& parsed_yaml(yaml) matches Ok(YamlView::Str(_)) ==> document(text) == Err::<
                (Seq<(YamlView, YamlView)>, Seq<char>),
                Seq<char>,
            >("frontmatter 必须是 object"@)
        },
        entry_named(head, key) is Some ==> entry_named(head.push((YamlView::Str(key), value)), key)
            == entry_named(head, key),
        entry_named(head, key) is None ==> entry_named(head.push((YamlView::Str(key), value)), key)
            == Some(value),
        value matches YamlView::Str(t) ==> (entry_named(head, key) is None ==> head_text(
            head.push((YamlView::Str(key), value)),
            key,
        ) == Some(t)),
        entry_named(seq![], key) is None,
{
    assert(head.push((YamlView::Str(key), value)).drop_last() =~= head);
}

/// A file is a skill where its head names and describes one. What is wrong otherwise is said.
pub proof fn law_files_become_skills(
    path: Seq<char>,
    scope: SkillScope,
    bytes: Seq<u8>,
    head: Seq<(YamlView, YamlView)>,
    body: Seq<char>,
)
    ensures
        bytes.len() > 1048576 ==> skill_in(path, scope, bytes) == Err::<SkillView, Seq<char>>(
            "文件超过 "@ + dec(1048576) + " bytes 上限"@,
        ),
        bytes.len() <= 1048576 && !vstd::utf8::valid_utf8(bytes) ==> skill_in(path, scope, bytes)
            == Err::<SkillView, Seq<char>>("不是 UTF-8 文本"@),
        bytes.len() <= 1048576 && vstd::utf8::valid_utf8(bytes) && document(
            vstd::utf8::decode_utf8(bytes),
        ) == Ok::<(Seq<(YamlView, YamlView)>, Seq<char>), Seq<char>>((head, body)) ==> {
            let name = head_text(head, "name"@);
            let description = head_text(head, "description"@);
            let named = name is Some && name_ok(trimmed(name->0));
            let described = description is Some && trimmed(tidy(description->0)).len() > 0;
            &&& !named ==> skill_in(path, scope, bytes) == Err::<SkillView, Seq<char>>(
                "frontmatter.name 缺失或非法"@,
            )
            &&& named && !described ==> skill_in(path, scope, bytes) == Err::<SkillView, Seq<char>>(
                "frontmatter.description 缺失或为空"@,
            )
            &&& named && described ==> (skill_in(path, scope, bytes) matches Ok(skill) && skill.name
                == trimmed(name->0) && skill.description == tidy(description->0) && skill.scope
                == scope && skill.path == path && skill.content_hash == sha256(bytes))
        },
{
}

/// A description is told on one line, without control characters, in a thousand and twenty-four
/// characters.
pub proof fn law_descriptions_are_tidy(description: Seq<char>, i: int)
    ensures
        tidy(description).len() <= 1024,
        tidy(description) == end_cut(
            swapped(swapped(cleaned(description), '\n', ' '), '\r', ' '),
            1024,
        ),
        0 <= i < tidy(description).len() ==> tidy(description)[i] != '\n' && tidy(description)[i]
            != '\r',
{
    let line = swapped(swapped(cleaned(description), '\n', ' '), '\r', ' ');
    if 0 <= i < tidy(description).len() && i < line.len() {
        assert(line[i] != '\n' && line[i] != '\r');
    }
}

/// A name is made of small letters, digits and single hyphens inside of it, sixty-four at most.
pub proof fn law_names_of_skills(name: Seq<char>)
    ensures
        name_ok(name) ==> 1 <= name.len() <= 64 && name[0] != '-' && name.last() != '-' && forall|i: int|
            0 <= i < name.len() ==> ('a' <= (#[trigger] name[i]) <= 'z' || '0' <= name[i] <= '9'
                || name[i] == '-'),
        name.len() == 1 && 'a' <= name[0] <= 'z' ==> name_ok(name),
        name_ok(name) ==> forall|i: int|
            0 < i < name.len() && (#[trigger] name[i]) == '-' ==> name[i - 1] != '-',
        1 <= name.len() <= 64 && name[0] != '-' && name.last() != '-' && (forall|i: int|
            0 <= i < name.len() ==> ('a' <= (#[trigger] name[i]) <= 'z' || '0' <= name[i] <= '9'
                || name[i] == '-')) && (forall|i: int|
            0 < i < name.len() && (#[trigger] name[i]) == '-' ==> name[i - 1] != '-') ==> name_ok(name),
{
}

// ---- Finding ----

/// Directories are searched to the fourth level, and files are looked at where they are called by the
/// name that skills have.
pub proof fn law_skills_are_looked_for(s: ScanView, depth: usize, name: Seq<char>)
    ensures
        searches(s, depth) <==> depth <= 4 && s.found.len() < 256,
        visit_of(EntryKind::Dir, name) == Visit::Descend,
        visit_of(EntryKind::File, "SKILL.md"@) == Visit::Examine,
        name != "SKILL.md"@ ==> visit_of(EntryKind::File, name) == Visit::Skip,
        visit_of(EntryKind::Other, name) == Visit::Skip,
        visit_of(EntryKind::Unknown, name) == Visit::Skip,
{
}

/// A walk counts what it looks at and stops with a warning at its limit. Files that lead outside of
/// the directory are not read; what cannot be read, or is no skill, is passed over with a warning.
pub proof fn law_walks_take_what_they_find(
    s: ScanView,
    style: PathStyle,
    dir: Seq<char>,
    path: Seq<char>,
    target: Seq<char>,
    error: Seq<char>,
    scope: SkillScope,
    bytes: Seq<u8>,
)
    ensures
        s.visited >= 4096 ==> !next_entry(s, dir).1 && next_entry(s, dir).0.warnings == s.warnings.push(
            "技能目录 "@ + dir + " 超过 "@ + dec(4096) + " entries 上限"@,
        ) && next_entry(s, dir).0.found == s.found,
        s.visited < 4096 ==> next_entry(s, dir).0.visited == s.visited + 1 && next_entry(s, dir).0.found
            == s.found && next_entry(s, dir).0.warnings == s.warnings && (next_entry(s, dir).1
            <==> s.found.len() < 256),
        inside(style, target, dir) ==> followed(s, style, dir, path, Ok(target)) == (s, true),
        !inside(style, target, dir) ==> !followed(s, style, dir, path, Ok(target)).1 && followed(
            s,
            style,
            dir,
            path,
            Ok(target),
        ).0.warnings == s.warnings.push("技能路径 "@ + path + " 脱离批准目录，已忽略"@),
        !followed(s, style, dir, path, Err(error)).1,
        followed(s, style, dir, path, Err(error)).0.warnings == s.warnings.push(
            "技能路径 "@ + path + " 无法 canonicalize: "@ + error,
        ),
        skill_in(path, scope, bytes) matches Ok(skill) ==> taken(s, path, scope, Ok(bytes)).found
            == s.found.push(skill) && taken(s, path, scope, Ok(bytes)).warnings == s.warnings,
        skill_in(path, scope, bytes) matches Err(e) ==> taken(s, path, scope, Ok(bytes)).found == s.found
            && taken(s, path, scope, Ok(bytes)).warnings == s.warnings.push(
            "忽略技能 "@ + path + ": "@ + e,
        ),
        taken(s, path, scope, Err(error)).warnings == s.warnings.push(
            "忽略技能 "@ + path + ": "@ + error,
        ),
{
}

/// A path is inside of a root where it begins with the parts of the root.
pub proof fn law_inside_is_by_parts(style: PathStyle, path: Seq<char>, root: Seq<char>)
    ensures
        inside(style, path, root) <==> parts_of(style, root).is_prefix_of(parts_of(style, path)),
        inside(style, path, path),
        inside_any(style, path, seq![root]) <==> inside(style, path, root),
        !inside_any(style, path, seq![]),
{
    let p = parts_of(style, path);
    let r = parts_of(style, root);
    if inside(style, path, root) {
        assert(r =~= p.subrange(0, r.len() as int));
    }
    if r.is_prefix_of(p) {
        assert(p.take(r.len() as int) =~= r);
    }
    assert(p.take(p.len() as int) =~= p);
    if inside(style, path, root) {
        assert(inside(style, path, seq![root][0]));
    }
}

// ---- Choosing ----

/// Skills of the repository come before those of the user; then names decide, and then paths.
pub proof fn law_skills_are_ordered(style: PathStyle, a: SkillView, b: SkillView)
    ensures
        a.scope == SkillScope::Repo && b.scope == SkillScope::User ==> skill_le(style, a, b)
            && !skill_le(style, b, a),
        a.scope == b.scope && a.name != b.name ==> (skill_le(style, a, b) <==> text_le(a.name, b.name)),
        a.scope == b.scope && a.name == b.name ==> (skill_le(style, a, b) <==> parts_le(
            parts_of(style, a.path),
            parts_of(style, b.path),
        )),
        skill_le(style, a, b) || skill_le(style, b, a),
{
    le_is_total(a.name, b.name);
    law_parts_are_ordered(parts_of(style, a.path), parts_of(style, b.path));
}

/// Paths are ordered by their first part that differs; a path comes before what lies below it.
pub proof fn law_parts_are_ordered(a: Seq<PartView>, b: Seq<PartView>)
    ensures
        a.len() == 0 ==> parts_le(a, b),
        a.len() > 0 && b.len() == 0 ==> !parts_le(a, b),
        a.len() > 0 && b.len() > 0 && a[0] == b[0] ==> (parts_le(a, b) <==> part_before(a[0], b[0])
            || parts_le(a.drop_first(), b.drop_first())),
        a.len() > 0 && b.len() > 0 && a[0] != b[0] ==> (parts_le(a, b) <==> part_before(a[0], b[0])),
        a.len() > 0 && b.len() > 0 ==> (a[0] matches PartView::Normal(x) ==> (b[0]
            matches PartView::Normal(y) ==> (x != y ==> (part_before(a[0], b[0]) <==> text_le(x, y))))),
        parts_le(a, b) || parts_le(b, a),
    decreases a.len(),
{
    if a.len() > 0 && b.len() > 0 {
        law_parts_are_ordered(a.drop_first(), b.drop_first());
        le_is_total(part_name(a[0]), part_name(b[0]));
    }
}

/// The skills are put in order, each as often as it occurs.
pub proof fn law_skills_are_in_order(style: PathStyle, s: Seq<SkillView>)
    ensures
        sorted_skills(style, s).len() == s.len(),
        sorted_skills(style, s).to_multiset() == s.to_multiset(),
        forall|i: int, j: int|
            0 <= i && j == i + 1 && j < s.len() ==> skill_le(
                style, (#[trigger] sorted_skills(style, s)[i]),
                (#[trigger] sorted_skills(style, s)[j]),
            ),
    decreases s.len(),
{
    broadcast use vstd::seq_lib::group_to_multiset_ensures;

    if s.len() > 0 {
        law_skills_are_in_order(style, s.drop_last());
        inserted_skills_are_in_order(style, sorted_skills(style, s.drop_last()), s.last());
        assert(s =~= s.drop_last().push(s.last()));
    }
}

proof fn inserted_skills_are_in_order(style: PathStyle, s: Seq<SkillView>, x: SkillView)
    requires
        forall|i: int, j: int|
            0 <= i && j == i + 1 && j < s.len() ==> skill_le(style, (#[trigger] s[i]), (#[trigger] s[j])),
    ensures
        insert_skill(style, s, x).len() == s.len() + 1,
        insert_skill(style, s, x).to_multiset() == s.to_multiset().insert(x),
        insert_skill(style, s, x).last() == x || (s.len() > 0 && insert_skill(style, s, x).last() == s.last()),
        forall|i: int, j: int|
            0 <= i && j == i + 1 && j < insert_skill(style, s, x).len() ==> skill_le(
                style, (#[trigger] insert_skill(style, s, x)[i]),
                (#[trigger] insert_skill(style, s, x)[j]),
            ),
    decreases s.len(),
{
    broadcast use vstd::seq_lib::group_to_multiset_ensures;

    let t = insert_skill(style, s, x);
    if s.len() == 0 {
        assert(s.push(x) =~= t);
    } else if skill_le(style, s.last(), x) {
        assert forall|i: int, j: int| 0 <= i && j == i + 1 && j < t.len() implies skill_le(
            style, (#[trigger] t[i]),
            (#[trigger] t[j]),
        ) by {
            if j < s.len() {
                assert(skill_le(style, s[i], s[j]));
            }
        }
    } else {
        let rest = s.drop_last();
        assert forall|i: int, j: int| 0 <= i && j == i + 1 && j < rest.len() implies skill_le(
            style, (#[trigger] rest[i]),
            (#[trigger] rest[j]),
        ) by {
            assert(skill_le(style, s[i], s[j]));
        }
        inserted_skills_are_in_order(style, rest, x);
        law_skills_are_ordered(style, s.last(), x);
        let u = insert_skill(style, rest, x);
        assert(s =~= rest.push(s.last()));
        assert(t =~= u.push(s.last()));
        assert(t.to_multiset() =~= s.to_multiset().insert(x));
        assert forall|i: int, j: int| 0 <= i && j == i + 1 && j < t.len() implies skill_le(
            style, (#[trigger] t[i]),
            (#[trigger] t[j]),
        ) by {
            if j < u.len() {
                assert(skill_le(style, u[i], u[j]));
            } else {
                assert(t[i] == u.last());
                if u.last() != x {
                    assert(skill_le(style, s[s.len() - 2], s[s.len() - 1]));
                }
            }
        }
    }
}

/// Whether a path comes no later than another one.
pub open spec fn path_le(style: PathStyle, a: Seq<char>, b: Seq<char>) -> bool {
    parts_le(parts_of(style, a), parts_of(style, b))
}

/// Paths are put in order, each as often as it occurs.
pub proof fn law_paths_are_in_order(style: PathStyle, s: Seq<Seq<char>>)
    ensures
        sorted_paths(style, s).len() == s.len(),
        sorted_paths(style, s).to_multiset() == s.to_multiset(),
        forall|i: int, j: int|
            0 <= i && j == i + 1 && j < s.len() ==> path_le(
                style, (#[trigger] sorted_paths(style, s)[i]),
                (#[trigger] sorted_paths(style, s)[j]),
            ),
    decreases s.len(),
{
    broadcast use vstd::seq_lib::group_to_multiset_ensures;

    if s.len() > 0 {
        law_paths_are_in_order(style, s.drop_last());
        inserted_paths_are_in_order(style, sorted_paths(style, s.drop_last()), s.last());
        assert(s =~= s.drop_last().push(s.last()));
    }
}

proof fn inserted_paths_are_in_order(style: PathStyle, s: Seq<Seq<char>>, x: Seq<char>)
    requires
        forall|i: int, j: int|
            0 <= i && j == i + 1 && j < s.len() ==> path_le(style, (#[trigger] s[i]), (#[trigger] s[j])),
    ensures
        insert_path(style, s, x).len() == s.len() + 1,
        insert_path(style, s, x).to_multiset() == s.to_multiset().insert(x),
        insert_path(style, s, x).last() == x || (s.len() > 0 && insert_path(style, s, x).last() == s.last()),
        forall|i: int, j: int|
            0 <= i && j == i + 1 && j < insert_path(style, s, x).len() ==> path_le(
                style, (#[trigger] insert_path(style, s, x)[i]),
                (#[trigger] insert_path(style, s, x)[j]),
            ),
    decreases s.len(),
{
    broadcast use vstd::seq_lib::group_to_multiset_ensures;

    let t = insert_path(style, s, x);
    if s.len() == 0 {
        assert(s.push(x) =~= t);
    } else if path_le(style, s.last(), x) {
        assert forall|i: int, j: int| 0 <= i && j == i + 1 && j < t.len() implies path_le(
            style, (#[trigger] t[i]),
            (#[trigger] t[j]),
        ) by {
            if j < s.len() {
                assert(path_le(style, s[i], s[j]));
            }
        }
    } else {
        let rest = s.drop_last();
        assert forall|i: int, j: int| 0 <= i && j == i + 1 && j < rest.len() implies path_le(
            style, (#[trigger] rest[i]),
            (#[trigger] rest[j]),
        ) by {
            assert(path_le(style, s[i], s[j]));
        }
        inserted_paths_are_in_order(style, rest, x);
        law_parts_are_ordered(parts_of(style, s.last()), parts_of(style, x));
        let u = insert_path(style, rest, x);
        assert(s =~= rest.push(s.last()));
        assert(t =~= u.push(s.last()));
        assert(t.to_multiset() =~= s.to_multiset().insert(x));
        assert forall|i: int, j: int| 0 <= i && j == i + 1 && j < t.len() implies path_le(
            style, (#[trigger] t[i]),
            (#[trigger] t[j]),
        ) by {
            if j < u.len() {
                assert(path_le(style, u[i], u[j]));
            } else {
                assert(t[i] == u.last());
                if u.last() != x {
                    assert(path_le(style, s[s.len() - 2], s[s.len() - 1]));
                }
            }
        }
    }
}

/// One skill after the other is considered. A file counts once, a name goes to the first skill that has
/// it, and at the limit the rest is left out; what is left out leaves a warning.
pub proof fn law_skills_are_chosen_in_order(
    skills: Seq<SkillView>,
    warnings: Seq<Seq<char>>,
    skill: SkillView,
)
    ensures
        ({
            let before = chosen(skills, warnings);
            let after = chosen(skills.push(skill), warnings);
            let known = has_path(before.seen, skill.path);
            let taken_name = skill_named(before.kept, skill.name) is Some;
            &&& before.full || known ==> after == before
            &&& !before.full && !known ==> after.seen == before.seen.push(skill)
            &&& !before.full && !known && taken_name ==> after.kept == before.kept && after.warnings
                == before.warnings.push(
                "技能 "@ + quoted_text(skill.name) + " 存在同名冲突，已按 scope/path 忽略 "@
                    + skill.path,
            ) && !after.full
            &&& !before.full && !known && !taken_name && before.kept.len() < 256 ==> after.kept
                == before.kept.push(skill) && after.warnings == before.warnings && !after.full
            &&& !before.full && !known && !taken_name && before.kept.len() >= 256 ==> after.kept
                == before.kept && after.warnings == before.warnings.push(
                "技能数量超过 "@ + dec(256) + " 上限，后续条目已忽略"@,
            ) && after.full
        }),
        chosen(seq![], warnings).kept.len() == 0,
        chosen(seq![], warnings).warnings == warnings,
        !chosen(seq![], warnings).full,
{
    assert(skills.push(skill).drop_last() =~= skills);
}

/// A name stands for the first skill that has it.
pub proof fn law_names_stand_for_the_first_skill(
    skills: Seq<SkillView>,
    name: Seq<char>,
    skill: SkillView,
)
    ensures
        skill_named(seq![], name) is None,
        skill_named(skills, name) is Some ==> skill_named(skills.push(skill), name) == skill_named(
            skills,
            name,
        ),
        skill_named(skills, name) is None && skill.name == name ==> skill_named(skills.push(skill), name)
            == Some(skill),
        skill_named(skills, name) is None && skill.name != name ==> skill_named(skills.push(skill), name)
            is None,
{
    assert(skills.push(skill).drop_last() =~= skills);
}

// ---- Loading ----

/// A skill loads where it was found, from the file that it was found in, and as long as that file is
/// what it was. Each thing that stands against it is an error of its own.
pub proof fn law_skills_load_from_where_they_were_found(
    catalog: CatalogView,
    style: PathStyle,
    name: Seq<char>,
    path: Seq<char>,
    error: Seq<char>,
)
    ensures
        skill_named(catalog.ordered, name) is None ==> located(catalog, style, name, Ok(path)) == Err::<
            SkillView,
            LoadErrorView,
        >(
            LoadErrorView::NotFound(
                "技能 "@ + quoted_text(name) + " 不在启动时发现的 catalog 中"@,
            ),
        ),
        skill_named(catalog.ordered, name) matches Some(skill) ==> {
            &&& located(catalog, style, name, Err(error)) == Err::<SkillView, LoadErrorView>(
                LoadErrorView::Stale("技能 "@ + quoted_text(name) + " 文件已消失: "@ + error),
            )
            &&& path == skill.path && inside_any(style, path, catalog.roots) ==> located(
                catalog,
                style,
                name,
                Ok(path),
            ) == Ok::<SkillView, LoadErrorView>(skill)
            &&& path != skill.path || !inside_any(style, path, catalog.roots) ==> located(
                catalog,
                style,
                name,
                Ok(path),
            ) == Err::<SkillView, LoadErrorView>(
                LoadErrorView::Stale(
                    "技能 "@ + quoted_text(name) + " 路径已脱离启动时批准的目录"@,
                ),
            )
        },
{
}

/// What is read of a skill's file is loaded where it is what it was, and its body is the skill's text.
pub proof fn law_files_load_as_they_were(
    skill: SkillView,
    name: Seq<char>,
    bytes: Seq<u8>,
    error: Seq<char>,
    head: Seq<(YamlView, YamlView)>,
    body: Seq<char>,
)
    ensures
        loaded(skill, name, Err(error)) == Err::<LoadedView, LoadErrorView>(
            LoadErrorView::Io("读取技能 "@ + quoted_text(name) + " 失败: "@ + error),
        ),
        bytes.len() > 1048576 ==> loaded(skill, name, Ok(bytes)) == Err::<LoadedView, LoadErrorView>(
            LoadErrorView::Invalid(
                "技能 "@ + quoted_text(name) + " 文件超过 "@ + dec(1048576) + " bytes 上限"@,
            ),
        ),
        bytes.len() <= 1048576 && sha256(bytes) != skill.content_hash ==> loaded(skill, name, Ok(bytes))
            == Err::<LoadedView, LoadErrorView>(
            LoadErrorView::Stale("技能 "@ + quoted_text(name) + " 内容已变化，请重新启动会话"@),
        ),
        bytes.len() <= 1048576 && sha256(bytes) == skill.content_hash && !vstd::utf8::valid_utf8(bytes)
            ==> loaded(skill, name, Ok(bytes)) == Err::<LoadedView, LoadErrorView>(
            LoadErrorView::Invalid("技能 "@ + quoted_text(name) + " 不是 UTF-8 文本"@),
        ),
        bytes.len() <= 1048576 && sha256(bytes) == skill.content_hash && vstd::utf8::valid_utf8(bytes)
            && document(vstd::utf8::decode_utf8(bytes)) == Ok::<
            (Seq<(YamlView, YamlView)>, Seq<char>),
            Seq<char>,
        >((head, body)) ==> loaded(skill, name, Ok(bytes)) == Ok::<LoadedView, LoadErrorView>(
            LoadedView { metadata: skill, body },
        ),
{
}

} // verus!
