//! What holds of paths, and of what calls may do.
use vstd::prelude::*;

use crate::hash::{hex_digit, hex_text};
use crate::json::{lookup, printed_json, JsonView};
use crate::nearest::{above, extended, NearestView};
use crate::permission::{
    assessed, decided, effect_rule, grant_of, hard_deny, is_below, is_reserved, path_rules,
    reserved_among, rule_named, same_component, with_rule, without_dots, ApprovalScope,
    DecisionView, Located, Merged, PermissionRule, PermissionRules, Places,
};
use crate::storage::below;
use crate::text::{begins, joined, lower, quoted_text, split_on, swapped, text_le};
use crate::tools::PreparedView;
use crate::wording::{le_is_reflexive, le_is_total, le_is_transitive};
use crate::workspace::{
    insert_item, io_text, joined_parts, listed_before, lowered_text, named_parts, normal_form,
    part_text, parts_of, path_text, prefix_len, separator, sorted_items, style_of, unified,
    DirItemView, PartView, PathStyle, Workspace,
};

verus! {

// ---- Paths ----

/// The separator is a slash, and a backslash on Windows, where a slash stands for one.
pub proof fn law_separators(path: Seq<char>, i: int)
    requires
        0 <= i < path.len(),
    ensures
        separator(PathStyle::Posix) == '/',
        separator(PathStyle::Windows) == '\\',
        unified(PathStyle::Posix, path) == path,
        unified(PathStyle::Windows, path).len() == path.len(),
        path[i] == '/' ==> unified(PathStyle::Windows, path)[i] == '\\',
        path[i] != '/' ==> unified(PathStyle::Windows, path)[i] == path[i],
{
}

/// The pieces of a path that begins at a root become its names, in order; empty ones and single dots
/// stand for nothing, two dots for the directory above.
pub proof fn law_pieces_become_names(a: Seq<Seq<char>>, b: Seq<Seq<char>>)
    ensures
        named_parts(a + b, true) == named_parts(a, true) + named_parts(b, true),
    decreases b.len(),
{
    if b.len() == 0 {
        assert(a + b =~= a);
        assert(named_parts(a + b, true) =~= named_parts(a, true) + named_parts(b, true));
    } else {
        law_pieces_become_names(a, b.drop_last());
        assert((a + b).drop_last() =~= a + b.drop_last());
        assert(named_parts(a + b, true) =~= named_parts(a, true) + named_parts(b, true));
    }
}

/// What a single piece of a path stands for.
pub proof fn law_a_piece_is_a_name(piece: Seq<char>, anchored: bool)
    ensures
        named_parts(seq![seq![]], anchored).len() == 0,
        named_parts(seq!["."@], true).len() == 0,
        named_parts(seq!["."@], false) == seq![PartView::CurDir],
        named_parts(seq![".."@], anchored) == seq![PartView::ParentDir],
        piece.len() > 0 && piece != "."@ && piece != ".."@ ==> named_parts(seq![piece], anchored) == seq![
            PartView::Normal(piece),
        ],
{
    reveal_strlit(".");
    reveal_strlit("..");
    assert("."@.len() != ".."@.len());
    let nothing: Seq<char> = seq![];
    assert(seq![nothing].drop_last() =~= seq![]);
    assert(seq!["."@].drop_last() =~= seq![]);
    assert(seq![".."@].drop_last() =~= seq![]);
    assert(seq![piece].drop_last() =~= seq![]);
    assert(named_parts(seq![], anchored).len() == 0);
    assert(named_parts(seq![], true).len() == 0);
    assert(named_parts(seq![], false).len() == 0);
    assert(named_parts(seq!["."@], false) =~= seq![PartView::CurDir]);
    assert(named_parts(seq![".."@], anchored) =~= seq![PartView::ParentDir]);
    if piece.len() > 0 && piece != "."@ && piece != ".."@ {
        assert(named_parts(seq![piece], anchored) =~= seq![PartView::Normal(piece)]);
    }
}

/// A path is cut at its separators. One that begins with a separator begins at the root; on Windows a
/// drive, a letter and a colon, comes before that.
pub proof fn law_paths_are_cut_at_separators(path: Seq<char>)
    ensures
        path.len() > 0 && path[0] == '/' ==> parts_of(PathStyle::Posix, path) == seq![PartView::RootDir]
            + named_parts(split_on(path, '/'), true),
        path.len() == 0 || path[0] != '/' ==> parts_of(PathStyle::Posix, path) == named_parts(
            split_on(path, '/'),
            false,
        ),
        ({
            let text = unified(PathStyle::Windows, path);
            path.len() >= 3 && (('a' <= path[0] <= 'z') || ('A' <= path[0] <= 'Z')) && path[1] == ':'
                && (path[2] == '/' || path[2] == '\\') ==> parts_of(PathStyle::Windows, path) == seq![
                PartView::Prefix(path.take(2)),
                PartView::RootDir,
            ] + named_parts(split_on(text.skip(2), '\\'), true)
        }),
{
    assert(path.skip(0) =~= path);
    let text = unified(PathStyle::Windows, path);
    if path.len() > 0 && path[0] == '/' {
        assert(parts_of(PathStyle::Posix, path) =~= seq![PartView::RootDir] + named_parts(
            split_on(path, '/'),
            true,
        ));
    } else {
        assert(parts_of(PathStyle::Posix, path) =~= named_parts(split_on(path, '/'), false));
    }
    if path.len() >= 3 && (('a' <= path[0] <= 'z') || ('A' <= path[0] <= 'Z')) && path[1] == ':' && (
    path[2] == '/' || path[2] == '\\') {
        assert(text[0] == path[0]);
        assert(text[1] == path[1]);
        assert(text[2] == '\\');
        assert(prefix_len(PathStyle::Windows, text) == 2);
        assert(text.take(2) =~= path.take(2));
        assert(text.skip(2)[0] == '\\');
        assert(parts_of(PathStyle::Windows, path) =~= seq![
            PartView::Prefix(path.take(2)),
            PartView::RootDir,
        ] + named_parts(split_on(text.skip(2), '\\'), true));
    }
}

/// A root that begins with a drive or with two backslashes is of Windows, any other is not.
pub proof fn law_styles_are_told_apart(root: Seq<char>)
    ensures
        style_of(root) == PathStyle::Windows <==> root.len() >= 2 && ((root[1] == ':' && (('a' <= root[0]
            <= 'z') || ('A' <= root[0] <= 'Z'))) || (root[0] == '\\' && root[1] == '\\')),
{
}

/// Parts are written behind each other with a separator between two names; neither a drive nor the
/// root has one behind it.
pub proof fn law_parts_are_written_in_order(style: PathStyle, parts: Seq<PartView>, part: PartView)
    ensures
        ({
            let before = path_text(style, parts);
            let after = path_text(style, parts.push(part));
            let text = part_text(style, part);
            let plain = parts.len() == 0 || parts.last() is Prefix || parts.last() is RootDir;
            &&& plain ==> after == before + text
            &&& !plain ==> after == before + seq![separator(style)] + text
        }),
        part_text(style, PartView::CurDir) == "."@,
        part_text(style, PartView::ParentDir) == ".."@,
        part_text(style, PartView::RootDir) == seq![separator(style)],
        part matches PartView::Normal(name) ==> part_text(style, part) == name,
        part matches PartView::Prefix(name) ==> part_text(style, part) == name,
        path_text(style, seq![]).len() == 0,
{
    assert(parts.push(part).drop_last() =~= parts);
    if parts.len() > 0 && !(parts.last() is Prefix || parts.last() is RootDir) {
        assert(path_text(style, parts.push(part)) =~= path_text(style, parts) + seq![separator(style)]
            + part_text(style, part));
    }
}

/// A single dot is dropped, two dots take back the name before them, and where there is none they
/// stay. Everything else is kept in its order.
pub proof fn law_dots_are_resolved(parts: Seq<PartView>, name: Seq<char>, part: PartView)
    ensures
        normal_form(parts.push(PartView::CurDir)) == normal_form(parts),
        normal_form(parts.push(PartView::Normal(name)).push(PartView::ParentDir)) == normal_form(parts),
        normal_form(parts).len() == 0 || !(normal_form(parts).last() is Normal) ==> normal_form(
            parts.push(PartView::ParentDir),
        ) == normal_form(parts).push(PartView::ParentDir),
        part is Normal || part is RootDir || part is Prefix ==> normal_form(parts.push(part))
            == normal_form(parts).push(part),
        normal_form(seq![]).len() == 0,
{
    assert(parts.push(PartView::CurDir).drop_last() =~= parts);
    assert(parts.push(PartView::ParentDir).drop_last() =~= parts);
    assert(parts.push(part).drop_last() =~= parts);
    let named = parts.push(PartView::Normal(name));
    assert(named.drop_last() =~= parts);
    assert(named.push(PartView::ParentDir).drop_last() =~= named);
    assert(normal_form(named) == normal_form(parts).push(PartView::Normal(name)));
    assert(normal_form(named).drop_last() =~= normal_form(parts));
}

/// A relative path lies below the root. One that begins at a root stands for itself, on the drive of
/// the root where it names none; one that names a drive always stands for itself.
pub proof fn law_paths_lie_below_the_root(
    style: PathStyle,
    root: Seq<PartView>,
    given: Seq<PartView>,
)
    ensures
        given.len() == 0 ==> joined_parts(style, root, given) == root,
        given.len() > 0 && !(given[0] is Prefix) && !(given[0] is RootDir) ==> joined_parts(
            style,
            root,
            given,
        ) == root + given,
        given.len() > 0 && given[0] is Prefix ==> joined_parts(style, root, given) == given,
        given.len() > 0 && given[0] is RootDir && style == PathStyle::Posix ==> joined_parts(
            style,
            root,
            given,
        ) == given,
        given.len() > 0 && given[0] is RootDir && style == PathStyle::Windows && root.len() > 0
            && root[0] is Prefix ==> joined_parts(style, root, given) == seq![root[0]] + given,
{
    if given.len() == 0 {
        assert(root + given =~= root);
    }
}

/// What a path stands for is found from the root of the workspace, with its dots resolved.
pub proof fn law_paths_are_resolved(root: Seq<char>, given: Seq<char>)
    ensures
        ({
            let style = style_of(root);
            Workspace::resolved(root, given) == normal_form(
                joined_parts(style, parts_of(style, root), parts_of(style, given)),
            )
        }),
        ({
            let style = style_of(root);
            let base = parts_of(style, root);
            let parts = parts_of(style, given);
            !(base.len() < parts.len() && base.is_prefix_of(parts)) ==> Workspace::shown(root, given)
                == given
        }),
{
    let style = style_of(root);
    let base = parts_of(style, root);
    let parts = parts_of(style, given);
    if base.len() < parts.len() && parts.take(base.len() as int) == base {
        assert(base.is_prefix_of(parts));
    }
}

/// A failed operation says what was tried, on what, and why it failed.
pub proof fn law_failed_operations_say_why(action: Seq<char>, path: Seq<char>, error: Seq<char>)
    ensures
        io_text(action, path, error) == action + " "@ + path + " 失败: "@ + error,
{
}

// ---- Order of entries ----

/// Directories come before files; among each kind the names are in order, upper and lower case alike.
pub proof fn law_directories_come_first(a: DirItemView, b: DirItemView)
    ensures
        a.is_dir && !b.is_dir ==> listed_before(a, b) && !listed_before(b, a),
        a.is_dir == b.is_dir ==> (listed_before(a, b) <==> text_le(
            lowered_text(a.name),
            lowered_text(b.name),
        )),
        listed_before(a, b) || listed_before(b, a),
{
    le_is_total(lowered_text(a.name), lowered_text(b.name));
}

/// Entries are listed in order, each as often as it occurs.
pub proof fn law_entries_are_sorted(items: Seq<DirItemView>)
    ensures
        sorted_items(items).len() == items.len(),
        sorted_items(items).to_multiset() == items.to_multiset(),
        forall|i: int, j: int|
            0 <= i <= j < sorted_items(items).len() ==> listed_before(
                #[trigger] sorted_items(items)[i],
                #[trigger] sorted_items(items)[j],
            ),
    decreases items.len(),
{
    broadcast use vstd::seq_lib::group_to_multiset_ensures;

    if items.len() > 0 {
        law_entries_are_sorted(items.drop_last());
        inserted_entries_are_sorted(sorted_items(items.drop_last()), items.last());
        assert(items =~= items.drop_last().push(items.last()));
    }
}

proof fn before_is_transitive(a: DirItemView, b: DirItemView, c: DirItemView)
    requires
        listed_before(a, b),
        listed_before(b, c),
    ensures
        listed_before(a, c),
{
    if a.is_dir == b.is_dir && b.is_dir == c.is_dir {
        le_is_transitive(lowered_text(a.name), lowered_text(b.name), lowered_text(c.name));
    }
}

proof fn inserted_entries_are_sorted(s: Seq<DirItemView>, x: DirItemView)
    requires
        forall|i: int, j: int|
            0 <= i <= j < s.len() ==> listed_before(#[trigger] s[i], #[trigger] s[j]),
    ensures
        insert_item(s, x).len() == s.len() + 1,
        insert_item(s, x).to_multiset() == s.to_multiset().insert(x),
        forall|i: int|
            0 <= i < insert_item(s, x).len() ==> (#[trigger] insert_item(s, x)[i] == x || s.contains(
                insert_item(s, x)[i],
            )),
        forall|i: int, j: int|
            0 <= i <= j < insert_item(s, x).len() ==> listed_before(
                #[trigger] insert_item(s, x)[i],
                #[trigger] insert_item(s, x)[j],
            ),
    decreases s.len(),
{
    broadcast use vstd::seq_lib::group_to_multiset_ensures;

    let t = insert_item(s, x);
    le_is_reflexive(lowered_text(x.name));
    if s.len() == 0 {
        assert(s.push(x) =~= t);
    } else if listed_before(s.last(), x) {
        assert forall|i: int| 0 <= i < t.len() implies (#[trigger] t[i] == x || s.contains(t[i])) by {
            if i < s.len() {
                assert(s[i] == t[i]);
            }
        }
        assert forall|i: int, j: int| 0 <= i <= j < t.len() implies listed_before(
            #[trigger] t[i],
            #[trigger] t[j],
        ) by {
            if j == s.len() && i < s.len() {
                assert(listed_before(s[i], s[s.len() - 1]));
                before_is_transitive(s[i], s.last(), x);
            } else if j < s.len() {
                assert(listed_before(s[i], s[j]));
            }
        }
    } else {
        let rest = s.drop_last();
        assert forall|i: int, j: int| 0 <= i <= j < rest.len() implies listed_before(
            #[trigger] rest[i],
            #[trigger] rest[j],
        ) by {
            assert(listed_before(s[i], s[j]));
        }
        inserted_entries_are_sorted(rest, x);
        law_directories_come_first(s.last(), x);
        let u = insert_item(rest, x);
        assert(s =~= rest.push(s.last()));
        assert(t =~= u.push(s.last()));
        assert(t.to_multiset() =~= s.to_multiset().insert(x));
        assert forall|i: int| 0 <= i < t.len() implies (#[trigger] t[i] == x || s.contains(t[i])) by {
            if i < u.len() {
                assert(u[i] == t[i]);
                if u[i] != x {
                    let k = choose|k: int| 0 <= k < rest.len() && rest[k] == u[i];
                    assert(s[k] == t[i]);
                }
            } else {
                assert(s[s.len() - 1] == t[i]);
            }
        }
        assert forall|i: int, j: int| 0 <= i <= j < t.len() implies listed_before(
            #[trigger] t[i],
            #[trigger] t[j],
        ) by {
            if j < u.len() {
                assert(listed_before(u[i], u[j]));
            } else if i < u.len() {
                assert(u[i] == t[i]);
                if u[i] != x {
                    let k = choose|k: int| 0 <= k < rest.len() && rest[k] == u[i];
                    assert(listed_before(s[k], s[s.len() - 1]));
                }
            } else {
                le_is_reflexive(lowered_text(s.last().name));
            }
        }
    }
}

// ---- Permission ----

/// Rules go by their names.
pub proof fn law_rules_have_names(name: Seq<char>)
    ensures
        rule_named("allow"@) == Some(PermissionRule::Allow),
        rule_named("ask"@) == Some(PermissionRule::Ask),
        rule_named("deny"@) == Some(PermissionRule::Deny),
        name != "allow"@ && name != "ask"@ && name != "deny"@ ==> rule_named(name) is None,
{
    rule_names();
}

proof fn rule_names()
    ensures
        "allow"@ != "ask"@,
        "allow"@ != "deny"@,
        "ask"@ != "deny"@,
{
    reveal_strlit("allow");
    reveal_strlit("ask");
    reveal_strlit("deny");
    assert("allow"@.len() != "ask"@.len());
    assert("allow"@.len() != "deny"@.len());
    assert("ask"@.len() != "deny"@.len());
}

/// Dots and spaces at the end of a name do not count for Windows.
pub proof fn law_final_dots_do_not_count(name: Seq<char>)
    ensures
        without_dots(name.push('.')) == without_dots(name),
        without_dots(name.push(' ')) == without_dots(name),
        name.len() == 0 || (name.last() != '.' && name.last() != ' ') ==> without_dots(name) == name,
        is_reserved(name.push('.')) <==> is_reserved(name),
        is_reserved(name.push(' ')) <==> is_reserved(name),
{
    assert(name.push('.').drop_last() =~= name);
    assert(name.push(' ').drop_last() =~= name);
}

/// A name is a device's where what stands before its first dot is, in any case: the console, the
/// printer, the auxiliary device, the null device, and the nine serial and parallel ports.
pub proof fn law_device_names_are_reserved(name: Seq<char>)
    ensures
        ({
            let stem = lower(split_on(without_dots(name), '.')[0]);
            is_reserved(name) <==> {
                ||| stem == "con"@
                ||| stem == "prn"@
                ||| stem == "aux"@
                ||| stem == "nul"@
                ||| stem.len() == 4 && '1' <= stem[3] <= '9' && (stem.take(3) == "com"@ || stem.take(3)
                    == "lpt"@)
            }
        }),
{
    let stem = lower(split_on(without_dots(name), '.')[0]);
    reveal_strlit("com");
    reveal_strlit("lpt");
    if stem.len() == 4 {
        assert(stem.skip(3)[0] == stem[3]);
    }
}

/// A path with a null byte is refused everywhere. On Windows paths to devices are refused too, and
/// those with a reserved name among their parts; nothing else is refused without asking the rules.
pub proof fn law_some_paths_are_always_refused(style: PathStyle, given: Seq<char>)
    ensures
        given.contains('\0') ==> hard_deny(style, given) == Some("路径包含 NUL 字节"@),
        !given.contains('\0') ==> hard_deny(PathStyle::Posix, given) is None,
        ({
            let text = lower(swapped(given, '/', '\\'));
            !given.contains('\0') && begins(text, "\\\\.\\"@) ==> hard_deny(PathStyle::Windows, given)
                == Some("禁止访问 Windows 设备路径 "@ + quoted_text(given))
        }),
        ({
            let text = lower(swapped(given, '/', '\\'));
            !given.contains('\0') && (begins(text, "\\\\?\\globalroot\\"@) || begins(
                text,
                "\\\\?\\pipe\\"@,
            )) ==> hard_deny(PathStyle::Windows, given) == Some(
                "禁止访问 Windows 设备路径 "@ + quoted_text(given),
            )
        }),
        hard_deny(PathStyle::Windows, given) is None ==> forall|i: int, name: Seq<char>|
            0 <= i < parts_of(PathStyle::Windows, given).len() && (#[trigger] parts_of(
                PathStyle::Windows,
                given,
            )[i]) == PartView::Normal(name) ==> !#[trigger] is_reserved(name),
{
    law_reserved_parts_are_found(parts_of(PathStyle::Windows, given));
}

/// A reserved name is found wherever it stands among the parts, and the first one is named.
pub proof fn law_reserved_parts_are_found(parts: Seq<PartView>)
    ensures
        reserved_among(parts) is None <==> forall|i: int, name: Seq<char>|
            0 <= i < parts.len() && (#[trigger] parts[i]) == PartView::Normal(name)
                ==> !#[trigger] is_reserved(name),
        parts.len() > 0 && (parts[0] matches PartView::Normal(name) && is_reserved(name))
            ==> reserved_among(parts) == Some(
            "禁止访问 Windows 保留设备名 Normal("@ + quoted_text(parts[0]->Normal_0) + ")"@,
        ),
    decreases parts.len(),
{
    if parts.len() > 0 {
        let rest = parts.drop_first();
        law_reserved_parts_are_found(rest);
        if reserved_among(parts) is None {
            assert forall|i: int, name: Seq<char>|
                0 <= i < parts.len() && (#[trigger] parts[i]) == PartView::Normal(name)
                implies !#[trigger] is_reserved(name) by {
                if i > 0 {
                    assert(rest[i - 1] == parts[i]);
                }
            }
        } else if !(parts[0] is Normal && is_reserved(parts[0]->Normal_0)) {
            let (i, name) = choose|i: int, name: Seq<char>|
                0 <= i < rest.len() && (#[trigger] rest[i]) == PartView::Normal(name)
                    && #[trigger] is_reserved(name);
            assert(parts[i + 1] == PartView::Normal(name));
        } else {
            assert(parts[0] == PartView::Normal(parts[0]->Normal_0));
        }
    }
}

/// A path lies below a root where it begins with the parts of the root; Windows takes upper and lower
/// case for the same.
pub proof fn law_below_is_by_parts(path: Seq<PartView>, root: Seq<PartView>, more: Seq<PartView>)
    ensures
        is_below(PathStyle::Posix, path, root) <==> root.is_prefix_of(path),
        is_below(PathStyle::Posix, root + more, root),
        is_below(PathStyle::Windows, root + more, root),
        path.len() < root.len() ==> !is_below(PathStyle::Posix, path, root) && !is_below(
            PathStyle::Windows,
            path,
            root,
        ),
{
    if is_below(PathStyle::Posix, path, root) {
        assert forall|i: int| 0 <= i < root.len() implies root[i] == path[i] by {
            assert(same_component(PathStyle::Posix, path[i], root[i]));
        }
        assert(root =~= path.subrange(0, root.len() as int));
    }
    if root.is_prefix_of(path) {
        assert forall|i: int| 0 <= i < root.len() implies same_component(
            PathStyle::Posix,
            #[trigger] path[i],
            root[i],
        ) by {
            assert(path.subrange(0, root.len() as int)[i] == path[i]);
        }
    }
    assert forall|i: int| 0 <= i < root.len() implies (#[trigger] (root + more)[i]) == root[i] by {}
}

/// A path is judged by where it really leads. Where that cannot be found out, the call is refused.
pub proof fn law_paths_are_judged_by_where_they_lead(
    root: Seq<char>,
    given: Seq<char>,
    place: String,
    base: String,
    error: String,
)
    ensures
        ({
            let style = style_of(root);
            let refused = hard_deny(style, given);
            let named = path_text(style, Workspace::resolved(root, given));
            &&& refused matches Some(reason) ==> assessed(
                root,
                given,
                Located::Path(place),
                Located::Path(base),
            ) == Err::<(Seq<char>, bool), Seq<char>>(reason)
            &&& refused is None ==> {
                &&& assessed(root, given, Located::Path(place), Located::Path(base)) == Ok::<
                    (Seq<char>, bool),
                    Seq<char>,
                >((place@, is_below(style, parts_of(style, place@), parts_of(style, base@))))
                &&& assessed(root, given, Located::Failed(error), Located::Path(base)) == Err::<
                    (Seq<char>, bool),
                    Seq<char>,
                >("无法安全解析路径 "@ + named + ": "@ + error@)
                &&& assessed(root, given, Located::Path(place), Located::Failed(error)) == Err::<
                    (Seq<char>, bool),
                    Seq<char>,
                >("无法安全解析 workspace 根目录 "@ + root + ": "@ + error@)
            }
        }),
{
}

/// Denying is stricter than asking, and asking than allowing. Every rule that does not allow leaves
/// its reason.
pub proof fn law_strict_rules_win(m: Merged, rule: PermissionRule, reason: Seq<char>)
    ensures
        with_rule(m, PermissionRule::Deny, reason).rule == PermissionRule::Deny,
        m.rule == PermissionRule::Deny ==> with_rule(m, rule, reason).rule == PermissionRule::Deny,
        with_rule(m, PermissionRule::Allow, reason) == m,
        m.rule == PermissionRule::Allow ==> with_rule(m, rule, reason).rule == rule,
        m.rule == PermissionRule::Ask && rule == PermissionRule::Ask ==> with_rule(m, rule, reason).rule
            == PermissionRule::Ask,
        rule != PermissionRule::Allow ==> with_rule(m, rule, reason).reasons == m.reasons.push(reason),
{
}

/// A path inside of the workspace adds nothing, one outside of it adds the rule for such paths and
/// says which path it was. A path that is never allowed, or is no text, refuses the call at once.
pub proof fn law_paths_add_their_rules(
    call: PreparedView,
    root: Seq<char>,
    places: Places,
    outside: PermissionRule,
    n: nat,
    m: Merged,
)
    requires
        path_rules(call, root, places, outside, n) == Ok::<Merged, Seq<char>>(m),
    ensures
        ({
            let argument = call.spec.permission.path_arguments[n as int];
            let given = lookup(call.arguments, argument);
            let more = path_rules(call, root, places, outside, n + 1);
            &&& given is None ==> more == Ok::<Merged, Seq<char>>(m)
            &&& given matches Some(JsonView::Str(path)) ==> (match assessed(
                root,
                path,
                places.paths@[n as int],
                places.root,
            ) {
                Err(reason) => more == Err::<Merged, Seq<char>>(reason),
                Ok((canonical, true)) => more == Ok::<Merged, Seq<char>>(m),
                Ok((canonical, false)) => more == Ok::<Merged, Seq<char>>(
                    with_rule(m, outside, "路径 "@ + canonical + " 位于 workspace 外"@),
                ),
            })
            &&& given is Some && !(given->0 is Str) ==> more == Err::<Merged, Seq<char>>(
                "路径参数 "@ + quoted_text(argument) + " 不是字符串"@,
            )
        }),
        path_rules(call, root, places, outside, 0) == Ok::<Merged, Seq<char>>(
            Merged { rule: PermissionRule::Allow, reasons: seq![] },
        ),
{
}

/// A tool that names no paths is judged by what it does: what cannot be foreseen by the rule for that,
/// reading by the rule for reading, and anything else is asked about.
pub proof fn law_calls_without_paths_are_judged(
    rules: PermissionRules,
    grants: Set<Seq<char>>,
    call: PreparedView,
    root: Seq<char>,
    places: Places,
)
    requires
        call.spec.permission.path_arguments.len() == 0,
    ensures
        ({
            let granted = grants.contains(call.spec.name + "\n"@ + printed_json(call.arguments));
            let (rule, reason) = if call.spec.permission.always_ask {
                (rules.opaque_side_effect, "工具包含无法静态约束的外部副作用"@)
            } else if call.spec.capabilities.read_only {
                (rules.workspace_read, "workspace 内读取"@)
            } else {
                (PermissionRule::Ask, "未声明目标的副作用"@)
            };
            let decision = decided(rules, grants, call, root, places);
            &&& rule == PermissionRule::Allow ==> decision == DecisionView::Allow
            &&& rule == PermissionRule::Deny ==> decision == (DecisionView::Deny { reason })
            &&& rule == PermissionRule::Ask && granted ==> decision == DecisionView::Allow
            &&& rule == PermissionRule::Ask && !granted ==> decision == (DecisionView::Ask {
                reason,
                scopes: seq![ApprovalScope::Once, ApprovalScope::Session],
            })
        }),
{
    let none: Seq<Seq<char>> = seq![];
    let m = Merged { rule: PermissionRule::Allow, reasons: none };
    assert(path_rules(call, root, places, rules.outside_workspace, 0) == Ok::<Merged, Seq<char>>(m));
    assert(effect_rule(call, rules, m).reasons.len() <= 1);
}

/// A tool that names one path inside of the workspace is judged by whether it reads or writes; with a
/// path outside of it, the rule for such paths is asked as well and the stricter one counts.
pub proof fn law_calls_with_a_path_are_judged(
    rules: PermissionRules,
    grants: Set<Seq<char>>,
    call: PreparedView,
    root: Seq<char>,
    places: Places,
    given: Seq<char>,
    canonical: Seq<char>,
    within: bool,
)
    requires
        call.spec.permission.path_arguments.len() == 1,
        !call.spec.permission.always_ask,
        lookup(call.arguments, call.spec.permission.path_arguments[0]) == Some(JsonView::Str(given)),
        assessed(root, given, places.paths@[0], places.root) == Ok::<(Seq<char>, bool), Seq<char>>(
            (canonical, within),
        ),
    ensures
        ({
            let granted = grants.contains(call.spec.name + "\n"@ + printed_json(call.arguments));
            let (rule, reason) = if call.spec.capabilities.read_only {
                (rules.workspace_read, "workspace 内读取"@)
            } else {
                (rules.workspace_write, "workspace 内写入"@)
            };
            let far = "路径 "@ + canonical + " 位于 workspace 外"@;
            let outside = rules.outside_workspace;
            let decision = decided(rules, grants, call, root, places);
            &&& within && rule == PermissionRule::Allow ==> decision == DecisionView::Allow
            &&& within && rule == PermissionRule::Deny ==> decision == (DecisionView::Deny { reason })
            &&& within && rule == PermissionRule::Ask && !granted ==> decision == (DecisionView::Ask {
                reason,
                scopes: seq![ApprovalScope::Once, ApprovalScope::Session],
            })
            &&& !within && outside == PermissionRule::Deny ==> decision == (DecisionView::Deny {
                reason: far,
            })
            &&& !within && outside == PermissionRule::Ask && rule == PermissionRule::Allow && !granted
                ==> decision == (DecisionView::Ask {
                reason: far,
                scopes: seq![ApprovalScope::Once, ApprovalScope::Session],
            })
            &&& !within && outside == PermissionRule::Ask && rule == PermissionRule::Ask && !granted
                ==> decision == (DecisionView::Ask {
                reason: far + "；"@ + reason,
                scopes: seq![ApprovalScope::Once, ApprovalScope::Session],
            })
            &&& !within && outside == PermissionRule::Ask && rule == PermissionRule::Deny ==> decision
                == (DecisionView::Deny { reason: far + "；"@ + reason })
            &&& !within && outside == PermissionRule::Allow && rule == PermissionRule::Allow ==> decision
                == DecisionView::Allow
            &&& decision is Ask ==> !granted
        }),
{
    let none: Seq<Seq<char>> = seq![];
    let m = Merged { rule: PermissionRule::Allow, reasons: none };
    let outside = rules.outside_workspace;
    let far = "路径 "@ + canonical + " 位于 workspace 外"@;
    let reason = if call.spec.capabilities.read_only {
        "workspace 内读取"@
    } else {
        "workspace 内写入"@
    };
    assert(path_rules(call, root, places, outside, 0) == Ok::<Merged, Seq<char>>(m));
    let n = if within {
        m
    } else {
        with_rule(m, outside, far)
    };
    assert(path_rules(call, root, places, outside, 1) == Ok::<Merged, Seq<char>>(n));
    let e = effect_rule(call, rules, n);
    assert(none.push(far).push(reason).drop_last() =~= none.push(far));
    assert(joined(none.push(far), "；"@) == far);
    assert(joined(none.push(reason), "；"@) == reason);
    assert(joined(none.push(far).push(reason), "；"@) == far + "；"@ + reason);
}

/// A call is remembered by its tool and its arguments.
pub proof fn law_calls_are_remembered(call: PreparedView)
    ensures
        grant_of(call) == call.spec.name + "\n"@ + printed_json(call.arguments),
{
}

// ---- Hashes ----

/// Bytes in hexadecimal digits stand in their order.
pub proof fn law_bytes_are_written_in_order(a: Seq<u8>, b: Seq<u8>)
    ensures
        hex_text(a + b) == hex_text(a) + hex_text(b),
    decreases b.len(),
{
    if b.len() == 0 {
        assert(a + b =~= a);
        assert(hex_text(a + b) =~= hex_text(a) + hex_text(b));
    } else {
        law_bytes_are_written_in_order(a, b.drop_last());
        assert((a + b).drop_last() =~= a + b.drop_last());
        assert(hex_text(a + b) =~= hex_text(a) + hex_text(b));
    }
}

/// A byte is two digits, the higher one first; digits are those of numbers and the first letters.
pub proof fn law_a_byte_is_two_digits(byte: u8, n: int)
    ensures
        hex_text(seq![byte]).len() == 2,
        hex_text(seq![byte])[0] == hex_digit(byte as int / 16),
        hex_text(seq![byte])[1] == hex_digit(byte as int % 16),
        0 <= n < 10 ==> hex_digit(n) as int == '0' as int + n,
        10 <= n < 16 ==> hex_digit(n) as int == 'a' as int + n - 10,
{
    assert(seq![byte].drop_last() =~= seq![]);
    assert(hex_text(seq![]).len() == 0);
}

// ---- Searching upwards ----

/// A search goes up by one name at a time, and remembers the name; it ends where there is none left.
/// From what it finds, it goes down again by the names that it remembers, the last one first.
pub proof fn law_searches_go_up_and_down_again(
    style: PathStyle,
    cursor: Seq<PartView>,
    missing: Seq<Seq<char>>,
    name: Seq<char>,
    part: PartView,
    base: Seq<char>,
)
    ensures
        above(NearestView { style, cursor: cursor.push(PartView::Normal(name)), missing }) == Some(
            NearestView { style, cursor, missing: missing.push(name) },
        ),
        !(part is Normal) ==> above(NearestView { style, cursor: cursor.push(part), missing }) is None,
        above(NearestView { style, cursor: seq![], missing }) is None,
        extended(style, base, seq![]) == base,
        extended(style, base, missing.push(name)) == extended(
            style,
            below(style, base, name),
            missing,
        ),
{
    assert(cursor.push(PartView::Normal(name)).drop_last() =~= cursor);
    assert(missing.push(name).drop_last() =~= missing);
}

} // verus!
