//! What a tool call may do.
//!
//! The order is fixed: paths that are never allowed, then the configured rules, then exact calls
//! that were approved for the session. Only checked calls are judged, and no tool is known by name.
use vstd::prelude::*;

use crate::json::{lookup, printed_json, JsonView};
use crate::list::{empty, put, take_next};
use crate::text::{
    begins, concat2, concat3, has_char, join, joined, lower, lowercase, quoted, quoted_text,
    replace_char, same, split, split_on, starts_with, swapped,
};
use crate::tools::{PreparedToolCall, PreparedView};
use crate::workspace::{
    components, part_text, parts_of, path_text, style_of, Part, PartView, PathStyle, Workspace,
};

verus! {

#[derive(Debug, Clone, Copy, PartialEq, Eq, Structural)]
pub enum PermissionRule {
    Allow,
    Ask,
    Deny,
}

pub open spec fn rule_named(name: Seq<char>) -> Option<PermissionRule> {
    if name == "allow"@ {
        Some(PermissionRule::Allow)
    } else if name == "ask"@ {
        Some(PermissionRule::Ask)
    } else if name == "deny"@ {
        Some(PermissionRule::Deny)
    } else {
        None
    }
}

impl PermissionRule {
    pub fn parse(value: &str) -> (r: Result<PermissionRule, String>)
        ensures
            match rule_named(value@) {
                Some(rule) => r == Ok::<PermissionRule, String>(rule),
                None => r is Err && r->Err_0@ == "未知权限规则 "@ + quoted_text(value@)
                    + "，可选 allow | ask | deny"@,
            },
    {
        if same(value, "allow") {
            Ok(PermissionRule::Allow)
        } else if same(value, "ask") {
            Ok(PermissionRule::Ask)
        } else if same(value, "deny") {
            Ok(PermissionRule::Deny)
        } else {
            Err(concat3("未知权限规则 ", quoted(value).as_str(), "，可选 allow | ask | deny"))
        }
    }
}

#[derive(Debug, Clone, Copy, PartialEq, Eq, Structural)]
pub struct PermissionRules {
    pub workspace_read: PermissionRule,
    pub workspace_write: PermissionRule,
    pub outside_workspace: PermissionRule,
    pub opaque_side_effect: PermissionRule,
}

impl Default for PermissionRules {
    fn default() -> (r: PermissionRules)
        ensures
            r == (PermissionRules {
                workspace_read: PermissionRule::Allow,
                workspace_write: PermissionRule::Allow,
                outside_workspace: PermissionRule::Ask,
                opaque_side_effect: PermissionRule::Ask,
            }),
    {
        PermissionRules {
            workspace_read: PermissionRule::Allow,
            workspace_write: PermissionRule::Allow,
            outside_workspace: PermissionRule::Ask,
            opaque_side_effect: PermissionRule::Ask,
        }
    }
}

#[derive(Debug, Clone, Copy, PartialEq, Eq, Structural)]
pub enum ApprovalScope {
    Once,
    Session,
}

#[derive(Debug, Clone, Copy, PartialEq, Eq, Structural)]
pub enum ApprovalDecision {
    Allow(ApprovalScope),
    Deny,
}

#[derive(Debug, PartialEq, Eq)]
pub struct ApprovalResponse {
    pub request_id: String,
    pub decision: ApprovalDecision,
}

#[derive(Debug, PartialEq, Eq)]
pub struct ApprovalRequest {
    pub request_id: String,
    pub tool: String,
    pub summary: String,
    pub reason: String,
    pub scopes: Vec<ApprovalScope>,
}

#[verifier::ext_equal]
pub struct ApprovalView {
    pub request_id: Seq<char>,
    pub tool: Seq<char>,
    pub summary: Seq<char>,
    pub reason: Seq<char>,
    pub scopes: Seq<ApprovalScope>,
}

impl DeepView for ApprovalRequest {
    type V = ApprovalView;

    open spec fn deep_view(&self) -> ApprovalView {
        ApprovalView {
            request_id: self.request_id@,
            tool: self.tool@,
            summary: self.summary@,
            reason: self.reason@,
            scopes: self.scopes@,
        }
    }
}

#[verifier::ext_equal]
pub struct ResponseView {
    pub request_id: Seq<char>,
    pub decision: ApprovalDecision,
}

impl DeepView for ApprovalResponse {
    type V = ResponseView;

    open spec fn deep_view(&self) -> ResponseView {
        ResponseView { request_id: self.request_id@, decision: self.decision }
    }
}

#[derive(Debug, PartialEq, Eq)]
pub enum PermissionDecision {
    Allow,
    Deny { reason: String },
    Ask { reason: String, scopes: Vec<ApprovalScope> },
}

/// What a [`PermissionDecision`] denotes.
#[verifier::ext_equal]
pub enum DecisionView {
    Allow,
    Deny { reason: Seq<char> },
    Ask { reason: Seq<char>, scopes: Seq<ApprovalScope> },
}

impl DeepView for PermissionDecision {
    type V = DecisionView;

    open spec fn deep_view(&self) -> DecisionView {
        match *self {
            PermissionDecision::Allow => DecisionView::Allow,
            PermissionDecision::Deny { reason } => DecisionView::Deny { reason: reason@ },
            PermissionDecision::Ask { reason, scopes } => DecisionView::Ask {
                reason: reason@,
                scopes: scopes@,
            },
        }
    }
}

// ---- Paths that are never allowed ----

/// The text without dots and spaces at its end.
pub open spec fn without_dots(text: Seq<char>) -> Seq<char>
    decreases text.len(),
{
    if text.len() > 0 && (text.last() == '.' || text.last() == ' ') {
        without_dots(text.drop_last())
    } else {
        text
    }
}

/// The part of a name that Windows takes for a device: up to the first dot, in lower case.
pub open spec fn device_stem(name: Seq<char>) -> Seq<char> {
    lower(split_on(without_dots(name), '.')[0])
}

pub open spec fn is_port_number(text: Seq<char>) -> bool {
    text.len() == 1 && '1' <= text[0] && text[0] <= '9'
}

/// Whether Windows reserves the name for a device.
pub open spec fn is_reserved(name: Seq<char>) -> bool {
    let stem = device_stem(name);
    ||| stem == "con"@
    ||| stem == "prn"@
    ||| stem == "aux"@
    ||| stem == "nul"@
    ||| (begins(stem, "com"@) && is_port_number(stem.skip(3)))
    ||| (begins(stem, "lpt"@) && is_port_number(stem.skip(3)))
}

/// The reason to refuse the first reserved name among some parts.
pub open spec fn reserved_among(parts: Seq<PartView>) -> Option<Seq<char>>
    decreases parts.len(),
{
    if parts.len() == 0 {
        None
    } else {
        match parts[0] {
            PartView::Normal(name) => if is_reserved(name) {
                Some("禁止访问 Windows 保留设备名 Normal("@ + quoted_text(name) + ")"@)
            } else {
                reserved_among(parts.drop_first())
            },
            _ => reserved_among(parts.drop_first()),
        }
    }
}

/// Why a path is refused whatever the rules say, if it is.
pub open spec fn hard_deny(style: PathStyle, given: Seq<char>) -> Option<Seq<char>> {
    if given.contains('\0') {
        Some("路径包含 NUL 字节"@)
    } else if style == PathStyle::Posix {
        None
    } else {
        let text = lower(swapped(given, '/', '\\'));
        if begins(text, "\\\\.\\"@) || begins(text, "\\\\?\\globalroot\\"@) || begins(
            text,
            "\\\\?\\pipe\\"@,
        ) {
            Some("禁止访问 Windows 设备路径 "@ + quoted_text(given))
        } else {
            reserved_among(parts_of(style, given))
        }
    }
}

fn trim_dots(text: &str) -> (r: &str)
    ensures
        r@ == without_dots(text@),
{
    let mut end: usize = text.unicode_len();
    assert(text@.take(end as int) =~= text@);
    while end > 0 && (text.get_char(end - 1) == '.' || text.get_char(end - 1) == ' ')
        invariant
            end <= text@.len(),
            without_dots(text@) == without_dots(text@.take(end as int)),
        decreases end,
    {
        end = end - 1;
        proof {
            take_next(text@, end as int);
        }
    }
    let r = text.substring_char(0, end);
    assert(r@ =~= text@.take(end as int));
    assert(end > 0 ==> text@.take(end as int).last() == text@[end - 1]);
    r
}

fn numbered_port(stem: &str, prefix: &str) -> (r: bool)
    requires
        prefix@.len() == 3,
    ensures
        r == (begins(stem@, prefix@) && is_port_number(stem@.skip(3))),
{
    if !starts_with(stem, prefix) || stem.unicode_len() != 4 {
        return false;
    }
    let c = stem.get_char(3);
    assert(stem@.skip(3)[0] == c);
    '1' <= c && c <= '9'
}

fn reserved(name: &str) -> (r: bool)
    ensures
        r == is_reserved(name@),
{
    let pieces = split(trim_dots(name), '.');
    assert(pieces.deep_view()[0] == pieces@[0]@);
    let stem = lowercase(pieces[0].as_str());
    proof {
        reveal_strlit("com");
        reveal_strlit("lpt");
    }
    same(stem.as_str(), "con") || same(stem.as_str(), "prn") || same(stem.as_str(), "aux") || same(
        stem.as_str(),
        "nul",
    ) || numbered_port(stem.as_str(), "com") || numbered_port(stem.as_str(), "lpt")
}

pub fn hard_deny_path(style: PathStyle, given: &str) -> (r: Option<String>)
    ensures
        r.deep_view() == hard_deny(style, given@),
{
    if has_char(given, '\0') {
        return Some("路径包含 NUL 字节".to_owned());
    }
    if style == PathStyle::Posix {
        return None;
    }
    let text = lowercase(replace_char(given, '/', '\\').as_str());
    if starts_with(text.as_str(), "\\\\.\\") || starts_with(text.as_str(), "\\\\?\\globalroot\\")
        || starts_with(text.as_str(), "\\\\?\\pipe\\") {
        return Some(concat2("禁止访问 Windows 设备路径 ", quoted(given).as_str()));
    }
    let parts = components(style, given);
    let ghost all = parts.deep_view();
    let mut i: usize = 0;
    assert(all.skip(0) =~= all);
    while i < parts.len()
        invariant
            i <= parts@.len(),
            all == parts.deep_view(),
            reserved_among(all) == reserved_among(all.skip(i as int)),
            reserved_among(all) == hard_deny(style, given@),
        decreases parts@.len() - i,
    {
        proof {
            assert(all.skip(i as int)[0] == parts@[i as int].deep_view());
            assert(all.skip(i as int).drop_first() =~= all.skip(i + 1));
        }
        if let Part::Normal(name) = &parts[i] {
            if reserved(name.as_str()) {
                return Some(
                    concat3(
                        "禁止访问 Windows 保留设备名 Normal(",
                        quoted(name.as_str()).as_str(),
                        ")",
                    ),
                );
            }
        }
        i = i + 1;
    }
    None
}

// ---- Where a path leads ----

/// Whether two parts name the same thing; Windows ignores the case of ASCII letters.
pub open spec fn same_component(style: PathStyle, a: PartView, b: PartView) -> bool {
    match style {
        PathStyle::Posix => a == b,
        PathStyle::Windows => lower(part_text(style, a)) == lower(part_text(style, b)),
    }
}

/// Whether a path is the root or below it, part by part.
pub open spec fn is_below(style: PathStyle, path: Seq<PartView>, root: Seq<PartView>) -> bool {
    root.len() <= path.len() && forall|i: int|
        0 <= i < root.len() ==> same_component(style, #[trigger] path[i], root[i])
}

fn text_of(style: PathStyle, part: &Part) -> (s: String)
    ensures
        s@ == part_text(style, part.deep_view()),
{
    let list: Vec<Part> = crate::list::one(part.clone());
    let s = crate::workspace::render(style, &list);
    proof {
        let view = seq![part.deep_view()];
        assert(list.deep_view() == view);
        assert(view.drop_last() =~= seq![]);
        assert(path_text(style, view.drop_last()) == Seq::<char>::empty());
        assert(Seq::<char>::empty() + part_text(style, part.deep_view()) =~= part_text(
            style,
            part.deep_view(),
        ));
    }
    s
}

pub fn components_equal(style: PathStyle, a: &Part, b: &Part) -> (r: bool)
    ensures
        r == same_component(style, a.deep_view(), b.deep_view()),
{
    match style {
        PathStyle::Posix => match (a, b) {
            (Part::Prefix(x), Part::Prefix(y)) => same(x.as_str(), y.as_str()),
            (Part::RootDir, Part::RootDir) => true,
            (Part::CurDir, Part::CurDir) => true,
            (Part::ParentDir, Part::ParentDir) => true,
            (Part::Normal(x), Part::Normal(y)) => same(x.as_str(), y.as_str()),
            _ => false,
        },
        PathStyle::Windows => same(
            lowercase(text_of(style, a).as_str()).as_str(),
            lowercase(text_of(style, b).as_str()).as_str(),
        ),
    }
}

pub fn path_starts_with(style: PathStyle, path: &str, root: &str) -> (r: bool)
    ensures
        r == is_below(style, parts_of(style, path@), parts_of(style, root@)),
{
    let p = components(style, path);
    let q = components(style, root);
    let ghost pv = p.deep_view();
    let ghost qv = q.deep_view();
    if p.len() < q.len() {
        return false;
    }
    let mut i: usize = 0;
    while i < q.len()
        invariant
            i <= q@.len() <= p@.len(),
            pv == p.deep_view(),
            qv == q.deep_view(),
            pv == parts_of(style, path@),
            qv == parts_of(style, root@),
            forall|k: int| 0 <= k < i ==> same_component(style, #[trigger] pv[k], qv[k]),
        decreases q@.len() - i,
    {
        if !components_equal(style, &p[i], &q[i]) {
            assert(!same_component(style, pv[i as int], qv[i as int]));
            return false;
        }
        i = i + 1;
    }
    true
}

/// Where a path leads once links are followed.
#[derive(Debug, PartialEq, Eq)]
pub struct PathAssessment {
    pub requested: String,
    pub canonical: String,
    pub within_workspace: bool,
}

/// The answer of the file system on a path: its canonical form, or why there is none.
#[derive(Debug)]
pub enum Located {
    Path(String),
    Failed(String),
}

/// What the file system said of the workspace root and of each declared path.
pub struct Places {
    pub root: Located,
    /// One for each path argument that the tool declares; where the call gives none it is unused.
    pub paths: Vec<Located>,
}

/// Why a located path cannot be judged, or whether it lies in the workspace.
pub open spec fn assessed(root: Seq<char>, given: Seq<char>, place: Located, base: Located) -> Result<
    (Seq<char>, bool),
    Seq<char>,
> {
    let style = style_of(root);
    let requested = path_text(style, Workspace::resolved(root, given));
    match hard_deny(style, given) {
        Some(reason) => Err(reason),
        None => match (place, base) {
            (Located::Failed(error), _) => Err(
                "无法安全解析路径 "@ + requested + ": "@ + error@,
            ),
            (_, Located::Failed(error)) => Err(
                "无法安全解析 workspace 根目录 "@ + root + ": "@ + error@,
            ),
            (Located::Path(canonical), Located::Path(base)) => Ok(
                (
                    canonical@,
                    is_below(style, parts_of(style, canonical@), parts_of(style, base@)),
                ),
            ),
        },
    }
}

/// Judges where a given path leads.
pub fn assess_path(workspace: &Workspace, given: &str, place: &Located, base: &Located) -> (r: Result<
    PathAssessment,
    String,
>)
    ensures
        match assessed(workspace@, given@, *place, *base) {
            Ok((canonical, within)) => {
                &&& r is Ok
                &&& r->Ok_0.requested@ == path_text(
                    style_of(workspace@),
                    Workspace::resolved(workspace@, given@),
                )
                &&& r->Ok_0.canonical@ == canonical
                &&& r->Ok_0.within_workspace == within
            },
            Err(reason) => r is Err && r->Err_0@ == reason,
        },
{
    let style = workspace.style();
    if let Some(reason) = hard_deny_path(style, given) {
        return Err(reason);
    }
    let requested = workspace.resolve(given);
    let canonical = match place {
        Located::Path(canonical) => canonical,
        Located::Failed(error) => {
            let mut reason = concat3("无法安全解析路径 ", requested.as_str(), ": ");
            reason.push_str(error.as_str());
            return Err(reason);
        },
    };
    let base = match base {
        Located::Path(base) => base,
        Located::Failed(error) => {
            let mut reason = concat3("无法安全解析 workspace 根目录 ", workspace.root(), ": ");
            reason.push_str(error.as_str());
            return Err(reason);
        },
    };
    let within_workspace = path_starts_with(style, canonical.as_str(), base.as_str());
    Ok(PathAssessment { requested, canonical: canonical.clone(), within_workspace })
}

// ---- The decision ----

pub open spec fn rule_rank(rule: PermissionRule) -> nat {
    match rule {
        PermissionRule::Allow => 0,
        PermissionRule::Ask => 1,
        PermissionRule::Deny => 2,
    }
}

pub fn rank(rule: PermissionRule) -> (r: u8)
    ensures
        r == rule_rank(rule),
{
    match rule {
        PermissionRule::Allow => 0,
        PermissionRule::Ask => 1,
        PermissionRule::Deny => 2,
    }
}

/// The stricter of two rules.
pub open spec fn stricter(a: PermissionRule, b: PermissionRule) -> PermissionRule {
    if rule_rank(b) > rule_rank(a) {
        b
    } else {
        a
    }
}

/// Rules that apply to a call, merged: the strictest of them and the reasons of all but `Allow`.
#[verifier::ext_equal]
pub struct Merged {
    pub rule: PermissionRule,
    pub reasons: Seq<Seq<char>>,
}

pub open spec fn with_rule(m: Merged, rule: PermissionRule, reason: Seq<char>) -> Merged {
    Merged {
        rule: stricter(m.rule, rule),
        reasons: if rule != PermissionRule::Allow {
            m.reasons.push(reason)
        } else {
            m.reasons
        },
    }
}

pub fn merge_rule(
    effective: &mut PermissionRule,
    next: PermissionRule,
    reasons: &mut Vec<String>,
    reason: String,
)
    ensures
        (Merged { rule: *final(effective), reasons: final(reasons).deep_view() }) == with_rule(
            Merged { rule: *old(effective), reasons: old(reasons).deep_view() },
            next,
            reason@,
        ),
{
    if rank(next) > rank(*effective) {
        *effective = next;
    }
    if next != PermissionRule::Allow {
        put(reasons, reason);
    }
}

/// The rules for the first `n` declared paths, or the reason why the call is refused at once.
pub open spec fn path_rules(
    call: PreparedView,
    root: Seq<char>,
    places: Places,
    outside: PermissionRule,
    n: nat,
) -> Result<Merged, Seq<char>>
    decreases n,
{
    if n == 0 {
        Ok(Merged { rule: PermissionRule::Allow, reasons: seq![] })
    } else {
        match path_rules(call, root, places, outside, (n - 1) as nat) {
            Err(reason) => Err(reason),
            Ok(m) => {
                let argument = call.spec.permission.path_arguments[n - 1];
                match lookup(call.arguments, argument) {
                    None => Ok(m),
                    Some(JsonView::Str(given)) => match assessed(
                        root,
                        given,
                        places.paths@[n - 1],
                        places.root,
                    ) {
                        Err(reason) => Err(reason),
                        Ok((canonical, within)) => if within {
                            Ok(m)
                        } else {
                            Ok(
                                with_rule(
                                    m,
                                    outside,
                                    "路径 "@ + canonical + " 位于 workspace 外"@,
                                ),
                            )
                        },
                    },
                    Some(_) => Err("路径参数 "@ + quoted_text(argument) + " 不是字符串"@),
                }
            },
        }
    }
}

/// The path that a call gives for one of the arguments that its tool declares; the workspace itself
/// where it gives none.
pub open spec fn named_path(call: PreparedView, root: Seq<char>, i: int) -> Seq<char> {
    let given = match lookup(call.arguments, call.spec.permission.path_arguments[i]) {
        Some(JsonView::Str(given)) => given,
        _ => seq![],
    };
    path_text(style_of(root), Workspace::resolved(root, given))
}

/// The paths that have to be located before a call is judged, one for each path argument that its
/// tool declares.
pub fn paths_to_locate(call: &PreparedToolCall, workspace: &Workspace) -> (out: Vec<String>)
    ensures
        out@.len() == call.spec.permission.path_arguments@.len(),
        out.deep_view() == Seq::new(
            call.spec.permission.path_arguments@.len(),
            |i: int| named_path(call.deep_view(), workspace@, i),
        ),
{
    let ghost cv = call.deep_view();
    let arguments = &call.spec.permission.path_arguments;
    let ghost goal = Seq::new(arguments@.len(), |i: int| named_path(cv, workspace@, i));
    let mut out: Vec<String> = empty();
    let mut i: usize = 0;
    assert(goal.take(0) =~= seq![]);
    while i < arguments.len()
        invariant
            i <= arguments@.len(),
            *arguments == call.spec.permission.path_arguments,
            cv == call.deep_view(),
            goal == Seq::new(arguments@.len(), |i: int| named_path(cv, workspace@, i)),
            out.deep_view() == goal.take(i as int),
        decreases arguments@.len() - i,
    {
        let argument = arguments[i].as_str();
        assert(cv.spec.permission.path_arguments[i as int] == argument@);
        let given = match call.arguments.get(argument) {
            Some(value) => match value.as_str() {
                Some(given) => given,
                None => "",
            },
            None => "",
        };
        proof {
            reveal_strlit("");
            assert(""@ =~= seq![]);
            take_next(goal, i as int);
        }
        put(&mut out, workspace.resolve(given));
        i = i + 1;
        assert(out.deep_view() =~= goal.take(i as int));
    }
    proof {
        assert(goal.take(i as int) =~= goal);
        assert(out.deep_view().len() == out@.len());
    }
    out
}

/// The rule for what the tool does besides naming paths.
pub open spec fn effect_rule(call: PreparedView, rules: PermissionRules, m: Merged) -> Merged {
    let named = call.spec.permission.path_arguments.len() > 0;
    if call.spec.permission.always_ask {
        with_rule(m, rules.opaque_side_effect, "工具包含无法静态约束的外部副作用"@)
    } else if m.rule == PermissionRule::Deny {
        m
    } else if call.spec.capabilities.read_only {
        with_rule(m, rules.workspace_read, "workspace 内读取"@)
    } else if named {
        with_rule(m, rules.workspace_write, "workspace 内写入"@)
    } else {
        with_rule(m, PermissionRule::Ask, "未声明目标的副作用"@)
    }
}

/// The text by which a call is remembered: its tool and its arguments.
pub open spec fn grant_of(call: PreparedView) -> Seq<char> {
    call.spec.name + "\n"@ + printed_json(call.arguments)
}

fn grant_key(call: &PreparedToolCall) -> (s: String)
    ensures
        s@ == grant_of(call.deep_view()),
{
    concat3(call.spec.name.as_str(), "\n", call.arguments.print().as_str())
}

/// The decision on a call.
pub open spec fn decided(
    rules: PermissionRules,
    grants: Set<Seq<char>>,
    call: PreparedView,
    root: Seq<char>,
    places: Places,
) -> DecisionView {
    match path_rules(
        call,
        root,
        places,
        rules.outside_workspace,
        call.spec.permission.path_arguments.len(),
    ) {
        Err(reason) => DecisionView::Deny { reason },
        Ok(m) => {
            let m = effect_rule(call, rules, m);
            match m.rule {
                PermissionRule::Deny => DecisionView::Deny { reason: joined(m.reasons, "；"@) },
                PermissionRule::Ask => if grants.contains(grant_of(call)) {
                    DecisionView::Allow
                } else {
                    DecisionView::Ask {
                        reason: joined(m.reasons, "；"@),
                        scopes: seq![ApprovalScope::Once, ApprovalScope::Session],
                    }
                },
                PermissionRule::Allow => DecisionView::Allow,
            }
        },
    }
}

pub struct PermissionManager {
    rules: PermissionRules,
    session_grants: Vec<String>,
}

impl PermissionManager {
    pub closed spec fn rules_spec(&self) -> PermissionRules {
        self.rules
    }

    /// The calls approved for the session.
    pub closed spec fn grants(&self) -> Set<Seq<char>> {
        Set::new(|key: Seq<char>| self.session_grants.deep_view().contains(key))
    }

    pub fn new(rules: PermissionRules) -> (m: PermissionManager)
        ensures
            m.rules_spec() == rules,
            m.grants() == Set::<Seq<char>>::empty(),
    {
        let m = PermissionManager { rules, session_grants: empty() };
        assert(m.grants() =~= Set::<Seq<char>>::empty());
        m
    }

    fn granted(&self, key: &str) -> (r: bool)
        ensures
            r == self.grants().contains(key@),
    {
        let mut i: usize = 0;
        while i < self.session_grants.len()
            invariant
                i <= self.session_grants@.len(),
                forall|k: int| 0 <= k < i ==> self.session_grants.deep_view()[k] != key@,
            decreases self.session_grants@.len() - i,
        {
            if same(self.session_grants[i].as_str(), key) {
                assert(self.session_grants.deep_view()[i as int] == key@);
                return true;
            }
            i = i + 1;
        }
        false
    }

    /// Judges a checked call, given where its paths lead.
    pub fn evaluate(&self, call: &PreparedToolCall, workspace: &Workspace, places: &Places) -> (d:
        PermissionDecision)
        requires
            places.paths@.len() == call.spec.permission.path_arguments@.len(),
        ensures
            d.deep_view() == decided(
                self.rules_spec(),
                self.grants(),
                call.deep_view(),
                workspace@,
                *places,
            ),
    {
        let ghost cv = call.deep_view();
        let ghost outside = self.rules.outside_workspace;
        let arguments = &call.spec.permission.path_arguments;
        let ghost total = arguments@.len();
        let mut effective = PermissionRule::Allow;
        let mut reasons: Vec<String> = empty();
        let mut i: usize = 0;
        while i < arguments.len()
            invariant
                i <= arguments@.len(),
                total == arguments@.len(),
                *arguments == call.spec.permission.path_arguments,
                cv == call.deep_view(),
                cv.spec.permission.path_arguments.len() == total,
                outside == self.rules.outside_workspace,
                places.paths@.len() == total,
                path_rules(cv, workspace@, *places, outside, i as nat) == Ok::<Merged, Seq<char>>(
                    Merged { rule: effective, reasons: reasons.deep_view() },
                ),
            decreases arguments@.len() - i,
        {
            let argument = arguments[i].as_str();
            assert(cv.spec.permission.path_arguments[i as int] == argument@);
            let ghost n = (i + 1) as nat;
            if let Some(value) = call.arguments.get(argument) {
                match value.as_str() {
                    None => {
                        proof {
                            refusal_stays(cv, workspace@, *places, outside, n, total);
                        }
                        return PermissionDecision::Deny {
                            reason: concat3("路径参数 ", quoted(argument).as_str(), " 不是字符串"),
                        };
                    },
                    Some(given) => match assess_path(
                        workspace,
                        given,
                        &places.paths[i],
                        &places.root,
                    ) {
                        Err(reason) => {
                            proof {
                                refusal_stays(cv, workspace@, *places, outside, n, total);
                            }
                            return PermissionDecision::Deny { reason };
                        },
                        Ok(assessment) => {
                            if !assessment.within_workspace {
                                merge_rule(
                                    &mut effective,
                                    self.rules.outside_workspace,
                                    &mut reasons,
                                    concat3(
                                        "路径 ",
                                        assessment.canonical.as_str(),
                                        " 位于 workspace 外",
                                    ),
                                );
                            }
                        },
                    },
                }
            }
            i = i + 1;
        }
        let ghost m = Merged { rule: effective, reasons: reasons.deep_view() };
        if call.spec.permission.always_ask {
            merge_rule(
                &mut effective,
                self.rules.opaque_side_effect,
                &mut reasons,
                "工具包含无法静态约束的外部副作用".to_owned(),
            );
        } else if effective != PermissionRule::Deny {
            if call.spec.capabilities.read_only {
                merge_rule(
                    &mut effective,
                    self.rules.workspace_read,
                    &mut reasons,
                    "workspace 内读取".to_owned(),
                );
            } else if arguments.len() > 0 {
                merge_rule(
                    &mut effective,
                    self.rules.workspace_write,
                    &mut reasons,
                    "workspace 内写入".to_owned(),
                );
            } else {
                merge_rule(
                    &mut effective,
                    PermissionRule::Ask,
                    &mut reasons,
                    "未声明目标的副作用".to_owned(),
                );
            }
        }
        assert((Merged { rule: effective, reasons: reasons.deep_view() }) == effect_rule(
            cv,
            self.rules,
            m,
        ));
        match effective {
            PermissionRule::Deny => PermissionDecision::Deny { reason: join(&reasons, "；") },
            PermissionRule::Ask => if self.granted(grant_key(call).as_str()) {
                PermissionDecision::Allow
            } else {
                let mut scopes: Vec<ApprovalScope> = Vec::new();
                scopes.push(ApprovalScope::Once);
                scopes.push(ApprovalScope::Session);
                assert(scopes@ =~= seq![ApprovalScope::Once, ApprovalScope::Session]);
                PermissionDecision::Ask { reason: join(&reasons, "；"), scopes }
            },
            PermissionRule::Allow => PermissionDecision::Allow,
        }
    }

    /// Remembers an approved call for the rest of the session.
    pub fn remember_session_grant(&mut self, call: &PreparedToolCall)
        ensures
            final(self).rules_spec() == old(self).rules_spec(),
            final(self).grants() == old(self).grants().insert(grant_of(call.deep_view())),
    {
        let ghost before = self.session_grants.deep_view();
        let key = grant_key(call);
        let ghost kv = key@;
        put(&mut self.session_grants, key);
        proof {
            let now = self.session_grants.deep_view();
            assert forall|k: Seq<char>| now.contains(k) <==> before.contains(k) || k == kv by {
                if now.contains(k) {
                    let i = choose|i: int| 0 <= i < now.len() && now[i] == k;
                    if i < before.len() {
                        assert(before[i] == k);
                    }
                }
                if before.contains(k) {
                    let i = choose|i: int| 0 <= i < before.len() && before[i] == k;
                    assert(now[i] == k);
                }
                if k == kv {
                    assert(now[before.len() as int] == k);
                }
            }
            assert(self.grants() =~= old(self).grants().insert(kv));
        }
    }

    pub fn clear_session_grants(&mut self)
        ensures
            final(self).rules_spec() == old(self).rules_spec(),
            final(self).grants() == Set::<Seq<char>>::empty(),
    {
        self.session_grants = empty();
        assert(self.grants() =~= Set::<Seq<char>>::empty());
    }
}

proof fn refusal_stays(
    call: PreparedView,
    root: Seq<char>,
    places: Places,
    outside: PermissionRule,
    n: nat,
    total: nat,
)
    requires
        n <= total,
        path_rules(call, root, places, outside, n) is Err,
    ensures
        path_rules(call, root, places, outside, total) == path_rules(
            call,
            root,
            places,
            outside,
            n,
        ),
    decreases total - n,
{
    if n < total {
        refusal_stays(call, root, places, outside, n + 1, total);
    }
}

proof fn early_refusal(
    call: PreparedView,
    root: Seq<char>,
    places: Places,
    outside: PermissionRule,
    n: nat,
    k: int,
)
    requires
        0 <= k < n <= call.spec.permission.path_arguments.len(),
        lookup(call.arguments, call.spec.permission.path_arguments[k]) matches Some(
            JsonView::Str(given),
        ) && hard_deny(style_of(root), given) is Some,
    ensures
        path_rules(call, root, places, outside, n) is Err,
    decreases n,
{
    if k < n - 1 {
        early_refusal(call, root, places, outside, (n - 1) as nat, k);
    }
}

/// A path that is never allowed is refused whatever the rules and the session's approvals say.
pub proof fn law_hard_deny_wins(
    rules: PermissionRules,
    grants: Set<Seq<char>>,
    call: PreparedView,
    root: Seq<char>,
    places: Places,
    k: int,
)
    requires
        0 <= k < call.spec.permission.path_arguments.len(),
        lookup(call.arguments, call.spec.permission.path_arguments[k]) matches Some(
            JsonView::Str(given),
        ) && hard_deny(style_of(root), given) is Some,
    ensures
        decided(rules, grants, call, root, places) is Deny,
{
    early_refusal(
        call,
        root,
        places,
        rules.outside_workspace,
        call.spec.permission.path_arguments.len(),
        k,
    );
}

/// Approvals of the session never lift a refusal.
pub proof fn law_approvals_do_not_lift_refusals(
    rules: PermissionRules,
    grants: Set<Seq<char>>,
    more: Set<Seq<char>>,
    call: PreparedView,
    root: Seq<char>,
    places: Places,
)
    requires
        decided(rules, grants, call, root, places) is Deny,
    ensures
        decided(rules, more, call, root, places) == decided(rules, grants, call, root, places),
{
}

/// An approval of one call changes nothing for a call with another tool name or other arguments.
pub proof fn law_approval_is_for_the_exact_call(
    rules: PermissionRules,
    grants: Set<Seq<char>>,
    approved: PreparedView,
    other: PreparedView,
    root: Seq<char>,
    places: Places,
)
    requires
        grant_of(approved) != grant_of(other),
    ensures
        decided(rules, grants.insert(grant_of(approved)), other, root, places) == decided(
            rules,
            grants,
            other,
            root,
            places,
        ),
{
}

/// Merging keeps the strictest rule, in whatever order the rules come.
pub proof fn law_strictest_rule_wins(m: Merged, a: PermissionRule, b: PermissionRule, r: Seq<char>, s: Seq<char>)
    ensures
        with_rule(with_rule(m, a, r), b, s).rule == with_rule(with_rule(m, b, s), a, r).rule,
        rule_rank(with_rule(m, a, r).rule) >= rule_rank(m.rule),
        rule_rank(with_rule(m, a, r).rule) >= rule_rank(a),
{
}

} // verus!
