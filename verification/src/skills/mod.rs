//! Skills: local `SKILL.md` files, found once at the start within fixed bounds and loaded on demand.
use vstd::prelude::*;

use crate::list::{empty, take_all, take_next};
use crate::skills::document::{document, head_text, parse_document};
use crate::text::{
    chars_of, concat2, concat3, dec, decimal, quoted, quoted_text, replace_char, same, swapped,
    trim, trimmed,
};
use crate::hash::{hash_bytes, same_hash, sha256};
use crate::util::{cleaned, ellipsis, end_cut, middle_cut, sanitize, truncate_middle};
use crate::workspace::{components, parts_of, utf8_text, Part, PathStyle};

pub mod document;
pub mod scan;
pub mod told;

verus! {

pub const SOURCE_MAX_BYTES: u64 = 1048576;

pub const BODY_MAX_CHARS: usize = 20_000;

pub const CATALOG_MAX_CHARS: usize = 24_000;

pub const MAX_DEPTH: usize = 4;

pub const MAX_ENTRIES: usize = 4_096;

pub const MAX_SKILLS: usize = 256;

#[derive(Debug, Clone, Copy, PartialEq, Eq, PartialOrd, Ord, Structural)]
pub enum SkillScope {
    Repo,
    User,
}

pub open spec fn scope_text(scope: SkillScope) -> Seq<char> {
    match scope {
        SkillScope::Repo => "repo"@,
        SkillScope::User => "user"@,
    }
}

/// Skills of the repository go before those of the user.
pub open spec fn scope_rank(scope: SkillScope) -> u8 {
    match scope {
        SkillScope::Repo => 0,
        SkillScope::User => 1,
    }
}

impl SkillScope {
    pub fn as_str(self) -> (s: &'static str)
        ensures
            s@ == scope_text(self),
    {
        match self {
            SkillScope::Repo => "repo",
            SkillScope::User => "user",
        }
    }

    pub fn rank(self) -> (r: u8)
        ensures
            r == scope_rank(self),
    {
        match self {
            SkillScope::Repo => 0,
            SkillScope::User => 1,
        }
    }
}

/// What is known of a skill without its body.
#[derive(Debug, PartialEq, Eq)]
pub struct SkillMetadata {
    pub name: String,
    pub description: String,
    pub scope: SkillScope,
    pub path: String,
    /// The SHA-256 hash of the file.
    pub content_hash: [u8; 32],
}

#[verifier::ext_equal]
pub struct SkillView {
    pub name: Seq<char>,
    pub description: Seq<char>,
    pub scope: SkillScope,
    pub path: Seq<char>,
    pub content_hash: Seq<u8>,
}

impl DeepView for SkillMetadata {
    type V = SkillView;

    open spec fn deep_view(&self) -> SkillView {
        SkillView {
            name: self.name@,
            description: self.description@,
            scope: self.scope,
            path: self.path@,
            content_hash: self.content_hash@,
        }
    }
}

impl Clone for SkillMetadata {
    fn clone(&self) -> (r: SkillMetadata)
        ensures
            r.deep_view() == self.deep_view(),
    {
        SkillMetadata {
            name: self.name.clone(),
            description: self.description.clone(),
            scope: self.scope,
            path: self.path.clone(),
            content_hash: self.content_hash,
        }
    }
}

#[derive(Debug, PartialEq, Eq)]
pub struct LoadedSkill {
    pub metadata: SkillMetadata,
    pub body: String,
}

#[verifier::ext_equal]
pub struct LoadedView {
    pub metadata: SkillView,
    pub body: Seq<char>,
}

impl DeepView for LoadedSkill {
    type V = LoadedView;

    open spec fn deep_view(&self) -> LoadedView {
        LoadedView { metadata: self.metadata.deep_view(), body: self.body@ }
    }
}

// ---- Markup ----

pub open spec fn entity(c: char) -> Seq<char> {
    if c == '&' {
        "&amp;"@
    } else if c == '<' {
        "&lt;"@
    } else if c == '>' {
        "&gt;"@
    } else if c == '"' {
        "&quot;"@
    } else if c == '\'' {
        "&apos;"@
    } else {
        seq![c]
    }
}

/// The text with the characters of markup replaced.
pub open spec fn escaped(text: Seq<char>) -> Seq<char>
    decreases text.len(),
{
    if text.len() == 0 {
        seq![]
    } else {
        escaped(text.drop_last()) + entity(text.last())
    }
}

pub fn escape_xml(value: &str) -> (out: String)
    ensures
        out@ == escaped(value@),
{
    let chars = chars_of(value);
    let mut out = String::new();
    let mut i: usize = 0;
    while i < chars.len()
        invariant
            i <= chars@.len(),
            chars@ == value@,
            out@ == escaped(chars@.take(i as int)),
        decreases chars@.len() - i,
    {
        proof {
            take_next(chars@, i as int);
        }
        let c = chars[i];
        if c == '&' {
            out.push_str("&amp;");
        } else if c == '<' {
            out.push_str("&lt;");
        } else if c == '>' {
            out.push_str("&gt;");
        } else if c == '"' {
            out.push_str("&quot;");
        } else if c == '\'' {
            out.push_str("&apos;");
        } else {
            let ghost before = out@;
            out.push(c);
            assert(out@ =~= before + seq![c]);
        }
        i = i + 1;
    }
    proof {
        take_all(chars@);
    }
    out
}

/// Whether a character could open or close markup, or end an attribute.
pub open spec fn is_markup(c: char) -> bool {
    c == '<' || c == '>' || c == '"' || c == '\''
}

/// Nothing that a skill says can pass for markup.
pub proof fn law_escaped_text_holds_no_markup(text: Seq<char>)
    ensures
        forall|i: int| 0 <= i < escaped(text).len() ==> !is_markup(#[trigger] escaped(text)[i]),
    decreases text.len(),
{
    if text.len() > 0 {
        law_escaped_text_holds_no_markup(text.drop_last());
        reveal_strlit("&amp;");
        reveal_strlit("&lt;");
        reveal_strlit("&gt;");
        reveal_strlit("&quot;");
        reveal_strlit("&apos;");
        let head = escaped(text.drop_last());
        let tail = entity(text.last());
        assert forall|i: int| 0 <= i < tail.len() implies !is_markup(#[trigger] tail[i]) by {}
        assert forall|i: int| 0 <= i < escaped(text).len() implies !is_markup(
            #[trigger] escaped(text)[i],
        ) by {
            if i < head.len() {
                assert(escaped(text)[i] == head[i]);
            } else {
                assert(escaped(text)[i] == tail[i - head.len()]);
            }
        }
    }
}

/// A loaded skill as the model reads it.
pub open spec fn rendered(skill: LoadedView) -> Seq<char> {
    "<skill name=\""@ + escaped(skill.metadata.name) + "\" scope=\""@ + scope_text(
        skill.metadata.scope,
    ) + "\" path=\""@ + escaped(skill.metadata.path) + "\">\n"@ + middle_cut(
        escaped(skill.body),
        BODY_MAX_CHARS as nat,
    ) + "\n</skill>"@
}

pub fn render_loaded_skill(skill: &LoadedSkill) -> (out: String)
    ensures
        out@ == rendered(skill.deep_view()),
{
    let mut out = concat3(
        "<skill name=\"",
        escape_xml(skill.metadata.name.as_str()).as_str(),
        "\" scope=\"",
    );
    out.push_str(skill.metadata.scope.as_str());
    out.push_str("\" path=\"");
    out.push_str(escape_xml(skill.metadata.path.as_str()).as_str());
    out.push_str("\">\n");
    out.push_str(
        truncate_middle(escape_xml(skill.body.as_str()).as_str(), BODY_MAX_CHARS).as_str(),
    );
    out.push_str("\n</skill>");
    out
}

// ---- Errors ----

#[derive(Debug, PartialEq, Eq)]
pub enum SkillLoadError {
    NotFound(String),
    Stale(String),
    Io(String),
    Invalid(String),
}

#[verifier::ext_equal]
pub enum LoadErrorView {
    NotFound(Seq<char>),
    Stale(Seq<char>),
    Io(Seq<char>),
    Invalid(Seq<char>),
}

impl DeepView for SkillLoadError {
    type V = LoadErrorView;

    open spec fn deep_view(&self) -> LoadErrorView {
        match *self {
            SkillLoadError::NotFound(t) => LoadErrorView::NotFound(t@),
            SkillLoadError::Stale(t) => LoadErrorView::Stale(t@),
            SkillLoadError::Io(t) => LoadErrorView::Io(t@),
            SkillLoadError::Invalid(t) => LoadErrorView::Invalid(t@),
        }
    }
}

pub open spec fn message_of(e: LoadErrorView) -> Seq<char> {
    match e {
        LoadErrorView::NotFound(t) => t,
        LoadErrorView::Stale(t) => t,
        LoadErrorView::Io(t) => t,
        LoadErrorView::Invalid(t) => t,
    }
}

impl SkillLoadError {
    /// The error as it is shown.
    pub fn describe(&self) -> (s: &str)
        ensures
            s@ == message_of(self.deep_view()),
    {
        match self {
            SkillLoadError::NotFound(t) => t.as_str(),
            SkillLoadError::Stale(t) => t.as_str(),
            SkillLoadError::Io(t) => t.as_str(),
            SkillLoadError::Invalid(t) => t.as_str(),
        }
    }
}

// ---- Candidates ----

/// Lower case words and digits with single hyphens between them.
pub open spec fn name_ok(name: Seq<char>) -> bool {
    &&& 1 <= name.len() <= 64
    &&& name[0] != '-'
    &&& name.last() != '-'
    &&& forall|i: int| 0 <= i < name.len() ==> name_char(#[trigger] name[i])
    &&& forall|i: int, j: int|
        0 <= i && j == i + 1 && j < name.len() ==> !(#[trigger] name[i] == '-' && #[trigger] name[j]
            == '-')
}

pub open spec fn name_char(c: char) -> bool {
    ('a' <= c <= 'z') || ('0' <= c <= '9') || c == '-'
}

pub fn valid_name(name: &str) -> (r: bool)
    ensures
        r == name_ok(name@),
{
    let chars = chars_of(name);
    let n: usize = chars.len();
    if n == 0 || n > 64 {
        return false;
    }
    if chars[0] == '-' || chars[n - 1] == '-' {
        return false;
    }
    let mut i: usize = 0;
    while i < n
        invariant
            i <= n == chars@.len() <= 64,
            n > 0,
            chars@ == name@,
            chars@[0] != '-',
            chars@.last() != '-',
            forall|k: int| 0 <= k < i ==> name_char(#[trigger] name@[k]),
            forall|k: int, j: int|
                0 <= k && j == k + 1 && j < i ==> !(#[trigger] name@[k] == '-' && #[trigger] name@[j]
                    == '-'),
        decreases n - i,
    {
        let c = chars[i];
        if !((c >= 'a' && c <= 'z') || (c >= '0' && c <= '9') || c == '-') {
            assert(!name_char(name@[i as int]));
            return false;
        }
        if i > 0 && c == '-' && chars[i - 1] == '-' {
            assert(name@[i - 1] == '-' && name@[i as int] == '-');
            return false;
        }
        i = i + 1;
    }
    true
}

/// A description on one line, of bounded length.
pub open spec fn tidy(description: Seq<char>) -> Seq<char> {
    end_cut(swapped(swapped(cleaned(description), '\n', ' '), '\r', ' '), 1024)
}

/// What a file says of a skill, or why it is none.
pub open spec fn skill_in(path: Seq<char>, scope: SkillScope, bytes: Seq<u8>) -> Result<
    SkillView,
    Seq<char>,
> {
    if bytes.len() > SOURCE_MAX_BYTES {
        Err("文件超过 "@ + dec(SOURCE_MAX_BYTES as nat) + " bytes 上限"@)
    } else if !vstd::utf8::valid_utf8(bytes) {
        Err("不是 UTF-8 文本"@)
    } else {
        match document(vstd::utf8::decode_utf8(bytes)) {
            Err(e) => Err(e),
            Ok((head, _)) => {
                let name = head_text(head, "name"@);
                let description = head_text(head, "description"@);
                if name is None || !name_ok(trimmed(name->0)) {
                    Err("frontmatter.name 缺失或非法"@)
                } else if description is None || trimmed(tidy(description->0)).len() == 0 {
                    Err("frontmatter.description 缺失或为空"@)
                } else {
                    Ok(
                        SkillView {
                            name: trimmed(name->0),
                            description: tidy(description->0),
                            scope,
                            path,
                            content_hash: sha256(bytes),
                        },
                    )
                }
            },
        }
    }
}

pub fn parse_candidate(path: &str, scope: SkillScope, bytes: Vec<u8>) -> (r: Result<
    SkillMetadata,
    String,
>)
    ensures
        match skill_in(path@, scope, bytes@) {
            Ok(skill) => r is Ok && r->Ok_0.deep_view() == skill,
            Err(e) => r is Err && r->Err_0@ == e,
        },
{
    if bytes.len() as u64 > SOURCE_MAX_BYTES {
        return Err(
            concat3("文件超过 ", decimal(SOURCE_MAX_BYTES).as_str(), " bytes 上限"),
        );
    }
    let content_hash = hash_bytes(&bytes);
    let text = match utf8_text(bytes) {
        Some(text) => text,
        None => {
            return Err("不是 UTF-8 文本".to_owned());
        },
    };
    let (head, _) = match parse_document(text.as_str()) {
        Ok(pair) => pair,
        Err(e) => {
            return Err(e);
        },
    };
    let name = match head.get("name") {
        Some(name) => trim(name),
        None => {
            return Err("frontmatter.name 缺失或非法".to_owned());
        },
    };
    if !valid_name(name) {
        return Err("frontmatter.name 缺失或非法".to_owned());
    }
    let description = match head.get("description") {
        Some(d) => ellipsis(
            replace_char(
                replace_char(sanitize(d).as_str(), '\n', ' ').as_str(),
                '\r',
                ' ',
            ).as_str(),
            1024,
        ),
        None => {
            return Err("frontmatter.description 缺失或为空".to_owned());
        },
    };
    if trim(description.as_str()).unicode_len() == 0 {
        return Err("frontmatter.description 缺失或为空".to_owned());
    }
    Ok(
        SkillMetadata {
            name: name.to_owned(),
            description,
            scope,
            path: path.to_owned(),
            content_hash,
        },
    )
}

// ---- The catalog ----

/// The skills that were found at the start.
#[derive(Debug)]
pub struct SkillCatalog {
    pub ordered: Vec<SkillMetadata>,
    /// The directories that were searched.
    pub roots: Vec<String>,
}

#[verifier::ext_equal]
pub struct CatalogView {
    pub ordered: Seq<SkillView>,
    pub roots: Seq<Seq<char>>,
}

impl DeepView for SkillCatalog {
    type V = CatalogView;

    open spec fn deep_view(&self) -> CatalogView {
        CatalogView { ordered: self.ordered.deep_view(), roots: self.roots.deep_view() }
    }
}

/// The first skill of a name.
pub open spec fn skill_named(skills: Seq<SkillView>, name: Seq<char>) -> Option<SkillView>
    decreases skills.len(),
{
    if skills.len() == 0 {
        None
    } else {
        match skill_named(skills.drop_last(), name) {
            Some(skill) => Some(skill),
            None => if skills.last().name == name {
                Some(skills.last())
            } else {
                None
            },
        }
    }
}

proof fn skill_stays(skills: Seq<SkillView>, name: Seq<char>, n: int)
    requires
        0 <= n <= skills.len(),
        skill_named(skills.take(n), name) is Some,
    ensures
        skill_named(skills, name) == skill_named(skills.take(n), name),
    decreases skills.len() - n,
{
    if n < skills.len() {
        take_next(skills, n);
        skill_stays(skills, name, n + 1);
    } else {
        take_all(skills);
    }
}

pub fn find_skill<'a>(skills: &'a Vec<SkillMetadata>, name: &str) -> (r: Option<&'a SkillMetadata>)
    ensures
        r.deep_view() == skill_named(skills.deep_view(), name@),
{
    let ghost all = skills.deep_view();
    let mut i: usize = 0;
    while i < skills.len()
        invariant
            i <= skills@.len(),
            all == skills.deep_view(),
            skill_named(all.take(i as int), name@) is None,
        decreases skills@.len() - i,
    {
        proof {
            take_next(all, i as int);
        }
        if same(skills[i].name.as_str(), name) {
            proof {
                skill_stays(all, name@, i + 1);
            }
            return Some(&skills[i]);
        }
        i = i + 1;
    }
    proof {
        take_all(all);
    }
    None
}

/// A skill's line in the prompt. Without room for descriptions only the name is left.
pub open spec fn prompt_line(skill: SkillView, description_chars: nat) -> Seq<char> {
    if description_chars == 0 {
        "  <skill name=\""@ + escaped(skill.name) + "\" />\n"@
    } else {
        "  <skill name=\""@ + escaped(skill.name) + "\" scope=\""@ + scope_text(skill.scope)
            + "\" path=\""@ + escaped(end_cut(skill.path, 256)) + "\" description=\""@ + escaped(
            end_cut(skill.description, description_chars),
        ) + "\" />\n"@
    }
}

fn write_line(skill: &SkillMetadata, description_chars: usize) -> (line: String)
    ensures
        line@ == prompt_line(skill.deep_view(), description_chars as nat),
{
    let mut line = concat2("  <skill name=\"", escape_xml(skill.name.as_str()).as_str());
    if description_chars == 0 {
        line.push_str("\" />\n");
    } else {
        line.push_str("\" scope=\"");
        line.push_str(skill.scope.as_str());
        line.push_str("\" path=\"");
        line.push_str(escape_xml(ellipsis(skill.path.as_str(), 256).as_str()).as_str());
        line.push_str("\" description=\"");
        line.push_str(
            escape_xml(ellipsis(skill.description.as_str(), description_chars).as_str()).as_str(),
        );
        line.push_str("\" />\n");
    }
    line
}

pub open spec fn prompt_lines(skills: Seq<SkillView>, description_chars: nat) -> Seq<char>
    decreases skills.len(),
{
    if skills.len() == 0 {
        "<available_skills>\n"@
    } else {
        prompt_lines(skills.drop_last(), description_chars) + prompt_line(
            skills.last(),
            description_chars,
        )
    }
}

pub open spec fn prompt_text(skills: Seq<SkillView>, description_chars: nat) -> Seq<char> {
    prompt_lines(skills, description_chars) + "</available_skills>"@
}

/// The catalog in the prompt: with long descriptions if they fit, else with short ones, else with
/// none.
pub open spec fn catalog_text(skills: Seq<SkillView>) -> Seq<char> {
    if skills.len() == 0 {
        seq![]
    } else if prompt_text(skills, 512).len() <= CATALOG_MAX_CHARS {
        prompt_text(skills, 512)
    } else if prompt_text(skills, 96).len() <= CATALOG_MAX_CHARS {
        prompt_text(skills, 96)
    } else {
        prompt_text(skills, 0)
    }
}

fn write_prompt(skills: &Vec<SkillMetadata>, description_chars: usize) -> (out: String)
    ensures
        out@ == prompt_text(skills.deep_view(), description_chars as nat),
{
    let ghost all = skills.deep_view();
    let mut out = "<available_skills>\n".to_owned();
    let mut i: usize = 0;
    while i < skills.len()
        invariant
            i <= skills@.len(),
            all == skills.deep_view(),
            out@ == prompt_lines(all.take(i as int), description_chars as nat),
        decreases skills@.len() - i,
    {
        proof {
            take_next(all, i as int);
        }
        out.push_str(write_line(&skills[i], description_chars).as_str());
        i = i + 1;
    }
    proof {
        take_all(all);
    }
    out.push_str("</available_skills>");
    out
}

/// Whether a path is a root or below it, part by part.
pub open spec fn inside(style: PathStyle, path: Seq<char>, root: Seq<char>) -> bool {
    let p = parts_of(style, path);
    let r = parts_of(style, root);
    r.len() <= p.len() && p.take(r.len() as int) == r
}

fn same_part(a: &Part, b: &Part) -> (r: bool)
    ensures
        r == (a.deep_view() == b.deep_view()),
{
    match (a, b) {
        (Part::Prefix(x), Part::Prefix(y)) => same(x.as_str(), y.as_str()),
        (Part::RootDir, Part::RootDir) => true,
        (Part::CurDir, Part::CurDir) => true,
        (Part::ParentDir, Part::ParentDir) => true,
        (Part::Normal(x), Part::Normal(y)) => same(x.as_str(), y.as_str()),
        _ => false,
    }
}

pub fn is_inside(style: PathStyle, path: &str, root: &str) -> (r: bool)
    ensures
        r == inside(style, path@, root@),
{
    let p = components(style, path);
    let q = components(style, root);
    let ghost pv = p.deep_view();
    let ghost qv = q.deep_view();
    if p.len() < q.len() {
        return false;
    }
    let mut i: usize = 0;
    while i < q.len()
        invariant
            i <= q@.len() <= p@.len(),
            pv == p.deep_view(),
            qv == q.deep_view(),
            pv == parts_of(style, path@),
            qv == parts_of(style, root@),
            pv.take(i as int) == qv.take(i as int),
        decreases q@.len() - i,
    {
        proof {
            take_next(pv, i as int);
            take_next(qv, i as int);
        }
        if !same_part(&p[i], &q[i]) {
            proof {
                if pv.take(qv.len() as int) == qv {
                    assert(pv.take(qv.len() as int)[i as int] == pv[i as int]);
                }
            }
            return false;
        }
        assert(pv.take(i + 1) =~= qv.take(i + 1));
        i = i + 1;
    }
    proof {
        take_all(qv);
    }
    true
}

pub open spec fn inside_any(style: PathStyle, path: Seq<char>, roots: Seq<Seq<char>>) -> bool {
    exists|i: int| 0 <= i < roots.len() && inside(style, path, #[trigger] roots[i])
}

/// Where a skill's file may be read from, given where its path leads now.
pub open spec fn located(
    catalog: CatalogView,
    style: PathStyle,
    name: Seq<char>,
    canonical: Result<Seq<char>, Seq<char>>,
) -> Result<SkillView, LoadErrorView> {
    match skill_named(catalog.ordered, name) {
        None => Err(
            LoadErrorView::NotFound(
                "技能 "@ + quoted_text(name) + " 不在启动时发现的 catalog 中"@,
            ),
        ),
        Some(skill) => match canonical {
            Err(e) => Err(
                LoadErrorView::Stale("技能 "@ + quoted_text(name) + " 文件已消失: "@ + e),
            ),
            Ok(path) => if path != skill.path || !inside_any(style, path, catalog.roots) {
                Err(
                    LoadErrorView::Stale(
                        "技能 "@ + quoted_text(name) + " 路径已脱离启动时批准的目录"@,
                    ),
                )
            } else {
                Ok(skill)
            },
        },
    }
}

/// What a skill's file loads as, given what was read from it.
pub open spec fn loaded(skill: SkillView, name: Seq<char>, bytes: Result<Seq<u8>, Seq<char>>) -> Result<
    LoadedView,
    LoadErrorView,
> {
    let lead = "技能 "@ + quoted_text(name);
    match bytes {
        Err(e) => Err(LoadErrorView::Io("读取技能 "@ + quoted_text(name) + " 失败: "@ + e)),
        Ok(bytes) => if bytes.len() > SOURCE_MAX_BYTES {
            Err(
                LoadErrorView::Invalid(
                    lead + " 文件超过 "@ + dec(SOURCE_MAX_BYTES as nat) + " bytes 上限"@,
                ),
            )
        } else if sha256(bytes) != skill.content_hash {
            Err(LoadErrorView::Stale(lead + " 内容已变化，请重新启动会话"@))
        } else if !vstd::utf8::valid_utf8(bytes) {
            Err(LoadErrorView::Invalid(lead + " 不是 UTF-8 文本"@))
        } else {
            match document(vstd::utf8::decode_utf8(bytes)) {
                Err(e) => Err(LoadErrorView::Invalid(lead + ": "@ + e)),
                Ok((_, body)) => Ok(LoadedView { metadata: skill, body }),
            }
        },
    }
}

fn about(name: &str, rest: &str) -> (s: String)
    ensures
        s@ == "技能 "@ + quoted_text(name@) + rest@,
{
    concat3("技能 ", quoted(name).as_str(), rest)
}

pub open spec fn place_view(canonical: Result<String, String>) -> Result<Seq<char>, Seq<char>> {
    match canonical {
        Ok(path) => Ok(path@),
        Err(e) => Err(e@),
    }
}

pub open spec fn bytes_view(bytes: Result<Vec<u8>, String>) -> Result<Seq<u8>, Seq<char>> {
    match bytes {
        Ok(bytes) => Ok(bytes@),
        Err(e) => Err(e@),
    }
}

impl SkillCatalog {
    pub fn empty() -> (c: SkillCatalog)
        ensures
            c.deep_view() == (CatalogView { ordered: seq![], roots: seq![] }),
    {
        SkillCatalog { ordered: empty(), roots: empty() }
    }

    pub fn get(&self, name: &str) -> (r: Option<&SkillMetadata>)
        ensures
            r.deep_view() == skill_named(self.deep_view().ordered, name@),
    {
        find_skill(&self.ordered, name)
    }

    pub fn render_prompt(&self) -> (out: String)
        ensures
            out@ == catalog_text(self.deep_view().ordered),
    {
        if self.ordered.len() == 0 {
            return String::new();
        }
        let long = write_prompt(&self.ordered, 512);
        if long.as_str().unicode_len() <= CATALOG_MAX_CHARS {
            return long;
        }
        let short = write_prompt(&self.ordered, 96);
        if short.as_str().unicode_len() <= CATALOG_MAX_CHARS {
            return short;
        }
        write_prompt(&self.ordered, 0)
    }

    /// Decides whether a skill may be read; `canonical` is where its path leads now.
    pub fn locate(&self, style: PathStyle, name: &str, canonical: Result<String, String>) -> (r: Result<
        &SkillMetadata,
        SkillLoadError,
    >)
        ensures
            match located(self.deep_view(), style, name@, place_view(canonical)) {
                Ok(skill) => r is Ok && r->Ok_0.deep_view() == skill,
                Err(e) => r is Err && r->Err_0.deep_view() == e,
            },
    {
        let skill = match self.get(name) {
            Some(skill) => skill,
            None => {
                return Err(
                    SkillLoadError::NotFound(about(name, " 不在启动时发现的 catalog 中")),
                );
            },
        };
        let path = match canonical {
            Ok(path) => path,
            Err(e) => {
                let mut text = about(name, " 文件已消失: ");
                text.push_str(e.as_str());
                return Err(SkillLoadError::Stale(text));
            },
        };
        let mut found = false;
        let mut i: usize = 0;
        while i < self.roots.len()
            invariant
                i <= self.roots@.len(),
                found <==> exists|k: int|
                    0 <= k < i && inside(style, path@, #[trigger] self.roots.deep_view()[k]),
            decreases self.roots@.len() - i,
        {
            if is_inside(style, path.as_str(), self.roots[i].as_str()) {
                assert(inside(style, path@, self.roots.deep_view()[i as int]));
                found = true;
            }
            i = i + 1;
        }
        if !same(path.as_str(), skill.path.as_str()) || !found {
            return Err(SkillLoadError::Stale(about(name, " 路径已脱离启动时批准的目录")));
        }
        Ok(skill)
    }

    /// Loads a skill out of what was read from its file.
    pub fn load(&self, skill: &SkillMetadata, name: &str, bytes: Result<Vec<u8>, String>) -> (r: Result<
        LoadedSkill,
        SkillLoadError,
    >)
        ensures
            match loaded(skill.deep_view(), name@, bytes_view(bytes)) {
                Ok(l) => r is Ok && r->Ok_0.deep_view() == l,
                Err(e) => r is Err && r->Err_0.deep_view() == e,
            },
    {
        let bytes = match bytes {
            Ok(bytes) => bytes,
            Err(e) => {
                let mut text = concat3("读取技能 ", quoted(name).as_str(), " 失败: ");
                text.push_str(e.as_str());
                return Err(SkillLoadError::Io(text));
            },
        };
        if bytes.len() as u64 > SOURCE_MAX_BYTES {
            let mut text = about(name, " 文件超过 ");
            text.push_str(decimal(SOURCE_MAX_BYTES).as_str());
            text.push_str(" bytes 上限");
            return Err(SkillLoadError::Invalid(text));
        }
        if !same_hash(&hash_bytes(&bytes), &skill.content_hash) {
            return Err(SkillLoadError::Stale(about(name, " 内容已变化，请重新启动会话")));
        }
        let text = match utf8_text(bytes) {
            Some(text) => text,
            None => {
                return Err(SkillLoadError::Invalid(about(name, " 不是 UTF-8 文本")));
            },
        };
        match parse_document(text.as_str()) {
            Ok((_, body)) => Ok(LoadedSkill { metadata: skill.clone(), body }),
            Err(e) => {
                let mut text = about(name, ": ");
                text.push_str(e.as_str());
                Err(SkillLoadError::Invalid(text))
            },
        }
    }

    pub fn names(&self) -> (out: Vec<&str>)
        ensures
            out.deep_view() == Seq::new(
                self.deep_view().ordered.len(),
                |i: int| self.deep_view().ordered[i].name,
            ),
    {
        let mut out: Vec<&str> = Vec::new();
        let mut i: usize = 0;
        while i < self.ordered.len()
            invariant
                i <= self.ordered@.len(),
                out@.len() == i,
                forall|k: int| 0 <= k < i ==> (#[trigger] out@[k])@ == self.ordered@[k].name@,
            decreases self.ordered@.len() - i,
        {
            out.push(self.ordered[i].name.as_str());
            i = i + 1;
        }
        proof {
            assert(out.deep_view() =~= Seq::new(
                self.deep_view().ordered.len(),
                |i: int| self.deep_view().ordered[i].name,
            ));
        }
        out
    }
}

/// A skill loads only if its file holds exactly what it held at the start.
pub proof fn law_changed_skills_do_not_load(
    skill: SkillView,
    name: Seq<char>,
    bytes: Seq<u8>,
)
    requires
        sha256(bytes) != skill.content_hash,
    ensures
        loaded(skill, name, Ok(bytes)) is Err,
{
}

/// What was accepted as a skill loads again as long as its file stays as it was.
pub proof fn law_unchanged_skills_load(path: Seq<char>, scope: SkillScope, bytes: Seq<u8>, name: Seq<char>)
    requires
        skill_in(path, scope, bytes) is Ok,
    ensures
        loaded(skill_in(path, scope, bytes)->Ok_0, name, Ok(bytes)) is Ok,
{
}

proof fn names_need_no_escapes(name: Seq<char>)
    requires
        forall|i: int| 0 <= i < name.len() ==> name_char(#[trigger] name[i]),
    ensures
        escaped(name).len() == name.len(),
    decreases name.len(),
{
    if name.len() > 0 {
        let rest = name.drop_last();
        assert forall|i: int| 0 <= i < rest.len() implies name_char(#[trigger] rest[i]) by {
            assert(rest[i] == name[i]);
        }
        names_need_no_escapes(rest);
        assert(name_char(name[name.len() - 1]));
    }
}

proof fn name_lines_are_short(skills: Seq<SkillView>)
    requires
        forall|i: int| 0 <= i < skills.len() ==> name_ok((#[trigger] skills[i]).name),
    ensures
        prompt_lines(skills, 0).len() <= 19 + 84 * skills.len(),
    decreases skills.len(),
{
    reveal_strlit("<available_skills>\n");
    reveal_strlit("  <skill name=\"");
    reveal_strlit("\" />\n");
    if skills.len() > 0 {
        let rest = skills.drop_last();
        assert forall|i: int| 0 <= i < rest.len() implies name_ok((#[trigger] rest[i]).name) by {
            assert(rest[i] == skills[i]);
        }
        name_lines_are_short(rest);
        assert(name_ok(skills[skills.len() - 1].name));
        names_need_no_escapes(skills.last().name);
    }
}

/// The catalog in the prompt never takes more room than it may, however long the descriptions are.
pub proof fn law_the_catalog_is_bounded(skills: Seq<SkillView>)
    requires
        skills.len() <= MAX_SKILLS,
        forall|i: int| 0 <= i < skills.len() ==> name_ok((#[trigger] skills[i]).name),
    ensures
        catalog_text(skills).len() <= CATALOG_MAX_CHARS,
{
    name_lines_are_short(skills);
    reveal_strlit("</available_skills>");
}

} // verus!
