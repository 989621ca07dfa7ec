use std::sync::Arc;

use onemore::context::skills::SkillsContext;
use onemore::context::{ContextProvider, PromptContext};
use onemore::json::Json;
use onemore::skills::document::parse_document;
use onemore::skills::scan::{discover, sort_paths, DiscoveryReport, EntryKind, Scan, Visit};
use onemore::skills::{escape_xml, valid_name, LoadedSkill, SkillLoadError, SkillScope};
use onemore::tools::load_skill::LoadSkill;
use onemore::tools::{ToolError, ToolOutput};
use onemore::workspace::{PathStyle, Workspace};

type Files = Vec<(String, Vec<u8>)>;

fn skill(root: &str, dir: &str, name: &str, description: &str, body: &str) -> (String, Vec<u8>) {
    (
        format!("{}/{}/SKILL.md", root, dir),
        format!(
            "---\nname: {}\ndescription: {}\n---\n{}",
            name, description, body
        )
        .into_bytes(),
    )
}

/// Walks a tree of files below two roots, as a file system would list it.
fn found(repo: (&str, &Files), user: (&str, &Files)) -> DiscoveryReport {
    let mut scan = Scan::new();
    for (scope, (root, files)) in [(SkillScope::Repo, repo), (SkillScope::User, user)] {
        scan.begin_root();
        for (path, bytes) in files {
            let dir = path.strip_suffix("/SKILL.md").unwrap();
            assert!(scan.looks_at(root));
            let name = dir.rsplit('/').next().unwrap();
            assert_eq!(scan.inspect(dir, EntryKind::Dir, name), Visit::Descend);
            assert!(scan.enters(1));
            assert!(scan.looks_at(dir));
            assert_eq!(
                scan.inspect(path, EntryKind::File, "SKILL.md"),
                Visit::Examine
            );
            assert!(scan.follow(PathStyle::Posix, root, path, &Ok(path.clone())));
            scan.take(path, scope, Ok(bytes.clone()));
        }
    }
    discover(
        scan,
        PathStyle::Posix,
        vec![repo.0.to_string(), user.0.to_string()],
    )
}

fn only(repo: &str, files: &Files) -> DiscoveryReport {
    found((repo, files), ("/missing", &Vec::new()))
}

fn load(
    report: &DiscoveryReport,
    name: &str,
    files: &Files,
) -> Result<LoadedSkill, SkillLoadError> {
    let path = report.catalog.get(name).map(|s| s.path.clone());
    let place = path.ok_or("none".to_string());
    let skill = report.catalog.locate(PathStyle::Posix, name, place)?;
    let bytes = files.iter().find(|f| f.0 == skill.path).unwrap().1.clone();
    report.catalog.load(skill, name, Ok(bytes))
}

#[test]
fn discovery_is_stable_and_repo_wins_same_name() {
    let user = vec![
        skill("/user", "shared", "shared", "user", "user"),
        skill("/user", "zeta", "zeta", "user", "user"),
    ];
    let repo = vec![
        skill("/repo", "shared", "shared", "repo", "repo"),
        skill("/repo", "alpha", "alpha", "a", "a"),
    ];
    let report = found(("/repo", &repo), ("/user", &user));
    assert_eq!(report.catalog.names(), vec!["alpha", "shared", "zeta"]);
    assert_eq!(
        report.catalog.get("shared").unwrap().scope,
        SkillScope::Repo
    );
    assert!(report
        .warnings
        .iter()
        .any(|warning| warning.contains("同名冲突")));
}

#[test]
fn malformed_or_unsafe_skills_only_warn() {
    let repo = vec![
        (
            "/repo/bad/SKILL.md".to_string(),
            b"not frontmatter".to_vec(),
        ),
        skill("/repo", "unsafe", "Bad_Name", "bad", "body"),
    ];
    let report = only("/repo", &repo);
    assert!(report.catalog.names().is_empty());
    assert_eq!(report.warnings.len(), 2);
}

#[test]
fn load_rejects_hash_changes_and_escapes_body() {
    let repo = vec![skill("/repo", "demo", "demo", "desc", "<tag>&\nbody")];
    let report = only("/repo", &repo);
    let loaded = load(&report, "demo", &repo).unwrap();
    assert!(loaded.body.contains("<tag>"));
    let changed = vec![skill("/repo", "demo", "demo", "desc", "changed")];
    assert!(matches!(
        load(&report, "demo", &changed),
        Err(SkillLoadError::Stale(_))
    ));
}

#[test]
fn catalog_prompt_escapes_untrusted_metadata() {
    let repo = vec![skill("/repo", "demo", "demo", "a & b", "body")];
    let prompt = only("/repo", &repo).catalog.render_prompt();
    assert!(prompt.contains("a &amp; b"));
}

fn run(tool: &LoadSkill, args: &str, files: &Files) -> Result<ToolOutput, ToolError> {
    let args = Json::parse(args).unwrap();
    let name = tool.request(&args)?;
    let place = match tool.catalog.get(name) {
        Some(skill) => Ok(skill.path.clone()),
        None => Err("none".to_string()),
    };
    let loaded = match tool.catalog.locate(PathStyle::Posix, name, place) {
        Ok(skill) => {
            let bytes = files.iter().find(|f| f.0 == skill.path).unwrap().1.clone();
            tool.catalog.load(skill, name, Ok(bytes))
        }
        Err(error) => Err(error),
    };
    tool.conclude(loaded)
}

#[test]
fn loads_only_a_catalog_name_and_returns_bounded_marked_content() {
    let files = vec![skill("/root", "demo", "demo", "demo skill", "<script>&")];
    let tool = LoadSkill::new(Arc::new(only("/root", &files).catalog));
    let output = run(&tool, "{\"name\": \"demo\"}", &files).unwrap();
    assert!(output.model_text.contains("&lt;script&gt;&amp;"));
    assert!(run(&tool, "{\"name\": \"../demo/SKILL.md\"}", &files).is_err());
}

#[test]
fn catalog_is_a_stable_system_section_without_skill_bodies() {
    let files = vec![skill("/root", "demo", "demo", "demo skill", "SECRET BODY")];
    let provider = SkillsContext::new(Arc::new(only("/root", &files).catalog));
    let mut prompt = PromptContext::default();
    provider.contribute(&mut prompt, &Workspace::new("/root".to_string()));
    let text = prompt.system_text();
    assert!(text.contains("name=\"demo\""));
    assert!(!text.contains("SECRET BODY"));
}

#[test]
fn skills_that_moved_are_stale() {
    let repo = vec![skill("/repo", "demo", "demo", "desc", "body")];
    let report = only("/repo", &repo);
    let at = |place: Result<String, String>| {
        report
            .catalog
            .locate(PathStyle::Posix, "demo", place)
            .map(|_| ())
    };
    assert!(matches!(
        at(Err("gone".to_string())),
        Err(SkillLoadError::Stale(_))
    ));
    assert!(matches!(
        at(Ok("/elsewhere/SKILL.md".to_string())),
        Err(SkillLoadError::Stale(_))
    ));
    assert!(at(Ok("/repo/demo/SKILL.md".to_string())).is_ok());
    let skill = report.catalog.get("demo").unwrap();
    assert!(matches!(
        report.catalog.load(skill, "demo", Err("locked".to_string())),
        Err(SkillLoadError::Io(_))
    ));
    assert!(matches!(
        report
            .catalog
            .load(skill, "demo", Ok(vec![b'x'; 2_000_000])),
        Err(SkillLoadError::Invalid(_))
    ));
    assert!(matches!(
        load(&report, "gone", &repo),
        Err(SkillLoadError::NotFound(_))
    ));
}

#[test]
fn names_and_texts_are_checked() {
    assert!(valid_name("a-1"));
    for name in ["", "-a", "a-", "a--b", "A", "ü"] {
        assert!(!valid_name(name), "{}", name);
    }
    assert!(valid_name(&"a".repeat(64)));
    assert!(!valid_name(&"a".repeat(65)));
    assert_eq!(escape_xml("<a \"b\" 'c' &>"), "&lt;a &quot;b&quot; &apos;c&apos; &amp;&gt;");
    let (head, body) = parse_document("---\nname: x\n---\nbody").unwrap();
    assert_eq!(head.get("name"), Some("x"));
    assert_eq!(body, "body");
    assert!(parse_document("---\nname: x\n").is_err());
    assert!(parse_document("---\n- a\n---\n").is_err());
}

#[test]
fn files_that_hash_alike_have_one_known_hash() {
    let repo = vec![(
        "/repo/demo/SKILL.md".to_string(),
        b"---\nname: demo\ndescription: d\n---\n".to_vec(),
    )];
    let report = only("/repo", &repo);
    let hash = report.catalog.get("demo").unwrap().content_hash;
    assert_eq!(hash[..4], [0xee, 0x31, 0xc2, 0x92]);
    assert_eq!(hash[28..], [0xe4, 0x18, 0x8b, 0xea]);
}

#[test]
fn entries_are_looked_at_by_name() {
    let paths = ["/s/zeta", "/s/alpha/x", "/s/alpha"];
    let sorted = sort_paths(PathStyle::Posix, paths.iter().map(|p| p.to_string()).collect());
    assert_eq!(sorted, ["/s/alpha", "/s/alpha/x", "/s/zeta"]);
}

#[test]
fn large_catalogs_stay_bounded() {
    let long = "a & ".repeat(200);
    let repo: Files = (0..256)
        .map(|i| {
            let name = format!("{}-{:03}", "n".repeat(60), i);
            skill("/repo", &name, &name, long.trim(), "body")
        })
        .collect();
    let report = only("/repo", &repo);
    assert_eq!(report.catalog.names().len(), 256);
    let prompt = report.catalog.render_prompt();
    assert!(prompt.chars().count() <= 24_000);
}
