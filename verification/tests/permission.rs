use onemore::json::Json;
use onemore::nearest::{Nearest, Probe};
use onemore::permission::{
    assess_path, hard_deny_path, path_starts_with, paths_to_locate, Located, PermissionDecision,
    PermissionManager, PermissionRule, PermissionRules, Places,
};
use onemore::tools::{
    PreparedToolCall, Tool, ToolCapabilities, ToolContext, ToolError, ToolOutput,
    ToolPermissionSpec, ToolRegistry, ToolSpec,
};
use onemore::workspace::{PathStyle, Workspace};

struct PolicyTool {
    capabilities: ToolCapabilities,
    permission: ToolPermissionSpec,
}

impl Tool for PolicyTool {
    fn spec(&self) -> ToolSpec {
        ToolSpec {
            name: "policy_test".to_string(),
            description: "policy test".to_string(),
            schema: Json::parse("{\"type\": \"object\"}").unwrap(),
            capabilities: self.capabilities,
            permission: self.permission.clone(),
        }
    }

    fn execute(&self, _args: &Json, _ctx: &mut ToolContext<'_>) -> Result<ToolOutput, ToolError> {
        unreachable!()
    }
}

fn prepared(
    capabilities: ToolCapabilities,
    permission: ToolPermissionSpec,
    args: &str,
) -> PreparedToolCall {
    ToolRegistry::new(vec![PolicyTool {
        capabilities,
        permission,
    }])
    .prepare("policy_test", &Json::parse(args).unwrap())
    .unwrap()
}

fn at(root: &str, path: &str) -> Places {
    Places {
        root: Located::Path(root.to_string()),
        paths: vec![Located::Path(path.to_string())],
    }
}

#[test]
fn default_rules_allow_workspace_files_and_ask_for_opaque_or_external() {
    let workspace = Workspace::new("/root".to_string());
    let manager = PermissionManager::new(PermissionRules::default());

    let read = prepared(
        ToolCapabilities::read_only(),
        ToolPermissionSpec::paths(&["path"]),
        "{\"path\": \"inside.txt\"}",
    );
    assert_eq!(
        manager.evaluate(&read, &workspace, &at("/root", "/root/inside.txt")),
        PermissionDecision::Allow
    );

    let write = prepared(
        ToolCapabilities::mutation(),
        ToolPermissionSpec::paths(&["path"]),
        "{\"path\": \"inside.txt\"}",
    );
    assert_eq!(
        manager.evaluate(&write, &workspace, &at("/root", "/root/inside.txt")),
        PermissionDecision::Allow
    );

    let external = prepared(
        ToolCapabilities::read_only(),
        ToolPermissionSpec::paths(&["path"]),
        "{\"path\": \"/outside/file.txt\"}",
    );
    assert!(matches!(
        manager.evaluate(&external, &workspace, &at("/root", "/outside/file.txt")),
        PermissionDecision::Ask { .. }
    ));

    let command = prepared(
        ToolCapabilities::command(),
        ToolPermissionSpec::opaque_side_effect(&[]),
        "{}",
    );
    assert!(matches!(
        manager.evaluate(&command, &workspace, &at("/root", "/root")),
        PermissionDecision::Ask { .. }
    ));
}

#[test]
fn exact_session_grant_does_not_authorize_different_arguments() {
    let workspace = Workspace::new("/root".to_string());
    let places = at("/root", "/root");
    let mut manager = PermissionManager::new(PermissionRules::default());
    let first = prepared(
        ToolCapabilities::command(),
        ToolPermissionSpec::opaque_side_effect(&[]),
        "{\"path\": \"one\"}",
    );
    let second = prepared(
        ToolCapabilities::command(),
        ToolPermissionSpec::opaque_side_effect(&[]),
        "{\"path\": \"two\"}",
    );
    manager.remember_session_grant(&first);
    assert_eq!(
        manager.evaluate(&first, &workspace, &places),
        PermissionDecision::Allow
    );
    assert!(matches!(
        manager.evaluate(&second, &workspace, &places),
        PermissionDecision::Ask { .. }
    ));
    manager.clear_session_grants();
    assert!(matches!(
        manager.evaluate(&first, &workspace, &places),
        PermissionDecision::Ask { .. }
    ));
}

/// A file system in which `/root/escape` is a link to `/outside`.
fn locate(path: &str) -> Located {
    let mut search = Nearest::new(PathStyle::Posix, path);
    loop {
        let probe = match search.look().as_str() {
            "/root/escape" => Probe::Found("/outside".to_string()),
            known @ ("/" | "/root" | "/outside") => Probe::Found(known.to_string()),
            "/root/locked" => Probe::Failed("denied".to_string()),
            _ => Probe::Missing("not found".to_string()),
        };
        if let Some(located) = search.answer(probe) {
            return located;
        }
    }
}

#[test]
fn nonexistent_target_uses_canonical_existing_parent() {
    let workspace = Workspace::new("/root".to_string());
    let assessment = assess_path(
        &workspace,
        "escape/new/file.txt",
        &locate(&workspace.resolve("escape/new/file.txt")),
        &locate("/root"),
    )
    .unwrap();
    assert!(!assessment.within_workspace);
    assert!(path_starts_with(
        PathStyle::Posix,
        &assessment.canonical,
        "/outside"
    ));
    assert_eq!(assessment.canonical, "/outside/new/file.txt");
    assert_eq!(assessment.requested, "/root/escape/new/file.txt");
}

#[test]
fn searches_stop_at_other_errors_and_at_the_top() {
    assert!(matches!(
        locate("/root/locked/x"),
        Located::Failed(e) if e == "denied"
    ));
    assert!(matches!(locate("relative/x"), Located::Failed(e) if e == "not found"));
    assert!(matches!(locate("/a/b"), Located::Path(p) if p == "/a/b"));
}

#[test]
fn windows_device_paths_are_hard_denied() {
    let workspace = Workspace::new(r"E:\proj".to_string());
    let root = Located::Path(r"E:\proj".to_string());
    let place = Located::Path(r"E:\proj\x".to_string());
    assert!(assess_path(&workspace, r"\\.\PhysicalDrive0", &place, &root).is_err());
    assert!(assess_path(&workspace, "NUL.txt", &place, &root).is_err());
    assert!(hard_deny_path(PathStyle::Windows, "fine.txt").is_none());
    assert!(hard_deny_path(PathStyle::Posix, "NUL.txt").is_none());
}

#[test]
fn paths_that_cannot_be_located_are_denied() {
    let workspace = Workspace::new("/root".to_string());
    let root = Located::Path("/root".to_string());
    let failed = Located::Failed("gone".to_string());
    assert!(assess_path(&workspace, "a", &failed, &root).is_err());
    assert!(assess_path(&workspace, "a", &root, &failed).is_err());
}

#[test]
fn the_strictest_rule_wins() {
    let workspace = Workspace::new("/root".to_string());
    let manager = PermissionManager::new(PermissionRules {
        outside_workspace: PermissionRule::Deny,
        ..PermissionRules::default()
    });
    let command = prepared(
        ToolCapabilities::command(),
        ToolPermissionSpec::opaque_side_effect(&["path"]),
        "{\"path\": \"/outside\"}",
    );
    assert!(matches!(
        manager.evaluate(&command, &workspace, &at("/root", "/outside")),
        PermissionDecision::Deny { .. }
    ));
}

#[test]
fn declared_paths_are_located_below_the_root() {
    let workspace = Workspace::new("/root".to_string());
    let call = prepared(
        ToolCapabilities::read_only(),
        ToolPermissionSpec::paths(&["path", "other"]),
        "{\"path\": \"a/../b\"}",
    );
    assert_eq!(paths_to_locate(&call, &workspace), ["/root/b", "/root"]);
}
