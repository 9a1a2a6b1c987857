use project_launcher::config::{
    default_app_config, resolve_app_config, validate_app_config, workspace_id_from_millis, AppConfig, Project,
    Workspace,
};
use project_launcher::paths::{DirProbe, Os};
use project_launcher::scan::{
    entry_action, parse_package_json, project_from_entry, project_name_from_path, scan_depth_allowed,
    scan_project, scripts_from_entries, EntryAction, ProjectProbe, SCAN_MAX_DEPTH,
};

fn ws(id: &str, name: &str) -> Workspace {
    Workspace { id: id.to_string(), name: name.to_string(), projects: Vec::new() }
}

#[test]
fn default_config_has_one_active_workspace() {
    let c = default_app_config();
    assert_eq!(c.active_workspace_id, "ws_default");
    assert_eq!(c.workspaces.len(), 1);
    assert_eq!(c.workspaces[0].id, "ws_default");
    assert_eq!(c.workspaces[0].name, "默认");
    assert!(c.workspaces[0].projects.is_empty());
}

#[test]
fn default_config_may_be_saved() {
    assert_eq!(validate_app_config(&default_app_config()), Ok(()));
}

#[test]
fn save_needs_a_workspace() {
    let c = AppConfig { active_workspace_id: "a".to_string(), workspaces: Vec::new() };
    assert_eq!(validate_app_config(&c), Err("至少需要一个工作区".to_string()));
}

#[test]
fn save_needs_the_active_workspace() {
    let c = AppConfig { active_workspace_id: "b".to_string(), workspaces: vec![ws("a", "A")] };
    assert_eq!(validate_app_config(&c), Err("activeWorkspaceId 不存在".to_string()));
    let c = AppConfig { active_workspace_id: "b".to_string(), workspaces: vec![ws("a", "A"), ws("b", "B")] };
    assert_eq!(validate_app_config(&c), Ok(()));
}

#[test]
fn stored_config_is_used_as_is() {
    let c = AppConfig { active_workspace_id: "b".to_string(), workspaces: vec![ws("a", "A"), ws("b", "B")] };
    let (r, migrated) = resolve_app_config(Some(c), None);
    assert!(!migrated);
    assert_eq!(r.active_workspace_id, "b");
    assert_eq!(r.workspaces.len(), 2);
    assert_eq!(r.workspaces[1].name, "B");
}

#[test]
fn legacy_projects_move_into_the_default_workspace() {
    let p = Project { name: "app".to_string(), path: "/w/app".to_string(), scripts: vec![] };
    let empty = AppConfig { active_workspace_id: "x".to_string(), workspaces: Vec::new() };
    let (r, migrated) = resolve_app_config(Some(empty), Some(vec![p]));
    assert!(migrated);
    assert_eq!(r.active_workspace_id, "ws_default");
    assert_eq!(r.workspaces[0].projects.len(), 1);
    assert_eq!(r.workspaces[0].projects[0].path, "/w/app");
    let (r, migrated) = resolve_app_config(None, None);
    assert!(migrated);
    assert!(r.workspaces[0].projects.is_empty());
}

#[test]
fn workspace_ids() {
    assert_eq!(workspace_id_from_millis(Some(1700000000123)), "ws_1700000000123");
    assert_eq!(workspace_id_from_millis(None), "ws_0");
    assert_eq!(workspace_id_from_millis(Some(7)), "ws_7");
}

#[test]
fn package_json_scripts() {
    let s = parse_package_json(r#"{"name":"x","scripts":{"dev":"vite","build":"vite build"}}"#).unwrap();
    assert_eq!(s.len(), 2);
    assert!(s.contains(&("dev".to_string(), "vite".to_string())));
    assert!(s.contains(&("build".to_string(), "vite build".to_string())));
}

#[test]
fn package_json_non_string_command_is_empty() {
    let s = parse_package_json(r#"{"scripts":{"odd":3}}"#).unwrap();
    assert_eq!(s, vec![("odd".to_string(), "".to_string())]);
}

#[test]
fn package_json_without_scripts() {
    assert_eq!(parse_package_json(r#"{"name":"x"}"#), None);
    assert_eq!(parse_package_json(r#"{"scripts":[1]}"#), None);
    assert_eq!(parse_package_json("not json"), None);
}

#[test]
fn script_entries_default_to_empty_command() {
    let r = scripts_from_entries(vec![("a".to_string(), Some("x".to_string())), ("b".to_string(), None)]);
    assert_eq!(r, vec![("a".to_string(), "x".to_string()), ("b".to_string(), "".to_string())]);
}

#[test]
fn project_names() {
    assert_eq!(project_name_from_path(Some("app")), "app");
    assert_eq!(project_name_from_path(None), "unknown");
}

fn good_dir(canonical: &str) -> DirProbe {
    DirProbe { is_dir: true, canonical: Ok(canonical.to_string()), canonical_is_dir: true }
}

#[test]
fn scan_project_outcomes() {
    let no_pkg = ProjectProbe { dir: good_dir("/w/app"), has_package_json: false, dir_name: Some("app".to_string()), package_json: None };
    assert!(matches!(scan_project("/w/app", &no_pkg, Os::Linux), Ok(None)));
    let bad = ProjectProbe {
        dir: good_dir("/w/app"),
        has_package_json: true,
        dir_name: Some("app".to_string()),
        package_json: Some("{}".to_string()),
    };
    match scan_project("/w/app", &bad, Os::Linux) {
        Err(e) => assert_eq!(e, "package.json 存在但无法解析 scripts"),
        Ok(_) => panic!("expected an error"),
    }
    let good = ProjectProbe {
        dir: good_dir(r"\\?\C:\w\app"),
        has_package_json: true,
        dir_name: Some("app".to_string()),
        package_json: Some(r#"{"scripts":{"dev":"vite"}}"#.to_string()),
    };
    match scan_project(r"C:\w\app", &good, Os::Windows) {
        Ok(Some(p)) => {
            assert_eq!(p.name, "app");
            assert_eq!(p.path, r"C:\w\app");
            assert_eq!(p.scripts, vec![("dev".to_string(), "vite".to_string())]);
        }
        _ => panic!("expected a project"),
    }
    let not_dir = ProjectProbe {
        dir: DirProbe { is_dir: false, canonical: Ok("/x".to_string()), canonical_is_dir: true },
        has_package_json: true,
        dir_name: None,
        package_json: None,
    };
    match scan_project("/x", &not_dir, Os::Linux) {
        Err(e) => assert_eq!(e, "路径不是有效目录"),
        Ok(_) => panic!("expected an error"),
    }
}

#[test]
fn scan_entry_decisions() {
    assert_eq!(entry_action(Some("node_modules"), true), EntryAction::Skip);
    assert_eq!(entry_action(Some(".git"), false), EntryAction::Skip);
    assert_eq!(entry_action(Some("web"), true), EntryAction::Project);
    assert_eq!(entry_action(Some("libs"), false), EntryAction::Descend);
    assert_eq!(entry_action(None, false), EntryAction::Descend);
    assert!(scan_depth_allowed(3, SCAN_MAX_DEPTH));
    assert!(!scan_depth_allowed(4, SCAN_MAX_DEPTH));
}

#[test]
fn scanned_entry_projects() {
    let p = project_from_entry(Some("web"), "/w/web", Some(r#"{"scripts":{"dev":"x"}}"#), Os::Linux).unwrap();
    assert_eq!(p.name, "web");
    assert_eq!(p.path, "/w/web");
    assert!(project_from_entry(Some("web"), "/w/web", Some("{}"), Os::Linux).is_none());
    assert!(project_from_entry(Some("web"), "/w/web", None, Os::Linux).is_none());
}
