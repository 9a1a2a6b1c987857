use project_launcher::ide::{
    check_ide_id, common_path_candidates, detect_all_ides, detect_ide, explorer_command, find_installed,
    gui_exe_candidates, ide_launch_command, ide_specs, install_location_from, is_trusted_install_path,
    is_unsafe_install_location, join_path, launch_error, normalize_icon_path, path_matches_edition,
    path_matches_spec, prefer_gui_exe, reg_name_matches, registry_candidates, resolve_via_common_paths,
    resolve_via_registry, resolve_via_where, resolve_via_which, validate_ide_launcher, where_candidates,
    which_candidate, windows_install_roots, launcher_parts, under_temp_dir, CliHit, DetectProbe, InstalledIde,
    LauncherProbe, RegApp,
};
use project_launcher::paths::Os;

fn spec(id: &str) -> project_launcher::ide::IdeSpec {
    ide_specs().into_iter().find(|s| s.id == id).unwrap()
}

fn ide(id: &str, path: &str) -> InstalledIde {
    InstalledIde { id: id.to_string(), name: id.to_string(), path: path.to_string() }
}

#[test]
fn known_editors_in_order() {
    let ids: Vec<&str> = ide_specs().iter().map(|s| s.id).collect();
    assert_eq!(
        ids,
        vec!["vscode", "cursor", "trae-solo-cn", "trae-cn", "trae", "codebuddy-cn", "codebuddy", "windsurf", "vscodium"]
    );
    let mut sorted = ids.clone();
    sorted.sort();
    sorted.dedup();
    assert_eq!(sorted.len(), 9);
}

#[test]
fn path_keywords() {
    assert!(path_matches_spec(&spec("vscode"), r"C:\Program Files\Microsoft VS Code\Code.exe"));
    assert!(!path_matches_spec(&spec("vscode"), r"C:\Tools\Cursor\Cursor.exe"));
    assert!(path_matches_spec(&spec("trae"), r"D:\Apps\Trae\Trae.exe"));
    assert!(!path_matches_spec(&spec("trae"), r"D:\Apps\Trae CN\Trae CN.exe"));
    assert!(path_matches_spec(&spec("trae-cn"), r"D:\Apps\Trae CN\Trae CN.exe"));
    assert!(!path_matches_spec(&spec("trae-cn"), r"D:\TRAE SOLO CN\x.exe"));
}

#[test]
fn editions_of_one_product_never_share_a_path() {
    for p in [
        r"C:\TRAE SOLO CN\TRAE SOLO CN.exe",
        r"C:\Trae CN\Trae CN.exe",
        r"C:\Trae\Trae.exe",
        "/opt/trae solo cn trae cn trae/x",
    ] {
        let n = ["trae-solo-cn", "trae-cn", "trae"].iter().filter(|id| path_matches_edition(id, p)).count();
        assert!(n <= 1, "{}", p);
    }
    for p in [r"C:\CodeBuddy CN\CodeBuddy.exe", r"C:\CodeBuddy\CodeBuddy.exe", "/x/codebuddy-cn/codebuddy"] {
        let n = ["codebuddy-cn", "codebuddy"].iter().filter(|id| path_matches_edition(id, p)).count();
        assert!(n <= 1, "{}", p);
    }
    assert!(path_matches_edition("trae", r"C:\Trae\Trae.exe"));
    assert!(path_matches_edition("codebuddy-cn", r"C:\CodeBuddy CN\CodeBuddy.exe"));
}

#[test]
fn edition_keywords_by_id() {
    assert!(path_matches_edition("cursor", "/opt/CURSOR/bin/cursor"));
    assert!(!path_matches_edition("codebuddy", r"C:\CodeBuddy CN\CodeBuddy.exe"));
    assert!(!path_matches_edition("unknown", "/anything"));
}

#[test]
fn temporary_folders_are_unsafe() {
    let none: Vec<Option<String>> = vec![None, None, None];
    assert!(is_unsafe_install_location(r"C:\Users\u\AppData\Local\Temp\Code.exe", Os::Windows, &none));
    assert!(is_unsafe_install_location("/tmp/code", Os::Linux, &none));
    assert!(is_unsafe_install_location("/var/tmp/code", Os::Linux, &none));
    assert!(!is_unsafe_install_location(r"D:\MyApps\Cursor\Cursor.exe", Os::Windows, &none));
    let temps = vec![Some(r"  D:\MyApps ".to_string()), None, None];
    assert!(is_unsafe_install_location(r"D:\MyApps\Cursor\Cursor.exe", Os::Windows, &temps));
    assert!(is_trusted_install_path("/usr/bin/code", Os::Linux, &none));
    assert!(!is_trusted_install_path("/home/u/TMP/code", Os::Linux, &none));
}

#[test]
fn paths_below_temp_folders() {
    let tmpdir = vec![None, None, Some("/home/u/scratch/".to_string())];
    assert!(under_temp_dir("/home/u/scratch/code", &tmpdir, Os::Linux));
    assert!(under_temp_dir("/home/u//scratch", &tmpdir, Os::Linux));
    assert!(!under_temp_dir("/home/u/scratchpad/code", &tmpdir, Os::Linux));
    assert!(!under_temp_dir("home/u/scratch/code", &tmpdir, Os::Linux));
    let blank = vec![Some("   ".to_string()), Some(String::new()), None];
    assert!(!under_temp_dir("/anything", &blank, Os::Linux));
    let win = vec![Some(r"\\?\C:\Users\u\AppData\Local\Scratch".to_string()), None, None];
    assert!(under_temp_dir(r"\\?\C:\Users\u\AppData\Local\Scratch\Cursor\Cursor.exe", &win, Os::Windows));
    assert!(under_temp_dir(r"C:/Users/u/AppData/Local/Scratch/x.exe", &win, Os::Windows));
    assert!(!under_temp_dir(r"C:\Users\u\AppData\Local\Scratch2\x.exe", &win, Os::Windows));
}

#[test]
fn icon_paths() {
    assert_eq!(normalize_icon_path(r#""E:\Programs\cursor\Cursor.exe",0"#), Some(r"E:\Programs\cursor\Cursor.exe".to_string()));
    assert_eq!(normalize_icon_path(r"  E:\x\Code.exe , 1 "), Some(r"E:\x\Code.exe".to_string()));
    assert_eq!(normalize_icon_path(r"C:\a\b.exe"), Some(r"C:\a\b.exe".to_string()));
    assert_eq!(normalize_icon_path("  \"\" "), None);
    assert_eq!(normalize_icon_path(",0"), None);
    assert_eq!(install_location_from(" \"C:\\Apps\\Cursor\\\" "), Some("C:\\Apps\\Cursor\\".to_string()));
    assert_eq!(install_location_from("   "), None);
}

#[test]
fn uninstall_entry_names() {
    assert!(reg_name_matches(&spec("vscode"), "Microsoft Visual Studio Code (User)"));
    assert!(reg_name_matches(&spec("trae"), "Trae"));
    assert!(!reg_name_matches(&spec("trae"), "Trae CN"));
    assert!(reg_name_matches(&spec("trae-cn"), "Trae CN"));
    assert!(!reg_name_matches(&spec("codebuddy"), "WorkBuddy CodeBuddy"));
}

#[test]
fn joining_paths() {
    assert_eq!(join_path(r"C:\a", "b.exe", Os::Windows), r"C:\a\b.exe");
    assert_eq!(join_path(r"C:\a\", "b.exe", Os::Windows), r"C:\a\b.exe");
    assert_eq!(join_path("C:/a/", "b.exe", Os::Windows), "C:/a/b.exe");
    assert_eq!(join_path("C:", "b.exe", Os::Windows), "C:b.exe");
    assert_eq!(join_path(r"\\?\C:", "foo", Os::Windows), r"\\?\C:\foo");
    assert_eq!(join_path("", "b.exe", Os::Linux), "b.exe");
    assert_eq!(join_path("/opt", "b", Os::Linux), "/opt/b");
}

#[test]
fn registry_resolution() {
    let apps = vec![
        RegApp { display_name: "Git".to_string(), install_location: Some(r"C:\Git".to_string()), icon_exe: None },
        RegApp {
            display_name: "Cursor (User)".to_string(),
            install_location: Some(r"E:\Programs\cursor".to_string()),
            icon_exe: Some(r"E:\Programs\cursor\Uninstall Cursor.exe".to_string()),
        },
        RegApp {
            display_name: "Cursor".to_string(),
            install_location: None,
            icon_exe: Some(r"F:\c\Cursor.exe".to_string()),
        },
    ];
    let c = registry_candidates(&spec("cursor"), &apps, Os::Windows);
    let paths: Vec<(String, bool)> = c.iter().map(|x| (x.path.clone(), x.must_exist)).collect();
    assert_eq!(paths, vec![(r"E:\Programs\cursor\Cursor.exe".to_string(), true), (r"F:\c\Cursor.exe".to_string(), false)]);
    assert_eq!(resolve_via_registry(&spec("cursor"), &apps, Os::Windows, &vec![true, false]), Some(r"E:\Programs\cursor\Cursor.exe".to_string()));
    assert_eq!(resolve_via_registry(&spec("cursor"), &apps, Os::Windows, &vec![false, false]), Some(r"F:\c\Cursor.exe".to_string()));
    assert_eq!(resolve_via_registry(&spec("vscode"), &apps, Os::Windows, &vec![]), None);
}

#[test]
fn install_roots() {
    let r = windows_install_roots(Some(r"C:\Users\u\AppData\Local"), Some(r"C:\Program Files"), None);
    assert_eq!(r[0], r"C:\Users\u\AppData\Local\Programs");
    assert_eq!(r[1], r"C:\Program Files");
    assert_eq!(r[2], r"C:\Programs");
    assert_eq!(r.len(), 12);
    assert_eq!(r[11], r"G:\Program Files");
}

#[test]
fn common_path_lookup() {
    let roots = vec![r"C:\P".to_string(), r"D:\Q".to_string()];
    let c = common_path_candidates(&spec("windsurf"), &roots, Os::Windows);
    let paths: Vec<String> = c.iter().map(|x| x.path.clone()).collect();
    assert_eq!(
        paths,
        vec![r"C:\P\Windsurf\Windsurf.exe", r"D:\Q\Windsurf\Windsurf.exe", r"C:\P\Windsurf\bin\windsurf.cmd", r"D:\Q\Windsurf\bin\windsurf.cmd"]
    );
    assert_eq!(
        resolve_via_common_paths(&spec("windsurf"), &roots, Os::Windows, &vec![false, false, true, true], &vec![]),
        Some(r"C:\P\Windsurf\bin\windsurf.cmd".to_string())
    );
    assert_eq!(resolve_via_common_paths(&spec("windsurf"), &roots, Os::Windows, &vec![false; 4], &vec![true; 18]), None);
}

#[test]
fn common_path_prefers_gui_launcher() {
    let roots = vec![r"D:\Programs".to_string()];
    let found = vec![false, true];
    let mut gui = vec![false; 18];
    gui[0] = true;
    assert_eq!(
        resolve_via_common_paths(&spec("vscode"), &roots, Os::Windows, &found, &gui),
        Some(r"D:\Cursor.exe".to_string())
    );
    let mut beside = vec![false; 18];
    beside[9] = true;
    assert_eq!(
        resolve_via_common_paths(&spec("vscode"), &roots, Os::Windows, &found, &beside),
        Some(r"D:\Programs\Microsoft VS Code\Code.exe".to_string())
    );
    assert_eq!(
        resolve_via_common_paths(&spec("vscode"), &roots, Os::Windows, &vec![true, true], &gui),
        Some(r"D:\Programs\Microsoft VS Code\Code.exe".to_string())
    );
}

#[test]
fn launcher_paths_split_into_folders() {
    let p = launcher_parts(r"D:\Programs\Microsoft VS Code\bin\code.cmd", Os::Windows);
    assert_eq!(p.file_name, Some("code.cmd".to_string()));
    assert_eq!(
        p.ancestors,
        vec![r"D:\Programs\Microsoft VS Code\bin", r"D:\Programs\Microsoft VS Code", r"D:\Programs", r"D:\"]
    );
    let u = launcher_parts("/usr/bin/code", Os::Linux);
    assert_eq!(u.file_name, Some("code".to_string()));
    assert_eq!(u.ancestors, vec!["/usr/bin", "/usr", "/"]);
    let rel = launcher_parts("a/b//", Os::Linux);
    assert_eq!(rel.file_name, Some("b".to_string()));
    assert_eq!(rel.ancestors, vec!["a", ""]);
    assert_eq!(launcher_parts("/", Os::Linux).file_name, None);
    assert!(launcher_parts("/", Os::Linux).ancestors.is_empty());
    assert_eq!(launcher_parts("x/..", Os::Linux).file_name, None);
    assert_eq!(launcher_parts(r"C:\x\y", Os::Linux).ancestors, vec![""]);
    assert_eq!(launcher_parts("C:", Os::Windows).file_name, None);
}

#[test]
fn gui_launcher_preferred_over_wrapper() {
    let wrapper = r"C:\P\cursor\resources\app\bin\cursor.cmd";
    let c = gui_exe_candidates(wrapper, Os::Windows);
    assert_eq!(c.len(), 18);
    assert_eq!(c[0].path, r"C:\P\cursor\Cursor.exe");
    assert_eq!(c[9].path, r"C:\P\cursor\resources\app\Code.exe");
    let mut present = vec![false; 18];
    present[0] = true;
    assert_eq!(prefer_gui_exe(wrapper, Os::Windows, &present), r"C:\P\cursor\Cursor.exe");
    assert_eq!(prefer_gui_exe(wrapper, Os::Windows, &vec![false; 18]), wrapper);
    assert!(gui_exe_candidates(r"C:\x\Code.exe", Os::Windows).is_empty());
    assert_eq!(prefer_gui_exe(r"C:\x\Code.exe", Os::Windows, &vec![true; 18]), r"C:\x\Code.exe");
    let two = gui_exe_candidates(r"C:\a\bin\code.BAT", Os::Windows);
    assert_eq!(two.len(), 9);
    assert_eq!(two[0].path, r"C:\a\Code.exe");
}

#[test]
fn path_lookups() {
    let c = where_candidates("C:\\a\\code.cmd\r\n\r\n  C:\\b\\code \r\n");
    let paths: Vec<String> = c.iter().map(|x| x.path.clone()).collect();
    assert_eq!(paths, vec![r"C:\a\code.cmd".to_string(), r"C:\b\code".to_string()]);
    assert_eq!(resolve_via_where(Some("x\ny\n"), &vec![false, true]), Some("y".to_string()));
    assert_eq!(resolve_via_where(None, &vec![true]), None);
    assert_eq!(which_candidate("/usr/bin/code\n/other\n"), Some("/usr/bin/code".to_string()));
    assert_eq!(which_candidate("\n/usr/bin/code"), None);
    assert_eq!(resolve_via_which(Some("/usr/bin/code\n"), true), Some("/usr/bin/code".to_string()));
    assert_eq!(resolve_via_which(Some("/usr/bin/code\n"), false), None);
}

#[test]
fn detection_on_windows() {
    let s = spec("trae");
    let probe = DetectProbe {
        registry: None,
        registry_gui_present: vec![],
        cli_hits: vec![Some(CliHit { found: r"C:\Trae CN\bin\trae.cmd".to_string(), gui_present: vec![true; 18] })],
        common: Some(r"C:\P\Trae\Trae.exe".to_string()),
        unix_bins_present: vec![],
        mac_apps_present: vec![],
    };
    let d = detect_ide(&s, &probe, Os::Windows).unwrap();
    assert_eq!(d.id, "trae");
    assert_eq!(d.name, "Trae");
    assert_eq!(d.path, r"C:\P\Trae\Trae.exe");
    let reg = DetectProbe { registry: Some(r"E:\Trae\Trae.exe".to_string()), ..clone_detect(&probe) };
    assert_eq!(detect_ide(&s, &reg, Os::Windows).unwrap().path, r"E:\Trae\Trae.exe");
    let mut gui = vec![false; 18];
    gui[17] = true;
    let reg_cmd = DetectProbe {
        registry: Some(r"E:\Apps\Trae\resources\app\bin\trae.cmd".to_string()),
        registry_gui_present: gui.clone(),
        ..clone_detect(&probe)
    };
    assert_eq!(detect_ide(&s, &reg_cmd, Os::Windows).unwrap().path, r"E:\Apps\Trae\resources\app\Trae.exe");
    let cli = DetectProbe {
        cli_hits: vec![None, Some(CliHit { found: r"E:\Trae\resources\app\bin\trae.cmd".to_string(), gui_present: gui })],
        ..clone_detect(&probe)
    };
    assert_eq!(detect_ide(&s, &cli, Os::Windows).unwrap().path, r"E:\Trae\resources\app\Trae.exe");
}

fn clone_detect(p: &DetectProbe) -> DetectProbe {
    DetectProbe {
        registry: p.registry.clone(),
        registry_gui_present: p.registry_gui_present.clone(),
        cli_hits: p
            .cli_hits
            .iter()
            .map(|h| h.as_ref().map(|h| CliHit { found: h.found.clone(), gui_present: h.gui_present.clone() }))
            .collect(),
        common: p.common.clone(),
        unix_bins_present: p.unix_bins_present.clone(),
        mac_apps_present: p.mac_apps_present.clone(),
    }
}

#[test]
fn detection_on_unix_and_macos() {
    let s = spec("vscode");
    let probe = DetectProbe {
        registry: None,
        registry_gui_present: vec![],
        cli_hits: vec![None],
        common: None,
        unix_bins_present: vec![false, true, false],
        mac_apps_present: vec![true],
    };
    assert_eq!(detect_ide(&s, &probe, Os::Linux).unwrap().path, "/usr/bin/code");
    let mac = DetectProbe { unix_bins_present: vec![], ..probe };
    assert_eq!(detect_ide(&s, &mac, Os::MacOs).unwrap().path, "/Applications/Visual Studio Code.app");
    let none = DetectProbe {
        registry: None,
        registry_gui_present: vec![],
        cli_hits: vec![],
        common: None,
        unix_bins_present: vec![],
        mac_apps_present: vec![true],
    };
    assert!(detect_ide(&s, &none, Os::Linux).is_none());
}

#[test]
fn cn_edition_wins_over_same_launcher() {
    let found = vec![
        Some(ide("vscode", "/a/code")),
        Some(ide("trae-cn", r"C:\Trae CN\Trae CN.exe")),
        Some(ide("trae", r"c:\trae cn\trae cn.EXE")),
        None,
        Some(ide("codebuddy-cn", "/cb")),
        Some(ide("codebuddy", "/cb-intl")),
        Some(ide("vscode", "/b/code")),
    ];
    let all = detect_all_ides(&found);
    let ids: Vec<&str> = all.iter().map(|i| i.id.as_str()).collect();
    assert_eq!(ids, vec!["vscode", "trae-cn", "codebuddy-cn", "codebuddy"]);
    assert_eq!(all[0].path, "/a/code");
}

#[test]
fn launcher_checks() {
    let good = LauncherProbe {
        exists: true,
        display: r"C:\Apps\Cursor\Cursor.exe".to_string(),
        canonical: Ok(r"\\?\C:\Apps\Cursor\Cursor.exe".to_string()),
        is_dir: false,
        is_file: true,
        temp_dirs: vec![None, None, None],
    };
    assert_eq!(validate_ide_launcher("cursor", &good, Os::Windows), Ok(r"\\?\C:\Apps\Cursor\Cursor.exe".to_string()));
    assert_eq!(validate_ide_launcher("nope", &good, Os::Windows), Err("未知的 IDE: nope".to_string()));
    let missing = LauncherProbe { exists: false, ..clone_probe(&good) };
    assert_eq!(validate_ide_launcher("cursor", &missing, Os::Windows), Err(r"IDE 路径不存在: C:\Apps\Cursor\Cursor.exe".to_string()));
    let bad = LauncherProbe { canonical: Err("denied".to_string()), ..clone_probe(&good) };
    assert_eq!(validate_ide_launcher("cursor", &bad, Os::Windows), Err("无法解析 IDE 路径: denied".to_string()));
    let not_file = LauncherProbe { is_file: false, ..clone_probe(&good) };
    assert_eq!(validate_ide_launcher("cursor", &not_file, Os::Windows), Err("IDE 启动器不是有效文件".to_string()));
    let uninstaller = LauncherProbe { canonical: Ok(r"C:\Apps\Cursor\unins000.exe".to_string()), ..clone_probe(&good) };
    assert_eq!(validate_ide_launcher("cursor", &uninstaller, Os::Windows), Err("拒绝执行卸载程序".to_string()));
    let wrong_name = LauncherProbe { canonical: Ok(r"C:\Apps\Cursor\calc.exe".to_string()), ..clone_probe(&good) };
    assert_eq!(validate_ide_launcher("cursor", &wrong_name, Os::Windows), Err("IDE 可执行文件名未通过白名单校验".to_string()));
    let wrong_dir = LauncherProbe {
        canonical: Ok(r"C:\Other\Code.exe".to_string()),
        ..clone_probe(&good)
    };
    assert_eq!(validate_ide_launcher("vscode", &wrong_dir, Os::Windows), Err("IDE 路径关键词未通过校验".to_string()));
    let temp = LauncherProbe { canonical: Ok(r"C:\Temp\cursor\Cursor.exe".to_string()), ..clone_probe(&good) };
    assert_eq!(validate_ide_launcher("cursor", &temp, Os::Windows), Err("IDE 位于临时目录等不安全路径，已拒绝启动".to_string()));
    let in_scratch = LauncherProbe {
        canonical: Ok(r"\\?\D:\Scratch\Cursor\Cursor.exe".to_string()),
        temp_dirs: vec![None, Some(r"D:\Scratch".to_string()), None],
        ..clone_probe(&good)
    };
    assert_eq!(validate_ide_launcher("cursor", &in_scratch, Os::Windows), Err("IDE 位于临时目录等不安全路径，已拒绝启动".to_string()));
    let cmd = LauncherProbe { canonical: Ok("/opt/cursor/bin/cursor.cmd".to_string()), ..clone_probe(&good) };
    assert_eq!(validate_ide_launcher("cursor", &cmd, Os::Linux), Ok("/opt/cursor/bin/cursor.cmd".to_string()));
    let solo = LauncherProbe {
        canonical: Ok("/opt/trae solo cn/TRAE SOLO CN.exe".to_string()),
        ..clone_probe(&good)
    };
    assert_eq!(validate_ide_launcher("trae-solo-cn", &solo, Os::Linux), Err("IDE 可执行文件名未通过白名单校验".to_string()));
    assert_eq!(validate_ide_launcher("trae-solo-cn", &solo, Os::Windows), Ok("/opt/trae solo cn/TRAE SOLO CN.exe".to_string()));
}

#[test]
fn bundle_checks_on_macos() {
    let bundle = LauncherProbe {
        exists: true,
        display: "/Applications/Cursor.app".to_string(),
        canonical: Ok("/Applications/Cursor.app".to_string()),
        is_dir: true,
        is_file: false,
        temp_dirs: vec![None, None, None],
    };
    assert_eq!(validate_ide_launcher("cursor", &bundle, Os::MacOs), Ok("/Applications/Cursor.app".to_string()));
    let other = LauncherProbe { canonical: Ok("/Applications/Notes.app".to_string()), ..clone_probe(&bundle) };
    assert_eq!(validate_ide_launcher("cursor", &other, Os::MacOs), Err("IDE 应用包未通过安全校验".to_string()));
}

fn clone_probe(p: &LauncherProbe) -> LauncherProbe {
    LauncherProbe {
        exists: p.exists,
        display: p.display.clone(),
        canonical: p.canonical.clone(),
        is_dir: p.is_dir,
        is_file: p.is_file,
        temp_dirs: p.temp_dirs.clone(),
    }
}

#[test]
fn editor_identifiers() {
    assert_eq!(check_ide_id(""), Err("无效的 IDE 标识".to_string()));
    assert_eq!(check_ide_id(&"x".repeat(65)), Err("无效的 IDE 标识".to_string()));
    assert_eq!(check_ide_id("a\0"), Err("无效的 IDE 标识".to_string()));
    assert_eq!(check_ide_id("emacs"), Err("未知的 IDE: emacs".to_string()));
    assert_eq!(check_ide_id("vscodium"), Ok(()));
}

#[test]
fn installed_lookup() {
    let ides = vec![ide("vscode", "/a"), ide("cursor", "/c")];
    assert_eq!(find_installed(&ides, "cursor").ok().unwrap().path, "/c");
    assert_eq!(find_installed(&ides, "trae").err().unwrap(), "未检测到已安装的 IDE: trae");
}

#[test]
fn launch_commands() {
    let c = ide_launch_command("/Applications/Cursor.app", true, "/w", Os::MacOs);
    assert_eq!(c.program, "open");
    assert_eq!(c.args, vec!["-a".to_string(), "/Applications/Cursor.app".to_string(), "/w".to_string()]);
    let c = ide_launch_command(r"C:\c\bin\cursor.CMD", false, r"C:\w", Os::Windows);
    assert_eq!(c.program, "cmd");
    assert_eq!(c.args, vec!["/C".to_string(), r"C:\c\bin\cursor.CMD".to_string(), r"C:\w".to_string()]);
    assert!(c.hide_window);
    let c = ide_launch_command("/usr/bin/code", false, "/w", Os::Linux);
    assert_eq!(c.program, "/usr/bin/code");
    assert_eq!(c.args, vec!["/w".to_string()]);
    assert!(!c.hide_window);
    let dotted = ide_launch_command(r"C:\c\.cmd", false, r"C:\w", Os::Windows);
    assert_eq!(dotted.program, r"C:\c\.cmd");
    let bat = ide_launch_command(r"C:\c\run.me.bat", false, r"C:\w", Os::Windows);
    assert_eq!(bat.program, "cmd");
    let on_linux = ide_launch_command("/opt/x/run.cmd", false, "/w", Os::Linux);
    assert_eq!(on_linux.program, "/opt/x/run.cmd");
}

#[test]
fn file_manager_commands() {
    assert_eq!(explorer_command(r"C:\w", Os::Windows).ok().unwrap().program, "explorer");
    assert_eq!(explorer_command("/w", Os::MacOs).ok().unwrap().program, "open");
    assert_eq!(explorer_command("/w", Os::Linux).ok().unwrap().args, vec!["/w".to_string()]);
    assert_eq!(explorer_command("/w", Os::Other).err().unwrap(), "当前系统不支持打开资源管理器");
    assert_eq!(launch_error("boom"), "启动失败: boom");
}
