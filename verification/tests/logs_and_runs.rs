use project_launcher::logs::{
    exit_report, extract_port_from_line, has_address_marker, is_valid_package_manager, is_valid_script,
    pm_program, port_from_captures, strip_ansi, trim_line_end, LogBatch,
};
use project_launcher::paths::Os;
use project_launcher::runs::{
    install_refused, pipes_unavailable, plan_install_project, plan_start_project, spawn_failed, start_refused,
    start_succeeded, stop_target, EnqueueError, ProcessTable, MAX_RUNNING_PROCESSES,
};

#[test]
fn script_names_allow_only_the_safe_class() {
    assert!(is_valid_script("dev"));
    assert!(is_valid_script("build:prod"));
    assert!(is_valid_script("lint-fix_2"));
    assert!(!is_valid_script(""));
    assert!(!is_valid_script("a b"));
    assert!(!is_valid_script("dev;rm"));
    assert!(!is_valid_script("dev&calc"));
    assert!(!is_valid_script("dev\n"));
    assert!(!is_valid_script("测试"));
}

#[test]
fn package_managers() {
    assert!(is_valid_package_manager("npm"));
    assert!(is_valid_package_manager("pnpm"));
    assert!(is_valid_package_manager("yarn"));
    assert!(!is_valid_package_manager("bun"));
    assert!(!is_valid_package_manager("NPM"));
}

#[test]
fn package_manager_programs() {
    assert_eq!(pm_program("pnpm", Os::Windows), "pnpm.cmd");
    assert_eq!(pm_program("yarn", Os::Windows), "yarn.cmd");
    assert_eq!(pm_program("npm", Os::Windows), "npm.cmd");
    assert_eq!(pm_program("other", Os::Windows), "npm.cmd");
    assert_eq!(pm_program("pnpm", Os::Linux), "pnpm");
    assert_eq!(pm_program("yarn", Os::MacOs), "yarn");
    assert_eq!(pm_program("npm", Os::Linux), "npm");
}

#[test]
fn colour_codes_are_removed() {
    assert_eq!(strip_ansi("\x1b[32mhello\x1b[0m"), "hello");
    assert_eq!(strip_ansi("\x1b[1;31mX\x1b[39m!"), "X!");
    assert_eq!(strip_ansi("plain"), "plain");
}

#[test]
fn incomplete_colour_codes_stay() {
    assert_eq!(strip_ansi("\x1b[12"), "\x1b[12");
    assert_eq!(strip_ansi("\x1b[12;!x"), "\x1b[12;!x");
    assert_eq!(strip_ansi("\x1b\x1b[0mA"), "\x1bA");
}

#[test]
fn port_from_host_and_port() {
    assert_eq!(extract_port_from_line("  ➜  Local:   http://localhost:5173/"), Some("5173".to_string()));
    assert_eq!(extract_port_from_line("\x1b[32mhttp://127.0.0.1:3000\x1b[0m"), Some("3000".to_string()));
    assert_eq!(extract_port_from_line("on http://0.0.0.0:8080"), Some("8080".to_string()));
    assert_eq!(extract_port_from_line("http://[::1]:4200"), Some("4200".to_string()));
    assert_eq!(extract_port_from_line("LOCALHOST:99"), Some("99".to_string()));
}

#[test]
fn port_fallback_needs_an_address_marker() {
    assert_eq!(extract_port_from_line("Network: http://192.168.1.5:8080"), Some("8080".to_string()));
    assert_eq!(extract_port_from_line("listening on :8080"), None);
    assert_eq!(extract_port_from_line("Local: :123"), None);
}

#[test]
fn no_port_in_plain_lines() {
    assert_eq!(extract_port_from_line("compiled successfully"), None);
}

#[test]
fn port_decision_on_captures() {
    assert_eq!(port_from_captures(Some("1".to_string()), "", Some("2".to_string())), Some("1".to_string()));
    assert_eq!(port_from_captures(None, "network: x", Some("2".to_string())), Some("2".to_string()));
    assert_eq!(port_from_captures(None, "nothing", Some("2".to_string())), None);
    assert!(has_address_marker("see 127.0.0.1"));
    assert!(!has_address_marker("LOCAL:"));
}

#[test]
fn line_terminators_are_removed() {
    assert_eq!(trim_line_end("abc\r\n"), "abc");
    assert_eq!(trim_line_end("abc\n\n\r"), "abc");
    assert_eq!(trim_line_end("a\rb"), "a\rb");
    assert_eq!(trim_line_end(""), "");
}

#[test]
fn log_batch_hands_over_at_fifty_lines() {
    let mut b = LogBatch::new();
    for i in 0..49 {
        assert_eq!(b.push_line(format!("l{}", i), 0), None);
    }
    assert_eq!(b.len(), 49);
    let chunk = b.push_line("last".to_string(), 0).unwrap();
    assert!(chunk.starts_with("l0\nl1\n"));
    assert!(chunk.ends_with("l48\nlast\n"));
    assert_eq!(chunk.lines().count(), 50);
    assert_eq!(b.len(), 0);
}

#[test]
fn log_batch_hands_over_after_the_interval() {
    let mut b = LogBatch::new();
    assert_eq!(b.push_line("a".to_string(), 10), None);
    assert_eq!(b.push_line("b".to_string(), 200), Some("a\nb\n".to_string()));
    assert_eq!(b.finish(), None);
}

#[test]
fn log_batch_loses_no_line() {
    let mut b = LogBatch::new();
    let mut out = String::new();
    let mut expected = String::new();
    for i in 0..123 {
        let line = format!("line {}", i);
        expected.push_str(&line);
        expected.push('\n');
        if let Some(c) = b.push_line(line, if i % 7 == 0 { 250 } else { 1 }) {
            out.push_str(&c);
        }
    }
    if let Some(c) = b.finish() {
        out.push_str(&c);
    }
    assert_eq!(out, expected);
}

#[test]
fn exit_reports() {
    assert_eq!(exit_report(Some(0)), (0, true));
    assert_eq!(exit_report(Some(1)), (1, false));
    assert_eq!(exit_report(None), (-1, false));
}

#[test]
fn table_refuses_duplicates_and_keeps_order() {
    let mut t: ProcessTable<u32> = ProcessTable::new();
    assert_eq!(t.enqueue("a@dev".to_string(), 1), Ok(()));
    assert_eq!(t.enqueue("a@build".to_string(), 2), Ok(()));
    assert_eq!(t.enqueue("a@dev".to_string(), 3), Err((EnqueueError::AlreadyRunning, 3)));
    assert_eq!(t.len(), 2);
    assert!(t.contains("a@build"));
    assert_eq!(t.remove("a@dev"), Some(1));
    assert_eq!(t.remove("a@dev"), None);
    assert_eq!(t.len(), 1);
}

#[test]
fn table_refuses_beyond_the_limit() {
    let mut t: ProcessTable<usize> = ProcessTable::new();
    for i in 0..MAX_RUNNING_PROCESSES {
        assert_eq!(t.enqueue(format!("p@{}", i), i), Ok(()));
    }
    assert_eq!(t.check_enqueue("q@dev"), Err(EnqueueError::Full));
    assert_eq!(t.enqueue("q@dev".to_string(), 99), Err((EnqueueError::Full, 99)));
    assert_eq!(t.len(), 20);
}

#[test]
fn enqueue_then_remove_restores_the_table() {
    let mut t: ProcessTable<u8> = ProcessTable::new();
    t.enqueue("x@a".to_string(), 1).unwrap();
    t.enqueue("x@b".to_string(), 2).unwrap();
    t.enqueue("x@c".to_string(), 3).unwrap();
    assert_eq!(t.remove("x@c"), Some(3));
    let all = t.drain();
    assert_eq!(all, vec![("x@a".to_string(), 1), ("x@b".to_string(), 2)]);
    assert_eq!(t.len(), 0);
}

#[test]
fn start_plan_for_npm_and_yarn() {
    let dir: Result<String, String> = Ok(r"\\?\C:\w\app".to_string());
    let p = plan_start_project(r"C:\w\app", "dev", "npm", &dir, Os::Windows).ok().unwrap();
    assert_eq!(p.run_id, "C_3A__5C_w_5C_app@dev");
    assert_eq!(p.program, "npm.cmd");
    assert_eq!(p.args, vec!["run".to_string(), "dev".to_string()]);
    assert_eq!(p.workdir, r"C:\w\app");
    let y = plan_start_project("/w/app", "dev", "yarn", &Ok("/w/app".to_string()), Os::Linux).ok().unwrap();
    assert_eq!(y.program, "yarn");
    assert_eq!(y.args, vec!["dev".to_string()]);
}

#[test]
fn start_plan_failures_in_order() {
    let bad_dir: Result<String, String> = Err("路径不是有效目录".to_string());
    let r = plan_start_project("/x", "dev;rm", "bun", &bad_dir, Os::Linux).err().unwrap();
    assert!(!r.success);
    assert_eq!(r.message, "路径不是有效目录");
    assert_eq!(r.project_id, "_2F_x@dev;rm");
    let ok_dir: Result<String, String> = Ok("/x".to_string());
    let r = plan_start_project("/x", "dev;rm", "bun", &ok_dir, Os::Linux).err().unwrap();
    assert_eq!(r.message, "非法脚本名：仅允许字母、数字、下划线、连字符和冒号");
    let r = plan_start_project("/x", "dev", "bun", &ok_dir, Os::Linux).err().unwrap();
    assert_eq!(r.message, "不支持的包管理器");
    assert_eq!(r.project_id, "_2F_x@dev");
}

#[test]
fn install_plan() {
    let ok_dir: Result<String, String> = Ok("/x".to_string());
    let p = plan_install_project("/x", "pnpm", &ok_dir, Os::Linux).ok().unwrap();
    assert_eq!(p.run_id, "_2F_x@install");
    assert_eq!(p.program, "pnpm");
    assert_eq!(p.args, vec!["install".to_string()]);
    let r = plan_install_project("/x", "bun", &ok_dir, Os::Linux).err().unwrap();
    assert_eq!(r.message, "不支持的包管理器");
}

#[test]
fn refusal_and_outcome_messages() {
    assert_eq!(start_refused("i", "dev", EnqueueError::Full).message, "同时运行进程数不能超过 20");
    assert_eq!(start_refused("i", "dev", EnqueueError::AlreadyRunning).message, "脚本 dev 已在运行中");
    assert_eq!(install_refused("i", EnqueueError::AlreadyRunning).message, "依赖安装已在进行中");
    assert_eq!(install_refused("i", EnqueueError::Full).message, "同时运行进程数不能超过 20");
    assert_eq!(spawn_failed("i", "not found", false).message, "启动失败: not found");
    assert_eq!(spawn_failed("i", "not found", true).message, "安装启动失败: not found");
    assert_eq!(pipes_unavailable("i", true).message, "无法获取标准输出");
    assert_eq!(pipes_unavailable("i", false).message, "无法获取错误输出");
    let ok = start_succeeded("i", false);
    assert!(ok.success);
    assert_eq!(ok.message, "项目已启动");
    assert_eq!(start_succeeded("i", true).message, "依赖安装已开始");
}

#[test]
fn stop_target_checks() {
    assert_eq!(stop_target("", "dev"), Err("路径无效或过长".to_string()));
    assert_eq!(stop_target("/x", "a b"), Err("非法脚本名".to_string()));
    assert_eq!(stop_target("/x", "install"), Ok("_2F_x@install".to_string()));
    assert_eq!(stop_target("/x", "dev"), Ok("_2F_x@dev".to_string()));
}
