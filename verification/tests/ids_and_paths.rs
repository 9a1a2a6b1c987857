use project_launcher::ids::{project_id_from_path, run_id_from};
use project_launcher::paths::{path_to_string, strip_extended_path, validate_dir_path, validate_path_input, DirProbe, Os};

#[test]
fn project_id_keeps_letters_and_digits() {
    assert_eq!(project_id_from_path("abc123"), "abc123");
}

#[test]
fn project_id_encodes_other_characters_as_hex() {
    assert_eq!(project_id_from_path("a-b"), "a_2D_b");
    assert_eq!(project_id_from_path(r"C:\a-b"), "C_3A__5C_a_2D_b");
    assert_eq!(project_id_from_path("/home/u/app"), "_2F_home_2F_u_2F_app");
}

#[test]
fn project_id_pads_small_codes_to_two_digits() {
    assert_eq!(project_id_from_path("a\tb"), "a_09_b");
}

#[test]
fn project_id_encodes_underscore_itself() {
    assert_eq!(project_id_from_path("a_b"), "a_5F_b");
}

#[test]
fn project_id_keeps_unicode_letters() {
    assert_eq!(project_id_from_path("项目1"), "项目1");
    assert_eq!(project_id_from_path("我的：项目"), "我的_FF1A_项目");
}

#[test]
fn project_id_of_empty_path_is_empty() {
    assert_eq!(project_id_from_path(""), "");
}

#[test]
fn project_ids_of_formerly_colliding_paths_differ() {
    let a = project_id_from_path(r"C:\a\b");
    let b = project_id_from_path(r"C:\a_b");
    assert_ne!(a, b);
    assert_ne!(project_id_from_path("a-b"), project_id_from_path("a_b"));
}

#[test]
fn run_id_joins_project_id_and_script() {
    assert_eq!(run_id_from("/p", "dev"), "_2F_p@dev");
    assert_eq!(run_id_from("/p", "install"), "_2F_p@install");
}

#[test]
fn run_ids_of_different_scripts_differ() {
    assert_ne!(run_id_from("/p", "dev"), run_id_from("/p", "build"));
    assert_ne!(run_id_from("/p@x", "y"), run_id_from("/p", "x@y"));
}

#[test]
fn extended_prefix_is_removed_on_windows_only() {
    assert_eq!(strip_extended_path(r"\\?\C:\work\app", Os::Windows), r"C:\work\app");
    assert_eq!(strip_extended_path(r"\\?\C:\work\app", Os::Linux), r"\\?\C:\work\app");
    assert_eq!(path_to_string(r"C:\work", Os::Windows), r"C:\work");
    assert_eq!(path_to_string("/srv/app", Os::MacOs), "/srv/app");
}

#[test]
fn path_input_rejects_empty() {
    assert_eq!(validate_path_input(""), Err("路径无效或过长".to_string()));
}

#[test]
fn path_input_length_limit_counts_bytes() {
    let ok = "a".repeat(4096);
    assert_eq!(validate_path_input(&ok), Ok(()));
    let long = "a".repeat(4097);
    assert_eq!(validate_path_input(&long), Err("路径无效或过长".to_string()));
    let wide = "é".repeat(2049);
    assert_eq!(validate_path_input(&wide), Err("路径无效或过长".to_string()));
}

#[test]
fn path_input_rejects_nul() {
    assert_eq!(validate_path_input("/tmp/a\0b"), Err("路径包含非法字符".to_string()));
}

fn probe(is_dir: bool, canonical: Result<&str, &str>, canonical_is_dir: bool) -> DirProbe {
    DirProbe {
        is_dir,
        canonical: canonical.map(|s| s.to_string()).map_err(|e| e.to_string()),
        canonical_is_dir,
    }
}

#[test]
fn dir_path_checks_in_order() {
    assert_eq!(
        validate_dir_path("", &probe(true, Ok("/x"), true)),
        Err("路径无效或过长".to_string())
    );
    assert_eq!(
        validate_dir_path("/x", &probe(false, Ok("/x"), true)),
        Err("路径不是有效目录".to_string())
    );
    assert_eq!(
        validate_dir_path("/x", &probe(true, Err("denied"), true)),
        Err("无法解析路径: denied".to_string())
    );
    assert_eq!(
        validate_dir_path("/x", &probe(true, Ok("/real/x"), false)),
        Err("规范化后的路径不是目录".to_string())
    );
    assert_eq!(validate_dir_path("/x", &probe(true, Ok("/real/x"), true)), Ok("/real/x".to_string()));
}
