use deploy_dll::config::{
    existing_var_path, get_objdump_file, needs_builtin_lookup, needs_system_lookup, path_entries, Args,
    ToolError,
};

fn args() -> Args {
    Args {
        binary_file: "app.exe".to_string(),
        skip_env_path: false,
        copy_vc_redist: false,
        verbose: false,
        shallow_search_dir: vec!["S1".to_string(), "S2".to_string()],
        no_shallow_search: false,
        deep_search_dir: vec!["D1".to_string()],
        no_deep_search: false,
        cmake_prefix_path: vec!["C:/a;C:/b".to_string(), "D:/c".to_string()],
        ignore: vec![],
        objdump_file: "[auto]".to_string(),
        allow_missing: false,
    }
}

fn strings(v: &[&str]) -> Vec<String> {
    v.iter().map(|s| s.to_string()).collect()
}

#[test]
fn prefix_bin_candidates_in_order() {
    assert_eq!(args().prefix_bin_candidates(), strings(&["C:/a/bin", "C:/b/bin", "D:/c/bin"]));
}

#[test]
fn existing_prefix_dirs_kept() {
    let mut dest = strings(&["X"]);
    args().existing_cmake_prefix_path(&mut dest, &vec![true, false, true]);
    assert_eq!(dest, strings(&["X", "C:/a/bin", "D:/c/bin"]));
}

#[test]
fn var_path_entries_that_exist() {
    assert_eq!(path_entries("A;B;;C"), strings(&["A", "B", "", "C"]));
    let mut dest = vec![];
    existing_var_path(&mut dest, "A;B;;C", &vec![true, false, false, true]);
    assert_eq!(dest, strings(&["A", "C"]));
}

#[test]
fn shallow_dirs_with_search_path() {
    let env = strings(&["E1", "E2"]);
    let a = args();
    assert_eq!(
        a.shallow_search_dirs(&vec![false, true, true], &env, true),
        strings(&["S1", "S2", "C:/b/bin", "D:/c/bin", "E1", "E2"])
    );
    assert_eq!(
        a.shallow_search_dirs(&vec![false, true, true], &env, false),
        strings(&["S1", "S2", "C:/b/bin", "D:/c/bin"])
    );
    let mut b = args();
    b.skip_env_path = true;
    assert!(!b.searches_env_path(true));
    assert_eq!(b.shallow_search_dirs(&vec![true, false, false], &env, true), strings(&["S1", "S2", "C:/a/bin"]));
}

#[test]
fn deep_dirs_with_search_path() {
    let env = strings(&["E1"]);
    assert_eq!(
        args().deep_search_dirs(&vec![true, true, false], &env, true),
        strings(&["D1", "C:/a/bin", "C:/b/bin", "E1"])
    );
}

#[test]
fn system_selector() {
    assert_eq!(
        get_objdump_file("[system]", Some("C:/msys/objdump.exe".to_string()), "B/objdump.exe".to_string(), true, false),
        Ok("C:/msys/objdump.exe".to_string())
    );
    assert_eq!(
        get_objdump_file("[system]", None, "B/objdump.exe".to_string(), true, false),
        Err(ToolError::SystemToolMissing)
    );
}

#[test]
fn builtin_selector() {
    assert_eq!(
        get_objdump_file("[builtin]", Some("sys".to_string()), "B/objdump.exe".to_string(), true, false),
        Ok("B/objdump.exe".to_string())
    );
    assert_eq!(
        get_objdump_file("[builtin]", None, "B/objdump.exe".to_string(), false, false),
        Err(ToolError::BuiltinToolMissing)
    );
}

#[test]
fn auto_selector() {
    assert_eq!(
        get_objdump_file("[auto]", Some("sys".to_string()), "B/objdump.exe".to_string(), true, false),
        Ok("sys".to_string())
    );
    assert_eq!(
        get_objdump_file("[auto]", None, "B/objdump.exe".to_string(), true, false),
        Ok("B/objdump.exe".to_string())
    );
    assert_eq!(
        get_objdump_file("[auto]", None, "B/objdump.exe".to_string(), false, false),
        Err(ToolError::BuiltinToolMissing)
    );
}

#[test]
fn file_selector() {
    assert_eq!(
        get_objdump_file("/opt/objdump", None, String::new(), false, true),
        Ok("/opt/objdump".to_string())
    );
    assert_eq!(
        get_objdump_file("/opt/objdump", Some("sys".to_string()), String::new(), true, false),
        Err(ToolError::ToolFileMissing)
    );
    let mut a = args();
    a.objdump_file = "/opt/objdump".to_string();
    assert_eq!(a.objdump_file(None, String::new(), false, true), Ok("/opt/objdump".to_string()));
}

#[test]
fn lookups_needed_by_selector() {
    assert!(needs_system_lookup("[system]"));
    assert!(needs_system_lookup("[auto]"));
    assert!(!needs_system_lookup("[builtin]"));
    assert!(!needs_system_lookup("objdump"));
    assert!(needs_builtin_lookup("[builtin]", true));
    assert!(needs_builtin_lookup("[auto]", false));
    assert!(!needs_builtin_lookup("[auto]", true));
    assert!(!needs_builtin_lookup("[system]", false));
}
