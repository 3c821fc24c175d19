use deploy_dll::classify::{classify, is_system_dll, is_vc_redist_dll, Classification};
use deploy_dll::config::Args;

fn args() -> Args {
    Args {
        binary_file: "app.exe".to_string(),
        skip_env_path: false,
        copy_vc_redist: false,
        verbose: false,
        shallow_search_dir: vec![],
        no_shallow_search: false,
        deep_search_dir: vec![],
        no_deep_search: false,
        cmake_prefix_path: vec![],
        ignore: vec!["KERNEL32.dll".to_string(), "mine.dll".to_string()],
        objdump_file: "[auto]".to_string(),
        allow_missing: false,
    }
}

fn known() -> Vec<String> {
    vec!["KERNEL32.dll".to_string(), "user32.dll".to_string()]
}

#[test]
fn redistributable_prefix() {
    assert!(is_vc_redist_dll("api-ms-win-crt-runtime-l1-1-0.dll"));
    assert!(is_vc_redist_dll("api-ms-win"));
    assert!(!is_vc_redist_dll("api-ms-wi"));
    assert!(!is_vc_redist_dll("API-MS-WIN-crt.dll"));
    assert!(!is_vc_redist_dll("xapi-ms-win.dll"));
}

#[test]
fn system_list_ignores_case() {
    assert!(is_system_dll("kernel32.DLL", &known(), false));
    assert!(is_system_dll("USER32.dll", &known(), false));
    assert!(!is_system_dll("zlib1.dll", &known(), false));
    assert!(is_system_dll("zlib1.dll", &known(), true));
    assert!(!is_system_dll("kernel32.dll", &vec![], false));
}

#[test]
fn ignore_list_precedes_system() {
    assert_eq!(classify(&"KERNEL32.dll".to_string(), &args(), false, &known(), false), Classification::Ignored);
    assert_eq!(classify(&"kernel32.dll".to_string(), &args(), false, &known(), false), Classification::SystemOwned);
}

#[test]
fn present_precedes_everything() {
    assert_eq!(classify(&"KERNEL32.dll".to_string(), &args(), true, &known(), true), Classification::AlreadyPresent);
    assert_eq!(classify(&"zlib1.dll".to_string(), &args(), true, &known(), false), Classification::AlreadyPresent);
}

#[test]
fn redistributables_skipped_unless_asked() {
    let name = "api-ms-win-crt-heap-l1-1-0.dll".to_string();
    assert_eq!(classify(&name, &args(), false, &known(), false), Classification::Redistributable);
    let mut a = args();
    a.copy_vc_redist = true;
    assert_eq!(classify(&name, &a, false, &known(), false), Classification::Unresolved);
}

#[test]
fn other_names_unresolved() {
    assert_eq!(classify(&"zlib1.dll".to_string(), &args(), false, &known(), false), Classification::Unresolved);
    assert_eq!(classify(&"zlib1.dll".to_string(), &args(), false, &known(), true), Classification::SystemOwned);
}
