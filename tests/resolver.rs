use std::collections::HashMap;

use deploy_dll::config::Args;
use deploy_dll::resolver::{Action, Event, Phase, Resolver};

const X64: &str = "pei-x86-64";

#[derive(Clone, Default)]
struct World {
    imports: HashMap<String, Vec<String>>,
    files: HashMap<String, String>,
    in_system_dir: Vec<String>,
    walks: HashMap<String, Vec<String>>,
}

#[derive(Default, Debug)]
struct Trace {
    listed: Vec<String>,
    copies: Vec<(String, String)>,
    reported: Vec<String>,
    aborted: Option<(String, String)>,
}

fn strings(v: &[&str]) -> Vec<String> {
    v.iter().map(|s| s.to_string()).collect()
}

fn args() -> Args {
    Args {
        binary_file: "T/app.exe".to_string(),
        skip_env_path: false,
        copy_vc_redist: false,
        verbose: false,
        shallow_search_dir: vec![],
        no_shallow_search: false,
        deep_search_dir: vec![],
        no_deep_search: false,
        cmake_prefix_path: vec![],
        ignore: vec![],
        objdump_file: "[auto]".to_string(),
        allow_missing: false,
    }
}

fn base_name(path: &str) -> String {
    path.rsplit('/').next().unwrap().to_string()
}

fn run(args: &Args, world: &mut World, shallow: &[&str], deep: &[&str]) -> Trace {
    let known = strings(&["KERNEL32.dll", "USER32.dll"]);
    let mut r = Resolver::new(
        args.clone(),
        "T/app.exe".to_string(),
        "T".to_string(),
        X64.to_string(),
        known,
        strings(shallow),
        strings(deep),
    );
    let mut trace = Trace::default();
    let mut walk: Vec<String> = vec![];
    let mut pos = 0usize;
    for _ in 0..10_000 {
        match r.action() {
            Action::ListImports(b) => {
                trace.listed.push(b.clone());
                let imports = world.imports.get(&base_name(&b)).cloned().unwrap_or_default();
                r.advance(Event::Imports(imports));
            }
            Action::Classify { name, path } => {
                let present = world.files.contains_key(&path);
                let in_system_dir = world.in_system_dir.contains(&name);
                r.advance(Event::Classified { present, in_system_dir });
            }
            Action::Probe(p) => r.advance(Event::Format(world.files.get(&p).cloned())),
            Action::WalkFrom(d) => {
                walk = world.walks.get(&d).cloned().unwrap_or_default();
                pos = 0;
                let e = walk.get(pos).cloned();
                pos += 1;
                r.advance(Event::Entry(e));
            }
            Action::WalkOn => {
                let e = walk.get(pos).cloned();
                pos += 1;
                r.advance(Event::Entry(e));
            }
            Action::Copy { from, to } => {
                let f = world.files.get(&from).cloned().unwrap();
                world.files.insert(to.clone(), f);
                trace.copies.push((from, to));
                r.advance(Event::Copied);
            }
            Action::ReportMissing { name, binary: _ } => {
                trace.reported.push(name);
                r.advance(Event::Reported);
            }
            Action::Abort { name, binary } => {
                assert_eq!(r.phase, Phase::Failed);
                trace.aborted = Some((name, binary));
                return trace;
            }
            Action::Done => {
                assert_eq!(r.phase, Phase::Done);
                return trace;
            }
        }
    }
    panic!("the resolver did not finish");
}

fn chain_world() -> World {
    let mut w = World::default();
    w.imports.insert("app.exe".to_string(), strings(&["A.dll", "KERNEL32.dll"]));
    w.imports.insert("A.dll".to_string(), strings(&["B.dll", "user32.dll"]));
    w.imports.insert("B.dll".to_string(), strings(&["C.dll", "api-ms-win-crt-heap-l1-1-0.dll"]));
    w.imports.insert("C.dll".to_string(), strings(&["KERNEL32.dll"]));
    for n in ["A.dll", "B.dll", "C.dll"] {
        w.files.insert(format!("lib/{n}"), X64.to_string());
    }
    w.files.insert("T/app.exe".to_string(), X64.to_string());
    w
}

fn copied_to(t: &Trace) -> Vec<String> {
    t.copies.iter().map(|(_, to)| to.clone()).collect()
}

#[test]
fn closure_of_a_chain() {
    let mut w = chain_world();
    let t = run(&args(), &mut w, &["lib"], &[]);
    assert_eq!(
        t.copies,
        vec![
            ("lib/A.dll".to_string(), "T/A.dll".to_string()),
            ("lib/B.dll".to_string(), "T/B.dll".to_string()),
            ("lib/C.dll".to_string(), "T/C.dll".to_string()),
        ]
    );
    assert_eq!(t.listed, strings(&["T/app.exe", "T/A.dll", "T/B.dll", "T/C.dll"]));
    assert_eq!(t.aborted, None);
    let mut in_target: Vec<String> = w.files.keys().filter(|k| k.starts_with("T/")).cloned().collect();
    in_target.sort();
    assert_eq!(in_target, strings(&["T/A.dll", "T/B.dll", "T/C.dll", "T/app.exe"]));
}

#[test]
fn second_run_copies_nothing() {
    let mut w = chain_world();
    let first = run(&args(), &mut w, &["lib"], &[]);
    assert_eq!(first.copies.len(), 3);
    let second = run(&args(), &mut w, &["lib"], &[]);
    assert!(second.copies.is_empty());
    assert_eq!(second.listed, strings(&["T/app.exe"]));
}

#[test]
fn cyclic_imports_end() {
    let mut w = World::default();
    w.imports.insert("app.exe".to_string(), strings(&["A.dll"]));
    w.imports.insert("A.dll".to_string(), strings(&["B.dll"]));
    w.imports.insert("B.dll".to_string(), strings(&["A.dll"]));
    w.files.insert("lib/A.dll".to_string(), X64.to_string());
    w.files.insert("lib/B.dll".to_string(), X64.to_string());
    let t = run(&args(), &mut w, &["lib"], &[]);
    assert_eq!(copied_to(&t), strings(&["T/A.dll", "T/B.dll"]));
}

#[test]
fn wrong_architecture_rejected() {
    let mut w = World::default();
    w.imports.insert("app.exe".to_string(), strings(&["A.dll"]));
    w.files.insert("x86/A.dll".to_string(), "pe-i386".to_string());
    w.files.insert("x64/A.dll".to_string(), X64.to_string());
    let t = run(&args(), &mut w, &["x86", "x64"], &[]);
    assert_eq!(t.copies, vec![("x64/A.dll".to_string(), "T/A.dll".to_string())]);
}

#[test]
fn first_matching_directory_wins() {
    let mut w = World::default();
    w.imports.insert("app.exe".to_string(), strings(&["A.dll"]));
    w.files.insert("one/A.dll".to_string(), X64.to_string());
    w.files.insert("two/A.dll".to_string(), X64.to_string());
    let t = run(&args(), &mut w, &["one", "two"], &[]);
    assert_eq!(t.copies, vec![("one/A.dll".to_string(), "T/A.dll".to_string())]);
}

#[test]
fn missing_dependency_aborts() {
    let mut w = World::default();
    w.imports.insert("app.exe".to_string(), strings(&["Gone.dll", "A.dll"]));
    w.files.insert("lib/A.dll".to_string(), X64.to_string());
    let t = run(&args(), &mut w, &["lib"], &[]);
    assert_eq!(t.aborted, Some(("Gone.dll".to_string(), "T/app.exe".to_string())));
    assert!(t.copies.is_empty());
}

#[test]
fn missing_dependency_allowed() {
    let mut w = World::default();
    w.imports.insert("app.exe".to_string(), strings(&["Gone.dll", "A.dll"]));
    w.files.insert("lib/A.dll".to_string(), X64.to_string());
    let mut a = args();
    a.allow_missing = true;
    let t = run(&a, &mut w, &["lib"], &[]);
    assert_eq!(t.aborted, None);
    assert_eq!(t.reported, strings(&["Gone.dll"]));
    assert_eq!(copied_to(&t), strings(&["T/A.dll"]));
}

#[test]
fn deep_search_after_shallow() {
    let mut w = World::default();
    w.imports.insert("app.exe".to_string(), strings(&["A.dll"]));
    w.files.insert("deep/x/A.dll".to_string(), "pe-i386".to_string());
    w.files.insert("deep/y/z/A.dll".to_string(), X64.to_string());
    w.walks.insert("empty".to_string(), strings(&["empty"]));
    w.walks.insert("deep".to_string(), strings(&["deep", "deep/x", "deep/y", "deep/y/z"]));
    let t = run(&args(), &mut w, &["lib"], &["empty", "deep"]);
    assert_eq!(t.copies, vec![("deep/y/z/A.dll".to_string(), "T/A.dll".to_string())]);
}

#[test]
fn disabled_searches_find_nothing() {
    let mut w = World::default();
    w.imports.insert("app.exe".to_string(), strings(&["A.dll"]));
    w.files.insert("lib/A.dll".to_string(), X64.to_string());
    w.walks.insert("lib".to_string(), strings(&["lib"]));
    let mut a = args();
    a.no_shallow_search = true;
    a.no_deep_search = true;
    let t = run(&a, &mut w, &["lib"], &["lib"]);
    assert_eq!(t.aborted, Some(("A.dll".to_string(), "T/app.exe".to_string())));
    a.no_deep_search = false;
    let t = run(&a, &mut w, &["lib"], &["lib"]);
    assert_eq!(copied_to(&t), strings(&["T/A.dll"]));
}

#[test]
fn skipped_classes_not_searched() {
    let mut w = World::default();
    w.imports.insert(
        "app.exe".to_string(),
        strings(&["mine.dll", "kernel32.dll", "api-ms-win-core-file-l1-1-0.dll", "found.dll"]),
    );
    w.in_system_dir.push("found.dll".to_string());
    for n in ["mine.dll", "kernel32.dll", "api-ms-win-core-file-l1-1-0.dll", "found.dll"] {
        w.files.insert(format!("lib/{n}"), X64.to_string());
    }
    let mut a = args();
    a.ignore = strings(&["mine.dll"]);
    let t = run(&a, &mut w, &["lib"], &[]);
    assert!(t.copies.is_empty());
    a.copy_vc_redist = true;
    let t = run(&a, &mut w, &["lib"], &[]);
    assert_eq!(copied_to(&t), strings(&["T/api-ms-win-core-file-l1-1-0.dll"]));
}

#[test]
fn unanswered_event_changes_nothing() {
    let mut r = Resolver::new(
        args(),
        "T/app.exe".to_string(),
        "T".to_string(),
        X64.to_string(),
        vec![],
        vec![],
        vec![],
    );
    r.advance(Event::Copied);
    assert_eq!(r.phase, Phase::Start);
    match r.action() {
        Action::ListImports(b) => assert_eq!(b, "T/app.exe"),
        other => panic!("unexpected {:?}", other),
    }
    r.advance(Event::Imports(vec![]));
    assert_eq!(r.phase, Phase::Done);
    assert!(matches!(r.action(), Action::Done));
}
