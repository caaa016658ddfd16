use devproc::cli::{elapsed_label, find_script, memory_mb, port_label, resolve_kill_target, state_file_path};
use devproc::models::process::{ManagedProcess, ProcessSource};
use devproc::models::script::Script;
use devproc::process::manager::ProcessManager;
use devproc::script::detector::{gradle_build_file, DirEntryInfo, ProjectFiles, ScriptDetector, ScriptError};
use devproc::script::makefile::makefile_targets;
use devproc::script::runner::{RunError, ScriptRunner};

const PACKAGE: &str = r#"{"name":"shop","scripts":{"dev":"vite --port 5173","build":"tsc && vite build","predev":"echo pre","postbuild":"echo post","prepare":"husky","lint":1,"start":"node server.js -p 3000"}}"#;

fn names(scripts: &[Script]) -> Vec<&str> {
    scripts.iter().map(|s| s.name.as_str()).collect()
}

#[test]
fn package_json_scripts_without_pre_and_post() {
    let scripts = ScriptDetector::detect_package_json("/w/shop", PACKAGE).unwrap();
    assert_eq!(names(&scripts), vec!["build", "dev", "start"]);
    assert_eq!(scripts[1].command, "vite --port 5173");
    for s in &scripts {
        assert_eq!(s.source_file, "/w/shop/package.json");
        assert_eq!(s.project_dir, "/w/shop");
        assert!(!s.is_running);
    }
}

#[test]
fn package_json_errors_and_absences() {
    assert_eq!(ScriptDetector::detect_package_json("/w", "{not json").unwrap_err(), ScriptError::InvalidJson);
    assert!(ScriptDetector::detect_package_json("/w", r#"{"name":"x"}"#).unwrap().is_empty());
    assert!(ScriptDetector::detect_package_json("/w", r#"{"scripts":["a"]}"#).unwrap().is_empty());
    assert!(ScriptDetector::detect_scripts("/w", files(None, None, None, false)).is_empty());
    assert!(ScriptDetector::detect_scripts("/w", files(Some("["), None, None, false)).is_empty());
    assert_eq!(
        names(&ScriptDetector::detect_scripts("/w", files(Some(PACKAGE), None, None, false))),
        vec!["build", "dev", "start"]
    );
}

#[test]
fn package_json_path() {
    assert_eq!(ScriptDetector::package_json_path("/w/shop"), "/w/shop/package.json");
    assert_eq!(ScriptDetector::package_json_path(""), "package.json");
}

#[test]
fn scripts_from_entries_keeps_order() {
    let entries = vec![
        ("zeta".to_string(), Some("z".to_string())),
        ("alpha".to_string(), Some("a".to_string())),
        ("pretest".to_string(), Some("p".to_string())),
        ("num".to_string(), None),
    ];
    let s = ScriptDetector::scripts_from_entries(&entries, "f", "d");
    assert_eq!(names(&s), vec!["zeta", "alpha"]);
}

#[test]
fn project_dirs() {
    let entry = |path: &str, name: Option<&str>, is_dir: bool, pkg: bool| DirEntryInfo {
        path: path.to_string(),
        file_name: name.map(|n| n.to_string()),
        is_dir,
        has_package_json: pkg,
    };
    let entries = vec![
        entry("/w/api", Some("api"), true, true),
        entry("/w/.git", Some(".git"), true, true),
        entry("/w/node_modules", Some("node_modules"), true, true),
        entry("/w/docs", Some("docs"), true, false),
        entry("/w/file.txt", Some("file.txt"), false, false),
        entry("/w/odd", None, true, true),
    ];
    assert_eq!(ScriptDetector::find_project_dirs("/w", true, &entries), vec!["/w", "/w/api", "/w/odd"]);
    assert_eq!(ScriptDetector::find_project_dirs("/w", false, &vec![]), Vec::<String>::new());
}

fn script(command: &str) -> Script {
    Script::new("dev".to_string(), command.to_string(), "/w/shop/package.json".to_string(), "/w/shop".to_string())
}

#[test]
fn plan_script_detects_port_and_names() {
    let plan = ScriptRunner::plan_script(&script("vite --port 5173"), None, None, vec![]).unwrap();
    assert_eq!(plan.program, "vite");
    assert_eq!(plan.args, vec!["--port", "5173"]);
    assert_eq!(plan.cwd, "/w/shop");
    assert_eq!(plan.port, Some(5173));
    assert_eq!(plan.name, "shop/dev/5173");
    assert_eq!(plan.source, ProcessSource::Script { file: "package.json".to_string(), name: "dev".to_string() });
}

#[test]
fn plan_script_custom_port_and_name_win() {
    let plan = ScriptRunner::plan_script(&script("vite --port 5173"), Some("web".to_string()), Some(80), vec!["--host".to_string()]).unwrap();
    assert_eq!(plan.port, Some(80));
    assert_eq!(plan.name, "web");
    assert_eq!(plan.args, vec!["--port", "5173", "--host"]);
    let plan = ScriptRunner::plan_script(&script("vite"), None, Some(81), vec![]).unwrap();
    assert_eq!(plan.name, "shop/dev/81");
}

#[test]
fn plan_script_looks_for_port_in_extra_arguments() {
    let plan = ScriptRunner::plan_script(&script("vite"), None, None, vec!["--port".to_string(), "4000".to_string()]).unwrap();
    assert_eq!(plan.port, Some(4000));
    let plan = ScriptRunner::plan_script(&script("vite"), None, None, vec![]).unwrap();
    assert_eq!(plan.port, None);
    assert_eq!(plan.name, "shop/dev");
}

#[test]
fn plan_script_rejects_empty_command() {
    assert_eq!(ScriptRunner::plan_script(&script("   "), None, None, vec![]).unwrap_err(), RunError::EmptyCommand);
}

#[test]
fn plan_manual_command() {
    let plan = ScriptRunner::plan_manual_command("python -m http.server PORT=8000", "/w/site".to_string(), None).unwrap();
    assert_eq!(plan.program, "python");
    assert_eq!(plan.args, vec!["-m", "http.server", "PORT=8000"]);
    assert_eq!(plan.port, Some(8000));
    assert_eq!(plan.name, "site/python/8000");
    assert_eq!(plan.source, ProcessSource::Manual { command: "python -m http.server PORT=8000".to_string() });
    let p = plan.into_process(77);
    assert_eq!(p.pid, 77);
    assert_eq!(p.name, "site/python/8000");
    assert_eq!(p.full_command(), "python -m http.server PORT=8000");
    assert_eq!(ScriptRunner::plan_manual_command("", "/".to_string(), None).unwrap_err(), RunError::EmptyCommand);
    let named = ScriptRunner::plan_manual_command("ls", "/".to_string(), Some("list".to_string())).unwrap();
    assert_eq!(named.name, "list");
}

#[test]
fn state_file() {
    assert_eq!(state_file_path(Some("/home/u/.local/share".to_string())), "/home/u/.local/share/devproc/processes.json");
    assert_eq!(state_file_path(None), "./devproc/processes.json");
}

#[test]
fn find_script_by_name() {
    let scripts = vec![script("a"), Script::new("build".to_string(), "b".to_string(), "f".to_string(), "d".to_string())];
    assert_eq!(find_script(&scripts, "build"), Some(1));
    assert_eq!(find_script(&scripts, "dev"), Some(0));
    assert_eq!(find_script(&scripts, "test"), None);
}

fn process(name: &str, pid: u32) -> ManagedProcess {
    ManagedProcess::new(name.to_string(), pid, "x".to_string(), vec![], "/".to_string(), None, ProcessSource::External)
}

#[test]
fn kill_target_by_name_then_pid() {
    let mut m = ProcessManager::new();
    let a = process("web", 4242);
    let b = process("4242", 7);
    let (ida, idb) = (a.id, b.id);
    m.add_process(a);
    m.add_process(b);
    assert_eq!(resolve_kill_target(&m, "web").map(|p| p.id), Some(ida));
    assert_eq!(resolve_kill_target(&m, "4242").map(|p| p.id), Some(idb));
    assert_eq!(resolve_kill_target(&m, "+7").map(|p| p.id), Some(idb));
    assert_eq!(resolve_kill_target(&m, "8").map(|p| p.id), None);
    assert_eq!(resolve_kill_target(&m, "api").map(|p| p.id), None);
}

#[test]
fn elapsed_labels() {
    assert_eq!(elapsed_label(7200, true), "2h ago");
    assert_eq!(elapsed_label(3599, false), "59m");
    assert_eq!(elapsed_label(120, true), "2m ago");
    assert_eq!(elapsed_label(59, false), "59s");
    assert_eq!(elapsed_label(0, true), "0s ago");
    assert_eq!(elapsed_label(-5, false), "-5s");
}

fn files(package_json: Option<&str>, gradle: Option<&str>, makefile: Option<&str>, cargo: bool) -> ProjectFiles {
    ProjectFiles {
        package_json: package_json.map(|s| s.to_string()),
        gradle_file: gradle.map(|s| s.to_string()),
        makefile: makefile.map(|s| s.to_string()),
        has_cargo_toml: cargo,
    }
}

#[test]
fn makefile_targets_become_scripts() {
    let text = ".PHONY: build test\nCC := gcc\nbuild: main.o\n\tgcc -o app main.o\ntest:\n\t./app --test\n# comment: no\nsrc/gen.c: gen.py\n";
    let scripts = ScriptDetector::detect_scripts("/w", files(None, None, Some(text), false));
    assert_eq!(names(&scripts), vec!["build", "test", "src/gen.c"]);
    assert_eq!(scripts[0].command, "make build");
    assert_eq!(scripts[0].source_file, "/w/Makefile");
    assert_eq!(scripts[0].project_dir, "/w");
    assert!(!scripts[0].is_running);
}

#[test]
fn makefile_target_parsing() {
    assert_eq!(makefile_targets("all:\n"), vec!["all"]);
    assert_eq!(makefile_targets("all:"), vec!["all"]);
    assert_eq!(makefile_targets("x = 1\ny := 2\n\tz:\n.PHONY: all\n:\n"), Vec::<String>::new());
    assert_eq!(makefile_targets("a: b\r\nc:\r\n"), vec!["a", "c"]);
    assert_eq!(makefile_targets(""), Vec::<String>::new());
}

#[test]
fn gradle_and_cargo_offer_their_commands() {
    let scripts = ScriptDetector::detect_scripts("/w", files(None, Some("build.gradle.kts"), None, true));
    assert_eq!(names(&scripts), vec!["build", "test", "run", "clean", "build", "run", "test", "check"]);
    assert_eq!(scripts[1].command, "gradle test");
    assert_eq!(scripts[1].source_file, "/w/build.gradle.kts");
    assert_eq!(scripts[7].command, "cargo check");
    assert_eq!(scripts[7].source_file, "/w/Cargo.toml");
}

#[test]
fn build_files_come_in_order() {
    let scripts = ScriptDetector::detect_scripts("/w", files(Some(PACKAGE), Some("build.gradle"), Some("lint:\n"), true));
    let n = names(&scripts);
    assert_eq!(&n[..3], &["build", "dev", "start"]);
    assert_eq!(&n[3..7], &["build", "test", "run", "clean"]);
    assert_eq!(n[7], "lint");
    assert_eq!(scripts[7].command, "make lint");
    assert_eq!(&n[8..], &["build", "run", "test", "check"]);
}

#[test]
fn listing_labels() {
    assert_eq!(port_label(Some(3000)), "3000");
    assert_eq!(port_label(None), "-");
    assert_eq!(memory_mb(0), 0);
    assert_eq!(memory_mb(1048575), 0);
    assert_eq!(memory_mb(5 * 1048576 + 7), 5);
}

#[test]
fn gradle_file_choice() {
    assert_eq!(gradle_build_file(true, true), Some("build.gradle".to_string()));
    assert_eq!(gradle_build_file(false, true), Some("build.gradle.kts".to_string()));
    assert_eq!(gradle_build_file(false, false), None);
}

#[test]
fn package_json_scripts_come_sorted_and_once() {
    let text = r#"{"scripts":{"b":"x","a":"y","b":"z","C":"w"}}"#;
    let scripts = ScriptDetector::detect_package_json("/w", text).unwrap();
    assert_eq!(names(&scripts), vec!["C", "a", "b"]);
    assert_eq!(scripts[2].command, "z");
}
