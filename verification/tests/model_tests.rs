use devproc::config::manager::ConfigManager;
use devproc::models::config::Config;
use devproc::models::history::HistoryEntry;
use devproc::models::script::Script;
use devproc::process::history::HistoryManager;

fn entry(command: &str) -> HistoryEntry {
    HistoryEntry::new(command.to_string(), vec!["x".to_string()], "/w".to_string())
}

#[test]
fn history_entry_starts_without_outcome() {
    let e = HistoryEntry::new("make".to_string(), vec![], "/w".to_string());
    assert_eq!(e.command, "make");
    assert!(e.exit_code.is_none());
    assert!(e.duration_secs.is_none());
    assert_eq!(e.full_command(), "make");
    assert_eq!(entry("ls").full_command(), "ls x");
}

#[test]
fn history_keeps_newest_first_within_bound() {
    let mut h = HistoryManager::new(2);
    h.add_entry(entry("a"));
    h.add_entry(entry("b"));
    h.add_entry(entry("c"));
    let names: Vec<&str> = h.list_entries().iter().map(|e| e.command.as_str()).collect();
    assert_eq!(names, vec!["c", "b"]);
}

#[test]
fn history_with_no_room_keeps_nothing() {
    let mut h = HistoryManager::new(0);
    h.add_entry(entry("a"));
    assert!(h.list_entries().is_empty());
}

#[test]
fn history_default_bound_is_one_hundred() {
    let mut h = HistoryManager::default();
    for i in 0..101 {
        h.add_entry(entry(&format!("c{}", i)));
    }
    assert_eq!(h.list_entries().len(), 100);
    assert_eq!(h.list_entries()[0].command, "c100");
    assert_eq!(h.list_entries()[99].command, "c1");
}

#[test]
fn history_clear_and_load() {
    let mut h = HistoryManager::new(1);
    h.add_entry(entry("a"));
    h.clear();
    assert!(h.list_entries().is_empty());
    h.load(Some(vec![entry("x"), entry("y"), entry("z")]));
    assert_eq!(h.list_entries().len(), 3);
    h.load(None);
    assert_eq!(h.list_entries().len(), 3);
    h.add_entry(entry("n"));
    assert_eq!(h.list_entries().len(), 1);
    assert_eq!(h.list_entries()[0].command, "n");
}

#[test]
fn default_config() {
    let c = Config::default();
    assert_eq!(c.general.refresh_interval, 1000);
    assert_eq!(c.general.max_history, 100);
    assert!(c.general.detect_external);
    assert_eq!(c.general.external_patterns, vec!["node", "java", "python", "ruby", "go run", "cargo run"]);
    assert_eq!(c.ui.theme, "dark");
    assert_eq!(c.ui.section_order, vec!["processes", "scripts", "history"]);
    assert_eq!(c.ui.initial_focus, "processes");
    assert_eq!(c.scripts.detect_files, vec!["package.json", "build.gradle", "build.gradle.kts", "Makefile", "Cargo.toml"]);
    assert_eq!(c.scripts.exclude_patterns, vec!["pre.*", "post.*"]);
    assert_eq!(c.naming.format, "{dir}/{script}/{port}");
    assert_eq!(c.naming.format_no_port, "{dir}/{script}");
}

#[test]
fn config_path() {
    assert_eq!(ConfigManager::get_config_path(Some("/home/u/.config".to_string())), "/home/u/.config/devproc/config.toml");
    assert_eq!(ConfigManager::get_config_path(Some("/home/u/.config/".to_string())), "/home/u/.config/devproc/config.toml");
    assert_eq!(ConfigManager::get_config_path(None), "./devproc/config.toml");
}

#[test]
fn new_script_is_not_running() {
    let s = Script::new("dev".to_string(), "vite".to_string(), "/p/package.json".to_string(), "/p".to_string());
    assert_eq!(s.name, "dev");
    assert_eq!(s.command, "vite");
    assert_eq!(s.source_file, "/p/package.json");
    assert_eq!(s.project_dir, "/p");
    assert!(!s.is_running);
    assert!(s.running_process_id.is_none());
}
