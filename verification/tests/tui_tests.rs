use devproc::models::process::{ManagedProcess, ProcessSource};
use devproc::models::script::Script;
use devproc::process::manager::{ManagerError, ProcessManager};
use devproc::tui::{refresh_due, App, Key, KeyAction, Section};

fn script(name: &str) -> Script {
    Script::new(name.to_string(), "echo".to_string(), "/p/package.json".to_string(), "/p".to_string())
}

fn process(name: &str, pid: u32) -> ManagedProcess {
    ManagedProcess::new(name.to_string(), pid, "x".to_string(), vec![], "/".to_string(), None, ProcessSource::External)
}

#[test]
fn starts_on_scripts_when_no_process() {
    let app = App::new(ProcessManager::new(), vec![script("a"), script("b")]);
    assert_eq!(app.section(), Section::Scripts);
    assert_eq!(app.script_selection(), Some(0));
    assert_eq!(app.process_selection(), None);
    assert!(!app.should_quit());
}

#[test]
fn starts_on_processes_when_there_is_one() {
    let mut m = ProcessManager::new();
    m.add_process(process("p", 3_999_999));
    let app = App::new(m, vec![script("a")]);
    assert_eq!(app.section(), Section::Processes);
    assert_eq!(app.process_selection(), Some(0));
    assert_eq!(app.script_selection(), None);
}

#[test]
fn empty_app_selects_nothing() {
    let mut app = App::new(ProcessManager::new(), vec![]);
    assert_eq!(app.section(), Section::Processes);
    app.handle_key(Key::Down);
    app.handle_key(Key::Tab);
    assert_eq!(app.process_selection(), None);
    assert_eq!(app.section(), Section::Processes);
}

#[test]
fn moving_wraps_around() {
    let mut app = App::new(ProcessManager::new(), vec![script("a"), script("b"), script("c")]);
    assert_eq!(app.handle_key(Key::Down), KeyAction::Nothing);
    assert_eq!(app.script_selection(), Some(1));
    app.handle_key(Key::Down);
    app.handle_key(Key::Down);
    assert_eq!(app.script_selection(), Some(0));
    app.handle_key(Key::Up);
    assert_eq!(app.script_selection(), Some(2));
    app.handle_key(Key::Down);
    assert_eq!(app.script_selection(), Some(0));
}

#[test]
fn tab_needs_a_non_empty_list() {
    let mut app = App::new(ProcessManager::new(), vec![script("a")]);
    app.handle_key(Key::Tab);
    assert_eq!(app.section(), Section::Scripts);
    app.add_process(process("p", 3_999_999));
    app.handle_key(Key::Tab);
    assert_eq!(app.section(), Section::Processes);
    assert_eq!(app.process_selection(), Some(0));
    app.handle_key(Key::Tab);
    assert_eq!(app.section(), Section::Scripts);
    assert_eq!(app.script_selection(), Some(0));
}

#[test]
fn keys_ask_for_actions() {
    let mut app = App::new(ProcessManager::new(), vec![script("a")]);
    assert_eq!(app.section(), Section::Scripts);
    assert_eq!(app.handle_key(Key::Enter), KeyAction::RunSelected);
    assert_eq!(app.handle_key(Key::Kill), KeyAction::KillSelected);
    assert_eq!(app.handle_key(Key::Other), KeyAction::Nothing);
    assert_eq!(app.selected_script().map(|s| s.name.clone()), Some("a".to_string()));
    assert!(!app.should_quit());
    app.handle_key(Key::Quit);
    assert!(app.should_quit());
}

#[test]
fn kill_selected_needs_process_focus() {
    let mut app = App::new(ProcessManager::new(), vec![script("a")]);
    assert_eq!(app.kill_selected_process(), Ok(false));
    let mut m = ProcessManager::new();
    m.add_process(process("ghost", 3_999_999));
    let mut app = App::new(m, vec![]);
    assert!(app.selected_script().is_none());
    assert_eq!(app.kill_selected_process(), Err(ManagerError::SignalFailed));
    assert_eq!(app.manager().list_processes().len(), 1);
    assert_eq!(app.process_selection(), Some(0));
}

#[test]
fn app_refresh_forgets_ended_processes() {
    let mut m = ProcessManager::new();
    m.add_process(process("ghost", 3_999_999));
    let mut app = App::new(m, vec![]);
    app.refresh();
    assert!(app.manager().list_processes().is_empty());
    assert_eq!(app.process_selection(), Some(0));
    app.handle_key(Key::Down);
    assert_eq!(app.process_selection(), Some(0));
}

fn two_ghosts() -> App {
    let mut m = ProcessManager::new();
    m.add_process(process("ghost-a", 3_999_998));
    m.add_process(process("ghost-b", 3_999_999));
    App::new(m, vec![script("a")])
}

#[test]
fn space_marks_and_unmarks_the_selected_process() {
    let mut app = two_ghosts();
    let first = app.selected_process().unwrap().clone();
    assert_eq!(first.name, app.manager().list_processes()[0].name);
    assert_eq!(app.handle_key(Key::Mark), KeyAction::Nothing);
    assert!(app.is_marked(&first.id));
    app.handle_key(Key::Down);
    let second = app.selected_process().unwrap().clone();
    assert_ne!(first.id, second.id);
    app.handle_key(Key::Mark);
    assert!(app.is_marked(&first.id) && app.is_marked(&second.id));
    app.handle_key(Key::Mark);
    assert!(app.is_marked(&first.id) && !app.is_marked(&second.id));
    assert_eq!(app.handle_key(Key::Kill), KeyAction::KillMarked);
}

#[test]
fn a_marks_all_then_clears_all() {
    let mut app = two_ghosts();
    let ids: Vec<u128> = app.manager().list_processes().iter().map(|p| p.id).collect();
    app.handle_key(Key::MarkAll);
    assert!(ids.iter().all(|id| app.is_marked(id)));
    assert!(app.has_marked_processes());
    app.handle_key(Key::MarkAll);
    assert!(ids.iter().all(|id| !app.is_marked(id)));
    assert!(!app.has_marked_processes());
    assert_eq!(app.handle_key(Key::Kill), KeyAction::KillSelected);
}

#[test]
fn escape_closes_detail_then_clears_marks() {
    let mut app = two_ghosts();
    app.handle_key(Key::MarkAll);
    assert_eq!(app.handle_key(Key::Detail), KeyAction::Nothing);
    assert!(app.detail_open());
    app.handle_key(Key::Escape);
    assert!(!app.detail_open());
    assert!(app.has_marked_processes());
    app.handle_key(Key::Escape);
    assert!(!app.has_marked_processes());
    assert_eq!(app.handle_key(Key::Enter), KeyAction::Nothing);
    assert!(app.detail_open());
}

#[test]
fn detail_needs_a_selected_process() {
    let mut app = App::new(ProcessManager::new(), vec![script("a")]);
    app.handle_key(Key::Detail);
    assert!(!app.detail_open());
    assert!(app.selected_process().is_none());
}

#[test]
fn failed_batch_kill_keeps_marks_and_processes() {
    let mut app = two_ghosts();
    app.handle_key(Key::MarkAll);
    assert_eq!(app.kill_marked_processes(), Err(ManagerError::SignalFailed));
    assert!(app.has_marked_processes());
    assert_eq!(app.process_selection(), Some(0));
}

#[test]
fn batch_kill_of_ended_processes_clears_marks() {
    let mut app = two_ghosts();
    app.handle_key(Key::MarkAll);
    app.refresh();
    assert!(!app.has_marked_processes());
    assert_eq!(app.kill_marked_processes(), Ok(()));
    assert_eq!(app.handle_key(Key::MarkAll), KeyAction::Nothing);
    assert_eq!(app.process_selection(), None);
}

#[test]
fn refresh_is_due_after_a_second() {
    assert!(!refresh_due(0));
    assert!(!refresh_due(999));
    assert!(refresh_due(1000));
    assert!(refresh_due(5000));
}
