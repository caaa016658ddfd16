use devproc::models::metrics::ProcessStatus;
use devproc::models::process::{ManagedProcess, ProcessSource};
use devproc::process::manager::{ManagerError, ProcessManager};

fn process(name: &str, pid: u32) -> ManagedProcess {
    ManagedProcess::new(
        name.to_string(),
        pid,
        "node".to_string(),
        vec!["server.js".to_string()],
        "/tmp/app".to_string(),
        Some(3000),
        ProcessSource::Manual { command: "node server.js".to_string() },
    )
}

/// A process identifier above the kernel's limit, so no process has it.
const ABSENT_PID: u32 = 3_999_999;

#[test]
fn new_process_keeps_its_fields() {
    let p = process("web", 42);
    assert_eq!(p.name, "web");
    assert_eq!(p.pid, 42);
    assert_eq!(p.command, "node");
    assert_eq!(p.args, vec!["server.js".to_string()]);
    assert_eq!(p.cwd, "/tmp/app");
    assert_eq!(p.port, Some(3000));
    assert_eq!(p.source, ProcessSource::Manual { command: "node server.js".to_string() });
    assert_ne!(p.id, process("web", 42).id);
}

#[test]
fn full_command_joins_arguments() {
    let p = process("web", 1);
    assert_eq!(p.full_command(), "node server.js");
    let mut q = process("web", 1);
    q.args.clear();
    assert_eq!(q.full_command(), "node");
}

#[test]
fn added_process_is_found_by_id_name_and_pid() {
    let mut m = ProcessManager::new();
    let p = process("web", ABSENT_PID);
    let id = p.id;
    m.add_process(p);
    assert_eq!(m.get_process(&id).map(|p| p.name.clone()), Some("web".to_string()));
    assert_eq!(m.get_process_by_name("web").map(|p| p.id), Some(id));
    assert_eq!(m.get_process_by_pid(ABSENT_PID).map(|p| p.id), Some(id));
    assert!(m.get_process_by_name("api").is_none());
    assert!(m.get_process_by_pid(7).is_none());
    assert_eq!(m.list_processes().len(), 1);
}

#[test]
fn remove_undoes_add() {
    let mut m = ProcessManager::new();
    let p = process("web", 10);
    let id = p.id;
    m.add_process(p);
    let removed = m.remove_process(&id).unwrap();
    assert_eq!(removed.id, id);
    assert!(m.get_process(&id).is_none());
    assert!(m.list_processes().is_empty());
    assert!(m.remove_process(&id).is_none());
}

#[test]
fn list_processes_holds_each_once() {
    let mut m = ProcessManager::default();
    let mut ids = Vec::new();
    for i in 0..5 {
        let p = process(&format!("p{}", i), 100 + i);
        ids.push(p.id);
        m.add_process(p);
    }
    let mut listed: Vec<u128> = m.list_processes().iter().map(|p| p.id).collect();
    listed.sort();
    ids.sort();
    assert_eq!(listed, ids);
    let mut keys: Vec<u128> = m.state_entries().iter().map(|(k, _)| *k).collect();
    keys.sort();
    assert_eq!(keys, ids);
}

#[test]
fn load_state_replaces_the_registry() {
    let mut m = ProcessManager::new();
    m.add_process(process("old", 1));
    let a = process("a", 2);
    let b = process("b", 3);
    let b_again = {
        let mut x = process("b2", 4);
        x.id = b.id;
        x
    };
    let (ida, idb) = (a.id, b.id);
    m.load_state(Some(vec![(ida, a), (idb, b), (idb, b_again)]));
    assert!(m.get_process_by_name("old").is_none());
    assert_eq!(m.list_processes().len(), 2);
    assert_eq!(m.get_process(&idb).unwrap().name, "b2");
    m.load_state(None);
    assert_eq!(m.list_processes().len(), 2);
}

#[test]
fn kill_unknown_process_fails() {
    let mut m = ProcessManager::new();
    m.add_process(process("web", ABSENT_PID));
    assert_eq!(m.kill_process(&12345, 15), Err(ManagerError::ProcessNotFound));
    assert_eq!(m.list_processes().len(), 1);
    assert_eq!(ManagerError::ProcessNotFound.message(), "Process not found");
}

#[test]
fn kill_that_cannot_be_delivered_keeps_the_process() {
    let mut m = ProcessManager::new();
    let p = process("ghost", ABSENT_PID);
    let id = p.id;
    m.add_process(p);
    assert_eq!(m.kill_process(&id, 9), Err(ManagerError::SignalFailed));
    assert!(m.get_process(&id).is_some());
    assert_eq!(ManagerError::SignalFailed.message(), "Failed to send signal to process");
}

#[test]
fn refresh_forgets_ended_processes() {
    let mut m = ProcessManager::new();
    let gone = process("gone", ABSENT_PID);
    let init = process("init", 1);
    let (gone_id, init_id) = (gone.id, init.id);
    m.add_process(gone);
    m.add_process(init);
    m.refresh();
    assert!(m.get_process(&gone_id).is_none());
    assert!(m.get_process(&init_id).is_some());
}

#[test]
fn remove_processes_removes_listed_ids() {
    let mut m = ProcessManager::new();
    let a = process("a", 1);
    let b = process("b", 2);
    let (ida, idb) = (a.id, b.id);
    m.add_process(a);
    m.add_process(b);
    m.remove_processes(&vec![ida, 999]);
    assert!(m.get_process(&ida).is_none());
    assert!(m.get_process(&idb).is_some());
}

#[test]
fn kill_request_names_pid_and_signal() {
    let mut m = ProcessManager::new();
    let p = process("web", 4242);
    let id = p.id;
    m.add_process(p);
    assert_eq!(m.kill_request(&id, 9), Ok((4242, 9)));
    assert_eq!(m.kill_request(&id, 1), Ok((4242, 1)));
    assert_eq!(m.kill_request(&(id ^ 1), 15), Err(ManagerError::ProcessNotFound));
}

#[test]
fn unknown_signal_numbers_fall_back_to_sigterm() {
    let mut m = ProcessManager::new();
    let p = process("web", 4242);
    let id = p.id;
    m.add_process(p);
    assert_eq!(m.kill_request(&id, 12345), Ok((4242, 15)));
    assert_eq!(m.kill_request(&id, 0), Ok((4242, 15)));
    assert_eq!(m.kill_request(&id, -3), Ok((4242, 15)));
    assert_eq!(m.kill_request(&id, 2), Ok((4242, 2)));
}

#[test]
fn status_texts() {
    assert_eq!(ProcessStatus::from_status_text("run"), ProcessStatus::Running);
    assert_eq!(ProcessStatus::from_status_text("running"), ProcessStatus::Running);
    assert_eq!(ProcessStatus::from_status_text("sleep"), ProcessStatus::Sleeping);
    assert_eq!(ProcessStatus::from_status_text("sleeping"), ProcessStatus::Sleeping);
    assert_eq!(ProcessStatus::from_status_text("zombie"), ProcessStatus::Zombie);
    assert_eq!(ProcessStatus::from_status_text("Runnable"), ProcessStatus::Unknown);
    assert_eq!(ProcessStatus::from_status_text(""), ProcessStatus::Unknown);
}

#[test]
fn detect_port_patterns() {
    assert_eq!(ProcessManager::detect_port("vite -p 3000"), Some(3000));
    assert_eq!(ProcessManager::detect_port("next dev --port 8080"), Some(8080));
    assert_eq!(ProcessManager::detect_port("serve --port=5173"), Some(5173));
    assert_eq!(ProcessManager::detect_port("open http://localhost:4200/app"), Some(4200));
    assert_eq!(ProcessManager::detect_port("PORT=3001 node index.js"), Some(3001));
    assert_eq!(ProcessManager::detect_port("node index.js"), None);
    assert_eq!(ProcessManager::detect_port("host:123"), None);
}

#[test]
fn detect_port_skips_numbers_out_of_range() {
    assert_eq!(ProcessManager::detect_port("x -p 99999 --port 80"), Some(80));
    assert_eq!(ProcessManager::detect_port("x -p 70000"), None);
    assert_eq!(ProcessManager::detect_port("-p 1 :3000"), Some(1));
}

#[test]
fn first_port_takes_first_valid_capture() {
    let caps = vec![None, Some("99999".to_string()), Some("abc".to_string()), Some("8000".to_string()), Some("1".to_string())];
    assert_eq!(ProcessManager::first_port(&caps), Some(8000));
    assert_eq!(ProcessManager::first_port(&vec![None, None]), None);
}

#[test]
fn generated_names() {
    assert_eq!(ProcessManager::generate_name("dev", "/home/u/shop", Some(3000)), "shop/dev/3000");
    assert_eq!(ProcessManager::generate_name("dev", "/home/u/shop/", None), "shop/dev");
    assert_eq!(ProcessManager::generate_name("dev", "/", None), "unknown/dev");
    assert_eq!(ProcessManager::generate_name("dev", "/a/b/..", Some(1)), "unknown/dev/1");
    assert_eq!(ProcessManager::generate_name("build", "proj", None), "proj/build");
}

#[test]
fn generated_names_skip_dots_and_separators() {
    assert_eq!(ProcessManager::generate_name("dev", "/w/shop/.//", None), "shop/dev");
    assert_eq!(ProcessManager::generate_name("dev", "/w//shop", None), "shop/dev");
    assert_eq!(ProcessManager::generate_name("dev", "./", None), "unknown/dev");
    assert_eq!(ProcessManager::generate_name("dev", ".", None), "unknown/dev");
    assert_eq!(ProcessManager::generate_name("dev", "", None), "unknown/dev");
    assert_eq!(ProcessManager::generate_name("dev", "/w/...", None), ".../dev");
    assert_eq!(ProcessManager::generate_name("dev", "../shop", None), "shop/dev");
}

#[test]
fn name_with_port_extends_name_without() {
    let with = ProcessManager::format_name(Some("app".to_string()), "dev", Some(8080));
    let without = ProcessManager::format_name(Some("app".to_string()), "dev", None);
    assert_eq!(with, format!("{}/8080", without));
    assert_eq!(ProcessManager::format_name(None, "x", None), "unknown/x");
}
