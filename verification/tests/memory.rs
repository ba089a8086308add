use anna_rs::memory::{sanitize_name, MemoryStore, WorkflowMemory};
use anna_rs::result::RunResult;
use anna_rs::session::{gen_session_id, session_dir, session_id_from, stage_log_path};
use anna_rs::strmap::StrMap;

#[test]
fn save_and_inject_memory_vars() {
    let store = MemoryStore::new("/tmp/anna-mem-test".to_string(), 10);

    let mut run = RunResult::new();
    run.outputs.insert("check".to_string(), "ok".to_string());
    run.success.insert("check".to_string(), true);
    let mut memory = WorkflowMemory::empty("wf");
    store.record_snapshot(&mut memory, "wf", &run, 7);

    let mut outputs = StrMap::new();
    memory.inject_last(&mut outputs);
    assert_eq!(outputs.get("memory.check"), Some(&"ok".to_string()));
    assert!(outputs.get("memory.SESSION").is_none());
}

#[test]
fn memory_keeps_the_last_runs() {
    let store = MemoryStore::new("/m".to_string(), 2);
    let mut memory = WorkflowMemory::empty("wf");
    for now in 1..=4u64 {
        let mut run = RunResult::new();
        run.outputs.insert("n".to_string(), format!("{}", now));
        run.outputs.insert("memory.n".to_string(), "old".to_string());
        store.record_snapshot(&mut memory, "wf", &run, now);
    }
    assert_eq!(memory.entries.len(), 2);
    assert_eq!(memory.entries[0].ts, 3);
    assert_eq!(memory.entries[1].out.get("n").map(String::as_str), Some("4"));
    assert!(memory.entries[1].out.get("memory.n").is_none());
}

#[test]
fn memory_lies_under_the_home_directory() {
    assert_eq!(MemoryStore::default_for(Some("/home/a")).root, "/home/a/.anna/memory");
    assert_eq!(MemoryStore::default_for(None).root, "/tmp/anna-memory");
    assert_eq!(
        MemoryStore::default_for(Some("/h")).memory_file("a b/c"),
        "/h/.anna/memory/a_b_c.json"
    );
    assert_eq!(sanitize_name("../x"), "___x");
}

#[test]
fn session_ids_are_eight_digits() {
    assert_eq!(session_id_from(Some([0, 1, 171, 255]), 5), "0001abff");
    assert_eq!(session_id_from(None, 0x1_0000_00ff), "000000ff");
    let id = gen_session_id();
    assert_eq!(id.len(), 8);
    assert!(id.chars().all(|c| c.is_ascii_hexdigit()));
    assert_eq!(session_dir("ab"), "/tmp/anna/ab");
    assert_eq!(stage_log_path("ab", "build"), "/tmp/anna/ab/build.log");
}

#[test]
fn results_record_successes_and_errors() {
    let mut run = RunResult::new();
    assert_eq!(run.outputs.get("SESSION"), Some(&run.session_id));
    run.set_success("a", "out".to_string());
    run.set_error("b", "why".to_string());
    run.add_child("c1".to_string());
    assert_eq!(run.outputs.get("a").map(String::as_str), Some("out"));
    assert_eq!(run.success.get("a"), Some(&true));
    assert_eq!(run.success.get("b"), Some(&false));
    assert_eq!(run.errors, vec!["b: why".to_string()]);
    assert_eq!(run.children, vec!["c1".to_string()]);
}
