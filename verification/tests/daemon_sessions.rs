use anna_rs::daemon::sessions::{
    ask_decision, fail_session, finish_session, list_hitl, list_sessions, log_frame, poll_decision,
    prune_hitl_in_place, prune_sessions_in_place, recover_decisions, recover_sessions, resolve_hitl,
    start_session, stats, status_matches, stream_ends, update_stopped_session, HitlListQuery,
    HitlPending, SessionInfo, SessionsQuery,
};
use anna_rs::executor::HitlRequest;
use anna_rs::result::RunResult;
use anna_rs::strmap::StrMap;

fn session(id: &str, status: &str, at: u64) -> SessionInfo {
    SessionInfo {
        id: id.to_string(),
        status: status.to_string(),
        workflow: "wf".to_string(),
        owner: None,
        created_at: at,
        updated_at: at,
        runtime_session_id: None,
        outputs: StrMap::new(),
        errors: vec![],
    }
}

fn pending(id: &str, status: &str, decision: Option<&str>, at: u64) -> HitlPending {
    HitlPending {
        id: id.to_string(),
        session_id: "s".to_string(),
        workflow: "w".to_string(),
        stage_id: "x".to_string(),
        prompt: None,
        options: vec![],
        status: status.to_string(),
        decision: decision.map(|v| v.to_string()),
        created_at: at,
    }
}

#[test]
fn status_filter_is_case_insensitive_exact_match() {
    assert!(status_matches("running", "RUNNING"));
    assert!(status_matches("failed", " failed "));
    assert!(!status_matches("running", "run"));
}

#[test]
fn load_state_marks_running_sessions_interrupted() {
    let mut session_map_load = StrMap::new();
    session_map_load.insert("a1".to_string(), session("a1", "running", 1));
    let loaded_sessions = recover_sessions(&session_map_load, 9);
    let loaded = loaded_sessions
        .get("a1")
        .expect("session should exist after load");
    assert_eq!(loaded.status, "interrupted");
    assert!(loaded
        .errors
        .iter()
        .any(|e| e.contains("daemon restarted while session was running")));
}

#[test]
fn prune_sessions_removes_oldest_non_running_first() {
    let mut session_map_prune = StrMap::new();
    session_map_prune.insert("running".to_string(), session("running", "running", 1));
    session_map_prune.insert("old".to_string(), session("old", "done", 1));
    session_map_prune.insert("new".to_string(), session("new", "failed", 2));

    prune_sessions_in_place(&mut session_map_prune, 2);
    assert!(session_map_prune.contains_key("running"));
    assert!(session_map_prune.contains_key("new"));
    assert!(!session_map_prune.contains_key("old"));
}

#[test]
fn prune_hitl_prefers_resolved_items() {
    let mut hitl_map_prune = StrMap::new();
    hitl_map_prune.insert("pending".to_string(), pending("pending", "pending", None, 1));
    hitl_map_prune.insert(
        "resolved-old".to_string(),
        pending("resolved-old", "resolved", Some("approve"), 1),
    );
    hitl_map_prune.insert(
        "resolved-new".to_string(),
        pending("resolved-new", "resolved", Some("approve"), 2),
    );

    prune_hitl_in_place(&mut hitl_map_prune, 2);
    assert!(hitl_map_prune.contains_key("pending"));
    assert!(hitl_map_prune.contains_key("resolved-new"));
    assert!(!hitl_map_prune.contains_key("resolved-old"));
}

fn request() -> HitlRequest {
    HitlRequest {
        session_id: "sess-x".to_string(),
        workflow: "wf".to_string(),
        stage_id: "stage".to_string(),
        prompt: Some("approve?".to_string()),
        options: vec!["approve".to_string(), "reject".to_string()],
    }
}

#[test]
fn daemon_hitl_handler_waits_for_resolution() {
    let mut pending_map = StrMap::new();
    ask_decision(&mut pending_map, "h1", &request(), 5, 32);
    assert_eq!(poll_decision(&pending_map, "h1"), None);
    let item = resolve_hitl(&mut pending_map, "h1", "approve", 32).ok().expect("resolved");
    assert_eq!(item.status, "resolved");
    assert_eq!(poll_decision(&pending_map, "h1").as_deref(), Some("approve"));
    for max_hitl in [0, 1] {
        resolve_hitl(&mut pending_map, "h1", " later ", max_hitl).ok().expect("resolved");
        assert_eq!(poll_decision(&pending_map, "h1").as_deref(), Some("later"));
    }
}

#[test]
fn decisions_that_cannot_be_settled_are_refused() {
    let mut pending_map = StrMap::new();
    ask_decision(&mut pending_map, "h1", &request(), 5, 32);
    let blank = resolve_hitl(&mut pending_map, "h1", "  ", 32).err().expect("blank");
    assert_eq!((blank.status, blank.message.as_str()), (400, "decision is required"));
    let unknown = resolve_hitl(&mut pending_map, "h2", "yes", 32).err().expect("unknown");
    assert_eq!((unknown.status, unknown.message.as_str()), (404, "hitl request not found"));
    assert_eq!(recover_decisions(&pending_map).len(), 1);
}

#[test]
fn a_session_starts_and_ends() {
    let mut sessions = StrMap::new();
    start_session(&mut sessions, "r1", "abcd1234", "wf", &Some("ops".to_string()), 10, 5);
    assert_eq!(sessions.get("r1").map(|s| s.status.as_str()), Some("running"));
    assert_eq!(
        sessions.get("r1").and_then(|s| s.runtime_session_id.as_deref()),
        Some("abcd1234")
    );

    let mut result = RunResult::new();
    result.set_success("a", "out".to_string());
    finish_session(&mut sessions, "r1", &result, 12, 5);
    let done = sessions.get("r1").expect("session");
    assert_eq!(done.status, "done");
    assert_eq!(done.updated_at, 12);
    assert_eq!(done.outputs.get("a").map(String::as_str), Some("out"));

    start_session(&mut sessions, "r2", "x", "wf", &None, 13, 5);
    fail_session(&mut sessions, "r2", "boom", 14, 5);
    assert_eq!(sessions.get("r2").map(|s| s.status.as_str()), Some("failed"));

    start_session(&mut sessions, "r3", "x", "wf", &None, 15, 5);
    let stopped = update_stopped_session(&mut sessions, "r3", true, 5, 16).expect("known");
    assert_eq!(stopped.status, "stopped");
    assert!(update_stopped_session(&mut sessions, "nope", true, 5, 16).is_none());

    let counts = stats(&sessions, &StrMap::new());
    assert_eq!(counts.sessions_total, 3);
    assert_eq!(counts.sessions_done, 1);
    assert_eq!(counts.sessions_failed, 1);
    assert_eq!(counts.sessions_running, 0);
    assert_eq!(counts.sessions_other, 1);
}

#[test]
fn lists_are_filtered_and_limited() {
    let mut sessions = StrMap::new();
    sessions.insert("a".to_string(), session("a", "done", 1));
    sessions.insert("b".to_string(), session("b", "running", 2));
    sessions.insert("c".to_string(), session("c", "done", 3));
    let query = SessionsQuery {
        status: Some("DONE".to_string()),
        owner: None,
        workflow: None,
        limit: None,
    };
    let ids: Vec<String> = list_sessions(&sessions, &query).into_iter().map(|s| s.id).collect();
    assert_eq!(ids, vec!["c".to_string(), "a".to_string()]);
    let one = SessionsQuery {
        status: None,
        owner: None,
        workflow: Some("wf".to_string()),
        limit: Some(1),
    };
    assert_eq!(list_sessions(&sessions, &one).len(), 1);

    let mut hitl = StrMap::new();
    hitl.insert("h".to_string(), pending("h", "pending", None, 1));
    let query = HitlListQuery {
        status: Some("resolved".to_string()),
        session_id: None,
        workflow: None,
        limit: None,
    };
    assert!(list_hitl(&hitl, &query).is_empty());
}

#[test]
fn log_frames_tell_when_a_run_is_over() {
    assert!(stream_ends("done") && stream_ends("failed") && stream_ends("stopped"));
    assert!(!stream_ends("running"));
    let (frame, last) = log_frame("r9", None, StrMap::new());
    assert_eq!(frame.status, "not_found");
    assert_eq!(frame.errors, vec!["session not found".to_string()]);
    assert!(last);
    let running = session("r1", "running", 1);
    let (frame, last) = log_frame("r1", Some(&running), StrMap::new());
    assert_eq!(frame.id, "r1");
    assert!(!last);
}
