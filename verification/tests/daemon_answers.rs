use anna_rs::daemon::answers::{
    body_check, chat_check, chat_verdict, checked_body, flow_check, hook_listeners,
    runtime_session, session_named, ChatVerdict,
};
use anna_rs::daemon::audit::{
    audit_line, chat_intent_blocked, chat_intent_launched, chat_intents_reloaded, daemon_started,
    hitl_resolved, hook_no_match, hook_rejected_not_leader, hook_scan_failed, hook_triggered,
    leader_refresh_failed, workflow_stop, workflow_stop_not_found, AuditEvent,
};
use anna_rs::daemon::chat::{route_texts, rules_changed, ChatIntentConfig, ChatRunRequest};
use anna_rs::daemon::flows::{NodePolicy, OwnerConcurrencyPolicy, WorkflowEntry};
use anna_rs::daemon::launch::{check_flow, HookOutcomes};
use anna_rs::daemon::policy::PolicyInputs;
use anna_rs::daemon::registry::{
    discovered_entry, is_flow_file, registered_entries, registered_entry, FlowRegistryEntry,
};
use anna_rs::daemon::sessions::{HitlPending, SessionInfo};
use anna_rs::daemon::settings::TriggerLeaseConfig;
use anna_rs::daemon::tasks::{begin_launch, end_launch, Launch};
use anna_rs::daemon::trigger::{TriggerLeaderState, TriggerScheduler};
use anna_rs::daemon::turns::{cron_turn, interval_turn, watch_target, CronTurn, IntervalTurn};
use anna_rs::json::compact_json;
use anna_rs::result::RunResult;
use anna_rs::strmap::{StrMap, StrSet};
use anna_rs::workflow::{Stage, TriggerConfig, Workflow};

fn set(items: &[&str]) -> StrSet {
    StrSet::of(&items.iter().map(|v| v.to_string()).collect())
}

fn entry(name: &str) -> WorkflowEntry {
    WorkflowEntry {
        file_name: format!("{}.anna", name),
        flow_id: Some(name.to_string()),
        workflow_name: name.to_string(),
        path: format!("/plays/{}.anna", name),
        tags: vec![],
        required_capabilities: vec![],
        required_providers: vec![],
        owner: None,
        version: None,
        max_concurrency: None,
        trigger_webhook: None,
        trigger_watch: None,
        trigger_cron: None,
        trigger_interval: None,
        workflow_workdir: None,
    }
}

fn workflow(name: &str, providers: &[&str]) -> Workflow {
    let stages = providers
        .iter()
        .enumerate()
        .map(|(i, provider)| Stage {
            id: format!("s{}", i),
            provider: provider.to_string(),
            do_prompt: Some("go".to_string()),
            ..Default::default()
        })
        .collect();
    Workflow {
        name: name.to_string(),
        mode: "once".to_string(),
        memory: false,
        tags: vec![],
        vars: StrMap::new(),
        env: StrMap::new(),
        workdir: None,
        trigger: TriggerConfig::default(),
        stages,
        source_path: None,
    }
}

fn node() -> NodePolicy {
    NodePolicy {
        capabilities: set(&[]),
        allowed_providers: Some(set(&["shell"])),
        owners: OwnerConcurrencyPolicy {
            per_owner: StrMap::new(),
            default_limit: None,
        },
    }
}

fn rule(workflow: &str, cap: Option<u32>) -> ChatIntentConfig {
    ChatIntentConfig {
        workflow: workflow.to_string(),
        allowed_callers: vec![],
        allowed_owners: vec!["ops".to_string()],
        required_tags: vec![],
        max_iterations_cap: cap,
    }
}

fn launch() -> Launch {
    Launch {
        id: "req".to_string(),
        runtime_id: "run".to_string(),
        workflow: "deploy".to_string(),
        owner: Some("ops".to_string()),
        source: "trigger:cron".to_string(),
    }
}

fn shown(event: &AuditEvent) -> String {
    format!("{} {}", event.name, compact_json(&event.data))
}

#[test]
fn bodies_are_checked() {
    let unread = checked_body(Err("bad".to_string())).err().expect("no yaml");
    assert_eq!((unread.status, unread.message.as_str()), (400, "invalid workflow yaml: bad"));
    let invalid = checked_body(Ok(workflow("", &["shell"]))).err().expect("no name");
    assert_eq!(invalid.status, 400);
    assert!(invalid.message.starts_with("workflow validation failed: "));
    let valid = checked_body(Ok(workflow("w", &["shell"]))).ok().expect("valid");
    assert_eq!(valid.name, "w");

    let check = body_check(&workflow("w", &["shell", "cli"]), &Some(set(&["shell"])));
    assert!(!check.can_run);
    assert!(check.provider_restriction_enabled);
    assert_eq!(check.required_providers, vec!["cli".to_string(), "shell".to_string()]);
    assert_eq!(check.missing_providers, vec!["cli".to_string()]);
    assert!(body_check(&workflow("w", &["cli"]), &None).can_run);
}

#[test]
fn flows_and_intents_are_checked() {
    let sessions = StrMap::new();
    let mut deploy = entry("deploy");
    deploy.owner = Some("ops".to_string());
    let check = flow_check(&deploy, check_flow(&deploy, &sessions, &node(), None));
    assert!(check.can_run);
    assert_eq!(check.id, "deploy");
    assert_eq!(check.path, "/plays/deploy.anna");

    let readiness = check_flow(&deploy, &sessions, &node(), None);
    let chat = chat_check(
        "ship".to_string(),
        &rule("deploy", Some(3)),
        &deploy,
        Some(5),
        Some("me".to_string()),
        readiness,
    );
    assert!(!chat.can_run);
    assert_eq!(chat.effective_max_iterations, Some(5));
    assert_eq!(chat.max_iterations_cap, Some(3));
    assert_eq!(
        chat.guardrail_reasons,
        vec!["requested max_iterations=5 exceeds chat cap=3".to_string()]
    );
}

#[test]
fn guardrails_decide_on_requests() {
    let request = |max_iterations| ChatRunRequest {
        intent: "Ship".to_string(),
        vars: StrMap::new(),
        max_iterations,
    };
    let mut deploy = entry("deploy");
    match chat_verdict(&rule("deploy", None), &deploy, request(None), None) {
        ChatVerdict::Blocked(refusal, reasons) => {
            assert_eq!(refusal.status, 403);
            assert!(refusal.message.starts_with("chat intent 'Ship' blocked by guardrails: "));
            assert_eq!(reasons.len(), 1);
        }
        ChatVerdict::Launch(_) => panic!("the owner is not allowed"),
    }
    deploy.owner = Some("ops".to_string());
    match chat_verdict(&rule("deploy", Some(4)), &deploy, request(Some(2)), None) {
        ChatVerdict::Launch(options) => assert_eq!(options.max_iterations, Some(2)),
        ChatVerdict::Blocked(_, _) => panic!("nothing stands in the way"),
    }
}

#[test]
fn launches_begin_and_end() {
    let mut sessions = StrMap::new();
    let event = begin_launch(&mut sessions, &launch(), Some(2), 10, 100);
    assert_eq!(
        shown(&event),
        "workflow_launched {\"max_iterations\":2,\"owner\":\"ops\",\"request_id\":\"req\",\"runtime_session_id\":\"run\",\"source\":\"trigger:cron\",\"workflow\":\"deploy\"}"
    );
    let started = session_named(&sessions, "req").ok().expect("session");
    assert_eq!((started.status.as_str(), started.created_at), ("running", 10));
    assert_eq!(runtime_session(&sessions, "req").ok().as_deref(), Some("run"));
    let missing = session_named(&sessions, "other").err().expect("missing");
    assert_eq!((missing.status, missing.message.as_str()), (404, "session not found"));
    assert_eq!(runtime_session(&sessions, "other").err().expect("missing").status, 404);

    let mut result = RunResult::new();
    result.session_id = "run2".to_string();
    result.outputs = StrMap::new();
    result.outputs.insert("s".to_string(), "o".to_string());
    let event = end_launch(&mut sessions, &launch(), &Ok(result), 7, 20, 100);
    assert_eq!(
        shown(&event),
        "workflow_finished {\"elapsed_ms\":7,\"errors_count\":0,\"outputs_count\":1,\"owner\":\"ops\",\"request_id\":\"req\",\"runtime_session_id\":\"run2\",\"source\":\"trigger:cron\",\"status\":\"done\",\"workflow\":\"deploy\"}"
    );
    let done = session_named(&sessions, "req").ok().expect("session");
    assert_eq!((done.status.as_str(), done.updated_at), ("done", 20));
    assert_eq!(done.outputs.get("s"), Some(&"o".to_string()));

    let event = end_launch(&mut sessions, &launch(), &Err("boom".to_string()), 8, 30, 100);
    assert_eq!(
        shown(&event),
        "workflow_finished {\"elapsed_ms\":8,\"error\":\"boom\",\"owner\":\"ops\",\"request_id\":\"req\",\"runtime_session_id\":\"run\",\"source\":\"trigger:cron\",\"status\":\"failed\",\"workflow\":\"deploy\"}"
    );
    let failed = session_named(&sessions, "req").ok().expect("session");
    assert_eq!(failed.errors, vec!["boom".to_string()]);
}

#[test]
fn sessions_without_a_run_have_no_logs_yet() {
    let mut sessions = StrMap::new();
    sessions.insert(
        "req".to_string(),
        SessionInfo {
            id: "req".to_string(),
            status: "interrupted".to_string(),
            workflow: "deploy".to_string(),
            owner: None,
            created_at: 1,
            updated_at: 1,
            runtime_session_id: None,
            outputs: StrMap::new(),
            errors: vec![],
        },
    );
    let early = runtime_session(&sessions, "req").err().expect("no run");
    assert_eq!(
        (early.status, early.message.as_str()),
        (409, "runtime session not available yet")
    );
    let session = session_named(&sessions, "req").ok().expect("session");
    assert_eq!(
        shown(&workflow_stop(&session, true)),
        "workflow_stop {\"request_id\":\"req\",\"status\":\"interrupted\",\"stopped_task\":true,\"workflow\":\"deploy\"}"
    );
    assert_eq!(
        shown(&workflow_stop_not_found("x")),
        "workflow_stop_not_found {\"request_id\":\"x\"}"
    );
}

#[test]
fn hooks_reach_the_flows_that_listen() {
    let mut first = entry("a");
    first.trigger_webhook = Some(" /deploy ".to_string());
    let mut last = entry("c");
    last.trigger_webhook = Some("/deploy".to_string());
    let entries = vec![first, entry("b"), last];
    assert_eq!(hook_listeners(&entries, "/deploy"), vec![0, 2]);
    assert_eq!(hook_listeners(&entries, "/other"), Vec::<usize>::new());

    let mut outcomes = HookOutcomes::new();
    outcomes.skipped_running.push("a".to_string());
    assert_eq!(
        shown(&hook_triggered("/deploy", &outcomes)),
        "hook_triggered {\"hook\":\"/deploy\",\"launched\":0,\"skipped_capability\":0,\"skipped_concurrency\":0,\"skipped_provider\":0,\"skipped_running\":1}"
    );
    assert_eq!(shown(&hook_no_match("/x")), "hook_no_match {\"hook\":\"/x\"}");
    assert_eq!(
        shown(&hook_scan_failed("/x", "gone")),
        "hook_scan_failed {\"error\":\"gone\",\"hook\":\"/x\"}"
    );
}

fn leader() -> TriggerLeaderState {
    TriggerLeaderState {
        enabled: true,
        is_leader: false,
        node_id: "n".to_string(),
        holder: Some("m".to_string()),
        expires_at: Some(9),
        lease_file: None,
    }
}

#[test]
fn events_carry_their_data() {
    assert_eq!(
        shown(&hook_rejected_not_leader("/x", &leader())),
        "hook_rejected_not_leader {\"expires_at\":9,\"hook\":\"/x\",\"leader\":\"m\",\"node_id\":\"n\"}"
    );
    let config = TriggerLeaseConfig {
        node_id: "n".to_string(),
        lease_file: "/l".to_string(),
        ttl_sec: 15,
    };
    assert_eq!(
        shown(&leader_refresh_failed(&config, "why")),
        "trigger_leader_refresh_failed {\"error\":\"why\",\"lease_file\":\"/l\",\"node_id\":\"n\"}"
    );
    let caller = None;
    assert_eq!(
        shown(&chat_intent_blocked("i", "w", &caller, &vec!["r".to_string()], Some(3))),
        "chat_intent_blocked {\"caller\":null,\"intent\":\"i\",\"reasons\":[\"r\"],\"requested_max_iterations\":3,\"workflow\":\"w\"}"
    );
    assert_eq!(
        shown(&chat_intent_launched("i", "w", &Some("c".to_string()), "req", None)),
        "chat_intent_launched {\"caller\":\"c\",\"effective_max_iterations\":null,\"intent\":\"i\",\"request_id\":\"req\",\"workflow\":\"w\"}"
    );
    let item = HitlPending {
        id: "h".to_string(),
        session_id: "s".to_string(),
        workflow: "w".to_string(),
        stage_id: "g".to_string(),
        prompt: None,
        options: vec![],
        status: "resolved".to_string(),
        decision: Some("approve".to_string()),
        created_at: 1,
    };
    let event = hitl_resolved(&item);
    assert_eq!(
        audit_line(5, "n", event.name, event.data),
        "{\"data\":{\"decision\":\"approve\",\"hitl_id\":\"h\",\"session_id\":\"s\",\"stage_id\":\"g\",\"workflow\":\"w\"},\"event\":\"hitl_resolved\",\"node_id\":\"n\",\"ts\":5}\n"
    );
}

#[test]
fn the_start_of_a_daemon_is_told() {
    let policy = node();
    let intents = StrMap::new();
    let state = leader();
    let inputs = PolicyInputs {
        registry_enabled: true,
        auth_enabled: false,
        offline_mode: false,
        node_capabilities: &policy.capabilities,
        allowed_providers: &policy.allowed_providers,
        owner_policy: &policy.owners,
        chat_intents: &intents,
        leader: &state,
    };
    let event = daemon_started("127.0.0.1:1", &inputs, true, None);
    assert_eq!(event.name, "daemon_started");
    assert_eq!(event.data.get_str("bind"), Some("127.0.0.1:1"));
    assert_eq!(
        compact_json(event.data.get("allowed_providers").expect("providers")),
        "[\"shell\"]"
    );
    assert_eq!(event.data.get_str("policy_revision").map(|v| v.len()), Some(64));
}

#[test]
fn intents_are_reloaded_where_they_changed() {
    let mut before = StrMap::new();
    before.insert("a".to_string(), rule("x", None));
    before.insert("b".to_string(), rule("y", None));
    let mut after = StrMap::new();
    after.insert("b".to_string(), rule("y", None));
    after.insert("a".to_string(), rule("x", None));
    assert!(!rules_changed(&before, &after));
    after.insert("a".to_string(), rule("x", Some(1)));
    assert!(rules_changed(&before, &after));
    after.insert("a-b".to_string(), rule("z", None));
    assert!(rules_changed(&before, &after));
    assert_eq!(
        route_texts(&after),
        vec!["a-b=z".to_string(), "a=x".to_string(), "b=y".to_string()]
    );
    assert_eq!(
        shown(&chat_intents_reloaded(&after)),
        "chat_intents_reloaded {\"count\":3,\"routes\":[\"a-b=z\",\"a=x\",\"b=y\"]}"
    );
}

#[test]
fn flows_come_from_the_registry_or_the_directory() {
    let listed = FlowRegistryEntry {
        flow_id: "ship".to_string(),
        path: " flows/ship.anna ".to_string(),
        tags: vec![],
        required_capabilities: vec![],
        owner: None,
        version: None,
        max_concurrency: Some(2),
    };
    let flow = registered_entry("/r.yaml", "/plays", &listed, Some(&workflow("w", &["shell"])))
        .ok()
        .expect("flow");
    assert_eq!(flow.path, "/plays/flows/ship.anna");
    assert_eq!(flow.file_name, "ship.anna");
    assert_eq!(flow.max_concurrency, Some(2));
    assert_eq!(
        registered_entry("/r.yaml", "/plays", &listed, None).err().expect("invalid"),
        "flow registry '/r.yaml' entry 'ship' points to invalid workflow '/plays/flows/ship.anna'"
    );
    let nameless = FlowRegistryEntry {
        path: "..".to_string(),
        ..listed
    };
    assert_eq!(
        registered_entry("/r.yaml", "/plays", &nameless, Some(&workflow("w", &["shell"])))
            .err()
            .expect("no file name"),
        "invalid workflow filename in '/plays/..'"
    );
    assert!(is_flow_file("/plays/x.anna"));
    assert!(!is_flow_file("/plays/.anna"));
    assert!(!is_flow_file("/plays/x.yaml"));
    let found = discovered_entry("/plays/x.anna", Some(&workflow("w", &["shell"]))).expect("flow");
    assert_eq!((found.file_name.as_str(), found.flow_id), ("x.anna", None));
    assert!(discovered_entry("/plays/x.anna", None).is_none());
    assert!(discovered_entry("/plays/x.txt", Some(&workflow("w", &["shell"]))).is_none());
}

#[test]
fn the_scheduler_takes_turns() {
    let mut scheduler = TriggerScheduler::new();
    let mut seen = StrSet::new();
    let mut flow = entry("x");
    assert!(matches!(
        interval_turn(&mut scheduler, &mut seen, &flow, 0),
        IntervalTurn::Pass
    ));
    flow.trigger_interval = Some("10s".to_string());
    assert!(matches!(
        interval_turn(&mut scheduler, &mut seen, &flow, 1_000_000_000),
        IntervalTurn::Wait
    ));
    match interval_turn(&mut scheduler, &mut seen, &flow, 11_000_000_000) {
        IntervalTurn::Launch(key, interval) => {
            assert_eq!(key, "/plays/x.anna::interval::10s");
            assert_eq!(interval, 10_000_000_000);
            assert!(seen.contains(&key));
        }
        _ => panic!("ten seconds have gone by"),
    }
    flow.trigger_interval = Some("soon".to_string());
    match interval_turn(&mut scheduler, &mut seen, &flow, 0) {
        IntervalTurn::Invalid(note) => assert_eq!(
            note,
            "anna-rs scheduler: invalid trigger.interval 'soon' in '/plays/x.anna': expected number at 0"
        ),
        _ => panic!("no interval"),
    }

    flow.trigger_cron = Some("0/30 * * * * * *".to_string());
    assert!(matches!(
        cron_turn(&mut scheduler, &mut seen, &flow, 1_000_000_000),
        CronTurn::Wait
    ));
    assert!(matches!(
        cron_turn(&mut scheduler, &mut seen, &flow, 30_000_000_000),
        CronTurn::Launch
    ));
    assert!(matches!(
        cron_turn(&mut scheduler, &mut seen, &flow, 31_000_000_000),
        CronTurn::Wait
    ));
    flow.trigger_cron = Some("never".to_string());
    match cron_turn(&mut scheduler, &mut seen, &flow, 0) {
        CronTurn::Invalid(note) => assert!(note.starts_with(
            "anna-rs scheduler: invalid trigger.cron 'never' in '/plays/x.anna': "
        )),
        _ => panic!("no cron expression"),
    }

    assert_eq!(watch_target("/plays", &flow), None);
    flow.trigger_watch = Some("*.rs".to_string());
    assert_eq!(
        watch_target("/plays", &flow),
        Some((
            "/plays/**/*.rs".to_string(),
            "/plays/x.anna::watch::/plays/**/*.rs".to_string()
        ))
    );
}

#[test]
fn launches_stop_at_the_limits() {
    let mut sessions = StrMap::new();
    let mut deploy = entry("deploy");
    deploy.owner = Some("ops".to_string());
    deploy.max_concurrency = Some(3);
    let mut policy = node();
    let mut started = 0;
    for i in 0..5 {
        if check_flow(&deploy, &sessions, &policy, None).can_run() {
            let next = Launch {
                id: format!("req-{}", i),
                ..launch()
            };
            begin_launch(&mut sessions, &next, None, i, 2);
            started += 1;
        }
    }
    assert_eq!(started, 3);
    assert_eq!(check_flow(&deploy, &sessions, &policy, None).running, 3);
    deploy.max_concurrency = None;
    assert!(check_flow(&deploy, &sessions, &policy, None).can_run());
    policy.owners.default_limit = Some(3);
    assert!(!check_flow(&deploy, &sessions, &policy, None).can_run());
}

fn listed_flow(id: &str) -> FlowRegistryEntry {
    FlowRegistryEntry {
        flow_id: id.to_string(),
        path: format!("{}.anna", id),
        tags: vec![],
        required_capabilities: vec![],
        owner: None,
        version: None,
        max_concurrency: None,
    }
}

#[test]
fn a_registry_is_listed_whole_or_not_at_all() {
    let listed = vec![listed_flow("b"), listed_flow("a")];
    let loaded = vec![Some(workflow("wb", &["shell"])), Some(workflow("wa", &["shell"]))];
    let flows = registered_entries("/r", "/plays", &listed, &loaded).ok().expect("flows");
    let names: Vec<&str> = flows.iter().map(|flow| flow.workflow_name.as_str()).collect();
    assert_eq!(names, vec!["wb", "wa"]);
    let broken = vec![Some(workflow("wb", &["shell"])), None];
    assert_eq!(
        registered_entries("/r", "/plays", &listed, &broken).err().expect("broken"),
        "flow registry '/r' entry 'a' points to invalid workflow '/plays/a.anna'"
    );
    assert_eq!(
        registered_entries("/r", "/plays", &listed, &vec![]).err().expect("nothing loaded"),
        "flow registry '/r' entry 'b' points to invalid workflow '/plays/b.anna'"
    );
}
