use anna_rs::daemon::chat::{
    chat_intents_doc_notes, chat_intents_value_notes, check_chat_run_request,
    evaluate_chat_intent_guardrails, gateway_refusal, guardrail_refusal, merge_chat_intents,
    parse_chat_intents_doc, parse_chat_intents_value, resolve_chat_intent_rule, ChatIntentConfig, ChatIntentDoc, ChatIntentEntry, ChatIntentMapValue, ChatRunRequest,
};
use anna_rs::daemon::flows::{
    blocked_providers_refusal, build_running_indexes, collect_required_providers,
    evaluate_flow_readiness, flow_readiness_runtime, missing_required_capabilities, owner_limit_for,
    NodePolicy, OwnerConcurrencyPolicy, WorkflowEntry,
};
use anna_rs::daemon::launch::{
    apply_hook_launch_outcome, check_run_options, decide_trigger, hook_path, launch_refusal,
    listens_to_hook, matches_workflow_meta_filters, prepare_launch,
    resolve_registered_workflow_entry, skip_note, workflow_ids, HookLaunch, HookOutcomes,
    RunRegisteredOptions, TriggerDecision, WorkflowMetaResponse,
};
use anna_rs::daemon::registry::{
    check_registry, discovered_entry, discovered_flow, registered_flow, resolve_registry_workflow_path,
    FlowRegistryEntry,
};
use anna_rs::daemon::sessions::SessionInfo;
use anna_rs::strmap::{StrMap, StrSet};
use anna_rs::workflow::{Stage, TriggerConfig, Workflow};

fn map(items: &[(&str, &str)]) -> StrMap<String> {
    let mut out = StrMap::new();
    for (k, v) in items {
        out.insert(k.to_string(), v.to_string());
    }
    out
}

fn set(items: &[&str]) -> StrSet {
    StrSet::of(&items.iter().map(|v| v.to_string()).collect())
}

fn entry(name: &str) -> WorkflowEntry {
    WorkflowEntry {
        file_name: format!("{}.anna", name),
        flow_id: Some(name.to_string()),
        workflow_name: name.to_string(),
        path: format!("/tmp/{}.anna", name),
        tags: vec![],
        required_capabilities: vec![],
        required_providers: vec![],
        owner: None,
        version: None,
        max_concurrency: None,
        trigger_webhook: None,
        trigger_watch: None,
        trigger_cron: None,
        trigger_interval: None,
        workflow_workdir: None,
    }
}

fn workflow(name: &str, stages: Vec<Stage>) -> Workflow {
    Workflow {
        name: name.to_string(),
        mode: "once".to_string(),
        memory: false,
        tags: vec![],
        vars: StrMap::new(),
        env: StrMap::new(),
        workdir: None,
        trigger: TriggerConfig::default(),
        stages,
        source_path: None,
    }
}

fn session(id: &str, status: &str, owner: &str) -> SessionInfo {
    SessionInfo {
        id: id.to_string(),
        status: status.to_string(),
        workflow: "deploy".to_string(),
        owner: Some(owner.to_string()),
        created_at: 1,
        updated_at: 1,
        runtime_session_id: None,
        outputs: StrMap::new(),
        errors: vec![],
    }
}

#[test]
fn missing_capability_filter_works_with_wildcard_and_case() {
    let workflow_entry_capability = WorkflowEntry {
        required_capabilities: vec!["K8S".to_string(), "vault".to_string()],
        max_concurrency: Some(2),
        ..entry("x")
    };

    let node = set(&["k8s", "http", &"VaUlT".to_ascii_lowercase()]);
    let missing_supported_caps = missing_required_capabilities(&workflow_entry_capability, &node);
    assert!(missing_supported_caps.is_empty());

    let restricted = set(&["k8s"]);
    let missing_restricted_caps =
        missing_required_capabilities(&workflow_entry_capability, &restricted);
    assert_eq!(missing_restricted_caps, vec!["vault".to_string()]);

    let wildcard = set(&["*"]);
    let missing_with_wildcard =
        missing_required_capabilities(&workflow_entry_capability, &wildcard);
    assert!(missing_with_wildcard.is_empty());
}

#[test]
fn evaluate_flow_readiness_checks_concurrency_and_capabilities() {
    let workflow_entry_readiness = WorkflowEntry {
        required_capabilities: vec!["k8s".to_string()],
        max_concurrency: Some(2),
        ..entry("x")
    };

    let readiness_caps = set(&["k8s"]);
    let readiness_ok = evaluate_flow_readiness(
        &workflow_entry_readiness,
        &readiness_caps,
        &None,
        flow_readiness_runtime(1, None, 0, None),
    );
    assert!(readiness_ok.can_run());
    assert!(!readiness_ok.concurrency_blocked);
    assert!(!readiness_ok.owner_concurrency_blocked);

    let readiness_blocked = evaluate_flow_readiness(
        &workflow_entry_readiness,
        &readiness_caps,
        &None,
        flow_readiness_runtime(2, None, 0, None),
    );
    assert!(!readiness_blocked.can_run());
    assert!(readiness_blocked.concurrency_blocked);

    let missing_caps = set(&["shell"]);
    let readiness_missing = evaluate_flow_readiness(
        &workflow_entry_readiness,
        &missing_caps,
        &None,
        flow_readiness_runtime(0, None, 0, None),
    );
    assert!(!readiness_missing.can_run());
    assert_eq!(readiness_missing.missing_capabilities, vec!["k8s".to_string()]);
}

#[test]
fn evaluate_flow_readiness_blocks_missing_provider() {
    let workflow_entry_provider = WorkflowEntry {
        required_providers: vec!["shell".to_string(), "cli".to_string()],
        ..entry("x")
    };

    let provider_caps = StrSet::new();
    let provider_allowlist = Some(set(&["shell"]));
    let provider_readiness = evaluate_flow_readiness(
        &workflow_entry_provider,
        &provider_caps,
        &provider_allowlist,
        flow_readiness_runtime(0, None, 0, None),
    );
    assert!(!provider_readiness.can_run());
    assert_eq!(provider_readiness.missing_providers, vec!["cli".to_string()]);
}

#[test]
fn collect_required_providers_detects_hooks_vote_and_stage_provider() {
    let provider_detection_workflow = workflow(
        "providers-test",
        vec![
            Stage {
                id: "build".to_string(),
                provider: "cli".to_string(),
                command: Some("echo hi".to_string()),
                ..Default::default()
            },
            Stage {
                id: "judge".to_string(),
                vote: Some("pick best".to_string()),
                each: vec!["a".to_string(), "b".to_string()],
                ..Default::default()
            },
            Stage {
                id: "hooks".to_string(),
                workflow: Some("child.anna".to_string()),
                before: Some("echo before".to_string()),
                ..Default::default()
            },
        ],
    );

    let detected_providers = collect_required_providers(&provider_detection_workflow);
    assert_eq!(
        detected_providers,
        vec!["cli".to_string(), "llm".to_string(), "shell".to_string()]
    );
}

#[test]
fn evaluate_flow_readiness_uses_default_concurrency_when_requested() {
    let workflow_entry_default_concurrency = entry("x");
    let default_concurrency_caps = StrSet::new();

    let manual = evaluate_flow_readiness(
        &workflow_entry_default_concurrency,
        &default_concurrency_caps,
        &None,
        flow_readiness_runtime(100, None, 0, None),
    );
    assert!(manual.can_run());
    assert_eq!(manual.max_concurrency, None);

    let trigger_default = evaluate_flow_readiness(
        &workflow_entry_default_concurrency,
        &default_concurrency_caps,
        &None,
        flow_readiness_runtime(1, Some(1), 0, None),
    );
    assert!(!trigger_default.can_run());
    assert!(trigger_default.concurrency_blocked);
    assert_eq!(trigger_default.max_concurrency, Some(1));
}

#[test]
fn evaluate_flow_readiness_blocks_owner_limit() {
    let workflow_entry_owner_limit = WorkflowEntry {
        owner: Some("platform".to_string()),
        max_concurrency: Some(10),
        ..entry("x")
    };
    let owner_limit_caps = StrSet::new();
    let owner_limit_readiness = evaluate_flow_readiness(
        &workflow_entry_owner_limit,
        &owner_limit_caps,
        &None,
        flow_readiness_runtime(0, None, 3, Some(3)),
    );
    assert!(!owner_limit_readiness.can_run());
    assert!(owner_limit_readiness.owner_concurrency_blocked);
    assert_eq!(owner_limit_readiness.owner_running, 3);
    assert_eq!(owner_limit_readiness.owner_max_concurrency, Some(3));
}

fn owner_policy() -> OwnerConcurrencyPolicy {
    let mut per_owner = StrMap::new();
    per_owner.insert("platform".to_string(), 5usize);
    per_owner.insert("ops".to_string(), 2usize);
    OwnerConcurrencyPolicy {
        per_owner,
        default_limit: Some(1),
    }
}

#[test]
fn owner_limit_for_prefers_specific_over_default() {
    let owner_policy_fixture = owner_policy();
    assert_eq!(owner_limit_for(Some("platform"), &owner_policy_fixture), Some(5));
    assert_eq!(owner_limit_for(Some("ops"), &owner_policy_fixture), Some(2));
    assert_eq!(owner_limit_for(Some("other"), &owner_policy_fixture), Some(1));
    assert_eq!(owner_limit_for(None, &owner_policy_fixture), None);
}

#[test]
fn build_running_indexes_tracks_workflow_and_owner_counts() {
    let mut sessions_fixture = StrMap::new();
    sessions_fixture.insert("a".to_string(), session("a", "running", "Platform"));
    sessions_fixture.insert("b".to_string(), session("b", "running", "platform"));
    sessions_fixture.insert("c".to_string(), session("c", "done", "platform"));
    let (by_workflow, by_owner) = build_running_indexes(&sessions_fixture);
    assert_eq!(by_workflow.get("deploy"), Some(&2usize));
    assert_eq!(by_owner.get("platform"), Some(&2usize));
}

#[test]
fn parse_run_registered_options_supports_empty_and_json() {
    let empty_run_options =
        check_run_options("  ", None).ok().expect("empty body should be accepted");
    assert!(empty_run_options.vars.is_empty());
    assert_eq!(empty_run_options.max_iterations, None);

    let body = r#"{"vars":{"ENV":"prod","REGION":"eu"},"max_iterations":2}"#;
    let parsed_run_options = check_run_options(
        body,
        Some(RunRegisteredOptions {
            vars: map(&[("ENV", "prod"), ("REGION", "eu")]),
            max_iterations: Some(2),
        }),
    )
    .ok()
    .expect("valid json body");
    assert_eq!(parsed_run_options.vars.len(), 2);
    assert_eq!(parsed_run_options.vars.get("ENV").map(String::as_str), Some("prod"));
    assert_eq!(parsed_run_options.vars.get("REGION").map(String::as_str), Some("eu"));
    assert_eq!(parsed_run_options.max_iterations, Some(2));

    let bad = check_run_options("[]", None).err().expect("no options");
    assert!(bad.contains("invalid run options json body"));
}

#[test]
fn parse_chat_run_request_requires_intent() {
    let missing_intent_error = check_chat_run_request(
        "{}",
        Some(ChatRunRequest {
            intent: String::new(),
            vars: StrMap::new(),
            max_iterations: None,
        }),
    )
    .err()
    .expect("intent is required");
    assert!(missing_intent_error.contains("requires non-empty 'intent'"));

    let parsed_chat_request = check_chat_run_request(
        r#"{"intent":"deploy","vars":{"ENV":"prod"},"max_iterations":2}"#,
        Some(ChatRunRequest {
            intent: "deploy".to_string(),
            vars: map(&[("ENV", "prod")]),
            max_iterations: Some(2),
        }),
    )
    .ok()
    .expect("valid chat request");
    assert_eq!(parsed_chat_request.intent, "deploy");
    assert_eq!(
        parsed_chat_request.vars.get("ENV").map(String::as_str),
        Some("prod")
    );
    assert_eq!(parsed_chat_request.max_iterations, Some(2));
}

#[test]
fn parse_chat_intents_value_handles_invalid_entries() {
    let parsed_intents_value =
        parse_chat_intents_value("deploy=prod-deploy,ops=ops-flow,bad-entry, =empty,");
    assert_eq!(
        parsed_intents_value.get("deploy").map(|v| v.workflow.as_str()),
        Some("prod-deploy")
    );
    assert_eq!(
        parsed_intents_value.get("ops").map(|v| v.workflow.as_str()),
        Some("ops-flow")
    );
    assert_eq!(
        parsed_intents_value.get("deploy").map(|v| v.max_iterations_cap),
        Some(None)
    );
    assert_eq!(parsed_intents_value.len(), 2);
}

fn rule(workflow: &str, owners: &[&str], tags: &[&str], cap: Option<u32>) -> ChatIntentConfig {
    ChatIntentConfig {
        workflow: workflow.to_string(),
        allowed_callers: vec![],
        allowed_owners: owners.iter().map(|v| v.to_string()).collect(),
        required_tags: tags.iter().map(|v| v.to_string()).collect(),
        max_iterations_cap: cap,
    }
}

fn shown(intents: &StrMap<ChatIntentConfig>) -> Vec<String> {
    let mut out = Vec::new();
    for i in 0..intents.len() {
        let rule = intents.value_at(i);
        out.push(format!(
            "{} {} {:?} {:?} {:?} {:?}",
            intents.key_at(i),
            rule.workflow,
            rule.allowed_callers,
            rule.allowed_owners,
            rule.required_tags,
            rule.max_iterations_cap
        ));
    }
    out.sort();
    out
}

#[test]
fn parse_chat_intents_doc_supports_map_wrapped_and_list() {
    let map = parse_chat_intents_doc(
        &ChatIntentDoc::Keyed(vec![
            (
                "deploy".to_string(),
                ChatIntentMapValue::Config(rule("prod-deploy", &["platform"], &["prod"], Some(3))),
            ),
            (
                "triage".to_string(),
                ChatIntentMapValue::Workflow("incident-triage".to_string()),
            ),
        ]),
        "inline-map",
    )
    .ok()
    .expect("map format should parse");
    assert_eq!(
        map.get("deploy").map(|v| v.workflow.as_str()),
        Some("prod-deploy")
    );
    assert_eq!(
        map.get("deploy").map(|v| v.allowed_owners.clone()),
        Some(vec!["platform".to_string()])
    );
    assert_eq!(
        map.get("deploy").map(|v| v.required_tags.clone()),
        Some(vec!["prod".to_string()])
    );
    assert_eq!(map.get("deploy").and_then(|v| v.max_iterations_cap), Some(3));
    assert_eq!(
        map.get("triage").map(|v| v.workflow.as_str()),
        Some("incident-triage")
    );

    let entries = || {
        vec![
            ChatIntentEntry {
                intent: "deploy".to_string(),
                config: rule("prod-deploy", &["platform"], &["prod"], Some(3)),
            },
            ChatIntentEntry {
                intent: "triage".to_string(),
                config: rule("incident-triage", &[], &[], None),
            },
        ]
    };
    let wrapped = parse_chat_intents_doc(&ChatIntentDoc::Wrapped(entries()), "inline-wrapped")
        .ok()
        .expect("wrapped format should parse");
    assert_eq!(shown(&wrapped), shown(&map));

    let list = parse_chat_intents_doc(&ChatIntentDoc::List(entries()), "inline-list")
        .ok()
        .expect("list format should parse");
    assert_eq!(shown(&list), shown(&map));
}

#[test]
fn parse_chat_intents_doc_rejects_empty_result() {
    let empty_doc_error = parse_chat_intents_doc(&ChatIntentDoc::Wrapped(vec![]), "inline-empty")
        .err()
        .expect("empty intent list should fail");
    assert!(empty_doc_error.contains("has no valid entries"));

    let empty_list_error = parse_chat_intents_doc(&ChatIntentDoc::List(vec![]), "inline-list")
        .err()
        .expect("empty intent list should fail");
    assert_eq!(empty_list_error, "chat intents source 'inline-list' has no valid entries");
}

#[test]
fn ignored_chat_intents_are_told_of() {
    let rule = |workflow: &str, cap: Option<u32>| ChatIntentConfig {
        workflow: workflow.to_string(),
        allowed_callers: vec![],
        allowed_owners: vec![],
        required_tags: vec![],
        max_iterations_cap: cap,
    };
    assert_eq!(
        chat_intents_value_notes("ship=deploy, noise ;=deploy\nask= "),
        vec![
            "anna-rs daemon: ignoring invalid ANNA_CHAT_INTENTS entry 'noise'",
            "anna-rs daemon: ignoring invalid chat intent entry '=deploy' from ANNA_CHAT_INTENTS",
            "anna-rs daemon: ignoring invalid chat intent entry 'ask=' from ANNA_CHAT_INTENTS",
        ]
    );
    assert!(chat_intents_value_notes("ship=deploy").is_empty());
    let entry = |intent: &str, config: ChatIntentConfig| ChatIntentEntry {
        intent: intent.to_string(),
        config,
    };
    let list = || {
        vec![
            entry("ship", rule("deploy", Some(1))),
            entry(" ", rule("deploy", Some(0))),
            entry("ask", rule("deploy", Some(0))),
        ]
    };
    let told = vec![
        "anna-rs daemon: ignoring invalid chat intent entry 'intent=' ' workflow='deploy'' from f",
        "anna-rs daemon: ignoring invalid chat intent entry 'intent='ask' workflow='deploy'' from f (max_iterations_cap must be >=1)",
    ];
    assert_eq!(chat_intents_doc_notes(&ChatIntentDoc::List(list()), "f"), told);
    assert_eq!(chat_intents_doc_notes(&ChatIntentDoc::Wrapped(list()), "f"), told);
    let keyed = ChatIntentDoc::Keyed(vec![
        ("a".to_string(), ChatIntentMapValue::Workflow(" ".to_string())),
        ("b".to_string(), ChatIntentMapValue::Config(rule("x", Some(0)))),
        ("c".to_string(), ChatIntentMapValue::Workflow("x".to_string())),
    ]);
    assert_eq!(
        chat_intents_doc_notes(&keyed, "f"),
        vec![
            "anna-rs daemon: ignoring invalid chat intent entry 'a= ' from f",
            "anna-rs daemon: ignoring invalid chat intent entry 'intent='b' workflow='x'' from f (max_iterations_cap must be >=1)",
        ]
    );
    let kept = parse_chat_intents_doc(&keyed, "f").ok().expect("one entry counts");
    assert_eq!(kept.len(), 1);
}

#[test]
fn evaluate_chat_intent_guardrails_blocks_owner_tag_and_max_iterations() {
    let guardrail_entry = WorkflowEntry {
        tags: vec!["prod".to_string()],
        owner: Some("platform".to_string()),
        ..entry("deploy")
    };

    let ok_rule = ChatIntentConfig {
        workflow: "deploy".to_string(),
        allowed_callers: vec!["ops-bot".to_string()],
        allowed_owners: vec!["platform".to_string()],
        required_tags: vec!["prod".to_string()],
        max_iterations_cap: Some(2),
    };
    let guardrails_ok =
        evaluate_chat_intent_guardrails(&ok_rule, &guardrail_entry, None, Some("ops-bot"));
    assert!(guardrails_ok.reasons.is_empty());
    assert_eq!(guardrails_ok.effective_max_iterations, Some(2));

    let blocked_max_iterations =
        evaluate_chat_intent_guardrails(&ok_rule, &guardrail_entry, Some(9), Some("ops-bot"));
    assert!(!blocked_max_iterations.reasons.is_empty());
    assert!(blocked_max_iterations.reasons[0].contains("max_iterations"));

    let strict_rule = ChatIntentConfig {
        workflow: "deploy".to_string(),
        allowed_callers: vec!["release-bot".to_string()],
        allowed_owners: vec!["ops".to_string()],
        required_tags: vec!["critical".to_string()],
        max_iterations_cap: None,
    };
    let blocked_strict =
        evaluate_chat_intent_guardrails(&strict_rule, &guardrail_entry, None, Some("ops-bot"));
    assert_eq!(blocked_strict.reasons.len(), 3);
    assert!(blocked_strict.reasons.iter().any(|v| v.contains("allowed callers")));
    assert!(blocked_strict.reasons.iter().any(|v| v.contains("allowed owners")));
    assert!(blocked_strict.reasons.iter().any(|v| v.contains("required chat tags")));
    assert!(guardrail_refusal("deploy", &blocked_strict.reasons).is_some());
    assert!(guardrail_refusal("deploy", &guardrails_ok.reasons).is_none());
}

#[test]
fn workflow_meta_filters_match_expected_values() {
    let workflow_meta_item = WorkflowMetaResponse {
        id: "prod-deploy".to_string(),
        workflow: "deploy".to_string(),
        file: "deploy.anna".to_string(),
        path: "/tmp/deploy.anna".to_string(),
        tags: vec!["prod".to_string(), "deploy".to_string()],
        required_capabilities: vec!["k8s".to_string(), "vault".to_string()],
        required_providers: vec!["shell".to_string(), "k8s".to_string()],
        owner: Some("platform".to_string()),
        version: Some("v1".to_string()),
        max_concurrency: Some(2),
        running: 1,
        concurrency_blocked: false,
        owner_max_concurrency: Some(3),
        owner_running: 1,
        owner_concurrency_blocked: false,
        available: false,
        missing_capabilities: vec!["vault".to_string()],
        missing_providers: vec![],
        trigger_webhook: Some("/deploy".to_string()),
        trigger_watch: None,
        trigger_cron: None,
        trigger_interval: None,
    };

    assert!(matches_workflow_meta_filters(
        &workflow_meta_item,
        Some("prod"),
        Some("platform"),
        Some("k8s"),
        Some(false)
    ));
    assert!(!matches_workflow_meta_filters(
        &workflow_meta_item,
        Some("staging"),
        None,
        None,
        None
    ));
    assert!(!matches_workflow_meta_filters(
        &workflow_meta_item,
        None,
        Some("security"),
        None,
        None
    ));
    assert!(!matches_workflow_meta_filters(
        &workflow_meta_item,
        None,
        None,
        Some("http"),
        None
    ));
    assert!(!matches_workflow_meta_filters(
        &workflow_meta_item,
        None,
        None,
        None,
        Some(true)
    ));
}

#[test]
fn resolves_workflow_by_file_and_name() {
    let flow = discovered_flow(
        &workflow("demo-workflow", vec![Stage::default()]),
        "/plays/demo.anna",
        "demo.anna",
    );
    let entries = vec![flow];
    assert_eq!(resolve_registered_workflow_entry(&entries, "demo.anna"), Some(0));
    assert_eq!(resolve_registered_workflow_entry(&entries, "demo-workflow"), Some(0));
    assert_eq!(resolve_registered_workflow_entry(&entries, "demo"), Some(0));
    assert_eq!(resolve_registered_workflow_entry(&entries, "other"), None);
    assert_eq!(workflow_ids(&entries), vec!["demo.anna".to_string()]);
}

fn registered(flow_id: &str, path: &str, max_concurrency: Option<u32>) -> FlowRegistryEntry {
    FlowRegistryEntry {
        flow_id: flow_id.to_string(),
        path: path.to_string(),
        tags: vec![],
        required_capabilities: vec![],
        owner: None,
        version: None,
        max_concurrency,
    }
}

#[test]
fn loads_flow_registry_and_rejects_duplicates() {
    let parsed_registry = check_registry(
        vec![registered("alpha", "a.anna", Some(2)), registered("beta", "b.anna", None)],
        "registry.yml",
    )
    .ok()
    .expect("parse valid registry");
    assert_eq!(parsed_registry.len(), 2);
    assert_eq!(parsed_registry[0].flow_id, "alpha");
    assert_eq!(parsed_registry[0].max_concurrency, Some(2));

    let duplicate_registry_error = check_registry(
        vec![registered("same", "a.anna", None), registered("same", "b.anna", None)],
        "registry-dup.yml",
    )
    .err()
    .expect("duplicate flow_id should fail");
    assert!(duplicate_registry_error.contains("duplicate flow_id"));

    let invalid_concurrency_error =
        check_registry(vec![registered("bad", "a.anna", Some(0))], "registry-invalid.yml")
            .err()
            .expect("max_concurrency=0 should fail");
    assert!(invalid_concurrency_error.contains("max_concurrency=0"));

    let empty_error = check_registry(vec![], "r.yml").err().expect("empty registry should fail");
    assert_eq!(empty_error, "flow registry 'r.yml' has no entries");
    assert!(check_registry(vec![registered(" ", "a", None)], "r.yml").is_err());
    assert!(check_registry(vec![registered("a", " ", None)], "r.yml").is_err());
}

#[test]
fn registry_entries_filter_directory_scan_and_support_flow_id() {
    let listed = registered("prod-deploy", "included.anna", None);
    let path = resolve_registry_workflow_path("/plays", &listed.path);
    assert_eq!(path, "/plays/included.anna");
    let entries = vec![registered_flow(
        &listed,
        &workflow("included-flow", vec![Stage::default()]),
        &path,
        "included.anna",
    )];
    assert_eq!(entries.len(), 1);
    assert_eq!(entries[0].workflow_name, "included-flow");
    assert_eq!(entries[0].flow_id.as_deref(), Some("prod-deploy"));
    let by_flow_id = resolve_registered_workflow_entry(&entries, "prod-deploy");
    assert_eq!(
        by_flow_id.map(|i| entries[i].path.as_str()),
        Some("/plays/included.anna")
    );
    assert_eq!(resolve_registered_workflow_entry(&entries, "hidden-flow"), None);
}

#[test]
fn finds_webhook_metadata() {
    let mut hooked = workflow("hooked", vec![Stage::default()]);
    hooked.trigger.webhook = Some("/deploy".to_string());
    let found = discovered_flow(&hooked, "/plays/hooked.anna", "hooked.anna");
    assert_eq!(found.workflow_name, "hooked");
    assert_eq!(found.trigger_webhook.as_deref(), Some("/deploy"));
    assert!(listens_to_hook(&found, &hook_path("deploy")));
    assert!(!listens_to_hook(&found, &hook_path("other")));
}

#[test]
fn finds_trigger_metadata() {
    let mut triggered = workflow("trig", vec![Stage::default()]);
    triggered.trigger.interval = Some("15s".to_string());
    triggered.trigger.cron = Some("0/30 * * * * * *".to_string());
    triggered.trigger.watch = Some("*.rs".to_string());
    let files = ["/plays/notes.txt", "/plays/triggered.anna"];
    let entries: Vec<WorkflowEntry> = files
        .iter()
        .filter_map(|path| discovered_entry(path, Some(&triggered)))
        .collect();
    assert_eq!(entries.len(), 1);
    let found = &entries[0];
    assert_eq!(found.workflow_name, "trig");
    assert_eq!(found.trigger_interval.as_deref(), Some("15s"));
    assert_eq!(found.trigger_cron.as_deref(), Some("0/30 * * * * * *"));
    assert_eq!(found.trigger_watch.as_deref(), Some("*.rs"));
}

fn node() -> NodePolicy {
    NodePolicy {
        capabilities: set(&["shell"]),
        allowed_providers: Some(set(&["shell"])),
        owners: owner_policy(),
    }
}

#[test]
fn triggers_skip_flows_that_may_not_run() {
    let mut running = StrMap::new();
    running.insert("a".to_string(), session("a", "running", "platform"));
    let deploy = entry("deploy");
    assert!(matches!(
        decide_trigger("cron", &deploy, &StrMap::new(), &node()),
        (TriggerDecision::Launch, None)
    ));
    let (skipped, note) = decide_trigger("cron", &deploy, &running, &node());
    assert!(matches!(skipped, TriggerDecision::SkippedRunning));
    assert_eq!(
        note.as_deref(),
        Some("anna-rs daemon trigger=cron workflow='deploy' skipped: already running")
    );
    assert_eq!(skip_note("cron", "deploy", &skipped), None);

    let mut capable = entry("deploy");
    capable.required_capabilities = vec!["k8s".to_string()];
    let (skipped, note) = decide_trigger("cron", &capable, &running, &node());
    assert_eq!(
        note.as_deref(),
        Some("anna-rs daemon trigger=cron workflow='deploy' skipped: missing capabilities [k8s]")
    );
    assert_eq!(
        skip_note("cron", "deploy", &skipped).as_deref(),
        Some("anna-rs scheduler: skipped cron trigger 'deploy' due to missing capabilities: k8s")
    );

    let mut wide = entry("deploy");
    wide.required_providers = vec!["cli".to_string()];
    let (skipped, _) = decide_trigger("watch", &wide, &running, &node());
    assert_eq!(
        skip_note("watch", "deploy", &skipped).as_deref(),
        Some("anna-rs scheduler: skipped watch trigger 'deploy' due to blocked providers: cli")
    );

    let full = TriggerDecision::SkippedConcurrency {
        running: 2,
        max_concurrency: 2,
    };
    assert_eq!(
        skip_note("interval", "deploy", &full).as_deref(),
        Some("anna-rs scheduler: skipped interval trigger 'deploy' due to concurrency limit running=2 max=2")
    );
}

#[test]
fn refused_launches_say_why() {
    let mut flow = entry("deploy");
    flow.required_capabilities = vec!["k8s".to_string()];
    let readiness = evaluate_flow_readiness(
        &flow,
        &set(&["shell"]),
        &None,
        flow_readiness_runtime(0, None, 0, None),
    );
    let refusal = launch_refusal("deploy", &flow, &readiness).expect("missing capability");
    assert!(refusal.message.contains("k8s"));
    let ready = evaluate_flow_readiness(
        &flow,
        &set(&["k8s"]),
        &None,
        flow_readiness_runtime(0, None, 0, None),
    );
    assert!(launch_refusal("deploy", &flow, &ready).is_none());

    let stages = vec![Stage {
        id: "a".to_string(),
        provider: "http".to_string(),
        ..Default::default()
    }];
    let refusal = blocked_providers_refusal(&workflow("w", stages), &Some(set(&["shell"])))
        .expect("blocked provider");
    assert!(refusal.message.contains("http"));
}

#[test]
fn hooks_sort_their_outcomes() {
    let mut outcomes = HookOutcomes::new();
    assert!(outcomes.is_empty());
    apply_hook_launch_outcome(
        &mut outcomes,
        "a".to_string(),
        HookLaunch::Launched("req-1".to_string()),
    );
    apply_hook_launch_outcome(
        &mut outcomes,
        "b".to_string(),
        HookLaunch::Skipped(TriggerDecision::SkippedRunning),
    );
    assert!(!outcomes.is_empty());
    assert_eq!(outcomes.launched.len(), 1);
    assert_eq!(outcomes.launched[0].session_id, "req-1");
    assert_eq!(outcomes.skipped_running, vec!["b".to_string()]);
}

#[test]
fn a_launch_takes_its_variables_over_the_flows() {
    let mut flow = workflow("w", vec![]);
    flow.vars = map(&[("A", "flow"), ("B", "flow")]);
    let ready = prepare_launch(flow, "/plays", &map(&[("B", "run")]));
    assert_eq!(ready.vars.get("A").map(String::as_str), Some("flow"));
    assert_eq!(ready.vars.get("B").map(String::as_str), Some("run"));
    assert_eq!(ready.workdir.as_deref(), Some("/plays"));
}

#[test]
fn chat_intents_of_the_environment_stand_over_the_file() {
    let from_file = parse_chat_intents_value("deploy=file-flow,triage=file-triage");
    let from_env = parse_chat_intents_value("deploy=env-flow");
    let merged = merge_chat_intents(from_file, &from_env);
    assert_eq!(merged.get("deploy").map(|v| v.workflow.as_str()), Some("env-flow"));
    assert_eq!(merged.get("triage").map(|v| v.workflow.as_str()), Some("file-triage"));
    assert!(gateway_refusal(&merged).is_none());
    assert!(gateway_refusal(&StrMap::new()).is_some());
    assert!(resolve_chat_intent_rule(&merged, "deploy").is_ok());
    assert!(resolve_chat_intent_rule(&merged, "unknown").is_err());
}
