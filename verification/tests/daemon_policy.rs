use anna_rs::daemon::access::{
    etag_header_matches_value, etag_value, freshness, if_match_allows, if_none_match_matches,
    is_authorized, normalize_etag_value, request_caller, unauthorized, Freshness,
};
use anna_rs::daemon::audit::{audit_line, leader_transition};
use anna_rs::daemon::chat::ChatIntentConfig;
use anna_rs::daemon::flows::OwnerConcurrencyPolicy;
use anna_rs::daemon::policy::{
    build_policy_core, build_policy_snapshot, policy_response, policy_revision_and_signature,
    policy_revision_response, sorted_set_values, PolicyInputs,
};
use anna_rs::daemon::settings::{
    chat_intents_reload_interval, chat_intents_reload_note, daemon_auth_token,
    daemon_node_capabilities, daemon_node_id, daemon_owner_concurrency_policy,
    daemon_owner_limit_notes, daemon_policy_signing_key, daemon_retention_config, daemon_state_file, flow_registry_file, trigger_lease_config, RetentionConfig,
    TriggerLeaseConfig,
};
use anna_rs::daemon::trigger::{
    candidate_lease, fingerprint, hook_refusal, initial_trigger_leader_state, must_follow,
    next_cron_due, observed_leadership, resolve_watch_pattern, trigger_key,
    trigger_leader_state_changed, trigger_leader_transition_event, trigger_value, watch_base_dir,
    TriggerLeaderState, TriggerLeaseFile, TriggerScheduler,
};
use anna_rs::daemon::flows::WorkflowEntry;
use anna_rs::json::{compact_json, parse_json, Json};
use anna_rs::paths::{join_path, temp_json_path, temp_lease_path, temp_state_path};
use anna_rs::strmap::{StrMap, StrSet};

fn map(items: &[(&str, &str)]) -> StrMap<String> {
    let mut out = StrMap::new();
    for (k, v) in items {
        out.insert(k.to_string(), v.to_string());
    }
    out
}

fn set(items: &[&str]) -> StrSet {
    StrSet::of(&items.iter().map(|v| v.to_string()).collect())
}

fn json(text: &str) -> Json {
    parse_json(text).ok().expect("json")
}

fn leader(is_leader: bool, holder: &str, expires_at: u64) -> TriggerLeaderState {
    TriggerLeaderState {
        enabled: true,
        is_leader,
        node_id: "node-a".to_string(),
        holder: Some(holder.to_string()),
        expires_at: Some(expires_at),
        lease_file: Some("/tmp/lease.json".to_string()),
    }
}

#[test]
fn trigger_leader_state_change_ignores_lease_refresh_only() {
    let prior_state = leader(true, "node-a", 100);
    let next_refresh = leader(true, "node-a", 200);
    assert!(!trigger_leader_state_changed(&prior_state, &next_refresh));
    assert!(leader_transition(&prior_state, &next_refresh).is_none());

    let next_holder = leader(true, "node-b", 100);
    assert!(trigger_leader_state_changed(&prior_state, &next_holder));
}

#[test]
fn trigger_leader_transition_event_names_are_stable() {
    let follower = leader(false, "node-b", 100);
    let leading = leader(true, "node-a", 100);
    assert_eq!(
        trigger_leader_transition_event(&follower, &leading),
        "trigger_leader_acquired"
    );
    assert_eq!(
        trigger_leader_transition_event(&leading, &follower),
        "trigger_leader_lost"
    );
    let event = leader_transition(&follower, &leading).expect("a change");
    assert_eq!(event.name, "trigger_leader_acquired");
    let next = event.data.get("next").expect("next");
    assert!(matches!(next.get("is_leader"), Some(Json::Bool(true))));
}

#[test]
fn resolve_trigger_leadership_renews_and_fails_over() {
    let node_a = TriggerLeaseConfig {
        node_id: "node-a".to_string(),
        lease_file: "/tmp/trigger-lease.json".to_string(),
        ttl_sec: 10,
    };
    let node_b = TriggerLeaseConfig {
        node_id: "node-b".to_string(),
        lease_file: "/tmp/trigger-lease.json".to_string(),
        ttl_sec: 10,
    };
    let now = 1000;
    assert!(must_follow(&node_a, None, now).is_none());
    let lease = candidate_lease(&node_a, now);
    assert_eq!(lease.expires_at, 1010);
    let a = observed_leadership(&node_a, Some(&lease), now);
    assert!(a.is_leader);
    assert_eq!(a.holder.as_deref(), Some("node-a"));

    let b = must_follow(&node_b, Some(&lease), now).expect("node-b should observe active leader");
    assert!(!b.is_leader);
    assert_eq!(b.holder.as_deref(), Some("node-a"));

    let expired = TriggerLeaseFile {
        holder: "node-a".to_string(),
        expires_at: 1,
    };
    assert!(must_follow(&node_b, Some(&expired), now).is_none());
    let taken = candidate_lease(&node_b, now);
    let b_takeover = observed_leadership(&node_b, Some(&taken), now);
    assert!(b_takeover.is_leader);
    assert_eq!(b_takeover.holder.as_deref(), Some("node-b"));
}

#[test]
fn followers_refuse_hooks() {
    assert!(hook_refusal(&leader(true, "node-a", 1), "/deploy").is_none());
    let refusal = hook_refusal(&leader(false, "node-b", 1), "/deploy").expect("refused");
    assert_eq!(refusal.status, 409);
    assert!(refusal.message.contains("leader='node-b'"));
    let alone = initial_trigger_leader_state("n", None);
    assert!(alone.is_leader && !alone.enabled);
}

#[test]
fn resolve_watch_pattern_defaults_recursive_filename_glob() {
    let watch_pattern_default = resolve_watch_pattern("/tmp/anna-watch", "*.go");
    assert_eq!(watch_pattern_default, "/tmp/anna-watch/**/*.go");
    assert_eq!(resolve_watch_pattern("/w", "/abs/*.go"), "/abs/*.go");
}

fn entry() -> WorkflowEntry {
    WorkflowEntry {
        file_name: "x.anna".to_string(),
        flow_id: None,
        workflow_name: "x".to_string(),
        path: "/plays/x.anna".to_string(),
        tags: vec![],
        required_capabilities: vec![],
        required_providers: vec![],
        owner: None,
        version: None,
        max_concurrency: None,
        trigger_webhook: None,
        trigger_watch: None,
        trigger_cron: None,
        trigger_interval: None,
        workflow_workdir: None,
    }
}

#[test]
fn watched_files_are_found_beside_the_flow() {
    assert_eq!(watch_base_dir("/else", &entry()), "/plays");
    let mut placed = entry();
    placed.workflow_workdir = Some("src".to_string());
    assert_eq!(watch_base_dir("/else", &placed), "/else/src");
    assert_eq!(trigger_key(&entry(), "watch", " *.rs "), "/plays/x.anna::watch::*.rs");
    assert_eq!(trigger_value(&Some("  ".to_string())), None);
    assert_eq!(trigger_value(&Some("5s".to_string())), Some("5s"));
}

#[test]
fn collect_watch_snapshot_changes_when_file_updates() {
    assert_ne!(fingerprint(10, 1), fingerprint(12, 3));
    assert_eq!(fingerprint(5, 1), 5 ^ (1 << 13));
    let mut scheduler = TriggerScheduler::new();
    let look = |value: u64| {
        let mut files = StrMap::new();
        files.insert("/w/x.txt".to_string(), value);
        files
    };
    assert!(!scheduler.watch_changed("k", look(1)));
    assert!(!scheduler.watch_changed("k", look(1)));
    assert!(scheduler.watch_changed("k", look(2)));
    scheduler.keep_watches(&set(&[]));
    assert!(!scheduler.watch_changed("k", look(3)));
}

#[test]
fn intervals_and_cron_times_come_due() {
    let mut scheduler = TriggerScheduler::new();
    assert!(!scheduler.interval_due("k", 100, 50));
    assert!(!scheduler.interval_due("k", 149, 50));
    assert!(scheduler.interval_due("k", 150, 50));
    scheduler.interval_ran("k", 150, 50);
    assert!(!scheduler.interval_due("k", 199, 50));
    scheduler.keep_intervals(&set(&[]));
    assert!(!scheduler.interval_due("k", 500, 50));

    assert!(!scheduler.cron_due("c", 100, 160));
    assert!(scheduler.cron_due("c", 160, 220));
    assert!(!scheduler.cron_due("c", 219, 280));
    scheduler.keep_crons(&set(&["c"]));
    assert!(scheduler.cron_due("c", 220, 280));
}

#[test]
fn cron_expressions_give_the_next_time() {
    // 2020-01-01 00:00:00 UTC
    let now: u64 = 1_577_836_800_000_000_000;
    assert_eq!(
        next_cron_due("0 30 * * * * *", now),
        Ok(now + 30 * 60 * 1_000_000_000)
    );
    assert!(next_cron_due("not a cron", now).is_err());
    assert_eq!(
        next_cron_due("*/5 * * * *", now + 1),
        Ok(now + 5 * 60 * 1_000_000_000)
    );
    assert_eq!(
        next_cron_due("0 * * * *", now),
        Ok(now + 60 * 60 * 1_000_000_000)
    );
    assert!(next_cron_due("a b c d e", now).is_err());
}

#[test]
fn auth_accepts_bearer_and_x_anna_token_headers() {
    assert!(is_authorized(Some("Bearer secret-token"), None, "secret-token"));
    assert!(is_authorized(Some("secret-token"), None, "secret-token"));
    assert!(is_authorized(None, Some("secret-token"), "secret-token"));
}

#[test]
fn request_caller_prefers_caller_then_role() {
    assert_eq!(request_caller(Some("Ops-Bot"), None).as_deref(), Some("ops-bot"));
    assert_eq!(request_caller(None, Some("Platform")).as_deref(), Some("platform"));
}

#[test]
fn auth_rejects_missing_or_wrong_token() {
    assert!(!is_authorized(None, None, "secret-token"));
    assert!(!is_authorized(Some("Bearer wrong-token"), None, "secret-token"));
    assert!(unauthorized(&None, None, None).is_none());
    let refusal = unauthorized(&Some("t".to_string()), None, None).expect("refused");
    assert_eq!((refusal.status, refusal.message.as_str()), (401, "unauthorized"));
}

#[test]
fn etag_matching_handles_quotes_weak_tags_and_lists() {
    assert!(etag_header_matches_value("\"abc\"", "abc"));
    assert!(etag_header_matches_value("W/\"abc\"", "abc"));
    assert!(etag_header_matches_value("\"x\", \"abc\", \"y\"", "abc"));
    assert!(etag_header_matches_value("*", "abc"));
    assert!(!etag_header_matches_value("\"def\"", "abc"));
    assert!(!etag_header_matches_value("abc", "abc"));
    assert!(etag_header_matches_value(&etag_value("rev"), "rev"));
}

#[test]
fn if_match_and_if_none_match_helpers_follow_revision() {
    assert!(if_none_match_matches(Some("\"rev-1\""), "rev-1"));
    assert!(!if_none_match_matches(Some("\"rev-1\""), "rev-2"));

    assert!(if_match_allows(Some("\"rev-1\""), "rev-1"));
    assert!(!if_match_allows(Some("\"rev-1\""), "rev-2"));

    assert!(if_match_allows(None, "any"));
    assert_eq!(freshness(Some("\"a\""), None, "b"), Freshness::PreconditionFailed);
    assert_eq!(freshness(None, Some("\"b\""), "b"), Freshness::NotModified);
    assert_eq!(freshness(None, None, "b"), Freshness::Answer);
}

#[test]
fn temp_state_path_adds_tmp_suffix() {
    assert_eq!(temp_state_path("/tmp/anna-state.json"), "/tmp/anna-state.json.tmp");
    assert_eq!(temp_state_path("state.json"), "state.json.tmp");
    assert_eq!(temp_json_path("/a/b.json", "1f"), "/a/b.json.1f.tmp");
    assert_eq!(temp_state_path("/"), "/");
    assert_eq!(temp_lease_path("/a/lease.json", "1f"), "/a/lease.json.1f.tmp");
    assert_eq!(temp_lease_path("a/..", "1f"), "a/../lease.1f.tmp");
    assert_eq!(join_path("/a", "b"), "/a/b");
    assert_eq!(join_path("/a/", "b"), "/a/b");
    assert_eq!(join_path("/a", "/b"), "/b");
}

fn owner_policy() -> OwnerConcurrencyPolicy {
    let mut per_owner = StrMap::new();
    per_owner.insert("platform".to_string(), 3usize);
    per_owner.insert("ops".to_string(), 2usize);
    OwnerConcurrencyPolicy {
        per_owner,
        default_limit: Some(1),
    }
}

fn intents() -> StrMap<ChatIntentConfig> {
    let mut out = StrMap::new();
    out.insert(
        "deploy".to_string(),
        ChatIntentConfig {
            workflow: "prod-deploy".to_string(),
            allowed_callers: vec!["ops-bot".to_string()],
            allowed_owners: vec!["platform".to_string()],
            required_tags: vec!["prod".to_string()],
            max_iterations_cap: Some(2),
        },
    );
    out
}

#[test]
fn persist_policy_snapshot_writes_effective_policy() {
    let capabilities = set(&["vault", "shell"]);
    let allowed = Some(set(&["vault", "shell"]));
    let owners = owner_policy();
    let chat_intents = intents();
    let state = leader(true, "node-a", 123);
    let inputs = PolicyInputs {
        registry_enabled: true,
        auth_enabled: true,
        offline_mode: true,
        node_capabilities: &capabilities,
        allowed_providers: &allowed,
        owner_policy: &owners,
        chat_intents: &chat_intents,
        leader: &state,
    };
    let snapshot = build_policy_snapshot(&inputs, None, 77);
    let shown = json(&compact_json(&snapshot));
    assert!(matches!(shown.get("offline_mode"), Some(Json::Bool(true))));
    assert_eq!(
        compact_json(shown.get("node_capabilities").expect("capabilities")),
        "[\"shell\",\"vault\"]"
    );
    assert_eq!(
        compact_json(shown.get("allowed_providers").expect("providers")),
        "[\"shell\",\"vault\"]"
    );
    let deploy = shown.get("chat_intents").and_then(|v| v.get("deploy")).expect("deploy");
    assert_eq!(deploy.get_str("workflow"), Some("prod-deploy"));
    let scheduler = shown.get("trigger_scheduler").expect("scheduler");
    assert!(matches!(scheduler.get("is_leader"), Some(Json::Bool(true))));
    assert!(matches!(shown.get("policy_signature"), Some(Json::Null)));

    let core = build_policy_core(&inputs);
    assert_eq!(
        compact_json(&core),
        "{\"allowed_providers\":[\"shell\",\"vault\"],\"auth_enabled\":true,\"chat_intents\":{\"deploy\":{\"allowed_callers\":[\"ops-bot\"],\"allowed_owners\":[\"platform\"],\"max_iterations_cap\":2,\"required_tags\":[\"prod\"],\"workflow\":\"prod-deploy\"}},\"node_capabilities\":[\"shell\",\"vault\"],\"offline_mode\":true,\"owner_default_limit\":1,\"owner_limits\":[{\"max_concurrency\":2,\"owner\":\"ops\"},{\"max_concurrency\":3,\"owner\":\"platform\"}],\"registry_enabled\":true,\"trigger_policy\":{\"leader_election_enabled\":true,\"lease_file\":\"/tmp/lease.json\",\"node_id\":\"node-a\"}}"
    );

    let retention = RetentionConfig {
        max_sessions: 100,
        max_hitl: 50,
    };
    let answer = policy_response(&inputs, Some("key"), &retention);
    let (revision, signature) = policy_revision_and_signature(&core, Some("key"));
    assert_eq!(answer.policy_revision, revision);
    assert_eq!(answer.policy_signature, signature);
    assert_eq!(answer.policy_signature_algorithm.as_deref(), Some("hmac-sha256"));
    assert!(answer.chat_gateway_enabled);
    assert_eq!(answer.owner_limits[0].owner, "ops");
    assert_eq!(answer.retention_max_hitl, 50);

    let short = policy_revision_response(&core, None);
    assert_eq!(short.policy_revision, revision);
    assert!(!short.signed);
}

#[test]
fn sorted_set_values_returns_stable_sorted_copy() {
    let given = set(&["vault", "shell", "http"]);
    let sorted_values_copy = sorted_set_values(Some(&given));
    assert_eq!(
        sorted_values_copy,
        vec!["http".to_string(), "shell".to_string(), "vault".to_string()]
    );
    assert!(sorted_set_values(None).is_empty());
}

#[test]
fn policy_revision_is_stable_for_same_core() {
    let policy_core_fixture = json(
        r#"{
            "registry_enabled": true,
            "auth_enabled": true,
            "offline_mode": false,
            "node_capabilities": ["shell", "vault"],
            "allowed_providers": ["shell", "cli"],
            "owner_limits": [{"owner":"platform","max_concurrency":3}],
            "owner_default_limit": 1,
            "chat_intents": {
                "deploy": {
                    "workflow": "prod-deploy",
                    "allowed_callers": ["ops-bot"],
                    "allowed_owners": ["platform"],
                    "required_tags": ["prod"],
                    "max_iterations_cap": 2
                }
            },
            "trigger_policy": {
                "leader_election_enabled": true,
                "node_id": "node-a",
                "lease_file": "/tmp/lease.json"
            }
        }"#,
    );

    let (a_rev, a_sig) = policy_revision_and_signature(&policy_core_fixture, None);
    let (b_rev, b_sig) = policy_revision_and_signature(&policy_core_fixture, None);
    assert_eq!(a_rev, b_rev);
    assert_eq!(a_sig, None);
    assert_eq!(b_sig, None);
    assert_eq!(a_rev.len(), 64);
}

#[test]
fn policy_revision_signature_uses_hmac_sha256() {
    let policy_core_for_sig = json(
        r#"{
            "registry_enabled": true,
            "chat_intents": {},
            "owner_limits": [],
            "node_capabilities": [],
            "allowed_providers": [],
            "trigger_policy": {"leader_election_enabled": false, "node_id": "node-a", "lease_file": null}
        }"#,
    );

    let (rev_a, sig_a) = policy_revision_and_signature(&policy_core_for_sig, Some("secret-a"));
    let (rev_b, sig_b) = policy_revision_and_signature(&policy_core_for_sig, Some("secret-b"));
    assert_eq!(rev_a, rev_b);
    assert!(sig_a.is_some());
    assert!(sig_b.is_some());
    assert_ne!(sig_a, sig_b);
    assert_eq!(sig_a.as_ref().map(String::len), Some(64));
    let (_, blank) = policy_revision_and_signature(&policy_core_for_sig, Some("  "));
    assert_eq!(blank, None);
}

#[test]
fn append_audit_event_writes_ndjson_line() {
    let data = json(r#"{"request_id":"req-1","source":"api_workflow_named"}"#);
    let line = audit_line(5, "node-test", "workflow_launched", data);
    assert!(line.ends_with('\n'));
    let audit_log_entry = json(line.trim_end());
    assert_eq!(audit_log_entry.get_str("event"), Some("workflow_launched"));
    assert_eq!(audit_log_entry.get_str("node_id"), Some("node-test"));
    assert_eq!(
        audit_log_entry.get("data").and_then(|v| v.get_str("request_id")),
        Some("req-1")
    );
    assert_eq!(
        audit_log_entry.get("data").and_then(|v| v.get_str("source")),
        Some("api_workflow_named")
    );
    assert!(matches!(
        audit_log_entry.get("ts"),
        Some(Json::Number(ts)) if ts.unsigned == Some(5)
    ));
}

#[test]
fn settings_come_from_the_environment() {
    assert_eq!(daemon_auth_token(&map(&[("ANNA_DAEMON_TOKEN", " t ")])).as_deref(), Some("t"));
    assert_eq!(daemon_auth_token(&map(&[])), None);
    assert_eq!(daemon_policy_signing_key(&map(&[("ANNA_POLICY_SIGNING_KEY", "off")])), None);
    assert_eq!(
        flow_registry_file(&map(&[("ANNA_FLOW_REGISTRY_FILE", "flows.yml")])).as_deref(),
        Some("flows.yml")
    );
    assert_eq!(
        daemon_state_file(&map(&[("HOME", "/home/a")])).as_deref(),
        Some("/home/a/.anna/daemon-state.json")
    );
    assert_eq!(
        daemon_state_file(&map(&[("HOME", "/home/a"), ("ANNA_DAEMON_STATE_FILE", "off")])),
        None
    );
    assert_eq!(daemon_node_id(&map(&[("ANNA_DAEMON_NODE_ID", " n1 ")]), 7), "n1");
    let retention = daemon_retention_config(&map(&[("ANNA_DAEMON_MAX_SESSIONS", "5000")]));
    assert_eq!(retention.max_sessions, 5000);
    let lease = trigger_lease_config(
        &map(&[("ANNA_TRIGGER_LEASE_FILE", "/l.json"), ("ANNA_TRIGGER_LEASE_TTL_SEC", "1")]),
        "n1",
    )
    .expect("lease");
    assert_eq!(lease.ttl_sec, 15);
    let capabilities = daemon_node_capabilities(&map(&[("ANNA_NODE_CAPABILITIES", "Shell, http")]));
    assert!(capabilities.contains("shell") && capabilities.contains("http"));
    assert_eq!(chat_intents_reload_interval(&map(&[("ANNA_CHAT_INTENTS_RELOAD_SEC", "9")])), Some(9));
    let owners =
        daemon_owner_concurrency_policy(&map(&[("ANNA_OWNER_MAX_CONCURRENCY", "ops=2,*=1")]));
    assert_eq!(owners.per_owner.get("ops"), Some(&2usize));
}

#[test]
fn ignored_settings_are_told_of() {
    let note = |value: &str| {
        chat_intents_reload_note(&map(&[("ANNA_CHAT_INTENTS_RELOAD_SEC", value)]))
    };
    assert_eq!(
        note(" soon "),
        Some(
            "anna-rs daemon: invalid ANNA_CHAT_INTENTS_RELOAD_SEC='soon' (expected integer >=1, or off/false/0)"
                .to_string()
        )
    );
    assert!(note("00").is_some());
    for fine in ["", "OFF", "false", "0", "1", " 90 "] {
        assert_eq!(note(fine), None, "{:?}", fine);
    }
    assert_eq!(chat_intents_reload_note(&map(&[])), None);

    let raw = "ops=2, noise; dev = zero\nqa=0,*=1";
    let env = map(&[("ANNA_OWNER_MAX_CONCURRENCY", raw)]);
    assert_eq!(
        daemon_owner_limit_notes(&env),
        vec![
            "anna-rs daemon: ignoring invalid ANNA_OWNER_MAX_CONCURRENCY entry 'noise'",
            "anna-rs daemon: ignoring invalid owner limit 'dev=zero' (expected >=1)",
            "anna-rs daemon: ignoring invalid owner limit 'qa=0' (expected >=1)",
        ]
    );
    let policy = daemon_owner_concurrency_policy(&env);
    assert_eq!(policy.per_owner.len(), 1);
    assert_eq!(policy.default_limit, Some(1));
    assert!(daemon_owner_limit_notes(&map(&[])).is_empty());
}

#[test]
fn a_revision_is_one_word_of_digits() {
    let (revision, _) = policy_revision_and_signature(&parse_json("{}").ok().expect("json"), None);
    assert_eq!(revision.len(), 64);
    assert!(revision.chars().all(|c| c.is_ascii_hexdigit()));
    let tag = etag_value(&revision);
    assert_eq!(freshness(None, Some(&tag), &revision), Freshness::NotModified);
    assert_eq!(freshness(Some(&tag), None, &revision), Freshness::Answer);
    assert_eq!(freshness(Some(&revision), None, &revision), Freshness::PreconditionFailed);
}

#[test]
fn an_etag_holds_its_revision_whatever_stands_in_it() {
    for revision in ["rev-1", " a,b ", "say \"hi\""] {
        assert_eq!(
            normalize_etag_value(&etag_value(revision)),
            Some(revision.trim().to_string())
        );
    }
}
