use anna_rs::client::{
    chat_request, check_chat_request, check_payload, conditional_request, handle_terminal_status, hook_request,
    is_terminal_status, normalize_daemon_url, parse_var_overrides, poll_pause, precheck_outcome,
    resolve_inline_or_file_key, resolve_request, response_text, revision_request, run_named_request,
    sessions_request, snapshot_request, wait_response, wait_timeout_secs, workflow_status_value,
    workflows_meta_request, DaemonRequest, RequestBody, Verb,
};
use anna_rs::daemon::access::{freshness, Freshness};
use anna_rs::json::{compact_json, parse_json, Json};
use anna_rs::policy_crypto::sign_policy_revision_hmac_sha256;
use anna_rs::policy_sync::{
    check_revision_response, default_local_policy_snapshot_path,
    ensure_http_success, etag_revision, normalize_etag_value, policy_revision_from_json,
    policy_revision_from_raw_json, policy_signature_algorithm_from_json,
    policy_signature_from_json, remote_policy_revision, resolve_policy_verify_key,
    should_retry_after_precondition_failure, should_retry_after_revision_mismatch, snapshot_step,
    sync_policy_snapshot_attempt, sync_success_payload, sync_unchanged_payload,
    verify_policy_signature_fields, DaemonResponse, SyncOptions, SyncStep,
};
use anna_rs::strmap::StrMap;

fn map(items: &[(&str, &str)]) -> StrMap<String> {
    let mut out = StrMap::new();
    for (k, v) in items {
        out.insert(k.to_string(), v.to_string());
    }
    out
}

fn json(text: &str) -> Json {
    parse_json(text).ok().expect("json")
}

fn response(status: u16, text: &str, etag: Option<&str>, body: &str) -> DaemonResponse {
    DaemonResponse {
        status,
        status_text: text.to_string(),
        etag: etag.map(|v| v.to_string()),
        body: body.to_string(),
    }
}

#[test]
fn terminal_statuses_match_expected_values() {
    assert!(is_terminal_status("done"));
    assert!(is_terminal_status("FAILED"));
    assert!(is_terminal_status("stopped"));
    assert!(is_terminal_status("not_running"));
    assert!(!is_terminal_status("running"));
}

#[test]
fn normalize_etag_value_handles_quotes_and_weak_tags() {
    assert_eq!(normalize_etag_value("\"rev-1\""), Some("rev-1".to_string()));
    assert_eq!(normalize_etag_value("W/\"rev-2\""), Some("rev-2".to_string()));
    assert_eq!(normalize_etag_value("w/\"rev-3\""), Some("rev-3".to_string()));
    assert_eq!(normalize_etag_value("*"), None);
    assert_eq!(normalize_etag_value(""), None);
    assert_eq!(etag_revision(Some("\"rev-4\"")), Some("rev-4".to_string()));
    assert_eq!(etag_revision(None), None);
}

#[test]
fn policy_revision_from_json_reads_non_empty_value() {
    let revision_payload = json(r#"{"policy_revision": "abc123"}"#);
    assert_eq!(
        policy_revision_from_json(&revision_payload),
        Some("abc123".to_string())
    );
    let missing = json("{}");
    assert_eq!(policy_revision_from_json(&missing), None);
    let empty = json(r#"{ "policy_revision": "   " }"#);
    assert_eq!(policy_revision_from_json(&empty), None);
    assert_eq!(
        policy_revision_from_raw_json(r#"{"policy_revision":"x"}"#),
        Ok(Some("x".to_string()))
    );
    assert_eq!(
        policy_revision_from_raw_json("nope"),
        Err("policy snapshot is not valid json".to_string())
    );
}

#[test]
fn policy_signature_from_json_reads_non_empty_value() {
    let signature_payload = json(r#"{"policy_signature": "sig-abc"}"#);
    assert_eq!(
        policy_signature_from_json(&signature_payload),
        Some("sig-abc".to_string())
    );
    assert_eq!(policy_signature_from_json(&json("{}")), None);
    assert_eq!(
        policy_signature_from_json(&json(r#"{ "policy_signature": "  " }"#)),
        None
    );
}

#[test]
fn policy_signature_algorithm_from_json_reads_non_empty_value() {
    let algorithm_payload = json(r#"{"policy_signature_algorithm": "hmac-sha256"}"#);
    assert_eq!(
        policy_signature_algorithm_from_json(&algorithm_payload),
        Some("hmac-sha256".to_string())
    );
    assert_eq!(policy_signature_algorithm_from_json(&json("{}")), None);
}

#[test]
fn resolve_policy_verify_key_prefers_explicit_input() {
    let explicit_key = resolve_policy_verify_key(Some("  my-key  "), &map(&[]));
    assert_eq!(explicit_key, Some("my-key".to_string()));
    let env = map(&[("ANNA_POLICY_SIGNING_KEY", "sign"), ("ANNA_POLICY_VERIFY_KEY", "verify")]);
    assert_eq!(resolve_policy_verify_key(None, &env), Some("verify".to_string()));
    assert_eq!(
        resolve_policy_verify_key(None, &map(&[("ANNA_POLICY_SIGNING_KEY", "sign")])),
        Some("sign".to_string())
    );
}

#[test]
fn resolve_inline_or_file_key_reads_trimmed_file_value() {
    let file_key = resolve_inline_or_file_key(None, Some(("/k.txt", "  file-key  \n")))
        .expect("resolve key")
        .expect("key should exist");
    assert_eq!(file_key, "file-key");
    assert_eq!(
        resolve_inline_or_file_key(Some(" inline "), Some(("/k.txt", "x"))),
        Ok(Some("inline".to_string()))
    );
    assert_eq!(
        resolve_inline_or_file_key(None, Some(("/k.txt", " "))),
        Err("verification key file '/k.txt' is empty".to_string())
    );
    assert_eq!(resolve_inline_or_file_key(Some(" "), None), Ok(None));
}

#[test]
fn verify_policy_signature_fields_handles_unsigned_and_invalid() {
    let env = map(&[]);
    let unsigned = verify_policy_signature_fields("rev-1", None, None, None, &env, true)
        .ok()
        .expect("unsigned allowed should pass");
    assert_eq!(unsigned.status, "unsigned");
    assert!(!unsigned.verified);

    let invalid = verify_policy_signature_fields(
        "rev-1",
        Some("deadbeef"),
        Some("hmac-sha256"),
        Some("secret-a"),
        &env,
        false,
    )
    .ok()
    .expect("invalid signature should return check");
    assert_eq!(invalid.status, "invalid_signature");
    assert!(!invalid.verified);
}

#[test]
fn signatures_are_checked_with_the_key() {
    let env = map(&[]);
    let signature = sign_policy_revision_hmac_sha256("rev-1", "secret-a").expect("signature");
    let check =
        verify_policy_signature_fields("rev-1", Some(&signature), None, Some("secret-a"), &env, false)
            .ok()
            .expect("check");
    assert!(check.verified);
    assert_eq!(check.status, "verified");
    let error = |signature: Option<&str>, algorithm: Option<&str>, key: Option<&str>| {
        verify_policy_signature_fields("rev-1", signature, algorithm, key, &env, false)
            .err()
            .expect("error")
    };
    assert!(error(None, None, Some("k")).contains("unsigned"));
    assert_eq!(
        error(Some("aa"), Some("rsa"), Some("k")),
        "unsupported policy signature algorithm 'rsa'"
    );
    assert!(error(Some("aa"), None, None).contains("missing verification key"));
    assert_eq!(
        error(Some("zz"), None, Some("k")),
        "policy signature is not valid hexadecimal"
    );
}

#[test]
fn a_policy_is_taken_over_in_the_revision_that_was_named() {
    let env = map(&[]);
    let options = SyncOptions {
        retries: 1,
        verify: true,
        allow_unsigned: false,
    };
    let signature = sign_policy_revision_hmac_sha256("rev-1", "k").expect("signature");
    let body = format!("{{\"policy_revision\":\"rev-1\",\"policy_signature\":\"{}\"}}", signature);
    let good = response(200, "200 OK", None, &body);
    let step = sync_policy_snapshot_attempt(&options, &good, 1, "rev-1", Some("k"), &env);
    assert!(matches!(step, Ok(SyncStep::Keep(_, _, Some(check))) if check.verified));

    let again = sync_policy_snapshot_attempt(&options, &good, 1, "rev-2", Some("k"), &env);
    assert!(matches!(again, Ok(SyncStep::Again)));
    let last = sync_policy_snapshot_attempt(&options, &good, 2, "rev-2", Some("k"), &env)
        .err()
        .expect("no retry is left");
    assert_eq!(
        last,
        "policy snapshot revision mismatch after 2 attempts (revision endpoint='rev-2', snapshot='rev-1')"
    );

    let forged = sync_policy_snapshot_attempt(&options, &good, 1, "rev-1", Some("other"), &env)
        .err()
        .expect("the key is another");
    assert!(forged.starts_with("policy snapshot signature verification failed (received='"));

    let gone = response(503, "503 Service Unavailable", None, "");
    let err = sync_policy_snapshot_attempt(&options, &gone, 1, "rev-1", Some("k"), &env)
        .err()
        .expect("failure");
    assert_eq!(err, "policy snapshot request failed with status 503 Service Unavailable");

    let odd = response(200, "200 OK", None, "nope");
    assert!(sync_policy_snapshot_attempt(&options, &odd, 1, "rev-1", Some("k"), &env).is_err());
}

#[test]
fn a_changed_policy_is_asked_for_again() {
    let changed = response(412, "412 Precondition Failed", Some("rev-9"), "");
    assert_eq!(should_retry_after_precondition_failure(&changed, 1, 3, "rev-1"), Ok(true));
    assert_eq!(
        should_retry_after_precondition_failure(&changed, 4, 3, "rev-1"),
        Err("policy snapshot precondition failed after 4 attempts (revision endpoint='rev-1', current='rev-9')".to_string())
    );
    let told = response(412, "412 Precondition Failed", None, "{\"policy_revision\":\"rev-8\"}");
    assert_eq!(
        should_retry_after_precondition_failure(&told, 4, 3, "rev-1"),
        Err("policy snapshot precondition failed after 4 attempts (revision endpoint='rev-1', current='rev-8'): {\"policy_revision\":\"rev-8\"}".to_string())
    );
    let fine = response(200, "200 OK", None, "");
    assert_eq!(should_retry_after_precondition_failure(&fine, 9, 3, "rev-1"), Ok(false));
    assert_eq!(should_retry_after_revision_mismatch("a", "a", 9, 3), Ok(false));
    assert_eq!(should_retry_after_revision_mismatch("a", "b", 3, 3), Ok(true));
}

#[test]
fn the_remote_revision_is_read() {
    assert_eq!(remote_policy_revision(&response(304, "304 Not Modified", None, "")), Ok(None));
    assert_eq!(
        remote_policy_revision(&response(200, "200 OK", Some("e"), "{\"policy_revision\":\"r\"}")),
        Ok(Some("r".to_string()))
    );
    assert_eq!(
        remote_policy_revision(&response(200, "200 OK", Some("e"), "{}")),
        Ok(Some("e".to_string()))
    );
    assert_eq!(
        remote_policy_revision(&response(200, "200 OK", None, "{}")),
        Err("policy revision response missing 'policy_revision'".to_string())
    );
    assert_eq!(
        remote_policy_revision(&response(200, "200 OK", None, "x")),
        Err("daemon returned non-json policy revision response".to_string())
    );
    assert_eq!(
        ensure_http_success(&response(500, "500 Internal Server Error", None, "oh"), "it"),
        Err("it failed with status 500 Internal Server Error: oh".to_string())
    );
}

#[test]
fn reports_of_a_sync() {
    let unchanged = json(&sync_unchanged_payload("/p.json", Some("rev-1"), 1));
    assert_eq!(unchanged.get_str("status"), Some("not_modified"));
    assert_eq!(unchanged.get_str("policy_revision"), Some("rev-1"));
    let synced = json(&sync_success_payload("/p.json", None, "rev-2", 3, &None));
    assert_eq!(synced.get_str("status"), Some("synced"));
    assert_eq!(synced.get_str("policy_revision"), Some("rev-2"));
    assert!(matches!(synced.get("previous_policy_revision"), Some(Json::Null)));
    assert!(synced.get("signature_verification").is_none());
}

#[test]
fn variables_are_read_from_arguments() {
    let args = |items: &[&str]| -> Vec<String> { items.iter().map(|v| v.to_string()).collect() };
    let vars = parse_var_overrides(&args(&["A=1", "B=x=y", "A=2"])).ok().expect("vars");
    assert_eq!(vars.len(), 2);
    assert_eq!(vars.get("A").map(String::as_str), Some("2"));
    assert_eq!(vars.get("B").map(String::as_str), Some("x=y"));
    assert_eq!(
        parse_var_overrides(&args(&["A=1", "B"])).err().expect("no value"),
        "invalid --var 'B', expected KEY=VALUE"
    );
    assert_eq!(
        parse_var_overrides(&args(&[" =1"])).err().expect("no key"),
        "invalid --var ' =1': empty key"
    );
}

#[test]
fn requests_name_what_is_asked() {
    assert_eq!(normalize_daemon_url("http://d//"), "http://d");
    let meta = workflows_meta_request("http://d/", Some("prod"), None, Some("k8s"), Some(true), Some(5));
    assert_eq!(meta.verb, Verb::Get);
    assert_eq!(meta.url, "http://d/workflows/meta");
    assert_eq!(
        meta.query,
        vec![
            ("tag".to_string(), "prod".to_string()),
            ("capability".to_string(), "k8s".to_string()),
            ("available".to_string(), "true".to_string()),
            ("limit".to_string(), "5".to_string()),
        ]
    );
    assert!(sessions_request("http://d", None, None, None, None).query.is_empty());

    let plain = run_named_request("http://d", "f", &map(&[]), None);
    assert!(matches!(plain.body, RequestBody::Nothing));
    let run = run_named_request("http://d", "f", &map(&[("B", "2"), ("A", "1")]), Some(3));
    assert_eq!(run.url, "http://d/workflow/f/run");
    let RequestBody::Json(body) = run.body else {
        panic!("a run with variables carries them");
    };
    assert_eq!(
        compact_json(&body),
        "{\"max_iterations\":3,\"vars\":{\"A\":\"1\",\"B\":\"2\"}}"
    );

    assert_eq!(hook_request("http://d", "/deploy/").url, "http://d/hook/deploy");
    let chat = chat_request("http://d", "deploy", &map(&[]), None, Some(" bot "));
    assert_eq!(chat.headers, vec![("x-anna-caller".to_string(), "bot".to_string())]);
    let check = check_chat_request("http://d", "deploy", Some(2), Some(" "));
    assert!(check.headers.is_empty());
    assert_eq!(check.query, vec![("max_iterations".to_string(), "2".to_string())]);
    let conditional = conditional_request("http://d", "/policy", Some("\"r\""), Some(""));
    assert_eq!(conditional.headers, vec![("if-match".to_string(), "\"r\"".to_string())]);
    let resolve = resolve_request("http://d", "h1", "approve");
    assert_eq!(resolve.url, "http://d/hitl/h1/resolve");
}

#[test]
fn answers_are_shown() {
    assert_eq!(
        response_text(&response(304, "304 Not Modified", None, "")),
        Ok("304 Not Modified".to_string())
    );
    assert_eq!(
        response_text(&response(200, "200 OK", None, "{\"a\":1}")),
        Ok("{\n  \"a\": 1\n}".to_string())
    );
    assert_eq!(response_text(&response(200, "200 OK", None, "text")), Ok("text".to_string()));
    assert_eq!(response_text(&response(200, "200 OK", None, " ")), Ok("200 OK".to_string()));
    assert_eq!(
        response_text(&response(404, "404 Not Found", None, "")),
        Err("request failed with status 404 Not Found".to_string())
    );
    assert_eq!(
        response_text(&response(404, "404 Not Found", None, "no flow")),
        Err("request failed with status 404 Not Found: no flow".to_string())
    );
}

#[test]
fn a_precheck_lets_a_flow_run_or_not() {
    assert!(precheck_outcome("f", &response(200, "200 OK", None, "{\"can_run\":true}")).is_ok());
    let blocked = precheck_outcome("f", &response(200, "200 OK", None, "{\"can_run\":false}"))
        .err()
        .expect("blocked");
    assert_eq!(blocked.message, "precheck blocked workflow 'f'");
    assert!(blocked.shown.is_some());
    let odd = precheck_outcome("f", &response(200, "200 OK", None, "x")).err().expect("no json");
    assert_eq!(odd.message, "daemon returned non-json precheck response");
    let missing = precheck_outcome("f", &response(404, "404 Not Found", None, "")).err().expect("404");
    assert_eq!(
        missing.message,
        "precheck request failed with status 404 Not Found for 'f'"
    );
}

#[test]
fn waiting_ends_with_the_session() {
    let running = json("{\"status\":\"running\"}");
    assert_eq!(workflow_status_value(&running), "running");
    assert_eq!(workflow_status_value(&json("{}")), "unknown");
    assert!(handle_terminal_status("r", "running", "{}").is_none());
    let done = handle_terminal_status("r", "done", "{\"status\":\"done\"}").expect("end");
    assert_eq!(done.shown, "{\"status\":\"done\"}");
    assert_eq!(done.result, Ok(()));
    let failed = handle_terminal_status("r", "failed", "{}").expect("end");
    assert_eq!(
        failed.result,
        Err("workflow 'r' finished with non-success status 'failed'".to_string())
    );
    assert_eq!(wait_timeout_secs(2_000_000_000, Some(2)), Some(2));
    assert_eq!(wait_timeout_secs(1_999_999_999, Some(2)), None);
    assert_eq!(wait_timeout_secs(u128::MAX, None), None);
    assert_eq!(poll_pause(1), 50);
    assert_eq!(poll_pause(1000), 1000);
}

#[test]
fn a_snapshot_that_was_read_is_judged() {
    let options = SyncOptions { retries: 0, verify: false, allow_unsigned: false };
    let env = map(&[]);
    let read = || json("{\"policy_revision\":\"rev-1\"}");
    match snapshot_step(&options, None, read(), "shown".to_string(), 1, "rev-1", None, &env) {
        Ok(SyncStep::Keep(snapshot, shown, check)) => {
            assert_eq!(compact_json(&snapshot), "{\"policy_revision\":\"rev-1\"}");
            assert_eq!(shown, "shown");
            assert!(check.is_none());
        }
        _ => panic!("the snapshot is kept"),
    }
    let named = snapshot_step(&options, Some("rev-1"), json("{}"), String::new(), 1, "rev-1", None, &env);
    assert!(matches!(named, Ok(SyncStep::Keep(_, _, None))));
    let nameless = snapshot_step(&options, None, json("{}"), String::new(), 1, "rev-1", None, &env);
    assert_eq!(
        nameless.err().expect("no revision"),
        "policy snapshot response missing 'policy_revision'"
    );
}

#[test]
fn a_check_is_shown_where_it_blocks() {
    assert!(check_payload("f", &json("{\"can_run\":true}"), "s".to_string()).is_ok());
    let blocked = check_payload("f", &json("{\"can_run\":1}"), "s".to_string()).err().expect("no");
    assert_eq!(blocked.shown, Some("s".to_string()));
    assert_eq!(blocked.message, "precheck blocked workflow 'f'");
}

#[test]
fn waiting_follows_the_answers() {
    let running = response(200, "200 OK", None, "{\"status\":\"running\"}");
    let step = wait_response("r", "", &running).ok().expect("step");
    assert_eq!((step.status.as_str(), step.changed), ("running", true));
    assert!(step.end.is_none());
    let same = wait_response("r", "running", &running).ok().expect("step");
    assert!(!same.changed);
    let done = response(200, "200 OK", None, "{\"status\":\"done\"}");
    let end = wait_response("r", "running", &done).ok().expect("step").end.expect("end");
    assert_eq!(end.shown, "{\n  \"status\": \"done\"\n}");
    assert_eq!(end.result, Ok(()));
    let odd = wait_response("r", "", &response(200, "200 OK", None, "x"));
    assert_eq!(odd.err().expect("no json"), "daemon returned non-json workflow status");
    let gone = wait_response("r", "", &response(404, "404 Not Found", None, ""));
    assert_eq!(
        gone.err().expect("gone"),
        "request while waiting for 'r' failed with status 404 Not Found"
    );
}

#[test]
fn the_signature_of_a_revision_is_checked() {
    let env = map(&[]);
    let signature = sign_policy_revision_hmac_sha256("rev-1", "k").expect("signature");
    let body = format!("{{\"policy_revision\":\"rev-1\",\"policy_signature\":\"{}\"}}", signature);
    let signed = response(200, "200 OK", None, &body);
    let (revision, check) =
        check_revision_response(&signed, Some("k"), &env, false).ok().expect("check");
    assert_eq!((revision.as_str(), check.verified), ("rev-1", true));
    let bare = response(200, "200 OK", None, "{}");
    assert_eq!(
        check_revision_response(&bare, Some("k"), &env, false).err().expect("no revision"),
        "policy revision response missing 'policy_revision'"
    );
    let odd = response(200, "200 OK", None, "x");
    assert_eq!(
        check_revision_response(&odd, Some("k"), &env, false).err().expect("no json"),
        "daemon returned non-json policy revision response"
    );
    let failed = response(500, "500 Internal Server Error", None, "");
    assert_eq!(
        check_revision_response(&failed, Some("k"), &env, false).err().expect("failure"),
        "policy revision request failed with status 500 Internal Server Error"
    );
    assert_eq!(
        default_local_policy_snapshot_path(Some("/home/me")),
        "/home/me/.anna/policy.snapshot.json"
    );
    assert_eq!(default_local_policy_snapshot_path(None), "/tmp/anna-policy.snapshot.json");
}

#[test]
fn a_sync_gets_through_to_a_daemon() {
    let header = |request: &DaemonRequest, name: &str| {
        request
            .headers
            .iter()
            .find(|(key, _)| key == name)
            .map(|(_, value)| value.clone())
    };
    let answered = |request: &DaemonRequest| {
        freshness(
            header(request, "if-match").as_deref(),
            header(request, "if-none-match").as_deref(),
            "rev-1",
        )
    };
    let known = revision_request("http://d", Some("rev-1"));
    assert_eq!(known.url, "http://d/policy/revision");
    assert_eq!(header(&known, "if-none-match").as_deref(), Some("\"rev-1\""));
    assert_eq!(answered(&known), Freshness::NotModified);
    assert_eq!(answered(&revision_request("http://d", Some("rev-0"))), Freshness::Answer);
    assert!(revision_request("http://d", None).headers.is_empty());
    assert!(revision_request("http://d", Some(" ")).headers.is_empty());

    let snapshot = snapshot_request("http://d", " rev-1 ");
    assert_eq!(snapshot.url, "http://d/policy/snapshot");
    assert_eq!(header(&snapshot, "if-match").as_deref(), Some("\"rev-1\""));
    assert_eq!(answered(&snapshot), Freshness::Answer);
    assert_eq!(
        answered(&snapshot_request("http://d", "rev-0")),
        Freshness::PreconditionFailed
    );
}
