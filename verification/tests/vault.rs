use anna_rs::providers::vault::{
    apply_file_command, key_allowed, load_store, normalize_key, render_result, store_text,
    RenderMode, VaultCommand, VaultOpResult, VaultProvider,
};
use anna_rs::providers::vault_config::{
    is_truthy, VaultAuthConfig, VaultBackend, VaultConfig, VaultHttpConfig,
};
use anna_rs::providers::vault_exchange::{
    after_response, client_failed, first_request, read_failed, send_failed, VaultCall, VaultStep,
};
use anna_rs::providers::vault_http::{
    build_get_url, build_list_url, delete_request, delete_result, get_request, get_result,
    list_needs_fallback, list_request, list_result, login_request, login_result, put_request,
    put_result, VaultMethod, VaultResponse,
};
use anna_rs::providers::{ProviderError, SecretSources, StoreRead};
use anna_rs::json::compact_json;
use anna_rs::strmap::StrMap;
use anna_rs::workflow::{Stage, TriggerConfig, Workflow};

fn map(items: &[(&str, &str)]) -> StrMap<String> {
    let mut out = StrMap::new();
    for (k, v) in items {
        out.insert(k.to_string(), v.to_string());
    }
    out
}

fn make_workflow_with_env(env: StrMap<String>) -> Workflow {
    Workflow {
        name: "vault-provider-test".to_string(),
        mode: "once".to_string(),
        memory: false,
        tags: vec![],
        vars: StrMap::new(),
        env,
        workdir: None,
        trigger: TriggerConfig::default(),
        stages: vec![],
        source_path: None,
    }
}

fn stage_with_args(id: &str, args: Vec<&str>) -> Stage {
    Stage {
        id: id.to_string(),
        provider: "vault".to_string(),
        args: args.into_iter().map(|v| v.to_string()).collect(),
        ..Default::default()
    }
}

fn sources() -> SecretSources {
    SecretSources {
        env: map(&[("VAULT_HOST", "http://from-env")]),
        files: StrMap::new(),
        secrets: map(&[("kv/login", "from-store")]),
        secrets_file: "/tmp/secrets.json".to_string(),
    }
}

fn run_stage(
    workflow: &Workflow,
    store: &mut StrMap<String>,
    stage: &Stage,
) -> Result<String, ProviderError> {
    let plan = VaultProvider.plan(stage, workflow, &map(&[]), &map(&[]), &sources())?;
    let result = apply_file_command(&plan.config, store, &plan.command)?;
    Ok(render_result(&result, plan.mode))
}

fn run_vault(
    workflow: &Workflow,
    store: &mut StrMap<String>,
    id: &str,
    args: Vec<&str>,
) -> Result<String, ProviderError> {
    run_stage(workflow, store, &stage_with_args(id, args))
}

fn file_workflow(more: &[(&str, &str)]) -> Workflow {
    let mut env = map(&[
        ("ANNA_VAULT_BACKEND", "file"),
        ("ANNA_VAULT_KV_FILE", "/tmp/anna-vault.json"),
    ]);
    for (k, v) in more {
        env.insert(k.to_string(), v.to_string());
    }
    make_workflow_with_env(env)
}

#[test]
fn put_get_list_delete_roundtrip_text() {
    let workflow = file_workflow(&[]);
    let mut store = map(&[]);
    let put_output = run_vault(
        &workflow,
        &mut store,
        "put",
        vec!["put", "kv/dev/value", "sample-value"],
    )
    .expect("put should succeed");
    assert_eq!(put_output, "ok");

    let get_output = run_vault(&workflow, &mut store, "get", vec!["get", "kv/dev/value"])
        .expect("get should succeed");
    assert_eq!(get_output, "sample-value");

    let list_output = run_vault(&workflow, &mut store, "list", vec!["list", "kv/dev"])
        .expect("list should succeed");
    assert_eq!(list_output, "kv/dev/value");

    let delete_output = run_vault(&workflow, &mut store, "delete", vec!["delete", "kv/dev/value"])
        .expect("delete should succeed");
    assert_eq!(delete_output, "ok");

    let missing_get_err = run_vault(
        &workflow,
        &mut store,
        "get-missing",
        vec!["get", "kv/dev/value"],
    )
    .expect_err("missing key should fail");
    assert_eq!(missing_get_err.code, "provider_secret_not_found");
}

#[test]
fn json_mode_outputs_structured_payload() {
    let workflow = file_workflow(&[]);
    let mut store = map(&[]);
    run_vault(&workflow, &mut store, "put-json", vec!["put", "kv/dev/json", "123"])
        .expect("put should succeed");
    let mut get_json_stage = stage_with_args("get-json", vec!["get", "kv/dev/json"]);
    get_json_stage.parse = Some("json".to_string());
    let get_json_output =
        run_stage(&workflow, &mut store, &get_json_stage).expect("get json should succeed");
    assert_eq!(
        get_json_output,
        "{\"key\":\"kv/dev/json\",\"op\":\"get\",\"value\":\"123\"}"
    );
}

#[test]
fn allowlist_blocks_disallowed_keys() {
    let workflow = file_workflow(&[("ANNA_VAULT_PREFIX_ALLOW", "kv/dev,kv/shared")]);
    let mut store = map(&[]);
    run_vault(&workflow, &mut store, "put-allowed", vec!["put", "kv/dev/token", "ok"])
        .expect("allowed put should succeed");

    let blocked_put_err = run_vault(
        &workflow,
        &mut store,
        "put-blocked",
        vec!["put", "kv/prod/token", "nope"],
    )
    .expect_err("blocked put should fail");
    assert_eq!(blocked_put_err.code, "provider_exec_failed");
    assert!(blocked_put_err.message.contains("blocked by allowlist"));
}

#[test]
fn read_only_blocks_mutation_ops() {
    let workflow = file_workflow(&[("ANNA_VAULT_READ_ONLY", "true")]);
    let mut store = map(&[("kv/prod/token", "abc")]);
    let get_read_only_output = run_vault(&workflow, &mut store, "get", vec!["get", "kv/prod/token"])
        .expect("get should succeed in read-only");
    assert_eq!(get_read_only_output, "abc");

    let put_read_only_err = run_vault(
        &workflow,
        &mut store,
        "put",
        vec!["put", "kv/prod/token", "new"],
    )
    .expect_err("put should be blocked in read-only");
    assert_eq!(put_read_only_err.code, "provider_exec_failed");
    assert!(put_read_only_err.message.contains("read-only"));
    assert_eq!(store.get("kv/prod/token").map(String::as_str), Some("abc"));
}

fn http_workflow(more: &[(&str, &str)]) -> Workflow {
    let mut env = map(&[("ANNA_VAULT_BACKEND", "http"), ("ANNA_VAULT_MOUNT", "secret")]);
    for (k, v) in more {
        env.insert(k.to_string(), v.to_string());
    }
    make_workflow_with_env(env)
}

fn plan_of(workflow: &Workflow, id: &str) -> Result<VaultConfig, ProviderError> {
    let stage = stage_with_args(id, vec!["get", "kv/prod/token"]);
    let plan = VaultProvider.plan(&stage, workflow, &map(&[]), &map(&[]), &sources())?;
    Ok(plan.config)
}

#[test]
fn http_backend_requires_addr_and_auth() {
    let missing_addr_err = plan_of(&http_workflow(&[("ANNA_VAULT_TOKEN", "test-token")]), "get")
        .err()
        .expect("missing addr should fail");
    assert_eq!(missing_addr_err.code, "provider_start_failed");
    assert!(missing_addr_err.message.contains("ANNA_VAULT_ADDR"));

    let missing_auth_err = plan_of(
        &http_workflow(&[("ANNA_VAULT_ADDR", "http://127.0.0.1:8200")]),
        "get-no-auth",
    )
    .err()
    .expect("missing auth should fail");
    assert_eq!(missing_auth_err.code, "provider_start_failed");
    assert!(missing_auth_err.message.contains("ANNA_VAULT_TOKEN"));
}

fn response(status: u16, text: &str, body: &str) -> VaultResponse {
    VaultResponse {
        status,
        status_text: text.to_string(),
        body: body.to_string(),
    }
}

#[test]
fn http_backend_roundtrip_kv_v2() {
    let workflow = http_workflow(&[
        ("ANNA_VAULT_ADDR", "http://vault:8200"),
        ("ANNA_VAULT_TOKEN", "test-token"),
        ("ANNA_VAULT_KV_VERSION", "2"),
    ]);
    let config = plan_of(&workflow, "get").ok().expect("config");
    assert_eq!(config.backend, VaultBackend::Http);
    let http = config.http.expect("http config");
    assert!(login_request(&http).is_none());

    let put = put_request(&http, "test-token", "kv/prod/value", "hello");
    assert_eq!(put.method, VaultMethod::Post);
    assert_eq!(put.url, "http://vault:8200/v1/secret/data/kv/prod/value");
    assert_eq!(put.token.as_deref(), Some("test-token"));
    assert_eq!(
        compact_json(&put.body.expect("body")),
        "{\"data\":{\"value\":\"hello\"}}"
    );
    let put_output = put_result("put", "kv/prod/value", &response(200, "200 OK", "{}"))
        .ok()
        .expect("http put should succeed");
    assert_eq!(render_result(&put_output, RenderMode::Text), "ok");

    let get = get_request(&http, "test-token", "kv/prod/value");
    assert_eq!(get.url, "http://vault:8200/v1/secret/data/kv/prod/value");
    let got = get_result(
        "get",
        "kv/prod/value",
        2,
        &response(200, "200 OK", "{\"data\":{\"data\":{\"value\":\"hello\"}}}"),
    )
    .ok()
    .expect("http get should succeed");
    assert_eq!(render_result(&got, RenderMode::Text), "hello");

    let list = list_request(&http, "test-token", Some("kv/prod"));
    assert_eq!(list.method, VaultMethod::List);
    assert_eq!(list.url, "http://vault:8200/v1/secret/metadata/kv/prod");
    let listed = list_result(
        "list",
        &Some("kv/prod".to_string()),
        &response(200, "200 OK", "{\"data\":{\"keys\":[\"kv/prod/value\"]}}"),
    )
    .ok()
    .expect("http list should succeed");
    assert_eq!(render_result(&listed, RenderMode::Text), "kv/prod/value");

    let delete = delete_request(&http, "test-token", "kv/prod/value");
    assert_eq!(delete.method, VaultMethod::Delete);
    let deleted = delete_result("delete", "kv/prod/value", &response(200, "200 OK", "{}"))
        .ok()
        .expect("http delete should succeed");
    assert_eq!(render_result(&deleted, RenderMode::Text), "ok");
}

#[test]
fn http_backend_roundtrip_kv_v2_with_approle() {
    let workflow = http_workflow(&[
        ("ANNA_VAULT_ADDR", "http://vault:8200/"),
        ("ANNA_VAULT_ROLE_ID", "approle-role"),
        ("ANNA_VAULT_SECRET_ID", "approle-secret"),
        ("ANNA_VAULT_MOUNT", "secret"),
        ("ANNA_VAULT_KV_VERSION", "2"),
    ]);
    let http = plan_of(&workflow, "put").ok().expect("config").http.expect("http config");
    let login = login_request(&http).expect("login");
    assert_eq!(login.url, "http://vault:8200/v1/auth/approle/login");
    assert_eq!(
        compact_json(&login.body.expect("body")),
        "{\"role_id\":\"approle-role\",\"secret_id\":\"approle-secret\"}"
    );
    let token = login_result(
        "put",
        &response(200, "200 OK", "{\"auth\": {\"client_token\": \"approle-token\"}}"),
    )
    .ok()
    .expect("login should succeed");
    assert_eq!(token, "approle-token");
    let put = put_request(&http, &token, "kv/prod/approle-token", "hello");
    assert_eq!(put.token.as_deref(), Some("approle-token"));
    assert_eq!(put.url, "http://vault:8200/v1/secret/data/kv/prod/approle-token");
    let put_output = put_result("put", "kv/prod/approle-token", &response(200, "200 OK", "{}"))
        .ok()
        .expect("approle put should succeed");
    assert_eq!(render_result(&put_output, RenderMode::Text), "ok");

    let get = get_request(&http, &token, "kv/prod/approle-token");
    assert_eq!(get.token.as_deref(), Some("approle-token"));
    assert_eq!(get.url, put.url);
    let stored = compact_json(&put.body.expect("body"));
    let got = get_result(
        "get",
        "kv/prod/approle-token",
        2,
        &response(200, "200 OK", &format!("{{\"data\":{}}}", stored)),
    )
    .ok()
    .expect("approle get should succeed");
    assert_eq!(render_result(&got, RenderMode::Text), "hello");
}

#[test]
fn refused_vault_answers_are_errors() {
    let err = get_result("s", "k", 2, &response(404, "404 Not Found", "")).err().expect("missing");
    assert_eq!(err.code, "provider_secret_not_found");
    let err = get_result("s", "k", 2, &response(500, "500 Internal Server Error", "oh"))
        .err()
        .expect("failure");
    assert_eq!(err.code, "provider_exec_failed");
    assert_eq!(
        err.message,
        "vault get failed in stage 's' with status 500 Internal Server Error: oh"
    );
    assert!(put_result("s", "k", &response(403, "403 Forbidden", "no")).is_err());
    assert!(login_result("s", &response(401, "401 Unauthorized", "no")).is_err());
    assert!(login_result("s", &response(200, "200 OK", "no json")).is_err());
    assert!(get_result("s", "k", 2, &response(200, "200 OK", "{}")).is_err());
    let none = list_result("s", &None, &response(404, "404 Not Found", ""))
        .ok()
        .expect("nothing there is an empty list");
    assert!(matches!(none, VaultOpResult::List { keys, .. } if keys.is_empty()));
    assert!(list_needs_fallback(405));
    assert!(!list_needs_fallback(200));
}

#[test]
fn urls_of_both_versions() {
    let mut http = VaultHttpConfig {
        addr: "http://v/".to_string(),
        auth: VaultAuthConfig::Token("t".to_string()),
        namespace: None,
        mount: "kv".to_string(),
        kv_version: 1,
    };
    assert_eq!(build_get_url(&http, "/a/b/"), "http://v/v1/kv/a/b");
    assert_eq!(build_list_url(&http, None), "http://v/v1/kv");
    http.kv_version = 2;
    assert_eq!(build_get_url(&http, "a/b"), "http://v/v1/kv/data/a/b");
    assert_eq!(build_list_url(&http, None), "http://v/v1/kv/metadata");
}

#[test]
fn a_list_is_sorted_and_within_the_allowlist() {
    let workflow = file_workflow(&[("ANNA_VAULT_PREFIX_ALLOW", "kv/dev")]);
    let mut store = map(&[("kv/dev/b", "1"), ("kv/prod/x", "2"), ("kv/dev/a", "3")]);
    assert_eq!(
        run_vault(&workflow, &mut store, "list", vec!["list"]).unwrap(),
        "kv/dev/a\nkv/dev/b"
    );
}

#[test]
fn what_is_put_is_what_a_get_brings() {
    let config = plan_of(&file_workflow(&[]), "get").ok().expect("config");
    let mut store = map(&[("other", "kept")]);
    let put = VaultCommand::Put {
        key: "k".to_string(),
        value: "v".to_string(),
    };
    apply_file_command(&config, &mut store, &put).ok().expect("put");
    let get = VaultCommand::Get { key: "k".to_string() };
    let got = apply_file_command(&config, &mut store, &get).ok().expect("get");
    assert!(matches!(got, VaultOpResult::Get { value, .. } if value == "v"));
    assert_eq!(store.get("other").map(String::as_str), Some("kept"));
    let delete = VaultCommand::Delete { key: "k".to_string() };
    let gone = apply_file_command(&config, &mut store, &delete).ok().expect("delete");
    assert!(matches!(gone, VaultOpResult::Delete { deleted: true, .. }));
    assert!(apply_file_command(&config, &mut store, &get).is_err());
    assert!(key_allowed(&config, "anything"));
}

#[test]
fn unknown_vault_commands_are_refused() {
    let workflow = file_workflow(&[]);
    let mut store = map(&[]);
    assert_eq!(
        run_vault(&workflow, &mut store, "s", vec!["steal", "x"]).unwrap_err().code,
        "provider_exec_failed"
    );
    assert!(run_vault(&workflow, &mut store, "s", vec!["get"]).is_err());
    assert_eq!(normalize_key("/a/b/"), "a/b");
    assert!(is_truthy(" YES "));
    assert!(!is_truthy("off"));
}

#[test]
fn a_store_comes_back_from_its_file() {
    let store = map(&[("team/b", "two\nlines"), ("team/a", "one")]);
    let text = store_text("/vault.json", &store).expect("text");
    let loaded = load_store("/vault.json", &StoreRead::Content(text)).expect("store");
    assert_eq!(loaded.len(), 2);
    assert_eq!(loaded.get("team/b"), Some(&"two\nlines".to_string()));
    assert_eq!(loaded.get("team/a"), Some(&"one".to_string()));
    assert_eq!(load_store("/vault.json", &StoreRead::Missing).expect("empty").len(), 0);
    let invalid = load_store("/vault.json", &StoreRead::Content("{".to_string()));
    let err = invalid.err().expect("no json");
    assert!(err.message.starts_with("invalid vault store json '/vault.json': "));
    let failed = load_store("/vault.json", &StoreRead::Failed("denied".to_string()));
    assert_eq!(
        failed.err().expect("unreadable").message,
        "failed reading vault store '/vault.json': denied"
    );
}

fn exchange_config(auth: VaultAuthConfig) -> VaultHttpConfig {
    VaultHttpConfig {
        addr: "http://v".to_string(),
        auth,
        namespace: None,
        mount: "kv".to_string(),
        kv_version: 1,
    }
}

fn answer(status: u16, body: &str) -> VaultResponse {
    VaultResponse {
        status,
        status_text: status.to_string(),
        body: body.to_string(),
    }
}

#[test]
fn a_command_follows_the_login() {
    let config = exchange_config(VaultAuthConfig::AppRole {
        role_id: "r".to_string(),
        secret_id: "s".to_string(),
        auth_path: "auth/approle/login".to_string(),
    });
    let command = VaultCommand::Get { key: "a".to_string() };
    let login = first_request(&config, &command);
    assert_eq!(login.call, VaultCall::Login);
    assert_eq!(login.request.url, "http://v/v1/auth/approle/login");
    let body = "{\"auth\":{\"client_token\":\"t\"}}";
    let read = match after_response("st", &config, &command, &login, &answer(200, body)) {
        VaultStep::Send(next) => next,
        VaultStep::Done(_) => panic!("the command comes next"),
    };
    assert_eq!(read.call, VaultCall::Get);
    assert_eq!(read.request.token.as_deref(), Some("t"));
    assert_eq!(read.request.url, "http://v/v1/kv/a");
    let body = "{\"data\":{\"value\":\"x\"}}";
    match after_response("st", &config, &command, &read, &answer(200, body)) {
        VaultStep::Done(Ok(VaultOpResult::Get { key, value })) => {
            assert_eq!((key.as_str(), value.as_str()), ("a", "x"));
        }
        _ => panic!("the value is there"),
    }
    match after_response("st", &config, &command, &login, &answer(403, "no")) {
        VaultStep::Done(Err(err)) => assert_eq!(
            err.message,
            "vault AppRole login failed in stage 'st' with status 403: no"
        ),
        _ => panic!("the login failed"),
    }
}

#[test]
fn servers_without_the_list_method_are_asked_again() {
    let config = exchange_config(VaultAuthConfig::Token("t".to_string()));
    let command = VaultCommand::List { prefix: None };
    let list = first_request(&config, &command);
    assert_eq!((list.call, list.request.method), (VaultCall::List, VaultMethod::List));
    let again = match after_response("st", &config, &command, &list, &answer(405, "")) {
        VaultStep::Send(next) => next,
        VaultStep::Done(_) => panic!("there is another way"),
    };
    assert_eq!(again.call, VaultCall::ListFallback);
    assert_eq!(again.request.method, VaultMethod::ListByGet);
    assert_eq!(again.request.token.as_deref(), Some("t"));
    let body = "{\"data\":{\"keys\":[\"b\",\"a\"]}}";
    match after_response("st", &config, &command, &again, &answer(200, body)) {
        VaultStep::Done(Ok(VaultOpResult::List { keys, .. })) => {
            assert_eq!(keys, vec!["a".to_string(), "b".to_string()]);
        }
        _ => panic!("the keys are there"),
    }
    assert!(matches!(
        after_response("st", &config, &command, &again, &answer(405, "")),
        VaultStep::Done(Err(_))
    ));
    let put = VaultCommand::Put { key: "k".to_string(), value: "v".to_string() };
    let sent = first_request(&config, &put);
    assert!(matches!(
        after_response("st", &config, &put, &sent, &answer(204, "")),
        VaultStep::Done(Ok(VaultOpResult::Put { .. }))
    ));
    let delete = VaultCommand::Delete { key: "k".to_string() };
    let sent = first_request(&config, &delete);
    assert!(matches!(
        after_response("st", &config, &delete, &sent, &answer(404, "")),
        VaultStep::Done(Ok(VaultOpResult::Delete { deleted: false, .. }))
    ));
}

#[test]
fn lost_requests_are_named() {
    assert_eq!(
        send_failed(VaultCall::Login, "st", "why").message,
        "vault AppRole login request failed in stage 'st': why"
    );
    assert_eq!(
        send_failed(VaultCall::ListFallback, "st", "why").message,
        "vault list fallback request failed in stage 'st': why"
    );
    assert_eq!(
        read_failed(VaultCall::ListFallback, "st", "why").message,
        "failed reading vault list response in stage 'st': why"
    );
    assert_eq!(
        client_failed("st", "why").message,
        "failed creating vault http client in stage 'st': why"
    );
}

#[test]
fn settings_of_a_workflow_can_be_references() {
    let workflow = http_workflow(&[
        ("ANNA_VAULT_ADDR", "${env:VAULT_HOST}"),
        ("ANNA_VAULT_TOKEN", "${vault:kv/login}"),
    ]);
    let config = plan_of(&workflow, "get").ok().expect("config");
    let http = config.http.expect("http");
    assert_eq!(http.addr, "http://from-env");
    assert!(matches!(http.auth, VaultAuthConfig::Token(token) if token == "from-store"));
    let lost = http_workflow(&[("ANNA_VAULT_ADDR", "${env:NO_HOST}")]);
    assert_eq!(
        plan_of(&lost, "get").err().expect("no host").code,
        "provider_secret_not_found"
    );
}
