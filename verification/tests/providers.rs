use anna_rs::providers::env_refs::{needs_secrets, resolve_refs};
use anna_rs::providers::cli::{
    best_error_message, map_exit_code, parse_error_code_from_stderr, CliProvider,
};
use anna_rs::providers::http::{parse_method_and_url, HttpMethod, HttpProvider};
use anna_rs::providers::k8s::K8sProvider;
use anna_rs::providers::shell::ShellProvider;
use anna_rs::providers::{
    command_env, default_registry, load_file_secrets, looks_like_env_key, looks_like_secret_ref,
    normalize_secret_mapping, resolve_secret_ref, resolve_stage_secrets, sanitize_secret_key,
    secret_env_var_name, secret_files, secrets_file_path, spawn_error, BuiltinProvider, FileRead,
    SecretSources, StoreRead,
};
use anna_rs::strmap::StrMap;
use anna_rs::workflow::{Stage, TriggerConfig, Workflow};

fn map(items: &[(&str, &str)]) -> StrMap<String> {
    let mut out = StrMap::new();
    for (k, v) in items {
        out.insert(k.to_string(), v.to_string());
    }
    out
}

fn make_workflow() -> Workflow {
    Workflow {
        name: "cli-provider-test".to_string(),
        mode: "once".to_string(),
        memory: false,
        tags: vec![],
        vars: StrMap::new(),
        env: StrMap::new(),
        workdir: None,
        trigger: TriggerConfig::default(),
        stages: vec![],
        source_path: None,
    }
}

fn sources() -> SecretSources {
    SecretSources {
        env: StrMap::new(),
        files: StrMap::new(),
        secrets: StrMap::new(),
        secrets_file: "/tmp/secrets.json".to_string(),
    }
}

#[test]
fn map_exit_code_handles_wrapper_codes() {
    assert_eq!(map_exit_code(Some(10), ""), "provider_not_found");
    assert_eq!(map_exit_code(Some(11), ""), "provider_start_failed");
    assert_eq!(map_exit_code(Some(12), ""), "provider_timeout");
    assert_eq!(map_exit_code(Some(13), ""), "provider_invalid_response");
    assert_eq!(map_exit_code(Some(14), ""), "provider_exec_failed");
    assert_eq!(map_exit_code(Some(99), ""), "provider_exec_failed");
}

#[test]
fn parse_error_code_prefers_structured_stderr() {
    let stderr = "{\"error_code\":\"provider_timeout\",\"message\":\"oops\"}";
    assert_eq!(parse_error_code_from_stderr(stderr), Some("provider_timeout"));
}

#[test]
fn test_best_error_message() {
    let stderr = "{\"error_code\":\"provider_exec_failed\",\"message\":\"boom\"}";
    assert_eq!(best_error_message(stderr), "boom");
    assert_eq!(best_error_message("plain error"), "plain error");
}

#[test]
fn secret_env_name_is_stable() {
    assert_eq!(sanitize_secret_key("kv/prod/api-key"), "KV_PROD_API_KEY");
    assert_eq!(
        secret_env_var_name("kv/prod/api-key"),
        "ANNA_SECRET_KV_PROD_API_KEY"
    );
}

#[test]
fn detects_mapping_direction_for_env_and_secret_ref() {
    assert!(looks_like_env_key("OPENAI_API_KEY"));
    assert!(looks_like_secret_ref("vault://kv/prod/openai"));

    let (env_key, secret_ref) =
        normalize_secret_mapping("OPENAI_API_KEY", "vault://kv/prod/openai");
    assert_eq!(env_key, "OPENAI_API_KEY");
    assert_eq!(secret_ref, "vault://kv/prod/openai");

    let (env_key, secret_ref) = normalize_secret_mapping("kv/prod/openai", "OPENAI_API_KEY");
    assert_eq!(env_key, "OPENAI_API_KEY");
    assert_eq!(secret_ref, "kv/prod/openai");
}

#[test]
fn resolve_secret_file_scheme_reads_file_contents() {
    let mut given = sources();
    given
        .files
        .insert("/tmp/anna-secret".to_string(), FileRead::Content("top-secret\n".to_string()));
    let value = resolve_secret_ref("test-stage", "file:///tmp/anna-secret", &given)
        .expect("file:// secret should resolve");
    assert_eq!(value, "top-secret");
}

#[test]
fn resolve_env_scheme_returns_not_found_for_missing_var() {
    let err = resolve_secret_ref("test-stage", "env://ANNA_TEST_MISSING", &sources())
        .expect_err("missing env secret should fail");
    assert_eq!(err.code, "provider_secret_not_found");
}

#[test]
fn resolve_vault_like_secret_from_file_map() {
    let mut given = sources();
    given
        .secrets
        .insert("kv/prod/token".to_string(), "abc123".to_string());
    let value = resolve_secret_ref("test-stage", "vault://kv/prod/token", &given)
        .expect("vault secret should resolve from file map");
    assert_eq!(value, "abc123");
}

#[test]
fn an_env_secret_comes_from_the_environment() {
    let mut given = sources();
    given.env = map(&[("TOKEN", "t1"), ("ANNA_SECRET_KV_DB", "t2")]);
    assert_eq!(resolve_secret_ref("s", "env://TOKEN", &given).unwrap(), "t1");
    assert_eq!(resolve_secret_ref("s", "kv/db", &given).unwrap(), "t2");
    assert_eq!(
        resolve_secret_ref("s", "kv/none", &given).unwrap_err().code,
        "provider_secret_not_found"
    );
}

#[test]
fn stage_secrets_are_put_under_their_variables() {
    let mut given = sources();
    given.env = map(&[("TOKEN", "t1")]);
    let stage = Stage {
        id: "s".to_string(),
        secrets: map(&[("API_KEY", "env://TOKEN")]),
        ..Default::default()
    };
    let resolved = resolve_stage_secrets(&stage, &map(&[]), &map(&[]), &given)
        .ok()
        .expect("secrets should resolve");
    assert_eq!(resolved.get("API_KEY").map(String::as_str), Some("t1"));
}

#[test]
fn secrets_file_is_the_one_that_is_set() {
    assert_eq!(secrets_file_path(Some("/x/s.json"), Some("/home/a")), "/x/s.json");
    assert_eq!(secrets_file_path(None, Some("/home/a")), "/home/a/.anna/secrets.json");
    assert_eq!(secrets_file_path(Some(""), None), "/tmp/anna-secrets.json");
}

#[test]
fn maps_provider_exit_codes() {
    let stage = Stage {
        id: "cli-fail".to_string(),
        provider: "cli".to_string(),
        command: Some("fail.sh".to_string()),
        ..Default::default()
    };
    let err = CliProvider
        .finish(
            &stage,
            false,
            Some(13),
            "",
            "{\"error_code\":\"provider_invalid_response\",\"message\":\"bad json\"}\n",
        )
        .expect_err("cli provider should fail");
    assert_eq!(err.code, "provider_invalid_response");
    assert!(err.message.contains("bad json"));
}

#[test]
fn injects_runtime_env_vars() {
    let stage = Stage {
        id: "cli-env".to_string(),
        provider: "cli".to_string(),
        command: Some("env.sh".to_string()),
        trust: Some("read".to_string()),
        ..Default::default()
    };
    let outputs = map(&[("SESSION", "sess-999")]);
    let plan = CliProvider
        .plan(&stage, &make_workflow(), &map(&[]), &outputs, &sources())
        .ok()
        .expect("cli provider should have a plan");
    let value = |key: &str| plan.env.get(key).cloned().unwrap_or_default();
    assert_eq!(
        format!(
            "{}|{}|{}|{}",
            value("ANNA_SESSION"),
            value("ANNA_WORKFLOW"),
            value("ANNA_STAGE_ID"),
            value("ANNA_TRUST")
        ),
        "sess-999|cli-provider-test|cli-env|read"
    );
}

#[test]
fn runtime_variables_stand_over_stage_and_workflow() {
    let mut workflow = make_workflow();
    workflow.env = map(&[("A", "workflow"), ("B", "workflow"), ("ANNA_STAGE_ID", "other")]);
    let stage = Stage {
        id: "s".to_string(),
        env: map(&[("B", "stage $x")]),
        ..Default::default()
    };
    let env = command_env(&stage, &workflow, &map(&[("x", "1")]), &map(&[]), &sources())
        .ok()
        .expect("environment");
    assert_eq!(env.get("A").map(String::as_str), Some("workflow"));
    assert_eq!(env.get("B").map(String::as_str), Some("stage 1"));
    assert_eq!(env.get("ANNA_STAGE_ID").map(String::as_str), Some("s"));
    assert_eq!(env.get("ANNA_TRUST").map(String::as_str), Some("none"));
}

#[test]
fn cli_output_is_text_or_a_json_object() {
    let mut stage = Stage {
        id: "s".to_string(),
        ..Default::default()
    };
    let finish = |stage: &Stage, out: &str| CliProvider.finish(stage, true, Some(0), out, "");
    assert_eq!(finish(&stage, "hello \n").unwrap(), "hello");
    stage.parse = Some("json".to_string());
    assert_eq!(finish(&stage, "{ \"b\": 1, \"a\": [ 2 ] }\n").unwrap(), "{\"a\":[2],\"b\":1}");
    let no_object = finish(&stage, "[1]").unwrap_err();
    assert_eq!(no_object.code, "provider_invalid_response");
    assert!(no_object.message.contains("expected a JSON object"));
    let no_json = finish(&stage, "nope").unwrap_err();
    assert_eq!(no_json.code, "provider_invalid_response");
    assert!(no_json.message.contains("invalid json from cli provider in stage 's'"));
    stage.parse = Some("xml".to_string());
    let odd = finish(&stage, "x").unwrap_err();
    assert_eq!(odd.code, "provider_invalid_response");
    assert!(odd.message.contains("unsupported parse mode 'xml'"));
}

#[test]
fn cli_failure_shows_the_exit_code() {
    let stage = Stage {
        id: "s".to_string(),
        ..Default::default()
    };
    let err = CliProvider.finish(&stage, false, Some(-1), "", "").unwrap_err();
    assert_eq!(err.code, "provider_exec_failed");
    assert_eq!(
        err.message,
        "cli command failed in stage 's' (exit Some(-1)): command failed"
    );
    let killed = CliProvider.finish(&stage, false, None, "", "boom").unwrap_err();
    assert_eq!(killed.message, "cli command failed in stage 's' (exit None): boom");
    assert_eq!(killed.to_text(), format!("{}: {}", killed.code, killed.message));
}

#[test]
fn a_cli_stage_needs_a_program() {
    let stage = Stage {
        id: "s".to_string(),
        ..Default::default()
    };
    let err = CliProvider
        .plan(&stage, &make_workflow(), &map(&[]), &map(&[]), &sources())
        .err()
        .expect("no program");
    assert_eq!(err.message, "stage 's' requires 'exec' for provider=cli");
}

#[test]
fn shell_runs_the_rendered_line() {
    let stage = Stage {
        id: "s".to_string(),
        command: Some("echo $x".to_string()),
        workdir: Some("/w".to_string()),
        ..Default::default()
    };
    let plan = ShellProvider
        .plan(&stage, &make_workflow(), &map(&[("x", "hi")]), &map(&[]), &sources())
        .ok()
        .expect("plan");
    assert_eq!(plan.program, "sh");
    assert_eq!(plan.args, vec!["-lc".to_string(), "echo hi".to_string()]);
    assert_eq!(plan.dir.as_deref(), Some("/w"));
    assert_eq!(ShellProvider.finish(&stage, true, "out\n", "").unwrap(), "out");
    assert_eq!(
        ShellProvider.finish(&stage, false, "said", " ").unwrap_err().message,
        "shell command failed in stage 's': said"
    );
    assert_eq!(
        ShellProvider.finish(&stage, false, "said", "why").unwrap_err().message,
        "shell command failed in stage 's': why"
    );
}

#[test]
fn http_lines_name_method_and_url() {
    assert_eq!(parse_method_and_url("POST http://a/b"), Ok((HttpMethod::Post, "http://a/b")));
    assert_eq!(parse_method_and_url("GET http://a"), Ok((HttpMethod::Get, "http://a")));
    assert_eq!(parse_method_and_url(" http://a "), Ok((HttpMethod::Get, "http://a")));
    assert_eq!(parse_method_and_url("ftp a"), Err("exec must be URL or 'POST <url>'"));

    let stage = Stage {
        id: "s".to_string(),
        command: Some("POST http://$host".to_string()),
        stdin: Some("body $x".to_string()),
        ..Default::default()
    };
    let plan = HttpProvider
        .plan(&stage, &map(&[("host", "h"), ("x", "1")]), &map(&[]))
        .ok()
        .expect("plan");
    assert_eq!(plan.method, HttpMethod::Post);
    assert_eq!(plan.url, "http://h");
    assert_eq!(plan.body.as_deref(), Some("body 1"));
    assert_eq!(
        HttpProvider.finish(&stage, true, "200 OK", "fine".to_string()).unwrap(),
        "fine"
    );
    assert_eq!(
        HttpProvider
            .finish(&stage, false, "500 Internal Server Error", "oh".to_string())
            .unwrap_err()
            .message,
        "http status 500 Internal Server Error in stage 's': oh"
    );
}

#[test]
fn kubectl_gets_the_words_of_the_line() {
    let stage = Stage {
        id: "k".to_string(),
        command: Some("get pods -n 'my ns'".to_string()),
        ..Default::default()
    };
    let cli = K8sProvider.plan(&stage, &map(&[]), &map(&[])).ok().expect("plan");
    assert_eq!(cli.provider, "cli");
    assert_eq!(cli.command.as_deref(), Some("kubectl"));
    assert_eq!(
        cli.args,
        vec!["get".to_string(), "pods".to_string(), "-n".to_string(), "my ns".to_string()]
    );

    let open = Stage {
        id: "k".to_string(),
        command: Some("get 'pods".to_string()),
        ..Default::default()
    };
    let err = K8sProvider.plan(&open, &map(&[]), &map(&[])).err().expect("open quote");
    assert_eq!(
        err.message,
        "failed to parse k8s command in stage 'k': missing closing quote"
    );

    let empty = Stage {
        id: "k".to_string(),
        command: Some("  ".to_string()),
        ..Default::default()
    };
    let err = K8sProvider.plan(&empty, &map(&[]), &map(&[])).err().expect("no words");
    assert_eq!(err.message, "stage 'k' has empty kubectl arguments");

    let bare = Stage {
        id: "k".to_string(),
        ..Default::default()
    };
    assert!(K8sProvider.plan(&bare, &map(&[]), &map(&[])).is_err());
}

#[test]
fn built_in_providers_are_registered() {
    let registry = default_registry();
    assert_eq!(registry.get("shell"), Some(&BuiltinProvider::Shell));
    assert_eq!(registry.get("vault"), Some(&BuiltinProvider::Vault));
    assert!(registry.get("ftp").is_none());
}

#[test]
fn a_program_that_is_missing_is_told_apart() {
    assert_eq!(spawn_error(true, "no such file").code, "provider_not_found");
    assert_eq!(spawn_error(false, "denied").code, "provider_start_failed");
}

#[test]
fn the_secrets_file_need_not_be_there() {
    let none = load_file_secrets("/s.json", &StoreRead::Missing).expect("no secrets");
    assert_eq!(none.len(), 0);
    let content = StoreRead::Content("{\"api_key\":\"v\"}".to_string());
    let some = load_file_secrets("/s.json", &content).expect("secrets");
    assert_eq!(some.get("api_key"), Some(&"v".to_string()));
    let failed = load_file_secrets("/s.json", &StoreRead::Failed("denied".to_string()));
    let err = failed.err().expect("unreadable");
    assert_eq!(err.code, "provider_start_failed");
    assert_eq!(err.message, "failed reading secrets file '/s.json': denied");
    let invalid = load_file_secrets("/s.json", &StoreRead::Content("[".to_string()));
    let err = invalid.err().expect("no json");
    assert_eq!(err.code, "provider_start_failed");
    assert!(err.message.starts_with("invalid secrets json '/s.json': "));
}

#[test]
fn a_stage_names_the_files_of_its_secrets() {
    let mut stage = Stage::default();
    stage.secrets = map(&[
        ("API_KEY", "file:///run/$who"),
        ("TOKEN", "env://TOKEN"),
        ("file:///other", "OTHER_KEY"),
    ]);
    let files = secret_files(&stage, &map(&[("who", "me")]), &StrMap::new());
    assert_eq!(files, vec!["/run/me".to_string(), "/other".to_string()]);
}

#[test]
fn secrets_are_injected_into_shell_stages() {
    let stage = Stage {
        id: "s".to_string(),
        command: Some("printf %s \"$TOK\"".to_string()),
        secrets: map(&[("TOK", "vault://kv/t")]),
        env: map(&[("TOK", "plain")]),
        ..Default::default()
    };
    let mut held = sources();
    held.env = map(&[("ANNA_SECRET_KV_T", "s3")]);
    let plan = ShellProvider
        .plan(&stage, &make_workflow(), &map(&[]), &map(&[]), &held)
        .ok()
        .expect("plan");
    assert_eq!(plan.env.get("TOK").map(String::as_str), Some("s3"));
    assert_eq!(plan.args[1], "printf %s \"$TOK\"");
    let missing = ShellProvider
        .plan(&stage, &make_workflow(), &map(&[]), &map(&[]), &sources())
        .err()
        .expect("no secret");
    assert_eq!(missing.code, "provider_secret_not_found");
}

#[test]
fn references_in_the_variables_of_a_workflow_are_resolved() {
    let mut workflow = make_workflow();
    workflow.env = map(&[
        ("H", "${env:REGION}"),
        ("D", "x-${vault:kv/t}-$v-${env:REGION}"),
        ("O", "${other} ${env:REGION"),
    ]);
    let stage = Stage {
        id: "s".to_string(),
        command: Some("printf %s \"$H\"".to_string()),
        env: map(&[("S", "${env:REGION}")]),
        ..Default::default()
    };
    let mut held = sources();
    held.env = map(&[("REGION", "eu")]);
    held.secrets = map(&[("kv/t", "s3")]);
    let vars = map(&[("v", "1")]);
    let plan = ShellProvider
        .plan(&stage, &workflow, &vars, &map(&[]), &held)
        .ok()
        .expect("plan");
    assert_eq!(plan.env.get("H").map(String::as_str), Some("eu"));
    assert_eq!(plan.env.get("D").map(String::as_str), Some("x-s3-1-eu"));
    assert_eq!(plan.env.get("O").map(String::as_str), Some("${other} ${env:REGION"));
    assert_eq!(plan.env.get("S").map(String::as_str), Some("${env:REGION}"));
    let cli = CliProvider.plan(&stage, &workflow, &vars, &map(&[]), &held).ok().expect("plan");
    assert_eq!(cli.env.get("H").map(String::as_str), Some("eu"));

    let missing = ShellProvider
        .plan(&stage, &workflow, &vars, &map(&[]), &sources())
        .err()
        .expect("no region");
    assert_eq!(missing.code, "provider_secret_not_found");
    assert_eq!(
        missing.message,
        "stage 's' missing environment variable 'REGION' for '${env:REGION}'"
    );
    assert!(resolve_refs("s", "${vault:kv/x}", &held).is_err());
    assert_eq!(resolve_refs("s", "${a${env:REGION}}", &held).ok().as_deref(), Some("${aeu}"));
}

#[test]
fn stored_secrets_are_read_where_they_are_needed() {
    let mut workflow = make_workflow();
    let mut stage = Stage::default();
    assert!(!needs_secrets(&stage, &workflow));
    workflow.env = map(&[("H", "${env:REGION}")]);
    assert!(!needs_secrets(&stage, &workflow));
    workflow.env = map(&[("H", "a ${vault:kv/t}")]);
    assert!(needs_secrets(&stage, &workflow));
    workflow.env = StrMap::new();
    stage.secrets = map(&[("T", "kv/t")]);
    assert!(needs_secrets(&stage, &workflow));
}
