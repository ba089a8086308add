use anna_rs::providers::llm::{
    active_llm_adapter_name, build_cli_stage, build_prompt, check_adapter_catalog, context_paths,
    LlmAdapterCatalog, LlmAdapterSpec,
};
use anna_rs::json::compact_json;
use anna_rs::providers::llm_catalog::{
    adapters_payload, adapters_report, loaded_catalog, unreadable_catalog,
};
use anna_rs::strmap::StrMap;
use anna_rs::workflow::{Stage, TriggerConfig, Workflow};

fn map(items: &[(&str, &str)]) -> StrMap<String> {
    let mut out = StrMap::new();
    for (k, v) in items {
        out.insert(k.to_string(), v.to_string());
    }
    out
}

fn make_workflow() -> Workflow {
    Workflow {
        name: "llm-provider-test".to_string(),
        mode: "once".to_string(),
        memory: false,
        tags: vec![],
        vars: StrMap::new(),
        env: StrMap::new(),
        workdir: None,
        trigger: TriggerConfig::default(),
        stages: vec![],
        source_path: None,
    }
}

fn adapter(command: &str) -> LlmAdapterSpec {
    LlmAdapterSpec {
        command: command.to_string(),
        args: vec![],
        env: StrMap::new(),
        model: None,
        parse: None,
    }
}

#[test]
fn build_prompt_includes_system_and_context_when_present() {
    let stage = Stage {
        id: "review".to_string(),
        provider: "llm".to_string(),
        do_prompt: Some("Review: $input".to_string()),
        system: Some("You are strict.".to_string()),
        context: vec!["/tmp/anna-llm-context".to_string()],
        ..Default::default()
    };
    let vars = map(&[("input", "abc")]);
    let paths = context_paths(&stage, &make_workflow(), &vars, &map(&[]));
    assert_eq!(paths, vec!["/tmp/anna-llm-context".to_string()]);

    let files = vec![(paths[0].clone(), Some("line1\nline2".to_string()))];
    let prompt = build_prompt(&stage, &vars, &map(&[]), &files);
    assert!(prompt.contains("<system>"));
    assert!(prompt.contains("Review: abc"));
    assert!(prompt.contains("<context>"));
    assert!(prompt.contains("line1"));
    assert_eq!(
        prompt,
        "<system>\nYou are strict.\n</system>\n\nReview: abc\n\n<context>\n## /tmp/anna-llm-context\nline1\nline2\n</context>"
    );
}

#[test]
fn build_cli_stage_uses_selected_adapter() {
    let stage = Stage {
        id: "llm".to_string(),
        provider: "llm".to_string(),
        llm_adapter: Some("openbao".to_string()),
        model: Some("large-sonnet".to_string()),
        args: vec!["--mock".to_string()],
        parse: Some("json".to_string()),
        ..Default::default()
    };
    let mut adapters = StrMap::new();
    adapters.insert(
        "openbao".to_string(),
        LlmAdapterSpec {
            command: "./tools/anna-llm-provider".to_string(),
            args: vec!["--backend-cmd".to_string(), "openbao-cli".to_string()],
            env: map(&[("ANNA_LLM_BACKEND_CMD", "openbao-cli")]),
            model: Some("ignored-model".to_string()),
            parse: Some("text".to_string()),
        },
    );
    let catalog = LlmAdapterCatalog {
        default: Some("openbao".to_string()),
        adapters,
    };

    let cli_stage = build_cli_stage(
        &stage,
        &make_workflow(),
        &map(&[]),
        &map(&[]),
        "ping",
        Some(&catalog),
        &map(&[]),
    )
    .ok()
    .expect("stage should resolve");

    assert_eq!(cli_stage.provider, "cli");
    assert_eq!(cli_stage.command.as_deref(), Some("./tools/anna-llm-provider"));
    assert_eq!(cli_stage.stdin.as_deref(), Some("ping"));
    assert_eq!(cli_stage.parse.as_deref(), Some("json"));
    assert!(cli_stage
        .args
        .windows(2)
        .any(|w| w[0] == "--backend-cmd" && w[1] == "openbao-cli"));
    assert!(cli_stage
        .args
        .windows(2)
        .any(|w| w[0] == "--model" && w[1] == "large-sonnet"));
    assert!(cli_stage
        .args
        .windows(2)
        .any(|w| w[0] == "--format" && w[1] == "json"));
    assert!(cli_stage.args.iter().any(|a| a == "--mock"));
    assert_eq!(
        cli_stage.env.get("ANNA_LLM_BACKEND_CMD"),
        Some(&"openbao-cli".to_string())
    );
    assert_eq!(
        cli_stage.env.get("ANNA_LLM_ADAPTER"),
        Some(&"openbao".to_string())
    );
}

#[test]
fn build_cli_stage_fails_for_unknown_adapter() {
    let stage = Stage {
        id: "llm".to_string(),
        provider: "llm".to_string(),
        llm_adapter: Some("missing".to_string()),
        ..Default::default()
    };
    let catalog = LlmAdapterCatalog {
        default: None,
        adapters: StrMap::new(),
    };

    let err = build_cli_stage(
        &stage,
        &make_workflow(),
        &map(&[]),
        &map(&[]),
        "ping",
        Some(&catalog),
        &map(&[]),
    )
    .err()
    .expect("unknown adapter should fail");

    assert_eq!(err.code, "provider_start_failed");
    assert!(err.message.contains("unknown llm adapter 'missing'"));
}

#[test]
fn parse_adapter_catalog_rejects_empty_exec_entries() {
    let mut adapters = StrMap::new();
    adapters.insert("mock".to_string(), adapter("./tools/anna-llm-provider"));
    adapters.insert("bad".to_string(), adapter(""));
    let catalog = LlmAdapterCatalog {
        default: Some("mock".to_string()),
        adapters,
    };
    let err = check_adapter_catalog(&catalog).expect_err("catalog should fail");
    assert!(err.contains("adapter 'bad' has empty exec"));
}

#[test]
fn the_environment_names_the_adapter_before_the_catalog() {
    let mut adapters = StrMap::new();
    adapters.insert("a".to_string(), adapter("x"));
    let catalog = LlmAdapterCatalog {
        default: Some("a".to_string()),
        adapters,
    };
    assert_eq!(
        active_llm_adapter_name(Some(&catalog), &map(&[])).as_deref(),
        Some("a")
    );
    assert_eq!(
        active_llm_adapter_name(Some(&catalog), &map(&[("ANNA_LLM_ADAPTER", " b ")])).as_deref(),
        Some("b")
    );
    assert_eq!(active_llm_adapter_name(None, &map(&[])), None);
}

#[test]
fn variables_of_the_stage_stay() {
    let mut adapters = StrMap::new();
    let mut spec = adapter("x");
    spec.env = map(&[("K", "adapter"), ("L", "adapter")]);
    adapters.insert("a".to_string(), spec);
    let catalog = LlmAdapterCatalog {
        default: Some("a".to_string()),
        adapters,
    };
    let stage = Stage {
        id: "llm".to_string(),
        env: map(&[("K", "stage")]),
        ..Default::default()
    };
    let cli = build_cli_stage(
        &stage,
        &make_workflow(),
        &map(&[]),
        &map(&[]),
        "p",
        Some(&catalog),
        &map(&[]),
    )
    .ok()
    .expect("stage");
    assert_eq!(cli.env.get("K").map(String::as_str), Some("stage"));
    assert_eq!(cli.env.get("L").map(String::as_str), Some("adapter"));
}

fn catalog() -> LlmAdapterCatalog {
    let mut adapters = StrMap::new();
    adapters.insert("two".to_string(), adapter("run2"));
    adapters.insert("one".to_string(), adapter("run1"));
    LlmAdapterCatalog {
        default: Some("one".to_string()),
        adapters,
    }
}

#[test]
fn catalogs_are_loaded_and_shown() {
    let loaded = loaded_catalog("/c.yaml".to_string(), Ok(catalog())).ok().expect("catalog");
    assert_eq!(
        adapters_report(&loaded, &map(&[("ANNA_LLM_ADAPTER", "two")])),
        vec![
            "source: /c.yaml".to_string(),
            "selected: two".to_string(),
            "default: one".to_string(),
            "adapters:".to_string(),
            "  - one".to_string(),
            "  - two".to_string(),
        ]
    );
    assert_eq!(
        compact_json(&adapters_payload(Some(&loaded), &map(&[]))),
        "{\"adapters\":{\"one\":{\"args\":[],\"env\":{},\"exec\":\"run1\",\"model\":null,\"parse\":null},\"two\":{\"args\":[],\"env\":{},\"exec\":\"run2\",\"model\":null,\"parse\":null}},\"configured\":true,\"default\":\"one\",\"selected\":\"one\",\"source\":\"/c.yaml\"}"
    );
    assert_eq!(
        compact_json(&adapters_payload(None, &map(&[]))),
        "{\"adapters\":{},\"configured\":false,\"default\":null,\"note\":\"set ANNA_LLM_ADAPTERS_FILE to enable adapter catalog\",\"selected\":null,\"source\":null}"
    );
}

#[test]
fn catalogs_that_cannot_be_used_are_refused() {
    let broken = loaded_catalog("/c".to_string(), Err("oops".to_string())).err().expect("broken");
    assert_eq!(
        broken.message,
        "invalid llm adapter catalog '/c': failed to parse yaml: oops"
    );
    let mut adapters = StrMap::new();
    adapters.insert("x".to_string(), adapter(" "));
    let idle = LlmAdapterCatalog { default: None, adapters };
    let empty = loaded_catalog("/c".to_string(), Ok(idle)).err().expect("no program");
    assert_eq!(
        empty.message,
        "invalid llm adapter catalog '/c': adapter 'x' has empty exec"
    );
    assert_eq!(
        unreadable_catalog("/c", "gone").message,
        "failed reading ANNA_LLM_ADAPTERS_FILE '/c': gone"
    );
}
