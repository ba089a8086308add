use anna_rs::strmap::StrMap;
use anna_rs::workflow::units::duration_text_fits;
use anna_rs::workflow::{
    parse_optional_duration, read_duration, Span, Stage, TriggerConfig, Workflow,
};

fn base_workflow(stages: Vec<Stage>) -> Workflow {
    Workflow {
        name: "wf".to_string(),
        mode: "once".to_string(),
        memory: false,
        tags: vec![],
        vars: StrMap::new(),
        env: StrMap::new(),
        workdir: None,
        trigger: TriggerConfig::default(),
        stages,
        source_path: None,
    }
}

fn stage(id: &str) -> Stage {
    Stage {
        id: id.to_string(),
        command: Some(format!("echo {}", id)),
        ..Default::default()
    }
}

#[test]
fn allows_dependency_on_prior_stage() {
    let workflow = base_workflow(vec![
        Stage {
            id: "a".to_string(),
            command: Some("echo a".to_string()),
            ..Default::default()
        },
        Stage {
            id: "b".to_string(),
            needs: vec!["a".to_string()],
            command: Some("echo b".to_string()),
            ..Default::default()
        },
    ]);
    workflow.validate().expect("workflow should validate");
}

#[test]
fn rejects_dependency_on_later_stage() {
    let invalid_workflow = base_workflow(vec![
        Stage {
            id: "b".to_string(),
            needs: vec!["a".to_string()],
            command: Some("echo b".to_string()),
            ..Default::default()
        },
        Stage {
            id: "a".to_string(),
            command: Some("echo a".to_string()),
            ..Default::default()
        },
    ]);
    let err = invalid_workflow
        .validate()
        .expect_err("workflow should fail validation");
    assert!(err.to_string().contains("must reference an earlier stage"));
}

#[test]
fn loop_stage_does_not_implicitly_make_workflow_continuous() {
    let loop_only_workflow = base_workflow(vec![Stage {
        id: "looped".to_string(),
        loop_stage: true,
        command: Some("echo hi".to_string()),
        ..Default::default()
    }]);
    assert!(!loop_only_workflow.is_continuous());
    assert!(loop_only_workflow.has_loop());
}

#[test]
fn stage_loop_interval_uses_default_when_missing() {
    let stage = Stage {
        id: "looped".to_string(),
        loop_stage: true,
        ..Default::default()
    };
    assert_eq!(
        stage
            .loop_interval_duration()
            .expect("default loop interval should parse"),
        Span::from_secs(1)
    );
}

#[test]
fn every_problem_of_a_workflow_is_named() {
    let mut unnamed = base_workflow(vec![stage("a")]);
    unnamed.name = "  ".to_string();
    assert_eq!(unnamed.validate().unwrap_err(), "workflow name is required");

    let mut odd = base_workflow(vec![stage("a")]);
    odd.mode = "sometimes".to_string();
    assert_eq!(
        odd.validate().unwrap_err(),
        "workflow mode must be 'once' or 'continuous'"
    );

    assert_eq!(
        base_workflow(vec![]).validate().unwrap_err(),
        "workflow must contain at least one stage"
    );
    assert_eq!(
        base_workflow(vec![stage(" ")]).validate().unwrap_err(),
        "stage id is required"
    );
    assert_eq!(
        base_workflow(vec![stage("a"), stage("a")]).validate().unwrap_err(),
        "duplicate stage id 'a'"
    );

    let mut trusting = stage("a");
    trusting.trust = Some("some".to_string());
    assert_eq!(
        base_workflow(vec![trusting]).validate().unwrap_err(),
        "invalid trust 'some' in stage 'a'"
    );

    let mut unknown = stage("a");
    unknown.needs = vec!["z".to_string()];
    assert!(base_workflow(vec![unknown]).validate().unwrap_err().contains("'z'"));
}

#[test]
fn durations_are_read() {
    assert_eq!(parse_optional_duration(None), Ok(None));
    assert_eq!(
        parse_optional_duration(Some("1m 30s")),
        Ok(Some(Span::from_secs(90)))
    );
    assert_eq!(
        parse_optional_duration(Some("250ms")),
        Ok(Some(Span { secs: 0, nanos: 250_000_000 }))
    );
    assert_eq!(
        parse_optional_duration(Some("soon")),
        Err("invalid duration 'soon'".to_string())
    );
}

#[test]
fn a_stage_names_the_delay_it_cannot_read() {
    let mut s = stage("a");
    s.retry_delay = Some("later".to_string());
    s.interval = Some("x".to_string());
    s.timeout = Some("y".to_string());
    assert_eq!(
        s.retry_delay_duration().unwrap_err(),
        "invalid retry_delay for stage 'a': later"
    );
    assert_eq!(
        s.loop_interval_duration().unwrap_err(),
        "invalid interval for stage 'a': x"
    );
    assert_eq!(s.timeout_duration().unwrap_err(), "invalid duration 'y'");
}

#[test]
fn ordinary_durations_fit() {
    assert!(duration_text_fits("5s"));
    assert!(duration_text_fits("1h 30min 15s 200ms"));
    assert!(duration_text_fits("1000000ms 1000000us 1234ns"));
    assert!(duration_text_fits("99999999999999999999s 1s"));
    assert!(duration_text_fits("18446744073709551615s"));
    assert!(duration_text_fits("1 000 000 000 000 000s 1.5h"));
    assert_eq!(
        read_duration("1000000ms 1000000us 1234ns"),
        Ok(Span { secs: 1001, nanos: 1234 })
    );
    assert_eq!(read_duration("5"), Err("time unit needed, for example 5sec or 5ms".to_string()));
    assert!(!duration_text_fits("18446744073709551614s 1s"));
    assert!(duration_text_fits("1000000000000000000ns"));
    assert!(!duration_text_fits("18446744073709551615s 1000ms"));
}

#[test]
fn spans_in_nanoseconds_stop_at_the_largest() {
    assert_eq!(Span { secs: 2, nanos: 5 }.to_nanos(), 2_000_000_005);
    assert_eq!(Span { secs: u64::MAX, nanos: 0 }.to_nanos(), u64::MAX);
}

#[test]
fn a_continuous_workflow_waits_as_its_loop_says() {
    let mut looped = stage("a");
    looped.loop_stage = true;
    looped.interval = Some("3s".to_string());
    let mut workflow = base_workflow(vec![stage("b"), looped]);
    assert_eq!(workflow.interval(), Span::from_secs(3));
    workflow.stages[1].interval = Some("never".to_string());
    assert_eq!(workflow.interval(), Span::from_secs(10));
    assert_eq!(workflow.stages[0].provider_name(), "shell");
}
