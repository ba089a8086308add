use anna_rs::allowlist::{
    allowed_providers_display, apply_offline_provider_ceiling, normalize_allowed_provider_set,
    parse_allowed_providers, provider_allowed,
};
use anna_rs::attempt::{
    after_failure, child_config, prepare_child, resolve_subworkflow_path, subworkflow_load_error,
    subworkflow_output, subworkflow_run_error, AfterFailure,
};
use anna_rs::executor::{
    check_decision, is_hitl_rejection, next_stage, output_file_path, stage_mode, start_run,
    Executor, NextStage, RunConfig, StageMode,
};
use anna_rs::fanout::{
    each_items, each_parts, each_stage, each_vars, fork_parts, fork_stage, gather_parts,
    record_vote, split_each_items, ParallelResults, Part, PartsStep,
};
use anna_rs::memory::{MemoryStore, WorkflowMemory};
use anna_rs::providers::{BuiltinProvider, ProviderError};
use anna_rs::json::{compact_json, parse_json};
use anna_rs::report::run_report;
use anna_rs::result::RunResult;
use anna_rs::run::{durations_fit, Action, Event, Phase, Run};
use anna_rs::session::{log_stage, session_meta, session_meta_path, stage_log_path, with_child};
use anna_rs::strmap::{StrMap, StrSet};
use anna_rs::workflow::{Span, Stage, TriggerConfig, Workflow};
use anna_rs::worktree::{
    part_outcome, repo_candidates, repo_root_args, repo_root_told, sanitize_token,
    worktree_add_args, worktree_add_error, worktree_branch, worktree_path, worktree_remove_args,
};

fn map(items: &[(&str, &str)]) -> StrMap<String> {
    let mut out = StrMap::new();
    for (k, v) in items {
        out.insert(k.to_string(), v.to_string());
    }
    out
}

fn set(items: &[&str]) -> StrSet {
    StrSet::of(&items.iter().map(|v| v.to_string()).collect())
}

fn shell(id: &str) -> Stage {
    Stage {
        id: id.to_string(),
        provider: "shell".to_string(),
        command: Some(format!("echo {}", id)),
        ..Default::default()
    }
}

fn workflow(name: &str, stages: Vec<Stage>) -> Workflow {
    Workflow {
        name: name.to_string(),
        mode: "once".to_string(),
        memory: false,
        tags: vec![],
        vars: StrMap::new(),
        env: StrMap::new(),
        workdir: None,
        trigger: TriggerConfig::default(),
        stages,
        source_path: None,
    }
}

/// What stands for the world outside: the outcome of each stage, of each hook,
/// and the decision of a person.
struct World {
    execute: Box<dyn FnMut(&Run) -> Result<String, String>>,
    hook_fails: bool,
    decision: Option<String>,
    memory: Option<WorkflowMemory>,
    seen: Vec<String>,
}

fn world(execute: Box<dyn FnMut(&Run) -> Result<String, String>>) -> World {
    World {
        execute,
        hook_fails: false,
        decision: None,
        memory: None,
        seen: vec![],
    }
}

/// The parts of a stage: each gives its item back, a fork without one says hi.
fn run_parts(run: &mut Run, parts: Vec<Part>, kind: &str) -> Event {
    let mut results = ParallelResults::new(parts.len());
    for (i, part) in parts.iter().enumerate().rev() {
        let item = part.vars.get("each").cloned();
        results.record_output(i, item.unwrap_or_else(|| "hi".to_string()));
    }
    match gather_parts(&run.workflow, &run.stage, &mut run.result, results, kind) {
        Ok(PartsStep::Done(output)) => Event::Output(output),
        _ => panic!("the parts should gather"),
    }
}

fn drive(workflow: Workflow, max_iterations: Option<u32>, world: &mut World) -> (Run, Result<(), String>) {
    let config = RunConfig {
        max_iterations,
        session_id_override: None,
    };
    assert!(durations_fit(&workflow));
    let result = start_run(&config, None);
    let (mut run, mut action) = Run::start(workflow, max_iterations, result);
    for _ in 0..1000 {
        let event = match action {
            Action::InitSession => Event::Done,
            Action::Recall => match world.memory.take() {
                Some(memory) => Event::Recalled(memory),
                None => Event::Done,
            },
            Action::MakeWorktree => Event::Worktree("/worktree".to_string()),
            Action::RunHook(stage) => {
                world.seen.push(format!("hook {}", stage.command.unwrap_or_default()));
                if world.hook_fails {
                    Event::Failed("hook broke".to_string())
                } else {
                    Event::Output(String::new())
                }
            }
            Action::Execute => {
                world.seen.push(format!("run {}", run.stage.id));
                match stage_mode(&run.stage) {
                    StageMode::Forks(forks) => {
                        let parts = fork_parts(&run.stage, &run.workflow.vars, forks);
                        run_parts(&mut run, parts, "fork")
                    }
                    StageMode::Each => {
                        let parts = each_parts(&run.stage, &run.workflow.vars, &run.result.outputs)
                            .ok()
                            .expect("parts");
                        run_parts(&mut run, parts, "each")
                    }
                    _ => match (world.execute)(&run) {
                        Ok(output) => Event::Output(output),
                        Err(message) => Event::Failed(message),
                    },
                }
            }
            Action::WriteLog(text) => {
                world.seen.push(format!("log {}", text));
                Event::Done
            }
            Action::WriteFile(path) => {
                world.seen.push(format!("file {}", path));
                Event::Done
            }
            Action::Ask(request) => {
                world.seen.push(format!("ask {}", request.stage_id));
                Event::Decided(world.decision.clone())
            }
            Action::Pause(span) => {
                world.seen.push(format!("pause {}", span.to_nanos()));
                Event::Done
            }
            Action::RemoveWorktree => {
                world.seen.push("remove worktree".to_string());
                Event::Done
            }
            Action::Remember => {
                world.seen.push("remember".to_string());
                Event::Done
            }
            Action::Rest(span) => {
                world.seen.push(format!("rest {}", span.secs));
                Event::Done
            }
            Action::NoValue(i) => panic!("the condition of stage {} has no value", i),
            Action::End(result) => return (run, result),
        };
        action = run.step(event);
    }
    panic!("the run did not end");
}

#[test]
fn parse_allowed_providers_handles_case_and_wildcards() {
    let parsed =
        parse_allowed_providers(Some(" shell,HTTP , cli,shell ")).expect("policy should parse");
    assert!(parsed.contains("shell"));
    assert!(parsed.contains("http"));
    assert!(parsed.contains("cli"));
    assert_eq!(parsed.len(), 3);

    assert!(parse_allowed_providers(Some("*")).is_none());
    assert!(parse_allowed_providers(Some("all,http")).is_none());
}

#[test]
fn offline_ceiling_defaults_to_deterministic_providers() {
    let offline_allowed = apply_offline_provider_ceiling(None, true)
        .expect("offline mode should always set provider ceiling");
    assert_eq!(offline_allowed.len(), 3);
    assert!(offline_allowed.contains("shell"));
    assert!(offline_allowed.contains("cli"));
    assert!(offline_allowed.contains("vault"));
}

#[test]
fn offline_ceiling_intersects_explicit_allowlist() {
    let intersected_allowed = apply_offline_provider_ceiling(Some(set(&["shell", "http"])), true)
        .expect("offline mode should always set provider ceiling");
    assert_eq!(intersected_allowed.to_vec(), vec!["shell".to_string()]);

    let empty_intersection = apply_offline_provider_ceiling(Some(set(&["http"])), true)
        .expect("offline mode should always set provider ceiling");
    assert!(empty_intersection.is_empty());
}

#[test]
fn the_ceiling_holds_for_every_allowlist() {
    let allowed = apply_offline_provider_ceiling(Some(set(&["shell", "http"])), true);
    assert!(provider_allowed("SHELL", &allowed));
    assert!(!provider_allowed("http", &allowed));
    let again = apply_offline_provider_ceiling(allowed, true).expect("ceiling");
    assert_eq!(again.to_vec(), vec!["shell".to_string()]);
    assert!(apply_offline_provider_ceiling(None, false).is_none());
    assert_eq!(allowed_providers_display(&set(&["http", "cli"])), "cli,http");
    assert_eq!(allowed_providers_display(&set(&[])), "(none)");
    assert!(normalize_allowed_provider_set(Some(&set(&["Shell", " "])))
        .expect("set")
        .contains("shell"));
    assert!(normalize_allowed_provider_set(Some(&set(&["ALL", "x"]))).is_none());
}

#[test]
fn blocked_provider_fails_stage() {
    let executor = Executor::new(&map(&[])).with_allowed_providers(Some(set(&["http", "cli"])));
    let err = executor.prepare_attempts(&shell("s1")).err().expect("blocked provider should fail");
    let blocked_message = err.to_text();
    assert!(blocked_message.contains("provider 'shell' is blocked"));
    assert!(blocked_message.contains("allowed providers: cli,http"));
}

#[test]
fn attempts_are_planned() {
    let executor = Executor::new(&map(&[("HOME", "/home/a")]));
    assert!(!executor.offline_mode());
    assert!(executor.allowed_providers_set().is_none());
    let mut stage = shell("s");
    stage.retry = Some(3);
    stage.timeout = Some("2s".to_string());
    let plan = executor.prepare_attempts(&stage).ok().expect("plan");
    assert_eq!(plan.provider, BuiltinProvider::Shell);
    assert_eq!(plan.timeout, Some(Span::from_secs(2)));
    assert_eq!(plan.delay, Span::from_secs(1));
    assert_eq!(after_failure(&plan, 2), AfterFailure::Retry);
    assert_eq!(after_failure(&plan, 3), AfterFailure::GiveUp);

    stage.provider = "ftp".to_string();
    assert_eq!(
        executor.prepare_attempts(&stage).err().expect("unknown").message,
        "unknown provider 'ftp' in stage 's'"
    );
    stage.timeout = Some("x".to_string());
    assert_eq!(
        executor.prepare_attempts(&stage).err().expect("timeout").message,
        "stage 's' has invalid timeout: invalid duration 'x'"
    );
    let offline = Executor::new(&map(&[("ANNA_OFFLINE_MODE", "yes")]));
    assert!(offline.offline_mode());
    assert_eq!(offline.memory.root, "/tmp/anna-memory");
}

#[test]
fn stages_run_in_order_and_record_outputs() {
    let mut first = shell("a");
    first.output = Some("out.txt".to_string());
    let mut second = shell("b");
    second.needs = vec!["a".to_string()];
    second.when = Some("$a == 'A'".to_string());
    let mut third = shell("c");
    third.when = Some("$a == 'B'".to_string());
    let mut w = workflow("wf", vec![first, second, third]);
    w.workdir = Some("/w".to_string());
    let mut world = world(Box::new(|run: &Run| Ok(run.stage.id.to_uppercase())));
    let (run, ended) = drive(w, None, &mut world);
    assert_eq!(ended, Ok(()));
    assert_eq!(run.result.outputs.get("b").map(String::as_str), Some("B"));
    assert_eq!(run.result.success.get("c"), None);
    assert_eq!(
        world.seen,
        vec!["run a", "log A", "file /w/out.txt", "run b", "log B"]
    );
}

#[test]
fn a_failed_stage_ends_the_run_after_its_hooks() {
    let mut first = shell("a");
    first.before = Some("echo before".to_string());
    first.after = Some("echo after".to_string());
    first.on_error = Some("echo oops".to_string());
    let mut world = world(Box::new(|_: &Run| Err("boom".to_string())));
    world.hook_fails = true;
    let (run, ended) = drive(workflow("wf", vec![first, shell("b")]), None, &mut world);
    assert_eq!(ended, Err("boom".to_string()));
    assert_eq!(run.phase, Phase::Ended);
    assert_eq!(run.result.success.get("a"), Some(&false));
    assert_eq!(
        world.seen,
        vec!["hook echo before", "run a", "log boom", "hook echo oops", "hook echo after"]
    );
    assert_eq!(
        run.result.errors,
        vec![
            "stage 'a': before hook failed: hook broke".to_string(),
            "a: boom".to_string(),
            "stage 'a': on_error hook failed: hook broke".to_string(),
            "stage 'a': after hook failed: hook broke".to_string(),
        ]
    );
}

#[test]
fn hitl_decision_is_recorded() {
    let mut stage = shell("approve_me");
    stage.hitl = true;
    stage.hitl_options = vec!["approve".to_string(), "reject".to_string()];
    let mut world = world(Box::new(|_: &Run| Ok("done".to_string())));
    world.decision = Some("approve".to_string());
    let (run, ended) = drive(workflow("hitl-ok", vec![stage]), Some(1), &mut world);
    assert_eq!(ended, Ok(()));
    assert_eq!(run.result.success.get("approve_me"), Some(&true));
    assert_eq!(
        run.result.outputs.get("approve_me.hitl"),
        Some(&"approve".to_string())
    );
}

#[test]
fn hitl_reject_fails_workflow() {
    let mut stage = shell("must_approve");
    stage.hitl = true;
    stage.hitl_options = vec!["approve".to_string(), "reject".to_string()];
    let mut world = world(Box::new(|_: &Run| Ok("done".to_string())));
    world.decision = Some("reject".to_string());
    let (run, ended) = drive(workflow("hitl-reject", vec![stage]), Some(1), &mut world);
    let err = ended.expect_err("workflow should fail on hitl rejection");
    assert!(err.contains("HITL rejected"));
    assert_eq!(run.result.success.get("must_approve"), Some(&false));
}

#[test]
fn decisions_must_be_among_the_options() {
    let mut stage = shell("s");
    stage.hitl_options = vec!["yes".to_string(), "no".to_string()];
    assert_eq!(check_decision(&stage, Some(" YES ")), Ok("YES".to_string()));
    assert_eq!(
        check_decision(&stage, Some("maybe")),
        Err("HITL decision 'maybe' is not in allowed options for stage 's'".to_string())
    );
    stage.hitl_options = vec![];
    assert_eq!(check_decision(&stage, None), Ok("skipped".to_string()));
    assert!(is_hitl_rejection(" Denied "));
    assert!(!is_hitl_rejection("approve"));
}

#[test]
fn stage_loop_respects_max_iterations() {
    let mut stage = shell("looped");
    stage.loop_stage = true;
    stage.interval = Some("1ms".to_string());
    stage.max_iterations = Some(3);
    let mut world = world(Box::new(|run: &Run| Ok(format!("{}", run.iteration))));
    let (run, ended) = drive(workflow("stage-loop-max", vec![stage]), Some(1), &mut world);
    assert_eq!(ended, Ok(()));
    assert_eq!(run.result.success.get("looped"), Some(&true));
    assert_eq!(run.result.outputs.get("looped"), Some(&"3".to_string()));
    assert_eq!(run.result.outputs.get("looped.iterations"), Some(&"3".to_string()));
    assert_eq!(world.seen.iter().filter(|s| s.as_str() == "pause 1000000").count(), 2);
}

#[test]
fn stage_loop_break_when_stops_workflow_progress() {
    let mut test = shell("test");
    test.loop_stage = true;
    test.interval = Some("1ms".to_string());
    test.max_iterations = Some(10);
    test.break_when = Some("RUN-2".to_string());
    let mut after = shell("after");
    after.needs = vec!["test".to_string()];
    let mut world = world(Box::new(|run: &Run| Ok(format!("RUN-{}", run.iteration))));
    let (run, ended) = drive(workflow("stage-loop-break", vec![test, after]), Some(1), &mut world);
    assert_eq!(ended, Ok(()));
    assert_eq!(run.result.success.get("test"), Some(&true));
    assert_eq!(run.result.outputs.get("test"), Some(&"RUN-2".to_string()));
    assert_eq!(run.result.outputs.get("test.iterations"), Some(&"2".to_string()));
    assert_eq!(run.result.success.get("after"), None);
    assert_eq!(run.result.outputs.get("after"), None);
}

#[test]
fn a_bad_loop_interval_fails_the_run() {
    let mut stage = shell("s");
    stage.loop_stage = true;
    stage.interval = Some("soon".to_string());
    let mut world = world(Box::new(|_: &Run| Ok(String::new())));
    let (_, ended) = drive(workflow("w", vec![stage]), None, &mut world);
    assert_eq!(
        ended,
        Err("stage 's' has invalid loop interval: invalid interval for stage 's': soon".to_string())
    );
    assert!(world.seen.is_empty());
}

#[test]
fn a_continuous_workflow_passes_until_its_limit() {
    let mut w = workflow("w", vec![shell("a")]);
    w.mode = "continuous".to_string();
    let mut world = world(Box::new(|_: &Run| Ok("x".to_string())));
    let (run, ended) = drive(w, Some(3), &mut world);
    assert_eq!(ended, Ok(()));
    assert_eq!(run.passes, 3);
    assert_eq!(world.seen.iter().filter(|s| s.as_str() == "run a").count(), 3);
    assert_eq!(world.seen.iter().filter(|s| s.as_str() == "rest 10").count(), 2);
}

#[test]
fn stage_worktree_runs_in_isolated_checkout_and_cleans_up() {
    let mut stage = shell("wt");
    stage.worktree = Some("feat".to_string());
    let mut world = world(Box::new(|run: &Run| {
        Ok(run.stage.workdir.clone().unwrap_or_default())
    }));
    let (run, ended) = drive(workflow("worktree-test", vec![stage]), Some(1), &mut world);
    assert_eq!(ended, Ok(()));
    assert_eq!(run.result.success.get("wt"), Some(&true));
    assert_eq!(run.result.outputs.get("wt").map(String::as_str), Some("/worktree"));
    assert_eq!(world.seen.last().map(String::as_str), Some("remove worktree"));
    let expected_name = format!("worktree-{}-{}", sanitize_token("wt"), sanitize_token("feat"));
    assert_eq!(
        worktree_path("wt", "feat", &map(&[("SESSION", "s1")])),
        format!("/tmp/anna/s1/{}", expected_name)
    );
}

#[test]
fn forks_with_worktree_use_distinct_paths() {
    let mut stage = shell("wtf");
    stage.forks = Some(2);
    stage.worktree = Some("feat".to_string());
    let outputs = map(&[("SESSION", "s1")]);
    let path = |i: usize| {
        let fork = fork_stage(&stage, i);
        let branch = worktree_branch(&fork, &map(&[]), &outputs)
            .expect("branch")
            .expect("a worktree is asked for");
        worktree_path(&fork.id, &branch, &outputs)
    };
    assert_ne!(path(0), path(1));
    assert!(path(0).ends_with(&format!(
        "worktree-{}-{}",
        sanitize_token("wtf"),
        sanitize_token("feat-fork-0")
    )));
    assert!(path(1).ends_with(&format!(
        "worktree-{}-{}",
        sanitize_token("wtf"),
        sanitize_token("feat-fork-1")
    )));
}

fn gather(workflow: &Workflow, stage: &Stage, result: &mut RunResult, outs: &[&str], kind: &str) -> PartsStep {
    let mut results = ParallelResults::new(outs.len());
    for i in (0..outs.len()).rev() {
        results.record_output(i, outs[i].to_string());
    }
    gather_parts(workflow, stage, result, results, kind).ok().expect("parts should gather")
}

#[test]
fn forks_populate_indexed_outputs() {
    let mut stage = shell("review");
    stage.forks = Some(2);
    assert_eq!(stage_mode(&stage), StageMode::Forks(2));
    let w = workflow("forks-test", vec![]);
    let mut result = RunResult::new();
    let step = gather(&w, &stage, &mut result, &["hi", "hi"], "fork");
    assert!(matches!(step, PartsStep::Done(all) if all == "hi\n---\nhi"));
    assert!(result.outputs.contains_key("review.0"));
    assert!(result.outputs.contains_key("review.1"));
    assert!(result.outputs.contains_key("review.all"));
    assert_eq!(result.success.get("review.1"), Some(&true));

    let mut world = world(Box::new(|_: &Run| Ok(String::new())));
    let (run, ended) = drive(workflow("forks-test", vec![stage]), Some(1), &mut world);
    assert_eq!(ended, Ok(()));
    assert_eq!(run.result.success.get("review"), Some(&true));
    assert!(run.result.outputs.contains_key("review.0"));
    assert!(run.result.outputs.contains_key("review.1"));
    assert!(run.result.outputs.contains_key("review.all"));
}

#[test]
fn each_from_populates_indexed_outputs() {
    let mut stage = shell("process");
    stage.each_from = Some("list".to_string());
    assert_eq!(stage_mode(&stage), StageMode::Each);
    let w = workflow("each-test", vec![]);
    let mut result = RunResult::new();
    result.set_success("list", "a\nb\n".to_string());
    let items = each_items(&stage, &w.vars, &result.outputs).ok().expect("items");
    assert_eq!(items, vec!["a".to_string(), "b".to_string()]);
    assert_eq!(
        each_vars(&w.vars, &items[1]).get("each").map(String::as_str),
        Some("b")
    );
    assert!(each_stage(&stage, 0).each_from.is_none());
    gather(&w, &stage, &mut result, &["a", "b"], "each");
    assert_eq!(result.outputs.get("process.0").map(String::as_str), Some("a"));
    assert_eq!(result.outputs.get("process.1").map(String::as_str), Some("b"));
    assert!(result.outputs.contains_key("process.all"));

    stage.needs = vec!["list".to_string()];
    let mut world = world(Box::new(|_: &Run| Ok("a\nb\n".to_string())));
    let (run, ended) = drive(workflow("each-test", vec![shell("list"), stage]), Some(1), &mut world);
    assert_eq!(ended, Ok(()));
    assert_eq!(run.result.success.get("list"), Some(&true));
    assert_eq!(run.result.success.get("process"), Some(&true));
    assert!(run.result.outputs.contains_key("process.0"));
    assert!(run.result.outputs.contains_key("process.1"));
    assert!(run.result.outputs.contains_key("process.all"));
}

#[test]
fn items_are_split_at_rules_or_lines() {
    assert_eq!(split_each_items("a\n\n b \n"), vec!["a".to_string(), "b".to_string()]);
    assert_eq!(
        split_each_items("a\nb\n---\nc"),
        vec!["a\nb".to_string(), "c".to_string()]
    );
    let listed = Stage {
        id: "s".to_string(),
        each: vec!["$x".to_string()],
        ..Default::default()
    };
    assert_eq!(
        each_items(&listed, &map(&[("x", "1")]), &map(&[])).ok().expect("items"),
        vec!["1".to_string()]
    );
    assert_eq!(
        each_items(&shell("s"), &map(&[]), &map(&[])).err().expect("no source").message,
        "stage 's' has each mode without source"
    );
}

#[test]
fn models_are_dealt_out_in_turn() {
    let mut stage = shell("s");
    stage.models = vec!["m1".to_string(), "m2".to_string()];
    assert_eq!(fork_stage(&stage, 0).model.as_deref(), Some("m1"));
    assert_eq!(fork_stage(&stage, 1).model.as_deref(), Some("m2"));
    assert_eq!(fork_stage(&stage, 2).model.as_deref(), Some("m1"));
}

#[test]
fn a_vote_names_the_candidates() {
    let mut stage = shell("s");
    stage.vote = Some("pick the best of $topic".to_string());
    let mut w = workflow("w", vec![]);
    w.vars = map(&[("topic", "all")]);
    let mut result = RunResult::new();
    let PartsStep::Vote(vote) = gather(&w, &stage, &mut result, &["one", "two"], "fork") else {
        panic!("a vote was asked for");
    };
    assert_eq!(vote.id, "s.vote");
    assert_eq!(vote.provider, "llm");
    assert_eq!(
        vote.do_prompt.as_deref(),
        Some("pick the best of all\n\nCandidates:\n\n[0]\none\n\n[1]\ntwo\n")
    );
    record_vote("s", &mut result, "two");
    assert_eq!(result.outputs.get("s.vote").map(String::as_str), Some("two"));
    assert_eq!(result.outputs.get("s.0").map(String::as_str), Some("one"));
}

#[test]
fn failed_parts_fail_the_stage() {
    let stage = shell("s");
    let w = workflow("w", vec![]);
    let mut result = RunResult::new();
    let mut results = ParallelResults::new(2);
    results.record_output(0, "x".to_string());
    results.record_lost("fork", "s", "cancelled");
    results.record_error(ProviderError::new("provider_timeout", "late".to_string()));
    let err = gather_parts(&w, &stage, &mut result, results, "fork").err().expect("error");
    assert_eq!(err.message, "fork task failed in stage 's': cancelled");

    let mut some = ParallelResults::new(2);
    some.record_output(0, "x".to_string());
    let err = gather_parts(&w, &stage, &mut result, some, "each").err().expect("missing part");
    assert_eq!(err.message, "each item 1 produced no output in stage 's'");

    let lost = part_outcome("s", Ok("x".to_string()), Some("busy")).err().expect("cleanup");
    assert_eq!(lost.message, "stage 's' worktree cleanup failed: busy");
    assert_eq!(part_outcome("s", Ok("x".to_string()), None).ok().as_deref(), Some("x"));
}

#[test]
fn subworkflow_uses_last_stage_output() {
    let mut parent = workflow("parent", vec![]);
    parent.workdir = Some("/base".to_string());
    parent.vars = map(&[("A", "parent"), ("B", "parent"), ("C", "parent")]);
    let mut call = shell("call");
    call.workflow = Some("child.anna".to_string());
    call.vars = map(&[("C", "stage $x")]);
    assert_eq!(stage_mode(&call), StageMode::Subworkflow);
    assert_eq!(
        resolve_subworkflow_path(&parent, &call, "child.anna"),
        "/base/child.anna"
    );
    let mut child = workflow("child", vec![shell("first"), shell("done")]);
    child.vars = map(&[("B", "child")]);
    let ready = prepare_child(&parent, &call, child, &map(&[("x", "1")]));
    assert_eq!(ready.vars.get("A").map(String::as_str), Some("parent"));
    assert_eq!(ready.vars.get("B").map(String::as_str), Some("child"));
    assert_eq!(ready.vars.get("C").map(String::as_str), Some("stage 1"));
    assert_eq!(ready.workdir.as_deref(), Some("/base"));
    assert_eq!(child_config().max_iterations, Some(1));
    assert_eq!(
        subworkflow_output(&ready, &map(&[("first", "no"), ("done", "child-ok")])),
        "child-ok"
    );
    assert_eq!(subworkflow_output(&ready, &map(&[])), "sub-workflow completed: child");
    assert_eq!(
        subworkflow_load_error("/c", "gone"),
        "SUBWORKFLOW_ERROR: failed to load '/c': gone"
    );
    assert_eq!(
        subworkflow_run_error("child", "boom"),
        "SUBWORKFLOW_ERROR: workflow 'child' failed: boom"
    );
}

#[test]
fn a_subworkflow_is_found_beside_its_parent() {
    let mut parent = workflow("parent", vec![]);
    parent.source_path = Some("/plays/parent.anna".to_string());
    assert_eq!(
        resolve_subworkflow_path(&parent, &shell("s"), "child.anna"),
        "/plays/child.anna"
    );
    assert_eq!(resolve_subworkflow_path(&parent, &shell("s"), "/c.anna"), "/c.anna");
    assert_eq!(
        repo_candidates(&parent, &shell("s"), Some("/cwd")),
        vec!["/plays".to_string(), "/cwd".to_string()]
    );
}

#[test]
fn memory_injects_previous_stage_output() {
    let store = MemoryStore::new("/m".to_string(), 10);
    let mut memory = WorkflowMemory::empty("memory-wf");
    let mut first = RunResult::new();
    first.set_success("save", "first".to_string());
    store.record_snapshot(&mut memory, "memory-wf", &first, 1);

    let mut w = workflow("memory-wf", vec![shell("use_mem")]);
    w.memory = true;
    let mut world = world(Box::new(|run: &Run| {
        Ok(format!(
            "prev:{}",
            run.result.outputs.get("memory.save").cloned().unwrap_or_default()
        ))
    }));
    world.memory = Some(memory);
    let (run, ended) = drive(w, Some(1), &mut world);
    assert_eq!(ended, Ok(()));
    assert_eq!(run.result.success.get("use_mem"), Some(&true));
    assert_eq!(run.result.outputs.get("use_mem"), Some(&"prev:first".to_string()));
    assert_eq!(world.seen.last().map(String::as_str), Some("remember"));
}

#[test]
fn the_next_stage_is_the_first_that_may_run() {
    let mut a = shell("a");
    a.needs = vec!["z".to_string()];
    let mut b = shell("b");
    b.when = Some("x == '".to_string());
    let w = workflow("w", vec![a, shell("c"), b]);
    let result = RunResult::new();
    assert_eq!(next_stage(&w, &result, 0), NextStage::Run(1));
    assert_eq!(next_stage(&w, &result, 2), NextStage::NoValue(2));
    assert_eq!(next_stage(&w, &result, 3), NextStage::Finished);
    assert_eq!(output_file_path(&w, &shell("a"), "o.txt"), "o.txt");
}

#[test]
fn a_given_session_id_is_kept() {
    let config = RunConfig {
        max_iterations: None,
        session_id_override: Some("abc".to_string()),
    };
    let result = start_run(&config, Some("parent".to_string()));
    assert_eq!(result.session_id, "abc");
    assert_eq!(result.outputs.get("SESSION").map(String::as_str), Some("abc"));
    assert_eq!(result.parent_id.as_deref(), Some("parent"));
}

#[test]
fn git_is_asked_in_its_own_words() {
    assert_eq!(
        repo_root_args("/w"),
        vec!["-C", "/w", "rev-parse", "--show-toplevel"]
    );
    assert_eq!(repo_root_told(true, "/repo\n").as_deref(), Some("/repo"));
    assert_eq!(repo_root_told(true, " "), None);
    assert_eq!(repo_root_told(false, "/repo"), None);
    assert_eq!(
        worktree_add_args("/r", "/p", "b", true),
        vec!["-C", "/r", "worktree", "add", "-b", "b", "/p"]
    );
    assert_eq!(
        worktree_add_args("/r", "/p", "b", false),
        vec!["-C", "/r", "worktree", "add", "/p", "b"]
    );
    assert_eq!(
        worktree_remove_args("/r", "/p"),
        vec!["-C", "/r", "worktree", "remove", "--force", "/p"]
    );
    assert_eq!(
        worktree_add_error("/r", "b", " ", "said"),
        "git worktree add failed (repo='/r', branch='b'): said"
    );
    assert_eq!(sanitize_token("feat/x y"), "feat-x-y");
    assert_eq!(sanitize_token("///"), "x");
    let mut blank = shell("s");
    blank.worktree = Some("$b".to_string());
    assert_eq!(
        worktree_branch(&blank, &map(&[("b", " ")]), &map(&[])),
        Err("stage 's' has empty rendered worktree branch".to_string())
    );
}

#[test]
fn stages_are_dealt_out_in_parts() {
    let mut stage = shell("s");
    stage.models = vec!["m1".to_string(), "m2".to_string()];
    let forks = fork_parts(&stage, &map(&[("a", "1")]), 3);
    assert_eq!(forks.len(), 3);
    assert_eq!(forks[2].stage.model.as_deref(), Some("m1"));
    assert_eq!(forks[2].vars.get("a"), Some(&"1".to_string()));

    stage.each = vec!["x".to_string(), "$a".to_string()];
    let parts = each_parts(&stage, &map(&[("a", "1")]), &map(&[])).ok().expect("parts");
    assert_eq!(parts.len(), 2);
    assert_eq!(parts[1].vars.get("each"), Some(&"1".to_string()));
    assert!(parts[1].stage.each.is_empty());

    let err = each_parts(&shell("s"), &map(&[]), &map(&[])).err().expect("no source");
    assert_eq!(err.message, "stage 's' has each mode without source");
}

#[test]
fn a_run_is_reported() {
    let flow = workflow("w", vec![shell("a"), shell("b")]);
    let mut result = RunResult::new();
    result.session_id = "s".to_string();
    result.set_success("a", "out".to_string());
    assert_eq!(
        run_report(&flow, &result),
        vec!["session=s".to_string(), "ok a".to_string(), "skip/fail b".to_string()]
    );
    result.set_error("b", "boom".to_string());
    assert_eq!(
        run_report(&flow, &result)[3..],
        ["\nerrors:".to_string(), "- b: boom".to_string()]
    );
}

#[test]
fn the_data_of_a_session_name_its_children() {
    assert_eq!(session_meta_path("s"), "/tmp/anna/s/_meta.json");
    let meta = session_meta("s", "w", &Some("p".to_string()));
    assert_eq!(
        compact_json(&meta),
        "{\"children\":[],\"parent_id\":\"p\",\"session_id\":\"s\",\"workflow\":\"w\"}"
    );
    let grown = with_child(&with_child(&meta, "c1", "w1"), "c2", "w2");
    assert_eq!(
        compact_json(grown.get("children").expect("children")),
        "[{\"session_id\":\"c1\",\"workflow\":\"w1\"},{\"session_id\":\"c2\",\"workflow\":\"w2\"}]"
    );
    let other = parse_json("{\"a\":[1]}").ok().expect("json");
    assert_eq!(compact_json(&with_child(&other, "c", "w")), "{\"a\":[1]}");
}

#[test]
fn logs_lie_under_the_ids_of_their_stages() {
    assert_eq!(log_stage(&stage_log_path("s", "build.1")).as_deref(), Some("build.1"));
    assert_eq!(log_stage("/tmp/anna/s/_meta.json"), None);
    assert_eq!(log_stage("/tmp/anna/s/.log"), None);
}

#[test]
fn joined_outputs_split_into_the_same_items() {
    let outs: Vec<String> = ["one", "two\nlines", "- -- -"].iter().map(|o| o.to_string()).collect();
    assert_eq!(split_each_items(&outs.join("\n---\n")), outs);
}
