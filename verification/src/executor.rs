//! How a workflow runs: which stage is next, how a stage is carried out, and
//! what its outcome does to the run.
use crate::allowlist::{
    allowlist_from, apply_offline_provider_ceiling, normalize_allowed_provider_set, opt_set,
    parse_allowed_providers, under_ceiling,
};
use crate::expr::{subst, substituted, try_eval_when, when_value};
use crate::memory::{memory_root_path, MemoryStore};
use crate::number::{decimal, u64_text};
use crate::providers::vault_config::{is_truthy, truthy};
use crate::providers::{builtin_providers, default_registry, BuiltinProvider, ProviderRegistry};
use crate::result::RunResult;
use crate::paths::{join_path, joined_path};

use crate::strmap::{lookup, put, StrMap, StrSet};
use crate::text::{
    cat3, cat5, cat6, clone_opt, clone_texts, contains, group_texts, holds_text, lowered, opt_text,
    same, same_ignoring_case, split_by, texts, to_lower, trim, trimmed, CharSet,
};
use crate::workflow::{Stage, StageView, Workflow};
use vstd::prelude::*;
use vstd::string::*;

pub mod laws;

verus! {

/// Execution options for one workflow run.
pub struct RunConfig {
    pub max_iterations: Option<u32>,
    pub session_id_override: Option<String>,
}

/// Human-in-the-loop decision request payload.
pub struct HitlRequest {
    pub session_id: String,
    pub workflow: String,
    pub stage_id: String,
    pub prompt: Option<String>,
    pub options: Vec<String>,
}

/// The policy under which workflows run.
pub struct Executor {
    pub providers: ProviderRegistry<BuiltinProvider>,
    pub allowed_providers: Option<StrSet>,
    pub offline_mode: bool,
    pub memory: MemoryStore,
}

/// Whether the environment asks for offline mode.
pub open spec fn offline_asked(env: Seq<(Seq<char>, Seq<char>)>) -> bool {
    match lookup(env, "ANNA_OFFLINE_MODE"@) {
        Some(value) => truthy(value),
        None => false,
    }
}

/// The allowlist that the environment sets, under its ceiling.
pub open spec fn allowlist_set(env: Seq<(Seq<char>, Seq<char>)>) -> Option<Set<Seq<char>>> {
    let listed = match lookup(env, "ANNA_ALLOWED_PROVIDERS"@) {
        Some(raw) => allowlist_from(split_by(trimmed(raw), CharSet::Only(','))),
        None => None,
    };
    under_ceiling(listed, offline_asked(env))
}

/// Whether the environment asks for offline mode.
pub fn offline_mode_enabled(env: &StrMap<String>) -> (r: bool)
    ensures
        r == offline_asked(env.entries()),
{
    match env.get("ANNA_OFFLINE_MODE") {
        Some(value) => is_truthy(value.as_str()),
        None => false,
    }
}

fn allowed_providers_from_env(env: &StrMap<String>) -> (r: (Option<StrSet>, bool))
    ensures
        opt_set(r.0) == allowlist_set(env.entries()),
        r.1 == offline_asked(env.entries()),
{
    let offline_mode = offline_mode_enabled(env);
    let parsed = match env.get("ANNA_ALLOWED_PROVIDERS") {
        Some(raw) => parse_allowed_providers(Some(raw.as_str())),
        None => parse_allowed_providers(None),
    };
    (apply_offline_provider_ceiling(parsed, offline_mode), offline_mode)
}

impl Executor {
    /// Creates a new executor with default providers and env policy.
    pub fn new(env: &StrMap<String>) -> (r: Self)
        ensures
            r.providers.providers@ == builtin_providers(),
            opt_set(r.allowed_providers) == allowlist_set(env.entries()),
            r.offline_mode == offline_asked(env.entries()),
            r.memory.root@ == memory_root_path(lookup(env.entries(), "HOME"@)),
            r.memory.max_entries == 10,
    {
        let memory = match env.get("HOME") {
            Some(home) => MemoryStore::default_for(Some(home.as_str())),
            None => MemoryStore::default_for(None),
        };
        Executor::with_memory_store(memory, env)
    }

    /// Creates a new executor with a custom memory store.
    pub fn with_memory_store(memory: MemoryStore, env: &StrMap<String>) -> (r: Self)
        ensures
            r.providers.providers@ == builtin_providers(),
            opt_set(r.allowed_providers) == allowlist_set(env.entries()),
            r.offline_mode == offline_asked(env.entries()),
            r.memory == memory,
    {
        let (allowed_providers, offline_mode) = allowed_providers_from_env(env);
        Executor { providers: default_registry(), allowed_providers, offline_mode, memory }
    }

    /// Overrides allowed providers policy. Offline mode keeps its ceiling.
    pub fn with_allowed_providers(self, providers: Option<StrSet>) -> (r: Self)
        ensures
            opt_set(r.allowed_providers) == under_ceiling(
                match providers {
                    Some(set) => allowlist_from(set.elems()),
                    None => None,
                },
                self.offline_mode,
            ),
            r.providers == self.providers,
            r.offline_mode == self.offline_mode,
            r.memory == self.memory,
    {
        let offline_mode = self.offline_mode;
        let normalized = normalize_allowed_provider_set(
            match &providers {
                Some(set) => Some(set),
                None => None,
            },
        );
        Executor {
            providers: self.providers,
            allowed_providers: apply_offline_provider_ceiling(normalized, offline_mode),
            offline_mode,
            memory: self.memory,
        }
    }

    /// Returns configured allowlisted providers.
    pub fn allowed_providers_set(&self) -> (r: Option<StrSet>)
        ensures
            opt_set(r) == opt_set(self.allowed_providers),
    {
        match &self.allowed_providers {
            Some(set) => Some(set.copied()),
            None => None,
        }
    }

    /// Returns whether offline mode is enabled.
    pub fn offline_mode(&self) -> (r: bool)
        ensures
            r == self.offline_mode,
    {
        self.offline_mode
    }
}

// ---------------------------------------------------------------- the run

/// The record that a run starts with.
pub fn start_run(config: &RunConfig, parent_id: Option<String>) -> (r: RunResult)
    ensures
        match config.session_id_override {
            Some(id) => r.session_id@ == id@,
            None => crate::session::is_session_id(r.session_id@),
        },
        r.outputs@ == Map::<Seq<char>, Seq<char>>::empty().insert("SESSION"@, r.session_id@),
        r.success@ == Map::<Seq<char>, bool>::empty(),
        r.parent_id == parent_id,
        r.children@.len() == 0,
        r.errors@.len() == 0,
{
    let mut result = RunResult::new();
    if let Some(session_id) = &config.session_id_override {
        result.session_id = session_id.clone();
        result.outputs.insert("SESSION".to_owned(), session_id.clone());
        assert(result.outputs@ =~= Map::<Seq<char>, Seq<char>>::empty().insert(
            "SESSION"@,
            session_id@,
        ));
    }
    result.parent_id = parent_id;
    result
}

/// Whether every stage that this one needs has succeeded.
pub open spec fn needs_met(needs: Seq<Seq<char>>, success: Seq<(Seq<char>, bool)>) -> bool {
    forall|k: int| 0 <= k < needs.len() ==> lookup(success, #[trigger] needs[k]) == Some(true)
}

/// Whether every stage that this one needs has succeeded.
pub fn deps_ok(stage: &Stage, result: &RunResult) -> (r: bool)
    ensures
        r == needs_met(stage@.needs, result.success.entries()),
{
    let ghost needs = texts(stage.needs@);
    let mut k: usize = 0;
    while k < stage.needs.len()
        invariant
            k <= stage.needs.len(),
            needs == texts(stage.needs@),
            forall|j: int|
                0 <= j < k ==> lookup(result.success.entries(), #[trigger] needs[j]) == Some(true),
        decreases stage.needs.len() - k,
    {
        let done = match result.success.get(stage.needs[k].as_str()) {
            Some(done) => *done,
            None => false,
        };
        if !done {
            assert(lookup(result.success.entries(), needs[k as int]) != Some(true));
            return false;
        }
        k += 1;
    }
    true
}

/// What comes next in a pass over the stages.
#[derive(Clone, Copy, Debug, PartialEq, Eq, Structural)]
pub enum NextStage {
    /// The stage at this position runs.
    Run(usize),
    /// The condition of the stage at this position has no value.
    NoValue(usize),
    /// No stage is left.
    Finished,
}

/// The first stage at or after position `i` whose needs are met and whose
/// condition holds.
pub open spec fn next_stage_from(
    stages: Seq<StageView>,
    i: int,
    outputs: Seq<(Seq<char>, Seq<char>)>,
    success: Seq<(Seq<char>, bool)>,
) -> NextStage
    decreases stages.len() - i,
{
    if i < 0 || i >= stages.len() {
        NextStage::Finished
    } else if !needs_met(stages[i].needs, success) {
        next_stage_from(stages, i + 1, outputs, success)
    } else {
        match when_value(stages[i].when, outputs, success) {
            None => NextStage::NoValue(i as usize),
            Some(true) => NextStage::Run(i as usize),
            Some(false) => next_stage_from(stages, i + 1, outputs, success),
        }
    }
}

/// The next stage to run at or after position `from`.
pub fn next_stage(workflow: &Workflow, result: &RunResult, from: usize) -> (r: NextStage)
    ensures
        r == next_stage_from(
            workflow@.stages,
            from as int,
            result.outputs.entries(),
            result.success.entries(),
        ),
{
    let mut i: usize = from;
    while i < workflow.stages.len()
        invariant
            next_stage_from(
                workflow@.stages,
                from as int,
                result.outputs.entries(),
                result.success.entries(),
            ) == next_stage_from(
                workflow@.stages,
                i as int,
                result.outputs.entries(),
                result.success.entries(),
            ),
        decreases workflow.stages.len() - i,
    {
        let stage = &workflow.stages[i];
        assert(workflow@.stages[i as int] == stage@);
        if deps_ok(stage, result) {
            let cond = match &stage.when {
                Some(cond) => Some(cond.as_str()),
                None => None,
            };
            match try_eval_when(cond, &result.outputs, &result.success) {
                None => {
                    return NextStage::NoValue(i);
                },
                Some(true) => {
                    return NextStage::Run(i);
                },
                Some(false) => {},
            }
        }
        i += 1;
    }
    NextStage::Finished
}

/// A stage runs only where every stage that it needs has succeeded and its
/// condition holds, and stages run in their order.
pub proof fn stage_runs_when_ready(
    stages: Seq<StageView>,
    from: int,
    outputs: Seq<(Seq<char>, Seq<char>)>,
    success: Seq<(Seq<char>, bool)>,
)
    requires
        0 <= from,
        stages.len() <= usize::MAX,
    ensures
        match next_stage_from(stages, from, outputs, success) {
            NextStage::Run(i) => from <= i < stages.len() && needs_met(stages[i as int].needs, success)
                && when_value(stages[i as int].when, outputs, success) == Some(true),
            _ => true,
        },
    decreases stages.len() - from,
{
    if from < stages.len() {
        if !needs_met(stages[from].needs, success) {
            stage_runs_when_ready(stages, from + 1, outputs, success);
        } else if when_value(stages[from].when, outputs, success) == Some(false) {
            stage_runs_when_ready(stages, from + 1, outputs, success);
        }
    }
}

/// Whether another pass over the stages follows: in continuous mode, until a
/// stage breaks or the limit is reached.
pub fn another_pass(
    workflow: &Workflow,
    max_iterations: Option<u32>,
    iterations: u32,
    should_break: bool,
) -> (r: bool)
    ensures
        r == (workflow@.mode == "continuous"@ && !should_break && (match max_iterations {
            Some(max) => iterations < max,
            None => true,
        })),
{
    if !workflow.is_continuous() || should_break {
        return false;
    }
    match max_iterations {
        Some(max) => iterations < max,
        None => true,
    }
}

// ---------------------------------------------------------------- one stage

/// How a stage is carried out.
#[derive(Clone, Copy, Debug, PartialEq, Eq, Structural)]
pub enum StageMode {
    /// It runs another workflow.
    Subworkflow,
    /// It runs this many times side by side.
    Forks(u32),
    /// It runs once for each item.
    Each,
    /// It runs once.
    Single,
}

pub open spec fn mode_of(stage: StageView) -> StageMode {
    if stage.workflow is Some {
        StageMode::Subworkflow
    } else if stage.forks is Some && stage.forks->0 > 0 {
        StageMode::Forks(stage.forks->0)
    } else if stage.each.len() > 0 || stage.each_from is Some {
        StageMode::Each
    } else {
        StageMode::Single
    }
}

/// How the stage is carried out.
pub fn stage_mode(stage: &Stage) -> (r: StageMode)
    ensures
        r == mode_of(stage@),
{
    if stage.workflow.is_some() {
        return StageMode::Subworkflow;
    }
    if let Some(forks) = stage.forks {
        if forks > 0 {
            return StageMode::Forks(forks);
        }
    }
    if stage.each.len() > 0 || stage.each_from.is_some() {
        return StageMode::Each;
    }
    StageMode::Single
}

/// Whether a stage as a whole gets a worktree: its parallel parts get their own.
pub fn has_own_worktree(stage: &Stage) -> (r: bool)
    ensures
        r == (stage@.worktree is Some && !(stage@.forks is Some && stage@.forks->0 > 0)
            && stage@.each.len() == 0 && stage@.each_from is None),
{
    let forked = match stage.forks {
        Some(forks) => forks > 0,
        None => false,
    };
    stage.worktree.is_some() && !forked && stage.each.len() == 0 && stage.each_from.is_none()
}

/// The name of an output that belongs to a stage.
pub open spec fn output_key(stage_id: Seq<char>, suffix: Seq<char>) -> Seq<char> {
    stage_id + "."@ + suffix
}

pub fn stage_output_key(stage_id: &str, suffix: &str) -> (r: String)
    ensures
        r@ == output_key(stage_id@, suffix@),
{
    cat3(stage_id, ".", suffix)
}

/// Whether the output of a stage holds what breaks the workflow.
pub open spec fn breaks(
    vars: Seq<(Seq<char>, Seq<char>)>,
    break_when: Option<Seq<char>>,
    outputs: Seq<(Seq<char>, Seq<char>)>,
    output: Seq<char>,
) -> bool {
    match break_when {
        Some(expr) => holds_text(output, substituted(expr, vars, outputs)),
        None => false,
    }
}

pub fn stage_breaks(
    workflow: &Workflow,
    stage: &Stage,
    outputs: &StrMap<String>,
    output: &str,
) -> (r: bool)
    ensures
        r == breaks(workflow@.vars, stage@.break_when, outputs.entries(), output@),
{
    match &stage.break_when {
        Some(expr) => {
            let rendered = subst(expr.as_str(), &workflow.vars, outputs);
            contains(output, rendered.as_str())
        },
        None => false,
    }
}

/// What follows an iteration of a stage.
#[derive(Clone, Copy, Debug, PartialEq, Eq, Structural)]
pub enum IterationOutcome {
    BreakWorkflow,
    StageComplete,
    ContinueLoop,
}

/// What follows an iteration: a break ends the workflow; a stage that is no
/// loop is complete; a loop is complete at its limit, which is at least one.
pub open spec fn iteration_outcome(stage: StageView, broke: bool, iteration: u32) -> IterationOutcome {
    if broke {
        IterationOutcome::BreakWorkflow
    } else if !stage.loop_stage {
        IterationOutcome::StageComplete
    } else {
        match stage.max_iterations {
            Some(max) => if iteration >= max && iteration >= 1 {
                IterationOutcome::StageComplete
            } else {
                IterationOutcome::ContinueLoop
            },
            None => IterationOutcome::ContinueLoop,
        }
    }
}

/// The outputs after an iteration: a loop that ends has its count recorded.
pub open spec fn outputs_after_iteration(
    stage: StageView,
    outputs: Seq<(Seq<char>, Seq<char>)>,
    ended: IterationOutcome,
    iteration: u32,
) -> Seq<(Seq<char>, Seq<char>)> {
    if stage.loop_stage && ended != IterationOutcome::ContinueLoop {
        put(outputs, output_key(stage.id, "iterations"@), decimal(iteration as nat))
    } else {
        outputs
    }
}

/// Says what follows an iteration with this output, and records the count of a
/// loop that ends.
pub fn finish_iteration(
    workflow: &Workflow,
    stage: &Stage,
    result: &mut RunResult,
    output: &str,
    iteration: u32,
) -> (r: IterationOutcome)
    ensures
        r == iteration_outcome(
            stage@,
            breaks(workflow@.vars, stage@.break_when, old(result).outputs.entries(), output@),
            iteration,
        ),
        final(result).outputs.entries() == outputs_after_iteration(
            stage@,
            old(result).outputs.entries(),
            r,
            iteration,
        ),
        final(result).success == old(result).success,
        final(result).errors == old(result).errors,
        final(result).children == old(result).children,
        final(result).session_id == old(result).session_id,
        final(result).parent_id == old(result).parent_id,
{
    let broke = stage_breaks(workflow, stage, &result.outputs, output);
    let ended = if broke {
        IterationOutcome::BreakWorkflow
    } else if !stage.loop_stage {
        IterationOutcome::StageComplete
    } else {
        match stage.max_iterations {
            Some(max) => {
                if iteration >= max && iteration >= 1 {
                    IterationOutcome::StageComplete
                } else {
                    IterationOutcome::ContinueLoop
                }
            },
            None => IterationOutcome::ContinueLoop,
        }
    };
    if stage.loop_stage && ended != IterationOutcome::ContinueLoop {
        result.outputs.insert(
            stage_output_key(stage.id.as_str(), "iterations"),
            u64_text(iteration as u64),
        );
    }
    ended
}

/// A loop with a limit goes on only below it.
pub proof fn loop_is_bounded(stage: StageView, broke: bool, iteration: u32)
    requires
        stage.max_iterations is Some,
        iteration >= 1,
    ensures
        iteration_outcome(stage, broke, iteration) == IterationOutcome::ContinueLoop ==> iteration
            < stage.max_iterations->0,
{
}

/// Records that a hook failed, which does not fail its stage.
pub fn hook_failed(result: &mut RunResult, stage_id: &str, hook_name: &str, err: &str)
    ensures
        texts(final(result).errors@) == texts(old(result).errors@).push(
            "stage '"@ + stage_id@ + "': "@ + hook_name@ + " hook failed: "@ + err@,
        ),
        final(result).outputs == old(result).outputs,
        final(result).success == old(result).success,
        final(result).children == old(result).children,
        final(result).session_id == old(result).session_id,
        final(result).parent_id == old(result).parent_id,
{
    broadcast use group_texts;

    result.errors.push(cat6("stage '", stage_id, "': ", hook_name, " hook failed: ", err));
}

/// The stage that runs a hook of a stage.
pub fn hook_stage(stage: &Stage, hook_command: &str) -> (r: Stage)
    ensures
        r@ == (StageView { command: Some(hook_command@), provider: "shell"@, ..stage@ }),
{
    let mut hook = stage.copied();
    hook.command = Some(hook_command.to_owned());
    hook.provider = "shell".to_owned();
    hook
}

/// A path that is taken from the stage's directory, else the workflow's.
pub open spec fn placed_path(
    target: Seq<char>,
    stage_dir: Option<Seq<char>>,
    workflow_dir: Option<Seq<char>>,
) -> Seq<char> {
    match stage_dir {
        Some(dir) => joined_path(dir, target),
        None => match workflow_dir {
            Some(dir) => joined_path(dir, target),
            None => target,
        },
    }
}

/// The file that the output of a stage goes to.
pub fn output_file_path(workflow: &Workflow, stage: &Stage, target: &str) -> (r: String)
    ensures
        r@ == placed_path(target@, stage@.workdir, workflow@.workdir),
{
    match &stage.workdir {
        Some(dir) => join_path(dir.as_str(), target),
        None => match &workflow.workdir {
            Some(dir) => join_path(dir.as_str(), target),
            None => target.to_owned(),
        },
    }
}

// ---------------------------------------------------------------- decisions

/// Whether a decision turns a stage down.
pub open spec fn rejects(decision: Seq<char>) -> bool {
    let d = lowered(trimmed(decision));
    ||| d == "reject"@
    ||| d == "rejected"@
    ||| d == "deny"@
    ||| d == "denied"@
    ||| d == "stop"@
    ||| d == "abort"@
    ||| d == "no"@
    ||| d == "false"@
}

pub fn is_hitl_rejection(decision: &str) -> (r: bool)
    ensures
        r == rejects(decision@),
{
    let d = to_lower(trim(decision));
    let d = d.as_str();
    same(d, "reject") || same(d, "rejected") || same(d, "deny") || same(d, "denied") || same(
        d,
        "stop",
    ) || same(d, "abort") || same(d, "no") || same(d, "false")
}

/// The request for a decision on a stage.
pub fn hitl_request(workflow: &Workflow, stage: &Stage, result: &RunResult) -> (r: HitlRequest)
    ensures
        r.session_id@ == result.session_id@,
        r.workflow@ == workflow@.name,
        r.stage_id@ == stage@.id,
        opt_text(r.prompt) == stage@.hitl_prompt,
        texts(r.options@) == stage@.hitl_options,
{
    HitlRequest {
        session_id: result.session_id.clone(),
        workflow: workflow.name.clone(),
        stage_id: stage.id.clone(),
        prompt: clone_opt(&stage.hitl_prompt),
        options: clone_texts(&stage.hitl_options),
    }
}

/// Whether one of the options is the text, up to case.
pub open spec fn offered(options: Seq<Seq<char>>, decision: Seq<char>) -> bool {
    exists|i: int| 0 <= i < options.len() && lowered(#[trigger] options[i]) == lowered(decision)
}

/// A decision without blanks at its ends, which must be one of the options of
/// the stage where it has any.
pub open spec fn accepted_decision(stage: StageView, decision: Seq<char>) -> Result<
    Seq<char>,
    Seq<char>,
> {
    let d = trimmed(decision);
    if stage.hitl_options.len() > 0 && !offered(stage.hitl_options, d) {
        Err(
            "HITL decision '"@ + d + "' is not in allowed options for stage '"@ + stage.id + "'"@,
        )
    } else {
        Ok(d)
    }
}

pub open spec fn text_result(r: Result<String, String>) -> Result<Seq<char>, Seq<char>> {
    match r {
        Ok(text) => Ok(text@),
        Err(message) => Err(message@),
    }
}

/// Checks a decision against the options of its stage. Without anybody to ask,
/// the decision is `skipped`.
pub fn check_decision(stage: &Stage, decision: Option<&str>) -> (r: Result<String, String>)
    ensures
        text_result(r) == accepted_decision(
            stage@,
            match decision {
                Some(decision) => decision@,
                None => "skipped"@,
            },
        ),
{
    let decision = match decision {
        Some(decision) => decision,
        None => "skipped",
    };
    let d = trim(decision);
    if stage.hitl_options.len() > 0 {
        let ghost options = texts(stage.hitl_options@);
        let mut i: usize = 0;
        let mut found = false;
        while i < stage.hitl_options.len() && !found
            invariant
                i <= stage.hitl_options.len(),
                options == texts(stage.hitl_options@),
                found ==> offered(options, d@),
                !found ==> forall|j: int|
                    0 <= j < i ==> lowered(#[trigger] options[j]) != lowered(d@),
            decreases stage.hitl_options.len() - i,
        {
            if same_ignoring_case(stage.hitl_options[i].as_str(), d) {
                assert(lowered(options[i as int]) == lowered(d@));
                found = true;
            }
            i += 1;
        }
        if !found {
            return Err(
                cat5(
                    "HITL decision '",
                    d,
                    "' is not in allowed options for stage '",
                    stage.id.as_str(),
                    "'",
                ),
            );
        }
    }
    Ok(d.to_owned())
}

/// Records a decision as the output `hitl` of the stage. One that turns the
/// stage down fails it.
pub fn record_decision(stage: &Stage, result: &mut RunResult, decision: String) -> (r: Result<
    (),
    String,
>)
    ensures
        final(result).outputs.entries() == put(
            old(result).outputs.entries(),
            output_key(stage@.id, "hitl"@),
            decision@,
        ),
        final(result).success.entries() == if rejects(decision@) {
            put(old(result).success.entries(), stage@.id, false)
        } else {
            old(result).success.entries()
        },
        match r {
            Ok(()) => !rejects(decision@),
            Err(message) => rejects(decision@) && message@ == "HITL rejected stage '"@ + stage@.id
                + "' with decision '"@ + decision@ + "'"@,
        },
        final(result).errors == old(result).errors,
        final(result).children == old(result).children,
        final(result).session_id == old(result).session_id,
        final(result).parent_id == old(result).parent_id,
{
    result.outputs.insert(stage_output_key(stage.id.as_str(), "hitl"), decision.clone());
    if is_hitl_rejection(decision.as_str()) {
        result.success.insert(stage.id.clone(), false);
        return Err(
            cat5(
                "HITL rejected stage '",
                stage.id.as_str(),
                "' with decision '",
                decision.as_str(),
                "'",
            ),
        );
    }
    Ok(())
}

/// A decision counts the same with blanks at its ends or in another case.
pub proof fn rejection_ignores_case(a: Seq<char>, b: Seq<char>)
    requires
        lowered(trimmed(a)) == lowered(trimmed(b)),
    ensures
        rejects(a) == rejects(b),
{
}

} // verus!
