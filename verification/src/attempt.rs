//! Carrying a stage out: its attempts and its sub-workflow.
use crate::allowlist::{
    allowed_providers_display, allowlist_text, allows_provider, opt_set, provider_allowed,
};
use crate::executor::{Executor, RunConfig};
use crate::expr::substituted;
use crate::paths::{join_path, joined_path, parent_dir, parent_path};
use crate::providers::{
    add_all, add_rendered, fault, with_all, with_all_value, with_rendered, with_rendered_value,
    BuiltinProvider, ErrorView, ProviderError,
};

use crate::strmap::{lookup, StrMap, StrSet};
use crate::text::{cat2, cat4, cat5, cat6, cat7, chars_of, clone_opt};
use crate::workflow::{
    opt_duration_fits, provider_of, read_opt, Span, Stage, StageView, Workflow, WorkflowView,
};
use vstd::prelude::*;
use vstd::string::*;

pub mod laws;

verus! {

// ---------------------------------------------------------------- attempts

/// How a stage is attempted: by which provider, how long, how often, and with
/// what delay between.
pub struct AttemptPlan {
    pub provider: BuiltinProvider,
    pub timeout: Option<Span>,
    pub retries: u32,
    pub delay: Span,
}

/// How often a stage is attempted: at least once.
pub open spec fn attempts_of(retry: Option<u32>) -> u32 {
    match retry {
        Some(n) => if n == 0 {
            1
        } else {
            n
        },
        None => 1,
    }
}

/// The names of an optional allowlist.
pub open spec fn opt_names(allowed: Option<StrSet>) -> Option<Seq<Seq<char>>> {
    match allowed {
        Some(set) => Some(set.elems()),
        None => None,
    }
}

/// Why a stage may not be attempted.
pub open spec fn attempt_refusal(
    stage: StageView,
    timeout_error: Option<Seq<char>>,
    delay_error: Option<Seq<char>>,
    allowed: Option<Set<Seq<char>>>,
    allowed_names: Option<Seq<Seq<char>>>,
    registered: Map<Seq<char>, BuiltinProvider>,
) -> Option<ErrorView> {
    let name = provider_of(stage);
    if timeout_error is Some {
        Some(
            fault(
                "provider_exec_failed"@,
                "stage '"@ + stage.id + "' has invalid timeout: "@ + timeout_error->0,
            ),
        )
    } else if delay_error is Some {
        Some(
            fault(
                "provider_exec_failed"@,
                "stage '"@ + stage.id + "' has invalid retry_delay: "@ + delay_error->0,
            ),
        )
    } else if !allows_provider(allowed, name) {
        Some(
            fault(
                "provider_exec_failed"@,
                "provider '"@ + name + "' is blocked in stage '"@ + stage.id
                    + "' (allowed providers: "@ + (match allowed_names {
                    Some(names) => allowlist_text(names),
                    None => "*"@,
                }) + ")"@,
            ),
        )
    } else if !registered.contains_key(name) {
        Some(
            fault(
                "provider_exec_failed"@,
                "unknown provider '"@ + name + "' in stage '"@ + stage.id + "'"@,
            ),
        )
    } else {
        None
    }
}

/// The message of a failed read of a duration.
pub open spec fn message_of<T>(r: Result<T, String>) -> Option<Seq<char>> {
    match r {
        Ok(_) => None,
        Err(message) => Some(message@),
    }
}

impl Executor {
    /// How the stage is attempted, from what its timeout and its delay were
    /// read as.
    pub fn plan_attempts(
        &self,
        stage: &Stage,
        timeout: Result<Option<Span>, String>,
        delay: Result<Span, String>,
    ) -> (r: Result<AttemptPlan, ProviderError>)
        ensures
            match r {
                Ok(plan) => {
                    &&& attempt_refusal(
                        stage@,
                        message_of(timeout),
                        message_of(delay),
                        opt_set(self.allowed_providers),
                        opt_names(self.allowed_providers),
                        self.providers.providers@,
                    ) is None
                    &&& timeout == Ok::<Option<Span>, String>(plan.timeout)
                    &&& delay == Ok::<Span, String>(plan.delay)
                    &&& plan.retries == attempts_of(stage@.retry)
                    &&& plan.provider == self.providers.providers@[provider_of(stage@)]
                },
                Err(e) => attempt_refusal(
                    stage@,
                    message_of(timeout),
                    message_of(delay),
                    opt_set(self.allowed_providers),
                    opt_names(self.allowed_providers),
                    self.providers.providers@,
                ) == Some(e@),
            },
    {
        let id = stage.id.as_str();
        let timeout = match timeout {
            Ok(timeout) => timeout,
            Err(message) => {
                return Err(
                    ProviderError::new(
                        "provider_exec_failed",
                        cat4("stage '", id, "' has invalid timeout: ", message.as_str()),
                    ),
                );
            },
        };
        let retries: u32 = match stage.retry {
            Some(n) => if n == 0 {
                1
            } else {
                n
            },
            None => 1,
        };
        let delay = match delay {
            Ok(delay) => delay,
            Err(message) => {
                return Err(
                    ProviderError::new(
                        "provider_exec_failed",
                        cat4("stage '", id, "' has invalid retry_delay: ", message.as_str()),
                    ),
                );
            },
        };
        let name = stage.provider_name();
        if !provider_allowed(name, &self.allowed_providers) {
            let allowed = match &self.allowed_providers {
                Some(set) => allowed_providers_display(set),
                None => "*".to_owned(),
            };
            return Err(
                ProviderError::new(
                    "provider_exec_failed",
                    cat7(
                        "provider '",
                        name,
                        "' is blocked in stage '",
                        id,
                        "' (allowed providers: ",
                        allowed.as_str(),
                        ")",
                    ),
                ),
            );
        }
        match self.providers.get(name) {
            Some(provider) => Ok(AttemptPlan { provider: *provider, timeout, retries, delay }),
            None => Err(
                ProviderError::new(
                    "provider_exec_failed",
                    cat5("unknown provider '", name, "' in stage '", id, "'"),
                ),
            ),
        }
    }

    /// How the stage is attempted. Its durations must fit.
    pub fn prepare_attempts(&self, stage: &Stage) -> (r: Result<AttemptPlan, ProviderError>)
        requires
            opt_duration_fits(stage@.timeout),
            opt_duration_fits(stage@.retry_delay),
        ensures
            match r {
                Ok(plan) => {
                    &&& plan.retries == attempts_of(stage@.retry)
                    &&& plan.timeout == read_opt(stage@.timeout)
                    &&& stage@.timeout is Some ==> plan.timeout is Some
                    &&& match stage@.retry_delay {
                        Some(text) => read_opt(stage@.retry_delay) == Some(plan.delay),
                        None => plan.delay == (Span { secs: 1, nanos: 0 }),
                    }
                    &&& allows_provider(opt_set(self.allowed_providers), provider_of(stage@))
                    &&& self.providers.providers@.contains_key(provider_of(stage@))
                    &&& plan.provider == self.providers.providers@[provider_of(stage@)]
                },
                Err(e) => attempt_refusal(
                    stage@,
                    timeout_error(stage@),
                    delay_error(stage@),
                    opt_set(self.allowed_providers),
                    opt_names(self.allowed_providers),
                    self.providers.providers@,
                ) == Some(e@),
            },
    {
        let timeout = stage.timeout_duration();
        let delay = stage.retry_delay_duration();
        self.plan_attempts(stage, timeout, delay)
    }
}

/// The error of a stage's timeout, where it is no duration.
pub open spec fn timeout_error(stage: StageView) -> Option<Seq<char>> {
    if stage.timeout is Some && read_opt(stage.timeout) is None {
        Some("invalid duration '"@ + stage.timeout->0 + "'"@)
    } else {
        None
    }
}

/// The error of a stage's retry delay, where it is no duration.
pub open spec fn delay_error(stage: StageView) -> Option<Seq<char>> {
    if stage.retry_delay is Some && read_opt(stage.retry_delay) is None {
        Some(
            "invalid "@ + "retry_delay"@ + " for stage '"@ + stage.id + "': "@
                + stage.retry_delay->0,
        )
    } else {
        None
    }
}

/// What follows an attempt that failed.
#[derive(Clone, Copy, Debug, PartialEq, Eq, Structural)]
pub enum AfterFailure {
    /// Another attempt follows after the delay.
    Retry,
    /// The error of this attempt is that of the stage.
    GiveUp,
}

/// What follows the failure of attempt `attempt`, counted from one.
pub open spec fn follows_failure(retries: u32, attempt: u32) -> AfterFailure {
    if attempt < retries {
        AfterFailure::Retry
    } else {
        AfterFailure::GiveUp
    }
}

/// What follows the failure of attempt `attempt`, counted from one.
pub fn after_failure(plan: &AttemptPlan, attempt: u32) -> (r: AfterFailure)
    ensures
        r == follows_failure(plan.retries, attempt),
{
    if attempt < plan.retries {
        AfterFailure::Retry
    } else {
        AfterFailure::GiveUp
    }
}

/// A stage is attempted once at least, and no more often than it says.
pub proof fn attempts_are_bounded(retry: Option<u32>, attempt: u32)
    ensures
        attempts_of(retry) >= 1,
        retry matches Some(n) ==> attempt >= n && attempt >= 1 ==> follows_failure(
            attempts_of(retry),
            attempt,
        ) == AfterFailure::GiveUp,
        retry is None && attempt >= 1 ==> follows_failure(attempts_of(retry), attempt)
            == AfterFailure::GiveUp,
{
}

/// A stage under a policy is never attempted with a provider that the policy
/// does not allow.
pub proof fn blocked_provider_is_refused(
    stage: StageView,
    allowed: Option<Set<Seq<char>>>,
    allowed_names: Option<Seq<Seq<char>>>,
    registered: Map<Seq<char>, BuiltinProvider>,
)
    requires
        !allows_provider(allowed, provider_of(stage)),
    ensures
        attempt_refusal(stage, None, None, allowed, allowed_names, registered) is Some,
{
}

// ---------------------------------------------------------------- sub-workflow

/// The file of the workflow that a stage runs.
pub open spec fn subworkflow_path(
    workflow: WorkflowView,
    stage: StageView,
    target: Seq<char>,
) -> Seq<char> {
    if target.len() > 0 && target[0] == '/' {
        target
    } else {
        match stage.workdir {
            Some(dir) => joined_path(dir, target),
            None => match workflow.workdir {
                Some(dir) => joined_path(dir, target),
                None => match workflow.source_path {
                    Some(source) => match parent_path(source) {
                        Some(parent) => joined_path(parent, target),
                        None => target,
                    },
                    None => target,
                },
            },
        }
    }
}

/// The file of the workflow that a stage runs: from the stage's directory, the
/// workflow's, or that of the workflow's own file.
pub fn resolve_subworkflow_path(workflow: &Workflow, stage: &Stage, target: &str) -> (r: String)
    ensures
        r@ == subworkflow_path(workflow@, stage@, target@),
{
    let chars = chars_of(target);
    if chars.len() > 0 && chars[0] == '/' {
        return target.to_owned();
    }
    if let Some(dir) = &stage.workdir {
        return join_path(dir.as_str(), target);
    }
    if let Some(dir) = &workflow.workdir {
        return join_path(dir.as_str(), target);
    }
    if let Some(source) = &workflow.source_path {
        if let Some(parent) = parent_dir(source.as_str()) {
            return join_path(parent.as_str(), target);
        }
    }
    target.to_owned()
}

/// The variables of a sub-workflow: the workflow's, over them its own, over
/// them those that the stage passes.
pub open spec fn child_vars(
    workflow_vars: Seq<(Seq<char>, Seq<char>)>,
    own_vars: Seq<(Seq<char>, Seq<char>)>,
    stage_vars: Seq<(Seq<char>, Seq<char>)>,
    outputs: Seq<(Seq<char>, Seq<char>)>,
) -> Seq<(Seq<char>, Seq<char>)> {
    with_rendered(with_all(workflow_vars, own_vars), stage_vars, workflow_vars, outputs)
}

/// A variable of a sub-workflow is the one that the stage passes where it passes
/// one, else the sub-workflow's own, else the workflow's.
pub proof fn stage_variables_win(
    workflow_vars: Seq<(Seq<char>, Seq<char>)>,
    own_vars: Seq<(Seq<char>, Seq<char>)>,
    stage_vars: Seq<(Seq<char>, Seq<char>)>,
    outputs: Seq<(Seq<char>, Seq<char>)>,
    key: Seq<char>,
)
    ensures
        lookup(child_vars(workflow_vars, own_vars, stage_vars, outputs), key) == match lookup(
            stage_vars,
            key,
        ) {
            Some(value) => Some(substituted(value, workflow_vars, outputs)),
            None => match lookup(own_vars, key) {
                Some(value) => Some(value),
                None => lookup(workflow_vars, key),
            },
        },
{
    with_all_value(workflow_vars, own_vars, key);
    with_rendered_value(with_all(workflow_vars, own_vars), stage_vars, workflow_vars, outputs, key);
}

/// The sub-workflow as it runs for a stage.
pub open spec fn child_view(
    workflow: WorkflowView,
    stage: StageView,
    child: WorkflowView,
    outputs: Seq<(Seq<char>, Seq<char>)>,
) -> WorkflowView {
    WorkflowView {
        vars: child_vars(workflow.vars, child.vars, stage.vars, outputs),
        workdir: match child.workdir {
            Some(dir) => Some(dir),
            None => match stage.workdir {
                Some(dir) => Some(dir),
                None => workflow.workdir,
            },
        },
        ..child
    }
}

/// Makes a workflow ready to run for a stage.
pub fn prepare_child(
    workflow: &Workflow,
    stage: &Stage,
    child: Workflow,
    outputs: &StrMap<String>,
) -> (r: Workflow)
    ensures
        r@ == child_view(workflow@, stage@, child@, outputs.entries()),
{
    let mut vars = workflow.vars.copied();
    add_all(&mut vars, &child.vars);
    add_rendered(&mut vars, &stage.vars, &workflow.vars, outputs);
    let workdir = match &child.workdir {
        Some(dir) => Some(dir.clone()),
        None => match &stage.workdir {
            Some(dir) => Some(dir.clone()),
            None => clone_opt(&workflow.workdir),
        },
    };
    let mut child = child;
    child.vars = vars;
    child.workdir = workdir;
    child
}

/// The output of a stage that ran a workflow: that of the last stage, or a note
/// that it completed where there is none.
pub open spec fn child_output(child: WorkflowView, outputs: Seq<(Seq<char>, Seq<char>)>) -> Seq<
    char,
> {
    let last = if child.stages.len() == 0 {
        None
    } else {
        lookup(outputs, child.stages.last().id)
    };
    match last {
        Some(output) => if output.len() > 0 {
            output
        } else {
            "sub-workflow completed: "@ + child.name
        },
        None => "sub-workflow completed: "@ + child.name,
    }
}

pub fn subworkflow_output(child: &Workflow, outputs: &StrMap<String>) -> (r: String)
    ensures
        r@ == child_output(child@, outputs.entries()),
{
    if child.stages.len() > 0 {
        let last = &child.stages[child.stages.len() - 1];
        assert(child@.stages.last() == last@);
        if let Some(output) = outputs.get(last.id.as_str()) {
            if !output.as_str().is_empty() {
                return output.clone();
            }
        }
    }
    cat2("sub-workflow completed: ", child.name.as_str())
}

/// The output of a stage whose workflow could not be loaded.
pub fn subworkflow_load_error(path: &str, err: &str) -> (r: String)
    ensures
        r@ == "SUBWORKFLOW_ERROR: failed to load '"@ + path@ + "': "@ + err@,
{
    cat4("SUBWORKFLOW_ERROR: failed to load '", path, "': ", err)
}

/// The output of a stage whose workflow failed.
pub fn subworkflow_run_error(name: &str, err: &str) -> (r: String)
    ensures
        r@ == "SUBWORKFLOW_ERROR: workflow '"@ + name@ + "' failed: "@ + err@,
{
    cat4("SUBWORKFLOW_ERROR: workflow '", name, "' failed: ", err)
}

/// The error of a run whose sub-workflow could not be linked to it.
pub fn child_link_error(parent: &str, child: &str, err: &str) -> (r: String)
    ensures
        r@ == "session-meta: failed linking child '"@ + parent@ + "' -> '"@ + child@ + "': "@
            + err@,
{
    cat6("session-meta: failed linking child '", parent, "' -> '", child, "': ", err)
}

/// The settings that a sub-workflow runs with: one pass, in a session of its own.
pub fn child_config() -> (r: RunConfig)
    ensures
        r.max_iterations == Some(1u32),
        r.session_id_override is None,
{
    RunConfig { max_iterations: Some(1), session_id_override: None }
}

} // verus!
