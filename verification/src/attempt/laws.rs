//! What holds of attempts and of workflows that stages run.
use crate::allowlist::{allowlist_text, allows_provider};
use crate::attempt::{
    attempt_refusal, attempts_of, child_output, child_view, delay_error, follows_failure,
    subworkflow_path, timeout_error, AfterFailure,
};
use crate::providers::{fault, BuiltinProvider};
use crate::strmap::lookup;
use crate::workflow::{provider_of, read_opt, StageView, WorkflowView};
use vstd::prelude::*;

verus! {

/// A stage that fails is attempted again until it has been attempted as often as it
/// says; without a number it is attempted once.
pub proof fn failures_are_retried(n: u32, attempt: u32)
    requires
        attempt >= 1,
    ensures
        attempt < n ==> follows_failure(attempts_of(Some(n)), attempt) == AfterFailure::Retry,
        attempt >= n ==> follows_failure(attempts_of(Some(n)), attempt) == AfterFailure::GiveUp,
        follows_failure(attempts_of(None), attempt) == AfterFailure::GiveUp,
{
}

/// A stage is attempted if and only if its durations can be read and its provider is
/// allowed and known.
pub proof fn good_stages_are_attempted(
    stage: StageView,
    timeout_error: Option<Seq<char>>,
    delay_error: Option<Seq<char>>,
    allowed: Option<Set<Seq<char>>>,
    allowed_names: Option<Seq<Seq<char>>>,
    registered: Map<Seq<char>, BuiltinProvider>,
)
    ensures
        attempt_refusal(
            stage,
            timeout_error,
            delay_error,
            allowed,
            allowed_names,
            registered,
        ) is None <==> timeout_error is None && delay_error is None && allows_provider(
            allowed,
            provider_of(stage),
        ) && registered.contains_key(provider_of(stage)),
{
}

/// A workflow that a stage names by an absolute path is that file; any other name is
/// taken from the stage's directory, else from the workflow's.
pub proof fn subworkflows_are_found(
    workflow: WorkflowView,
    stage: StageView,
    target: Seq<char>,
    dir: Seq<char>,
)
    ensures
        target.len() > 0 && target[0] == '/' ==> subworkflow_path(workflow, stage, target)
            == target,
        target.len() > 0 && target[0] != '/' && dir.len() > 0 && dir.last() != '/' && (
        stage.workdir == Some(dir) || stage.workdir is None && workflow.workdir == Some(dir))
            ==> subworkflow_path(workflow, stage, target) == dir + seq!['/'] + target,
        target.len() > 0 && target[0] != '/' && stage.workdir is None && workflow.workdir is None
            && workflow.source_path is None ==> subworkflow_path(workflow, stage, target) == target,
{
    reveal_strlit("/");
    assert("/"@ =~= seq!['/']);
}

/// A workflow runs for a stage as it is, in its own directory, else in the stage's,
/// else in that of the stage's workflow.
pub proof fn children_keep_what_is_theirs(
    workflow: WorkflowView,
    stage: StageView,
    child: WorkflowView,
    outputs: Seq<(Seq<char>, Seq<char>)>,
)
    ensures
        ({
            let run = child_view(workflow, stage, child, outputs);
            &&& run.name == child.name && run.stages == child.stages && run.mode == child.mode
                && run.env == child.env && run.memory == child.memory
            &&& child.workdir is Some ==> run.workdir == child.workdir
            &&& child.workdir is None && stage.workdir is Some ==> run.workdir == stage.workdir
            &&& child.workdir is None && stage.workdir is None ==> run.workdir == workflow.workdir
        }),
{
}

/// The output of a workflow that a stage runs is that of its last stage.
pub proof fn last_output_is_handed_up(
    child: WorkflowView,
    outputs: Seq<(Seq<char>, Seq<char>)>,
    output: Seq<char>,
)
    requires
        child.stages.len() > 0,
    ensures
        lookup(outputs, child.stages.last().id) == Some(output) && output.len() > 0
            ==> child_output(child, outputs) == output,
        lookup(outputs, child.stages.last().id) is None ==> child_output(child, outputs)
            == "sub-workflow completed: "@ + child.name,
        lookup(outputs, child.stages.last().id) == Some(Seq::<char>::empty()) ==> child_output(
            child,
            outputs,
        ) == "sub-workflow completed: "@ + child.name,
{
}

/// A timeout and a delay must be readable where they are named; what is wrong is told.
pub proof fn durations_must_be_readable(stage: StageView)
    ensures
        timeout_error(stage) is Some <==> stage.timeout is Some && read_opt(stage.timeout) is None,
        timeout_error(stage) matches Some(why) ==> why == "invalid duration '"@ + stage.timeout->0
            + "'"@,
        delay_error(stage) is Some <==> stage.retry_delay is Some && read_opt(stage.retry_delay)
            is None,
        delay_error(stage) matches Some(why) ==> why == "invalid "@ + "retry_delay"@
            + " for stage '"@ + stage.id + "': "@ + stage.retry_delay->0,
{
}

/// A stage that is not attempted is told with what stands in its way: its timeout first,
/// then its delay, then its provider.
pub proof fn refused_stages_are_told(
    stage: StageView,
    timeout_why: Option<Seq<char>>,
    delay_why: Option<Seq<char>>,
    allowed: Option<Set<Seq<char>>>,
    names: Option<Seq<Seq<char>>>,
    registered: Map<Seq<char>, BuiltinProvider>,
)
    ensures
        ({
            let told = attempt_refusal(stage, timeout_why, delay_why, allowed, names, registered);
            let name = provider_of(stage);
            let fit = timeout_why is None && delay_why is None;
            &&& timeout_why is Some ==> told == Some(
                fault(
                    "provider_exec_failed"@,
                    "stage '"@ + stage.id + "' has invalid timeout: "@ + timeout_why->0,
                ),
            )
            &&& timeout_why is None && delay_why is Some ==> told == Some(
                fault(
                    "provider_exec_failed"@,
                    "stage '"@ + stage.id + "' has invalid retry_delay: "@ + delay_why->0,
                ),
            )
            &&& fit && !allows_provider(allowed, name) && names is Some ==> told == Some(
                fault(
                    "provider_exec_failed"@,
                    "provider '"@ + name + "' is blocked in stage '"@ + stage.id
                        + "' (allowed providers: "@ + allowlist_text(names->0) + ")"@,
                ),
            )
            &&& fit && !allows_provider(allowed, name) ==> told is Some
            &&& fit && allows_provider(allowed, name) && !registered.contains_key(name) ==> told
                == Some(
                fault(
                    "provider_exec_failed"@,
                    "unknown provider '"@ + name + "' in stage '"@ + stage.id + "'"@,
                ),
            )
        }),
{
}

} // verus!
