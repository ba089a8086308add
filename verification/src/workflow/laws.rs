//! What holds of workflow definitions.
use crate::text::blank;
use crate::workflow::{
    delay_from, empty_stage, has_id, known_trust, loop_interval, need_problem,
    no_problem_where_valid, optional_duration_from, provider_of, read_opt, stage_problem,
    workflow_problem, Span, StageView, WorkflowView,
};
use vstd::prelude::*;

verus! {

/// A workflow is refused where it has no name, no mode that is known, or no stage.
pub proof fn shapeless_workflows_are_refused(w: WorkflowView)
    ensures
        blank(w.name) ==> workflow_problem(w) is Some,
        w.mode != "once"@ && w.mode != "continuous"@ ==> workflow_problem(w) is Some,
        w.stages.len() == 0 ==> workflow_problem(w) is Some,
{
}

/// A workflow is refused where a stage has no id, shares it with another, or has a
/// trust that is none of `none`, `read` and `all`.
pub proof fn stages_must_be_told_apart(w: WorkflowView, i: int, j: int)
    requires
        0 <= i < w.stages.len(),
        0 <= j < w.stages.len(),
    ensures
        blank(w.stages[i].id) ==> workflow_problem(w) is Some,
        i != j && w.stages[i].id == w.stages[j].id ==> workflow_problem(w) is Some,
        (w.stages[i].trust matches Some(t) && t != "none"@ && t != "read"@ && t != "all"@)
            ==> workflow_problem(w) is Some,
{
    no_problem_where_valid(w);
    if i < j {
        assert(w.stages[i].id != w.stages[j].id || workflow_problem(w) is Some);
    } else if j < i {
        assert(w.stages[j].id != w.stages[i].id || workflow_problem(w) is Some);
    }
}

/// A workflow is refused where a stage needs one that does not come before it.
pub proof fn needs_come_before(w: WorkflowView, i: int, k: int)
    requires
        0 <= i < w.stages.len(),
        0 <= k < w.stages[i].needs.len(),
        forall|j: int| 0 <= j < i ==> (#[trigger] w.stages[j]).id != w.stages[i].needs[k],
    ensures
        workflow_problem(w) is Some,
{
    no_problem_where_valid(w);
}

/// Nothing else is wrong with a workflow: one with a name, a mode and stages, whose
/// stages have ids of their own and known trusts and need earlier stages alone, is
/// accepted.
pub proof fn good_workflows_are_accepted(w: WorkflowView)
    requires
        !blank(w.name),
        w.mode == "once"@ || w.mode == "continuous"@,
        w.stages.len() > 0,
        forall|i: int| 0 <= i < w.stages.len() ==> !blank((#[trigger] w.stages[i]).id),
        forall|i: int|
            0 <= i < w.stages.len() ==> ((#[trigger] w.stages[i]).trust matches Some(t) ==> t
                == "none"@ || t == "read"@ || t == "all"@),
        forall|i: int, j: int|
            0 <= i < j < w.stages.len() ==> (#[trigger] w.stages[i]).id != (
            #[trigger] w.stages[j]).id,
        forall|i: int, k: int|
            0 <= i < w.stages.len() && 0 <= k < w.stages[i].needs.len() ==> exists|j: int|
                0 <= j < i && (#[trigger] w.stages[j]).id == #[trigger] w.stages[i].needs[k],
    ensures
        workflow_problem(w) is None,
{
    no_problem_where_valid(w);
    assert forall|i: int, k: int|
        0 <= i < w.stages.len() && 0 <= k < w.stages[i].needs.len() implies crate::workflow::has_id(
        w.stages,
        i,
        #[trigger] w.stages[i].needs[k],
    ) by {
        let j = choose|j: int|
            0 <= j < i && (#[trigger] w.stages[j]).id == w.stages[i].needs[k];
        assert(w.stages[j].id == w.stages[i].needs[k]);
    }
}

/// A stage that names no provider is run by the shell, any other by the one it names.
pub proof fn shell_is_the_default(stage: StageView)
    ensures
        blank(stage.provider) ==> provider_of(stage) == "shell"@,
        !blank(stage.provider) ==> provider_of(stage) == stage.provider,
{
}

/// A continuous workflow rests for the interval of its first loop stage that names
/// one, and for ten seconds where none does.
pub proof fn first_loop_sets_the_rest(stages: Seq<StageView>, from: int, i: int)
    requires
        0 <= from,
        forall|j: int|
            from <= j < i && j < stages.len() ==> !(#[trigger] stages[j]).loop_stage || read_opt(
                stages[j].interval,
            ) is None,
    ensures
        from <= i < stages.len() && stages[i].loop_stage ==> (read_opt(stages[i].interval) matches Some(
            span,
        ) ==> loop_interval(stages, from) == span),
        i >= stages.len() ==> loop_interval(stages, from) == (Span { secs: 10, nanos: 0 }),
    decreases stages.len() - from,
{
    if from < stages.len() && from < i {
        assert(!stages[from].loop_stage || read_opt(stages[from].interval) is None);
        first_loop_sets_the_rest(stages, from + 1, i);
    }
}

/// A length of time has a thousand million nanoseconds for each second, as far as the
/// type reaches.
pub proof fn spans_are_counted(span: Span)
    ensures
        span.secs * 1_000_000_000 + span.nanos <= u64::MAX ==> span.nanos_of() == span.secs
            * 1_000_000_000 + span.nanos,
        span.secs * 1_000_000_000 + span.nanos > u64::MAX ==> span.nanos_of() == u64::MAX,
{
}

/// A delay is a second where none is named; one that cannot be read is told.
pub proof fn delays_are_read(
    text: Seq<char>,
    span: Span,
    what: Seq<char>,
    stage_id: Seq<char>,
    r: Result<Span, String>,
    o: Result<Option<Span>, String>,
)
    ensures
        delay_from(None, None, what, stage_id, r) ==> (r matches Ok(second) && second.secs == 1
            && second.nanos == 0),
        delay_from(Some(text), Some(span), what, stage_id, r) ==> r == Ok::<Span, String>(span),
        delay_from(Some(text), None, what, stage_id, r) ==> (r matches Err(message) && message@
            == "invalid "@ + what + " for stage '"@ + stage_id + "': "@ + text),
        optional_duration_from(Some(span), text, o) ==> o == Ok::<Option<Span>, String>(
            Some(span),
        ),
        optional_duration_from(None, text, o) ==> (o matches Err(message) && message@
            == "invalid duration '"@ + text + "'"@),
{
}

/// A stage without anything said asks for nothing.
pub proof fn stages_start_empty()
    ensures
        ({
            let stage = empty_stage();
            &&& stage.id.len() == 0 && stage.provider.len() == 0 && stage.command is None
                && stage.do_prompt is None && stage.workflow is None
            &&& !stage.loop_stage && !stage.hitl && stage.when is None && stage.needs.len() == 0
            &&& stage.retry is None && stage.timeout is None && stage.forks is None
                && stage.vote is None && stage.each.len() == 0 && stage.each_from is None
            &&& stage.before is None && stage.after is None && stage.on_error is None
                && stage.worktree is None && stage.workdir is None && stage.output is None
            &&& stage.env.len() == 0 && stage.vars.len() == 0 && stage.secrets.len() == 0
                && stage.context.len() == 0 && stage.args.len() == 0 && stage.models.len() == 0
            &&& stage.model is None && stage.llm_adapter is None && stage.system is None
                && stage.trust is None && stage.interval is None && stage.retry_delay is None
                && stage.break_when is None && stage.max_iterations is None && stage.hitl_prompt
                is None && stage.hitl_options.len() == 0 && stage.stdin is None && stage.parse
                is None
        }),
{
}

/// What is wrong with a workflow is told in words, with the stage where it has one.
pub proof fn problems_are_told(w: WorkflowView, stages: Seq<StageView>, i: int, need: Seq<char>)
    requires
        0 <= i < stages.len(),
    ensures
        blank(w.name) ==> workflow_problem(w) == Some("workflow name is required"@),
        !blank(w.name) && w.mode != "once"@ && w.mode != "continuous"@ ==> workflow_problem(w)
            == Some("workflow mode must be 'once' or 'continuous'"@),
        !blank(w.name) && (w.mode == "once"@ || w.mode == "continuous"@) && w.stages.len() == 0
            ==> workflow_problem(w) == Some("workflow must contain at least one stage"@),
        blank(stages[i].id) ==> stage_problem(stages, i) == Some("stage id is required"@),
        !blank(stages[i].id) && has_id(stages, i, stages[i].id) ==> stage_problem(stages, i)
            == Some("duplicate stage id '"@ + stages[i].id + "'"@),
        !blank(stages[i].id) && !has_id(stages, i, stages[i].id) && !known_trust(stages[i].trust)
            ==> stage_problem(stages, i) == Some(
            "invalid trust '"@ + stages[i].trust->0 + "' in stage '"@ + stages[i].id + "'"@,
        ),
        !has_id(stages, stages.len() as int, need) ==> need_problem(stages, i, need) == Some(
            "stage '"@ + stages[i].id + "' references unknown dependency '"@ + need + "'"@,
        ),
        has_id(stages, stages.len() as int, need) && !has_id(stages, i, need) ==> need_problem(
            stages,
            i,
            need,
        ) == Some(
            "stage '"@ + stages[i].id + "' dependency '"@ + need
                + "' must reference an earlier stage"@,
        ),
        has_id(stages, i, need) <==> exists|j: int|
            0 <= j < i && (#[trigger] stages[j]).id == need,
{
    if exists|j: int| 0 <= j < i && (#[trigger] stages[j]).id == need {
        let j = choose|j: int| 0 <= j < i && (#[trigger] stages[j]).id == need;
        assert(stages[j].id == need);
        assert(has_id(stages, i, need));
    }
}

} // verus!
