//! What holds of every run of a workflow.
use crate::executor::{
    accepted_decision, breaks, iteration_outcome, needs_met, outputs_after_iteration, rejects,
    stage_runs_when_ready,
};
use crate::expr::when_value;
use crate::result::ResultView;
use crate::run::{
    after_hook, after_pass, after_stage, decided, decision_in, enter_after, enter_decision,
    enter_finish, enter_iteration, enter_loop, enter_output_file, enter_pass, enter_pass_end,
    enter_stage, goes_on, in_stage, leave_stage, next_step, one_more, run_ok, with_decision,
    with_memory, with_note, with_success, ActionView, EventView, Phase, RunView,
};
use crate::strmap::{lookup, put_spec};
use crate::workflow::StageView;
use vstd::prelude::*;

verus! {

// ---------------------------------------------------------------- order

/// Whether a stage has just begun in `after`, where the run stood at `before`.
pub open spec fn begins(before: RunView, after: RunView) -> bool {
    &&& after.phase == Phase::Worktree || after.phase == Phase::Before || after.phase
        == Phase::Execute
    &&& before.phase != Phase::Worktree && before.phase != Phase::Before && before.phase
        != Phase::Pause
}

/// Whether a stage may begin: every stage that it needs has succeeded, and its
/// condition holds.
pub open spec fn may_begin(v: RunView) -> bool {
    &&& needs_met(v.stage.needs, v.result.success)
    &&& when_value(v.stage.when, v.result.outputs, v.result.success) == Some(true)
}

proof fn entry_is_ready(v: RunView, from: int)
    requires
        0 <= from,
        v.workflow.stages.len() <= usize::MAX,
    ensures
        ({
            let after = enter_stage(v, from).0;
            in_stage(after.phase) ==> may_begin(after)
        }),
{
    reveal(enter_stage);
    reveal(enter_pass_end);
    reveal(after_pass);
    reveal(enter_loop);
    reveal(enter_iteration);
    stage_runs_when_ready(v.workflow.stages, from, v.result.outputs, v.result.success);
}

proof fn finish_is_ready(v: RunView)
    requires
        v.workflow.stages.len() <= usize::MAX,
    ensures
        ({
            let after = enter_finish(v).0;
            (after.phase == Phase::Worktree || after.phase == Phase::Before || after.phase
                == Phase::Execute) ==> may_begin(after)
        }),
{
    reveal(enter_finish);
    reveal(leave_stage);
    reveal(after_stage);
    reveal(enter_pass_end);
    reveal(after_pass);
    let broke = breaks(v.workflow.vars, v.stage.break_when, v.result.outputs, v.output);
    let turn = iteration_outcome(v.stage, broke, v.iteration);
    let v2 = RunView {
        result: ResultView {
            outputs: outputs_after_iteration(v.stage, v.result.outputs, turn, v.iteration),
            ..v.result
        },
        ..v
    };
    entry_is_ready(RunView { broke: false, ..v2 }, v.at + 1);
}

/// A stage begins only where every stage that it needs has succeeded and its
/// condition holds.
pub proof fn stages_begin_when_ready(v: RunView, event: EventView)
    requires
        v.workflow.stages.len() <= usize::MAX,
    ensures
        begins(v, next_step(v, event).0) ==> may_begin(next_step(v, event).0),
{
    match v.phase {
        Phase::Start | Phase::Rest => {
            reveal(enter_pass);
            entry_is_ready(RunView { passes: one_more(v.passes), ..v }, 0);
        },
        Phase::Recall => {
            entry_is_ready(v, 0);
            if let EventView::Recalled(remembered) = event {
                entry_is_ready(with_memory(v, remembered), 0);
            }
        },
        Phase::OutputLog => {
            reveal(enter_decision);
            finish_is_ready(with_success(v));
        },
        Phase::OutputFile => {
            reveal(enter_decision);
            finish_is_ready(v);
        },
        Phase::After => {
            reveal(enter_decision);
            finish_is_ready(after_hook(v, "after"@, event));
        },
        Phase::Decision => {
            reveal(decided);
            let said = match decision_in(event) {
                Some(decision) => decision,
                None => "skipped"@,
            };
            if let Ok(accepted) = accepted_decision(v.stage, said) {
                finish_is_ready(with_decision(v, accepted));
            }
        },
        Phase::Cleanup => {
            reveal(after_stage);
            reveal(enter_pass_end);
            reveal(after_pass);
            entry_is_ready(v, v.at + 1);
            if let EventView::Failed(err) = event {
                entry_is_ready(with_note(v, "stage '"@ + v.stage.id + "': "@ + err), v.at + 1);
            }
        },
        Phase::Remember => {
            reveal(after_pass);
        },
        _ => {},
    }
}

// ---------------------------------------------------------------- failure

/// Whether the run is on its way to fail.
pub open spec fn failing(v: RunView) -> bool {
    &&& v.failure is Some
    &&& v.phase == Phase::ErrorLog || v.phase == Phase::OnError || v.phase == Phase::AfterError
        || v.phase == Phase::Cleanup
}

/// Once a stage has failed, nothing but its hooks runs, and then the run ends
/// with an error.
pub proof fn failed_stage_ends_run(v: RunView, event: EventView)
    requires
        failing(v),
    ensures
        ({
            let (after, action) = next_step(v, event);
            ||| failing(after) && (action is RunHook || action is RemoveWorktree)
            ||| after.phase == Phase::Ended && action matches ActionView::End(Err(_))
        }),
{
    reveal(after_stage);
}

/// A stage that failed is recorded as one that did not succeed.
pub proof fn failed_stage_is_recorded(v: RunView, event: EventView)
    requires
        v.phase == Phase::ErrorLog,
        !(event is Failed),
    ensures
        lookup(next_step(v, event).0.result.success, v.stage.id) == Some(false),
{
    put_spec(v.result.success, v.stage.id, false);
}

/// A stage that a person turns down ends the run, and is recorded as one that
/// did not succeed.
pub proof fn rejected_stage_ends_run(v: RunView, decision: Seq<char>)
    requires
        v.phase == Phase::Decision,
        accepted_decision(v.stage, decision) matches Ok(d) && rejects(d),
    ensures
        ({
            let (after, action) = next_step(v, EventView::Decided(Some(decision)));
            &&& lookup(after.result.success, v.stage.id) == Some(false)
            &&& failing(after) && action is RemoveWorktree || after.phase == Phase::Ended
                && action matches ActionView::End(Err(_))
        }),
{
    reveal(decided);
    put_spec(v.result.success, v.stage.id, false);
}

// ---------------------------------------------------------------- hooks

/// The run with other errors.
pub open spec fn with_errors(v: RunView, errors: Seq<Seq<char>>) -> RunView {
    RunView { result: ResultView { errors, ..v.result }, ..v }
}

/// The step with other errors.
pub open spec fn step_with_errors(step: (RunView, ActionView), errors: Seq<Seq<char>>) -> (
    RunView,
    ActionView,
) {
    (with_errors(step.0, errors), step.1)
}

proof fn entry_ignores_errors(v: RunView, from: int, errors: Seq<Seq<char>>)
    ensures
        enter_stage(with_errors(v, errors), from) == step_with_errors(enter_stage(v, from), errors),
{
    reveal(enter_stage);
    reveal(enter_pass_end);
    reveal(after_pass);
    reveal(enter_loop);
    reveal(enter_iteration);
}

proof fn finish_ignores_errors(v: RunView, errors: Seq<Seq<char>>)
    ensures
        enter_finish(with_errors(v, errors)) == step_with_errors(enter_finish(v), errors),
{
    reveal(enter_finish);
    reveal(leave_stage);
    reveal(after_stage);
    reveal(enter_pass_end);
    reveal(after_pass);
    let broke = breaks(v.workflow.vars, v.stage.break_when, v.result.outputs, v.output);
    let turn = iteration_outcome(v.stage, broke, v.iteration);
    let v2 = RunView {
        broke: false,
        result: ResultView {
            outputs: outputs_after_iteration(v.stage, v.result.outputs, turn, v.iteration),
            ..v.result
        },
        ..v
    };
    entry_ignores_errors(v2, v.at + 1, errors);
}

/// A hook that fails changes nothing of the run but that one error is noted:
/// what is done next is what would have been done.
pub proof fn hooks_do_not_fail_stages(v: RunView, err: Seq<char>)
    requires
        v.phase == Phase::Before || v.phase == Phase::After || v.phase == Phase::OnError || v.phase
            == Phase::AfterError,
    ensures
        ({
            let good = next_step(v, EventView::Done);
            let bad = next_step(v, EventView::Failed(err));
            &&& bad.1 == good.1
            &&& bad.0 == with_errors(good.0, bad.0.result.errors)
            &&& bad.0.result.errors.len() == v.result.errors.len() + 1
        }),
{
    let name = match v.phase {
        Phase::Before => "before"@,
        Phase::OnError => "on_error"@,
        _ => "after"@,
    };
    let noted = after_hook(v, name, EventView::Failed(err));
    let errors = noted.result.errors;
    assert(noted == with_errors(v, errors));
    if v.phase == Phase::After {
        reveal(enter_decision);
        finish_ignores_errors(v, errors);
    }
}

// ---------------------------------------------------------------- end

/// Whether the passes over the stages and the turns of their loops are limited.
pub open spec fn bounded(v: RunView) -> bool {
    &&& v.workflow.mode == "continuous"@ ==> v.max_iterations is Some
    &&& forall|i: int|
        0 <= i < v.workflow.stages.len() ==> (#[trigger] v.workflow.stages[i]).loop_stage
            ==> v.workflow.stages[i].max_iterations is Some
}

/// How many more passes may begin.
pub open spec fn passes_left(v: RunView) -> int {
    match v.max_iterations {
        Some(max) => if v.workflow.mode == "continuous"@ && v.passes < max {
            max - v.passes
        } else {
            0
        },
        None => 0,
    }
}

/// How much of a pass is left.
pub open spec fn stages_left(v: RunView) -> int {
    if v.phase == Phase::Start {
        v.workflow.stages.len() as int + 2
    } else if v.phase == Phase::Recall {
        v.workflow.stages.len() as int + 1
    } else if in_stage(v.phase) {
        v.workflow.stages.len() - v.at
    } else {
        0
    }
}

/// How many more turns of a loop may begin.
pub open spec fn turns_left(v: RunView) -> int {
    match v.stage.max_iterations {
        Some(max) => {
            let limit = if max == 0 {
                1
            } else {
                max as int
            };
            if v.stage.loop_stage && v.iteration < limit {
                limit - v.iteration
            } else {
                0
            }
        },
        None => 0,
    }
}

/// How much of a turn is left.
pub open spec fn phases_left(phase: Phase) -> int {
    match phase {
        Phase::Start => 12,
        Phase::Recall => 12,
        Phase::Worktree => 12,
        Phase::Before => 11,
        Phase::Execute => 10,
        Phase::ErrorLog => 9,
        Phase::OnError => 8,
        Phase::AfterError => 7,
        Phase::OutputLog => 9,
        Phase::OutputFile => 8,
        Phase::After => 7,
        Phase::Decision => 6,
        Phase::Pause => 5,
        Phase::Cleanup => 4,
        Phase::Remember => 3,
        Phase::Rest => 2,
        Phase::Ended => 0,
    }
}

/// Whether less is left of `after` than of `before`: fewer passes, or as many
/// and less of a pass, or as much and fewer turns, or as many and less of a turn.
pub open spec fn nearer_to_end(after: RunView, before: RunView) -> bool {
    ||| passes_left(after) < passes_left(before)
    ||| {
        &&& passes_left(after) == passes_left(before)
        &&& {
            ||| stages_left(after) < stages_left(before)
            ||| {
                &&& stages_left(after) == stages_left(before)
                &&& {
                    ||| turns_left(after) < turns_left(before)
                    ||| turns_left(after) == turns_left(before) && phases_left(after.phase)
                        < phases_left(before.phase)
                }
            }
        }
    }
}

/// A run waits only where something follows.
pub open spec fn waits_rightly(v: RunView) -> bool {
    &&& v.phase == Phase::Rest ==> goes_on(v)
    &&& v.phase == Phase::Pause ==> turns_left(v) > 0
}

proof fn pass_end_is_nearer(v: RunView)
    ensures
        ({
            let after = enter_pass_end(v).0;
            &&& after == (RunView { phase: after.phase, failure: after.failure, ..v })
            &&& !in_stage(after.phase) && after.phase != Phase::Start && after.phase
                != Phase::Recall
            &&& waits_rightly(after)
        }),
{
    reveal(enter_pass_end);
    reveal(after_pass);
}

proof fn entry_is_nearer(v: RunView, from: int)
    requires
        0 <= from,
        v.workflow.stages.len() <= usize::MAX,
    ensures
        ({
            let after = enter_stage(v, from).0;
            &&& after.workflow == v.workflow
            &&& after.max_iterations == v.max_iterations
            &&& after.passes == v.passes
            &&& in_stage(after.phase) ==> from <= after.at < v.workflow.stages.len()
            &&& after.phase != Phase::Start && after.phase != Phase::Recall && after.phase
                != Phase::Pause
            &&& waits_rightly(after)
        }),
{
    reveal(enter_stage);
    reveal(enter_loop);
    reveal(enter_iteration);
    stage_runs_when_ready(v.workflow.stages, from, v.result.outputs, v.result.success);
    pass_end_is_nearer(RunView { broke: false, ..v });
}

proof fn stage_end_is_nearer(v: RunView)
    requires
        v.at < v.workflow.stages.len() <= usize::MAX,
        in_stage(v.phase),
    ensures
        nearer_to_end(after_stage(v).0, v),
        waits_rightly(after_stage(v).0),
        passes_left(after_stage(v).0) == passes_left(v),
        stages_left(after_stage(v).0) < stages_left(v),
{
    reveal(after_stage);
    entry_is_nearer(v, v.at + 1);
    pass_end_is_nearer(v);
}

proof fn turn_end_is_nearer(v: RunView)
    requires
        v.at < v.workflow.stages.len() <= usize::MAX,
        in_stage(v.phase),
        v.stage.loop_stage ==> v.stage.max_iterations is Some,
        phases_left(v.phase) > 5,
    ensures
        nearer_to_end(enter_finish(v).0, v),
        waits_rightly(enter_finish(v).0),
{
    reveal(enter_finish);
    reveal(leave_stage);
    let broke = breaks(v.workflow.vars, v.stage.break_when, v.result.outputs, v.output);
    let turn = iteration_outcome(v.stage, broke, v.iteration);
    let v2 = RunView {
        result: ResultView {
            outputs: outputs_after_iteration(v.stage, v.result.outputs, turn, v.iteration),
            ..v.result
        },
        ..v
    };
    stage_end_is_nearer(RunView { broke: true, ..v2 });
    stage_end_is_nearer(RunView { broke: false, ..v2 });
}

proof fn after_log_is_nearer(v: RunView)
    requires
        v.at < v.workflow.stages.len() <= usize::MAX,
        v.phase == Phase::OutputLog || v.phase == Phase::OutputFile || v.phase == Phase::After,
        v.stage.loop_stage ==> v.stage.max_iterations is Some,
    ensures
        v.phase == Phase::OutputLog ==> nearer_to_end(enter_output_file(v).0, v) && waits_rightly(
            enter_output_file(v).0,
        ),
        v.phase != Phase::After ==> nearer_to_end(enter_after(v).0, v) && waits_rightly(
            enter_after(v).0,
        ),
        nearer_to_end(enter_decision(v).0, v),
        waits_rightly(enter_decision(v).0),
{
    reveal(enter_decision);
    turn_end_is_nearer(v);
}

proof fn turn_start_is_nearer(v: RunView)
    requires
        v.at < v.workflow.stages.len(),
        v.phase == Phase::Worktree || v.phase == Phase::Pause,
        v.stage.loop_stage ==> v.stage.max_iterations is Some,
        waits_rightly(v),
    ensures
        nearer_to_end(enter_iteration(v).0, v),
        waits_rightly(enter_iteration(v).0),
        v.phase == Phase::Worktree ==> nearer_to_end(enter_loop(v).0, v) && waits_rightly(
            enter_loop(v).0,
        ),
{
    reveal(enter_loop);
    reveal(enter_iteration);
}

proof fn pass_start_is_nearer(v: RunView)
    requires
        v.workflow.stages.len() <= usize::MAX,
        v.phase == Phase::Start || v.phase == Phase::Rest,
        v.workflow.mode == "continuous"@ ==> v.max_iterations is Some,
        waits_rightly(v),
    ensures
        nearer_to_end(enter_pass(v).0, v),
        waits_rightly(enter_pass(v).0),
{
    reveal(enter_pass);
    entry_is_nearer(RunView { passes: one_more(v.passes), ..v }, 0);
}

/// A run whose passes and loops are limited comes to its end, whatever comes of
/// what is done: every step brings it nearer.
pub proof fn bounded_runs_end(v: RunView, event: EventView)
    requires
        run_ok(v),
        bounded(v),
        waits_rightly(v),
        v.workflow.stages.len() <= usize::MAX,
        v.phase != Phase::Ended,
    ensures
        nearer_to_end(next_step(v, event).0, v),
        waits_rightly(next_step(v, event).0),
{
    if in_stage(v.phase) {
        assert(v.stage.loop_stage ==> v.stage.max_iterations is Some) by {
            assert(v.workflow.stages[v.at as int].loop_stage
                ==> v.workflow.stages[v.at as int].max_iterations is Some);
        }
    }
    match v.phase {
        Phase::Start | Phase::Rest => pass_start_is_nearer(v),
        Phase::Recall => {
            entry_is_nearer(v, 0);
            if let EventView::Recalled(remembered) = event {
                entry_is_nearer(with_memory(v, remembered), 0);
            }
        },
        Phase::Worktree => {
            turn_start_is_nearer(v);
            if let EventView::Worktree(dir) = event {
                turn_start_is_nearer(
                    RunView {
                        stage: StageView { workdir: Some(dir), ..v.stage },
                        worktree: true,
                        ..v
                    },
                );
            }
        },
        Phase::OutputLog => after_log_is_nearer(with_success(v)),
        Phase::OutputFile => after_log_is_nearer(v),
        Phase::After => after_log_is_nearer(after_hook(v, "after"@, event)),
        Phase::Decision => {
            reveal(decided);
            let said = match decision_in(event) {
                Some(decision) => decision,
                None => "skipped"@,
            };
            if let Ok(accepted) = accepted_decision(v.stage, said) {
                turn_end_is_nearer(with_decision(v, accepted));
            }
        },
        Phase::Pause => turn_start_is_nearer(v),
        Phase::Cleanup => {
            stage_end_is_nearer(v);
            if let EventView::Failed(err) = event {
                stage_end_is_nearer(with_note(v, "stage '"@ + v.stage.id + "': "@ + err));
            }
        },
        Phase::Remember => {
            reveal(after_pass);
        },
        _ => {},
    }
}

/// What is left of a run is never negative, so that it cannot come nearer to its
/// end for ever.
pub proof fn end_is_reached(v: RunView)
    requires
        run_ok(v),
    ensures
        passes_left(v) >= 0,
        stages_left(v) >= 0,
        turns_left(v) >= 0,
        phases_left(v.phase) >= 0,
{
}

} // verus!
