//! What a run does in turn: the order of hooks, outputs, decisions and passes.
use crate::executor::{accepted_decision, output_key, rejects};
use crate::run::{
    after_pass, after_stage, bad_interval, decided, enter_decision, enter_finish, enter_iteration,
    enter_loop, enter_output_file, enter_pass, enter_pass_end, enter_stage, fail, latest,
    leave_stage, next_step, one_more, own_worktree, turn_delay, with_decision, with_success,
    ActionView, EventView, Phase, RunView,
};
use crate::executor::{next_stage_from, placed_path, NextStage};
use crate::strmap::{lookup, put_spec};
use crate::workflow::{loop_interval, read_opt, StageView};
use crate::memory::MemoryEntry;
use vstd::prelude::*;

verus! {

/// The command of a hook, which runs in the stage's place as a shell stage.
pub open spec fn runs_hook(action: ActionView, command: Seq<char>) -> bool {
    action matches ActionView::RunHook(stage) && stage.command == Some(command) && stage.provider
        == "shell"@
}

// ---------------------------------------------------------------- a turn

/// A turn begins with the hook before the stage, where there is one, and then the
/// stage itself is carried out.
pub proof fn turn_begins_with_hook(v: RunView, event: EventView)
    ensures
        v.phase == Phase::Pause ==> {
            let (after, action) = next_step(v, event);
            &&& after.stage == v.stage && after.at == v.at && after.result == v.result
            &&& v.iteration < u32::MAX ==> after.iteration == v.iteration + 1
            &&& v.stage.before matches Some(command) ==> after.phase == Phase::Before && runs_hook(
                action,
                command,
            )
            &&& v.stage.before is None ==> after.phase == Phase::Execute && action is Execute
        },
        v.phase == Phase::Before ==> {
            let (after, action) = next_step(v, event);
            after.phase == Phase::Execute && action is Execute && after.stage == v.stage
                && after.at == v.at && after.result.outputs == v.result.outputs
                && after.result.success == v.result.success
        },
{
    reveal(enter_iteration);
}

/// What a stage puts out is logged, and then recorded as the output of a stage that
/// succeeded.
pub proof fn outputs_are_recorded(v: RunView, output: Seq<char>)
    requires
        v.phase == Phase::Execute,
    ensures
        ({
            let (logged, action) = next_step(v, EventView::Output(output));
            let (done, _) = next_step(logged, EventView::Done);
            &&& action == ActionView::WriteLog(output)
            &&& lookup(done.result.outputs, v.stage.id) == Some(output)
            &&& lookup(done.result.success, v.stage.id) == Some(true)
            &&& done.result.errors == v.result.errors
        }),
{
    let logged = next_step(v, EventView::Output(output)).0;
    let w = with_success(logged);
    put_spec(v.result.outputs, v.stage.id, output);
    put_spec(v.result.success, v.stage.id, true);
    output_stays(w);
}

/// What follows the output of a stage keeps its outcome.
proof fn output_stays(w: RunView)
    ensures
        ({
            let done = enter_output_file(w).0;
            &&& lookup(done.result.outputs, w.stage.id) == lookup(w.result.outputs, w.stage.id)
            &&& done.result.success == w.result.success
            &&& done.result.errors == w.result.errors
        }),
{
    reveal(enter_decision);
    finish_stays(w);
}

proof fn finish_stays(w: RunView)
    ensures
        ({
            let done = enter_finish(w).0;
            &&& lookup(done.result.outputs, w.stage.id) == lookup(w.result.outputs, w.stage.id)
            &&& done.result.success == w.result.success
            &&& done.result.errors == w.result.errors
        }),
{
    reveal(enter_finish);
    reveal(leave_stage);
    reveal(after_stage);
    reveal(enter_stage);
    reveal(enter_pass_end);
    reveal(after_pass);
    reveal(enter_loop);
    reveal(enter_iteration);
    reveal_strlit(".");
    reveal_strlit("iterations");
    let key = output_key(w.stage.id, "iterations"@);
    assert(key.len() > w.stage.id.len());
    put_spec(w.result.outputs, key, crate::number::decimal(w.iteration as nat));
}

/// A stage that succeeded writes its output file, then runs the hook after it, then
/// asks for a decision, each where there is one.
pub proof fn successes_are_followed_up(v: RunView)
    ensures
        v.phase == Phase::OutputLog ==> {
            let (after, action) = next_step(v, EventView::Done);
            &&& v.stage.output matches Some(target) ==> after.phase == Phase::OutputFile && action
                == ActionView::WriteFile(placed_path(target, v.stage.workdir, v.workflow.workdir))
            &&& v.stage.output is None ==> (v.stage.after matches Some(command) ==> after.phase
                == Phase::After && runs_hook(action, command))
        },
        v.phase == Phase::OutputLog && v.stage.output is None && v.stage.after is None
            && v.stage.hitl ==> {
            let (after, action) = next_step(v, EventView::Done);
            after.phase == Phase::Decision && asks(v, action)
        },
        v.phase == Phase::OutputFile ==> {
            let (after, action) = next_step(v, EventView::Done);
            &&& v.stage.after matches Some(command) ==> after.phase == Phase::After && runs_hook(
                action,
                command,
            )
            &&& v.stage.after is None && v.stage.hitl ==> after.phase == Phase::Decision && asks(
                v,
                action,
            )
        },
        v.phase == Phase::After && v.stage.hitl ==> {
            let (after, action) = next_step(v, EventView::Done);
            after.phase == Phase::Decision && asks(v, action)
        },
{
    reveal(enter_decision);
}

/// Whether a person is asked about the stage.
pub open spec fn asks(v: RunView, action: ActionView) -> bool {
    action matches ActionView::Ask(request) && request.session_id == v.result.session_id
        && request.workflow == v.workflow.name && request.stage_id == v.stage.id && request.prompt
        == v.stage.hitl_prompt && request.options == v.stage.hitl_options
}

/// A stage that fails is logged and recorded, then its hooks run, the one on an
/// error before the one after the stage.
pub proof fn failures_are_followed_up(v: RunView, message: Seq<char>)
    ensures
        v.phase == Phase::Execute ==> {
            let (after, action) = next_step(v, EventView::Failed(message));
            after.phase == Phase::ErrorLog && action == ActionView::WriteLog(message)
                && after.failure == Some(message)
        },
        v.phase == Phase::ErrorLog ==> {
            let (after, action) = next_step(v, EventView::Done);
            &&& v.stage.on_error matches Some(command) ==> after.phase == Phase::OnError
                && runs_hook(action, command)
            &&& v.stage.on_error is None ==> (v.stage.after matches Some(command) ==> after.phase
                == Phase::AfterError && runs_hook(action, command))
            &&& v.failure matches Some(why) ==> after.result.errors == v.result.errors.push(
                v.stage.id + ": "@ + why,
            )
        },
        v.phase == Phase::OnError ==> {
            let (after, action) = next_step(v, EventView::Done);
            v.stage.after matches Some(command) ==> after.phase == Phase::AfterError && runs_hook(
                action,
                command,
            )
        },
{
}

/// A loop that goes on waits for its interval, and then the same stage makes another
/// turn: without a limit nothing but a break ends it.
pub proof fn loops_go_on(v: RunView)
    requires
        v.phase == Phase::After,
        !v.stage.hitl,
        v.stage.loop_stage,
        v.stage.break_when is None,
        v.stage.max_iterations is None || v.iteration < v.stage.max_iterations->0,
        v.iteration >= 1,
    ensures
        ({
            let (paused, action) = next_step(v, EventView::Done);
            let (again, _) = next_step(paused, EventView::Done);
            &&& paused.phase == Phase::Pause && action == ActionView::Pause(v.delay)
            &&& paused.result == v.result
            &&& again.phase == Phase::Before || again.phase == Phase::Execute
            &&& again.at == v.at && again.stage == v.stage
        }),
{
    reveal(enter_decision);
    reveal(enter_finish);
    reveal(enter_iteration);
}

// ---------------------------------------------------------------- a stage

/// The stage that begins is the one that comes next, at its first turn; one with a
/// worktree of its own waits for that.
pub proof fn next_stage_begins(v: RunView, from: int, i: usize)
    requires
        next_stage_from(v.workflow.stages, from, v.result.outputs, v.result.success)
            == NextStage::Run(i),
        v.workflow.stages[i as int].interval is None,
    ensures
        ({
            let stage = v.workflow.stages[i as int];
            let (after, action) = enter_stage(v, from);
            let parted = (stage.forks matches Some(n) && n > 0) || stage.each.len() > 0
                || stage.each_from is Some;
            &&& after.at == i && after.stage == stage && after.result == v.result
            &&& stage.worktree is Some && !parted ==> action is MakeWorktree && after.phase
                == Phase::Worktree && after.iteration == 0
            &&& stage.worktree is None || parted ==> after.iteration == 1 && match stage.before {
                Some(command) => runs_hook(action, command),
                None => action is Execute,
            }
        }),
{
    reveal(enter_stage);
    reveal(enter_loop);
    reveal(enter_iteration);
}

/// A stage runs in its worktree, which is removed once it is over.
pub proof fn worktrees_are_used(v: RunView, dir: Seq<char>)
    ensures
        v.phase == Phase::Worktree && v.stage.interval is None ==> {
            let (after, action) = next_step(v, EventView::Worktree(dir));
            after.worktree && after.stage.workdir == Some(dir) && after.at == v.at
        },
        v.worktree ==> ({
            let (after, action) = leave_stage(v);
            action is RemoveWorktree && after.phase == Phase::Cleanup
        }),
        v.worktree ==> fail(v, dir).1 is RemoveWorktree,
{
    reveal(leave_stage);
    reveal(enter_loop);
    reveal(enter_iteration);
}

/// A stage that is over is followed by the next one after it; a break ends the pass.
pub proof fn stages_follow_in_order(v: RunView)
    requires
        v.phase == Phase::Cleanup,
        v.failure is None,
    ensures
        !v.broke ==> next_step(v, EventView::Done) == enter_stage(v, v.at + 1),
        v.broke ==> next_step(v, EventView::Done) == enter_pass_end(v),
        !v.broke && next_stage_from(
            v.workflow.stages,
            v.at + 1,
            v.result.outputs,
            v.result.success,
        ) == NextStage::Finished && !v.workflow.memory ==> ({
            let (after, action) = next_step(v, EventView::Done);
            action is Rest || action == ActionView::End(Ok(()))
        }),
{
    reveal(after_stage);
    reveal(enter_stage);
    reveal(enter_pass_end);
    reveal(after_pass);
}

// ---------------------------------------------------------------- passes

/// A workflow that runs once ends after one pass; a continuous one rests and goes on
/// until a break or its limit.
pub proof fn passes_follow(v: RunView)
    requires
        v.phase == Phase::Remember,
    ensures
        ({
            let (after, action) = next_step(v, EventView::Done);
            &&& v.workflow.mode != "continuous"@ ==> action == ActionView::End(Ok(()))
            &&& v.broke ==> action == ActionView::End(Ok(()))
            &&& v.workflow.mode == "continuous"@ && !v.broke && v.max_iterations is None
                ==> after.phase == Phase::Rest && action == ActionView::Rest(
                loop_interval(v.workflow.stages, 0),
            )
            &&& v.workflow.mode == "continuous"@ && !v.broke ==> (v.max_iterations matches Some(max)
                ==> (action is Rest <==> v.passes < max))
        }),
{
    reveal(after_pass);
}

/// A pass of a workflow with memory begins with what it remembers and ends with
/// remembering; without memory neither is done.
pub proof fn memory_frames_passes(v: RunView)
    ensures
        v.phase == Phase::Rest && v.workflow.memory ==> next_step(v, EventView::Done).1 is Recall,
        v.phase == Phase::Rest && !v.workflow.memory ==> !(next_step(
            v,
            EventView::Done,
        ).1 is Recall),
        v.phase == Phase::Start && v.workflow.memory ==> next_step(v, EventView::Done).1 is Recall,
        v.workflow.memory ==> enter_pass_end(v).1 is Remember,
        !v.workflow.memory ==> !(enter_pass_end(v).1 is Remember),
        v.phase == Phase::Rest && v.workflow.memory && v.passes < u32::MAX ==> next_step(
            v,
            EventView::Done,
        ).0.passes == v.passes + 1,
{
    reveal(enter_pass);
    reveal(enter_pass_end);
    reveal(enter_stage);
    reveal(after_pass);
    reveal(enter_loop);
    reveal(enter_iteration);
}

/// A loop waits its interval between two turns, and a second where it names none; an
/// interval that cannot be read is told.
pub proof fn loops_wait(stage: StageView)
    ensures
        stage.interval is None ==> turn_delay(stage).secs == 1 && turn_delay(stage).nanos == 0,
        stage.interval is None ==> bad_interval(stage) is None,
        !stage.loop_stage ==> bad_interval(stage) is None,
        read_opt(stage.interval) matches Some(span) ==> (stage.interval is Some ==> turn_delay(
            stage,
        ) == span && bad_interval(stage) is None),
        stage.loop_stage && stage.interval is Some && read_opt(stage.interval) is None
            ==> bad_interval(stage) == Some(
            "stage '"@ + stage.id + "' has invalid loop interval: "@ + ("invalid "@ + "interval"@
                + " for stage '"@ + stage.id + "': "@ + stage.interval->0),
        ),
{
}

/// A stage has one worktree where it asks for one and has no parts.
pub proof fn whole_stages_have_a_worktree(stage: StageView, n: u32, entries: Seq<MemoryEntry>)
    ensures
        own_worktree(stage) <==> stage.worktree is Some && (stage.forks is None || stage.forks->0
            == 0) && stage.each.len() == 0 && stage.each_from is None,
        n < u32::MAX ==> one_more(n) == n + 1,
        one_more(u32::MAX) == u32::MAX,
        entries.len() == 0 ==> latest(entries) is None,
        entries.len() > 0 ==> latest(entries) == Some(entries.last()@.out),
{
}

/// A hook that fails is noted with its stage, its name and the reason; a hook that does
/// not fail leaves no note.
pub proof fn failed_hooks_are_noted(v: RunView, err: Seq<char>)
    ensures
        v.phase == Phase::Before ==> next_step(
            v,
            EventView::Failed(err),
        ).0.result.errors == v.result.errors.push(
            "stage '"@ + v.stage.id + "': "@ + "before"@ + " hook failed: "@ + err,
        ),
        v.phase == Phase::AfterError ==> next_step(
            v,
            EventView::Failed(err),
        ).0.result.errors == v.result.errors.push(
            "stage '"@ + v.stage.id + "': "@ + "after"@ + " hook failed: "@ + err,
        ),
        v.phase == Phase::OnError ==> next_step(
            v,
            EventView::Failed(err),
        ).0.result.errors == v.result.errors.push(
            "stage '"@ + v.stage.id + "': "@ + "on_error"@ + " hook failed: "@ + err,
        ),
        v.phase == Phase::Before ==> next_step(v, EventView::Done).0.result.errors
            == v.result.errors,
{
}

/// A decision is kept under the stage; without one the stage is skipped, and one that
/// rejects ends the run and says so.
pub proof fn decisions_are_kept(v: RunView, decision: Seq<char>)
    ensures
        lookup(
            with_decision(v, decision).result.outputs,
            output_key(v.stage.id, "hitl"@),
        ) == Some(decision),
        decided(v, None) == decided(v, Some("skipped"@)),
        accepted_decision(v.stage, decision) matches Ok(accepted) ==> (rejects(accepted)
            ==> decided(v, Some(decision)) == fail(
            with_decision(v, accepted),
            "HITL rejected stage '"@ + v.stage.id + "' with decision '"@ + accepted + "'"@,
        )),
        accepted_decision(v.stage, decision) matches Err(message) ==> decided(v, Some(decision))
            == fail(v, message),
{
    reveal(decided);
    put_spec(v.result.outputs, output_key(v.stage.id, "hitl"@), decision);
}

} // verus!
