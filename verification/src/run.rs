//! A run of a workflow, step by step: what is done next, from what came of what
//! was done last.
use crate::executor::{
    accepted_decision, another_pass, breaks, check_decision, finish_iteration, has_own_worktree,
    hitl_request, hook_failed, hook_stage, iteration_outcome, next_stage, next_stage_from,
    output_file_path, output_key, outputs_after_iteration, placed_path, record_decision, rejects,
    stage_runs_when_ready, HitlRequest, IterationOutcome, NextStage,
};
use crate::memory::{injected, MemoryEntry, WorkflowMemory};
use crate::result::{ResultView, RunResult};
use crate::strmap::put;
use crate::text::{as_str_opt, cat4, clone_opt, group_texts, opt_str, opt_text, texts};
use crate::workflow::units::duration_text_fits;
use crate::workflow::{
    empty_stage, loop_interval, opt_duration_fits, read_opt, Span, Stage,
    StageView, Workflow, WorkflowView,
};
use crate::worktree::stage_in;
use vstd::prelude::*;

pub mod flow;
pub mod laws;

verus! {

/// Where a run stands: what it waits for.
#[derive(Clone, Copy, Debug, PartialEq, Eq, Structural)]
pub enum Phase {
    /// The session is set up.
    Start,
    /// The memory of the workflow is read.
    Recall,
    /// The worktree of a stage is made.
    Worktree,
    /// The hook before a stage runs.
    Before,
    /// The stage itself runs.
    Execute,
    /// The error of the stage is logged.
    ErrorLog,
    /// The hook on an error runs.
    OnError,
    /// The hook after a stage that failed runs.
    AfterError,
    /// The output of the stage is logged.
    OutputLog,
    /// The output of the stage is written to its file.
    OutputFile,
    /// The hook after the stage runs.
    After,
    /// A person decides on the stage.
    Decision,
    /// A loop waits for its next turn.
    Pause,
    /// The worktree of the stage is removed.
    Cleanup,
    /// The run is saved in the memory of the workflow.
    Remember,
    /// The workflow waits for its next pass.
    Rest,
    /// The run is over.
    Ended,
}

/// What came of what was done.
pub enum Event {
    Done,
    Failed(String),
    /// The output of a stage.
    Output(String),
    /// The memory of the workflow.
    Recalled(WorkflowMemory),
    /// The directory of a worktree.
    Worktree(String),
    /// A decision; `None` where there is nobody to ask.
    Decided(Option<String>),
}

/// What came of what was done, as plain values.
pub enum EventView {
    Done,
    Failed(Seq<char>),
    Output(Seq<char>),
    /// The outputs of the latest remembered run.
    Recalled(Option<Seq<(Seq<char>, Seq<char>)>>),
    Worktree(Seq<char>),
    Decided(Option<Seq<char>>),
}

/// The outputs of the latest run of a memory.
pub open spec fn latest(entries: Seq<MemoryEntry>) -> Option<Seq<(Seq<char>, Seq<char>)>> {
    if entries.len() == 0 {
        None
    } else {
        Some(entries.last()@.out)
    }
}

impl View for Event {
    type V = EventView;

    open spec fn view(&self) -> EventView {
        match self {
            Event::Done => EventView::Done,
            Event::Failed(message) => EventView::Failed(message@),
            Event::Output(output) => EventView::Output(output@),
            Event::Recalled(memory) => EventView::Recalled(latest(memory.entries@)),
            Event::Worktree(dir) => EventView::Worktree(dir@),
            Event::Decided(decision) => EventView::Decided(opt_text(*decision)),
        }
    }
}

/// What to do next.
pub enum Action {
    /// Set up the files of the session.
    InitSession,
    /// Read the memory of the workflow.
    Recall,
    /// Make the worktree of the stage.
    MakeWorktree,
    /// Run a hook, which is a stage of its own.
    RunHook(Stage),
    /// Carry out the stage.
    Execute,
    /// Write the log of the stage.
    WriteLog(String),
    /// Write the output of the stage to the file.
    WriteFile(String),
    /// Ask for a decision.
    Ask(HitlRequest),
    /// Wait before the next turn of a loop.
    Pause(Span),
    /// Remove the worktree of the stage.
    RemoveWorktree,
    /// Save the run in the memory of the workflow.
    Remember,
    /// Wait before the next pass.
    Rest(Span),
    /// The condition of the stage at this position has no value.
    NoValue(usize),
    /// The run is over; an error is why it failed.
    End(Result<(), String>),
}

/// What to do next, as plain values.
pub enum ActionView {
    InitSession,
    Recall,
    MakeWorktree,
    RunHook(StageView),
    Execute,
    WriteLog(Seq<char>),
    WriteFile(Seq<char>),
    Ask(HitlView),
    Pause(Span),
    RemoveWorktree,
    Remember,
    Rest(Span),
    NoValue(usize),
    End(Result<(), Seq<char>>),
}

/// A request for a decision, as plain values.
pub struct HitlView {
    pub session_id: Seq<char>,
    pub workflow: Seq<char>,
    pub stage_id: Seq<char>,
    pub prompt: Option<Seq<char>>,
    pub options: Seq<Seq<char>>,
}

impl View for HitlRequest {
    type V = HitlView;

    open spec fn view(&self) -> HitlView {
        HitlView {
            session_id: self.session_id@,
            workflow: self.workflow@,
            stage_id: self.stage_id@,
            prompt: opt_text(self.prompt),
            options: texts(self.options@),
        }
    }
}

impl View for Action {
    type V = ActionView;

    open spec fn view(&self) -> ActionView {
        match self {
            Action::InitSession => ActionView::InitSession,
            Action::Recall => ActionView::Recall,
            Action::MakeWorktree => ActionView::MakeWorktree,
            Action::RunHook(stage) => ActionView::RunHook(stage@),
            Action::Execute => ActionView::Execute,
            Action::WriteLog(text) => ActionView::WriteLog(text@),
            Action::WriteFile(path) => ActionView::WriteFile(path@),
            Action::Ask(request) => ActionView::Ask(request@),
            Action::Pause(span) => ActionView::Pause(*span),
            Action::RemoveWorktree => ActionView::RemoveWorktree,
            Action::Remember => ActionView::Remember,
            Action::Rest(span) => ActionView::Rest(*span),
            Action::NoValue(i) => ActionView::NoValue(*i),
            Action::End(result) => ActionView::End(
                match result {
                    Ok(()) => Ok(()),
                    Err(message) => Err(message@),
                },
            ),
        }
    }
}

/// A run of a workflow.
pub struct Run {
    pub workflow: Workflow,
    pub max_iterations: Option<u32>,
    pub result: RunResult,
    pub phase: Phase,
    /// How many passes over the stages have begun.
    pub passes: u32,
    /// The position of the stage that runs.
    pub at: usize,
    /// The stage that runs, in its worktree where it has one.
    pub stage: Stage,
    /// Whether the stage has a worktree.
    pub worktree: bool,
    /// How many turns of the stage have begun.
    pub iteration: u32,
    /// The wait between two turns.
    pub delay: Span,
    /// The output of the turn.
    pub output: String,
    /// Why the run fails.
    pub failure: Option<String>,
    /// Whether the stage ended the pass.
    pub broke: bool,
}

/// A run, as plain values.
pub struct RunView {
    pub workflow: WorkflowView,
    pub max_iterations: Option<u32>,
    pub result: ResultView,
    pub phase: Phase,
    pub passes: u32,
    pub at: usize,
    pub stage: StageView,
    pub worktree: bool,
    pub iteration: u32,
    pub delay: Span,
    pub output: Seq<char>,
    pub failure: Option<Seq<char>>,
    pub broke: bool,
}

impl View for Run {
    type V = RunView;

    open spec fn view(&self) -> RunView {
        RunView {
            workflow: self.workflow@,
            max_iterations: self.max_iterations,
            result: self.result@,
            phase: self.phase,
            passes: self.passes,
            at: self.at,
            stage: self.stage@,
            worktree: self.worktree,
            iteration: self.iteration,
            delay: self.delay,
            output: self.output@,
            failure: opt_text(self.failure),
            broke: self.broke,
        }
    }
}

// ---------------------------------------------------------------- validity

/// Whether the durations of a stage fit.
pub open spec fn stage_fits(stage: StageView) -> bool {
    opt_duration_fits(stage.interval) && opt_duration_fits(stage.timeout) && opt_duration_fits(
        stage.retry_delay,
    )
}

/// Whether the durations of all stages fit.
pub open spec fn stages_fit(stages: Seq<StageView>) -> bool {
    forall|i: int| 0 <= i < stages.len() ==> stage_fits(#[trigger] stages[i])
}

/// Whether a stage is under way in this phase.
pub open spec fn in_stage(phase: Phase) -> bool {
    !(phase == Phase::Start || phase == Phase::Recall || phase == Phase::Remember || phase
        == Phase::Rest || phase == Phase::Ended)
}

/// A stage that is under way is one of the workflow's, but for the directory of
/// its worktree.
pub open spec fn run_ok(v: RunView) -> bool {
    &&& stages_fit(v.workflow.stages)
    &&& in_stage(v.phase) ==> {
        &&& v.at < v.workflow.stages.len()
        &&& v.stage == (StageView { workdir: v.stage.workdir, ..v.workflow.stages[v.at as int] })
    }
}

fn text_fits(text: &Option<String>) -> (r: bool)
    ensures
        r == opt_duration_fits(opt_text(*text)),
{
    match text {
        Some(text) => duration_text_fits(text.as_str()),
        None => true,
    }
}

/// Whether the durations of all stages fit.
pub fn durations_fit(workflow: &Workflow) -> (r: bool)
    ensures
        r == stages_fit(workflow@.stages),
{
    let mut i: usize = 0;
    while i < workflow.stages.len()
        invariant
            i <= workflow.stages@.len(),
            forall|j: int| 0 <= j < i ==> stage_fits(#[trigger] workflow@.stages[j]),
        decreases workflow.stages@.len() - i,
    {
        let stage = &workflow.stages[i];
        assert(workflow@.stages[i as int] == stage@);
        if !(text_fits(&stage.interval) && text_fits(&stage.timeout) && text_fits(
            &stage.retry_delay,
        )) {
            return false;
        }
        i += 1;
    }
    true
}

// ---------------------------------------------------------------- steps

/// One more, as far as the type reaches.
pub open spec fn one_more(n: u32) -> u32 {
    if n == u32::MAX {
        n
    } else {
        (n + 1) as u32
    }
}

/// The run is over.
pub open spec fn ended(v: RunView, result: Result<(), Seq<char>>) -> (RunView, ActionView) {
    let failure = match result {
        Ok(()) => None,
        Err(message) => Some(message),
    };
    (RunView { phase: Phase::Ended, failure, ..v }, ActionView::End(result))
}

/// A hook runs.
pub open spec fn hook(v: RunView, phase: Phase, command: Seq<char>) -> (RunView, ActionView) {
    (
        RunView { phase, ..v },
        ActionView::RunHook(
            StageView { command: Some(command), provider: "shell"@, ..v.stage },
        ),
    )
}

/// The run fails, once the worktree of its stage is removed.
pub open spec fn fail(v: RunView, message: Seq<char>) -> (RunView, ActionView) {
    let v = RunView { failure: Some(message), ..v };
    if v.worktree {
        (RunView { phase: Phase::Cleanup, ..v }, ActionView::RemoveWorktree)
    } else {
        ended(v, Err(message))
    }
}

#[verifier::opaque]
pub open spec fn enter_pass(v: RunView) -> (RunView, ActionView) {
    let v = RunView { passes: one_more(v.passes), ..v };
    if v.workflow.memory {
        (RunView { phase: Phase::Recall, ..v }, ActionView::Recall)
    } else {
        enter_stage(v, 0)
    }
}

/// The next stage at or after position `from` begins; the pass ends where there
/// is none.
#[verifier::opaque]
pub open spec fn enter_stage(v: RunView, from: int) -> (RunView, ActionView) {
    match next_stage_from(v.workflow.stages, from, v.result.outputs, v.result.success) {
        NextStage::Finished => enter_pass_end(RunView { broke: false, ..v }),
        NextStage::NoValue(i) => (RunView { phase: Phase::Ended, at: i, ..v }, ActionView::NoValue(i)),
        NextStage::Run(i) => {
            let v = RunView {
                at: i,
                stage: v.workflow.stages[i as int],
                worktree: false,
                iteration: 0,
                failure: None,
                broke: false,
                ..v
            };
            if own_worktree(v.stage) {
                (RunView { phase: Phase::Worktree, ..v }, ActionView::MakeWorktree)
            } else {
                enter_loop(v)
            }
        },
    }
}

/// Whether a stage as a whole has a worktree.
pub open spec fn own_worktree(stage: StageView) -> bool {
    stage.worktree is Some && !(stage.forks is Some && stage.forks->0 > 0) && stage.each.len() == 0
        && stage.each_from is None
}

/// What is wrong with the interval of a loop.
pub open spec fn bad_interval(stage: StageView) -> Option<Seq<char>> {
    if stage.loop_stage && stage.interval is Some && read_opt(stage.interval) is None {
        Some(
            "stage '"@ + stage.id + "' has invalid loop interval: "@ + ("invalid "@ + "interval"@
                + " for stage '"@ + stage.id + "': "@ + stage.interval->0),
        )
    } else {
        None
    }
}

/// The wait between two turns of a loop.
pub open spec fn turn_delay(stage: StageView) -> Span {
    if stage.interval is Some && read_opt(stage.interval) is Some {
        read_opt(stage.interval)->0
    } else {
        Span { secs: 1, nanos: 0 }
    }
}

#[verifier::opaque]
pub open spec fn enter_loop(v: RunView) -> (RunView, ActionView) {
    match bad_interval(v.stage) {
        Some(message) => fail(v, message),
        None => enter_iteration(
            if v.stage.loop_stage {
                RunView { delay: turn_delay(v.stage), ..v }
            } else {
                v
            },
        ),
    }
}

#[verifier::opaque]
pub open spec fn enter_iteration(v: RunView) -> (RunView, ActionView) {
    let v = RunView { iteration: one_more(v.iteration), ..v };
    match v.stage.before {
        Some(command) => hook(v, Phase::Before, command),
        None => enter_execute(v),
    }
}

pub open spec fn enter_execute(v: RunView) -> (RunView, ActionView) {
    (RunView { phase: Phase::Execute, ..v }, ActionView::Execute)
}

/// The stage failed, and that is logged.
pub open spec fn stage_failed(v: RunView, message: Seq<char>) -> (RunView, ActionView) {
    (
        RunView { phase: Phase::ErrorLog, failure: Some(message), ..v },
        ActionView::WriteLog(message),
    )
}

pub open spec fn failure_of(v: RunView) -> Seq<char> {
    match v.failure {
        Some(message) => message,
        None => Seq::empty(),
    }
}

/// The record with a stage that failed.
pub open spec fn with_error(v: RunView) -> RunView {
    RunView {
        result: ResultView {
            success: put(v.result.success, v.stage.id, false),
            errors: v.result.errors.push(v.stage.id + ": "@ + failure_of(v)),
            ..v.result
        },
        ..v
    }
}

pub open spec fn enter_on_error(v: RunView) -> (RunView, ActionView) {
    match v.stage.on_error {
        Some(command) => hook(v, Phase::OnError, command),
        None => enter_after_error(v),
    }
}

pub open spec fn enter_after_error(v: RunView) -> (RunView, ActionView) {
    match v.stage.after {
        Some(command) => hook(v, Phase::AfterError, command),
        None => fail(v, failure_of(v)),
    }
}

/// The stage succeeded, and its output is logged.
pub open spec fn stage_done(v: RunView, output: Seq<char>) -> (RunView, ActionView) {
    (RunView { phase: Phase::OutputLog, output, ..v }, ActionView::WriteLog(output))
}

/// The record with a stage that succeeded.
pub open spec fn with_success(v: RunView) -> RunView {
    RunView {
        result: ResultView {
            outputs: put(v.result.outputs, v.stage.id, v.output),
            success: put(v.result.success, v.stage.id, true),
            ..v.result
        },
        ..v
    }
}

pub open spec fn enter_output_file(v: RunView) -> (RunView, ActionView) {
    match v.stage.output {
        Some(target) => (
            RunView { phase: Phase::OutputFile, ..v },
            ActionView::WriteFile(placed_path(target, v.stage.workdir, v.workflow.workdir)),
        ),
        None => enter_after(v),
    }
}

pub open spec fn enter_after(v: RunView) -> (RunView, ActionView) {
    match v.stage.after {
        Some(command) => hook(v, Phase::After, command),
        None => enter_decision(v),
    }
}

#[verifier::opaque]
pub open spec fn enter_decision(v: RunView) -> (RunView, ActionView) {
    if v.stage.hitl {
        (
            RunView { phase: Phase::Decision, ..v },
            ActionView::Ask(
                HitlView {
                    session_id: v.result.session_id,
                    workflow: v.workflow.name,
                    stage_id: v.stage.id,
                    prompt: v.stage.hitl_prompt,
                    options: v.stage.hitl_options,
                },
            ),
        )
    } else {
        enter_finish(v)
    }
}

/// A decision on the stage has come.
#[verifier::opaque]
pub open spec fn decided(v: RunView, decision: Option<Seq<char>>) -> (RunView, ActionView) {
    let said = match decision {
        Some(decision) => decision,
        None => "skipped"@,
    };
    match accepted_decision(v.stage, said) {
        Err(message) => fail(v, message),
        Ok(accepted) => {
            let v = with_decision(v, accepted);
            if rejects(accepted) {
                fail(
                    v,
                    "HITL rejected stage '"@ + v.stage.id + "' with decision '"@ + accepted + "'"@,
                )
            } else {
                enter_finish(v)
            }
        },
    }
}

/// The record with a decision on the stage.
pub open spec fn with_decision(v: RunView, decision: Seq<char>) -> RunView {
    RunView {
        result: ResultView {
            outputs: put(v.result.outputs, output_key(v.stage.id, "hitl"@), decision),
            success: if rejects(decision) {
                put(v.result.success, v.stage.id, false)
            } else {
                v.result.success
            },
            ..v.result
        },
        ..v
    }
}

/// A turn of the stage is over.
#[verifier::opaque]
pub open spec fn enter_finish(v: RunView) -> (RunView, ActionView) {
    let broke = breaks(v.workflow.vars, v.stage.break_when, v.result.outputs, v.output);
    let turn = iteration_outcome(v.stage, broke, v.iteration);
    let v = RunView {
        result: ResultView {
            outputs: outputs_after_iteration(v.stage, v.result.outputs, turn, v.iteration),
            ..v.result
        },
        ..v
    };
    match turn {
        IterationOutcome::ContinueLoop => (
            RunView { phase: Phase::Pause, ..v },
            ActionView::Pause(v.delay),
        ),
        IterationOutcome::BreakWorkflow => leave_stage(RunView { broke: true, ..v }),
        IterationOutcome::StageComplete => leave_stage(RunView { broke: false, ..v }),
    }
}

#[verifier::opaque]
pub open spec fn leave_stage(v: RunView) -> (RunView, ActionView) {
    if v.worktree {
        (RunView { phase: Phase::Cleanup, ..v }, ActionView::RemoveWorktree)
    } else {
        after_stage(v)
    }
}

/// The stage is over: the run fails, the pass ends, or the next stage begins.
#[verifier::opaque]
pub open spec fn after_stage(v: RunView) -> (RunView, ActionView) {
    match v.failure {
        Some(message) => ended(v, Err(message)),
        None => if v.broke {
            enter_pass_end(v)
        } else {
            enter_stage(v, v.at + 1)
        },
    }
}

#[verifier::opaque]
pub open spec fn enter_pass_end(v: RunView) -> (RunView, ActionView) {
    if v.workflow.memory {
        (RunView { phase: Phase::Remember, ..v }, ActionView::Remember)
    } else {
        after_pass(v)
    }
}

/// Whether another pass over the stages follows.
pub open spec fn goes_on(v: RunView) -> bool {
    v.workflow.mode == "continuous"@ && !v.broke && (match v.max_iterations {
        Some(max) => v.passes < max,
        None => true,
    })
}

#[verifier::opaque]
pub open spec fn after_pass(v: RunView) -> (RunView, ActionView) {
    if goes_on(v) {
        (
            RunView { phase: Phase::Rest, ..v },
            ActionView::Rest(loop_interval(v.workflow.stages, 0)),
        )
    } else {
        ended(v, Ok(()))
    }
}

/// The record with one error more.
pub open spec fn with_note(v: RunView, note: Seq<char>) -> RunView {
    RunView {
        result: ResultView { errors: v.result.errors.push(note), ..v.result },
        ..v
    }
}

/// The run after a hook: one that failed is noted, and no more.
pub open spec fn after_hook(v: RunView, name: Seq<char>, event: EventView) -> RunView {
    match event {
        EventView::Failed(err) => with_note(
            v,
            "stage '"@ + v.stage.id + "': "@ + name + " hook failed: "@ + err,
        ),
        _ => v,
    }
}

/// The outputs with those of the latest remembered run.
pub open spec fn with_memory(
    v: RunView,
    remembered: Option<Seq<(Seq<char>, Seq<char>)>>,
) -> RunView {
    RunView {
        result: ResultView {
            outputs: match remembered {
                Some(out) => injected(v.result.outputs, out),
                None => v.result.outputs,
            },
            ..v.result
        },
        ..v
    }
}

/// The output that an event brings.
pub open spec fn output_in(event: EventView) -> Seq<char> {
    match event {
        EventView::Output(output) => output,
        _ => Seq::empty(),
    }
}

/// The decision that an event brings.
pub open spec fn decision_in(event: EventView) -> Option<Seq<char>> {
    match event {
        EventView::Decided(decision) => decision,
        _ => None,
    }
}

/// What is done next, and where the run then stands.
pub open spec fn next_step(v: RunView, event: EventView) -> (RunView, ActionView) {
    match v.phase {
        Phase::Start => match event {
            EventView::Failed(message) => ended(v, Err(message)),
            _ => enter_pass(v),
        },
        Phase::Recall => match event {
            EventView::Failed(message) => ended(v, Err(message)),
            EventView::Recalled(remembered) => enter_stage(with_memory(v, remembered), 0),
            _ => enter_stage(v, 0),
        },
        Phase::Worktree => match event {
            EventView::Failed(message) => ended(v, Err(message)),
            EventView::Worktree(dir) => enter_loop(
                RunView {
                    stage: StageView { workdir: Some(dir), ..v.stage },
                    worktree: true,
                    ..v
                },
            ),
            _ => enter_loop(v),
        },
        Phase::Before => enter_execute(after_hook(v, "before"@, event)),
        Phase::Execute => match event {
            EventView::Failed(message) => stage_failed(v, message),
            _ => stage_done(v, output_in(event)),
        },
        Phase::ErrorLog => match event {
            EventView::Failed(message) => fail(v, message),
            _ => enter_on_error(with_error(v)),
        },
        Phase::OnError => enter_after_error(after_hook(v, "on_error"@, event)),
        Phase::AfterError => {
            let v = after_hook(v, "after"@, event);
            fail(v, failure_of(v))
        },
        Phase::OutputLog => match event {
            EventView::Failed(message) => fail(v, message),
            _ => enter_output_file(with_success(v)),
        },
        Phase::OutputFile => match event {
            EventView::Failed(message) => fail(v, message),
            _ => enter_after(v),
        },
        Phase::After => enter_decision(after_hook(v, "after"@, event)),
        Phase::Decision => match event {
            EventView::Failed(message) => fail(v, message),
            _ => decided(v, decision_in(event)),
        },
        Phase::Pause => enter_iteration(v),
        Phase::Cleanup => after_stage(
            match event {
                EventView::Failed(err) => with_note(v, "stage '"@ + v.stage.id + "': "@ + err),
                _ => v,
            },
        ),
        Phase::Remember => match event {
            EventView::Failed(message) => ended(v, Err(message)),
            _ => after_pass(v),
        },
        Phase::Rest => enter_pass(v),
        Phase::Ended => (
            v,
            ActionView::End(
                match v.failure {
                    Some(message) => Err(message),
                    None => Ok(()),
                },
            ),
        ),
    }
}

// ---------------------------------------------------------------- stepping

impl Run {
    /// A run that begins: the session is set up first.
    pub fn start(workflow: Workflow, max_iterations: Option<u32>, result: RunResult) -> (r: (
        Self,
        Action,
    ))
        requires
            stages_fit(workflow@.stages),
        ensures
            r.0@ == (RunView {
                workflow: workflow@,
                max_iterations,
                result: result@,
                phase: Phase::Start,
                passes: 0,
                at: 0,
                stage: empty_stage(),
                worktree: false,
                iteration: 0,
                delay: Span { secs: 0, nanos: 0 },
                output: Seq::empty(),
                failure: None,
                broke: false,
            }),
            r.1@ == ActionView::InitSession,
            run_ok(r.0@),
    {
        let run = Run {
            workflow,
            max_iterations,
            result,
            phase: Phase::Start,
            passes: 0,
            at: 0,
            stage: Stage::default(),
            worktree: false,
            iteration: 0,
            delay: Span { secs: 0, nanos: 0 },
            output: String::new(),
            failure: None,
            broke: false,
        };
        (run, Action::InitSession)
    }

    fn ended(&mut self, result: Result<(), String>) -> (r: Action)
        ensures
            (final(self)@, r@) == ended(
                old(self)@,
                match result {
                    Ok(()) => Ok::<(), Seq<char>>(()),
                    Err(message) => Err(message@),
                },
            ),
    {
        self.phase = Phase::Ended;
        self.failure = match &result {
            Ok(()) => None,
            Err(message) => Some(message.clone()),
        };
        Action::End(result)
    }

    fn hook(&mut self, phase: Phase, command: &str) -> (r: Action)
        ensures
            (final(self)@, r@) == hook(old(self)@, phase, command@),
    {
        self.phase = phase;
        Action::RunHook(hook_stage(&self.stage, command))
    }

    fn fail(&mut self, message: String) -> (r: Action)
        ensures
            (final(self)@, r@) == fail(old(self)@, message@),
    {
        if self.worktree {
            self.failure = Some(message);
            self.phase = Phase::Cleanup;
            Action::RemoveWorktree
        } else {
            self.ended(Err(message))
        }
    }

    fn fail_as_noted(&mut self) -> (r: Action)
        ensures
            (final(self)@, r@) == fail(old(self)@, failure_of(old(self)@)),
    {
        let message = match &self.failure {
            Some(message) => message.clone(),
            None => String::new(),
        };
        self.fail(message)
    }

    fn after_pass(&mut self) -> (r: Action)
        requires
            stages_fit(old(self)@.workflow.stages),
        ensures
            (final(self)@, r@) == after_pass(old(self)@),
    {
        reveal(after_pass);
        if another_pass(&self.workflow, self.max_iterations, self.passes, self.broke) {
            self.phase = Phase::Rest;
            Action::Rest(self.workflow.interval())
        } else {
            self.ended(Ok(()))
        }
    }

    fn enter_pass_end(&mut self) -> (r: Action)
        requires
            stages_fit(old(self)@.workflow.stages),
        ensures
            (final(self)@, r@) == enter_pass_end(old(self)@),
    {
        reveal(enter_pass_end);
        if self.workflow.memory {
            self.phase = Phase::Remember;
            Action::Remember
        } else {
            self.after_pass()
        }
    }

    fn enter_execute(&mut self) -> (r: Action)
        ensures
            (final(self)@, r@) == enter_execute(old(self)@),
    {
        self.phase = Phase::Execute;
        Action::Execute
    }

    fn enter_iteration(&mut self) -> (r: Action)
        ensures
            (final(self)@, r@) == enter_iteration(old(self)@),
    {
        reveal(enter_iteration);
        if self.iteration < u32::MAX {
            self.iteration += 1;
        }
        match clone_opt(&self.stage.before) {
            Some(command) => self.hook(Phase::Before, command.as_str()),
            None => self.enter_execute(),
        }
    }

    fn enter_loop(&mut self) -> (r: Action)
        requires
            stage_fits(old(self)@.stage),
        ensures
            (final(self)@, r@) == enter_loop(old(self)@),
    {
        reveal(enter_loop);
        if self.stage.loop_stage {
            match self.stage.loop_interval_duration() {
                Ok(delay) => {
                    self.delay = delay;
                },
                Err(err) => {
                    let message = cat4(
                        "stage '",
                        self.stage.id.as_str(),
                        "' has invalid loop interval: ",
                        err.as_str(),
                    );
                    return self.fail(message);
                },
            }
        }
        self.enter_iteration()
    }

    fn enter_stage(&mut self, from: usize) -> (r: Action)
        requires
            stages_fit(old(self)@.workflow.stages),
        ensures
            (final(self)@, r@) == enter_stage(old(self)@, from as int),
    {
        reveal(enter_stage);
        let count: usize = self.workflow.stages.len();
        proof {
            assert(self@.workflow.stages.len() == count);
            stage_runs_when_ready(
                self@.workflow.stages,
                from as int,
                self@.result.outputs,
                self@.result.success,
            );
        }
        match next_stage(&self.workflow, &self.result, from) {
            NextStage::Finished => {
                self.broke = false;
                self.enter_pass_end()
            },
            NextStage::NoValue(i) => {
                self.phase = Phase::Ended;
                self.at = i;
                Action::NoValue(i)
            },
            NextStage::Run(i) => {
                assert(self@.workflow.stages[i as int] == self.workflow.stages@[i as int]@);
                self.at = i;
                self.stage = self.workflow.stages[i].copied();
                self.worktree = false;
                self.iteration = 0;
                self.failure = None;
                self.broke = false;
                if has_own_worktree(&self.stage) {
                    self.phase = Phase::Worktree;
                    Action::MakeWorktree
                } else {
                    self.enter_loop()
                }
            },
        }
    }

    fn enter_pass(&mut self) -> (r: Action)
        requires
            stages_fit(old(self)@.workflow.stages),
        ensures
            (final(self)@, r@) == enter_pass(old(self)@),
    {
        reveal(enter_pass);
        if self.passes < u32::MAX {
            self.passes += 1;
        }
        if self.workflow.memory {
            self.phase = Phase::Recall;
            Action::Recall
        } else {
            self.enter_stage(0)
        }
    }

    fn after_stage(&mut self) -> (r: Action)
        requires
            stages_fit(old(self)@.workflow.stages),
            old(self)@.at < old(self)@.workflow.stages.len(),
        ensures
            (final(self)@, r@) == after_stage(old(self)@),
    {
        reveal(after_stage);
        match clone_opt(&self.failure) {
            Some(message) => self.ended(Err(message)),
            None => {
                if self.broke {
                    self.enter_pass_end()
                } else {
                    let count: usize = self.workflow.stages.len();
                    assert(self.at < count);
                    let next: usize = self.at + 1;
                    self.enter_stage(next)
                }
            },
        }
    }

    fn leave_stage(&mut self) -> (r: Action)
        requires
            stages_fit(old(self)@.workflow.stages),
            old(self)@.at < old(self)@.workflow.stages.len(),
        ensures
            (final(self)@, r@) == leave_stage(old(self)@),
    {
        reveal(leave_stage);
        if self.worktree {
            self.phase = Phase::Cleanup;
            Action::RemoveWorktree
        } else {
            self.after_stage()
        }
    }

    fn enter_finish(&mut self) -> (r: Action)
        requires
            stages_fit(old(self)@.workflow.stages),
            old(self)@.at < old(self)@.workflow.stages.len(),
        ensures
            (final(self)@, r@) == enter_finish(old(self)@),
    {
        reveal(enter_finish);
        let turn = finish_iteration(
            &self.workflow,
            &self.stage,
            &mut self.result,
            self.output.as_str(),
            self.iteration,
        );
        match turn {
            IterationOutcome::ContinueLoop => {
                self.phase = Phase::Pause;
                Action::Pause(self.delay)
            },
            IterationOutcome::BreakWorkflow => {
                self.broke = true;
                self.leave_stage()
            },
            IterationOutcome::StageComplete => {
                self.broke = false;
                self.leave_stage()
            },
        }
    }

    fn enter_decision(&mut self) -> (r: Action)
        requires
            stages_fit(old(self)@.workflow.stages),
            old(self)@.at < old(self)@.workflow.stages.len(),
        ensures
            (final(self)@, r@) == enter_decision(old(self)@),
    {
        reveal(enter_decision);
        if self.stage.hitl {
            self.phase = Phase::Decision;
            Action::Ask(hitl_request(&self.workflow, &self.stage, &self.result))
        } else {
            self.enter_finish()
        }
    }

    fn decided(&mut self, decision: Option<&str>) -> (r: Action)
        requires
            stages_fit(old(self)@.workflow.stages),
            old(self)@.at < old(self)@.workflow.stages.len(),
        ensures
            (final(self)@, r@) == decided(old(self)@, opt_str(decision)),
    {
        reveal(decided);
        match check_decision(&self.stage, decision) {
            Err(message) => self.fail(message),
            Ok(accepted) => match record_decision(&self.stage, &mut self.result, accepted) {
                Err(message) => self.fail(message),
                Ok(()) => self.enter_finish(),
            },
        }
    }

    fn enter_after(&mut self) -> (r: Action)
        requires
            stages_fit(old(self)@.workflow.stages),
            old(self)@.at < old(self)@.workflow.stages.len(),
        ensures
            (final(self)@, r@) == enter_after(old(self)@),
    {
        match clone_opt(&self.stage.after) {
            Some(command) => self.hook(Phase::After, command.as_str()),
            None => self.enter_decision(),
        }
    }

    fn enter_output_file(&mut self) -> (r: Action)
        requires
            stages_fit(old(self)@.workflow.stages),
            old(self)@.at < old(self)@.workflow.stages.len(),
        ensures
            (final(self)@, r@) == enter_output_file(old(self)@),
    {
        match clone_opt(&self.stage.output) {
            Some(target) => {
                self.phase = Phase::OutputFile;
                Action::WriteFile(output_file_path(&self.workflow, &self.stage, target.as_str()))
            },
            None => self.enter_after(),
        }
    }

    fn enter_after_error(&mut self) -> (r: Action)
        ensures
            (final(self)@, r@) == enter_after_error(old(self)@),
    {
        match clone_opt(&self.stage.after) {
            Some(command) => self.hook(Phase::AfterError, command.as_str()),
            None => self.fail_as_noted(),
        }
    }

    fn enter_on_error(&mut self) -> (r: Action)
        ensures
            (final(self)@, r@) == enter_on_error(old(self)@),
    {
        match clone_opt(&self.stage.on_error) {
            Some(command) => self.hook(Phase::OnError, command.as_str()),
            None => self.enter_after_error(),
        }
    }

    fn after_hook(&mut self, name: &str, event: &Event)
        ensures
            final(self)@ == after_hook(old(self)@, name@, event@),
    {
        if let Event::Failed(err) = event {
            hook_failed(&mut self.result, self.stage.id.as_str(), name, err.as_str());
        }
    }

    fn note(&mut self, note: String)
        ensures
            final(self)@ == with_note(old(self)@, note@),
    {
        broadcast use group_texts;

        self.result.errors.push(note);
    }

    fn record_error(&mut self)
        ensures
            final(self)@ == with_error(old(self)@),
    {
        let message = match &self.failure {
            Some(message) => message.clone(),
            None => String::new(),
        };
        self.result.set_error(self.stage.id.as_str(), message);
    }

    fn record_success(&mut self)
        ensures
            final(self)@ == with_success(old(self)@),
    {
        self.result.set_success(self.stage.id.as_str(), self.output.clone());
    }

    fn recall(&mut self, memory: &WorkflowMemory)
        ensures
            final(self)@ == with_memory(old(self)@, latest(memory.entries@)),
    {
        memory.inject_last(&mut self.result.outputs);
    }

    /// Takes in what came of the last action, and says what is done next.
    pub fn step(&mut self, event: Event) -> (r: Action)
        requires
            run_ok(old(self)@),
        ensures
            (final(self)@, r@) == next_step(old(self)@, event@),
            run_ok(final(self)@),
    {
        let count: usize = self.workflow.stages.len();
        proof {
            assert(self@.workflow.stages.len() == count);
            steps_keep_runs_ok(self@, event@);
        }
        match self.phase {
            Phase::Start => match event {
                Event::Failed(message) => self.ended(Err(message)),
                _ => self.enter_pass(),
            },
            Phase::Recall => match event {
                Event::Failed(message) => self.ended(Err(message)),
                Event::Recalled(memory) => {
                    self.recall(&memory);
                    self.enter_stage(0)
                },
                _ => self.enter_stage(0),
            },
            Phase::Worktree => match event {
                Event::Failed(message) => self.ended(Err(message)),
                Event::Worktree(dir) => {
                    self.stage = stage_in(&self.stage, dir.as_str());
                    self.worktree = true;
                    self.enter_loop()
                },
                _ => self.enter_loop(),
            },
            Phase::Before => {
                self.after_hook("before", &event);
                self.enter_execute()
            },
            Phase::Execute => match event {
                Event::Failed(message) => {
                    self.phase = Phase::ErrorLog;
                    self.failure = Some(message.clone());
                    Action::WriteLog(message)
                },
                _ => {
                    let output = match event {
                        Event::Output(output) => output,
                        _ => String::new(),
                    };
                    self.phase = Phase::OutputLog;
                    self.output = output.clone();
                    Action::WriteLog(output)
                },
            },
            Phase::ErrorLog => match event {
                Event::Failed(message) => self.fail(message),
                _ => {
                    self.record_error();
                    self.enter_on_error()
                },
            },
            Phase::OnError => {
                self.after_hook("on_error", &event);
                self.enter_after_error()
            },
            Phase::AfterError => {
                self.after_hook("after", &event);
                self.fail_as_noted()
            },
            Phase::OutputLog => match event {
                Event::Failed(message) => self.fail(message),
                _ => {
                    self.record_success();
                    self.enter_output_file()
                },
            },
            Phase::OutputFile => match event {
                Event::Failed(message) => self.fail(message),
                _ => self.enter_after(),
            },
            Phase::After => {
                self.after_hook("after", &event);
                self.enter_decision()
            },
            Phase::Decision => match event {
                Event::Failed(message) => self.fail(message),
                _ => {
                    let decision = match event {
                        Event::Decided(decision) => decision,
                        _ => None,
                    };
                    self.decided(as_str_opt(&decision))
                },
            },
            Phase::Pause => self.enter_iteration(),
            Phase::Cleanup => {
                if let Event::Failed(err) = &event {
                    let note = cat4("stage '", self.stage.id.as_str(), "': ", err.as_str());
                    self.note(note);
                }
                self.after_stage()
            },
            Phase::Remember => match event {
                Event::Failed(message) => self.ended(Err(message)),
                _ => self.after_pass(),
            },
            Phase::Rest => self.enter_pass(),
            Phase::Ended => match clone_opt(&self.failure) {
                Some(message) => Action::End(Err(message)),
                None => Action::End(Ok(())),
            },
        }
    }
}

// ---------------------------------------------------------------- laws

/// Whether a run may stand at its stage.
pub open spec fn at_stage(v: RunView) -> bool {
    &&& stages_fit(v.workflow.stages)
    &&& v.workflow.stages.len() <= usize::MAX
    &&& v.at < v.workflow.stages.len()
    &&& v.stage == (StageView { workdir: v.stage.workdir, ..v.workflow.stages[v.at as int] })
}

proof fn loop_keeps_ok(v: RunView)
    requires
        at_stage(v),
    ensures
        run_ok(enter_loop(v).0),
        run_ok(enter_iteration(v).0),
{
    reveal(enter_loop);
    reveal(enter_iteration);
}

proof fn pass_end_keeps_ok(v: RunView)
    requires
        stages_fit(v.workflow.stages),
    ensures
        run_ok(enter_pass_end(v).0),
        run_ok(after_pass(v).0),
{
    reveal(enter_pass_end);
    reveal(after_pass);
}

proof fn stage_entry_keeps_ok(v: RunView, from: int)
    requires
        stages_fit(v.workflow.stages),
        0 <= from,
        v.workflow.stages.len() <= usize::MAX,
    ensures
        run_ok(enter_stage(v, from).0),
{
    reveal(enter_stage);
    stage_runs_when_ready(v.workflow.stages, from, v.result.outputs, v.result.success);
    match next_stage_from(v.workflow.stages, from, v.result.outputs, v.result.success) {
        NextStage::Finished => pass_end_keeps_ok(RunView { broke: false, ..v }),
        NextStage::NoValue(i) => {},
        NextStage::Run(i) => loop_keeps_ok(
            RunView {
                at: i,
                stage: v.workflow.stages[i as int],
                worktree: false,
                iteration: 0,
                failure: None,
                broke: false,
                ..v
            },
        ),
    }
}

proof fn pass_keeps_ok(v: RunView)
    requires
        stages_fit(v.workflow.stages),
        v.workflow.stages.len() <= usize::MAX,
    ensures
        run_ok(enter_pass(v).0),
{
    reveal(enter_pass);
    stage_entry_keeps_ok(RunView { passes: one_more(v.passes), ..v }, 0);
}

proof fn stage_end_keeps_ok(v: RunView)
    requires
        at_stage(v),
    ensures
        run_ok(after_stage(v).0),
        run_ok(leave_stage(v).0),
{
    reveal(after_stage);
    reveal(leave_stage);
    stage_entry_keeps_ok(v, v.at + 1);
    pass_end_keeps_ok(v);
}

proof fn turn_end_keeps_ok(v: RunView)
    requires
        at_stage(v),
    ensures
        run_ok(enter_finish(v).0),
        run_ok(enter_decision(v).0),
{
    reveal(enter_finish);
    reveal(enter_decision);
    let broke = breaks(v.workflow.vars, v.stage.break_when, v.result.outputs, v.output);
    let turn = iteration_outcome(v.stage, broke, v.iteration);
    let v2 = RunView {
        result: ResultView {
            outputs: outputs_after_iteration(v.stage, v.result.outputs, turn, v.iteration),
            ..v.result
        },
        ..v
    };
    stage_end_keeps_ok(RunView { broke: true, ..v2 });
    stage_end_keeps_ok(RunView { broke: false, ..v2 });
}

proof fn decision_keeps_ok(v: RunView, decision: Option<Seq<char>>)
    requires
        at_stage(v),
    ensures
        run_ok(decided(v, decision).0),
{
    reveal(decided);
    let said = match decision {
        Some(decision) => decision,
        None => "skipped"@,
    };
    if let Ok(accepted) = accepted_decision(v.stage, said) {
        turn_end_keeps_ok(with_decision(v, accepted));
    }
}

/// Every step of a run leaves it standing at one of its workflow's stages.
pub proof fn steps_keep_runs_ok(v: RunView, event: EventView)
    requires
        run_ok(v),
        v.workflow.stages.len() <= usize::MAX,
    ensures
        run_ok(next_step(v, event).0),
{
    match v.phase {
        Phase::Start => pass_keeps_ok(v),
        Phase::Recall => {
            stage_entry_keeps_ok(v, 0);
            if let EventView::Recalled(remembered) = event {
                stage_entry_keeps_ok(with_memory(v, remembered), 0);
            }
        },
        Phase::Worktree => {
            loop_keeps_ok(v);
            if let EventView::Worktree(dir) = event {
                loop_keeps_ok(
                    RunView {
                        stage: StageView { workdir: Some(dir), ..v.stage },
                        worktree: true,
                        ..v
                    },
                );
            }
        },
        Phase::OutputLog => turn_end_keeps_ok(with_success(v)),
        Phase::OutputFile => turn_end_keeps_ok(v),
        Phase::After => turn_end_keeps_ok(after_hook(v, "after"@, event)),
        Phase::Decision => decision_keeps_ok(v, decision_in(event)),
        Phase::Pause => loop_keeps_ok(v),
        Phase::Cleanup => {
            stage_end_keeps_ok(v);
            if let EventView::Failed(err) = event {
                stage_end_keeps_ok(with_note(v, "stage '"@ + v.stage.id + "': "@ + err));
            }
        },
        Phase::Remember => pass_end_keeps_ok(v),
        Phase::Rest => pass_keeps_ok(v),
        _ => {},
    }
}

} // verus!
