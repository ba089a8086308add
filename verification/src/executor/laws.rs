//! What holds of the turns of a stage, of its place in the run, and of decisions.
use crate::allowlist::{allowlist_from, under_ceiling};
use crate::executor::{
    accepted_decision, allowlist_set, breaks, iteration_outcome, mode_of, needs_met,
    next_stage_from, offered, offline_asked, output_key, outputs_after_iteration, placed_path,
    rejects, IterationOutcome, NextStage, StageMode,
};
use crate::expr::{subst_plain_text, when_value};
use crate::number::decimal;
use crate::strmap::{lookup, put_spec};
use crate::text::laws::blanks_go;
use crate::text::{
    find_is_first, is_space, lower_char, lowered, matches_at, split_by, trimmed, CharSet,
};
use crate::workflow::StageView;
use vstd::prelude::*;

verus! {

// ---------------------------------------------------------------- turns

/// A loop goes on as long as nothing breaks it: without a limit for ever, and with
/// one until that many turns have been made, at least one.
pub proof fn loops_repeat(stage: StageView, iteration: u32)
    requires
        stage.loop_stage,
        iteration >= 1,
    ensures
        stage.max_iterations is None ==> iteration_outcome(stage, false, iteration)
            == IterationOutcome::ContinueLoop,
        stage.max_iterations matches Some(max) ==> (iteration_outcome(stage, false, iteration)
            == IterationOutcome::ContinueLoop <==> iteration < max),
        stage.max_iterations matches Some(max) && iteration >= max ==> iteration_outcome(
            stage,
            false,
            iteration,
        ) == IterationOutcome::StageComplete,
{
}

/// A stage that is no loop makes one turn; a break ends the pass whatever the stage.
pub proof fn other_stages_make_one_turn(stage: StageView, iteration: u32)
    ensures
        !stage.loop_stage ==> iteration_outcome(stage, false, iteration)
            == IterationOutcome::StageComplete,
        iteration_outcome(stage, true, iteration) == IterationOutcome::BreakWorkflow,
{
}

/// A stage breaks where its output holds the text of `break_when`, and not without
/// one.
pub proof fn break_text_is_looked_for(
    vars: Seq<(Seq<char>, Seq<char>)>,
    text: Seq<char>,
    outputs: Seq<(Seq<char>, Seq<char>)>,
    output: Seq<char>,
)
    requires
        !text.contains('$'),
    ensures
        breaks(vars, Some(text), outputs, output) <==> exists|i: int|
            0 <= i && i + text.len() <= output.len() && #[trigger] output.subrange(
                i,
                i + text.len(),
            ) == text,
        !breaks(vars, None, outputs, output),
{
    subst_plain_text(text, vars, outputs);
    find_is_first(output, text, 0);
    if exists|i: int|
        0 <= i && i + text.len() <= output.len() && #[trigger] output.subrange(i, i + text.len())
            == text {
        let i = choose|i: int|
            0 <= i && i + text.len() <= output.len() && #[trigger] output.subrange(
                i,
                i + text.len(),
            ) == text;
        assert(matches_at(output, text, i));
    }
}

/// How often a loop has turned is an output once it ends, and nothing else changes.
pub proof fn turns_are_counted(
    stage: StageView,
    outputs: Seq<(Seq<char>, Seq<char>)>,
    ended: IterationOutcome,
    iteration: u32,
    key: Seq<char>,
)
    ensures
        ({
            let after = outputs_after_iteration(stage, outputs, ended, iteration);
            let counter = stage.id + ".iterations"@;
            &&& stage.loop_stage && ended != IterationOutcome::ContinueLoop ==> lookup(
                after,
                counter,
            ) == Some(decimal(iteration as nat))
            &&& key != counter || !stage.loop_stage || ended == IterationOutcome::ContinueLoop
                ==> lookup(after, key) == lookup(outputs, key)
        }),
{
    reveal_strlit(".");
    reveal_strlit("iterations");
    reveal_strlit(".iterations");
    assert(output_key(stage.id, "iterations"@) =~= stage.id + ".iterations"@);
    put_spec(outputs, output_key(stage.id, "iterations"@), decimal(iteration as nat));
}

// ---------------------------------------------------------------- order

/// A stage is ready where every stage that it needs has succeeded and its condition
/// holds.
pub open spec fn ready(
    stage: StageView,
    outputs: Seq<(Seq<char>, Seq<char>)>,
    success: Seq<(Seq<char>, bool)>,
) -> bool {
    &&& forall|k: int|
        0 <= k < stage.needs.len() ==> lookup(success, #[trigger] stage.needs[k]) == Some(true)
    &&& when_value(stage.when, outputs, success) == Some(true)
}

/// The next stage is the first that is ready: none that is ready is passed over,
/// and the pass ends only where no stage is left that is.
pub proof fn no_ready_stage_is_passed_over(
    stages: Seq<StageView>,
    from: int,
    i: int,
    outputs: Seq<(Seq<char>, Seq<char>)>,
    success: Seq<(Seq<char>, bool)>,
)
    requires
        0 <= from <= i < stages.len() <= usize::MAX,
        ready(stages[i], outputs, success),
    ensures
        match next_stage_from(stages, from, outputs, success) {
            NextStage::Run(k) => from <= k <= i && ready(stages[k as int], outputs, success),
            NextStage::NoValue(k) => from <= k < i && when_value(
                stages[k as int].when,
                outputs,
                success,
            ) is None,
            NextStage::Finished => false,
        },
    decreases stages.len() - from,
{
    assert(needs_met(stages[i].needs, success));
    if from < i && next_stage_from(stages, from, outputs, success) == next_stage_from(
        stages,
        from + 1,
        outputs,
        success,
    ) {
        no_ready_stage_is_passed_over(stages, from + 1, i, outputs, success);
    }
}

/// A stage that runs is ready, and a stage whose needs are not met never runs.
pub proof fn unready_stages_do_not_run(
    stages: Seq<StageView>,
    from: int,
    outputs: Seq<(Seq<char>, Seq<char>)>,
    success: Seq<(Seq<char>, bool)>,
)
    requires
        0 <= from,
        stages.len() <= usize::MAX,
    ensures
        next_stage_from(stages, from, outputs, success) matches NextStage::Run(k) ==> from <= k
            < stages.len() && ready(stages[k as int], outputs, success),
    decreases stages.len() - from,
{
    if from < stages.len() && next_stage_from(stages, from, outputs, success) == next_stage_from(
        stages,
        from + 1,
        outputs,
        success,
    ) {
        unready_stages_do_not_run(stages, from + 1, outputs, success);
    }
}

/// A stage that names another workflow runs it; else forks, then items, decide how
/// it is carried out.
pub proof fn stages_are_carried_out(stage: StageView)
    ensures
        mode_of(stage) == StageMode::Subworkflow <==> stage.workflow is Some,
        mode_of(stage) matches StageMode::Forks(n) ==> n > 0 && stage.forks == Some(n),
        stage.workflow is None && (stage.forks matches Some(n) && n > 0) ==> mode_of(stage)
            == StageMode::Forks(stage.forks->0),
        mode_of(stage) == StageMode::Each ==> stage.each.len() > 0 || stage.each_from is Some,
        stage.workflow is None && !(stage.forks matches Some(n) && n > 0) && (stage.each.len() > 0
            || stage.each_from is Some) ==> mode_of(stage) == StageMode::Each,
        mode_of(stage) == StageMode::Single ==> stage.each.len() == 0 && stage.each_from is None,
{
}

/// The directory of a stage goes before that of its workflow.
pub proof fn stage_directory_goes_first(
    target: Seq<char>,
    stage_dir: Seq<char>,
    workflow_dir: Option<Seq<char>>,
)
    ensures
        placed_path(target, Some(stage_dir), workflow_dir) == placed_path(
            target,
            Some(stage_dir),
            None,
        ),
        placed_path(target, None, Some(stage_dir)) == placed_path(target, Some(stage_dir), None),
        placed_path(target, None, None) == target,
{
}

// ---------------------------------------------------------------- decisions

/// The words that turn a stage down.
pub open spec fn turning_words() -> Seq<Seq<char>> {
    seq![
        "reject"@,
        "rejected"@,
        "deny"@,
        "denied"@,
        "stop"@,
        "abort"@,
        "no"@,
        "false"@,
    ]
}

/// Whether `said` is `word` up to the case of its letters.
pub open spec fn says(said: Seq<char>, word: Seq<char>) -> bool {
    &&& said.len() == word.len()
    &&& forall|i: int| 0 <= i < said.len() ==> lower_char(#[trigger] said[i]) == word[i]
}

/// Each of these words turns a stage down, in any case and with blanks round it.
pub proof fn turning_words_reject(
    before: Seq<char>,
    said: Seq<char>,
    behind: Seq<char>,
    word: int,
)
    requires
        0 <= word < turning_words().len(),
        says(said, turning_words()[word]),
        forall|i: int| 0 <= i < before.len() ==> is_space(#[trigger] before[i]),
        forall|i: int| 0 <= i < behind.len() ==> is_space(#[trigger] behind[i]),
    ensures
        rejects(before + said + behind),
{
    let w = turning_words()[word];
    reveal_strlit("reject");
    reveal_strlit("rejected");
    reveal_strlit("deny");
    reveal_strlit("denied");
    reveal_strlit("stop");
    reveal_strlit("abort");
    reveal_strlit("no");
    reveal_strlit("false");
    assert(lower_char(said[0]) == w[0] && lower_char(said.last()) == w.last());
    assert(!is_space(w[0]) && !is_space(w.last()));
    blanks_go(before, said, behind);
    assert(lowered(said) =~= w);
}

/// Nothing else turns a stage down.
pub proof fn other_words_do_not_reject(decision: Seq<char>)
    requires
        rejects(decision),
    ensures
        exists|word: int|
            0 <= word < turning_words().len() && says(
                trimmed(decision),
                #[trigger] turning_words()[word],
            ),
{
    let d = trimmed(decision);
    let words = turning_words();
    assert(words[0] == "reject"@ && words[1] == "rejected"@ && words[2] == "deny"@ && words[3]
        == "denied"@ && words[4] == "stop"@ && words[5] == "abort"@ && words[6] == "no"@ && words[7]
        == "false"@);
    let word = choose|word: int| 0 <= word < words.len() && lowered(d) == #[trigger] words[word];
    assert forall|i: int| 0 <= i < d.len() implies lower_char(#[trigger] d[i]) == words[word][i] by {
        assert(lowered(d)[i] == lower_char(d[i]));
    }
    assert(says(d, words[word]));
}

/// A decision is taken without the blanks round it, and must be one of the options
/// where a stage has any.
pub proof fn decisions_keep_to_options(stage: StageView, decision: Seq<char>)
    ensures
        stage.hitl_options.len() == 0 ==> accepted_decision(stage, decision) == Ok::<
            Seq<char>,
            Seq<char>,
        >(trimmed(decision)),
        accepted_decision(stage, decision) is Ok && stage.hitl_options.len() > 0 ==> exists|i: int|
            0 <= i < stage.hitl_options.len() && lowered(#[trigger] stage.hitl_options[i])
                == lowered(trimmed(decision)),
        forall|i: int|
            0 <= i < stage.hitl_options.len() && lowered(#[trigger] stage.hitl_options[i])
                == lowered(trimmed(decision)) ==> accepted_decision(stage, decision) == Ok::<
                Seq<char>,
                Seq<char>,
            >(trimmed(decision)),
        accepted_decision(stage, decision) matches Ok(d) ==> d == trimmed(decision),
{
    if accepted_decision(stage, decision) is Ok && stage.hitl_options.len() > 0 {
        assert(offered(stage.hitl_options, trimmed(decision)));
    }
}

// ---------------------------------------------------------------- node

/// The node works offline where it is told to by one of four words; which providers it
/// allows is listed between commas.
pub proof fn nodes_are_told_what_they_allow(env: Seq<(Seq<char>, Seq<char>)>)
    ensures
        lookup(env, "ANNA_OFFLINE_MODE"@) is None ==> !offline_asked(env),
        lookup(env, "ANNA_OFFLINE_MODE"@) matches Some(value) ==> (offline_asked(env) <==> {
            ||| lowered(trimmed(value)) == "1"@
            ||| lowered(trimmed(value)) == "true"@
            ||| lowered(trimmed(value)) == "yes"@
            ||| lowered(trimmed(value)) == "on"@
        }),
        lookup(env, "ANNA_ALLOWED_PROVIDERS"@) is None ==> allowlist_set(env) == under_ceiling(
            None,
            offline_asked(env),
        ),
        lookup(env, "ANNA_ALLOWED_PROVIDERS"@) matches Some(raw) ==> allowlist_set(env)
            == under_ceiling(
            allowlist_from(split_by(trimmed(raw), CharSet::Only(','))),
            offline_asked(env),
        ),
{
}

/// A decision that is not offered is told with its stage.
pub proof fn other_decisions_are_told(stage: StageView, decision: Seq<char>)
    ensures
        accepted_decision(stage, decision) matches Err(message) ==> message == "HITL decision '"@
            + trimmed(decision) + "' is not in allowed options for stage '"@ + stage.id + "'"@,
        output_key(stage.id, decision) == stage.id + "."@ + decision,
{
}

} // verus!
