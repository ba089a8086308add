//! What is shown of a run that has ended.
use crate::result::{ResultView, RunResult};
use crate::strmap::lookup;
use crate::text::{cat2, group_texts, texts};
use crate::workflow::{StageView, Workflow};
use vstd::prelude::*;

verus! {

/// The line of a stage: whether it succeeded, and its id.
pub open spec fn stage_line(success: Seq<(Seq<char>, bool)>, id: Seq<char>) -> Seq<char> {
    if lookup(success, id) == Some(true) {
        "ok "@ + id
    } else {
        "skip/fail "@ + id
    }
}

/// The lines of the stages.
pub open spec fn stage_lines(success: Seq<(Seq<char>, bool)>, stages: Seq<StageView>) -> Seq<
    Seq<char>,
> {
    Seq::new(stages.len(), |i: int| stage_line(success, stages[i].id))
}

/// The lines of the errors, with their heading, where there are any.
pub open spec fn error_lines(errors: Seq<Seq<char>>) -> Seq<Seq<char>> {
    if errors.len() == 0 {
        Seq::empty()
    } else {
        seq!["\nerrors:"@] + Seq::new(errors.len(), |i: int| "- "@ + errors[i])
    }
}

/// The lines that are shown of a run.
pub open spec fn run_lines(stages: Seq<StageView>, result: ResultView) -> Seq<Seq<char>> {
    seq!["session="@ + result.session_id] + stage_lines(result.success, stages) + error_lines(
        result.errors,
    )
}

/// The lines that are shown of a run: its session, its stages in their order, and
/// its errors.
pub fn run_report(workflow: &Workflow, result: &RunResult) -> (r: Vec<String>)
    ensures
        texts(r@) == run_lines(workflow@.stages, result@),
{
    broadcast use group_texts;

    let ghost stages = workflow@.stages;
    let ghost ended = result@;
    let mut lines: Vec<String> = Vec::new();
    lines.push(cat2("session=", result.session_id.as_str()));
    let ghost head = seq!["session="@ + ended.session_id];
    let ghost told = stage_lines(ended.success, stages);
    assert(texts(lines@) =~= head + told.take(0));
    let mut i: usize = 0;
    while i < workflow.stages.len()
        invariant
            i <= workflow.stages@.len(),
            stages == workflow@.stages,
            ended == result@,
            told == stage_lines(ended.success, stages),
            texts(lines@) == head + told.take(i as int),
        decreases workflow.stages@.len() - i,
    {
        let id = workflow.stages[i].id.as_str();
        let succeeded = match result.success.get(id) {
            Some(ok) => *ok,
            None => false,
        };
        let line = if succeeded {
            cat2("ok ", id)
        } else {
            cat2("skip/fail ", id)
        };
        let ghost before = texts(lines@);
        let ghost added = line@;
        assert(added == told[i as int]);
        lines.push(line);
        assert(texts(lines@) =~= before.push(added));
        assert(head + told.take(i + 1) =~= before.push(added));
        i += 1;
    }
    assert(told.take(i as int) =~= told);
    if result.errors.len() == 0 {
        assert(texts(lines@) =~= run_lines(stages, ended));
        return lines;
    }
    lines.push("\nerrors:".to_owned());
    let ghost start = head + told + seq!["\nerrors:"@];
    assert(texts(lines@) =~= start);
    let ghost faults = Seq::new(ended.errors.len(), |i: int| "- "@ + ended.errors[i]);
    assert(start + faults.take(0) =~= start);
    let mut i: usize = 0;
    while i < result.errors.len()
        invariant
            i <= result.errors@.len(),
            ended == result@,
            faults == Seq::new(ended.errors.len(), |i: int| "- "@ + ended.errors[i]),
            texts(lines@) == start + faults.take(i as int),
        decreases result.errors@.len() - i,
    {
        let line = cat2("- ", result.errors[i].as_str());
        let ghost before = texts(lines@);
        let ghost added = line@;
        assert(added == faults[i as int]);
        lines.push(line);
        assert(texts(lines@) =~= before.push(added));
        assert(start + faults.take(i + 1) =~= before.push(added));
        i += 1;
    }
    assert(faults.take(i as int) =~= faults);
    assert(texts(lines@) =~= run_lines(stages, ended));
    lines
}

/// The report of a run names its session, then each stage in its order with whether it
/// succeeded, then the errors.
pub proof fn reports_tell_all(stages: Seq<StageView>, result: ResultView, i: int)
    ensures
        run_lines(stages, result)[0] == "session="@ + result.session_id,
        0 <= i < stages.len() ==> run_lines(stages, result)[1 + i] == if lookup(
            result.success,
            stages[i].id,
        ) == Some(true) {
            "ok "@ + stages[i].id
        } else {
            "skip/fail "@ + stages[i].id
        },
        result.errors.len() == 0 ==> run_lines(stages, result).len() == 1 + stages.len(),
        result.errors.len() > 0 ==> run_lines(stages, result).len() == 2 + stages.len()
            + result.errors.len() && run_lines(stages, result)[1 + stages.len() as int]
            == "\nerrors:"@,
        0 <= i < result.errors.len() ==> run_lines(stages, result)[2 + stages.len() as int + i]
            == "- "@ + result.errors[i],
{
}

} // verus!
