//! What holds of the parts of a stage, of their items and of the vote on them.
use crate::executor::output_key;
use crate::fanout::{
    candidates_text, each_items_of, each_parts_of, first_missing, fork_parts_of, gathered,
    gathered_outputs, items_in, outputs_with_parts, part_outputs, part_workdir, split_text,
    vote_view, with_part_successes, with_parts, PartsView,
};
use crate::expr::substituted;
use crate::number::decimal;
use crate::providers::{fault, ErrorView};
use crate::strmap::{lookup, put_spec};
use crate::text::laws::{
    held_text_stands_somewhere, items_of_two, joined_of_two, one_item, sides_make_up_text,
};
use crate::text::{blank, holds_text, joined, split_at_first, trimmed, CharSet};
use crate::workflow::StageView;
use vstd::prelude::*;

verus! {

type Texts = Seq<(Seq<char>, Seq<char>)>;

// ---------------------------------------------------------------- parts

/// A stage with forks has that many parts, with the variables of the stage; its
/// models are dealt out in turn, and everything else stays.
pub proof fn forks_share_the_stage(stage: StageView, vars: Texts, forks: nat, i: int)
    requires
        0 <= i < forks,
    ensures
        fork_parts_of(stage, vars, forks).len() == forks,
        ({
            let part = fork_parts_of(stage, vars, forks)[i];
            &&& part.vars == vars
            &&& stage.models.len() == 0 ==> part.stage.model == stage.model
            &&& stage.models.len() > 0 ==> part.stage.model == Some(
                stage.models[i % (stage.models.len() as int)],
            )
            &&& part.stage.id == stage.id && part.stage.provider == stage.provider
                && part.stage.command == stage.command && part.stage.args == stage.args
                && part.stage.env == stage.env && part.stage.do_prompt == stage.do_prompt
                && part.stage.timeout == stage.timeout && part.stage.retry == stage.retry
            &&& stage.worktree is None ==> part.stage.workdir == stage.workdir
                && part.stage.worktree is None
            &&& stage.worktree matches Some(branch) ==> part.stage.worktree == Some(
                branch + "-fork-"@ + decimal(i as nat),
            )
        }),
{
}

/// A stage with items has one part for each, which has the item as its variable
/// `each`.
pub proof fn each_part_has_its_item(
    stage: StageView,
    vars: Texts,
    items: Seq<Seq<char>>,
    i: int,
    key: Seq<char>,
)
    requires
        0 <= i < items.len(),
    ensures
        each_parts_of(stage, vars, items).len() == items.len(),
        ({
            let part = each_parts_of(stage, vars, items)[i];
            &&& lookup(part.vars, "each"@) == Some(items[i])
            &&& key != "each"@ ==> lookup(part.vars, key) == lookup(vars, key)
            &&& part.stage.id == stage.id && part.stage.provider == stage.provider
                && part.stage.command == stage.command && part.stage.args == stage.args
                && part.stage.model == stage.model && part.stage.do_prompt == stage.do_prompt
            &&& stage.worktree matches Some(branch) ==> part.stage.worktree == Some(
                branch + "-each-"@ + decimal(i as nat),
            )
        }),
{
    put_spec(vars, "each"@, items[i]);
}

/// The items that a stage lists go before the output that it names; an output that
/// is not there has none.
pub proof fn items_are_listed_or_read(stage: StageView, vars: Texts, outputs: Texts)
    ensures
        stage.each.len() > 0 ==> (each_items_of(stage, vars, outputs) matches Ok(items)
            && items.len() == stage.each.len() && forall|i: int|
            0 <= i < items.len() ==> #[trigger] items[i] == substituted(
                stage.each[i],
                vars,
                outputs,
            )),
        stage.each.len() == 0 ==> (stage.each_from matches Some(source) ==> (lookup(
            outputs,
            source,
        ) matches Some(raw) ==> each_items_of(stage, vars, outputs) == Ok::<
            Seq<Seq<char>>,
            ErrorView,
        >(items_in(raw)))),
        stage.each.len() == 0 && stage.each_from is None ==> each_items_of(
            stage,
            vars,
            outputs,
        ) is Err,
{
}

/// The items of an output without rules are its lines, without blank ones: those of
/// two outputs, one below the other, are those of the one and those of the other.
pub proof fn items_are_lines(a: Seq<char>, b: Seq<char>)
    requires
        !holds_text(a + seq!['\n'] + b, "\n---\n"@),
        !holds_text(a, "\n---\n"@),
        !holds_text(b, "\n---\n"@),
    ensures
        items_in(a + seq!['\n'] + b) == items_in(a) + items_in(b),
        !b.contains('\n') && !blank(b) ==> items_in(b) == seq![trimmed(b)],
        !b.contains('\n') && blank(b) ==> items_in(b).len() == 0,
{
    let set = CharSet::Only('\n');
    items_of_two(a, '\n', b, set);
    if !b.contains('\n') {
        assert forall|i: int| 0 <= i < b.len() implies !set.has(#[trigger] b[i]) by {
            assert(b.contains(b[i]));
        }
        one_item(b, set);
    }
}

// ---------------------------------------------------------------- outcomes

proof fn missing_is_missing(slots: Seq<Option<Seq<char>>>, i: int)
    requires
        0 <= i <= slots.len(),
    ensures
        i <= first_missing(slots, i) <= slots.len(),
        forall|k: int| i <= k < first_missing(slots, i) ==> (#[trigger] slots[k]) is Some,
        first_missing(slots, i) < slots.len() ==> slots[first_missing(slots, i)] is None,
    decreases slots.len() - i,
{
    if i < slots.len() && slots[i] is Some {
        missing_is_missing(slots, i + 1);
    }
}

/// The parts of a stage come to its output if and only if none failed and each has
/// one: joined in their order, or put to a vote.
pub proof fn all_parts_make_the_output(
    stage: StageView,
    vars: Texts,
    outputs: Texts,
    slots: Seq<Option<Seq<char>>>,
    first_error: Option<ErrorView>,
    kind: Seq<char>,
)
    ensures
        first_error matches Some(e) ==> gathered(
            stage,
            vars,
            outputs,
            slots,
            first_error,
            kind,
        ) == Err::<PartsView, ErrorView>(e),
        first_error is None && (exists|i: int| 0 <= i < slots.len() && (#[trigger] slots[i]) is None)
            ==> gathered(stage, vars, outputs, slots, first_error, kind) is Err,
        first_error is None && (forall|i: int|
            0 <= i < slots.len() ==> (#[trigger] slots[i]) is Some) && stage.vote is None
            ==> gathered(stage, vars, outputs, slots, first_error, kind) == Ok::<
            PartsView,
            ErrorView,
        >(
            PartsView::Done(
                joined(Seq::new(slots.len(), |i: int| slots[i]->0), "\n---\n"@),
            ),
        ),
        first_error is None && (forall|i: int|
            0 <= i < slots.len() ==> (#[trigger] slots[i]) is Some) && stage.vote is Some ==> (
        gathered(stage, vars, outputs, slots, first_error, kind) matches Ok(PartsView::Vote(vote))
            && vote.provider == "llm"@ && vote.id == stage.id + ".vote"@),
{
    missing_is_missing(slots, 0);
    let n = first_missing(slots, 0);
    if exists|i: int| 0 <= i < slots.len() && (#[trigger] slots[i]) is None {
        let i = choose|i: int| 0 <= i < slots.len() && (#[trigger] slots[i]) is None;
        assert(n <= i);
    }
    assert(part_outputs(slots) =~= Seq::new(slots.len(), |i: int| slots[i]->0));
}

/// The joined outputs of the parts are the output `all` of the stage.
pub proof fn joined_outputs_are_recorded(
    outputs: Texts,
    stage_id: Seq<char>,
    slots: Seq<Option<Seq<char>>>,
)
    ensures
        lookup(gathered_outputs(outputs, stage_id, slots), stage_id + ".all"@) == Some(
            joined(Seq::new(slots.len(), |i: int| slots[i]->0), "\n---\n"@),
        ),
{
    reveal_strlit(".");
    reveal_strlit("all");
    reveal_strlit(".all");
    assert(output_key(stage_id, "all"@) =~= stage_id + ".all"@);
    assert(part_outputs(slots) =~= Seq::new(slots.len(), |i: int| slots[i]->0));
    put_spec(
        with_parts(outputs, stage_id, slots, slots.len() as int),
        output_key(stage_id, "all"@),
        joined(part_outputs(slots), "\n---\n"@),
    );
}

/// Each part that has an output has succeeded.
pub proof fn parts_succeed(
    success: Seq<(Seq<char>, bool)>,
    stage_id: Seq<char>,
    n: int,
    i: int,
)
    requires
        0 <= i < n,
    ensures
        lookup(with_part_successes(success, stage_id, n), stage_id + "."@ + decimal(i as nat))
            == Some(true),
    decreases n,
{
    let before = with_part_successes(success, stage_id, n - 1);
    let key = output_key(stage_id, decimal((n - 1) as nat));
    put_spec(before, key, true);
    if i < n - 1 {
        parts_succeed(success, stage_id, n - 1, i);
    }
}

// ---------------------------------------------------------------- vote

proof fn held_in_longer(a: Seq<char>, s: Seq<char>, b: Seq<char>, p: Seq<char>)
    requires
        holds_text(s, p),
    ensures
        holds_text(a + s + b, p),
{
    held_text_stands_somewhere(s, p);
    let i = choose|i: int|
        0 <= i && i + p.len() <= s.len() && #[trigger] s.subrange(i, i + p.len()) == p;
    let t = a + s + b;
    let j = a.len() + i;
    assert(t.subrange(j, j + p.len()) =~= p);
    held_text_stands_somewhere(t, p);
}

/// Every candidate stands in the prompt of a vote, under its number.
pub proof fn candidates_are_listed(candidates: Seq<Seq<char>>, i: int)
    requires
        0 <= i < candidates.len(),
    ensures
        holds_text(
            candidates_text(candidates),
            "["@ + decimal(i as nat) + "]\n"@ + candidates[i],
        ),
    decreases candidates.len(),
{
    reveal_strlit("\n[");
    reveal_strlit("[");
    let n = (candidates.len() - 1) as nat;
    let before = candidates_text(candidates.drop_last());
    let last = "\n["@ + decimal(n) + "]\n"@ + candidates.last() + "\n"@;
    let all = candidates_text(candidates);
    let wanted = "["@ + decimal(i as nat) + "]\n"@ + candidates[i];
    assert(all =~= before + last);
    if i < n {
        candidates_are_listed(candidates.drop_last(), i);
        assert(candidates.drop_last()[i] == candidates[i]);
        let none = Seq::<char>::empty();
        held_in_longer(none, before, last, wanted);
        assert(none + before + last =~= all);
    } else {
        let a = before + seq!['\n'];
        let b = "\n"@;
        assert(all =~= a + wanted + b);
        assert(wanted.subrange(0, wanted.len() as int) =~= wanted);
        held_text_stands_somewhere(wanted, wanted);
        held_in_longer(a, wanted, b, wanted);
    }
}

/// A vote asks a language model, with the prompt of the vote before the candidates.
pub proof fn votes_are_asked(
    stage: StageView,
    vars: Texts,
    outputs: Texts,
    candidates: Seq<Seq<char>>,
)
    ensures
        stage.vote matches Some(prompt) ==> (vote_view(stage, vars, outputs, candidates) matches Ok(
            vote,
        ) && vote.provider == "llm"@ && vote.do_prompt == Some(
            substituted(prompt, vars, outputs) + "\n\nCandidates:\n"@ + candidates_text(candidates),
        ) && vote.model == stage.model && vote.system == stage.system && vote.id == stage.id
            + ".vote"@),
        stage.vote is None ==> vote_view(stage, vars, outputs, candidates) is Err,
{
}

/// A part has a directory of its own where it has a worktree, and else that of the
/// stage.
pub proof fn parts_work_somewhere(base: Option<Seq<char>>, workdir: Option<Seq<char>>)
    ensures
        base is Some ==> part_workdir(base, workdir) is None,
        base is None ==> part_workdir(base, workdir) == workdir,
{
}

/// Where every part has its output, all are recorded; where one is missing, those
/// before it are; where one failed, none is.
pub proof fn outputs_are_recorded_up_to_a_gap(
    outputs: Texts,
    stage_id: Seq<char>,
    slots: Seq<Option<Seq<char>>>,
    gap: int,
)
    requires
        0 <= gap <= slots.len(),
        forall|i: int| 0 <= i < gap ==> (#[trigger] slots[i]) is Some,
        gap < slots.len() ==> slots[gap] is None,
    ensures
        outputs_with_parts(outputs, stage_id, slots, true) == outputs,
        gap < slots.len() ==> outputs_with_parts(outputs, stage_id, slots, false) == with_parts(
            outputs,
            stage_id,
            slots,
            gap,
        ),
        gap == slots.len() ==> outputs_with_parts(outputs, stage_id, slots, false)
            == gathered_outputs(outputs, stage_id, slots),
        part_outputs(slots).len() == slots.len(),
{
    gap_is_found(slots, gap, 0);
}

proof fn gap_is_found(slots: Seq<Option<Seq<char>>>, gap: int, i: int)
    requires
        0 <= i <= gap <= slots.len(),
        forall|k: int| 0 <= k < gap ==> (#[trigger] slots[k]) is Some,
        gap < slots.len() ==> slots[gap] is None,
    ensures
        first_missing(slots, i) == gap,
    decreases gap - i,
{
    if i < gap {
        gap_is_found(slots, gap, i + 1);
    }
}

/// A text is cut at every separator, and its pieces put together make it up again.
pub proof fn pieces_make_up_text(s: Seq<char>, sep: Seq<char>)
    requires
        sep.len() > 0,
    ensures
        joined(split_text(s, sep), sep) == s,
        split_text(s, sep).len() > 0,
    decreases s.len(),
{
    sides_make_up_text(s, sep);
    if let Some((left, right)) = split_at_first(s, sep) {
        pieces_make_up_text(right, sep);
        let rest = split_text(right, sep);
        joined_of_two(seq![left], rest, sep);
        assert(joined(seq![left], sep) =~= left) by {
            assert(seq![left].drop_last() =~= Seq::<Seq<char>>::empty());
            assert(seq![left].last() == left);
        }
    } else {
        assert(seq![s].drop_last() =~= Seq::<Seq<char>>::empty());
        assert(seq![s].last() == s);
        assert(joined(seq![s], sep) =~= s);
    }
}

/// What is missing of the parts is told: their items, an output, or the prompt of the
/// vote.
pub proof fn missing_parts_are_told(
    stage: StageView,
    vars: Texts,
    outputs: Texts,
    slots: Seq<Option<Seq<char>>>,
    kind: Seq<char>,
    gap: int,
    candidates: Seq<Seq<char>>,
    candidate: Seq<char>,
)
    requires
        0 <= gap < slots.len(),
        forall|i: int| 0 <= i < gap ==> (#[trigger] slots[i]) is Some,
        slots[gap] is None,
    ensures
        stage.each.len() == 0 && stage.each_from is None ==> each_items_of(stage, vars, outputs)
            == Err::<Seq<Seq<char>>, ErrorView>(
            fault(
                "provider_exec_failed"@,
                "stage '"@ + stage.id + "' has each mode without source"@,
            ),
        ),
        gathered(stage, vars, outputs, slots, None, kind) == Err::<PartsView, ErrorView>(
            fault(
                "provider_exec_failed"@,
                kind + " item "@ + decimal(gap as nat) + " produced no output in stage '"@
                    + stage.id + "'"@,
            ),
        ),
        stage.vote is None ==> vote_view(stage, vars, outputs, candidates) == Err::<
            StageView,
            ErrorView,
        >(fault("provider_exec_failed"@, "stage '"@ + stage.id + "' missing vote prompt"@)),
        candidates_text(candidates.push(candidate)) == candidates_text(candidates) + "\n["@
            + decimal(candidates.len()) + "]\n"@ + candidate + "\n"@,
{
    gap_is_found(slots, gap, 0);
    assert(candidates.push(candidate).drop_last() =~= candidates);
}

} // verus!
