//! Stages that run several times side by side: forks, items, and the vote on
//! their outputs.
use crate::executor::{output_key, stage_output_key};
use crate::expr::{subst, substituted};
use crate::number::{decimal, decimal_injective, decimal_round_trip, u64_text};
use crate::providers::{fault, outcome, render_all, rendered_all, ErrorView, ProviderError};
use crate::providers::vault::texts_outcome;
use crate::ranking::views;
use crate::result::RunResult;
use crate::strmap::{lookup, put, put_spec, StrMap};
use crate::text::{
    cat2, cat3, cat4, cat5, cat6, clone_opt, contains, find_from, find_is_first, group_texts,
    holds_text, is_digit, join, joined, joined_first, list_items, matches_at, opt_text,
    split_at_first, split_list, split_once, texts, trim_pieces, trimmed, trimmed_pieces, CharSet,
};
use crate::workflow::{empty_stage, Stage, StageView, Workflow};
use vstd::prelude::*;
use vstd::string::*;

pub mod laws;

verus! {

// ---------------------------------------------------------------- parts

/// The worktree of a part: its own branch beside that of the stage.
pub open spec fn part_worktree(base: Option<Seq<char>>, kind: Seq<char>, i: nat) -> Option<
    Seq<char>,
> {
    match base {
        Some(base) => Some(base + kind + decimal(i)),
        None => None,
    }
}

/// The directory of a part: a part with a worktree of its own has none other.
pub open spec fn part_workdir(base: Option<Seq<char>>, workdir: Option<Seq<char>>) -> Option<
    Seq<char>,
> {
    match base {
        Some(_) => None,
        None => workdir,
    }
}

/// The stage that fork `i` runs. The models of the stage are dealt out in turn.
pub open spec fn fork_view(stage: StageView, i: nat) -> StageView {
    StageView {
        forks: None,
        vote: None,
        model: if stage.models.len() > 0 {
            Some(stage.models[(i % stage.models.len()) as int])
        } else {
            stage.model
        },
        worktree: part_worktree(stage.worktree, "-fork-"@, i),
        workdir: part_workdir(stage.worktree, stage.workdir),
        ..stage
    }
}

/// The stage that fork `i` runs.
pub fn fork_stage(stage: &Stage, i: usize) -> (r: Stage)
    ensures
        r@ == fork_view(stage@, i as nat),
{
    let mut fork = stage.copied();
    fork.forks = None;
    fork.vote = None;
    if stage.models.len() > 0 {
        fork.model = Some(stage.models[i % stage.models.len()].clone());
    }
    if let Some(base) = &stage.worktree {
        let digits = u64_text(i as u64);
        fork.worktree = Some(cat3(base.as_str(), "-fork-", digits.as_str()));
        fork.workdir = None;
    }
    fork
}

/// The stage that runs for item `i`.
pub open spec fn each_view(stage: StageView, i: nat) -> StageView {
    StageView {
        each: Seq::empty(),
        each_from: None,
        vote: None,
        worktree: part_worktree(stage.worktree, "-each-"@, i),
        workdir: part_workdir(stage.worktree, stage.workdir),
        ..stage
    }
}

/// The stage that runs for item `i`.
pub fn each_stage(stage: &Stage, i: usize) -> (r: Stage)
    ensures
        r@ == each_view(stage@, i as nat),
{
    broadcast use group_texts;

    let mut part = stage.copied();
    part.each = Vec::new();
    part.each_from = None;
    part.vote = None;
    if let Some(base) = &stage.worktree {
        let digits = u64_text(i as u64);
        part.worktree = Some(cat3(base.as_str(), "-each-", digits.as_str()));
        part.workdir = None;
    }
    part
}

/// The variables for an item: it is the variable `each`.
pub fn each_vars(vars: &StrMap<String>, item: &str) -> (r: StrMap<String>)
    ensures
        r.entries() == put(vars.entries(), "each"@, item@),
{
    let mut out = vars.copied();
    out.insert("each".to_owned(), item.to_owned());
    out
}

/// No two parts of a stage with a worktree share one.
pub proof fn part_worktrees_differ(base: Seq<char>, kind: Seq<char>, i: nat, j: nat)
    requires
        i != j,
    ensures
        part_worktree(Some(base), kind, i) != part_worktree(Some(base), kind, j),
{
    let a = base + kind + decimal(i);
    let b = base + kind + decimal(j);
    if a == b {
        assert(decimal(i) =~= a.skip((base + kind).len() as int));
        assert(decimal(j) =~= b.skip((base + kind).len() as int));
        decimal_injective(i, j);
    }
}

/// A part is carried out once: it neither forks again nor has items.
pub proof fn parts_are_single(stage: StageView, i: nat)
    ensures
        fork_view(stage, i).forks is None,
        fork_view(stage, i).vote is None,
        each_view(stage, i).each.len() == 0,
        each_view(stage, i).each_from is None,
        each_view(stage, i).vote is None,
{
}

// ---------------------------------------------------------------- items

/// The pieces of `s` between occurrences of `sep`.
pub open spec fn split_text(s: Seq<char>, sep: Seq<char>) -> Seq<Seq<char>>
    decreases s.len(),
{
    match split_at_first(s, sep) {
        Some((left, right)) => if sep.len() > 0 && right.len() < s.len() {
            seq![left] + split_text(right, sep)
        } else {
            seq![s]
        },
        None => seq![s],
    }
}

fn split_all(s: &str, sep: &str) -> (r: Vec<String>)
    requires
        sep@.len() > 0,
    ensures
        texts(r@) == split_text(s@, sep@),
{
    broadcast use group_texts;

    let mut out: Vec<String> = Vec::new();
    let mut rest = s.to_owned();
    assert(texts(out@) + split_text(s@, sep@) =~= split_text(s@, sep@));
    loop
        invariant
            sep@.len() > 0,
            texts(out@) + split_text(rest@, sep@) == split_text(s@, sep@),
        decreases rest@.len(),
    {
        proof {
            find_is_first(rest@, sep@, 0);
        }
        match split_once(rest.as_str(), sep) {
            Some((left, right)) => {
                let ghost before = texts(out@);
                let next = right.to_owned();
                out.push(left.to_owned());
                assert(texts(out@) + split_text(right@, sep@) =~= before + (seq![left@]
                    + split_text(right@, sep@)));
                rest = next;
            },
            None => {
                let ghost before = texts(out@);
                let ghost last = rest@;
                out.push(rest);
                assert(texts(out@) =~= before + seq![last]);
                return out;
            },
        }
    }
}

/// The items in an output: the pieces between `---` lines, else the lines;
/// trimmed, without blank ones.
pub open spec fn items_in(raw: Seq<char>) -> Seq<Seq<char>> {
    if holds_text(raw, "\n---\n"@) {
        trimmed_pieces(split_text(raw, "\n---\n"@))
    } else {
        list_items(raw, CharSet::Only('\n'))
    }
}

pub fn split_each_items(raw: &str) -> (r: Vec<String>)
    ensures
        texts(r@) == items_in(raw@),
{
    if contains(raw, "\n---\n") {
        proof {
            reveal_strlit("\n---\n");
        }
        let pieces = split_all(raw, "\n---\n");
        trim_pieces(&pieces)
    } else {
        split_list(raw, CharSet::Only('\n'))
    }
}

/// The separator stands nowhere in an output without dashes, nor across its end.
proof fn separator_is_not_before(out: Seq<char>, rest: Seq<char>, j: int)
    requires
        !holds_text(out, "---"@),
        0 <= j < out.len(),
    ensures
        !matches_at(out + "\n---\n"@ + rest, "\n---\n"@, j),
        !matches_at(out, "\n---\n"@, j),
{
    reveal_strlit("\n---\n");
    reveal_strlit("---");
    let sep = "\n---\n"@;
    let t = out + sep + rest;
    find_is_first(out, "---"@, 0);
    if matches_at(t, sep, j) || matches_at(out, sep, j) {
        let s = if matches_at(t, sep, j) {
            t
        } else {
            out
        };
        let found = s.subrange(j, j + 5);
        assert(found[1] == s[j + 1] && found[2] == s[j + 2] && found[3] == s[j + 3]);
        assert(s[j + 1] == '-' && s[j + 2] == '-' && s[j + 3] == '-');
        if j + 3 < out.len() {
            assert(out[j + 1] == '-' && out[j + 2] == '-' && out[j + 3] == '-');
            assert(out.subrange(j + 1, j + 4) =~= "---"@);
            assert(matches_at(out, "---"@, j + 1));
        } else {
            assert(t[out.len() as int] == '\n');
            assert(s == t);
        }
    }
}

/// Outputs that were joined come apart at the separator.
proof fn joined_outputs_split(outs: Seq<Seq<char>>)
    requires
        outs.len() >= 1,
        forall|i: int| 0 <= i < outs.len() ==> !holds_text(#[trigger] outs[i], "---"@),
    ensures
        split_text(joined(outs, "\n---\n"@), "\n---\n"@) == outs,
        outs.len() >= 2 ==> holds_text(joined(outs, "\n---\n"@), "\n---\n"@),
    decreases outs.len(),
{
    reveal_strlit("\n---\n");
    let sep = "\n---\n"@;
    let first = outs[0];
    let t = joined(outs, sep);
    assert(!holds_text(first, "---"@));
    find_is_first(t, sep, 0);
    if outs.len() == 1 {
        if find_from(t, sep, 0) is Some {
            separator_is_not_before(first, Seq::empty(), find_from(t, sep, 0)->0);
        }
        assert(outs =~= seq![t]);
    } else {
        let rest = outs.skip(1);
        let tail = joined(rest, sep);
        joined_first(outs, sep);
        assert(t == first + sep + tail);
        assert(t.subrange(first.len() as int, first.len() as int + sep.len()) =~= sep);
        assert(matches_at(t, sep, first.len() as int));
        let k = find_from(t, sep, 0)->0;
        if k < first.len() {
            separator_is_not_before(first, tail, k);
        }
        assert(k == first.len());
        assert(t.take(k) =~= first);
        assert(t.skip(k + sep.len()) =~= tail);
        assert forall|i: int| 0 <= i < rest.len() implies !holds_text(
            #[trigger] rest[i],
            "---"@,
        ) by {
            assert(rest[i] == outs[i + 1]);
        }
        joined_outputs_split(rest);
        assert(seq![first] + rest =~= outs);
    }
}

proof fn trimmed_pieces_stay(pieces: Seq<Seq<char>>)
    requires
        forall|i: int|
            0 <= i < pieces.len() ==> (#[trigger] pieces[i]).len() > 0 && trimmed(pieces[i])
                == pieces[i],
    ensures
        trimmed_pieces(pieces) == pieces,
    decreases pieces.len(),
{
    if pieces.len() > 0 {
        trimmed_pieces_stay(pieces.drop_last());
        let last = pieces[pieces.len() - 1];
        assert(last.len() > 0 && trimmed(last) == last);
        assert(pieces.drop_last().push(last) =~= pieces);
    } else {
        assert(trimmed_pieces(pieces) =~= pieces);
    }
}

/// The joined outputs of the parts of a stage come apart into the same items, in
/// the same order. There are two outputs or more, and each is a text without blanks
/// at its ends and without dashes in a row.
pub proof fn joined_outputs_come_apart(outs: Seq<Seq<char>>)
    requires
        outs.len() >= 2,
        forall|i: int|
            0 <= i < outs.len() ==> (#[trigger] outs[i]).len() > 0 && trimmed(outs[i]) == outs[i]
                && !holds_text(outs[i], "---"@),
    ensures
        items_in(joined(outs, "\n---\n"@)) == outs,
{
    joined_outputs_split(outs);
    trimmed_pieces_stay(outs);
}

/// The items of a stage: those it lists, else those in the output that it
/// names.
pub open spec fn each_items_of(
    stage: StageView,
    vars: Seq<(Seq<char>, Seq<char>)>,
    outputs: Seq<(Seq<char>, Seq<char>)>,
) -> Result<Seq<Seq<char>>, ErrorView> {
    if stage.each.len() > 0 {
        Ok(rendered_all(stage.each, vars, outputs))
    } else {
        match stage.each_from {
            None => Err(
                fault(
                    "provider_exec_failed"@,
                    "stage '"@ + stage.id + "' has each mode without source"@,
                ),
            ),
            Some(source) => Ok(
                items_in(
                    match lookup(outputs, source) {
                        Some(raw) => raw,
                        None => Seq::empty(),
                    },
                ),
            ),
        }
    }
}

/// The items that the stage runs for.
pub fn each_items(stage: &Stage, vars: &StrMap<String>, outputs: &StrMap<String>) -> (r: Result<
    Vec<String>,
    ProviderError,
>)
    ensures
        texts_outcome(r) == each_items_of(stage@, vars.entries(), outputs.entries()),
{
    if stage.each.len() > 0 {
        return Ok(render_all(&stage.each, vars, outputs));
    }
    match &stage.each_from {
        None => Err(
            ProviderError::new(
                "provider_exec_failed",
                cat3("stage '", stage.id.as_str(), "' has each mode without source"),
            ),
        ),
        Some(source) => match outputs.get(source.as_str()) {
            Some(raw) => Ok(split_each_items(raw.as_str())),
            None => {
                let empty = String::new();
                Ok(split_each_items(empty.as_str()))
            },
        },
    }
}

/// A part of a stage: the stage that it runs, with its variables.
pub struct Part {
    pub stage: Stage,
    pub vars: StrMap<String>,
}

/// A part, as plain values.
pub struct PartView {
    pub stage: StageView,
    pub vars: Seq<(Seq<char>, Seq<char>)>,
}

impl View for Part {
    type V = PartView;

    open spec fn view(&self) -> PartView {
        PartView { stage: self.stage@, vars: self.vars.entries() }
    }
}

/// The parts of a stage that runs `forks` times.
pub open spec fn fork_parts_of(
    stage: StageView,
    vars: Seq<(Seq<char>, Seq<char>)>,
    forks: nat,
) -> Seq<PartView> {
    Seq::new(forks, |i: int| PartView { stage: fork_view(stage, i as nat), vars })
}

/// The parts of a stage that runs `forks` times.
pub fn fork_parts(stage: &Stage, vars: &StrMap<String>, forks: u32) -> (r: Vec<Part>)
    ensures
        views(r@) == fork_parts_of(stage@, vars.entries(), forks as nat),
{
    let mut parts: Vec<Part> = Vec::new();
    let mut i: u32 = 0;
    while i < forks
        invariant
            i <= forks,
            parts@.len() == i,
            forall|j: int|
                0 <= j < i ==> (#[trigger] parts@[j])@ == (PartView {
                    stage: fork_view(stage@, j as nat),
                    vars: vars.entries(),
                }),
        decreases forks - i,
    {
        parts.push(Part { stage: fork_stage(stage, i as usize), vars: vars.copied() });
        i += 1;
    }
    assert(views(parts@) =~= fork_parts_of(stage@, vars.entries(), forks as nat));
    parts
}

/// The parts of a stage that runs once for each item.
pub open spec fn each_parts_of(
    stage: StageView,
    vars: Seq<(Seq<char>, Seq<char>)>,
    items: Seq<Seq<char>>,
) -> Seq<PartView> {
    Seq::new(
        items.len(),
        |i: int|
            PartView { stage: each_view(stage, i as nat), vars: put(vars, "each"@, items[i]) },
    )
}

/// The parts of a stage that runs once for each item, or why there are none.
pub fn each_parts(stage: &Stage, vars: &StrMap<String>, outputs: &StrMap<String>) -> (r: Result<
    Vec<Part>,
    ProviderError,
>)
    ensures
        match each_items_of(stage@, vars.entries(), outputs.entries()) {
            Ok(items) => r is Ok && views(r->Ok_0@) == each_parts_of(
                stage@,
                vars.entries(),
                items,
            ),
            Err(e) => r is Err && r->Err_0@ == e,
        },
{
    let items = match each_items(stage, vars, outputs) {
        Ok(items) => items,
        Err(e) => {
            return Err(e);
        },
    };
    let ghost all = texts(items@);
    let mut parts: Vec<Part> = Vec::new();
    let mut i: usize = 0;
    while i < items.len()
        invariant
            i <= items@.len(),
            all == texts(items@),
            parts@.len() == i,
            forall|j: int|
                0 <= j < i ==> (#[trigger] parts@[j])@ == (PartView {
                    stage: each_view(stage@, j as nat),
                    vars: put(vars.entries(), "each"@, all[j]),
                }),
        decreases items@.len() - i,
    {
        assert(all[i as int] == items@[i as int]@);
        parts.push(Part { stage: each_stage(stage, i), vars: each_vars(vars, items[i].as_str()) });
        i += 1;
    }
    assert(views(parts@) =~= each_parts_of(stage@, vars.entries(), all));
    Ok(parts)
}

// ---------------------------------------------------------------- outputs

/// The outputs of parts, by position.
pub open spec fn slot_views(slots: Seq<Option<String>>) -> Seq<Option<Seq<char>>> {
    Seq::new(slots.len(), |i: int| opt_text(slots[i]))
}

/// What the parts of a stage have brought so far.
pub struct ParallelResults {
    pub slots: Vec<Option<String>>,
    pub first_error: Option<ProviderError>,
}

pub open spec fn opt_error(e: Option<ProviderError>) -> Option<ErrorView> {
    match e {
        Some(e) => Some(e@),
        None => None,
    }
}

impl ParallelResults {
    /// Nothing yet of `count` parts.
    pub fn new(count: usize) -> (r: Self)
        ensures
            r.slots@.len() == count,
            forall|i: int| 0 <= i < count ==> slot_views(r.slots@)[i] is None,
            r.first_error is None,
    {
        let mut slots: Vec<Option<String>> = Vec::new();
        let mut i: usize = 0;
        while i < count
            invariant
                i <= count,
                slots@.len() == i,
                forall|k: int| 0 <= k < i ==> slots@[k] is None,
            decreases count - i,
        {
            slots.push(None);
            i += 1;
        }
        ParallelResults { slots, first_error: None }
    }

    /// Records the output of a part.
    pub fn record_output(&mut self, i: usize, output: String)
        requires
            i < old(self).slots@.len(),
        ensures
            slot_views(final(self).slots@) == slot_views(old(self).slots@).update(
                i as int,
                Some(output@),
            ),
            final(self).first_error == old(self).first_error,
    {
        let ghost before = slot_views(self.slots@);
        self.slots.set(i, Some(output));
        assert(slot_views(self.slots@) =~= before.update(i as int, Some(output@)));
    }

    /// Records the error of a part: the first one stays.
    pub fn record_error(&mut self, err: ProviderError)
        ensures
            final(self).slots == old(self).slots,
            opt_error(final(self).first_error) == match old(self).first_error {
                Some(first) => Some(first@),
                None => Some(err@),
            },
    {
        if self.first_error.is_none() {
            self.first_error = Some(err);
        }
    }

    /// Records that a part did not come to an end.
    pub fn record_lost(&mut self, kind: &str, stage_id: &str, why: &str)
        ensures
            final(self).slots == old(self).slots,
            opt_error(final(self).first_error) == match old(self).first_error {
                Some(first) => Some(first@),
                None => Some(
                    fault(
                        "provider_exec_failed"@,
                        kind@ + " task failed in stage '"@ + stage_id@ + "': "@ + why@,
                    ),
                ),
            },
    {
        let err = ProviderError::new(
            "provider_exec_failed",
            cat5(kind, " task failed in stage '", stage_id, "': ", why),
        );
        self.record_error(err);
    }

    /// The outputs by position, or the first error.
    pub fn finish(self) -> (r: Result<Vec<Option<String>>, ProviderError>)
        ensures
            match r {
                Ok(slots) => self.first_error is None && slots == self.slots,
                Err(e) => opt_error(self.first_error) == Some(e@),
            },
    {
        match self.first_error {
            Some(err) => Err(err),
            None => Ok(self.slots),
        }
    }
}

/// The position of the first part without an output.
pub open spec fn first_missing(slots: Seq<Option<Seq<char>>>, i: int) -> int
    decreases slots.len() - i,
{
    if i < 0 || i >= slots.len() || slots[i] is None {
        i
    } else {
        first_missing(slots, i + 1)
    }
}

/// The outputs with those of the first `n` parts, each under its position.
pub open spec fn with_parts(
    outputs: Seq<(Seq<char>, Seq<char>)>,
    stage_id: Seq<char>,
    slots: Seq<Option<Seq<char>>>,
    n: int,
) -> Seq<(Seq<char>, Seq<char>)>
    decreases n,
{
    if n <= 0 {
        outputs
    } else {
        put(
            with_parts(outputs, stage_id, slots, n - 1),
            output_key(stage_id, decimal((n - 1) as nat)),
            slots[n - 1]->0,
        )
    }
}

/// The successes with those of the first `n` parts.
pub open spec fn with_part_successes(
    success: Seq<(Seq<char>, bool)>,
    stage_id: Seq<char>,
    n: int,
) -> Seq<(Seq<char>, bool)>
    decreases n,
{
    if n <= 0 {
        success
    } else {
        put(
            with_part_successes(success, stage_id, n - 1),
            output_key(stage_id, decimal((n - 1) as nat)),
            true,
        )
    }
}

/// Records the outputs of the parts of a stage, each under its position, and
/// returns them in order. A part without an output is an error.
pub fn store_parallel_outputs(
    stage_id: &str,
    result: &mut RunResult,
    slots: &Vec<Option<String>>,
    kind: &str,
) -> (r: Result<Vec<String>, ProviderError>)
    ensures
        ({
            let views = slot_views(slots@);
            let n = first_missing(views, 0);
            &&& final(result).outputs.entries() == with_parts(
                old(result).outputs.entries(),
                stage_id@,
                views,
                n,
            )
            &&& final(result).success.entries() == with_part_successes(
                old(result).success.entries(),
                stage_id@,
                n,
            )
            &&& match r {
                Ok(outs) => n == slots@.len() && outs@.len() == n && forall|i: int|
                    0 <= i < n ==> Some(#[trigger] texts(outs@)[i]) == views[i],
                Err(e) => n < slots@.len() && e@ == fault(
                    "provider_exec_failed"@,
                    kind@ + " item "@ + decimal(n as nat) + " produced no output in stage '"@
                        + stage_id@ + "'"@,
                ),
            }
        }),
        final(result).errors == old(result).errors,
        final(result).children == old(result).children,
        final(result).session_id == old(result).session_id,
        final(result).parent_id == old(result).parent_id,
{
    let ghost views = slot_views(slots@);
    let mut out: Vec<String> = Vec::new();
    let mut i: usize = 0;
    while i < slots.len()
        invariant
            i <= slots.len(),
            views == slot_views(slots@),
            first_missing(views, 0) == first_missing(views, i as int),
            out@.len() == i,
            forall|k: int| 0 <= k < i ==> Some(#[trigger] texts(out@)[k]) == views[k],
            result.outputs.entries() == with_parts(
                old(result).outputs.entries(),
                stage_id@,
                views,
                i as int,
            ),
            result.success.entries() == with_part_successes(
                old(result).success.entries(),
                stage_id@,
                i as int,
            ),
            result.errors == old(result).errors,
            result.children == old(result).children,
            result.session_id == old(result).session_id,
            result.parent_id == old(result).parent_id,
        decreases slots.len() - i,
    {
        let digits = u64_text(i as u64);
        assert(views[i as int] == opt_text(slots@[i as int]));
        match &slots[i] {
            None => {
                return Err(
                    ProviderError::new(
                        "provider_exec_failed",
                        cat6(
                            kind,
                            " item ",
                            digits.as_str(),
                            " produced no output in stage '",
                            stage_id,
                            "'",
                        ),
                    ),
                );
            },
            Some(value) => {
                let key = stage_output_key(stage_id, digits.as_str());
                result.outputs.insert(key.clone(), value.clone());
                result.success.insert(key, true);
                let ghost before = texts(out@);
                out.push(value.clone());
                assert(texts(out@) =~= before.push(value@));
            },
        }
        i += 1;
    }
    Ok(out)
}

/// The error of a part's log that could not be written.
pub fn part_log_error(stage_id: &str, kind: &str, key: &str, err: &str) -> (r: String)
    ensures
        r@ == "stage '"@ + stage_id@ + "': failed writing "@ + kind@ + " log '"@ + key@ + "': "@
            + err@,
{
    let head = cat4("stage '", stage_id, "': failed writing ", kind);
    cat5(head.as_str(), " log '", key, "': ", err)
}

proof fn part_keys_differ(stage_id: Seq<char>, a: Seq<char>, b: Seq<char>)
    requires
        a != b,
    ensures
        output_key(stage_id, a) != output_key(stage_id, b),
{
    let head = stage_id + "."@;
    if head + a == head + b {
        assert(a =~= (head + a).skip(head.len() as int));
        assert(b =~= (head + b).skip(head.len() as int));
    }
}

/// The output of every part stands under the stage's id and its position.
pub proof fn parts_are_indexed(
    outputs: Seq<(Seq<char>, Seq<char>)>,
    stage_id: Seq<char>,
    slots: Seq<Option<Seq<char>>>,
    n: int,
    i: int,
)
    requires
        0 <= i < n <= slots.len(),
        slots[i] is Some,
    ensures
        lookup(with_parts(outputs, stage_id, slots, n), output_key(stage_id, decimal(i as nat)))
            == slots[i],
    decreases n,
{
    put_spec(
        with_parts(outputs, stage_id, slots, n - 1),
        output_key(stage_id, decimal((n - 1) as nat)),
        slots[n - 1]->0,
    );
    if i < n - 1 {
        parts_are_indexed(outputs, stage_id, slots, n - 1, i);
        if decimal(i as nat) == decimal((n - 1) as nat) {
            decimal_injective(i as nat, (n - 1) as nat);
        }
        part_keys_differ(stage_id, decimal(i as nat), decimal((n - 1) as nat));
    }
}

/// The outputs of all parts in one text.
pub fn join_outputs(stage_id: &str, result: &mut RunResult, parts: &Vec<String>) -> (r: String)
    ensures
        r@ == joined(texts(parts@), "\n---\n"@),
        final(result).outputs.entries() == put(
            old(result).outputs.entries(),
            output_key(stage_id@, "all"@),
            r@,
        ),
        final(result).success == old(result).success,
        final(result).errors == old(result).errors,
        final(result).children == old(result).children,
        final(result).session_id == old(result).session_id,
        final(result).parent_id == old(result).parent_id,
{
    let all = join(parts, "\n---\n");
    result.outputs.insert(stage_output_key(stage_id, "all"), all.clone());
    all
}

/// Recording the joined outputs, or the vote on them, leaves the output of each
/// part in its place.
pub proof fn joined_outputs_keep_parts(
    outputs: Seq<(Seq<char>, Seq<char>)>,
    stage_id: Seq<char>,
    i: nat,
    value: Seq<char>,
)
    ensures
        lookup(
            put(outputs, output_key(stage_id, "all"@), value),
            output_key(stage_id, decimal(i)),
        ) == lookup(outputs, output_key(stage_id, decimal(i))),
        lookup(
            put(outputs, output_key(stage_id, "vote"@), value),
            output_key(stage_id, decimal(i)),
        ) == lookup(outputs, output_key(stage_id, decimal(i))),
{
    put_spec(outputs, output_key(stage_id, "all"@), value);
    put_spec(outputs, output_key(stage_id, "vote"@), value);
    decimal_round_trip(i, i);
    reveal_strlit("all");
    reveal_strlit("vote");
    assert(is_digit(decimal(i)[0]));
    assert(!is_digit("all"@[0]) && !is_digit("vote"@[0]));
    part_keys_differ(stage_id, decimal(i), "all"@);
    part_keys_differ(stage_id, decimal(i), "vote"@);
}

/// Records the outcome of a vote.
pub fn record_vote(stage_id: &str, result: &mut RunResult, voted: &str)
    ensures
        final(result).outputs.entries() == put(
            old(result).outputs.entries(),
            output_key(stage_id@, "vote"@),
            voted@,
        ),
        final(result).success == old(result).success,
        final(result).errors == old(result).errors,
        final(result).children == old(result).children,
        final(result).session_id == old(result).session_id,
        final(result).parent_id == old(result).parent_id,
{
    result.outputs.insert(stage_output_key(stage_id, "vote"), voted.to_owned());
}

// ---------------------------------------------------------------- vote

/// The candidates of a vote, numbered.
pub open spec fn candidates_text(candidates: Seq<Seq<char>>) -> Seq<char>
    decreases candidates.len(),
{
    if candidates.len() == 0 {
        Seq::empty()
    } else {
        candidates_text(candidates.drop_last()) + "\n["@ + decimal(
            (candidates.len() - 1) as nat,
        ) + "]\n"@ + candidates.last() + "\n"@
    }
}

/// The stage that votes: it asks a language model which candidate is best.
pub open spec fn vote_view(
    stage: StageView,
    vars: Seq<(Seq<char>, Seq<char>)>,
    outputs: Seq<(Seq<char>, Seq<char>)>,
    candidates: Seq<Seq<char>>,
) -> Result<StageView, ErrorView> {
    match stage.vote {
        None => Err(
            fault("provider_exec_failed"@, "stage '"@ + stage.id + "' missing vote prompt"@),
        ),
        Some(prompt) => Ok(
            StageView {
                id: stage.id + ".vote"@,
                provider: "llm"@,
                do_prompt: Some(
                    substituted(prompt, vars, outputs) + "\n\nCandidates:\n"@ + candidates_text(
                        candidates,
                    ),
                ),
                model: stage.model,
                system: stage.system,
                ..empty_stage()
            },
        ),
    }
}

/// The stage that votes on the candidates.
pub fn vote_stage(
    stage: &Stage,
    vars: &StrMap<String>,
    outputs: &StrMap<String>,
    candidates: &Vec<String>,
) -> (r: Result<Stage, ProviderError>)
    ensures
        outcome(r) == vote_view(stage@, vars.entries(), outputs.entries(), texts(candidates@)),
{
    let prompt = match &stage.vote {
        None => {
            return Err(
                ProviderError::new(
                    "provider_exec_failed",
                    cat3("stage '", stage.id.as_str(), "' missing vote prompt"),
                ),
            );
        },
        Some(prompt) => subst(prompt.as_str(), vars, outputs),
    };
    let ghost all = texts(candidates@);
    let mut listed = String::new();
    let mut i: usize = 0;
    assert(all.take(0) =~= Seq::<Seq<char>>::empty());
    while i < candidates.len()
        invariant
            i <= candidates.len(),
            all == texts(candidates@),
            listed@ == candidates_text(all.take(i as int)),
        decreases candidates.len() - i,
    {
        assert(all.take(i + 1).drop_last() =~= all.take(i as int));
        let digits = u64_text(i as u64);
        listed = cat6(
            listed.as_str(),
            "\n[",
            digits.as_str(),
            "]\n",
            candidates[i].as_str(),
            "\n",
        );
        i += 1;
    }
    assert(all.take(i as int) =~= all);
    let mut vote = Stage::default();
    vote.id = cat2(stage.id.as_str(), ".vote");
    vote.provider = "llm".to_owned();
    vote.do_prompt = Some(cat3(prompt.as_str(), "\n\nCandidates:\n", listed.as_str()));
    vote.model = clone_opt(&stage.model);
    vote.system = clone_opt(&stage.system);
    Ok(vote)
}

// ---------------------------------------------------------------- gathering

/// What follows once all parts of a stage have come to an end.
pub enum PartsStep {
    /// The joined outputs are the output of the stage.
    Done(String),
    /// This stage votes on the outputs.
    Vote(Stage),
}

/// What follows, as plain values.
pub enum PartsView {
    Done(Seq<char>),
    Vote(StageView),
}

impl View for PartsStep {
    type V = PartsView;

    open spec fn view(&self) -> PartsView {
        match self {
            PartsStep::Done(output) => PartsView::Done(output@),
            PartsStep::Vote(stage) => PartsView::Vote(stage@),
        }
    }
}

/// The outputs of parts that all have one.
pub open spec fn part_outputs(slots: Seq<Option<Seq<char>>>) -> Seq<Seq<char>> {
    Seq::new(slots.len(), |i: int| slots[i]->0)
}

/// The outputs of a run with those of the parts of a stage, one by one and joined.
pub open spec fn gathered_outputs(
    outputs: Seq<(Seq<char>, Seq<char>)>,
    stage_id: Seq<char>,
    slots: Seq<Option<Seq<char>>>,
) -> Seq<(Seq<char>, Seq<char>)> {
    put(
        with_parts(outputs, stage_id, slots, slots.len() as int),
        output_key(stage_id, "all"@),
        joined(part_outputs(slots), "\n---\n"@),
    )
}

/// The outputs of a run once the parts of a stage have ended: nothing is recorded
/// where one failed, and only what comes before the first part without an output.
pub open spec fn outputs_with_parts(
    outputs: Seq<(Seq<char>, Seq<char>)>,
    stage_id: Seq<char>,
    slots: Seq<Option<Seq<char>>>,
    failed: bool,
) -> Seq<(Seq<char>, Seq<char>)> {
    let missing = first_missing(slots, 0);
    if failed {
        outputs
    } else if missing < slots.len() {
        with_parts(outputs, stage_id, slots, missing)
    } else {
        gathered_outputs(outputs, stage_id, slots)
    }
}

/// What follows the parts: the first error, a part without an output, a vote,
/// or the joined outputs.
pub open spec fn gathered(
    stage: StageView,
    vars: Seq<(Seq<char>, Seq<char>)>,
    outputs: Seq<(Seq<char>, Seq<char>)>,
    slots: Seq<Option<Seq<char>>>,
    first_error: Option<ErrorView>,
    kind: Seq<char>,
) -> Result<PartsView, ErrorView> {
    let missing = first_missing(slots, 0);
    match first_error {
        Some(e) => Err(e),
        None => if missing < slots.len() {
            Err(
                fault(
                    "provider_exec_failed"@,
                    kind + " item "@ + decimal(missing as nat) + " produced no output in stage '"@
                        + stage.id + "'"@,
                ),
            )
        } else if stage.vote is Some {
            match vote_view(
                stage,
                vars,
                gathered_outputs(outputs, stage.id, slots),
                part_outputs(slots),
            ) {
                Ok(vote) => Ok(PartsView::Vote(vote)),
                Err(e) => Err(e),
            }
        } else {
            Ok(PartsView::Done(joined(part_outputs(slots), "\n---\n"@)))
        },
    }
}

proof fn all_there(slots: Seq<Option<Seq<char>>>, i: int)
    requires
        0 <= i <= slots.len(),
        first_missing(slots, i) == slots.len(),
    ensures
        forall|k: int| i <= k < slots.len() ==> (#[trigger] slots[k]) is Some,
    decreases slots.len() - i,
{
    if i < slots.len() {
        all_there(slots, i + 1);
    }
}

/// Takes in what came of the parts of a stage: their outputs are recorded, one
/// by one and joined, and a vote follows where the stage asks for one.
pub fn gather_parts(
    workflow: &Workflow,
    stage: &Stage,
    result: &mut RunResult,
    results: ParallelResults,
    kind: &str,
) -> (r: Result<PartsStep, ProviderError>)
    ensures
        outcome(r) == gathered(
            stage@,
            workflow@.vars,
            old(result).outputs.entries(),
            slot_views(results.slots@),
            opt_error(results.first_error),
            kind@,
        ),
        final(result).outputs.entries() == outputs_with_parts(
            old(result).outputs.entries(),
            stage@.id,
            slot_views(results.slots@),
            results.first_error is Some,
        ),
        final(result).success.entries() == if results.first_error is Some {
            old(result).success.entries()
        } else {
            with_part_successes(
                old(result).success.entries(),
                stage@.id,
                first_missing(slot_views(results.slots@), 0),
            )
        },
        final(result).errors == old(result).errors,
        final(result).children == old(result).children,
        final(result).session_id == old(result).session_id,
        final(result).parent_id == old(result).parent_id,
{
    let ghost views = slot_views(results.slots@);
    let slots = match results.finish() {
        Ok(slots) => slots,
        Err(e) => {
            return Err(e);
        },
    };
    let parts = match store_parallel_outputs(stage.id.as_str(), result, &slots, kind) {
        Ok(parts) => parts,
        Err(e) => {
            return Err(e);
        },
    };
    proof {
        all_there(views, 0);
        assert(texts(parts@) =~= part_outputs(views)) by {
            assert forall|i: int| 0 <= i < views.len() implies texts(parts@)[i] == part_outputs(
                views,
            )[i] by {
                assert(Some(texts(parts@)[i]) == views[i]);
            }
        }
    }
    let all = join_outputs(stage.id.as_str(), result, &parts);
    if stage.vote.is_some() {
        match vote_stage(stage, &workflow.vars, &result.outputs, &parts) {
            Ok(vote) => Ok(PartsStep::Vote(vote)),
            Err(e) => Err(e),
        }
    } else {
        Ok(PartsStep::Done(all))
    }
}

} // verus!
