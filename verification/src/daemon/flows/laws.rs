//! What holds of what flows need, and of what they may do.
use crate::allowlist::lowered_all;
use crate::daemon::flows::{
    blocked_providers, concurrency_limit, counts_owners, counts_workflows, missing_capabilities_of,
    missing_providers_of, not_in, owner_key_of, owner_limit, providers_of, readiness_of,
    running_of_owner, running_of_workflow, stage_providers, unmet, FlowReadinessRuntime,
};
use crate::daemon::sessions::SessionView;
use crate::order::{sorted_distinct, sorted_distinct_spec};
use crate::strmap::lookup;
use crate::text::{blank, lowered, trimmed, trimmed_pieces};
use crate::workflow::{provider_of, StageView, WorkflowView};
use vstd::prelude::*;

verus! {

// ---------------------------------------------------------------- owners

/// An owner counts without blanks and case; a blank owner is none.
pub proof fn owners_are_keyed(owner: Seq<char>)
    ensures
        blank(owner) ==> owner_key_of(Some(owner)) is None,
        !blank(owner) ==> owner_key_of(Some(owner)) == Some(lowered(trimmed(owner))),
        owner_key_of(None) is None,
{
}

/// A flow without an owner has no owner's limit; one whose owner has none of their
/// own has the default.
pub proof fn default_limits_apply(
    owner: Seq<char>,
    per_owner: Seq<(Seq<char>, usize)>,
    default_limit: Option<usize>,
)
    ensures
        owner_limit(None, per_owner, default_limit) is None,
        blank(owner) ==> owner_limit(Some(owner), per_owner, default_limit) is None,
        !blank(owner) && lookup(per_owner, lowered(trimmed(owner))) is None ==> owner_limit(
            Some(owner),
            per_owner,
            default_limit,
        ) == default_limit,
        !blank(owner) ==> (lookup(per_owner, lowered(trimmed(owner))) matches Some(n)
            ==> owner_limit(Some(owner), per_owner, default_limit) == Some(n)),
{
}

/// A session counts for its workflow and its owner while it runs, and only then.
pub proof fn running_sessions_count(
    entries: Seq<(Seq<char>, SessionView)>,
    entry: (Seq<char>, SessionView),
    workflow: Seq<char>,
    key: Seq<char>,
)
    ensures
        running_of_workflow(Seq::empty(), workflow) == 0,
        running_of_owner(Seq::empty(), key) == 0,
        running_of_workflow(entries.push(entry), workflow) == running_of_workflow(
            entries,
            workflow,
        ) + if entry.1.status == "running"@ && entry.1.workflow == workflow {
            1int
        } else {
            0int
        },
        running_of_owner(entries.push(entry), key) == running_of_owner(entries, key)
            + if entry.1.status == "running"@ && (entry.1.owner matches Some(owner) && !blank(
            owner,
        ) && lowered(trimmed(owner)) == key) {
            1int
        } else {
            0int
        },
{
    assert(entries.push(entry).drop_last() =~= entries);
}

// ---------------------------------------------------------------- needs

proof fn pushed(items: Seq<Seq<char>>, item: Seq<char>, x: Seq<char>)
    ensures
        items.push(item).contains(x) <==> items.contains(x) || x == item,
{
    let all = items.push(item);
    if all.contains(x) {
        let i = choose|i: int| 0 <= i < all.len() && all[i] == x;
        if i < items.len() {
            assert(items[i] == x);
        }
    }
    if items.contains(x) {
        let i = choose|i: int| 0 <= i < items.len() && items[i] == x;
        assert(all[i] == x);
    }
    assert(all[items.len() as int] == item);
}

/// A stage needs its own provider, unless it runs a workflow; a language model where
/// there is a vote; and the shell where there is a hook.
pub proof fn stages_need_providers(stage: StageView, name: Seq<char>)
    ensures
        stage_providers(stage).contains(name) <==> {
            ||| stage.workflow is None && name == lowered(trimmed(provider_of(stage)))
            ||| stage.vote is Some && name == "llm"@
            ||| name == "shell"@ && {
                ||| (stage.before matches Some(hook) && !blank(hook))
                ||| (stage.after matches Some(hook) && !blank(hook))
                ||| (stage.on_error matches Some(hook) && !blank(hook))
            }
        },
{
    let own = if stage.workflow is None {
        seq![lowered(trimmed(provider_of(stage)))]
    } else {
        Seq::empty()
    };
    if stage.workflow is None {
        assert(own[0] == lowered(trimmed(provider_of(stage))));
        assert(own.contains(own[0]));
    }
    pushed(own, "llm"@, name);
    let voted = if stage.vote is Some {
        own.push("llm"@)
    } else {
        own
    };
    pushed(voted, "shell"@, name);
}

/// A workflow needs what its stages need.
pub proof fn workflows_need_what_stages_need(stages: Seq<StageView>, name: Seq<char>)
    ensures
        providers_of(stages).contains(name) <==> exists|i: int|
            0 <= i < stages.len() && stage_providers(#[trigger] stages[i]).contains(name),
    decreases stages.len(),
{
    if stages.len() > 0 {
        let rest = stages.drop_last();
        workflows_need_what_stages_need(rest, name);
        let a = providers_of(rest);
        let b = stage_providers(stages.last());
        assert(stages[stages.len() - 1] == stages.last());
        assert((a + b).contains(name) <==> a.contains(name) || b.contains(name)) by {
            if (a + b).contains(name) {
                let i = choose|i: int| 0 <= i < (a + b).len() && (a + b)[i] == name;
                if i < a.len() {
                    assert(a[i] == name);
                } else {
                    assert(b[i - a.len()] == name);
                }
            }
            if a.contains(name) {
                let i = choose|i: int| 0 <= i < a.len() && a[i] == name;
                assert((a + b)[i] == name);
            }
            if b.contains(name) {
                let i = choose|i: int| 0 <= i < b.len() && b[i] == name;
                assert((a + b)[a.len() + i] == name);
            }
        }
        if a.contains(name) {
            let i = choose|i: int|
                0 <= i < rest.len() && stage_providers(#[trigger] rest[i]).contains(name);
            assert(stages[i] == rest[i]);
        }
        if exists|i: int|
            0 <= i < stages.len() && stage_providers(#[trigger] stages[i]).contains(name) {
            let i = choose|i: int|
                0 <= i < stages.len() && stage_providers(#[trigger] stages[i]).contains(name);
            if i < rest.len() {
                assert(rest[i] == stages[i]);
            }
        }
    } else {
        assert(providers_of(stages) =~= Seq::empty());
    }
}

proof fn kept_are_not_in(names: Seq<Seq<char>>, set: Set<Seq<char>>, name: Seq<char>)
    ensures
        not_in(names, set).contains(name) <==> names.contains(name) && !set.contains(name),
    decreases names.len(),
{
    if names.len() > 0 {
        let rest = names.drop_last();
        kept_are_not_in(rest, set, name);
        pushed(rest, names.last(), name);
        assert(rest.push(names.last()) =~= names);
        pushed(not_in(rest, set), names.last(), name);
    }
}

proof fn kept_are_unmet(names: Seq<Seq<char>>, set: Set<Seq<char>>, name: Seq<char>)
    ensures
        unmet(names, set).contains(name) <==> names.contains(name) && !set.contains(
            lowered(name),
        ),
    decreases names.len(),
{
    if names.len() > 0 {
        let rest = names.drop_last();
        kept_are_unmet(rest, set, name);
        pushed(rest, names.last(), name);
        assert(rest.push(names.last()) =~= names);
        pushed(unmet(rest, set), names.last(), name);
    }
}

/// A capability is missing where a flow needs it and the node has neither it nor a
/// wildcard.
pub proof fn lacking_capabilities_are_missing(
    required: Seq<Seq<char>>,
    node: Set<Seq<char>>,
    name: Seq<char>,
)
    ensures
        missing_capabilities_of(required, node).contains(name) <==> trimmed_pieces(
            required,
        ).contains(name) && !node.contains(lowered(name)) && !node.contains("*"@)
            && !node.contains("all"@),
{
    kept_are_unmet(trimmed_pieces(required), node, name);
    sorted_distinct_spec(unmet(trimmed_pieces(required), node));
}

/// A provider is missing where a flow needs it and the node does not allow it.
pub proof fn blocked_providers_are_missing(
    required: Seq<Seq<char>>,
    workflow: WorkflowView,
    allowed: Set<Seq<char>>,
    name: Seq<char>,
)
    ensures
        missing_providers_of(required, None).len() == 0,
        blocked_providers(workflow, None).len() == 0,
        missing_providers_of(required, Some(allowed)).contains(name) <==> lowered_all(
            trimmed_pieces(required),
        ).contains(name) && !allowed.contains(name),
        blocked_providers(workflow, Some(allowed)).contains(name) <==> providers_of(
            workflow.stages,
        ).contains(name) && !allowed.contains(name),
{
    let names = lowered_all(trimmed_pieces(required));
    kept_are_not_in(names, allowed, name);
    sorted_distinct_spec(not_in(names, allowed));
    let needed = providers_of(workflow.stages);
    sorted_distinct_spec(needed);
    kept_are_not_in(sorted_distinct(needed), allowed, name);
    sorted_distinct_spec(not_in(sorted_distinct(needed), allowed));
}

// ---------------------------------------------------------------- readiness

/// The flow's own limit goes before the default; a limit of zero is none.
pub proof fn own_limits_go_first(own: u32, default_max: usize)
    ensures
        own >= 1 ==> concurrency_limit(Some(own), Some(default_max)) == Some(own as usize),
        own >= 1 ==> concurrency_limit(Some(own), None) == Some(own as usize),
        own == 0 && default_max >= 1 ==> concurrency_limit(Some(own), Some(default_max)) == Some(
            default_max,
        ),
        default_max >= 1 ==> concurrency_limit(None, Some(default_max)) == Some(default_max),
        default_max == 0 ==> concurrency_limit(None, Some(default_max)) is None,
        concurrency_limit(None, None) is None,
        own == 0 ==> concurrency_limit(Some(own), None) is None,
{
}

/// A flow may run if and only if nothing that it needs is missing and fewer sessions
/// run than its limit and its owner's say.
pub proof fn flows_run_when_nothing_is_missing(
    required_capabilities: Seq<Seq<char>>,
    required_providers: Seq<Seq<char>>,
    max_concurrency: Option<u32>,
    capabilities: Set<Seq<char>>,
    allowed: Option<Set<Seq<char>>>,
    runtime: FlowReadinessRuntime,
)
    ensures
        readiness_of(
            required_capabilities,
            required_providers,
            max_concurrency,
            capabilities,
            allowed,
            runtime,
        ).ready() <==> {
            &&& missing_capabilities_of(required_capabilities, capabilities).len() == 0
            &&& missing_providers_of(required_providers, allowed).len() == 0
            &&& concurrency_limit(max_concurrency, runtime.default_max_concurrency) matches Some(max)
                ==> runtime.running < max
            &&& runtime.owner_max_concurrency matches Some(max) ==> runtime.owner_running < max
        },
{
}

/// An index of running sessions holds every workflow and owner that has some, with
/// their number, and no other.
pub proof fn indexes_count_running(
    index: Seq<(Seq<char>, usize)>,
    entries: Seq<(Seq<char>, SessionView)>,
    name: Seq<char>,
)
    ensures
        counts_workflows(index, entries) && running_of_workflow(entries, name) > 0 ==> (lookup(
            index,
            name,
        ) matches Some(n) && n == running_of_workflow(entries, name)),
        counts_workflows(index, entries) && running_of_workflow(entries, name) == 0 ==> lookup(
            index,
            name,
        ) is None,
        counts_owners(index, entries) && running_of_owner(entries, name) > 0 ==> (lookup(
            index,
            name,
        ) matches Some(n) && n == running_of_owner(entries, name)),
        counts_owners(index, entries) && running_of_owner(entries, name) == 0 ==> lookup(
            index,
            name,
        ) is None,
{
    let found = lookup(index, name);
}

} // verus!
