//! What holds of the limits on runs at a time, launch after launch.
use crate::daemon::flows::{
    concurrency_limit, owner_key_of, owner_limit, running_of_opt_owner, running_of_owner,
    running_of_workflow, FlowView, NodeView,
};
use crate::daemon::launch::readiness_now;
use crate::daemon::sessions::{oldest, pruned, retained, started_session, SessionView};
use crate::daemon::tasks::LaunchView;
use crate::strmap::{lookup, put};
use vstd::prelude::*;

verus! {

/// No more sessions run than there are.
proof fn running_within(
    entries: Seq<(Seq<char>, SessionView)>,
    workflow: Seq<char>,
    key: Seq<char>,
)
    ensures
        running_of_workflow(entries, workflow) <= entries.len(),
        running_of_owner(entries, key) <= entries.len(),
    decreases entries.len(),
{
    if entries.len() > 0 {
        running_within(entries.drop_last(), workflow, key);
    }
}

/// One session more is one run more at most.
proof fn running_after_put(
    entries: Seq<(Seq<char>, SessionView)>,
    id: Seq<char>,
    session: SessionView,
    workflow: Seq<char>,
    key: Seq<char>,
)
    ensures
        running_of_workflow(put(entries, id, session), workflow) <= running_of_workflow(
            entries,
            workflow,
        ) + 1,
        running_of_owner(put(entries, id, session), key) <= running_of_owner(entries, key) + 1,
    decreases entries.len(),
{
    let after = put(entries, id, session);
    if entries.len() == 0 {
        assert(after.drop_last() =~= entries);
    } else if entries.last().0 == id {
        assert(after.drop_last() =~= entries.drop_last());
    } else if lookup(entries, id) is Some {
        running_after_put(entries.drop_last(), id, session, workflow, key);
        assert(after.drop_last() =~= put(entries.drop_last(), id, session));
    } else {
        assert(after.drop_last() =~= entries);
    }
}

/// One session less is no run more.
proof fn running_after_remove(
    entries: Seq<(Seq<char>, SessionView)>,
    i: int,
    workflow: Seq<char>,
    key: Seq<char>,
)
    requires
        0 <= i < entries.len(),
    ensures
        running_of_workflow(entries.remove(i), workflow) <= running_of_workflow(
            entries,
            workflow,
        ),
        running_of_owner(entries.remove(i), key) <= running_of_owner(entries, key),
    decreases entries.len(),
{
    if i == entries.len() - 1 {
        assert(entries.remove(i) =~= entries.drop_last());
    } else {
        running_after_remove(entries.drop_last(), i, workflow, key);
        assert(entries.remove(i).drop_last() =~= entries.drop_last().remove(i));
        assert(entries.remove(i).last() == entries.last());
    }
}

proof fn running_after_pruning(
    entries: Seq<(Seq<char>, SessionView)>,
    max: nat,
    workflow: Seq<char>,
    key: Seq<char>,
)
    ensures
        running_of_workflow(pruned(entries, max), workflow) <= running_of_workflow(
            entries,
            workflow,
        ),
        running_of_owner(pruned(entries, max), key) <= running_of_owner(entries, key),
    decreases entries.len(),
{
    if entries.len() > max {
        if let Some(i) = oldest(entries) {
            if 0 <= i < entries.len() {
                running_after_remove(entries, i, workflow, key);
                running_after_pruning(entries.remove(i), max, workflow, key);
            }
        }
    }
}

/// Launching a flow that may run never takes it above its limit, nor its owner
/// above theirs.
pub proof fn launches_keep_to_limits(
    entry: FlowView,
    sessions: Seq<(Seq<char>, SessionView)>,
    node: NodeView,
    default_max: Option<usize>,
    launch: LaunchView,
    now: u64,
    max_sessions: usize,
)
    requires
        sessions.len() <= usize::MAX,
        readiness_now(entry, sessions, node, default_max).ready(),
    ensures
        ({
            let started = started_session(
                launch.id,
                launch.runtime_id,
                launch.workflow,
                launch.owner,
                now,
            );
            let after = retained(put(sessions, launch.id, started), max_sessions);
            let own = concurrency_limit(entry.max_concurrency, default_max);
            let owners = owner_limit(entry.owner, node.per_owner, node.default_limit);
            &&& own is Some ==> running_of_workflow(after, entry.workflow_name) <= own->0
            &&& owners is Some ==> running_of_opt_owner(after, entry.owner) <= owners->0
        }),
{
    let started = started_session(
        launch.id,
        launch.runtime_id,
        launch.workflow,
        launch.owner,
        now,
    );
    let key = match owner_key_of(entry.owner) {
        Some(key) => key,
        None => Seq::empty(),
    };
    let name = entry.workflow_name;
    running_within(sessions, name, key);
    running_after_put(sessions, launch.id, started, name, key);
    running_after_pruning(put(sessions, launch.id, started), max_sessions as nat, name, key);
}

} // verus!
