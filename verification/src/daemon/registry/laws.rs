//! What holds of the registry of flows.
use crate::daemon::flows::{providers_of, FlowView};
use crate::daemon::registry::{
    discovered_flow_view, entries_problem, entries_problem_sticks, entry_problem, id_taken,
    loaded_at, normal_entries, normal_entry, registered_flow_view, registered_result,
    registry_problem, trimmed_opt, RegisteredView,
};
use crate::order::sorted_distinct_spec;
use crate::paths::{file_name_of, joined_path};
use crate::text::{blank, trimmed};
use crate::workflow::{Workflow, WorkflowView};
use vstd::prelude::*;

verus! {

/// The fields of a registered flow lose the blanks round them; a blank owner or
/// version is none, and the rest stays.
pub proof fn fields_lose_blanks(entry: RegisteredView, text: Seq<char>)
    ensures
        trimmed_opt(None) is None,
        blank(text) ==> trimmed_opt(Some(text)) is None,
        !blank(text) ==> trimmed_opt(Some(text)) == Some(trimmed(text)),
        normal_entry(entry).flow_id == trimmed(entry.flow_id),
        normal_entry(entry).path == trimmed(entry.path),
        normal_entry(entry).owner == trimmed_opt(entry.owner),
        normal_entry(entry).version == trimmed_opt(entry.version),
        normal_entry(entry).tags == entry.tags,
        normal_entry(entry).required_capabilities == entry.required_capabilities,
        normal_entry(entry).max_concurrency == entry.max_concurrency,
{
}

/// Whether a flow can stand in a registry behind those before it.
pub open spec fn fits(entries: Seq<RegisteredView>, i: int) -> bool {
    &&& entries[i].flow_id.len() > 0
    &&& entries[i].path.len() > 0
    &&& entries[i].max_concurrency != Some(0u32)
    &&& forall|j: int| 0 <= j < i ==> (#[trigger] entries[j]).flow_id != entries[i].flow_id
}

proof fn fitting_entries(entries: Seq<RegisteredView>, n: int, file: Seq<char>)
    requires
        0 <= n <= entries.len(),
        forall|i: int| 0 <= i < n ==> fits(entries, i),
    ensures
        entries_problem(entries, n, file) is None,
    decreases n,
{
    if n > 0 {
        fitting_entries(entries, n - 1, file);
        assert(fits(entries, n - 1));
    }
}

/// A registry is accepted where it has flows and each of them fits.
pub proof fn good_registries_are_accepted(entries: Seq<RegisteredView>, file: Seq<char>)
    requires
        entries.len() > 0,
        forall|i: int| 0 <= i < entries.len() ==> fits(normal_entries(entries), i),
    ensures
        registry_problem(entries, file) is None,
{
    fitting_entries(normal_entries(entries), entries.len() as int, file);
}

/// A registry without a flow, or with one that does not fit, is refused.
pub proof fn bad_registries_are_refused(entries: Seq<RegisteredView>, file: Seq<char>, i: int)
    requires
        0 <= i < entries.len() ==> !fits(normal_entries(entries), i),
        0 <= i,
        i == 0 || i < entries.len(),
    ensures
        registry_problem(entries, file) is Some,
        entries.len() == 0 ==> registry_problem(entries, file) == Some(
            "flow registry '"@ + file + "' has no entries"@,
        ),
{
    if entries.len() > 0 {
        let normal = normal_entries(entries);
        assert(entry_problem(normal, i, file) is Some) by {
            if normal[i].flow_id.len() > 0 && normal[i].path.len() > 0 && normal[i].max_concurrency
                != Some(0u32) {
                let j = choose|j: int| 0 <= j < i && (#[trigger] normal[j]).flow_id
                    == normal[i].flow_id;
                assert(id_taken(normal, i, normal[i].flow_id));
            }
        }
        assert(entries_problem(normal, i + 1, file) is Some);
        entries_problem_sticks(normal, i + 1, entries.len() as int, file);
    }
}

/// What is wrong is told with the file and, where it has one, the id.
pub proof fn problems_name_the_flow(entries: Seq<RegisteredView>, i: int, file: Seq<char>)
    requires
        0 <= i < entries.len(),
    ensures
        ({
            let e = entries[i];
            let taken = exists|j: int| 0 <= j < i && (#[trigger] entries[j]).flow_id == e.flow_id;
            &&& e.flow_id.len() == 0 ==> entry_problem(entries, i, file) == Some(
                "flow registry '"@ + file + "' has entry with empty flow_id"@,
            )
            &&& e.flow_id.len() > 0 && e.path.len() == 0 ==> entry_problem(entries, i, file)
                == Some(
                "flow registry '"@ + file + "' has entry '"@ + e.flow_id + "' with empty path"@,
            )
            &&& e.flow_id.len() > 0 && e.path.len() > 0 && taken ==> entry_problem(
                entries,
                i,
                file,
            ) == Some(
                "flow registry '"@ + file + "' has duplicate flow_id '"@ + e.flow_id + "'"@,
            )
            &&& e.flow_id.len() > 0 && e.path.len() > 0 && !taken && e.max_concurrency == Some(
                0u32,
            ) ==> entry_problem(entries, i, file) == Some(
                "flow registry '"@ + file + "' has entry '"@ + e.flow_id
                    + "' with invalid max_concurrency=0"@,
            )
        }),
{
    let e = entries[i];
    if exists|j: int| 0 <= j < i && (#[trigger] entries[j]).flow_id == e.flow_id {
        let j = choose|j: int| 0 <= j < i && (#[trigger] entries[j]).flow_id == e.flow_id;
        assert(id_taken(entries, i, e.flow_id));
    } else {
        assert(!id_taken(entries, i, e.flow_id));
    }
}

/// A registered flow has from its registration what that says, and the rest from its
/// workflow.
pub proof fn registrations_describe_flows(
    listed: RegisteredView,
    workflow: WorkflowView,
    path: Seq<char>,
    file_name: Seq<char>,
    provider: Seq<char>,
)
    ensures
        ({
            let flow = registered_flow_view(listed, workflow, path, file_name);
            &&& flow.flow_id == Some(listed.flow_id) && flow.tags == listed.tags
            &&& flow.required_capabilities == listed.required_capabilities
            &&& flow.owner == listed.owner && flow.version == listed.version
                && flow.max_concurrency == listed.max_concurrency
            &&& flow.file_name == file_name && flow.path == path
            &&& flow.workflow_name == workflow.name && flow.workflow_workdir == workflow.workdir
            &&& flow.trigger_webhook == workflow.trigger.webhook && flow.trigger_watch
                == workflow.trigger.watch && flow.trigger_cron == workflow.trigger.cron
                && flow.trigger_interval == workflow.trigger.interval
            &&& flow.required_providers.contains(provider) <==> providers_of(
                workflow.stages,
            ).contains(provider)
        }),
{
    sorted_distinct_spec(providers_of(workflow.stages));
}

/// A flow that was found has no registration, and else is as a registered one.
pub proof fn found_flows_have_no_registration(
    listed: RegisteredView,
    workflow: WorkflowView,
    path: Seq<char>,
    file_name: Seq<char>,
)
    ensures
        ({
            let found = discovered_flow_view(workflow, path, file_name);
            let registered = registered_flow_view(listed, workflow, path, file_name);
            &&& found.flow_id is None && found.owner is None && found.version is None
                && found.max_concurrency is None
            &&& found.tags.len() == 0 && found.required_capabilities.len() == 0
            &&& found == (FlowView {
                flow_id: None,
                tags: found.tags,
                required_capabilities: found.required_capabilities,
                owner: None,
                version: None,
                max_concurrency: None,
                ..registered
            })
        }),
{
}

/// A registration gives a flow if and only if its workflow was loaded and its file has
/// a name; else what is wrong is told.
pub proof fn loaded_registrations_are_flows(
    registry: Seq<char>,
    plays_dir: Seq<char>,
    listed: RegisteredView,
    workflow: WorkflowView,
)
    ensures
        ({
            let path = joined_path(plays_dir, trimmed(listed.path));
            &&& registered_result(registry, plays_dir, listed, None) == Err::<FlowView, Seq<char>>(
                "flow registry '"@ + registry + "' entry '"@ + listed.flow_id
                    + "' points to invalid workflow '"@ + path + "'"@,
            )
            &&& file_name_of(path) is None ==> registered_result(
                registry,
                plays_dir,
                listed,
                Some(workflow),
            ) == Err::<FlowView, Seq<char>>("invalid workflow filename in '"@ + path + "'"@)
            &&& file_name_of(path) matches Some(name) ==> registered_result(
                registry,
                plays_dir,
                listed,
                Some(workflow),
            ) == Ok::<FlowView, Seq<char>>(registered_flow_view(listed, workflow, path, name))
        }),
{
}

/// What was loaded is found at its place.
pub proof fn loaded_workflows_are_found(loaded: Seq<Option<Workflow>>, i: int)
    ensures
        0 <= i < loaded.len() && loaded[i] is Some ==> loaded_at(loaded, i) == Some(loaded[i]->0@),
        0 <= i < loaded.len() && loaded[i] is None ==> loaded_at(loaded, i) is None,
        i >= loaded.len() ==> loaded_at(loaded, i) is None,
{
}

} // verus!
