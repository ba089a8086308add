//! What holds of names of flows, of their catalog and of their launches.
use crate::daemon::flows::{FlowView, NodeView, ReadinessView};
use crate::daemon::launch::{
    first_file, first_named, goes_by, in_32_bits, launch_refusal_of, launched_workflow, limit_text,
    listens, meta_now, meta_of, meta_wanted, named_flow, normal_filter, public_id, public_ids,
    skip_text, trigger_decision_of, trigger_line, wanted_metas, HookOutcomes, MetaView, TriggerView,
};
use crate::daemon::sessions::SessionView;
use crate::number::decimal;
use crate::order::{sorted_distinct, sorted_distinct_spec, text_less};
use crate::ranking::{ranked, ranked_spec, RankView};
use crate::providers::with_all_value;
use crate::strmap::lookup;
use crate::text::{blank, joined, lowered, matches_at, trimmed};
use crate::workflow::WorkflowView;
use vstd::prelude::*;

verus! {

// ---------------------------------------------------------------- names

/// A flow is known by its id, and one without by its file.
pub proof fn flows_have_ids(entry: FlowView)
    ensures
        entry.flow_id is None ==> public_id(entry) == entry.file_name,
        entry.flow_id matches Some(id) ==> (if blank(id) {
            public_id(entry) == entry.file_name
        } else {
            public_id(entry) == id
        }),
{
}

/// The ids that are told are those of the flows.
pub proof fn all_ids_are_told(entries: Seq<FlowView>, id: Seq<char>)
    ensures
        sorted_distinct(public_ids(entries)).contains(id) <==> exists|i: int|
            0 <= i < entries.len() && public_id(#[trigger] entries[i]) == id,
{
    sorted_distinct_spec(public_ids(entries));
    let ids = public_ids(entries);
    if ids.contains(id) {
        let i = choose|i: int| 0 <= i < ids.len() && ids[i] == id;
        assert(public_id(entries[i]) == id);
    }
    if exists|i: int| 0 <= i < entries.len() && public_id(#[trigger] entries[i]) == id {
        let i = choose|i: int| 0 <= i < entries.len() && public_id(#[trigger] entries[i]) == id;
        assert(ids[i] == id);
    }
}

proof fn nearest_name(entries: Seq<FlowView>, name: Seq<char>, i: int, k: int)
    requires
        0 <= i <= k < entries.len(),
        goes_by(entries[k], name),
    ensures
        first_named(entries, name, i) is Some,
        i <= first_named(entries, name, i)->0 <= k,
        goes_by(entries[first_named(entries, name, i)->0], name),
    decreases k - i,
{
    if !goes_by(entries[i], name) {
        nearest_name(entries, name, i + 1, k);
    }
}

proof fn nearest_file(entries: Seq<FlowView>, name: Seq<char>, i: int, k: int)
    requires
        0 <= i <= k < entries.len(),
        entries[k].file_name == name,
    ensures
        first_file(entries, name, i) is Some,
        i <= first_file(entries, name, i)->0 <= k,
        entries[first_file(entries, name, i)->0].file_name == name,
    decreases k - i,
{
    if entries[i].file_name != name {
        nearest_file(entries, name, i + 1, k);
    }
}

proof fn unnamed(entries: Seq<FlowView>, name: Seq<char>, i: int)
    requires
        0 <= i,
        forall|k: int| 0 <= k < entries.len() ==> !goes_by(#[trigger] entries[k], name),
    ensures
        first_named(entries, name, i) is None,
    decreases entries.len() - i,
{
    if i < entries.len() {
        unnamed(entries, name, i + 1);
    }
}

/// A flow is found by its file, its workflow or its id; of several the first is.
pub proof fn flows_are_found(entries: Seq<FlowView>, name: Seq<char>, k: int)
    requires
        0 <= k < entries.len(),
        entries[k].file_name == trimmed(name) || entries[k].workflow_name == trimmed(name)
            || entries[k].flow_id == Some(trimmed(name)),
    ensures
        named_flow(entries, name) is Some,
        0 <= named_flow(entries, name)->0 <= k,
        ({
            let found = entries[named_flow(entries, name)->0];
            found.file_name == trimmed(name) || found.workflow_name == trimmed(name)
                || found.flow_id == Some(trimmed(name))
        }),
{
    nearest_name(entries, trimmed(name), 0, k);
}

/// A file need not be named with its ending, where nothing goes by the name itself.
pub proof fn endings_may_be_left_out(entries: Seq<FlowView>, name: Seq<char>, k: int)
    requires
        0 <= k < entries.len(),
        entries[k].file_name == trimmed(name) + ".anna"@,
        !matches_at(trimmed(name), ".anna"@, trimmed(name).len() - ".anna"@.len()),
        forall|i: int|
            0 <= i < entries.len() ==> (#[trigger] entries[i]).file_name != trimmed(name)
                && entries[i].workflow_name != trimmed(name) && entries[i].flow_id != Some(
                trimmed(name),
            ),
    ensures
        named_flow(entries, name) is Some,
        0 <= named_flow(entries, name)->0 <= k,
        entries[named_flow(entries, name)->0].file_name == trimmed(name) + ".anna"@,
{
    unnamed(entries, trimmed(name), 0);
    nearest_file(entries, trimmed(name) + ".anna"@, 0, k);
}

// ---------------------------------------------------------------- catalog

/// A catalog item says of a flow what the flow says of itself.
pub proof fn items_describe_flows(
    entry: FlowView,
    node: NodeView,
    running: usize,
    owner_running: usize,
)
    ensures
        ({
            let item = meta_of(entry, node, running, owner_running);
            &&& item.id == public_id(entry)
            &&& item.workflow == entry.workflow_name && item.file == entry.file_name && item.path
                == entry.path
            &&& item.tags == entry.tags && item.owner == entry.owner && item.version
                == entry.version
            &&& item.required_capabilities == entry.required_capabilities
            &&& item.required_providers == entry.required_providers
            &&& item.max_concurrency == entry.max_concurrency
            &&& item.running == running && item.owner_running == owner_running
            &&& item.trigger_webhook == entry.trigger_webhook
            &&& item.trigger_watch == entry.trigger_watch
            &&& item.trigger_cron == entry.trigger_cron
            &&& item.trigger_interval == entry.trigger_interval
        }),
{
}

/// A flow is available if and only if nothing that the item names stands in its way.
pub proof fn items_tell_what_blocks(
    entry: FlowView,
    node: NodeView,
    running: usize,
    owner_running: usize,
)
    ensures
        ({
            let item = meta_of(entry, node, running, owner_running);
            &&& item.available <==> item.missing_capabilities.len() == 0
                && item.missing_providers.len() == 0 && !item.concurrency_blocked
                && !item.owner_concurrency_blocked
            &&& entry.max_concurrency is Some && entry.max_concurrency->0 >= 1 ==> (
            item.concurrency_blocked <==> running >= entry.max_concurrency->0)
            &&& entry.max_concurrency is None ==> !item.concurrency_blocked
        }),
{
}

/// A limit that fits stays what it is.
pub proof fn small_limits_stay(limit: usize)
    ensures
        limit <= u32::MAX ==> in_32_bits(Some(limit)) == Some(limit as u32),
        in_32_bits(None) is None,
        limit_text(Some(limit)) == decimal(limit as nat),
        limit_text(None) == decimal(0),
{
}

/// An item is asked for if and only if it has the tag, the owner, the capability and
/// the availability that are asked for.
pub proof fn wanted_items_match(
    item: MetaView,
    tag: Option<Seq<char>>,
    owner: Option<Seq<char>>,
    capability: Option<Seq<char>>,
    available: Option<bool>,
)
    ensures
        meta_wanted(item, None, None, None, None),
        meta_wanted(item, tag, None, None, None) <==> (tag matches Some(wanted) ==> exists|i: int|
            0 <= i < item.tags.len() && lowered(trimmed(#[trigger] item.tags[i])) == lowered(
                wanted,
            )),
        meta_wanted(item, None, None, capability, None) <==> (capability matches Some(wanted)
            ==> exists|i: int|
            0 <= i < item.required_capabilities.len() && lowered(
                trimmed(#[trigger] item.required_capabilities[i]),
            ) == lowered(wanted)),
        meta_wanted(item, None, None, None, available) <==> (available matches Some(wanted)
            ==> item.available == wanted),
        item.owner is Some && owner is Some ==> (meta_wanted(item, None, owner, None, None)
            <==> lowered(trimmed(item.owner->0)) == owner->0),
        meta_wanted(item, tag, owner, capability, available) <==> meta_wanted(
            item,
            tag,
            None,
            None,
            None,
        ) && meta_wanted(item, None, owner, None, None) && meta_wanted(
            item,
            None,
            None,
            capability,
            None,
        ) && meta_wanted(item, None, None, None, available),
{
}

/// A filter is compared without case and blanks round it.
pub proof fn filters_ignore_case(filter: Seq<char>)
    ensures
        normal_filter(None) is None,
        normal_filter(Some(filter)) == Some(lowered(trimmed(filter))),
{
}

/// The catalog holds the items of the flows that are asked for, and no others.
pub proof fn catalog_holds_what_is_wanted(
    entries: Seq<FlowView>,
    sessions: Seq<(Seq<char>, SessionView)>,
    node: NodeView,
    tag: Option<Seq<char>>,
    owner: Option<Seq<char>>,
    capability: Option<Seq<char>>,
    available: Option<bool>,
    item: MetaView,
)
    ensures
        wanted_metas(entries, sessions, node, tag, owner, capability, available).contains(item)
            <==> meta_wanted(item, tag, owner, capability, available) && exists|i: int|
            0 <= i < entries.len() && meta_now(#[trigger] entries[i], sessions, node) == item,
    decreases entries.len(),
{
    if entries.len() > 0 {
        let rest = entries.drop_last();
        catalog_holds_what_is_wanted(
            rest,
            sessions,
            node,
            tag,
            owner,
            capability,
            available,
            item,
        );
        let before = wanted_metas(rest, sessions, node, tag, owner, capability, available);
        let own = meta_now(entries.last(), sessions, node);
        assert(entries[entries.len() - 1] == entries.last());
        if exists|i: int| 0 <= i < rest.len() && meta_now(#[trigger] rest[i], sessions, node)
            == item {
            let i = choose|i: int|
                0 <= i < rest.len() && meta_now(#[trigger] rest[i], sessions, node) == item;
            assert(entries[i] == rest[i]);
        }
        if exists|i: int| 0 <= i < entries.len() && meta_now(#[trigger] entries[i], sessions, node)
            == item {
            let i = choose|i: int|
                0 <= i < entries.len() && meta_now(#[trigger] entries[i], sessions, node) == item;
            if i < rest.len() {
                assert(rest[i] == entries[i]);
            }
        }
        if before.push(own).contains(item) {
            let k = choose|k: int| 0 <= k < before.len() + 1 && before.push(own)[k] == item;
            if k < before.len() {
                assert(before[k] == item);
            }
        }
        if before.contains(item) {
            let k = choose|k: int| 0 <= k < before.len() && before[k] == item;
            assert(before.push(own)[k] == item);
        }
        assert(before.push(own)[before.len() as int] == own);
    }
}

// ---------------------------------------------------------------- launches

/// What is missing goes before what is busy: a flow that lacks something is forbidden
/// here, one that must wait is asked too often.
pub proof fn refusals_have_reasons(
    name: Seq<char>,
    owner: Seq<char>,
    readiness: ReadinessView,
)
    ensures
        ({
            let lacks = readiness.missing_capabilities.len() > 0;
            let blocked = readiness.missing_providers.len() > 0;
            let refusal = launch_refusal_of(name, Some(owner), readiness);
            &&& lacks ==> refusal is Some && refusal->0.status == 403 && refusal->0.message
                == "workflow '"@ + name + "' requires missing capabilities: "@ + joined(
                readiness.missing_capabilities,
                ", "@,
            )
            &&& !lacks && blocked ==> refusal is Some && refusal->0.status == 403
                && refusal->0.message == "workflow '"@ + name + "' requires blocked providers: "@
                + joined(readiness.missing_providers, ", "@)
            &&& !lacks && !blocked && readiness.owner_concurrency_blocked ==> refusal is Some
                && refusal->0.status == 429 && refusal->0.message == "workflow '"@ + name
                + "' owner concurrency limit reached: owner='"@ + owner + "' running="@ + decimal(
                readiness.owner_running as nat,
            ) + " max_concurrency="@ + limit_text(readiness.owner_max_concurrency)
            &&& !lacks && !blocked && !readiness.owner_concurrency_blocked
                && readiness.concurrency_blocked ==> refusal is Some && refusal->0.status == 429
                && refusal->0.message == "workflow '"@ + name
                + "' concurrency limit reached: running="@ + decimal(readiness.running as nat)
                + " max_concurrency="@ + limit_text(readiness.max_concurrency)
        }),
{
}

/// A trigger says why it skipped a flow, with the reason for which a request is
/// refused.
pub proof fn skips_have_reasons(readiness: ReadinessView)
    ensures
        ({
            let lacks = readiness.missing_capabilities.len() > 0;
            let blocked = readiness.missing_providers.len() > 0;
            let decision = trigger_decision_of(readiness);
            &&& lacks ==> decision == TriggerView::SkippedCapability(
                readiness.missing_capabilities,
            )
            &&& !lacks && blocked ==> decision == TriggerView::SkippedProvider(
                readiness.missing_providers,
            )
            &&& !lacks && !blocked && readiness.owner_concurrency_blocked
                && readiness.owner_max_concurrency is Some ==> decision == (
            TriggerView::SkippedConcurrency {
                running: readiness.owner_running,
                max_concurrency: readiness.owner_max_concurrency->0,
            })
            &&& !lacks && !blocked && !readiness.owner_concurrency_blocked
                && readiness.concurrency_blocked && readiness.max_concurrency is Some ==> (
            if readiness.max_concurrency->0 == 1 {
                decision is SkippedRunning
            } else {
                decision == (TriggerView::SkippedConcurrency {
                    running: readiness.running,
                    max_concurrency: readiness.max_concurrency->0,
                })
            })
        }),
{
}

/// The log tells a trigger's source, its flow and the reason.
pub proof fn skips_are_logged(source: Seq<char>, name: Seq<char>, readiness: ReadinessView)
    ensures
        ({
            let lacks = readiness.missing_capabilities.len() > 0;
            let blocked = readiness.missing_providers.len() > 0;
            let head = "anna-rs daemon trigger="@ + source + " workflow='"@ + name
                + "' skipped: "@;
            let line = trigger_line(source, name, readiness);
            &&& lacks ==> line == Some(
                head + "missing capabilities ["@ + joined(readiness.missing_capabilities, ", "@)
                    + "]"@,
            )
            &&& !lacks && blocked ==> line == Some(
                head + "blocked providers ["@ + joined(readiness.missing_providers, ", "@) + "]"@,
            )
            &&& !lacks && !blocked && readiness.owner_concurrency_blocked ==> line == Some(
                head + "owner limit running="@ + decimal(readiness.owner_running as nat)
                    + " max="@ + limit_text(readiness.owner_max_concurrency),
            )
            &&& !lacks && !blocked && !readiness.owner_concurrency_blocked
                && readiness.concurrency_blocked && (readiness.max_concurrency == Some(1usize)
                || readiness.max_concurrency is None) ==> line == Some(head + "already running"@)
            &&& !lacks && !blocked && !readiness.owner_concurrency_blocked
                && readiness.concurrency_blocked && readiness.max_concurrency is Some
                && readiness.max_concurrency->0 != 1 ==> line == Some(
                head + "concurrency limit running="@ + decimal(readiness.running as nat)
                    + " max="@ + decimal(readiness.max_concurrency->0 as nat),
            )
        }),
{
}

/// The scheduler tells of what it skipped, but not of a flow that still runs.
pub proof fn running_flows_are_skipped_silently(
    kind: Seq<char>,
    name: Seq<char>,
    missing: Seq<Seq<char>>,
    running: usize,
    max_concurrency: usize,
)
    ensures
        skip_text(kind, name, TriggerView::Launch) is None,
        skip_text(kind, name, TriggerView::SkippedRunning) is None,
        skip_text(kind, name, TriggerView::SkippedCapability(missing)) == Some(
            "anna-rs scheduler: skipped "@ + kind + " trigger '"@ + name
                + "' due to missing capabilities: "@ + joined(missing, ", "@),
        ),
        skip_text(kind, name, TriggerView::SkippedProvider(missing)) == Some(
            "anna-rs scheduler: skipped "@ + kind + " trigger '"@ + name
                + "' due to blocked providers: "@ + joined(missing, ", "@),
        ),
        skip_text(kind, name, (TriggerView::SkippedConcurrency { running, max_concurrency }))
            == Some(
            "anna-rs scheduler: skipped "@ + kind + " trigger '"@ + name
                + "' due to concurrency limit running="@ + decimal(running as nat) + " max="@
                + decimal(max_concurrency as nat),
        ),
{
}

/// A launched workflow keeps its directory and takes that of the plays without one;
/// what the request says goes before what the workflow says, and nothing else changes.
pub proof fn requests_set_variables(
    workflow: WorkflowView,
    plays_dir: Seq<char>,
    vars: Seq<(Seq<char>, Seq<char>)>,
    key: Seq<char>,
)
    ensures
        ({
            let launched = launched_workflow(workflow, plays_dir, vars);
            &&& workflow.workdir is Some ==> launched.workdir == workflow.workdir
            &&& workflow.workdir is None ==> launched.workdir == Some(plays_dir)
            &&& lookup(vars, key) is Some ==> lookup(launched.vars, key) == lookup(vars, key)
            &&& lookup(vars, key) is None ==> lookup(launched.vars, key) == lookup(
                workflow.vars,
                key,
            )
            &&& launched.stages == workflow.stages && launched.name == workflow.name
        }),
{
    with_all_value(workflow.vars, vars, key);
}

/// A flow listens to the hook that it names, up to blanks round it, and to no other.
pub proof fn flows_listen_to_their_hook(entry: FlowView, path: Seq<char>)
    ensures
        entry.trigger_webhook is None ==> !listens(entry, path),
        entry.trigger_webhook matches Some(hook) ==> (listens(entry, path) <==> trimmed(hook)
            == path),
{
}

/// The catalog comes in the order of the ids.
pub proof fn catalog_is_ordered(items: Seq<MetaView>, i: int, j: int)
    requires
        0 <= i < j < items.len(),
    ensures
        ranked(items).len() == items.len(),
        !text_less(ranked(items)[j].id, ranked(items)[i].id),
{
    ranked_spec(items);
    assert(!RankView::precedes(ranked(items)[j], ranked(items)[i]));
}

/// A hook did nothing where it launched nothing and skipped nothing.
pub proof fn idle_hooks_do_nothing(outcomes: HookOutcomes)
    ensures
        outcomes.nothing() <==> outcomes.launched@.len() == 0 && outcomes.skipped_running@.len()
            == 0 && outcomes.skipped_capability@.len() == 0 && outcomes.skipped_provider@.len()
            == 0 && outcomes.skipped_concurrency@.len() == 0,
{
}

} // verus!
