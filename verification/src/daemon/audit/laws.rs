//! What the audit log tells.
use crate::daemon::audit::{
    audit_json, hook_event, hook_failed_event, hook_rejected_event, hook_unheard_event,
    intent_blocked_event, intent_launched_event, refresh_failed_event, reloaded_event,
    resolved_event, started_event, stop_event, stop_not_found_event, transition_json, EventView,
};
use crate::daemon::chat::{route_lines, RuleView};
use crate::daemon::launch::HookOutcomes;
use crate::daemon::policy::{core_json, leader_json, revision_of, InputsView};
use crate::daemon::sessions::{done_session, failed_session, PendingView, SessionView};
use crate::daemon::tasks::{finished_event, launched_event, sessions_after, LaunchView};
use crate::daemon::trigger::LeaderView;
use crate::json::{json_texts, number_or_null, text_or_null, wide, JsonView};
use crate::number::decimal;
use crate::order::{sorted_distinct, sorted_texts};
use crate::result::ResultView;
use crate::strmap::{lookup, put_spec};
use vstd::prelude::*;

verus! {

/// The members of what an event tells.
pub open spec fn members_of(event: EventView) -> Seq<(Seq<char>, JsonView)> {
    match event.data {
        JsonView::Object(members) => members,
        _ => Seq::empty(),
    }
}

/// Whether an event tells a value under a name.
pub open spec fn tells(event: EventView, name: Seq<char>, value: JsonView) -> bool {
    exists|i: int|
        0 <= i < members_of(event).len() && (#[trigger] members_of(event)[i]).0 == name
            && members_of(event)[i].1 == value
}

/// A line of the log tells when, where and what.
pub proof fn lines_tell_when_and_where(
    now: u64,
    node_id: Seq<char>,
    event: Seq<char>,
    data: JsonView,
)
    ensures
        ({
            let line = EventView { name: event, data: audit_json(now, node_id, event, data) };
            &&& tells(line, "data"@, data)
            &&& tells(line, "event"@, JsonView::Text(event))
            &&& tells(line, "node_id"@, JsonView::Text(node_id))
            &&& tells(line, "ts"@, JsonView::Number(Some(now), decimal(now as nat)))
            &&& members_of(line).len() == 4
        }),
{
    let line = EventView { name: event, data: audit_json(now, node_id, event, data) };
    assert(members_of(line)[0].0 == "data"@);
    assert(members_of(line)[1].0 == "event"@);
    assert(members_of(line)[2].0 == "node_id"@);
    assert(members_of(line)[3].0 == "ts"@);
}

/// The start of a daemon is logged with what it lets in, on which revision it stands
/// and what the node can do.
pub proof fn starts_are_logged(bind: Seq<char>, inputs: InputsView, lease_enabled: bool)
    ensures
        started_event(bind, inputs, lease_enabled).name == "daemon_started"@,
        tells(started_event(bind, inputs, lease_enabled), "bind"@, JsonView::Text(bind)),
        tells(
            started_event(bind, inputs, lease_enabled),
            "registry_enabled"@,
            JsonView::Bool(inputs.registry_enabled),
        ),
        tells(
            started_event(bind, inputs, lease_enabled),
            "auth_enabled"@,
            JsonView::Bool(inputs.auth_enabled),
        ),
        tells(
            started_event(bind, inputs, lease_enabled),
            "offline_mode"@,
            JsonView::Bool(inputs.offline_mode),
        ),
        tells(
            started_event(bind, inputs, lease_enabled),
            "chat_intents_count"@,
            number_or_null(Some(inputs.chat_intents.len() as u64)),
        ),
        tells(
            started_event(bind, inputs, lease_enabled),
            "trigger_lease_enabled"@,
            JsonView::Bool(lease_enabled),
        ),
        tells(
            started_event(bind, inputs, lease_enabled),
            "policy_revision"@,
            JsonView::Text(revision_of(core_json(inputs))),
        ),
        tells(
            started_event(bind, inputs, lease_enabled),
            "allowed_providers"@,
            JsonView::Array(
                json_texts(
                    match inputs.allowed_providers {
                        Some(allowed) => sorted_distinct(allowed),
                        None => Seq::empty(),
                    },
                ),
            ),
        ),
        tells(
            started_event(bind, inputs, lease_enabled),
            "node_capabilities"@,
            JsonView::Array(json_texts(sorted_distinct(inputs.node_capabilities))),
        ),
        members_of(started_event(bind, inputs, lease_enabled)).len() == 9,
{
    let members = members_of(started_event(bind, inputs, lease_enabled));
    assert(members[0].0 == "bind"@);
    assert(members[1].0 == "registry_enabled"@);
    assert(members[2].0 == "auth_enabled"@);
    assert(members[3].0 == "offline_mode"@);
    assert(members[4].0 == "chat_intents_count"@);
    assert(members[5].0 == "trigger_lease_enabled"@);
    assert(members[6].0 == "policy_revision"@);
    assert(members[7].0 == "allowed_providers"@);
    assert(members[8].0 == "node_capabilities"@);
}

/// A request that the guardrails turn away is logged with its caller and the reasons.
pub proof fn blocked_intents_are_logged(
    intent: Seq<char>,
    workflow: Seq<char>,
    caller: Option<Seq<char>>,
    reasons: Seq<Seq<char>>,
    requested: Option<u32>,
)
    ensures
        intent_blocked_event(intent, workflow, caller, reasons, requested).name == "chat_intent_blocked"@,
        tells(
            intent_blocked_event(intent, workflow, caller, reasons, requested),
            "intent"@,
            JsonView::Text(intent),
        ),
        tells(
            intent_blocked_event(intent, workflow, caller, reasons, requested),
            "workflow"@,
            JsonView::Text(workflow),
        ),
        tells(
            intent_blocked_event(intent, workflow, caller, reasons, requested),
            "caller"@,
            text_or_null(caller),
        ),
        tells(
            intent_blocked_event(intent, workflow, caller, reasons, requested),
            "reasons"@,
            JsonView::Array(json_texts(reasons)),
        ),
        tells(
            intent_blocked_event(intent, workflow, caller, reasons, requested),
            "requested_max_iterations"@,
            number_or_null(wide(requested)),
        ),
        members_of(intent_blocked_event(intent, workflow, caller, reasons, requested)).len() == 5,
{
    let members = members_of(intent_blocked_event(intent, workflow, caller, reasons, requested));
    assert(members[0].0 == "intent"@);
    assert(members[1].0 == "workflow"@);
    assert(members[2].0 == "caller"@);
    assert(members[3].0 == "reasons"@);
    assert(members[4].0 == "requested_max_iterations"@);
}

/// A launched intent is logged with its caller, its session and its iterations.
pub proof fn launched_intents_are_logged(
    intent: Seq<char>,
    workflow: Seq<char>,
    caller: Option<Seq<char>>,
    request_id: Seq<char>,
    effective: Option<u32>,
)
    ensures
        intent_launched_event(intent, workflow, caller, request_id, effective).name == "chat_intent_launched"@,
        tells(
            intent_launched_event(intent, workflow, caller, request_id, effective),
            "intent"@,
            JsonView::Text(intent),
        ),
        tells(
            intent_launched_event(intent, workflow, caller, request_id, effective),
            "workflow"@,
            JsonView::Text(workflow),
        ),
        tells(
            intent_launched_event(intent, workflow, caller, request_id, effective),
            "caller"@,
            text_or_null(caller),
        ),
        tells(
            intent_launched_event(intent, workflow, caller, request_id, effective),
            "request_id"@,
            JsonView::Text(request_id),
        ),
        tells(
            intent_launched_event(intent, workflow, caller, request_id, effective),
            "effective_max_iterations"@,
            number_or_null(wide(effective)),
        ),
        members_of(intent_launched_event(intent, workflow, caller, request_id, effective)).len() == 5,
{
    let members = members_of(intent_launched_event(intent, workflow, caller, request_id, effective));
    assert(members[0].0 == "intent"@);
    assert(members[1].0 == "workflow"@);
    assert(members[2].0 == "caller"@);
    assert(members[3].0 == "request_id"@);
    assert(members[4].0 == "effective_max_iterations"@);
}

/// A stop is logged with the session as it is then, and whether it ran.
pub proof fn stops_are_logged(session: SessionView, stopped: bool)
    ensures
        stop_event(session, stopped).name == "workflow_stop"@,
        tells(stop_event(session, stopped), "request_id"@, JsonView::Text(session.id)),
        tells(stop_event(session, stopped), "workflow"@, JsonView::Text(session.workflow)),
        tells(stop_event(session, stopped), "status"@, JsonView::Text(session.status)),
        tells(stop_event(session, stopped), "stopped_task"@, JsonView::Bool(stopped)),
        members_of(stop_event(session, stopped)).len() == 4,
{
    let members = members_of(stop_event(session, stopped));
    assert(members[0].0 == "request_id"@);
    assert(members[1].0 == "workflow"@);
    assert(members[2].0 == "status"@);
    assert(members[3].0 == "stopped_task"@);
}

/// A stop of a session that is not there is logged with its id.
pub proof fn vain_stops_are_logged(request_id: Seq<char>)
    ensures
        stop_not_found_event(request_id).name == "workflow_stop_not_found"@,
        tells(stop_not_found_event(request_id), "request_id"@, JsonView::Text(request_id)),
        members_of(stop_not_found_event(request_id)).len() == 1,
{
    let members = members_of(stop_not_found_event(request_id));
    assert(members[0].0 == "request_id"@);
}

/// A hook on a node that does not lead is logged with the node and the leader.
pub proof fn rejected_hooks_are_logged(hook: Seq<char>, leader: LeaderView)
    ensures
        hook_rejected_event(hook, leader).name == "hook_rejected_not_leader"@,
        tells(hook_rejected_event(hook, leader), "hook"@, JsonView::Text(hook)),
        tells(hook_rejected_event(hook, leader), "node_id"@, JsonView::Text(leader.node_id)),
        tells(hook_rejected_event(hook, leader), "leader"@, text_or_null(leader.holder)),
        tells(hook_rejected_event(hook, leader), "expires_at"@, number_or_null(leader.expires_at)),
        members_of(hook_rejected_event(hook, leader)).len() == 4,
{
    let members = members_of(hook_rejected_event(hook, leader));
    assert(members[0].0 == "hook"@);
    assert(members[1].0 == "node_id"@);
    assert(members[2].0 == "leader"@);
    assert(members[3].0 == "expires_at"@);
}

/// A hook whose flows could not be found is logged with the error.
pub proof fn failed_hooks_are_logged(hook: Seq<char>, error: Seq<char>)
    ensures
        hook_failed_event(hook, error).name == "hook_scan_failed"@,
        tells(hook_failed_event(hook, error), "hook"@, JsonView::Text(hook)),
        tells(hook_failed_event(hook, error), "error"@, JsonView::Text(error)),
        members_of(hook_failed_event(hook, error)).len() == 2,
{
    let members = members_of(hook_failed_event(hook, error));
    assert(members[0].0 == "hook"@);
    assert(members[1].0 == "error"@);
}

/// A hook that no flow listens to is logged.
pub proof fn unheard_hooks_are_logged(hook: Seq<char>)
    ensures
        hook_unheard_event(hook).name == "hook_no_match"@,
        tells(hook_unheard_event(hook), "hook"@, JsonView::Text(hook)),
        members_of(hook_unheard_event(hook)).len() == 1,
{
    let members = members_of(hook_unheard_event(hook));
    assert(members[0].0 == "hook"@);
}

/// A hook is logged with how many flows it launched and skipped, and why.
pub proof fn heard_hooks_are_logged(hook: Seq<char>, outcomes: HookOutcomes)
    ensures
        hook_event(hook, outcomes).name == "hook_triggered"@,
        tells(hook_event(hook, outcomes), "hook"@, JsonView::Text(hook)),
        tells(
            hook_event(hook, outcomes),
            "launched"@,
            number_or_null(Some(outcomes.launched@.len() as u64)),
        ),
        tells(
            hook_event(hook, outcomes),
            "skipped_running"@,
            number_or_null(Some(outcomes.skipped_running@.len() as u64)),
        ),
        tells(
            hook_event(hook, outcomes),
            "skipped_capability"@,
            number_or_null(Some(outcomes.skipped_capability@.len() as u64)),
        ),
        tells(
            hook_event(hook, outcomes),
            "skipped_provider"@,
            number_or_null(Some(outcomes.skipped_provider@.len() as u64)),
        ),
        tells(
            hook_event(hook, outcomes),
            "skipped_concurrency"@,
            number_or_null(Some(outcomes.skipped_concurrency@.len() as u64)),
        ),
        members_of(hook_event(hook, outcomes)).len() == 6,
{
    let members = members_of(hook_event(hook, outcomes));
    assert(members[0].0 == "hook"@);
    assert(members[1].0 == "launched"@);
    assert(members[2].0 == "skipped_running"@);
    assert(members[3].0 == "skipped_capability"@);
    assert(members[4].0 == "skipped_provider"@);
    assert(members[5].0 == "skipped_concurrency"@);
}

/// A decision is logged with what it was asked for.
pub proof fn decisions_are_logged(item: PendingView)
    ensures
        resolved_event(item).name == "hitl_resolved"@,
        tells(resolved_event(item), "hitl_id"@, JsonView::Text(item.id)),
        tells(resolved_event(item), "session_id"@, JsonView::Text(item.session_id)),
        tells(resolved_event(item), "workflow"@, JsonView::Text(item.workflow)),
        tells(resolved_event(item), "stage_id"@, JsonView::Text(item.stage_id)),
        tells(resolved_event(item), "decision"@, text_or_null(item.decision)),
        members_of(resolved_event(item)).len() == 5,
{
    let members = members_of(resolved_event(item));
    assert(members[0].0 == "hitl_id"@);
    assert(members[1].0 == "session_id"@);
    assert(members[2].0 == "workflow"@);
    assert(members[3].0 == "stage_id"@);
    assert(members[4].0 == "decision"@);
}

/// A lease that could not be refreshed is logged with the error.
pub proof fn lost_leases_are_logged(node_id: Seq<char>, lease_file: Seq<char>, error: Seq<char>)
    ensures
        refresh_failed_event(node_id, lease_file, error).name == "trigger_leader_refresh_failed"@,
        tells(
            refresh_failed_event(node_id, lease_file, error),
            "node_id"@,
            JsonView::Text(node_id),
        ),
        tells(
            refresh_failed_event(node_id, lease_file, error),
            "lease_file"@,
            JsonView::Text(lease_file),
        ),
        tells(refresh_failed_event(node_id, lease_file, error), "error"@, JsonView::Text(error)),
        members_of(refresh_failed_event(node_id, lease_file, error)).len() == 3,
{
    let members = members_of(refresh_failed_event(node_id, lease_file, error));
    assert(members[0].0 == "node_id"@);
    assert(members[1].0 == "lease_file"@);
    assert(members[2].0 == "error"@);
}

/// Reloaded intents are logged with their routes.
pub proof fn reloads_are_logged(intents: Seq<(Seq<char>, RuleView)>)
    ensures
        reloaded_event(intents).name == "chat_intents_reloaded"@,
        tells(reloaded_event(intents), "count"@, number_or_null(Some(intents.len() as u64))),
        tells(
            reloaded_event(intents),
            "routes"@,
            JsonView::Array(json_texts(sorted_texts(route_lines(intents)))),
        ),
        members_of(reloaded_event(intents)).len() == 2,
{
    let members = members_of(reloaded_event(intents));
    assert(members[0].0 == "count"@);
    assert(members[1].0 == "routes"@);
}

/// A launch is logged with its session, its run and where it came from.
pub proof fn launches_are_logged(launch: LaunchView, max_iterations: Option<u32>)
    ensures
        launched_event(launch, max_iterations).name == "workflow_launched"@,
        tells(launched_event(launch, max_iterations), "request_id"@, JsonView::Text(launch.id)),
        tells(
            launched_event(launch, max_iterations),
            "runtime_session_id"@,
            JsonView::Text(launch.runtime_id),
        ),
        tells(launched_event(launch, max_iterations), "workflow"@, JsonView::Text(launch.workflow)),
        tells(launched_event(launch, max_iterations), "owner"@, text_or_null(launch.owner)),
        tells(launched_event(launch, max_iterations), "source"@, JsonView::Text(launch.source)),
        tells(
            launched_event(launch, max_iterations),
            "max_iterations"@,
            number_or_null(wide(max_iterations)),
        ),
        members_of(launched_event(launch, max_iterations)).len() == 6,
{
    let members = members_of(launched_event(launch, max_iterations));
    assert(members[0].0 == "request_id"@);
    assert(members[1].0 == "runtime_session_id"@);
    assert(members[2].0 == "workflow"@);
    assert(members[3].0 == "owner"@);
    assert(members[4].0 == "source"@);
    assert(members[5].0 == "max_iterations"@);
}

/// A change of leadership is logged with what was before and what is now.
pub proof fn changes_of_leadership_are_logged(
    name: Seq<char>,
    previous: LeaderView,
    next: LeaderView,
)
    ensures
        ({
            let event = EventView { name, data: transition_json(previous, next) };
            &&& tells(event, "next"@, leader_json(next))
            &&& tells(event, "previous"@, leader_json(previous))
        }),
{
    let event = EventView { name, data: transition_json(previous, next) };
    assert(members_of(event)[0].0 == "next"@);
    assert(members_of(event)[1].0 == "previous"@);
}

/// The end of a launch is logged with its session, how it went and how long it took.
pub proof fn ends_are_logged(launch: LaunchView, result: ResultView, message: Seq<char>, ms: u64)
    ensures
        ({
            let done = finished_event(launch, Ok(result), ms);
            &&& done.name == "workflow_finished"@
            &&& tells(done, "request_id"@, JsonView::Text(launch.id))
            &&& tells(done, "workflow"@, JsonView::Text(launch.workflow))
            &&& tells(done, "owner"@, text_or_null(launch.owner))
            &&& tells(done, "source"@, JsonView::Text(launch.source))
            &&& tells(done, "elapsed_ms"@, number_or_null(Some(ms)))
            &&& tells(done, "runtime_session_id"@, JsonView::Text(result.session_id))
            &&& tells(done, "status"@, JsonView::Text("done"@))
            &&& tells(done, "outputs_count"@, number_or_null(Some(result.outputs.len() as u64)))
            &&& tells(done, "errors_count"@, number_or_null(Some(result.errors.len() as u64)))
        }),
        ({
            let failed = finished_event(launch, Err(message), ms);
            &&& failed.name == "workflow_finished"@
            &&& tells(failed, "request_id"@, JsonView::Text(launch.id))
            &&& tells(failed, "workflow"@, JsonView::Text(launch.workflow))
            &&& tells(failed, "owner"@, text_or_null(launch.owner))
            &&& tells(failed, "source"@, JsonView::Text(launch.source))
            &&& tells(failed, "elapsed_ms"@, number_or_null(Some(ms)))
            &&& tells(failed, "runtime_session_id"@, JsonView::Text(launch.runtime_id))
            &&& tells(failed, "status"@, JsonView::Text("failed"@))
            &&& tells(failed, "error"@, JsonView::Text(message))
        }),
{
    let done = members_of(finished_event(launch, Ok(result), ms));
    assert(done[0].0 == "request_id"@);
    assert(done[1].0 == "workflow"@);
    assert(done[2].0 == "owner"@);
    assert(done[3].0 == "source"@);
    assert(done[4].0 == "elapsed_ms"@);
    assert(done[5].0 == "runtime_session_id"@);
    assert(done[6].0 == "status"@);
    assert(done[7].0 == "outputs_count"@);
    assert(done[8].0 == "errors_count"@);
    let failed = members_of(finished_event(launch, Err(message), ms));
    assert(failed[0].0 == "request_id"@);
    assert(failed[1].0 == "workflow"@);
    assert(failed[2].0 == "owner"@);
    assert(failed[3].0 == "source"@);
    assert(failed[4].0 == "elapsed_ms"@);
    assert(failed[5].0 == "runtime_session_id"@);
    assert(failed[6].0 == "status"@);
    assert(failed[7].0 == "error"@);
}

/// The end of a run is kept in its session: its outputs and errors where it ended well,
/// its message where it failed. No other session changes.
pub proof fn ends_are_kept_in_sessions(
    sessions: Seq<(Seq<char>, SessionView)>,
    id: Seq<char>,
    result: ResultView,
    message: Seq<char>,
    now: u64,
    other: Seq<char>,
)
    ensures
        lookup(sessions, id) is None ==> sessions_after(sessions, id, Ok(result), now) == sessions
            && sessions_after(sessions, id, Err(message), now) == sessions,
        lookup(sessions, id) matches Some(session) ==> {
            &&& lookup(sessions_after(sessions, id, Ok(result), now), id) == Some(
                done_session(session, result.session_id, result.outputs, result.errors, now),
            )
            &&& lookup(sessions_after(sessions, id, Err(message), now), id) == Some(
                failed_session(session, message, now),
            )
        },
        other != id ==> lookup(sessions_after(sessions, id, Ok(result), now), other) == lookup(
            sessions,
            other,
        ) && lookup(sessions_after(sessions, id, Err(message), now), other) == lookup(
            sessions,
            other,
        ),
{
    if let Some(session) = lookup(sessions, id) {
        put_spec(
            sessions,
            id,
            done_session(session, result.session_id, result.outputs, result.errors, now),
        );
        put_spec(sessions, id, failed_session(session, message, now));
    }
}

} // verus!
