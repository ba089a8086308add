//! The audit log: its lines and its events.
use crate::daemon::chat::{route_lines, route_texts, ChatIntentConfig, RuleView};
use crate::daemon::launch::HookOutcomes;
use crate::daemon::policy::{
    build_policy_core, core_json, leader_json, leader_value, policy_revision_and_signature,
    revision_of, sorted_set_values, InputsView, PolicyInputs,
};
use crate::daemon::sessions::{HitlPending, PendingView, SessionInfo, SessionView};
use crate::daemon::settings::TriggerLeaseConfig;
use crate::daemon::trigger::{
    transition_name, trigger_leader_state_changed, trigger_leader_transition_event, LeaderView,
    TriggerLeaderState,
};
use crate::json::{
    compact_json, json_normal, json_text, json_texts, number, number_or_null, object1, opt_number,
    opt_text_value, text, text_array, text_or_null, wide, widened, with_member, Json, JsonView,
};
use crate::number::decimal;
use crate::order::{sorted_distinct, sorted_texts};
use crate::strmap::StrMap;
use crate::text::{cat2, opt_text, texts};
use vstd::prelude::*;

pub mod laws;

verus! {

// ---------------------------------------------------------------- lines

/// An event of the audit log as JSON.
pub open spec fn audit_json(
    now: u64,
    node_id: Seq<char>,
    event: Seq<char>,
    data: JsonView,
) -> JsonView {
    JsonView::Object(
        seq![
            ("data"@, data),
            ("event"@, JsonView::Text(event)),
            ("node_id"@, JsonView::Text(node_id)),
            ("ts"@, JsonView::Number(Some(now), decimal(now as nat))),
        ],
    )
}

/// The line that the audit log gets for an event.
pub fn audit_line(now: u64, node_id: &str, event: &str, data: Json) -> (r: String)
    ensures
        r@ == json_text(json_normal(audit_json(now, node_id@, event@, data@))) + "\n"@,
{
    let ghost given = data@;
    let a = object1("data", data);
    let b = with_member(a, "event", text(event));
    let c = with_member(b, "node_id", text(node_id));
    let doc = with_member(c, "ts", number(now));
    assert(doc@->Object_0 =~= audit_json(now, node_id@, event@, given)->Object_0);
    let line = compact_json(&doc);
    cat2(line.as_str(), "\n")
}

// ---------------------------------------------------------------- events

/// An event and its data.
pub struct AuditEvent {
    pub name: &'static str,
    pub data: Json,
}

/// An event, as plain values.
pub struct EventView {
    pub name: Seq<char>,
    pub data: JsonView,
}

impl View for AuditEvent {
    type V = EventView;

    open spec fn view(&self) -> EventView {
        EventView { name: self.name@, data: self.data@ }
    }
}

/// The event with the given members as its data.
pub open spec fn event_with(name: Seq<char>, members: Seq<(Seq<char>, JsonView)>) -> EventView {
    EventView { name, data: JsonView::Object(members) }
}

/// A daemon starts.
pub open spec fn started_event(
    bind: Seq<char>,
    inputs: InputsView,
    lease_enabled: bool,
) -> EventView {
    event_with(
        "daemon_started"@,
        seq![
            ("bind"@, JsonView::Text(bind)),
            ("registry_enabled"@, JsonView::Bool(inputs.registry_enabled)),
            ("auth_enabled"@, JsonView::Bool(inputs.auth_enabled)),
            ("offline_mode"@, JsonView::Bool(inputs.offline_mode)),
            ("chat_intents_count"@, number_or_null(Some(inputs.chat_intents.len() as u64))),
            ("trigger_lease_enabled"@, JsonView::Bool(lease_enabled)),
            ("policy_revision"@, JsonView::Text(revision_of(core_json(inputs)))),
            (
                "allowed_providers"@,
                JsonView::Array(
                    json_texts(
                        match inputs.allowed_providers {
                            Some(allowed) => sorted_distinct(allowed),
                            None => Seq::empty(),
                        },
                    ),
                ),
            ),
            (
                "node_capabilities"@,
                JsonView::Array(json_texts(sorted_distinct(inputs.node_capabilities))),
            ),
        ],
    )
}

pub fn daemon_started(
    bind: &str,
    inputs: &PolicyInputs,
    lease_enabled: bool,
    signing_key: Option<&str>,
) -> (r: AuditEvent)
    ensures
        r@ == started_event(bind@, inputs@, lease_enabled),
{
    let core = build_policy_core(inputs);
    let (revision, _) = policy_revision_and_signature(&core, signing_key);
    let allowed = sorted_set_values(inputs.allowed_providers.as_ref());
    let capabilities = sorted_set_values(Some(inputs.node_capabilities));
    let data = object1("bind", text(bind));
    let data = with_member(data, "registry_enabled", Json::Bool(inputs.registry_enabled));
    let data = with_member(data, "auth_enabled", Json::Bool(inputs.auth_enabled));
    let data = with_member(data, "offline_mode", Json::Bool(inputs.offline_mode));
    let data = with_member(data, "chat_intents_count", number(inputs.chat_intents.len() as u64));
    let data = with_member(data, "trigger_lease_enabled", Json::Bool(lease_enabled));
    let data = with_member(data, "policy_revision", text(revision.as_str()));
    let data = with_member(data, "allowed_providers", text_array(&allowed));
    let data = with_member(data, "node_capabilities", text_array(&capabilities));
    assert(data@->Object_0 =~= started_event(bind@, inputs@, lease_enabled).data->Object_0);
    AuditEvent { name: "daemon_started", data }
}

/// The guardrails of an intent turn a request away.
pub open spec fn intent_blocked_event(
    intent: Seq<char>,
    workflow: Seq<char>,
    caller: Option<Seq<char>>,
    reasons: Seq<Seq<char>>,
    requested: Option<u32>,
) -> EventView {
    event_with(
        "chat_intent_blocked"@,
        seq![
            ("intent"@, JsonView::Text(intent)),
            ("workflow"@, JsonView::Text(workflow)),
            ("caller"@, text_or_null(caller)),
            ("reasons"@, JsonView::Array(json_texts(reasons))),
            ("requested_max_iterations"@, number_or_null(wide(requested))),
        ],
    )
}

pub fn chat_intent_blocked(
    intent: &str,
    workflow: &str,
    caller: &Option<String>,
    reasons: &Vec<String>,
    requested: Option<u32>,
) -> (r: AuditEvent)
    ensures
        r@ == intent_blocked_event(
            intent@,
            workflow@,
            opt_text(*caller),
            texts(reasons@),
            requested,
        ),
{
    let data = object1("intent", text(intent));
    let data = with_member(data, "workflow", text(workflow));
    let data = with_member(data, "caller", opt_text_value(caller));
    let data = with_member(data, "reasons", text_array(reasons));
    let data = with_member(data, "requested_max_iterations", opt_number(widened(requested)));
    assert(data@->Object_0 =~= intent_blocked_event(
        intent@,
        workflow@,
        opt_text(*caller),
        texts(reasons@),
        requested,
    ).data->Object_0);
    AuditEvent { name: "chat_intent_blocked", data }
}

/// An intent launches its flow.
pub open spec fn intent_launched_event(
    intent: Seq<char>,
    workflow: Seq<char>,
    caller: Option<Seq<char>>,
    request_id: Seq<char>,
    effective: Option<u32>,
) -> EventView {
    event_with(
        "chat_intent_launched"@,
        seq![
            ("intent"@, JsonView::Text(intent)),
            ("workflow"@, JsonView::Text(workflow)),
            ("caller"@, text_or_null(caller)),
            ("request_id"@, JsonView::Text(request_id)),
            ("effective_max_iterations"@, number_or_null(wide(effective))),
        ],
    )
}

pub fn chat_intent_launched(
    intent: &str,
    workflow: &str,
    caller: &Option<String>,
    request_id: &str,
    effective: Option<u32>,
) -> (r: AuditEvent)
    ensures
        r@ == intent_launched_event(intent@, workflow@, opt_text(*caller), request_id@, effective),
{
    let data = object1("intent", text(intent));
    let data = with_member(data, "workflow", text(workflow));
    let data = with_member(data, "caller", opt_text_value(caller));
    let data = with_member(data, "request_id", text(request_id));
    let data = with_member(data, "effective_max_iterations", opt_number(widened(effective)));
    assert(data@->Object_0 =~= intent_launched_event(
        intent@,
        workflow@,
        opt_text(*caller),
        request_id@,
        effective,
    ).data->Object_0);
    AuditEvent { name: "chat_intent_launched", data }
}

/// A session was asked to stop; `stopped` tells whether it ran.
pub open spec fn stop_event(session: SessionView, stopped: bool) -> EventView {
    event_with(
        "workflow_stop"@,
        seq![
            ("request_id"@, JsonView::Text(session.id)),
            ("workflow"@, JsonView::Text(session.workflow)),
            ("status"@, JsonView::Text(session.status)),
            ("stopped_task"@, JsonView::Bool(stopped)),
        ],
    )
}

pub fn workflow_stop(session: &SessionInfo, stopped: bool) -> (r: AuditEvent)
    ensures
        r@ == stop_event(session@, stopped),
{
    let data = object1("request_id", text(session.id.as_str()));
    let data = with_member(data, "workflow", text(session.workflow.as_str()));
    let data = with_member(data, "status", text(session.status.as_str()));
    let data = with_member(data, "stopped_task", Json::Bool(stopped));
    assert(data@->Object_0 =~= stop_event(session@, stopped).data->Object_0);
    AuditEvent { name: "workflow_stop", data }
}

/// A session that is not there was asked to stop.
pub open spec fn stop_not_found_event(request_id: Seq<char>) -> EventView {
    event_with(
        "workflow_stop_not_found"@,
        seq![
            ("request_id"@, JsonView::Text(request_id)),
        ],
    )
}

pub fn workflow_stop_not_found(request_id: &str) -> (r: AuditEvent)
    ensures
        r@ == stop_not_found_event(request_id@),
{
    let data = object1("request_id", text(request_id));
    assert(data@->Object_0 =~= stop_not_found_event(request_id@).data->Object_0);
    AuditEvent { name: "workflow_stop_not_found", data }
}

/// A hook came to a node that does not lead.
pub open spec fn hook_rejected_event(hook: Seq<char>, leader: LeaderView) -> EventView {
    event_with(
        "hook_rejected_not_leader"@,
        seq![
            ("hook"@, JsonView::Text(hook)),
            ("node_id"@, JsonView::Text(leader.node_id)),
            ("leader"@, text_or_null(leader.holder)),
            ("expires_at"@, number_or_null(leader.expires_at)),
        ],
    )
}

pub fn hook_rejected_not_leader(hook: &str, leader: &TriggerLeaderState) -> (r: AuditEvent)
    ensures
        r@ == hook_rejected_event(hook@, leader@),
{
    let data = object1("hook", text(hook));
    let data = with_member(data, "node_id", text(leader.node_id.as_str()));
    let data = with_member(data, "leader", opt_text_value(&leader.holder));
    let data = with_member(data, "expires_at", opt_number(leader.expires_at));
    assert(data@->Object_0 =~= hook_rejected_event(hook@, leader@).data->Object_0);
    AuditEvent { name: "hook_rejected_not_leader", data }
}

/// The flows that listen to a hook could not be found.
pub open spec fn hook_failed_event(hook: Seq<char>, error: Seq<char>) -> EventView {
    event_with(
        "hook_scan_failed"@,
        seq![
            ("hook"@, JsonView::Text(hook)),
            ("error"@, JsonView::Text(error)),
        ],
    )
}

pub fn hook_scan_failed(hook: &str, error: &str) -> (r: AuditEvent)
    ensures
        r@ == hook_failed_event(hook@, error@),
{
    let data = object1("hook", text(hook));
    let data = with_member(data, "error", text(error));
    assert(data@->Object_0 =~= hook_failed_event(hook@, error@).data->Object_0);
    AuditEvent { name: "hook_scan_failed", data }
}

/// No flow listens to a hook.
pub open spec fn hook_unheard_event(hook: Seq<char>) -> EventView {
    event_with(
        "hook_no_match"@,
        seq![
            ("hook"@, JsonView::Text(hook)),
        ],
    )
}

pub fn hook_no_match(hook: &str) -> (r: AuditEvent)
    ensures
        r@ == hook_unheard_event(hook@),
{
    let data = object1("hook", text(hook));
    assert(data@->Object_0 =~= hook_unheard_event(hook@).data->Object_0);
    AuditEvent { name: "hook_no_match", data }
}

/// A hook was heard: how many flows it launched and skipped.
pub open spec fn hook_event(hook: Seq<char>, outcomes: HookOutcomes) -> EventView {
    event_with(
        "hook_triggered"@,
        seq![
            ("hook"@, JsonView::Text(hook)),
            ("launched"@, number_or_null(Some(outcomes.launched@.len() as u64))),
            ("skipped_running"@, number_or_null(Some(outcomes.skipped_running@.len() as u64))),
            (
                "skipped_capability"@,
                number_or_null(Some(outcomes.skipped_capability@.len() as u64)),
            ),
            (
                "skipped_provider"@,
                number_or_null(Some(outcomes.skipped_provider@.len() as u64)),
            ),
            (
                "skipped_concurrency"@,
                number_or_null(Some(outcomes.skipped_concurrency@.len() as u64)),
            ),
        ],
    )
}

pub fn hook_triggered(hook: &str, outcomes: &HookOutcomes) -> (r: AuditEvent)
    ensures
        r@ == hook_event(hook@, *outcomes),
{
    let data = object1("hook", text(hook));
    let data = with_member(data, "launched", number(outcomes.launched.len() as u64));
    let data = with_member(data, "skipped_running", number(outcomes.skipped_running.len() as u64));
    let data = with_member(
        data,
        "skipped_capability",
        number(outcomes.skipped_capability.len() as u64),
    );
    let data = with_member(
        data,
        "skipped_provider",
        number(outcomes.skipped_provider.len() as u64),
    );
    let data = with_member(
        data,
        "skipped_concurrency",
        number(outcomes.skipped_concurrency.len() as u64),
    );
    assert(data@->Object_0 =~= hook_event(hook@, *outcomes).data->Object_0);
    AuditEvent { name: "hook_triggered", data }
}

/// A decision was made.
pub open spec fn resolved_event(item: PendingView) -> EventView {
    event_with(
        "hitl_resolved"@,
        seq![
            ("hitl_id"@, JsonView::Text(item.id)),
            ("session_id"@, JsonView::Text(item.session_id)),
            ("workflow"@, JsonView::Text(item.workflow)),
            ("stage_id"@, JsonView::Text(item.stage_id)),
            ("decision"@, text_or_null(item.decision)),
        ],
    )
}

pub fn hitl_resolved(item: &HitlPending) -> (r: AuditEvent)
    ensures
        r@ == resolved_event(item@),
{
    let data = object1("hitl_id", text(item.id.as_str()));
    let data = with_member(data, "session_id", text(item.session_id.as_str()));
    let data = with_member(data, "workflow", text(item.workflow.as_str()));
    let data = with_member(data, "stage_id", text(item.stage_id.as_str()));
    let data = with_member(data, "decision", opt_text_value(&item.decision));
    assert(data@->Object_0 =~= resolved_event(item@).data->Object_0);
    AuditEvent { name: "hitl_resolved", data }
}

/// The lease could not be read or written.
pub open spec fn refresh_failed_event(
    node_id: Seq<char>,
    lease_file: Seq<char>,
    error: Seq<char>,
) -> EventView {
    event_with(
        "trigger_leader_refresh_failed"@,
        seq![
            ("node_id"@, JsonView::Text(node_id)),
            ("lease_file"@, JsonView::Text(lease_file)),
            ("error"@, JsonView::Text(error)),
        ],
    )
}

pub fn leader_refresh_failed(config: &TriggerLeaseConfig, error: &str) -> (r: AuditEvent)
    ensures
        r@ == refresh_failed_event(config.node_id@, config.lease_file@, error@),
{
    let data = object1("node_id", text(config.node_id.as_str()));
    let data = with_member(data, "lease_file", text(config.lease_file.as_str()));
    let data = with_member(data, "error", text(error));
    assert(data@->Object_0 =~= refresh_failed_event(
        config.node_id@,
        config.lease_file@,
        error@,
    ).data->Object_0);
    AuditEvent { name: "trigger_leader_refresh_failed", data }
}

/// The intents have other rules than before.
pub open spec fn reloaded_event(intents: Seq<(Seq<char>, RuleView)>) -> EventView {
    event_with(
        "chat_intents_reloaded"@,
        seq![
            ("count"@, number_or_null(Some(intents.len() as u64))),
            ("routes"@, JsonView::Array(json_texts(sorted_texts(route_lines(intents))))),
        ],
    )
}

pub fn chat_intents_reloaded(intents: &StrMap<ChatIntentConfig>) -> (r: AuditEvent)
    ensures
        r@ == reloaded_event(intents.entries()),
{
    let routes = route_texts(intents);
    let data = object1("count", number(intents.len() as u64));
    let data = with_member(data, "routes", text_array(&routes));
    assert(data@->Object_0 =~= reloaded_event(intents.entries()).data->Object_0);
    AuditEvent { name: "chat_intents_reloaded", data }
}

/// The states before and after a change of leadership, as JSON.
pub open spec fn transition_json(previous: LeaderView, next: LeaderView) -> JsonView {
    JsonView::Object(seq![("next"@, leader_json(next)), ("previous"@, leader_json(previous))])
}

/// The leadership has changed; nothing is told where it has not.
pub fn leader_transition(previous: &TriggerLeaderState, next: &TriggerLeaderState) -> (r: Option<
    AuditEvent,
>)
    ensures
        r matches Some(event) ==> event@ == (EventView {
            name: transition_name(previous@, next@),
            data: transition_json(previous@, next@),
        }),
        r is Some <==> previous@.enabled != next@.enabled || previous@.is_leader != next@.is_leader
            || previous@.holder != next@.holder,
{
    if !trigger_leader_state_changed(previous, next) {
        return None;
    }
    let data = with_member(object1("next", leader_value(next)), "previous", leader_value(previous));
    assert(data@->Object_0 =~= transition_json(previous@, next@)->Object_0);
    Some(AuditEvent { name: trigger_leader_transition_event(previous, next), data })
}

} // verus!
