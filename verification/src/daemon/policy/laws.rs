//! What the documents of the policy hold.
use crate::daemon::chat::{routes_of, RouteView, RuleView};
use crate::daemon::policy::{
    algorithm_json, algorithm_name, core_json, leader_json, limit_json, limit_or_null, limits_json,
    limits_of, revision_of, routes_json, rule_json, signature_of, snapshot_json,
    trigger_policy_json, values_json, InputsView, LimitView, PolicyResponse,
};
use crate::daemon::trigger::LeaderView;
use crate::json::laws::{holds, members_of};
use crate::json::{json_normal, json_text, json_texts, number_or_null, text_or_null, JsonView};
use crate::number::decimal;
use crate::order::{sorted_distinct, sorted_distinct_spec, text_less};
use crate::policy_crypto::{digest_text, signature_text};
use crate::ranking::{ranked, ranked_spec, RankView};
use crate::text::{blank, trimmed};
use vstd::prelude::*;

verus! {

/// The document of a policy holds all that the policy is made of.
pub proof fn policies_hold_what_they_are_made_of(inputs: InputsView)
    ensures
        holds(core_json(inputs), "allowed_providers"@, values_json(inputs.allowed_providers)),
        holds(core_json(inputs), "auth_enabled"@, JsonView::Bool(inputs.auth_enabled)),
        holds(
            core_json(inputs),
            "chat_intents"@,
            JsonView::Object(routes_json(ranked(routes_of(inputs.chat_intents)))),
        ),
        holds(core_json(inputs), "node_capabilities"@, values_json(Some(inputs.node_capabilities))),
        holds(core_json(inputs), "offline_mode"@, JsonView::Bool(inputs.offline_mode)),
        holds(core_json(inputs), "owner_default_limit"@, limit_or_null(inputs.default_limit)),
        holds(
            core_json(inputs),
            "owner_limits"@,
            JsonView::Array(limits_json(ranked(limits_of(inputs.per_owner)))),
        ),
        holds(core_json(inputs), "registry_enabled"@, JsonView::Bool(inputs.registry_enabled)),
        holds(core_json(inputs), "trigger_policy"@, trigger_policy_json(inputs.leader)),
        members_of(core_json(inputs)).len() == 9,
{
    let members = members_of(core_json(inputs));
    assert(members[0].0 == "allowed_providers"@);
    assert(members[1].0 == "auth_enabled"@);
    assert(members[2].0 == "chat_intents"@);
    assert(members[3].0 == "node_capabilities"@);
    assert(members[4].0 == "offline_mode"@);
    assert(members[5].0 == "owner_default_limit"@);
    assert(members[6].0 == "owner_limits"@);
    assert(members[7].0 == "registry_enabled"@);
    assert(members[8].0 == "trigger_policy"@);
}

/// A snapshot holds the policy, its revision and signature, and who led when it was
/// taken.
pub proof fn snapshots_hold_the_policy(inputs: InputsView, key: Option<Seq<char>>, now: u64)
    ensures
        holds(
            snapshot_json(inputs, key, now),
            "allowed_providers"@,
            values_json(inputs.allowed_providers),
        ),
        holds(
            snapshot_json(inputs, key, now),
            "auth_enabled"@,
            JsonView::Bool(inputs.auth_enabled),
        ),
        holds(
            snapshot_json(inputs, key, now),
            "chat_intents"@,
            JsonView::Object(routes_json(ranked(routes_of(inputs.chat_intents)))),
        ),
        holds(
            snapshot_json(inputs, key, now),
            "node_capabilities"@,
            values_json(Some(inputs.node_capabilities)),
        ),
        holds(
            snapshot_json(inputs, key, now),
            "offline_mode"@,
            JsonView::Bool(inputs.offline_mode),
        ),
        holds(
            snapshot_json(inputs, key, now),
            "owner_default_limit"@,
            limit_or_null(inputs.default_limit),
        ),
        holds(
            snapshot_json(inputs, key, now),
            "owner_limits"@,
            JsonView::Array(limits_json(ranked(limits_of(inputs.per_owner)))),
        ),
        holds(snapshot_json(inputs, key, now), "policy_core"@, core_json(inputs)),
        holds(
            snapshot_json(inputs, key, now),
            "policy_revision"@,
            JsonView::Text(revision_of(core_json(inputs))),
        ),
        holds(
            snapshot_json(inputs, key, now),
            "policy_signature"@,
            text_or_null(signature_of(revision_of(core_json(inputs)), key)),
        ),
        holds(snapshot_json(inputs, key, now), "policy_signature_algorithm"@, algorithm_json(key)),
        holds(
            snapshot_json(inputs, key, now),
            "registry_enabled"@,
            JsonView::Bool(inputs.registry_enabled),
        ),
        holds(
            snapshot_json(inputs, key, now),
            "saved_at"@,
            JsonView::Number(Some(now), decimal(now as nat)),
        ),
        holds(
            snapshot_json(inputs, key, now),
            "trigger_policy"@,
            trigger_policy_json(inputs.leader),
        ),
        holds(snapshot_json(inputs, key, now), "trigger_scheduler"@, leader_json(inputs.leader)),
        members_of(snapshot_json(inputs, key, now)).len() == 15,
{
    let members = members_of(snapshot_json(inputs, key, now));
    assert(members[0].0 == "allowed_providers"@);
    assert(members[1].0 == "auth_enabled"@);
    assert(members[2].0 == "chat_intents"@);
    assert(members[3].0 == "node_capabilities"@);
    assert(members[4].0 == "offline_mode"@);
    assert(members[5].0 == "owner_default_limit"@);
    assert(members[6].0 == "owner_limits"@);
    assert(members[7].0 == "policy_core"@);
    assert(members[8].0 == "policy_revision"@);
    assert(members[9].0 == "policy_signature"@);
    assert(members[10].0 == "policy_signature_algorithm"@);
    assert(members[11].0 == "registry_enabled"@);
    assert(members[12].0 == "saved_at"@);
    assert(members[13].0 == "trigger_policy"@);
    assert(members[14].0 == "trigger_scheduler"@);
}

/// What counts of the scheduler is the node and its lease.
pub proof fn schedulers_are_told(leader: LeaderView)
    ensures
        holds(
            trigger_policy_json(leader),
            "leader_election_enabled"@,
            JsonView::Bool(leader.enabled),
        ),
        holds(trigger_policy_json(leader), "lease_file"@, text_or_null(leader.lease_file)),
        holds(trigger_policy_json(leader), "node_id"@, JsonView::Text(leader.node_id)),
        members_of(trigger_policy_json(leader)).len() == 3,
{
    let members = members_of(trigger_policy_json(leader));
    assert(members[0].0 == "leader_election_enabled"@);
    assert(members[1].0 == "lease_file"@);
    assert(members[2].0 == "node_id"@);
}

/// Of the leadership the whole state is told.
pub proof fn leaders_are_told(leader: LeaderView)
    ensures
        holds(leader_json(leader), "enabled"@, JsonView::Bool(leader.enabled)),
        holds(leader_json(leader), "expires_at"@, number_or_null(leader.expires_at)),
        holds(leader_json(leader), "holder"@, text_or_null(leader.holder)),
        holds(leader_json(leader), "is_leader"@, JsonView::Bool(leader.is_leader)),
        holds(leader_json(leader), "lease_file"@, text_or_null(leader.lease_file)),
        holds(leader_json(leader), "node_id"@, JsonView::Text(leader.node_id)),
        members_of(leader_json(leader)).len() == 6,
{
    let members = members_of(leader_json(leader));
    assert(members[0].0 == "enabled"@);
    assert(members[1].0 == "expires_at"@);
    assert(members[2].0 == "holder"@);
    assert(members[3].0 == "is_leader"@);
    assert(members[4].0 == "lease_file"@);
    assert(members[5].0 == "node_id"@);
}

/// A rule is told whole.
pub proof fn rules_are_told(rule: RuleView)
    ensures
        holds(
            rule_json(rule),
            "allowed_callers"@,
            JsonView::Array(json_texts(rule.allowed_callers)),
        ),
        holds(rule_json(rule), "allowed_owners"@, JsonView::Array(json_texts(rule.allowed_owners))),
        holds(
            rule_json(rule),
            "max_iterations_cap"@,
            number_or_null(
                match rule.max_iterations_cap { Some(n) => Some(n as u64), None => None, },
            ),
        ),
        holds(rule_json(rule), "required_tags"@, JsonView::Array(json_texts(rule.required_tags))),
        holds(rule_json(rule), "workflow"@, JsonView::Text(rule.workflow)),
        members_of(rule_json(rule)).len() == 5,
{
    let members = members_of(rule_json(rule));
    assert(members[0].0 == "allowed_callers"@);
    assert(members[1].0 == "allowed_owners"@);
    assert(members[2].0 == "max_iterations_cap"@);
    assert(members[3].0 == "required_tags"@);
    assert(members[4].0 == "workflow"@);
}

/// A limit is told with its owner.
pub proof fn limits_are_told(limit: LimitView)
    ensures
        holds(
            limit_json(limit),
            "max_concurrency"@,
            JsonView::Number(
                Some(limit.max_concurrency as u64),
                decimal(limit.max_concurrency as nat),
            ),
        ),
        holds(limit_json(limit), "owner"@, JsonView::Text(limit.owner)),
        members_of(limit_json(limit)).len() == 2,
{
    let members = members_of(limit_json(limit));
    assert(members[0].0 == "max_concurrency"@);
    assert(members[1].0 == "owner"@);
}

/// The values of a set are told each once and in order, and all of them.
pub proof fn sets_are_told(values: Seq<Seq<char>>, value: Seq<char>)
    ensures
        values_json(None) == JsonView::Array(Seq::empty()),
        values_json(Some(values)) is Array,
        ({
            let told = values_json(Some(values))->Array_0;
            told.contains(JsonView::Text(value)) <==> values.contains(value)
        }),
{
    let sorted = sorted_distinct(values);
    sorted_distinct_spec(values);
    let told = json_texts(sorted);
    assert(json_texts(Seq::<Seq<char>>::empty()) =~= Seq::empty());
    if told.contains(JsonView::Text(value)) {
        let i = choose|i: int| 0 <= i < told.len() && told[i] == JsonView::Text(value);
        assert(sorted[i] == value);
    }
    if sorted.contains(value) {
        let i = choose|i: int| 0 <= i < sorted.len() && sorted[i] == value;
        assert(told[i] == JsonView::Text(value));
    }
}

/// Every limit and every route is told, in order.
pub proof fn all_limits_and_routes_are_told(
    per_owner: Seq<(Seq<char>, usize)>,
    limits: Seq<LimitView>,
    routes: Seq<RouteView>,
    i: int,
)
    ensures
        limits_of(per_owner).len() == per_owner.len(),
        0 <= i < per_owner.len() ==> limits_of(per_owner)[i].owner == per_owner[i].0 && limits_of(
            per_owner,
        )[i].max_concurrency == per_owner[i].1,
        ranked(limits_of(per_owner)).len() == per_owner.len(),
        limits_json(limits).len() == limits.len(),
        0 <= i < limits.len() ==> limits_json(limits)[i] == limit_json(limits[i]),
        routes_json(routes).len() == routes.len(),
        0 <= i < routes.len() ==> routes_json(routes)[i] == (
            routes[i].intent,
            rule_json(routes[i].rule),
        ),
{
    ranked_spec(limits_of(per_owner));
}

/// A revision is the digest of the document alone, and is signed where there is a key.
pub proof fn revisions_are_signed(core: JsonView, revision: Seq<char>, key: Seq<char>, n: usize)
    ensures
        revision_of(core) == digest_text(json_text(json_normal(core))),
        signature_of(revision, None) is None,
        blank(key) ==> signature_of(revision, Some(key)) is None,
        !blank(key) ==> signature_of(revision, Some(key)) == Some(
            signature_text(revision, trimmed(key)),
        ),
        algorithm_json(None) is Null,
        algorithm_json(Some(key)) == JsonView::Text("hmac-sha256"@),
        algorithm_name(None) is None,
        algorithm_name(Some(key)) == Some("hmac-sha256"@),
        limit_or_null(None) is Null,
        limit_or_null(Some(n)) == JsonView::Number(Some(n as u64), decimal(n as nat)),
{
}

/// Limits come in the order of their owners.
pub proof fn limits_are_ordered(limits: Seq<LimitView>, i: int, j: int)
    requires
        0 <= i < j < limits.len(),
    ensures
        ranked(limits).len() == limits.len(),
        !text_less(ranked(limits)[j].owner, ranked(limits)[i].owner),
{
    ranked_spec(limits);
    assert(!RankView::precedes(ranked(limits)[j], ranked(limits)[i]));
}

/// An answer to a question for the policy tells it whole.
pub proof fn answers_tell_the_policy(
    answer: PolicyResponse,
    inputs: InputsView,
    key: Option<Seq<char>>,
)
    requires
        answer.tells(inputs, key),
    ensures
        answer.registry_enabled == inputs.registry_enabled,
        answer.auth_enabled == inputs.auth_enabled,
        answer.offline_mode == inputs.offline_mode,
        answer.policy_revision@ == revision_of(core_json(inputs)),
        answer.chat_gateway_enabled <==> inputs.chat_intents.len() > 0,
        answer.chat_intents_count == inputs.chat_intents.len(),
        answer.trigger_leader_election_enabled == inputs.leader.enabled,
        answer.trigger_scheduler_leader == inputs.leader.is_leader,
        answer.trigger_scheduler_node_id@ == inputs.leader.node_id,
        answer.trigger_scheduler_expires_at == inputs.leader.expires_at,
        answer.provider_restriction_enabled <==> inputs.allowed_providers is Some,
        answer.owner_default_limit == inputs.default_limit,
        answer.policy_signature is Some <==> key is Some && !blank(key->0),
        answer.policy_signature_algorithm is Some <==> key is Some,
{
}

} // verus!
