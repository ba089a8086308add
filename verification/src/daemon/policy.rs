//! The policy that a daemon is under, as a document with a revision and a
//! signature.
use crate::daemon::chat::{
    chat_routes, routes_of, ChatIntentConfig, ChatIntentRoute, RouteView, RuleView,
};
use crate::daemon::flows::OwnerConcurrencyPolicy;
use crate::daemon::settings::RetentionConfig;
use crate::daemon::trigger::{LeaderView, TriggerLeaderState};
use crate::json::{
    compact_json, json_items, json_items_at, json_members, json_members_at, json_normal, json_text,
    json_texts, number, number_or_null, object1, opt_number, opt_text_value, text, text_array,
    text_or_null, with_member, Json, JsonView,
};
use crate::number::decimal;
use crate::order::{
    ascending_unique, less, sort_distinct, sorted_distinct, sorted_distinct_spec, text_less,
    text_less_total, text_less_transitive,
};
use crate::policy_crypto::{
    digest_hex, digest_text, is_hex, sign_policy_revision_hmac_sha256, signature_text,
    verification,
};
use crate::ranking::{rank_all, ranked, views, Rank, RankView};
use crate::strmap::{StrMap, StrSet};
use crate::text::{blank, clone_opt, group_texts, opt_str, opt_text, texts, trim, trimmed};
use vstd::prelude::*;
use vstd::string::*;

pub mod laws;

verus! {

// ---------------------------------------------------------------- values

/// The texts of a set in ascending order.
pub fn sorted_set_values(set: Option<&StrSet>) -> (r: Vec<String>)
    ensures
        texts(r@) == match set {
            Some(set) => sorted_distinct(set.elems()),
            None => Seq::<Seq<char>>::empty(),
        },
{
    broadcast use group_texts;

    match set {
        Some(set) => {
            let values = set.to_vec();
            sort_distinct(&values)
        },
        None => Vec::new(),
    }
}

/// Two sets that hold the same texts give the same list, whatever order the
/// texts came in.
pub proof fn set_values_are_stable(a: Seq<Seq<char>>, b: Seq<Seq<char>>)
    requires
        forall|y: Seq<char>| a.contains(y) <==> b.contains(y),
    ensures
        sorted_distinct(a) == sorted_distinct(b),
{
    sorted_distinct_spec(a);
    sorted_distinct_spec(b);
    assert forall|y: Seq<char>| sorted_distinct(a).contains(y) <==> sorted_distinct(b).contains(
        y,
    ) by {
        assert(sorted_distinct(a).contains(y) <==> a.contains(y));
        assert(sorted_distinct(b).contains(y) <==> b.contains(y));
    }
    ascending_unique(sorted_distinct(a), sorted_distinct(b));
}

/// An owner with its limit.
pub struct OwnerLimitEntry {
    pub owner: String,
    pub max_concurrency: usize,
}

/// An owner's limit, as plain values.
pub struct LimitView {
    pub owner: Seq<char>,
    pub max_concurrency: usize,
}

impl View for OwnerLimitEntry {
    type V = LimitView;

    open spec fn view(&self) -> LimitView {
        LimitView { owner: self.owner@, max_concurrency: self.max_concurrency }
    }
}

impl RankView for LimitView {
    /// Limits come in the order of their owners.
    open spec fn precedes(self, other: Self) -> bool {
        text_less(self.owner, other.owner)
    }

    proof fn asymmetric(self, other: Self) {
        text_less_total(self.owner, other.owner);
    }

    proof fn passes_on(self, middle: Self, last: Self) {
        text_less_total(self.owner, middle.owner);
        text_less_total(middle.owner, last.owner);
        if text_less(self.owner, last.owner) && !text_less(self.owner, middle.owner) && !text_less(
            middle.owner,
            last.owner,
        ) {
            text_less_total(self.owner, last.owner);
            if self.owner != middle.owner {
                text_less_transitive(middle.owner, self.owner, last.owner);
            }
        }
    }
}

impl Rank for OwnerLimitEntry {
    fn goes_before(&self, other: &Self) -> (r: bool) {
        less(self.owner.as_str(), other.owner.as_str())
    }
}

pub open spec fn limits_of(per_owner: Seq<(Seq<char>, usize)>) -> Seq<LimitView> {
    Seq::new(
        per_owner.len(),
        |i: int| LimitView { owner: per_owner[i].0, max_concurrency: per_owner[i].1 },
    )
}

/// The limits of owners, in the order of the owners.
pub fn owner_limit_entries(policy: &OwnerConcurrencyPolicy) -> (r: Vec<OwnerLimitEntry>)
    ensures
        views(r@) == ranked(limits_of(policy.per_owner.entries())),
{
    let mut out: Vec<OwnerLimitEntry> = Vec::new();
    let n: usize = policy.per_owner.len();
    let ghost all = limits_of(policy.per_owner.entries());
    let mut i: usize = 0;
    while i < n
        invariant
            i <= n,
            n == all.len(),
            n == policy.per_owner.entries().len(),
            all == limits_of(policy.per_owner.entries()),
            out@.len() == i,
            forall|j: int| 0 <= j < i ==> (#[trigger] out@[j])@ == all[j],
        decreases n - i,
    {
        out.push(
            OwnerLimitEntry {
                owner: policy.per_owner.key_at(i).to_owned(),
                max_concurrency: *policy.per_owner.value_at(i),
            },
        );
        i += 1;
    }
    assert(views(out@) =~= all);
    rank_all(out)
}

pub open spec fn limit_json(limit: LimitView) -> JsonView {
    JsonView::Object(
        seq![
            (
                "max_concurrency"@,
                JsonView::Number(
                    Some(limit.max_concurrency as u64),
                    decimal(limit.max_concurrency as nat),
                ),
            ),
            ("owner"@, JsonView::Text(limit.owner)),
        ],
    )
}

pub open spec fn limits_json(limits: Seq<LimitView>) -> Seq<JsonView> {
    Seq::new(limits.len(), |i: int| limit_json(limits[i]))
}

fn limits_value(limits: &Vec<OwnerLimitEntry>) -> (r: Json)
    ensures
        r@ == JsonView::Array(limits_json(views(limits@))),
{
    let mut out: Vec<Json> = Vec::new();
    let mut i: usize = 0;
    while i < limits.len()
        invariant
            i <= limits@.len(),
            out@.len() == i,
            forall|j: int| 0 <= j < i ==> (#[trigger] out@[j])@ == limit_json(limits@[j]@),
        decreases limits@.len() - i,
    {
        let head = object1("max_concurrency", number(limits[i].max_concurrency as u64));
        let item = with_member(head, "owner", text(limits[i].owner.as_str()));
        assert(item@->Object_0 =~= limit_json(limits@[i as int]@)->Object_0);
        out.push(item);
        i += 1;
    }
    proof {
        json_items_at(out@);
        assert(json_items(out@) =~= limits_json(views(limits@)));
    }
    Json::Array(out)
}

pub open spec fn rule_json(rule: RuleView) -> JsonView {
    JsonView::Object(
        seq![
            ("allowed_callers"@, JsonView::Array(json_texts(rule.allowed_callers))),
            ("allowed_owners"@, JsonView::Array(json_texts(rule.allowed_owners))),
            (
                "max_iterations_cap"@,
                number_or_null(
                    match rule.max_iterations_cap {
                        Some(n) => Some(n as u64),
                        None => None,
                    },
                ),
            ),
            ("required_tags"@, JsonView::Array(json_texts(rule.required_tags))),
            ("workflow"@, JsonView::Text(rule.workflow)),
        ],
    )
}

fn rule_value(rule: &ChatIntentConfig) -> (r: Json)
    ensures
        r@ == rule_json(rule@),
{
    let cap = match rule.max_iterations_cap {
        Some(n) => Some(n as u64),
        None => None,
    };
    let a = object1("allowed_callers", text_array(&rule.allowed_callers));
    let b = with_member(a, "allowed_owners", text_array(&rule.allowed_owners));
    let c = with_member(b, "max_iterations_cap", opt_number(cap));
    let d = with_member(c, "required_tags", text_array(&rule.required_tags));
    let r = with_member(d, "workflow", text(rule.workflow.as_str()));
    assert(r@->Object_0 =~= rule_json(rule@)->Object_0);
    r
}

pub open spec fn routes_json(routes: Seq<RouteView>) -> Seq<(Seq<char>, JsonView)> {
    Seq::new(routes.len(), |i: int| (routes[i].intent, rule_json(routes[i].rule)))
}

fn routes_value(routes: &Vec<ChatIntentRoute>) -> (r: Json)
    ensures
        r@ == JsonView::Object(routes_json(views(routes@))),
{
    let mut out: Vec<(String, Json)> = Vec::new();
    let mut i: usize = 0;
    while i < routes.len()
        invariant
            i <= routes@.len(),
            out@.len() == i,
            forall|j: int|
                0 <= j < i ==> (#[trigger] out@[j]).0@ == routes@[j]@.intent && out@[j].1@
                    == rule_json(routes@[j]@.rule),
        decreases routes@.len() - i,
    {
        out.push((routes[i].intent.clone(), rule_value(&routes[i].rule)));
        i += 1;
    }
    proof {
        json_members_at(out@);
        assert(json_members(out@) =~= routes_json(views(routes@)));
    }
    Json::Object(out)
}

// ---------------------------------------------------------------- core

/// What the policy of a daemon is made of.
pub struct PolicyInputs<'a> {
    pub registry_enabled: bool,
    pub auth_enabled: bool,
    pub offline_mode: bool,
    pub node_capabilities: &'a StrSet,
    pub allowed_providers: &'a Option<StrSet>,
    pub owner_policy: &'a OwnerConcurrencyPolicy,
    pub chat_intents: &'a StrMap<ChatIntentConfig>,
    pub leader: &'a TriggerLeaderState,
}

/// What the policy is made of, as plain values.
pub struct InputsView {
    pub registry_enabled: bool,
    pub auth_enabled: bool,
    pub offline_mode: bool,
    pub node_capabilities: Seq<Seq<char>>,
    pub allowed_providers: Option<Seq<Seq<char>>>,
    pub per_owner: Seq<(Seq<char>, usize)>,
    pub default_limit: Option<usize>,
    pub chat_intents: Seq<(Seq<char>, RuleView)>,
    pub leader: LeaderView,
}

impl<'a> View for PolicyInputs<'a> {
    type V = InputsView;

    open spec fn view(&self) -> InputsView {
        InputsView {
            registry_enabled: self.registry_enabled,
            auth_enabled: self.auth_enabled,
            offline_mode: self.offline_mode,
            node_capabilities: self.node_capabilities.elems(),
            allowed_providers: match self.allowed_providers {
                Some(set) => Some(set.elems()),
                None => None,
            },
            per_owner: self.owner_policy.per_owner.entries(),
            default_limit: self.owner_policy.default_limit,
            chat_intents: self.chat_intents.entries(),
            leader: self.leader@,
        }
    }
}

pub open spec fn limit_or_null(limit: Option<usize>) -> JsonView {
    number_or_null(
        match limit {
            Some(n) => Some(n as u64),
            None => None,
        },
    )
}

pub open spec fn trigger_policy_json(leader: LeaderView) -> JsonView {
    JsonView::Object(
        seq![
            ("leader_election_enabled"@, JsonView::Bool(leader.enabled)),
            ("lease_file"@, text_or_null(leader.lease_file)),
            ("node_id"@, JsonView::Text(leader.node_id)),
        ],
    )
}

pub open spec fn values_json(values: Option<Seq<Seq<char>>>) -> JsonView {
    JsonView::Array(
        json_texts(
            match values {
                Some(values) => sorted_distinct(values),
                None => Seq::empty(),
            },
        ),
    )
}

/// The policy as a document: what counts for its revision.
pub open spec fn core_json(inputs: InputsView) -> JsonView {
    JsonView::Object(
        seq![
            ("allowed_providers"@, values_json(inputs.allowed_providers)),
            ("auth_enabled"@, JsonView::Bool(inputs.auth_enabled)),
            (
                "chat_intents"@,
                JsonView::Object(routes_json(ranked(routes_of(inputs.chat_intents)))),
            ),
            ("node_capabilities"@, values_json(Some(inputs.node_capabilities))),
            ("offline_mode"@, JsonView::Bool(inputs.offline_mode)),
            ("owner_default_limit"@, limit_or_null(inputs.default_limit)),
            (
                "owner_limits"@,
                JsonView::Array(limits_json(ranked(limits_of(inputs.per_owner)))),
            ),
            ("registry_enabled"@, JsonView::Bool(inputs.registry_enabled)),
            ("trigger_policy"@, trigger_policy_json(inputs.leader)),
        ],
    )
}

fn trigger_policy_value(leader: &TriggerLeaderState) -> (r: Json)
    ensures
        r@ == trigger_policy_json(leader@),
{
    let a = object1("leader_election_enabled", Json::Bool(leader.enabled));
    let b = with_member(a, "lease_file", opt_text_value(&leader.lease_file));
    let r = with_member(b, "node_id", text(leader.node_id.as_str()));
    assert(r@->Object_0 =~= trigger_policy_json(leader@)->Object_0);
    r
}

fn limit_value(limit: Option<usize>) -> (r: Json)
    ensures
        r@ == limit_or_null(limit),
{
    match limit {
        Some(n) => opt_number(Some(n as u64)),
        None => opt_number(None),
    }
}

/// The policy as a document.
pub fn build_policy_core(inputs: &PolicyInputs) -> (r: Json)
    ensures
        r@ == core_json(inputs@),
{
    let allowed = match inputs.allowed_providers {
        Some(set) => sorted_set_values(Some(set)),
        None => sorted_set_values(None),
    };
    let capabilities = sorted_set_values(Some(inputs.node_capabilities));
    let routes = chat_routes(inputs.chat_intents);
    let limits = owner_limit_entries(inputs.owner_policy);
    let a = object1("allowed_providers", text_array(&allowed));
    let b = with_member(a, "auth_enabled", Json::Bool(inputs.auth_enabled));
    let c = with_member(b, "chat_intents", routes_value(&routes));
    let d = with_member(c, "node_capabilities", text_array(&capabilities));
    let e = with_member(d, "offline_mode", Json::Bool(inputs.offline_mode));
    let f = with_member(e, "owner_default_limit", limit_value(inputs.owner_policy.default_limit));
    let g = with_member(f, "owner_limits", limits_value(&limits));
    let h = with_member(g, "registry_enabled", Json::Bool(inputs.registry_enabled));
    let r = with_member(h, "trigger_policy", trigger_policy_value(inputs.leader));
    assert(r@->Object_0 =~= core_json(inputs@)->Object_0);
    r
}

/// The policy does not depend on who leads at the moment, nor until when.
pub proof fn leadership_is_not_policy(inputs: InputsView, other: LeaderView)
    requires
        other.enabled == inputs.leader.enabled,
        other.node_id == inputs.leader.node_id,
        other.lease_file == inputs.leader.lease_file,
    ensures
        core_json(InputsView { leader: other, ..inputs }) == core_json(inputs),
{
}

// ---------------------------------------------------------------- revision

/// The revision of a policy document: the digest of its compact text.
pub open spec fn revision_of(core: JsonView) -> Seq<char> {
    digest_text(json_text(json_normal(core)))
}

/// The signature of a revision, where there is a key that is not blank.
pub open spec fn signature_of(revision: Seq<char>, key: Option<Seq<char>>) -> Option<Seq<char>> {
    match key {
        Some(key) => if blank(key) {
            None
        } else {
            Some(signature_text(revision, trimmed(key)))
        },
        None => None,
    }
}

/// The revision of a document, in hexadecimal, and its signature. A signature is
/// found good under the key.
pub fn policy_revision_and_signature(policy_core: &Json, signing_key: Option<&str>) -> (r: (
    String,
    Option<String>,
))
    ensures
        r.0@ == revision_of(policy_core@),
        is_hex(r.0@),
        opt_text(r.1) == signature_of(revision_of(policy_core@), opt_str(signing_key)),
        r.1 is Some ==> verification(r.0@, r.1->0@, trimmed(signing_key->0@)) == Some(true),
{
    let canonical = compact_json(policy_core);
    let revision = digest_hex(canonical.as_str());
    let signature = match signing_key {
        Some(key) => {
            let key = trim(key);
            if key.is_empty() {
                None
            } else {
                sign_policy_revision_hmac_sha256(revision.as_str(), key)
            }
        },
        None => None,
    };
    (revision, signature)
}

/// The state of the scheduler as JSON.
pub open spec fn leader_json(leader: LeaderView) -> JsonView {
    JsonView::Object(
        seq![
            ("enabled"@, JsonView::Bool(leader.enabled)),
            ("expires_at"@, number_or_null(leader.expires_at)),
            ("holder"@, text_or_null(leader.holder)),
            ("is_leader"@, JsonView::Bool(leader.is_leader)),
            ("lease_file"@, text_or_null(leader.lease_file)),
            ("node_id"@, JsonView::Text(leader.node_id)),
        ],
    )
}

pub fn leader_value(leader: &TriggerLeaderState) -> (r: Json)
    ensures
        r@ == leader_json(leader@),
{
    let a = object1("enabled", Json::Bool(leader.enabled));
    let b = with_member(a, "expires_at", opt_number(leader.expires_at));
    let c = with_member(b, "holder", opt_text_value(&leader.holder));
    let d = with_member(c, "is_leader", Json::Bool(leader.is_leader));
    let e = with_member(d, "lease_file", opt_text_value(&leader.lease_file));
    let r = with_member(e, "node_id", text(leader.node_id.as_str()));
    assert(r@->Object_0 =~= leader_json(leader@)->Object_0);
    r
}

/// The algorithm of signatures, where there is a key.
pub open spec fn algorithm_json(key: Option<Seq<char>>) -> JsonView {
    match key {
        Some(_) => JsonView::Text("hmac-sha256"@),
        None => JsonView::Null,
    }
}

/// A snapshot of the policy: the document's members one by one, the document,
/// its revision and signature, the scheduler and the time.
pub open spec fn snapshot_json(inputs: InputsView, key: Option<Seq<char>>, now: u64) -> JsonView {
    let core = core_json(inputs);
    JsonView::Object(
        seq![
            ("allowed_providers"@, values_json(inputs.allowed_providers)),
            ("auth_enabled"@, JsonView::Bool(inputs.auth_enabled)),
            (
                "chat_intents"@,
                JsonView::Object(routes_json(ranked(routes_of(inputs.chat_intents)))),
            ),
            ("node_capabilities"@, values_json(Some(inputs.node_capabilities))),
            ("offline_mode"@, JsonView::Bool(inputs.offline_mode)),
            ("owner_default_limit"@, limit_or_null(inputs.default_limit)),
            (
                "owner_limits"@,
                JsonView::Array(limits_json(ranked(limits_of(inputs.per_owner)))),
            ),
            ("policy_core"@, core),
            ("policy_revision"@, JsonView::Text(revision_of(core))),
            ("policy_signature"@, text_or_null(signature_of(revision_of(core), key))),
            ("policy_signature_algorithm"@, algorithm_json(key)),
            ("registry_enabled"@, JsonView::Bool(inputs.registry_enabled)),
            ("saved_at"@, JsonView::Number(Some(now), decimal(now as nat))),
            ("trigger_policy"@, trigger_policy_json(inputs.leader)),
            ("trigger_scheduler"@, leader_json(inputs.leader)),
        ],
    )
}

/// A snapshot of the policy.
pub fn build_policy_snapshot(inputs: &PolicyInputs, signing_key: Option<&str>, now: u64) -> (r: Json)
    ensures
        r@ == snapshot_json(inputs@, opt_str(signing_key), now),
{
    let core = build_policy_core(inputs);
    let (revision, signature) = policy_revision_and_signature(&core, signing_key);
    let allowed = match inputs.allowed_providers {
        Some(set) => sorted_set_values(Some(set)),
        None => sorted_set_values(None),
    };
    let capabilities = sorted_set_values(Some(inputs.node_capabilities));
    let routes = chat_routes(inputs.chat_intents);
    let limits = owner_limit_entries(inputs.owner_policy);
    let algorithm = match signing_key {
        Some(_) => text("hmac-sha256"),
        None => Json::Null,
    };
    let a = object1("allowed_providers", text_array(&allowed));
    let b = with_member(a, "auth_enabled", Json::Bool(inputs.auth_enabled));
    let c = with_member(b, "chat_intents", routes_value(&routes));
    let d = with_member(c, "node_capabilities", text_array(&capabilities));
    let e = with_member(d, "offline_mode", Json::Bool(inputs.offline_mode));
    let f = with_member(e, "owner_default_limit", limit_value(inputs.owner_policy.default_limit));
    let g = with_member(f, "owner_limits", limits_value(&limits));
    let h = with_member(g, "policy_core", core);
    let i = with_member(h, "policy_revision", text(revision.as_str()));
    let j = with_member(i, "policy_signature", opt_text_value(&signature));
    let k = with_member(j, "policy_signature_algorithm", algorithm);
    let l = with_member(k, "registry_enabled", Json::Bool(inputs.registry_enabled));
    let m = with_member(l, "saved_at", number(now));
    let n = with_member(m, "trigger_policy", trigger_policy_value(inputs.leader));
    let r = with_member(n, "trigger_scheduler", leader_value(inputs.leader));
    assert(r@->Object_0 =~= snapshot_json(inputs@, opt_str(signing_key), now)->Object_0);
    r
}

// ---------------------------------------------------------------- answers

/// What a daemon answers when asked for its policy.
pub struct PolicyResponse {
    pub registry_enabled: bool,
    pub auth_enabled: bool,
    pub offline_mode: bool,
    pub policy_revision: String,
    pub policy_signature: Option<String>,
    pub policy_signature_algorithm: Option<String>,
    pub chat_gateway_enabled: bool,
    pub chat_intents_count: usize,
    pub trigger_leader_election_enabled: bool,
    pub trigger_scheduler_leader: bool,
    pub trigger_scheduler_node_id: String,
    pub trigger_scheduler_holder: Option<String>,
    pub trigger_scheduler_expires_at: Option<u64>,
    pub trigger_lease_file: Option<String>,
    pub node_capabilities: Vec<String>,
    pub provider_restriction_enabled: bool,
    pub allowed_providers: Vec<String>,
    pub owner_limits: Vec<OwnerLimitEntry>,
    pub owner_default_limit: Option<usize>,
    pub retention_max_sessions: usize,
    pub retention_max_hitl: usize,
}

impl PolicyResponse {
    /// The answer tells what the policy is made of, and no more than that.
    pub open spec fn tells(&self, inputs: InputsView, key: Option<Seq<char>>) -> bool {
        &&& self.registry_enabled == inputs.registry_enabled
        &&& self.auth_enabled == inputs.auth_enabled
        &&& self.offline_mode == inputs.offline_mode
        &&& self.policy_revision@ == revision_of(core_json(inputs))
        &&& opt_text(self.policy_signature) == signature_of(revision_of(core_json(inputs)), key)
        &&& opt_text(self.policy_signature_algorithm) == algorithm_name(key)
        &&& self.chat_gateway_enabled == (inputs.chat_intents.len() > 0)
        &&& self.chat_intents_count == inputs.chat_intents.len()
        &&& self.trigger_leader_election_enabled == inputs.leader.enabled
        &&& self.trigger_scheduler_leader == inputs.leader.is_leader
        &&& self.trigger_scheduler_node_id@ == inputs.leader.node_id
        &&& opt_text(self.trigger_scheduler_holder) == inputs.leader.holder
        &&& self.trigger_scheduler_expires_at == inputs.leader.expires_at
        &&& opt_text(self.trigger_lease_file) == inputs.leader.lease_file
        &&& texts(self.node_capabilities@) == sorted_distinct(inputs.node_capabilities)
        &&& self.provider_restriction_enabled == inputs.allowed_providers is Some
        &&& texts(self.allowed_providers@) == match inputs.allowed_providers {
            Some(values) => sorted_distinct(values),
            None => Seq::<Seq<char>>::empty(),
        }
        &&& views(self.owner_limits@) == ranked(limits_of(inputs.per_owner))
        &&& self.owner_default_limit == inputs.default_limit
    }
}

/// The algorithm of signatures, where there is a key.
pub open spec fn algorithm_name(key: Option<Seq<char>>) -> Option<Seq<char>> {
    match key {
        Some(_) => Some("hmac-sha256"@),
        None => None,
    }
}

fn signature_algorithm(signing_key: Option<&str>) -> (r: Option<String>)
    ensures
        opt_text(r) == algorithm_name(opt_str(signing_key)),
{
    match signing_key {
        Some(_) => Some("hmac-sha256".to_owned()),
        None => None,
    }
}

/// The answer to a question for the policy.
pub fn policy_response(
    inputs: &PolicyInputs,
    signing_key: Option<&str>,
    retention: &RetentionConfig,
) -> (r: PolicyResponse)
    ensures
        r.tells(inputs@, opt_str(signing_key)),
        r.retention_max_sessions == retention.max_sessions,
        r.retention_max_hitl == retention.max_hitl,
{
    let core = build_policy_core(inputs);
    let (revision, signature) = policy_revision_and_signature(&core, signing_key);
    let allowed = match inputs.allowed_providers {
        Some(set) => sorted_set_values(Some(set)),
        None => sorted_set_values(None),
    };
    let chat_intents_count: usize = inputs.chat_intents.len();
    PolicyResponse {
        registry_enabled: inputs.registry_enabled,
        auth_enabled: inputs.auth_enabled,
        offline_mode: inputs.offline_mode,
        policy_revision: revision,
        policy_signature: signature,
        policy_signature_algorithm: signature_algorithm(signing_key),
        chat_gateway_enabled: chat_intents_count > 0,
        chat_intents_count,
        trigger_leader_election_enabled: inputs.leader.enabled,
        trigger_scheduler_leader: inputs.leader.is_leader,
        trigger_scheduler_node_id: inputs.leader.node_id.clone(),
        trigger_scheduler_holder: clone_opt(&inputs.leader.holder),
        trigger_scheduler_expires_at: inputs.leader.expires_at,
        trigger_lease_file: clone_opt(&inputs.leader.lease_file),
        node_capabilities: sorted_set_values(Some(inputs.node_capabilities)),
        provider_restriction_enabled: inputs.allowed_providers.is_some(),
        allowed_providers: allowed,
        owner_limits: owner_limit_entries(inputs.owner_policy),
        owner_default_limit: inputs.owner_policy.default_limit,
        retention_max_sessions: retention.max_sessions,
        retention_max_hitl: retention.max_hitl,
    }
}

/// What a daemon answers when asked for the revision of its policy.
pub struct PolicyRevisionResponse {
    pub policy_revision: String,
    pub signed: bool,
    pub policy_signature: Option<String>,
    pub policy_signature_algorithm: Option<String>,
}

/// The answer to a question for the revision of the policy document `core`.
pub fn policy_revision_response(policy_core: &Json, signing_key: Option<&str>) -> (r:
    PolicyRevisionResponse)
    ensures
        r.policy_revision@ == revision_of(policy_core@),
        opt_text(r.policy_signature) == signature_of(
            revision_of(policy_core@),
            opt_str(signing_key),
        ),
        r.signed == r.policy_signature is Some,
        opt_text(r.policy_signature_algorithm) == algorithm_name(opt_str(signing_key)),
{
    let (policy_revision, policy_signature) = policy_revision_and_signature(
        policy_core,
        signing_key,
    );
    PolicyRevisionResponse {
        policy_revision,
        signed: policy_signature.is_some(),
        policy_signature,
        policy_signature_algorithm: signature_algorithm(signing_key),
    }
}

} // verus!
