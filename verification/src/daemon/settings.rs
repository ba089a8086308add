//! The settings of the daemon, from its environment.
use crate::allowlist::{lower_all, lowered_all};
use crate::daemon::flows::OwnerConcurrencyPolicy;
use crate::number::{decimal, digits_value, number_value, parse_number, u64_text};
use crate::paths::{join_path, joined_path};
use crate::providers::llm::{non_empty_env, set_in};
use crate::strmap::{lookup, put, StrMap, StrSet};
use crate::text::{
    blank, cat3, cat5, group_texts, is_blank, list_items, lowered, opt_str, opt_text, same, same_ignoring_case,
    split_at_first, split_list, split_once, texts, to_lower, trim, trimmed, CharSet,
};
use vstd::prelude::*;
use vstd::string::*;

pub mod laws;

verus! {

/// Whether a setting is switched off: blank, `off` or `false`.
pub open spec fn off(value: Seq<char>) -> bool {
    let v = lowered(trimmed(value));
    v.len() == 0 || v == lowered("off"@) || v == lowered("false"@)
}

/// The value of a setting that can be switched off.
pub open spec fn switched(env: Seq<(Seq<char>, Seq<char>)>, key: Seq<char>) -> Option<Seq<char>> {
    match lookup(env, key) {
        Some(value) => if off(value) {
            None
        } else {
            Some(trimmed(value))
        },
        None => None,
    }
}

/// The value of a setting that can be switched off.
pub fn switched_setting(env: &StrMap<String>, key: &str) -> (r: Option<String>)
    ensures
        opt_text(r) == switched(env.entries(), key@),
{
    match env.get(key) {
        Some(value) => {
            let v = trim(value.as_str());
            assert(lowered(v@).len() == v@.len());
            if v.is_empty() || same_ignoring_case(v, "off") || same_ignoring_case(v, "false") {
                None
            } else {
                Some(v.to_owned())
            }
        },
        None => None,
    }
}

/// The token that requests must bear, where one is set.
pub fn daemon_auth_token(env: &StrMap<String>) -> (r: Option<String>)
    ensures
        opt_text(r) == set_in(env.entries(), "ANNA_DAEMON_TOKEN"@),
{
    non_empty_env(env, "ANNA_DAEMON_TOKEN")
}

/// The file of the audit log.
pub fn audit_log_file(env: &StrMap<String>) -> (r: Option<String>)
    ensures
        opt_text(r) == switched(env.entries(), "ANNA_AUDIT_LOG_FILE"@),
{
    switched_setting(env, "ANNA_AUDIT_LOG_FILE")
}

/// The key that policy revisions are signed with.
pub fn daemon_policy_signing_key(env: &StrMap<String>) -> (r: Option<String>)
    ensures
        opt_text(r) == switched(env.entries(), "ANNA_POLICY_SIGNING_KEY"@),
{
    switched_setting(env, "ANNA_POLICY_SIGNING_KEY")
}

/// The file of the flow registry.
pub fn flow_registry_file(env: &StrMap<String>) -> (r: Option<String>)
    ensures
        opt_text(r) == switched(env.entries(), "ANNA_FLOW_REGISTRY_FILE"@),
{
    switched_setting(env, "ANNA_FLOW_REGISTRY_FILE")
}

/// The file of the chat intents.
pub fn chat_intents_file(env: &StrMap<String>) -> (r: Option<String>)
    ensures
        opt_text(r) == switched(env.entries(), "ANNA_CHAT_INTENTS_FILE"@),
{
    switched_setting(env, "ANNA_CHAT_INTENTS_FILE")
}

/// The file that policy snapshots go to.
pub fn daemon_policy_snapshot_file(env: &StrMap<String>) -> (r: Option<String>)
    ensures
        opt_text(r) == switched(env.entries(), "ANNA_POLICY_SNAPSHOT_FILE"@),
{
    switched_setting(env, "ANNA_POLICY_SNAPSHOT_FILE")
}

/// The file of the daemon's state: the one that is set unless it is blank or
/// `off`, and one in the home directory where none is set.
pub open spec fn state_file_path(env: Seq<(Seq<char>, Seq<char>)>) -> Option<Seq<char>> {
    match lookup(env, "ANNA_DAEMON_STATE_FILE"@) {
        Some(value) => if blank(value) || lowered(trimmed(value)) == lowered("off"@) {
            None
        } else {
            Some(trimmed(value))
        },
        None => match lookup(env, "HOME"@) {
            Some(home) => Some(joined_path(home, ".anna/daemon-state.json"@)),
            None => None,
        },
    }
}

pub fn daemon_state_file(env: &StrMap<String>) -> (r: Option<String>)
    ensures
        opt_text(r) == state_file_path(env.entries()),
{
    match env.get("ANNA_DAEMON_STATE_FILE") {
        Some(value) => {
            let v = trim(value.as_str());
            if v.is_empty() || same_ignoring_case(v, "off") {
                None
            } else {
                Some(v.to_owned())
            }
        },
        None => match env.get("HOME") {
            Some(home) => Some(join_path(home.as_str(), ".anna/daemon-state.json")),
            None => None,
        },
    }
}

/// The name of a node: the one that is set, else that of the host and the
/// number of the process.
pub open spec fn node_name(env: Seq<(Seq<char>, Seq<char>)>, pid: u32) -> Seq<char> {
    match set_in(env, "ANNA_DAEMON_NODE_ID"@) {
        Some(id) => id,
        None => {
            let named = match lookup(env, "HOSTNAME"@) {
                Some(host) => Some(host),
                None => lookup(env, "COMPUTERNAME"@),
            };
            let host = match named {
                Some(host) => if blank(host) {
                    "node"@
                } else {
                    trimmed(host)
                },
                None => "node"@,
            };
            host + "-"@ + decimal(pid as nat)
        },
    }
}

pub fn daemon_node_id(env: &StrMap<String>, pid: u32) -> (r: String)
    ensures
        r@ == node_name(env.entries(), pid),
{
    if let Some(id) = non_empty_env(env, "ANNA_DAEMON_NODE_ID") {
        return id;
    }
    let named = match env.get("HOSTNAME") {
        Some(host) => Some(host),
        None => env.get("COMPUTERNAME"),
    };
    let host = match named {
        Some(host) => {
            if is_blank(host.as_str()) {
                "node".to_owned()
            } else {
                trim(host.as_str()).to_owned()
            }
        },
        None => "node".to_owned(),
    };
    let digits = u64_text(pid as u64);
    cat3(host.as_str(), "-", digits.as_str())
}

/// A number setting that is at least `least`, else the default.
pub open spec fn number_or(
    value: Option<Seq<char>>,
    max: nat,
    least: nat,
    default_value: nat,
) -> nat {
    match value {
        Some(value) => match number_value(trimmed(value), max) {
            Ok(n) => if n >= least {
                n
            } else {
                default_value
            },
            Err(_) => default_value,
        },
        None => default_value,
    }
}

fn number_setting(value: Option<&str>, max: u64, least: u64, default_value: u64) -> (r: u64)
    ensures
        r == number_or(opt_str(value), max as nat, least as nat, default_value as nat),
        r <= max || r == default_value,
{
    match value {
        Some(value) => match parse_number(trim(value), max) {
            Ok(n) => {
                if n >= least {
                    assert(number_value(trimmed(value@), max as nat) == Ok::<
                        nat,
                        crate::number::NumberError,
                    >(n as nat));
                    proof {
                        number_in_range(trimmed(value@), max as nat);
                    }
                    n
                } else {
                    default_value
                }
            },
            Err(_) => default_value,
        },
        None => default_value,
    }
}

proof fn digits_in_range(s: Seq<char>, max: nat)
    ensures
        match digits_value(s, max) {
            Ok(n) => n <= max,
            Err(_) => true,
        },
    decreases s.len(),
{
    if s.len() > 0 {
        digits_in_range(s.drop_last(), max);
    }
}

proof fn number_in_range(s: Seq<char>, max: nat)
    ensures
        match number_value(s, max) {
            Ok(n) => n <= max,
            Err(_) => true,
        },
{
    digits_in_range(s, max);
    if s.len() > 0 {
        digits_in_range(s.skip(1), max);
    }
}

fn env_str<'a>(env: &'a StrMap<String>, key: &str) -> (r: Option<&'a str>)
    ensures
        opt_str(r) == lookup(env.entries(), key@),
{
    match env.get(key) {
        Some(value) => Some(value.as_str()),
        None => None,
    }
}

/// How much the daemon keeps.
#[derive(Debug, Clone, Copy)]
pub struct RetentionConfig {
    pub max_sessions: usize,
    pub max_hitl: usize,
}

/// How much the daemon keeps: 2000 of each unless it is told otherwise.
pub fn daemon_retention_config(env: &StrMap<String>) -> (r: RetentionConfig)
    ensures
        r.max_sessions == number_or(
            lookup(env.entries(), "ANNA_DAEMON_MAX_SESSIONS"@),
            usize::MAX as nat,
            1,
            2000,
        ),
        r.max_hitl == number_or(
            lookup(env.entries(), "ANNA_DAEMON_MAX_HITL"@),
            usize::MAX as nat,
            1,
            2000,
        ),
{
    let max: u64 = usize::MAX as u64;
    let sessions: u64 = number_setting(env_str(env, "ANNA_DAEMON_MAX_SESSIONS"), max, 1, 2000);
    let hitl: u64 = number_setting(env_str(env, "ANNA_DAEMON_MAX_HITL"), max, 1, 2000);
    RetentionConfig { max_sessions: sessions as usize, max_hitl: hitl as usize }
}

/// Where the lease of the trigger scheduler lies, and how long it lasts.
pub struct TriggerLeaseConfig {
    pub node_id: String,
    pub lease_file: String,
    pub ttl_sec: u64,
}

/// The lease of the trigger scheduler, where leadership is shared: it lasts 15
/// seconds unless it is told otherwise, and never less than two.
pub fn trigger_lease_config(env: &StrMap<String>, node_id: &str) -> (r: Option<TriggerLeaseConfig>)
    ensures
        match switched(env.entries(), "ANNA_TRIGGER_LEASE_FILE"@) {
            None => r is None,
            Some(file) => {
                &&& r is Some
                &&& r->0.node_id@ == node_id@
                &&& r->0.lease_file@ == file
                &&& r->0.ttl_sec == number_or(
                    lookup(env.entries(), "ANNA_TRIGGER_LEASE_TTL_SEC"@),
                    u64::MAX as nat,
                    2,
                    15,
                )
            },
        },
{
    match switched_setting(env, "ANNA_TRIGGER_LEASE_FILE") {
        None => None,
        Some(lease_file) => {
            let ttl_sec: u64 = number_setting(
                env_str(env, "ANNA_TRIGGER_LEASE_TTL_SEC"),
                u64::MAX,
                2,
                15,
            );
            Some(TriggerLeaseConfig { node_id: node_id.to_owned(), lease_file, ttl_sec })
        },
    }
}

/// The capabilities of a node, in lower case.
pub fn daemon_node_capabilities(env: &StrMap<String>) -> (r: StrSet)
    ensures
        r@ == match lookup(env.entries(), "ANNA_NODE_CAPABILITIES"@) {
            Some(raw) => lowered_all(list_items(raw, CharSet::ListSep)).to_set(),
            None => Set::empty(),
        },
{
    match env.get("ANNA_NODE_CAPABILITIES") {
        Some(raw) => {
            let words = split_list(raw.as_str(), CharSet::ListSep);
            let names = lower_all(&words);
            StrSet::of(&names)
        },
        None => StrSet::new(),
    }
}

/// How often the chat intents are read again, in seconds: two unless it is told
/// otherwise, and never where it is switched off or zero.
pub open spec fn reload_seconds(value: Option<Seq<char>>) -> Option<u64> {
    match value {
        None => Some(2),
        Some(value) => if off(value) || trimmed(value) == "0"@ {
            None
        } else {
            Some(number_or(Some(value), u64::MAX as nat, 1, 2) as u64)
        },
    }
}

pub fn chat_intents_reload_interval(env: &StrMap<String>) -> (r: Option<u64>)
    ensures
        r == reload_seconds(lookup(env.entries(), "ANNA_CHAT_INTENTS_RELOAD_SEC"@)),
{
    match env_str(env, "ANNA_CHAT_INTENTS_RELOAD_SEC") {
        None => Some(2),
        Some(value) => {
            let v = trim(value);
            assert(lowered(v@).len() == v@.len());
            if v.is_empty() || same_ignoring_case(v, "off") || same_ignoring_case(v, "false")
                || same(v, "0") {
                None
            } else {
                Some(number_setting(Some(value), u64::MAX, 1, 2))
            }
        },
    }
}

/// What the operator is told where the reload setting is ignored: it is neither
/// switched off nor zero, and no number of at least one.
pub open spec fn reload_note(value: Option<Seq<char>>) -> Option<Seq<char>> {
    match value {
        None => None,
        Some(value) => if off(value) || trimmed(value) == "0"@ || (number_value(
            trimmed(value),
            u64::MAX as nat,
        ) matches Ok(n) && n >= 1) {
            None
        } else {
            Some(
                "anna-rs daemon: invalid ANNA_CHAT_INTENTS_RELOAD_SEC='"@ + trimmed(value)
                    + "' (expected integer >=1, or off/false/0)"@,
            )
        },
    }
}

pub fn chat_intents_reload_note(env: &StrMap<String>) -> (r: Option<String>)
    ensures
        opt_text(r) == reload_note(lookup(env.entries(), "ANNA_CHAT_INTENTS_RELOAD_SEC"@)),
{
    let value = match env_str(env, "ANNA_CHAT_INTENTS_RELOAD_SEC") {
        None => {
            return None;
        },
        Some(value) => trim(value),
    };
    assert(lowered(value@).len() == value@.len());
    if value.is_empty() || same_ignoring_case(value, "off") || same_ignoring_case(value, "false")
        || same(value, "0") {
        return None;
    }
    if let Ok(n) = parse_number(value, u64::MAX) {
        if n >= 1 {
            return None;
        }
    }
    Some(
        cat3(
            "anna-rs daemon: invalid ANNA_CHAT_INTENTS_RELOAD_SEC='",
            value,
            "' (expected integer >=1, or off/false/0)",
        ),
    )
}

/// The limits of owners and the default limit.
pub struct OwnerLimitsView {
    pub per_owner: Seq<(Seq<char>, usize)>,
    pub default_limit: Option<usize>,
}

/// The limits after one more entry `owner=limit`: an entry that is not of this
/// form, or whose limit is no number of at least one, does not count; `*`
/// stands for the default.
pub open spec fn with_owner_limit(limits: OwnerLimitsView, item: Seq<char>) -> OwnerLimitsView {
    match split_at_first(item, "="@) {
        None => limits,
        Some((owner, limit)) => match number_value(trimmed(limit), usize::MAX as nat) {
            Err(_) => limits,
            Ok(n) => if n < 1 {
                limits
            } else {
                let key = lowered(trimmed(owner));
                if key == "*"@ {
                    OwnerLimitsView { default_limit: Some(n as usize), ..limits }
                } else if key.len() > 0 {
                    OwnerLimitsView {
                        per_owner: put(limits.per_owner, key, n as usize),
                        ..limits
                    }
                } else {
                    limits
                }
            },
        },
    }
}

/// The limits that a list of entries sets.
pub open spec fn owner_limits(items: Seq<Seq<char>>) -> OwnerLimitsView
    decreases items.len(),
{
    if items.len() == 0 {
        OwnerLimitsView { per_owner: Seq::empty(), default_limit: None }
    } else {
        with_owner_limit(owner_limits(items.drop_last()), items.last())
    }
}

/// How many flows of an owner may run at a time.
pub fn daemon_owner_concurrency_policy(env: &StrMap<String>) -> (r: OwnerConcurrencyPolicy)
    ensures
        ({
            let limits = match lookup(env.entries(), "ANNA_OWNER_MAX_CONCURRENCY"@) {
                Some(raw) => owner_limits(list_items(raw, CharSet::EntrySep)),
                None => owner_limits(Seq::empty()),
            };
            r.per_owner.entries() == limits.per_owner && r.default_limit == limits.default_limit
        }),
{
    let mut policy = OwnerConcurrencyPolicy { per_owner: StrMap::new(), default_limit: None };
    let raw = match env.get("ANNA_OWNER_MAX_CONCURRENCY") {
        Some(raw) => raw,
        None => {
            return policy;
        },
    };
    let items = split_list(raw.as_str(), CharSet::EntrySep);
    let ghost all = texts(items@);
    let mut i: usize = 0;
    assert(all.take(0) =~= Seq::<Seq<char>>::empty());
    while i < items.len()
        invariant
            i <= items.len(),
            all == texts(items@),
            policy.per_owner.entries() == owner_limits(all.take(i as int)).per_owner,
            policy.default_limit == owner_limits(all.take(i as int)).default_limit,
        decreases items.len() - i,
    {
        assert(all.take(i + 1).drop_last() =~= all.take(i as int));
        assert(all.take(i + 1).last() == items@[i as int]@);
        if let Some((owner, limit)) = split_once(items[i].as_str(), "=") {
            if let Ok(n) = parse_number(trim(limit), usize::MAX as u64) {
                proof {
                    number_in_range(trimmed(limit@), usize::MAX as nat);
                }
                if n >= 1 {
                    let key = to_lower(trim(owner));
                    if same(key.as_str(), "*") {
                        policy.default_limit = Some(n as usize);
                    } else if !key.as_str().is_empty() {
                        policy.per_owner.insert(key, n as usize);
                    }
                }
            }
        }
        i += 1;
    }
    assert(all.take(i as int) =~= all);
    policy
}

/// What the operator is told where an entry `owner=limit` is ignored.
pub open spec fn owner_limit_note(item: Seq<char>) -> Option<Seq<char>> {
    match split_at_first(item, "="@) {
        None => Some(
            "anna-rs daemon: ignoring invalid ANNA_OWNER_MAX_CONCURRENCY entry '"@ + item + "'"@,
        ),
        Some((owner, limit)) => if number_value(trimmed(limit), usize::MAX as nat) matches Ok(n)
            && n >= 1 {
            None
        } else {
            Some(
                "anna-rs daemon: ignoring invalid owner limit '"@ + trimmed(owner) + "="@
                    + trimmed(limit) + "' (expected >=1)"@,
            )
        },
    }
}

/// What the operator is told of a list of entries.
pub open spec fn owner_limit_notes(items: Seq<Seq<char>>) -> Seq<Seq<char>>
    decreases items.len(),
{
    if items.len() == 0 {
        Seq::empty()
    } else {
        let before = owner_limit_notes(items.drop_last());
        match owner_limit_note(items.last()) {
            Some(note) => before.push(note),
            None => before,
        }
    }
}

fn note_on_owner_limit(item: &str) -> (r: Option<String>)
    ensures
        opt_text(r) == owner_limit_note(item@),
{
    match split_once(item, "=") {
        None => Some(
            cat3("anna-rs daemon: ignoring invalid ANNA_OWNER_MAX_CONCURRENCY entry '", item, "'"),
        ),
        Some((owner, limit)) => {
            if let Ok(n) = parse_number(trim(limit), usize::MAX as u64) {
                if n >= 1 {
                    return None;
                }
            }
            Some(
                cat5(
                    "anna-rs daemon: ignoring invalid owner limit '",
                    trim(owner),
                    "=",
                    trim(limit),
                    "' (expected >=1)",
                ),
            )
        },
    }
}

/// What the operator is told of the owner limits that are ignored.
pub fn daemon_owner_limit_notes(env: &StrMap<String>) -> (r: Vec<String>)
    ensures
        texts(r@) == match lookup(env.entries(), "ANNA_OWNER_MAX_CONCURRENCY"@) {
            Some(raw) => owner_limit_notes(list_items(raw, CharSet::EntrySep)),
            None => Seq::empty(),
        },
{
    broadcast use group_texts;

    let mut notes: Vec<String> = Vec::new();
    let raw = match env.get("ANNA_OWNER_MAX_CONCURRENCY") {
        Some(raw) => raw,
        None => {
            return notes;
        },
    };
    let items = split_list(raw.as_str(), CharSet::EntrySep);
    let ghost all = texts(items@);
    let mut i: usize = 0;
    assert(all.take(0) =~= Seq::<Seq<char>>::empty());
    while i < items.len()
        invariant
            i <= items.len(),
            all == texts(items@),
            texts(notes@) == owner_limit_notes(all.take(i as int)),
        decreases items.len() - i,
    {
        assert(all.take(i + 1).drop_last() =~= all.take(i as int));
        assert(all.take(i + 1).last() == items@[i as int]@);
        if let Some(note) = note_on_owner_limit(items[i].as_str()) {
            notes.push(note);
        }
        i += 1;
    }
    assert(all.take(i as int) =~= all);
    notes
}

/// An entry that the operator is told of sets no limit.
pub proof fn noted_owner_limits_do_not_count(limits: OwnerLimitsView, item: Seq<char>)
    ensures
        owner_limit_note(item) is Some ==> with_owner_limit(limits, item) == limits,
{
}

} // verus!
