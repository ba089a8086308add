//! Triggers: who leads the scheduler, and when a flow is due.
use crate::daemon::flows::{opt_refusal, WorkflowEntry};
use crate::daemon::sessions::{Refusal, RefusalView};
use crate::daemon::settings::TriggerLeaseConfig;
use crate::paths::{join_path, joined_path, parent_dir, parent_path};
use crate::strmap::{
    distinct_keys, keys_of, lookup, lookup_at, lookup_found, put, put_spec, StrMap, StrSet,
};
use crate::text::{
    blank, cat2, cat5, cat7, chars_of, contains, holds_text, is_blank, list_items, opt_str,
    opt_text, same, split_list, texts, trim, trimmed, CharSet,
};
use vstd::prelude::*;
use vstd::string::*;

pub mod laws;

verus! {

// ---------------------------------------------------------------- leadership

/// Who holds the lease of the scheduler, and until when.
pub struct TriggerLeaseFile {
    pub holder: String,
    pub expires_at: u64,
}

/// What a node knows of the leadership.
pub struct TriggerLeaderState {
    pub enabled: bool,
    pub is_leader: bool,
    pub node_id: String,
    pub holder: Option<String>,
    pub expires_at: Option<u64>,
    pub lease_file: Option<String>,
}

/// A leader state, as plain values.
pub struct LeaderView {
    pub enabled: bool,
    pub is_leader: bool,
    pub node_id: Seq<char>,
    pub holder: Option<Seq<char>>,
    pub expires_at: Option<u64>,
    pub lease_file: Option<Seq<char>>,
}

impl View for TriggerLeaderState {
    type V = LeaderView;

    open spec fn view(&self) -> LeaderView {
        LeaderView {
            enabled: self.enabled,
            is_leader: self.is_leader,
            node_id: self.node_id@,
            holder: opt_text(self.holder),
            expires_at: self.expires_at,
            lease_file: opt_text(self.lease_file),
        }
    }
}

fn same_opt(a: &Option<String>, b: &Option<String>) -> (r: bool)
    ensures
        r == (opt_text(*a) == opt_text(*b)),
{
    match (a, b) {
        (Some(a), Some(b)) => same(a.as_str(), b.as_str()),
        (None, None) => true,
        _ => false,
    }
}

/// Whether the leadership has changed. A lease that was merely renewed is no
/// change.
pub fn trigger_leader_state_changed(
    previous: &TriggerLeaderState,
    next: &TriggerLeaderState,
) -> (r: bool)
    ensures
        r == (previous@.enabled != next@.enabled || previous@.is_leader != next@.is_leader
            || previous@.holder != next@.holder),
{
    previous.enabled != next.enabled || previous.is_leader != next.is_leader || !same_opt(
        &previous.holder,
        &next.holder,
    )
}

/// The name of a change of leadership.
pub open spec fn transition_name(previous: LeaderView, next: LeaderView) -> Seq<char> {
    if !previous.is_leader && next.is_leader {
        "trigger_leader_acquired"@
    } else if previous.is_leader && !next.is_leader {
        "trigger_leader_lost"@
    } else if !previous.enabled && next.enabled {
        "trigger_leader_enabled"@
    } else if previous.enabled && !next.enabled {
        "trigger_leader_disabled"@
    } else {
        "trigger_leader_updated"@
    }
}

pub fn trigger_leader_transition_event(
    previous: &TriggerLeaderState,
    next: &TriggerLeaderState,
) -> (r: &'static str)
    ensures
        r@ == transition_name(previous@, next@),
{
    if !previous.is_leader && next.is_leader {
        "trigger_leader_acquired"
    } else if previous.is_leader && !next.is_leader {
        "trigger_leader_lost"
    } else if !previous.enabled && next.enabled {
        "trigger_leader_enabled"
    } else if previous.enabled && !next.enabled {
        "trigger_leader_disabled"
    } else {
        "trigger_leader_updated"
    }
}

/// The state of a node that leads alone, for want of a lease.
pub open spec fn sole_leader(node_id: Seq<char>) -> LeaderView {
    LeaderView {
        enabled: false,
        is_leader: true,
        node_id,
        holder: Some(node_id),
        expires_at: None,
        lease_file: None,
    }
}

/// The state of a node that does not know who leads.
pub open spec fn follower(node_id: Seq<char>, lease_file: Seq<char>) -> LeaderView {
    LeaderView {
        enabled: true,
        is_leader: false,
        node_id,
        holder: None,
        expires_at: None,
        lease_file: Some(lease_file),
    }
}

/// The state of a node that leads alone.
pub fn lead_alone(node_id: &str) -> (r: TriggerLeaderState)
    ensures
        r@ == sole_leader(node_id@),
{
    TriggerLeaderState {
        enabled: false,
        is_leader: true,
        node_id: node_id.to_owned(),
        holder: Some(node_id.to_owned()),
        expires_at: None,
        lease_file: None,
    }
}

/// The state of a node that could not read or write the lease: it does not
/// lead.
pub fn lease_unavailable(config: &TriggerLeaseConfig) -> (r: TriggerLeaderState)
    ensures
        r@ == follower(config.node_id@, config.lease_file@),
{
    TriggerLeaderState {
        enabled: true,
        is_leader: false,
        node_id: config.node_id.clone(),
        holder: None,
        expires_at: None,
        lease_file: Some(config.lease_file.clone()),
    }
}

/// What a node knows of the leadership when it starts.
pub fn initial_trigger_leader_state(node_id: &str, lease: Option<&TriggerLeaseConfig>) -> (r:
    TriggerLeaderState)
    ensures
        r@ == match lease {
            Some(lease) => follower(node_id@, lease.lease_file@),
            None => sole_leader(node_id@),
        },
{
    match lease {
        Some(lease) => TriggerLeaderState {
            enabled: true,
            is_leader: false,
            node_id: node_id.to_owned(),
            holder: None,
            expires_at: None,
            lease_file: Some(lease.lease_file.clone()),
        },
        None => lead_alone(node_id),
    }
}

/// Whether another node holds a lease that has not run out.
pub open spec fn held_by_other(
    node_id: Seq<char>,
    holder: Seq<char>,
    expires_at: u64,
    now: u64,
) -> bool {
    holder != node_id && expires_at > now
}

/// What the first look at the lease says: the state of a node that must follow,
/// or nothing where the lease may be taken.
pub fn must_follow(config: &TriggerLeaseConfig, current: Option<&TriggerLeaseFile>, now: u64) -> (r:
    Option<TriggerLeaderState>)
    ensures
        match current {
            Some(lease) => if held_by_other(
                config.node_id@,
                lease.holder@,
                lease.expires_at,
                now,
            ) {
                r is Some && r->0@ == (LeaderView {
                    enabled: true,
                    is_leader: false,
                    node_id: config.node_id@,
                    holder: Some(lease.holder@),
                    expires_at: Some(lease.expires_at),
                    lease_file: Some(config.lease_file@),
                })
            } else {
                r is None
            },
            None => r is None,
        },
{
    match current {
        Some(lease) => {
            if !same(lease.holder.as_str(), config.node_id.as_str()) && lease.expires_at > now {
                Some(
                    TriggerLeaderState {
                        enabled: true,
                        is_leader: false,
                        node_id: config.node_id.clone(),
                        holder: Some(lease.holder.clone()),
                        expires_at: Some(lease.expires_at),
                        lease_file: Some(config.lease_file.clone()),
                    },
                )
            } else {
                None
            }
        },
        None => None,
    }
}

/// The lease that a node writes: it holds it from now on, as long as a lease
/// lasts.
pub fn candidate_lease(config: &TriggerLeaseConfig, now: u64) -> (r: TriggerLeaseFile)
    ensures
        r.holder@ == config.node_id@,
        r.expires_at == if now + config.ttl_sec > u64::MAX {
            u64::MAX as int
        } else {
            now + config.ttl_sec
        },
{
    TriggerLeaseFile {
        holder: config.node_id.clone(),
        expires_at: now.saturating_add(config.ttl_sec),
    }
}

/// What the look at the lease after writing it says: the node leads where the
/// lease is its own and has not run out.
pub open spec fn observed_state(
    node_id: Seq<char>,
    lease_file: Seq<char>,
    observed: Option<(Seq<char>, u64)>,
    now: u64,
) -> LeaderView {
    LeaderView {
        enabled: true,
        is_leader: match observed {
            Some((holder, expires_at)) => holder == node_id && expires_at > now,
            None => false,
        },
        node_id,
        holder: match observed {
            Some((holder, expires_at)) => Some(holder),
            None => None,
        },
        expires_at: match observed {
            Some((holder, expires_at)) => Some(expires_at),
            None => None,
        },
        lease_file: Some(lease_file),
    }
}

pub fn observed_leadership(
    config: &TriggerLeaseConfig,
    observed: Option<&TriggerLeaseFile>,
    now: u64,
) -> (r: TriggerLeaderState)
    ensures
        r@ == observed_state(
            config.node_id@,
            config.lease_file@,
            match observed {
                Some(lease) => Some((lease.holder@, lease.expires_at)),
                None => None,
            },
            now,
        ),
{
    match observed {
        Some(lease) => TriggerLeaderState {
            enabled: true,
            is_leader: same(lease.holder.as_str(), config.node_id.as_str()) && lease.expires_at
                > now,
            node_id: config.node_id.clone(),
            holder: Some(lease.holder.clone()),
            expires_at: Some(lease.expires_at),
            lease_file: Some(config.lease_file.clone()),
        },
        None => TriggerLeaderState {
            enabled: true,
            is_leader: false,
            node_id: config.node_id.clone(),
            holder: None,
            expires_at: None,
            lease_file: Some(config.lease_file.clone()),
        },
    }
}

/// One lease makes one leader: two nodes that see the same lease do not both
/// lead.
pub proof fn one_leader_for_one_lease(
    a: Seq<char>,
    b: Seq<char>,
    lease_file: Seq<char>,
    lease: (Seq<char>, u64),
    now_a: u64,
    now_b: u64,
)
    requires
        a != b,
    ensures
        !(observed_state(a, lease_file, Some(lease), now_a).is_leader && observed_state(
            b,
            lease_file,
            Some(lease),
            now_b,
        ).is_leader),
{
}

/// A node that sees the lease that it wrote leads.
pub proof fn writer_leads(node_id: Seq<char>, lease_file: Seq<char>, expires_at: u64, now: u64)
    requires
        expires_at > now,
    ensures
        observed_state(node_id, lease_file, Some((node_id, expires_at)), now).is_leader,
{
}

/// A lease that has run out, or that is the node's own, does not keep the node
/// from leading.
pub proof fn lease_can_be_taken(node_id: Seq<char>, holder: Seq<char>, expires_at: u64, now: u64)
    requires
        expires_at <= now || holder == node_id,
    ensures
        !held_by_other(node_id, holder, expires_at, now),
{
}

/// Why a hook is turned away: another node leads.
pub fn hook_refusal(leader: &TriggerLeaderState, hook_path: &str) -> (r: Option<Refusal>)
    ensures
        opt_refusal(r) == if !leader@.enabled || leader@.is_leader {
            None::<RefusalView>
        } else {
            Some(
                RefusalView {
                    status: 409,
                    message: "hook '"@ + hook_path@ + "' rejected on follower node '"@
                        + leader@.node_id + "' (leader='"@ + (match leader@.holder {
                        Some(holder) => holder,
                        None => "unknown"@,
                    }) + "')"@,
                },
            )
        },
{
    if !leader.enabled || leader.is_leader {
        return None;
    }
    let holder = match &leader.holder {
        Some(holder) => holder.as_str(),
        None => "unknown",
    };
    Some(
        Refusal {
            status: 409,
            message: cat7(
                "hook '",
                hook_path,
                "' rejected on follower node '",
                leader.node_id.as_str(),
                "' (leader='",
                holder,
                "')",
            ),
        },
    )
}

// ---------------------------------------------------------------- schedule

/// When flows are due next, and what their watched files looked like.
pub struct TriggerScheduler {
    pub interval_next: StrMap<u64>,
    pub cron_next: StrMap<u64>,
    pub watch_snapshots: StrMap<StrMap<u64>>,
}

/// What a flow's trigger says, where it says anything.
pub open spec fn trigger_value_of(trigger: Option<Seq<char>>) -> Option<Seq<char>> {
    match trigger {
        Some(value) => if blank(value) {
            None
        } else {
            Some(value)
        },
        None => None,
    }
}

/// What a flow's trigger says, where it says anything.
pub fn trigger_value(trigger: &Option<String>) -> (r: Option<&str>)
    ensures
        opt_str(r) == trigger_value_of(opt_text(*trigger)),
{
    match trigger {
        Some(value) => if is_blank(value.as_str()) {
            None
        } else {
            Some(value.as_str())
        },
        None => None,
    }
}

/// What identifies a trigger of a flow.
pub open spec fn trigger_key_of(path: Seq<char>, kind: Seq<char>, value: Seq<char>) -> Seq<char> {
    path + "::"@ + kind + "::"@ + trimmed(value)
}

pub fn trigger_key(entry: &WorkflowEntry, trigger_kind: &str, trigger_value: &str) -> (r: String)
    ensures
        r@ == trigger_key_of(entry@.path, trigger_kind@, trigger_value@),
{
    cat5(entry.path.as_str(), "::", trigger_kind, "::", trim(trigger_value))
}

/// A time after another; the end of time where it would lie beyond.
pub open spec fn later(now: u64, by: u64) -> u64 {
    if now + by > u64::MAX {
        u64::MAX
    } else {
        (now + by) as u64
    }
}

/// The entries whose keys are in the set.
pub open spec fn kept_entries<T>(entries: Seq<(Seq<char>, T)>, seen: Set<Seq<char>>) -> Seq<
    (Seq<char>, T),
>
    decreases entries.len(),
{
    if entries.len() == 0 {
        Seq::empty()
    } else {
        let before = kept_entries(entries.drop_last(), seen);
        if seen.contains(entries.last().0) {
            put(before, entries.last().0, entries.last().1)
        } else {
            before
        }
    }
}

fn keep_times(times: &StrMap<u64>, seen: &StrSet) -> (r: StrMap<u64>)
    ensures
        r.entries() == kept_entries(times.entries(), seen@),
{
    let mut out: StrMap<u64> = StrMap::new();
    let n: usize = times.len();
    let ghost all = times.entries();
    let mut i: usize = 0;
    assert(all.take(0) =~= Seq::<(Seq<char>, u64)>::empty());
    while i < n
        invariant
            i <= n,
            n == all.len(),
            all == times.entries(),
            out.entries() == kept_entries(all.take(i as int), seen@),
        decreases n - i,
    {
        assert(all.take(i + 1).drop_last() =~= all.take(i as int));
        if seen.contains(times.key_at(i)) {
            out.insert(times.key_at(i).to_owned(), *times.value_at(i));
        }
        i += 1;
    }
    assert(all.take(n as int) =~= all);
    out
}

/// The time at which a cron expression is met next after a time, both in
/// seconds since 1970, or why the expression is none; an inner `None` says that it
/// is never met again.
pub uninterp spec fn cron_next(expression: Seq<char>, now_secs: u64) -> Result<
    Option<u64>,
    Seq<char>,
>;

/// The `cron` crate: `Schedule::from_str` on the expression, whose error comes as
/// its message, then the first item of `Schedule::after` in UTC. It depends on the
/// expression and the time alone, lies after the time, and within the years up to
/// 2100 that a schedule knows. The time must be one that `chrono` can add a second
/// to.
#[verifier::external_body]
fn next_cron_time(expression: &str, now_secs: u64) -> (r: Result<Option<u64>, String>)
    requires
        now_secs <= 0xff_ffff_ffff,
    ensures
        match r {
            Ok(next) => cron_next(expression@, now_secs) == Ok::<Option<u64>, Seq<char>>(next),
            Err(message) => cron_next(expression@, now_secs) == Err::<Option<u64>, Seq<char>>(
                message@,
            ),
        },
        r is Ok && r->Ok_0 is Some ==> now_secs < r->Ok_0->0 < 4_133_980_800,
{
    let schedule = expression.parse::<cron::Schedule>().map_err(|err| err.to_string())?;
    let now = chrono::DateTime::<chrono::Utc>::from_timestamp(now_secs as i64, 0).ok_or("")?;
    Ok(schedule.after(&now).next().map(|time| time.timestamp() as u64))
}

/// When a flow is due by its cron expression, in nanoseconds: at the next time
/// that the expression gives, else a day from now.
pub open spec fn cron_due_at(next_secs: Option<u64>, now: u64) -> u64 {
    match next_secs {
        Some(secs) => (secs * 1_000_000_000) as u64,
        None => later(now, 86_400_000_000_000),
    }
}

/// When a flow is due by the time that its cron expression gives.
pub fn due_at(next_secs: Option<u64>, now: u64) -> (r: u64)
    requires
        next_secs is Some ==> next_secs->0 < 4_133_980_800,
    ensures
        r == cron_due_at(next_secs, now),
{
    match next_secs {
        Some(secs) => secs * 1_000_000_000,
        None => now.saturating_add(86_400_000_000_000),
    }
}

/// The time at which a cron expression is met next: one of five fields starts
/// with the minutes, and is met as the minute begins.
pub open spec fn cron_read(expression: Seq<char>, now_secs: u64) -> Result<
    Option<u64>,
    Seq<char>,
> {
    match cron_next(expression, now_secs) {
        Ok(next) => Ok(next),
        Err(message) => if list_items(expression, CharSet::Space).len() == 5 {
            match cron_next("0 "@ + expression, now_secs) {
                Ok(next) => Ok(next),
                Err(_) => Err(message),
            }
        } else {
            Err(message)
        },
    }
}

/// When a flow is due by what was read of its cron expression.
pub open spec fn cron_due(read: Result<Option<u64>, Seq<char>>, now: u64) -> Result<
    u64,
    Seq<char>,
> {
    match read {
        Ok(next) => Ok(cron_due_at(next, now)),
        Err(message) => Err(message),
    }
}

pub open spec fn due_result(r: Result<u64, String>) -> Result<u64, Seq<char>> {
    match r {
        Ok(due) => Ok(due),
        Err(message) => Err(message@),
    }
}

/// When a flow with this cron expression is due next after `now`, in
/// nanoseconds since 1970, or why the expression is none.
pub fn next_cron_due(expression: &str, now: u64) -> (r: Result<u64, String>)
    ensures
        due_result(r) == cron_due(cron_read(expression@, now / 1_000_000_000), now),
        r is Ok ==> r->Ok_0 > now || r->Ok_0 == u64::MAX,
{
    let secs: u64 = now / 1_000_000_000;
    let next = match next_cron_time(expression, secs) {
        Ok(next) => next,
        Err(message) => {
            let fields = split_list(expression, CharSet::Space);
            assert(texts(fields@).len() == fields@.len());
            if fields.len() != 5 {
                return Err(message);
            }
            let whole = cat2("0 ", expression);
            match next_cron_time(whole.as_str(), secs) {
                Ok(next) => next,
                Err(_) => {
                    return Err(message);
                },
            }
        },
    };
    let due: u64 = due_at(next, now);
    proof {
        if next is Some {
            assert(next->0 * 1_000_000_000 >= (secs + 1) * 1_000_000_000);
        }
    }
    Ok(due)
}

impl TriggerScheduler {
    pub fn new() -> (r: Self)
        ensures
            r.interval_next.entries() == Seq::<(Seq<char>, u64)>::empty(),
            r.cron_next.entries() == Seq::<(Seq<char>, u64)>::empty(),
            r.watch_snapshots@ == Map::<Seq<char>, Map<Seq<char>, u64>>::empty(),
    {
        TriggerScheduler {
            interval_next: StrMap::new(),
            cron_next: StrMap::new(),
            watch_snapshots: StrMap::new(),
        }
    }

    /// Whether a flow with an interval is due. One that is seen for the first
    /// time is due an interval from now.
    pub fn interval_due(&mut self, key: &str, now: u64, interval: u64) -> (r: bool)
        ensures
            ({
                let next = match lookup(old(self).interval_next.entries(), key@) {
                    Some(next) => next,
                    None => later(now, interval),
                };
                &&& r == (now >= next)
                &&& lookup(final(self).interval_next.entries(), key@) == Some(next)
            }),
            final(self).interval_next.entries() == match lookup(
                old(self).interval_next.entries(),
                key@,
            ) {
                Some(_) => old(self).interval_next.entries(),
                None => put(old(self).interval_next.entries(), key@, later(now, interval)),
            },
            final(self).cron_next == old(self).cron_next,
            final(self).watch_snapshots == old(self).watch_snapshots,
    {
        if let Some(next) = self.interval_next.get(key) {
            return now >= *next;
        }
        let next: u64 = now.saturating_add(interval);
        proof {
            put_spec(self.interval_next.entries(), key@, next);
        }
        self.interval_next.insert(key.to_owned(), next);
        now >= next
    }

    /// Records that a flow with an interval was launched: it is due an interval
    /// later.
    pub fn interval_ran(&mut self, key: &str, now: u64, interval: u64)
        ensures
            final(self).interval_next.entries() == put(
                old(self).interval_next.entries(),
                key@,
                later(now, interval),
            ),
            final(self).cron_next == old(self).cron_next,
            final(self).watch_snapshots == old(self).watch_snapshots,
    {
        self.interval_next.insert(key.to_owned(), now.saturating_add(interval));
    }

    /// Whether a flow with a cron expression is due, where `next` is when it is
    /// due after now. One that is due gets the new time.
    pub fn cron_due(&mut self, key: &str, now: u64, next: u64) -> (r: bool)
        ensures
            ({
                let planned = match lookup(old(self).cron_next.entries(), key@) {
                    Some(planned) => planned,
                    None => next,
                };
                &&& r == (planned <= now)
                &&& lookup(final(self).cron_next.entries(), key@) == Some(
                    if r {
                        next
                    } else {
                        planned
                    },
                )
            }),
            final(self).cron_next.entries() == match lookup(
                old(self).cron_next.entries(),
                key@,
            ) {
                Some(planned) => if planned <= now {
                    put(old(self).cron_next.entries(), key@, next)
                } else {
                    old(self).cron_next.entries()
                },
                None => put(old(self).cron_next.entries(), key@, next),
            },
            final(self).interval_next == old(self).interval_next,
            final(self).watch_snapshots == old(self).watch_snapshots,
    {
        let planned: u64 = match self.cron_next.get(key) {
            Some(planned) => {
                if *planned > now {
                    return false;
                }
                *planned
            },
            None => next,
        };
        proof {
            put_spec(self.cron_next.entries(), key@, next);
        }
        self.cron_next.insert(key.to_owned(), next);
        planned <= now
    }

    /// Forgets the intervals of flows that are no longer there.
    pub fn keep_intervals(&mut self, seen: &StrSet)
        ensures
            final(self).interval_next.entries() == kept_entries(
                old(self).interval_next.entries(),
                seen@,
            ),
            final(self).cron_next == old(self).cron_next,
            final(self).watch_snapshots == old(self).watch_snapshots,
    {
        let kept = keep_times(&self.interval_next, seen);
        self.interval_next = kept;
    }

    /// Forgets the cron times of flows that are no longer there.
    pub fn keep_crons(&mut self, seen: &StrSet)
        ensures
            final(self).cron_next.entries() == kept_entries(old(self).cron_next.entries(), seen@),
            final(self).interval_next == old(self).interval_next,
            final(self).watch_snapshots == old(self).watch_snapshots,
    {
        let kept = keep_times(&self.cron_next, seen);
        self.cron_next = kept;
    }

    /// Records what the watched files of a flow look like, and says whether
    /// they have changed. The first look is no change.
    pub fn watch_changed(&mut self, key: &str, snapshot: StrMap<u64>) -> (r: bool)
        ensures
            r == (old(self).watch_snapshots@.contains_key(key@) && old(self).watch_snapshots@[key@]
                != snapshot@),
            final(self).watch_snapshots@ == old(self).watch_snapshots@.insert(key@, snapshot@),
            final(self).interval_next == old(self).interval_next,
            final(self).cron_next == old(self).cron_next,
    {
        let changed = match self.watch_snapshots.get(key) {
            Some(previous) => !same_snapshot(previous, &snapshot),
            None => false,
        };
        self.watch_snapshots.insert(key.to_owned(), snapshot);
        changed
    }

    /// Forgets the watched files of flows that are no longer there.
    pub fn keep_watches(&mut self, seen: &StrSet)
        ensures
            forall|k: Seq<char>| #[trigger]
                final(self).watch_snapshots@.contains_key(k)
                    <==> old(self).watch_snapshots@.contains_key(k) && seen@.contains(k),
            forall|k: Seq<char>|
                final(self).watch_snapshots@.contains_key(k)
                    ==> #[trigger] final(self).watch_snapshots@[k]
                    == old(self).watch_snapshots@[k],
            final(self).interval_next == old(self).interval_next,
            final(self).cron_next == old(self).cron_next,
    {
        let n: usize = self.watch_snapshots.len();
        let ghost all = self.watch_snapshots.entries();
        let mut gone: Vec<String> = Vec::new();
        let mut i: usize = 0;
        while i < n
            invariant
                i <= n,
                n == all.len(),
                all == self.watch_snapshots.entries(),
                forall|j: int|
                    0 <= j < i && !seen@.contains((#[trigger] all[j]).0)
                        ==> texts(gone@).contains(all[j].0),
                forall|j: int|
                    0 <= j < gone@.len() ==> !seen@.contains(
                        #[trigger] texts(gone@)[j],
                    ),
            decreases n - i,
        {
            let key = self.watch_snapshots.key_at(i);
            if !seen.contains(key) {
                let ghost before = texts(gone@);
                gone.push(key.to_owned());
                proof {
                    let after = texts(gone@);
                    assert(after =~= before.push(key@));
                    assert(after[before.len() as int] == key@);
                    assert forall|j: int| 0 <= j < i + 1 && !seen@.contains((#[trigger] all[j]).0)
                        implies after.contains(all[j].0) by {
                        if j < i {
                            let k = choose|k: int| 0 <= k < before.len() && before[k] == all[j].0;
                            assert(after[k] == all[j].0);
                        }
                    }
                }
            }
            i += 1;
        }
        let ghost start = self.watch_snapshots@;
        let ghost names = texts(gone@);
        let mut j: usize = 0;
        while j < gone.len()
            invariant
                j <= gone@.len(),
                names == texts(gone@),
                forall|k: Seq<char>| #[trigger]
                    self.watch_snapshots@.contains_key(k) <==> start.contains_key(k)
                        && !names.take(j as int).contains(k),
                forall|k: Seq<char>|
                    self.watch_snapshots@.contains_key(k)
                        ==> #[trigger] self.watch_snapshots@[k] == start[k],
                self.interval_next == old(self).interval_next,
                self.cron_next == old(self).cron_next,
            decreases gone@.len() - j,
        {
            let ghost now = self.watch_snapshots@;
            let ghost before = names.take(j as int);
            let ghost after = names.take(j + 1);
            let removed = self.watch_snapshots.remove(gone[j].as_str());
            proof {
                assert(after =~= before.push(names[j as int]));
                assert forall|k: Seq<char>| #[trigger]
                    self.watch_snapshots@.contains_key(k) <==> start.contains_key(k)
                        && !after.contains(k) by {
                    assert(now.contains_key(k) <==> start.contains_key(k) && !before.contains(k));
                    if before.contains(k) {
                        let m = choose|m: int| 0 <= m < before.len() && before[m] == k;
                        assert(after[m] == k);
                    }
                    if after.contains(k) && k != names[j as int] {
                        let m = choose|m: int| 0 <= m < after.len() && after[m] == k;
                        assert(before[m] == k);
                    }
                    if k == names[j as int] {
                        assert(after[j as int] == k);
                    }
                }
            }
            j += 1;
        }
        proof {
            assert(names.take(j as int) =~= names);
            assert forall|k: Seq<char>| #[trigger]
                self.watch_snapshots@.contains_key(k) <==> start.contains_key(k) && seen@.contains(
                    k,
                ) by {
                if start.contains_key(k) {
                    lookup_found(all, k);
                    let m = choose|m: int| 0 <= m < all.len() && keys_of(all)[m] == k;
                    assert(all[m].0 == k);
                }
                if names.contains(k) {
                    let m = choose|m: int| 0 <= m < names.len() && names[m] == k;
                    assert(!seen@.contains(names[m]));
                }
            }
        }
    }
}

/// Whether two looks at files show the same.
fn same_snapshot(a: &StrMap<u64>, b: &StrMap<u64>) -> (r: bool)
    ensures
        r == (a@ == b@),
{
    let n: usize = a.len();
    let m: usize = b.len();
    let ghost ea = a.entries();
    let ghost eb = b.entries();
    let mut i: usize = 0;
    while i < n
        invariant
            i <= n,
            n == ea.len(),
            ea == a.entries(),
            distinct_keys(ea),
            forall|j: int|
                0 <= j < i ==> b@.contains_key((#[trigger] ea[j]).0) && b@[ea[j].0] == ea[j].1,
        decreases n - i,
    {
        proof {
            lookup_at(ea, i as int);
        }
        match b.get(a.key_at(i)) {
            Some(value) => {
                if *value != *a.value_at(i) {
                    assert(a@[ea[i as int].0] != b@[ea[i as int].0]);
                    return false;
                }
            },
            None => {
                assert(a@.contains_key(ea[i as int].0));
                return false;
            },
        }
        i += 1;
    }
    let mut i: usize = 0;
    while i < m
        invariant
            i <= m,
            m == eb.len(),
            eb == b.entries(),
            distinct_keys(eb),
            forall|j: int| 0 <= j < i ==> a@.contains_key((#[trigger] eb[j]).0),
        decreases m - i,
    {
        proof {
            lookup_at(eb, i as int);
        }
        if !a.contains_key(b.key_at(i)) {
            assert(b@.contains_key(eb[i as int].0));
            return false;
        }
        i += 1;
    }
    proof {
        assert forall|k: Seq<char>| a@.contains_key(k) == b@.contains_key(k) by {
            lookup_found(ea, k);
            lookup_found(eb, k);
            if a@.contains_key(k) {
                let j = choose|j: int| 0 <= j < ea.len() && keys_of(ea)[j] == k;
                assert(ea[j].0 == k);
            }
            if b@.contains_key(k) {
                let j = choose|j: int| 0 <= j < eb.len() && keys_of(eb)[j] == k;
                assert(eb[j].0 == k);
            }
        }
        assert forall|k: Seq<char>| a@.contains_key(k) implies a@[k] == b@[k] by {
            lookup_found(ea, k);
            let j = choose|j: int| 0 <= j < ea.len() && keys_of(ea)[j] == k;
            assert(ea[j].0 == k);
            lookup_at(ea, j);
        }
        assert(a@ =~= b@);
    }
    true
}

/// What stands for the content of a file: its time of change and its length.
pub fn fingerprint(modified: u64, length: u64) -> (r: u64)
    ensures
        r == modified ^ ((length << 13u64) | (length >> 51u64)),
{
    modified ^ ((length << 13) | (length >> 51))
}

/// The directory that a watch pattern is taken from: that of the workflow, else
/// that of its file.
pub open spec fn watch_dir(plays_dir: Seq<char>, workdir: Option<Seq<char>>, path: Seq<char>) -> Seq<
    char,
> {
    match workdir {
        Some(dir) => joined_path(plays_dir, dir),
        None => match parent_path(path) {
            Some(parent) => parent,
            None => plays_dir,
        },
    }
}

pub fn watch_base_dir(plays_dir: &str, entry: &WorkflowEntry) -> (r: String)
    ensures
        r@ == watch_dir(plays_dir@, entry@.workflow_workdir, entry@.path),
{
    match &entry.workflow_workdir {
        Some(dir) => join_path(plays_dir, dir.as_str()),
        None => match parent_dir(entry.path.as_str()) {
            Some(parent) => parent,
            None => plays_dir.to_owned(),
        },
    }
}

/// The pattern of the files to watch: a plain file name is looked for at any
/// depth.
pub open spec fn watch_pattern(base: Seq<char>, raw: Seq<char>) -> Seq<char> {
    let t = trimmed(raw);
    if t.len() == 0 || t[0] == '/' {
        t
    } else if holds_text(t, "**"@) || t.contains('/') || t.contains('\\') {
        joined_path(base, t)
    } else {
        joined_path(joined_path(base, "**"@), t)
    }
}

fn has_char(chars: &Vec<char>, wanted: char) -> (r: bool)
    ensures
        r == chars@.contains(wanted),
{
    let mut i: usize = 0;
    while i < chars.len()
        invariant
            i <= chars.len(),
            forall|j: int| 0 <= j < i ==> chars@[j] != wanted,
        decreases chars.len() - i,
    {
        if chars[i] == wanted {
            return true;
        }
        i += 1;
    }
    false
}

pub fn resolve_watch_pattern(base_dir: &str, raw_pattern: &str) -> (r: String)
    ensures
        r@ == watch_pattern(base_dir@, raw_pattern@),
{
    let t = trim(raw_pattern);
    let chars = chars_of(t);
    if chars.len() == 0 || chars[0] == '/' {
        return t.to_owned();
    }
    if contains(t, "**") || has_char(&chars, '/') || has_char(&chars, '\\') {
        return join_path(base_dir, t);
    }
    let deep = join_path(base_dir, "**");
    join_path(deep.as_str(), t)
}

} // verus!
