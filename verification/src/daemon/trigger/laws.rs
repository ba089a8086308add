//! What holds of the leadership of the scheduler, and of when flows are due.
use crate::daemon::trigger::{
    cron_due, cron_due_at, cron_next, cron_read, follower, held_by_other, kept_entries, later,
    observed_state, sole_leader, transition_name, trigger_key_of, trigger_value_of, watch_dir,
    watch_pattern, LeaderView,
};
use crate::paths::{joined_path, parent_path};
use crate::strmap::{distinct_keys, lookup, put_spec};
use crate::text::{blank, holds_text, list_items, trimmed, CharSet};
use vstd::prelude::*;

verus! {

// ---------------------------------------------------------------- leadership

/// A node that begins to lead acquired the leadership, one that ends to lead lost it;
/// else it is told whether leadership began or ended to be shared.
pub proof fn changes_have_names(previous: LeaderView, next: LeaderView)
    ensures
        !previous.is_leader && next.is_leader ==> transition_name(previous, next)
            == "trigger_leader_acquired"@,
        previous.is_leader && !next.is_leader ==> transition_name(previous, next)
            == "trigger_leader_lost"@,
        previous.is_leader == next.is_leader && !previous.enabled && next.enabled
            ==> transition_name(previous, next) == "trigger_leader_enabled"@,
        previous.is_leader == next.is_leader && previous.enabled && !next.enabled
            ==> transition_name(previous, next) == "trigger_leader_disabled"@,
        previous.is_leader == next.is_leader && previous.enabled == next.enabled
            ==> transition_name(previous, next) == "trigger_leader_updated"@,
{
}

/// Without a lease a node leads; with one that it cannot read it does not.
pub proof fn nodes_without_lease_lead(node_id: Seq<char>, lease_file: Seq<char>, now: u64)
    ensures
        sole_leader(node_id).is_leader && !sole_leader(node_id).enabled,
        sole_leader(node_id).node_id == node_id && sole_leader(node_id).holder == Some(node_id),
        sole_leader(node_id).lease_file is None && sole_leader(node_id).expires_at is None,
        !follower(node_id, lease_file).is_leader && follower(node_id, lease_file).enabled,
        follower(node_id, lease_file).node_id == node_id,
        follower(node_id, lease_file).holder is None,
        follower(node_id, lease_file).lease_file == Some(lease_file),
        observed_state(node_id, lease_file, None, now) == follower(node_id, lease_file),
{
}

/// A node leads if and only if it holds a lease that has not run out; whose lease it
/// is and how long it lasts is known either way.
pub proof fn holders_lead(
    node_id: Seq<char>,
    lease_file: Seq<char>,
    holder: Seq<char>,
    expires_at: u64,
    now: u64,
)
    ensures
        ({
            let seen = observed_state(node_id, lease_file, Some((holder, expires_at)), now);
            &&& seen.is_leader <==> holder == node_id && expires_at > now
            &&& seen.enabled && seen.node_id == node_id && seen.lease_file == Some(lease_file)
            &&& seen.holder == Some(holder) && seen.expires_at == Some(expires_at)
        }),
        held_by_other(node_id, holder, expires_at, now) <==> holder != node_id && expires_at > now,
{
}

// ---------------------------------------------------------------- times

/// Triggers are told apart by their flow, their kind and what they say; a blank one
/// is none.
pub proof fn triggers_say_something(value: Seq<char>, path: Seq<char>, kind: Seq<char>)
    ensures
        trigger_value_of(None) is None,
        blank(value) ==> trigger_value_of(Some(value)) is None,
        !blank(value) ==> trigger_value_of(Some(value)) == Some(value),
        trigger_key_of(path, kind, value) == path + "::"@ + kind + "::"@ + trimmed(value),
{
}

/// A later time lies as much later as it says, up to the end of time.
pub proof fn later_is_not_earlier(now: u64, by: u64)
    ensures
        later(now, by) >= now,
        now + by <= u64::MAX ==> later(now, by) == now + by,
        now + by > u64::MAX ==> later(now, by) == u64::MAX,
{
}

/// What is kept is what was there before and is still seen.
pub proof fn seen_entries_are_kept<T>(
    entries: Seq<(Seq<char>, T)>,
    seen: Set<Seq<char>>,
    key: Seq<char>,
)
    requires
        distinct_keys(entries),
    ensures
        seen.contains(key) ==> lookup(kept_entries(entries, seen), key) == lookup(entries, key),
        !seen.contains(key) ==> lookup(kept_entries(entries, seen), key) is None,
    decreases entries.len(),
{
    if entries.len() > 0 {
        let rest = entries.drop_last();
        assert(distinct_keys(rest)) by {
            assert forall|i: int, j: int| 0 <= i < j < rest.len() implies #[trigger] rest[i].0
                != #[trigger] rest[j].0 by {
                assert(rest[i] == entries[i] && rest[j] == entries[j]);
            }
        }
        seen_entries_are_kept(rest, seen, key);
        put_spec(kept_entries(rest, seen), entries.last().0, entries.last().1);
    }
}

/// A flow is due when its expression is met next, in nanoseconds; one that is never
/// met again is looked at a day later.
pub proof fn due_when_met(next: u64, now: u64)
    requires
        next < 4_133_980_800,
    ensures
        cron_due_at(Some(next), now) == next * 1_000_000_000,
        now + 86_400_000_000_000 <= u64::MAX ==> cron_due_at(None, now) == now
            + 24 * 60 * 60 * 1_000_000_000,
        cron_due(Ok(Some(next)), now) == Ok::<u64, Seq<char>>((next * 1_000_000_000) as u64),
{
}

/// An expression that can be read is read as it is; one of five fields that cannot is
/// read with the second zero before it; the error is that of the expression itself.
pub proof fn five_fields_start_with_minutes(expression: Seq<char>, now_secs: u64, now: u64)
    ensures
        cron_next(expression, now_secs) is Ok ==> cron_read(expression, now_secs) == cron_next(
            expression,
            now_secs,
        ),
        ({
            let fields = list_items(expression, CharSet::Space).len();
            let filled = cron_next("0 "@ + expression, now_secs);
            cron_next(expression, now_secs) is Err ==> {
                &&& fields == 5 && filled is Ok ==> cron_read(expression, now_secs) == filled
                &&& fields != 5 || filled is Err ==> cron_read(expression, now_secs) == cron_next(
                    expression,
                    now_secs,
                )
            }
        }),
        cron_read(expression, now_secs) is Err ==> cron_due(cron_read(expression, now_secs), now)
            is Err && cron_due(cron_read(expression, now_secs), now)->Err_0 == cron_next(
            expression,
            now_secs,
        )->Err_0,
{
}

// ---------------------------------------------------------------- watches

/// Files are watched in the directory of the workflow, else beside its file.
pub proof fn watches_start_somewhere(
    plays_dir: Seq<char>,
    workdir: Seq<char>,
    path: Seq<char>,
)
    ensures
        watch_dir(plays_dir, Some(workdir), path) == joined_path(plays_dir, workdir),
        parent_path(path) is Some ==> watch_dir(plays_dir, None, path) == parent_path(path)->0,
        parent_path(path) is None ==> watch_dir(plays_dir, None, path) == plays_dir,
{
}

/// A pattern from the root is taken as it is; one with a directory is taken from the
/// directory of the flow, and a plain name at any depth below it.
pub proof fn patterns_are_placed(base: Seq<char>, raw: Seq<char>)
    ensures
        ({
            let t = trimmed(raw);
            &&& t.len() > 0 && t[0] == '/' ==> watch_pattern(base, raw) == t
            &&& t.len() > 0 && t[0] != '/' && (t.contains('/') || t.contains('\\') || holds_text(
                t,
                "**"@,
            )) ==> watch_pattern(base, raw) == joined_path(base, t)
            &&& t.len() > 0 && !t.contains('/') && !t.contains('\\') && !holds_text(t, "**"@)
                ==> watch_pattern(base, raw) == joined_path(joined_path(base, "**"@), t)
        }),
{
    let t = trimmed(raw);
    if t.len() > 0 && t[0] == '/' {
        assert(t.contains('/'));
    }
}

} // verus!
