//! The turns of the scheduler: what it does with the triggers of a flow each time
//! that it comes to the flow.
use crate::daemon::flows::WorkflowEntry;
use crate::daemon::trigger::{
    cron_due, cron_read, due_result, later, next_cron_due, resolve_watch_pattern, trigger_key,
    trigger_key_of, trigger_value, trigger_value_of, watch_base_dir, watch_dir, watch_pattern,
    TriggerScheduler,
};
use crate::strmap::{lookup, put, put_spec, StrSet};
use crate::text::{blank, cat4, cat5, is_blank};
use crate::workflow::{duration_read, opt_duration_fits, read_duration, span_result, Span};
use vstd::prelude::*;

verus! {

/// What the scheduler does with an interval.
pub enum IntervalTurn {
    /// There is none.
    Pass,
    /// It is not one; the log is told.
    Invalid(String),
    Wait,
    /// The flow is launched, and is then due by this key after this many
    /// nanoseconds.
    Launch(String, u64),
}

/// What the scheduler does with a cron expression.
pub enum CronTurn {
    Pass,
    Invalid(String),
    Wait,
    Launch,
}

/// What the log says of a trigger that cannot be read, and why.
pub open spec fn invalid_trigger(
    kind: Seq<char>,
    value: Seq<char>,
    path: Seq<char>,
    why: Seq<char>,
) -> Seq<char> {
    "anna-rs scheduler: invalid trigger."@ + kind + " '"@ + value + "' in '"@ + path + "': "@ + why
}

/// What the log says of a trigger that cannot be read, and why.
pub fn invalid_note(kind: &str, value: &str, path: &str, why: &str) -> (r: String)
    ensures
        r@ == invalid_trigger(kind@, value@, path@, why@),
{
    let head = cat5("anna-rs scheduler: invalid trigger.", kind, " '", value, "' in '");
    cat4(head.as_str(), path, "': ", why)
}

/// The turn of an interval that was read: a flow that is seen for the first time
/// is due an interval from now.
pub open spec fn interval_turned(
    before: TriggerScheduler,
    after: TriggerScheduler,
    seen_before: Set<Seq<char>>,
    seen_after: Set<Seq<char>>,
    path: Seq<char>,
    raw: Seq<char>,
    read: Result<Span, Seq<char>>,
    now: u64,
    r: IntervalTurn,
) -> bool {
    match read {
        Err(why) => {
            &&& r is Invalid
            &&& r->Invalid_0@ == invalid_trigger("interval"@, raw, path, why)
            &&& after == before
            &&& seen_after == seen_before
        },
        Ok(span) => {
            let key = trigger_key_of(path, "interval"@, raw);
            let times = before.interval_next.entries();
            let next = match lookup(times, key) {
                Some(next) => next,
                None => later(now, span.nanos_of()),
            };
            &&& if now >= next {
                r is Launch && r->Launch_0@ == key && r->Launch_1 == span.nanos_of()
            } else {
                r is Wait
            }
            &&& after.interval_next.entries() == (if lookup(times, key) is Some {
                times
            } else {
                put(times, key, next)
            })
            &&& after.cron_next == before.cron_next
            &&& after.watch_snapshots == before.watch_snapshots
            &&& seen_after == seen_before.insert(key)
        },
    }
}

/// Takes the turn of an interval that was read.
pub fn interval_turn_with(
    scheduler: &mut TriggerScheduler,
    seen: &mut StrSet,
    entry: &WorkflowEntry,
    raw: &str,
    read: Result<Span, String>,
    now: u64,
) -> (r: IntervalTurn)
    ensures
        interval_turned(
            *old(scheduler),
            *final(scheduler),
            old(seen)@,
            final(seen)@,
            entry@.path,
            raw@,
            span_result(read),
            now,
            r,
        ),
{
    match read {
        Err(why) => IntervalTurn::Invalid(
            invalid_note("interval", raw, entry.path.as_str(), why.as_str()),
        ),
        Ok(span) => {
            let interval: u64 = span.to_nanos();
            let key = trigger_key(entry, "interval", raw);
            seen.insert(key.clone());
            if scheduler.interval_due(key.as_str(), now, interval) {
                IntervalTurn::Launch(key, interval)
            } else {
                IntervalTurn::Wait
            }
        },
    }
}

/// Takes the turn of a flow's interval.
pub fn interval_turn(
    scheduler: &mut TriggerScheduler,
    seen: &mut StrSet,
    entry: &WorkflowEntry,
    now: u64,
) -> (r: IntervalTurn)
    requires
        opt_duration_fits(entry@.trigger_interval),
    ensures
        match trigger_value_of(entry@.trigger_interval) {
            None => r is Pass && *final(scheduler) == *old(scheduler) && final(seen)@ == old(
                seen,
            )@,
            Some(raw) => interval_turned(
                *old(scheduler),
                *final(scheduler),
                old(seen)@,
                final(seen)@,
                entry@.path,
                raw,
                duration_read(raw),
                now,
                r,
            ),
        },
{
    match trigger_value(&entry.trigger_interval) {
        None => IntervalTurn::Pass,
        Some(raw) => {
            let read = read_duration(raw);
            interval_turn_with(scheduler, seen, entry, raw, read, now)
        },
    }
}

/// The turn of a cron expression that is met next at `next`, in nanoseconds: a
/// flow that is seen for the first time is due then.
pub open spec fn cron_turned(
    before: TriggerScheduler,
    after: TriggerScheduler,
    seen_before: Set<Seq<char>>,
    seen_after: Set<Seq<char>>,
    path: Seq<char>,
    raw: Seq<char>,
    next: Result<u64, Seq<char>>,
    now: u64,
    r: CronTurn,
) -> bool {
    match next {
        Err(why) => {
            &&& r is Invalid
            &&& r->Invalid_0@ == invalid_trigger("cron"@, raw, path, why)
            &&& after == before
            &&& seen_after == seen_before
        },
        Ok(next) => {
            let key = trigger_key_of(path, "cron"@, raw);
            let times = before.cron_next.entries();
            let due = match lookup(times, key) {
                Some(planned) => planned <= now,
                None => next <= now,
            };
            &&& if due {
                r is Launch
            } else {
                r is Wait
            }
            &&& after.cron_next.entries() == (if due || lookup(times, key) is None {
                put(times, key, next)
            } else {
                times
            })
            &&& after.interval_next == before.interval_next
            &&& after.watch_snapshots == before.watch_snapshots
            &&& seen_after == seen_before.insert(key)
        },
    }
}

/// Takes the turn of a cron expression that is met next at `next`.
pub fn cron_turn_with(
    scheduler: &mut TriggerScheduler,
    seen: &mut StrSet,
    entry: &WorkflowEntry,
    raw: &str,
    next: Result<u64, String>,
    now: u64,
) -> (r: CronTurn)
    ensures
        cron_turned(
            *old(scheduler),
            *final(scheduler),
            old(seen)@,
            final(seen)@,
            entry@.path,
            raw@,
            due_result(next),
            now,
            r,
        ),
{
    match next {
        Err(why) => CronTurn::Invalid(
            invalid_note("cron", raw, entry.path.as_str(), why.as_str()),
        ),
        Ok(next) => {
            let key = trigger_key(entry, "cron", raw);
            seen.insert(key.clone());
            if scheduler.cron_due(key.as_str(), now, next) {
                CronTurn::Launch
            } else {
                CronTurn::Wait
            }
        },
    }
}

/// Takes the turn of a flow's cron expression.
pub fn cron_turn(
    scheduler: &mut TriggerScheduler,
    seen: &mut StrSet,
    entry: &WorkflowEntry,
    now: u64,
) -> (r: CronTurn)
    ensures
        match trigger_value_of(entry@.trigger_cron) {
            None => r is Pass && *final(scheduler) == *old(scheduler) && final(seen)@ == old(
                seen,
            )@,
            Some(raw) => cron_turned(
                *old(scheduler),
                *final(scheduler),
                old(seen)@,
                final(seen)@,
                entry@.path,
                raw,
                cron_due(cron_read(raw, now / 1_000_000_000), now),
                now,
                r,
            ),
        },
{
    match trigger_value(&entry.trigger_cron) {
        None => CronTurn::Pass,
        Some(raw) => {
            let next = next_cron_due(raw, now);
            cron_turn_with(scheduler, seen, entry, raw, next, now)
        },
    }
}

/// The pattern of the files that a flow watches, with the key of the trigger.
pub fn watch_target(plays_dir: &str, entry: &WorkflowEntry) -> (r: Option<(String, String)>)
    ensures
        match trigger_value_of(entry@.trigger_watch) {
            None => r is None,
            Some(raw) => {
                let pattern = watch_pattern(
                    watch_dir(plays_dir@, entry@.workflow_workdir, entry@.path),
                    raw,
                );
                if blank(pattern) {
                    r is None
                } else {
                    r is Some && (r->0).0@ == pattern && (r->0).1@ == trigger_key_of(
                        entry@.path,
                        "watch"@,
                        pattern,
                    )
                }
            },
        },
{
    match trigger_value(&entry.trigger_watch) {
        None => None,
        Some(raw) => {
            let base = watch_base_dir(plays_dir, entry);
            let pattern = resolve_watch_pattern(base.as_str(), raw);
            if is_blank(pattern.as_str()) {
                return None;
            }
            let key = trigger_key(entry, "watch", pattern.as_str());
            Some((pattern, key))
        },
    }
}

/// A flow is never launched by its interval before an interval has gone by since
/// it was first seen.
pub proof fn no_launch_at_first_sight(
    before: TriggerScheduler,
    after: TriggerScheduler,
    seen_before: Set<Seq<char>>,
    seen_after: Set<Seq<char>>,
    path: Seq<char>,
    raw: Seq<char>,
    span: Span,
    now: u64,
    r: IntervalTurn,
)
    requires
        interval_turned(
            before,
            after,
            seen_before,
            seen_after,
            path,
            raw,
            Ok(span),
            now,
            r,
        ),
        lookup(before.interval_next.entries(), trigger_key_of(path, "interval"@, raw)) is None,
        span.nanos_of() > 0,
        now < u64::MAX,
    ensures
        r is Wait,
        lookup(after.interval_next.entries(), trigger_key_of(path, "interval"@, raw)) == Some(
            later(now, span.nanos_of()),
        ),
{
    let key = trigger_key_of(path, "interval"@, raw);
    put_spec(before.interval_next.entries(), key, later(now, span.nanos_of()));
}

/// A flow is launched by its interval once the time for it has come, and not before;
/// an interval that cannot be read is told, and nothing changes.
pub proof fn intervals_launch_when_due(
    before: TriggerScheduler,
    after: TriggerScheduler,
    seen_before: Set<Seq<char>>,
    seen_after: Set<Seq<char>>,
    path: Seq<char>,
    raw: Seq<char>,
    read: Result<Span, Seq<char>>,
    now: u64,
    r: IntervalTurn,
)
    requires
        interval_turned(before, after, seen_before, seen_after, path, raw, read, now, r),
    ensures
        read is Err ==> r is Invalid && after == before,
        read matches Ok(span) ==> ({
            let key = trigger_key_of(path, "interval"@, raw);
            &&& lookup(before.interval_next.entries(), key) matches Some(next) ==> (if next <= now {
                r is Launch && r->Launch_0@ == key && r->Launch_1 == span.nanos_of()
            } else {
                r is Wait
            })
            &&& seen_after.contains(key)
        }),
{
}

/// A flow is launched by its cron expression once the planned time has come, and not
/// before, and is then planned for the next time.
pub proof fn cron_launches_when_due(
    before: TriggerScheduler,
    after: TriggerScheduler,
    seen_before: Set<Seq<char>>,
    seen_after: Set<Seq<char>>,
    path: Seq<char>,
    raw: Seq<char>,
    next: u64,
    now: u64,
    r: CronTurn,
)
    requires
        cron_turned(before, after, seen_before, seen_after, path, raw, Ok(next), now, r),
    ensures
        ({
            let key = trigger_key_of(path, "cron"@, raw);
            let planned = lookup(before.cron_next.entries(), key);
            &&& planned matches Some(time) ==> (if time <= now {
                r is Launch && lookup(after.cron_next.entries(), key) == Some(next)
            } else {
                r is Wait && lookup(after.cron_next.entries(), key) == Some(time)
            })
            &&& planned is None && next <= now ==> r is Launch && lookup(
                after.cron_next.entries(),
                key,
            ) == Some(next)
            &&& planned is None && next > now ==> r is Wait && lookup(
                after.cron_next.entries(),
                key,
            ) == Some(next)
        }),
{
    crate::strmap::put_spec(before.cron_next.entries(), trigger_key_of(path, "cron"@, raw), next);
}

/// What is wrong with a trigger is told with its kind, its value and its flow.
pub proof fn bad_triggers_are_told(
    kind: Seq<char>,
    value: Seq<char>,
    path: Seq<char>,
    why: Seq<char>,
)
    ensures
        invalid_trigger(kind, value, path, why) == "anna-rs scheduler: invalid trigger."@ + kind
            + " '"@ + value + "' in '"@ + path + "': "@ + why,
{
}

} // verus!
