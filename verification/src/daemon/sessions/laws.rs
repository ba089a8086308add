//! What holds of sessions and decisions from their start to their end.
use crate::daemon::sessions::{
    asked_decision, decision_count, decision_found, done_session, failed_session, pruned,
    recovered_decisions, recovered_session, recovered_sessions, resolved_decision, retained,
    started_session, status_count, stopped_session, wanted_decisions, wanted_sessions, with_session,
    PendingView, RetainView, SessionView,
};
use crate::ranking::{limited, ranked, ranked_spec};
use crate::strmap::{lookup, put_spec};
use crate::text::{blank, lowered, trimmed};
use vstd::prelude::*;

verus! {

// ---------------------------------------------------------------- states

/// A session runs from its start.
pub proof fn sessions_start_running(
    id: Seq<char>,
    runtime_id: Seq<char>,
    workflow: Seq<char>,
    owner: Option<Seq<char>>,
    now: u64,
)
    ensures
        ({
            let s = started_session(id, runtime_id, workflow, owner, now);
            &&& s.status == "running"@
            &&& s.id == id && s.workflow == workflow && s.owner == owner
            &&& s.runtime_session_id == Some(runtime_id)
            &&& s.created_at == now && s.updated_at == now
            &&& s.outputs.len() == 0 && s.errors.len() == 0
        }),
{
}

/// A run that ends well leaves its outputs and errors in its session; one that fails
/// leaves one error more. Everything else of the session stays.
pub proof fn sessions_end(
    session: SessionView,
    runtime_id: Seq<char>,
    outputs: Seq<(Seq<char>, Seq<char>)>,
    errors: Seq<Seq<char>>,
    message: Seq<char>,
    now: u64,
)
    ensures
        ({
            let done = done_session(session, runtime_id, outputs, errors, now);
            &&& done.status == "done"@ && done.outputs == outputs && done.errors == errors
            &&& done.updated_at == now && done.created_at == session.created_at
            &&& done.id == session.id && done.workflow == session.workflow && done.owner
                == session.owner && done.runtime_session_id == Some(runtime_id)
        }),
        ({
            let failed = failed_session(session, message, now);
            &&& failed.status == "failed"@ && failed.errors == session.errors.push(message)
            &&& failed.updated_at == now && failed.created_at == session.created_at
            &&& failed.outputs == session.outputs && failed.id == session.id && failed.workflow
                == session.workflow && failed.owner == session.owner
        }),
{
}

/// A session that was stopped says so; one that no longer ran says that.
pub proof fn sessions_are_stopped(session: SessionView, now: u64)
    ensures
        stopped_session(session, true, now).status == "stopped"@,
        stopped_session(session, false, now).status == "not_running"@,
        stopped_session(session, true, now).updated_at == now,
        stopped_session(session, true, now).outputs == session.outputs,
        stopped_session(session, true, now).errors == session.errors,
        stopped_session(session, true, now).id == session.id,
{
}

/// What a session becomes is found under its id, and no other session changes.
pub proof fn only_one_session_changes(
    entries: Seq<(Seq<char>, SessionView)>,
    id: Seq<char>,
    session: SessionView,
    other: Seq<char>,
)
    ensures
        lookup(entries, id) is Some ==> lookup(with_session(entries, id, session), id) == Some(
            session,
        ),
        lookup(entries, id) is None ==> with_session(entries, id, session) == entries,
        other != id ==> lookup(with_session(entries, id, session), other) == lookup(entries, other),
{
    put_spec(entries, id, session);
}

/// A session that was running when the daemon stopped was interrupted; any other is
/// as it was, but that each has an id.
pub proof fn interrupted_sessions_are_told(
    key: Seq<char>,
    session: SessionView,
    now: u64,
)
    ensures
        ({
            let r = recovered_session(key, session, now);
            &&& session.status == "running"@ ==> r.status == "interrupted"@ && r.errors
                == session.errors.push("daemon restarted while session was running"@)
                && r.updated_at == now
            &&& session.status != "running"@ ==> r.status == session.status && r.errors
                == session.errors && r.updated_at == session.updated_at
            &&& blank(session.id) ==> r.id == key
            &&& !blank(session.id) ==> r.id == session.id
            &&& r.outputs == session.outputs && r.workflow == session.workflow && r.owner
                == session.owner && r.created_at == session.created_at
        }),
{
}

/// No session and no decision is lost when the daemon starts.
pub proof fn recovery_loses_nothing(
    sessions: Seq<(Seq<char>, SessionView)>,
    decisions: Seq<(Seq<char>, PendingView)>,
    now: u64,
    i: int,
)
    ensures
        recovered_sessions(sessions, now).len() == sessions.len(),
        recovered_decisions(decisions).len() == decisions.len(),
        0 <= i < sessions.len() ==> recovered_sessions(sessions, now)[i].0 == sessions[i].0,
        0 <= i < decisions.len() ==> ({
            let r = recovered_decisions(decisions)[i];
            &&& r.0 == decisions[i].0
            &&& blank(decisions[i].1.id) ==> r.1.id == decisions[i].0
            &&& !blank(decisions[i].1.id) ==> r.1 == decisions[i].1
            &&& r.1.status == decisions[i].1.status && r.1.decision == decisions[i].1.decision
        }),
{
}

// ---------------------------------------------------------------- retention

/// Retention touches nothing within the limit, nor without one, and drops no more
/// than it must.
pub proof fn retention_drops_no_more<V: RetainView>(entries: Seq<(Seq<char>, V)>, max: usize)
    ensures
        max == 0 ==> retained(entries, max) == entries,
        entries.len() <= max ==> retained(entries, max) == entries,
        max > 0 && entries.len() > max ==> max <= retained(entries, max).len() <= entries.len(),
{
    if max > 0 {
        pruned_length(entries, max as nat);
    }
}

proof fn pruned_length<V: RetainView>(entries: Seq<(Seq<char>, V)>, max: nat)
    ensures
        pruned(entries, max).len() <= entries.len(),
        entries.len() >= max ==> pruned(entries, max).len() >= max,
    decreases entries.len(),
{
    if entries.len() > max {
        if let Some(i) = crate::daemon::sessions::oldest(entries) {
            if 0 <= i < entries.len() {
                pruned_length(entries.remove(i), max);
            }
        }
    }
}

// ---------------------------------------------------------------- lists

/// Whether a filter lets a text through: without one every text, else the same text
/// up to case and blanks round the filter.
pub open spec fn lets_through(filter: Option<Seq<char>>, text: Seq<char>) -> bool {
    filter matches Some(wanted) ==> lowered(text) == lowered(trimmed(wanted))
}

/// A session is listed if and only if every filter lets it through.
pub proof fn sessions_are_listed(
    entries: Seq<(Seq<char>, SessionView)>,
    status: Option<Seq<char>>,
    owner: Option<Seq<char>>,
    workflow: Option<Seq<char>>,
    s: SessionView,
)
    ensures
        wanted_sessions(entries, status, owner, workflow).contains(s) <==> (exists|i: int|
            0 <= i < entries.len() && (#[trigger] entries[i]).1 == s) && lets_through(
            status,
            s.status,
        ) && lets_through(workflow, s.workflow) && (owner is Some ==> s.owner is Some)
            && (s.owner matches Some(named) ==> lets_through(owner, named)),
    decreases entries.len(),
{
    let all = wanted_sessions(entries, status, owner, workflow);
    if entries.len() > 0 {
        let rest = entries.drop_last();
        sessions_are_listed(rest, status, owner, workflow, s);
        let before = wanted_sessions(rest, status, owner, workflow);
        if exists|i: int| 0 <= i < rest.len() && (#[trigger] rest[i]).1 == s {
            let i = choose|i: int| 0 <= i < rest.len() && (#[trigger] rest[i]).1 == s;
            assert(entries[i].1 == s);
        }
        if exists|i: int| 0 <= i < entries.len() && (#[trigger] entries[i]).1 == s {
            let i = choose|i: int| 0 <= i < entries.len() && (#[trigger] entries[i]).1 == s;
            if i < rest.len() {
                assert(rest[i].1 == s);
            }
        }
        assert(entries[entries.len() - 1] == entries.last());
        push_holds(before, entries.last().1, s);
    }
}

proof fn push_holds<T>(items: Seq<T>, item: T, x: T)
    ensures
        items.push(item).contains(x) <==> items.contains(x) || x == item,
{
    let all = items.push(item);
    if all.contains(x) {
        let i = choose|i: int| 0 <= i < all.len() && all[i] == x;
        if i < items.len() {
            assert(items[i] == x);
        }
    }
    if items.contains(x) {
        let i = choose|i: int| 0 <= i < items.len() && items[i] == x;
        assert(all[i] == x);
    }
    assert(all[items.len() as int] == item);
}

/// A decision is listed if and only if every filter lets it through; a session id is
/// compared as it is.
pub proof fn decisions_are_listed(
    entries: Seq<(Seq<char>, PendingView)>,
    status: Option<Seq<char>>,
    session_id: Option<Seq<char>>,
    workflow: Option<Seq<char>>,
    d: PendingView,
)
    ensures
        wanted_decisions(entries, status, session_id, workflow).contains(d) <==> (exists|i: int|
            0 <= i < entries.len() && (#[trigger] entries[i]).1 == d) && lets_through(
            status,
            d.status,
        ) && lets_through(workflow, d.workflow) && (session_id matches Some(id) ==> d.session_id
            == id),
    decreases entries.len(),
{
    if entries.len() > 0 {
        let rest = entries.drop_last();
        decisions_are_listed(rest, status, session_id, workflow, d);
        let before = wanted_decisions(rest, status, session_id, workflow);
        if exists|i: int| 0 <= i < rest.len() && (#[trigger] rest[i]).1 == d {
            let i = choose|i: int| 0 <= i < rest.len() && (#[trigger] rest[i]).1 == d;
            assert(entries[i].1 == d);
        }
        if exists|i: int| 0 <= i < entries.len() && (#[trigger] entries[i]).1 == d {
            let i = choose|i: int| 0 <= i < entries.len() && (#[trigger] entries[i]).1 == d;
            if i < rest.len() {
                assert(rest[i].1 == d);
            }
        }
        assert(entries[entries.len() - 1] == entries.last());
        push_holds(before, entries.last().1, d);
    }
}

/// Sessions are listed from the newest to the oldest, decisions from the oldest to
/// the newest.
pub proof fn lists_are_ordered(
    sessions: Seq<SessionView>,
    decisions: Seq<PendingView>,
    i: int,
    j: int,
)
    requires
        0 <= i < j,
    ensures
        j < sessions.len() ==> ranked(sessions)[i].created_at >= ranked(sessions)[j].created_at,
        j < decisions.len() ==> ranked(decisions)[i].created_at <= ranked(decisions)[j].created_at,
        ranked(sessions).len() == sessions.len(),
        ranked(decisions).len() == decisions.len(),
{
    ranked_spec(sessions);
    ranked_spec(decisions);
    if j < sessions.len() {
        assert(!crate::ranking::RankView::precedes(ranked(sessions)[j], ranked(sessions)[i]));
    }
    if j < decisions.len() {
        assert(!crate::ranking::RankView::precedes(ranked(decisions)[j], ranked(decisions)[i]));
    }
}

/// A limit leaves the first of a list, as many as it says.
pub proof fn limits_leave_the_first<V>(items: Seq<V>, limit: usize, i: int)
    ensures
        limited(items, None) == items,
        items.len() <= limit ==> limited(items, Some(limit)) == items,
        items.len() > limit ==> limited(items, Some(limit)).len() == limit,
        0 <= i < limited(items, Some(limit)).len() ==> limited(items, Some(limit))[i] == items[i],
{
}

// ---------------------------------------------------------------- counts

/// Each session counts for its own status and for no other.
pub proof fn sessions_count_once(
    entries: Seq<(Seq<char>, SessionView)>,
    entry: (Seq<char>, SessionView),
    status: Seq<char>,
)
    ensures
        status_count(Seq::empty(), status) == 0,
        entry.1.status == status ==> status_count(entries.push(entry), status) == status_count(
            entries,
            status,
        ) + 1,
        entry.1.status != status ==> status_count(entries.push(entry), status) == status_count(
            entries,
            status,
        ),
{
    assert(entries.push(entry).drop_last() =~= entries);
}

/// Each decision counts for its own status and for no other.
pub proof fn decisions_count_once(
    entries: Seq<(Seq<char>, PendingView)>,
    entry: (Seq<char>, PendingView),
    status: Seq<char>,
)
    ensures
        decision_count(Seq::empty(), status) == 0,
        entry.1.status == status ==> decision_count(entries.push(entry), status) == decision_count(
            entries,
            status,
        ) + 1,
        entry.1.status != status ==> decision_count(entries.push(entry), status)
            == decision_count(entries, status),
{
    assert(entries.push(entry).drop_last() =~= entries);
}

// ---------------------------------------------------------------- decisions

/// A run that asks finds nothing until a decision is taken, and a rejection where its
/// request is gone.
pub proof fn open_requests_wait(
    entries: Seq<(Seq<char>, PendingView)>,
    id: Seq<char>,
    session_id: Seq<char>,
    workflow: Seq<char>,
    stage_id: Seq<char>,
    prompt: Option<Seq<char>>,
    options: Seq<Seq<char>>,
    now: u64,
)
    ensures
        ({
            let asked = asked_decision(
                id,
                session_id,
                workflow,
                stage_id,
                prompt,
                options,
                now,
            );
            &&& asked.status == "pending"@ && asked.decision is None && asked.id == id
            &&& asked.session_id == session_id && asked.workflow == workflow && asked.stage_id
                == stage_id && asked.prompt == prompt && asked.options == options
                && asked.created_at == now
            &&& lookup(entries, id) == Some(asked) ==> decision_found(entries, id) is None
        }),
        lookup(entries, id) is None ==> decision_found(entries, id) == Some("reject"@),
{
}

/// A decision that is taken is recorded with its request, which is then resolved.
pub proof fn decisions_are_kept(item: PendingView, decision: Seq<char>)
    ensures
        ({
            let r = resolved_decision(item, decision);
            &&& r.decision == Some(decision) && r.status == "resolved"@
            &&& r.id == item.id && r.session_id == item.session_id && r.stage_id == item.stage_id
                && r.workflow == item.workflow && r.created_at == item.created_at
        }),
{
}

} // verus!
