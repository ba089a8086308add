//! The sessions and the pending decisions of a daemon.
use crate::executor::HitlRequest;
use crate::ranking::{limit_to, limited, rank_all, ranked, views, Rank, RankView};
use crate::result::RunResult;
use crate::strmap::{
    distinct_keys, keys_of, lookup, lookup_found, put, put_new, put_spec, without_at, StrMap,
};
use crate::text::{
    blank, clone_opt, clone_texts, group_texts, is_blank, lowered, opt_text, same,
    same_ignoring_case, texts, trim, trimmed,
};
use vstd::prelude::*;
use vstd::string::*;

pub mod laws;

verus! {

/// A request that the daemon turns down: the http status and why.
pub struct Refusal {
    pub status: u16,
    pub message: String,
}

/// A refusal, as plain values.
pub struct RefusalView {
    pub status: u16,
    pub message: Seq<char>,
}

impl View for Refusal {
    type V = RefusalView;

    open spec fn view(&self) -> RefusalView {
        RefusalView { status: self.status, message: self.message@ }
    }
}

pub fn refuse(status: u16, message: &str) -> (r: Refusal)
    ensures
        r@ == (RefusalView { status, message: message@ }),
{
    Refusal { status, message: message.to_owned() }
}

/// What the daemon knows of a workflow run.
pub struct SessionInfo {
    pub id: String,
    pub status: String,
    pub workflow: String,
    pub owner: Option<String>,
    pub created_at: u64,
    pub updated_at: u64,
    pub runtime_session_id: Option<String>,
    pub outputs: StrMap<String>,
    pub errors: Vec<String>,
}

/// A session, as plain values.
pub struct SessionView {
    pub id: Seq<char>,
    pub status: Seq<char>,
    pub workflow: Seq<char>,
    pub owner: Option<Seq<char>>,
    pub created_at: u64,
    pub updated_at: u64,
    pub runtime_session_id: Option<Seq<char>>,
    pub outputs: Seq<(Seq<char>, Seq<char>)>,
    pub errors: Seq<Seq<char>>,
}

impl View for SessionInfo {
    type V = SessionView;

    open spec fn view(&self) -> SessionView {
        SessionView {
            id: self.id@,
            status: self.status@,
            workflow: self.workflow@,
            owner: opt_text(self.owner),
            created_at: self.created_at,
            updated_at: self.updated_at,
            runtime_session_id: opt_text(self.runtime_session_id),
            outputs: self.outputs.entries(),
            errors: texts(self.errors@),
        }
    }
}

impl SessionInfo {
    /// The same session.
    pub fn copied(&self) -> (r: Self)
        ensures
            r@ == self@,
    {
        SessionInfo {
            id: self.id.clone(),
            status: self.status.clone(),
            workflow: self.workflow.clone(),
            owner: clone_opt(&self.owner),
            created_at: self.created_at,
            updated_at: self.updated_at,
            runtime_session_id: clone_opt(&self.runtime_session_id),
            outputs: self.outputs.copied(),
            errors: clone_texts(&self.errors),
        }
    }
}

/// A decision that a run waits for, or has got.
pub struct HitlPending {
    pub id: String,
    pub session_id: String,
    pub workflow: String,
    pub stage_id: String,
    pub prompt: Option<String>,
    pub options: Vec<String>,
    pub status: String,
    pub decision: Option<String>,
    pub created_at: u64,
}

/// A decision, as plain values.
pub struct PendingView {
    pub id: Seq<char>,
    pub session_id: Seq<char>,
    pub workflow: Seq<char>,
    pub stage_id: Seq<char>,
    pub prompt: Option<Seq<char>>,
    pub options: Seq<Seq<char>>,
    pub status: Seq<char>,
    pub decision: Option<Seq<char>>,
    pub created_at: u64,
}

impl View for HitlPending {
    type V = PendingView;

    open spec fn view(&self) -> PendingView {
        PendingView {
            id: self.id@,
            session_id: self.session_id@,
            workflow: self.workflow@,
            stage_id: self.stage_id@,
            prompt: opt_text(self.prompt),
            options: texts(self.options@),
            status: self.status@,
            decision: opt_text(self.decision),
            created_at: self.created_at,
        }
    }
}

impl HitlPending {
    /// The same decision.
    pub fn copied(&self) -> (r: Self)
        ensures
            r@ == self@,
    {
        HitlPending {
            id: self.id.clone(),
            session_id: self.session_id.clone(),
            workflow: self.workflow.clone(),
            stage_id: self.stage_id.clone(),
            prompt: clone_opt(&self.prompt),
            options: clone_texts(&self.options),
            status: self.status.clone(),
            decision: clone_opt(&self.decision),
            created_at: self.created_at,
        }
    }
}

// ---------------------------------------------------------------- retention

/// What retention goes by.
pub trait RetainView: Sized {
    /// Whether the item may be dropped.
    spec fn removable(self) -> bool;

    /// How old the item is: smaller is older.
    spec fn stamp(self) -> u64;
}

/// An item that is kept only for a while.
pub trait Retain: View where <Self as View>::V: RetainView {
    fn is_removable(&self) -> (r: bool)
        ensures
            r == self@.removable(),
    ;

    fn stamp_of(&self) -> (r: u64)
        ensures
            r == self@.stamp(),
    ;
}

impl RetainView for SessionView {
    open spec fn removable(self) -> bool {
        self.status != "running"@
    }

    open spec fn stamp(self) -> u64 {
        self.updated_at
    }
}

impl Retain for SessionInfo {
    fn is_removable(&self) -> (r: bool) {
        !same(self.status.as_str(), "running")
    }

    fn stamp_of(&self) -> (r: u64) {
        self.updated_at
    }
}

impl RetainView for PendingView {
    open spec fn removable(self) -> bool {
        self.status == "resolved"@
    }

    open spec fn stamp(self) -> u64 {
        self.created_at
    }
}

impl Retain for HitlPending {
    fn is_removable(&self) -> (r: bool) {
        same(self.status.as_str(), "resolved")
    }

    fn stamp_of(&self) -> (r: u64) {
        self.created_at
    }
}

/// The position of the oldest item that may be dropped; of equally old ones,
/// the first.
pub open spec fn oldest<V: RetainView>(entries: Seq<(Seq<char>, V)>) -> Option<int>
    decreases entries.len(),
{
    if entries.len() == 0 {
        None
    } else {
        let before = oldest(entries.drop_last());
        let last = entries.last().1;
        if !last.removable() {
            before
        } else {
            match before {
                None => Some(entries.len() - 1),
                Some(i) => if last.stamp() < entries[i].1.stamp() {
                    Some(entries.len() - 1)
                } else {
                    Some(i)
                },
            }
        }
    }
}

/// The entries after retention: while there are more than `max`, the oldest
/// that may be dropped goes.
pub open spec fn pruned<V: RetainView>(entries: Seq<(Seq<char>, V)>, max: nat) -> Seq<
    (Seq<char>, V),
>
    decreases entries.len(),
{
    if entries.len() <= max {
        entries
    } else {
        match oldest(entries) {
            Some(i) => if 0 <= i < entries.len() {
                pruned(entries.remove(i), max)
            } else {
                entries
            },
            None => entries,
        }
    }
}

/// The entries after retention; a limit of zero is none.
pub open spec fn retained<V: RetainView>(entries: Seq<(Seq<char>, V)>, max: usize) -> Seq<
    (Seq<char>, V),
> {
    if max == 0 {
        entries
    } else {
        pruned(entries, max as nat)
    }
}

proof fn oldest_spec<V: RetainView>(entries: Seq<(Seq<char>, V)>)
    ensures
        match oldest(entries) {
            Some(i) => {
                &&& 0 <= i < entries.len()
                &&& entries[i].1.removable()
                &&& forall|j: int|
                    0 <= j < entries.len() && (#[trigger] entries[j]).1.removable()
                        ==> entries[i].1.stamp() <= entries[j].1.stamp()
            },
            None => forall|j: int|
                0 <= j < entries.len() ==> !(#[trigger] entries[j]).1.removable(),
        },
    decreases entries.len(),
{
    if entries.len() > 0 {
        let d = entries.drop_last();
        oldest_spec(d);
        match oldest(entries) {
            Some(i) => {
                assert forall|j: int|
                    0 <= j < entries.len() && (#[trigger] entries[j]).1.removable() implies
                    entries[i].1.stamp() <= entries[j].1.stamp() by {
                    if j < d.len() {
                        assert(d[j] == entries[j]);
                    }
                }
            },
            None => {
                assert forall|j: int| 0 <= j < entries.len() implies !(
                #[trigger] entries[j]).1.removable() by {
                    if j < d.len() {
                        assert(d[j] == entries[j]);
                    }
                }
            },
        }
    }
}

proof fn pruned_spec<V: RetainView>(entries: Seq<(Seq<char>, V)>, max: nat)
    ensures
        pruned(entries, max).len() <= entries.len(),
        entries.len() >= max ==> pruned(entries, max).len() >= max,
        pruned(entries, max).len() <= max || forall|i: int|
            0 <= i < pruned(entries, max).len() ==> !(#[trigger] pruned(
                entries,
                max,
            )[i]).1.removable(),
        forall|e: (Seq<char>, V)| #[trigger]
            pruned(entries, max).contains(e) ==> entries.contains(e),
        forall|e: (Seq<char>, V)|
            entries.contains(e) && !e.1.removable() ==> #[trigger] pruned(entries, max).contains(e),
        forall|gone: (Seq<char>, V), kept: (Seq<char>, V)|
            entries.contains(gone) && !#[trigger] pruned(entries, max).contains(gone)
                && #[trigger] pruned(entries, max).contains(kept) && kept.1.removable()
                ==> gone.1.stamp() <= kept.1.stamp(),
    decreases entries.len(),
{
    let r = pruned(entries, max);
    if entries.len() > max {
        oldest_spec(entries);
        match oldest(entries) {
            Some(i) => {
                let rest = entries.remove(i);
                pruned_spec(rest, max);
                assert(r == pruned(rest, max));
                assert forall|e: (Seq<char>, V)| rest.contains(e) implies entries.contains(e) by {
                    let k = choose|k: int| 0 <= k < rest.len() && rest[k] == e;
                    assert(entries[if k < i { k } else { k + 1 }] == e);
                }
                assert forall|e: (Seq<char>, V)| entries.contains(e) && e != entries[i] implies
                    rest.contains(e) by {
                    let k = choose|k: int| 0 <= k < entries.len() && entries[k] == e;
                    assert(rest[if k < i { k } else { k - 1 }] == e);
                }
                assert forall|gone: (Seq<char>, V), kept: (Seq<char>, V)|
                    entries.contains(gone) && !#[trigger] r.contains(gone)
                        && #[trigger] r.contains(kept) && kept.1.removable() implies
                    gone.1.stamp() <= kept.1.stamp() by {
                    assert(rest.contains(kept));
                    assert(entries.contains(kept));
                    let k = choose|k: int| 0 <= k < entries.len() && entries[k] == kept;
                    assert(entries[k].1.removable());
                    if gone == entries[i] {
                        assert(entries[i].1.stamp() <= entries[k].1.stamp());
                    } else {
                        assert(rest.contains(gone));
                    }
                }
            },
            None => {},
        }
    }
}

/// Retention drops the oldest first, and no running session: what is left is
/// within the limit unless all of it is running, every running session is
/// still there, and no session that went is newer than a finished one that
/// stayed.
pub proof fn session_retention(
    entries: Seq<(Seq<char>, SessionView)>,
    max: usize,
    gone: (Seq<char>, SessionView),
    kept: (Seq<char>, SessionView),
)
    requires
        max > 0,
        entries.contains(gone),
    ensures
        retained(entries, max).len() <= max || forall|i: int|
            0 <= i < retained(entries, max).len() ==> (#[trigger] retained(
                entries,
                max,
            )[i]).1.status == "running"@,
        gone.1.status == "running"@ ==> retained(entries, max).contains(gone),
        !retained(entries, max).contains(gone) && retained(entries, max).contains(kept)
            && kept.1.status != "running"@ ==> gone.1.updated_at <= kept.1.updated_at,
{
    pruned_spec(entries, max as nat);
}

/// Retention drops resolved decisions alone, the oldest first: a decision that
/// is still open is always kept.
pub proof fn decision_retention(
    entries: Seq<(Seq<char>, PendingView)>,
    max: usize,
    gone: (Seq<char>, PendingView),
    kept: (Seq<char>, PendingView),
)
    requires
        max > 0,
        entries.contains(gone),
    ensures
        retained(entries, max).len() <= max || forall|i: int|
            0 <= i < retained(entries, max).len() ==> (#[trigger] retained(
                entries,
                max,
            )[i]).1.status != "resolved"@,
        gone.1.status != "resolved"@ ==> retained(entries, max).contains(gone),
        !retained(entries, max).contains(gone) && retained(entries, max).contains(kept)
            && kept.1.status == "resolved"@ ==> gone.1.created_at <= kept.1.created_at,
{
    pruned_spec(entries, max as nat);
}

fn find_oldest<T: Retain>(map: &StrMap<T>) -> (r: Option<usize>) where <T as View>::V: RetainView
    ensures
        match r {
            Some(i) => oldest(map.entries()) == Some(i as int) && i < map.entries().len(),
            None => oldest(map.entries()) is None,
        },
{
    let n: usize = map.len();
    let ghost all = map.entries();
    let mut found: Option<usize> = None;
    let mut i: usize = 0;
    assert(all.take(0) =~= Seq::<(Seq<char>, T::V)>::empty());
    while i < n
        invariant
            i <= n,
            n == all.len(),
            all == map.entries(),
            match found {
                Some(k) => k < i && oldest(all.take(i as int)) == Some(k as int),
                None => oldest(all.take(i as int)) is None,
            },
        decreases n - i,
    {
        let ghost next = all.take(i + 1);
        assert(next.drop_last() =~= all.take(i as int));
        assert(next.last() == all[i as int]);
        let item = map.value_at(i);
        if item.is_removable() {
            match found {
                None => {
                    found = Some(i);
                },
                Some(k) => {
                    assert(next[k as int] == all[k as int]);
                    if item.stamp_of() < map.value_at(k).stamp_of() {
                        found = Some(i);
                    }
                },
            }
        }
        i += 1;
    }
    assert(all.take(n as int) =~= all);
    found
}

fn prune<T: Retain>(map: &mut StrMap<T>, max: usize) where <T as View>::V: RetainView
    ensures
        final(map).entries() == retained(old(map).entries(), max),
{
    if max == 0 {
        return;
    }
    let ghost before = map.entries();
    while map.len() > max
        invariant
            pruned(before, max as nat) == pruned(map.entries(), max as nat),
        ensures
            map.entries() == pruned(before, max as nat),
        decreases map.entries().len(),
    {
        let _ = map.len();
        match find_oldest(map) {
            Some(i) => {
                let key = map.key_at(i).to_owned();
                proof {
                    without_at(map.entries(), i as int);
                }
                map.remove(key.as_str());
            },
            None => {
                break;
            },
        }
    }
}

/// Drops the oldest sessions that do not run, until `max_sessions` are left.
pub fn prune_sessions_in_place(sessions: &mut StrMap<SessionInfo>, max_sessions: usize)
    ensures
        final(sessions).entries() == retained(old(sessions).entries(), max_sessions),
{
    prune(sessions, max_sessions);
}

/// Drops the oldest resolved decisions, until `max_hitl` are left.
pub fn prune_hitl_in_place(hitl: &mut StrMap<HitlPending>, max_hitl: usize)
    ensures
        final(hitl).entries() == retained(old(hitl).entries(), max_hitl),
{
    prune(hitl, max_hitl);
}

// ---------------------------------------------------------------- sessions

/// The session of a run that starts.
pub open spec fn started_session(
    id: Seq<char>,
    runtime_id: Seq<char>,
    workflow: Seq<char>,
    owner: Option<Seq<char>>,
    now: u64,
) -> SessionView {
    SessionView {
        id,
        status: "running"@,
        workflow,
        owner,
        created_at: now,
        updated_at: now,
        runtime_session_id: Some(runtime_id),
        outputs: Seq::empty(),
        errors: Seq::empty(),
    }
}

/// Records that a run starts, and applies retention.
pub fn start_session(
    sessions: &mut StrMap<SessionInfo>,
    id: &str,
    runtime_id: &str,
    workflow: &str,
    owner: &Option<String>,
    now: u64,
    max_sessions: usize,
)
    ensures
        final(sessions).entries() == retained(
            put(
                old(sessions).entries(),
                id@,
                started_session(id@, runtime_id@, workflow@, opt_text(*owner), now),
            ),
            max_sessions,
        ),
{
    broadcast use group_texts;

    let session = SessionInfo {
        id: id.to_owned(),
        status: "running".to_owned(),
        workflow: workflow.to_owned(),
        owner: clone_opt(owner),
        created_at: now,
        updated_at: now,
        runtime_session_id: Some(runtime_id.to_owned()),
        outputs: StrMap::new(),
        errors: Vec::new(),
    };
    sessions.insert(id.to_owned(), session);
    prune_sessions_in_place(sessions, max_sessions);
}

/// The sessions with the one of that id changed, where there is one.
pub open spec fn with_session(
    entries: Seq<(Seq<char>, SessionView)>,
    id: Seq<char>,
    session: SessionView,
) -> Seq<(Seq<char>, SessionView)> {
    if lookup(entries, id) is Some {
        put(entries, id, session)
    } else {
        entries
    }
}

/// The session of a run that ended well.
pub open spec fn done_session(
    session: SessionView,
    runtime_id: Seq<char>,
    outputs: Seq<(Seq<char>, Seq<char>)>,
    errors: Seq<Seq<char>>,
    now: u64,
) -> SessionView {
    SessionView {
        status: "done"@,
        updated_at: now,
        runtime_session_id: Some(runtime_id),
        outputs,
        errors,
        ..session
    }
}

/// Records that a run ended well, and applies retention.
pub fn finish_session(
    sessions: &mut StrMap<SessionInfo>,
    id: &str,
    result: &RunResult,
    now: u64,
    max_sessions: usize,
)
    ensures
        final(sessions).entries() == retained(
            match lookup(old(sessions).entries(), id@) {
                Some(session) => with_session(
                    old(sessions).entries(),
                    id@,
                    done_session(
                        session,
                        result.session_id@,
                        result.outputs.entries(),
                        texts(result.errors@),
                        now,
                    ),
                ),
                None => old(sessions).entries(),
            },
            max_sessions,
        ),
{
    let changed = match sessions.get(id) {
        Some(session) => {
            let mut session = session.copied();
            session.status = "done".to_owned();
            session.updated_at = now;
            session.runtime_session_id = Some(result.session_id.clone());
            session.outputs = result.outputs.copied();
            session.errors = clone_texts(&result.errors);
            Some(session)
        },
        None => None,
    };
    if let Some(session) = changed {
        sessions.insert(id.to_owned(), session);
    }
    prune_sessions_in_place(sessions, max_sessions);
}

/// The session of a run that failed.
pub open spec fn failed_session(session: SessionView, message: Seq<char>, now: u64) -> SessionView {
    SessionView {
        status: "failed"@,
        updated_at: now,
        errors: session.errors.push(message),
        ..session
    }
}

/// Records that a run failed, and applies retention.
pub fn fail_session(
    sessions: &mut StrMap<SessionInfo>,
    id: &str,
    message: &str,
    now: u64,
    max_sessions: usize,
)
    ensures
        final(sessions).entries() == retained(
            match lookup(old(sessions).entries(), id@) {
                Some(session) => with_session(
                    old(sessions).entries(),
                    id@,
                    failed_session(session, message@, now),
                ),
                None => old(sessions).entries(),
            },
            max_sessions,
        ),
{
    broadcast use group_texts;

    let changed = match sessions.get(id) {
        Some(session) => {
            let mut session = session.copied();
            session.status = "failed".to_owned();
            session.updated_at = now;
            session.errors.push(message.to_owned());
            Some(session)
        },
        None => None,
    };
    if let Some(session) = changed {
        sessions.insert(id.to_owned(), session);
    }
    prune_sessions_in_place(sessions, max_sessions);
}

/// The session of a run that was stopped, or that no longer ran.
pub open spec fn stopped_session(session: SessionView, stopped: bool, now: u64) -> SessionView {
    SessionView {
        status: if stopped {
            "stopped"@
        } else {
            "not_running"@
        },
        updated_at: now,
        ..session
    }
}

pub open spec fn opt_session(r: Option<SessionInfo>) -> Option<SessionView> {
    match r {
        Some(session) => Some(session@),
        None => None,
    }
}

/// Records that a run was asked to stop, applies retention, and returns the
/// session, where there is one.
pub fn update_stopped_session(
    sessions: &mut StrMap<SessionInfo>,
    request_id: &str,
    stopped: bool,
    max_sessions: usize,
    now: u64,
) -> (r: Option<SessionInfo>)
    ensures
        match lookup(old(sessions).entries(), request_id@) {
            Some(session) => {
                &&& opt_session(r) == Some(stopped_session(session, stopped, now))
                &&& final(sessions).entries() == retained(
                    put(
                        old(sessions).entries(),
                        request_id@,
                        stopped_session(session, stopped, now),
                    ),
                    max_sessions,
                )
            },
            None => r is None && final(sessions).entries() == old(sessions).entries(),
        },
{
    let changed = match sessions.get(request_id) {
        Some(session) => {
            let mut session = session.copied();
            session.status = if stopped {
                "stopped".to_owned()
            } else {
                "not_running".to_owned()
            };
            session.updated_at = now;
            session
        },
        None => {
            return None;
        },
    };
    let updated = changed.copied();
    sessions.insert(request_id.to_owned(), changed);
    prune_sessions_in_place(sessions, max_sessions);
    Some(updated)
}

/// A session that the daemon finds when it starts: one that was running was
/// interrupted.
pub open spec fn recovered_session(key: Seq<char>, session: SessionView, now: u64) -> SessionView {
    let named = if blank(session.id) {
        SessionView { id: key, ..session }
    } else {
        session
    };
    if session.status == "running"@ {
        SessionView {
            status: "interrupted"@,
            updated_at: now,
            errors: session.errors.push("daemon restarted while session was running"@),
            ..named
        }
    } else {
        named
    }
}

/// The sessions that the daemon starts with.
pub open spec fn recovered_sessions(entries: Seq<(Seq<char>, SessionView)>, now: u64) -> Seq<
    (Seq<char>, SessionView),
> {
    Seq::new(entries.len(), |i: int| (entries[i].0, recovered_session(entries[i].0, entries[i].1, now)))
}

fn recover_session(key: &str, session: &SessionInfo, now: u64) -> (r: SessionInfo)
    ensures
        r@ == recovered_session(key@, session@, now),
{
    broadcast use group_texts;

    let mut out = session.copied();
    if is_blank(session.id.as_str()) {
        out.id = key.to_owned();
    }
    if same(session.status.as_str(), "running") {
        out.status = "interrupted".to_owned();
        out.updated_at = now;
        out.errors.push("daemon restarted while session was running".to_owned());
    }
    out
}

proof fn not_among<T>(entries: Seq<(Seq<char>, T)>, n: int, done: Seq<(Seq<char>, T)>)
    requires
        distinct_keys(entries),
        0 <= n < entries.len(),
        done.len() == n,
        forall|j: int| 0 <= j < n ==> (#[trigger] done[j]).0 == entries[j].0,
    ensures
        lookup(done, entries[n].0) is None,
{
    lookup_found(done, entries[n].0);
    if keys_of(done).contains(entries[n].0) {
        let j = choose|j: int| 0 <= j < done.len() && keys_of(done)[j] == entries[n].0;
        assert(done[j].0 == entries[j].0);
        assert(entries[j].0 != entries[n].0);
    }
}

/// The sessions that the daemon starts with, from those that it kept.
pub fn recover_sessions(sessions: &StrMap<SessionInfo>, now: u64) -> (r: StrMap<SessionInfo>)
    ensures
        r.entries() == recovered_sessions(sessions.entries(), now),
{
    let mut out: StrMap<SessionInfo> = StrMap::new();
    let n: usize = sessions.len();
    let ghost all = sessions.entries();
    let ghost target = recovered_sessions(all, now);
    let mut i: usize = 0;
    assert(target.take(0) =~= Seq::<(Seq<char>, SessionView)>::empty());
    while i < n
        invariant
            i <= n,
            n == all.len(),
            all == sessions.entries(),
            distinct_keys(all),
            target == recovered_sessions(all, now),
            out.entries() == target.take(i as int),
        decreases n - i,
    {
        let session = recover_session(sessions.key_at(i), sessions.value_at(i), now);
        proof {
            assert(distinct_keys(target)) by {
                assert forall|a: int, b: int| 0 <= a < b < target.len() implies
                    #[trigger] target[a].0 != #[trigger] target[b].0 by {
                    assert(all[a].0 != all[b].0);
                }
            }
            not_among(target, i as int, target.take(i as int));
            put_new(target.take(i as int), all[i as int].0, session@);
            assert(target.take(i + 1) =~= target.take(i as int).push(
                (all[i as int].0, session@),
            ));
        }
        out.insert(sessions.key_at(i).to_owned(), session);
        i += 1;
    }
    assert(target.take(n as int) =~= target);
    out
}

/// After a start of the daemon, no session runs.
pub proof fn no_session_runs_after_recovery(
    entries: Seq<(Seq<char>, SessionView)>,
    now: u64,
    i: int,
)
    requires
        0 <= i < entries.len(),
    ensures
        recovered_sessions(entries, now)[i].1.status != "running"@,
{
    reveal_strlit("running");
    reveal_strlit("interrupted");
    assert("running"@.len() != "interrupted"@.len());
}

/// The decisions that the daemon starts with: each has an id.
pub open spec fn recovered_decisions(entries: Seq<(Seq<char>, PendingView)>) -> Seq<
    (Seq<char>, PendingView),
> {
    Seq::new(
        entries.len(),
        |i: int|
            (
                entries[i].0,
                if blank(entries[i].1.id) {
                    PendingView { id: entries[i].0, ..entries[i].1 }
                } else {
                    entries[i].1
                },
            ),
    )
}

/// The decisions that the daemon starts with, from those that it kept.
pub fn recover_decisions(hitl: &StrMap<HitlPending>) -> (r: StrMap<HitlPending>)
    ensures
        r.entries() == recovered_decisions(hitl.entries()),
{
    let mut out: StrMap<HitlPending> = StrMap::new();
    let n: usize = hitl.len();
    let ghost all = hitl.entries();
    let ghost target = recovered_decisions(all);
    let mut i: usize = 0;
    assert(target.take(0) =~= Seq::<(Seq<char>, PendingView)>::empty());
    while i < n
        invariant
            i <= n,
            n == all.len(),
            all == hitl.entries(),
            distinct_keys(all),
            target == recovered_decisions(all),
            out.entries() == target.take(i as int),
        decreases n - i,
    {
        let mut item = hitl.value_at(i).copied();
        if is_blank(hitl.value_at(i).id.as_str()) {
            item.id = hitl.key_at(i).to_owned();
        }
        proof {
            assert(distinct_keys(target)) by {
                assert forall|a: int, b: int| 0 <= a < b < target.len() implies
                    #[trigger] target[a].0 != #[trigger] target[b].0 by {
                    assert(all[a].0 != all[b].0);
                }
            }
            not_among(target, i as int, target.take(i as int));
            put_new(target.take(i as int), all[i as int].0, item@);
            assert(target.take(i + 1) =~= target.take(i as int).push((all[i as int].0, item@)));
        }
        out.insert(hitl.key_at(i).to_owned(), item);
        i += 1;
    }
    assert(target.take(n as int) =~= target);
    out
}

// ---------------------------------------------------------------- lists

/// Whether a status is the one that is asked for, up to case.
pub fn status_matches(status: &str, filter: &str) -> (r: bool)
    ensures
        r == (lowered(status@) == lowered(trimmed(filter@))),
{
    same_ignoring_case(status, trim(filter))
}

/// What a list of sessions is cut down to.
pub struct SessionsQuery {
    pub status: Option<String>,
    pub owner: Option<String>,
    pub workflow: Option<String>,
    pub limit: Option<usize>,
}

/// Whether a session is asked for.
pub open spec fn session_wanted(
    session: SessionView,
    status: Option<Seq<char>>,
    owner: Option<Seq<char>>,
    workflow: Option<Seq<char>>,
) -> bool {
    &&& status is Some ==> lowered(session.status) == lowered(trimmed(status->0))
    &&& owner is Some ==> session.owner is Some && lowered(session.owner->0) == lowered(
        trimmed(owner->0),
    )
    &&& workflow is Some ==> lowered(session.workflow) == lowered(trimmed(workflow->0))
}

/// The sessions that are asked for, in the order of the map.
pub open spec fn wanted_sessions(
    entries: Seq<(Seq<char>, SessionView)>,
    status: Option<Seq<char>>,
    owner: Option<Seq<char>>,
    workflow: Option<Seq<char>>,
) -> Seq<SessionView>
    decreases entries.len(),
{
    if entries.len() == 0 {
        Seq::empty()
    } else {
        let before = wanted_sessions(entries.drop_last(), status, owner, workflow);
        if session_wanted(entries.last().1, status, owner, workflow) {
            before.push(entries.last().1)
        } else {
            before
        }
    }
}

impl RankView for SessionView {
    /// Newer sessions come first.
    open spec fn precedes(self, other: Self) -> bool {
        self.created_at > other.created_at
    }

    proof fn asymmetric(self, other: Self) {
    }

    proof fn passes_on(self, middle: Self, last: Self) {
    }
}

impl Rank for SessionInfo {
    fn goes_before(&self, other: &Self) -> (r: bool) {
        self.created_at > other.created_at
    }
}

fn wants_session(query: &SessionsQuery, session: &SessionInfo) -> (r: bool)
    ensures
        r == session_wanted(
            session@,
            opt_text(query.status),
            opt_text(query.owner),
            opt_text(query.workflow),
        ),
{
    if let Some(status) = &query.status {
        if !status_matches(session.status.as_str(), status.as_str()) {
            return false;
        }
    }
    if let Some(owner) = &query.owner {
        match &session.owner {
            Some(own) => {
                if !same_ignoring_case(own.as_str(), trim(owner.as_str())) {
                    return false;
                }
            },
            None => {
                return false;
            },
        }
    }
    if let Some(workflow) = &query.workflow {
        if !same_ignoring_case(session.workflow.as_str(), trim(workflow.as_str())) {
            return false;
        }
    }
    true
}

/// The sessions that are asked for, the newest first.
pub fn list_sessions(sessions: &StrMap<SessionInfo>, query: &SessionsQuery) -> (r: Vec<SessionInfo>)
    ensures
        views(r@) == limited(
            ranked(
                wanted_sessions(
                    sessions.entries(),
                    opt_text(query.status),
                    opt_text(query.owner),
                    opt_text(query.workflow),
                ),
            ),
            query.limit,
        ),
{
    let mut items: Vec<SessionInfo> = Vec::new();
    let n: usize = sessions.len();
    let ghost all = sessions.entries();
    let mut i: usize = 0;
    assert(all.take(0) =~= Seq::<(Seq<char>, SessionView)>::empty());
    assert(views(items@) =~= Seq::<SessionView>::empty());
    while i < n
        invariant
            i <= n,
            n == all.len(),
            all == sessions.entries(),
            views(items@) == wanted_sessions(
                all.take(i as int),
                opt_text(query.status),
                opt_text(query.owner),
                opt_text(query.workflow),
            ),
        decreases n - i,
    {
        assert(all.take(i + 1).drop_last() =~= all.take(i as int));
        let session = sessions.value_at(i);
        if wants_session(query, session) {
            let ghost before = views(items@);
            let copy = session.copied();
            let ghost view = copy@;
            items.push(copy);
            assert(views(items@) =~= before.push(view));
        }
        i += 1;
    }
    assert(all.take(n as int) =~= all);
    let sorted = rank_all(items);
    limit_to(sorted, query.limit)
}

/// What a list of decisions is cut down to.
pub struct HitlListQuery {
    pub status: Option<String>,
    pub session_id: Option<String>,
    pub workflow: Option<String>,
    pub limit: Option<usize>,
}

/// Whether a decision is asked for.
pub open spec fn decision_wanted(
    item: PendingView,
    status: Option<Seq<char>>,
    session_id: Option<Seq<char>>,
    workflow: Option<Seq<char>>,
) -> bool {
    &&& status is Some ==> lowered(item.status) == lowered(trimmed(status->0))
    &&& session_id is Some ==> item.session_id == session_id->0
    &&& workflow is Some ==> lowered(item.workflow) == lowered(trimmed(workflow->0))
}

/// The decisions that are asked for, in the order of the map.
pub open spec fn wanted_decisions(
    entries: Seq<(Seq<char>, PendingView)>,
    status: Option<Seq<char>>,
    session_id: Option<Seq<char>>,
    workflow: Option<Seq<char>>,
) -> Seq<PendingView>
    decreases entries.len(),
{
    if entries.len() == 0 {
        Seq::empty()
    } else {
        let before = wanted_decisions(entries.drop_last(), status, session_id, workflow);
        if decision_wanted(entries.last().1, status, session_id, workflow) {
            before.push(entries.last().1)
        } else {
            before
        }
    }
}

impl RankView for PendingView {
    /// Older decisions come first.
    open spec fn precedes(self, other: Self) -> bool {
        self.created_at < other.created_at
    }

    proof fn asymmetric(self, other: Self) {
    }

    proof fn passes_on(self, middle: Self, last: Self) {
    }
}

impl Rank for HitlPending {
    fn goes_before(&self, other: &Self) -> (r: bool) {
        self.created_at < other.created_at
    }
}

fn wants_decision(query: &HitlListQuery, item: &HitlPending) -> (r: bool)
    ensures
        r == decision_wanted(
            item@,
            opt_text(query.status),
            opt_text(query.session_id),
            opt_text(query.workflow),
        ),
{
    if let Some(status) = &query.status {
        if !status_matches(item.status.as_str(), status.as_str()) {
            return false;
        }
    }
    if let Some(session_id) = &query.session_id {
        if !same(item.session_id.as_str(), session_id.as_str()) {
            return false;
        }
    }
    if let Some(workflow) = &query.workflow {
        if !same_ignoring_case(item.workflow.as_str(), trim(workflow.as_str())) {
            return false;
        }
    }
    true
}

/// The decisions that are asked for, the oldest first.
pub fn list_hitl(hitl: &StrMap<HitlPending>, query: &HitlListQuery) -> (r: Vec<HitlPending>)
    ensures
        views(r@) == limited(
            ranked(
                wanted_decisions(
                    hitl.entries(),
                    opt_text(query.status),
                    opt_text(query.session_id),
                    opt_text(query.workflow),
                ),
            ),
            query.limit,
        ),
{
    let mut items: Vec<HitlPending> = Vec::new();
    let n: usize = hitl.len();
    let ghost all = hitl.entries();
    let mut i: usize = 0;
    assert(all.take(0) =~= Seq::<(Seq<char>, PendingView)>::empty());
    assert(views(items@) =~= Seq::<PendingView>::empty());
    while i < n
        invariant
            i <= n,
            n == all.len(),
            all == hitl.entries(),
            views(items@) == wanted_decisions(
                all.take(i as int),
                opt_text(query.status),
                opt_text(query.session_id),
                opt_text(query.workflow),
            ),
        decreases n - i,
    {
        assert(all.take(i + 1).drop_last() =~= all.take(i as int));
        let item = hitl.value_at(i);
        if wants_decision(query, item) {
            let ghost before = views(items@);
            let copy = item.copied();
            let ghost view = copy@;
            items.push(copy);
            assert(views(items@) =~= before.push(view));
        }
        i += 1;
    }
    assert(all.take(n as int) =~= all);
    let sorted = rank_all(items);
    limit_to(sorted, query.limit)
}

// ---------------------------------------------------------------- counts

/// How many sessions have a status.
pub open spec fn status_count(entries: Seq<(Seq<char>, SessionView)>, status: Seq<char>) -> nat
    decreases entries.len(),
{
    if entries.len() == 0 {
        0
    } else {
        status_count(entries.drop_last(), status) + if entries.last().1.status == status {
            1nat
        } else {
            0nat
        }
    }
}

/// How many decisions have a status.
pub open spec fn decision_count(entries: Seq<(Seq<char>, PendingView)>, status: Seq<char>) -> nat
    decreases entries.len(),
{
    if entries.len() == 0 {
        0
    } else {
        decision_count(entries.drop_last(), status) + if entries.last().1.status == status {
            1nat
        } else {
            0nat
        }
    }
}

/// The daemon in numbers.
pub struct StatsResponse {
    pub sessions_total: usize,
    pub sessions_running: usize,
    pub sessions_done: usize,
    pub sessions_failed: usize,
    pub sessions_other: usize,
    pub hitl_total: usize,
    pub hitl_pending: usize,
    pub hitl_resolved: usize,
}

fn count_sessions(sessions: &StrMap<SessionInfo>, status: &str) -> (r: usize)
    ensures
        r == status_count(sessions.entries(), status@),
        r <= sessions.entries().len(),
{
    let n: usize = sessions.len();
    let ghost all = sessions.entries();
    let mut count: usize = 0;
    let mut i: usize = 0;
    assert(all.take(0) =~= Seq::<(Seq<char>, SessionView)>::empty());
    while i < n
        invariant
            i <= n,
            count <= i,
            n == all.len(),
            all == sessions.entries(),
            count == status_count(all.take(i as int), status@),
        decreases n - i,
    {
        assert(all.take(i + 1).drop_last() =~= all.take(i as int));
        if same(sessions.value_at(i).status.as_str(), status) {
            count += 1;
        }
        i += 1;
    }
    assert(all.take(n as int) =~= all);
    count
}

fn count_decisions(hitl: &StrMap<HitlPending>, status: &str) -> (r: usize)
    ensures
        r == decision_count(hitl.entries(), status@),
{
    let n: usize = hitl.len();
    let ghost all = hitl.entries();
    let mut count: usize = 0;
    let mut i: usize = 0;
    assert(all.take(0) =~= Seq::<(Seq<char>, PendingView)>::empty());
    while i < n
        invariant
            i <= n,
            count <= i,
            n == all.len(),
            all == hitl.entries(),
            count == decision_count(all.take(i as int), status@),
        decreases n - i,
    {
        assert(all.take(i + 1).drop_last() =~= all.take(i as int));
        if same(hitl.value_at(i).status.as_str(), status) {
            count += 1;
        }
        i += 1;
    }
    assert(all.take(n as int) =~= all);
    count
}

proof fn statuses_are_apart(entries: Seq<(Seq<char>, SessionView)>)
    ensures
        status_count(entries, "running"@) + status_count(entries, "done"@) + status_count(
            entries,
            "failed"@,
        ) <= entries.len(),
    decreases entries.len(),
{
    reveal_strlit("running");
    reveal_strlit("done");
    reveal_strlit("failed");
    if entries.len() > 0 {
        statuses_are_apart(entries.drop_last());
        assert("running"@.len() == 7 && "done"@.len() == 4 && "failed"@.len() == 6);
    }
}

/// The daemon in numbers: every session is counted once.
pub fn stats(sessions: &StrMap<SessionInfo>, hitl: &StrMap<HitlPending>) -> (r: StatsResponse)
    ensures
        r.sessions_total == sessions.entries().len(),
        r.sessions_running == status_count(sessions.entries(), "running"@),
        r.sessions_done == status_count(sessions.entries(), "done"@),
        r.sessions_failed == status_count(sessions.entries(), "failed"@),
        r.sessions_running + r.sessions_done + r.sessions_failed + r.sessions_other
            == r.sessions_total,
        r.hitl_total == hitl.entries().len(),
        r.hitl_pending == decision_count(hitl.entries(), "pending"@),
        r.hitl_resolved == decision_count(hitl.entries(), "resolved"@),
{
    let sessions_total: usize = sessions.len();
    let sessions_running: usize = count_sessions(sessions, "running");
    let sessions_done: usize = count_sessions(sessions, "done");
    let sessions_failed: usize = count_sessions(sessions, "failed");
    proof {
        statuses_are_apart(sessions.entries());
    }
    let sessions_other: usize = sessions_total - sessions_running - sessions_done
        - sessions_failed;
    StatsResponse {
        sessions_total,
        sessions_running,
        sessions_done,
        sessions_failed,
        sessions_other,
        hitl_total: hitl.len(),
        hitl_pending: count_decisions(hitl, "pending"),
        hitl_resolved: count_decisions(hitl, "resolved"),
    }
}

// ---------------------------------------------------------------- decisions

/// A decision that a run asks for.
pub open spec fn asked_decision(
    id: Seq<char>,
    session_id: Seq<char>,
    workflow: Seq<char>,
    stage_id: Seq<char>,
    prompt: Option<Seq<char>>,
    options: Seq<Seq<char>>,
    now: u64,
) -> PendingView {
    PendingView {
        id,
        session_id,
        workflow,
        stage_id,
        prompt,
        options,
        status: "pending"@,
        decision: None,
        created_at: now,
    }
}

/// Records that a run asks for a decision, and applies retention.
pub fn ask_decision(
    hitl: &mut StrMap<HitlPending>,
    id: &str,
    request: &HitlRequest,
    now: u64,
    max_hitl: usize,
)
    ensures
        final(hitl).entries() == retained(
            put(
                old(hitl).entries(),
                id@,
                asked_decision(
                    id@,
                    request.session_id@,
                    request.workflow@,
                    request.stage_id@,
                    opt_text(request.prompt),
                    texts(request.options@),
                    now,
                ),
            ),
            max_hitl,
        ),
{
    let item = HitlPending {
        id: id.to_owned(),
        session_id: request.session_id.clone(),
        workflow: request.workflow.clone(),
        stage_id: request.stage_id.clone(),
        prompt: clone_opt(&request.prompt),
        options: clone_texts(&request.options),
        status: "pending".to_owned(),
        decision: None,
        created_at: now,
    };
    hitl.insert(id.to_owned(), item);
    prune_hitl_in_place(hitl, max_hitl);
}

/// What a run that waits for a decision finds: the decision, nothing yet, or a
/// rejection where its request is gone.
pub open spec fn decision_found(entries: Seq<(Seq<char>, PendingView)>, id: Seq<char>) -> Option<
    Seq<char>,
> {
    match lookup(entries, id) {
        None => Some("reject"@),
        Some(item) => item.decision,
    }
}

/// The decision that a run waits for, once it is there.
pub fn poll_decision(hitl: &StrMap<HitlPending>, id: &str) -> (r: Option<String>)
    ensures
        opt_text(r) == decision_found(hitl.entries(), id@),
{
    match hitl.get(id) {
        None => Some("reject".to_owned()),
        Some(item) => clone_opt(&item.decision),
    }
}

/// A decision that has been taken.
pub open spec fn resolved_decision(item: PendingView, decision: Seq<char>) -> PendingView {
    PendingView { decision: Some(decision), status: "resolved"@, ..item }
}

/// Records a decision, applies retention, and returns it.
pub fn resolve_hitl(hitl: &mut StrMap<HitlPending>, id: &str, decision: &str, max_hitl: usize) -> (r:
    Result<HitlPending, Refusal>)
    ensures
        if blank(decision@) {
            &&& final(hitl).entries() == old(hitl).entries()
            &&& r is Err && r->Err_0@ == (RefusalView {
                status: 400,
                message: "decision is required"@,
            })
        } else {
            match lookup(old(hitl).entries(), id@) {
                None => {
                    &&& final(hitl).entries() == old(hitl).entries()
                    &&& r is Err && r->Err_0@ == (RefusalView {
                        status: 404,
                        message: "hitl request not found"@,
                    })
                },
                Some(item) => {
                    &&& r is Ok && r->Ok_0@ == resolved_decision(item, trimmed(decision@))
                    &&& final(hitl).entries() == retained(
                        put(
                            old(hitl).entries(),
                            id@,
                            resolved_decision(item, trimmed(decision@)),
                        ),
                        max_hitl,
                    )
                },
            }
        },
{
    let decision = trim(decision);
    if decision.is_empty() {
        return Err(refuse(400, "decision is required"));
    }
    let resolved = match hitl.get(id) {
        None => {
            return Err(refuse(404, "hitl request not found"));
        },
        Some(item) => {
            let mut item = item.copied();
            item.decision = Some(decision.to_owned());
            item.status = "resolved".to_owned();
            item
        },
    };
    let answer = resolved.copied();
    hitl.insert(id.to_owned(), resolved);
    prune_hitl_in_place(hitl, max_hitl);
    Ok(answer)
}

/// A run that waits finds the decision that was recorded for it, also after
/// retention has been applied, where that has nothing to remove.
pub proof fn waiting_run_gets_decision(
    entries: Seq<(Seq<char>, PendingView)>,
    id: Seq<char>,
    item: PendingView,
    decision: Seq<char>,
    max_hitl: usize,
)
    requires
        max_hitl == 0 || put(entries, id, resolved_decision(item, decision)).len() <= max_hitl,
    ensures
        decision_found(
            retained(put(entries, id, resolved_decision(item, decision)), max_hitl),
            id,
        ) == Some(decision),
{
    put_spec(entries, id, resolved_decision(item, decision));
}

/// Whether a session with this status has no more to say.
pub fn stream_ends(status: &str) -> (r: bool)
    ensures
        r == (status@ == "done"@ || status@ == "failed"@ || status@ == "stopped"@),
{
    same(status, "done") || same(status, "failed") || same(status, "stopped")
}

/// What a follower of a run's logs is sent.
pub struct WsLogFrame {
    pub id: String,
    pub status: String,
    pub runtime_session_id: Option<String>,
    pub logs: StrMap<String>,
    pub errors: Vec<String>,
}

/// What to send of a session and its logs, and whether that is the last of it.
/// A session that is not there is told so at once.
pub fn log_frame(id: &str, session: Option<&SessionInfo>, logs: StrMap<String>) -> (r: (
    WsLogFrame,
    bool,
))
    ensures
        match session {
            Some(session) => {
                &&& r.0.id@ == session.id@
                &&& r.0.status@ == session.status@
                &&& opt_text(r.0.runtime_session_id) == opt_text(session.runtime_session_id)
                &&& r.0.logs == logs
                &&& texts(r.0.errors@) == texts(session.errors@)
                &&& r.1 == (session.status@ == "done"@ || session.status@ == "failed"@
                    || session.status@ == "stopped"@)
            },
            None => {
                &&& r.0.id@ == id@
                &&& r.0.status@ == "not_found"@
                &&& r.0.runtime_session_id is None
                &&& r.0.logs.entries() == Seq::<(Seq<char>, Seq<char>)>::empty()
                &&& texts(r.0.errors@) == seq!["session not found"@]
                &&& r.1
            },
        },
{
    match session {
        Some(session) => {
            let last = stream_ends(session.status.as_str());
            let frame = WsLogFrame {
                id: session.id.clone(),
                status: session.status.clone(),
                runtime_session_id: clone_opt(&session.runtime_session_id),
                logs,
                errors: clone_texts(&session.errors),
            };
            (frame, last)
        },
        None => {
            let mut errors: Vec<String> = Vec::new();
            errors.push("session not found".to_owned());
            assert(texts(errors@) =~= seq!["session not found"@]);
            let frame = WsLogFrame {
                id: id.to_owned(),
                status: "not_found".to_owned(),
                runtime_session_id: None,
                logs: StrMap::new(),
                errors,
            };
            (frame, true)
        },
    }
}

} // verus!
